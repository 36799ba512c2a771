# sound_player

A terminal karaoke player: lyrics filled in time with the song, grapheme by
grapheme, an instrumental-break line for long gaps, a braille spectrum, a
playlist built from music folders kept in SQLite, and keyboard and mouse
transport controls.

## Layout

- `src/` is the library, written in Verus. Every function carries a contract
  and is proved against it. It holds the rules of the player: lyric lines and
  gaps, which piece of a line is lit and how, the lyric window, the layout of
  the panel, the key bindings as a state machine, the progress bar, the
  ticker and clocks, the braille canvas and the spectrum drawing, naming and
  sorting tracks found on disk, choosing a song's audio file, themes and
  languages.
- `app/` is the program around it: the terminal (iocraft), the audio device
  and decoder (rodio), the FFT analyser and pitch detector (rustfft and float
  arithmetic), SQLite (rusqlite) and the file system. It turns what it reads
  into plain values, asks the library what to do, and draws the answer.
- `tests/` exercises the library on concrete values.

The calls the library makes into other code (`unicode-segmentation` for
grapheme clusters, a few `std` string and path functions) go through small
trusted wrappers whose contracts say what the called code does.
