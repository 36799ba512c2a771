//! Everything tunable lives here.

use vstd::prelude::*;

verus! {

// ── Strings ────────────────────────────────────────────────────────────

pub const APP_NAME: &'static str = "Karaoke";
pub const LIVE_LABEL: &'static str = "● LIVE";
pub const PAUSED_LABEL: &'static str = "⏸ PAUSED";
pub const SONG_NAME: &'static str = "Tìm Em - Hngle, Bảo Anh";
pub const SONG_FILE: &'static str = "b.mp3";
pub const GAP_TEXT: &'static str = "♫  ♪  ♫  ♪  ♫  ♪  ♫";
pub const GAP_ALT_TEXT: &'static str = "♪  ♫  ♪  ♫  ♪  ♫  ♪";
pub const UNKNOWN_ARTIST: &'static str = "Unknown Artist";

// Lyric animation timings
pub const AFTERGLOW_DURATION_MS: i64 = 240;
pub const ANTICIPATION_MS: i64 = 150;

/// How often the note pattern of an instrumental break swaps.
pub const GAP_PATTERN_MS: i64 = 800;
/// How often the live marker blinks.
pub const LIVE_BLINK_MS: i64 = 500;
/// How long each step of the marker's dance lasts.
pub const DANCING_INDICATOR_MS: i64 = 450;

// ── Timings, all milliseconds ──────────────────────────────────────────

/// Where playback starts. Format is `H:MM:SS` or `MM:SS`.
pub const START_TIME: &'static str = "0:00:00";

/// One frame of the render loop. Also the character fill resolution.
pub const TICK_INTERVAL_MS: u64 = 30;

/// How long each step of the title ticker lasts.
pub const TICKER_SCROLL_MS: i64 = 350;
/// How long the active line takes to glide to the next one.
pub const SCROLL_TRANSITION_MS: i64 = 500;

pub const GAP_INITIAL_THRESHOLD_MS: i64 = 3000;
pub const GAP_INTER_THRESHOLD_MS: i64 = 2000;
pub const GAP_BUFFER_MS: i64 = 500;
pub const SEEK_STEP_MS: i64 = 5000;

/// How far into a line the skip back button restarts it instead of moving to
/// the one before.
pub const RESTART_WINDOW_MS: i64 = 1500;

// ── Symbols ────────────────────────────────────────────────────────────

/// The marker either side of the line being sung.
pub const MUSIC_NOTES: [&'static str; 1] = [" ♪ "];
pub const SEPARATOR_HORIZONTAL: &'static str = "─";
pub const VBAR: &'static str = " │ ";

// Progress bar.
pub const TIMELINE_FILLED: char = '━';
pub const TIMELINE_EMPTY: char = '─';
pub const TIMELINE_MARKER: char = '●';
pub const TIMELINE_CAP_LEFT: &'static str = " ╶";
pub const TIMELINE_CAP_RIGHT: &'static str = "╴ ";

/// Draw the song's loudness over time instead of a plain bar. Off by default.
pub const WAVEFORM_TIMELINE: bool = false;

// ── Layout ─────────────────────────────────────────────────────────────

/// How many lyric lines are on screen at once. Odd, so one sits dead centre.
pub const WINDOW_SIZE: usize = 7;
pub const MAX_BOX_WIDTH: usize = 120;

/// Blank rows between lyric lines.
pub const LINE_SPACING: usize = 1;

/// Columns left empty either side of the panel.
pub const SAFE_MARGIN: usize = 4;
pub const SHOW_KEYBINDS: bool = false;
pub const RENDER_PAST_ON_START: bool = false;

/// Whether the detected note is in the header at startup.
pub const SHOW_NOTE: bool = false;

/// Which end of the `S` cycle the app starts on.
pub const SHOW_SPECTRUM: bool = false;

/// Terminal rows given to the spectrum. Each row is 4 braille pixels tall.
pub const SPECTRUM_ROWS: usize = 4;

/// Rows of the playlist dialog shown at once; the page keys move a page.
pub const MODAL_PAGE_ROWS: usize = 10;

// ── Paths ──────────────────────────────────────────────────────────────

pub const LYRIC_JSON: &'static str = "data/lr.json";
pub const DATA_DIR: &'static str = "data";

} // verus!
