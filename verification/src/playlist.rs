//! Playlist and track management.

use vstd::prelude::*;

use crate::config;
use crate::text::same_text;

verus! {

#[derive(Debug, Clone, PartialEq, Eq)]
pub struct Track {
    pub id: String,
    pub title: String,
    pub artist: String,
    pub audio: String,
    pub lyrics: String,
}

/// A track as plain values.
pub struct TrackView {
    pub id: Seq<char>,
    pub title: Seq<char>,
    pub artist: Seq<char>,
    pub audio: Seq<char>,
    pub lyrics: Seq<char>,
}

impl View for Track {
    type V = TrackView;

    open spec fn view(&self) -> TrackView {
        TrackView {
            id: self.id@,
            title: self.title@,
            artist: self.artist@,
            audio: self.audio@,
            lyrics: self.lyrics@,
        }
    }
}

/// The artist a track gets when nothing names one.
pub fn default_artist() -> (r: String)
    ensures
        r@ == config::UNKNOWN_ARTIST@,
{
    String::from_str(config::UNKNOWN_ARTIST)
}

/// The track played when neither a folder nor a playlist file supplies one.
pub fn default_track() -> (t: Track)
    ensures
        t@.id == "default"@,
        t@.title == config::SONG_NAME@,
        t@.artist == config::UNKNOWN_ARTIST@,
        t@.audio == config::SONG_FILE@,
        t@.lyrics == config::LYRIC_JSON@,
{
    Track {
        id: String::from_str("default"),
        title: String::from_str(config::SONG_NAME),
        artist: default_artist(),
        audio: String::from_str(config::SONG_FILE),
        lyrics: String::from_str(config::LYRIC_JSON),
    }
}

impl TrackView {
    /// Whether the track names a real artist.
    pub open spec fn has_artist(self) -> bool {
        self.artist.len() > 0 && self.artist != config::UNKNOWN_ARTIST@
    }

    /// `Title - Artist`, or just the title when no artist is known.
    pub open spec fn display_name(self) -> Seq<char> {
        if self.has_artist() {
            self.title + " - "@ + self.artist
        } else {
            self.title
        }
    }
}

impl Track {
    /// Whether the track names a real artist.
    pub fn has_artist(&self) -> (r: bool)
        ensures
            r == self@.has_artist(),
    {
        let known = !(self.artist.as_str().is_empty() || same_text(self.artist.as_str(), config::UNKNOWN_ARTIST));
        proof {
            if self.artist@.len() == 0 {
                assert(self.artist@ != config::UNKNOWN_ARTIST@ ==> !self@.has_artist());
            }
        }
        known
    }

    /// `Title - Artist`, or just the title when no artist is known.
    pub fn display_name(&self) -> (r: String)
        ensures
            r@ == self@.display_name(),
    {
        if self.artist.as_str().is_empty() || same_text(self.artist.as_str(), config::UNKNOWN_ARTIST) {
            proof {
                if self.artist@.len() == 0 {
                    assert(self.artist@ != config::UNKNOWN_ARTIST@ ==> !self@.has_artist());
                }
            }
            self.title.clone()
        } else {
            let mut r = self.title.clone();
            r.append(" - ");
            r.append(self.artist.as_str());
            r
        }
    }
}

#[derive(Debug, Clone)]
pub struct Playlist {
    pub tracks: Vec<Track>,
}

impl Default for Playlist {
    fn default() -> (p: Self)
        ensures
            p.tracks@.len() == 0,
    {
        Playlist { tracks: Vec::new() }
    }
}

/// The track after `current` in a playlist of `len` tracks, wrapping round.
pub open spec fn spec_next_index(len: nat, current: int) -> int {
    if len == 0 { 0 } else { (current + 1) % (len as int) }
}

/// The track before `current` in a playlist of `len` tracks, wrapping round
/// from the first to the last.
pub open spec fn spec_prev_index(len: nat, current: int) -> int {
    if len == 0 {
        0
    } else if current == 0 {
        len - 1
    } else {
        current - 1
    }
}

impl Playlist {
    pub fn is_empty(&self) -> (r: bool)
        ensures
            r == (self.tracks@.len() == 0),
    {
        self.tracks.len() == 0
    }

    pub fn len(&self) -> (r: usize)
        ensures
            r == self.tracks@.len(),
    {
        self.tracks.len()
    }

    pub fn get(&self, index: usize) -> (r: Option<&Track>)
        ensures
            index < self.tracks@.len() ==> r == Some(&self.tracks@[index as int]),
            index >= self.tracks@.len() ==> r is None,
    {
        if index < self.tracks.len() {
            Some(&self.tracks[index])
        } else {
            None
        }
    }

    pub fn next_index(&self, current: usize) -> (r: usize)
        requires
            self.tracks@.len() > 0 ==> current < usize::MAX,
        ensures
            r == spec_next_index(self.tracks@.len(), current as int),
    {
        if self.tracks.len() == 0 {
            0
        } else {
            (current + 1) % self.tracks.len()
        }
    }

    /// The track a request for `index` plays: the index wrapped round the
    /// list, or nothing for an empty list.
    pub fn wrapped(&self, index: usize) -> (r: Option<usize>)
        ensures
            self.tracks@.len() == 0 ==> r is None,
            self.tracks@.len() > 0 ==> r == Some((index as nat % self.tracks@.len()) as usize),
    {
        if self.tracks.len() == 0 {
            None
        } else {
            Some(index % self.tracks.len())
        }
    }

    pub fn prev_index(&self, current: usize) -> (r: usize)
        ensures
            r == spec_prev_index(self.tracks@.len(), current as int),
    {
        if self.tracks.len() == 0 {
            0
        } else if current == 0 {
            self.tracks.len() - 1
        } else {
            current - 1
        }
    }
}

/// Stepping forward and back through a playlist stays inside it and undoes
/// itself: from any track, the next track's previous one and the previous
/// track's next one are the track itself.
pub proof fn lemma_next_prev_undo(len: nat, current: int)
    requires
        0 <= current < len,
    ensures
        0 <= spec_next_index(len, current) < len,
        0 <= spec_prev_index(len, current) < len,
        spec_prev_index(len, spec_next_index(len, current)) == current,
        spec_next_index(len, spec_prev_index(len, current)) == current,
{
    if current + 1 < len {
        vstd::arithmetic::div_mod::lemma_small_mod((current + 1) as nat, len);
    } else {
        vstd::arithmetic::div_mod::lemma_mod_self_0(len as int);
    }
    if current > 0 {
        vstd::arithmetic::div_mod::lemma_small_mod(current as nat, len);
    } else {
        vstd::arithmetic::div_mod::lemma_mod_self_0(len as int);
    }
}

/// `n` steps forward from `current`.
pub open spec fn steps_forward(len: nat, current: int, n: nat) -> int
    decreases n,
{
    if n == 0 {
        current
    } else {
        spec_next_index(len, steps_forward(len, current, (n - 1) as nat))
    }
}

/// Stepping forward is a cycle: from a track in the playlist, `n` steps land
/// `n` places further on, counted round the list, so a full lap comes back to
/// where it began.
pub proof fn lemma_next_cycles(len: nat, current: int, n: nat)
    requires
        0 <= current < len,
    ensures
        steps_forward(len, current, n) == (current + n) % (len as int),
        steps_forward(len, current, len) == current,
{
    lemma_steps_mod(len, current, n);
    lemma_steps_len(len, current);
}

proof fn lemma_steps_len(len: nat, current: int)
    requires
        0 <= current < len,
    ensures
        steps_forward(len, current, len) == current,
{
    lemma_steps_mod(len, current, len);
    vstd::arithmetic::div_mod::lemma_mod_add_multiples_vanish(current, len as int);
    vstd::arithmetic::div_mod::lemma_small_mod(current as nat, len);
}

proof fn lemma_steps_mod(len: nat, current: int, n: nat)
    requires
        0 <= current < len,
    ensures
        steps_forward(len, current, n) == (current + n) % (len as int),
    decreases n,
{
    if n == 0 {
        vstd::arithmetic::div_mod::lemma_small_mod(current as nat, len);
    } else {
        lemma_steps_mod(len, current, (n - 1) as nat);
        let prev = steps_forward(len, current, (n - 1) as nat);
        vstd::arithmetic::div_mod::lemma_add_mod_noop(current + n - 1, 1, len as int);
        vstd::arithmetic::div_mod::lemma_mod_twice(current + n - 1, len as int);
        vstd::arithmetic::div_mod::lemma_add_mod_noop(prev, 1, len as int);
        vstd::arithmetic::div_mod::lemma_mod_twice(prev, len as int);
    }
}

} // verus!
