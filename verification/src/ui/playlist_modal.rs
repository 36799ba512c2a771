//! The playlist and folder manager dialog.

use vstd::prelude::*;

use crate::config;
use crate::i18n::Phrase;
use crate::playlist::Track;
use crate::text::{padded, push_padded, string_from, string_of};

verus! {

/// Which tab of the dialog is open.
#[derive(Clone, Copy, Debug, PartialEq, Eq, Structural)]
pub enum ModalTab {
    Tracks,
    Folders,
}

impl Default for ModalTab {
    fn default() -> (t: Self)
        ensures
            t == ModalTab::Tracks,
    {
        ModalTab::Tracks
    }
}

/// The mark at the start of a row.
#[derive(Clone, Copy, Debug, PartialEq, Eq, Structural)]
pub enum RowMark {
    /// The track being played, while it plays.
    Playing,
    /// The track being played, while it is paused.
    Paused,
    /// The row under the cursor.
    Cursor,
    /// Any other row.
    Blank,
}

/// How strongly a row is drawn.
#[derive(Clone, Copy, Debug, PartialEq, Eq, Structural)]
pub enum Emphasis {
    /// The track being played.
    Current,
    /// The row under the cursor.
    Selected,
    Plain,
}

/// What one row of the track list shows.
#[derive(Clone, Debug)]
pub struct TrackRow {
    pub mark: RowMark,
    /// "[NN] ": the position in the list counting from one, two digits at
    /// least.
    pub number: String,
    pub title: String,
    /// " - Artist", or nothing when no artist is known.
    pub artist: String,
    pub emphasis: Emphasis,
    /// The live badge at the end of the row of the track being played.
    pub live_badge: bool,
}

/// "[NN] " for the row at `index`.
pub open spec fn row_number(index: nat) -> Seq<char> {
    seq!['['] + padded(index + 1, 2) + seq![']', ' ']
}

fn row_number_text(index: usize) -> (r: String)
    requires
        index < usize::MAX,
    ensures
        r@ == row_number(index as nat),
{
    let mut out: Vec<char> = Vec::new();
    out.push('[');
    push_padded(&mut out, (index + 1) as u64, 2);
    out.push(']');
    out.push(' ');
    string_of(&out)
}

/// The mark of the track row at `index`.
pub open spec fn track_mark(index: nat, current: nat, cursor: nat, is_playing: bool) -> RowMark {
    if index == current {
        if is_playing { RowMark::Playing } else { RowMark::Paused }
    } else if index == cursor {
        RowMark::Cursor
    } else {
        RowMark::Blank
    }
}

/// The emphasis of the row at `index`: the track being played first, then
/// the row under the cursor.
pub open spec fn row_emphasis(index: nat, current: nat, cursor: nat) -> Emphasis {
    if index == current {
        Emphasis::Current
    } else if index == cursor {
        Emphasis::Selected
    } else {
        Emphasis::Plain
    }
}

/// The row of the track list for `track` at `index`, with `current` the
/// track being played and `cursor` the row under the cursor.
pub fn track_row(index: usize, track: &Track, current: usize, cursor: usize, is_playing: bool) -> (r: TrackRow)
    requires
        index < usize::MAX,
    ensures
        r.mark == track_mark(index as nat, current as nat, cursor as nat, is_playing),
        r.number@ == row_number(index as nat),
        r.title@ == track@.title,
        r.artist@ == (if track@.has_artist() { " - "@ + track@.artist } else { Seq::<char>::empty() }),
        r.emphasis == row_emphasis(index as nat, current as nat, cursor as nat),
        r.live_badge == (index == current),
{
    let is_current = index == current;
    let mark = if is_current {
        if is_playing { RowMark::Playing } else { RowMark::Paused }
    } else if index == cursor {
        RowMark::Cursor
    } else {
        RowMark::Blank
    };
    let emphasis = if is_current {
        Emphasis::Current
    } else if index == cursor {
        Emphasis::Selected
    } else {
        Emphasis::Plain
    };
    let artist = if track.has_artist() {
        let mut a = string_from(" - ");
        a.append(track.artist.as_str());
        a
    } else {
        String::new()
    };
    TrackRow {
        mark,
        number: row_number_text(index),
        title: track.title.clone(),
        artist,
        emphasis,
        live_badge: is_current,
    }
}

/// What one row of the folder list shows.
#[derive(Clone, Debug)]
pub struct FolderRow {
    /// The cursor is on this row: it carries the cursor mark and is drawn
    /// highlighted.
    pub selected: bool,
    /// "[NN] ", as for tracks.
    pub number: String,
}

/// The row of the folder list at `index`.
pub fn folder_row(index: usize, folder_cursor: usize) -> (r: FolderRow)
    requires
        index < usize::MAX,
    ensures
        r.selected == (index == folder_cursor),
        r.number@ == row_number(index as nat),
{
    FolderRow { selected: index == folder_cursor, number: row_number_text(index) }
}

/// The rows of a list of `n` entries the dialog shows: the page that holds
/// the cursor (the last entry when the cursor is past the end), from its
/// first row up to, not including, the second value.
pub open spec fn spec_page_of(cursor: usize, n: usize) -> (usize, usize) {
    if n == 0 {
        (0, 0)
    } else {
        let c = if cursor < n { cursor as int } else { n - 1 };
        let from = (c / config::MODAL_PAGE_ROWS as int) * config::MODAL_PAGE_ROWS;
        let to = if from + config::MODAL_PAGE_ROWS < n { from + config::MODAL_PAGE_ROWS } else { n as int };
        (from as usize, to as usize)
    }
}

/// The rows of a list of `n` entries the dialog shows.
pub fn page_of(cursor: usize, n: usize) -> (r: (usize, usize))
    ensures
        r == spec_page_of(cursor, n),
        n > 0 ==> r.0 <= (if cursor < n { cursor } else { (n - 1) as usize }) < r.1 <= n,
        r.1 - r.0 <= config::MODAL_PAGE_ROWS,
        r.0 % config::MODAL_PAGE_ROWS == 0,
{
    if n == 0 {
        return (0, 0);
    }
    let c = if cursor < n { cursor } else { n - 1 };
    let from = (c / config::MODAL_PAGE_ROWS) * config::MODAL_PAGE_ROWS;
    let to = if n - from > config::MODAL_PAGE_ROWS { from + config::MODAL_PAGE_ROWS } else { n };
    (from, to)
}

/// The widest the dialog gets.
pub const MODAL_MAX_WIDTH: usize = 88;

/// The dialog's width: what the panel offers, capped.
pub fn modal_width(available: usize) -> (r: usize)
    ensures
        r == (if available < MODAL_MAX_WIDTH { available } else { MODAL_MAX_WIDTH }),
{
    if available < MODAL_MAX_WIDTH {
        available
    } else {
        MODAL_MAX_WIDTH
    }
}

/// The hint line at the foot of the dialog: the track keys on the track
/// tab, the prompt keys while a folder path is typed, the yes/no question
/// while a deletion waits for its answer, the folder keys otherwise.
pub open spec fn spec_footer_hint(tab: ModalTab, is_adding_folder: bool, confirming_delete: bool) -> Phrase {
    match tab {
        ModalTab::Tracks => Phrase::FooterHints,
        ModalTab::Folders => if is_adding_folder {
            Phrase::AddFolderHints
        } else if confirming_delete {
            Phrase::ConfirmDeleteHints
        } else {
            Phrase::FolderFooterHints
        },
    }
}

/// Which hint line the dialog shows.
pub fn footer_hint(tab: ModalTab, is_adding_folder: bool, confirming_delete: bool) -> (r: Phrase)
    ensures
        r == spec_footer_hint(tab, is_adding_folder, confirming_delete),
{
    match tab {
        ModalTab::Tracks => Phrase::FooterHints,
        ModalTab::Folders => if is_adding_folder {
            Phrase::AddFolderHints
        } else if confirming_delete {
            Phrase::ConfirmDeleteHints
        } else {
            Phrase::FolderFooterHints
        },
    }
}

/// The rows of the track list are marked by what they hold: the track being
/// played shows playing or paused and the current emphasis wherever the
/// cursor is; another row under the cursor shows the cursor mark and the
/// selected emphasis; every other row is plain and unmarked.
pub proof fn lemma_rows_show_play_and_cursor(index: nat, current: nat, cursor: nat, is_playing: bool)
    ensures
        index == current ==> track_mark(index, current, cursor, is_playing) == (if is_playing {
            RowMark::Playing
        } else {
            RowMark::Paused
        }) && row_emphasis(index, current, cursor) == Emphasis::Current,
        index != current && index == cursor ==> track_mark(index, current, cursor, is_playing) == RowMark::Cursor
            && row_emphasis(index, current, cursor) == Emphasis::Selected,
        index != current && index != cursor ==> track_mark(index, current, cursor, is_playing) == RowMark::Blank
            && row_emphasis(index, current, cursor) == Emphasis::Plain,
{
}

/// The hint line fits what the keys do: the track keys on the track tab;
/// on the folder tab the path prompt's keys while a path is typed, the
/// yes/no question while a deletion waits, the folder keys otherwise.
pub proof fn lemma_hint_fits_the_keys(tab: ModalTab, is_adding_folder: bool, confirming_delete: bool)
    ensures
        tab == ModalTab::Tracks ==> spec_footer_hint(tab, is_adding_folder, confirming_delete) == Phrase::FooterHints,
        tab == ModalTab::Folders && is_adding_folder ==> spec_footer_hint(tab, is_adding_folder, confirming_delete)
            == Phrase::AddFolderHints,
        tab == ModalTab::Folders && !is_adding_folder && confirming_delete ==> spec_footer_hint(
            tab,
            is_adding_folder,
            confirming_delete,
        ) == Phrase::ConfirmDeleteHints,
        tab == ModalTab::Folders && !is_adding_folder && !confirming_delete ==> spec_footer_hint(
            tab,
            is_adding_folder,
            confirming_delete,
        ) == Phrase::FolderFooterHints,
{
}

} // verus!
