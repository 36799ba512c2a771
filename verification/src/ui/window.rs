//! Which lyric lines fill the window around the one being sung.

use vstd::prelude::*;

use crate::lyrics::{lines_view, Sentence, SentenceView};
use crate::ui::lyric_line::Status;

verus! {

/// One row of the lyric window.
#[derive(Clone, Copy, Debug, PartialEq, Eq)]
pub enum Slot {
    /// Nothing is drawn, but the row keeps its place.
    Blank,
    /// The line at `index`, drawn as `status`.
    Line { index: usize, status: Status },
}

/// Whether a note line sits after `active` and before `idx`.
pub open spec fn gap_between(lines: Seq<SentenceView>, active: int, idx: int) -> bool {
    exists|g: int| active < g < idx && 0 <= g < lines.len() && #[trigger] lines[g].is_gap
}

/// What the row for line `idx` shows when line `active` is being sung.
///
/// A row past either end of the lyrics is blank. Lines after an upcoming
/// instrumental break stay hidden, so the break reads as a pause rather than
/// a preview of what follows. Before the first manual seek, lines that ended
/// before the configured start time are left blank rather than shown as
/// already sung.
pub open spec fn spec_slot(
    lines: Seq<SentenceView>,
    active: int,
    idx: int,
    render_past: bool,
    start_ms: i64,
) -> Slot {
    if idx < 0 || idx >= lines.len() {
        Slot::Blank
    } else if idx > active && !lines[idx].is_gap && gap_between(lines, active, idx) {
        Slot::Blank
    } else if !render_past && !lines[idx].is_gap && lines[idx].end() < start_ms {
        Slot::Blank
    } else {
        Slot::Line {
            index: idx as usize,
            status: if idx < active {
                Status::Past
            } else if idx == active {
                Status::Active
            } else {
                Status::Future
            },
        }
    }
}

/// Only the centre row of the window can hold the line being sung, and the
/// rows either side show the lines before it as past and those after it as
/// upcoming.
pub proof fn lemma_only_the_centre_is_sung(
    lines: Seq<SentenceView>,
    active: int,
    half: int,
    k: int,
    render_past: bool,
    start_ms: i64,
)
    requires
        0 <= k <= 2 * half,
        0 <= active,
        lines.len() <= usize::MAX,
    ensures
        spec_slot(lines, active, active + k - half, render_past, start_ms) matches Slot::Line { index, status } ==> {
            &&& index == active + k - half
            &&& (status == Status::Active <==> k == half)
            &&& (status == Status::Past <==> k < half)
        },
{
}

/// How the line at `idx` is drawn against the line `active` being sung.
pub open spec fn position_status(active: int, idx: int) -> Status {
    if idx < active {
        Status::Past
    } else if idx == active {
        Status::Active
    } else {
        Status::Future
    }
}

/// What decides whether a lyric line is drawn. Take a real lyric line
/// (not a note line) inside the lyrics with no note line between the line
/// being sung and it. It is left blank only before the first seek and only
/// when it ended before the start time; otherwise it is drawn as itself,
/// past, active or upcoming by where it stands against the line being sung.
/// So once a seek has been made, and from the start for every line that had
/// not ended by the start time, the lines above the one being sung are
/// drawn as past.
pub proof fn lemma_blank_only_before_the_start(
    lines: Seq<SentenceView>,
    active: int,
    idx: int,
    render_past: bool,
    start_ms: i64,
)
    requires
        0 <= idx < lines.len(),
        lines.len() <= usize::MAX,
        !lines[idx].is_gap,
        !gap_between(lines, active, idx),
    ensures
        spec_slot(lines, active, idx, render_past, start_ms) == Slot::Blank <==> (!render_past && lines[idx].end()
            < start_ms),
        (render_past || lines[idx].end() >= start_ms) ==> spec_slot(lines, active, idx, render_past, start_ms)
            == (Slot::Line { index: idx as usize, status: position_status(active, idx) }),
{
}

/// Note lines are always drawn, and a lyric line after an upcoming note
/// line is always blank, so an instrumental break reads as a pause; rows
/// beyond either end of the lyrics are blank.
pub proof fn lemma_breaks_hide_what_follows(
    lines: Seq<SentenceView>,
    active: int,
    idx: int,
    render_past: bool,
    start_ms: i64,
)
    requires
        lines.len() <= usize::MAX,
    ensures
        (idx < 0 || idx >= lines.len()) ==> spec_slot(lines, active, idx, render_past, start_ms) == Slot::Blank,
        0 <= idx < lines.len() && lines[idx].is_gap ==> (spec_slot(lines, active, idx, render_past, start_ms)
            is Line),
        (exists|g: int| active < g < idx && 0 <= g < lines.len() && #[trigger] lines[g].is_gap) && 0 <= idx
            < lines.len() && !lines[idx].is_gap ==> spec_slot(lines, active, idx, render_past, start_ms)
            == Slot::Blank,
{
}

/// The rows for lines `active - half` to `active + half`.
pub fn visible_slots(
    sentences: &[Sentence],
    active: usize,
    half: usize,
    render_past: bool,
    start_ms: i64,
) -> (slots: Vec<Slot>)
    requires
        active + 2 * half + 1 <= usize::MAX,
    ensures
        slots@.len() == 2 * half + 1,
        forall|k: int|
            0 <= k < slots@.len() ==> #[trigger] slots@[k] == spec_slot(
                lines_view(sentences@),
                active as int,
                active + k - half,
                render_past,
                start_ms,
            ),
{
    let ghost lines = lines_view(sentences@);
    let n = sentences.len();
    let mut slots: Vec<Slot> = Vec::new();
    let mut hit_future_gap = false;
    let count = 2 * half + 1;
    let mut k: usize = 0;
    while k < count
        invariant
            k <= count,
            count == 2 * half + 1,
            active + count <= usize::MAX,
            n == lines.len(),
            lines == lines_view(sentences@),
            slots@.len() == k,
            hit_future_gap == gap_between(lines, active as int, active + k - half),
            forall|j: int|
                0 <= j < k ==> #[trigger] slots@[j] == spec_slot(
                    lines,
                    active as int,
                    active + j - half,
                    render_past,
                    start_ms,
                ),
        decreases count - k,
    {
        let ghost idx = active + k - half;
        let slot = if active + k < half || active + k - half >= n {
            Slot::Blank
        } else {
            let i = active + k - half;
            let s = &sentences[i];
            let is_future = i > active;
            if is_future && s.is_gap {
                hit_future_gap = true;
            }
            if hit_future_gap && is_future && !s.is_gap {
                Slot::Blank
            } else if !render_past && !s.is_gap && s.end() < start_ms {
                Slot::Blank
            } else {
                let status = if i < active {
                    Status::Past
                } else if i == active {
                    Status::Active
                } else {
                    Status::Future
                };
                Slot::Line { index: i, status }
            }
        };
        proof {
            // Whether a gap has been passed, one row further on.
            if gap_between(lines, active as int, idx + 1) && !gap_between(lines, active as int, idx) {
                let g = choose|g: int|
                    active < g < idx + 1 && 0 <= g < lines.len() && #[trigger] lines[g].is_gap;
                assert(g == idx);
            }
            if gap_between(lines, active as int, idx) {
                let g = choose|g: int| active < g < idx && 0 <= g < lines.len() && #[trigger] lines[g].is_gap;
                assert(active < g < idx + 1 && 0 <= g < lines.len() && lines[g].is_gap);
            }
            if 0 <= idx < lines.len() && idx > active && lines[idx].is_gap {
                assert(active < idx < idx + 1 && 0 <= idx < lines.len() && lines[idx].is_gap);
            }
        }
        slots.push(slot);
        k = k + 1;
    }
    slots
}

} // verus!
