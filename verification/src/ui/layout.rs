//! Fitting the interface into whatever the terminal gives us.
//!
//! The panel has one elastic part, the lyric window, and a lot of chrome
//! around it. At full size it wants more rows than a standard 80x24 terminal
//! has once anything else is on screen, so the chrome is dropped in order of
//! how little it matters until the whole thing fits. Lyrics are never given
//! up: there is always at least one line.
//!
//! The degradation is a fixed sequence of stages: stage 0 is the full design,
//! stages 1 to 5 give up the blank rows between lines, the padding, the
//! transport row, the rules and the ticker, the next stages take the spectrum
//! down one row at a time, and the last ones drop lyric lines two at a time.
//! The layout is the first stage that fits, or the last stage when none does.

use vstd::prelude::*;

use crate::config;
use crate::ui::footer::{spec_timeline_rows, timeline_rows};

verus! {

/// Rows that exist no matter what: two border rows and the header. The
/// timeline is added on top, since its height depends on which style is on.
pub const ESSENTIAL_ROWS: usize = 3;

#[derive(Debug, Clone, Copy, PartialEq)]
pub struct Layout {
    pub box_width: usize,
    /// Usable width inside the panel, after border and padding.
    pub inner_width: usize,
    /// Lyric lines shown. Always odd, so one sits in the middle.
    pub window: usize,
    /// Blank rows between lyric lines.
    pub line_spacing: usize,
    /// Terminal rows for the spectrum. Zero hides it.
    pub spectrum_rows: usize,
    pub show_padding: bool,
    pub show_rules: bool,
    pub show_ticker: bool,
    pub show_transport: bool,
}

/// What gets sacrificed first, in order. Blank space goes first, then
/// decoration, then the parts that carry information. The scrolling title is
/// the last to go because it is the only thing naming the song.
#[derive(Debug, Clone, Copy, PartialEq)]
enum Feature {
    LineSpacing,
    Padding,
    Transport,
    Rules,
    Ticker,
}

const SACRIFICES: [Feature; 5] = [
    Feature::LineSpacing,
    Feature::Padding,
    Feature::Transport,
    Feature::Rules,
    Feature::Ticker,
];

/// Rows taken by `window` lyric lines with `spacing` blank rows between them.
pub open spec fn lyric_rows(window: int, spacing: int) -> int {
    window + (if window >= 1 { window - 1 } else { 0 }) * spacing
}

/// Rows a toggled two-row part takes.
pub open spec fn two_if(b: bool) -> int {
    if b { 2 } else { 0 }
}

/// The fewest rows anything can be drawn in: the frame, the header, the
/// timeline, and one line to sing.
pub open spec fn minimum_rows() -> int {
    ESSENTIAL_ROWS + spec_timeline_rows() + 1
}

/// Width of the panel on a terminal `term_w` columns wide.
pub open spec fn spec_box_width(term_w: int) -> int {
    let avail = if term_w >= 2 + 2 * config::SAFE_MARGIN {
        term_w - (2 + 2 * config::SAFE_MARGIN)
    } else {
        0
    };
    if avail <= config::MAX_BOX_WIDTH { avail } else { config::MAX_BOX_WIDTH as int }
}

/// Width inside the panel: two border columns, five of padding either side,
/// and one column left spare, but never under twenty.
pub open spec fn spec_inner_width(box_width: int) -> int {
    let w = if box_width >= 13 { box_width - 13 } else { 0 };
    if w >= 20 { w } else { 20 }
}

/// Spectrum rows the full design asks for.
pub open spec fn spectrum_budget(show_spectrum: bool) -> nat {
    if show_spectrum { config::SPECTRUM_ROWS as nat } else { 0 }
}

/// Index of the last, most degraded stage.
pub open spec fn last_stage(show_spectrum: bool) -> nat {
    5 + spectrum_budget(show_spectrum) + config::WINDOW_SIZE as nat / 2
}

/// Stage `k` of the degradation sequence.
pub open spec fn stage(term_w: usize, show_spectrum: bool, k: nat) -> Layout {
    let s = spectrum_budget(show_spectrum);
    let spectrum_dropped: nat = if k <= 5 { 0 } else if k - 5 <= s { (k - 5) as nat } else { s };
    let window_dropped: nat = if k <= 5 + s {
        0
    } else if k - 5 - s <= config::WINDOW_SIZE / 2 {
        (k - 5 - s) as nat
    } else {
        config::WINDOW_SIZE as nat / 2
    };
    let box_width = spec_box_width(term_w as int);
    Layout {
        box_width: box_width as usize,
        inner_width: spec_inner_width(box_width) as usize,
        window: (config::WINDOW_SIZE - 2 * window_dropped) as usize,
        line_spacing: if k >= 1 { 0 } else { config::LINE_SPACING },
        spectrum_rows: (s - spectrum_dropped) as usize,
        show_padding: k < 2,
        show_transport: k < 3,
        show_rules: k < 4,
        show_ticker: k < 5,
    }
}

/// Whether stage `k` fits in `term_h` rows.
pub open spec fn stage_fits(term_w: usize, term_h: usize, show_spectrum: bool, k: nat) -> bool {
    stage(term_w, show_spectrum, k).rows_spec() <= term_h
}

/// The first stage from `k` on that fits, or the last stage.
pub open spec fn first_fit(term_w: usize, term_h: usize, show_spectrum: bool, k: nat) -> nat
    decreases last_stage(show_spectrum) - k,
{
    if k >= last_stage(show_spectrum) || stage_fits(term_w, term_h, show_spectrum, k) {
        k
    } else {
        first_fit(term_w, term_h, show_spectrum, k + 1)
    }
}

/// The layout for a terminal of `term_w` by `term_h`.
pub open spec fn spec_measure(term_w: usize, term_h: usize, show_spectrum: bool) -> Layout {
    stage(term_w, show_spectrum, first_fit(term_w, term_h, show_spectrum, 0))
}

impl Layout {
    /// Total terminal rows this layout occupies.
    pub open spec fn rows_spec(self) -> int {
        ESSENTIAL_ROWS + spec_timeline_rows() + lyric_rows(self.window as int, self.line_spacing as int)
            + 2 * two_if(self.show_padding) + self.spectrum_rows + two_if(self.show_rules)
            + two_if(self.show_ticker) + two_if(self.show_transport)
    }

    /// `self` gives up nothing that `other` keeps.
    pub open spec fn no_worse_than(self, other: Layout) -> bool {
        &&& self.window >= other.window
        &&& self.line_spacing >= other.line_spacing
        &&& (other.show_padding ==> self.show_padding)
        &&& (other.show_rules ==> self.show_rules)
        &&& (other.show_ticker ==> self.show_ticker)
        &&& (other.show_transport ==> self.show_transport)
    }

    /// `show_spectrum` comes from the live style rather than the config, so
    /// pressing `S` reflows the panel immediately.
    pub fn measure_with(term_w: usize, term_h: usize, show_spectrum: bool) -> (l: Self)
        ensures
            l == spec_measure(term_w, term_h, show_spectrum),
    {
        let avail = term_w.saturating_sub(2 + config::SAFE_MARGIN * 2);
        let box_width = if avail <= config::MAX_BOX_WIDTH { avail } else { config::MAX_BOX_WIDTH };

        // The spare column is the important part. Full width children that
        // exactly fill the content area end up competing for the last one, and
        // whichever loses gets squeezed to a single column and wraps once per
        // character.
        let spare = box_width.saturating_sub(13);
        let inner_width = if spare >= 20 { spare } else { 20 };

        let mut l = Layout {
            box_width,
            inner_width,
            window: config::WINDOW_SIZE,
            line_spacing: config::LINE_SPACING,
            spectrum_rows: if show_spectrum { config::SPECTRUM_ROWS } else { 0 },
            show_padding: true,
            show_rules: true,
            show_ticker: true,
            show_transport: true,
        };
        let ghost s = spectrum_budget(show_spectrum);
        let ghost mut k: nat = 0;
        assert(l == stage(term_w, show_spectrum, 0));

        let mut i: usize = 0;
        while i < 5
            invariant
                i <= 5,
                k == i,
                s == spectrum_budget(show_spectrum),
                l == stage(term_w, show_spectrum, k),
                forall|j: nat| j < k ==> !stage_fits(term_w, term_h, show_spectrum, j),
            ensures
                k <= 5,
                l == stage(term_w, show_spectrum, k),
                forall|j: nat| j < k ==> !stage_fits(term_w, term_h, show_spectrum, j),
                k == 5 || l.rows_spec() <= term_h,
            decreases 5 - i,
        {
            proof {
                lemma_stage_small(term_w, show_spectrum, k);
            }
            if l.rows_needed() <= term_h {
                break;
            }
            match SACRIFICES[i] {
                Feature::LineSpacing => l.line_spacing = 0,
                Feature::Padding => l.show_padding = false,
                Feature::Transport => l.show_transport = false,
                Feature::Rules => l.show_rules = false,
                Feature::Ticker => l.show_ticker = false,
            }
            i = i + 1;
            proof {
                k = k + 1;
            }
            assert(l == stage(term_w, show_spectrum, k));
        }

        proof {
            lemma_stage_small(term_w, show_spectrum, k);
        }
        // Then trade spectrum height for lyric lines, since the words are the
        // point of the exercise.
        while l.rows_needed() > term_h && l.spectrum_rows > 0
            invariant
                k <= 5 + s,
                s == spectrum_budget(show_spectrum),
                l == stage(term_w, show_spectrum, k),
                forall|j: nat| j < k ==> !stage_fits(term_w, term_h, show_spectrum, j),
                k >= 5 || l.rows_spec() <= term_h,
                l.rows_spec() <= 64,
            decreases l.spectrum_rows,
        {
            l.spectrum_rows = l.spectrum_rows - 1;
            proof {
                k = k + 1;
                lemma_stage_small(term_w, show_spectrum, k);
            }
            assert(l == stage(term_w, show_spectrum, k));
        }

        proof {
            lemma_stage_small(term_w, show_spectrum, k);
        }
        // Only now start dropping lines, and never the last one.
        while l.rows_needed() > term_h && l.window > 1
            invariant
                k <= last_stage(show_spectrum),
                s == spectrum_budget(show_spectrum),
                l == stage(term_w, show_spectrum, k),
                forall|j: nat| j < k ==> !stage_fits(term_w, term_h, show_spectrum, j),
                k >= 5 + s || l.rows_spec() <= term_h,
                l.rows_spec() <= 64,
            decreases l.window,
        {
            l.window = l.window - 2;
            proof {
                k = k + 1;
                lemma_stage_small(term_w, show_spectrum, k);
            }
            assert(l == stage(term_w, show_spectrum, k));
        }

        proof {
            lemma_first_fit_is(term_w, term_h, show_spectrum, 0, k);
        }
        l
    }

    /// Total terminal rows this layout occupies.
    pub fn rows_needed(&self) -> (r: usize)
        requires
            self.rows_spec() <= usize::MAX,
        ensures
            r == self.rows_spec(),
    {
        let spaced = self.window.saturating_sub(1);
        assert(spaced * self.line_spacing <= self.rows_spec()) by (nonlinear_arith)
            requires
                self.rows_spec() == ESSENTIAL_ROWS + spec_timeline_rows()
                    + (self.window + spaced * self.line_spacing) + 2 * two_if(self.show_padding)
                    + self.spectrum_rows + two_if(self.show_rules) + two_if(self.show_ticker)
                    + two_if(self.show_transport),
                spaced * self.line_spacing >= 0,
                spec_timeline_rows() >= 0,
        ;
        let lyrics = self.window + spaced * self.line_spacing;
        // Two rows of margin sit around the lyric block whenever there is
        // padding to separate it from.
        let lyric_margins: usize = if self.show_padding { 2 } else { 0 };

        ESSENTIAL_ROWS + timeline_rows() + lyrics + lyric_margins + self.spectrum_rows
            + if self.show_padding { 2 } else { 0 }
            + if self.show_rules { 2 } else { 0 }
            + if self.show_ticker { 2 } else { 0 }
            + if self.show_transport { 2 } else { 0 }
    }

    /// Lines either side of the centre one.
    pub fn half_window(&self) -> (r: i64)
        ensures
            r == self.window / 2,
    {
        (self.window / 2) as i64
    }

    /// Rows of padding above and below the panel's content.
    pub open spec fn spec_padding_y(self) -> u32 {
        if self.show_padding { 1u32 } else { 0u32 }
    }

    /// Rows of margin above and below the lyric block.
    pub open spec fn spec_lyric_margin(self) -> u32 {
        if self.show_padding { 1u32 } else { 0u32 }
    }

    /// Rows of padding above and below the panel's content.
    pub fn padding_y(&self) -> (r: u32)
        ensures
            r == self.spec_padding_y(),
    {
        if self.show_padding { 1 } else { 0 }
    }

    /// Rows of margin above and below the lyric block.
    pub fn lyric_margin(&self) -> (r: u32)
        ensures
            r == self.spec_lyric_margin(),
    {
        if self.show_padding { 1 } else { 0 }
    }
}

/// Every stage is small: an odd number of lyric lines between one and the
/// window size, and a handful of rows in all.
proof fn lemma_stage_small(term_w: usize, show_spectrum: bool, k: nat)
    ensures
        stage(term_w, show_spectrum, k).rows_spec() <= 64,
        stage(term_w, show_spectrum, k).rows_spec() >= minimum_rows(),
        k >= last_stage(show_spectrum) ==> stage(term_w, show_spectrum, k).rows_spec() == minimum_rows(),
        stage(term_w, show_spectrum, k).window >= 1,
        stage(term_w, show_spectrum, k).window % 2 == 1,
{
    let l = stage(term_w, show_spectrum, k);
    assert(l.line_spacing <= 1);
    assert(l.window <= 7);
    assert((if l.window >= 1 { l.window - 1 } else { 0 }) * l.line_spacing <= 6) by (nonlinear_arith)
        requires
            l.line_spacing <= 1,
            l.window <= 7,
    ;
}

/// `first_fit` from `j` lands on `k` when nothing in between fits and `k`
/// fits or is the last stage.
proof fn lemma_first_fit_is(term_w: usize, term_h: usize, show_spectrum: bool, j: nat, k: nat)
    requires
        j <= k,
        k <= last_stage(show_spectrum),
        forall|m: nat| j <= m < k ==> !stage_fits(term_w, term_h, show_spectrum, m),
        k == last_stage(show_spectrum) || stage_fits(term_w, term_h, show_spectrum, k),
    ensures
        first_fit(term_w, term_h, show_spectrum, j) == k,
    decreases k - j,
{
    if j < k {
        lemma_first_fit_is(term_w, term_h, show_spectrum, j + 1, k);
    }
}

/// Where `first_fit` lands from `j`: a stage at or after `j` that fits or is
/// the last, with nothing in between fitting.
proof fn lemma_first_fit_props(term_w: usize, term_h: usize, show_spectrum: bool, j: nat)
    requires
        j <= last_stage(show_spectrum),
    ensures
        j <= first_fit(term_w, term_h, show_spectrum, j) <= last_stage(show_spectrum),
        first_fit(term_w, term_h, show_spectrum, j) == last_stage(show_spectrum)
            || stage_fits(term_w, term_h, show_spectrum, first_fit(term_w, term_h, show_spectrum, j)),
    decreases last_stage(show_spectrum) - j,
{
    if j < last_stage(show_spectrum) && !stage_fits(term_w, term_h, show_spectrum, j) {
        lemma_first_fit_props(term_w, term_h, show_spectrum, j + 1);
    }
}

/// No stage that `first_fit` passes over fits.
proof fn lemma_first_fit_skips(term_w: usize, term_h: usize, show_spectrum: bool, j: nat)
    ensures
        forall|m: nat|
            j <= m < first_fit(term_w, term_h, show_spectrum, j) ==> !stage_fits(term_w, term_h, show_spectrum, m),
    decreases last_stage(show_spectrum) - j,
{
    if j < last_stage(show_spectrum) && !stage_fits(term_w, term_h, show_spectrum, j) {
        lemma_first_fit_skips(term_w, term_h, show_spectrum, j + 1);
    }
}

/// `first_fit` from `j` stops no later than any stage at or after `j` that
/// fits or is the last.
proof fn lemma_first_fit_le(term_w: usize, term_h: usize, show_spectrum: bool, j: nat, k: nat)
    requires
        j <= k <= last_stage(show_spectrum),
        k == last_stage(show_spectrum) || stage_fits(term_w, term_h, show_spectrum, k),
    ensures
        first_fit(term_w, term_h, show_spectrum, j) <= k,
    decreases k - j,
{
    if j < k && !stage_fits(term_w, term_h, show_spectrum, j) {
        lemma_first_fit_le(term_w, term_h, show_spectrum, j + 1, k);
    }
}

/// A later stage never keeps anything an earlier one gave up.
proof fn lemma_stage_monotone(term_w: usize, show_spectrum: bool, k1: nat, k2: nat)
    requires
        k1 <= k2,
    ensures
        stage(term_w, show_spectrum, k1).no_worse_than(stage(term_w, show_spectrum, k2)),
        stage(term_w, show_spectrum, k1).spectrum_rows >= stage(term_w, show_spectrum, k2).spectrum_rows,
{
}

/// The chosen layout always fits: it takes no more rows than the terminal
/// has, or, on a terminal too short for anything, no more than the frame, the
/// header, the timeline and a single lyric line. There is always an odd
/// number of lyric lines, at least one and at most the configured window.
pub proof fn lemma_layout_fits(term_w: usize, term_h: usize, show_spectrum: bool)
    ensures
        spec_measure(term_w, term_h, show_spectrum).rows_spec() <= term_h
            || spec_measure(term_w, term_h, show_spectrum).rows_spec() == minimum_rows(),
        spec_measure(term_w, term_h, show_spectrum).rows_spec() <= if term_h >= minimum_rows() {
            term_h as int
        } else {
            minimum_rows()
        },
        spec_measure(term_w, term_h, show_spectrum).window >= 1,
        spec_measure(term_w, term_h, show_spectrum).window % 2 == 1,
        spec_measure(term_w, term_h, show_spectrum).window <= config::WINDOW_SIZE,
{
    lemma_first_fit_props(term_w, term_h, show_spectrum, 0);
    let k = first_fit(term_w, term_h, show_spectrum, 0);
    lemma_stage_small(term_w, show_spectrum, k);
}

/// The panel is capped at `MAX_BOX_WIDTH`, never reaches the terminal edge
/// (it leaves its border and the safe margin on both sides), and keeps one
/// spare column inside its content area whenever it is wide enough to have
/// one.
pub proof fn lemma_panel_width(term_w: usize, term_h: usize, show_spectrum: bool)
    ensures
        spec_measure(term_w, term_h, show_spectrum).box_width <= config::MAX_BOX_WIDTH,
        term_w >= 2 + 2 * config::SAFE_MARGIN ==> spec_measure(term_w, term_h, show_spectrum).box_width + 2
            * config::SAFE_MARGIN + 2 <= term_w,
        spec_measure(term_w, term_h, show_spectrum).inner_width + 12 < spec_measure(term_w, term_h, show_spectrum).box_width
            || spec_measure(term_w, term_h, show_spectrum).box_width < 33,
        spec_measure(term_w, term_h, show_spectrum).inner_width >= 20,
{
}

/// A terminal tall enough for the full design gets all of it.
pub proof fn lemma_tall_terminal_full_design(term_w: usize, term_h: usize, show_spectrum: bool)
    requires
        stage(term_w, show_spectrum, 0).rows_spec() <= term_h,
    ensures
        spec_measure(term_w, term_h, show_spectrum) == stage(term_w, show_spectrum, 0),
        spec_measure(term_w, term_h, show_spectrum).window == config::WINDOW_SIZE,
        spec_measure(term_w, term_h, show_spectrum).line_spacing == config::LINE_SPACING,
        spec_measure(term_w, term_h, show_spectrum).spectrum_rows == spectrum_budget(show_spectrum),
        spec_measure(term_w, term_h, show_spectrum).show_padding,
        spec_measure(term_w, term_h, show_spectrum).show_rules,
        spec_measure(term_w, term_h, show_spectrum).show_ticker,
        spec_measure(term_w, term_h, show_spectrum).show_transport,
{
}

/// Chrome is dropped in order of importance: the blank rows between lines
/// go first, then the padding, the transport row, the rules and last the
/// ticker; the spectrum shrinks only once all of those are gone, and lyric
/// lines are dropped only once the spectrum is gone too.
pub proof fn lemma_chrome_dropped_in_order(term_w: usize, term_h: usize, show_spectrum: bool)
    ensures
        ({
            let l = spec_measure(term_w, term_h, show_spectrum);
            &&& (!l.show_ticker ==> !l.show_rules)
            &&& (!l.show_rules ==> !l.show_transport)
            &&& (!l.show_transport ==> !l.show_padding)
            &&& (!l.show_padding ==> l.line_spacing == 0)
            &&& (l.spectrum_rows < spectrum_budget(show_spectrum) ==> !l.show_ticker)
            &&& (l.window < config::WINDOW_SIZE ==> l.spectrum_rows == 0 && !l.show_ticker)
        }),
{
}

/// A taller terminal never gets a worse layout: with more rows, nothing that
/// was shown at the shorter height is given up, and the spectrum is at least
/// as tall.
pub proof fn lemma_taller_is_no_worse(term_w: usize, h1: usize, h2: usize, show_spectrum: bool)
    requires
        h1 <= h2,
    ensures
        spec_measure(term_w, h2, show_spectrum).no_worse_than(spec_measure(term_w, h1, show_spectrum)),
        spec_measure(term_w, h2, show_spectrum).spectrum_rows >= spec_measure(term_w, h1, show_spectrum).spectrum_rows,
{
    lemma_first_fit_props(term_w, h1, show_spectrum, 0);
    let k1 = first_fit(term_w, h1, show_spectrum, 0);
    lemma_first_fit_le(term_w, h2, show_spectrum, 0, k1);
    let k2 = first_fit(term_w, h2, show_spectrum, 0);
    lemma_stage_monotone(term_w, show_spectrum, k2, k1);
}

/// Switching the spectrum off frees its rows: the layout without it has no
/// spectrum rows and gives up nothing that the layout with it keeps.
pub proof fn lemma_hiding_spectrum_no_worse(term_w: usize, term_h: usize)
    ensures
        spec_measure(term_w, term_h, false).spectrum_rows == 0,
        spec_measure(term_w, term_h, false).no_worse_than(spec_measure(term_w, term_h, true)),
{
    lemma_first_fit_props(term_w, term_h, true, 0);
    let k1 = first_fit(term_w, term_h, true, 0);
    // The stage without a spectrum that matches stage k1 with one.
    let m: nat = if k1 <= 5 { k1 } else if k1 <= 9 { 5 } else { (k1 - 4) as nat };
    let on = stage(term_w, true, k1);
    let off = stage(term_w, false, m);
    lemma_stage_small(term_w, true, k1);
    assert(off.rows_spec() <= on.rows_spec());
    assert(off.no_worse_than(on));
    lemma_first_fit_le(term_w, term_h, false, 0, m);
    let k0 = first_fit(term_w, term_h, false, 0);
    lemma_stage_monotone(term_w, false, k0, m);
}

/// Nothing is given up that would have fitted: one more pair of lyric
/// lines would not fit, nor one more spectrum row with every lyric line
/// back, nor the ticker with the whole spectrum and every lyric line back.
pub proof fn lemma_nothing_more_fits(term_w: usize, term_h: usize, show_spectrum: bool)
    ensures
        ({
            let l = spec_measure(term_w, term_h, show_spectrum);
            &&& (l.window < config::WINDOW_SIZE ==> (Layout { window: (l.window + 2) as usize, ..l }).rows_spec()
                > term_h)
            &&& (l.spectrum_rows < spectrum_budget(show_spectrum) ==> (Layout {
                spectrum_rows: (l.spectrum_rows + 1) as usize,
                window: config::WINDOW_SIZE,
                ..l
            }).rows_spec() > term_h)
            &&& (!l.show_ticker ==> (Layout {
                show_ticker: true,
                spectrum_rows: spectrum_budget(show_spectrum) as usize,
                window: config::WINDOW_SIZE,
                ..l
            }).rows_spec() > term_h)
        }),
{
    lemma_first_fit_props(term_w, term_h, show_spectrum, 0);
    lemma_first_fit_skips(term_w, term_h, show_spectrum, 0);
    let k = first_fit(term_w, term_h, show_spectrum, 0);
    let l = stage(term_w, show_spectrum, k);
    let s = spectrum_budget(show_spectrum);
    if l.window < config::WINDOW_SIZE {
        assert(k > 5 + s);
        assert(stage(term_w, show_spectrum, (k - 1) as nat) == (Layout { window: (l.window + 2) as usize, ..l }));
        assert(!stage_fits(term_w, term_h, show_spectrum, (k - 1) as nat));
    }
    if l.spectrum_rows < s {
        assert(k > 5);
        let j: nat = if k <= 5 + s { (k - 1) as nat } else { (4 + s) as nat };
        assert(stage(term_w, show_spectrum, j) == (Layout {
            spectrum_rows: (l.spectrum_rows + 1) as usize,
            window: config::WINDOW_SIZE,
            ..l
        }));
        assert(!stage_fits(term_w, term_h, show_spectrum, j));
    }
    if !l.show_ticker {
        assert(k >= 5);
        assert(stage(term_w, show_spectrum, 4) == (Layout {
            show_ticker: true,
            spectrum_rows: s as usize,
            window: config::WINDOW_SIZE,
            ..l
        }));
        assert(!stage_fits(term_w, term_h, show_spectrum, 4));
    }
}

/// The margin rows around the lyric block and the panel's padding are
/// counted exactly when they are shown: turning padding on costs a margin
/// row and a padding row at each end, and nothing else.
pub proof fn lemma_padding_rows(l: Layout)
    ensures
        l.spec_lyric_margin() == l.spec_padding_y(),
        l.rows_spec() == (Layout { show_padding: false, ..l }).rows_spec() + 2 * l.spec_lyric_margin() + 2
            * l.spec_padding_y(),
{
}

} // verus!
