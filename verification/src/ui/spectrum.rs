//! The spectrum styles, and how a row of braille cells is coloured.
//!
//! The measurement is the same for every style; only the picture differs.
//! Most styles draw onto three braille canvases: a solid crest along the top
//! of each column, a dithered body beneath it, and peak markers that hold and
//! fall. A braille cell cannot carry two colours, so each cell takes the
//! colour of the highest layer it contains and neighbouring cells of the same
//! colour merge into one run.

use vstd::prelude::*;

use crate::braille::Canvas;
use crate::color::{Rgb, Theme};
use crate::text::{char_from_u32, chars_of, string_of};

verus! {

/// How the spectrum is drawn, or whether it is drawn at all. Cycled with `S`.
#[derive(Clone, Copy, PartialEq, Eq, Debug, Structural)]
pub enum Style {
    /// A bright crest over a dithered body.
    Curve,
    /// Grown out from a centre line in both directions.
    Mirror,
    /// Just the crest, nothing under it.
    Line,
    /// Block characters, one bar per column.
    Bars,
    /// Hidden. The rows it would have taken go back to the lyrics.
    Off,
}

impl Default for Style {
    fn default() -> (s: Self)
        ensures
            s == Style::Curve,
    {
        Style::Curve
    }
}

impl Style {
    /// Everything the `S` key steps through, hidden included.
    pub const ALL: [Style; 5] = [Style::Curve, Style::Mirror, Style::Line, Style::Bars, Style::Off];

    /// Position of the style in the `S` cycle.
    pub open spec fn index(self) -> int {
        match self {
            Style::Curve => 0,
            Style::Mirror => 1,
            Style::Line => 2,
            Style::Bars => 3,
            Style::Off => 4,
        }
    }

    /// The style at position `i` of the cycle.
    pub open spec fn at(i: int) -> Style {
        if i == 0 {
            Style::Curve
        } else if i == 1 {
            Style::Mirror
        } else if i == 2 {
            Style::Line
        } else if i == 3 {
            Style::Bars
        } else {
            Style::Off
        }
    }

    /// The next style, wrapping from `Off` back to the first.
    pub fn next(self) -> (r: Self)
        ensures
            r == Style::at((self.index() + 1) % 5),
    {
        match self {
            Style::Curve => Style::Mirror,
            Style::Mirror => Style::Line,
            Style::Line => Style::Bars,
            Style::Bars => Style::Off,
            Style::Off => Style::Curve,
        }
    }

    pub fn is_visible(self) -> (r: bool)
        ensures
            r == (self != Style::Off),
    {
        match self {
            Style::Off => false,
            _ => true,
        }
    }

    pub open spec fn spec_name(self) -> Seq<char> {
        match self {
            Style::Curve => "curve"@,
            Style::Mirror => "mirror"@,
            Style::Line => "line"@,
            Style::Bars => "bars"@,
            Style::Off => "off"@,
        }
    }

    pub fn name(self) -> (r: &'static str)
        ensures
            r@ == self.spec_name(),
    {
        match self {
            Style::Curve => "curve",
            Style::Mirror => "mirror",
            Style::Line => "line",
            Style::Bars => "bars",
            Style::Off => "off",
        }
    }
}

/// `n` presses of `S` from `s`.
pub open spec fn presses(s: Style, n: nat) -> Style
    decreases n,
{
    if n == 0 {
        s
    } else {
        Style::at((presses(s, (n - 1) as nat).index() + 1) % 5)
    }
}

/// Cycling visits every style, `Off` included, and comes back: `k` presses of
/// `S` move `k` places round the cycle of five, so five presses return to the
/// start and one of the styles reached is `Off`.
pub proof fn lemma_style_cycle(s: Style, k: nat)
    ensures
        presses(s, k).index() == (s.index() + k) % 5,
        presses(s, 5) == s,
        presses(Style::Curve, 4) == Style::Off,
    decreases k,
{
    if k > 0 {
        lemma_style_cycle(s, (k - 1) as nat);
        vstd::arithmetic::div_mod::lemma_add_mod_noop(s.index() + k - 1, 1, 5);
        vstd::arithmetic::div_mod::lemma_mod_twice(s.index() + k - 1, 5);
        vstd::arithmetic::div_mod::lemma_mod_bound(s.index() + k - 1, 5);
    }
    lemma_five_presses(s);
}

proof fn lemma_five_presses(s: Style)
    ensures
        presses(s, 5) == s,
        presses(Style::Curve, 4) == Style::Off,
{
    reveal_with_fuel(presses, 6);
}

/// Which canvas a cell's colour comes from.
#[derive(Clone, Copy, PartialEq, Eq, Debug, Structural)]
pub enum Layer {
    Empty,
    Fill,
    Edge,
    Peak,
}

impl Layer {
    pub open spec fn spec_color(self, theme: Theme) -> Rgb {
        match self {
            Layer::Peak => theme.spectrum_peak,
            Layer::Edge => theme.spectrum_edge,
            _ => theme.spectrum_fill,
        }
    }

    pub fn color(self, theme: &Theme) -> (c: Rgb)
        ensures
            c == self.spec_color(*theme),
    {
        match self {
            Layer::Peak => theme.spectrum_peak,
            Layer::Edge => theme.spectrum_edge,
            _ => theme.spectrum_fill,
        }
    }
}

/// A braille character, U+2800 to U+28FF.
pub open spec fn is_braille(c: char) -> bool {
    0x2800 <= c as u32 <= 0x28FF
}

/// The dots of a braille character.
pub open spec fn dots(c: char) -> u32 {
    (c as u32 - 0x2800) as u32
}

/// The highest layer with a dot in the cell.
pub open spec fn cell_layer(f: char, e: char, p: char) -> Layer {
    if dots(p) != 0 {
        Layer::Peak
    } else if dots(e) != 0 {
        Layer::Edge
    } else if dots(f) != 0 {
        Layer::Fill
    } else {
        Layer::Empty
    }
}

/// The three cells drawn over each other: every dot of any of them.
pub open spec fn merged_cell(f: char, e: char, p: char) -> u32 {
    (0x2800 + (dots(f) | dots(e) | dots(p))) as u32
}

/// Runs of the first `n` cells: consecutive cells of the same layer share a
/// run. Each run is its merged characters, by code point, and its layer.
pub open spec fn spec_runs(fill: Seq<char>, edge: Seq<char>, peak: Seq<char>, n: nat) -> Seq<(Seq<u32>, Layer)>
    decreases n,
{
    if n == 0 {
        Seq::empty()
    } else {
        let before = spec_runs(fill, edge, peak, (n - 1) as nat);
        let i = n - 1;
        let layer = cell_layer(fill[i], edge[i], peak[i]);
        let c = merged_cell(fill[i], edge[i], peak[i]);
        if before.len() > 0 && before.last().1 == layer {
            before.update(before.len() - 1, (before.last().0.push(c), layer))
        } else {
            before.push((seq![c], layer))
        }
    }
}

/// The code points of `runs`, one run after another.
pub open spec fn run_cells(runs: Seq<(Seq<u32>, Layer)>) -> Seq<u32>
    decreases runs.len(),
{
    if runs.len() == 0 {
        Seq::empty()
    } else {
        run_cells(runs.drop_last()) + runs.last().0
    }
}

/// Grouping cells into runs loses and reorders nothing: the runs hold, one
/// after another, every merged cell in order; no run is empty; and two runs
/// side by side never share a layer, so every change of colour starts a new
/// run and nothing else does.
pub proof fn lemma_runs_cover_the_row(fill: Seq<char>, edge: Seq<char>, peak: Seq<char>, n: nat)
    requires
        n <= fill.len(),
        n <= edge.len(),
        n <= peak.len(),
    ensures
        run_cells(spec_runs(fill, edge, peak, n)) == Seq::new(n, |i: int| merged_cell(fill[i], edge[i], peak[i])),
        forall|k: int|
            0 <= k < spec_runs(fill, edge, peak, n).len() ==> (#[trigger] spec_runs(fill, edge, peak, n)[k]).0.len() > 0,
        forall|k: int|
            0 < k < spec_runs(fill, edge, peak, n).len() ==> (#[trigger] spec_runs(fill, edge, peak, n)[k]).1
                != spec_runs(fill, edge, peak, n)[k - 1].1,
        n > 0 ==> spec_runs(fill, edge, peak, n).last().1 == cell_layer(fill[n - 1], edge[n - 1], peak[n - 1]),
    decreases n,
{
    let cells = Seq::new(n, |i: int| merged_cell(fill[i], edge[i], peak[i]));
    if n == 0 {
        assert(cells =~= Seq::<u32>::empty());
    } else {
        let m = (n - 1) as nat;
        lemma_runs_cover_the_row(fill, edge, peak, m);
        let before = spec_runs(fill, edge, peak, m);
        let layer = cell_layer(fill[m as int], edge[m as int], peak[m as int]);
        let c = merged_cell(fill[m as int], edge[m as int], peak[m as int]);
        let prev = Seq::new(m, |i: int| merged_cell(fill[i], edge[i], peak[i]));
        assert(cells =~= prev.push(c));
        let r = spec_runs(fill, edge, peak, n);
        if before.len() > 0 && before.last().1 == layer {
            assert(r == before.update(before.len() - 1, (before.last().0.push(c), layer)));
            assert(r.drop_last() =~= before.drop_last());
            assert(run_cells(before) == run_cells(before.drop_last()) + before.last().0);
            assert(run_cells(r) == run_cells(r.drop_last()) + r.last().0);
            assert(run_cells(r) =~= run_cells(before).push(c));
            assert forall|k: int| 0 < k < r.len() implies (#[trigger] r[k]).1 != r[k - 1].1 by {
                assert(r[k - 1] == before[k - 1]);
                if k < r.len() - 1 {
                    assert(r[k] == before[k]);
                }
            }
        } else {
            assert(r == before.push((seq![c], layer)));
            assert(r.drop_last() =~= before);
            assert(run_cells(r) == run_cells(before) + seq![c]);
            assert(run_cells(r) =~= run_cells(before).push(c));
        }
    }
}

/// `text` holds exactly the code points `run`.
pub open spec fn spells_run(text: Seq<char>, run: Seq<u32>) -> bool {
    &&& text.len() == run.len()
    &&& forall|j: int| 0 <= j < run.len() ==> (text[j] as u32) == #[trigger] run[j]
}

/// The shortest of three lengths.
pub open spec fn min3(a: nat, b: nat, c: nat) -> nat {
    let ab = if a < b { a } else { b };
    if ab < c { ab } else { c }
}

/// Group a row of cells into runs of the same colour. The three rows are the
/// same row of the fill, edge and peak canvases.
pub fn runs(fill: &str, edge: &str, peak: &str) -> (out: Vec<(String, Layer)>)
    requires
        forall|i: int| 0 <= i < fill@.len() ==> is_braille(#[trigger] fill@[i]),
        forall|i: int| 0 <= i < edge@.len() ==> is_braille(#[trigger] edge@[i]),
        forall|i: int| 0 <= i < peak@.len() ==> is_braille(#[trigger] peak@[i]),
    ensures
        out@.len() == spec_runs(fill@, edge@, peak@, min3(fill@.len(), edge@.len(), peak@.len())).len(),
        forall|k: int|
            0 <= k < out@.len() ==> (#[trigger] out@[k]).1 == spec_runs(
                fill@,
                edge@,
                peak@,
                min3(fill@.len(), edge@.len(), peak@.len()),
            )[k].1 && spells_run(
                out@[k].0@,
                spec_runs(fill@, edge@, peak@, min3(fill@.len(), edge@.len(), peak@.len()))[k].0,
            ),
{
    let f = chars_of(fill);
    let e = chars_of(edge);
    let p = chars_of(peak);
    let n = if f.len() < e.len() { f.len() } else { e.len() };
    let n = if n < p.len() { n } else { p.len() };
    let ghost goal = spec_runs(fill@, edge@, peak@, n as nat);
    // Runs so far, as characters, with the layer of each.
    let mut texts: Vec<Vec<char>> = Vec::new();
    let ghost mut cur: Seq<(Seq<u32>, Layer)> = Seq::empty();
    let mut layers: Vec<Layer> = Vec::new();
    let mut i: usize = 0;
    while i < n
        invariant
            i <= n,
            n <= f@.len(),
            n <= e@.len(),
            n <= p@.len(),
            f@ == fill@,
            e@ == edge@,
            p@ == peak@,
            forall|j: int| 0 <= j < fill@.len() ==> is_braille(#[trigger] fill@[j]),
            forall|j: int| 0 <= j < edge@.len() ==> is_braille(#[trigger] edge@[j]),
            forall|j: int| 0 <= j < peak@.len() ==> is_braille(#[trigger] peak@[j]),
            texts@.len() == layers@.len(),
            texts@.len() == spec_runs(fill@, edge@, peak@, i as nat).len(),
            cur == spec_runs(fill@, edge@, peak@, i as nat),
            forall|k: int|
                #![trigger texts@[k]]
                #![trigger layers@[k]]
                0 <= k < texts@.len() ==> layers@[k] == cur[k].1 && spells_run(texts@[k]@, cur[k].0),
        decreases n - i,
    {
        let fb = f[i] as u32 - 0x2800;
        let eb = e[i] as u32 - 0x2800;
        let pb = p[i] as u32 - 0x2800;
        let layer = if pb != 0 {
            Layer::Peak
        } else if eb != 0 {
            Layer::Edge
        } else if fb != 0 {
            Layer::Fill
        } else {
            Layer::Empty
        };
        assert(fb | eb | pb <= 0xFF) by (bit_vector)
            requires
                fb <= 0xFF,
                eb <= 0xFF,
                pb <= 0xFF,
        ;
        let merged = match char_from_u32(0x2800 + (fb | eb | pb)) {
            Some(c) => c,
            None => ' ',
        };
        let ghost before = spec_runs(fill@, edge@, peak@, i as nat);
        let ghost after = spec_runs(fill@, edge@, peak@, (i + 1) as nat);
        assert(fb == dots(fill@[i as int]));
        assert(eb == dots(edge@[i as int]));
        assert(pb == dots(peak@[i as int]));
        assert(layer == cell_layer(fill@[i as int], edge@[i as int], peak@[i as int]));
        assert(merged as u32 == merged_cell(fill@[i as int], edge@[i as int], peak@[i as int]));
        let ghost old_texts = texts@;
        let count = layers.len();
        proof {
            if count > 0 {
                assert(spells_run(texts@[count - 1]@, before[count - 1].0));
                assert(layers@[count - 1] == before.last().1);
            }
        }
        if count > 0 && layers[count - 1] == layer {
            let mut last = texts.pop().unwrap();
            last.push(merged);
            texts.push(last);
            proof {
                assert(after == before.update(before.len() - 1, (before.last().0.push(merged as u32), layer)));
                assert forall|k: int|
                    #![trigger texts@[k]]
                    #![trigger layers@[k]]
                    0 <= k < texts@.len() implies layers@[k] == after[k].1 && spells_run(texts@[k]@, after[k].0) by {
                    assert(spells_run(old_texts[k]@, before[k].0));
                    if k == texts@.len() - 1 {
                        assert(texts@[k]@ == old_texts[k]@.push(merged));
                        assert(after[k].0 == before[k].0.push(merged as u32));
                        assert forall|j: int| 0 <= j < after[k].0.len() implies #[trigger] (texts@[k]@[j] as u32) == after[k].0[j] by {
                            if j < after[k].0.len() - 1 {
                                assert(texts@[k]@[j] == old_texts[k]@[j]);
                            }
                        }
                    } else {
                        assert(texts@[k] == old_texts[k]);
                    }
                }
            }
        } else {
            let mut run: Vec<char> = Vec::new();
            run.push(merged);
            texts.push(run);
            layers.push(layer);
            proof {
                assert(after == before.push((seq![merged as u32], layer)));
                assert forall|k: int|
                    #![trigger texts@[k]]
                    #![trigger layers@[k]]
                    0 <= k < texts@.len() implies layers@[k] == after[k].1 && spells_run(texts@[k]@, after[k].0) by {
                    if k < texts@.len() - 1 {
                        assert(texts@[k] == old_texts[k]);
                        assert(spells_run(old_texts[k]@, before[k].0));
                    } else {
                        assert(texts@[k]@ == seq![merged]);
                    }
                }
            }
        }
        assert(texts@.len() == after.len());
        i = i + 1;
        proof {
            cur = after;
        }
    }
    let ghost goal = spec_runs(fill@, edge@, peak@, n as nat);
    assert(texts@.len() == goal.len());
    let mut out: Vec<(String, Layer)> = Vec::new();
    let mut k: usize = 0;
    while k < texts.len()
        invariant
            k <= texts@.len(),
            texts@.len() == layers@.len(),
            texts@.len() == goal.len(),
            out@.len() == k,
            forall|m: int|
                #![trigger texts@[m]]
                #![trigger layers@[m]]
                0 <= m < texts@.len() ==> layers@[m] == goal[m].1 && spells_run(texts@[m]@, goal[m].0),
            forall|m: int|
                0 <= m < k ==> (#[trigger] out@[m]).1 == goal[m].1 && spells_run(out@[m].0@, goal[m].0),
        decreases texts.len() - k,
    {
        let text = string_of(&texts[k]);
        assert(spells_run(texts@[k as int]@, goal[k as int].0));
        out.push((text, layers[k]));
        k = k + 1;
    }
    out
}

// ── Drawing the columns ────────────────────────────────────────────────

/// How many dots a column's level is measured against, in a canvas `h`
/// dots tall: half the height for the mirrored style, which grows both ways
/// from the middle, the whole height otherwise.
pub open spec fn spec_column_span(style: Style, h: int) -> int {
    if style == Style::Mirror {
        h / 2
    } else {
        h
    }
}

/// How many dots a column's level is measured against.
pub fn column_span(style: Style, h: usize) -> (r: usize)
    ensures
        r == spec_column_span(style, h as int),
{
    if style == Style::Mirror {
        h / 2
    } else {
        h
    }
}

/// `v`, no more than `m`.
pub open spec fn at_most(v: int, m: int) -> int {
    if v < m {
        v
    } else {
        m
    }
}

/// Whether the dithered body of a column `n` dots high lights row `py` of
/// column `x` in a canvas `h` dots tall. A checkerboard halves the ink so
/// the body reads as shaded. Only the curve and the mirror have a body; the
/// mirror's grows both ways from the middle.
pub open spec fn fill_dot(style: Style, h: int, n: int, x: int, py: int) -> bool {
    if style == Style::Curve {
        curve_body(h, n, x, py, n)
    } else if style == Style::Mirror {
        mirror_body(h, n, x, py, n)
    } else {
        false
    }
}

/// The body rows of a curve column `n` dots high that are `y` or fewer
/// steps below its crest.
pub open spec fn curve_body(h: int, n: int, x: int, py: int, y: int) -> bool {
    let k = py - (h - n);
    1 <= k < y && (x + k) % 2 == 0
}

/// The body rows of a mirrored column `n` dots high that are fewer than `y`
/// steps inside either of its crests.
pub open spec fn mirror_body(h: int, n: int, x: int, py: int, y: int) -> bool {
    let mid = h / 2;
    let up = py - (mid - n);
    let down = mid + n - 1 - py;
    (1 <= up < y && (x + up) % 2 == 0) || (1 <= down < y && (x + down) % 2 == 0)
}

/// Whether the crest of a column `n` dots high is on row `py`: the top dot
/// of the column, or both ends of a mirrored one.
pub open spec fn edge_dot(style: Style, h: int, n: int, py: int) -> bool {
    n > 0 && if style == Style::Mirror {
        py == h / 2 - n || py == h / 2 + n - 1
    } else {
        py == h - n
    }
}

/// Whether the peak marker of a column is on row `py`: `p` dots up, shown
/// only once it has separated from a crest `n` dots up. The mirror has none.
pub open spec fn peak_dot(style: Style, h: int, n: int, p: int, py: int) -> bool {
    style != Style::Mirror && p > n + 1 && py == h - p
}

/// The three canvases have the same size.
pub open spec fn same_size(a: Canvas, b: Canvas, c: Canvas) -> bool {
    &&& a.cells_w() == b.cells_w() && b.cells_w() == c.cells_w()
    &&& a.cells_h() == b.cells_h() && b.cells_h() == c.cells_h()
}

/// Light `(x, y)` and say so: one more dot lit, nothing else changed.
fn light(c: &mut Canvas, x: usize, y: usize)
    requires
        x < old(c).cells_w() * 2,
        y < old(c).cells_h() * 4,
    ensures
        final(c).cells_w() == old(c).cells_w(),
        final(c).cells_h() == old(c).cells_h(),
        forall|px: int, py: int| #[trigger] final(c).lit(px, py) == (old(c).lit(px, py) || (px == x && py == y)),
{
    c.set(x, y);
}

/// Draw column `x`, `n` dots high with its peak `p` dots up, onto the three
/// layers of a canvas `h` dots tall.
fn draw_column(fill: &mut Canvas, edge: &mut Canvas, peak: &mut Canvas, x: usize, n: usize, p: usize, h: usize, style: Style)
    requires
        same_size(*old(fill), *old(edge), *old(peak)),
        h == old(fill).cells_h() * 4,
        x < old(fill).cells_w() * 2,
        n <= spec_column_span(style, h as int),
        p <= h,
    ensures
        same_size(*final(fill), *final(edge), *final(peak)),
        final(fill).cells_w() == old(fill).cells_w(),
        final(fill).cells_h() == old(fill).cells_h(),
        forall|px: int, py: int| #[trigger] final(fill).lit(px, py) == (old(fill).lit(px, py) || (px == x
            && fill_dot(style, h as int, n as int, x as int, py))),
        forall|px: int, py: int| #[trigger] final(edge).lit(px, py) == (old(edge).lit(px, py) || (px == x
            && edge_dot(style, h as int, n as int, py))),
        forall|px: int, py: int| #[trigger] final(peak).lit(px, py) == (old(peak).lit(px, py) || (px == x
            && peak_dot(style, h as int, n as int, p as int, py))),
{
    let ghost fill0 = *fill;
    let ghost edge0 = *edge;
    let ghost peak0 = *peak;
    if style == Style::Mirror {
        let mid = h / 2;
        if n > 0 {
            light(edge, x, mid - n);
            light(edge, x, mid + n - 1);
        }
        let mut y: usize = 1;
        while y < n
            invariant
                1 <= y,
                y <= n || y == 1,
                n <= mid,
                mid == h / 2,
                h == fill0.cells_h() * 4,
                x < fill0.cells_w() * 2,
                style == Style::Mirror,
                fill.cells_w() == fill0.cells_w(),
                fill.cells_h() == fill0.cells_h(),
                forall|px: int, py: int| #[trigger] fill.lit(px, py) == (fill0.lit(px, py) || (px == x
                    && mirror_body(h as int, n as int, x as int, py, y as int))),
            decreases n - y,
        {
            if (x % 2 + y % 2) % 2 == 0 {
                light(fill, x, mid - n + y);
                light(fill, x, mid + n - 1 - y);
            }
            y = y + 1;
        }
        assert forall|px: int, py: int| #[trigger] fill.lit(px, py) == (fill0.lit(px, py) || (px == x
            && fill_dot(style, h as int, n as int, x as int, py))) by {
            assert(y == n || y == 1);
        }
    } else {
        if n > 0 {
            light(edge, x, h - n);
            if style == Style::Curve {
                let mut y: usize = 1;
                while y < n
                    invariant
                        1 <= y <= n,
                        n <= h,
                        h == fill0.cells_h() * 4,
                        x < fill0.cells_w() * 2,
                        style == Style::Curve,
                                fill.cells_w() == fill0.cells_w(),
                        fill.cells_h() == fill0.cells_h(),
                        forall|px: int, py: int| #[trigger] fill.lit(px, py) == (fill0.lit(px, py) || (px == x
                            && curve_body(h as int, n as int, x as int, py, y as int))),
                    decreases n - y,
                {
                    if (x % 2 + y % 2) % 2 == 0 {
                        light(fill, x, h - n + y);
                    }
                    y = y + 1;
                }
                assert forall|px: int, py: int| #[trigger] fill.lit(px, py) == (fill0.lit(px, py) || (px == x
                    && fill_dot(style, h as int, n as int, x as int, py))) by {
                    assert(y == n);
                }
            }
        }
        if p > n + 1 {
            light(peak, x, h - p);
        }
    }
}

/// Dot `(px, py)` of the body layer of the whole picture: the columns are
/// the first `tops.len()` dot columns that fit, each `tops[px]` dots high
/// at most its span.
pub open spec fn picture_fill(tops: Seq<usize>, style: Style, h: int, w: int, px: int, py: int) -> bool {
    0 <= px < w && px < tops.len() && fill_dot(
        style,
        h,
        at_most(tops[px] as int, spec_column_span(style, h)),
        px,
        py,
    )
}

/// Dot `(px, py)` of the crest layer of the whole picture.
pub open spec fn picture_edge(tops: Seq<usize>, style: Style, h: int, w: int, px: int, py: int) -> bool {
    0 <= px < w && px < tops.len() && edge_dot(style, h, at_most(tops[px] as int, spec_column_span(style, h)), py)
}

/// Dot `(px, py)` of the peak layer of the whole picture, with the peaks
/// `peak_tops[px]` dots up, at most the height.
pub open spec fn picture_peak(tops: Seq<usize>, peak_tops: Seq<usize>, style: Style, h: int, w: int, px: int, py: int) -> bool {
    0 <= px < w && px < tops.len() && peak_dot(
        style,
        h,
        at_most(tops[px] as int, spec_column_span(style, h)),
        at_most(peak_tops[px] as int, h),
        py,
    )
}

/// Draw the spectrum onto three braille layers (body, crest, peaks), one
/// column per dot column, with column `x` standing `tops[x]` dots high and
/// its peak `peak_tops[x]` dots up. The layers are kept apart so each cell
/// can take the colour of the highest layer it holds.
pub fn draw(tops: &Vec<usize>, peak_tops: &Vec<usize>, cells_w: usize, cells_h: usize, style: Style) -> (r: (Canvas, Canvas, Canvas))
    requires
        cells_w * cells_h <= usize::MAX,
        cells_w * 2 <= usize::MAX,
        cells_h * 4 <= usize::MAX,
        tops.len() == peak_tops.len(),
    ensures
        same_size(r.0, r.1, r.2),
        r.0.cells_w() == cells_w,
        r.0.cells_h() == cells_h,
        forall|px: int, py: int| #[trigger] r.0.lit(px, py) == picture_fill(tops@, style, cells_h * 4, cells_w * 2, px, py),
        forall|px: int, py: int| #[trigger] r.1.lit(px, py) == picture_edge(tops@, style, cells_h * 4, cells_w * 2, px, py),
        forall|px: int, py: int| #[trigger] r.2.lit(px, py) == picture_peak(tops@, peak_tops@, style, cells_h * 4, cells_w * 2, px, py),
{
    let mut fill = Canvas::new(cells_w, cells_h);
    let mut edge = Canvas::new(cells_w, cells_h);
    let mut peak = Canvas::new(cells_w, cells_h);
    let h = fill.height();
    let width = fill.width();
    let w = if width < tops.len() { width } else { tops.len() };
    let span = column_span(style, h);
    let mut x: usize = 0;
    while x < w
        invariant
            x <= w,
            w <= width,
            w <= tops.len(),
            tops.len() == peak_tops.len(),
            width == cells_w * 2,
            h == cells_h * 4,
            span == spec_column_span(style, h as int),
            same_size(fill, edge, peak),
            fill.cells_w() == cells_w,
            fill.cells_h() == cells_h,
            forall|px: int, py: int| #[trigger] fill.lit(px, py) == picture_fill(tops@, style, h as int, x as int, px, py),
            forall|px: int, py: int| #[trigger] edge.lit(px, py) == picture_edge(tops@, style, h as int, x as int, px, py),
            forall|px: int, py: int| #[trigger] peak.lit(px, py) == picture_peak(tops@, peak_tops@, style, h as int, x as int, px, py),
        decreases w - x,
    {
        let n = if tops[x] < span { tops[x] } else { span };
        let p = if peak_tops[x] < h { peak_tops[x] } else { h };
        draw_column(&mut fill, &mut edge, &mut peak, x, n, p, h, style);
        x = x + 1;
    }
    proof {
        assert forall|px: int, py: int| #[trigger] fill.lit(px, py) == picture_fill(tops@, style, cells_h * 4, cells_w * 2, px, py) by {
            assert(picture_fill(tops@, style, h as int, x as int, px, py) == picture_fill(tops@, style, cells_h * 4, cells_w * 2, px, py));
        }
        assert forall|px: int, py: int| #[trigger] edge.lit(px, py) == picture_edge(tops@, style, cells_h * 4, cells_w * 2, px, py) by {
            assert(picture_edge(tops@, style, h as int, x as int, px, py) == picture_edge(tops@, style, cells_h * 4, cells_w * 2, px, py));
        }
        assert forall|px: int, py: int| #[trigger] peak.lit(px, py) == picture_peak(tops@, peak_tops@, style, cells_h * 4, cells_w * 2, px, py) by {
            assert(picture_peak(tops@, peak_tops@, style, h as int, x as int, px, py) == picture_peak(tops@, peak_tops@, style, cells_h * 4, cells_w * 2, px, py));
        }
    }
    (fill, edge, peak)
}

// ── Bars ───────────────────────────────────────────────────────────────

/// The block characters of the bar style, from empty to full in eighths.
pub open spec fn block(i: int) -> char {
    if i <= 0 {
        ' '
    } else if i == 1 {
        '▁'
    } else if i == 2 {
        '▂'
    } else if i == 3 {
        '▃'
    } else if i == 4 {
        '▄'
    } else if i == 5 {
        '▅'
    } else if i == 6 {
        '▆'
    } else if i == 7 {
        '▇'
    } else {
        '█'
    }
}

fn block_char(i: usize) -> (c: char)
    ensures
        c == block(i as int),
{
    match i {
        0 => ' ',
        1 => '▁',
        2 => '▂',
        3 => '▃',
        4 => '▄',
        5 => '▅',
        6 => '▆',
        7 => '▇',
        _ => '█',
    }
}

/// Row `row` (counted from the top) of a bar that fills `filled` eighths of
/// `cells_h` rows: full below its top, a partial block at its top, blank
/// above. A bar never stands taller than the rows it has.
pub open spec fn bar_cell(filled: int, cells_h: int, row: int) -> char {
    let f = at_most(filled, cells_h * 8);
    let below = (cells_h - 1 - row) * 8;
    block(at_most(if f > below { f - below } else { 0 }, 8))
}

/// Block characters, eight steps per row, one bar per terminal column, with
/// the bar of column `k` filling `filled[k]` eighths of a row. Rows come top
/// down.
pub fn bar_rows(filled: &Vec<usize>, cells_h: usize) -> (rows: Vec<String>)
    requires
        cells_h * 8 <= usize::MAX,
    ensures
        rows@.len() == cells_h,
        forall|row: int| 0 <= row < cells_h ==> (#[trigger] rows@[row])@.len() == filled@.len(),
        forall|row: int, k: int|
            0 <= row < cells_h && 0 <= k < filled@.len() ==> #[trigger] rows@[row]@[k] == bar_cell(
                filled@[k] as int,
                cells_h as int,
                row,
            ),
{
    let steps = cells_h * 8;
    let mut rows: Vec<String> = Vec::new();
    let mut row: usize = 0;
    while row < cells_h
        invariant
            row <= cells_h,
            steps == cells_h * 8,
            rows@.len() == row,
            forall|j: int| 0 <= j < row ==> (#[trigger] rows@[j])@.len() == filled@.len(),
            forall|j: int, k: int|
                0 <= j < row && 0 <= k < filled@.len() ==> #[trigger] rows@[j]@[k] == bar_cell(
                    filled@[k] as int,
                    cells_h as int,
                    j,
                ),
        decreases cells_h - row,
    {
        let below = (cells_h - 1 - row) * 8;
        let mut line: Vec<char> = Vec::new();
        let mut k: usize = 0;
        while k < filled.len()
            invariant
                k <= filled.len(),
                row < cells_h,
                steps == cells_h * 8,
                below == (cells_h - 1 - row) * 8,
                line@.len() == k,
                forall|i: int| 0 <= i < k ==> #[trigger] line@[i] == bar_cell(filled@[i] as int, cells_h as int, row as int),
            decreases filled.len() - k,
        {
            let f = if filled[k] < steps { filled[k] } else { steps };
            let above = if f > below { f - below } else { 0 };
            line.push(block_char(if above < 8 { above } else { 8 }));
            k = k + 1;
        }
        rows.push(string_of(&line));
        row = row + 1;
    }
    rows
}

/// A bar is solid from the bottom up: once a row shows any of the bar,
/// every row beneath it is a full block.
pub proof fn lemma_bars_are_solid_below(filled: int, cells_h: int, row: int, lower: int)
    requires
        0 <= row < lower < cells_h,
        bar_cell(filled, cells_h, row) != ' ',
    ensures
        bar_cell(filled, cells_h, lower) == '█',
{
}

/// In the upright styles the crest is the top of its column: the body lies
/// strictly below it and a peak, when shown, stands clear above it.
pub proof fn lemma_crest_tops_the_column(style: Style, h: int, n: int, p: int, x: int, py: int, crest: int)
    requires
        style != Style::Mirror,
        edge_dot(style, h, n, crest),
    ensures
        fill_dot(style, h, n, x, py) ==> py > crest,
        peak_dot(style, h, n, p, py) ==> py < crest - 1,
{
}

/// The mirrored style grows from the middle: its body and crest are the
/// same on either side of the centre line.
pub proof fn lemma_mirror_is_symmetric(h: int, n: int, x: int, py: int)
    ensures
        fill_dot(Style::Mirror, h, n, x, py) == fill_dot(Style::Mirror, h, n, x, 2 * (h / 2) - 1 - py),
        edge_dot(Style::Mirror, h, n, py) == edge_dot(Style::Mirror, h, n, 2 * (h / 2) - 1 - py),
{
}

} // verus!
