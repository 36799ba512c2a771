//! One line of lyrics, with the karaoke fill.
//!
//! The fill advances by grapheme cluster, not by code point: decomposed text
//! stores "ế" as a base letter and two combining marks, and counting those as
//! three steps would run the highlight ahead of the voice.
//!
//! The library decides what each piece of a line is doing (waiting, warming
//! up, being sung, glowing, done) and how far into that state it is; turning
//! a state into a blended colour is left to the drawing code.

use unicode_segmentation::UnicodeSegmentation;
use vstd::prelude::*;

use crate::config;
use crate::lyrics::{join_words, Sentence, WordView};
use crate::text::string_from;

verus! {

broadcast use vstd::std_specs::vec::axiom_spec_into_iter;

/// Where a line stands relative to the one being sung.
#[derive(Clone, Copy, Debug, PartialEq, Eq, Structural)]
pub enum Status {
    Past,
    Active,
    Future,
}

// ── Grapheme clusters ──────────────────────────────────────────────────

/// What `UnicodeSegmentation::graphemes(s, true)` yields for `s`: its
/// extended grapheme clusters, in order. The cluster rules of Unicode Annex
/// 29 take tables to state, so the result is only named.
pub uninterp spec fn spec_graphemes(s: Seq<char>) -> Seq<Seq<char>>;

/// All of `parts`, one after another.
pub open spec fn joined(parts: Seq<Seq<char>>) -> Seq<char>
    decreases parts.len(),
{
    if parts.len() == 0 {
        Seq::empty()
    } else {
        joined(parts.drop_last()) + parts.last()
    }
}

/// The characters of each string.
pub open spec fn strings_view(v: Seq<String>) -> Seq<Seq<char>> {
    v.map_values(|s: String| s@)
}

/// The extended grapheme clusters of `text`, from
/// `unicode_segmentation::UnicodeSegmentation::graphemes(text, true)`.
///
/// Claimed: the clusters are the named result; each is a slice of `text`
/// that starts where the one before it ended, from the first character to
/// the last, so none is empty and joined they give `text` back. Where the
/// boundaries fall is not stated.
#[verifier::external_body]
fn graphemes(text: &str) -> (r: Vec<String>)
    ensures
        strings_view(r@) == spec_graphemes(text@),
        joined(strings_view(r@)) == text@,
        forall|k: int| 0 <= k < r@.len() ==> (#[trigger] r@[k])@.len() > 0,
{
    text.graphemes(true).map(String::from).collect()
}

/// `parts` joined, then `more` joined, is all of them joined.
pub proof fn lemma_joined_append(parts: Seq<Seq<char>>, more: Seq<Seq<char>>)
    ensures
        joined(parts + more) == joined(parts) + joined(more),
    decreases more.len(),
{
    if more.len() == 0 {
        assert(parts + more == parts);
    } else {
        lemma_joined_append(parts, more.drop_last());
        assert((parts + more).drop_last() == parts + more.drop_last());
    }
}

/// How many of the `total` clusters of a word from `start` to `end` are lit
/// at `now`: the share of the word that has passed, rounded up, and all of
/// them for a word with no length.
pub open spec fn spec_filled(total: int, now: int, start: int, end: int) -> int {
    let duration = end - start;
    if duration <= 0 {
        total
    } else if now - start <= 0 {
        0
    } else if now - start >= duration {
        total
    } else {
        // `a / b` rounds down; the lit count rounds the share up.
        -((-((now - start) * total)) / duration)
    }
}

/// Two 64-bit quantities multiply within 128 bits.
proof fn lemma_product_fits(x: int, y: int)
    requires
        0 <= x <= u64::MAX,
        0 <= y <= u64::MAX,
    ensures
        0 <= x * y < u128::MAX,
{
    assert(0 <= x * y <= u64::MAX * u64::MAX) by (nonlinear_arith)
        requires
            0 <= x <= u64::MAX,
            0 <= y <= u64::MAX,
    ;
}

/// How far through a word the voice is, as a grapheme count.
pub fn filled_graphemes(text: &str, now: i64, start: i64, end: i64) -> (r: usize)
    ensures
        r == spec_filled(spec_graphemes(text@).len() as int, now as int, start as int, end as int),
{
    let total = graphemes(text).len();
    fill_count(total, now, start, end)
}

/// How many of a word's `total` clusters are lit at `now`.
pub fn fill_count(total: usize, now: i64, start: i64, end: i64) -> (r: usize)
    ensures
        r == spec_filled(total as int, now as int, start as int, end as int),
{
    let duration: i128 = end as i128 - start as i128;
    let passed: i128 = now as i128 - start as i128;
    if duration <= 0 || passed >= duration {
        return total;
    }
    if passed <= 0 {
        return 0;
    }
    proof {
        lemma_product_fits(passed as int, total as int);
    }
    let a: u128 = (passed as u128) * (total as u128);
    let b: u128 = duration as u128;
    let q: u128 = a / b;
    assert(q <= a) by (nonlinear_arith)
        requires
            b >= 1,
            q == a / b,
            a >= 0,
    ;
    let up: u128 = if a % b != 0 { q + 1 } else { q };
    proof {
        let t = total as int;
        let p = passed as int;
        let d = duration as int;
        assert(a == p * t);
        assert(up <= t) by (nonlinear_arith)
            requires
                0 < p < d,
                t >= 0,
                a == p * t,
                b == d,
                q == a / b,
                up == (if a % b != 0 { q + 1 } else { q as int }),
        {
            if t == 0 {
                assert(a == 0);
            } else {
                assert(a < b * t);
                assert(b * q <= a);
                if a % b != 0 {
                    assert(b * q < b * t);
                    assert(q < t);
                } else {
                    assert(b * q == a);
                    assert(b * q < b * t);
                }
            }
        }
        assert(-((-(p * t)) / d) == up) by (nonlinear_arith)
            requires
                a == p * t,
                b == d,
                d > 0,
                q == a / b,
                up == (if a % b != 0 { q + 1 } else { q as int }),
                a >= 0,
        {
            assert(a == b * q + a % b);
            assert(-(p * t) == d * (-(q as int) - 1) + (d - a % b)) by {
                assert(a % b < b);
            }
            if a % b != 0 {
                assert(0 <= d - a % b < d);
                assert((-(p * t)) / d == -(q as int) - 1);
            } else {
                assert(-(p * t) == d * (-(q as int)));
                assert((-(p * t)) / d == -(q as int));
            }
        }
    }
    up as usize
}

/// The fill never runs backwards, never lights more than the word has, and
/// covers the whole word once it has been sung.
pub proof fn lemma_fill_never_runs_backwards(total: int, now1: int, now2: int, start: int, end: int)
    requires
        total >= 0,
        now1 <= now2,
    ensures
        0 <= spec_filled(total, now1, start, end) <= spec_filled(total, now2, start, end) <= total,
        now2 >= end ==> spec_filled(total, now2, start, end) == total,
{
    let d = end - start;
    if d > 0 {
        let p1 = now1 - start;
        let p2 = now2 - start;
        if 0 < p1 < d {
            assert(0 <= -((-(p1 * total)) / d) <= total) by (nonlinear_arith)
                requires
                    0 < p1 < d,
                    total >= 0,
            {
                assert(p1 * total <= d * total);
                assert(-(d * total) <= -(p1 * total) <= 0);
                vstd::arithmetic::div_mod::lemma_div_is_ordered(-(d * total), -(p1 * total), d);
                vstd::arithmetic::div_mod::lemma_div_multiples_vanish(-total, d);
                assert(-(d * total) == d * (-total));
                vstd::arithmetic::div_mod::lemma_div_is_ordered(-(p1 * total), 0, d);
            }
            if p2 < d {
                assert(-((-(p1 * total)) / d) <= -((-(p2 * total)) / d)) by (nonlinear_arith)
                    requires
                        0 < p1 <= p2,
                        d > 0,
                        total >= 0,
                {
                    assert(p1 * total <= p2 * total);
                    vstd::arithmetic::div_mod::lemma_div_is_ordered(-(p2 * total), -(p1 * total), d);
                }
            }
        }
        if 0 < p2 < d {
            assert(0 <= -((-(p2 * total)) / d) <= total) by (nonlinear_arith)
                requires
                    0 < p2 < d,
                    total >= 0,
            {
                assert(p2 * total <= d * total);
                assert(-(d * total) <= -(p2 * total) <= 0);
                vstd::arithmetic::div_mod::lemma_div_is_ordered(-(d * total), -(p2 * total), d);
                vstd::arithmetic::div_mod::lemma_div_multiples_vanish(-total, d);
                assert(-(d * total) == d * (-total));
                vstd::arithmetic::div_mod::lemma_div_is_ordered(-(p2 * total), 0, d);
            }
        }
    }
}

/// The fill is the sung share of the word, rounded up to whole clusters:
/// nothing before the word starts; part way through a word of some length,
/// the fewest clusters whose share of the word's time covers the time sung.
pub proof fn lemma_fill_is_the_sung_share(total: int, now: int, start: int, end: int)
    requires
        total >= 0,
        start < end,
    ensures
        now <= start ==> spec_filled(total, now, start, end) == 0,
        start < now < end ==> {
            let f = spec_filled(total, now, start, end);
            &&& f * (end - start) >= (now - start) * total
            &&& (f - 1) * (end - start) < (now - start) * total
        },
{
    if start < now < end {
        let d = end - start;
        let x = (now - start) * total;
        vstd::arithmetic::div_mod::lemma_fundamental_div_mod(-x, d);
        vstd::arithmetic::div_mod::lemma_mod_bound(-x, d);
        let q = (-x) / d;
        assert(-x == d * q + (-x) % d);
        let f = -q;
        assert(f * d >= x) by (nonlinear_arith)
            requires -x == d * q + (-x) % d, (-x) % d < d, 0 <= (-x) % d, f == -q;
        assert((f - 1) * d < x) by (nonlinear_arith)
            requires -x == d * q + (-x) % d, (-x) % d < d, 0 <= (-x) % d, f == -q;
    }
}

/// The clusters `from..to` of `parts`, clipped to what is there; a backwards
/// range is empty.
pub open spec fn cluster_range(parts: Seq<Seq<char>>, from: int, to: int) -> Seq<Seq<char>> {
    let n = parts.len() as int;
    let a = if from < n { from } else { n };
    let b = if to <= from { a } else if to < n { to } else { n };
    parts.subrange(a, b)
}

/// The grapheme clusters `from..to` of `text`, joined.
pub fn take_graphemes(text: &str, from: usize, to: usize) -> (r: String)
    ensures
        r@ == joined(cluster_range(spec_graphemes(text@), from as int, to as int)),
{
    let parts = graphemes(text);
    join_clusters(&parts, from, to)
}

/// The clusters `from..to` of `parts`, clipped to what is there, joined.
pub fn join_clusters(parts: &Vec<String>, from: usize, to: usize) -> (r: String)
    ensures
        r@ == joined(cluster_range(strings_view(parts@), from as int, to as int)),
{
    let n = parts.len();
    let a = if from < n { from } else { n };
    let b = if to <= from { a } else if to < n { to } else { n };
    let ghost all = strings_view(parts@);
    let mut r = String::new();
    let mut k = a;
    while k < b
        invariant
            a <= k <= b <= n,
            n == parts.len(),
            all == strings_view(parts@),
            r@ == joined(all.subrange(a as int, k as int)),
        decreases b - k,
    {
        r.append(parts[k].as_str());
        assert(all.subrange(a as int, k + 1).drop_last() == all.subrange(a as int, k as int));
        k = k + 1;
    }
    r
}

// ── Tones ──────────────────────────────────────────────────────────────

/// How a piece of the line being sung is lit.
#[derive(Clone, Copy, Debug, PartialEq, Eq, Structural)]
pub enum Tone {
    /// Not reached yet: the plain singing colour.
    Ahead,
    /// About to be sung, `until` milliseconds from now, within the
    /// anticipation window: warming towards the hit colour.
    Warming { until: i64 },
    /// Being sung, `elapsed` milliseconds into a piece `length` long.
    Lit { elapsed: u64, length: u64 },
    /// Sung `since` milliseconds ago, within the afterglow: fading out.
    Glowing { since: i64 },
    /// Sung and settled: the past colour.
    Sung,
}

/// A run of text on the active line, with how it is lit.
#[derive(Clone, Debug)]
pub struct Piece {
    pub text: String,
    pub tone: Tone,
}

impl View for Piece {
    type V = (Seq<char>, Tone);

    open spec fn view(&self) -> (Seq<char>, Tone) {
        (self.text@, self.tone)
    }
}

/// The pieces as plain values.
pub open spec fn pieces_view(v: Seq<Piece>) -> Seq<(Seq<char>, Tone)> {
    v.map_values(|p: Piece| p@)
}

/// The text of each piece.
pub open spec fn piece_texts(v: Seq<(Seq<char>, Tone)>) -> Seq<Seq<char>> {
    v.map_values(|p: (Seq<char>, Tone)| p.0)
}

/// A piece sung `since` milliseconds ago (`since >= 0`). Once the afterglow
/// has run its full length the piece is plainly sung.
pub open spec fn afterglow(since: int) -> Tone {
    if since < config::AFTERGLOW_DURATION_MS {
        Tone::Glowing { since: since as i64 }
    } else {
        Tone::Sung
    }
}

/// How a piece sung from `from` to `to` is lit at `now`.
pub open spec fn tone_at(now: int, from: int, to: int) -> Tone {
    if now < from {
        let until = from - now;
        if until < config::ANTICIPATION_MS {
            Tone::Warming { until: until as i64 }
        } else {
            Tone::Ahead
        }
    } else if now < to {
        Tone::Lit {
            elapsed: (now - from) as u64,
            length: (if to - from > 1 { to - from } else { 1 }) as u64,
        }
    } else {
        afterglow(now - to)
    }
}

fn afterglow_tone(since: i128) -> (t: Tone)
    requires
        since >= 0,
    ensures
        t == afterglow(since as int),
{
    if since < config::AFTERGLOW_DURATION_MS as i128 {
        Tone::Glowing { since: since as i64 }
    } else {
        Tone::Sung
    }
}

fn tone_between(now: i128, from: i128, to: i128) -> (t: Tone)
    requires
        from <= to,
        to - from <= u64::MAX,
        i64::MIN <= now <= i64::MAX,
        -0x1_0000_0000_0000_0000_0000_0000 <= from <= 0x1_0000_0000_0000_0000_0000_0000,
        -0x1_0000_0000_0000_0000_0000_0000 <= to <= 0x1_0000_0000_0000_0000_0000_0000,
    ensures
        t == tone_at(now as int, from as int, to as int),
{
    if now < from {
        let until = from - now;
        if until < config::ANTICIPATION_MS as i128 {
            Tone::Warming { until: until as i64 }
        } else {
            Tone::Ahead
        }
    } else if now < to {
        let length: i128 = if to - from > 1 { to - from } else { 1 };
        Tone::Lit { elapsed: (now - from) as u64, length: length as u64 }
    } else {
        afterglow_tone(now - to)
    }
}

/// Where cluster `k` of `total` starts, in a word starting at `start` that
/// lasts `duration`: the word's time shared out evenly, rounded down.
pub open spec fn boundary(start: int, duration: int, k: int, total: int) -> int {
    start + (k * duration) / total
}

/// How cluster `k` of `total` is lit at `now`.
pub open spec fn cluster_tone(now: int, start: int, duration: int, total: int, k: int) -> Tone {
    tone_at(now, boundary(start, duration, k, total), boundary(start, duration, k + 1, total))
}

/// `pieces` with each run of neighbours lit the same way made one piece.
pub open spec fn merged(pieces: Seq<(Seq<char>, Tone)>) -> Seq<(Seq<char>, Tone)>
    decreases pieces.len(),
{
    if pieces.len() == 0 {
        Seq::empty()
    } else {
        let m = merged(pieces.drop_last());
        let p = pieces.last();
        if m.len() > 0 && m.last().1 == p.1 {
            m.update(m.len() - 1, (m.last().0 + p.0, p.1))
        } else {
            m.push(p)
        }
    }
}

/// Merging keeps the text: the merged pieces read the same as the pieces they came from.
pub proof fn lemma_merged_keeps_text(pieces: Seq<(Seq<char>, Tone)>)
    ensures
        joined(piece_texts(merged(pieces))) == joined(piece_texts(pieces)),
    decreases pieces.len(),
{
    if pieces.len() > 0 {
        let rest = pieces.drop_last();
        let m = merged(rest);
        let p = pieces.last();
        lemma_merged_keeps_text(rest);
        assert(piece_texts(pieces).drop_last() == piece_texts(rest));
        if m.len() > 0 && m.last().1 == p.1 {
            let u = m.update(m.len() - 1, (m.last().0 + p.0, p.1));
            assert(piece_texts(u).drop_last() == piece_texts(m).drop_last());
            assert(joined(piece_texts(m)) == joined(piece_texts(m).drop_last()) + m.last().0);
        } else {
            assert(piece_texts(m.push(p)).drop_last() == piece_texts(m));
        }
    }
}

/// How long a word from `start` to `end` lasts; nothing if it ends first.
pub open spec fn word_duration(start: int, end: int) -> int {
    if end - start > 0 {
        end - start
    } else {
        0
    }
}

/// A word being sung, from its clusters: each cluster lit by where `now`
/// falls in its share of the word, neighbours lit alike merged. A word with
/// no length is all sung; a word with no clusters has no pieces.
pub open spec fn lit_clusters(
    text: Seq<char>,
    clusters: Seq<Seq<char>>,
    now: int,
    start: int,
    end: int,
) -> Seq<(Seq<char>, Tone)> {
    let total = clusters.len() as int;
    let duration = word_duration(start, end);
    if total == 0 {
        Seq::empty()
    } else if duration == 0 {
        seq![(text, Tone::Sung)]
    } else {
        merged(Seq::new(total as nat, |k: int| (clusters[k], cluster_tone(now, start, duration, total, k))))
    }
}

/// Pieces all lit alike merge into one piece holding all their text.
proof fn lemma_merged_alike(pieces: Seq<(Seq<char>, Tone)>, tone: Tone)
    requires
        pieces.len() > 0,
        forall|k: int| 0 <= k < pieces.len() ==> (#[trigger] pieces[k]).1 == tone,
    ensures
        merged(pieces) == seq![(joined(piece_texts(pieces)), tone)],
    decreases pieces.len(),
{
    let rest = pieces.drop_last();
    assert(piece_texts(pieces).drop_last() == piece_texts(rest));
    if rest.len() > 0 {
        lemma_merged_alike(rest, tone);
        assert(pieces.last().1 == tone);
        assert(seq![(joined(piece_texts(rest)), tone)].update(
            0,
            (joined(piece_texts(rest)) + pieces.last().0, tone),
        ) =~= seq![(joined(piece_texts(pieces)), tone)]);
    } else {
        assert(merged(rest) == Seq::<(Seq<char>, Tone)>::empty());
        assert(piece_texts(rest) =~= Seq::<Seq<char>>::empty());
        assert(joined(piece_texts(pieces)) == joined(piece_texts(rest)) + pieces.last().0);
        assert(pieces.last().1 == tone);
    }
}

/// Each cluster's share of a word lies within the word.
proof fn lemma_boundary_within(start: int, duration: int, k: int, total: int)
    requires
        0 <= k <= total,
        total > 0,
        duration >= 0,
    ensures
        start <= boundary(start, duration, k, total) <= start + duration,
{
    assert(0 <= k * duration <= total * duration) by (nonlinear_arith)
        requires 0 <= k <= total, duration >= 0;
    assert(0 <= (k * duration) / total <= duration) by (nonlinear_arith)
        requires 0 <= k * duration <= total * duration, total > 0;
}

/// A word settles into one piece at both ends of its time: from the end of
/// its afterglow on it is a single sung piece, and up to the start of its
/// anticipation it is a single piece still ahead.
pub proof fn lemma_word_settles(text: Seq<char>, clusters: Seq<Seq<char>>, now: int, start: int, end: int)
    requires
        clusters.len() > 0,
        joined(clusters) == text,
    ensures
        now >= end + config::AFTERGLOW_DURATION_MS ==> lit_clusters(text, clusters, now, start, end) == seq![
            (text, Tone::Sung),
        ],
        end <= start ==> lit_clusters(text, clusters, now, start, end) == seq![(text, Tone::Sung)],
        start < end && now + config::ANTICIPATION_MS <= start ==> lit_clusters(text, clusters, now, start, end)
            == seq![(text, Tone::Ahead)],
{
    let total = clusters.len() as int;
    let duration = word_duration(start, end);
    if duration > 0 {
        let all = Seq::new(total as nat, |k: int| (clusters[k], cluster_tone(now, start, duration, total, k)));
        assert(piece_texts(all) =~= clusters);
        if now >= end + config::AFTERGLOW_DURATION_MS {
            assert forall|k: int| 0 <= k < all.len() implies (#[trigger] all[k]).1 == Tone::Sung by {
                lemma_boundary_within(start, duration, k, total);
                lemma_boundary_within(start, duration, k + 1, total);
                assert(start + duration == end);
            }
            lemma_merged_alike(all, Tone::Sung);
        }
        if now + config::ANTICIPATION_MS <= start {
            assert forall|k: int| 0 <= k < all.len() implies (#[trigger] all[k]).1 == Tone::Ahead by {
                lemma_boundary_within(start, duration, k, total);
            }
            lemma_merged_alike(all, Tone::Ahead);
        }
    }
}

/// The pieces of a word being sung, given its clusters.
pub fn light_clusters(text: &str, clusters: &Vec<String>, now: i64, start: i64, end: i64) -> (r: Vec<Piece>)
    ensures
        pieces_view(r@) == lit_clusters(text@, strings_view(clusters@), now as int, start as int, end as int),
        joined(strings_view(clusters@)) == text@ ==> joined(piece_texts(pieces_view(r@))) == text@,
{
    let total = clusters.len();
    let ghost cs = strings_view(clusters@);
    let mut r: Vec<Piece> = Vec::new();
    if total == 0 {
        assert(cs == Seq::<Seq<char>>::empty());
        return r;
    }
    let duration: u64 = if end > start { (end as i128 - start as i128) as u64 } else { 0 };
    if duration == 0 {
        r.push(Piece { text: string_from(text), tone: Tone::Sung });
        proof {
            assert(pieces_view(r@) == seq![(text@, Tone::Sung)]);
            assert(piece_texts(pieces_view(r@)) == seq![text@]);
            assert(seq![text@].drop_last() == Seq::<Seq<char>>::empty());
            assert(joined(Seq::<Seq<char>>::empty()) == Seq::<char>::empty());
        }
        return r;
    }
    let ghost d = duration as int;
    let ghost t = total as int;
    let ghost all = Seq::new(total as nat, |k: int| (cs[k], cluster_tone(now as int, start as int, d, t, k)));
    assert(word_duration(start as int, end as int) == d);
    let mut k: usize = 0;
    while k < total
        invariant
            0 < total == clusters.len(),
            k <= total,
            cs == strings_view(clusters@),
            d == duration as int,
            t == total as int,
            0 < d <= u64::MAX,
            all == Seq::new(total as nat, |j: int| (cs[j], cluster_tone(now as int, start as int, d, t, j))),
            pieces_view(r@) == merged(all.take(k as int)),
        decreases total - k,
    {
        proof {
            lemma_product_fits(k as int, d);
            lemma_product_fits(k + 1, d);
            assert((k as int) * d <= (k + 1) * d) by (nonlinear_arith)
                requires d > 0;
            assert(((k + 1) * d) / t <= d) by (nonlinear_arith)
                requires k + 1 <= t, t > 0, d > 0;
            assert(((k as int) * d) / t <= ((k + 1) * d) / t) by (nonlinear_arith)
                requires (k as int) * d <= (k + 1) * d, t > 0;
            assert(0 <= (k as int) * d) by (nonlinear_arith)
                requires d > 0, k >= 0;
        }
        let from_off: u128 = (k as u128) * (duration as u128) / (total as u128);
        let to_off: u128 = ((k + 1) as u128) * (duration as u128) / (total as u128);
        let from: i128 = start as i128 + from_off as i128;
        let to: i128 = start as i128 + to_off as i128;
        let tone = tone_between(now as i128, from, to);
        assert(tone == all[k as int].1);
        let piece_text = clusters[k].clone();
        let ghost before = r@;
        if r.len() > 0 && r[r.len() - 1].tone == tone {
            let mut last = r.pop().unwrap();
            last.text.append(piece_text.as_str());
            r.push(last);
            proof {
                assert(all.take(k + 1).drop_last() == all.take(k as int));
                assert(pieces_view(r@) == pieces_view(before).update(
                    before.len() - 1,
                    (before.last()@.0 + cs[k as int], tone),
                ));
            }
        } else {
            r.push(Piece { text: piece_text, tone });
            proof {
                assert(all.take(k + 1).drop_last() == all.take(k as int));
                assert(pieces_view(r@) == pieces_view(before).push((cs[k as int], tone)));
            }
        }
        k = k + 1;
    }
    proof {
        assert(all.take(total as int) == all);
        lemma_merged_keeps_text(all);
        assert(piece_texts(all) == cs);
    }
    r
}

/// A word being sung, piece by piece.
pub fn singing_word(text: &str, now: i64, start: i64, end: i64) -> (r: Vec<Piece>)
    ensures
        pieces_view(r@) == lit_clusters(text@, spec_graphemes(text@), now as int, start as int, end as int),
        joined(piece_texts(pieces_view(r@))) == text@,
{
    let clusters = graphemes(text);
    light_clusters(text, &clusters, now, start, end)
}

// ── The active line ────────────────────────────────────────────────────

/// How the space between two words is lit: sung once the next word starts,
/// glowing after the word before it ends, otherwise still ahead.
pub open spec fn separator_tone(now: int, prev_end: int, next_start: int) -> Tone {
    if now >= next_start {
        Tone::Sung
    } else if now >= prev_end {
        afterglow(now - prev_end)
    } else {
        Tone::Ahead
    }
}

/// The pieces of one word of the active line: all sung once its afterglow
/// is over, all ahead before its anticipation starts, otherwise lit cluster
/// by cluster.
pub open spec fn word_pieces(w: WordView, now: int) -> Seq<(Seq<char>, Tone)> {
    if now >= w.end_time + config::AFTERGLOW_DURATION_MS {
        seq![(w.data, Tone::Sung)]
    } else if now + config::ANTICIPATION_MS < w.start_time {
        seq![(w.data, Tone::Ahead)]
    } else {
        lit_clusters(w.data, spec_graphemes(w.data), now, w.start_time as int, w.end_time as int)
    }
}

/// The active line as pieces: each word's pieces, with one space between
/// words and none after the last.
pub open spec fn spec_active_pieces(words: Seq<WordView>, now: int) -> Seq<(Seq<char>, Tone)>
    decreases words.len(),
{
    if words.len() == 0 {
        Seq::empty()
    } else {
        let n = words.len() - 1;
        let sep = if n > 0 {
            seq![(seq![' '], separator_tone(now, words[n - 1].end_time as int, words[n].start_time as int))]
        } else {
            Seq::empty()
        };
        spec_active_pieces(words.drop_last(), now) + sep + word_pieces(words[n], now)
    }
}

/// The pieces of one word of the active line.
fn word_on_active_line(data: &str, now: i64, start: i64, end: i64) -> (r: Vec<Piece>)
    ensures
        pieces_view(r@) == word_pieces(WordView { start_time: start, end_time: end, data: data@ }, now as int),
        joined(piece_texts(pieces_view(r@))) == data@,
{
    let mut r: Vec<Piece> = Vec::new();
    if now as i128 >= end as i128 + config::AFTERGLOW_DURATION_MS as i128 {
        r.push(Piece { text: string_from(data), tone: Tone::Sung });
    } else if (now as i128) + (config::ANTICIPATION_MS as i128) < start as i128 {
        r.push(Piece { text: string_from(data), tone: Tone::Ahead });
    } else {
        return singing_word(data, now, start, end);
    }
    proof {
        assert(piece_texts(pieces_view(r@)) == seq![data@]);
        assert(seq![data@].drop_last() == Seq::<Seq<char>>::empty());
        assert(joined(Seq::<Seq<char>>::empty()) == Seq::<char>::empty());
    }
    r
}

/// The line being sung, piece by piece. Joined, the pieces read exactly as
/// the line's text: one space between words and nothing after the last, so
/// the active line is as wide as any other.
pub fn active_pieces(sentence: &Sentence, now: i64) -> (r: Vec<Piece>)
    ensures
        pieces_view(r@) == spec_active_pieces(sentence@.words, now as int),
        joined(piece_texts(pieces_view(r@))) == sentence@.text(),
{
    let ghost words = sentence@.words;
    let mut r: Vec<Piece> = Vec::new();
    let mut i: usize = 0;
    while i < sentence.words.len()
        invariant
            i <= sentence.words.len(),
            words == sentence@.words,
            words.len() == sentence.words.len(),
            pieces_view(r@) == spec_active_pieces(words.take(i as int), now as int),
            joined(piece_texts(pieces_view(r@))) == join_words(words.take(i as int)),
        decreases sentence.words.len() - i,
    {
        let w = &sentence.words[i];
        let ghost before = pieces_view(r@);
        assert(words.take(i + 1).drop_last() == words.take(i as int));
        assert(words.take(i + 1)[i as int] == words[i as int]);
        if i > 0 {
            let prev_end = sentence.words[i - 1].end_time;
            let tone = if now >= w.start_time {
                Tone::Sung
            } else if now >= prev_end {
                afterglow_tone(now as i128 - prev_end as i128)
            } else {
                Tone::Ahead
            };
            r.push(Piece { text: string_from(" "), tone });
            proof {
                reveal_strlit(" ");
                assert(" "@ =~= seq![' ']);
                assert(r@.last()@ == (seq![' '], tone));
                assert(pieces_view(r@) =~= before.push((seq![' '], tone)));
                assert(piece_texts(pieces_view(r@)) == piece_texts(before).push(seq![' ']));
                assert(piece_texts(pieces_view(r@)).drop_last() == piece_texts(before));
                assert(words.take(i + 1)[i - 1] == words[i - 1]);
            }
        }
        let ghost middle = pieces_view(r@);
        let mut more = word_on_active_line(w.data.as_str(), now, w.start_time, w.end_time);
        let ghost added = pieces_view(more@);
        r.append(&mut more);
        proof {
            assert(pieces_view(r@) == middle + added);
            assert(piece_texts(middle + added) == piece_texts(middle) + piece_texts(added));
            lemma_joined_append(piece_texts(middle), piece_texts(added));
            if i > 0 {
                assert(middle == before + seq![(seq![' '], separator_tone(now as int, words[i - 1].end_time as int, words[i as int].start_time as int))]);
            } else {
                assert(middle == before + Seq::<(Seq<char>, Tone)>::empty());
                assert(join_words(words.take(0)) == Seq::<char>::empty());
            }
            assert(words[i as int] == w@);
        }
        i = i + 1;
    }
    assert(words.take(sentence.words.len() as int) == words);
    r
}

// ── How a line is drawn ────────────────────────────────────────────────

/// What a row of the lyric window shows.
#[derive(Clone, Copy, Debug, PartialEq, Eq, Structural)]
pub enum LineLook {
    /// A blank row: an instrumental break is playing and this is not it.
    Blank,
    /// The note pattern of an instrumental break, the second pattern when
    /// `alternate` holds; `active` when it is the break being played.
    Break { alternate: bool, active: bool },
    /// A line that is not being sung, drawn whole in one colour.
    Plain,
    /// The line being sung, piece by piece, with the marker either side.
    Sung,
}

/// Whether the note pattern of a break shows its second form at `now`:
/// the pattern swaps every `GAP_PATTERN_MS`, counting whole steps away from
/// zero, and shows its first form on even steps.
pub open spec fn alternate_pattern(now: int) -> bool {
    let steps = (if now < 0 { -now } else { now }) / config::GAP_PATTERN_MS as int;
    steps % 2 == 1
}

/// What a row shows: while a break is the line being played every other
/// row steps aside; a break shows its note pattern; only the line being
/// sung is lit piece by piece, and only it carries the marker.
pub open spec fn spec_line_look(is_gap: bool, status: Status, gap_is_active: bool, now: int) -> LineLook {
    let active = status == Status::Active;
    if gap_is_active && !active {
        LineLook::Blank
    } else if is_gap {
        LineLook::Break { alternate: alternate_pattern(now), active }
    } else if !active {
        LineLook::Plain
    } else {
        LineLook::Sung
    }
}

/// How a lyric row is drawn.
pub fn line_look(is_gap: bool, status: Status, gap_is_active: bool, now: i64) -> (r: LineLook)
    ensures
        r == spec_line_look(is_gap, status, gap_is_active, now as int),
{
    let active = status == Status::Active;
    if gap_is_active && !active {
        LineLook::Blank
    } else if is_gap {
        let magnitude: i128 = if now < 0 { -(now as i128) } else { now as i128 };
        let steps: i128 = magnitude / config::GAP_PATTERN_MS as i128;
        LineLook::Break { alternate: steps % 2 == 1, active }
    } else if !active {
        LineLook::Plain
    } else {
        LineLook::Sung
    }
}

/// The marker is on the line being sung and nowhere else: not on a break,
/// not on any other row.
pub proof fn lemma_marker_only_on_the_sung_line(is_gap: bool, status: Status, gap_is_active: bool, now: int)
    ensures
        spec_line_look(is_gap, status, gap_is_active, now) == LineLook::Sung <==> (status
            == Status::Active && !is_gap),
{
}

/// The note pattern of a break swaps with a steady beat: the first form for
/// the first `GAP_PATTERN_MS`, then every further `GAP_PATTERN_MS` swaps it,
/// the same way before the start as after it.
pub proof fn lemma_pattern_swaps(now: int)
    ensures
        0 <= now < config::GAP_PATTERN_MS ==> !alternate_pattern(now),
        now >= 0 ==> alternate_pattern(now + config::GAP_PATTERN_MS) == !alternate_pattern(now),
        alternate_pattern(-now) == alternate_pattern(now),
{
    let b = config::GAP_PATTERN_MS as int;
    if now >= 0 {
        vstd::arithmetic::div_mod::lemma_div_plus_one(now, b);
        vstd::arithmetic::div_mod::lemma_add_mod_noop(now / b, 1, 2);
    }
    if 0 <= now < b {
        vstd::arithmetic::div_mod::lemma_basic_div(now, b);
    }
}

/// A piece of a word sung from `from` to `to` is lit by where the voice is:
/// ahead of it by the anticipation window or more it is plain; closer, it
/// warms with the time still to go; while it is sung it is lit with the time
/// into it and its length; after it, it glows for the afterglow with the
/// time since, and then settles into the sung colour.
pub proof fn lemma_tones_follow_the_voice(now: int, from: int, to: int)
    requires
        from < to,
    ensures
        from - now >= config::ANTICIPATION_MS ==> tone_at(now, from, to) == Tone::Ahead,
        0 < from - now < config::ANTICIPATION_MS ==> tone_at(now, from, to) == (Tone::Warming {
            until: (from - now) as i64,
        }),
        from <= now < to ==> tone_at(now, from, to) == (Tone::Lit {
            elapsed: (now - from) as u64,
            length: (to - from) as u64,
        }),
        0 <= now - to < config::AFTERGLOW_DURATION_MS ==> tone_at(now, from, to) == (Tone::Glowing {
            since: (now - to) as i64,
        }),
        now - to >= config::AFTERGLOW_DURATION_MS ==> tone_at(now, from, to) == Tone::Sung,
{
}

/// The space between two words follows the voice too: plain until the
/// word before it ends, glowing through the afterglow after that, and sung
/// once the afterglow is over or the next word has started.
pub proof fn lemma_space_follows_the_voice(now: int, prev_end: int, next_start: int)
    ensures
        now < prev_end && now < next_start ==> separator_tone(now, prev_end, next_start) == Tone::Ahead,
        prev_end <= now < next_start && now - prev_end < config::AFTERGLOW_DURATION_MS ==> separator_tone(
            now,
            prev_end,
            next_start,
        ) == (Tone::Glowing { since: (now - prev_end) as i64 }),
        now >= next_start || (now >= prev_end && now - prev_end >= config::AFTERGLOW_DURATION_MS) ==> separator_tone(
            now,
            prev_end,
            next_start,
        ) == Tone::Sung,
{
}

} // verus!
