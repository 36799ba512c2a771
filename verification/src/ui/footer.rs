//! Ticker, clock and timeline text.

use vstd::prelude::*;

use crate::config;
use crate::text::{
    chars_of, decimal, padded, push_padded, spec_str_to_uppercase, str_to_uppercase, string_of,
};

verus! {

/// Terminal rows the timeline occupies: two for the waveform, one for the
/// plain bar.
pub open spec fn spec_timeline_rows() -> nat {
    if config::WAVEFORM_TIMELINE { 2 } else { 1 }
}

/// Terminal rows the timeline occupies. The layout needs this before it can
/// decide what else fits.
pub fn timeline_rows() -> (r: usize)
    ensures r == spec_timeline_rows(),
{
    if config::WAVEFORM_TIMELINE {
        2
    } else {
        1
    }
}

/// Negative times count as zero.
pub open spec fn clamp_ms(ms: i64) -> nat {
    if ms < 0 { 0 } else { ms as nat }
}

/// `mm:ss`, minutes as wide as they need to be.
pub open spec fn spec_short_time(ms: i64) -> Seq<char> {
    let t = clamp_ms(ms);
    padded(t / 60_000, 2) + seq![':'] + padded((t % 60_000) / 1000, 2)
}

/// `mm:ss.mmm`, for the header clock.
pub open spec fn spec_long_time(ms: i64) -> Seq<char> {
    let t = clamp_ms(ms);
    spec_short_time(ms) + seq!['.'] + padded(t % 1000, 3)
}

/// `mm:ss`.
pub fn short_time(ms: i64) -> (r: String)
    ensures
        r@ == spec_short_time(ms),
{
    let t: u64 = if ms < 0 { 0 } else { ms as u64 };
    let mut out: Vec<char> = Vec::new();
    push_padded(&mut out, t / 60_000, 2);
    out.push(':');
    push_padded(&mut out, (t % 60_000) / 1000, 2);
    string_of(&out)
}

/// `mm:ss.mmm`, for the header clock.
pub fn long_time(ms: i64) -> (r: String)
    ensures
        r@ == spec_long_time(ms),
{
    let t: u64 = if ms < 0 { 0 } else { ms as u64 };
    let mut out: Vec<char> = Vec::new();
    push_padded(&mut out, t / 60_000, 2);
    out.push(':');
    push_padded(&mut out, (t % 60_000) / 1000, 2);
    out.push('.');
    push_padded(&mut out, t % 1000, 3);
    string_of(&out)
}

/// Under a hundred minutes the clock is always five characters, so the
/// header does not shift as the song plays.
pub proof fn lemma_short_time_width(ms: i64)
    requires
        ms < 6_000_000,
    ensures
        spec_short_time(ms).len() == 5,
        spec_long_time(ms).len() == 9,
{
    let t = clamp_ms(ms);
    lemma_decimal_len_small(t / 60_000);
    lemma_decimal_len_small((t % 60_000) / 1000);
    lemma_decimal_len_three(t % 1000);
}

proof fn lemma_decimal_len_small(n: nat)
    requires
        n < 100,
    ensures
        decimal(n).len() == if n < 10 { 1nat } else { 2nat },
{
    if n >= 10 {
        assert(decimal(n / 10).len() == 1);
    }
}

proof fn lemma_decimal_len_three(n: nat)
    requires
        n < 1000,
    ensures
        decimal(n).len() <= 3,
{
    if n >= 10 {
        lemma_decimal_len_small(n / 10);
    }
}

// ── Ticker ─────────────────────────────────────────────────────────────

/// Spaces either side of the bullet between repeats of a title
/// `title_len` characters long: more for short titles, whose loop is
/// otherwise hard to read.
pub open spec fn ticker_pad(title_len: nat) -> nat {
    if title_len < 15 { 12 } else { 6 }
}

/// One lap of the ticker for a title `title_len` characters long, given in
/// capitals as `upper`: the capitals, padding, a bullet, padding.
pub open spec fn ticker_lap(upper: Seq<char>, title_len: nat) -> Seq<char> {
    let pad = Seq::new(ticker_pad(title_len), |i: int| ' ');
    upper + pad + seq!['•'] + pad
}

/// One lap of the ticker for `title`.
pub open spec fn ticker_unit(title: Seq<char>) -> Seq<char> {
    ticker_lap(spec_str_to_uppercase(title), title.len())
}

/// Steps the ticker has scrolled by `now`: one per `TICKER_SCROLL_MS`, none
/// before the song starts.
pub open spec fn ticker_steps(now: i64) -> nat {
    if now <= 0 { 0 } else { (now / config::TICKER_SCROLL_MS) as nat }
}

/// What the ticker shows at `now` in a strip `width` columns wide, for a
/// title given in capitals as `upper`: the lap repeated endlessly, starting
/// `now`'s number of steps in.
pub open spec fn spec_scroll(upper: Seq<char>, title_len: nat, now: i64, width: nat) -> Seq<char> {
    let unit = ticker_lap(upper, title_len);
    Seq::new(width, |k: int| unit[(ticker_steps(now) + k) % (unit.len() as int)])
}

/// What the ticker shows at `now` in a strip `width` columns wide.
pub open spec fn spec_ticker_text(title: Seq<char>, now: i64, width: nat) -> Seq<char> {
    spec_scroll(spec_str_to_uppercase(title), title.len(), now, width)
}

/// The ticker wraps: a full lap of steps later it shows the same strip.
pub proof fn lemma_ticker_wraps(title: Seq<char>, now: i64, width: nat)
    requires
        now >= 0,
        now + ticker_unit(title).len() * config::TICKER_SCROLL_MS <= i64::MAX,
    ensures
        spec_ticker_text(
            title,
            (now + ticker_unit(title).len() * config::TICKER_SCROLL_MS) as i64,
            width,
        ) == spec_ticker_text(title, now, width),
{
    let unit = ticker_unit(title);
    let len = unit.len() as int;
    let later = (now + len * config::TICKER_SCROLL_MS) as i64;
    assert(len > 0);
    assert(ticker_steps(later) == ticker_steps(now) + len) by {
        assert((now + len * 350) / 350 == now / 350 + len) by (nonlinear_arith)
            requires
                now >= 0,
                len > 0,
        ;
    }
    let a = spec_ticker_text(title, later, width);
    let b = spec_ticker_text(title, now, width);
    assert forall|k: int| 0 <= k < width implies #[trigger] a[k] == b[k] by {
        vstd::arithmetic::div_mod::lemma_mod_add_multiples_vanish(ticker_steps(now) + k, len);
        assert(ticker_steps(later) + k == (ticker_steps(now) + k) + len);
    }
    assert(a =~= b);
}

/// The ticker for a title `title_len` characters long, given in capitals.
pub fn scroll_ticker(upper: &str, title_len: usize, now: i64, width: usize) -> (r: String)
    ensures
        r@ == spec_scroll(upper@, title_len as nat, now, width as nat),
{
    let pad: usize = if title_len < 15 { 12 } else { 6 };
    let mut unit = chars_of(upper);
    let ghost upper_chars = unit@;
    let mut i: usize = 0;
    while i < pad
        invariant
            i <= pad,
            unit@ == upper_chars + Seq::new(i as nat, |j: int| ' '),
        decreases pad - i,
    {
        unit.push(' ');
        assert(Seq::new(i as nat, |j: int| ' ').push(' ') == Seq::new((i + 1) as nat, |j: int| ' '));
        i = i + 1;
    }
    unit.push('•');
    let ghost with_bullet = unit@;
    let mut i: usize = 0;
    while i < pad
        invariant
            i <= pad,
            unit@ == with_bullet + Seq::new(i as nat, |j: int| ' '),
        decreases pad - i,
    {
        unit.push(' ');
        assert(Seq::new(i as nat, |j: int| ' ').push(' ') == Seq::new((i + 1) as nat, |j: int| ' '));
        i = i + 1;
    }
    let ghost spec_unit = ticker_lap(upper@, title_len as nat);
    assert(unit@ == spec_unit);
    let len = unit.len();
    let steps: u64 = if now <= 0 { 0 } else { (now / config::TICKER_SCROLL_MS) as u64 };
    let offset = (steps % (len as u64)) as usize;
    let mut out: Vec<char> = Vec::new();
    let mut k: usize = 0;
    let mut pos = offset;
    while k < width
        invariant
            k <= width,
            len == unit@.len(),
            len > 0,
            unit@ == spec_unit,
            pos < len,
            pos == (steps + k) % (len as int),
            out@ == Seq::new(k as nat, |j: int| spec_unit[(steps + j) % (len as int)]),
        decreases width - k,
    {
        out.push(unit[pos]);
        proof {
            assert(out@ == Seq::new((k + 1) as nat, |j: int| spec_unit[(steps + j) % (len as int)]));
            vstd::arithmetic::div_mod::lemma_add_mod_noop(steps + k, 1, len as int);
            vstd::arithmetic::div_mod::lemma_mod_twice(steps + k, len as int);
        }
        pos = if pos + 1 == len { 0 } else { pos + 1 };
        proof {
            if len == 1 {
                assert((steps + k + 1) % (len as int) == 0);
            } else {
                vstd::arithmetic::div_mod::lemma_small_mod(1, len as nat);
            }
            vstd::arithmetic::div_mod::lemma_mod_bound(steps + k, len as int);
            vstd::arithmetic::div_mod::lemma_mod_self_0(len as int);
            if pos != 0 {
                vstd::arithmetic::div_mod::lemma_small_mod(pos as nat, len as nat);
            }
        }
        k = k + 1;
    }
    proof {
        vstd::arithmetic::div_mod::lemma_small_mod(offset as nat, len as nat);
    }
    string_of(&out)
}

/// The song title scrolling sideways, news ticker style.
pub fn ticker_text(title: &str, now: i64, width: usize) -> (r: String)
    ensures
        r@ == spec_ticker_text(title@, now, width as nat),
{
    let title_chars = chars_of(title);
    let upper = str_to_uppercase(title);
    scroll_ticker(upper.as_str(), title_chars.len(), now, width)
}

// ── Progress bar ───────────────────────────────────────────────────────

/// Columns of a bar `width` wide that are not the marker.
pub open spec fn bar_usable(width: nat) -> nat {
    if width > 0 {
        (width - 1) as nat
    } else {
        0
    }
}

/// Columns behind the playhead when `elapsed` of `length` has played, on a
/// bar with `usable` columns besides the marker: the share played, clamped
/// to the song and rounded to the nearest column (a half rounds up). With no
/// length the bar reads empty.
pub open spec fn spec_filled_columns(elapsed: int, length: int, usable: nat) -> nat {
    if length <= 0 || elapsed <= 0 {
        0
    } else if elapsed >= length {
        usable
    } else {
        ((2 * elapsed * usable + length) / (2 * length)) as nat
    }
}

/// Split a bar of `width` columns into the run behind the playhead and the
/// run ahead of it, after `elapsed` of `length` has played. The marker takes
/// one column, so the three always add up to the width.
pub fn bar_parts(elapsed: i64, length: i64, width: usize) -> (r: (usize, usize))
    ensures
        r.0 == spec_filled_columns(elapsed as int, length as int, bar_usable(width as nat)),
        r.0 + r.1 == bar_usable(width as nat),
{
    let usable: usize = if width > 0 { width - 1 } else { 0 };
    if length <= 0 || elapsed <= 0 {
        return (0, usable);
    }
    if elapsed >= length {
        return (usable, 0);
    }
    let e = elapsed as u128;
    let l = length as u128;
    let u = usable as u128;
    proof {
        assert(0 <= e * u <= (i64::MAX as int) * (usize::MAX as int)) by (nonlinear_arith)
            requires
                0 < e < l <= i64::MAX,
                0 <= u <= usize::MAX,
        ;
    }
    let eu: u128 = e * u;
    let num: u128 = 2 * eu + l;
    let filled = num / (2 * l);
    assert(num == 2 * e * u + l) by (nonlinear_arith)
        requires
            eu == e * u,
            num == 2 * eu + l,
    ;
    proof {
        assert(filled <= u) by (nonlinear_arith)
            requires
                0 < e < l,
                u >= 0,
                filled == (2 * e * u + l) / (2 * l),
        {
            assert(2 * e * u + l < 2 * l * u + 2 * l) by {
                assert(e * u <= l * u);
            }
            assert((2 * e * u + l) / (2 * l) < u + 1);
        }
    }
    (filled as usize, usable - filled as usize)
}

/// The bar never runs backwards: more of the song played never lights
/// fewer columns.
pub proof fn lemma_bar_never_runs_backwards(e1: int, e2: int, length: int, usable: nat)
    requires
        e1 <= e2,
    ensures
        spec_filled_columns(e1, length, usable) <= spec_filled_columns(e2, length, usable),
{
    if length > 0 && e1 > 0 && e1 < length {
        if e2 >= length {
            assert((2 * e1 * usable + length) / (2 * length) <= usable) by (nonlinear_arith)
                requires
                    0 < e1 < length,
            {
                assert(2 * e1 * usable + length < 2 * length * usable + 2 * length) by {
                    assert(e1 * usable <= length * usable);
                }
            }
        } else {
            assert((2 * e1 * usable + length) / (2 * length) <= (2 * e2 * usable + length) / (2
                * length)) by (nonlinear_arith)
                requires
                    0 < e1 <= e2,
                    length > 0,
            {
                assert(e1 * usable <= e2 * usable);
                vstd::arithmetic::div_mod::lemma_div_is_ordered(
                    2 * e1 * usable + length,
                    2 * e2 * usable + length,
                    2 * length,
                );
            }
        }
    }
}

/// The bar is the played share rounded to the nearest column: none before
/// the song starts, all of them once it has played through, and part way
/// through the count whose columns lie within half a column of the share
/// (a half rounding up).
pub proof fn lemma_bar_rounds_to_nearest(elapsed: int, length: int, usable: nat)
    requires
        length > 0,
    ensures
        elapsed <= 0 ==> spec_filled_columns(elapsed, length, usable) == 0,
        elapsed >= length ==> spec_filled_columns(elapsed, length, usable) == usable,
        0 < elapsed < length ==> {
            let f = spec_filled_columns(elapsed, length, usable) as int;
            &&& 2 * f * length <= 2 * elapsed * usable + length
            &&& 2 * elapsed * usable + length < 2 * (f + 1) * length
        },
{
    if 0 < elapsed < length {
        let x = 2 * elapsed * usable + length;
        let d = 2 * length;
        vstd::arithmetic::div_mod::lemma_fundamental_div_mod(x, d);
        vstd::arithmetic::div_mod::lemma_mod_bound(x, d);
        assert(x >= 0) by (nonlinear_arith)
            requires elapsed > 0, length > 0, x == 2 * elapsed * usable + length;
        vstd::arithmetic::div_mod::lemma_div_pos_is_pos(x, d);
        let q = x / d;
        assert(2 * q * length <= x && x < 2 * (q + 1) * length) by (nonlinear_arith)
            requires x == d * q + x % d, 0 <= x % d < d, d == 2 * length;
    }
}

/// The ticker scrolls one column every `TICKER_SCROLL_MS`: a step later,
/// each column shows what the column to its right showed.
pub proof fn lemma_ticker_moves_one_column(title: Seq<char>, now: i64, width: nat, k: int)
    requires
        now >= 0,
        now + config::TICKER_SCROLL_MS <= i64::MAX,
        0 <= k,
        k + 1 < width,
    ensures
        spec_ticker_text(title, (now + config::TICKER_SCROLL_MS) as i64, width)[k] == spec_ticker_text(
            title,
            now,
            width,
        )[k + 1],
{
    let later = (now + config::TICKER_SCROLL_MS) as i64;
    assert(ticker_steps(later) == ticker_steps(now) + 1) by {
        vstd::arithmetic::div_mod::lemma_div_plus_one(now as int, 350);
    }
}

/// Where a click on column `col` of a bar `width` wide seeks to in a song
/// `total_ms` long: the column's share of the usable run, rounded toward
/// zero; the last usable column and any after it seek to the end.
pub open spec fn spec_column_target(col: nat, width: nat, total_ms: int) -> int {
    let u = bar_usable(width);
    let c = if col < u { col } else { u };
    if u == 0 {
        0
    } else if total_ms >= 0 {
        (c * total_ms) / (u as int)
    } else {
        -((c * (-total_ms)) / (u as int))
    }
}

/// Where a click on column `col` of the bar seeks to.
pub fn column_target(col: usize, width: usize, total_ms: i64) -> (r: i64)
    ensures
        r == spec_column_target(col as nat, width as nat, total_ms as int),
{
    let usable: usize = if width > 0 { width - 1 } else { 0 };
    if usable == 0 {
        return 0;
    }
    let c: usize = if col < usable { col } else { usable };
    let magnitude: u128 = if total_ms >= 0 { total_ms as u128 } else { (-(total_ms as i128)) as u128 };
    proof {
        assert(0 <= c * magnitude <= (usize::MAX as int) * 0x8000_0000_0000_0000) by (nonlinear_arith)
            requires
                0 <= c <= usize::MAX,
                0 <= magnitude <= 0x8000_0000_0000_0000,
        ;
    }
    let q: u128 = (c as u128) * magnitude / (usable as u128);
    proof {
        assert(q <= magnitude) by (nonlinear_arith)
            requires
                c <= usable,
                usable > 0,
                q == (c * magnitude) / (usable as int),
                magnitude >= 0,
        {
            assert(c * magnitude <= usable * magnitude);
            vstd::arithmetic::div_mod::lemma_div_is_ordered(c * magnitude, usable * magnitude, usable as int);
            vstd::arithmetic::div_mod::lemma_div_multiples_vanish(magnitude as int, usable as int);
        }
    }
    if total_ms >= 0 {
        q as i64
    } else {
        -(q as i128) as i64
    }
}

/// A click on the bar seeks in step with where it lands: the first column
/// seeks to the start, the last usable column and any after it to the end,
/// and on a song of some length a click further right never seeks earlier,
/// nor beyond either end of the song.
pub proof fn lemma_click_seeks_in_step(c1: nat, c2: nat, width: nat, total_ms: int)
    requires
        width >= 2,
        total_ms >= 0,
    ensures
        spec_column_target(0, width, total_ms) == 0,
        c1 >= bar_usable(width) ==> spec_column_target(c1, width, total_ms) == total_ms,
        0 <= spec_column_target(c1, width, total_ms) <= total_ms,
        c1 <= c2 ==> spec_column_target(c1, width, total_ms) <= spec_column_target(c2, width, total_ms),
{
    let u = bar_usable(width) as int;
    assert(u > 0);
    let a: int = if c1 < u { c1 as int } else { u };
    let b: int = if c2 < u { c2 as int } else { u };
    vstd::arithmetic::div_mod::lemma_div_by_multiple(total_ms, u);
    assert(0 * total_ms == 0);
    vstd::arithmetic::div_mod::lemma_basic_div(0, u);
    assert(a * total_ms <= u * total_ms && 0 <= a * total_ms) by (nonlinear_arith)
        requires 0 <= a <= u, total_ms >= 0;
    vstd::arithmetic::div_mod::lemma_div_is_ordered(a * total_ms, u * total_ms, u);
    vstd::arithmetic::div_mod::lemma_div_pos_is_pos(a * total_ms, u);
    assert(u * total_ms == total_ms * u) by (nonlinear_arith);
    if c1 <= c2 {
        assert(a * total_ms <= b * total_ms) by (nonlinear_arith)
            requires a <= b, total_ms >= 0;
        vstd::arithmetic::div_mod::lemma_div_is_ordered(a * total_ms, b * total_ms, u);
    }
}

} // verus!
