//! Lyric lines, instrumental gaps, and moving between lines.
//!
//! A lyric file is read and parsed outside the library; what arrives here is
//! the list of lines. Loading tidies the words, drops lines with no words and
//! injects a musical note line into every long instrumental break, so the
//! display always has something to show.

use vstd::prelude::*;

use crate::config;
use crate::text::{
    decimal, padded, spec_is_whitespace, spec_trim, spec_trim_end, spec_trim_start, string_from, trim,
};
use crate::ui::footer::{clamp_ms, spec_short_time};

verus! {

broadcast use vstd::std_specs::vec::axiom_spec_into_iter;

#[derive(Debug, Clone)]
pub struct Word {
    pub start_time: i64,
    pub end_time: i64,
    pub data: String,
}

#[derive(Debug, Clone)]
pub struct Sentence {
    pub words: Vec<Word>,
    /// Injected instrumental break rather than a real lyric line.
    pub is_gap: bool,
}

/// A word as plain values.
pub struct WordView {
    pub start_time: i64,
    pub end_time: i64,
    pub data: Seq<char>,
}

/// A line as plain values.
pub struct SentenceView {
    pub words: Seq<WordView>,
    pub is_gap: bool,
}

impl View for Word {
    type V = WordView;

    open spec fn view(&self) -> WordView {
        WordView { start_time: self.start_time, end_time: self.end_time, data: self.data@ }
    }
}

impl View for Sentence {
    type V = SentenceView;

    open spec fn view(&self) -> SentenceView {
        SentenceView { words: self.words@.map_values(|w: Word| w@), is_gap: self.is_gap }
    }
}

/// The lines of `v`, as plain values.
pub open spec fn lines_view(v: Seq<Sentence>) -> Seq<SentenceView> {
    v.map_values(|s: Sentence| s@)
}

/// Word data joined with one space between words and none after the last.
pub open spec fn join_words(words: Seq<WordView>) -> Seq<char>
    decreases words.len(),
{
    if words.len() == 0 {
        Seq::empty()
    } else if words.len() == 1 {
        words[0].data
    } else {
        join_words(words.drop_last()) + seq![' '] + words.last().data
    }
}

impl SentenceView {
    /// When the first word starts, or 0 for a line with no words.
    pub open spec fn start(self) -> i64 {
        if self.words.len() > 0 { self.words[0].start_time } else { 0 }
    }

    /// When the last word ends, or 0 for a line with no words.
    pub open spec fn end(self) -> i64 {
        if self.words.len() > 0 { self.words.last().end_time } else { 0 }
    }

    /// The words of the line separated by single spaces.
    pub open spec fn text(self) -> Seq<char> {
        join_words(self.words)
    }
}

impl Sentence {
    pub fn start(&self) -> (r: i64)
        ensures
            r == self@.start(),
    {
        if self.words.len() > 0 { self.words[0].start_time } else { 0 }
    }

    pub fn end(&self) -> (r: i64)
        ensures
            r == self@.end(),
    {
        let n = self.words.len();
        if n > 0 { self.words[n - 1].end_time } else { 0 }
    }

    /// The words of the line separated by single spaces, with nothing after the
    /// last word.
    pub fn text(&self) -> (r: String)
        ensures
            r@ == self@.text(),
    {
        let ghost words = self@.words;
        let mut r = String::new();
        let mut i: usize = 0;
        while i < self.words.len()
            invariant
                i <= self.words.len(),
                words == self@.words,
                words.len() == self.words.len(),
                r@ == join_words(words.take(i as int)),
            decreases self.words.len() - i,
        {
            if i > 0 {
                r.append(" ");
            }
            r.append(self.words[i].data.as_str());
            proof {
                reveal_strlit(" ");
                assert(words.take(i + 1).drop_last() == words.take(i as int));
            }
            i = i + 1;
        }
        assert(words.take(self.words.len() as int) == words);
        r
    }
}

// ── Gaps ───────────────────────────────────────────────────────────────

/// The note line shown during an instrumental break from `start` to `end`.
pub open spec fn gap_line(start: i64, end: i64) -> SentenceView {
    SentenceView {
        words: seq![WordView { start_time: start, end_time: end, data: config::GAP_TEXT@ }],
        is_gap: true,
    }
}

/// The note line before the first lyric, when the intro is long.
pub open spec fn lead_gap(lines: Seq<SentenceView>) -> Seq<SentenceView> {
    if lines.len() > 0 && lines[0].start() > config::GAP_INITIAL_THRESHOLD_MS {
        seq![gap_line(0, (lines[0].start() - config::GAP_BUFFER_MS) as i64)]
    } else {
        Seq::empty()
    }
}

/// Line `i`, followed by a note line when the next line starts long after
/// it ends.
pub open spec fn line_and_gap(lines: Seq<SentenceView>, i: int) -> Seq<SentenceView> {
    seq![lines[i]] + if i + 1 < lines.len() && lines[i + 1].start() - lines[i].end()
        > config::GAP_INTER_THRESHOLD_MS {
        seq![
            gap_line(
                (lines[i].end() + config::GAP_BUFFER_MS) as i64,
                (lines[i + 1].start() - config::GAP_BUFFER_MS) as i64,
            ),
        ]
    } else {
        Seq::empty()
    }
}

/// The first `n` lines, each followed by its note line where there is one.
pub open spec fn lines_with_gaps(lines: Seq<SentenceView>, n: nat) -> Seq<SentenceView>
    decreases n,
{
    if n == 0 {
        Seq::empty()
    } else {
        lines_with_gaps(lines, (n - 1) as nat) + line_and_gap(lines, n - 1)
    }
}

/// `lines` with a note line before a long intro and in every long break.
pub open spec fn spec_inject_gaps(lines: Seq<SentenceView>) -> Seq<SentenceView> {
    lead_gap(lines) + lines_with_gaps(lines, lines.len())
}

/// A word with surrounding whitespace removed.
pub open spec fn trimmed_word(w: WordView) -> WordView {
    WordView { data: spec_trim(w.data), ..w }
}

/// A line with every word trimmed.
pub open spec fn trimmed_line(s: SentenceView) -> SentenceView {
    SentenceView { words: s.words.map_values(|w: WordView| trimmed_word(w)), ..s }
}

/// Every line trimmed, and lines without words dropped.
pub open spec fn tidy_lines(lines: Seq<SentenceView>) -> Seq<SentenceView> {
    lines.map_values(|s: SentenceView| trimmed_line(s)).filter(|s: SentenceView| s.words.len() > 0)
}

fn gap_sentence(start: i64, end: i64) -> (s: Sentence)
    ensures
        s@ == gap_line(start, end),
{
    let mut words: Vec<Word> = Vec::new();
    words.push(Word { start_time: start, end_time: end, data: string_from(config::GAP_TEXT) });
    let s = Sentence { words, is_gap: true };
    assert(s@.words == gap_line(start, end).words);
    s
}

/// Insert a gap line before the first lyric and between any two lines far
/// enough apart, so the display has something to show during instrumentals.
pub fn inject_gaps(input: Vec<Sentence>) -> (out: Vec<Sentence>)
    ensures
        lines_view(out@) == spec_inject_gaps(lines_view(input@)),
{
    let ghost lines = lines_view(input@);
    if input.len() == 0 {
        assert(spec_inject_gaps(lines) == lines);
        return input;
    }
    let n = input.len();

    // Where every line starts and ends, read before the lines move out.
    let mut starts: Vec<i64> = Vec::new();
    let mut ends: Vec<i64> = Vec::new();
    let mut i: usize = 0;
    while i < n
        invariant
            i <= n,
            n == input.len(),
            lines == lines_view(input@),
            starts.len() == i,
            ends.len() == i,
            forall|j: int| 0 <= j < i ==> starts@[j] == lines[j].start() && ends@[j] == lines[j].end(),
        decreases n - i,
    {
        starts.push(input[i].start());
        ends.push(input[i].end());
        i = i + 1;
    }

    let mut out: Vec<Sentence> = Vec::new();
    let first_start = starts[0];
    if first_start > config::GAP_INITIAL_THRESHOLD_MS {
        out.push(gap_sentence(0, first_start - config::GAP_BUFFER_MS));
    }
    assert(lines_view(out@) == lead_gap(lines));

    let mut k: usize = 0;
    for s in it: input
        invariant
            n == lines.len(),
            it.seq() == input@,
            lines == lines_view(input@),
            k == it.index(),
            k <= n,
            starts.len() == n,
            ends.len() == n,
            forall|j: int| 0 <= j < n ==> starts@[j] == lines[j].start() && ends@[j] == lines[j].end(),
            lines_view(out@) == lead_gap(lines) + lines_with_gaps(lines, k as nat),
    {
        let ghost before = lines_view(out@);
        out.push(s);
        if k + 1 < n {
            let end = ends[k];
            let next_start = starts[k + 1];
            if next_start as i128 - end as i128 > config::GAP_INTER_THRESHOLD_MS as i128 {
                out.push(
                    gap_sentence(end + config::GAP_BUFFER_MS, next_start - config::GAP_BUFFER_MS),
                );
            }
        }
        proof {
            assert(lines_view(out@) == before + line_and_gap(lines, k as int));
            assert(lines_with_gaps(lines, (k + 1) as nat) == lines_with_gaps(lines, k as nat)
                + line_and_gap(lines, k as int));
        }
        k = k + 1;
    }
    out
}

/// A word with surrounding whitespace removed.
fn trim_word(w: Word) -> (r: Word)
    ensures
        r@ == trimmed_word(w@),
{
    Word { start_time: w.start_time, end_time: w.end_time, data: trim(w.data.as_str()) }
}

/// Trim every word of a line.
fn trim_line(s: Sentence) -> (r: Sentence)
    ensures
        r@ == trimmed_line(s@),
{
    let ghost words = s@.words;
    let mut out: Vec<Word> = Vec::new();
    for w in it: s.words
        invariant
            it.seq() == s.words@,
            words == s@.words,
            out@.len() == it.index(),
            forall|j: int| 0 <= j < it.index() ==> #[trigger] out@[j]@ == trimmed_word(words[j]),
    {
        out.push(trim_word(w));
    }
    let r = Sentence { words: out, is_gap: s.is_gap };
    assert(r@.words == trimmed_line(s@).words);
    r
}

/// Trim every word and drop lines left with no words, then add the
/// instrumental gaps. This is what loading a lyric file does with the lines
/// it read.
pub fn prepare(sentences: Vec<Sentence>) -> (out: Vec<Sentence>)
    ensures
        lines_view(out@) == spec_inject_gaps(tidy_lines(lines_view(sentences@))),
{
    let ghost lines = lines_view(sentences@);
    let ghost trimmed = lines.map_values(|s: SentenceView| trimmed_line(s));
    let mut kept: Vec<Sentence> = Vec::new();
    for s in it: sentences
        invariant
            it.seq() == sentences@,
            lines == lines_view(sentences@),
            trimmed == lines.map_values(|s: SentenceView| trimmed_line(s)),
            lines_view(kept@) == trimmed.take(it.index() as int).filter(
                |s: SentenceView| s.words.len() > 0,
            ),
    {
        let ghost i = it.index();
        let t = trim_line(s);
        let ghost before = lines_view(kept@);
        if t.words.len() > 0 {
            kept.push(t);
        }
        proof {
            let f = |s: SentenceView| s.words.len() > 0;
            assert(trimmed.take(i + 1).drop_last() == trimmed.take(i));
            assert(trimmed.take(i + 1).last() == t@);
            reveal(Seq::filter);
            assert(lines_view(kept@) == trimmed.take(i + 1).filter(f));
        }
    }
    proof {
        assert(trimmed.take(lines.len() as int) == trimmed);
    }
    inject_gaps(kept)
}

/// The lines of `lines` that are real lyrics rather than note lines.
pub open spec fn real_lines(lines: Seq<SentenceView>) -> Seq<SentenceView> {
    lines.filter(|s: SentenceView| !s.is_gap)
}

proof fn lemma_lines_with_gaps_real(lines: Seq<SentenceView>, n: nat)
    requires
        n <= lines.len(),
    ensures
        real_lines(lines_with_gaps(lines, n)) == real_lines(lines.take(n as int)),
    decreases n,
{
    let f = |s: SentenceView| !s.is_gap;
    if n == 0 {
        assert(lines.take(0) == Seq::<SentenceView>::empty());
        assert(Seq::<SentenceView>::empty().filter(f) == Seq::<SentenceView>::empty());
    } else {
        let i = n - 1;
        lemma_lines_with_gaps_real(lines, (n - 1) as nat);
        let tail = line_and_gap(lines, i);
        Seq::filter_distributes_over_add(lines_with_gaps(lines, (n - 1) as nat), tail, f);
        let one = seq![lines[i]];
        let extra = tail.subrange(1, tail.len() as int);
        assert(tail == one + extra);
        Seq::filter_distributes_over_add(one, extra, f);
        reveal(Seq::filter);
        assert(extra.filter(f) == Seq::<SentenceView>::empty()) by {
            assert(extra.len() <= 1);
            assert(Seq::<SentenceView>::empty().filter(f) == Seq::<SentenceView>::empty());
            if extra.len() > 0 {
                assert(extra.last().is_gap);
                assert(extra.drop_last() == Seq::<SentenceView>::empty());
            }
        }
        assert(lines.take(n as int) == lines.take(i) + one);
        Seq::filter_distributes_over_add(lines.take(i), one, f);
    }
}

/// Adding the instrumental gaps never loses, reorders or changes a lyric
/// line: dropping the note lines from the result gives back the lyric lines
/// that went in.
pub proof fn lemma_gaps_keep_every_line(lines: Seq<SentenceView>)
    ensures
        real_lines(spec_inject_gaps(lines)) == real_lines(lines),
{
    let f = |s: SentenceView| !s.is_gap;
    lemma_lines_with_gaps_real(lines, lines.len());
    assert(lines.take(lines.len() as int) == lines);
    Seq::filter_distributes_over_add(lead_gap(lines), lines_with_gaps(lines, lines.len()), f);
    reveal(Seq::filter);
    assert(lead_gap(lines).filter(f) == Seq::<SentenceView>::empty()) by {
        assert(Seq::<SentenceView>::empty().filter(f) == Seq::<SentenceView>::empty());
        if lead_gap(lines).len() > 0 {
            assert(lead_gap(lines).drop_last() == Seq::<SentenceView>::empty());
        }
    }
}

/// What adding the gaps has made of the first `m` lines, checked pair by
/// pair: it starts with the first line, ends with line `m - 1` or with the
/// note line after it, and inside it every note line sits between two lyric
/// lines whose pause is long, while every two lyric lines side by side have a
/// short pause.
proof fn lemma_gap_pairs(lines: Seq<SentenceView>, m: nat)
    requires
        0 < m <= lines.len(),
        forall|i: int| 0 <= i < lines.len() ==> !(#[trigger] lines[i]).is_gap,
    ensures
        ({
            let w = lines_with_gaps(lines, m);
            &&& w.len() >= 1
            &&& w[0] == lines[0]
            &&& if m < lines.len() && lines[m as int].start() - lines[m - 1].end() > config::GAP_INTER_THRESHOLD_MS {
                &&& w.len() >= 2
                &&& w[w.len() - 2] == lines[m - 1]
                &&& w.last() == gap_line(
                    (lines[m - 1].end() + config::GAP_BUFFER_MS) as i64,
                    (lines[m as int].start() - config::GAP_BUFFER_MS) as i64,
                )
            } else {
                w.last() == lines[m - 1]
            }
            &&& forall|k: int|
                0 < k && k + 1 < w.len() && (#[trigger] w[k]).is_gap ==> {
                    &&& !w[k - 1].is_gap
                    &&& !w[k + 1].is_gap
                    &&& w[k + 1].start() - w[k - 1].end() > config::GAP_INTER_THRESHOLD_MS
                    &&& w[k] == gap_line(
                        (w[k - 1].end() + config::GAP_BUFFER_MS) as i64,
                        (w[k + 1].start() - config::GAP_BUFFER_MS) as i64,
                    )
                }
            &&& forall|k: int|
                0 <= k && k + 1 < w.len() && !(#[trigger] w[k]).is_gap && !w[k + 1].is_gap ==> w[k + 1].start()
                    - w[k].end() <= config::GAP_INTER_THRESHOLD_MS
        }),
    decreases m,
{
    let w = lines_with_gaps(lines, m);
    let i = m - 1;
    let tail = line_and_gap(lines, i);
    assert(w == lines_with_gaps(lines, i as nat) + tail);
    if i == 0 {
        assert(lines_with_gaps(lines, 0) == Seq::<SentenceView>::empty());
        assert(w == tail);
    } else {
        lemma_gap_pairs(lines, i as nat);
        let v = lines_with_gaps(lines, i as nat);
        assert(w[0] == v[0]);
        assert forall|k: int|
            0 < k && k + 1 < w.len() && (#[trigger] w[k]).is_gap implies {
                &&& !w[k - 1].is_gap
                &&& !w[k + 1].is_gap
                &&& w[k + 1].start() - w[k - 1].end() > config::GAP_INTER_THRESHOLD_MS
                &&& w[k] == gap_line(
                    (w[k - 1].end() + config::GAP_BUFFER_MS) as i64,
                    (w[k + 1].start() - config::GAP_BUFFER_MS) as i64,
                )
            } by {
            if k + 1 < v.len() {
                assert(w[k] == v[k] && w[k - 1] == v[k - 1] && w[k + 1] == v[k + 1]);
            } else if k + 1 == v.len() {
                assert(w[k] == v[k] && w[k - 1] == v[k - 1] && w[k + 1] == tail[0]);
            } else {
                assert(k - v.len() < tail.len());
                assert(w[k] == tail[k - v.len()]);
                assert(k >= v.len());
                assert(tail[0] == lines[i]);
                if k == v.len() {
                    assert(!w[k].is_gap);
                } else {
                    assert(k + 1 >= v.len() + tail.len());
                }
            }
        }
        assert forall|k: int|
            0 <= k && k + 1 < w.len() && !(#[trigger] w[k]).is_gap && !w[k + 1].is_gap implies w[k + 1].start()
                - w[k].end() <= config::GAP_INTER_THRESHOLD_MS by {
            if k + 1 < v.len() {
                assert(w[k] == v[k] && w[k + 1] == v[k + 1]);
            } else if k + 1 == v.len() {
                assert(w[k] == v[k] && w[k + 1] == tail[0]);
            } else {
                assert(w[k] == tail[k - v.len()]);
                assert(w[k + 1] == tail[k + 1 - v.len()]);
            }
        }
    }
}

/// Where the note lines go. On lyric lines (none of them a note line):
/// the result opens with a note line exactly when the first line starts
/// later than `GAP_INITIAL_THRESHOLD_MS`, and that note line runs from the
/// top to `GAP_BUFFER_MS` before the first line; every later note line sits
/// between two lyric lines whose pause (from the end of the one to the start
/// of the next) is longer than `GAP_INTER_THRESHOLD_MS`, and fills that
/// pause less `GAP_BUFFER_MS` at each end; and two lyric lines stand side by
/// side only when the pause between them is no longer than that.
pub proof fn lemma_note_lines_fill_long_pauses(lines: Seq<SentenceView>)
    requires
        forall|i: int| 0 <= i < lines.len() ==> !(#[trigger] lines[i]).is_gap,
    ensures
        ({
            let out = spec_inject_gaps(lines);
            &&& (lines.len() == 0 ==> out.len() == 0)
            &&& (lines.len() > 0 ==> (out[0].is_gap <==> lines[0].start() > config::GAP_INITIAL_THRESHOLD_MS))
            &&& (lines.len() > 0 && out[0].is_gap ==> out[0] == gap_line(
                0,
                (lines[0].start() - config::GAP_BUFFER_MS) as i64,
            ))
            &&& forall|k: int|
                0 < k < out.len() && (#[trigger] out[k]).is_gap ==> {
                    &&& k + 1 < out.len()
                    &&& !out[k - 1].is_gap
                    &&& !out[k + 1].is_gap
                    &&& out[k + 1].start() - out[k - 1].end() > config::GAP_INTER_THRESHOLD_MS
                    &&& out[k] == gap_line(
                        (out[k - 1].end() + config::GAP_BUFFER_MS) as i64,
                        (out[k + 1].start() - config::GAP_BUFFER_MS) as i64,
                    )
                }
            &&& forall|k: int|
                0 <= k && k + 1 < out.len() && !(#[trigger] out[k]).is_gap && !out[k + 1].is_gap ==> out[k + 1].start()
                    - out[k].end() <= config::GAP_INTER_THRESHOLD_MS
        }),
{
    let out = spec_inject_gaps(lines);
    if lines.len() == 0 {
        assert(lines_with_gaps(lines, 0) == Seq::<SentenceView>::empty());
        return;
    }
    let n = lines.len();
    lemma_gap_pairs(lines, n);
    let w = lines_with_gaps(lines, n);
    let lead = lead_gap(lines);
    assert(out == lead + w);
    assert(w.last() == lines[n - 1]);
    if lead.len() == 0 {
        assert(out == w);
        assert forall|k: int| 0 < k < out.len() && (#[trigger] out[k]).is_gap implies k + 1 < out.len() by {
            if k + 1 == out.len() {
                assert(out[k] == lines[n - 1]);
            }
        }
    } else {
        assert(out[0] == lead[0]);
        assert forall|k: int|
            0 < k < out.len() && (#[trigger] out[k]).is_gap implies {
                &&& k + 1 < out.len()
                &&& !out[k - 1].is_gap
                &&& !out[k + 1].is_gap
                &&& out[k + 1].start() - out[k - 1].end() > config::GAP_INTER_THRESHOLD_MS
                &&& out[k] == gap_line(
                    (out[k - 1].end() + config::GAP_BUFFER_MS) as i64,
                    (out[k + 1].start() - config::GAP_BUFFER_MS) as i64,
                )
            } by {
            assert(out[k] == w[k - 1]);
            if k == 1 {
                assert(w[0] == lines[0]);
            } else if k == out.len() - 1 {
                assert(w[k - 1] == lines[n - 1]);
            } else {
                assert(out[k - 1] == w[k - 2] && out[k + 1] == w[k]);
            }
        }
        assert forall|k: int|
            0 <= k && k + 1 < out.len() && !(#[trigger] out[k]).is_gap && !out[k + 1].is_gap implies out[k + 1].start()
                - out[k].end() <= config::GAP_INTER_THRESHOLD_MS by {
            if k > 0 {
                assert(out[k] == w[k - 1] && out[k + 1] == w[k]);
            }
        }
    }
}

/// How many of `lines` have at least one word.
pub open spec fn lines_with_words(lines: Seq<SentenceView>) -> nat
    decreases lines.len(),
{
    if lines.len() == 0 {
        0
    } else {
        lines_with_words(lines.drop_last()) + if lines.last().words.len() > 0 { 1nat } else { 0nat }
    }
}

/// Lyric lines pass through `real_lines` untouched.
proof fn lemma_real_lines_keep_lyrics(t: Seq<SentenceView>)
    requires
        forall|i: int| 0 <= i < t.len() ==> !(#[trigger] t[i]).is_gap,
    ensures
        real_lines(t) == t,
    decreases t.len(),
{
    reveal(Seq::filter);
    if t.len() > 0 {
        assert forall|i: int| 0 <= i < t.drop_last().len() implies !(#[trigger] t.drop_last()[i]).is_gap by {
            assert(t.drop_last()[i] == t[i]);
        }
        lemma_real_lines_keep_lyrics(t.drop_last());
        assert(t.drop_last().push(t.last()) == t);
    }
}

/// Tidying keeps one line for each line with words.
proof fn lemma_tidy_len(lines: Seq<SentenceView>)
    ensures
        tidy_lines(lines).len() == lines_with_words(lines),
    decreases lines.len(),
{
    reveal(Seq::filter);
    if lines.len() > 0 {
        lemma_tidy_len(lines.drop_last());
        let m = lines.map_values(|s: SentenceView| trimmed_line(s));
        assert(m.drop_last() =~= lines.drop_last().map_values(|s: SentenceView| trimmed_line(s)));
        assert(m.last() == trimmed_line(lines.last()));
    }
}

/// Trimming twice is trimming once.
proof fn lemma_trim_twice(d: Seq<char>)
    ensures
        spec_trim(spec_trim(d)) == spec_trim(d),
{
    let a = spec_trim_start(d);
    lemma_trim_start_clean(d);
    lemma_trim_end_clean(a);
    lemma_trim_end_keeps_start(a);
    let b = spec_trim_end(a);
    lemma_trim_start_noop(b);
    lemma_trim_end_noop(b);
}

proof fn lemma_trim_start_clean(d: Seq<char>)
    ensures
        spec_trim_start(d).len() > 0 ==> !spec_is_whitespace(
            spec_trim_start(d)[0],
        ),
    decreases d.len(),
{
    if d.len() > 0 && spec_is_whitespace(d[0]) {
        lemma_trim_start_clean(d.drop_first());
    }
}

proof fn lemma_trim_end_clean(d: Seq<char>)
    ensures
        spec_trim_end(d).len() > 0 ==> !spec_is_whitespace(
            spec_trim_end(d).last(),
        ),
    decreases d.len(),
{
    if d.len() > 0 && spec_is_whitespace(d.last()) {
        lemma_trim_end_clean(d.drop_last());
    }
}

proof fn lemma_trim_end_keeps_start(d: Seq<char>)
    ensures
        spec_trim_end(d).len() > 0 ==> spec_trim_end(d)[0] == d[0],
        spec_trim_end(d).len() <= d.len(),
    decreases d.len(),
{
    if d.len() > 0 && spec_is_whitespace(d.last()) {
        lemma_trim_end_keeps_start(d.drop_last());
    }
}

proof fn lemma_trim_start_noop(d: Seq<char>)
    requires
        d.len() > 0 ==> !spec_is_whitespace(d[0]),
    ensures
        spec_trim_start(d) == d,
{
}

proof fn lemma_trim_end_noop(d: Seq<char>)
    requires
        d.len() > 0 ==> !spec_is_whitespace(d.last()),
    ensures
        spec_trim_end(d) == d,
{
}

/// A line that has words, none of them with whitespace at either end.
pub open spec fn has_clean_words(s: SentenceView) -> bool {
    &&& s.words.len() > 0
    &&& forall|j: int| 0 <= j < s.words.len() ==> spec_trim(#[trigger] s.words[j].data) == s.words[j].data
}

/// `out` is `src` with its words trimmed: as many words, at the same times.
pub open spec fn trimmed_from(out: SentenceView, src: SentenceView) -> bool {
    &&& out.words.len() == src.words.len()
    &&& forall|j: int|
        0 <= j < src.words.len() ==> {
            &&& (#[trigger] out.words[j]).start_time == src.words[j].start_time
            &&& out.words[j].end_time == src.words[j].end_time
            &&& out.words[j].data == spec_trim(src.words[j].data)
        }
}

/// `out` is one of `lines` with its words trimmed.
pub open spec fn comes_from(out: SentenceView, lines: Seq<SentenceView>) -> bool {
    exists|i: int| 0 <= i < lines.len() && #[trigger] trimmed_from(out, lines[i])
}

/// What loading does to lyric lines (none of them a note line): the lyric
/// lines that come out are, in number, the lines that went in with at least
/// one word; each has at least one word, and every word is trimmed, so none
/// starts or ends with whitespace; and each is a line that went in, with its
/// words trimmed and their times unchanged.
pub proof fn lemma_loading_tidies_lines(lines: Seq<SentenceView>)
    requires
        forall|i: int| 0 <= i < lines.len() ==> !(#[trigger] lines[i]).is_gap,
    ensures
        real_lines(spec_inject_gaps(tidy_lines(lines))).len() == lines_with_words(lines),
        forall|k: int|
            0 <= k < real_lines(spec_inject_gaps(tidy_lines(lines))).len() ==> has_clean_words(
                #[trigger] real_lines(spec_inject_gaps(tidy_lines(lines)))[k],
            ),
        forall|k: int|
            0 <= k < real_lines(spec_inject_gaps(tidy_lines(lines))).len() ==> comes_from(
                #[trigger] real_lines(spec_inject_gaps(tidy_lines(lines)))[k],
                lines,
            ),
{
    let t = tidy_lines(lines);
    lemma_tidy_has_no_notes(lines);
    lemma_gaps_keep_every_line(t);
    lemma_real_lines_keep_lyrics(t);
    lemma_tidy_len(lines);
    lemma_tidy_words(lines);
    assert(real_lines(spec_inject_gaps(t)) == t);
}

proof fn lemma_tidy_has_no_notes(lines: Seq<SentenceView>)
    requires
        forall|i: int| 0 <= i < lines.len() ==> !(#[trigger] lines[i]).is_gap,
    ensures
        forall|i: int| 0 <= i < tidy_lines(lines).len() ==> !(#[trigger] tidy_lines(lines)[i]).is_gap,
{
    assert forall|i: int| 0 <= i < tidy_lines(lines).len() implies !(#[trigger] tidy_lines(lines)[i]).is_gap by {
        let a = lemma_tidy_member(lines, i);
    }
}

proof fn lemma_tidy_words(lines: Seq<SentenceView>)
    ensures
        forall|k: int| 0 <= k < tidy_lines(lines).len() ==> has_clean_words(#[trigger] tidy_lines(lines)[k]),
        forall|k: int| 0 <= k < tidy_lines(lines).len() ==> comes_from(#[trigger] tidy_lines(lines)[k], lines),
{
    let t = tidy_lines(lines);
    assert forall|k: int| 0 <= k < t.len() implies has_clean_words(#[trigger] t[k]) && comes_from(t[k], lines) by {
        let a = lemma_tidy_member(lines, k);
        assert forall|j: int| 0 <= j < t[k].words.len() implies spec_trim(#[trigger] t[k].words[j].data)
            == t[k].words[j].data by {
            lemma_trim_twice(lines[a].words[j].data);
        }
        assert(trimmed_from(t[k], lines[a]));
    }
}

/// Each tidied line is some line that went in, trimmed, and has words.
proof fn lemma_tidy_member(lines: Seq<SentenceView>, k: int) -> (a: int)
    requires
        0 <= k < tidy_lines(lines).len(),
    ensures
        0 <= a < lines.len(),
        tidy_lines(lines)[k] == trimmed_line(lines[a]),
        tidy_lines(lines)[k].words.len() > 0,
{
    let m = lines.map_values(|s: SentenceView| trimmed_line(s));
    let p = |s: SentenceView| s.words.len() > 0;
    assert(tidy_lines(lines) == m.filter(p));
    m.lemma_filter_pred(p, k);
    lemma_filter_in(m, p, k);
    let a = choose|a: int| 0 <= a < m.len() && m[a] == m.filter(p)[k];
    a
}

/// Every line that filtering keeps was in the sequence filtered.
proof fn lemma_filter_in(m: Seq<SentenceView>, p: spec_fn(SentenceView) -> bool, i: int)
    requires
        0 <= i < m.filter(p).len(),
    ensures
        exists|a: int| 0 <= a < m.len() && m[a] == m.filter(p)[i],
    decreases m.len(),
{
    reveal(Seq::filter);
    let sub = m.drop_last().filter(p);
    if i < sub.len() {
        lemma_filter_in(m.drop_last(), p, i);
        let a = choose|a: int| 0 <= a < m.drop_last().len() && m.drop_last()[a] == sub[i];
        assert(m[a] == m.filter(p)[i]);
    } else {
        assert(m[m.len() - 1] == m.filter(p)[i]);
    }
}

// ── Moving between lines ────────────────────────────────────────────────

/// Index of the last line that has started by `now`, if any has.
pub open spec fn last_started(lines: Seq<SentenceView>, now: i64) -> Option<int>
    decreases lines.len(),
{
    if lines.len() == 0 {
        None
    } else if lines.last().start() <= now {
        Some(lines.len() - 1)
    } else {
        last_started(lines.drop_last(), now)
    }
}

/// Where the skip back button jumps: the start of the current line when
/// playback is well into it, the start of the line before when it has only
/// just begun, and the top when there is no line before.
pub open spec fn spec_previous_line_start(lines: Seq<SentenceView>, now: i64) -> i64 {
    match last_started(lines, now) {
        Some(i) => if now - lines[i].start() > config::RESTART_WINDOW_MS {
            lines[i].start()
        } else if i > 0 {
            lines[i - 1].start()
        } else {
            0
        },
        None => 0,
    }
}

/// Index of the first line from `i` on that starts after `now`, if any does.
pub open spec fn first_after(lines: Seq<SentenceView>, now: i64, i: int) -> Option<int>
    decreases lines.len() - i,
{
    if i < 0 || i >= lines.len() {
        None
    } else if lines[i].start() > now {
        Some(i)
    } else {
        first_after(lines, now, i + 1)
    }
}

/// Where the skip forward button jumps: the next line to start, or the last
/// line when none is left, or nowhere when there are no lines.
pub open spec fn spec_next_line_start(lines: Seq<SentenceView>, now: i64) -> i64 {
    match first_after(lines, now, 0) {
        Some(i) => lines[i].start(),
        None => if lines.len() > 0 { lines.last().start() } else { now },
    }
}

proof fn lemma_last_started_started(lines: Seq<SentenceView>, now: i64)
    ensures
        last_started(lines, now) matches Some(i) ==> 0 <= i < lines.len() && lines[i].start() <= now,
    decreases lines.len(),
{
    if lines.len() > 0 && lines.last().start() > now {
        lemma_last_started_started(lines.drop_last(), now);
    }
}

proof fn lemma_first_after_after(lines: Seq<SentenceView>, now: i64, i: int)
    ensures
        first_after(lines, now, i) matches Some(j) ==> i <= j < lines.len() && lines[j].start() > now,
    decreases lines.len() - i,
{
    if 0 <= i < lines.len() && lines[i].start() <= now {
        lemma_first_after_after(lines, now, i + 1);
    }
}

/// The skip buttons move the right way: skipping forward lands on a line
/// that starts later than now whenever there is one, and on lyrics in time
/// order skipping back never lands later than now (before anything has
/// started it goes to the top).
pub proof fn lemma_skips_move_the_right_way(lines: Seq<SentenceView>, now: i64)
    ensures
        first_after(lines, now, 0) is Some ==> spec_next_line_start(lines, now) > now,
        (forall|i: int, j: int| 0 <= i <= j < lines.len() ==> lines[i].start() <= lines[j].start())
            ==> (spec_previous_line_start(lines, now) <= now || spec_previous_line_start(lines, now) == 0),
{
    lemma_first_after_after(lines, now, 0);
    lemma_last_started_started(lines, now);
}

/// `last_started` finds the last line to have started: the line `i` that
/// has started by `now` when no line after it has.
proof fn lemma_last_started_is(lines: Seq<SentenceView>, now: i64, i: int)
    requires
        0 <= i < lines.len(),
        lines[i].start() <= now,
        forall|j: int| i < j < lines.len() ==> (#[trigger] lines[j]).start() > now,
    ensures
        last_started(lines, now) == Some(i),
    decreases lines.len(),
{
    if lines.len() - 1 > i {
        let rest = lines.drop_last();
        assert forall|j: int| i < j < rest.len() implies (#[trigger] rest[j]).start() > now by {
            assert(rest[j] == lines[j]);
        }
        lemma_last_started_is(rest, now, i);
    }
}

/// `last_started` finds nothing when no line has started.
proof fn lemma_none_started(lines: Seq<SentenceView>, now: i64)
    requires
        forall|j: int| 0 <= j < lines.len() ==> (#[trigger] lines[j]).start() > now,
    ensures
        last_started(lines, now) is None,
    decreases lines.len(),
{
    if lines.len() > 0 {
        let rest = lines.drop_last();
        assert forall|j: int| 0 <= j < rest.len() implies (#[trigger] rest[j]).start() > now by {
            assert(rest[j] == lines[j]);
        }
        lemma_none_started(rest, now);
    }
}

/// Skipping back, from the line being sung (line `i`: it has started by
/// `now` and no later line has): well into the line it goes back to the
/// line's own start; within `RESTART_WINDOW_MS` of its start it goes to the
/// start of the line just before; on the first line it goes to the top.
/// Before any line has started it goes to the top too.
pub proof fn lemma_skip_back_targets(lines: Seq<SentenceView>, now: i64, i: int)
    ensures
        (forall|j: int| 0 <= j < lines.len() ==> (#[trigger] lines[j]).start() > now)
            ==> spec_previous_line_start(lines, now) == 0,
        0 <= i < lines.len() && lines[i].start() <= now && (forall|j: int|
            i < j < lines.len() ==> (#[trigger] lines[j]).start() > now) ==> {
            &&& (now - lines[i].start() > config::RESTART_WINDOW_MS ==> spec_previous_line_start(lines, now)
                == lines[i].start())
            &&& (now - lines[i].start() <= config::RESTART_WINDOW_MS && i > 0 ==> spec_previous_line_start(
                lines,
                now,
            ) == lines[i - 1].start())
            &&& (now - lines[i].start() <= config::RESTART_WINDOW_MS && i == 0 ==> spec_previous_line_start(
                lines,
                now,
            ) == 0)
        },
{
    if forall|j: int| 0 <= j < lines.len() ==> (#[trigger] lines[j]).start() > now {
        lemma_none_started(lines, now);
    }
    if 0 <= i < lines.len() && lines[i].start() <= now && (forall|j: int|
        i < j < lines.len() ==> (#[trigger] lines[j]).start() > now) {
        lemma_last_started_is(lines, now, i);
    }
}

/// `first_after` finds the first line from `from` on that starts after `now`.
proof fn lemma_first_after_is(lines: Seq<SentenceView>, now: i64, from: int, i: int)
    requires
        0 <= from <= i < lines.len(),
        lines[i].start() > now,
        forall|j: int| from <= j < i ==> (#[trigger] lines[j]).start() <= now,
    ensures
        first_after(lines, now, from) == Some(i),
    decreases i - from,
{
    if from < i {
        lemma_first_after_is(lines, now, from + 1, i);
    }
}

/// `first_after` finds nothing when every line from `from` on has started.
proof fn lemma_none_after(lines: Seq<SentenceView>, now: i64, from: int)
    requires
        0 <= from,
        forall|j: int| from <= j < lines.len() ==> (#[trigger] lines[j]).start() <= now,
    ensures
        first_after(lines, now, from) is None,
    decreases lines.len() - from,
{
    if from < lines.len() {
        lemma_none_after(lines, now, from + 1);
    }
}

/// Skipping forward goes to the start of the first line that starts after
/// `now`; when every line has started it stays on the start of the last
/// line, and with no lines at all it stays at `now`.
pub proof fn lemma_skip_forward_targets(lines: Seq<SentenceView>, now: i64, i: int)
    ensures
        0 <= i < lines.len() && lines[i].start() > now && (forall|j: int|
            0 <= j < i ==> (#[trigger] lines[j]).start() <= now) ==> spec_next_line_start(lines, now)
            == lines[i].start(),
        (forall|j: int| 0 <= j < lines.len() ==> (#[trigger] lines[j]).start() <= now) ==> spec_next_line_start(
            lines,
            now,
        ) == if lines.len() > 0 { lines.last().start() } else { now },
{
    if 0 <= i < lines.len() && lines[i].start() > now && (forall|j: int|
        0 <= j < i ==> (#[trigger] lines[j]).start() <= now) {
        lemma_first_after_is(lines, now, 0, i);
    }
    if forall|j: int| 0 <= j < lines.len() ==> (#[trigger] lines[j]).start() <= now {
        lemma_none_after(lines, now, 0);
    }
}

/// `started_prefix` counts the lines from `from` up to the first that has
/// not started.
proof fn lemma_started_prefix_is(lines: Seq<SentenceView>, now: i64, from: int, i: int)
    requires
        0 <= from <= i + 1,
        i < lines.len(),
        forall|j: int| from <= j <= i ==> (#[trigger] lines[j]).start() <= now,
        i + 1 == lines.len() || lines[i + 1].start() > now,
    ensures
        started_prefix(lines, now, from) == i + 1 - from,
    decreases i + 1 - from,
{
    if from <= i {
        lemma_started_prefix_is(lines, now, from + 1, i);
    }
}

/// The centred line is the last of the lines that have all started, from
/// the top: when lines `0..=i` have started by `now` and the next has not
/// (or there is none), it is line `i`; when the first has not started, it is
/// the first.
pub proof fn lemma_active_line_is(lines: Seq<SentenceView>, now: i64, i: int)
    ensures
        0 <= i < lines.len() && (forall|j: int| 0 <= j <= i ==> (#[trigger] lines[j]).start() <= now) && (i + 1
            == lines.len() || lines[i + 1].start() > now) ==> spec_active_line(lines, now) == i,
        lines.len() > 0 && lines[0].start() > now ==> spec_active_line(lines, now) == 0,
{
    if 0 <= i < lines.len() && (forall|j: int| 0 <= j <= i ==> (#[trigger] lines[j]).start() <= now) && (i + 1
        == lines.len() || lines[i + 1].start() > now) {
        lemma_started_prefix_is(lines, now, 0, i);
    }
}

/// Where the skip back button should jump to.
pub fn previous_line_start(sentences: &[Sentence], now: i64) -> (r: i64)
    ensures
        r == spec_previous_line_start(lines_view(sentences@), now),
{
    let ghost lines = lines_view(sentences@);
    let mut i = sentences.len();
    assert(lines.take(i as int) == lines);
    while i > 0 && sentences[i - 1].start() > now
        invariant
            i <= sentences.len(),
            lines == lines_view(sentences@),
            last_started(lines, now) == last_started(lines.take(i as int), now),
        decreases i,
    {
        assert(lines.take(i as int).drop_last() == lines.take(i - 1));
        i = i - 1;
    }
    if i == 0 {
        assert(lines.take(0) == Seq::<SentenceView>::empty());
        return 0;
    }
    let current = i - 1;
    let start = sentences[current].start();
    assert(last_started(lines, now) == Some(current as int));
    if now as i128 - start as i128 > config::RESTART_WINDOW_MS as i128 {
        // Past the opening moments of a line: restart it.
        start
    } else if current > 0 {
        // Near its start: step back one.
        sentences[current - 1].start()
    } else {
        // On the first line: go to the top.
        0
    }
}

/// Where the skip forward button should jump to. Stays on the last line, since
/// there is nowhere further to go.
pub fn next_line_start(sentences: &[Sentence], now: i64) -> (r: i64)
    ensures
        r == spec_next_line_start(lines_view(sentences@), now),
{
    let ghost lines = lines_view(sentences@);
    let n = sentences.len();
    let mut i: usize = 0;
    while i < n
        invariant
            i <= n,
            n == sentences@.len(),
            lines == lines_view(sentences@),
            first_after(lines, now, 0) == first_after(lines, now, i as int),
        decreases n - i,
    {
        let s = sentences[i].start();
        if s > now {
            return s;
        }
        i = i + 1;
    }
    if n > 0 {
        sentences[n - 1].start()
    } else {
        now
    }
}

/// How many lines from the top have started by `now`, stopping at the first
/// one that has not.
pub open spec fn started_prefix(lines: Seq<SentenceView>, now: i64, i: int) -> int
    decreases lines.len() - i,
{
    if i < 0 || i >= lines.len() || lines[i].start() > now {
        0
    } else {
        1 + started_prefix(lines, now, i + 1)
    }
}

/// The line that should be centred: the last of the lines from the top that
/// have all started by `now`, or the first line when none has.
pub open spec fn spec_active_line(lines: Seq<SentenceView>, now: i64) -> int {
    let n = started_prefix(lines, now, 0);
    if n > 0 { n - 1 } else { 0 }
}

/// Index of the line that should be centred. The display glides toward the
/// next line shortly before it starts; this is the line it glides from.
pub fn active_line(sentences: &[Sentence], now: i64) -> (r: usize)
    ensures
        r == spec_active_line(lines_view(sentences@), now),
        sentences@.len() > 0 ==> r < sentences@.len(),
{
    let ghost lines = lines_view(sentences@);
    let n = sentences.len();
    let mut base: usize = 0;
    let mut i: usize = 0;
    while i < n
        invariant
            i <= n,
            n == sentences@.len(),
            lines == lines_view(sentences@),
            started_prefix(lines, now, 0) == i + started_prefix(lines, now, i as int),
            base == if i > 0 { i - 1 } else { 0 },
        decreases n - i,
    {
        if now >= sentences[i].start() {
            base = i;
        } else {
            return base;
        }
        i = i + 1;
    }
    base
}

// ── Times ──────────────────────────────────────────────────────────────

/// Value of a run of decimal digits.
pub open spec fn digits_value(d: Seq<char>) -> int
    decreases d.len(),
{
    if d.len() == 0 {
        0
    } else {
        digits_value(d.drop_last()) * 10 + (d.last() as int - '0' as int)
    }
}

/// Every character of `d` is an ASCII digit.
pub open spec fn all_digits(d: Seq<char>) -> bool {
    forall|i: int| 0 <= i < d.len() ==> '0' <= #[trigger] d[i] <= '9'
}

/// Whether `s` starts with a sign.
pub open spec fn has_sign(s: Seq<char>) -> bool {
    s.len() > 0 && (s[0] == '+' || s[0] == '-')
}

/// `s` without its sign.
pub open spec fn unsigned_part(s: Seq<char>) -> Seq<char> {
    if has_sign(s) { s.drop_first() } else { s }
}

/// The value `s` spells, sign included.
pub open spec fn signed_value(s: Seq<char>) -> int {
    if has_sign(s) && s[0] == '-' {
        -digits_value(unsigned_part(s))
    } else {
        digits_value(unsigned_part(s))
    }
}

/// What `i64::from_str` gives for `s`: an optional `+` or `-` followed by at
/// least one ASCII digit and nothing else, with the value inside the range of
/// `i64`.
pub open spec fn spec_parse_i64(s: Seq<char>) -> Option<i64> {
    if unsigned_part(s).len() == 0 || !all_digits(unsigned_part(s)) || !in_i64(signed_value(s)) {
        None
    } else {
        Some(signed_value(s) as i64)
    }
}

/// The pieces of `s` between colons, empty ones included, as `str::split`
/// yields them.
pub open spec fn colon_pieces(s: Seq<char>) -> Seq<Seq<char>>
    decreases s.len(),
{
    if s.len() == 0 {
        seq![Seq::empty()]
    } else {
        let before = colon_pieces(s.drop_last());
        if s.last() == ':' {
            before.push(Seq::empty())
        } else {
            before.update(before.len() - 1, before.last().push(s.last()))
        }
    }
}

/// The pieces that parse as numbers, in order.
pub open spec fn parsed_pieces(pieces: Seq<Seq<char>>) -> Seq<i64>
    decreases pieces.len(),
{
    if pieces.len() == 0 {
        Seq::empty()
    } else {
        parsed_pieces(pieces.drop_last()) + match spec_parse_i64(pieces.last()) {
            Some(v) => seq![v],
            None => Seq::empty(),
        }
    }
}

/// The numbers in a time string.
pub open spec fn time_parts(s: Seq<char>) -> Seq<i64> {
    parsed_pieces(colon_pieces(s))
}

pub open spec fn in_i64(x: int) -> bool {
    i64::MIN <= x <= i64::MAX
}

/// Every intermediate value of the conversion to milliseconds fits in `i64`.
pub open spec fn time_fits(s: Seq<char>) -> bool {
    let p = time_parts(s);
    if p.len() == 3 {
        &&& in_i64(p[0] * 3600)
        &&& in_i64(p[1] * 60)
        &&& in_i64(p[0] * 3600 + p[1] * 60)
        &&& in_i64(p[0] * 3600 + p[1] * 60 + p[2])
        &&& in_i64((p[0] * 3600 + p[1] * 60 + p[2]) * 1000)
    } else if p.len() == 2 {
        &&& in_i64(p[0] * 60)
        &&& in_i64(p[0] * 60 + p[1])
        &&& in_i64((p[0] * 60 + p[1]) * 1000)
    } else {
        true
    }
}

/// `H:MM:SS` or `MM:SS` in milliseconds, or 0 when the string is neither.
pub open spec fn spec_parse_time(s: Seq<char>) -> int {
    let p = time_parts(s);
    if p.len() == 3 {
        (p[0] * 3600 + p[1] * 60 + p[2]) * 1000
    } else if p.len() == 2 {
        (p[0] * 60 + p[1]) * 1000
    } else {
        0
    }
}

proof fn lemma_digits_value_grows(d: Seq<char>, i: int, j: int)
    requires
        0 <= i <= j <= d.len(),
        all_digits(d),
    ensures
        digits_value(d.take(i)) <= digits_value(d.take(j)),
    decreases j - i,
{
    if i < j {
        lemma_digits_value_grows(d, i, j - 1);
        assert(d.take(j).drop_last() == d.take(j - 1));
        assert(d.take(j).last() == d[j - 1]);
        assert(digits_value(d.take(j - 1)) >= 0) by {
            lemma_digits_value_nonneg(d.take(j - 1));
        }
    }
}

proof fn lemma_digits_value_nonneg(d: Seq<char>)
    requires
        all_digits(d),
    ensures
        digits_value(d) >= 0,
    decreases d.len(),
{
    if d.len() > 0 {
        assert(all_digits(d.drop_last()));
        lemma_digits_value_nonneg(d.drop_last());
        assert('0' <= d[d.len() - 1]);
    }
}

/// Parse a number the way `i64::from_str` does.
fn parse_i64(s: &Vec<char>) -> (r: Option<i64>)
    ensures
        r == spec_parse_i64(s@),
{
    let n = s.len();
    let signed = n > 0 && (s[0] == '+' || s[0] == '-');
    let negative = signed && s[0] == '-';
    let first: usize = if signed { 1 } else { 0 };
    let ghost d = unsigned_part(s@);
    assert(signed == has_sign(s@));
    if first == n {
        return None;
    }
    let mut acc: i128 = 0;
    let mut i = first;
    while i < n
        invariant
            first <= i <= n,
            n == s@.len(),
            first < n,
            d == s@.subrange(first as int, n as int),
            d == unsigned_part(s@),
            all_digits(d.take(i - first)),
            acc == digits_value(d.take(i - first)),
            0 <= acc <= 0x8000_0000_0000_0000,
        decreases n - i,
    {
        let c = s[i];
        if c < '0' || c > '9' {
            assert(!all_digits(d)) by {
                assert(d[i - first] == c);
            }
            assert(spec_parse_i64(s@) is None);
            return None;
        }
        let digit = (c as u32 - '0' as u32) as i128;
        proof {
            assert(d.take(i - first + 1).drop_last() == d.take(i - first));
            assert(d.take(i - first + 1).last() == c);
            assert(all_digits(d.take(i - first + 1)));
        }
        acc = acc * 10 + digit;
        i = i + 1;
        if acc > 0x8000_0000_0000_0000 {
            proof {
                if all_digits(d) {
                    lemma_digits_value_grows(d, i - first, d.len() as int);
                    assert(d.take(d.len() as int) == d);
                    assert(digits_value(d) > 0x8000_0000_0000_0000);
                }
            }
            assert(spec_parse_i64(s@) is None);
            return None;
        }
    }
    assert(d.take(n - first) == d);
    if negative {
        if acc == 0x8000_0000_0000_0000 {
            Some(i64::MIN)
        } else {
            Some(-(acc as i64))
        }
    } else if acc > 0x7FFF_FFFF_FFFF_FFFF {
        None
    } else {
        Some(acc as i64)
    }
}

/// The numbers between the colons of `s`, skipping pieces that are not
/// numbers.
fn time_numbers(s: &str) -> (r: Vec<i64>)
    ensures
        r@ == time_parts(s@),
{
    let chars = crate::text::chars_of(s);
    let ghost cs = chars@;
    let mut parts: Vec<i64> = Vec::new();
    let mut piece: Vec<char> = Vec::new();
    let mut i: usize = 0;
    while i < chars.len()
        invariant
            i <= chars.len(),
            cs == chars@,
            colon_pieces(cs.take(i as int)).len() >= 1,
            piece@ == colon_pieces(cs.take(i as int)).last(),
            parts@ == parsed_pieces(colon_pieces(cs.take(i as int)).drop_last()),
        decreases chars.len() - i,
    {
        let c = chars[i];
        let ghost before = colon_pieces(cs.take(i as int));
        assert(cs.take(i + 1).drop_last() == cs.take(i as int));
        assert(cs.take(i + 1).last() == c);
        if c == ':' {
            match parse_i64(&piece) {
                Some(v) => parts.push(v),
                None => {},
            }
            piece = Vec::new();
            assert(colon_pieces(cs.take(i + 1)).drop_last() == before);
        } else {
            piece.push(c);
            assert(colon_pieces(cs.take(i + 1)).drop_last() == before.drop_last());
        }
        i = i + 1;
    }
    assert(cs.take(chars.len() as int) == cs);
    let ghost pieces = colon_pieces(cs);
    match parse_i64(&piece) {
        Some(v) => parts.push(v),
        None => {},
    }
    assert(pieces.drop_last().push(pieces.last()) == pieces);
    parts
}

/// A number written in decimal is all digits and reads back as itself.
proof fn lemma_decimal_reads_back(n: nat)
    ensures
        decimal(n).len() >= 1,
        all_digits(decimal(n)),
        digits_value(decimal(n)) == n,
    decreases n,
{
    let d = decimal(n);
    if n < 10 {
        assert(d.drop_last() =~= Seq::<char>::empty());
        assert(d.last() as int == n + '0' as int);
        assert(digits_value(d.drop_last()) == 0);
        assert(digits_value(d) == digits_value(d.drop_last()) * 10 + (d.last() as int - '0' as int));
    } else {
        lemma_decimal_reads_back(n / 10);
        assert(d.drop_last() == decimal(n / 10));
        assert(d.last() as int == (n % 10) + '0' as int);
        vstd::arithmetic::div_mod::lemma_fundamental_div_mod(n as int, 10);
        assert(digits_value(d) == digits_value(d.drop_last()) * 10 + (d.last() as int - '0' as int));
        assert forall|i: int| 0 <= i < d.len() implies '0' <= #[trigger] d[i] <= '9' by {
            if i < d.len() - 1 {
                assert(d[i] == decimal(n / 10)[i]);
            }
        }
    }
}

/// Leading zeros do not change what digits read as.
proof fn lemma_leading_zeros(k: nat, d: Seq<char>)
    ensures
        digits_value(Seq::new(k, |i: int| '0') + d) == digits_value(d),
    decreases d.len(),
{
    let z = Seq::new(k, |i: int| '0');
    if d.len() == 0 {
        assert(z + d == z);
        lemma_zeros_read_zero(k);
    } else {
        lemma_leading_zeros(k, d.drop_last());
        assert((z + d).drop_last() == z + d.drop_last());
        assert((z + d).last() == d.last());
    }
}

proof fn lemma_zeros_read_zero(k: nat)
    ensures
        digits_value(Seq::new(k, |i: int| '0')) == 0,
    decreases k,
{
    if k > 0 {
        lemma_zeros_read_zero((k - 1) as nat);
        assert(Seq::new(k, |i: int| '0').drop_last() == Seq::new((k - 1) as nat, |i: int| '0'));
    }
}

/// A zero-padded number parses back as itself.
proof fn lemma_padded_parses(n: nat, width: nat)
    requires
        n <= i64::MAX,
    ensures
        spec_parse_i64(padded(n, width)) == Some(n as i64),
        forall|i: int| 0 <= i < padded(n, width).len() ==> #[trigger] padded(n, width)[i] != ':',
{
    let d = decimal(n);
    let k: nat = if d.len() < width { (width - d.len()) as nat } else { 0 };
    let z = Seq::new(k, |i: int| '0');
    let p = padded(n, width);
    lemma_decimal_reads_back(n);
    lemma_leading_zeros(k, d);
    assert(p == z + d);
    assert forall|i: int| 0 <= i < p.len() implies '0' <= #[trigger] p[i] <= '9' by {
        if i >= k {
            assert(p[i] == d[i - k]);
        }
    }
    assert('0' <= p[0] <= '9');
    assert(!has_sign(p));
    assert(unsigned_part(p) == p);
}

/// A piece with no colon stays one piece.
proof fn lemma_colon_free_piece(a: Seq<char>)
    requires
        forall|i: int| 0 <= i < a.len() ==> #[trigger] a[i] != ':',
    ensures
        colon_pieces(a) == seq![a],
    decreases a.len(),
{
    if a.len() > 0 {
        lemma_colon_free_piece(a.drop_last());
        assert(a.drop_last().push(a.last()) == a);
        assert(a.last() != ':');
        assert(seq![a.drop_last()].update(0, a.drop_last().push(a.last())) =~= seq![a]);
    } else {
        assert(a =~= Seq::<char>::empty());
    }
}

/// Two colon-free pieces joined by a colon split back into those two.
proof fn lemma_two_pieces(a: Seq<char>, b: Seq<char>)
    requires
        forall|i: int| 0 <= i < a.len() ==> #[trigger] a[i] != ':',
        forall|i: int| 0 <= i < b.len() ==> #[trigger] b[i] != ':',
    ensures
        colon_pieces(a + seq![':'] + b) == seq![a, b],
    decreases b.len(),
{
    if b.len() == 0 {
        lemma_colon_free_piece(a);
        assert(a + seq![':'] + b == a.push(':'));
        assert(a.push(':').drop_last() == a);
        assert(b =~= Seq::<char>::empty());
        assert(seq![a].push(Seq::<char>::empty()) =~= seq![a, b]);
    } else {
        lemma_two_pieces(a, b.drop_last());
        assert((a + seq![':'] + b).drop_last() == a + seq![':'] + b.drop_last());
        assert((a + seq![':'] + b).last() == b.last());
        assert(b.drop_last().push(b.last()) == b);
        assert(b.last() != ':');
        assert(seq![a, b.drop_last()].update(1, b.drop_last().push(b.last())) =~= seq![a, b]);
    }
}

/// A colon and a colon-free piece added to a time string add that piece.
proof fn lemma_append_piece(x: Seq<char>, c: Seq<char>)
    requires
        forall|i: int| 0 <= i < c.len() ==> #[trigger] c[i] != ':',
    ensures
        colon_pieces(x + seq![':'] + c) == colon_pieces(x).push(c),
    decreases c.len(),
{
    if c.len() == 0 {
        assert(x + seq![':'] + c == x.push(':'));
        assert(x.push(':').drop_last() == x);
        assert(c =~= Seq::<char>::empty());
    } else {
        lemma_append_piece(x, c.drop_last());
        assert((x + seq![':'] + c).drop_last() == x + seq![':'] + c.drop_last());
        assert((x + seq![':'] + c).last() == c.last());
        assert(c.last() != ':');
        assert(c.drop_last().push(c.last()) =~= c);
        assert(colon_pieces(x).push(c.drop_last()).update(
            colon_pieces(x).len() as int,
            c.drop_last().push(c.last()),
        ) =~= colon_pieces(x).push(c));
    }
}

/// `H:MM:SS` and `MM:SS` read as the time they write: hours, minutes and
/// seconds in decimal (minutes and seconds padded to two digits) give
/// `((h * 60 + m) * 60 + s) * 1000` and `(m * 60 + s) * 1000` milliseconds,
/// whenever that fits in an `i64`; the reading never overflows on the way.
pub proof fn lemma_time_reads_as_written(h: nat, m: nat, s: nat)
    ensures
        (h * 3600 + m * 60 + s) * 1000 <= i64::MAX ==> {
            let text = padded(h, 1) + seq![':'] + padded(m, 2) + seq![':'] + padded(s, 2);
            &&& time_fits(text)
            &&& spec_parse_time(text) == (h * 3600 + m * 60 + s) * 1000
        },
        (m * 60 + s) * 1000 <= i64::MAX ==> {
            let text = padded(m, 2) + seq![':'] + padded(s, 2);
            &&& time_fits(text)
            &&& spec_parse_time(text) == (m * 60 + s) * 1000
        },
{
    if (h * 3600 + m * 60 + s) * 1000 <= i64::MAX {
        let (a, b, c) = (padded(h, 1), padded(m, 2), padded(s, 2));
        assert(h <= i64::MAX && m <= i64::MAX && s <= i64::MAX) by (nonlinear_arith)
            requires (h * 3600 + m * 60 + s) * 1000 <= i64::MAX;
        lemma_padded_parses(h, 1);
        lemma_padded_parses(m, 2);
        lemma_padded_parses(s, 2);
        lemma_colon_free_piece(a);
        lemma_append_piece(a, b);
        lemma_append_piece(a + seq![':'] + b, c);
        let pieces = seq![a, b, c];
        assert(colon_pieces(a + seq![':'] + b + seq![':'] + c) =~= pieces);
        assert(pieces.drop_last() =~= seq![a, b]);
        assert(seq![a, b].drop_last() =~= seq![a]);
        assert(seq![a].drop_last() =~= Seq::<Seq<char>>::empty());
        assert(parsed_pieces(Seq::<Seq<char>>::empty()) == Seq::<i64>::empty());
        assert(parsed_pieces(seq![a]) =~= seq![h as i64]);
        assert(parsed_pieces(seq![a, b]) =~= seq![h as i64, m as i64]);
        assert(parsed_pieces(pieces) =~= seq![h as i64, m as i64, s as i64]);
        assert(0 <= h * 3600 && 0 <= m * 60 && h * 3600 + m * 60 + s <= (h * 3600 + m * 60 + s) * 1000)
            by (nonlinear_arith);
    }
    if (m * 60 + s) * 1000 <= i64::MAX {
        let (b, c) = (padded(m, 2), padded(s, 2));
        assert(m <= i64::MAX && s <= i64::MAX) by (nonlinear_arith)
            requires (m * 60 + s) * 1000 <= i64::MAX;
        lemma_padded_parses(m, 2);
        lemma_padded_parses(s, 2);
        lemma_two_pieces(b, c);
        let pieces = seq![b, c];
        assert(pieces.drop_last() =~= seq![b]);
        assert(seq![b].drop_last() =~= Seq::<Seq<char>>::empty());
        assert(parsed_pieces(Seq::<Seq<char>>::empty()) == Seq::<i64>::empty());
        assert(parsed_pieces(seq![b]) =~= seq![m as i64]);
        assert(parsed_pieces(pieces) =~= seq![m as i64, s as i64]);
        assert(0 <= m * 60 && m * 60 + s <= (m * 60 + s) * 1000) by (nonlinear_arith);
    }
}

/// Reading back the `mm:ss` clock gives the time it shows: the milliseconds
/// cut down to whole seconds, with times before the start read as zero. The
/// reading never overflows.
pub proof fn lemma_short_time_reads_back(ms: i64)
    ensures
        time_fits(spec_short_time(ms)),
        spec_parse_time(spec_short_time(ms)) == (clamp_ms(ms) / 1000) * 1000,
{
    let t = clamp_ms(ms);
    let m: nat = t / 60_000;
    let sec: nat = (t % 60_000) / 1000;
    let a = padded(m, 2);
    let b = padded(sec, 2);
    lemma_padded_parses(m, 2);
    lemma_padded_parses(sec, 2);
    lemma_two_pieces(a, b);
    assert(spec_short_time(ms) == a + seq![':'] + b);
    let pieces = seq![a, b];
    assert(pieces.drop_last() =~= seq![a]);
    assert(seq![a].drop_last() =~= Seq::<Seq<char>>::empty());
    assert(parsed_pieces(Seq::<Seq<char>>::empty()) == Seq::<i64>::empty());
    assert(parsed_pieces(seq![a]) =~= seq![m as i64]);
    assert(parsed_pieces(pieces) =~= seq![m as i64, sec as i64]);
    assert(time_parts(spec_short_time(ms)) == seq![m as i64, sec as i64]);
    assert(t == m * 60_000 + (t % 60_000)) by {
        vstd::arithmetic::div_mod::lemma_fundamental_div_mod(t as int, 60_000);
    }
    assert(t % 60_000 == sec * 1000 + (t % 60_000) % 1000) by {
        vstd::arithmetic::div_mod::lemma_fundamental_div_mod((t % 60_000) as int, 1000);
    }
    assert(t / 1000 == m * 60 + sec) by {
        vstd::arithmetic::div_mod::lemma_mod_bound((t % 60_000) as int, 1000);
        vstd::arithmetic::div_mod::lemma_mod_bound(t as int, 60_000);
        vstd::arithmetic::div_mod::lemma_div_is_ordered_by_denominator(t as int, 1000, 60_000);
        assert(t == (m * 60 + sec) * 1000 + (t % 60_000) % 1000) by (nonlinear_arith)
            requires
                t == m * 60_000 + (t % 60_000),
                t % 60_000 == sec * 1000 + (t % 60_000) % 1000,
        ;
        vstd::arithmetic::div_mod::lemma_fundamental_div_mod_converse(
            t as int,
            1000,
            (m * 60 + sec) as int,
            ((t % 60_000) % 1000) as int,
        );
    }
    assert(t <= i64::MAX);
    assert((t / 1000) * 1000 <= t) by {
        vstd::arithmetic::div_mod::lemma_fundamental_div_mod(t as int, 1000);
        vstd::arithmetic::div_mod::lemma_mod_bound(t as int, 1000);
    }
    assert(m * 60 <= t / 1000);
}

/// Parse `H:MM:SS` or `MM:SS` into milliseconds. Anything else is 0.
pub fn parse_time(s: &str) -> (r: i64)
    requires
        time_fits(s@),
    ensures
        r == spec_parse_time(s@),
{
    let parts = time_numbers(s);
    if parts.len() == 3 {
        (parts[0] * 3600 + parts[1] * 60 + parts[2]) * 1000
    } else if parts.len() == 2 {
        (parts[0] * 60 + parts[1]) * 1000
    } else {
        0
    }
}

fn fits_i64(x: i128) -> (r: bool)
    ensures
        r == in_i64(x as int),
{
    -0x8000_0000_0000_0000 <= x && x <= 0x7FFF_FFFF_FFFF_FFFF
}

/// `parse_time` for any input: the milliseconds when the conversion stays
/// within `i64` at every step, nothing when it would overflow.
pub fn checked_parse_time(s: &str) -> (r: Option<i64>)
    ensures
        r is Some <==> time_fits(s@),
        r matches Some(v) ==> v == spec_parse_time(s@),
{
    let parts = time_numbers(s);
    if parts.len() == 3 {
        let h = parts[0] as i128 * 3600;
        let m = parts[1] as i128 * 60;
        let hm = h + m;
        let hms = hm + parts[2] as i128;
        let ms = hms * 1000;
        if fits_i64(h) && fits_i64(m) && fits_i64(hm) && fits_i64(hms) && fits_i64(ms) {
            Some(ms as i64)
        } else {
            None
        }
    } else if parts.len() == 2 {
        let m = parts[0] as i128 * 60;
        let ms_secs = m + parts[1] as i128;
        let ms = ms_secs * 1000;
        if fits_i64(m) && fits_i64(ms_secs) && fits_i64(ms) {
            Some(ms as i64)
        } else {
            None
        }
    } else {
        Some(0)
    }
}

} // verus!
