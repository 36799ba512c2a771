//! Finding a song's audio file, moving the playhead, and the window of recent
//! samples the analyser reads.
//!
//! Opening files and the output device happens outside the library; what is
//! decided here is which file a song name means, where a seek lands, and
//! which samples the analyser sees.

use std::collections::VecDeque;

use vstd::prelude::*;

use crate::text::{
    char_to_lowercase, chars_of, eq_ignore_ascii_case, is_whitespace, same_ignoring_ascii_case,
    spec_char_to_lowercase, spec_is_whitespace, string_of,
};

verus! {

broadcast use vstd::std_specs::vecdeque::group_vec_dequeue_axioms;

// ── Matching names ─────────────────────────────────────────────────────

/// A combining diacritical mark (U+0300 to U+036F): what decomposed text
/// adds after a base letter.
pub open spec fn is_combining_mark(c: char) -> bool {
    0x0300 <= c as u32 <= 0x036F
}

/// The plain letter under a precomposed one, for the letters that carry
/// marks in Latin-1 and in the Vietnamese alphabet: what is left of the
/// letter's canonical decomposition once its combining marks are dropped.
/// Every other character stands for itself.
pub open spec fn spec_base_letter(c: char) -> char {
    let u = c as u32;
    if 0xC0 <= u <= 0xC5 { 'A' }
    else if u == 0xC7 { 'C' }
    else if 0xC8 <= u <= 0xCB { 'E' }
    else if 0xCC <= u <= 0xCF { 'I' }
    else if u == 0xD1 { 'N' }
    else if 0xD2 <= u <= 0xD6 { 'O' }
    else if 0xD9 <= u <= 0xDC { 'U' }
    else if u == 0xDD { 'Y' }
    else if 0xE0 <= u <= 0xE5 { 'a' }
    else if u == 0xE7 { 'c' }
    else if 0xE8 <= u <= 0xEB { 'e' }
    else if 0xEC <= u <= 0xEF { 'i' }
    else if u == 0xF1 { 'n' }
    else if 0xF2 <= u <= 0xF6 { 'o' }
    else if 0xF9 <= u <= 0xFC { 'u' }
    else if u == 0xFD || u == 0xFF { 'y' }
    else if u == 0x0102 { 'A' }
    else if u == 0x0103 { 'a' }
    else if u == 0x0128 { 'I' }
    else if u == 0x0129 { 'i' }
    else if u == 0x0168 { 'U' }
    else if u == 0x0169 { 'u' }
    else if u == 0x01A0 { 'O' }
    else if u == 0x01A1 { 'o' }
    else if u == 0x01AF { 'U' }
    else if u == 0x01B0 { 'u' }
    else if 0x1EA0 <= u <= 0x1EB7 { if u % 2 == 0 { 'A' } else { 'a' } }
    else if 0x1EB8 <= u <= 0x1EC7 { if u % 2 == 0 { 'E' } else { 'e' } }
    else if 0x1EC8 <= u <= 0x1ECB { if u % 2 == 0 { 'I' } else { 'i' } }
    else if 0x1ECC <= u <= 0x1EE3 { if u % 2 == 0 { 'O' } else { 'o' } }
    else if 0x1EE4 <= u <= 0x1EF1 { if u % 2 == 0 { 'U' } else { 'u' } }
    else if 0x1EF2 <= u <= 0x1EF9 { if u % 2 == 0 { 'Y' } else { 'y' } }
    else { c }
}

/// The plain letter under a precomposed one.
pub fn base_letter(c: char) -> (r: char)
    ensures
        r == spec_base_letter(c),
{
    let u: u32 = c as u32;
    if 0xC0 <= u && u <= 0xC5 { 'A' }
    else if u == 0xC7 { 'C' }
    else if 0xC8 <= u && u <= 0xCB { 'E' }
    else if 0xCC <= u && u <= 0xCF { 'I' }
    else if u == 0xD1 { 'N' }
    else if 0xD2 <= u && u <= 0xD6 { 'O' }
    else if 0xD9 <= u && u <= 0xDC { 'U' }
    else if u == 0xDD { 'Y' }
    else if 0xE0 <= u && u <= 0xE5 { 'a' }
    else if u == 0xE7 { 'c' }
    else if 0xE8 <= u && u <= 0xEB { 'e' }
    else if 0xEC <= u && u <= 0xEF { 'i' }
    else if u == 0xF1 { 'n' }
    else if 0xF2 <= u && u <= 0xF6 { 'o' }
    else if 0xF9 <= u && u <= 0xFC { 'u' }
    else if u == 0xFD || u == 0xFF { 'y' }
    else if u == 0x0102 { 'A' }
    else if u == 0x0103 { 'a' }
    else if u == 0x0128 { 'I' }
    else if u == 0x0129 { 'i' }
    else if u == 0x0168 { 'U' }
    else if u == 0x0169 { 'u' }
    else if u == 0x01A0 { 'O' }
    else if u == 0x01A1 { 'o' }
    else if u == 0x01AF { 'U' }
    else if u == 0x01B0 { 'u' }
    else if 0x1EA0 <= u && u <= 0x1EB7 { if u % 2 == 0 { 'A' } else { 'a' } }
    else if 0x1EB8 <= u && u <= 0x1EC7 { if u % 2 == 0 { 'E' } else { 'e' } }
    else if 0x1EC8 <= u && u <= 0x1ECB { if u % 2 == 0 { 'I' } else { 'i' } }
    else if 0x1ECC <= u && u <= 0x1EE3 { if u % 2 == 0 { 'O' } else { 'o' } }
    else if 0x1EE4 <= u && u <= 0x1EF1 { if u % 2 == 0 { 'U' } else { 'u' } }
    else if 0x1EF2 <= u && u <= 0x1EF9 { if u % 2 == 0 { 'Y' } else { 'y' } }
    else { c }
}

/// A plain letter is its own base.
pub proof fn lemma_base_letter_is_plain(c: char)
    ensures
        spec_base_letter(spec_base_letter(c)) == spec_base_letter(c),
        !is_combining_mark(c) ==> !is_combining_mark(spec_base_letter(c)),
        is_combining_mark(c) ==> spec_base_letter(c) == c,
{
}

/// `d` without its whitespace.
pub open spec fn without_whitespace(d: Seq<char>) -> Seq<char>
    decreases d.len(),
{
    if d.len() == 0 {
        Seq::empty()
    } else if spec_is_whitespace(d.last()) {
        without_whitespace(d.drop_last())
    } else {
        without_whitespace(d.drop_last()).push(d.last())
    }
}

/// `s` folded for comparison: combining marks dropped, every other character
/// reduced to its base letter and lowered, whitespace (also any the lowering
/// yields) dropped.
pub open spec fn spec_fold(s: Seq<char>) -> Seq<char>
    decreases s.len(),
{
    if s.len() == 0 {
        Seq::empty()
    } else if is_combining_mark(s.last()) {
        spec_fold(s.drop_last())
    } else {
        spec_fold(s.drop_last()) + without_whitespace(spec_char_to_lowercase(spec_base_letter(s.last())))
    }
}

/// `s` folded with `lowered[i]` standing for what character `i` turns into
/// (its base letter, lowered): combining marks dropped, every other character
/// replaced by that, whitespace dropped.
pub open spec fn fold_with(s: Seq<char>, lowered: Seq<Seq<char>>) -> Seq<char>
    decreases s.len(),
{
    if s.len() == 0 {
        Seq::empty()
    } else if is_combining_mark(s.last()) {
        fold_with(s.drop_last(), lowered.drop_last())
    } else {
        fold_with(s.drop_last(), lowered.drop_last()) + without_whitespace(lowered.last())
    }
}

/// What each character of `s` turns into: its base letter, lowered.
pub open spec fn lowered_chars(s: Seq<char>) -> Seq<Seq<char>> {
    s.map_values(|c: char| spec_char_to_lowercase(spec_base_letter(c)))
}

proof fn lemma_fold_with_lowered(s: Seq<char>)
    ensures
        fold_with(s, lowered_chars(s)) == spec_fold(s),
    decreases s.len(),
{
    if s.len() > 0 {
        assert(lowered_chars(s).drop_last() == lowered_chars(s.drop_last()));
        lemma_fold_with_lowered(s.drop_last());
    }
}

/// The lowered forms as character sequences.
pub open spec fn lowered_view(v: Seq<Vec<char>>) -> Seq<Seq<char>> {
    v.map_values(|l: Vec<char>| l@)
}

/// Fold `chars`, given what each of them turns into (its base letter,
/// lowered).
pub fn fold_lowered(chars: &Vec<char>, lowered: &Vec<Vec<char>>) -> (r: String)
    requires
        lowered@.len() == chars@.len(),
    ensures
        r@ == fold_with(chars@, lowered_view(lowered@)),
{
    let ghost low = lowered_view(lowered@);
    let mut out: Vec<char> = Vec::new();
    let mut i: usize = 0;
    while i < chars.len()
        invariant
            i <= chars.len(),
            lowered@.len() == chars@.len(),
            low == lowered_view(lowered@),
            out@ == fold_with(chars@.take(i as int), low.take(i as int)),
        decreases chars.len() - i,
    {
        let c = chars[i];
        let u = c as u32;
        assert(chars@.take(i + 1).drop_last() == chars@.take(i as int));
        assert(low.take(i + 1).drop_last() == low.take(i as int));
        assert(low.take(i + 1).last() == lowered[i as int]@);
        if !(0x0300 <= u && u <= 0x036F) {
            let lower = &lowered[i];
            let ghost base = out@;
            let mut j: usize = 0;
            while j < lower.len()
                invariant
                    j <= lower.len(),
                    out@ == base + without_whitespace(lower@.take(j as int)),
                decreases lower.len() - j,
            {
                assert(lower@.take(j + 1).drop_last() == lower@.take(j as int));
                if !is_whitespace(lower[j]) {
                    out.push(lower[j]);
                }
                j = j + 1;
            }
            assert(lower@.take(lower.len() as int) == lower@);
        }
        i = i + 1;
    }
    assert(chars@.take(chars.len() as int) == chars@);
    assert(low.take(chars.len() as int) == low);
    string_of(&out)
}

/// Normalise a filename for comparison. Full Unicode normalisation is
/// skipped: combining marks are stripped and precomposed letters reduced to
/// their base letter, which is enough to match Vietnamese titles across their
/// composed and decomposed forms.
pub fn fold(s: &str) -> (r: String)
    ensures
        r@ == spec_fold(s@),
{
    let chars = chars_of(s);
    let mut lowered: Vec<Vec<char>> = Vec::new();
    let mut i: usize = 0;
    while i < chars.len()
        invariant
            i <= chars.len(),
            lowered_view(lowered@) == lowered_chars(chars@.take(i as int)),
        decreases chars.len() - i,
    {
        let l = char_to_lowercase(base_letter(chars[i]));
        let ghost before = lowered@;
        let ghost lv = l@;
        lowered.push(l);
        proof {
            assert(lowered_view(lowered@) =~= lowered_view(before).push(lv));
            assert(chars@.take(i + 1) =~= chars@.take(i as int).push(chars@[i as int]));
            assert(lowered_chars(chars@.take(i + 1)) =~= lowered_chars(chars@.take(i as int)).push(
                spec_char_to_lowercase(spec_base_letter(chars@[i as int])),
            ));
        }
        i = i + 1;
    }
    proof {
        assert(chars@.take(chars.len() as int) == chars@);
        lemma_fold_with_lowered(s@);
    }
    fold_lowered(&chars, &lowered)
}

/// What folding yields never holds whitespace.
pub proof fn lemma_fold_has_no_whitespace(s: Seq<char>)
    ensures
        forall|i: int| 0 <= i < spec_fold(s).len() ==> !spec_is_whitespace(#[trigger] spec_fold(s)[i]),
    decreases s.len(),
{
    if s.len() > 0 {
        lemma_fold_has_no_whitespace(s.drop_last());
        if !is_combining_mark(s.last()) {
            lemma_without_whitespace_is_clean(spec_char_to_lowercase(spec_base_letter(s.last())));
            let a = spec_fold(s.drop_last());
            let b = without_whitespace(spec_char_to_lowercase(spec_base_letter(s.last())));
            assert forall|i: int| 0 <= i < (a + b).len() implies !spec_is_whitespace(#[trigger] (a + b)[i]) by {
                if i >= a.len() {
                    assert((a + b)[i] == b[i - a.len()]);
                }
            }
        }
    }
}

proof fn lemma_without_whitespace_is_clean(d: Seq<char>)
    ensures
        forall|i: int| 0 <= i < without_whitespace(d).len() ==> !spec_is_whitespace(#[trigger] without_whitespace(d)[i]),
    decreases d.len(),
{
    if d.len() > 0 {
        lemma_without_whitespace_is_clean(d.drop_last());
        let r = without_whitespace(d.drop_last());
        if !spec_is_whitespace(d.last()) {
            assert forall|i: int| 0 <= i < r.push(d.last()).len() implies !spec_is_whitespace(
                #[trigger] r.push(d.last())[i],
            ) by {
                if i < r.len() {
                    assert(r.push(d.last())[i] == r[i]);
                }
            }
        }
    }
}

/// Combining marks do not count: a mark added anywhere leaves the fold as it
/// was.
pub proof fn lemma_fold_ignores_marks(a: Seq<char>, m: char, b: Seq<char>)
    requires
        is_combining_mark(m),
    ensures
        spec_fold(a + seq![m] + b) == spec_fold(a + b),
    decreases b.len(),
{
    if b.len() == 0 {
        assert(a + seq![m] + b == (a + b).push(m));
        assert((a + b).push(m).drop_last() == a + b);
    } else {
        lemma_fold_ignores_marks(a, m, b.drop_last());
        assert((a + seq![m] + b).drop_last() == a + seq![m] + b.drop_last());
        assert((a + b).drop_last() == a + b.drop_last());
        assert((a + seq![m] + b).last() == b.last());
        assert((a + b).last() == b.last());
    }
}

/// Folding works character by character: the fold of two pieces joined is
/// the two folds joined.
pub proof fn lemma_fold_joins(x: Seq<char>, y: Seq<char>)
    ensures
        spec_fold(x + y) == spec_fold(x) + spec_fold(y),
    decreases y.len(),
{
    if y.len() == 0 {
        assert(x + y == x);
    } else {
        lemma_fold_joins(x, y.drop_last());
        assert((x + y).drop_last() == x + y.drop_last());
        assert((x + y).last() == y.last());
    }
}

/// A run of combining marks anywhere leaves the fold as it was.
proof fn lemma_marks_after_base(a: Seq<char>, m: Seq<char>, b: Seq<char>)
    requires
        forall|i: int| 0 <= i < m.len() ==> is_combining_mark(#[trigger] m[i]),
    ensures
        spec_fold(a + m + b) == spec_fold(a + b),
    decreases m.len(),
{
    if m.len() > 0 {
        let rest = m.drop_last();
        lemma_marks_after_base(a, rest, b);
        lemma_fold_ignores_marks(a + rest, m.last(), b);
        assert(a + m + b == (a + rest) + seq![m.last()] + b);
        assert(a + rest + b == (a + rest) + b);
    } else {
        assert(a + m == a);
    }
}

/// Composed and decomposed spellings fold alike: a precomposed letter, and
/// its base letter followed by any run of combining marks (its decomposed
/// form), give the same fold wherever they stand.
pub proof fn lemma_fold_matches_decomposed(a: Seq<char>, c: char, marks: Seq<char>, b: Seq<char>)
    requires
        forall|i: int| 0 <= i < marks.len() ==> is_combining_mark(#[trigger] marks[i]),
    ensures
        spec_fold(a + seq![c] + b) == spec_fold(a + seq![spec_base_letter(c)] + marks + b),
{
    let base = spec_base_letter(c);
    lemma_base_letter_is_plain(c);
    lemma_marks_after_base(a + seq![base], marks, b);
    lemma_fold_joins(a + seq![c], b);
    lemma_fold_joins(a + seq![base], b);
    lemma_fold_joins(a, seq![c]);
    lemma_fold_joins(a, seq![base]);
    assert(seq![c].drop_last() == Seq::<char>::empty());
    assert(seq![base].drop_last() == Seq::<char>::empty());
    assert(spec_fold(seq![c]) == spec_fold(seq![base]));
}

/// `needle` occurs somewhere in `hay`.
pub open spec fn holds(hay: Seq<char>, needle: Seq<char>) -> bool {
    exists|i: int|
        0 <= i && i + needle.len() <= hay.len() && #[trigger] hay.subrange(i, i + needle.len()) == needle
}

/// Whether `needle` occurs at `at` in `hay`.
fn occurs_at(hay: &Vec<char>, needle: &Vec<char>, at: usize) -> (r: bool)
    requires
        at + needle.len() <= hay.len(),
    ensures
        r == (hay@.subrange(at as int, at + needle.len()) == needle@),
{
    let mut k: usize = 0;
    while k < needle.len()
        invariant
            k <= needle.len(),
            at + needle.len() <= hay.len(),
            forall|j: int| 0 <= j < k ==> hay@[at + j] == needle@[j],
        decreases needle.len() - k,
    {
        if hay[at + k] != needle[k] {
            assert(hay@.subrange(at as int, at + needle.len())[k as int] != needle@[k as int]);
            return false;
        }
        k = k + 1;
    }
    assert(hay@.subrange(at as int, at + needle.len()) =~= needle@);
    true
}

/// Whether `needle` occurs somewhere in `hay`.
fn contains_chars(hay: &Vec<char>, needle: &Vec<char>) -> (r: bool)
    ensures
        r == holds(hay@, needle@),
{
    if needle.len() > hay.len() {
        return false;
    }
    let last = hay.len() - needle.len();
    let mut at: usize = 0;
    loop
        invariant
            at <= last,
            last + needle.len() == hay.len(),
            forall|i: int|
                0 <= i < at ==> #[trigger] hay@.subrange(i, i + needle.len()) != needle@,
        decreases last - at,
    {
        if occurs_at(hay, needle, at) {
            return true;
        }
        if at == last {
            assert forall|i: int| 0 <= i && i + needle.len() <= hay.len() implies #[trigger] hay@.subrange(
                i,
                i + needle.len(),
            ) != needle@ by {
                assert(i <= last);
            }
            return false;
        }
        at = at + 1;
    }
}

/// A file with stem `stem` is the song asked for as `target` (already
/// folded): one folded name holds the other.
pub open spec fn names_song(target: Seq<char>, stem: Seq<char>) -> bool {
    holds(spec_fold(stem), target) || holds(target, spec_fold(stem))
}

/// The first of `stems` naming `target`.
pub open spec fn first_naming(target: Seq<char>, stems: Seq<Seq<char>>) -> Option<int>
    decreases stems.len(),
{
    if stems.len() == 0 {
        None
    } else {
        match first_naming(target, stems.drop_last()) {
            Some(k) => Some(k),
            None => if names_song(target, stems.last()) {
                Some(stems.len() - 1)
            } else {
                None
            },
        }
    }
}

/// Why no audio file could be chosen for a song.
#[derive(Clone, Copy, Debug, PartialEq, Eq, Structural)]
pub enum SongError {
    /// The folder has no mp3 files.
    NoAudio,
    /// The folder has `found` mp3 files and none matches the song's name.
    NoMatch { found: usize },
}

/// Which of the mp3 files with stems `stems` a song called `song` is: the
/// first whose folded stem holds the folded name or is held by it; failing
/// that the only file there is; otherwise an error.
pub open spec fn spec_pick_song(song: Seq<char>, stems: Seq<Seq<char>>) -> Result<int, SongError> {
    let hit = if song.len() > 0 {
        first_naming(spec_fold(song), stems)
    } else {
        None
    };
    match hit {
        Some(k) => Ok(k),
        None => if stems.len() == 1 {
            Ok(0)
        } else if stems.len() == 0 {
            Err(SongError::NoAudio)
        } else {
            Err(SongError::NoMatch { found: stems.len() as usize })
        },
    }
}

/// The stems of `v` as character sequences.
pub open spec fn stems_view(v: Seq<String>) -> Seq<Seq<char>> {
    v.map_values(|s: String| s@)
}

/// Pick the audio file for `song` among the mp3 files of a folder, given
/// their stems in the order the folder lists them.
pub fn pick_song(song: &str, stems: &Vec<String>) -> (r: Result<usize, SongError>)
    ensures
        match r {
            Ok(k) => spec_pick_song(song@, stems_view(stems@)) == Ok::<int, SongError>(k as int),
            Err(e) => spec_pick_song(song@, stems_view(stems@)) == Err::<int, SongError>(e),
        },
{
    let ghost all = stems_view(stems@);
    let song_chars = chars_of(song);
    if song_chars.len() > 0 {
        let folded_song = fold(song);
        let target = chars_of(folded_song.as_str());
        let mut k: usize = 0;
        while k < stems.len()
            invariant
                k <= stems.len(),
                all == stems_view(stems@),
                target@ == spec_fold(song@),
                song@.len() > 0,
                first_naming(target@, all.take(k as int)) is None,
            decreases stems.len() - k,
        {
            assert(all.take(k + 1).drop_last() == all.take(k as int));
            let folded_stem = fold(stems[k].as_str());
            let folded = chars_of(folded_stem.as_str());
            if contains_chars(&folded, &target) || contains_chars(&target, &folded) {
                proof {
                    assert(all[k as int] == stems[k as int]@);
                    assert(all.take(k + 1).last() == all[k as int]);
                    assert(names_song(target@, all[k as int]));
                    assert(first_naming(target@, all.take(k + 1)) == Some(k as int));
                    lemma_first_naming_prefix(target@, all, k as int + 1);
                    assert(song@.len() > 0);
                    assert(first_naming(spec_fold(song@), all) == Some(k as int));
                    assert(spec_pick_song(song@, all) == Ok::<int, SongError>(k as int));
                }
                return Ok(k);
            }
            k = k + 1;
        }
        proof {
            assert(all.take(stems.len() as int) == all);
        }
    }
    if stems.len() == 1 {
        Ok(0)
    } else if stems.len() == 0 {
        Err(SongError::NoAudio)
    } else {
        Err(SongError::NoMatch { found: stems.len() })
    }
}

/// A match in a prefix is the match of the whole list.
proof fn lemma_first_naming_prefix(target: Seq<char>, stems: Seq<Seq<char>>, n: int)
    requires
        0 <= n <= stems.len(),
        first_naming(target, stems.take(n)) is Some,
    ensures
        first_naming(target, stems) == first_naming(target, stems.take(n)),
    decreases stems.len() - n,
{
    if n < stems.len() {
        assert(stems.take(n + 1).drop_last() == stems.take(n));
        lemma_first_naming_prefix(target, stems, n + 1);
    } else {
        assert(stems.take(n) == stems);
    }
}

/// `first_naming` finds the first stem that names the song.
proof fn lemma_first_naming_is(target: Seq<char>, stems: Seq<Seq<char>>, k: int)
    requires
        0 <= k < stems.len(),
        names_song(target, stems[k]),
        forall|j: int| 0 <= j < k ==> !names_song(target, #[trigger] stems[j]),
    ensures
        first_naming(target, stems) == Some(k),
    decreases stems.len(),
{
    if k < stems.len() - 1 {
        let rest = stems.drop_last();
        assert forall|j: int| 0 <= j < k implies !names_song(target, #[trigger] rest[j]) by {
            assert(rest[j] == stems[j]);
        }
        assert(rest[k] == stems[k]);
        lemma_first_naming_is(target, rest, k);
    } else {
        lemma_first_naming_none(target, stems.drop_last());
    }
}

/// `first_naming` finds nothing where no stem names the song.
proof fn lemma_first_naming_none(target: Seq<char>, stems: Seq<Seq<char>>)
    ensures
        (forall|j: int| 0 <= j < stems.len() ==> !names_song(target, #[trigger] stems[j])) ==> first_naming(
            target,
            stems,
        ) is None,
    decreases stems.len(),
{
    if stems.len() > 0 {
        let rest = stems.drop_last();
        if forall|j: int| 0 <= j < stems.len() ==> !names_song(target, #[trigger] stems[j]) {
            assert forall|j: int| 0 <= j < rest.len() implies !names_song(target, #[trigger] rest[j]) by {
                assert(rest[j] == stems[j]);
            }
        }
        lemma_first_naming_none(target, rest);
    }
}

/// Which file a song is. When the song has a name, the first file whose
/// folded stem holds the folded name, or is held by it, is the song. When
/// no file matches (or the song has no name), the only file of the folder is
/// taken; an empty folder has no audio, and a folder of several files none
/// of which matches is an error that counts them.
pub proof fn lemma_song_is_the_first_match(song: Seq<char>, stems: Seq<Seq<char>>, k: int)
    ensures
        song.len() > 0 && 0 <= k < stems.len() && holds_either(spec_fold(song), spec_fold(stems[k])) && (forall|
            j: int,
        | 0 <= j < k ==> !holds_either(spec_fold(song), spec_fold(#[trigger] stems[j]))) ==> spec_pick_song(
            song,
            stems,
        ) == Ok::<int, SongError>(k),
        (song.len() == 0 || forall|j: int|
            0 <= j < stems.len() ==> !holds_either(spec_fold(song), spec_fold(#[trigger] stems[j]))) ==> {
            &&& (stems.len() == 1 ==> spec_pick_song(song, stems) == Ok::<int, SongError>(0))
            &&& (stems.len() == 0 ==> spec_pick_song(song, stems) == Err::<int, SongError>(SongError::NoAudio))
            &&& (stems.len() > 1 ==> spec_pick_song(song, stems) == Err::<int, SongError>(
                SongError::NoMatch { found: stems.len() as usize },
            ))
        },
{
    let target = spec_fold(song);
    if song.len() > 0 && 0 <= k < stems.len() && holds_either(target, spec_fold(stems[k])) && (forall|j: int|
        0 <= j < k ==> !holds_either(target, spec_fold(#[trigger] stems[j]))) {
        assert forall|j: int| 0 <= j < k implies !names_song(target, #[trigger] stems[j]) by {
            assert(!holds_either(target, spec_fold(stems[j])));
        }
        lemma_first_naming_is(target, stems, k);
    }
    if song.len() > 0 && forall|j: int|
        0 <= j < stems.len() ==> !holds_either(target, spec_fold(#[trigger] stems[j])) {
        assert forall|j: int| 0 <= j < stems.len() implies !names_song(target, #[trigger] stems[j]) by {
            assert(!holds_either(target, spec_fold(stems[j])));
        }
        lemma_first_naming_none(target, stems);
    }
}

/// One of two texts holds the other somewhere inside it.
pub open spec fn holds_either(a: Seq<char>, b: Seq<char>) -> bool {
    (exists|i: int| 0 <= i && i + a.len() <= b.len() && #[trigger] b.subrange(i, i + a.len()) == a) || (exists|
        i: int,
    | 0 <= i && i + b.len() <= a.len() && #[trigger] a.subrange(i, i + b.len()) == b)
}

/// Whether a file extension is mp3, in any case.
pub fn is_mp3_extension(ext: &str) -> (r: bool)
    ensures
        r == same_ignoring_ascii_case(ext@, "mp3"@),
{
    eq_ignore_ascii_case(ext, "mp3")
}

// ── Seeking ────────────────────────────────────────────────────────────

/// How close to its end a song that has stopped must be to count as played
/// through, in milliseconds.
pub const END_SLACK_MS: i64 = 200;

/// A song has played through when the output has run dry and the playhead
/// is within `END_SLACK_MS` of its end; the player then moves on to the next
/// track.
pub open spec fn spec_song_finished(is_ended: bool, position_ms: int, total_ms: int) -> bool {
    is_ended && position_ms >= total_ms - END_SLACK_MS
}

/// Whether the song has played through and the next one should start.
pub fn song_finished(is_ended: bool, position_ms: i64, total_ms: i64) -> (r: bool)
    ensures
        r == spec_song_finished(is_ended, position_ms as int, total_ms as int),
{
    is_ended && (position_ms as i128) >= (total_ms as i128) - (END_SLACK_MS as i128)
}

/// Where a seek to `ms` lands in a song `total_ms` long: clamped to the song.
pub open spec fn spec_seek_target(ms: int, total_ms: int) -> int {
    if ms < 0 {
        0
    } else if ms > total_ms {
        total_ms
    } else {
        ms
    }
}

/// Where a jump to `ms` lands, clamped to a song `total_ms` long.
pub fn seek_target(ms: i64, total_ms: i64) -> (r: i64)
    requires
        0 <= total_ms,
    ensures
        r == spec_seek_target(ms as int, total_ms as int),
{
    if ms < 0 {
        0
    } else if ms > total_ms {
        total_ms
    } else {
        ms
    }
}

/// Where a jump of `delta` from `position_ms` lands, clamped to the song.
pub fn seek_by_target(position_ms: i64, delta: i64, total_ms: i64) -> (r: i64)
    requires
        0 <= total_ms,
    ensures
        r == spec_seek_target(position_ms + delta, total_ms as int),
{
    let target: i128 = position_ms as i128 + delta as i128;
    if target < 0 {
        0
    } else if target > total_ms as i128 {
        total_ms
    } else {
        target as i64
    }
}

// ── Recent samples ─────────────────────────────────────────────────────

/// How many samples the ring keeps: roughly 190ms at 44.1kHz, comfortably
/// more than one analysis window.
pub const RING_CAPACITY: usize = 8192;

/// The most recent samples of what is playing, oldest first. Once full, each
/// new sample pushes the oldest out.
pub struct Ring<T> {
    items: VecDeque<T>,
}

impl<T: Copy> Ring<T> {
    /// What the ring holds, oldest first.
    pub closed spec fn contents(self) -> Seq<T> {
        self.items@
    }

    /// Never more than the capacity: true of a new ring and kept by every
    /// push.
    pub closed spec fn wf(self) -> bool {
        self.items@.len() <= RING_CAPACITY
    }

    pub fn new() -> (r: Self)
        ensures
            r.wf(),
            r.contents() == Seq::<T>::empty(),
    {
        Ring { items: VecDeque::new() }
    }

    /// Add the newest sample, dropping the oldest when the ring is full.
    pub fn push(&mut self, s: T)
        ensures
            old(self).wf() ==> final(self).wf(),
            old(self).contents().len() >= RING_CAPACITY ==> final(self).contents()
                == old(self).contents().drop_first().push(s),
            old(self).contents().len() < RING_CAPACITY ==> final(self).contents() == old(
                self,
            ).contents().push(s),
    {
        if self.items.len() >= RING_CAPACITY {
            self.items.pop_front();
        }
        self.items.push_back(s);
    }

    /// The newest `n` samples in chronological order; fewer than `n` only
    /// while the ring is still filling.
    pub fn latest(&self, n: usize) -> (r: Vec<T>)
        ensures
            r@ == self.contents().subrange(
                self.contents().len() - (if n < self.contents().len() { n as int } else { self.contents().len() as int }),
                self.contents().len() as int,
            ),
    {
        let len = self.items.len();
        let from = if n < len { len - n } else { 0 };
        let mut out: Vec<T> = Vec::new();
        let mut i = from;
        while i < len
            invariant
                from <= i <= len,
                len == self.items@.len(),
                out@ == self.items@.subrange(from as int, i as int),
            decreases len - i,
        {
            out.push(self.items[i]);
            assert(self.items@.subrange(from as int, i + 1) == self.items@.subrange(
                from as int,
                i as int,
            ).push(self.items@[i as int]));
            i = i + 1;
        }
        out
    }

    /// Drop everything. Done on a seek, so the analyser does not blend audio
    /// from two parts of the song.
    pub fn clear(&mut self)
        ensures
            final(self).wf(),
            final(self).contents() == Seq::<T>::empty(),
    {
        self.items.clear();
    }
}

/// A seek never leaves the song: it lands where it was aimed when that is
/// inside the song, at the start when aimed before it and at the end when
/// aimed past it; aiming further on never lands earlier.
pub proof fn lemma_seek_stays_in_the_song(a: int, b: int, total_ms: int)
    requires
        0 <= total_ms,
    ensures
        0 <= spec_seek_target(a, total_ms) <= total_ms,
        0 <= a <= total_ms ==> spec_seek_target(a, total_ms) == a,
        a < 0 ==> spec_seek_target(a, total_ms) == 0,
        a > total_ms ==> spec_seek_target(a, total_ms) == total_ms,
        a <= b ==> spec_seek_target(a, total_ms) <= spec_seek_target(b, total_ms),
{
}

/// The next track starts once the output has run dry within
/// `END_SLACK_MS` of the end, and never while the song is still playing.
pub proof fn lemma_finished_only_at_the_end(is_ended: bool, position_ms: int, total_ms: int)
    ensures
        !is_ended ==> !spec_song_finished(is_ended, position_ms, total_ms),
        is_ended && position_ms + 200 >= total_ms ==> spec_song_finished(is_ended, position_ms, total_ms),
        position_ms + 200 < total_ms ==> !spec_song_finished(is_ended, position_ms, total_ms),
{
}

} // verus!
