//! Character level text handling shared by the rest of the library.
//!
//! Strings are handled as sequences of `char`s: the view of a `str` or a
//! `String` is its `Seq<char>`, and every function here says what it does to
//! that sequence.

use vstd::prelude::*;

verus! {

/// What `str::to_lowercase` returns for a string. Unicode case mapping takes
/// tables to state, and the whole string matters (a final sigma lowers
/// differently from one inside a word), so the result is only named.
pub uninterp spec fn spec_str_to_lowercase(s: Seq<char>) -> Seq<char>;

/// What `str::to_uppercase` returns for a string.
pub uninterp spec fn spec_str_to_uppercase(s: Seq<char>) -> Seq<char>;

/// What `char::to_lowercase` yields for one character (one or more chars).
pub uninterp spec fn spec_char_to_lowercase(c: char) -> Seq<char>;

/// The characters of `s`, in order.
pub fn chars_of(s: &str) -> (r: Vec<char>)
    ensures
        r@ == s@,
{
    broadcast use vstd::string::group_string_axioms;

    let mut r: Vec<char> = Vec::new();
    for c in it: s.chars()
        invariant
            r@ == it.seq().take(it.index() as int),
            it.seq() == s@,
    {
        r.push(c);
    }
    r
}

/// Appends one character. This is `String::push`.
#[verifier::external_body]
pub(crate) fn push_char(s: &mut String, c: char)
    ensures
        final(s)@ == old(s)@.push(c),
{
    s.push(c);
}

/// `std::str::to_lowercase`: the string with every character lowered, by the
/// Unicode case tables.
#[verifier::external_body]
pub(crate) fn str_to_lowercase(s: &str) -> (r: String)
    ensures
        r@ == spec_str_to_lowercase(s@),
{
    s.to_lowercase()
}

/// `std::str::to_uppercase`: the string with every character raised, by the
/// Unicode case tables.
#[verifier::external_body]
pub(crate) fn str_to_uppercase(s: &str) -> (r: String)
    ensures
        r@ == spec_str_to_uppercase(s@),
{
    s.to_uppercase()
}

/// `char::to_lowercase`, collected: the one or more characters that `c`
/// lowers to.
#[verifier::external_body]
pub(crate) fn char_to_lowercase(c: char) -> (r: Vec<char>)
    ensures
        r@ == spec_char_to_lowercase(c),
{
    c.to_lowercase().collect()
}

/// `char::from_u32`: the character with code point `i`, when `i` is a Unicode
/// scalar value.
#[verifier::external_body]
pub(crate) fn char_from_u32(i: u32) -> (r: Option<char>)
    ensures
        r matches Some(c) ==> c as u32 == i,
        (i < 0xD800 || (0xE000 <= i && i <= 0x10FFFF)) ==> r is Some,
{
    char::from_u32(i)
}

/// A string holding exactly the characters of `chars`.
pub fn string_of(chars: &Vec<char>) -> (r: String)
    ensures
        r@ == chars@,
{
    let mut r = String::new();
    let mut i: usize = 0;
    while i < chars.len()
        invariant
            i <= chars.len(),
            r@ == chars@.take(i as int),
        decreases chars.len() - i,
    {
        push_char(&mut r, chars[i]);
        assert(chars@.take(i as int).push(chars@[i as int]) == chars@.take(i + 1));
        i = i + 1;
    }
    assert(chars@.take(chars.len() as int) == chars@);
    r
}

/// A string holding `s`.
pub fn string_from(s: &str) -> (r: String)
    ensures
        r@ == s@,
{
    String::from_str(s)
}

/// The Unicode `White_Space` property, which is what `char::is_whitespace`
/// tests: tab, line feed, vertical tab, form feed, carriage return, space,
/// next line, no-break space, ogham space mark, the spaces from en quad to
/// hair space, line and paragraph separator, narrow no-break space, medium
/// mathematical space and ideographic space.
pub open spec fn spec_is_whitespace(c: char) -> bool {
    let u = c as u32;
    ||| 0x09 <= u <= 0x0D
    ||| u == 0x20
    ||| u == 0x85
    ||| u == 0xA0
    ||| u == 0x1680
    ||| 0x2000 <= u <= 0x200A
    ||| u == 0x2028
    ||| u == 0x2029
    ||| u == 0x202F
    ||| u == 0x205F
    ||| u == 0x3000
}

/// Whether `c` is whitespace in the Unicode sense.
pub fn is_whitespace(c: char) -> (r: bool)
    ensures
        r == spec_is_whitespace(c),
{
    let u = c as u32;
    (0x09 <= u && u <= 0x0D) || u == 0x20 || u == 0x85 || u == 0xA0 || u == 0x1680 || (0x2000
        <= u && u <= 0x200A) || u == 0x2028 || u == 0x2029 || u == 0x202F || u == 0x205F || u
        == 0x3000
}

/// `s` with leading whitespace removed.
pub open spec fn spec_trim_start(s: Seq<char>) -> Seq<char>
    decreases s.len(),
{
    if s.len() > 0 && spec_is_whitespace(s[0]) {
        spec_trim_start(s.drop_first())
    } else {
        s
    }
}

/// `s` with trailing whitespace removed.
pub open spec fn spec_trim_end(s: Seq<char>) -> Seq<char>
    decreases s.len(),
{
    if s.len() > 0 && spec_is_whitespace(s.last()) {
        spec_trim_end(s.drop_last())
    } else {
        s
    }
}

/// `s` with leading and trailing whitespace removed, as `str::trim` does.
pub open spec fn spec_trim(s: Seq<char>) -> Seq<char> {
    spec_trim_end(spec_trim_start(s))
}

/// Index of the first character at or after `from` that is not whitespace.
fn skip_whitespace(chars: &Vec<char>, from: usize) -> (i: usize)
    requires
        from <= chars.len(),
    ensures
        from <= i <= chars.len(),
        spec_trim_start(chars@.subrange(from as int, chars.len() as int)) == chars@.subrange(
            i as int,
            chars.len() as int,
        ),
{
    let mut i = from;
    while i < chars.len() && is_whitespace(chars[i])
        invariant
            from <= i <= chars.len(),
            spec_trim_start(chars@.subrange(from as int, chars.len() as int)) == spec_trim_start(
                chars@.subrange(i as int, chars.len() as int),
            ),
        decreases chars.len() - i,
    {
        assert(chars@.subrange(i as int, chars.len() as int).drop_first() == chars@.subrange(
            i + 1,
            chars.len() as int,
        ));
        i = i + 1;
    }
    i
}

/// The characters of `chars` from `from` up to `to`.
pub fn sub_chars(chars: &Vec<char>, from: usize, to: usize) -> (r: Vec<char>)
    requires
        from <= to <= chars.len(),
    ensures
        r@ == chars@.subrange(from as int, to as int),
{
    let mut out: Vec<char> = Vec::new();
    let mut j = from;
    while j < to
        invariant
            from <= j <= to <= chars.len(),
            out@ == chars@.subrange(from as int, j as int),
        decreases to - j,
    {
        out.push(chars[j]);
        assert(chars@.subrange(from as int, j as int).push(chars@[j as int]) == chars@.subrange(
            from as int,
            j + 1,
        ));
        j = j + 1;
    }
    out
}

/// `chars` with leading and trailing whitespace removed.
pub fn trim_chars(chars: &Vec<char>) -> (r: Vec<char>)
    ensures
        r@ == spec_trim(chars@),
{
    let n = chars.len();
    assert(chars@.subrange(0, n as int) == chars@);
    let start = skip_whitespace(chars, 0);
    let mut end = n;
    while end > start && is_whitespace(chars[end - 1])
        invariant
            start <= end <= n,
            n == chars.len(),
            spec_trim(chars@) == spec_trim_end(chars@.subrange(start as int, end as int)),
        decreases end,
    {
        assert(chars@.subrange(start as int, end as int).drop_last() == chars@.subrange(
            start as int,
            end - 1,
        ));
        end = end - 1;
    }
    sub_chars(chars, start, end)
}

/// `s` with leading and trailing whitespace removed.
pub fn trim(s: &str) -> (r: String)
    ensures
        r@ == spec_trim(s@),
{
    let chars = chars_of(s);
    string_of(&trim_chars(&chars))
}

/// Whether two strings hold the same characters.
pub fn same_text(a: &str, b: &str) -> (r: bool)
    ensures
        r == (a@ == b@),
{
    let x = chars_of(a);
    let y = chars_of(b);
    if x.len() != y.len() {
        return false;
    }
    let mut i: usize = 0;
    while i < x.len()
        invariant
            i <= x.len(),
            x.len() == y.len(),
            x@ == a@,
            y@ == b@,
            forall|j: int| 0 <= j < i ==> x@[j] == y@[j],
        decreases x.len() - i,
    {
        if x[i] != y[i] {
            assert(a@[i as int] != b@[i as int]);
            return false;
        }
        i = i + 1;
    }
    assert(x@ == y@);
    true
}

/// The code of `c` with an ASCII capital lowered; every other character
/// keeps its code.
pub open spec fn ascii_lower_code(c: char) -> u32 {
    let u = c as u32;
    if 0x41 <= u <= 0x5A {
        (u + 0x20) as u32
    } else {
        u
    }
}

/// `a` and `b` are the same text once ASCII letters are taken without case.
pub open spec fn same_ignoring_ascii_case(a: Seq<char>, b: Seq<char>) -> bool {
    &&& a.len() == b.len()
    &&& forall|i: int| 0 <= i < a.len() ==> #[trigger] ascii_lower_code(a[i]) == ascii_lower_code(b[i])
}

fn lower_code(c: char) -> (r: u32)
    ensures
        r == ascii_lower_code(c),
{
    let u = c as u32;
    if 0x41 <= u && u <= 0x5A {
        u + 0x20
    } else {
        u
    }
}

/// Whether `a` and `b` match with ASCII letters compared without case, as
/// `str::eq_ignore_ascii_case` decides.
pub fn eq_ignore_ascii_case(a: &str, b: &str) -> (r: bool)
    ensures
        r == same_ignoring_ascii_case(a@, b@),
{
    let x = chars_of(a);
    let y = chars_of(b);
    if x.len() != y.len() {
        return false;
    }
    let mut i: usize = 0;
    while i < x.len()
        invariant
            i <= x.len(),
            x.len() == y.len(),
            x@ == a@,
            y@ == b@,
            forall|j: int| 0 <= j < i ==> #[trigger] ascii_lower_code(x@[j]) == ascii_lower_code(y@[j]),
        decreases x.len() - i,
    {
        if lower_code(x[i]) != lower_code(y[i]) {
            assert(ascii_lower_code(a@[i as int]) != ascii_lower_code(b@[i as int]));
            return false;
        }
        i = i + 1;
    }
    true
}

// ── Numbers ────────────────────────────────────────────────────────────

/// The decimal digits of `n`, most significant first, with no leading
/// zeros (a single `0` for zero).
pub open spec fn decimal(n: nat) -> Seq<char>
    decreases n,
{
    if n < 10 {
        seq![(n + '0' as nat) as char]
    } else {
        decimal(n / 10).push(((n % 10) + '0' as nat) as char)
    }
}

/// `n` in decimal, padded with leading zeros to at least `width` digits, as
/// `{:0width$}` formats it.
pub open spec fn padded(n: nat, width: nat) -> Seq<char> {
    let d = decimal(n);
    Seq::new(if d.len() < width { (width - d.len()) as nat } else { 0 }, |i: int| '0') + d
}

pub fn decimal_digits(n: u64) -> (r: Vec<char>)
    ensures
        r@ == decimal(n as nat),
    decreases n,
{
    if n < 10 {
        let mut r: Vec<char> = Vec::new();
        r.push(digit_char(n));
        r
    } else {
        let mut r = decimal_digits(n / 10);
        r.push(digit_char(n % 10));
        r
    }
}

pub fn digit_char(d: u64) -> (c: char)
    requires
        d < 10,
    ensures
        c == (d + '0' as nat) as char,
{
    match d {
        0 => '0',
        1 => '1',
        2 => '2',
        3 => '3',
        4 => '4',
        5 => '5',
        6 => '6',
        7 => '7',
        8 => '8',
        _ => '9',
    }
}

/// Append `n` padded with zeros to `width` digits.
pub fn push_padded(out: &mut Vec<char>, n: u64, width: usize)
    ensures
        final(out)@ == old(out)@ + padded(n as nat, width as nat),
{
    let digits = decimal_digits(n);
    let mut k = digits.len();
    let ghost zeros: Seq<char> = Seq::new(
        if digits@.len() < width { (width - digits@.len()) as nat } else { 0 },
        |i: int| '0',
    );
    let ghost start = out@;
    let mut i: usize = 0;
    while k < width
        invariant
            digits.len() <= k <= width || (k == digits.len() && k >= width),
            i == k - digits.len(),
            out@ == start + Seq::new(i as nat, |j: int| '0'),
        decreases width - k,
    {
        out.push('0');
        assert(Seq::new(i as nat, |j: int| '0').push('0') == Seq::new((i + 1) as nat, |j: int| '0'));
        k = k + 1;
        i = i + 1;
    }
    assert(Seq::new(i as nat, |j: int| '0') == zeros);
    let mut j: usize = 0;
    while j < digits.len()
        invariant
            j <= digits.len(),
            out@ == start + zeros + digits@.take(j as int),
        decreases digits.len() - j,
    {
        out.push(digits[j]);
        assert(digits@.take(j + 1) == digits@.take(j as int).push(digits@[j as int]));
        j = j + 1;
    }
    assert(digits@.take(digits.len() as int) == digits@);
}

} // verus!
