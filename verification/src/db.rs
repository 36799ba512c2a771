//! The music library: naming tracks after their files, deciding which files
//! are audio, and putting a scanned library in order.
//!
//! The folders themselves live in SQLite and the files on disk; both are read
//! outside the library, which hands the names it found to the functions here.

use vstd::prelude::*;

use crate::config;
use crate::lyrics::all_digits;
use crate::playlist::{Track, TrackView};
use crate::text::{
    chars_of, same_text, spec_is_whitespace, spec_str_to_lowercase, spec_trim, str_to_lowercase, string_from,
    string_of, sub_chars, trim_chars,
};

verus! {

/// A character that may follow a leading track number.
pub open spec fn is_number_separator(c: char) -> bool {
    c == '.' || c == '-' || c == ' '
}

/// `s` with every underscore turned into a space.
pub open spec fn underscores_to_spaces(s: Seq<char>) -> Seq<char> {
    s.map_values(|c: char| if c == '_' { ' ' } else { c })
}

/// Index of the first separator at or after `i`, if there is one.
pub open spec fn first_separator(s: Seq<char>, i: int) -> Option<int>
    decreases s.len() - i,
{
    if i < 0 || i >= s.len() {
        None
    } else if is_number_separator(s[i]) {
        Some(i)
    } else {
        first_separator(s, i + 1)
    }
}

/// `s` with leading separators removed.
pub open spec fn trim_separators_start(s: Seq<char>) -> Seq<char>
    decreases s.len(),
{
    if s.len() > 0 && is_number_separator(s[0]) {
        trim_separators_start(s.drop_first())
    } else {
        s
    }
}

/// `s` without a leading track number such as `01. `, `01 - ` or `01 `: at
/// most three digits before the first separator.
pub open spec fn strip_track_number(s: Seq<char>) -> Seq<char> {
    match first_separator(s, 0) {
        Some(p) => if p <= 3 && all_digits(s.take(p)) {
            spec_trim(trim_separators_start(s.skip(p + 1)))
        } else {
            s
        },
        None => s,
    }
}

/// The ` - ` between artist and title.
pub open spec fn dash() -> Seq<char> {
    seq![' ', '-', ' ']
}

/// Index of the first ` - ` at or after `i`, if there is one.
pub open spec fn find_dash(s: Seq<char>, i: int) -> Option<int>
    decreases s.len() - i,
{
    if i < 0 || i + 3 > s.len() {
        None
    } else if s.subrange(i, i + 3) == dash() {
        Some(i)
    } else {
        find_dash(s, i + 1)
    }
}

/// Title and artist named by a file stem: `Artist - Title` with any leading
/// track number removed, or the whole cleaned stem as the title by an unknown
/// artist.
pub open spec fn spec_title_and_artist(stem: Seq<char>) -> (Seq<char>, Seq<char>) {
    let clean = strip_track_number(spec_trim(underscores_to_spaces(stem)));
    match find_dash(clean, 0) {
        Some(i) => {
            let artist = spec_trim(clean.take(i));
            let title = spec_trim(clean.skip(i + 3));
            if artist.len() > 0 && title.len() > 0 {
                (title, artist)
            } else {
                (clean, config::UNKNOWN_ARTIST@)
            }
        },
        None => (clean, config::UNKNOWN_ARTIST@),
    }
}

fn underscores_replaced(chars: &Vec<char>) -> (r: Vec<char>)
    ensures
        r@ == underscores_to_spaces(chars@),
{
    let mut out: Vec<char> = Vec::new();
    let mut i: usize = 0;
    while i < chars.len()
        invariant
            i <= chars.len(),
            out@.len() == i,
            forall|j: int| 0 <= j < i ==> out@[j] == (if chars@[j] == '_' { ' ' } else { chars@[j] }),
        decreases chars.len() - i,
    {
        let c = chars[i];
        out.push(if c == '_' { ' ' } else { c });
        i = i + 1;
    }
    assert(out@ == underscores_to_spaces(chars@));
    out
}

fn find_separator(chars: &Vec<char>) -> (r: Option<usize>)
    ensures
        r matches Some(p) ==> first_separator(chars@, 0) == Some(p as int) && p < chars@.len(),
        r is None ==> first_separator(chars@, 0) is None,
{
    let mut i: usize = 0;
    while i < chars.len()
        invariant
            i <= chars.len(),
            first_separator(chars@, 0) == first_separator(chars@, i as int),
        decreases chars.len() - i,
    {
        let c = chars[i];
        if c == '.' || c == '-' || c == ' ' {
            return Some(i);
        }
        i = i + 1;
    }
    None
}

fn separators_skipped(chars: &Vec<char>, from: usize) -> (i: usize)
    requires
        from <= chars.len(),
    ensures
        from <= i <= chars.len(),
        trim_separators_start(chars@.subrange(from as int, chars.len() as int)) == chars@.subrange(
            i as int,
            chars.len() as int,
        ),
{
    let mut i = from;
    while i < chars.len() && (chars[i] == '.' || chars[i] == '-' || chars[i] == ' ')
        invariant
            from <= i <= chars.len(),
            trim_separators_start(chars@.subrange(from as int, chars.len() as int))
                == trim_separators_start(chars@.subrange(i as int, chars.len() as int)),
        decreases chars.len() - i,
    {
        assert(chars@.subrange(i as int, chars.len() as int).drop_first() == chars@.subrange(
            i + 1,
            chars.len() as int,
        ));
        i = i + 1;
    }
    i
}

fn track_number_stripped(chars: Vec<char>) -> (r: Vec<char>)
    ensures
        r@ == strip_track_number(chars@),
{
    match find_separator(&chars) {
        Some(p) => {
            let mut digits = p <= 3;
            let mut j: usize = 0;
            while digits && j < p
                invariant
                    j <= p < chars.len(),
                    digits ==> p <= 3,
                    digits ==> forall|k: int| 0 <= k < j ==> '0' <= #[trigger] chars@[k] <= '9',
                    !digits ==> !(p <= 3 && all_digits(chars@.take(p as int))),
                decreases p - j,
            {
                if chars[j] < '0' || chars[j] > '9' {
                    assert(chars@.take(p as int)[j as int] == chars@[j as int]);
                    digits = false;
                }
                j = j + 1;
            }
            if digits {
                assert forall|k: int| 0 <= k < p implies '0' <= #[trigger] chars@.take(p as int)[k] <= '9' by {
                    assert(chars@.take(p as int)[k] == chars@[k]);
                }
                assert(all_digits(chars@.take(p as int)));
                let from = separators_skipped(&chars, p + 1);
                assert(chars@.skip(p + 1) == chars@.subrange(p + 1, chars.len() as int));
                let rest = sub_chars(&chars, from, chars.len());
                let r = trim_chars(&rest);
                assert(r@ == strip_track_number(chars@));
                r
            } else {
                assert(chars@ == strip_track_number(chars@));
                chars
            }
        },
        None => chars,
    }
}

fn find_dash_index(chars: &Vec<char>) -> (r: Option<usize>)
    ensures
        r matches Some(i) ==> find_dash(chars@, 0) == Some(i as int) && i + 3 <= chars@.len(),
        r is None ==> find_dash(chars@, 0) is None,
{
    let mut i: usize = 0;
    while chars.len() >= 3 && i <= chars.len() - 3
        invariant
            i <= chars.len() || chars.len() < 3,
            find_dash(chars@, 0) == find_dash(chars@, i as int),
        decreases chars.len() - i,
    {
        if chars[i] == ' ' && chars[i + 1] == '-' && chars[i + 2] == ' ' {
            assert(chars@.subrange(i as int, i + 3) == dash());
            return Some(i);
        }
        assert(chars@.subrange(i as int, i + 3) != dash()) by {
            if chars@.subrange(i as int, i + 3) == dash() {
                assert(chars@.subrange(i as int, i + 3)[0] == chars@[i as int]);
                assert(chars@.subrange(i as int, i + 3)[1] == chars@[i + 1]);
                assert(chars@.subrange(i as int, i + 3)[2] == chars@[i + 2]);
            }
        }
        i = i + 1;
    }
    None
}

/// Parse track title and artist from a filename stem (without extension).
///
/// Handles the usual naming conventions:
/// - "Artist - Title" => (Title, Artist)
/// - "01. Artist - Title" => (Title, Artist)
/// - "01 - Title" => (Title, Unknown Artist)
/// - "Song_Name" => (Song Name, Unknown Artist)
pub fn parse_title_and_artist(file_stem: &str) -> (r: (String, String))
    ensures
        (r.0@, r.1@) == spec_title_and_artist(file_stem@),
{
    let chars = chars_of(file_stem);
    let spaced = underscores_replaced(&chars);
    let trimmed = trim_chars(&spaced);
    let clean = track_number_stripped(trimmed);

    match find_dash_index(&clean) {
        Some(i) => {
            assert(i + 3 <= clean.len());
            let before = sub_chars(&clean, 0, i);
            let after = sub_chars(&clean, i + 3, clean.len());
            assert(clean@.take(i as int) == before@);
            assert(clean@.skip(i + 3) == after@);
            let artist = trim_chars(&before);
            let title = trim_chars(&after);
            if artist.len() > 0 && title.len() > 0 {
                // By music convention "Artist - Title".
                return (string_of(&title), string_of(&artist));
            }
        },
        None => {},
    }
    (string_of(&clean), String::from_str(config::UNKNOWN_ARTIST))
}

/// `first_separator` lands on the first separator from `i` on.
proof fn lemma_first_separator_is(s: Seq<char>, i: int, p: int)
    requires
        0 <= i <= p < s.len(),
        is_number_separator(s[p]),
        forall|j: int| i <= j < p ==> !is_number_separator(#[trigger] s[j]),
    ensures
        first_separator(s, i) == Some(p),
    decreases p - i,
{
    if i < p {
        lemma_first_separator_is(s, i + 1, p);
    }
}

/// Leading separators come off and nothing more.
proof fn lemma_separators_come_off(seps: Seq<char>, rest: Seq<char>)
    requires
        forall|j: int| 0 <= j < seps.len() ==> is_number_separator(#[trigger] seps[j]),
        rest.len() > 0 ==> !is_number_separator(rest[0]),
    ensures
        trim_separators_start(seps + rest) == rest,
    decreases seps.len(),
{
    if seps.len() > 0 {
        assert((seps + rest).drop_first() == seps.drop_first() + rest);
        lemma_separators_come_off(seps.drop_first(), rest);
    } else {
        assert(seps + rest == rest);
    }
}

/// Text that starts and ends with something other than whitespace is its
/// own trim.
proof fn lemma_trim_keeps(s: Seq<char>)
    requires
        s.len() > 0,
        !spec_is_whitespace(s[0]),
        !spec_is_whitespace(s.last()),
    ensures
        spec_trim(s) == s,
{
}

/// Text with no ` - ` in it has no dash to split at.
proof fn lemma_no_dash(s: Seq<char>, i: int)
    requires
        0 <= i,
        forall|j: int| 0 <= j && j + 3 <= s.len() ==> #[trigger] s.subrange(j, j + 3) != dash(),
    ensures
        find_dash(s, i) is None,
    decreases s.len() - i,
{
    if i + 3 <= s.len() {
        lemma_no_dash(s, i + 1);
    }
}

/// A leading track number comes off cleanly: a stem made of one to three
/// digits, a run of `.`, `-` or space, and a title (no underscore, no
/// ` - `, starting with neither a separator nor whitespace and not ending
/// in whitespace) names exactly that title, by an unknown artist.
pub proof fn lemma_track_number_comes_off(digits: Seq<char>, seps: Seq<char>, title: Seq<char>)
    requires
        1 <= digits.len() <= 3,
        forall|j: int| 0 <= j < digits.len() ==> '0' <= #[trigger] digits[j] <= '9',
        seps.len() >= 1,
        forall|j: int| 0 <= j < seps.len() ==> is_number_separator(#[trigger] seps[j]),
        title.len() > 0,
        !is_number_separator(title[0]),
        !spec_is_whitespace(title[0]),
        !spec_is_whitespace(title.last()),
        forall|j: int| 0 <= j < title.len() ==> #[trigger] title[j] != '_',
        forall|j: int| 0 <= j && j + 3 <= title.len() ==> #[trigger] title.subrange(j, j + 3) != dash(),
    ensures
        spec_title_and_artist(digits + seps + title) == (title, config::UNKNOWN_ARTIST@),
{
    let stem = digits + seps + title;
    let p = digits.len() as int;
    assert forall|j: int| 0 <= j < stem.len() implies #[trigger] stem[j] != '_' by {
        if j < p {
            assert(stem[j] == digits[j]);
        } else if j < p + seps.len() {
            assert(stem[j] == seps[j - p]);
        } else {
            assert(stem[j] == title[j - p - seps.len()]);
        }
    }
    assert(underscores_to_spaces(stem) =~= stem);
    assert(stem[0] == digits[0]);
    assert(stem.last() == title.last());
    lemma_trim_keeps(stem);
    assert forall|j: int| 0 <= j < p implies !is_number_separator(#[trigger] stem[j]) by {
        assert(stem[j] == digits[j]);
    }
    assert(stem[p] == seps[0]);
    lemma_first_separator_is(stem, 0, p);
    assert(stem.take(p) =~= digits);
    assert(stem.skip(p + 1) =~= seps.drop_first() + title);
    lemma_separators_come_off(seps.drop_first(), title);
    lemma_trim_keeps(title);
    assert(strip_track_number(stem) == title);
    lemma_no_dash(title, 0);
}

/// `find_dash` lands on the first ` - ` from `i` on.
proof fn lemma_find_dash_is(s: Seq<char>, i: int, p: int)
    requires
        0 <= i <= p,
        p + 3 <= s.len(),
        s.subrange(p, p + 3) == dash(),
        forall|j: int| i <= j < p ==> #[trigger] s.subrange(j, j + 3) != dash(),
    ensures
        find_dash(s, i) == Some(p),
    decreases p - i,
{
    if i < p {
        lemma_find_dash_is(s, i + 1, p);
    }
}

/// `Artist - Title` names the title and the artist: a stem made of an
/// artist (no ` - ` in it, not ending in `-`, starting with neither a digit
/// nor a separator), ` - ` and a title, neither with an underscore nor with
/// whitespace at either end, is that title by that artist.
pub proof fn lemma_artist_dash_title(artist: Seq<char>, title: Seq<char>)
    requires
        artist.len() > 0,
        title.len() > 0,
        !('0' <= artist[0] <= '9'),
        !is_number_separator(artist[0]),
        !spec_is_whitespace(artist[0]),
        !spec_is_whitespace(artist.last()),
        artist.last() != '-',
        !spec_is_whitespace(title[0]),
        !spec_is_whitespace(title.last()),
        forall|j: int| 0 <= j < artist.len() ==> #[trigger] artist[j] != '_',
        forall|j: int| 0 <= j < title.len() ==> #[trigger] title[j] != '_',
        forall|j: int| 0 <= j && j + 3 <= artist.len() ==> #[trigger] artist.subrange(j, j + 3) != dash(),
    ensures
        spec_title_and_artist(artist + dash() + title) == (title, artist),
{
    let stem = artist + dash() + title;
    let a = artist.len() as int;
    assert forall|j: int| 0 <= j < stem.len() implies #[trigger] stem[j] != '_' by {
        if j < a {
            assert(stem[j] == artist[j]);
        } else if j >= a + 3 {
            assert(stem[j] == title[j - a - 3]);
        }
    }
    assert(underscores_to_spaces(stem) =~= stem);
    assert(stem[0] == artist[0]);
    assert(stem.last() == title.last());
    lemma_trim_keeps(stem);
    match first_separator(stem, 0) {
        Some(p) => {
            lemma_first_separator_found(stem, 0);
            assert(p != 0);
            assert(stem.take(p)[0] == stem[0]);
            assert(!all_digits(stem.take(p)));
        },
        None => {},
    }
    assert(strip_track_number(stem) == stem);
    assert forall|j: int| 0 <= j < a implies #[trigger] stem.subrange(j, j + 3) != dash() by {
        if j + 3 <= a {
            assert(stem.subrange(j, j + 3) == artist.subrange(j, j + 3));
        } else if j == a - 2 {
            assert(stem.subrange(j, j + 3)[1] == artist.last());
        } else {
            assert(stem.subrange(j, j + 3)[0] == artist.last());
        }
    }
    assert(stem.subrange(a, a + 3) =~= dash());
    lemma_find_dash_is(stem, 0, a);
    assert(stem.take(a) =~= artist);
    assert(stem.skip(a + 3) =~= title);
    lemma_trim_keeps(artist);
    lemma_trim_keeps(title);
}

/// Where `first_separator` lands, it found a separator at or after `i`.
proof fn lemma_first_separator_found(s: Seq<char>, i: int)
    ensures
        first_separator(s, i) matches Some(p) ==> i <= p < s.len() && 0 <= p && is_number_separator(s[p]),
    decreases s.len() - i,
{
    if 0 <= i < s.len() && !is_number_separator(s[i]) {
        lemma_first_separator_found(s, i + 1);
    }
}

// ── Which files are songs ──────────────────────────────────────────────

/// The extensions of the audio formats the player opens.
pub open spec fn is_audio_name(e: Seq<char>) -> bool {
    ||| e == "mp3"@
    ||| e == "wav"@
    ||| e == "ogg"@
    ||| e == "flac"@
    ||| e == "m4a"@
    ||| e == "aac"@
}

/// Whether a lower-case extension is one of the audio formats.
pub fn is_audio_lower(e: &str) -> (r: bool)
    ensures
        r == is_audio_name(e@),
{
    same_text(e, "mp3") || same_text(e, "wav") || same_text(e, "ogg") || same_text(e, "flac")
        || same_text(e, "m4a") || same_text(e, "aac")
}

/// Whether a file with extension `ext` is audio, whatever its case.
pub fn is_audio_extension(ext: &str) -> (r: bool)
    ensures
        r == is_audio_name(spec_str_to_lowercase(ext@)),
{
    let lower = str_to_lowercase(ext);
    is_audio_lower(lower.as_str())
}

/// A character that a track id spells as a dash.
pub open spec fn id_dash(c: char) -> bool {
    c == ' ' || c == '_' || c == '.'
}

/// `s` with spaces, underscores and dots turned into dashes.
pub open spec fn dashed(s: Seq<char>) -> Seq<char> {
    s.map_values(|c: char| if id_dash(c) { '-' } else { c })
}

/// The id of a track found on disk: its stem in lower case, with spaces,
/// underscores and dots turned into dashes.
pub open spec fn spec_track_id(stem: Seq<char>) -> Seq<char> {
    dashed(spec_str_to_lowercase(stem))
}

/// An id keeps the lower-cased stem character for character, except that
/// spaces, underscores and dots all become dashes: none of them is left.
pub proof fn lemma_id_has_dashes_for_gaps(stem: Seq<char>)
    ensures
        ({
            let low = spec_str_to_lowercase(stem);
            let id = spec_track_id(stem);
            &&& id.len() == low.len()
            &&& forall|i: int| 0 <= i < id.len() ==> #[trigger] id[i] != ' ' && id[i] != '_' && id[i] != '.'
            &&& forall|i: int|
                0 <= i < id.len() ==> (#[trigger] low[i] == ' ' || low[i] == '_' || low[i] == '.' ==> id[i] == '-')
            &&& forall|i: int|
                0 <= i < id.len() ==> (!(low[i] == ' ' || low[i] == '_' || low[i] == '.') ==> #[trigger] id[i]
                    == low[i])
        }),
{
}

/// The id of a track found on disk.
pub fn track_id(stem: &str) -> (r: String)
    ensures
        r@ == spec_track_id(stem@),
{
    let lower = str_to_lowercase(stem);
    dashed_id(lower.as_str())
}

/// A lower-case stem made into an id: spaces, underscores and dots become
/// dashes.
pub fn dashed_id(lower: &str) -> (r: String)
    ensures
        r@ == dashed(lower@),
{
    let chars = chars_of(lower);
    let mut out: Vec<char> = Vec::new();
    let mut i: usize = 0;
    while i < chars.len()
        invariant
            i <= chars.len(),
            out@.len() == i,
            forall|j: int| 0 <= j < i ==> out@[j] == (if id_dash(chars@[j]) { '-' } else { chars@[j] }),
        decreases chars.len() - i,
    {
        let c = chars[i];
        out.push(if c == ' ' || c == '_' || c == '.' { '-' } else { c });
        i = i + 1;
    }
    assert(out@ == dashed(lower@));
    string_of(&out)
}

/// What `std::path::Path::file_name` gives for a path: its final component,
/// or nothing when the path ends in `..` or is a root.
pub uninterp spec fn spec_path_file_name(path: Seq<char>) -> Option<Seq<char>>;

/// `std::path::Path::file_name`: the final component of `path`, if there is
/// one.
#[verifier::external_body]
fn path_file_name(path: &str) -> (r: Option<String>)
    ensures
        r matches Some(n) ==> spec_path_file_name(path@) == Some(n@),
        r is None ==> spec_path_file_name(path@) is None,
{
    std::path::Path::new(path).file_name().and_then(|f| f.to_str()).map(|f| f.to_string())
}

/// Whether a track listed in a folder's manifest is the file `file_name`,
/// given `name`, the final component of its audio path: the audio path is
/// the file name itself or ends in it.
pub open spec fn names_file_with(t: TrackView, name: Option<Seq<char>>, file_name: Seq<char>) -> bool {
    t.audio == file_name || name == Some(file_name)
}

/// Whether a track listed in a folder's manifest is the file `file_name`.
pub open spec fn names_file(t: TrackView, file_name: Seq<char>) -> bool {
    names_file_with(t, spec_path_file_name(t.audio), file_name)
}

/// Index of the first manifest entry from `i` on that names `file_name`,
/// with `names[k]` the final component of entry `k`'s audio path.
pub open spec fn first_naming_with(
    listed: Seq<TrackView>,
    names: Seq<Option<Seq<char>>>,
    file_name: Seq<char>,
    i: int,
) -> Option<int>
    decreases listed.len() - i,
{
    if i < 0 || i >= listed.len() {
        None
    } else if names_file_with(listed[i], names[i], file_name) {
        Some(i)
    } else {
        first_naming_with(listed, names, file_name, i + 1)
    }
}

/// Index of the first manifest entry from `i` on that names `file_name`.
pub open spec fn first_naming(listed: Seq<TrackView>, file_name: Seq<char>, i: int) -> Option<int>
    decreases listed.len() - i,
{
    if i < 0 || i >= listed.len() {
        None
    } else if names_file(listed[i], file_name) {
        Some(i)
    } else {
        first_naming(listed, file_name, i + 1)
    }
}

/// The tracks of `v`, as plain values.
pub open spec fn tracks_view(v: Seq<Track>) -> Seq<TrackView> {
    v.map_values(|t: Track| t@)
}

/// The optional names of `v`, as plain values.
pub open spec fn names_view(v: Seq<Option<String>>) -> Seq<Option<Seq<char>>> {
    v.map_values(|n: Option<String>| match n {
        Some(s) => Some(s@),
        None => None,
    })
}

/// The manifest entry for the file `file_name`, given the final component
/// of each entry's audio path.
pub fn first_listed(listed: &Vec<Track>, names: &Vec<Option<String>>, file_name: &str) -> (r: Option<usize>)
    requires
        names@.len() == listed@.len(),
    ensures
        r matches Some(i) ==> first_naming_with(tracks_view(listed@), names_view(names@), file_name@, 0)
            == Some(i as int),
        r is None ==> first_naming_with(tracks_view(listed@), names_view(names@), file_name@, 0) is None,
{
    let ghost v = tracks_view(listed@);
    let ghost nv = names_view(names@);
    let mut i: usize = 0;
    while i < listed.len()
        invariant
            i <= listed.len(),
            names@.len() == listed@.len(),
            v == tracks_view(listed@),
            nv == names_view(names@),
            first_naming_with(v, nv, file_name@, 0) == first_naming_with(v, nv, file_name@, i as int),
        decreases listed.len() - i,
    {
        let named = if same_text(listed[i].audio.as_str(), file_name) {
            true
        } else {
            match &names[i] {
                Some(n) => same_text(n.as_str(), file_name),
                None => false,
            }
        };
        if named {
            return Some(i);
        }
        i = i + 1;
    }
    None
}

/// Naming by the computed final components is naming by the paths.
proof fn lemma_first_naming_with_names(listed: Seq<TrackView>, names: Seq<Option<Seq<char>>>, file_name: Seq<char>, i: int)
    requires
        names.len() == listed.len(),
        forall|k: int| 0 <= k < listed.len() ==> #[trigger] names[k] == spec_path_file_name(listed[k].audio),
    ensures
        first_naming_with(listed, names, file_name, i) == first_naming(listed, file_name, i),
    decreases listed.len() - i,
{
    if 0 <= i < listed.len() {
        lemma_first_naming_with_names(listed, names, file_name, i + 1);
    }
}

/// The manifest entry for the file `file_name`, if a folder's manifest lists
/// one.
pub fn find_listed(listed: &Vec<Track>, file_name: &str) -> (r: Option<usize>)
    ensures
        r matches Some(i) ==> first_naming(tracks_view(listed@), file_name@, 0) == Some(i as int),
        r is None ==> first_naming(tracks_view(listed@), file_name@, 0) is None,
{
    let ghost v = tracks_view(listed@);
    let mut names: Vec<Option<String>> = Vec::new();
    let mut i: usize = 0;
    while i < listed.len()
        invariant
            i <= listed.len(),
            v == tracks_view(listed@),
            names@.len() == i,
            forall|k: int| 0 <= k < i ==> #[trigger] names_view(names@)[k] == spec_path_file_name(v[k].audio),
        decreases listed.len() - i,
    {
        let name = path_file_name(listed[i].audio.as_str());
        let ghost before = names@;
        names.push(name);
        proof {
            assert forall|k: int| 0 <= k <= i implies #[trigger] names_view(names@)[k] == spec_path_file_name(v[k].audio) by {
                if k < i {
                    assert(names@[k] == before[k]);
                    assert(names_view(before)[k] == spec_path_file_name(v[k].audio));
                } else {
                    assert(names@[k] == name);
                    assert(v[k].audio == listed@[k].audio@);
                    match name {
                        Some(n) => assert(names_view(names@)[k] == Some(n@)),
                        None => assert(names_view(names@)[k] is None),
                    }
                }
            }
        }
        i = i + 1;
    }
    proof {
        lemma_first_naming_with_names(v, names_view(names@), file_name@, 0);
    }
    first_listed(listed, &names, file_name)
}

/// The track for an audio file: named by the folder's manifest when it lists
/// the file, otherwise after the file's stem.
pub open spec fn spec_track_for_file(
    stem: Seq<char>,
    path: Seq<char>,
    listed: Option<TrackView>,
    lyrics: Seq<char>,
) -> TrackView {
    match listed {
        Some(t) => TrackView { id: t.id, title: t.title, artist: t.artist, audio: path, lyrics },
        None => TrackView {
            id: spec_track_id(stem),
            title: spec_title_and_artist(stem).0,
            artist: spec_title_and_artist(stem).1,
            audio: path,
            lyrics,
        },
    }
}

/// A file the manifest lists keeps the manifest's id, title and artist; any
/// other file is named after its stem (its id, and the title and artist the
/// stem spells). Either way the track plays the file found and shows the
/// lyric file found beside it.
pub proof fn lemma_track_named_by_manifest_or_stem(
    stem: Seq<char>,
    path: Seq<char>,
    listed: Option<TrackView>,
    lyrics: Seq<char>,
)
    ensures
        spec_track_for_file(stem, path, listed, lyrics).audio == path,
        spec_track_for_file(stem, path, listed, lyrics).lyrics == lyrics,
        listed matches Some(t) ==> {
            let r = spec_track_for_file(stem, path, listed, lyrics);
            r.id == t.id && r.title == t.title && r.artist == t.artist
        },
        listed is None ==> {
            let r = spec_track_for_file(stem, path, listed, lyrics);
            &&& r.id == spec_track_id(stem)
            &&& (r.title, r.artist) == spec_title_and_artist(stem)
        },
{
}

/// The track for an audio file at `path` whose stem is `stem`, with `lyrics`
/// the lyric file found beside it (empty when there is none).
pub fn track_for_file(stem: &str, path: String, listed: Option<&Track>, lyrics: String) -> (r: Track)
    ensures
        r@ == spec_track_for_file(
            stem@,
            path@,
            match listed {
                Some(t) => Some(t@),
                None => None,
            },
            lyrics@,
        ),
{
    match listed {
        Some(t) => Track {
            id: t.id.clone(),
            title: t.title.clone(),
            artist: t.artist.clone(),
            audio: path,
            lyrics,
        },
        None => {
            let (title, artist) = parse_title_and_artist(stem);
            Track { id: track_id(stem), title, artist, audio: path, lyrics }
        },
    }
}

/// Which lyric file goes with an audio file.
#[derive(Clone, Copy, Debug, PartialEq, Eq, Structural)]
pub enum LyricsFile {
    /// The one the folder's manifest names for it.
    Listed,
    /// `<stem>.json` beside it.
    Json,
    /// `<stem>.lrc` beside it.
    Lrc,
    /// None.
    Missing,
}

/// The lyric file for an audio file. A file the manifest lists gets the
/// lyric file the manifest names, when it names one that exists, and none
/// otherwise; an unlisted file gets `<stem>.json`, failing that
/// `<stem>.lrc`, when one of them exists.
pub open spec fn spec_choose_lyrics(
    listed_lyrics: Option<Seq<char>>,
    listed_exists: bool,
    json_exists: bool,
    lrc_exists: bool,
) -> LyricsFile {
    match listed_lyrics {
        Some(l) => if l.len() > 0 && listed_exists {
            LyricsFile::Listed
        } else {
            LyricsFile::Missing
        },
        None => if json_exists {
            LyricsFile::Json
        } else if lrc_exists {
            LyricsFile::Lrc
        } else {
            LyricsFile::Missing
        },
    }
}

/// Choose the lyric file for an audio file: `listed_lyrics` is the lyric
/// path of the manifest entry that lists it, if one does, and the flags say
/// which of the candidate files exist.
pub fn choose_lyrics(
    listed_lyrics: Option<&str>,
    listed_exists: bool,
    json_exists: bool,
    lrc_exists: bool,
) -> (r: LyricsFile)
    ensures
        r == spec_choose_lyrics(
            match listed_lyrics {
                Some(l) => Some(l@),
                None => None,
            },
            listed_exists,
            json_exists,
            lrc_exists,
        ),
{
    match listed_lyrics {
        Some(l) => if !l.is_empty() && listed_exists {
            LyricsFile::Listed
        } else {
            LyricsFile::Missing
        },
        None => if json_exists {
            LyricsFile::Json
        } else if lrc_exists {
            LyricsFile::Lrc
        } else {
            LyricsFile::Missing
        },
    }
}

// ── Putting the library in order ───────────────────────────────────────

/// `a` comes no later than `b` in the order of `String`'s `Ord`: character by
/// character by code point, a prefix first.
pub open spec fn title_le(a: Seq<char>, b: Seq<char>) -> bool
    decreases a.len(),
{
    if a.len() == 0 {
        true
    } else if b.len() == 0 {
        false
    } else if a[0] != b[0] {
        (a[0] as int) < (b[0] as int)
    } else {
        title_le(a.drop_first(), b.drop_first())
    }
}

/// Any two titles are ordered one way or the other.
pub proof fn lemma_title_le_total(a: Seq<char>, b: Seq<char>)
    ensures
        title_le(a, b) || title_le(b, a),
    decreases a.len(),
{
    if a.len() > 0 && b.len() > 0 && a[0] == b[0] {
        lemma_title_le_total(a.drop_first(), b.drop_first());
    }
}

/// Whether `a` sorts strictly before `b`.
fn title_lt(a: &str, b: &str) -> (r: bool)
    ensures
        r == !title_le(b@, a@),
{
    let x = chars_of(a);
    let y = chars_of(b);
    let mut i: usize = 0;
    assert(x@.skip(0) == x@);
    assert(y@.skip(0) == y@);
    while i < x.len() && i < y.len()
        invariant
            i <= x.len(),
            i <= y.len(),
            x@ == a@,
            y@ == b@,
            title_le(b@, a@) == title_le(y@.skip(i as int), x@.skip(i as int)),
        decreases x.len() - i,
    {
        if x[i] != y[i] {
            return x[i] < y[i];
        }
        assert(y@.skip(i as int).drop_first() == y@.skip(i + 1));
        assert(x@.skip(i as int).drop_first() == x@.skip(i + 1));
        i = i + 1;
    }
    // One is a prefix of the other: the shorter sorts first.
    i < y.len()
}

/// Neighbouring tracks are in title order.
pub open spec fn titles_sorted(v: Seq<TrackView>) -> bool {
    forall|i: int| 0 <= i < v.len() - 1 ==> title_le(#[trigger] v[i].title, v[i + 1].title)
}

/// `out` is `input` reordered by the positions `p`: each track of `out` came
/// from `input[p[i]]`, no position is used twice, and tracks with the same
/// title keep the order they came in.
pub open spec fn stable_reorder(input: Seq<TrackView>, out: Seq<TrackView>, p: Seq<int>) -> bool {
    &&& p.len() == out.len()
    &&& out.len() == input.len()
    &&& forall|i: int| 0 <= i < p.len() ==> 0 <= #[trigger] p[i] < input.len()
    &&& forall|i: int| 0 <= i < p.len() ==> out[i] == input[#[trigger] p[i]]
    &&& forall|i: int, j: int| 0 <= i < j < p.len() ==> #[trigger] p[i] != #[trigger] p[j]
    &&& forall|i: int|
        0 <= i < out.len() - 1 && #[trigger] out[i].title == out[i + 1].title ==> p[i] < p[i + 1]
}

/// Sort tracks by title, keeping tracks with the same title in the order they
/// came in.
pub fn sort_by_title(tracks: Vec<Track>) -> (out: Vec<Track>)
    ensures
        titles_sorted(tracks_view(out@)),
        exists|p: Seq<int>| stable_reorder(tracks_view(tracks@), tracks_view(out@), p),
{
    let ghost input = tracks_view(tracks@);
    let ghost mut p: Seq<int> = Seq::empty();
    let mut out: Vec<Track> = Vec::new();
    for t in it: tracks
        invariant
            it.seq() == tracks@,
            input == tracks_view(tracks@),
            p.len() == out@.len(),
            out@.len() == it.index(),
            titles_sorted(tracks_view(out@)),
            forall|i: int| 0 <= i < p.len() ==> 0 <= #[trigger] p[i] < it.index(),
            forall|i: int| 0 <= i < p.len() ==> out@[i]@ == input[#[trigger] p[i]],
            forall|i: int, j: int| 0 <= i < j < p.len() ==> #[trigger] p[i] != #[trigger] p[j],
            forall|i: int|
                0 <= i < out@.len() - 1 && #[trigger] out@[i]@.title == out@[i + 1]@.title ==> p[i]
                    < p[i + 1],
    {
        let ghost n = it.index();
        let ghost before = out@;
        let mut k = out.len();
        while k > 0 && title_lt(t.title.as_str(), out[k - 1].title.as_str())
            invariant
                k <= out@.len(),
                out@ == before,
                forall|j: int| k <= j < out@.len() ==> !title_le(#[trigger] out@[j]@.title, t@.title),
            decreases k,
        {
            k = k - 1;
        }
        proof {
            if k > 0 {
                lemma_title_le_total(t@.title, out@[k - 1]@.title);
            }
            if k < out@.len() {
                lemma_title_le_total(t@.title, out@[k as int]@.title);
            }
        }
        let ghost tv = t@;
        out.insert(k, t);
        proof {
            p = p.insert(k as int, n);
            assert(out@ == before.insert(k as int, out@[k as int]));
            assert(out@[k as int]@ == tv);
            assert(input[n] == tv);
            assert forall|i: int| 0 <= i < tracks_view(out@).len() - 1 implies title_le(
                #[trigger] tracks_view(out@)[i].title,
                tracks_view(out@)[i + 1].title,
            ) by {
                if i < k - 1 {
                    assert(tracks_view(out@)[i] == before[i]@);
                    assert(tracks_view(out@)[i + 1] == before[i + 1]@);
                    assert(title_le(tracks_view(before)[i].title, tracks_view(before)[i + 1].title));
                } else if i == k - 1 {
                } else if i == k {
                } else {
                    assert(tracks_view(out@)[i] == before[i - 1]@);
                    assert(tracks_view(out@)[i + 1] == before[i]@);
                    assert(title_le(tracks_view(before)[i - 1].title, tracks_view(before)[i].title));
                }
            }
        }
    }
    proof {
        assert(stable_reorder(input, tracks_view(out@), p));
    }
    out
}

// ── Folders that overlap ───────────────────────────────────────────────

/// Whether `keys[i]` has not appeared before position `i`.
pub open spec fn is_first_occurrence(keys: Seq<Seq<char>>, i: int) -> bool {
    forall|j: int| 0 <= j < i ==> keys[j] != keys[i]
}

/// The tracks among the first `n` whose key appears there for the first time.
pub open spec fn first_of_each(tracks: Seq<TrackView>, keys: Seq<Seq<char>>, n: nat) -> Seq<TrackView>
    decreases n,
{
    if n == 0 {
        Seq::empty()
    } else {
        first_of_each(tracks, keys, (n - 1) as nat) + if is_first_occurrence(keys, n - 1) {
            seq![tracks[n - 1]]
        } else {
            Seq::empty()
        }
    }
}

/// The strings of `v`, as plain values.
pub open spec fn strings_view(v: Seq<String>) -> Seq<Seq<char>> {
    v.map_values(|s: String| s@)
}

/// Keep each track whose key (the file it plays, resolved on disk) has not
/// been seen before, so a folder reachable twice does not list its songs
/// twice.
pub fn first_of_each_file(tracks: Vec<Track>, keys: &Vec<String>) -> (out: Vec<Track>)
    requires
        keys@.len() == tracks@.len(),
    ensures
        tracks_view(out@) == first_of_each(tracks_view(tracks@), strings_view(keys@), tracks@.len()),
{
    let ghost tv = tracks_view(tracks@);
    let ghost kv = strings_view(keys@);
    let mut out: Vec<Track> = Vec::new();
    let mut i: usize = 0;
    for t in it: tracks
        invariant
            it.seq() == tracks@,
            tv == tracks_view(tracks@),
            kv == strings_view(keys@),
            keys@.len() == tracks@.len(),
            i == it.index(),
            tracks_view(out@) == first_of_each(tv, kv, i as nat),
    {
        let mut seen = false;
        let mut j: usize = 0;
        while j < i
            invariant
                j <= i < keys@.len(),
                kv == strings_view(keys@),
                seen == exists|m: int| 0 <= m < j && kv[m] == kv[i as int],
            decreases i - j,
        {
            if same_text(keys[j].as_str(), keys[i].as_str()) {
                seen = true;
                assert(kv[j as int] == kv[i as int]);
            }
            j = j + 1;
        }
        assert(i < keys.len());
        let ghost before = tracks_view(out@);
        if !seen {
            out.push(t);
        }
        proof {
            assert(first_of_each(tv, kv, (i + 1) as nat) == first_of_each(tv, kv, i as nat) + if is_first_occurrence(kv, i as int) {
                seq![tv[i as int]]
            } else {
                Seq::empty()
            });
            assert(tracks_view(out@) == first_of_each(tv, kv, (i + 1) as nat));
        }
        i = i + 1;
    }
    out
}

/// The positions among the first `n` keys where a key appears for the first
/// time, in order.
pub open spec fn first_positions(keys: Seq<Seq<char>>, n: nat) -> Seq<int>
    decreases n,
{
    if n == 0 {
        Seq::empty()
    } else {
        first_positions(keys, (n - 1) as nat) + if is_first_occurrence(keys, n - 1) {
            seq![n - 1]
        } else {
            Seq::empty()
        }
    }
}

/// Every position `first_positions` picks lies below `n`.
proof fn lemma_first_positions_bounded(keys: Seq<Seq<char>>, n: nat)
    ensures
        forall|a: int| 0 <= a < first_positions(keys, n).len() ==> 0 <= #[trigger] first_positions(keys, n)[a] < n,
    decreases n,
{
    if n > 0 {
        let m = (n - 1) as nat;
        lemma_first_positions_bounded(keys, m);
        let q = first_positions(keys, m);
        let p = first_positions(keys, n);
        assert forall|a: int| 0 <= a < p.len() implies 0 <= #[trigger] p[a] < n by {
            if a < q.len() {
                assert(p[a] == q[a]);
            }
        }
    }
}

/// Some picked position at or before `i` holds the key at `i`.
pub open spec fn picked_at_or_before(keys: Seq<Seq<char>>, p: Seq<int>, i: int) -> bool {
    exists|a: int| 0 <= a < p.len() && #[trigger] p[a] <= i && keys[p[a]] == keys[i]
}

/// One entry per key: among the first `n` keys, the picked positions rise
/// (so the order of the list is kept), no two of them hold the same key, and
/// every key there is held by a picked position at or before its own.
pub proof fn lemma_one_entry_per_key(keys: Seq<Seq<char>>, n: nat)
    requires
        n <= keys.len(),
    ensures
        ({
            let p = first_positions(keys, n);
            &&& forall|a: int| 0 <= a < p.len() ==> 0 <= #[trigger] p[a] < n
            &&& forall|a: int, b: int| 0 <= a < b < p.len() ==> #[trigger] p[a] < #[trigger] p[b]
            &&& forall|a: int, b: int| 0 <= a < b < p.len() ==> keys[#[trigger] p[a]] != keys[#[trigger] p[b]]
            &&& forall|i: int| 0 <= i < n ==> #[trigger] picked_at_or_before(keys, p, i)
        }),
    decreases n,
{
    lemma_first_positions_bounded(keys, n);
    if n > 0 {
        let m = (n - 1) as nat;
        lemma_one_entry_per_key(keys, m);
        lemma_first_positions_bounded(keys, m);
        let q = first_positions(keys, m);
        let p = first_positions(keys, n);
        if is_first_occurrence(keys, m as int) {
            assert(p == q.push(m as int));
            assert forall|a: int, b: int| 0 <= a < b < p.len() implies keys[#[trigger] p[a]] != keys[#[trigger] p[b]] by {
                if b == p.len() - 1 {
                    assert(p[a] == q[a]);
                    assert(0 <= q[a] < m);
                } else {
                    assert(p[a] == q[a] && p[b] == q[b]);
                }
            }
            assert forall|a: int, b: int| 0 <= a < b < p.len() implies #[trigger] p[a] < #[trigger] p[b] by {
                if b == p.len() - 1 {
                    assert(p[a] == q[a]);
                } else {
                    assert(p[a] == q[a] && p[b] == q[b]);
                }
            }
            assert forall|i: int| 0 <= i < n implies #[trigger] picked_at_or_before(keys, p, i) by {
                if i == m {
                    assert(p[p.len() - 1] == m);
                } else {
                    assert(picked_at_or_before(keys, q, i));
                    let a = choose|a: int| 0 <= a < q.len() && #[trigger] q[a] <= i && keys[q[a]] == keys[i];
                    assert(p[a] == q[a]);
                }
            }
        } else {
            assert(p == q);
            assert forall|i: int| 0 <= i < n implies #[trigger] picked_at_or_before(keys, p, i) by {
                if i == m {
                    let j = choose|j: int| 0 <= j < m && keys[j] == keys[m as int];
                    assert(picked_at_or_before(keys, q, j));
                    let a = choose|a: int| 0 <= a < q.len() && #[trigger] q[a] <= j && keys[q[a]] == keys[j];
                    assert(q[a] <= i);
                } else {
                    assert(picked_at_or_before(keys, q, i));
                }
            }
        }
    }
}

/// Keeping the first track for each key keeps exactly the tracks at the
/// positions where a key first appears, in order.
pub proof fn lemma_first_of_each_keeps_first_positions(tracks: Seq<TrackView>, keys: Seq<Seq<char>>, n: nat)
    ensures
        first_of_each(tracks, keys, n) == first_positions(keys, n).map_values(|p: int| tracks[p]),
    decreases n,
{
    if n > 0 {
        lemma_first_of_each_keeps_first_positions(tracks, keys, (n - 1) as nat);
        let q = first_positions(keys, (n - 1) as nat);
        if is_first_occurrence(keys, n - 1) {
            assert(first_positions(keys, n).map_values(|p: int| tracks[p]) =~= q.map_values(|p: int| tracks[p])
                + seq![tracks[n - 1]]);
        } else {
            assert(first_positions(keys, n) =~= q);
        }
    } else {
        assert(first_positions(keys, 0).map_values(|p: int| tracks[p]) =~= Seq::<TrackView>::empty());
    }
}

/// The positions of the keys that appear there for the first time, in
/// order, so a list can keep one entry per key.
pub fn first_occurrences(keys: &Vec<String>) -> (r: Vec<usize>)
    ensures
        r@.map_values(|k: usize| k as int) == first_positions(strings_view(keys@), keys@.len()),
{
    let ghost kv = strings_view(keys@);
    let mut out: Vec<usize> = Vec::new();
    let mut i: usize = 0;
    while i < keys.len()
        invariant
            i <= keys.len(),
            kv == strings_view(keys@),
            out@.map_values(|k: usize| k as int) == first_positions(kv, i as nat),
        decreases keys.len() - i,
    {
        let mut seen = false;
        let mut j: usize = 0;
        while j < i
            invariant
                j <= i < keys@.len(),
                kv == strings_view(keys@),
                seen == exists|m: int| 0 <= m < j && kv[m] == kv[i as int],
            decreases i - j,
        {
            if same_text(keys[j].as_str(), keys[i].as_str()) {
                seen = true;
                assert(kv[j as int] == kv[i as int]);
            }
            j = j + 1;
        }
        let ghost before = out@;
        if !seen {
            out.push(i);
        }
        proof {
            assert(out@.map_values(|k: usize| k as int) == first_positions(kv, (i + 1) as nat)) by {
                if !seen {
                    assert(out@.map_values(|k: usize| k as int) == before.map_values(|k: usize| k as int).push(i as int));
                } else {
                    assert(out@ == before);
                }
            }
        }
        i = i + 1;
    }
    out
}

} // verus!
