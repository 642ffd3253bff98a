//! Verified string utilities: first-word extraction, joining names with
//! spaces, picking the longer of two strings, filtering a list of strings by
//! a substring, and counting grapheme clusters through an outside
//! segmentation crate.

use vstd::prelude::*;
use vstd::string::StrSliceExecFns;
use vstd::string::StringExecFns;
use crate::grep::contains_str;
use crate::grep::line_matches;
use crate::grep::lines_of;
use crate::grep::spec_lines;
use crate::grep::views_of;

verus! {

/// The views of a sequence of strings.
pub open spec fn string_views(strings: Seq<String>) -> Seq<Seq<char>> {
    strings.map_values(|s: String| s@)
}

// ---------------------------------------------------------------------------
// First words
// ---------------------------------------------------------------------------

/// Index of the first space at or after `from`, or `s.len()` if there is
/// none.
pub open spec fn space_index_from(s: Seq<char>, from: int) -> int
    decreases s.len() - from,
{
    if from < 0 || from >= s.len() {
        s.len() as int
    } else if s[from] == ' ' {
        from
    } else {
        space_index_from(s, from + 1)
    }
}

proof fn lemma_space_index_from_bounds(s: Seq<char>, from: int)
    requires
        0 <= from <= s.len(),
    ensures
        from <= space_index_from(s, from) <= s.len(),
    decreases s.len() - from,
{
    if from < s.len() && s[from] != ' ' {
        lemma_space_index_from_bounds(s, from + 1);
    }
}

proof fn lemma_space_index_from_is(s: Seq<char>, from: int, j: int)
    requires
        0 <= from <= j <= s.len(),
        forall|k: int| from <= k < j ==> s[k] != ' ',
        j == s.len() || s[j] == ' ',
    ensures
        space_index_from(s, from) == j,
    decreases j - from,
{
    if from < j {
        lemma_space_index_from_is(s, from + 1, j);
    }
}

/// The length of the first word: the index of the first space, or the whole
/// length if there is none.
pub fn first_word(s: &String) -> (n: usize)
    ensures
        n == space_index_from(s@, 0),
{
    proof {
        lemma_space_index_from_bounds(s@, 0);
    }
    first_word_advanced(s.as_str()).unicode_len()
}

/// The first word of `s` as a slice of it.
pub fn first_word_slice(s: &String) -> (w: &str)
    ensures
        w@ == s@.subrange(0, space_index_from(s@, 0)),
{
    first_word_advanced(s.as_str())
}

/// The first word of a string slice: everything before the first space.
pub fn first_word_advanced(s: &str) -> (w: &str)
    ensures
        w@ == s@.subrange(0, space_index_from(s@, 0)),
{
    let n = s.unicode_len();
    let mut j: usize = 0;
    while j < n && s.get_char(j) != ' '
        invariant
            n == s@.len(),
            j <= n,
            forall|k: int| 0 <= k < j ==> s@[k] != ' ',
        decreases n - j,
    {
        j += 1;
    }
    proof {
        lemma_space_index_from_is(s@, 0, j as int);
    }
    s.substring_char(0, j)
}

// ---------------------------------------------------------------------------
// Small string helpers
// ---------------------------------------------------------------------------

/// Appends the suffix `" 1"` to `s`.
pub fn suf(s: String) -> (r: String)
    ensures
        r@ == s@ + " 1"@,
{
    let mut s = s;
    s.append(" 1");
    s
}

/// Overwrites `output` with `"hello"`.
pub fn slot1rep(output: &mut String)
    ensures
        final(output)@ == "hello"@,
{
    *output = String::from_str("hello");
}

/// The string `"hello"`, owned by nobody.
pub fn static1() -> (r: &'static str)
    ensures
        r@ == "hello"@,
{
    "hello"
}

/// The longer of two string slices, measured in characters; `x` wins a tie.
pub fn longest<'a>(x: &'a str, y: &'a str) -> (r: &'a str)
    ensures
        r@ == if x@.len() >= y@.len() {
            x@
        } else {
            y@
        },
{
    if x.unicode_len() >= y.unicode_len() {
        x
    } else {
        y
    }
}

/// The shorter of two string slices, measured in characters; `x` wins a tie.
pub fn shortest<'a>(x: &'a str, y: &'a str) -> (r: &'a str)
    ensures
        r@ == if x@.len() <= y@.len() {
            x@
        } else {
            y@
        },
{
    if x.unicode_len() <= y.unicode_len() {
        x
    } else {
        y
    }
}

/// Uppercases the first element of `v` if it is an ASCII lowercase letter,
/// and otherwise leaves `v` unchanged.
pub fn ascii_capitalize(v: &mut Vec<char>)
    requires
        old(v)@.len() > 0,
    ensures
        final(v)@.len() == old(v)@.len(),
        ('a' <= old(v)@[0] && old(v)@[0] <= 'z') ==> final(v)@[0] as int == old(v)@[0] as int
            - 32,
        !('a' <= old(v)@[0] && old(v)@[0] <= 'z') ==> final(v)@[0] == old(v)@[0],
        forall|k: int| 1 <= k < old(v)@.len() ==> final(v)@[k] == old(v)@[k],
{
    let c = v[0];
    if 'a' <= c && c <= 'z' {
        let up = ((c as u8) - 32) as char;
        v.set(0, up);
    }
}

// ---------------------------------------------------------------------------
// Joining names
// ---------------------------------------------------------------------------

/// The parts joined with single spaces: empty for no parts, and otherwise
/// each part separated from the next by one space.
pub open spec fn joined_with_spaces(parts: Seq<Seq<char>>) -> Seq<char>
    decreases parts.len(),
{
    if parts.len() == 0 {
        Seq::empty()
    } else if parts.len() == 1 {
        parts[0]
    } else {
        joined_with_spaces(parts.drop_last()) + seq![' '] + parts.last()
    }
}

/// Joins the strings of `parts` with single spaces.
pub fn join_with_spaces(parts: &Vec<String>) -> (r: String)
    ensures
        r@ == joined_with_spaces(string_views(parts@)),
{
    let ghost views = string_views(parts@);
    let mut r = String::new();
    let mut i: usize = 0;
    proof {
        reveal_strlit(" ");
    }
    while i < parts.len()
        invariant
            views == string_views(parts@),
            i <= parts@.len(),
            r@ == joined_with_spaces(views.take(i as int)),
            " "@ =~= seq![' '],
        decreases parts@.len() - i,
    {
        if i > 0 {
            r.append(" ");
        }
        r.append(parts[i].as_str());
        proof {
            assert(views.take(i + 1).drop_last() =~= views.take(i as int));
            assert(views.take(i + 1).last() == views[i as int]);
            if i == 0 {
                assert(r@ =~= views[0]);
            }
        }
        i += 1;
    }
    proof {
        assert(views.take(parts@.len() as int) =~= views);
    }
    r
}

/// Takes the name over, appends the title `"Esq."` as one more part, and
/// joins everything with spaces.
pub fn stringify_name_with_title_1(name: Vec<String>) -> (r: String)
    ensures
        r@ == joined_with_spaces(string_views(name@).push("Esq."@)),
{
    let ghost orig = name@;
    let mut name = name;
    name.push(String::from_str("Esq."));
    let full = join_with_spaces(&name);
    proof {
        assert(string_views(name@) =~= string_views(orig).push("Esq."@));
    }
    full
}

/// Same result as [`stringify_name_with_title_1`], but clones the borrowed
/// name instead of taking it over.
pub fn stringify_name_with_title_2(name: &Vec<String>) -> (r: String)
    ensures
        r@ == joined_with_spaces(string_views(name@).push("Esq."@)),
{
    let mut name_clone: Vec<String> = Vec::new();
    let mut i: usize = 0;
    while i < name.len()
        invariant
            i <= name@.len(),
            name_clone@.len() == i,
            forall|k: int| 0 <= k < i ==> name_clone@[k]@ == name@[k]@,
        decreases name@.len() - i,
    {
        name_clone.push(name[i].clone());
        i += 1;
    }
    name_clone.push(String::from_str("Esq."));
    let full = join_with_spaces(&name_clone);
    proof {
        assert(string_views(name_clone@) =~= string_views(name@).push("Esq."@));
    }
    full
}

/// Joins the borrowed name with spaces and appends the suffix `" Esq."` to
/// the result; for a non-empty name this equals the other two stringify
/// functions.
pub fn stringify_name_with_title_3(name: &Vec<String>) -> (r: String)
    ensures
        r@ == joined_with_spaces(string_views(name@)) + " Esq."@,
{
    let mut full = join_with_spaces(name);
    full.append(" Esq.");
    full
}

// ---------------------------------------------------------------------------
// Filtering strings
// ---------------------------------------------------------------------------

/// The strings of `heystack` that contain `needle`, cloned, in order.
pub fn find_contains(heystack: &[String], needle: &str) -> (r: Vec<String>)
    ensures
        string_views(r@) == string_views(heystack@).filter(line_matches(needle@)),
{
    let ghost views = string_views(heystack@);
    let ghost pred = line_matches(needle@);
    let mut r: Vec<String> = Vec::new();
    let mut i: usize = 0;
    proof {
        assert(views.take(0).filter(pred) =~= string_views(r@));
    }
    while i < heystack.len()
        invariant
            views == string_views(heystack@),
            pred == line_matches(needle@),
            i <= views.len(),
            string_views(r@) == views.take(i as int).filter(pred),
        decreases views.len() - i,
    {
        let ghost prev = r@;
        let item = &heystack[i];
        let hit = contains_str(item.as_str(), needle);
        if hit {
            r.push(item.clone());
        }
        proof {
            views.lemma_take_succ_push(i as int);
            views.take(i as int).lemma_filter_push(views[i as int], pred);
            if hit {
                assert(string_views(r@) =~= string_views(prev).push(item@));
            }
        }
        i += 1;
    }
    proof {
        assert(views.take(views.len() as int) =~= views);
    }
    r
}

/// The last character of the first line of `text`, if both exist.
pub fn question_mark_operator_on_option(text: &str) -> (r: Option<char>)
    ensures
        r == if spec_lines(text@).len() == 0 {
            None::<char>
        } else if spec_lines(text@)[0].len() == 0 {
            None::<char>
        } else {
            Some(spec_lines(text@)[0].last())
        },
{
    let parts = lines_of(text);
    if parts.len() == 0 {
        return None;
    }
    let line = parts[0];
    proof {
        assert(line@ == views_of(parts@)[0]);
    }
    let n = line.unicode_len();
    if n == 0 {
        None
    } else {
        Some(line.get_char(n - 1))
    }
}

// ---------------------------------------------------------------------------
// Grapheme clusters
// ---------------------------------------------------------------------------

/// What `unicode_segmentation` splits a sequence of characters into, as
/// extended grapheme clusters.
pub uninterp spec fn grapheme_clusters(s: Seq<char>) -> Seq<Seq<char>>;

/// Relies on `unicode_segmentation::UnicodeSegmentation::graphemes` with
/// extended clusters: the segmentation depends on the characters alone, and
/// the empty string has no clusters.
#[verifier::external_body]
fn segment_graphemes(s: &str) -> (r: Vec<String>)
    ensures
        string_views(r@) == grapheme_clusters(s@),
        s@.len() == 0 ==> r@.len() == 0,
{
    unicode_segmentation::UnicodeSegmentation::graphemes(s, true).map(|g| g.to_string()).collect()
}

/// The extended grapheme clusters of `s`, in order.
pub fn graphemes(s: &str) -> (r: Vec<String>)
    ensures
        string_views(r@) == grapheme_clusters(s@),
        s@.len() == 0 ==> r@.len() == 0,
{
    segment_graphemes(s)
}

/// How many extended grapheme clusters `s` has.
pub fn grapheme_count(s: &str) -> (n: usize)
    ensures
        n == grapheme_clusters(s@).len(),
{
    let clusters = segment_graphemes(s);
    clusters.len()
}

} // verus!
