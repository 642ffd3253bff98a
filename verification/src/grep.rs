//! Line-oriented text search: splitting text into lines, substring search,
//! and the `search` family that returns every line of a text containing a
//! query, case-sensitively or case-insensitively.
//!
//! The specification models a text as a `Seq<char>`.  [`spec_lines`] mirrors
//! how lines are delimited: lines end at `'\n'`, a `'\r'` immediately before
//! a `'\n'` is stripped, and a final line ending is optional.  [`is_substring`]
//! says a needle occurs contiguously in a haystack.

use vstd::prelude::*;
use vstd::string::StrSliceExecFns;

verus! {

/// Settings of one search: what to look for, where, and how.
pub struct Config {
    pub query: String,
    pub file_path: String,
    pub ignore_case: bool,
}

impl Config {
    /// Builds a [`Config`] from positional arguments: the argument at index 1
    /// is the query, the argument at index 2 is the file path.  Fails when
    /// fewer than three arguments are given.  The caller supplies
    /// `ignore_case`, which is read from the environment outside the library.
    pub fn build_v0(args: &[String], ignore_case: bool) -> (r: Result<Config, &'static str>)
        ensures
            args@.len() < 3 ==> (r matches Err(e) && e@ == "not enough arguments"@),
            args@.len() >= 3 ==> (r matches Ok(c) && c.query@ == args@[1]@ && c.file_path@
                == args@[2]@ && c.ignore_case == ignore_case),
    {
        if args.len() < 3 {
            return Err("not enough arguments");
        }
        let query = args[1].clone();
        let file_path = args[2].clone();
        Ok(Config { query, file_path, ignore_case })
    }
}

// ---------------------------------------------------------------------------
// Lines
// ---------------------------------------------------------------------------

/// Index of the first `'\n'` at or after `from`, or `s.len()` if there is
/// none.
pub open spec fn line_break_from(s: Seq<char>, from: int) -> int
    decreases s.len() - from,
{
    if from < 0 || from >= s.len() {
        s.len() as int
    } else if s[from] == '\n' {
        from
    } else {
        line_break_from(s, from + 1)
    }
}

proof fn lemma_line_break_from_bounds(s: Seq<char>, from: int)
    requires
        0 <= from <= s.len(),
    ensures
        from <= line_break_from(s, from) <= s.len(),
        line_break_from(s, from) < s.len() ==> s[line_break_from(s, from)] == '\n',
        forall|k: int| from <= k < line_break_from(s, from) ==> s[k] != '\n',
    decreases s.len() - from,
{
    if from < s.len() && s[from] != '\n' {
        lemma_line_break_from_bounds(s, from + 1);
    }
}

proof fn lemma_line_break_from_is(s: Seq<char>, from: int, j: int)
    requires
        0 <= from <= j <= s.len(),
        forall|k: int| from <= k < j ==> s[k] != '\n',
        j == s.len() || s[j] == '\n',
    ensures
        line_break_from(s, from) == j,
    decreases j - from,
{
    if from < j {
        lemma_line_break_from_is(s, from + 1, j);
    }
}

/// The lines of `s` starting at position `start`: each line runs to the next
/// `'\n'` (a `'\r'` directly before the `'\n'` is not part of the line), and
/// a last line without a final `'\n'` still counts.
pub open spec fn lines_from(s: Seq<char>, start: int) -> Seq<Seq<char>>
    decreases s.len() - start,
    via lines_from_decreases
{
    if start >= s.len() {
        Seq::empty()
    } else {
        let brk = line_break_from(s, start);
        let line = if brk < s.len() && brk > start && s[brk - 1] == '\r' {
            s.subrange(start, brk - 1)
        } else {
            s.subrange(start, brk)
        };
        if brk >= s.len() {
            seq![line]
        } else {
            seq![line] + lines_from(s, brk + 1)
        }
    }
}

#[via_fn]
proof fn lines_from_decreases(s: Seq<char>, start: int) {
    if 0 <= start < s.len() {
        lemma_line_break_from_bounds(s, start);
    }
}

/// The lines of a text, as `str::lines` delimits them.
pub open spec fn spec_lines(s: Seq<char>) -> Seq<Seq<char>> {
    lines_from(s, 0)
}

/// The views of a sequence of string slices.
pub open spec fn views_of(lines: Seq<&str>) -> Seq<Seq<char>> {
    lines.map_values(|line: &str| line@)
}

/// Splits `s` into its lines.
pub fn lines_of<'a>(s: &'a str) -> (r: Vec<&'a str>)
    ensures
        views_of(r@) == spec_lines(s@),
{
    let n = s.unicode_len();
    let mut r: Vec<&'a str> = Vec::new();
    let mut start: usize = 0;
    proof {
        assert(views_of(r@) + lines_from(s@, 0) =~= spec_lines(s@));
    }
    while start < n
        invariant
            n == s@.len(),
            start <= n,
            views_of(r@) + lines_from(s@, start as int) == spec_lines(s@),
        decreases n - start,
    {
        let ghost prev = r@;
        let ghost start0 = start as int;
        let mut j: usize = start;
        while j < n && s.get_char(j) != '\n'
            invariant
                n == s@.len(),
                start <= j <= n,
                forall|k: int| start <= k < j ==> s@[k] != '\n',
            decreases n - j,
        {
            j += 1;
        }
        proof {
            lemma_line_break_from_is(s@, start0, j as int);
        }
        let line: &'a str = if j < n && j > start && s.get_char(j - 1) == '\r' {
            s.substring_char(start, j - 1)
        } else {
            s.substring_char(start, j)
        };
        r.push(line);
        proof {
            assert(views_of(r@) =~= views_of(prev).push(line@));
            if (j as int) < s@.len() {
                assert(views_of(r@) + lines_from(s@, j + 1) =~= views_of(prev) + lines_from(
                    s@,
                    start0,
                ));
            } else {
                assert(views_of(r@) + lines_from(s@, n as int) =~= views_of(prev) + lines_from(
                    s@,
                    start0,
                ));
            }
        }
        if j < n {
            start = j + 1;
        } else {
            start = n;
        }
    }
    proof {
        assert(views_of(r@) + lines_from(s@, n as int) =~= views_of(r@));
    }
    r
}

// ---------------------------------------------------------------------------
// Substring search
// ---------------------------------------------------------------------------

/// `needle` occurs in `hay` starting at position `i`.
pub open spec fn contains_at(hay: Seq<char>, needle: Seq<char>, i: int) -> bool {
    &&& 0 <= i
    &&& i + needle.len() <= hay.len()
    &&& hay.subrange(i, i + needle.len()) == needle
}

/// `needle` occurs contiguously somewhere in `hay`; an empty needle always
/// does.
pub open spec fn is_substring(hay: Seq<char>, needle: Seq<char>) -> bool {
    exists|i: int| contains_at(hay, needle, i)
}

fn match_at(hay: &str, needle: &str, needle_len: usize, i: usize) -> (r: bool)
    requires
        needle_len == needle@.len(),
        i + needle_len <= hay@.len(),
        hay@.len() <= usize::MAX,
    ensures
        r == contains_at(hay@, needle@, i as int),
{
    let mut j: usize = 0;
    while j < needle_len
        invariant
            needle_len == needle@.len(),
            i + needle_len <= hay@.len(),
            hay@.len() <= usize::MAX,
            j <= needle_len,
            forall|k: int| 0 <= k < j ==> hay@[i + k] == needle@[k],
        decreases needle_len - j,
    {
        if hay.get_char(i + j) != needle.get_char(j) {
            proof {
                assert(hay@.subrange(i as int, i + needle@.len())[j as int] != needle@[j as int]);
            }
            return false;
        }
        j += 1;
    }
    proof {
        assert(hay@.subrange(i as int, i + needle@.len()) =~= needle@);
    }
    true
}

/// Does `hay` contain `needle` as a contiguous substring?
pub fn contains_str(hay: &str, needle: &str) -> (r: bool)
    ensures
        r == is_substring(hay@, needle@),
{
    let hay_len = hay.unicode_len();
    let needle_len = needle.unicode_len();
    if needle_len > hay_len {
        proof {
            assert(forall|i: int| !contains_at(hay@, needle@, i));
        }
        return false;
    }
    let bound = hay_len - needle_len;
    let mut i: usize = 0;
    loop
        invariant
            hay_len == hay@.len(),
            needle_len == needle@.len(),
            needle_len <= hay_len,
            bound == hay_len - needle_len,
            i <= bound,
            forall|k: int| 0 <= k < i ==> !contains_at(hay@, needle@, k),
        decreases bound - i,
    {
        if match_at(hay, needle, needle_len, i) {
            return true;
        }
        if i < bound {
            i += 1;
        } else {
            proof {
                assert(forall|k: int| k > bound ==> !contains_at(hay@, needle@, k));
            }
            return false;
        }
    }
}

// ---------------------------------------------------------------------------
// Lowercasing
// ---------------------------------------------------------------------------

/// What `str::to_lowercase` returns for a given sequence of characters.
pub uninterp spec fn lower_of(s: Seq<char>) -> Seq<char>;

/// Relies on `str::to_lowercase`: the result depends on the characters alone,
/// and the lowercase form of the empty string is empty.
#[verifier::external_body]
fn lowercase(s: &str) -> (r: String)
    ensures
        r@ == lower_of(s@),
        s@.len() == 0 ==> r@.len() == 0,
{
    s.to_lowercase()
}

// ---------------------------------------------------------------------------
// Searching
// ---------------------------------------------------------------------------

/// Holds of a line that contains `query` literally.
pub open spec fn line_matches(query: Seq<char>) -> spec_fn(Seq<char>) -> bool {
    |line: Seq<char>| is_substring(line, query)
}

/// Holds of a line whose lowercase form contains the lowercase form of
/// `query`.
pub open spec fn line_imatches(query: Seq<char>) -> spec_fn(Seq<char>) -> bool {
    |line: Seq<char>| is_substring(lower_of(line), lower_of(query))
}

/// The lines of `contents` that contain `query`, in order.
pub open spec fn matching_lines(query: Seq<char>, contents: Seq<char>) -> Seq<Seq<char>> {
    spec_lines(contents).filter(line_matches(query))
}

/// The lines of `contents` that contain `query` up to case, in order.
pub open spec fn imatching_lines(query: Seq<char>, contents: Seq<char>) -> Seq<Seq<char>> {
    spec_lines(contents).filter(line_imatches(query))
}

/// Case-sensitive search: every line of `contents` that contains `query`,
/// in order of appearance.
pub fn search_v0<'a>(query: &str, contents: &'a str) -> (r: Vec<&'a str>)
    ensures
        views_of(r@) == matching_lines(query@, contents@),
{
    let all = lines_of(contents);
    let ghost lseq = spec_lines(contents@);
    let ghost pred = line_matches(query@);
    let mut results: Vec<&'a str> = Vec::new();
    let mut idx: usize = 0;
    proof {
        assert(lseq.take(0).filter(pred) =~= views_of(results@));
    }
    while idx < all.len()
        invariant
            views_of(all@) == lseq,
            lseq == spec_lines(contents@),
            pred == line_matches(query@),
            idx <= all@.len(),
            views_of(results@) == lseq.take(idx as int).filter(pred),
        decreases all@.len() - idx,
    {
        let ghost prev = results@;
        let line = all[idx];
        let hit = contains_str(line, query);
        if hit {
            results.push(line);
        }
        proof {
            lseq.lemma_take_succ_push(idx as int);
            lseq.take(idx as int).lemma_filter_push(lseq[idx as int], pred);
            assert(line@ == lseq[idx as int]);
            if hit {
                assert(views_of(results@) =~= views_of(prev).push(line@));
            }
        }
        idx += 1;
    }
    proof {
        assert(lseq.take(all@.len() as int) =~= lseq);
    }
    results
}

/// Case-sensitive search, written over the same scan as [`search_v0`].
pub fn search<'a>(query: &str, contents: &'a str) -> (r: Vec<&'a str>)
    ensures
        views_of(r@) == matching_lines(query@, contents@),
{
    search_v0(query, contents)
}

/// Case-insensitive search: every line of `contents` whose lowercase form
/// contains the lowercase form of `query`, in order of appearance.
pub fn isearch_v0<'a>(query: &str, contents: &'a str) -> (r: Vec<&'a str>)
    ensures
        views_of(r@) == imatching_lines(query@, contents@),
{
    let lquery = lowercase(query);
    let all = lines_of(contents);
    let ghost lseq = spec_lines(contents@);
    let ghost pred = line_imatches(query@);
    let mut results: Vec<&'a str> = Vec::new();
    let mut idx: usize = 0;
    proof {
        assert(lseq.take(0).filter(pred) =~= views_of(results@));
    }
    while idx < all.len()
        invariant
            views_of(all@) == lseq,
            lseq == spec_lines(contents@),
            pred == line_imatches(query@),
            lquery@ == lower_of(query@),
            idx <= all@.len(),
            views_of(results@) == lseq.take(idx as int).filter(pred),
        decreases all@.len() - idx,
    {
        let ghost prev = results@;
        let line = all[idx];
        let lline = lowercase(line);
        let hit = contains_str(lline.as_str(), lquery.as_str());
        if hit {
            results.push(line);
        }
        proof {
            lseq.lemma_take_succ_push(idx as int);
            lseq.take(idx as int).lemma_filter_push(lseq[idx as int], pred);
            assert(line@ == lseq[idx as int]);
            if hit {
                assert(views_of(results@) =~= views_of(prev).push(line@));
            }
        }
        idx += 1;
    }
    proof {
        assert(lseq.take(all@.len() as int) =~= lseq);
    }
    results
}

/// Case-insensitive search, written over the same scan as [`isearch_v0`].
pub fn isearch<'a>(query: &str, contents: &'a str) -> (r: Vec<&'a str>)
    ensures
        views_of(r@) == imatching_lines(query@, contents@),
{
    isearch_v0(query, contents)
}

} // verus!
