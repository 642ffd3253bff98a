//! Word frequencies: splitting a text on whitespace and counting how often
//! each word occurs.  The counts live in an association vector whose keys
//! are the distinct words in order of first appearance, so the result is
//! deterministic.

use vstd::prelude::*;
use vstd::string::StrSliceExecFns;
use crate::text::string_views;

verus! {

/// Whether `char::is_whitespace` holds of the character.
pub uninterp spec fn is_unicode_whitespace(c: char) -> bool;

/// Relies on `char::is_whitespace`: the White_Space property depends on the
/// character alone; a space and a line feed are whitespace, and ASCII
/// letters and digits are not.
#[verifier::external_body]
fn char_is_whitespace(c: char) -> (r: bool)
    ensures
        r == is_unicode_whitespace(c),
        c == ' ' ==> r,
        c == '\n' ==> r,
        ('a' <= c && c <= 'z') || ('A' <= c && c <= 'Z') || ('0' <= c && c <= '9') ==> !r,
{
    c.is_whitespace()
}

/// Index of the first whitespace character at or after `from`, or `s.len()`
/// if there is none.
pub open spec fn whitespace_index_from(s: Seq<char>, from: int) -> int
    decreases s.len() - from,
{
    if from < 0 || from >= s.len() {
        s.len() as int
    } else if is_unicode_whitespace(s[from]) {
        from
    } else {
        whitespace_index_from(s, from + 1)
    }
}

proof fn lemma_whitespace_index_from_bounds(s: Seq<char>, from: int)
    requires
        0 <= from <= s.len(),
    ensures
        from <= whitespace_index_from(s, from) <= s.len(),
    decreases s.len() - from,
{
    if from < s.len() && !is_unicode_whitespace(s[from]) {
        lemma_whitespace_index_from_bounds(s, from + 1);
    }
}

proof fn lemma_whitespace_index_from_is(s: Seq<char>, from: int, j: int)
    requires
        0 <= from <= j <= s.len(),
        forall|k: int| from <= k < j ==> !is_unicode_whitespace(s[k]),
        j == s.len() || is_unicode_whitespace(s[j]),
    ensures
        whitespace_index_from(s, from) == j,
    decreases j - from,
{
    if from < j {
        lemma_whitespace_index_from_is(s, from + 1, j);
    }
}

/// The whitespace-separated words of `s` from position `start` on: maximal
/// runs of non-whitespace characters, in order.
pub open spec fn words_from(s: Seq<char>, start: int) -> Seq<Seq<char>>
    decreases s.len() - start,
    via words_from_decreases
{
    if start < 0 || start >= s.len() {
        Seq::empty()
    } else if is_unicode_whitespace(s[start]) {
        words_from(s, start + 1)
    } else {
        let end = whitespace_index_from(s, start);
        seq![s.subrange(start, end)] + words_from(s, end)
    }
}

#[via_fn]
proof fn words_from_decreases(s: Seq<char>, start: int) {
    if 0 <= start < s.len() && !is_unicode_whitespace(s[start]) {
        lemma_whitespace_index_from_bounds(s, start + 1);
    }
}

/// The whitespace-separated words of a text.
pub open spec fn spec_words(s: Seq<char>) -> Seq<Seq<char>> {
    words_from(s, 0)
}

/// Splits `s` into its whitespace-separated words.
pub fn split_whitespace_of(s: &str) -> (r: Vec<String>)
    ensures
        string_views(r@) == spec_words(s@),
{
    let n = s.unicode_len();
    let mut r: Vec<String> = Vec::new();
    let mut pos: usize = 0;
    proof {
        assert(string_views(r@) + words_from(s@, 0) =~= spec_words(s@));
    }
    while pos < n
        invariant
            n == s@.len(),
            pos <= n,
            string_views(r@) + words_from(s@, pos as int) == spec_words(s@),
        decreases n - pos,
    {
        if char_is_whitespace(s.get_char(pos)) {
            pos += 1;
        } else {
            let ghost prev = r@;
            let start = pos;
            let mut j: usize = pos;
            while j < n && !char_is_whitespace(s.get_char(j))
                invariant
                    n == s@.len(),
                    start <= j <= n,
                    forall|k: int| start <= k < j ==> !is_unicode_whitespace(s@[k]),
                decreases n - j,
            {
                j += 1;
            }
            proof {
                lemma_whitespace_index_from_is(s@, start as int, j as int);
            }
            let word = s.substring_char(start, j).to_owned();
            r.push(word);
            proof {
                assert(string_views(r@) =~= string_views(prev).push(s@.subrange(
                    start as int,
                    j as int,
                )));
                assert(string_views(r@) + words_from(s@, j as int) =~= string_views(prev)
                    + words_from(s@, start as int));
            }
            pos = j;
        }
    }
    proof {
        assert(string_views(r@) + words_from(s@, n as int) =~= string_views(r@));
    }
    r
}

// ---------------------------------------------------------------------------
// Counting
// ---------------------------------------------------------------------------

/// Holds of a word equal to `w`.
pub open spec fn word_eq(w: Seq<char>) -> spec_fn(Seq<char>) -> bool {
    |x: Seq<char>| x == w
}

/// How often `w` occurs among `words`.
pub open spec fn count_of(words: Seq<Seq<char>>, w: Seq<char>) -> int {
    words.filter(word_eq(w)).len() as int
}

/// The distinct words of `words`, each kept at its first appearance.
pub open spec fn distinct_words(words: Seq<Seq<char>>) -> Seq<Seq<char>>
    decreases words.len(),
{
    if words.len() == 0 {
        Seq::empty()
    } else {
        let rest = distinct_words(words.drop_last());
        if rest.contains(words.last()) {
            rest
        } else {
            rest.push(words.last())
        }
    }
}

proof fn lemma_distinct_words_contains(words: Seq<Seq<char>>, x: Seq<char>)
    ensures
        distinct_words(words).contains(x) <==> words.contains(x),
    decreases words.len(),
{
    if words.len() > 0 {
        lemma_distinct_words_contains(words.drop_last(), x);
        assert(words.contains(x) <==> (words.drop_last().contains(x) || words.last() == x)) by {
            if words.contains(x) {
                let i = choose|i: int| 0 <= i < words.len() && words[i] == x;
                if i < words.len() - 1 {
                    assert(words.drop_last()[i] == x);
                }
            }
            if words.drop_last().contains(x) {
                let i = choose|i: int|
                    0 <= i < words.drop_last().len() && words.drop_last()[i] == x;
                assert(words[i] == x);
            }
            if words.last() == x {
                assert(words[words.len() - 1] == x);
            }
        }
        let rest = distinct_words(words.drop_last());
        let d = distinct_words(words);
        if !rest.contains(words.last()) {
            assert(d == rest.push(words.last()));
            assert(d.contains(x) <==> (rest.contains(x) || words.last() == x)) by {
                if d.contains(x) {
                    let i = choose|i: int| 0 <= i < d.len() && d[i] == x;
                    if i < rest.len() {
                        assert(rest[i] == x);
                    }
                }
                if rest.contains(x) {
                    let i = choose|i: int| 0 <= i < rest.len() && rest[i] == x;
                    assert(d[i] == x);
                }
                if words.last() == x {
                    assert(d[rest.len() as int] == x);
                }
            }
        }
    }
}

proof fn lemma_distinct_words_no_dup(words: Seq<Seq<char>>)
    ensures
        forall|i: int, j: int|
            0 <= i < j < distinct_words(words).len() ==> distinct_words(words)[i]
                != distinct_words(words)[j],
    decreases words.len(),
{
    if words.len() > 0 {
        lemma_distinct_words_no_dup(words.drop_last());
        let rest = distinct_words(words.drop_last());
        if !rest.contains(words.last()) {
            assert forall|i: int, j: int|
                0 <= i < j < rest.push(words.last()).len() implies rest.push(words.last())[i]
                != rest.push(words.last())[j] by {
                if j < rest.len() {
                } else {
                    assert(rest[i] != words.last());
                }
            }
        }
    }
}

/// The key views of an association vector of words and counts.
pub open spec fn tally_keys(r: Seq<(String, usize)>) -> Seq<Seq<char>> {
    r.map_values(|p: (String, usize)| p.0@)
}

/// How often each word occurs in `text`: the keys are the distinct words in
/// order of first appearance, each with its number of occurrences.
pub fn word_tally(text: &str) -> (r: Vec<(String, usize)>)
    ensures
        tally_keys(r@) == distinct_words(spec_words(text@)),
        forall|i: int|
            0 <= i < r@.len() ==> (#[trigger] r@[i]).1 as int == count_of(
                spec_words(text@),
                r@[i].0@,
            ),
{
    let words = split_whitespace_of(text);
    let ghost ws = spec_words(text@);
    let mut r: Vec<(String, usize)> = Vec::new();
    let mut k: usize = 0;
    proof {
        assert(ws.take(0) =~= Seq::<Seq<char>>::empty());
        assert(tally_keys(r@) =~= distinct_words(ws.take(0)));
    }
    while k < words.len()
        invariant
            string_views(words@) == ws,
            ws == spec_words(text@),
            k <= words@.len(),
            tally_keys(r@) == distinct_words(ws.take(k as int)),
            forall|i: int|
                0 <= i < r@.len() ==> (#[trigger] r@[i]).1 as int == count_of(
                    ws.take(k as int),
                    r@[i].0@,
                ),
            forall|i: int| 0 <= i < r@.len() ==> (#[trigger] r@[i]).1 <= k,
        decreases words@.len() - k,
    {
        let ghost prev = r@;
        let w = &words[k];
        proof {
            assert(w@ == ws[k as int]);
            ws.lemma_take_succ_push(k as int);
            assert(ws.take(k + 1) =~= ws.take(k as int).push(ws[k as int]));
            assert(ws.take(k + 1).drop_last() =~= ws.take(k as int));
        }
        let mut idx: usize = 0;
        while idx < r.len() && !(r[idx].0 == *w)
            invariant
                idx <= r@.len(),
                forall|t: int| 0 <= t < idx ==> (#[trigger] prev[t]).0@ != w@,
                r@ == prev,
            decreases r@.len() - idx,
        {
            idx += 1;
        }
        if idx < r.len() {
            // The word was seen before: raise its count.
            let key = r[idx].0.clone();
            let count = r[idx].1;
            proof {
                lemma_distinct_words_no_dup(ws.take(k as int));
                assert(tally_keys(prev).contains(ws[k as int])) by {
                    assert(tally_keys(prev)[idx as int] == ws[k as int]);
                }
                assert(distinct_words(ws.take(k + 1)) == distinct_words(ws.take(k as int)));
                assert(count < words@.len());
            }
            r.set(idx, (key, count + 1));
            proof {
                assert(tally_keys(r@) =~= tally_keys(prev));
                assert forall|i: int| 0 <= i < r@.len() implies (#[trigger] r@[i]).1 as int
                    == count_of(ws.take(k + 1), r@[i].0@) by {
                    ws.take(k as int).lemma_filter_len_push(word_eq(r@[i].0@), ws[k as int]);
                    if i != idx {
                        assert(tally_keys(prev)[i] == prev[i].0@);
                        assert(tally_keys(prev)[idx as int] == prev[idx as int].0@);
                        assert(r@[i].0@ != ws[k as int]);
                    }
                }
            }
        } else {
            // A word not seen before: record it with count one.
            proof {
                assert(!distinct_words(ws.take(k as int)).contains(ws[k as int])) by {
                    if distinct_words(ws.take(k as int)).contains(ws[k as int]) {
                        let t = choose|t: int|
                            0 <= t < distinct_words(ws.take(k as int)).len() && distinct_words(
                                ws.take(k as int),
                            )[t] == ws[k as int];
                        assert(tally_keys(prev)[t] == prev[t].0@);
                    }
                }
                lemma_distinct_words_contains(ws.take(k as int), ws[k as int]);
                assert(distinct_words(ws.take(k + 1)) == distinct_words(ws.take(k as int)).push(
                    ws[k as int],
                ));
            }
            r.push((w.clone(), 1));
            proof {
                assert(tally_keys(r@) =~= tally_keys(prev).push(w@));
                assert forall|i: int| 0 <= i < r@.len() implies (#[trigger] r@[i]).1 as int
                    == count_of(ws.take(k + 1), r@[i].0@) by {
                    ws.take(k as int).lemma_filter_len_push(word_eq(r@[i].0@), ws[k as int]);
                    if i < r@.len() - 1 {
                        assert(tally_keys(prev)[i] == prev[i].0@);
                        assert(r@[i].0@ != ws[k as int]);
                    } else {
                        assert(r@[i].0@ == ws[k as int]);
                        assert(ws.take(k as int).filter(word_eq(r@[i].0@)).len() == 0) by {
                            assert forall|t: int|
                                0 <= t < ws.take(k as int).len() implies !word_eq(r@[i].0@)(
                                ws.take(k as int)[t],
                            ) by {
                                if ws.take(k as int)[t] == ws[k as int] {
                                    assert(ws.take(k as int).contains(ws[k as int]));
                                }
                            }
                            ws.take(k as int).lemma_all_neg_filter_empty(word_eq(r@[i].0@));
                        }
                    }
                }
            }
        }
        k += 1;
    }
    proof {
        assert(ws.take(ws.len() as int) =~= ws);
    }
    r
}

} // verus!
