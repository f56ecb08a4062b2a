//! General string facts and utilities: equality, containment, suffix tests
//! and splitting, all proved against spec functions over `Seq<char>`.

use vstd::prelude::*;
use vstd::string::StrSliceExecFns;
use vstd::string::StringExecFns;

use crate::ast::deep_view_strs;
use crate::ast::lemma_deep_view_strs_cons;
use crate::ast::lemma_insert_front;
use crate::grammar::spec_match_lit;
use crate::parser::matches_at;

verus! {

broadcast use vstd::std_specs::vec::group_vec_axioms, vstd::seq::group_seq_axioms;

/// Whether `needle` occurs anywhere within `hay`.
pub open spec fn spec_contains(hay: Seq<char>, needle: Seq<char>) -> bool {
    exists|i: int| spec_match_lit(hay, i, needle)
}

/// Whether `suffix` ends `s`: a literal, case-sensitive character match.
pub open spec fn spec_ends_with(s: Seq<char>, suffix: Seq<char>) -> bool {
    spec_match_lit(s, s.len() - suffix.len(), suffix)
}

/// Index of the first occurrence of `needle` at or after `from` in `hay`.
pub open spec fn spec_find_sub(hay: Seq<char>, needle: Seq<char>, from: int) -> Option<int>
    decreases hay.len() - from,
{
    if from < 0 || from + needle.len() > hay.len() {
        None
    } else if needle.len() == 0 {
        Some(from)
    } else if spec_match_lit(hay, from, needle) {
        Some(from)
    } else {
        spec_find_sub(hay, needle, from + 1)
    }
}

/// The pieces of `text` between occurrences of `delim`, in order. An empty
/// delimiter does not split: the whole text is the one piece.
pub open spec fn spec_split(text: Seq<char>, delim: Seq<char>) -> Seq<Seq<char>>
    decreases text.len(),
{
    if delim.len() == 0 {
        seq![text]
    } else {
        match spec_find_sub(text, delim, 0) {
            Some(i) => {
                let rest = text.subrange(i + delim.len(), text.len() as int);
                if rest.len() < text.len() {
                    seq![text.subrange(0, i)] + spec_split(rest, delim)
                } else {
                    seq![text]
                }
            },
            None => seq![text],
        }
    }
}

/// Whether two strings hold the same characters.
pub fn str_eq(a: &str, b: &str) -> (r: bool)
    ensures
        r == (a@ == b@),
{
    let n = a.unicode_len();
    let m = b.unicode_len();
    if n != m {
        return false;
    }
    let r = matches_at(a, 0, n, b);
    proof {
        if r {
            assert(a@.subrange(0, a@.len() as int) =~= a@);
        } else {
            if a@ == b@ {
                assert(a@.subrange(0, b@.len() as int) =~= b@);
            }
        }
    }
    r
}

/// Whether `needle` occurs anywhere within `hay`.
pub fn str_contains(hay: &str, needle: &str) -> (r: bool)
    ensures
        r == spec_contains(hay@, needle@),
{
    let n = hay.unicode_len();
    let m = needle.unicode_len();
    if m > n {
        proof {
            assert(forall|i: int| !spec_match_lit(hay@, i, needle@));
        }
        return false;
    }
    if m == 0 {
        proof {
            assert(spec_match_lit(hay@, 0, needle@)) by {
                assert(hay@.subrange(0, 0) =~= needle@);
            }
        }
        return true;
    }
    let mut i: usize = 0;
    while i <= n - m
        invariant
            n == hay@.len(),
            m == needle@.len(),
            0 < m <= n,
            0 <= i <= n - m + 1,
            forall|j: int| 0 <= j < i ==> !spec_match_lit(hay@, j, needle@),
        decreases n - m + 1 - i,
    {
        if matches_at(hay, i, n, needle) {
            return true;
        }
        i += 1;
    }
    proof {
        assert forall|j: int| !spec_match_lit(hay@, j, needle@) by {
            if j > n - m || j < 0 {
            } else {
                assert(!spec_match_lit(hay@, j, needle@));
            }
        }
    }
    false
}

/// Whether `suffix` ends `s`: a literal, case-sensitive character match.
pub fn str_ends_with(s: &str, suffix: &str) -> (r: bool)
    ensures
        r == spec_ends_with(s@, suffix@),
{
    let n = s.unicode_len();
    let m = suffix.unicode_len();
    if m > n {
        return false;
    }
    matches_at(s, n - m, n, suffix)
}

/// Index of the first occurrence of `needle` at or after `from` in `hay`.
fn find_sub(hay: &str, needle: &str, from: usize, n: usize, m: usize) -> (r: Option<usize>)
    requires
        n == hay@.len(),
        m == needle@.len(),
        from <= n,
    ensures
        match r {
            Some(j) => spec_find_sub(hay@, needle@, from as int) == Some(j as int) && from <= j
                && j + m <= n,
            None => spec_find_sub(hay@, needle@, from as int) is None,
        },
    decreases n - from,
{
    if m > n - from {
        None
    } else if m == 0 {
        proof {
            assert(hay@.subrange(from as int, from as int) =~= needle@);
        }
        Some(from)
    } else if matches_at(hay, from, n, needle) {
        Some(from)
    } else {
        find_sub(hay, needle, from + 1, n, m)
    }
}

/// Splits `text` at every occurrence of `delim`, in order. An empty
/// delimiter does not split.
pub fn split_string(text: &str, delim: &str) -> (r: Vec<String>)
    ensures
        deep_view_strs(r@) == spec_split(text@, delim@),
    decreases text@.len(),
{
    let n = text.unicode_len();
    let m = delim.unicode_len();
    let mut whole: Vec<String> = Vec::new();
    if m == 0 {
        whole.push(String::from_str(text));
        proof {
            assert(deep_view_strs(whole@) =~= seq![text@]);
        }
        return whole;
    }
    match find_sub(text, delim, 0, n, m) {
        Some(i) => {
            let head = String::from_str(text.substring_char(0, i));
            let rest_str = text.substring_char(i + m, n);
            let mut rest = split_string(rest_str, delim);
            let ghost r0 = rest@;
            rest.insert(0, head);
            proof {
                lemma_insert_front(r0, head);
                lemma_deep_view_strs_cons(head, r0);
            }
            rest
        },
        None => {
            whole.push(String::from_str(text));
            proof {
                assert(deep_view_strs(whole@) =~= seq![text@]);
            }
            whole
        },
    }
}

} // verus!
