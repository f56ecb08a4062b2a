//! The executable recursive-descent parser, proved equal to the grammar
//! spec functions in `crate::grammar`.
//!
//! Every parse function returns the parsed node together with the position
//! just past it, and its contract states that the result is exactly what the
//! corresponding grammar function denotes. `parse_script` at the bottom ties
//! the pieces together: it parses a whole script or reports the unconsumed
//! remainder.

use vstd::prelude::*;
use vstd::string::StrSliceExecFns;
use vstd::string::StringExecFns;

use crate::ast::deep_view_cmds;
use crate::ast::deep_view_blocks;
use crate::ast::deep_view_filters;
use crate::ast::deep_view_strs;
use crate::ast::lemma_deep_view_cmds_cons;
use crate::ast::lemma_deep_view_blocks_cons;
use crate::ast::lemma_deep_view_filters_cons;
use crate::ast::lemma_deep_view_strs_cons;
use crate::ast::lemma_insert_front;
use crate::grammar::CharClass;
use crate::grammar::spec_all_digits;
use crate::grammar::spec_digits_val;
use crate::grammar::spec_find;
use crate::grammar::spec_is_digit;
use crate::grammar::spec_match_lit;
use crate::grammar::spec_parse_click;
use crate::grammar::spec_parse_click_body;
use crate::grammar::spec_parse_cmds;
use crate::grammar::spec_parse_command;
use crate::grammar::spec_parse_ext_more;
use crate::grammar::spec_parse_extensions;
use crate::grammar::spec_parse_i32;
use crate::grammar::spec_parse_indented;
use crate::grammar::spec_parse_media;
use crate::grammar::spec_parse_media_blocks;
use crate::grammar::spec_parse_media_filter;
use crate::grammar::spec_parse_media_filters;
use crate::grammar::spec_parse_media_type;
use crate::grammar::spec_parse_open;
use crate::grammar::spec_parse_operator;
use crate::grammar::spec_parse_paren_quoted;
use crate::grammar::spec_parse_quoted;
use crate::grammar::spec_parse_save;
use crate::grammar::spec_parse_script;
use crate::grammar::spec_parse_set;
use crate::grammar::spec_parse_u64;
use crate::grammar::spec_parse_value;
use crate::grammar::spec_parse_wait;
use crate::grammar::spec_parse_where;
use crate::grammar::spec_scan;
use crate::grammar::spec_ws1;

pub use crate::ast::MediaBlock;
pub use crate::ast::MediaFilter;
pub use crate::ast::MediaType;
pub use crate::ast::MslCommand;
pub use crate::ast::MslError;
pub use crate::ast::MslScript;
pub use crate::ast::MslValue;

verus! {

broadcast use vstd::std_specs::vec::group_vec_axioms, vstd::seq::group_seq_axioms;

/// Position of the first character at or after `pos` outside the class.
fn scan(s: &str, pos: usize, n: usize, cls: CharClass) -> (r: usize)
    requires
        n == s@.len(),
        pos <= n,
    ensures
        r == spec_scan(s@, pos as int, cls),
        pos <= r <= n,
    decreases n - pos,
{
    if pos == n {
        pos
    } else {
        let c = s.get_char(pos);
        let inc = match cls {
            CharClass::Ws => c == ' ' || c == '\t' || c == '\n' || c == '\r',
            CharClass::InlineWs => c == ' ' || c == '\t' || c == '\r',
            CharClass::VarChar => !(c == ' ' || c == '\t' || c == '\n' || c == '\r') && c != '=',
            CharClass::Token => !(c == ' ' || c == '\t' || c == '\n' || c == '\r'),
            CharClass::ExtChar => c != ' ' && c != '\n' && c != ',',
            CharClass::IdxChar => c != ']',
        };
        if inc {
            scan(s, pos + 1, n, cls)
        } else {
            pos
        }
    }
}

/// At least one whitespace character, then the rest of the run.
fn ws1(s: &str, pos: usize, n: usize) -> (r: Option<usize>)
    requires
        n == s@.len(),
        pos <= n,
    ensures
        match r {
            Some(p) => spec_ws1(s@, pos as int) == Some(p as int) && pos < p <= n,
            None => spec_ws1(s@, pos as int) is None,
        },
{
    if pos < n {
        let c = s.get_char(pos);
        if c == ' ' || c == '\t' || c == '\n' || c == '\r' {
            let p = scan(s, pos + 1, n, CharClass::Ws);
            assert(spec_scan(s@, pos as int, CharClass::Ws) == spec_scan(
                s@,
                pos + 1,
                CharClass::Ws,
            ));
            Some(p)
        } else {
            None
        }
    } else {
        None
    }
}

/// Whether the literal `lit` stands at `pos` in `s`.
pub(crate) fn matches_at(s: &str, pos: usize, n: usize, lit: &str) -> (b: bool)
    requires
        n == s@.len(),
        pos <= n,
    ensures
        b == spec_match_lit(s@, pos as int, lit@),
{
    let m = lit.unicode_len();
    if m > n - pos {
        return false;
    }
    let mut i: usize = 0;
    while i < m
        invariant
            n == s@.len(),
            m == lit@.len(),
            pos + m <= n,
            0 <= i <= m,
            forall|j: int| 0 <= j < i ==> s@[pos + j] == lit@[j],
        decreases m - i,
    {
        let c1 = s.get_char(pos + i);
        let c2 = lit.get_char(i);
        if c1 != c2 {
            proof {
                if spec_match_lit(s@, pos as int, lit@) {
                    assert(s@.subrange(pos as int, pos + lit@.len())[i as int] == lit@[i as int]);
                }
            }
            return false;
        }
        i += 1;
    }
    proof {
        assert(s@.subrange(pos as int, pos + lit@.len()) =~= lit@);
    }
    true
}

/// Index of the first occurrence of `c` at or after `pos`, if any.
pub(crate) fn find_char(s: &str, pos: usize, n: usize, c: char) -> (r: Option<usize>)
    requires
        n == s@.len(),
        pos <= n,
    ensures
        match r {
            Some(j) => spec_find(s@, pos as int, c) == Some(j as int) && pos <= j < n,
            None => spec_find(s@, pos as int, c) is None,
        },
    decreases n - pos,
{
    if pos == n {
        None
    } else if s.get_char(pos) == c {
        Some(pos)
    } else {
        find_char(s, pos + 1, n, c)
    }
}

/// A quoted string: `"` up to the next `"`, with no escape sequences.
fn parse_quoted(s: &str, pos: usize, n: usize) -> (r: Option<(String, usize)>)
    requires
        n == s@.len(),
        pos <= n,
    ensures
        match r {
            Some((q, p)) => spec_parse_quoted(s@, pos as int) == Some((q@, p as int)) && pos + 1
                < p <= n,
            None => spec_parse_quoted(s@, pos as int) is None,
        },
{
    if pos < n && s.get_char(pos) == '"' {
        match find_char(s, pos + 1, n, '"') {
            Some(j) => {
                let content = String::from_str(s.substring_char(pos + 1, j));
                Some((content, j + 1))
            },
            None => None,
        }
    } else {
        None
    }
}

/// A parenthesised quoted string: `("…")`.
fn parse_paren_quoted(s: &str, pos: usize, n: usize) -> (r: Option<(String, usize)>)
    requires
        n == s@.len(),
        pos <= n,
    ensures
        match r {
            Some((q, p)) => spec_parse_paren_quoted(s@, pos as int) == Some((q@, p as int)) && pos
                < p <= n,
            None => spec_parse_paren_quoted(s@, pos as int) is None,
        },
{
    if pos < n && s.get_char(pos) == '(' {
        match parse_quoted(s, pos + 1, n) {
            Some((content, p1)) => if p1 < n && s.get_char(p1) == ')' {
                Some((content, p1 + 1))
            } else {
                None
            },
            None => None,
        }
    } else {
        None
    }
}

/// The value of a digit run is not negative.
proof fn lemma_digits_val_nonneg(t: Seq<char>)
    requires
        forall|j: int| 0 <= j < t.len() ==> spec_is_digit(#[trigger] t[j]),
    ensures
        spec_digits_val(t) >= 0,
    decreases t.len(),
{
    if t.len() > 0 {
        lemma_digits_val_nonneg(t.subrange(0, t.len() - 1));
        assert(spec_is_digit(t.last()));
    }
}

/// The value of a digit run never shrinks when the run grows to the right.
proof fn lemma_digits_val_prefix(t: Seq<char>, i: int)
    requires
        0 <= i <= t.len(),
        forall|j: int| 0 <= j < t.len() ==> spec_is_digit(#[trigger] t[j]),
    ensures
        spec_digits_val(t.subrange(0, i)) <= spec_digits_val(t),
        spec_digits_val(t.subrange(0, i)) >= 0,
    decreases t.len() - i,
{
    if i == t.len() {
        assert(t.subrange(0, i) =~= t);
        lemma_digits_val_nonneg(t);
    } else {
        lemma_digits_val_prefix(t, i + 1);
        let u = t.subrange(0, i + 1);
        assert(u.subrange(0, i) =~= t.subrange(0, i));
        assert(spec_digits_val(u) == spec_digits_val(t.subrange(0, i)) * 10 + (u.last() as u32
            - 48));
        assert(spec_is_digit(t[i]));
    }
}

/// The `u64` a numeral token denotes, if it is all digits and in range.
fn str_to_u64(t: &str) -> (r: Option<u64>)
    ensures
        r == spec_parse_u64(t@),
{
    let n = t.unicode_len();
    if n == 0 {
        return None;
    }
    let mut acc: u64 = 0;
    let mut i: usize = 0;
    while i < n
        invariant
            n == t@.len(),
            0 <= i <= n,
            forall|j: int| 0 <= j < i ==> spec_is_digit(#[trigger] t@[j]),
            acc == spec_digits_val(t@.subrange(0, i as int)),
        decreases n - i,
    {
        let c = t.get_char(i);
        let v = c as u32;
        if v < 48 || v > 57 {
            assert(!spec_is_digit(t@[i as int]));
            return None;
        }
        let d = (v - 48) as u64;
        proof {
            let u = t@.subrange(0, i + 1);
            assert(u.subrange(0, i as int) =~= t@.subrange(0, i as int));
            assert(u.last() == t@[i as int]);
            assert(spec_digits_val(u) == acc * 10 + d);
        }
        let step = match acc.checked_mul(10) {
            Some(m) => m.checked_add(d),
            None => None,
        };
        match step {
            Some(next) => {
                acc = next;
            },
            None => {
                proof {
                    if spec_all_digits(t@) {
                        lemma_digits_val_prefix(t@, i + 1);
                        assert(spec_digits_val(t@) >= spec_digits_val(t@.subrange(0, i + 1)));
                    }
                }
                return None;
            },
        }
        i += 1;
    }
    proof {
        assert(t@.subrange(0, n as int) =~= t@);
    }
    Some(acc)
}

/// The `i32` a numeral token denotes: an optional minus sign, then digits.
fn str_to_i32(t: &str) -> (r: Option<i32>)
    ensures
        r == spec_parse_i32(t@),
{
    let n = t.unicode_len();
    if n > 0 && t.get_char(0) == '-' {
        let digits = t.substring_char(1, n);
        match str_to_u64(digits) {
            Some(v) => {
                proof {
                    lemma_digits_val_nonneg(digits@);
                    assert(spec_digits_val(digits@) == v as int);
                }
                if v <= 2147483648u64 {
                    Some((-(v as i64)) as i32)
                } else {
                    None
                }
            },
            None => None,
        }
    } else {
        match str_to_u64(t) {
            Some(v) => {
                proof {
                    lemma_digits_val_nonneg(t@);
                    assert(spec_digits_val(t@) == v as int);
                }
                if v <= 2147483647u64 {
                    Some(v as i32)
                } else {
                    None
                }
            },
            None => None,
        }
    }
}

} // verus!

verus! {

/// A media kind keyword: `image`, `video` or `audio`.
fn parse_media_type(s: &str, pos: usize, n: usize) -> (r: Option<(MediaType, usize)>)
    requires
        n == s@.len(),
        pos <= n,
    ensures
        match r {
            Some((mt, p)) => spec_parse_media_type(s@, pos as int) == Some((mt, p as int)) && pos
                < p <= n,
            None => spec_parse_media_type(s@, pos as int) is None,
        },
{
    proof {
        reveal_strlit("image");
        reveal_strlit("video");
        reveal_strlit("audio");
    }
    if matches_at(s, pos, n, "image") {
        Some((MediaType::Image, pos + 5))
    } else if matches_at(s, pos, n, "video") {
        Some((MediaType::Video, pos + 5))
    } else if matches_at(s, pos, n, "audio") {
        Some((MediaType::Audio, pos + 5))
    } else {
        None
    }
}

/// A comparison operator: `~`, `=` or `!=`.
fn parse_operator(s: &str, pos: usize, n: usize) -> (r: Option<(String, usize)>)
    requires
        n == s@.len(),
        pos <= n,
    ensures
        match r {
            Some((op, p)) => spec_parse_operator(s@, pos as int) == Some((op@, p as int)) && pos
                < p <= n,
            None => spec_parse_operator(s@, pos as int) is None,
        },
{
    proof {
        reveal_strlit("~");
        reveal_strlit("=");
        reveal_strlit("!=");
    }
    if matches_at(s, pos, n, "~") {
        Some((String::from_str("~"), pos + 1))
    } else if matches_at(s, pos, n, "=") {
        Some((String::from_str("="), pos + 1))
    } else if matches_at(s, pos, n, "!=") {
        Some((String::from_str("!="), pos + 2))
    } else {
        None
    }
}

/// `where`, a field name, an operator, and a quoted value.
fn parse_where(s: &str, pos: usize, n: usize) -> (r: Option<(MediaFilter, usize)>)
    requires
        n == s@.len(),
        pos <= n,
    ensures
        match r {
            Some((f, p)) => spec_parse_where(s@, pos as int) == Some((f.deep_view(), p as int))
                && pos < p <= n,
            None => spec_parse_where(s@, pos as int) is None,
        },
{
    proof {
        reveal_strlit("where");
    }
    if !matches_at(s, pos, n, "where") {
        return None;
    }
    match ws1(s, pos + 5, n) {
        Some(p1) => {
            let p2 = scan(s, p1, n, CharClass::Token);
            let field = String::from_str(s.substring_char(p1, p2));
            let p3 = scan(s, p2, n, CharClass::Ws);
            match parse_operator(s, p3, n) {
                Some((operator, p4)) => {
                    let p5 = scan(s, p4, n, CharClass::Ws);
                    match parse_quoted(s, p5, n) {
                        Some((value, p6)) => Some(
                            (MediaFilter::Where { field, operator, value }, p6),
                        ),
                        None => None,
                    }
                },
                None => None,
            }
        },
        None => None,
    }
}

/// The items of an extension list after the first: `, item` repeated.
fn parse_ext_more(s: &str, pos: usize, n: usize) -> (r: (Vec<String>, usize))
    requires
        n == s@.len(),
        pos <= n,
    ensures
        ({
            let sr = spec_parse_ext_more(s@, pos as int);
            deep_view_strs(r.0@) == sr.0 && r.1 == sr.1 && pos <= r.1 <= n
        }),
    decreases n - pos,
{
    let p1 = scan(s, pos, n, CharClass::Ws);
    if p1 < n && s.get_char(p1) == ',' {
        let p2 = scan(s, p1 + 1, n, CharClass::Ws);
        let p3 = scan(s, p2, n, CharClass::ExtChar);
        let item = String::from_str(s.substring_char(p2, p3));
        let (mut rest, pf) = parse_ext_more(s, p3, n);
        let ghost r0 = rest@;
        rest.insert(0, item);
        proof {
            lemma_insert_front(r0, item);
            lemma_deep_view_strs_cons(item, r0);
        }
        (rest, pf)
    } else {
        proof {
            assert(deep_view_strs(Seq::<String>::empty()) =~= Seq::<Seq<char>>::empty());
        }
        (Vec::new(), pos)
    }
}

/// `extensions` followed by a comma-separated list of suffixes.
fn parse_extensions(s: &str, pos: usize, n: usize) -> (r: Option<(MediaFilter, usize)>)
    requires
        n == s@.len(),
        pos <= n,
    ensures
        match r {
            Some((f, p)) => spec_parse_extensions(s@, pos as int) == Some(
                (f.deep_view(), p as int),
            ) && pos < p <= n,
            None => spec_parse_extensions(s@, pos as int) is None,
        },
{
    proof {
        reveal_strlit("extensions");
    }
    if !matches_at(s, pos, n, "extensions") {
        return None;
    }
    match ws1(s, pos + 10, n) {
        Some(p1) => {
            let p2 = scan(s, p1, n, CharClass::ExtChar);
            let first = String::from_str(s.substring_char(p1, p2));
            let (mut rest, p3) = parse_ext_more(s, p2, n);
            let ghost r0 = rest@;
            rest.insert(0, first);
            proof {
                lemma_insert_front(r0, first);
                lemma_deep_view_strs_cons(first, r0);
            }
            Some((MediaFilter::Extensions { extensions: rest }, p3))
        },
        None => None,
    }
}

/// A media filter: a `where` filter, else an `extensions` filter.
fn parse_media_filter(s: &str, pos: usize, n: usize) -> (r: Option<(MediaFilter, usize)>)
    requires
        n == s@.len(),
        pos <= n,
    ensures
        match r {
            Some((f, p)) => spec_parse_media_filter(s@, pos as int) == Some(
                (f.deep_view(), p as int),
            ) && pos < p <= n,
            None => spec_parse_media_filter(s@, pos as int) is None,
        },
{
    match parse_where(s, pos, n) {
        Some(r) => Some(r),
        None => parse_extensions(s, pos, n),
    }
}

/// As many media filters as stand here, each after any whitespace.
fn parse_media_filters(s: &str, pos: usize, n: usize) -> (r: (Vec<MediaFilter>, usize))
    requires
        n == s@.len(),
        pos <= n,
    ensures
        ({
            let sr = spec_parse_media_filters(s@, pos as int);
            deep_view_filters(r.0@) == sr.0 && r.1 == sr.1 && pos <= r.1 <= n
        }),
    decreases n - pos,
{
    let p1 = scan(s, pos, n, CharClass::Ws);
    match parse_media_filter(s, p1, n) {
        Some((f, p2)) => {
            let (mut rest, pf) = parse_media_filters(s, p2, n);
            let ghost r0 = rest@;
            rest.insert(0, f);
            proof {
                lemma_insert_front(r0, f);
                lemma_deep_view_filters_cons(f, r0);
            }
            (rest, pf)
        },
        None => {
            proof {
                assert(deep_view_filters(Seq::<MediaFilter>::empty())
                    =~= Seq::<crate::ast::FilterSpec>::empty());
            }
            (Vec::new(), pos)
        },
    }
}

/// As many media blocks as stand here: a media kind, then its filters.
fn parse_media_blocks(s: &str, pos: usize, n: usize) -> (r: (Vec<MediaBlock>, usize))
    requires
        n == s@.len(),
        pos <= n,
    ensures
        ({
            let sr = spec_parse_media_blocks(s@, pos as int);
            deep_view_blocks(r.0@) == sr.0 && r.1 == sr.1 && pos <= r.1 <= n
        }),
    decreases n - pos,
{
    let p1 = scan(s, pos, n, CharClass::Ws);
    match parse_media_type(s, p1, n) {
        Some((mt, p2)) => {
            let (filters, p3) = parse_media_filters(s, p2, n);
            let block = MediaBlock { media_type: mt, filters, save_path: None };
            let (mut rest, pf) = parse_media_blocks(s, p3, n);
            let ghost r0 = rest@;
            rest.insert(0, block);
            proof {
                lemma_insert_front(r0, block);
                lemma_deep_view_blocks_cons(block, r0);
            }
            (rest, pf)
        },
        None => {
            proof {
                assert(deep_view_blocks(Seq::<MediaBlock>::empty())
                    =~= Seq::<crate::ast::BlockSpec>::empty());
            }
            (Vec::new(), pos)
        },
    }
}

/// `media` followed by its blocks.
fn parse_media(s: &str, pos: usize, n: usize) -> (r: Option<(MslCommand, usize)>)
    requires
        n == s@.len(),
        pos <= n,
    ensures
        match r {
            Some((c, p)) => spec_parse_media(s@, pos as int) == Some((c.deep_view(), p as int))
                && pos < p <= n,
            None => spec_parse_media(s@, pos as int) is None,
        },
{
    proof {
        reveal_strlit("media");
    }
    if !matches_at(s, pos, n, "media") {
        return None;
    }
    let (blocks, p1) = parse_media_blocks(s, pos + 5, n);
    Some((MslCommand::Media { media_blocks: blocks }, p1))
}

/// `open` followed by a quoted URL.
pub fn parse_open(s: &str, pos: usize, n: usize) -> (r: Option<(MslCommand, usize)>)
    requires
        n == s@.len(),
        pos <= n,
    ensures
        match r {
            Some((c, p)) => spec_parse_open(s@, pos as int) == Some((c.deep_view(), p as int))
                && pos < p <= n,
            None => spec_parse_open(s@, pos as int) is None,
        },
{
    proof {
        reveal_strlit("open");
    }
    if !matches_at(s, pos, n, "open") {
        return None;
    }
    match ws1(s, pos + 4, n) {
        Some(p1) => match parse_quoted(s, p1, n) {
            Some((url, p2)) => Some((MslCommand::Open { url }, p2)),
            None => None,
        },
        None => None,
    }
}

/// `save to` followed by a quoted path.
fn parse_save(s: &str, pos: usize, n: usize) -> (r: Option<(MslCommand, usize)>)
    requires
        n == s@.len(),
        pos <= n,
    ensures
        match r {
            Some((c, p)) => spec_parse_save(s@, pos as int) == Some((c.deep_view(), p as int))
                && pos < p <= n,
            None => spec_parse_save(s@, pos as int) is None,
        },
{
    proof {
        reveal_strlit("save");
        reveal_strlit("to");
    }
    if !matches_at(s, pos, n, "save") {
        return None;
    }
    match ws1(s, pos + 4, n) {
        Some(p1) => if matches_at(s, p1, n, "to") {
            match ws1(s, p1 + 2, n) {
                Some(p2) => match parse_quoted(s, p2, n) {
                    Some((path, p3)) => Some((MslCommand::Save { path }, p3)),
                    None => None,
                },
                None => None,
            }
        } else {
            None
        },
        None => None,
    }
}

/// `wait` followed by a numeral token; an invalid numeral means 1 second.
fn parse_wait(s: &str, pos: usize, n: usize) -> (r: Option<(MslCommand, usize)>)
    requires
        n == s@.len(),
        pos <= n,
    ensures
        match r {
            Some((c, p)) => spec_parse_wait(s@, pos as int) == Some((c.deep_view(), p as int))
                && pos < p <= n,
            None => spec_parse_wait(s@, pos as int) is None,
        },
{
    proof {
        reveal_strlit("wait");
    }
    if !matches_at(s, pos, n, "wait") {
        return None;
    }
    match ws1(s, pos + 4, n) {
        Some(p1) => {
            let p2 = scan(s, p1, n, CharClass::Token);
            let token = s.substring_char(p1, p2);
            let seconds = match str_to_u64(token) {
                Some(v) => v,
                None => 1u64,
            };
            Some((MslCommand::Wait { seconds }, p2))
        },
        None => None,
    }
}

/// An extraction recipe: `text`, `attr("…")` or `split("…").split("…")[i]`.
fn parse_value(s: &str, pos: usize, n: usize) -> (r: Option<(MslValue, usize)>)
    requires
        n == s@.len(),
        pos <= n,
    ensures
        match r {
            Some((v, p)) => spec_parse_value(s@, pos as int) == Some((v.deep_view(), p as int))
                && pos < p <= n,
            None => spec_parse_value(s@, pos as int) is None,
        },
{
    proof {
        reveal_strlit("text");
        reveal_strlit("attr");
        reveal_strlit("split");
    }
    if matches_at(s, pos, n, "text") {
        Some((MslValue::Text, pos + 4))
    } else if matches_at(s, pos, n, "attr") {
        match parse_paren_quoted(s, pos + 4, n) {
            Some((name, p1)) => Some((MslValue::Attribute { name }, p1)),
            None => None,
        }
    } else if matches_at(s, pos, n, "split") {
        match parse_paren_quoted(s, pos + 5, n) {
            Some((_first, p1)) => if p1 < n && s.get_char(p1) == '.' && matches_at(
                s,
                p1 + 1,
                n,
                "split",
            ) {
                match parse_paren_quoted(s, p1 + 6, n) {
                    Some((delimiter, p2)) => if p2 < n && s.get_char(p2) == '[' {
                        let p3 = scan(s, p2 + 1, n, CharClass::IdxChar);
                        if p3 < n {
                            let token = s.substring_char(p2 + 1, p3);
                            let index = match str_to_i32(token) {
                                Some(v) => v,
                                None => -1i32,
                            };
                            Some((MslValue::Split { delimiter, index }, p3 + 1))
                        } else {
                            None
                        }
                    } else {
                        None
                    },
                    None => None,
                }
            } else {
                None
            },
            None => None,
        }
    } else {
        None
    }
}

/// `set`, a variable name, `=`, and an extraction recipe.
fn parse_set(s: &str, pos: usize, n: usize) -> (r: Option<(MslCommand, usize)>)
    requires
        n == s@.len(),
        pos <= n,
    ensures
        match r {
            Some((c, p)) => spec_parse_set(s@, pos as int) == Some((c.deep_view(), p as int))
                && pos < p <= n,
            None => spec_parse_set(s@, pos as int) is None,
        },
{
    proof {
        reveal_strlit("set");
    }
    if !matches_at(s, pos, n, "set") {
        return None;
    }
    match ws1(s, pos + 3, n) {
        Some(p1) => {
            let p2 = scan(s, p1, n, CharClass::VarChar);
            let variable = String::from_str(s.substring_char(p1, p2));
            let p3 = scan(s, p2, n, CharClass::Ws);
            if p3 < n && s.get_char(p3) == '=' {
                let p4 = scan(s, p3 + 1, n, CharClass::Ws);
                match parse_value(s, p4, n) {
                    Some((value, p5)) => Some((MslCommand::SetVar { variable, value }, p5)),
                    None => None,
                }
            } else {
                None
            }
        },
        None => None,
    }
}

} // verus!

verus! {

/// One command at nesting depth `depth`, dispatched over the keywords in
/// the fixed order `open`, `click`, `set`, `media`, `save`, `wait`.
pub fn parse_command(s: &str, pos: usize, n: usize, depth: usize) -> (r: Option<
    (MslCommand, usize),
>)
    requires
        n == s@.len(),
        pos <= n,
        7 * depth <= pos,
    ensures
        match r {
            Some((c, p)) => spec_parse_command(s@, pos as int, depth as int) == Some(
                (c.deep_view(), p as int),
            ) && pos < p <= n,
            None => spec_parse_command(s@, pos as int, depth as int) is None,
        },
    decreases n - pos, 11int,
{
    match parse_open(s, pos, n) {
        Some(r) => Some(r),
        None => match parse_click(s, pos, n, depth) {
            Some(r) => Some(r),
            None => match parse_set(s, pos, n) {
                Some(r) => Some(r),
                None => match parse_media(s, pos, n) {
                    Some(r) => Some(r),
                    None => match parse_save(s, pos, n) {
                        Some(r) => Some(r),
                        None => parse_wait(s, pos, n),
                    },
                },
            },
        },
    }
}

/// `click`, a quoted selector, and a body of commands one level deeper.
pub fn parse_click(s: &str, pos: usize, n: usize, depth: usize) -> (r: Option<(MslCommand, usize)>)
    requires
        n == s@.len(),
        pos <= n,
        7 * depth <= pos,
    ensures
        match r {
            Some((c, p)) => spec_parse_click(s@, pos as int, depth as int) == Some(
                (c.deep_view(), p as int),
            ) && pos < p <= n,
            None => spec_parse_click(s@, pos as int, depth as int) is None,
        },
    decreases n - pos, 10int,
{
    proof {
        reveal_strlit("click");
    }
    if !matches_at(s, pos, n, "click") {
        return None;
    }
    match ws1(s, pos + 5, n) {
        Some(p1) => match parse_quoted(s, p1, n) {
            Some((selector, p2)) => {
                assert(7 * (depth + 1) <= p2);
                let (body, p3) = parse_click_body(s, p2, n, depth + 1);
                Some((MslCommand::Click { selector, commands: body }, p3))
            },
            None => None,
        },
        None => None,
    }
}

/// The body of a `click` block: commands on following lines, each indented
/// by exactly `2 * depth` spaces.
fn parse_click_body(s: &str, pos: usize, n: usize, depth: usize) -> (r: (Vec<MslCommand>, usize))
    requires
        n == s@.len(),
        pos <= n,
        7 * depth <= pos,
    ensures
        ({
            let sr = spec_parse_click_body(s@, pos as int, depth as int);
            deep_view_cmds(r.0@) == sr.0 && r.1 == sr.1 && pos <= r.1 <= n
        }),
    decreases n - pos, 9int,
{
    match parse_indented(s, pos, n, depth) {
        Some((c, p2)) => {
            let (mut rest, pf) = parse_click_body(s, p2, n, depth);
            let ghost r0 = rest@;
            rest.insert(0, c);
            proof {
                lemma_insert_front(r0, c);
                lemma_deep_view_cmds_cons(c, r0);
            }
            (rest, pf)
        },
        None => {
            (Vec::new(), pos)
        },
    }
}

/// The line break before a body command at depth `depth`: optional inline
/// whitespace, a newline, then exactly `2 * depth` spaces.
fn parse_indented(s: &str, pos: usize, n: usize, depth: usize) -> (r: Option<(MslCommand, usize)>)
    requires
        n == s@.len(),
        pos <= n,
        7 * depth <= pos,
    ensures
        match r {
            Some((c, p)) => spec_parse_indented(s@, pos as int, depth as int) == Some(
                (c.deep_view(), p as int),
            ) && pos < p <= n,
            None => spec_parse_indented(s@, pos as int, depth as int) is None,
        },
    decreases n - pos, 8int,
{
    let p1 = scan(s, pos, n, CharClass::InlineWs);
    if p1 < n && s.get_char(p1) == '\n' {
        assert(2 * depth <= pos);
        let indent = 2 * depth;
        if indent <= n - (p1 + 1) {
            let mut j: usize = 0;
            while j < indent
                invariant
                    n == s@.len(),
                    pos <= n,
                    7 * depth <= pos,
                    indent == 2 * depth,
                    p1 == spec_scan(s@, pos as int, CharClass::InlineWs),
                    pos <= p1 < n,
                    s@[p1 as int] == '\n',
                    p1 + 1 + indent <= n,
                    0 <= j <= indent,
                    forall|k: int| p1 + 1 <= k < p1 + 1 + j ==> s@[k] == ' ',
                decreases indent - j,
            {
                if s.get_char(p1 + 1 + j) != ' ' {
                    proof {
                        let bad = p1 + 1 + j as int;
                        assert(s@[bad] != ' ');
                        assert(!(forall|k: int|
                            p1 + 1 <= k < p1 + 1 + indent ==> s@[k] == ' ')) by {
                            assert(p1 + 1 <= bad < p1 + 1 + indent && s@[bad] != ' ');
                        }
                    }
                    return None;
                }
                j += 1;
            }
            let p2 = p1 + 1 + indent;
            parse_command(s, p2, n, depth)
        } else {
            None
        }
    } else {
        None
    }
}

/// The top-level command list: commands after any whitespace, as many as
/// parse.
fn parse_cmds(s: &str, pos: usize, n: usize) -> (r: (Vec<MslCommand>, usize))
    requires
        n == s@.len(),
        pos <= n,
    ensures
        ({
            let sr = spec_parse_cmds(s@, pos as int);
            deep_view_cmds(r.0@) == sr.0 && r.1 == sr.1 && pos <= r.1 <= n
        }),
    decreases n - pos, 12int,
{
    let p1 = scan(s, pos, n, CharClass::Ws);
    match parse_command(s, p1, n, 0) {
        Some((c, p2)) => {
            let (mut rest, pf) = parse_cmds(s, p2, n);
            let ghost r0 = rest@;
            rest.insert(0, c);
            proof {
                lemma_insert_front(r0, c);
                lemma_deep_view_cmds_cons(c, r0);
            }
            (rest, pf)
        },
        None => {
            (Vec::new(), pos)
        },
    }
}

/// Parses a whole script, or fails with a `ParseError` carrying the
/// unconsumed remainder when anything but trailing whitespace is left after
/// the last command that parses.
pub fn parse_script(input: &str) -> (r: Result<MslScript, MslError>)
    ensures
        match spec_parse_script(input@) {
            Ok(cmds) => r matches Ok(sc) && sc.deep_view().commands == cmds,
            Err(rem) => r matches Err(e) && (e matches MslError::ParseError(m) && m@
                == "Unparsed content: "@ + rem),
        },
{
    let n = input.unicode_len();
    let (commands, pf) = parse_cmds(input, 0, n);
    let after = scan(input, pf, n, CharClass::Ws);
    if after == n {
        Ok(MslScript { commands })
    } else {
        let remainder = input.substring_char(pf, n);
        let msg = String::from_str("Unparsed content: ").concat(remainder);
        Err(MslError::ParseError(msg))
    }
}

} // verus!
