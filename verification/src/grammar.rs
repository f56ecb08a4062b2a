//! The grammar of the scripting language, stated as recursive spec functions
//! over `Seq<char>`.
//!
//! These functions are the reference that the executable parser in
//! `crate::parser` is proved equal to. A parse function takes the whole input
//! and a position and yields the parsed node together with the position just
//! past it, or `None` when the construct is not present at that position.
//! Alternatives are tried in a fixed order and the first whose keyword matches
//! wins.
//!
//! Two policies of the language show up here rather than in error results:
//! a numeral that does not parse falls back to a default (`wait` seconds
//! default to 1, a `split` index defaults to -1), and the body of a `click`
//! block is line-oriented: every command of a body at nesting depth `d`
//! stands on its own line indented by exactly `2 * d` spaces.

use vstd::prelude::*;

use crate::ast::BlockSpec;
use crate::ast::CmdSpec;
use crate::ast::FilterSpec;
use crate::ast::MediaType;
use crate::ast::ValueSpec;

verus! {

/// Characters the grammar treats as whitespace.
pub open spec fn is_ws(c: char) -> bool {
    c == ' ' || c == '\t' || c == '\n' || c == '\r'
}

/// Character classes the scanners of the grammar run over.
#[derive(Debug, Clone, Copy, PartialEq, Eq, Structural)]
pub enum CharClass {
    /// Whitespace, newlines included.
    Ws,
    /// Whitespace within one line: space, tab, carriage return.
    InlineWs,
    /// A character of a variable name: anything but whitespace and `=`.
    VarChar,
    /// Any non-whitespace character; numerals and `where` fields are such runs.
    Token,
    /// A character of an extension list item: anything but space, newline
    /// and comma.
    ExtChar,
    /// A character of a `split` index numeral: anything but `]`.
    IdxChar,
}

/// Whether `c` belongs to the class `cls`.
pub open spec fn in_class(cls: CharClass, c: char) -> bool {
    match cls {
        CharClass::Ws => is_ws(c),
        CharClass::InlineWs => c == ' ' || c == '\t' || c == '\r',
        CharClass::VarChar => !is_ws(c) && c != '=',
        CharClass::Token => !is_ws(c),
        CharClass::ExtChar => c != ' ' && c != '\n' && c != ',',
        CharClass::IdxChar => c != ']',
    }
}

/// Position of the first character at or after `pos` that is not in `cls`
/// (or `s.len()` when the class run reaches the end of the input).
pub open spec fn spec_scan(s: Seq<char>, pos: int, cls: CharClass) -> int
    decreases s.len() - pos,
{
    if pos < 0 || pos >= s.len() {
        s.len() as int
    } else if in_class(cls, s[pos]) {
        spec_scan(s, pos + 1, cls)
    } else {
        pos
    }
}

/// Position of the first non-whitespace character at or after `pos`.
pub open spec fn spec_skip_ws(s: Seq<char>, pos: int) -> int {
    spec_scan(s, pos, CharClass::Ws)
}

/// At least one whitespace character, then any further whitespace: the
/// position after the run, or `None` if `pos` holds no whitespace.
pub open spec fn spec_ws1(s: Seq<char>, pos: int) -> Option<int> {
    if 0 <= pos < s.len() && is_ws(s[pos]) {
        Some(spec_skip_ws(s, pos))
    } else {
        None
    }
}

/// Whether the literal `lit` stands at `pos` in `s`.
pub open spec fn spec_match_lit(s: Seq<char>, pos: int, lit: Seq<char>) -> bool {
    &&& 0 <= pos
    &&& pos + lit.len() <= s.len()
    &&& s.subrange(pos, pos + lit.len()) == lit
}

/// Index of the first occurrence of `c` at or after `pos`, if any.
pub open spec fn spec_find(s: Seq<char>, pos: int, c: char) -> Option<int>
    decreases s.len() - pos,
{
    if pos < 0 || pos >= s.len() {
        None
    } else if s[pos] == c {
        Some(pos)
    } else {
        spec_find(s, pos + 1, c)
    }
}

/// A quoted string: `"` then every character up to the next `"`, which ends
/// it. There are no escape sequences: a quote always terminates the string.
pub open spec fn spec_parse_quoted(s: Seq<char>, pos: int) -> Option<(Seq<char>, int)> {
    if 0 <= pos < s.len() && s[pos] == '"' {
        match spec_find(s, pos + 1, '"') {
            Some(j) => Some((s.subrange(pos + 1, j), j + 1)),
            None => None,
        }
    } else {
        None
    }
}

/// Numeric value of a digit sequence, most significant digit first.
pub open spec fn spec_digits_val(t: Seq<char>) -> int
    decreases t.len(),
{
    if t.len() == 0 {
        0
    } else {
        spec_digits_val(t.subrange(0, t.len() - 1)) * 10 + (t.last() as u32 - 48)
    }
}

/// Whether `c` is an ASCII decimal digit.
pub open spec fn spec_is_digit(c: char) -> bool {
    48 <= c as u32 <= 57
}

/// Whether `t` is a non-empty run of digits.
pub open spec fn spec_all_digits(t: Seq<char>) -> bool {
    t.len() > 0 && forall|i: int| 0 <= i < t.len() ==> spec_is_digit(#[trigger] t[i])
}

/// The `u64` a numeral token denotes: digits only, no sign, value in range.
pub open spec fn spec_parse_u64(t: Seq<char>) -> Option<u64> {
    if spec_all_digits(t) && spec_digits_val(t) <= u64::MAX {
        Some(spec_digits_val(t) as u64)
    } else {
        None
    }
}

/// The `i32` a numeral token denotes: an optional leading minus sign, then
/// digits, value in range.
pub open spec fn spec_parse_i32(t: Seq<char>) -> Option<i32> {
    if t.len() > 0 && t[0] == '-' {
        let d = t.subrange(1, t.len() as int);
        if spec_all_digits(d) && spec_digits_val(d) <= 0x8000_0000 {
            Some((-spec_digits_val(d)) as i32)
        } else {
            None
        }
    } else {
        if spec_all_digits(t) && spec_digits_val(t) <= i32::MAX {
            Some(spec_digits_val(t) as i32)
        } else {
            None
        }
    }
}

/// `open` followed by a quoted URL.
pub open spec fn spec_parse_open(s: Seq<char>, pos: int) -> Option<(CmdSpec, int)> {
    if spec_match_lit(s, pos, "open"@) {
        match spec_ws1(s, pos + 4) {
            Some(p1) => match spec_parse_quoted(s, p1) {
                Some((url, p2)) => Some((CmdSpec::Open { url }, p2)),
                None => None,
            },
            None => None,
        }
    } else {
        None
    }
}

/// `save to` followed by a quoted path.
pub open spec fn spec_parse_save(s: Seq<char>, pos: int) -> Option<(CmdSpec, int)> {
    if spec_match_lit(s, pos, "save"@) {
        match spec_ws1(s, pos + 4) {
            Some(p1) => if spec_match_lit(s, p1, "to"@) {
                match spec_ws1(s, p1 + 2) {
                    Some(p2) => match spec_parse_quoted(s, p2) {
                        Some((path, p3)) => Some((CmdSpec::Save { path }, p3)),
                        None => None,
                    },
                    None => None,
                }
            } else {
                None
            },
            None => None,
        }
    } else {
        None
    }
}

/// `wait` followed by a numeral token. A token that is no valid numeral is
/// not an error: the duration falls back to 1 second.
pub open spec fn spec_parse_wait(s: Seq<char>, pos: int) -> Option<(CmdSpec, int)> {
    if spec_match_lit(s, pos, "wait"@) {
        match spec_ws1(s, pos + 4) {
            Some(p1) => {
                let p2 = spec_scan(s, p1, CharClass::Token);
                let seconds = match spec_parse_u64(s.subrange(p1, p2)) {
                    Some(v) => v,
                    None => 1u64,
                };
                Some((CmdSpec::Wait { seconds }, p2))
            },
            None => None,
        }
    } else {
        None
    }
}

/// An extraction recipe: `text`, `attr("name")`, or
/// `split("…").split("delim")[index]`. An index that is no valid numeral
/// falls back to -1. Of the two `split` arguments the second is the
/// delimiter that is kept.
pub open spec fn spec_parse_value(s: Seq<char>, pos: int) -> Option<(ValueSpec, int)> {
    if spec_match_lit(s, pos, "text"@) {
        Some((ValueSpec::Text, pos + 4))
    } else if spec_match_lit(s, pos, "attr"@) {
        match spec_parse_paren_quoted(s, pos + 4) {
            Some((name, p1)) => Some((ValueSpec::Attribute { name }, p1)),
            None => None,
        }
    } else if spec_match_lit(s, pos, "split"@) {
        match spec_parse_paren_quoted(s, pos + 5) {
            Some((_first, p1)) => if 0 <= p1 < s.len() && s[p1] == '.' && spec_match_lit(
                s,
                p1 + 1,
                "split"@,
            ) {
                match spec_parse_paren_quoted(s, p1 + 6) {
                    Some((delimiter, p2)) => if 0 <= p2 < s.len() && s[p2] == '[' {
                        let p3 = spec_scan(s, p2 + 1, CharClass::IdxChar);
                        if p3 < s.len() {
                            let index = match spec_parse_i32(s.subrange(p2 + 1, p3)) {
                                Some(v) => v,
                                None => -1i32,
                            };
                            Some((ValueSpec::Split { delimiter, index }, p3 + 1))
                        } else {
                            None
                        }
                    } else {
                        None
                    },
                    None => None,
                }
            } else {
                None
            },
            None => None,
        }
    } else {
        None
    }
}

/// A parenthesised quoted string: `("…")`.
pub open spec fn spec_parse_paren_quoted(s: Seq<char>, pos: int) -> Option<(Seq<char>, int)> {
    if 0 <= pos < s.len() && s[pos] == '(' {
        match spec_parse_quoted(s, pos + 1) {
            Some((content, p1)) => if p1 < s.len() && s[p1] == ')' {
                Some((content, p1 + 1))
            } else {
                None
            },
            None => None,
        }
    } else {
        None
    }
}

/// `set`, a variable name, `=`, and an extraction recipe.
pub open spec fn spec_parse_set(s: Seq<char>, pos: int) -> Option<(CmdSpec, int)> {
    if spec_match_lit(s, pos, "set"@) {
        match spec_ws1(s, pos + 3) {
            Some(p1) => {
                let p2 = spec_scan(s, p1, CharClass::VarChar);
                let variable = s.subrange(p1, p2);
                let p3 = spec_skip_ws(s, p2);
                if p3 < s.len() && s[p3] == '=' {
                    let p4 = spec_skip_ws(s, p3 + 1);
                    match spec_parse_value(s, p4) {
                        Some((value, p5)) => Some((CmdSpec::SetVar { variable, value }, p5)),
                        None => None,
                    }
                } else {
                    None
                }
            },
            None => None,
        }
    } else {
        None
    }
}

/// A media kind keyword.
pub open spec fn spec_parse_media_type(s: Seq<char>, pos: int) -> Option<(MediaType, int)> {
    if spec_match_lit(s, pos, "image"@) {
        Some((MediaType::Image, pos + 5))
    } else if spec_match_lit(s, pos, "video"@) {
        Some((MediaType::Video, pos + 5))
    } else if spec_match_lit(s, pos, "audio"@) {
        Some((MediaType::Audio, pos + 5))
    } else {
        None
    }
}

/// `where`, a field name, an operator (`~`, `=` or `!=`), and a quoted value.
pub open spec fn spec_parse_where(s: Seq<char>, pos: int) -> Option<(FilterSpec, int)> {
    if spec_match_lit(s, pos, "where"@) {
        match spec_ws1(s, pos + 5) {
            Some(p1) => {
                let p2 = spec_scan(s, p1, CharClass::Token);
                let field = s.subrange(p1, p2);
                let p3 = spec_skip_ws(s, p2);
                match spec_parse_operator(s, p3) {
                    Some((operator, p4)) => {
                        let p5 = spec_skip_ws(s, p4);
                        match spec_parse_quoted(s, p5) {
                            Some((value, p6)) => Some(
                                (FilterSpec::Where { field, operator, value }, p6),
                            ),
                            None => None,
                        }
                    },
                    None => None,
                }
            },
            None => None,
        }
    } else {
        None
    }
}

/// One of the comparison operators, tried in the order `~`, `=`, `!=`.
pub open spec fn spec_parse_operator(s: Seq<char>, pos: int) -> Option<(Seq<char>, int)> {
    if spec_match_lit(s, pos, "~"@) {
        Some(("~"@, pos + 1))
    } else if spec_match_lit(s, pos, "="@) {
        Some(("="@, pos + 1))
    } else if spec_match_lit(s, pos, "!="@) {
        Some(("!="@, pos + 2))
    } else {
        None
    }
}

/// The items of an extension list after the first: `, item` repeated.
/// Whitespace may stand around each comma.
pub open spec fn spec_parse_ext_more(s: Seq<char>, pos: int) -> (Seq<Seq<char>>, int)
    decreases s.len() - pos, 2int,
{
    let p1 = spec_skip_ws(s, pos);
    if p1 < s.len() && s[p1] == ',' {
        let p2 = spec_skip_ws(s, p1 + 1);
        let p3 = spec_scan(s, p2, CharClass::ExtChar);
        let item = s.subrange(p2, p3);
        if pos < p3 <= s.len() {
            let (rest, pf) = spec_parse_ext_more(s, p3);
            (seq![item] + rest, pf)
        } else {
            (seq![item], p3)
        }
    } else {
        (Seq::empty(), pos)
    }
}

/// `extensions` followed by a comma-separated list of suffixes.
pub open spec fn spec_parse_extensions(s: Seq<char>, pos: int) -> Option<(FilterSpec, int)> {
    if spec_match_lit(s, pos, "extensions"@) {
        match spec_ws1(s, pos + 10) {
            Some(p1) => {
                let p2 = spec_scan(s, p1, CharClass::ExtChar);
                let first = s.subrange(p1, p2);
                let (rest, p3) = spec_parse_ext_more(s, p2);
                Some((FilterSpec::Extensions { extensions: seq![first] + rest }, p3))
            },
            None => None,
        }
    } else {
        None
    }
}

/// A media filter: a `where` filter, else an `extensions` filter.
pub open spec fn spec_parse_media_filter(s: Seq<char>, pos: int) -> Option<(FilterSpec, int)> {
    match spec_parse_where(s, pos) {
        Some(r) => Some(r),
        None => spec_parse_extensions(s, pos),
    }
}

/// As many media filters as stand here, each after any whitespace. The
/// returned position does not include whitespace after the last filter.
pub open spec fn spec_parse_media_filters(s: Seq<char>, pos: int) -> (Seq<FilterSpec>, int)
    decreases s.len() - pos, 4int,
{
    let p1 = spec_skip_ws(s, pos);
    match spec_parse_media_filter(s, p1) {
        Some((f, p2)) => if pos < p2 <= s.len() {
            let (rest, pf) = spec_parse_media_filters(s, p2);
            (seq![f] + rest, pf)
        } else {
            (seq![f], p2)
        },
        None => (Seq::empty(), pos),
    }
}

/// As many media blocks as stand here: a media kind, then its filters.
/// A block records no save path; the language parses `save` as a separate
/// command.
pub open spec fn spec_parse_media_blocks(s: Seq<char>, pos: int) -> (Seq<BlockSpec>, int)
    decreases s.len() - pos, 6int,
{
    let p1 = spec_skip_ws(s, pos);
    match spec_parse_media_type(s, p1) {
        Some((mt, p2)) => {
            let (filters, p3) = spec_parse_media_filters(s, p2);
            let block = BlockSpec { media_type: mt, filters, save_path: None };
            if pos < p3 <= s.len() {
                let (rest, pf) = spec_parse_media_blocks(s, p3);
                (seq![block] + rest, pf)
            } else {
                (seq![block], p3)
            }
        },
        None => (Seq::empty(), pos),
    }
}

/// `media` followed by its blocks.
pub open spec fn spec_parse_media(s: Seq<char>, pos: int) -> Option<(CmdSpec, int)>
    decreases s.len() - pos, 7int,
{
    if spec_match_lit(s, pos, "media"@) {
        if pos + 5 <= s.len() {
            let (blocks, p1) = spec_parse_media_blocks(s, pos + 5);
            Some((CmdSpec::Media { media_blocks: blocks }, p1))
        } else {
            None
        }
    } else {
        None
    }
}

/// The line break before a body command at nesting depth `depth`: optional
/// inline whitespace, a newline, then exactly `2 * depth` spaces of
/// indentation, with the command following directly.
pub open spec fn spec_parse_indented(s: Seq<char>, pos: int, depth: int) -> Option<(CmdSpec, int)>
    decreases s.len() - pos, 8int,
{
    let p1 = spec_scan(s, pos, CharClass::InlineWs);
    if p1 < s.len() && s[p1] == '\n' {
        let p2 = p1 + 1 + 2 * depth;
        if p2 <= s.len() && (forall|j: int| p1 + 1 <= j < p2 ==> s[j] == ' ') && pos < p2 {
            spec_parse_command(s, p2, depth)
        } else {
            None
        }
    } else {
        None
    }
}

/// The body of a `click` block: commands on following lines, each indented
/// by exactly `2 * depth` spaces.
pub open spec fn spec_parse_click_body(s: Seq<char>, pos: int, depth: int) -> (Seq<CmdSpec>, int)
    decreases s.len() - pos, 9int,
{
    match spec_parse_indented(s, pos, depth) {
        Some((c, p2)) => if pos < p2 <= s.len() {
            let (rest, pf) = spec_parse_click_body(s, p2, depth);
            (seq![c] + rest, pf)
        } else {
            (seq![c], p2)
        },
        None => (Seq::empty(), pos),
    }
}

/// `click`, a quoted selector, and a body of commands nested one level
/// deeper.
pub open spec fn spec_parse_click(s: Seq<char>, pos: int, depth: int) -> Option<(CmdSpec, int)>
    decreases s.len() - pos, 10int,
{
    if spec_match_lit(s, pos, "click"@) {
        match spec_ws1(s, pos + 5) {
            Some(p1) => match spec_parse_quoted(s, p1) {
                Some((selector, p2)) => if pos < p2 <= s.len() {
                    let (commands, p3) = spec_parse_click_body(s, p2, depth + 1);
                    Some((CmdSpec::Click { selector, commands }, p3))
                } else {
                    None
                },
                None => None,
            },
            None => None,
        }
    } else {
        None
    }
}

/// One command at nesting depth `depth`. The alternatives are tried in the
/// fixed order `open`, `click`, `set`, `media`, `save`, `wait`.
pub open spec fn spec_parse_command(s: Seq<char>, pos: int, depth: int) -> Option<(CmdSpec, int)>
    decreases s.len() - pos, 11int,
{
    if spec_parse_open(s, pos) is Some {
        spec_parse_open(s, pos)
    } else if spec_parse_click(s, pos, depth) is Some {
        spec_parse_click(s, pos, depth)
    } else if spec_parse_set(s, pos) is Some {
        spec_parse_set(s, pos)
    } else if spec_parse_media(s, pos) is Some {
        spec_parse_media(s, pos)
    } else if spec_parse_save(s, pos) is Some {
        spec_parse_save(s, pos)
    } else {
        spec_parse_wait(s, pos)
    }
}

/// The top-level command list: each command after any whitespace. The
/// returned position stands before the whitespace that precedes the first
/// point where no further command parses.
pub open spec fn spec_parse_cmds(s: Seq<char>, pos: int) -> (Seq<CmdSpec>, int)
    decreases s.len() - pos, 12int,
{
    let p1 = spec_skip_ws(s, pos);
    match spec_parse_command(s, p1, 0) {
        Some((c, p2)) => if pos < p2 <= s.len() {
            let (rest, pf) = spec_parse_cmds(s, p2);
            (seq![c] + rest, pf)
        } else {
            (seq![c], p2)
        },
        None => (Seq::empty(), pos),
    }
}

/// A whole script: the top-level commands, which must consume everything but
/// trailing whitespace. Otherwise the parse fails, carrying the unconsumed
/// remainder.
pub open spec fn spec_parse_script(s: Seq<char>) -> Result<Seq<CmdSpec>, Seq<char>> {
    let (cmds, pf) = spec_parse_cmds(s, 0);
    if spec_skip_ws(s, pf) == s.len() {
        Ok(cmds)
    } else {
        Err(s.subrange(pf, s.len() as int))
    }
}

} // verus!
