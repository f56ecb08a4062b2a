//! Laws of the grammar, proved against the spec functions of
//! `crate::grammar`: whole families of scripts whose parse is pinned down
//! exactly.

use vstd::prelude::*;

use crate::ast::CmdSpec;
use crate::grammar::CharClass;
use crate::grammar::in_class;
use crate::grammar::spec_find;
use crate::grammar::spec_match_lit;
use crate::grammar::spec_parse_click;
use crate::grammar::spec_parse_click_body;
use crate::grammar::spec_parse_cmds;
use crate::grammar::spec_parse_command;
use crate::grammar::spec_parse_indented;
use crate::grammar::spec_parse_open;
use crate::grammar::spec_parse_quoted;
use crate::grammar::spec_parse_media;
use crate::grammar::spec_parse_save;
use crate::grammar::spec_parse_script;
use crate::grammar::spec_parse_set;
use crate::grammar::spec_scan;
use crate::grammar::spec_skip_ws;
use crate::grammar::spec_ws1;

verus! {

/// A string without a quote character; only such strings can stand inside
/// the quotes of the grammar, since a quote always terminates them.
pub open spec fn quote_free(s: Seq<char>) -> bool {
    forall|i: int| 0 <= i < s.len() ==> s[i] != '"'
}

/// `find` lands on `j` when `c` first occurs there.
proof fn lemma_find_first(s: Seq<char>, pos: int, j: int, c: char)
    requires
        0 <= pos <= j < s.len(),
        s[j] == c,
        forall|i: int| pos <= i < j ==> s[i] != c,
    ensures
        spec_find(s, pos, c) == Some(j),
    decreases j - pos,
{
    if pos < j {
        lemma_find_first(s, pos + 1, j, c);
    }
}

/// No command of the language parses at the end of the input.
proof fn lemma_no_command_at_end(s: Seq<char>, d: int)
    ensures
        spec_parse_command(s, s.len() as int, d) is None,
{
    reveal_strlit("open");
    reveal_strlit("click");
    reveal_strlit("set");
    reveal_strlit("media");
    reveal_strlit("save");
    reveal_strlit("wait");
    let n = s.len() as int;
    assert(!spec_match_lit(s, n, "open"@));
    assert(!spec_match_lit(s, n, "click"@));
    assert(!spec_match_lit(s, n, "set"@));
    assert(!spec_match_lit(s, n, "media"@));
    assert(!spec_match_lit(s, n, "save"@));
    assert(!spec_match_lit(s, n, "wait"@));
}

/// An `open` command line: the keyword and the quoted URL.
pub open spec fn print_open_line(url: Seq<char>) -> Seq<char> {
    "open \""@ + url + "\""@
}

/// An `open` line at `pos` parses to exactly its `Open` command, ending
/// right after the closing quote.
proof fn lemma_parse_open_line(s: Seq<char>, pos: int, url: Seq<char>)
    requires
        0 <= pos,
        pos + 7 + url.len() <= s.len(),
        s.subrange(pos, pos + 6) == "open \""@,
        s.subrange(pos + 6, pos + 6 + url.len()) == url,
        s[pos + 6 + url.len()] == '"',
        quote_free(url),
    ensures
        spec_parse_open(s, pos) == Some((CmdSpec::Open { url }, pos + 7 + url.len())),
{
    reveal_strlit("open \"");
    reveal_strlit("open");
    assert forall|i: int| 0 <= i < 4 implies s.subrange(pos, pos + 4)[i] == "open"@[i] by {
        assert(s.subrange(pos, pos + 4)[i] == s[pos + i]);
        assert(s.subrange(pos, pos + 6)[i] == s[pos + i]);
    }
    assert(s.subrange(pos, pos + 4) =~= "open"@);
    assert(spec_match_lit(s, pos, "open"@));
    assert(s.subrange(pos, pos + 6)[4] == s[pos + 4]);
    assert(s[pos + 4] == ' ');
    assert(s.subrange(pos, pos + 6)[5] == s[pos + 5]);
    assert(s[pos + 5] == '"');
    let close = pos + 6 + url.len();
    assert forall|i: int| pos + 6 <= i < close implies s[i] != '"' by {
        assert(s.subrange(pos + 6, pos + 6 + url.len())[i - (pos + 6)] == s[i]);
        assert(url[i - (pos + 6)] != '"');
    }
    lemma_find_first(s, pos + 6, close, '"');
    assert(spec_scan(s, pos + 5, CharClass::Ws) == pos + 5) by {
        assert(!in_class(CharClass::Ws, s[pos + 5]));
    }
    assert(spec_scan(s, pos + 4, CharClass::Ws) == pos + 5);
    assert(spec_ws1(s, pos + 4) == Some(pos + 5));
    assert(spec_parse_quoted(s, pos + 5) == Some((url, close + 1)));
}

} // verus!

verus! {

/// A run of spaces.
pub open spec fn spaces(k: nat) -> Seq<char> {
    Seq::new(k, |i: int| ' ')
}

/// A chain of `click` blocks, each body holding exactly the next `click`,
/// indented two further spaces per level.
pub open spec fn print_click_chain(sels: Seq<Seq<char>>, d: nat) -> Seq<char>
    decreases sels.len(),
{
    if sels.len() == 0 {
        Seq::empty()
    } else if sels.len() == 1 {
        "click \""@ + sels[0] + "\""@
    } else {
        "click \""@ + sels[0] + "\""@ + seq!['\n'] + spaces(2 * (d + 1)) + print_click_chain(
            sels.subrange(1, sels.len() as int),
            d + 1,
        )
    }
}

/// The command such a chain denotes: nested `Click` nodes, one per selector.
pub open spec fn click_chain(sels: Seq<Seq<char>>) -> CmdSpec
    decreases sels.len(),
{
    if sels.len() <= 1 {
        CmdSpec::Click {
            selector: if sels.len() == 0 {
                Seq::empty()
            } else {
                sels[0]
            },
            commands: Seq::empty(),
        }
    } else {
        CmdSpec::Click {
            selector: sels[0],
            commands: seq![click_chain(sels.subrange(1, sels.len() as int))],
        }
    }
}

/// The nesting depth of a chain of `click` nodes.
pub open spec fn chain_depth(c: CmdSpec) -> nat
    decreases c,
{
    match c {
        CmdSpec::Click { selector, commands } => 1 + if commands.len() > 0 {
            chain_depth(commands[0])
        } else {
            0
        },
        _ => 0,
    }
}

/// A chain of one `Click` per selector is as deep as the selector list is
/// long.
pub proof fn lemma_chain_depth(sels: Seq<Seq<char>>)
    requires
        sels.len() > 0,
    ensures
        chain_depth(click_chain(sels)) == sels.len(),
    decreases sels.len(),
{
    if sels.len() > 1 {
        lemma_chain_depth(sels.subrange(1, sels.len() as int));
    }
}

/// A `click` header at `pos` matches the `click` keyword and its quoted
/// selector — and not the `open` keyword tried before it.
proof fn lemma_parse_click_header(s: Seq<char>, pos: int, sel: Seq<char>)
    requires
        0 <= pos,
        pos + 8 + sel.len() <= s.len(),
        s.subrange(pos, pos + 7) == "click \""@,
        s.subrange(pos + 7, pos + 7 + sel.len()) == sel,
        s[pos + 7 + sel.len()] == '"',
        quote_free(sel),
    ensures
        !spec_match_lit(s, pos, "open"@),
        spec_match_lit(s, pos, "click"@),
        spec_ws1(s, pos + 5) == Some(pos + 6),
        spec_parse_quoted(s, pos + 6) == Some((sel, pos + 8 + sel.len())),
{
    reveal_strlit("click \"");
    reveal_strlit("click");
    reveal_strlit("open");
    assert forall|i: int| 0 <= i < 5 implies s.subrange(pos, pos + 5)[i] == "click"@[i] by {
        assert(s.subrange(pos, pos + 5)[i] == s[pos + i]);
        assert(s.subrange(pos, pos + 7)[i] == s[pos + i]);
    }
    assert(s.subrange(pos, pos + 5) =~= "click"@);
    assert(spec_match_lit(s, pos, "click"@));
    assert(s.subrange(pos, pos + 7)[0] == s[pos]);
    assert(s[pos] == 'c');
    if spec_match_lit(s, pos, "open"@) {
        assert(s.subrange(pos, pos + 4)[0] == s[pos]);
    }
    assert(s.subrange(pos, pos + 7)[5] == s[pos + 5]);
    assert(s[pos + 5] == ' ');
    assert(s.subrange(pos, pos + 7)[6] == s[pos + 6]);
    assert(s[pos + 6] == '"');
    let close = pos + 7 + sel.len();
    assert forall|i: int| pos + 7 <= i < close implies s[i] != '"' by {
        assert(s.subrange(pos + 7, pos + 7 + sel.len())[i - (pos + 7)] == s[i]);
        assert(sel[i - (pos + 7)] != '"');
    }
    lemma_find_first(s, pos + 7, close, '"');
    assert(spec_scan(s, pos + 6, CharClass::Ws) == pos + 6) by {
        assert(!in_class(CharClass::Ws, s[pos + 6]));
    }
    assert(spec_scan(s, pos + 5, CharClass::Ws) == pos + 6);
    assert(spec_ws1(s, pos + 5) == Some(pos + 6));
    assert(spec_parse_quoted(s, pos + 6) == Some((sel, close + 1)));
}

/// A printed chain of `click` blocks, standing alone at the end of the
/// input, parses to exactly its nested command.
proof fn lemma_parse_click_chain(s: Seq<char>, pos: int, sels: Seq<Seq<char>>, d: nat)
    requires
        0 <= pos <= s.len(),
        sels.len() > 0,
        forall|i: int| 0 <= i < sels.len() ==> quote_free(#[trigger] sels[i]),
        s.subrange(pos, s.len() as int) == print_click_chain(sels, d),
    ensures
        spec_parse_command(s, pos, d as int) == Some((click_chain(sels), s.len() as int)),
    decreases sels.len(),
{
    reveal_strlit("click \"");
    reveal_strlit("\"");
    let n = s.len() as int;
    let suf = s.subrange(pos, n);
    let sel0 = sels[0];
    assert(quote_free(sel0));
    let header = "click \""@ + sel0 + "\""@;
    let rest = sels.subrange(1, sels.len() as int);
    let pr = print_click_chain(sels, d);
    let indent = 2 * (d + 1);
    assert(header.len() == 8 + sel0.len());
    assert(pr == if sels.len() == 1 {
        header
    } else {
        header + seq!['\n'] + spaces(indent) + print_click_chain(rest, d + 1)
    });
    assert(suf.len() == n - pos);
    if sels.len() == 1 {
        assert(pr.len() == header.len());
    } else {
        assert(pr.len() == header.len() + 1 + indent + print_click_chain(rest, d + 1).len());
    }
    let p2 = pos + 8 + sel0.len();
    assert(p2 <= n);
    assert forall|i: int| 0 <= i < header.len() implies s[pos + i] == header[i] by {
        assert(0 <= i < suf.len());
        assert(suf[i] == s[pos + i]);
        if sels.len() > 1 {
            assert(pr[i] == ((header + seq!['\n'] + spaces(indent)) + print_click_chain(
                rest,
                d + 1,
            ))[i]);
            assert(((header + seq!['\n']) + spaces(indent))[i] == (header + seq!['\n'])[i]);
        }
    }
    assert(s.subrange(pos, pos + 7) =~= "click \""@) by {
        assert forall|i: int| 0 <= i < 7 implies s.subrange(pos, pos + 7)[i]
            == "click \""@[i] by {
            assert(s.subrange(pos, pos + 7)[i] == s[pos + i]);
            assert(s[pos + i] == header[i]);
            assert(header[i] == (("click \""@ + sel0) + "\""@)[i]);
            assert(("click \""@ + sel0)[i] == "click \""@[i]);
        }
    }
    assert(s.subrange(pos + 7, pos + 7 + sel0.len()) =~= sel0) by {
        assert forall|i: int| 0 <= i < sel0.len() implies s.subrange(
            pos + 7,
            pos + 7 + sel0.len(),
        )[i] == sel0[i] by {
            assert(s.subrange(pos + 7, pos + 7 + sel0.len())[i] == s[pos + 7 + i]);
            assert(s[pos + 7 + i] == header[7 + i]);
            assert(header[7 + i] == (("click \""@ + sel0) + "\""@)[7 + i]);
            assert(("click \""@ + sel0)[7 + i] == sel0[i]);
        }
    }
    assert(s[pos + 7 + sel0.len()] == '"') by {
        let k = 7 + sel0.len() as int;
        assert(s[pos + k] == header[k]);
        assert(header[k] == (("click \""@ + sel0) + "\""@)[k]);
    }
    lemma_parse_click_header(s, pos, sel0);
    if sels.len() == 1 {
        assert(p2 == n);
        assert(spec_scan(s, n, CharClass::InlineWs) == n);
        assert(spec_parse_indented(s, n, (d + 1) as int) is None);
        assert(spec_parse_click_body(s, n, (d + 1) as int) == (Seq::<CmdSpec>::empty(), n));
        assert(spec_parse_click(s, pos, d as int) == Some((click_chain(sels), n)));
    } else {
        let p3 = p2 + 1 + indent;
        assert(p3 + print_click_chain(rest, d + 1).len() == n);
        assert forall|i: int| 0 <= i < n - p2 implies s[p2 + i] == #[trigger] (seq!['\n']
            + spaces(indent) + print_click_chain(rest, d + 1))[i] by {
            assert(0 <= header.len() + i < suf.len());
            assert(suf[header.len() + i] == s[p2 + i]);
            assert(pr[header.len() + i] == ((header + (seq!['\n'] + spaces(indent)
                + print_click_chain(rest, d + 1))))[header.len() + i]) by {
                assert(pr =~= header + (seq!['\n'] + spaces(indent) + print_click_chain(
                    rest,
                    d + 1,
                )));
            }
        }
        assert(s[p2] == '\n') by {
            assert((seq!['\n'] + spaces(indent) + print_click_chain(rest, d + 1))[0] == '\n');
        }
        assert(spec_scan(s, p2, CharClass::InlineWs) == p2) by {
            assert(!in_class(CharClass::InlineWs, s[p2]));
        }
        assert forall|j: int| p2 + 1 <= j < p3 implies s[j] == ' ' by {
            let i = j - p2;
            assert(s[p2 + i] == (seq!['\n'] + spaces(indent) + print_click_chain(
                rest,
                d + 1,
            ))[i]);
            assert(((seq!['\n'] + spaces(indent)) + print_click_chain(rest, d + 1))[i] == (seq![
                '\n',
            ] + spaces(indent))[i]);
            assert((seq!['\n'] + spaces(indent))[i] == spaces(indent)[i - 1]);
        }
        assert(s.subrange(p3, n) =~= print_click_chain(rest, d + 1)) by {
            assert forall|i: int| 0 <= i < n - p3 implies s.subrange(p3, n)[i]
                == print_click_chain(rest, d + 1)[i] by {
                assert(s.subrange(p3, n)[i] == s[p3 + i]);
                assert(s[p2 + (1 + indent + i)] == (seq!['\n'] + spaces(indent)
                    + print_click_chain(rest, d + 1))[1 + indent + i]);
                assert(((seq!['\n'] + spaces(indent)) + print_click_chain(rest, d + 1))[1
                    + indent + i] == print_click_chain(rest, d + 1)[i]);
            }
        }
        assert forall|i: int| 0 <= i < rest.len() implies quote_free(#[trigger] rest[i]) by {
            assert(rest[i] == sels[i + 1]);
        }
        lemma_parse_click_chain(s, p3, rest, d + 1);
        assert(spec_parse_indented(s, p2, (d + 1) as int) == Some((click_chain(rest), n)));
        assert(spec_scan(s, n, CharClass::InlineWs) == n);
        assert(spec_parse_indented(s, n, (d + 1) as int) is None);
        assert(spec_parse_click_body(s, n, (d + 1) as int) == (Seq::<CmdSpec>::empty(), n));
        assert(spec_parse_click_body(s, p2, (d + 1) as int) == (
            seq![click_chain(rest)] + Seq::<CmdSpec>::empty(),
            n,
        ));
        assert(seq![click_chain(rest)] + Seq::<CmdSpec>::empty() =~= seq![click_chain(rest)]);
        assert(spec_parse_click(s, pos, d as int) == Some((click_chain(sels), n)));
    }
    assert(spec_parse_open(s, pos) is None);
}

/// `click` bodies nest to arbitrary depth: a chain of `click` blocks, one
/// per selector and each indented two further spaces, parses to a command
/// tree exactly as deep as the chain is long.
pub proof fn lemma_click_nesting(sels: Seq<Seq<char>>)
    requires
        sels.len() > 0,
        forall|i: int| 0 <= i < sels.len() ==> quote_free(#[trigger] sels[i]),
    ensures
        spec_parse_script(print_click_chain(sels, 0)) == Ok::<Seq<CmdSpec>, Seq<char>>(
            seq![click_chain(sels)],
        ),
        chain_depth(click_chain(sels)) == sels.len(),
{
    reveal_strlit("click \"");
    reveal_strlit("\"");
    let s = print_click_chain(sels, 0);
    let n = s.len() as int;
    assert(s.subrange(0, n) =~= s);
    lemma_parse_click_chain(s, 0, sels, 0);
    let header = "click \""@ + sels[0] + "\""@;
    assert(s[0] == 'c') by {
        if sels.len() == 1 {
            assert(s[0] == (("click \""@ + sels[0]) + "\""@)[0]);
            assert(("click \""@ + sels[0])[0] == "click \""@[0]);
        } else {
            assert(s[0] == ((header + seq!['\n'] + spaces(2)) + print_click_chain(
                sels.subrange(1, sels.len() as int),
                1,
            ))[0]);
            assert(((header + seq!['\n']) + spaces(2))[0] == (header + seq!['\n'])[0]);
            assert(header[0] == (("click \""@ + sels[0]) + "\""@)[0]);
            assert(("click \""@ + sels[0])[0] == "click \""@[0]);
        }
    }
    assert(spec_skip_ws(s, 0) == 0) by {
        assert(!in_class(CharClass::Ws, s[0]));
    }
    lemma_no_command_at_end(s, 0);
    assert(spec_scan(s, n, CharClass::Ws) == n);
    assert(spec_parse_cmds(s, n) == (Seq::<CmdSpec>::empty(), n));
    assert(spec_parse_cmds(s, 0) == (seq![click_chain(sels)] + Seq::<CmdSpec>::empty(), n));
    assert(seq![click_chain(sels)] + Seq::<CmdSpec>::empty() =~= seq![click_chain(sels)]);
    lemma_chain_depth(sels);
}

} // verus!

verus! {

/// A `save` command line: the keywords and the quoted path.
pub open spec fn print_save_line(path: Seq<char>) -> Seq<char> {
    "save to \""@ + path + "\""@
}

/// One line of a flat script: a single top-level command with no body.
pub enum FlatLine {
    OpenLine { url: Seq<char> },
    SaveLine { path: Seq<char> },
}

/// Whether the quoted string of the line is free of quote characters.
pub open spec fn flat_line_ok(l: FlatLine) -> bool {
    match l {
        FlatLine::OpenLine { url } => quote_free(url),
        FlatLine::SaveLine { path } => quote_free(path),
    }
}

/// The text of one flat command line.
pub open spec fn flat_line_text(l: FlatLine) -> Seq<char> {
    match l {
        FlatLine::OpenLine { url } => print_open_line(url),
        FlatLine::SaveLine { path } => print_save_line(path),
    }
}

/// The command one flat line denotes.
pub open spec fn flat_line_cmd(l: FlatLine) -> CmdSpec {
    match l {
        FlatLine::OpenLine { url } => CmdSpec::Open { url },
        FlatLine::SaveLine { path } => CmdSpec::Save { path },
    }
}

/// One command per line, in order.
pub open spec fn print_flat_lines(ls: Seq<FlatLine>) -> Seq<char>
    decreases ls.len(),
{
    if ls.len() == 0 {
        Seq::empty()
    } else if ls.len() == 1 {
        flat_line_text(ls[0])
    } else {
        flat_line_text(ls[0]) + seq!['\n'] + print_flat_lines(ls.subrange(1, ls.len() as int))
    }
}

/// The commands a flat script denotes: one per line, in order.
pub open spec fn flat_cmds(ls: Seq<FlatLine>) -> Seq<CmdSpec> {
    ls.map_values(|l: FlatLine| flat_line_cmd(l))
}

/// A `save` line at `pos` parses to exactly its `Save` command — and none
/// of the alternatives tried before `save` parses there.
proof fn lemma_parse_save_line(s: Seq<char>, pos: int, path: Seq<char>)
    requires
        0 <= pos,
        pos + 10 + path.len() <= s.len(),
        s.subrange(pos, pos + 9) == "save to \""@,
        s.subrange(pos + 9, pos + 9 + path.len()) == path,
        s[pos + 9 + path.len()] == '"',
        quote_free(path),
    ensures
        spec_parse_save(s, pos) == Some((CmdSpec::Save { path }, pos + 10 + path.len())),
        spec_parse_open(s, pos) is None,
        forall|d: int| #[trigger] spec_parse_click(s, pos, d) is None,
        spec_parse_set(s, pos) is None,
        spec_parse_media(s, pos) is None,
{
    reveal_strlit("save to \"");
    reveal_strlit("save");
    reveal_strlit("to");
    reveal_strlit("open");
    reveal_strlit("click");
    reveal_strlit("set");
    reveal_strlit("media");
    assert forall|i: int| 0 <= i < 9 implies s[pos + i] == "save to \""@[i] by {
        assert(s.subrange(pos, pos + 9)[i] == s[pos + i]);
    }
    if spec_match_lit(s, pos, "open"@) {
        assert(s.subrange(pos, pos + 4)[0] == s[pos]);
    }
    assert forall|d: int| #[trigger] spec_parse_click(s, pos, d) is None by {
        if spec_match_lit(s, pos, "click"@) {
            assert(s.subrange(pos, pos + 5)[0] == s[pos]);
        }
    }
    if spec_match_lit(s, pos, "set"@) {
        assert(s.subrange(pos, pos + 3)[1] == s[pos + 1]);
    }
    if spec_match_lit(s, pos, "media"@) {
        assert(s.subrange(pos, pos + 5)[0] == s[pos]);
    }
    assert(s.subrange(pos, pos + 4) =~= "save"@) by {
        assert forall|i: int| 0 <= i < 4 implies s.subrange(pos, pos + 4)[i] == "save"@[i] by {
            assert(s.subrange(pos, pos + 4)[i] == s[pos + i]);
        }
    }
    assert(spec_match_lit(s, pos, "save"@));
    assert(s.subrange(pos, pos + 9)[4] == s[pos + 4]);
    assert(s[pos + 4] == ' ');
    assert(s.subrange(pos, pos + 9)[5] == s[pos + 5]);
    assert(s[pos + 5] == 't');
    assert(spec_scan(s, pos + 5, CharClass::Ws) == pos + 5) by {
        assert(!in_class(CharClass::Ws, s[pos + 5]));
    }
    assert(spec_scan(s, pos + 4, CharClass::Ws) == pos + 5);
    assert(spec_ws1(s, pos + 4) == Some(pos + 5));
    assert(s.subrange(pos + 5, pos + 7) =~= "to"@) by {
        assert forall|i: int| 0 <= i < 2 implies s.subrange(pos + 5, pos + 7)[i]
            == "to"@[i] by {
            assert(s.subrange(pos + 5, pos + 7)[i] == s[pos + 5 + i]);
            assert(s.subrange(pos, pos + 9)[5 + i] == s[pos + 5 + i]);
        }
    }
    assert(spec_match_lit(s, pos + 5, "to"@));
    assert(s.subrange(pos, pos + 9)[7] == s[pos + 7]);
    assert(s[pos + 7] == ' ');
    assert(s.subrange(pos, pos + 9)[8] == s[pos + 8]);
    assert(s[pos + 8] == '"');
    assert(spec_scan(s, pos + 8, CharClass::Ws) == pos + 8) by {
        assert(!in_class(CharClass::Ws, s[pos + 8]));
    }
    assert(spec_scan(s, pos + 7, CharClass::Ws) == pos + 8);
    assert(spec_ws1(s, pos + 7) == Some(pos + 8));
    let close = pos + 9 + path.len();
    assert forall|i: int| pos + 9 <= i < close implies s[i] != '"' by {
        assert(s.subrange(pos + 9, pos + 9 + path.len())[i - (pos + 9)] == s[i]);
        assert(path[i - (pos + 9)] != '"');
    }
    lemma_find_first(s, pos + 9, close, '"');
    assert(spec_parse_quoted(s, pos + 8) == Some((path, close + 1)));
}

/// Each flat command line parses off the front of the remaining input, the
/// lines after it following one newline apart.
#[verifier::rlimit(100)]
proof fn lemma_parse_flat_lines(s: Seq<char>, pos: int, ls: Seq<FlatLine>, lead_nl: bool)
    requires
        0 <= pos <= s.len(),
        ls.len() > 0,
        forall|i: int| 0 <= i < ls.len() ==> flat_line_ok(#[trigger] ls[i]),
        s.subrange(pos, s.len() as int) == if lead_nl {
            seq!['\n'] + print_flat_lines(ls)
        } else {
            print_flat_lines(ls)
        },
    ensures
        spec_parse_cmds(s, pos) == (flat_cmds(ls), s.len() as int),
    decreases ls.len(),
{
    reveal_strlit("open \"");
    reveal_strlit("save to \"");
    reveal_strlit("\"");
    let n = s.len() as int;
    let suf = s.subrange(pos, n);
    let off: int = if lead_nl { 1 } else { 0 };
    let l0 = ls[0];
    assert(flat_line_ok(l0));
    let line0 = flat_line_text(l0);
    let rest = ls.subrange(1, ls.len() as int);
    let pr = print_flat_lines(ls);
    assert(pr == if ls.len() == 1 {
        line0
    } else {
        line0 + seq!['\n'] + print_flat_lines(rest)
    });
    let start = pos + off;
    assert(suf.len() == n - pos);
    if ls.len() == 1 {
        assert(pr.len() == line0.len());
    } else {
        assert(pr.len() == line0.len() + 1 + print_flat_lines(rest).len());
    }
    assert(n - pos == off + pr.len());
    assert forall|i: int| 0 <= i < line0.len() implies s[start + i] == line0[i] by {
        assert(0 <= off + i < suf.len());
        assert(suf[off + i] == s[pos + (off + i)]);
        if lead_nl {
            assert(suf[off + i] == (seq!['\n'] + pr)[off + i]);
            assert((seq!['\n'] + pr)[off + i] == pr[i]);
        }
        if ls.len() > 1 {
            assert(pr[i] == (line0 + seq!['\n'] + print_flat_lines(rest))[i]);
            assert((line0 + seq!['\n'] + print_flat_lines(rest))[i] == line0[i]);
        }
    }
    let cmd0 = flat_line_cmd(l0);
    let p2: int;
    match l0 {
        FlatLine::OpenLine { url } => {
            assert(line0.len() == 7 + url.len());
            assert(start + 7 + url.len() <= n);
            assert(s.subrange(start, start + 6) =~= "open \""@) by {
                assert forall|i: int| 0 <= i < 6 implies s.subrange(start, start + 6)[i]
                    == "open \""@[i] by {
                    assert(s.subrange(start, start + 6)[i] == s[start + i]);
                    assert(s[start + i] == line0[i]);
                    assert(line0[i] == (("open \""@ + url) + "\""@)[i]);
                    assert(("open \""@ + url)[i] == "open \""@[i]);
                }
            }
            assert(s.subrange(start + 6, start + 6 + url.len()) =~= url) by {
                assert forall|i: int| 0 <= i < url.len() implies s.subrange(
                    start + 6,
                    start + 6 + url.len(),
                )[i] == url[i] by {
                    assert(s.subrange(start + 6, start + 6 + url.len())[i] == s[start + 6 + i]);
                    assert(s[start + 6 + i] == line0[6 + i]);
                    assert(line0[6 + i] == (("open \""@ + url) + "\""@)[6 + i]);
                    assert(("open \""@ + url)[6 + i] == url[i]);
                }
            }
            assert(s[start + 6 + url.len()] == '"') by {
                let k = 6 + url.len() as int;
                assert(s[start + k] == line0[k]);
                assert(line0[k] == (("open \""@ + url) + "\""@)[k]);
            }
            lemma_parse_open_line(s, start, url);
            p2 = start + 7 + url.len();
            assert(spec_parse_command(s, start, 0) == Some((cmd0, p2)));
        },
        FlatLine::SaveLine { path } => {
            assert(line0.len() == 10 + path.len());
            assert(start + 10 + path.len() <= n);
            assert(s.subrange(start, start + 9) =~= "save to \""@) by {
                assert forall|i: int| 0 <= i < 9 implies s.subrange(start, start + 9)[i]
                    == "save to \""@[i] by {
                    assert(s.subrange(start, start + 9)[i] == s[start + i]);
                    assert(s[start + i] == line0[i]);
                    assert(line0[i] == (("save to \""@ + path) + "\""@)[i]);
                    assert(("save to \""@ + path)[i] == "save to \""@[i]);
                }
            }
            assert(s.subrange(start + 9, start + 9 + path.len()) =~= path) by {
                assert forall|i: int| 0 <= i < path.len() implies s.subrange(
                    start + 9,
                    start + 9 + path.len(),
                )[i] == path[i] by {
                    assert(s.subrange(start + 9, start + 9 + path.len())[i] == s[start + 9
                        + i]);
                    assert(s[start + 9 + i] == line0[9 + i]);
                    assert(line0[9 + i] == (("save to \""@ + path) + "\""@)[9 + i]);
                    assert(("save to \""@ + path)[9 + i] == path[i]);
                }
            }
            assert(s[start + 9 + path.len()] == '"') by {
                let k = 9 + path.len() as int;
                assert(s[start + k] == line0[k]);
                assert(line0[k] == (("save to \""@ + path) + "\""@)[k]);
            }
            lemma_parse_save_line(s, start, path);
            p2 = start + 10 + path.len();
            assert(spec_parse_click(s, start, 0) is None);
            assert(spec_parse_command(s, start, 0) == Some((cmd0, p2)));
        },
    }
    assert(s[start] == line0[0]);
    assert(!in_class(CharClass::Ws, s[start])) by {
        match l0 {
            FlatLine::OpenLine { url } => {
                assert(line0[0] == (("open \""@ + url) + "\""@)[0]);
                assert(("open \""@ + url)[0] == "open \""@[0]);
            },
            FlatLine::SaveLine { path } => {
                assert(line0[0] == (("save to \""@ + path) + "\""@)[0]);
                assert(("save to \""@ + path)[0] == "save to \""@[0]);
            },
        }
    }
    if lead_nl {
        assert(s[pos] == '\n') by {
            assert(suf[0] == s[pos]);
            assert((seq!['\n'] + pr)[0] == '\n');
        }
        assert(spec_scan(s, start, CharClass::Ws) == start);
        assert(spec_skip_ws(s, pos) == start);
    } else {
        assert(spec_skip_ws(s, pos) == pos);
    }
    if ls.len() == 1 {
        assert(p2 == n);
        lemma_no_command_at_end(s, 0);
        assert(spec_scan(s, n, CharClass::Ws) == n);
        assert(spec_parse_cmds(s, n) == (Seq::<CmdSpec>::empty(), n));
        assert(flat_cmds(ls) =~= seq![cmd0] + Seq::<CmdSpec>::empty());
    } else {
        assert(pos < p2 <= n);
        assert(s.subrange(p2, n) =~= seq!['\n'] + print_flat_lines(rest)) by {
            assert forall|i: int| 0 <= i < n - p2 implies s.subrange(p2, n)[i] == #[trigger] (
            seq!['\n'] + print_flat_lines(rest))[i] by {
                assert(s.subrange(p2, n)[i] == s[p2 + i]);
                assert(suf[off + line0.len() + i] == s[p2 + i]);
                if lead_nl {
                    assert(suf[off + line0.len() + i] == (seq!['\n'] + pr)[off + line0.len()
                        + i]);
                    assert((seq!['\n'] + pr)[off + line0.len() + i] == pr[line0.len() + i]);
                } else {
                    assert(suf[line0.len() + i] == pr[line0.len() + i]);
                }
                assert(pr[line0.len() + i] == ((line0 + seq!['\n']) + print_flat_lines(
                    rest,
                ))[line0.len() + i]);
            }
        }
        assert forall|i: int| 0 <= i < rest.len() implies flat_line_ok(#[trigger] rest[i]) by {
            assert(rest[i] == ls[i + 1]);
        }
        lemma_parse_flat_lines(s, p2, rest, true);
        assert(flat_cmds(ls) =~= seq![cmd0] + flat_cmds(rest)) by {
            assert(flat_cmds(ls).len() == ls.len());
            assert(flat_cmds(rest).len() == rest.len());
            assert forall|i: int| 0 <= i < ls.len() implies flat_cmds(ls)[i] == (seq![cmd0]
                + flat_cmds(rest))[i] by {
                assert(flat_cmds(ls)[i] == flat_line_cmd(ls[i]));
                if i > 0 {
                    assert(flat_cmds(rest)[i - 1] == flat_line_cmd(rest[i - 1]));
                    assert(rest[i - 1] == ls[i]);
                }
            }
        }
    }
}

/// A flat script — one top-level command per line, no nesting — parses to
/// exactly one command per line, in order: the command count equals the
/// number of command keywords in the script.
pub proof fn lemma_flat_script_command_count(ls: Seq<FlatLine>)
    requires
        ls.len() > 0,
        forall|i: int| 0 <= i < ls.len() ==> flat_line_ok(#[trigger] ls[i]),
    ensures
        spec_parse_script(print_flat_lines(ls)) == Ok::<Seq<CmdSpec>, Seq<char>>(flat_cmds(ls)),
        flat_cmds(ls).len() == ls.len(),
{
    let s = print_flat_lines(ls);
    assert(s.subrange(0, s.len() as int) =~= s);
    lemma_parse_flat_lines(s, 0, ls, false);
    assert(spec_scan(s, s.len() as int, CharClass::Ws) == s.len());
}

} // verus!
