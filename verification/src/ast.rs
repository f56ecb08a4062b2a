//! Abstract syntax tree of the scripting language, together with its
//! mathematical model.
//!
//! Each executable type has a spec-level counterpart over `Seq<char>`; the
//! model of a value is its `deep_view()`. `MslCommand` is a recursive tree:
//! the body of a `Click` command is itself a sequence of commands.

use vstd::prelude::*;

verus! {

broadcast use vstd::std_specs::vec::group_vec_axioms, vstd::seq::group_seq_axioms;

/// Errors reported by the parser and the engine.
#[derive(Debug, Clone, PartialEq, Eq)]
pub enum MslError {
    /// The grammar could not consume the whole script; carries a message
    /// holding the unconsumed remainder.
    ParseError(String),
    /// A malformed CSS selector was handed to the extraction collaborator.
    InvalidSelector(String),
    /// A URL could not be resolved or joined against a base.
    InvalidUrl(String),
    /// A page-dependent command ran before any successful `open`.
    NoPageLoaded,
    /// A fetch or download failed at the collaborator boundary.
    TransportError(String),
    /// A local filesystem failure during directory creation or file write.
    IoError(String),
}

impl MslError {
    /// Human-readable rendering of the error.
    pub fn message(&self) -> (m: String)
        ensures
            self matches MslError::ParseError(s) ==> m@ == "Parse error: "@ + s@,
            self matches MslError::InvalidSelector(s) ==> m@ == "Invalid selector: "@ + s@,
            self matches MslError::InvalidUrl(s) ==> m@ == "Invalid URL: "@ + s@,
            self matches MslError::NoPageLoaded ==> m@ == "No page loaded. Use 'open' first."@,
            self matches MslError::TransportError(s) ==> m@ == "Transport error: "@ + s@,
            self matches MslError::IoError(s) ==> m@ == "I/O error: "@ + s@,
    {
        match self {
            MslError::ParseError(s) => String::from_str("Parse error: ").concat(s.as_str()),
            MslError::InvalidSelector(s) => String::from_str("Invalid selector: ").concat(
                s.as_str(),
            ),
            MslError::InvalidUrl(s) => String::from_str("Invalid URL: ").concat(s.as_str()),
            MslError::NoPageLoaded => String::from_str("No page loaded. Use 'open' first."),
            MslError::TransportError(s) => String::from_str("Transport error: ").concat(s.as_str()),
            MslError::IoError(s) => String::from_str("I/O error: ").concat(s.as_str()),
        }
    }
}

/// A parsed script: an ordered sequence of commands, in source order.
#[derive(Debug, PartialEq)]
pub struct MslScript {
    pub commands: Vec<MslCommand>,
}

/// One command of the language. `Click` makes the type a recursive tree of
/// unbounded depth.
#[derive(Debug, PartialEq)]
pub enum MslCommand {
    Open { url: String },
    Click { selector: String, commands: Vec<MslCommand> },
    SetVar { variable: String, value: MslValue },
    Media { media_blocks: Vec<MediaBlock> },
    Save { path: String },
    Wait { seconds: u64 },
}

/// An extraction recipe, evaluated by the engine against the current
/// selection context.
#[derive(Debug, Clone, PartialEq)]
pub enum MslValue {
    Text,
    Attribute { name: String },
    Split { delimiter: String, index: i32 },
}

/// A typed group of filters applied to the media found on the current page.
#[derive(Debug, Clone, PartialEq)]
pub struct MediaBlock {
    pub media_type: MediaType,
    pub filters: Vec<MediaFilter>,
    pub save_path: Option<String>,
}

/// The kind of a media item; decides the default file extension.
#[derive(Debug, Clone, Copy, PartialEq, Eq, Structural)]
pub enum MediaType {
    Image,
    Video,
    Audio,
}

/// A single media filter: a field comparison or an extension suffix test.
#[derive(Debug, Clone, PartialEq)]
pub enum MediaFilter {
    Where { field: String, operator: String, value: String },
    Extensions { extensions: Vec<String> },
}

/// Model of a parsed script.
pub struct ScriptSpec {
    pub commands: Seq<CmdSpec>,
}

/// Model of a command.
pub enum CmdSpec {
    Open { url: Seq<char> },
    Click { selector: Seq<char>, commands: Seq<CmdSpec> },
    SetVar { variable: Seq<char>, value: ValueSpec },
    Media { media_blocks: Seq<BlockSpec> },
    Save { path: Seq<char> },
    Wait { seconds: u64 },
}

/// Model of an extraction recipe.
pub enum ValueSpec {
    Text,
    Attribute { name: Seq<char> },
    Split { delimiter: Seq<char>, index: i32 },
}

/// Model of a media block.
pub struct BlockSpec {
    pub media_type: MediaType,
    pub filters: Seq<FilterSpec>,
    pub save_path: Option<Seq<char>>,
}

/// Model of a media filter.
pub enum FilterSpec {
    Where { field: Seq<char>, operator: Seq<char>, value: Seq<char> },
    Extensions { extensions: Seq<Seq<char>> },
}

/// Model of a sequence of media blocks: the models of its elements, in order.
pub open spec fn deep_view_blocks(s: Seq<MediaBlock>) -> Seq<BlockSpec> {
    Seq::new(s.len(), |i: int| s[i].deep_view())
}

/// Model of a sequence of media filters: the models of its elements, in order.
pub open spec fn deep_view_filters(s: Seq<MediaFilter>) -> Seq<FilterSpec> {
    Seq::new(s.len(), |i: int| s[i].deep_view())
}

/// Model of a sequence of strings: their character sequences, in order.
pub open spec fn deep_view_strs(s: Seq<String>) -> Seq<Seq<char>> {
    Seq::new(s.len(), |i: int| s[i]@)
}

/// Inserting at the front of a sequence is prepending a singleton.
pub proof fn lemma_insert_front<T>(s: Seq<T>, c: T)
    ensures
        s.insert(0, c) == seq![c] + s,
{
    assert(s.insert(0, c) =~= seq![c] + s);
}

/// `deep_view_blocks` distributes over prepending one element.
pub proof fn lemma_deep_view_blocks_cons(b: MediaBlock, rest: Seq<MediaBlock>)
    ensures
        deep_view_blocks(seq![b] + rest) == seq![b.deep_view()] + deep_view_blocks(rest),
{
    assert(deep_view_blocks(seq![b] + rest) =~= seq![b.deep_view()] + deep_view_blocks(rest));
}

/// `deep_view_filters` distributes over prepending one element.
pub proof fn lemma_deep_view_filters_cons(f: MediaFilter, rest: Seq<MediaFilter>)
    ensures
        deep_view_filters(seq![f] + rest) == seq![f.deep_view()] + deep_view_filters(rest),
{
    assert(deep_view_filters(seq![f] + rest) =~= seq![f.deep_view()] + deep_view_filters(rest));
}

/// `deep_view_strs` distributes over prepending one element.
pub proof fn lemma_deep_view_strs_cons(e: String, rest: Seq<String>)
    ensures
        deep_view_strs(seq![e] + rest) == seq![e@] + deep_view_strs(rest),
{
    assert(deep_view_strs(seq![e] + rest) =~= seq![e@] + deep_view_strs(rest));
}

/// Model of a command sequence: the models of its elements, in order.
pub open spec fn deep_view_cmds(s: Seq<MslCommand>) -> Seq<CmdSpec>
    decreases s,
{
    if s.len() == 0 {
        Seq::empty()
    } else {
        seq![s[0].deep_view()] + deep_view_cmds(s.subrange(1, s.len() as int))
    }
}

/// `deep_view_cmds` maps the sequence pointwise.
pub broadcast proof fn lemma_deep_view_cmds(s: Seq<MslCommand>)
    ensures
        (#[trigger] deep_view_cmds(s)).len() == s.len(),
        forall|i: int| 0 <= i < s.len() ==> deep_view_cmds(s)[i] == s[i].deep_view(),
    decreases s,
{
    if s.len() > 0 {
        let tail = s.subrange(1, s.len() as int);
        lemma_deep_view_cmds(tail);
        assert(deep_view_cmds(s) == seq![s[0].deep_view()] + deep_view_cmds(tail));
        assert(deep_view_cmds(s).len() == 1 + tail.len());
        assert forall|i: int| 0 <= i < s.len() implies deep_view_cmds(s)[i] == s[i].deep_view() by {
            if i > 0 {
                let head = seq![s[0].deep_view()];
                assert(deep_view_cmds(s) == head + deep_view_cmds(tail));
                assert(head.len() == 1);
                assert((head + deep_view_cmds(tail))[i] == deep_view_cmds(tail)[i - 1]);
                assert(tail[i - 1] == s[i]);
            }
        }
    }
}

/// `deep_view_cmds` distributes over prepending one element.
pub proof fn lemma_deep_view_cmds_cons(c: MslCommand, rest: Seq<MslCommand>)
    ensures
        deep_view_cmds(seq![c] + rest) == seq![c.deep_view()] + deep_view_cmds(rest),
{
    let s = seq![c] + rest;
    assert(s[0] == c);
    assert(s.subrange(1, s.len() as int) =~= rest);
}

impl DeepView for MslCommand {
    type V = CmdSpec;

    open spec fn deep_view(&self) -> CmdSpec
        decreases self,
    {
        match self {
            MslCommand::Open { url } => CmdSpec::Open { url: url@ },
            MslCommand::Click { selector, commands } => CmdSpec::Click {
                selector: selector@,
                commands: deep_view_cmds(commands@),
            },
            MslCommand::SetVar { variable, value } => CmdSpec::SetVar {
                variable: variable@,
                value: value.deep_view(),
            },
            MslCommand::Media { media_blocks } => CmdSpec::Media {
                media_blocks: deep_view_blocks(media_blocks@),
            },
            MslCommand::Save { path } => CmdSpec::Save { path: path@ },
            MslCommand::Wait { seconds } => CmdSpec::Wait { seconds: *seconds },
        }
    }
}

impl DeepView for MslValue {
    type V = ValueSpec;

    open spec fn deep_view(&self) -> ValueSpec {
        match self {
            MslValue::Text => ValueSpec::Text,
            MslValue::Attribute { name } => ValueSpec::Attribute { name: name@ },
            MslValue::Split { delimiter, index } => ValueSpec::Split {
                delimiter: delimiter@,
                index: *index,
            },
        }
    }
}

impl DeepView for MediaBlock {
    type V = BlockSpec;

    open spec fn deep_view(&self) -> BlockSpec {
        BlockSpec {
            media_type: self.media_type,
            filters: deep_view_filters(self.filters@),
            save_path: match self.save_path {
                Some(p) => Some(p@),
                None => None,
            },
        }
    }
}

impl DeepView for MediaFilter {
    type V = FilterSpec;

    open spec fn deep_view(&self) -> FilterSpec {
        match self {
            MediaFilter::Where { field, operator, value } => FilterSpec::Where {
                field: field@,
                operator: operator@,
                value: value@,
            },
            MediaFilter::Extensions { extensions } => FilterSpec::Extensions {
                extensions: deep_view_strs(extensions@),
            },
        }
    }
}

impl DeepView for MslScript {
    type V = ScriptSpec;

    open spec fn deep_view(&self) -> ScriptSpec {
        ScriptSpec { commands: deep_view_cmds(self.commands@) }
    }
}

} // verus!
