//! The session engine: a state machine that interprets a parsed script.
//!
//! The engine owns the session state — the current page, the variable
//! environment, the current selection context — and a stack of pending
//! command sequences (one frame per `click` body being executed, so the walk
//! is depth-first in source order). It performs no I/O itself: `next_step`
//! decides what the next command needs and hands the caller a `Request`; the
//! caller performs it and feeds the outcome back through `on_reply`. Any
//! collaborator failure aborts the run: the engine is strictly fail-fast.

use vstd::prelude::*;
use vstd::string::StrSliceExecFns;
use vstd::string::StringExecFns;

use crate::ast::BlockSpec;
use crate::ast::CmdSpec;
use crate::ast::MediaBlock;
use crate::ast::MslCommand;
use crate::ast::MslError;
use crate::ast::MslScript;
use crate::ast::MslValue;
use crate::ast::ValueSpec;
use crate::ast::deep_view_blocks;
use crate::ast::deep_view_cmds;
use crate::grammar::spec_find;
use crate::scraper::ItemSpec;
use crate::scraper::MediaItem;
use crate::scraper::MediaType;
use crate::scraper::deep_view_items;
use crate::scraper::deep_view_pairs;
use crate::scraper::filter_media;
use crate::scraper::spec_filter_media;
use crate::text::spec_split;
use crate::text::split_string;
use crate::parser::find_char;
use crate::text::str_eq;

verus! {

broadcast use vstd::std_specs::vec::group_vec_axioms, vstd::seq::group_seq_axioms;

/// The selection context a `click` block establishes: the matched element's
/// text and attributes, against which `set` evaluates its extraction recipe.
#[derive(Debug, PartialEq)]
pub struct Selection {
    pub text: String,
    pub attributes: Vec<(String, String)>,
}

/// Model of a selection context.
pub struct SelSpec {
    pub text: Seq<char>,
    pub attributes: Seq<(Seq<char>, Seq<char>)>,
}

impl DeepView for Selection {
    type V = SelSpec;

    open spec fn deep_view(&self) -> SelSpec {
        SelSpec { text: self.text@, attributes: deep_view_pairs(self.attributes@) }
    }
}

/// Model of an optional selection context.
pub open spec fn sel_model(s: Option<Selection>) -> Option<SelSpec> {
    match s {
        Some(sel) => Some(sel.deep_view()),
        None => None,
    }
}

/// One planned download: which URL to fetch and under which file name to
/// store it in the destination directory.
#[derive(Debug, PartialEq)]
pub struct DownloadJob {
    pub url: String,
    pub filename: String,
    pub dest_dir: String,
}

/// Model of a download job.
pub struct JobSpec {
    pub url: Seq<char>,
    pub filename: Seq<char>,
    pub dest_dir: Seq<char>,
}

impl DeepView for DownloadJob {
    type V = JobSpec;

    open spec fn deep_view(&self) -> JobSpec {
        JobSpec { url: self.url@, filename: self.filename@, dest_dir: self.dest_dir@ }
    }
}

/// Model of a sequence of download jobs.
pub open spec fn deep_view_jobs(s: Seq<DownloadJob>) -> Seq<JobSpec> {
    Seq::new(s.len(), |i: int| s[i].deep_view())
}

/// The value bound to `key`, where a later binding shadows an earlier one.
pub open spec fn spec_env_get(env: Seq<(Seq<char>, Seq<char>)>, key: Seq<char>) -> Option<
    Seq<char>,
>
    decreases env.len(),
{
    if env.len() == 0 {
        None
    } else if env.last().0 == key {
        Some(env.last().1)
    } else {
        spec_env_get(env.drop_last(), key)
    }
}

/// Looks a key up in a binding list; the latest binding wins.
pub fn env_get(env: &Vec<(String, String)>, key: &str) -> (r: Option<String>)
    ensures
        match r {
            Some(v) => spec_env_get(deep_view_pairs(env@), key@) == Some(v@),
            None => spec_env_get(deep_view_pairs(env@), key@) is None,
        },
{
    let mut i: usize = env.len();
    proof {
        assert(deep_view_pairs(env@).subrange(0, env@.len() as int) =~= deep_view_pairs(env@));
    }
    while i > 0
        invariant
            0 <= i <= env@.len(),
            spec_env_get(deep_view_pairs(env@), key@) == spec_env_get(
                deep_view_pairs(env@).subrange(0, i as int),
                key@,
            ),
        decreases i,
    {
        proof {
            let dv = deep_view_pairs(env@);
            assert(dv.subrange(0, i as int).drop_last() =~= dv.subrange(0, i - 1));
            assert(dv.subrange(0, i as int).last() == dv[i - 1]);
        }
        if str_eq(env[i - 1].0.as_str(), key) {
            return Some(env[i - 1].1.clone());
        }
        i -= 1;
    }
    proof {
        assert(deep_view_pairs(env@).subrange(0, 0) =~= Seq::<(Seq<char>, Seq<char>)>::empty());
    }
    None
}

/// What a `set` command computes: the extraction recipe evaluated against the
/// current selection context. With no selection the value is empty; `text`
/// takes the element text; `attr` reads the named attribute (empty when
/// absent); `split` cuts the element text at the delimiter and picks the
/// indexed piece, a negative index counting from the end (empty when the
/// index is out of range).
pub open spec fn spec_eval(value: ValueSpec, sel: Option<SelSpec>) -> Seq<char> {
    match sel {
        None => Seq::empty(),
        Some(sel) => match value {
            ValueSpec::Text => sel.text,
            ValueSpec::Attribute { name } => match spec_env_get(sel.attributes, name) {
                Some(v) => v,
                None => Seq::empty(),
            },
            ValueSpec::Split { delimiter, index } => {
                let parts = spec_split(sel.text, delimiter);
                let k = if index >= 0 {
                    index as int
                } else {
                    parts.len() + index
                };
                if 0 <= k < parts.len() {
                    parts[k]
                } else {
                    Seq::empty()
                }
            },
        },
    }
}

/// Evaluates an extraction recipe against the selection context.
pub fn evaluate(value: &MslValue, selection: &Option<Selection>) -> (r: String)
    ensures
        r@ == spec_eval(value.deep_view(), sel_model(*selection)),
{
    let sel = match selection {
        Some(sel) => sel,
        None => {
            return String::new();
        },
    };
    match value {
        MslValue::Text => sel.text.clone(),
        MslValue::Attribute { name } => match env_get(&sel.attributes, name.as_str()) {
            Some(v) => v,
            None => String::new(),
        },
        MslValue::Split { delimiter, index } => {
            let parts = split_string(sel.text.as_str(), delimiter.as_str());
            let ghost pv = crate::ast::deep_view_strs(parts@);
            let idx = *index;
            if idx >= 0 {
                let k = idx as usize;
                if k < parts.len() {
                    proof {
                        assert(pv[k as int] == parts@[k as int]@);
                    }
                    parts[k].clone()
                } else {
                    String::new()
                }
            } else {
                let neg = (-(idx as i64)) as usize;
                if neg <= parts.len() {
                    let k = parts.len() - neg;
                    proof {
                        assert(pv[k as int] == parts@[k as int]@);
                    }
                    parts[k].clone()
                } else {
                    String::new()
                }
            }
        },
    }
}

/// The default file extension of a media kind.
pub open spec fn spec_default_ext(kind: MediaType) -> Seq<char> {
    match kind {
        MediaType::Image => "jpg"@,
        MediaType::Video => "mp4"@,
        MediaType::Audio => "mp3"@,
    }
}

/// Index of the last occurrence of `c` before `end` in `s`, if any.
pub open spec fn spec_rfind_before(s: Seq<char>, end: int, c: char) -> Option<int>
    decreases end,
{
    if end <= 0 || end > s.len() {
        None
    } else if s[end - 1] == c {
        Some(end - 1)
    } else {
        spec_rfind_before(s, end - 1, c)
    }
}

/// The file name a media URL is stored under: the last path segment of the
/// URL; when that segment holds no dot, the default extension of the media
/// kind is appended.
pub open spec fn spec_generate_filename(url: Seq<char>, kind: MediaType) -> Seq<char> {
    let name = match spec_rfind_before(url, url.len() as int, '/') {
        Some(i) => url.subrange(i + 1, url.len() as int),
        None => url,
    };
    if spec_find(name, 0, '.') is Some {
        name
    } else {
        name + "."@ + spec_default_ext(kind)
    }
}

/// Index of the last occurrence of `c` before `end`, if any.
fn rfind_char(s: &str, end: usize, n: usize, c: char) -> (r: Option<usize>)
    requires
        n == s@.len(),
        end <= n,
    ensures
        match r {
            Some(j) => spec_rfind_before(s@, end as int, c) == Some(j as int) && j < end,
            None => spec_rfind_before(s@, end as int, c) is None,
        },
    decreases end,
{
    if end == 0 {
        None
    } else if s.get_char(end - 1) == c {
        Some(end - 1)
    } else {
        rfind_char(s, end - 1, n, c)
    }
}

/// Computes the stored file name for a media URL (see
/// `spec_generate_filename`).
pub fn generate_filename(url: &str, kind: MediaType) -> (r: String)
    ensures
        r@ == spec_generate_filename(url@, kind),
{
    let n = url.unicode_len();
    let cut = match rfind_char(url, n, n, '/') {
        Some(i) => i + 1,
        None => 0,
    };
    let name = url.substring_char(cut, n);
    let m = n - cut;
    proof {
        if spec_rfind_before(url@, n as int, '/') is None {
            assert(url@.subrange(0, n as int) =~= url@);
        }
    }
    match find_char(name, 0, m, '.') {
        Some(_) => String::from_str(name),
        None => {
            let ext = match kind {
                MediaType::Image => "jpg",
                MediaType::Video => "mp4",
                MediaType::Audio => "mp3",
            };
            let r = String::from_str(name).concat(".").concat(ext);
            proof {
                assert(r@ =~= name@ + "."@ + ext@);
            }
            r
        },
    }
}

/// The jobs one media block yields: every item that survives its filters,
/// each stored in `dest` under its generated file name.
pub open spec fn spec_block_jobs(
    items: Seq<ItemSpec>,
    block: BlockSpec,
    dest: Seq<char>,
) -> Seq<JobSpec> {
    spec_filter_media(items, block.filters).map_values(
        |it: ItemSpec| JobSpec {
            url: it.url,
            filename: spec_generate_filename(it.url, it.media_type),
            dest_dir: dest,
        },
    )
}

/// The jobs of all blocks, in block order.
pub open spec fn spec_plan_model(
    items: Seq<ItemSpec>,
    blocks: Seq<BlockSpec>,
    dest: Seq<char>,
) -> Seq<JobSpec>
    decreases blocks.len(),
{
    if blocks.len() == 0 {
        Seq::empty()
    } else {
        spec_plan_model(items, blocks.drop_last(), dest) + spec_block_jobs(
            items,
            blocks.last(),
            dest,
        )
    }
}

/// Plans the downloads a `media` command performs: for each block in order,
/// every item that survives the block's filters, stored under its generated
/// file name in the default destination directory.
pub fn plan_downloads(items: &Vec<MediaItem>, blocks: &Vec<MediaBlock>) -> (r: Vec<DownloadJob>)
    ensures
        deep_view_jobs(r@) == spec_plan_model(
            deep_view_items(items@),
            deep_view_blocks(blocks@),
            "./downloaded_media"@,
        ),
{
    let mut jobs: Vec<DownloadJob> = Vec::new();
    let mut b: usize = 0;
    while b < blocks.len()
        invariant
            0 <= b <= blocks@.len(),
            deep_view_jobs(jobs@) == spec_plan_model(
                deep_view_items(items@),
                deep_view_blocks(blocks@).subrange(0, b as int),
                "./downloaded_media"@,
            ),
        decreases blocks@.len() - b,
    {
        let filtered = filter_media(items, &blocks[b].filters);
        let ghost jobs0 = jobs@;
        let mut k: usize = 0;
        while k < filtered.len()
            invariant
                0 <= k <= filtered@.len(),
                deep_view_items(filtered@) == spec_filter_media(
                    deep_view_items(items@),
                    deep_view_blocks(blocks@)[b as int].filters,
                ),
                0 <= b < blocks@.len(),
                deep_view_jobs(jobs@) == deep_view_jobs(jobs0) + spec_block_jobs(
                    deep_view_items(items@),
                    deep_view_blocks(blocks@)[b as int],
                    "./downloaded_media"@,
                ).subrange(0, k as int),
            decreases filtered@.len() - k,
        {
            let url_copy = filtered[k].url.clone();
            let filename = generate_filename(filtered[k].url.as_str(), filtered[k].media_type);
            let job = DownloadJob {
                url: url_copy,
                filename,
                dest_dir: String::from_str("./downloaded_media"),
            };
            let ghost before = jobs@;
            jobs.push(job);
            proof {
                let bj = spec_block_jobs(
                    deep_view_items(items@),
                    deep_view_blocks(blocks@)[b as int],
                    "./downloaded_media"@,
                );
                assert(bj[k as int] == job.deep_view());
                assert(deep_view_jobs(jobs@) =~= deep_view_jobs(before).push(job.deep_view()));
                assert(deep_view_jobs(jobs0) + bj.subrange(0, k + 1) =~= (deep_view_jobs(jobs0)
                    + bj.subrange(0, k as int)).push(bj[k as int]));
            }
            k += 1;
        }
        proof {
            let bj = spec_block_jobs(
                deep_view_items(items@),
                deep_view_blocks(blocks@)[b as int],
                "./downloaded_media"@,
            );
            assert(bj.subrange(0, bj.len() as int) =~= bj);
            let pre1 = deep_view_blocks(blocks@).subrange(0, b + 1);
            assert(pre1.drop_last() =~= deep_view_blocks(blocks@).subrange(0, b as int));
            assert(pre1.last() == deep_view_blocks(blocks@)[b as int]);
        }
        b += 1;
    }
    proof {
        assert(deep_view_blocks(blocks@).subrange(0, blocks@.len() as int) =~= deep_view_blocks(
            blocks@,
        ));
    }
    jobs
}

} // verus!

verus! {

/// What the engine asks its caller to do next.
#[derive(Debug, PartialEq)]
pub enum Request {
    /// Fetch the page at `url` and reply with `Reply::Page`.
    Fetch { url: String },
    /// Collect the `href` attributes of the elements `selector` matches in
    /// `html`, together with the matched element's selection context, and
    /// reply with `Reply::Links`.
    ExtractLinks { html: String, selector: String },
    /// Collect the media items of `html`, resolved against `base_url`, and
    /// reply with `Reply::MediaItems`.
    ExtractMedia { html: String, base_url: String },
    /// Download every job, then reply with `Reply::Done`.
    Download { jobs: Vec<DownloadJob> },
    /// Pause for the given number of seconds, then reply with `Reply::Done`.
    Sleep { seconds: u64 },
    /// Print or log the message, then reply with `Reply::Done`.
    Note { message: String },
}

/// The caller's answer to a request.
#[derive(Debug, PartialEq)]
pub enum Reply {
    /// The fetched page.
    Page { html: String },
    /// The matched links and the selection context of the first match.
    Links { hrefs: Vec<String>, selection: Option<Selection> },
    /// The media items found on the page.
    MediaItems { items: Vec<MediaItem> },
    /// A download batch, pause or note has completed.
    Done,
    /// The collaborator failed; the run aborts with this error.
    Failed { error: MslError },
}

/// The engine's verdict after each call.
#[derive(Debug, PartialEq)]
pub enum Step {
    /// Perform this request and feed the outcome to `on_reply`.
    Do(Request),
    /// Progress was made without outside work; call `next_step` again.
    Continue,
    /// Every command has run.
    Finished,
    /// The run has failed; it cannot be resumed.
    Failed(MslError),
}

/// What the engine awaits from its caller.
#[derive(Debug, PartialEq)]
pub enum Phase {
    /// No request is outstanding; `next_step` decides what happens next.
    Idle,
    /// A fetch for an `open` command is outstanding.
    AwaitOpen { url: String },
    /// A link extraction for a `click` command is outstanding.
    AwaitLinks { selector: String, body: Vec<MslCommand> },
    /// The fetch of the first matched link of a `click` is outstanding.
    AwaitClickPage { url: String, body: Vec<MslCommand>, selection: Option<Selection> },
    /// A media extraction for a `media` command is outstanding.
    AwaitMedia { blocks: Vec<MediaBlock> },
    /// A download batch, pause or note is outstanding.
    AwaitDone,
}

/// Model of a stack of command frames.
pub open spec fn frames_model(frames: Seq<Vec<MslCommand>>) -> Seq<Seq<CmdSpec>> {
    Seq::new(frames.len(), |i: int| deep_view_cmds(frames[i]@))
}

/// The model stack after one command is taken off: empty frames on top are
/// dropped, then the head of the topmost frame is removed.
pub open spec fn spec_pop_model(m: Seq<Seq<CmdSpec>>) -> Seq<Seq<CmdSpec>>
    decreases m.len(),
{
    if m.len() == 0 {
        m
    } else if m.last().len() == 0 {
        spec_pop_model(m.drop_last())
    } else {
        m.update(m.len() - 1, m.last().drop_first())
    }
}

/// The next command to run: the head of the topmost non-empty frame.
pub open spec fn spec_peek_model(m: Seq<Seq<CmdSpec>>) -> Option<CmdSpec>
    decreases m.len(),
{
    if m.len() == 0 {
        None
    } else if m.last().len() == 0 {
        spec_peek_model(m.drop_last())
    } else {
        Some(m.last()[0])
    }
}

/// The engine: session state plus the stack of pending command frames.
pub struct MslEngine {
    /// The variable environment; a later binding shadows an earlier one.
    pub variables: Vec<(String, String)>,
    /// URL of the current page, set by a successful `open` or `click`.
    pub current_url: Option<String>,
    /// Markup of the current page.
    pub current_html: Option<String>,
    /// Selection context of the innermost `click`, consumed by `set`.
    pub current_selection: Option<Selection>,
    /// Pending command frames, innermost `click` body on top.
    pub frames: Vec<Vec<MslCommand>>,
    /// What the engine awaits.
    pub phase: Phase,
}

/// A well-formed session: the current page's URL and markup are set and
/// cleared together.
pub open spec fn wf_session(e: MslEngine) -> bool {
    e.current_url is Some <==> e.current_html is Some
}

/// Whether `a` and `b` agree on the whole session state: the variables, the
/// current page and the selection context.
pub open spec fn same_session(a: MslEngine, b: MslEngine) -> bool {
    &&& a.variables == b.variables
    &&& a.current_url == b.current_url
    &&& a.current_html == b.current_html
    &&& a.current_selection == b.current_selection
}

impl MslEngine {
    /// A fresh session: no page loaded, no variables bound, nothing pending.
    pub fn new() -> (e: MslEngine)
        ensures
            e.variables@ == Seq::<(String, String)>::empty(),
            e.current_url is None,
            e.current_html is None,
            e.current_selection is None,
            e.frames@ == Seq::<Vec<MslCommand>>::empty(),
            e.phase is Idle,
    {
        MslEngine {
            variables: Vec::new(),
            current_url: None,
            current_html: None,
            current_selection: None,
            frames: Vec::new(),
            phase: Phase::Idle,
        }
    }

    /// Loads a script: its commands become the only pending frame. The
    /// session state is untouched.
    pub fn start(&mut self, script: MslScript)
        requires
            old(self).phase is Idle,
        ensures
            final(self).frames@.len() == 1,
            deep_view_cmds(final(self).frames@[0]@) == deep_view_cmds(script.commands@),
            same_session(*old(self), *final(self)),
            final(self).phase is Idle,
    {
        self.frames = Vec::new();
        self.frames.push(script.commands);
    }
}

} // verus!

verus! {

impl MslEngine {
    /// Decides what the next pending command needs.
    ///
    /// With nothing left to run the result is `Finished`. Otherwise the head
    /// command of the topmost non-empty frame is taken off and dispatched:
    /// `open` asks for a fetch; `click`, `set` and `media` demand a loaded
    /// page and fail with `NoPageLoaded` before any collaborator call when
    /// none is (the session is then left unchanged); `set` computes its value
    /// from the selection context and binds it, asking for nothing; `save` is
    /// a recorded no-op: it asks only for a note; `wait` asks for a pause.
    pub fn next_step(&mut self) -> (r: Step)
        requires
            old(self).phase is Idle,
            wf_session(*old(self)),
        ensures
            wf_session(*final(self)),
            match spec_peek_model(frames_model(old(self).frames@)) {
                None => r is Finished && final(self).frames@.len() == 0 && same_session(
                    *old(self),
                    *final(self),
                ) && final(self).phase is Idle,
                Some(cmd) => frames_model(final(self).frames@) == spec_pop_model(
                    frames_model(old(self).frames@),
                ) && match cmd {
                    CmdSpec::Open { url } => r matches Step::Do(Request::Fetch { url: u }) && u@
                        == url && (final(self).phase matches Phase::AwaitOpen { url: pu } && pu@
                        == url) && same_session(*old(self), *final(self)),
                    CmdSpec::Click { selector, commands } => {
                        if old(self).current_html is None {
                            r == Step::Failed(MslError::NoPageLoaded) && same_session(
                                *old(self),
                                *final(self),
                            ) && final(self).phase is Idle
                        } else {
                            r matches Step::Do(
                                Request::ExtractLinks { html, selector: sl },
                            ) && (old(self).current_html matches Some(h) && html@ == h@) && sl@
                                == selector && (final(self).phase matches Phase::AwaitLinks {
                                selector: s2,
                                body,
                            } && s2@ == selector && deep_view_cmds(body@) == commands)
                                && same_session(*old(self), *final(self))
                        }
                    },
                    CmdSpec::SetVar { variable, value } => {
                        if old(self).current_html is None {
                            r == Step::Failed(MslError::NoPageLoaded) && same_session(
                                *old(self),
                                *final(self),
                            ) && final(self).phase is Idle
                        } else {
                            r is Continue && final(self).phase is Idle && deep_view_pairs(
                                final(self).variables@,
                            ) == deep_view_pairs(old(self).variables@).push(
                                (
                                    variable,
                                    spec_eval(value, sel_model(old(self).current_selection)),
                                ),
                            ) && final(self).current_url == old(self).current_url && final(self).current_html == old(self).current_html && final(self).current_selection == old(self).current_selection
                        }
                    },
                    CmdSpec::Media { media_blocks } => {
                        if old(self).current_html is None {
                            r == Step::Failed(MslError::NoPageLoaded) && same_session(
                                *old(self),
                                *final(self),
                            ) && final(self).phase is Idle
                        } else {
                            r matches Step::Do(
                                Request::ExtractMedia { html, base_url },
                            ) && (old(self).current_html matches Some(h) && html@ == h@) && (old(self).current_url matches Some(u) && base_url@ == u@) && (final(self).phase matches Phase::AwaitMedia { blocks } && deep_view_blocks(
                                blocks@,
                            ) == media_blocks) && same_session(*old(self), *final(self))
                        }
                    },
                    CmdSpec::Save { path } => r matches Step::Do(Request::Note { message })
                        && message@ == "Saving to: "@ + path && final(self).phase is AwaitDone
                        && same_session(*old(self), *final(self)),
                    CmdSpec::Wait { seconds } => r matches Step::Do(
                        Request::Sleep { seconds: sc },
                    ) && sc == seconds && final(self).phase is AwaitDone && same_session(
                        *old(self),
                        *final(self),
                    ),
                },
            },
    {
        loop
            invariant
                self.phase is Idle,
                wf_session(*self),
                self.variables == old(self).variables,
                self.current_url == old(self).current_url,
                self.current_html == old(self).current_html,
                self.current_selection == old(self).current_selection,
                spec_peek_model(frames_model(self.frames@)) == spec_peek_model(
                    frames_model(old(self).frames@),
                ),
                spec_pop_model(frames_model(self.frames@)) == spec_pop_model(
                    frames_model(old(self).frames@),
                ),
            ensures
                self.phase is Idle,
                wf_session(*self),
                self.variables == old(self).variables,
                self.current_url == old(self).current_url,
                self.current_html == old(self).current_html,
                self.current_selection == old(self).current_selection,
                spec_peek_model(frames_model(self.frames@)) == spec_peek_model(
                    frames_model(old(self).frames@),
                ),
                spec_pop_model(frames_model(self.frames@)) == spec_pop_model(
                    frames_model(old(self).frames@),
                ),
                self.frames@.len() > 0,
                self.frames@.last()@.len() > 0,
            decreases self.frames@.len(),
        {
            let depth = self.frames.len();
            if depth == 0 {
                return Step::Finished;
            }
            if self.frames[depth - 1].len() > 0 {
                proof {
                    let m = frames_model(self.frames@);
                    crate::ast::lemma_deep_view_cmds(self.frames@.last()@);
                    assert(m.last() == deep_view_cmds(self.frames@.last()@));
                    assert(m.last().len() > 0);
                }
                break;
            }
            proof {
                let m = frames_model(self.frames@);
                assert(m.last().len() == 0);
                assert(m.drop_last() =~= frames_model(self.frames@.drop_last()));
            }
            self.frames.pop();
        }
        let depth = self.frames.len();
        let ghost m0 = frames_model(self.frames@);
        let mut top = match self.frames.pop() {
            Some(t) => t,
            None => {
                return Step::Finished;
            },
        };
        let cmd = top.remove(0);
        self.frames.push(top);
        proof {
            assert(m0.last().len() > 0);
            crate::ast::lemma_deep_view_cmds(top@);
            assert(spec_peek_model(m0) == Some(cmd.deep_view()));
            assert(deep_view_cmds(top@) =~= m0.last().drop_first());
            assert(frames_model(self.frames@) =~= spec_pop_model(m0));
        }
        match cmd {
            MslCommand::Open { url } => {
                let u2 = url.clone();
                self.phase = Phase::AwaitOpen { url };
                Step::Do(Request::Fetch { url: u2 })
            },
            MslCommand::Click { selector, commands } => {
                let html = match &self.current_html {
                    Some(h) => h.clone(),
                    None => {
                        return Step::Failed(MslError::NoPageLoaded);
                    },
                };
                let sl = selector.clone();
                self.phase = Phase::AwaitLinks { selector, body: commands };
                Step::Do(Request::ExtractLinks { html, selector: sl })
            },
            MslCommand::SetVar { variable, value } => {
                if self.current_html.is_none() {
                    return Step::Failed(MslError::NoPageLoaded);
                }
                let bound = evaluate(&value, &self.current_selection);
                let ghost env0 = self.variables@;
                self.variables.push((variable, bound));
                proof {
                    assert(deep_view_pairs(self.variables@) =~= deep_view_pairs(env0).push(
                        (
                            cmd.deep_view()->SetVar_variable,
                            spec_eval(
                                cmd.deep_view()->SetVar_value,
                                sel_model(self.current_selection),
                            ),
                        ),
                    ));
                }
                Step::Continue
            },
            MslCommand::Media { media_blocks } => {
                let html = match &self.current_html {
                    Some(h) => h.clone(),
                    None => {
                        return Step::Failed(MslError::NoPageLoaded);
                    },
                };
                let base_url = match &self.current_url {
                    Some(u) => u.clone(),
                    None => {
                        return Step::Failed(MslError::NoPageLoaded);
                    },
                };
                self.phase = Phase::AwaitMedia { blocks: media_blocks };
                Step::Do(Request::ExtractMedia { html, base_url })
            },
            MslCommand::Save { path } => {
                let message = String::from_str("Saving to: ").concat(path.as_str());
                self.phase = Phase::AwaitDone;
                Step::Do(Request::Note { message })
            },
            MslCommand::Wait { seconds } => {
                self.phase = Phase::AwaitDone;
                Step::Do(Request::Sleep { seconds })
            },
        }
    }
}

} // verus!

verus! {

/// The result and state a protocol violation leaves behind: a caller reply
/// that does not answer the outstanding request fails the run and changes
/// nothing.
pub open spec fn spec_protocol_error(a: MslEngine, b: MslEngine, r: Step) -> bool {
    &&& r matches Step::Failed(MslError::TransportError(m)) && m@ == "unexpected reply"@
    &&& same_session(a, b)
    &&& a.frames == b.frames
    &&& a.phase == b.phase
}

impl MslEngine {
    /// Ingests the caller's answer to the outstanding request.
    ///
    /// A `Failed` reply aborts the run with the collaborator's error. A
    /// fetched page becomes the current page (after a `click`, the selection
    /// context is stored and the body becomes the topmost frame). Extracted
    /// links resolve a `click`: with no match the command is a logged no-op
    /// and the body is skipped; otherwise only the first link is followed.
    /// Extracted media items become the download plan of the `media`
    /// command's blocks. A reply that does not answer the outstanding
    /// request fails the run and leaves the engine unchanged.
    pub fn on_reply(&mut self, reply: Reply) -> (r: Step)
        requires
            !(old(self).phase is Idle),
            wf_session(*old(self)),
        ensures
            wf_session(*final(self)),
            match reply {
                Reply::Failed { error } => r == Step::Failed(error) && same_session(
                    *old(self),
                    *final(self),
                ) && final(self).frames == old(self).frames && final(self).phase is Idle,
                Reply::Page { html } => {
                    &&& (old(self).phase matches Phase::AwaitOpen { url } ==> r is Continue && (
                    final(self).current_html matches Some(h) && h@ == html@) && (final(self).current_url matches Some(u) && u@ == url@) && final(self).current_selection
                        == old(self).current_selection && final(self).variables == old(self).variables && final(self).frames == old(self).frames && final(self).phase is Idle)
                    &&& (old(self).phase matches Phase::AwaitClickPage { url, body, selection }
                        ==> r is Continue && (final(self).current_html matches Some(h) && h@
                        == html@) && (final(self).current_url matches Some(u) && u@ == url@)
                        && final(self).current_selection == selection && final(self).variables
                        == old(self).variables && frames_model(final(self).frames@)
                        == frames_model(old(self).frames@).push(deep_view_cmds(body@)) && final(self).phase is Idle)
                    &&& (!(old(self).phase matches Phase::AwaitOpen { url }) && !(old(self).phase matches Phase::AwaitClickPage { url, body, selection })
                        ==> spec_protocol_error(*old(self), *final(self), r))
                },
                Reply::Links { hrefs, selection } => {
                    &&& (old(self).phase matches Phase::AwaitLinks { selector, body } ==> {
                        if hrefs@.len() == 0 {
                            r matches Step::Do(Request::Note { message }) && message@
                                == "No links found for selector: "@ + selector@ && same_session(
                                *old(self),
                                *final(self),
                            ) && final(self).frames == old(self).frames && final(self).phase is AwaitDone
                        } else {
                            r matches Step::Do(Request::Fetch { url }) && url@ == hrefs@[0]@
                                && same_session(*old(self), *final(self)) && final(self).frames
                                == old(self).frames && (final(self).phase matches Phase::AwaitClickPage {
                                url: u2,
                                body: b2,
                                selection: s2,
                            } && u2@ == hrefs@[0]@ && b2 == body && s2 == selection)
                        }
                    })
                    &&& (!(old(self).phase matches Phase::AwaitLinks { selector, body })
                        ==> spec_protocol_error(*old(self), *final(self), r))
                },
                Reply::MediaItems { items } => {
                    &&& (old(self).phase matches Phase::AwaitMedia { blocks } ==> r matches
                        Step::Do(Request::Download { jobs }) && deep_view_jobs(jobs@)
                        == spec_plan_model(
                        deep_view_items(items@),
                        deep_view_blocks(blocks@),
                        "./downloaded_media"@,
                    ) && same_session(*old(self), *final(self)) && final(self).frames == old(self).frames && final(self).phase is AwaitDone)
                    &&& (!(old(self).phase matches Phase::AwaitMedia { blocks })
                        ==> spec_protocol_error(*old(self), *final(self), r))
                },
                Reply::Done => {
                    &&& (old(self).phase is AwaitDone ==> r is Continue && same_session(
                        *old(self),
                        *final(self),
                    ) && final(self).frames == old(self).frames && final(self).phase is Idle)
                    &&& (!(old(self).phase is AwaitDone) ==> spec_protocol_error(
                        *old(self),
                        *final(self),
                        r,
                    ))
                },
            },
    {
        let mut ph = Phase::Idle;
        core::mem::swap(&mut ph, &mut self.phase);
        match (ph, reply) {
            (_, Reply::Failed { error }) => Step::Failed(error),
            (Phase::AwaitOpen { url }, Reply::Page { html }) => {
                self.current_url = Some(url);
                self.current_html = Some(html);
                Step::Continue
            },
            (Phase::AwaitClickPage { url, body, selection }, Reply::Page { html }) => {
                self.current_url = Some(url);
                self.current_html = Some(html);
                self.current_selection = selection;
                let ghost f0 = self.frames@;
                self.frames.push(body);
                proof {
                    assert(frames_model(self.frames@) =~= frames_model(f0).push(
                        deep_view_cmds(self.frames@.last()@),
                    ));
                }
                Step::Continue
            },
            (Phase::AwaitLinks { selector, body }, Reply::Links { hrefs, selection }) => {
                if hrefs.len() == 0 {
                    let message = String::from_str("No links found for selector: ").concat(
                        selector.as_str(),
                    );
                    self.phase = Phase::AwaitDone;
                    Step::Do(Request::Note { message })
                } else {
                    let first = hrefs[0].clone();
                    let u2 = first.clone();
                    self.phase = Phase::AwaitClickPage { url: first, body, selection };
                    Step::Do(Request::Fetch { url: u2 })
                }
            },
            (Phase::AwaitMedia { blocks }, Reply::MediaItems { items }) => {
                let jobs = plan_downloads(&items, &blocks);
                self.phase = Phase::AwaitDone;
                Step::Do(Request::Download { jobs })
            },
            (Phase::AwaitDone, Reply::Done) => Step::Continue,
            (p, _) => {
                self.phase = p;
                Step::Failed(
                    MslError::TransportError(String::from_str("unexpected reply")),
                )
            },
        }
    }
}

} // verus!
