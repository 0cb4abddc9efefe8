//! The extraction engine: render options, the template, and the state
//! machine that processes the template's files in order. Each `step` applies
//! one outside event and answers with the next outside action; the caller
//! performs prompts, directory creation, writes and version-control setup
//! and hands the outcome back.
use crate::keywords::{spec_subst, spec_token};
use crate::outside::{json_null, json_text, liquid_render};
use crate::scanner::{spec_find, FoundKeyword, FoundView};
use crate::store::{spec_has_key, spec_insert, spec_value_of, KeywordStore};
use crate::text::{
    chars_of, contains_chars, index_of, is_space_char, parent_dir, replace_str, spec_contains,
    spec_index_of, spec_parent, spec_replace, spec_trim_by, spec_trim_end_by, string_of,
    trim_spaces,
};
use crate::{File, FileView, Fns, Information, Keywords};
use vstd::prelude::*;

verus! {

/// Render configuration: whether to initialize version control after all
/// writes, whether to apply the conditional-template pass (unset means yes),
/// the optional JSON document for dotted-name lookups, and the project root.
pub struct Options {
    pub git: bool,
    pub use_liquid: Option<bool>,
    pub json_data: Option<serde_json::Value>,
    pub project_root: String,
}

impl Default for Options {
    /// No version control, the conditional-template pass on, a `Null` JSON
    /// document, an empty project root.
    fn default() -> (r: Self)
        ensures
            r.git == false,
            r.use_liquid == Option::Some(true),
            r.json_data is Some,
            r.project_root@ == Seq::<char>::empty(),
    {
        Options {
            git: false,
            use_liquid: Option::Some(true),
            json_data: Option::Some(json_null()),
            project_root: String::new(),
        }
    }
}

impl Options {
    /// Requests or clears the post-write version-control step.
    pub fn set_git(&mut self, git: bool)
        ensures
            final(self).git == git,
            final(self).use_liquid == old(self).use_liquid,
            final(self).project_root@ == old(self).project_root@,
            final(self).json_data is Some <==> old(self).json_data is Some,
    {
        self.git = git;
    }

    /// Configures the JSON document for dotted-name lookups.
    pub fn set_json(&mut self, json_data: serde_json::Value)
        ensures
            final(self).json_data is Some,
            final(self).git == old(self).git,
            final(self).use_liquid == old(self).use_liquid,
            final(self).project_root@ == old(self).project_root@,
    {
        self.json_data = Option::Some(json_data);
    }

    /// Sets the project root.
    pub fn set_project_root(&mut self, project_root: &str)
        ensures
            final(self).project_root@ == project_root@,
            final(self).git == old(self).git,
            final(self).use_liquid == old(self).use_liquid,
            final(self).json_data is Some <==> old(self).json_data is Some,
    {
        self.project_root = project_root.to_owned();
    }
}

/// A parsed template: optional metadata, optional render options, and the
/// ordered file entries. Files are processed in sequence order.
pub struct Template {
    pub info: Option<Information>,
    pub options: Option<Options>,
    pub files: Option<Vec<File>>,
}

/// Why an extraction run stopped early, or what its post-processing had to
/// report.
#[derive(Debug)]
pub enum ExtractError {
    /// A placeholder carried a function suffix outside the closed set.
    InvalidFunction { name: String },
    /// An interactive line could not be read.
    PromptFailed { label: String },
    /// The conditional-template pass failed on the substituted content.
    RenderFailed { message: String },
    /// A parent directory could not be created.
    DirFailed { path: String },
    /// The output file could not be written.
    WriteFailed { path: String },
}

/// The next outside action the caller must perform.
#[derive(Debug)]
pub enum Request {
    /// Nothing outside to do: call `step` again with `Event::Proceed`.
    Continue,
    /// Read one line interactively under this label and answer with
    /// `Event::Line`.
    PromptLine { label: String },
    /// Report the unresolved token as a warning and answer `Event::Proceed`.
    Warn { token: String },
    /// Evaluate the query against the JSON text and answer with
    /// `Event::JsonResult`.
    JsonQuery { query: String, json: String },
    /// Create the directory and all missing ancestors; answer with
    /// `Event::DirCreated`.
    CreateDirs { path: String },
    /// Write the content to the path, overwriting; answer with
    /// `Event::Written`.
    WriteFile { path: String, content: String },
    /// All files are written: initialize version control in this root.
    /// Answer `Event::Proceed`.
    InitGit { root: String },
    /// Post-processing could not run; the run itself succeeded. Terminal.
    PostError { message: String },
    /// The run failed on this error. Terminal.
    Failed { error: ExtractError },
    /// The run is complete. Terminal.
    Done,
}

/// The outcome of the last requested outside action.
#[derive(Debug)]
pub enum Event {
    /// Answer to `Continue`, `Warn` and `InitGit`.
    Proceed,
    /// Answer to `PromptLine`: the line read, or nothing on input failure.
    Line { value: Option<String> },
    /// Answer to `JsonQuery`: the textual result, or nothing on failure.
    JsonResult { value: Option<String> },
    /// Answer to `CreateDirs`.
    DirCreated { ok: bool },
    /// Answer to `WriteFile`.
    Written { ok: bool },
}

/// Where the machine stands inside the current file's pipeline.
#[derive(Debug, Clone, Copy)]
pub enum Stage {
    /// Scan the current file's content, or post-process after the last file.
    ScanContent,
    /// Dispatch the next pending placeholder of the content or the path.
    Resolve { on_path: bool },
    /// A `read` prompt is outstanding.
    AwaitLine { on_path: bool },
    /// A pass-through warning is outstanding.
    AwaitWarn { on_path: bool },
    /// A JSON query is outstanding.
    AwaitJson { on_path: bool },
    /// Decide whether the project name must be prompted for.
    ProjectCheck,
    /// The project-name prompt is outstanding.
    AwaitProject,
    /// Compute the output directory and request its creation.
    MakeDirs,
    /// Directory creation is outstanding.
    AwaitDirs,
    /// Substitute, optionally render, and request the write.
    Render,
    /// The write is outstanding.
    AwaitWrite,
    /// Version-control initialization is outstanding.
    AwaitGit,
    /// The run is complete.
    Done,
    /// The run failed; no further file is processed.
    Failed,
}

/// The extraction state machine.
pub struct Extraction {
    pub files: Vec<File>,
    pub options: Options,
    pub store: KeywordStore,
    pub json_text: Option<String>,
    pub idx: usize,
    pub pending: Vec<FoundKeyword>,
    pub stage: Stage,
    pub error: Option<ExtractError>,
}

/// The view of an optional string.
pub open spec fn opt_str(o: Option<String>) -> Option<Seq<char>> {
    match o {
        Option::Some(s) => Option::Some(s@),
        Option::None => Option::None,
    }
}

/// Two errors carry the same kind and the same text.
pub open spec fn err_like(a: ExtractError, b: ExtractError) -> bool {
    match (a, b) {
        (
            ExtractError::InvalidFunction { name: x },
            ExtractError::InvalidFunction { name: y },
        ) => x@ == y@,
        (ExtractError::PromptFailed { label: x }, ExtractError::PromptFailed { label: y }) => x@
            == y@,
        (ExtractError::RenderFailed { message: x }, ExtractError::RenderFailed { message: y }) => x@
            == y@,
        (ExtractError::DirFailed { path: x }, ExtractError::DirFailed { path: y }) => x@ == y@,
        (ExtractError::WriteFailed { path: x }, ExtractError::WriteFailed { path: y }) => x@ == y@,
        _ => false,
    }
}

/// Two optional errors agree.
pub open spec fn opt_err(a: Option<ExtractError>, b: Option<ExtractError>) -> bool {
    match (a, b) {
        (Option::Some(x), Option::Some(y)) => err_like(x, y),
        (Option::None, Option::None) => true,
        _ => false,
    }
}

/// What no step ever changes: the files, the derived JSON text, and the
/// options apart from the project root.
pub open spec fn frame_core(pre: Extraction, post: Extraction) -> bool {
    &&& post.files.deep_view() == pre.files.deep_view()
    &&& opt_str(post.json_text) == opt_str(pre.json_text)
    &&& post.options.git == pre.options.git
    &&& post.options.use_liquid == pre.options.use_liquid
    &&& (post.options.json_data is Some <==> pre.options.json_data is Some)
}

/// The frame plus the project root.
pub open spec fn frame(pre: Extraction, post: Extraction) -> bool {
    &&& frame_core(pre, post)
    &&& post.options.project_root@ == pre.options.project_root@
}

/// A step that changes only the stage.
pub open spec fn quiet(pre: Extraction, post: Extraction) -> bool {
    &&& frame(pre, post)
    &&& post.store@ == pre.store@
    &&& post.pending.deep_view() == pre.pending.deep_view()
    &&& post.idx == pre.idx
    &&& opt_err(pre.error, post.error)
}

/// The run failed on an unrecognized function suffix.
pub open spec fn failed_invalid(post: Extraction, r: Request, suffix: Seq<char>) -> bool {
    &&& post.stage is Failed
    &&& (r matches Request::Failed { error: ExtractError::InvalidFunction { name } } && name@
        == suffix)
    &&& (post.error matches Option::Some(e) && (e matches ExtractError::InvalidFunction { name }
        && name@ == suffix))
}

/// The run failed on an interactive prompt.
pub open spec fn failed_prompt(post: Extraction, r: Request, label: Seq<char>) -> bool {
    &&& post.stage is Failed
    &&& (r matches Request::Failed { error: ExtractError::PromptFailed { label: l } } && l@
        == label)
    &&& (post.error matches Option::Some(e) && (e matches ExtractError::PromptFailed { label: l }
        && l@ == label))
}

/// The run failed in the conditional-template pass.
pub open spec fn failed_render(post: Extraction, r: Request) -> bool {
    &&& post.stage is Failed
    &&& (r matches Request::Failed { error: ExtractError::RenderFailed { .. } })
    &&& (post.error matches Option::Some(e) && e matches ExtractError::RenderFailed { .. })
}

/// The run failed creating a directory.
pub open spec fn failed_dir(post: Extraction, r: Request, path: Seq<char>) -> bool {
    &&& post.stage is Failed
    &&& (r matches Request::Failed { error: ExtractError::DirFailed { path: p } } && p@ == path)
    &&& (post.error matches Option::Some(e) && (e matches ExtractError::DirFailed { path: p } && p@
        == path))
}

/// The run failed writing a file.
pub open spec fn failed_write(post: Extraction, r: Request, path: Seq<char>) -> bool {
    &&& post.stage is Failed
    &&& (r matches Request::Failed { error: ExtractError::WriteFailed { path: p } } && p@ == path)
    &&& (post.error matches Option::Some(e) && (e matches ExtractError::WriteFailed { path: p }
        && p@ == path))
}

/// A scan of `text` was applied: on success the classification list becomes
/// pending and the machine turns to resolving; an unrecognized suffix fails
/// the run with the store untouched.
pub open spec fn scan_rel(
    pre: Extraction,
    post: Extraction,
    r: Request,
    text: Seq<char>,
    on_path: bool,
) -> bool {
    &&& frame(pre, post)
    &&& post.store@ == pre.store@
    &&& post.idx == pre.idx
    &&& match spec_find(text, pre.store@) {
        Result::Ok(found) => {
            &&& post.pending.deep_view() == found
            &&& post.stage == (Stage::Resolve { on_path })
            &&& r is Continue
            &&& opt_err(pre.error, post.error)
        },
        Result::Err(suffix) => {
            &&& failed_invalid(post, r, suffix)
            &&& post.pending.deep_view() == pre.pending.deep_view()
        },
    }
}

/// The front pending placeholder is dispatched: a dotted name with a JSON
/// document configured goes to the query evaluator whatever its function
/// suffix says; otherwise `read` prompts and a plain token warns.
pub open spec fn dispatch_rel(
    pre: Extraction,
    post: Extraction,
    r: Request,
    on_path: bool,
) -> bool {
    let f = pre.pending.deep_view()[0];
    &&& quiet(pre, post)
    &&& if pre.json_text is Some && spec_index_of(f.name, '.') >= 0 {
        &&& post.stage == (Stage::AwaitJson { on_path })
        &&& (r matches Request::JsonQuery { query, json } && query@ == f.name && json@
            == pre.json_text->Some_0@)
    } else if f.func == Fns::Read {
        &&& post.stage == (Stage::AwaitLine { on_path })
        &&& (r matches Request::PromptLine { label } && label@ == f.name)
    } else {
        &&& post.stage == (Stage::AwaitWarn { on_path })
        &&& (r matches Request::Warn { token } && token@ == f.token)
    }
}

/// The textual result of a JSON query, normalized: quotes removed, trailing
/// line breaks trimmed.
pub open spec fn spec_json_norm(v: Seq<char>) -> Seq<char> {
    spec_trim_end_by(
        spec_replace(v, seq!['"'], Seq::empty()),
        |c: char| c == '\n' || c == '\r',
    )
}

/// A JSON query answered: on success the normalized result is stored under
/// the exact token text; on failure nothing is stored. Either way the
/// placeholder is consumed.
pub open spec fn json_rel(
    pre: Extraction,
    event: Event,
    post: Extraction,
    r: Request,
    on_path: bool,
) -> bool {
    let f = pre.pending.deep_view()[0];
    &&& frame(pre, post)
    &&& post.idx == pre.idx
    &&& opt_err(pre.error, post.error)
    &&& post.pending.deep_view() == pre.pending.deep_view().skip(1)
    &&& post.stage == (Stage::Resolve { on_path })
    &&& r is Continue
    &&& match event {
        Event::JsonResult { value: Option::Some(v) } => post.store@ == spec_insert(
            pre.store@,
            f.token,
            spec_json_norm(v@),
        ),
        _ => post.store@ == pre.store@,
    }
}

/// A `read` prompt answered: the line is stored under both the
/// function-qualified token text and the text with the suffix removed, so
/// later bare references resolve identically; an input failure aborts.
pub open spec fn line_rel(
    pre: Extraction,
    event: Event,
    post: Extraction,
    r: Request,
    on_path: bool,
) -> bool {
    let f = pre.pending.deep_view()[0];
    match event {
        Event::Line { value: Option::Some(v) } => {
            &&& frame(pre, post)
            &&& post.idx == pre.idx
            &&& opt_err(pre.error, post.error)
            &&& post.pending.deep_view() == pre.pending.deep_view().skip(1)
            &&& post.stage == (Stage::Resolve { on_path })
            &&& r is Continue
            &&& post.store@ == spec_insert(
                spec_insert(pre.store@, f.token, v@),
                spec_replace(f.token, seq![':'] + "read"@, Seq::empty()),
                v@,
            )
        },
        _ => {
            &&& frame(pre, post)
            &&& post.store@ == pre.store@
            &&& post.idx == pre.idx
            &&& post.pending.deep_view() == pre.pending.deep_view()
            &&& failed_prompt(post, r, f.name)
        },
    }
}

/// A pass-through warning acknowledged: the empty string is stored under the
/// token text and the placeholder is consumed.
pub open spec fn warn_rel(
    pre: Extraction,
    post: Extraction,
    r: Request,
    on_path: bool,
) -> bool {
    let f = pre.pending.deep_view()[0];
    &&& frame(pre, post)
    &&& post.idx == pre.idx
    &&& opt_err(pre.error, post.error)
    &&& post.pending.deep_view() == pre.pending.deep_view().skip(1)
    &&& post.stage == (Stage::Resolve { on_path })
    &&& r is Continue
    &&& post.store@ == spec_insert(pre.store@, f.token, Seq::empty())
}

/// The current file references the project-name token in its trimmed
/// content, path, or the trimmed project root.
pub open spec fn project_needed(pre: Extraction) -> bool {
    let tok = spec_token("PROJECTNAME"@, Option::None);
    let file = pre.files.deep_view()[pre.idx as int];
    ||| spec_contains(spec_trim_by(file.content, |c: char| is_space_char(c)), tok)
    ||| spec_contains(spec_trim_by(file.path, |c: char| is_space_char(c)), tok)
    ||| spec_contains(spec_trim_by(pre.options.project_root@, |c: char| is_space_char(c)), tok)
}

/// The project name is still unset: absent or empty in the store.
pub open spec fn project_unset(pre: Extraction) -> bool {
    let tok = spec_token("PROJECTNAME"@, Option::None);
    !spec_has_key(pre.store@, tok) || spec_value_of(pre.store@, tok).len() == 0
}

/// The once-per-run project-name special case: prompt only when the file
/// needs the name and it is still unset; a resolved name is never prompted
/// for again.
pub open spec fn project_check_rel(pre: Extraction, post: Extraction, r: Request) -> bool {
    &&& quiet(pre, post)
    &&& if project_needed(pre) && project_unset(pre) {
        &&& post.stage is AwaitProject
        &&& (r matches Request::PromptLine { label } && label@ == "Project name"@)
    } else {
        &&& post.stage is MakeDirs
        &&& r is Continue
    }
}

/// The project-name prompt answered: the name is stored under the
/// project-name token and becomes the project root.
pub open spec fn project_line_rel(
    pre: Extraction,
    event: Event,
    post: Extraction,
    r: Request,
) -> bool {
    match event {
        Event::Line { value: Option::Some(v) } => {
            &&& frame_core(pre, post)
            &&& post.options.project_root@ == v@
            &&& post.store@ == spec_insert(
                pre.store@,
                spec_token("PROJECTNAME"@, Option::None),
                v@,
            )
            &&& post.pending.deep_view() == pre.pending.deep_view()
            &&& post.idx == pre.idx
            &&& opt_err(pre.error, post.error)
            &&& post.stage is MakeDirs
            &&& r is Continue
        },
        _ => {
            &&& frame(pre, post)
            &&& post.store@ == pre.store@
            &&& post.idx == pre.idx
            &&& post.pending.deep_view() == pre.pending.deep_view()
            &&& failed_prompt(post, r, "Project name"@)
        },
    }
}

/// The parent directory of the substituted output path.
pub open spec fn spec_out_dir(pre: Extraction) -> Seq<char> {
    spec_parent(spec_subst(pre.store@, pre.files.deep_view()[pre.idx as int].path))
}

/// Directory computation: a non-empty parent of the substituted path is
/// requested before the write; an empty one skips straight to rendering.
pub open spec fn dirs_rel(pre: Extraction, post: Extraction, r: Request) -> bool {
    let dir = spec_out_dir(pre);
    &&& quiet(pre, post)
    &&& if dir.len() > 0 {
        &&& post.stage is AwaitDirs
        &&& (r matches Request::CreateDirs { path } && path@ == dir)
    } else {
        &&& post.stage is Render
        &&& r is Continue
    }
}

/// Directory creation answered: failure aborts the run.
pub open spec fn dirs_done_rel(
    pre: Extraction,
    event: Event,
    post: Extraction,
    r: Request,
) -> bool {
    match event {
        Event::DirCreated { ok: true } => {
            &&& quiet(pre, post)
            &&& post.stage is Render
            &&& r is Continue
        },
        _ => {
            &&& frame(pre, post)
            &&& post.store@ == pre.store@
            &&& post.idx == pre.idx
            &&& post.pending.deep_view() == pre.pending.deep_view()
            &&& failed_dir(post, r, spec_out_dir(pre))
        },
    }
}

/// The content after the meta-template marker rewrite and substitution: the
/// fixed marker becomes the project-name token text before every stored pair
/// is substituted in.
pub open spec fn spec_out_content(pre: Extraction) -> Seq<char> {
    spec_subst(
        pre.store@,
        spec_replace(
            pre.files.deep_view()[pre.idx as int].content,
            "initPJNAME"@,
            spec_token("PROJECTNAME"@, Option::None),
        ),
    )
}

/// The substituted output path.
pub open spec fn spec_out_path(pre: Extraction) -> Seq<char> {
    spec_subst(pre.store@, pre.files.deep_view()[pre.idx as int].path)
}

/// Rendering: with the conditional-template pass disabled the write carries
/// exactly the substituted content; otherwise the pass runs on it and its
/// failure aborts the run. The path is the substituted path either way.
pub open spec fn render_rel(pre: Extraction, post: Extraction, r: Request) -> bool {
    &&& frame(pre, post)
    &&& post.store@ == pre.store@
    &&& post.idx == pre.idx
    &&& post.pending.deep_view() == pre.pending.deep_view()
    &&& if pre.options.use_liquid == Option::Some(false) {
        &&& post.stage is AwaitWrite
        &&& opt_err(pre.error, post.error)
        &&& (r matches Request::WriteFile { path, content } && path@ == spec_out_path(pre)
            && content@ == spec_out_content(pre))
    } else {
        ||| {
            &&& post.stage is AwaitWrite
            &&& opt_err(pre.error, post.error)
            &&& (r matches Request::WriteFile { path, .. } && path@ == spec_out_path(pre))
        }
        ||| failed_render(post, r)
    }
}

/// The write answered: success moves to the next file; failure aborts the
/// run, leaving earlier output in place.
pub open spec fn write_done_rel(
    pre: Extraction,
    event: Event,
    post: Extraction,
    r: Request,
) -> bool {
    match event {
        Event::Written { ok: true } => {
            &&& frame(pre, post)
            &&& post.store@ == pre.store@
            &&& opt_err(pre.error, post.error)
            &&& post.pending.deep_view() == pre.pending.deep_view()
            &&& post.idx == pre.idx + 1
            &&& post.stage is ScanContent
            &&& r is Continue
        },
        _ => {
            &&& frame(pre, post)
            &&& post.store@ == pre.store@
            &&& post.idx == pre.idx
            &&& post.pending.deep_view() == pre.pending.deep_view()
            &&& failed_write(post, r, spec_out_path(pre))
        },
    }
}

/// Post-processing after the last file: version control is initialized in
/// the project root when requested and the root is set; a requested
/// initialization without a root is reported, not escalated.
pub open spec fn finish_rel(pre: Extraction, post: Extraction, r: Request) -> bool {
    &&& quiet(pre, post)
    &&& if pre.options.git && pre.options.project_root@.len() > 0 {
        &&& post.stage is AwaitGit
        &&& (r matches Request::InitGit { root } && root@ == pre.options.project_root@)
    } else if pre.options.git {
        &&& post.stage is Done
        &&& (r matches Request::PostError { message } && message@ == "Project root is not set"@)
    } else {
        &&& post.stage is Done
        &&& r is Done
    }
}

/// What one step does, by stage: the whole observable behaviour of the
/// machine.
pub open spec fn step_rel(pre: Extraction, event: Event, post: Extraction, r: Request) -> bool {
    match pre.stage {
        Stage::ScanContent => {
            if pre.idx == pre.files.deep_view().len() {
                finish_rel(pre, post, r)
            } else {
                scan_rel(pre, post, r, pre.files.deep_view()[pre.idx as int].content, false)
            }
        },
        Stage::Resolve { on_path } => {
            if pre.pending.deep_view().len() == 0 {
                if !on_path {
                    scan_rel(pre, post, r, pre.files.deep_view()[pre.idx as int].path, true)
                } else {
                    &&& quiet(pre, post)
                    &&& post.stage is ProjectCheck
                    &&& r is Continue
                }
            } else {
                dispatch_rel(pre, post, r, on_path)
            }
        },
        Stage::AwaitJson { on_path } => json_rel(pre, event, post, r, on_path),
        Stage::AwaitLine { on_path } => line_rel(pre, event, post, r, on_path),
        Stage::AwaitWarn { on_path } => warn_rel(pre, post, r, on_path),
        Stage::ProjectCheck => project_check_rel(pre, post, r),
        Stage::AwaitProject => project_line_rel(pre, event, post, r),
        Stage::MakeDirs => dirs_rel(pre, post, r),
        Stage::AwaitDirs => dirs_done_rel(pre, event, post, r),
        Stage::Render => render_rel(pre, post, r),
        Stage::AwaitWrite => write_done_rel(pre, event, post, r),
        Stage::AwaitGit => {
            &&& quiet(pre, post)
            &&& post.stage is Done
            &&& r is Done
        },
        Stage::Done => {
            &&& quiet(pre, post)
            &&& post.stage is Done
            &&& r is Done
        },
        Stage::Failed => {
            &&& quiet(pre, post)
            &&& post.stage is Failed
            &&& (r matches Request::Failed { error } && (pre.error matches Option::Some(e)
                && err_like(error, e)))
        },
    }
}

/// The event a stage expects.
pub open spec fn event_fits(stage: Stage, e: Event) -> bool {
    match stage {
        Stage::AwaitLine { .. } | Stage::AwaitProject => e is Line,
        Stage::AwaitJson { .. } => e is JsonResult,
        Stage::AwaitDirs => e is DirCreated,
        Stage::AwaitWrite => e is Written,
        _ => e is Proceed,
    }
}

impl Extraction {
    /// The machine's invariant.
    pub open spec fn wf(&self) -> bool {
        &&& self.store.wf()
        &&& self.idx <= self.files.deep_view().len()
        &&& match self.stage {
            Stage::ScanContent | Stage::Done | Stage::AwaitGit => true,
            Stage::Failed => self.error is Some,
            Stage::Resolve { .. } | Stage::ProjectCheck | Stage::AwaitProject | Stage::MakeDirs
                | Stage::AwaitDirs | Stage::Render | Stage::AwaitWrite => self.idx
                < self.files.deep_view().len(),
            Stage::AwaitLine { .. } | Stage::AwaitWarn { .. } => self.idx
                < self.files.deep_view().len() && self.pending.deep_view().len() > 0,
            Stage::AwaitJson { .. } => self.idx < self.files.deep_view().len()
                && self.pending.deep_view().len() > 0 && self.json_text is Some,
        }
    }

    /// The run ended, well or badly.
    pub fn is_finished(&self) -> (b: bool)
        ensures
            b == (self.stage is Done || self.stage is Failed),
    {
        match self.stage {
            Stage::Done => true,
            Stage::Failed => true,
            _ => false,
        }
    }

    /// Read access to the store, for callers that keep it after the run.
    pub fn store_ref(&self) -> (r: &KeywordStore)
        ensures
            r@ == self.store@,
    {
        &self.store
    }

    /// Applies the outcome of the last requested action and answers with the
    /// next one.
    pub fn step(&mut self, event: Event) -> (r: Request)
        requires
            old(self).wf(),
            event_fits(old(self).stage, event),
        ensures
            final(self).wf(),
            step_rel(*old(self), event, *final(self), r),
    {
        let stage = self.stage;
        match stage {
            Stage::ScanContent => {
                if self.idx == self.files.len() {
                    self.finish_step()
                } else {
                    proof {
                        assert(self.files.deep_view()[self.idx as int]
                            == self.files@[self.idx as int]@);
                    }
                    let text = self.files[self.idx].content.clone();
                    self.scan_step(text, false)
                }
            },
            Stage::Resolve { on_path } => {
                if self.pending.len() == 0 {
                    assert(self.pending.deep_view().len() == 0);
                    if !on_path {
                        proof {
                            assert(self.files.deep_view()[self.idx as int]
                                == self.files@[self.idx as int]@);
                        }
                        let text = self.files[self.idx].path.clone();
                        self.scan_step(text, true)
                    } else {
                        self.stage = Stage::ProjectCheck;
                        Request::Continue
                    }
                } else {
                    assert(self.pending.deep_view().len() > 0) by {
                        assert(self.pending.deep_view().len() == self.pending@.len());
                    }
                    proof {
                        assert(self.pending.deep_view()[0] == self.pending@[0]@);
                    }
                    let name = self.pending[0].name.clone();
                    let token = self.pending[0].token.clone();
                    let func = self.pending[0].func;
                    let name_chars = chars_of(name.as_str());
                    let dotted = match index_of(&name_chars, '.') {
                        Option::Some(_) => true,
                        Option::None => false,
                    };
                    if self.json_text.is_some() && dotted {
                        let json = match &self.json_text {
                            Option::Some(j) => j.clone(),
                            Option::None => vstd::pervasive::unreached(),
                        };
                        self.stage = Stage::AwaitJson { on_path };
                        Request::JsonQuery { query: name, json }
                    } else {
                        match func {
                            Fns::Read => {
                                self.stage = Stage::AwaitLine { on_path };
                                Request::PromptLine { label: name }
                            },
                            Fns::Plain => {
                                self.stage = Stage::AwaitWarn { on_path };
                                Request::Warn { token }
                            },
                        }
                    }
                }
            },
            Stage::AwaitJson { on_path } => {
                proof {
                    assert(self.pending.deep_view()[0] == self.pending@[0]@);
                }
                let ghost pre_pending = self.pending.deep_view();
                match event {
                    Event::JsonResult { value } => {
                        match value {
                            Option::Some(v) => {
                                let token = self.pending[0].token.clone();
                                let norm = normalize_json_result(&v);
                                self.store.insert(token, norm);
                            },
                            Option::None => {},
                        }
                        self.pending.remove(0);
                        assert(self.pending.deep_view() =~= pre_pending.skip(1));
                        self.stage = Stage::Resolve { on_path };
                        Request::Continue
                    },
                    _ => vstd::pervasive::unreached(),
                }
            },
            Stage::AwaitLine { on_path } => {
                proof {
                    assert(self.pending.deep_view()[0] == self.pending@[0]@);
                }
                let ghost pre_pending = self.pending.deep_view();
                match event {
                    Event::Line { value } => {
                        match value {
                            Option::Some(v) => {
                                let token = self.pending[0].token.clone();
                                let bare = Fns::remove_fn_name(token.as_str(), Fns::Read);
                                self.store.insert(token, v.clone());
                                self.store.insert(bare, v);
                                self.pending.remove(0);
                                assert(self.pending.deep_view() =~= pre_pending.skip(1));
                                self.stage = Stage::Resolve { on_path };
                                Request::Continue
                            },
                            Option::None => {
                                let label = self.pending[0].name.clone();
                                self.stage = Stage::Failed;
                                self.error = Option::Some(
                                    ExtractError::PromptFailed { label: label.clone() },
                                );
                                Request::Failed {
                                    error: ExtractError::PromptFailed { label },
                                }
                            },
                        }
                    },
                    _ => vstd::pervasive::unreached(),
                }
            },
            Stage::AwaitWarn { on_path } => {
                proof {
                    assert(self.pending.deep_view()[0] == self.pending@[0]@);
                }
                let ghost pre_pending = self.pending.deep_view();
                let token = self.pending[0].token.clone();
                self.store.insert(token, String::new());
                self.pending.remove(0);
                assert(self.pending.deep_view() =~= pre_pending.skip(1));
                self.stage = Stage::Resolve { on_path };
                Request::Continue
            },
            Stage::ProjectCheck => {
                proof {
                    assert(self.files.deep_view()[self.idx as int]
                        == self.files@[self.idx as int]@);
                }
                let tok = Keywords::from("PROJECTNAME", Option::None);
                let tok_chars = chars_of(tok.as_str());
                let content_trimmed = trim_spaces(&chars_of(self.files[self.idx].content.as_str()));
                let path_trimmed = trim_spaces(&chars_of(self.files[self.idx].path.as_str()));
                let root_trimmed = trim_spaces(&chars_of(self.options.project_root.as_str()));
                let needed = contains_chars(&content_trimmed, &tok_chars) || contains_chars(
                    &path_trimmed,
                    &tok_chars,
                ) || contains_chars(&root_trimmed, &tok_chars);
                let unset = match self.store.get(&tok) {
                    Option::Some(v) => v.as_str().is_empty(),
                    Option::None => true,
                };
                if needed && unset {
                    self.stage = Stage::AwaitProject;
                    Request::PromptLine { label: "Project name".to_owned() }
                } else {
                    self.stage = Stage::MakeDirs;
                    Request::Continue
                }
            },
            Stage::AwaitProject => {
                match event {
                    Event::Line { value } => {
                        match value {
                            Option::Some(v) => {
                                let tok = Keywords::from("PROJECTNAME", Option::None);
                                self.store.insert(tok, v.clone());
                                self.options.project_root = v;
                                self.stage = Stage::MakeDirs;
                                Request::Continue
                            },
                            Option::None => {
                                self.stage = Stage::Failed;
                                self.error = Option::Some(
                                    ExtractError::PromptFailed {
                                        label: "Project name".to_owned(),
                                    },
                                );
                                Request::Failed {
                                    error: ExtractError::PromptFailed {
                                        label: "Project name".to_owned(),
                                    },
                                }
                            },
                        }
                    },
                    _ => vstd::pervasive::unreached(),
                }
            },
            Stage::MakeDirs => {
                proof {
                    assert(self.files.deep_view()[self.idx as int]
                        == self.files@[self.idx as int]@);
                }
                let sp = Keywords::replace_keywords(
                    &self.store,
                    self.files[self.idx].path.as_str(),
                );
                let dir = parent_dir(&chars_of(sp.as_str()));
                if dir.len() > 0 {
                    self.stage = Stage::AwaitDirs;
                    Request::CreateDirs { path: string_of(&dir) }
                } else {
                    self.stage = Stage::Render;
                    Request::Continue
                }
            },
            Stage::AwaitDirs => {
                match event {
                    Event::DirCreated { ok } => {
                        if ok {
                            self.stage = Stage::Render;
                            Request::Continue
                        } else {
                            proof {
                                assert(self.files.deep_view()[self.idx as int]
                                    == self.files@[self.idx as int]@);
                            }
                            let sp = Keywords::replace_keywords(
                                &self.store,
                                self.files[self.idx].path.as_str(),
                            );
                            let dir = string_of(&parent_dir(&chars_of(sp.as_str())));
                            self.stage = Stage::Failed;
                            self.error = Option::Some(
                                ExtractError::DirFailed { path: dir.clone() },
                            );
                            Request::Failed { error: ExtractError::DirFailed { path: dir } }
                        }
                    },
                    _ => vstd::pervasive::unreached(),
                }
            },
            Stage::Render => {
                proof {
                    assert(self.files.deep_view()[self.idx as int]
                        == self.files@[self.idx as int]@);
                }
                let projtok = Keywords::from("PROJECTNAME", Option::None);
                let marked = replace_str(
                    self.files[self.idx].content.as_str(),
                    "initPJNAME",
                    projtok.as_str(),
                );
                let substituted = Keywords::replace_keywords(&self.store, marked.as_str());
                let path = Keywords::replace_keywords(
                    &self.store,
                    self.files[self.idx].path.as_str(),
                );
                let use_liquid = match self.options.use_liquid {
                    Option::Some(false) => false,
                    _ => true,
                };
                if use_liquid {
                    match liquid_render(substituted.as_str()) {
                        Result::Ok(rendered) => {
                            self.stage = Stage::AwaitWrite;
                            Request::WriteFile { path, content: rendered }
                        },
                        Result::Err(message) => {
                            self.stage = Stage::Failed;
                            self.error = Option::Some(
                                ExtractError::RenderFailed { message: message.clone() },
                            );
                            Request::Failed { error: ExtractError::RenderFailed { message } }
                        },
                    }
                } else {
                    self.stage = Stage::AwaitWrite;
                    Request::WriteFile { path, content: substituted }
                }
            },
            Stage::AwaitWrite => {
                match event {
                    Event::Written { ok } => {
                        if ok {
                            let n = self.files.len();
                            assert(self.files.deep_view().len() == n as int);
                            assert(self.idx < n);
                            self.idx = self.idx + 1;
                            self.stage = Stage::ScanContent;
                            Request::Continue
                        } else {
                            proof {
                                assert(self.files.deep_view()[self.idx as int]
                                    == self.files@[self.idx as int]@);
                            }
                            let path = Keywords::replace_keywords(
                                &self.store,
                                self.files[self.idx].path.as_str(),
                            );
                            self.stage = Stage::Failed;
                            self.error = Option::Some(
                                ExtractError::WriteFailed { path: path.clone() },
                            );
                            Request::Failed { error: ExtractError::WriteFailed { path } }
                        }
                    },
                    _ => vstd::pervasive::unreached(),
                }
            },
            Stage::AwaitGit => {
                self.stage = Stage::Done;
                Request::Done
            },
            Stage::Done => Request::Done,
            Stage::Failed => {
                let err = match &self.error {
                    Option::Some(e) => clone_error(e),
                    Option::None => vstd::pervasive::unreached(),
                };
                Request::Failed { error: err }
            },
        }
    }

    /// Scans `text`, filling the pending list or failing the run.
    fn scan_step(&mut self, text: String, on_path: bool) -> (r: Request)
        requires
            old(self).wf(),
            old(self).idx < old(self).files.deep_view().len(),
        ensures
            final(self).wf(),
            scan_rel(*old(self), *final(self), r, text@, on_path),
    {
        match Fns::find(text.as_str(), &self.store) {
            Result::Ok(found) => {
                self.pending = found;
                self.stage = Stage::Resolve { on_path };
                Request::Continue
            },
            Result::Err(suffix) => {
                self.stage = Stage::Failed;
                self.error = Option::Some(
                    ExtractError::InvalidFunction { name: suffix.clone() },
                );
                Request::Failed { error: ExtractError::InvalidFunction { name: suffix } }
            },
        }
    }

    /// Post-processing after the last file.
    fn finish_step(&mut self) -> (r: Request)
        requires
            old(self).wf(),
            old(self).idx == old(self).files.deep_view().len(),
        ensures
            final(self).wf(),
            finish_rel(*old(self), *final(self), r),
    {
        if self.options.git {
            if self.options.project_root.as_str().is_empty() {
                self.stage = Stage::Done;
                Request::PostError { message: "Project root is not set".to_owned() }
            } else {
                self.stage = Stage::AwaitGit;
                Request::InitGit { root: self.options.project_root.clone() }
            }
        } else {
            self.stage = Stage::Done;
            Request::Done
        }
    }
}

/// A fresh error value carrying the same kind and text.
fn clone_error(e: &ExtractError) -> (r: ExtractError)
    ensures
        err_like(r, *e),
{
    match e {
        ExtractError::InvalidFunction { name } => ExtractError::InvalidFunction {
            name: name.clone(),
        },
        ExtractError::PromptFailed { label } => ExtractError::PromptFailed {
            label: label.clone(),
        },
        ExtractError::RenderFailed { message } => ExtractError::RenderFailed {
            message: message.clone(),
        },
        ExtractError::DirFailed { path } => ExtractError::DirFailed { path: path.clone() },
        ExtractError::WriteFailed { path } => ExtractError::WriteFailed { path: path.clone() },
    }
}

/// Normalizes a JSON query's textual result: removes the quotes and trims
/// trailing line breaks.
pub fn normalize_json_result(v: &String) -> (r: String)
    ensures
        r@ == spec_json_norm(v@),
{
    let chars = chars_of(v.as_str());
    let mut quote: Vec<char> = Vec::new();
    quote.push('"');
    assert(quote@ =~= seq!['"']);
    let empty: Vec<char> = Vec::new();
    assert(empty@ =~= Seq::<char>::empty());
    let unquoted = crate::text::replace_chars(&chars, &quote, &empty);
    let mut b: usize = unquoted.len();
    let ghost nl = |c: char| c == '\n' || c == '\r';
    while b > 0 && (unquoted[b - 1] == '\n' || unquoted[b - 1] == '\r')
        invariant
            b <= unquoted@.len(),
            forall|j: int|
                b <= j < unquoted@.len() ==> (unquoted@[j] == '\n' || unquoted@[j] == '\r'),
        decreases b,
    {
        b = b - 1;
    }
    proof {
        assert(forall|j: int| b <= j < unquoted@.len() ==> nl(unquoted@[j]));
        crate::text::lemma_trim_end_by_take(unquoted@, nl, b as int);
    }
    let out = crate::text::subvec(&unquoted, 0, b);
    assert(unquoted@.take(b as int) =~= unquoted@.subrange(0, b as int));
    string_of(&out)
}

impl Template {
    /// Sets the metadata.
    pub fn set_info(&mut self, info: Information)
        ensures
            final(self).info is Some,
            final(self).options == old(self).options,
            final(self).files == old(self).files,
    {
        self.info = Option::Some(info);
    }

    /// Sets the file entries.
    pub fn set_files(&mut self, files: Vec<File>)
        ensures
            final(self).files matches Option::Some(f) && f.deep_view() == files.deep_view(),
            final(self).info == old(self).info,
            final(self).options == old(self).options,
    {
        self.files = Option::Some(files);
    }

    /// Sets the render options.
    pub fn set_options(&mut self, options: Options)
        ensures
            final(self).options matches Option::Some(o) && o.git == options.git && o.use_liquid
                == options.use_liquid && o.project_root@ == options.project_root@ && (o.json_data
                is Some <==> options.json_data is Some),
            final(self).info == old(self).info,
            final(self).files == old(self).files,
    {
        self.options = Option::Some(options);
    }

    /// A copy of the render options, if any are set.
    pub fn dump_options(&self) -> (r: Option<Options>)
        ensures
            match (r, self.options) {
                (Option::Some(a), Option::Some(b)) => a.git == b.git && a.use_liquid
                    == b.use_liquid && a.project_root@ == b.project_root@ && (a.json_data is Some
                    <==> b.json_data is Some),
                (Option::None, Option::None) => true,
                _ => false,
            },
    {
        match &self.options {
            Option::Some(o) => {
                let json_data = match &o.json_data {
                    Option::Some(v) => Option::Some(v.clone()),
                    Option::None => Option::None,
                };
                Option::Some(
                    Options {
                        git: o.git,
                        use_liquid: o.use_liquid,
                        json_data,
                        project_root: o.project_root.clone(),
                    },
                )
            },
            Option::None => Option::None,
        }
    }

    /// Applies the conditional-template pass to a string, with no variable
    /// bindings; the error text of a failed parse or render comes back.
    pub fn liquify(string: &str) -> Result<String, String> {
        liquid_render(string)
    }

    /// Begins extraction: consumes the parsed template and the seeded store
    /// and yields the state machine the caller drives with `step`, starting
    /// with `Event::Proceed`. Files are processed strictly in order.
    pub fn extract(self, keywords: KeywordStore) -> (e: Extraction)
        requires
            keywords.wf(),
        ensures
            e.wf(),
            e.store@ == keywords@,
            e.idx == 0,
            e.stage is ScanContent,
            e.pending.deep_view() == Seq::<FoundView>::empty(),
            e.error is None,
            e.files.deep_view() == (match self.files {
                Option::Some(f) => f.deep_view(),
                Option::None => Seq::<FileView>::empty(),
            }),
            e.options.git == (match self.options {
                Option::Some(o) => o.git,
                Option::None => false,
            }),
            e.options.use_liquid == (match self.options {
                Option::Some(o) => o.use_liquid,
                Option::None => Option::Some(true),
            }),
            e.options.project_root@ == (match self.options {
                Option::Some(o) => o.project_root@,
                Option::None => Seq::<char>::empty(),
            }),
            (match self.options {
                Option::Some(o) => o.json_data is None,
                Option::None => false,
            }) ==> e.json_text is None,
    {
        let options = match self.options {
            Option::Some(o) => o,
            Option::None => Options::default(),
        };
        let files = match self.files {
            Option::Some(f) => f,
            Option::None => Vec::new(),
        };
        let json_text = match &options.json_data {
            Option::Some(v) => {
                if v.is_null() {
                    Option::None
                } else {
                    Option::Some(json_text(v))
                }
            },
            Option::None => Option::None,
        };
        let e = Extraction {
            files,
            options,
            store: keywords,
            json_text,
            idx: 0,
            pending: Vec::new(),
            stage: Stage::ScanContent,
            error: Option::None,
        };
        assert(e.pending.deep_view() =~= Seq::<FoundView>::empty());
        e
    }
}


/// Whether `s` ends with `suffix`.
pub open spec fn spec_ends_with(s: Seq<char>, suffix: Seq<char>) -> bool {
    s.len() >= suffix.len() && s.subrange(s.len() - suffix.len(), s.len() as int) == suffix
}

/// The template-document extension.
pub open spec fn spec_toml_ext() -> Seq<char> {
    seq!['.', 't', 'o', 'm', 'l']
}

/// `name` with the template-document extension appended unless already there.
pub open spec fn spec_with_ext(name: Seq<char>) -> Seq<char> {
    if spec_ends_with(name, spec_toml_ext()) {
        name
    } else {
        name + spec_toml_ext()
    }
}

/// The files kept when a template is generated from a directory listing:
/// entries whose path holds a `.git` component are dropped, and every `./`
/// span is stripped from the kept paths; order and contents are preserved.
pub open spec fn spec_listing(files: Seq<FileView>) -> Seq<FileView>
    decreases files.len(),
{
    if files.len() == 0 {
        Seq::empty()
    } else {
        let rest = spec_listing(files.skip(1));
        if spec_contains(files[0].path, seq!['.', 'g', 'i', 't']) {
            rest
        } else {
            seq![
                FileView {
                    path: spec_replace(files[0].path, seq!['.', '/'], Seq::empty()),
                    content: files[0].content,
                },
            ] + rest
        }
    }
}

impl Template {
    /// Builds a template from a raw directory listing: version-control
    /// metadata entries are dropped, current-directory prefixes stripped.
    /// The caller lists the files, serializes the result and writes it out.
    pub fn generate(listing: Vec<File>) -> (r: Template)
        ensures
            r.info is None,
            r.options is None,
            r.files matches Option::Some(f) && f.deep_view() == spec_listing(
                listing.deep_view(),
            ),
    {
        let ghost dv = listing.deep_view();
        let mut out: Vec<File> = Vec::new();
        let n = listing.len();
        let mut i: usize = 0;
        let git_pat = chars_of(".git");
        let dot_slash = chars_of("./");
        let empty: Vec<char> = Vec::new();
        assert(empty@ =~= Seq::<char>::empty());
        assert(git_pat@ =~= seq!['.', 'g', 'i', 't']) by {
            reveal_strlit(".git");
        }
        assert(dot_slash@ =~= seq!['.', '/']) by {
            reveal_strlit("./");
        }
        proof {
            assert(dv.skip(0) =~= dv);
            assert(out.deep_view() =~= Seq::<FileView>::empty());
            assert(Seq::<FileView>::empty() + spec_listing(dv) =~= spec_listing(dv));
        }
        while i < n
            invariant
                i <= n,
                n == listing@.len(),
                dv == listing.deep_view(),
                dv.len() == n,
                git_pat@ == seq!['.', 'g', 'i', 't'],
                dot_slash@ == seq!['.', '/'],
                empty@ == Seq::<char>::empty(),
                spec_listing(dv) == out.deep_view() + spec_listing(dv.skip(i as int)),
            decreases n - i,
        {
            proof {
                assert(dv.skip(i as int).skip(1) =~= dv.skip(i + 1));
                assert(dv.skip(i as int)[0] == dv[i as int]);
                assert(dv[i as int] == listing@[i as int]@);
            }
            let path_chars = chars_of(listing[i].path.as_str());
            if !contains_chars(&path_chars, &git_pat) {
                let new_path = crate::text::replace_chars(&path_chars, &dot_slash, &empty);
                let entry = File {
                    path: string_of(&new_path),
                    content: listing[i].content.clone(),
                };
                assert(entry.deep_view() == (FileView {
                    path: spec_replace(dv[i as int].path, seq!['.', '/'], Seq::<char>::empty()),
                    content: dv[i as int].content,
                }));
                out.push(entry);
                assert(spec_listing(dv) =~~= out.deep_view() + spec_listing(dv.skip(i + 1)));
            }
            i = i + 1;
        }
        assert(dv.skip(i as int) =~= Seq::<FileView>::empty());
        assert(out.deep_view() =~= out.deep_view() + Seq::<FileView>::empty());
        Template { info: Option::None, options: Option::None, files: Option::Some(out) }
    }

    /// `name` with the template-document extension appended unless already
    /// carried.
    pub fn with_toml_ext(name: &str) -> (r: String)
        ensures
            r@ == spec_with_ext(name@),
    {
        let chars = chars_of(name);
        let ext = chars_of(".toml");
        assert(ext@ =~= spec_toml_ext()) by {
            reveal_strlit(".toml");
        }
        let n = chars.len();
        let m = ext.len();
        let ends = if m <= n {
            crate::text::match_at(&chars, &ext, n - m)
        } else {
            false
        };
        if ends {
            assert(chars@.subrange(chars@.len() - 5, chars@.len() as int) =~= chars@.subrange(
                n - m,
                (n - m + ext@.len()) as int,
            ));
            name.to_owned()
        } else {
            assert(!spec_ends_with(name@, spec_toml_ext())) by {
                if spec_ends_with(name@, spec_toml_ext()) {
                    assert(chars@.subrange(n - m, (n - m + ext@.len()) as int) =~= chars@.subrange(
                        chars@.len() - 5,
                        chars@.len() as int,
                    ));
                }
            }
            let mut out = chars;
            crate::text::push_all(&mut out, &ext);
            string_of(&out)
        }
    }

    /// Where a template document is read from: the name itself (with the
    /// extension ensured) when it was found where the caller looked, else
    /// inside the templates directory.
    pub fn validate(name: &str, templates_dir: &str, found_locally: bool) -> (r: String)
        ensures
            found_locally ==> r@ == spec_with_ext(name@),
            !found_locally ==> r@ == templates_dir@ + seq!['/'] + spec_with_ext(name@),
    {
        let ext = Template::with_toml_ext(name);
        if found_locally {
            ext
        } else {
            let mut out = chars_of(templates_dir);
            out.push('/');
            let ext_chars = chars_of(ext.as_str());
            crate::text::push_all(&mut out, &ext_chars);
            assert(out@ =~= templates_dir@ + seq!['/'] + spec_with_ext(name@));
            string_of(&out)
        }
    }
}

} // verus!
