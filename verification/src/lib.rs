//! Verified core of a template-driven project initializer.
//!
//! A template is a bundle of path/content pairs holding placeholder tokens of
//! the shape `{{$NAME}}` or `{{$NAME:FUNC}}`. The library scans texts for
//! tokens, resolves each through a keyword store, substitutes every known
//! token into paths and contents, and drives file materialization as an
//! explicit state machine whose outside actions (prompts, directory creation,
//! writes, version-control setup) are performed by the caller.
pub mod config;
pub mod engine;
pub mod keywords;
pub mod laws;
pub mod outside;
pub mod scanner;
pub mod store;
pub mod text;

pub use config::Config;
pub use engine::{Extraction, Event, ExtractError, Options, Request, Stage, Template};

use vstd::prelude::*;

verus! {

// Character-level text machinery.

/// Marker type owning the token-formatting and substitution helpers.
pub struct Keywords {}

/// Template metadata, informational only.
#[derive(Debug)]
pub struct Information {
    pub name: Option<String>,
    pub author: Option<String>,
    pub description: Option<String>,
}

/// One template entry: a path and a content, both possibly holding
/// placeholder tokens.
#[derive(Debug, Clone)]
pub struct File {
    pub path: String,
    pub content: String,
}

/// The closed set of placeholder functions: `read` prompts interactively;
/// a token without a suffix passes through.
#[derive(Debug, Clone, Copy, PartialEq, Eq, Structural)]
pub enum Fns {
    Read,
    Plain,
}

/// The spec-level shape of a file entry.
pub struct FileView {
    pub path: Seq<char>,
    pub content: Seq<char>,
}

impl View for File {
    type V = FileView;

    open spec fn view(&self) -> FileView {
        FileView { path: self.path@, content: self.content@ }
    }
}

impl DeepView for File {
    type V = FileView;

    open spec fn deep_view(&self) -> FileView {
        self@
    }
}

impl File {
    /// A file entry from its path and content.
    pub fn new(path: String, content: String) -> (r: Self)
        ensures
            r.path@ == path@,
            r.content@ == content@,
    {
        Self { path, content }
    }
}

} // verus!
