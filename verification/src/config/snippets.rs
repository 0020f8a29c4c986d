//! Saved command snippets (`snippets.toml`).

use vstd::prelude::*;

verus! {

/// Scope of a command snippet.
#[derive(Debug, Clone, Copy, PartialEq, Eq, Structural)]
pub enum SnippetScope {
    /// Available for any host.
    Global,
    /// Available only for one host, named by the snippet.
    Host,
}

/// A saved command snippet.
#[derive(Debug, Clone)]
pub struct Snippet {
    pub name: String,
    pub command: String,
    pub scope: SnippetScope,
    /// The host's name, required when `scope` is `Host`.
    pub host: Option<String>,
    pub tags: Option<Vec<String>>,
    /// Named placeholder parameters, e.g. `["service_name"]`.
    pub params: Option<Vec<String>>,
}

/// The snippets file: a list of snippets.
#[derive(Debug, Clone)]
pub struct SnippetsFile {
    pub snippets: Vec<Snippet>,
}

impl Default for SnippetsFile {
    fn default() -> (r: Self)
        ensures
            r.snippets@.len() == 0,
    {
        SnippetsFile { snippets: Vec::new() }
    }
}

} // verus!
