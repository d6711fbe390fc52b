//! The options of each command and what the commands do with them.

pub mod compile;
pub mod graph;
pub mod query;
pub mod search;

use vstd::prelude::*;
use crate::text::{is_blank, text_is_blank};

verus! {

/// Options shared by every command: where the server is and how to reach it.
#[derive(Debug, Clone, PartialEq, Eq)]
pub struct GlobalArgs {
    /// Base URL of the running server.
    pub base_url: String,
    /// API key sent as `Authorization: Bearer <KEY>`; a blank key sends none.
    pub api_key: String,
    /// Per-request timeout in seconds.
    pub timeout: u64,
}

impl GlobalArgs {
    /// The API key to send: none when the key is blank, so that `--api-key ""` disables it.
    pub fn api_key_option(&self) -> (r: Option<String>)
        ensures
            match r {
                None => is_blank(self.api_key@),
                Some(k) => !is_blank(self.api_key@) && k == self.api_key,
            },
    {
        if text_is_blank(self.api_key.as_str()) {
            None
        } else {
            Some(self.api_key.clone())
        }
    }
}

/// Options shared by `compile` and `search`, which both collect source files.
#[derive(Debug, Clone, PartialEq, Eq)]
pub struct CompileInputArgs {
    /// External repository identifier.
    pub repo_id: String,
    /// Directory whose source files are collected.
    pub repo_root: String,
    /// File extensions to send; none means the languages that the backend parses.
    pub extensions: Vec<String>,
    /// How this compile updates the repository snapshot: `merge` or `replace`.
    pub mode: String,
    /// Logical revision label.
    pub revision: Option<String>,
    /// Upstream task identifier; goes with `task_file`.
    pub task_id: Option<String>,
    /// Upstream task revision.
    pub task_revision: u32,
    /// File that holds the complete upstream task description.
    pub task_file: Option<String>,
    /// Caller policy for modifying repository test files.
    pub test_file_mutation_policy: String,
}

/// Options shared by `query` and `search`.
#[derive(Debug, Clone, PartialEq, Eq)]
pub struct QueryInputArgs {
    /// Natural-language repository query.
    pub query: String,
    /// Logical revision label.
    pub revision: Option<String>,
    /// Query intent used to steer retrieval.
    pub intent: Option<String>,
    /// Context token budget.
    pub budget: Option<u32>,
    /// `bundle` or `legacy`.
    pub response_format: Option<String>,
    /// Task the query is made for; without it the `FORMSY_TASK_ID` environment value is used.
    pub task_id: Option<String>,
    /// Task revision; without it the `FORMSY_TASK_REVISION` environment value is used.
    pub task_revision: Option<u32>,
}

} // verus!
