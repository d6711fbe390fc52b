//! `fsy search`: compile the repository, then query the revision that the compile returned.
//!
//! `search` has its own flat options, because compile and query share option names
//! (`--revision`, `--query`). Its `--revision` is for the query: the compile always compiles
//! the latest snapshot, and the query uses the revision that the compile returns unless
//! `--revision` overrides it.

use vstd::prelude::*;
use crate::commands::{CompileInputArgs, QueryInputArgs};
use crate::models::{CompileResponse, QueryResponse, spec_default_test_file_mutation_policy};
use crate::models::default_test_file_mutation_policy;
use crate::text::{is_blank, text_is_blank, views};

verus! {

/// Options of the `search` command.
#[derive(Debug, Clone, PartialEq, Eq)]
pub struct SearchCmd {
    /// External repository identifier.
    pub repo_id: String,
    /// Directory whose source files are collected (compile).
    pub repo_root: String,
    /// Natural-language repository query (query).
    pub query: String,
    /// File extensions to send (compile).
    pub extensions: Vec<String>,
    /// How the compile updates the snapshot: `merge` or `replace`.
    pub mode: String,
    /// Disable semantic ingestion for the compile.
    pub no_w2: bool,
    /// Revision for the query, in place of the one the compile returns.
    pub revision: Option<String>,
    /// Query intent.
    pub intent: Option<String>,
    /// Context token budget.
    pub budget: Option<u32>,
    /// Ask the server for profiling data.
    pub enable_profiling: bool,
    /// Number of hotspots when profiling.
    pub profiling_top_n: u32,
    /// `bundle` or `legacy`.
    pub response_format: Option<String>,
    /// Print the query's JSON answer instead of a summary.
    pub json: bool,
}

fn clone_opt(s: &Option<String>) -> (r: Option<String>)
    ensures
        r == *s,
{
    match s {
        Some(t) => Some(t.clone()),
        None => None,
    }
}

/// The compile options of a search: the latest revision, no task, the default test-file policy.
pub fn compile_view(cmd: &SearchCmd) -> (r: CompileInputArgs)
    ensures
        r.repo_id == cmd.repo_id,
        r.repo_root == cmd.repo_root,
        r.extensions@ == cmd.extensions@,
        r.mode == cmd.mode,
        r.revision is None,
        r.task_id is None,
        r.task_revision == 1,
        r.task_file is None,
        r.test_file_mutation_policy@ == spec_default_test_file_mutation_policy(),
{
    CompileInputArgs {
        repo_id: cmd.repo_id.clone(),
        repo_root: cmd.repo_root.clone(),
        extensions: cmd.extensions.clone(),
        mode: cmd.mode.clone(),
        revision: None,
        task_id: None,
        task_revision: 1,
        task_file: None,
        test_file_mutation_policy: default_test_file_mutation_policy(),
    }
}

/// The query options of a search, against the given revision.
pub fn query_view(cmd: &SearchCmd, resolved_revision: Option<String>) -> (r: QueryInputArgs)
    ensures
        r.query == cmd.query,
        r.revision == resolved_revision,
        r.intent == cmd.intent,
        r.budget == cmd.budget,
        r.response_format == cmd.response_format,
        r.task_id is None,
        r.task_revision is None,
{
    QueryInputArgs {
        query: cmd.query.clone(),
        revision: resolved_revision,
        intent: clone_opt(&cmd.intent),
        budget: cmd.budget,
        response_format: clone_opt(&cmd.response_format),
        task_id: None,
        task_revision: None,
    }
}

/// The revision the query runs against: `--revision`, or else the one the compile returned.
pub fn resolve_query_revision(cmd: &SearchCmd, compiled: &CompileResponse) -> (r: Option<String>)
    ensures
        r == match cmd.revision {
            Some(v) => Some(v),
            None => Some(compiled.revision),
        },
{
    match &cmd.revision {
        Some(v) => Some(v.clone()),
        None => Some(compiled.revision.clone()),
    }
}

/// The notes that `search` writes to standard error about the query answer: a warning when the
/// server reports an error code, and the agent guidance text when there is one.
pub open spec fn search_notes(resp: QueryResponse) -> Seq<Seq<char>> {
    (if resp.error_code@.len() > 0 {
        seq!["[warn] query error_code="@ + resp.error_code@ + " retrieval_state="@ + resp.retrieval_state@]
    } else {
        Seq::<Seq<char>>::empty()
    }) + (if resp.agent_guidance_text@.len() > 0 {
        seq!["[guidance] "@ + resp.agent_guidance_text@]
    } else {
        Seq::<Seq<char>>::empty()
    })
}

/// The notes of `search`: the warning when the answer carries an error code, then the agent
/// guidance whenever it is not empty, whatever the error code; nothing else.
pub proof fn lemma_search_notes(resp: QueryResponse)
    ensures
        ({
            let r = search_notes(resp);
            let w: int = if resp.error_code@.len() > 0 { 1int } else { 0int };
            let g: int = if resp.agent_guidance_text@.len() > 0 { 1int } else { 0int };
            &&& r.len() == w + g
            &&& resp.error_code@.len() > 0 ==> r[0] == "[warn] query error_code="@ + resp.error_code@
                + " retrieval_state="@ + resp.retrieval_state@
            &&& resp.agent_guidance_text@.len() > 0 ==> r[w] == "[guidance] "@ + resp.agent_guidance_text@
            &&& resp.agent_guidance_text@.len() > 0 ==> r.contains("[guidance] "@ + resp.agent_guidance_text@)
        }),
{
    let r = search_notes(resp);
    let w: int = if resp.error_code@.len() > 0 { 1int } else { 0int };
    if resp.agent_guidance_text@.len() > 0 {
        assert(r[w] == "[guidance] "@ + resp.agent_guidance_text@);
    }
}

/// The notes that `search` writes to standard error about the query answer.
pub fn search_note_lines(resp: &QueryResponse) -> (r: Vec<String>)
    ensures
        views(r@) == search_notes(*resp),
{
    let mut lines: Vec<String> = Vec::new();
    assert(views(lines@) =~= Seq::<Seq<char>>::empty());
    if resp.error_code.as_str().unicode_len() > 0 {
        let mut w = String::from_str("[warn] query error_code=");
        w.append(resp.error_code.as_str());
        w.append(" retrieval_state=");
        w.append(resp.retrieval_state.as_str());
        lines.push(w);
    }
    let ghost after_warn = views(lines@);
    if resp.agent_guidance_text.as_str().unicode_len() > 0 {
        let mut g = String::from_str("[guidance] ");
        g.append(resp.agent_guidance_text.as_str());
        lines.push(g);
        assert(views(lines@) =~= after_warn.push(g@));
    }
    assert(views(lines@) =~= search_notes(*resp));
    lines
}

/// What `search` prints on standard output: the retrieved context, or a note with the coverage
/// and next step when it is empty.
pub fn search_result_line(resp: &QueryResponse) -> (r: String)
    ensures
        r@ == if is_blank(resp.extra_context@) {
            "[ok] query returned empty extra_context (coverage="@ + resp.coverage@ + ", next="@
                + resp.preferred_next_step@ + ")"@
        } else {
            resp.extra_context@
        },
{
    if text_is_blank(resp.extra_context.as_str()) {
        let mut m = String::from_str("[ok] query returned empty extra_context (coverage=");
        m.append(resp.coverage.as_str());
        m.append(", next=");
        m.append(resp.preferred_next_step.as_str());
        m.append(")");
        m
    } else {
        resp.extra_context.clone()
    }
}

} // verus!
