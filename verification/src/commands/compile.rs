//! `fsy compile`: build the compile request from the options and the collected sources.
//!
//! With a revision and a task source the command first asks the server for that snapshot; only
//! when the server answers 404 does it collect the repository and send it.

use vstd::prelude::*;
use crate::client::{has_http_status, ClientError};
use crate::commands::CompileInputArgs;
use crate::models::{CompileRequest, CompileResponse, SourceFilePayload, TaskSourcePayload};
use crate::numbers::{i64_decimal, signed_decimal, u64_decimal, decimal};
use crate::text::{debug_list, debug_quote, debug_quoted, debug_string_list, is_blank, text_is_blank, views};

verus! {

/// Options of the `compile` command.
#[derive(Debug, Clone, PartialEq, Eq)]
pub struct CompileCmd {
    pub input: CompileInputArgs,
    /// Print the server's JSON answer instead of a summary.
    pub json: bool,
}

/// Why the compile command stops before sending a request.
#[derive(Debug, Clone, PartialEq, Eq)]
pub enum CompileError {
    /// Only one of `--task-id` and `--task-file` was given.
    TaskPairIncomplete,
    /// The task file holds nothing but whitespace.
    EmptyTaskSource,
    /// No file of the repository is eligible.
    NoEligibleFiles { repo_root: String, extensions: Vec<String> },
}

/// The message that the command prints for a compile error.
pub open spec fn compile_error_message(e: CompileError) -> Seq<char> {
    match e {
        CompileError::TaskPairIncomplete => "--task-id and --task-file must be supplied together"@,
        CompileError::EmptyTaskSource => "task source file must not be empty"@,
        CompileError::NoEligibleFiles { repo_root, extensions } => "no eligible source files found under "@
            + debug_quoted(repo_root@) + " (extensions: "@ + debug_list(views(extensions@)) + ")"@,
    }
}

impl CompileError {
    /// The message that the command prints for this error.
    pub fn message(&self) -> (r: String)
        ensures
            r@ == compile_error_message(*self),
    {
        match self {
            CompileError::TaskPairIncomplete => String::from_str("--task-id and --task-file must be supplied together"),
            CompileError::EmptyTaskSource => String::from_str("task source file must not be empty"),
            CompileError::NoEligibleFiles { repo_root, extensions } => {
                let mut m = String::from_str("no eligible source files found under ");
                m.append(debug_quote(repo_root.as_str()).as_str());
                m.append(" (extensions: ");
                m.append(debug_string_list(extensions).as_str());
                m.append(")");
                m
            },
        }
    }
}

fn clone_opt(s: &Option<String>) -> (r: Option<String>)
    ensures
        r == *s,
{
    match s {
        Some(t) => Some(t.clone()),
        None => None,
    }
}

/// The task source that a compile request carries for the given options and task file content.
pub open spec fn task_source_of(input: CompileInputArgs, task_description: Option<String>) -> Option<TaskSourcePayload> {
    match input.task_id {
        Some(id) => Some(
            TaskSourcePayload {
                task_id: id,
                task_revision: input.task_revision,
                full_task_description: task_description->0,
            },
        ),
        None => None,
    }
}

/// A compile request with a task carries that task: its id and revision as given on the command
/// line and the task file's content unchanged; a request without `--task-id` carries none.
pub proof fn lemma_task_source_carries_the_task(input: CompileInputArgs, description: String)
    ensures
        forall|id: String| input.task_id == Some(id) ==> {
            let ts = task_source_of(input, Some(description));
            &&& ts is Some
            &&& ts->0.task_id == id
            &&& ts->0.task_revision == input.task_revision
            &&& ts->0.full_task_description == description
        },
        input.task_id is None ==> task_source_of(input, Some(description)) is None,
{
}

/// Builds the compile request of the options (shared by `search`). `task_description` is the
/// content of the task file, which the caller reads when `--task-id` and `--task-file` are
/// both given. A task source goes with a non-blank description; one of the two options without
/// the other is an error.
pub fn build_request(
    input: &CompileInputArgs,
    files: Vec<SourceFilePayload>,
    task_description: Option<String>,
) -> (r: Result<CompileRequest, CompileError>)
    requires
        task_description is Some <==> (input.task_id is Some && input.task_file is Some),
    ensures
        (input.task_id is Some) != (input.task_file is Some) ==> r == Err::<CompileRequest, CompileError>(
            CompileError::TaskPairIncomplete,
        ),
        task_description matches Some(d) && is_blank(d@) ==> r == Err::<CompileRequest, CompileError>(
            CompileError::EmptyTaskSource,
        ),
        r is Ok <==> ((input.task_id is Some) == (input.task_file is Some) && !(task_description matches Some(d) && is_blank(d@))),
        r matches Ok(req) ==> {
            &&& req.repo_id == input.repo_id
            &&& req.files == files
            &&& req.revision == input.revision
            &&& req.mode == input.mode
            &&& req.test_file_mutation_policy == input.test_file_mutation_policy
            &&& req.owner_id is None
            &&& req.task_source == task_source_of(*input, task_description)
        },
{
    let mut request = CompileRequest::new(input.repo_id.clone(), files);
    request.mode = input.mode.clone();
    request.revision = clone_opt(&input.revision);
    request.test_file_mutation_policy = input.test_file_mutation_policy.clone();
    match (&input.task_id, &input.task_file) {
        (Some(task_id), Some(_)) => {
            let full_task_description = match task_description {
                Some(d) => d,
                None => String::new(),
            };
            if text_is_blank(full_task_description.as_str()) {
                return Err(CompileError::EmptyTaskSource);
            }
            request.task_source = Some(
                TaskSourcePayload {
                    task_id: task_id.clone(),
                    task_revision: input.task_revision,
                    full_task_description,
                },
            );
        },
        (None, None) => {},
        _ => {
            return Err(CompileError::TaskPairIncomplete);
        },
    }
    Ok(request)
}

/// Whether the server may already hold the requested snapshot: with both a revision and a task
/// source the command asks for it before collecting sources.
pub fn can_reuse_snapshot(request: &CompileRequest) -> (r: bool)
    ensures
        r == (request.revision is Some && request.task_source is Some),
{
    request.revision.is_some() && request.task_source.is_some()
}

/// Whether an attempt to reuse a snapshot failed only because the server has not compiled it,
/// in which case the command collects the sources and compiles.
pub fn snapshot_missing(error: &ClientError) -> (r: bool)
    ensures
        r == (error matches ClientError::Http { status, .. } && status == 404),
{
    has_http_status(error, 404)
}

/// Fails when no source file was collected.
pub fn require_source_files(files: &Vec<SourceFilePayload>, input: &CompileInputArgs) -> (r: Result<(), CompileError>)
    ensures
        files@.len() == 0 ==> (r matches Err(CompileError::NoEligibleFiles { repo_root, extensions })
            && repo_root == input.repo_root && extensions@ == input.extensions@),
        files@.len() > 0 ==> r is Ok,
{
    if files.len() == 0 {
        Err(CompileError::NoEligibleFiles { repo_root: input.repo_root.clone(), extensions: input.extensions.clone() })
    } else {
        Ok(())
    }
}

/// The note printed when a snapshot is not compiled yet.
pub fn snapshot_fallback_note(request: &CompileRequest) -> (r: String)
    ensures
        r@ == "[info] snapshot "@ + request.repo_id@ + "@"@ + match request.revision {
            Some(v) => v@,
            None => Seq::<char>::empty(),
        } + " is not compiled; collecting repository source"@,
{
    let mut m = String::from_str("[info] snapshot ");
    m.append(request.repo_id.as_str());
    m.append("@");
    match &request.revision {
        Some(v) => m.append(v.as_str()),
        None => {},
    }
    m.append(" is not compiled; collecting repository source");
    m
}

/// The note printed after collecting the sources.
pub fn collected_files_note(count: usize, repo_root: &str) -> (r: String)
    ensures
        r@ == "[info] collected "@ + decimal(count as nat) + " files from "@ + debug_quoted(repo_root@),
{
    let mut m = String::from_str("[info] collected ");
    m.append(u64_decimal(count as u64).as_str());
    m.append(" files from ");
    m.append(debug_quote(repo_root).as_str());
    m
}

/// The summary line of a compile answer.
pub open spec fn spec_compile_summary(resp: CompileResponse) -> Seq<char> {
    "[ok] compile repo_id="@ + resp.repo_id@ + " revision="@ + resp.revision@ + " parsed_file_count="@
        + signed_decimal(resp.parsed_file_count as int)
}

/// The summary line of a compile answer.
pub fn compile_summary(resp: &CompileResponse) -> (r: String)
    ensures
        r@ == spec_compile_summary(*resp),
{
    let mut m = String::from_str("[ok] compile repo_id=");
    m.append(resp.repo_id.as_str());
    m.append(" revision=");
    m.append(resp.revision.as_str());
    m.append(" parsed_file_count=");
    m.append(i64_decimal(resp.parsed_file_count).as_str());
    m
}

/// Where the compile command stands between its outside steps.
#[derive(Debug, Clone, Copy, PartialEq, Eq)]
pub enum CompileStep {
    /// Nothing has been done yet.
    Start,
    /// The request without sources went to the server, to reuse a compiled snapshot.
    SnapshotRequested,
    /// The repository's source files are being collected.
    CollectingSources,
    /// The request with the collected sources went to the server.
    CompileSent,
    /// The command has finished.
    Done,
}

/// What the outside world reports back to the compile command.
#[derive(Debug, Clone, PartialEq, Eq)]
pub enum CompileEvent {
    /// The command starts; `can_reuse` tells whether the request names a revision and a task
    /// source, so that a compiled snapshot may be reused.
    Begin { can_reuse: bool },
    /// The server answered the last request with success.
    Answered,
    /// The last request failed.
    RequestFailed { error: ClientError },
    /// The repository's eligible source files were collected; `count` of them.
    SourcesCollected { count: usize },
}

/// What the compile command does next.
#[derive(Debug, Clone, PartialEq, Eq)]
pub enum CompileAction {
    /// Send the request without sources.
    RequestSnapshot,
    /// Collect the repository's source files, first printing that the snapshot was missing
    /// where `note_missing_snapshot` is set.
    CollectSources { note_missing_snapshot: bool },
    /// Send the request with the collected sources.
    SendCompile,
    /// Print the server's answer and stop with success.
    PrintAnswer,
    /// Stop with the request's error.
    FailRequest { error: ClientError },
    /// Stop: no eligible source file was found.
    FailNoFiles,
    /// Stop: the event does not belong to this step.
    Halt,
}

/// The compile command's decisions: the next step and action for a step and an event.
///
/// A reused snapshot is printed; only a 404 answer to it leads to collecting the sources, and any
/// other failure stops the command; no request is sent without sources; the answer to the full
/// request is printed and its failure stops the command.
pub open spec fn compile_transition(step: CompileStep, event: CompileEvent) -> (CompileStep, CompileAction) {
    match (step, event) {
        (CompileStep::Start, CompileEvent::Begin { can_reuse }) => if can_reuse {
            (CompileStep::SnapshotRequested, CompileAction::RequestSnapshot)
        } else {
            (CompileStep::CollectingSources, CompileAction::CollectSources { note_missing_snapshot: false })
        },
        (CompileStep::SnapshotRequested, CompileEvent::Answered) => (CompileStep::Done, CompileAction::PrintAnswer),
        (CompileStep::SnapshotRequested, CompileEvent::RequestFailed { error }) => if error matches ClientError::Http {
            status,
            ..
        } && status == 404 {
            (CompileStep::CollectingSources, CompileAction::CollectSources { note_missing_snapshot: true })
        } else {
            (CompileStep::Done, CompileAction::FailRequest { error })
        },
        (CompileStep::CollectingSources, CompileEvent::SourcesCollected { count }) => if count == 0 {
            (CompileStep::Done, CompileAction::FailNoFiles)
        } else {
            (CompileStep::CompileSent, CompileAction::SendCompile)
        },
        (CompileStep::CompileSent, CompileEvent::Answered) => (CompileStep::Done, CompileAction::PrintAnswer),
        (CompileStep::CompileSent, CompileEvent::RequestFailed { error }) => (
            CompileStep::Done,
            CompileAction::FailRequest { error },
        ),
        _ => (CompileStep::Done, CompileAction::Halt),
    }
}

/// The next step and action of the compile command.
pub fn compile_step(step: CompileStep, event: CompileEvent) -> (r: (CompileStep, CompileAction))
    ensures
        r == compile_transition(step, event),
{
    match (step, event) {
        (CompileStep::Start, CompileEvent::Begin { can_reuse }) => if can_reuse {
            (CompileStep::SnapshotRequested, CompileAction::RequestSnapshot)
        } else {
            (CompileStep::CollectingSources, CompileAction::CollectSources { note_missing_snapshot: false })
        },
        (CompileStep::SnapshotRequested, CompileEvent::Answered) => (CompileStep::Done, CompileAction::PrintAnswer),
        (CompileStep::SnapshotRequested, CompileEvent::RequestFailed { error }) => if snapshot_missing(&error) {
            (CompileStep::CollectingSources, CompileAction::CollectSources { note_missing_snapshot: true })
        } else {
            (CompileStep::Done, CompileAction::FailRequest { error })
        },
        (CompileStep::CollectingSources, CompileEvent::SourcesCollected { count }) => if count == 0 {
            (CompileStep::Done, CompileAction::FailNoFiles)
        } else {
            (CompileStep::CompileSent, CompileAction::SendCompile)
        },
        (CompileStep::CompileSent, CompileEvent::Answered) => (CompileStep::Done, CompileAction::PrintAnswer),
        (CompileStep::CompileSent, CompileEvent::RequestFailed { error }) => (
            CompileStep::Done,
            CompileAction::FailRequest { error },
        ),
        _ => (CompileStep::Done, CompileAction::Halt),
    }
}

/// The position of a step in the order the compile command goes through them.
pub open spec fn step_rank(step: CompileStep) -> int {
    match step {
        CompileStep::Start => 0,
        CompileStep::SnapshotRequested => 1,
        CompileStep::CollectingSources => 2,
        CompileStep::CompileSent => 3,
        CompileStep::Done => 4,
    }
}

/// Each event moves the compile command forward, so it takes at most four steps, and from
/// `Done` it never leaves `Done`.
pub proof fn lemma_compile_moves_forward(step: CompileStep, event: CompileEvent)
    ensures
        step != CompileStep::Done ==> step_rank(step) < step_rank(compile_transition(step, event).0),
        step == CompileStep::Done ==> compile_transition(step, event) == (CompileStep::Done, CompileAction::Halt),
{
}

/// The sources are sent only after a collection that found files: whenever the next action is
/// `SendCompile`, the event was a collection of at least one file.
pub proof fn lemma_no_compile_without_sources(step: CompileStep, event: CompileEvent)
    ensures
        compile_transition(step, event).1 == CompileAction::SendCompile ==> (event matches CompileEvent::SourcesCollected {
            count,
        } && count > 0 && step == CompileStep::CollectingSources),
{
}

/// After a request for a snapshot, the sources are collected exactly when the server answered
/// 404, and the note about the missing snapshot is printed exactly then.
pub proof fn lemma_fallback_only_on_missing_snapshot(event: CompileEvent)
    ensures
        (compile_transition(CompileStep::SnapshotRequested, event).1 is CollectSources) <==> (
        event matches CompileEvent::RequestFailed { error } && error matches ClientError::Http {
            status,
            ..
        } && status == 404),
        compile_transition(CompileStep::SnapshotRequested, event).1 is CollectSources ==> compile_transition(
            CompileStep::SnapshotRequested,
            event,
        ).1 == (CompileAction::CollectSources { note_missing_snapshot: true }),
{
}

} // verus!
