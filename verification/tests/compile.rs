use formsy_cli::client::ClientError;
use formsy_cli::commands::compile::{
    build_request, can_reuse_snapshot, collected_files_note, compile_step, compile_summary,
    require_source_files, snapshot_fallback_note, snapshot_missing, CompileAction, CompileError,
    CompileEvent, CompileStep,
};
use formsy_cli::commands::CompileInputArgs;
use formsy_cli::models::{CompileResponse, SourceFilePayload};

fn input(task_id: Option<&str>, task_file: Option<&str>) -> CompileInputArgs {
    CompileInputArgs {
        repo_id: "repo-1".to_string(),
        repo_root: ".".to_string(),
        extensions: vec!["py".to_string()],
        mode: "merge".to_string(),
        revision: Some("rev-1".to_string()),
        task_id: task_id.map(str::to_string),
        task_revision: 4,
        task_file: task_file.map(str::to_string),
        test_file_mutation_policy: "prohibited".to_string(),
    }
}

fn files() -> Vec<SourceFilePayload> {
    vec![SourceFilePayload {
        path: "module.py".to_string(),
        content: "value = 1\n".to_string(),
        language: "python".to_string(),
    }]
}

#[test]
fn task_file_becomes_the_complete_typed_task_source() {
    let input = input(Some("task-1"), Some("task.txt"));
    let description = "Fix decode behavior.\n\nPreserve compatibility.".to_string();

    let request = build_request(&input, files(), Some(description)).expect("valid compile request");

    let task_source = request.task_source.as_ref().expect("task source");
    assert_eq!(task_source.task_id, "task-1");
    assert_eq!(task_source.task_revision, 4);
    assert_eq!(task_source.full_task_description, "Fix decode behavior.\n\nPreserve compatibility.");
    assert_eq!(request.test_file_mutation_policy, "prohibited");
    assert_eq!(request.files, files());
    assert_eq!(request.repo_id, "repo-1");
    assert_eq!(request.revision.as_deref(), Some("rev-1"));
    assert_eq!(request.mode, "merge");
    assert_eq!(request.owner_id, None);
}

#[test]
fn compile_without_task_has_no_task_source() {
    let request = build_request(&input(None, None), files(), None).expect("valid");
    assert_eq!(request.task_source, None);
}

#[test]
fn task_options_must_come_together() {
    assert_eq!(build_request(&input(Some("t"), None), files(), None), Err(CompileError::TaskPairIncomplete));
    assert_eq!(build_request(&input(None, Some("f")), files(), None), Err(CompileError::TaskPairIncomplete));
    assert_eq!(
        CompileError::TaskPairIncomplete.message(),
        "--task-id and --task-file must be supplied together"
    );
}

#[test]
fn blank_task_file_is_refused() {
    let result = build_request(&input(Some("t"), Some("f")), files(), Some(" \n\t".to_string()));
    assert_eq!(result, Err(CompileError::EmptyTaskSource));
    assert_eq!(CompileError::EmptyTaskSource.message(), "task source file must not be empty");
}

#[test]
fn snapshot_is_reused_only_with_revision_and_task() {
    let with_task = build_request(&input(Some("t"), Some("f")), Vec::new(), Some("do it".to_string())).unwrap();
    assert!(can_reuse_snapshot(&with_task));
    let without_task = build_request(&input(None, None), Vec::new(), None).unwrap();
    assert!(!can_reuse_snapshot(&without_task));
    let mut no_revision = input(Some("t"), Some("f"));
    no_revision.revision = None;
    let no_revision = build_request(&no_revision, Vec::new(), Some("do it".to_string())).unwrap();
    assert!(!can_reuse_snapshot(&no_revision));
    assert_eq!(
        snapshot_fallback_note(&with_task),
        "[info] snapshot repo-1@rev-1 is not compiled; collecting repository source"
    );
}

#[test]
fn only_not_found_falls_back_to_collecting() {
    let not_found = ClientError::Http {
        path: "/api/v1/compile".to_string(),
        status: 404,
        status_text: "404 Not Found".to_string(),
        body: String::new(),
    };
    let server_error = ClientError::Http {
        path: "/api/v1/compile".to_string(),
        status: 500,
        status_text: "500 Internal Server Error".to_string(),
        body: String::new(),
    };
    assert!(snapshot_missing(&not_found));
    assert!(!snapshot_missing(&server_error));
    assert!(!snapshot_missing(&ClientError::Transport { reason: "refused".to_string() }));
}

#[test]
fn no_files_is_an_error_naming_root_and_extensions() {
    let args = input(None, None);
    assert_eq!(
        require_source_files(&Vec::new(), &args),
        Err(CompileError::NoEligibleFiles { repo_root: ".".to_string(), extensions: vec!["py".to_string()] })
    );
    assert_eq!(require_source_files(&files(), &args), Ok(()));
    let message = CompileError::NoEligibleFiles {
        repo_root: "./src".to_string(),
        extensions: vec!["py".to_string(), "ts".to_string()],
    }
    .message();
    assert_eq!(message, "no eligible source files found under \"./src\" (extensions: [\"py\", \"ts\"])");
}

#[test]
fn compile_summary_line() {
    let response = CompileResponse {
        repo_id: "repo-1".to_string(),
        revision: "rev-9".to_string(),
        parsed_file_count: 1203,
    };
    assert_eq!(compile_summary(&response), "[ok] compile repo_id=repo-1 revision=rev-9 parsed_file_count=1203");
    let negative = CompileResponse { parsed_file_count: i64::MIN, ..response };
    assert_eq!(
        compile_summary(&negative),
        "[ok] compile repo_id=repo-1 revision=rev-9 parsed_file_count=-9223372036854775808"
    );
    assert_eq!(collected_files_note(3, "./src"), "[info] collected 3 files from \"./src\"");
}

fn http_error(status: u16) -> ClientError {
    ClientError::Http {
        path: "/api/v1/compile".to_string(),
        status,
        status_text: format!("{status}"),
        body: String::new(),
    }
}

#[test]
fn compile_reuses_a_compiled_snapshot() {
    let (step, action) = compile_step(CompileStep::Start, CompileEvent::Begin { can_reuse: true });
    assert_eq!((step, action), (CompileStep::SnapshotRequested, CompileAction::RequestSnapshot));
    assert_eq!(
        compile_step(step, CompileEvent::Answered),
        (CompileStep::Done, CompileAction::PrintAnswer)
    );
}

#[test]
fn compile_collects_sources_only_when_the_snapshot_is_missing() {
    assert_eq!(
        compile_step(CompileStep::SnapshotRequested, CompileEvent::RequestFailed { error: http_error(404) }),
        (CompileStep::CollectingSources, CompileAction::CollectSources { note_missing_snapshot: true })
    );
    assert_eq!(
        compile_step(CompileStep::SnapshotRequested, CompileEvent::RequestFailed { error: http_error(500) }),
        (CompileStep::Done, CompileAction::FailRequest { error: http_error(500) })
    );
    let transport = ClientError::Transport { reason: "refused".to_string() };
    assert_eq!(
        compile_step(CompileStep::SnapshotRequested, CompileEvent::RequestFailed { error: transport.clone() }),
        (CompileStep::Done, CompileAction::FailRequest { error: transport })
    );
}

#[test]
fn compile_without_revision_collects_at_once() {
    assert_eq!(
        compile_step(CompileStep::Start, CompileEvent::Begin { can_reuse: false }),
        (CompileStep::CollectingSources, CompileAction::CollectSources { note_missing_snapshot: false })
    );
}

#[test]
fn compile_never_sends_an_empty_file_list() {
    assert_eq!(
        compile_step(CompileStep::CollectingSources, CompileEvent::SourcesCollected { count: 0 }),
        (CompileStep::Done, CompileAction::FailNoFiles)
    );
    assert_eq!(
        compile_step(CompileStep::CollectingSources, CompileEvent::SourcesCollected { count: 3 }),
        (CompileStep::CompileSent, CompileAction::SendCompile)
    );
}

#[test]
fn compile_prints_or_fails_after_sending_sources() {
    assert_eq!(
        compile_step(CompileStep::CompileSent, CompileEvent::Answered),
        (CompileStep::Done, CompileAction::PrintAnswer)
    );
    assert_eq!(
        compile_step(CompileStep::CompileSent, CompileEvent::RequestFailed { error: http_error(404) }),
        (CompileStep::Done, CompileAction::FailRequest { error: http_error(404) })
    );
}

#[test]
fn compile_halts_on_an_event_out_of_place() {
    assert_eq!(compile_step(CompileStep::Done, CompileEvent::Answered), (CompileStep::Done, CompileAction::Halt));
    assert_eq!(
        compile_step(CompileStep::Start, CompileEvent::SourcesCollected { count: 1 }),
        (CompileStep::Done, CompileAction::Halt)
    );
}
