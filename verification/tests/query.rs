use formsy_cli::commands::query::{build_request, query_report_lines, render_agent_guidance, QueryError};
use formsy_cli::commands::QueryInputArgs;
use formsy_cli::models::{QueryGuidance, QueryResponse};

fn input(task_id: Option<&str>, task_revision: Option<u32>) -> QueryInputArgs {
    QueryInputArgs {
        query: "find the decoder".to_string(),
        revision: Some("rev-1".to_string()),
        intent: None,
        budget: None,
        response_format: None,
        task_id: task_id.map(str::to_string),
        task_revision,
    }
}

fn empty_guidance() -> QueryGuidance {
    QueryGuidance {
        mode: String::new(),
        decision: String::new(),
        code: String::new(),
        summary: String::new(),
        fallback_path: String::new(),
        preferred_next_step: String::new(),
        required_next_actions: Vec::new(),
    }
}

fn response(extra_context: &str, error_code: &str, guidance: QueryGuidance) -> QueryResponse {
    QueryResponse {
        repo_id: String::new(),
        revision: String::new(),
        query: String::new(),
        extra_context: extra_context.to_string(),
        retrieval_state: "partial".to_string(),
        preferred_next_step: "read_files".to_string(),
        coverage: "high".to_string(),
        agent_guidance_text: String::new(),
        error_code: error_code.to_string(),
        guidance,
    }
}

#[test]
fn explicit_task_association_is_sent_as_a_typed_pair() {
    let input = input(Some("task-1"), Some(3));

    let request = build_request("repo-1", &input, None, None).expect("valid query request");

    assert_eq!(request.task_id.as_deref(), Some("task-1"));
    assert_eq!(request.task_revision, Some(3));
    assert_eq!(request.revision.as_deref(), Some("rev-1"));
}

#[test]
fn query_request_fills_defaults() {
    let request = build_request("repo-1", &input(None, None), None, None).expect("valid");
    assert_eq!(request.repo_id, "repo-1");
    assert_eq!(request.query, "find the decoder");
    assert_eq!(request.intent, "general");
    assert_eq!(request.budget, 4000);
    assert_eq!(request.response_format, "bundle");
    assert_eq!(request.task_id, None);
    assert_eq!(request.task_revision, None);
    assert_eq!(request.owner_id, None);
}

#[test]
fn options_override_query_defaults() {
    let mut args = input(None, None);
    args.intent = Some("call_flow".to_string());
    args.budget = Some(6000);
    args.response_format = Some("legacy".to_string());
    let request = build_request("repo-1", &args, None, None).expect("valid");
    assert_eq!(request.intent, "call_flow");
    assert_eq!(request.budget, 6000);
    assert_eq!(request.response_format, "legacy");
}

#[test]
fn environment_supplies_the_task_pair() {
    let request = build_request(
        "repo-1",
        &input(None, None),
        Some("task-env".to_string()),
        Some("+12".to_string()),
    )
    .expect("valid");
    assert_eq!(request.task_id.as_deref(), Some("task-env"));
    assert_eq!(request.task_revision, Some(12));
}

#[test]
fn blank_environment_task_id_is_ignored() {
    let result = build_request("repo-1", &input(None, None), Some("   ".to_string()), Some("4".to_string()));
    assert_eq!(result, Err(QueryError::TaskAssociationIncomplete));
    let request =
        build_request("repo-1", &input(None, None), Some(" \t".to_string()), None).expect("valid");
    assert_eq!(request.task_id, None);
}

#[test]
fn unparsable_environment_revision_breaks_the_pair() {
    for bad in ["-1", "", "+", "4294967296", "12a", "١٢"] {
        let result =
            build_request("repo-1", &input(None, None), Some("t".to_string()), Some(bad.to_string()));
        assert_eq!(result, Err(QueryError::TaskAssociationIncomplete), "revision {bad:?}");
    }
    let request = build_request(
        "repo-1",
        &input(None, None),
        Some("t".to_string()),
        Some("4294967295".to_string()),
    )
    .expect("valid");
    assert_eq!(request.task_revision, Some(u32::MAX));
}

#[test]
fn options_take_precedence_over_environment() {
    let request = build_request(
        "repo-1",
        &input(Some("task-1"), Some(3)),
        Some("task-env".to_string()),
        Some("9".to_string()),
    )
    .expect("valid");
    assert_eq!(request.task_id.as_deref(), Some("task-1"));
    assert_eq!(request.task_revision, Some(3));
}

#[test]
fn task_id_without_revision_is_refused() {
    let result = build_request("repo-1", &input(Some("task-1"), None), None, None);
    assert_eq!(result, Err(QueryError::TaskAssociationIncomplete));
    let result = build_request("repo-1", &input(None, Some(2)), None, None);
    assert_eq!(result, Err(QueryError::TaskAssociationIncomplete));
    assert_eq!(
        QueryError::TaskAssociationIncomplete.message(),
        "task association requires both task id and task revision"
    );
}

#[test]
fn renders_only_query_specific_guidance() {
    let guidance = QueryGuidance {
        mode: "codegraph_unavailable_source_fallback".to_string(),
        decision: "STOP_EXPLORATION".to_string(),
        code: String::new(),
        summary: "Use the compiled source fallback.".to_string(),
        fallback_path: "compiled_source_plus_direct_query_matches".to_string(),
        preferred_next_step: "bounded_source_inspection".to_string(),
        required_next_actions: vec!["Read the ranked source files returned by context_search.".to_string()],
    };

    let rendered = render_agent_guidance(&guidance).expect("guidance");
    assert!(rendered.contains("decision=STOP_EXPLORATION"));
    assert!(rendered.contains("mode=codegraph_unavailable_source_fallback"));
    assert!(rendered.contains("next=bounded_source_inspection"));
    assert!(rendered.contains("Read the ranked source files"));
    assert!(!rendered.contains("large compile-time contract"));
    assert!(!rendered.contains("source_obligations"));
}

#[test]
fn compile_time_only_guidance_is_not_repeated() {
    assert_eq!(render_agent_guidance(&empty_guidance()), None);
}

#[test]
fn guidance_lines_come_in_order() {
    let guidance = QueryGuidance {
        mode: "m".to_string(),
        decision: "d".to_string(),
        code: "c".to_string(),
        summary: "sum".to_string(),
        fallback_path: "fb".to_string(),
        preferred_next_step: "nx".to_string(),
        required_next_actions: vec!["one".to_string(), "  ".to_string(), "two".to_string()],
    };
    assert_eq!(
        render_agent_guidance(&guidance).as_deref(),
        Some("decision=d mode=m code=c\nsum\nfallback=fb\nnext=nx\n- one\n- two")
    );
}

#[test]
fn blank_actions_alone_render_nothing() {
    let mut guidance = empty_guidance();
    guidance.required_next_actions = vec![" ".to_string(), "\n".to_string()];
    assert_eq!(render_agent_guidance(&guidance), None);
}

#[test]
fn query_report_shows_warning_guidance_context_and_status() {
    let mut guidance = empty_guidance();
    guidance.summary = "look here".to_string();
    let lines = query_report_lines(&response("context body", "E42", guidance));
    assert_eq!(
        lines,
        vec![
            "[warn] error_code=E42 retrieval_state=partial".to_string(),
            "[guidance]\nlook here".to_string(),
            "context body".to_string(),
            "[status] coverage=high next=read_files".to_string(),
        ]
    );
}

#[test]
fn query_report_notes_empty_context() {
    let lines = query_report_lines(&response("  \n", "", empty_guidance()));
    assert_eq!(
        lines,
        vec![
            "[ok] query returned empty extra_context".to_string(),
            "[status] coverage=high next=read_files".to_string(),
        ]
    );
}
