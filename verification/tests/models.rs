use formsy_cli::commands::search::{compile_view, query_view, resolve_query_revision, search_note_lines, search_result_line, SearchCmd};
use formsy_cli::commands::GlobalArgs;
use formsy_cli::models::{
    default_budget, default_intent, default_language, default_mode, default_response_format,
    default_test_file_mutation_policy, is_default_budget, is_default_intent, is_default_language,
    is_default_mode, is_default_response_format, is_unspecified_test_file_mutation_policy, CompileRequest,
    CompileResponse, GetNeighborsRequest, QueryGuidance, QueryRequest, QueryResponse, SearchNodesRequest,
};

#[test]
fn defaults_are_the_values_left_out_of_requests() {
    assert_eq!(default_language(), "python");
    assert!(is_default_language(&default_language()));
    assert!(!is_default_language("rust"));
    assert_eq!(default_mode(), "merge");
    assert!(is_default_mode(&default_mode()));
    assert!(!is_default_mode("replace"));
    assert_eq!(default_test_file_mutation_policy(), "unspecified");
    assert!(is_unspecified_test_file_mutation_policy(&default_test_file_mutation_policy()));
    assert!(!is_unspecified_test_file_mutation_policy("prohibited"));
    assert_eq!(default_intent(), "general");
    assert!(is_default_intent(&default_intent()));
    assert_eq!(default_budget(), 4000);
    assert!(is_default_budget(&default_budget()));
    assert!(!is_default_budget(&6000));
    assert_eq!(default_response_format(), "bundle");
    assert!(is_default_response_format(&default_response_format()));
    assert!(!is_default_response_format("legacy"));
}

#[test]
fn minimal_requests() {
    let compile = CompileRequest::new("repo".to_string(), Vec::new());
    assert_eq!(compile.mode, "merge");
    assert_eq!(compile.test_file_mutation_policy, "unspecified");
    assert_eq!(compile.revision, None);
    let query = QueryRequest::new("repo".to_string(), "q".to_string());
    assert_eq!((query.intent.as_str(), query.budget, query.response_format.as_str()), ("general", 4000, "bundle"));
    assert_eq!(SearchNodesRequest::new("r".to_string(), "q".to_string()).limit, 10);
    let neighbors = GetNeighborsRequest::new("r".to_string(), "n".to_string());
    assert_eq!((neighbors.direction.as_str(), neighbors.max_depth), ("both", 1));
}

#[test]
fn blank_api_key_sends_none() {
    let mut args = GlobalArgs { base_url: "http://x".to_string(), api_key: "  ".to_string(), timeout: 5 };
    assert_eq!(args.api_key_option(), None);
    args.api_key = String::new();
    assert_eq!(args.api_key_option(), None);
    args.api_key = "fsy_key".to_string();
    assert_eq!(args.api_key_option().as_deref(), Some("fsy_key"));
}

fn search_cmd(revision: Option<&str>) -> SearchCmd {
    SearchCmd {
        repo_id: "repo".to_string(),
        repo_root: "./src".to_string(),
        query: "where?".to_string(),
        extensions: vec!["py".to_string()],
        mode: "replace".to_string(),
        no_w2: true,
        revision: revision.map(str::to_string),
        intent: Some("file".to_string()),
        budget: Some(100),
        enable_profiling: false,
        profiling_top_n: 20,
        response_format: None,
        json: false,
    }
}

#[test]
fn search_compiles_latest_and_queries_the_returned_revision() {
    let cmd = search_cmd(None);
    let compile = compile_view(&cmd);
    assert_eq!(compile.revision, None);
    assert_eq!(compile.mode, "replace");
    assert_eq!(compile.task_id, None);
    assert_eq!(compile.test_file_mutation_policy, "unspecified");
    let compiled = CompileResponse { repo_id: "repo".to_string(), revision: "rev-7".to_string(), parsed_file_count: 2 };
    assert_eq!(resolve_query_revision(&cmd, &compiled).as_deref(), Some("rev-7"));
    assert_eq!(resolve_query_revision(&search_cmd(Some("rev-1")), &compiled).as_deref(), Some("rev-1"));
    let query = query_view(&cmd, Some("rev-7".to_string()));
    assert_eq!(query.revision.as_deref(), Some("rev-7"));
    assert_eq!(query.intent.as_deref(), Some("file"));
    assert_eq!(query.budget, Some(100));
}

#[test]
fn search_output() {
    let guidance = QueryGuidance {
        mode: String::new(),
        decision: String::new(),
        code: String::new(),
        summary: String::new(),
        fallback_path: String::new(),
        preferred_next_step: String::new(),
        required_next_actions: Vec::new(),
    };
    let response = QueryResponse {
        repo_id: String::new(),
        revision: String::new(),
        query: String::new(),
        extra_context: " ".to_string(),
        retrieval_state: "none".to_string(),
        preferred_next_step: "refine".to_string(),
        coverage: "low".to_string(),
        agent_guidance_text: "try again".to_string(),
        error_code: "E1".to_string(),
        guidance,
    };
    assert_eq!(
        search_note_lines(&response),
        vec!["[warn] query error_code=E1 retrieval_state=none".to_string(), "[guidance] try again".to_string()]
    );
    assert_eq!(search_result_line(&response), "[ok] query returned empty extra_context (coverage=low, next=refine)");
}
