use formsy_cli::capabilities::{
    capabilities, record_commit, record_dirty, CapabilityDocument, CAPABILITY_SCHEMA_VERSION,
};

const EXPECTED: [&str; 7] = [
    "compile.task_source.v1",
    "compile.test_file_mutation_policy.v1",
    "graph.get_neighbors.v1",
    "graph.get_node_detail.v1",
    "graph.search_nodes.v1",
    "query.task_identity.v1",
    "source.auto_extensions.v1",
];

#[test]
fn capability_document_is_machine_stable_and_build_identified() {
    let document = CapabilityDocument::current("0.1.0", "abc123", "false", "x86_64-unknown-linux-gnu");

    assert_eq!(document.schema_version, CAPABILITY_SCHEMA_VERSION);
    assert_eq!(document.cli_version, "0.1.0");
    assert_eq!(document.git_commit, "abc123");
    assert_eq!(document.git_dirty, "false");
    assert_eq!(document.target, "x86_64-unknown-linux-gnu");
    assert_eq!(document.capabilities, EXPECTED.to_vec());
}

#[test]
fn schema_version_names_the_v1_document() {
    assert_eq!(CAPABILITY_SCHEMA_VERSION, "formsy.cli_capabilities.v1");
    assert_eq!(capabilities(), EXPECTED.to_vec());
}

#[test]
fn capability_summary_lists_identity_then_each_capability() {
    let document = CapabilityDocument::current("1.2.3", "deadbeef", "true", "aarch64-apple-darwin");
    let lines = document.summary_lines();
    assert_eq!(lines.len(), 8);
    assert_eq!(lines[0], "fsy 1.2.3 commit=deadbeef dirty=true target=aarch64-apple-darwin");
    assert_eq!(lines[1], "- compile.task_source.v1");
    assert_eq!(lines[7], "- source.auto_extensions.v1");
}

#[test]
fn dirty_flag_is_true_false_or_unknown() {
    assert_eq!(record_dirty("true"), "true");
    assert_eq!(record_dirty("false"), "false");
    assert_eq!(record_dirty("yes"), "unknown");
    assert_eq!(record_dirty(""), "unknown");
    assert_eq!(record_dirty("TRUE"), "unknown");
    let document = CapabilityDocument::current("0.1.0", "abc123", "1", "x86_64-unknown-linux-gnu");
    assert_eq!(document.git_dirty, "unknown");
}

#[test]
fn blank_commit_is_recorded_as_unknown() {
    assert_eq!(record_commit(""), "unknown");
    assert_eq!(record_commit("  \n"), "unknown");
    assert_eq!(record_commit("abc123"), "abc123");
    let document = CapabilityDocument::current("0.1.0", " ", "true", "x86_64-unknown-linux-gnu");
    assert_eq!(document.git_commit, "unknown");
    assert_eq!(document.git_dirty, "true");
}

#[test]
fn capabilities_are_ascending_without_repeats() {
    let list = capabilities();
    for pair in list.windows(2) {
        assert!(pair[0] < pair[1]);
    }
}
