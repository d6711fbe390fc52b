//! The requests that the client sends to the server and the parts of the responses that it
//! reads.
//!
//! A request field that holds its default value is left out of the JSON body; the `default_*`
//! and `is_default_*` pairs below say which value that is for each such field.

use vstd::prelude::*;

verus! {

/// One source file of a compile request.
#[derive(Debug, Clone, PartialEq, Eq)]
pub struct SourceFilePayload {
    pub path: String,
    pub content: String,
    pub language: String,
}

/// The task that a compiled snapshot is made for.
#[derive(Debug, Clone, PartialEq, Eq)]
pub struct TaskSourcePayload {
    pub task_id: String,
    pub task_revision: u32,
    pub full_task_description: String,
}

/// A compile request. `files` must not be empty when it is sent.
#[derive(Debug, Clone, PartialEq, Eq)]
pub struct CompileRequest {
    pub repo_id: String,
    pub files: Vec<SourceFilePayload>,
    pub revision: Option<String>,
    pub mode: String,
    pub task_source: Option<TaskSourcePayload>,
    pub test_file_mutation_policy: String,
    pub owner_id: Option<String>,
}

/// A query request. `repo_id` and `query` are required.
#[derive(Debug, Clone, PartialEq, Eq)]
pub struct QueryRequest {
    pub repo_id: String,
    pub query: String,
    pub intent: String,
    pub revision: Option<String>,
    pub budget: u32,
    pub owner_id: Option<String>,
    pub response_format: String,
    pub task_id: Option<String>,
    pub task_revision: Option<u32>,
}

/// What the client reads of a compile response.
#[derive(Debug, Clone, PartialEq, Eq)]
pub struct CompileResponse {
    pub repo_id: String,
    pub revision: String,
    pub parsed_file_count: i64,
}

/// The agent guidance of a query response: only the parts that concern this query.
#[derive(Debug, Clone, PartialEq, Eq)]
pub struct QueryGuidance {
    pub mode: String,
    pub decision: String,
    pub code: String,
    pub summary: String,
    pub fallback_path: String,
    pub preferred_next_step: String,
    pub required_next_actions: Vec<String>,
}

/// What the client reads of a query response.
#[derive(Debug, Clone, PartialEq, Eq)]
pub struct QueryResponse {
    pub repo_id: String,
    pub revision: String,
    pub query: String,
    pub extra_context: String,
    pub retrieval_state: String,
    pub preferred_next_step: String,
    pub coverage: String,
    pub agent_guidance_text: String,
    pub error_code: String,
    pub guidance: QueryGuidance,
}

/// A `search_nodes` request.
#[derive(Debug, Clone, PartialEq, Eq)]
pub struct SearchNodesRequest {
    pub repo_id: String,
    pub query: String,
    pub limit: u32,
    pub revision: Option<String>,
}

/// The identity of one graph node, as `search_nodes` and `get_neighbors` return it.
#[derive(Debug, Clone, PartialEq, Eq)]
pub struct NodeSummary {
    pub id: String,
    pub kind: String,
    pub name: String,
    pub qualified_name: String,
    pub file_path: String,
    pub start_line: u32,
    pub signature: String,
}

/// What the client reads of a `search_nodes` response.
#[derive(Debug, Clone, PartialEq, Eq)]
pub struct SearchNodesResponse {
    pub query: String,
    pub nodes: Vec<NodeSummary>,
}

/// A `get_neighbors` request.
#[derive(Debug, Clone, PartialEq, Eq)]
pub struct GetNeighborsRequest {
    pub repo_id: String,
    pub node_id: String,
    pub direction: String,
    pub max_depth: u32,
    pub revision: Option<String>,
}

/// One caller or callee of a node, with the edge that links them.
#[derive(Debug, Clone, PartialEq, Eq)]
pub struct Neighbor {
    pub node: NodeSummary,
    pub edge_kind: String,
    pub edge_line: Option<u32>,
}

/// What the client reads of a `get_neighbors` response.
#[derive(Debug, Clone, PartialEq, Eq)]
pub struct GetNeighborsResponse {
    pub node_id: String,
    pub direction: String,
    pub callers: Vec<Neighbor>,
    pub callees: Vec<Neighbor>,
}

/// A `get_node_detail` request.
#[derive(Debug, Clone, PartialEq, Eq)]
pub struct GetNodeDetailRequest {
    pub repo_id: String,
    pub node_id: String,
    pub revision: Option<String>,
}

/// The full record of one graph node.
#[derive(Debug, Clone, PartialEq, Eq)]
pub struct NodeDetail {
    pub id: String,
    pub kind: String,
    pub name: String,
    pub qualified_name: String,
    pub file_path: String,
    pub start_line: u32,
    pub end_line: u32,
    pub language: String,
    pub signature: String,
    pub visibility: Option<String>,
    pub is_async: bool,
    pub is_static: bool,
    pub is_abstract: bool,
    pub docstring: String,
}

/// What the client reads of a `get_node_detail` response.
#[derive(Debug, Clone, PartialEq, Eq)]
pub struct GetNodeDetailResponse {
    pub node: NodeDetail,
}

// ---------------------------------------------------------------------------
// Default field values
// ---------------------------------------------------------------------------

pub open spec fn spec_default_language() -> Seq<char> {
    "python"@
}

pub open spec fn spec_default_mode() -> Seq<char> {
    "merge"@
}

pub open spec fn spec_default_test_file_mutation_policy() -> Seq<char> {
    "unspecified"@
}

pub open spec fn spec_default_intent() -> Seq<char> {
    "general"@
}

pub open spec fn spec_default_budget() -> u32 {
    4000
}

pub open spec fn spec_default_response_format() -> Seq<char> {
    "bundle"@
}

/// The language a source file has when the request does not name one.
pub fn default_language() -> (r: String)
    ensures
        r@ == spec_default_language(),
{
    String::from_str("python")
}

/// Whether a file's language is the default one, which the request body leaves out.
pub fn is_default_language(lang: &str) -> (r: bool)
    ensures
        r == (lang@ == spec_default_language()),
{
    crate::text::text_eq(lang, "python")
}

/// How a compile updates the snapshot when the request does not say.
pub fn default_mode() -> (r: String)
    ensures
        r@ == spec_default_mode(),
{
    String::from_str("merge")
}

/// Whether a compile mode is the default one, which the request body leaves out.
pub fn is_default_mode(mode: &str) -> (r: bool)
    ensures
        r == (mode@ == spec_default_mode()),
{
    crate::text::text_eq(mode, "merge")
}

/// The test-file mutation policy when the caller states none.
pub fn default_test_file_mutation_policy() -> (r: String)
    ensures
        r@ == spec_default_test_file_mutation_policy(),
{
    String::from_str("unspecified")
}

/// Whether a test-file mutation policy is the unspecified one, which the request body leaves
/// out.
pub fn is_unspecified_test_file_mutation_policy(policy: &str) -> (r: bool)
    ensures
        r == (policy@ == spec_default_test_file_mutation_policy()),
{
    crate::text::text_eq(policy, "unspecified")
}

/// The query intent when the caller states none.
pub fn default_intent() -> (r: String)
    ensures
        r@ == spec_default_intent(),
{
    String::from_str("general")
}

/// Whether a query intent is the default one, which the request body leaves out.
pub fn is_default_intent(intent: &str) -> (r: bool)
    ensures
        r == (intent@ == spec_default_intent()),
{
    crate::text::text_eq(intent, "general")
}

/// The context token budget when the caller states none.
pub fn default_budget() -> (r: u32)
    ensures
        r == spec_default_budget(),
{
    4000
}

/// Whether a budget is the default one, which the request body leaves out.
pub fn is_default_budget(b: &u32) -> (r: bool)
    ensures
        r == (*b == spec_default_budget()),
{
    *b == 4000
}

/// The response format when the caller states none.
pub fn default_response_format() -> (r: String)
    ensures
        r@ == spec_default_response_format(),
{
    String::from_str("bundle")
}

/// Whether a response format is the default one, which the request body leaves out.
pub fn is_default_response_format(f: &str) -> (r: bool)
    ensures
        r == (f@ == spec_default_response_format()),
{
    crate::text::text_eq(f, "bundle")
}

impl CompileRequest {
    /// A minimal compile request: `repo_id` and `files`, every other field at its default.
    pub fn new(repo_id: String, files: Vec<SourceFilePayload>) -> (r: Self)
        ensures
            r.repo_id == repo_id,
            r.files == files,
            r.revision is None,
            r.mode@ == spec_default_mode(),
            r.task_source is None,
            r.test_file_mutation_policy@ == spec_default_test_file_mutation_policy(),
            r.owner_id is None,
    {
        CompileRequest {
            repo_id,
            files,
            revision: None,
            mode: default_mode(),
            task_source: None,
            test_file_mutation_policy: default_test_file_mutation_policy(),
            owner_id: None,
        }
    }
}

impl QueryRequest {
    /// A minimal query request: `repo_id` and `query`, every other field at its default.
    pub fn new(repo_id: String, query: String) -> (r: Self)
        ensures
            r.repo_id == repo_id,
            r.query == query,
            r.intent@ == spec_default_intent(),
            r.revision is None,
            r.budget == spec_default_budget(),
            r.owner_id is None,
            r.response_format@ == spec_default_response_format(),
            r.task_id is None,
            r.task_revision is None,
    {
        QueryRequest {
            repo_id,
            query,
            intent: default_intent(),
            revision: None,
            budget: default_budget(),
            owner_id: None,
            response_format: default_response_format(),
            task_id: None,
            task_revision: None,
        }
    }
}

impl SearchNodesRequest {
    /// A `search_nodes` request for the latest revision, with at most ten results.
    pub fn new(repo_id: String, query: String) -> (r: Self)
        ensures
            r.repo_id == repo_id,
            r.query == query,
            r.limit == 10,
            r.revision is None,
    {
        SearchNodesRequest { repo_id, query, limit: 10, revision: None }
    }
}

impl GetNeighborsRequest {
    /// A `get_neighbors` request for direct callers and callees in the latest revision.
    pub fn new(repo_id: String, node_id: String) -> (r: Self)
        ensures
            r.repo_id == repo_id,
            r.node_id == node_id,
            r.direction@ == "both"@,
            r.max_depth == 1,
            r.revision is None,
    {
        GetNeighborsRequest {
            repo_id,
            node_id,
            direction: String::from_str("both"),
            max_depth: 1,
            revision: None,
        }
    }
}

impl GetNodeDetailRequest {
    /// A `get_node_detail` request for the latest revision.
    pub fn new(repo_id: String, node_id: String) -> (r: Self)
        ensures
            r.repo_id == repo_id,
            r.node_id == node_id,
            r.revision is None,
    {
        GetNodeDetailRequest { repo_id, node_id, revision: None }
    }
}

} // verus!
