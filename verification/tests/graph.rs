use formsy_cli::commands::graph::{
    format_neighbor, format_node_summary, get_neighbors_request, get_node_detail_request,
    neighbor_section_lines, neighbors_lines, node_detail_lines, search_nodes_lines, search_nodes_request,
    GetNeighborsCmd, GetNodeDetailCmd, GraphInputArgs, SearchNodesCmd,
};
use formsy_cli::models::{GetNeighborsResponse, GetNodeDetailResponse, Neighbor, NodeDetail, NodeSummary, SearchNodesResponse};

fn node(id: &str, signature: &str) -> NodeSummary {
    NodeSummary {
        id: id.to_string(),
        kind: "function".to_string(),
        name: "fetch_url".to_string(),
        qualified_name: "pkg.urls.fetch_url".to_string(),
        file_path: "pkg/urls.py".to_string(),
        start_line: 42,
        signature: signature.to_string(),
    }
}

fn neighbor(id: &str, edge_line: Option<u32>) -> Neighbor {
    Neighbor { node: node(id, ""), edge_kind: "calls".to_string(), edge_line }
}

#[test]
fn node_summary_lines() {
    assert_eq!(
        format_node_summary(&node("n1", "def fetch_url(url)")),
        "n1 | function | pkg.urls.fetch_url | pkg/urls.py:42 | def fetch_url(url)"
    );
    assert_eq!(format_node_summary(&node("n2", "")), "n2 | function | pkg.urls.fetch_url | pkg/urls.py:42");
}

#[test]
fn neighbor_lines() {
    assert_eq!(format_neighbor(&neighbor("n3", Some(7))), "  n3 | fetch_url | pkg/urls.py | calls L7");
    assert_eq!(format_neighbor(&neighbor("n4", None)), "  n4 | fetch_url | pkg/urls.py | calls");
    assert!(neighbor_section_lines("callers", &Vec::new()).is_empty());
    assert_eq!(
        neighbor_section_lines("callers", &vec![neighbor("n3", Some(7)), neighbor("n4", None)]),
        vec![
            "=== callers (2) ===".to_string(),
            "  n3 | fetch_url | pkg/urls.py | calls L7".to_string(),
            "  n4 | fetch_url | pkg/urls.py | calls".to_string(),
        ]
    );
}

#[test]
fn search_nodes_report() {
    let none = SearchNodesResponse { query: "gzip \"x\"".to_string(), nodes: Vec::new() };
    assert_eq!(search_nodes_lines(&none), vec!["[ok] no nodes matched query \"gzip \\\"x\\\"\"".to_string()]);
    let some = SearchNodesResponse { query: "fetch".to_string(), nodes: vec![node("n1", "")] };
    assert_eq!(
        search_nodes_lines(&some),
        vec![
            "[ok] 1 node(s) matched \"fetch\"".to_string(),
            "n1 | function | pkg.urls.fetch_url | pkg/urls.py:42".to_string(),
        ]
    );
}

#[test]
fn neighbors_report() {
    let none = GetNeighborsResponse {
        node_id: "n1".to_string(),
        direction: "callers".to_string(),
        callers: Vec::new(),
        callees: Vec::new(),
    };
    assert_eq!(neighbors_lines(&none), vec!["[ok] no callers found for node \"n1\"".to_string()]);
    let some = GetNeighborsResponse {
        node_id: "n1".to_string(),
        direction: "both".to_string(),
        callers: Vec::new(),
        callees: vec![neighbor("n5", Some(3))],
    };
    assert_eq!(
        neighbors_lines(&some),
        vec!["=== callees (1) ===".to_string(), "  n5 | fetch_url | pkg/urls.py | calls L3".to_string()]
    );
}

#[test]
fn node_detail_report() {
    let detail = NodeDetail {
        id: "n1".to_string(),
        kind: "function".to_string(),
        name: "fetch_url".to_string(),
        qualified_name: "pkg.urls.fetch_url".to_string(),
        file_path: "pkg/urls.py".to_string(),
        start_line: 42,
        end_line: 58,
        language: "python".to_string(),
        signature: "async def fetch_url(url)".to_string(),
        visibility: Some("public".to_string()),
        is_async: true,
        is_static: false,
        is_abstract: true,
        docstring: "Fetch a URL.\r\n\nReturns bytes.\n".to_string(),
    };
    assert_eq!(
        node_detail_lines(&GetNodeDetailResponse { node: detail.clone() }),
        vec![
            "[ok] function fetch_url (pkg.urls.fetch_url)".to_string(),
            "  id:       n1".to_string(),
            "  location: pkg/urls.py:42-58".to_string(),
            "  language: python".to_string(),
            "  signature: async def fetch_url(url)".to_string(),
            "  visibility: public".to_string(),
            "  flags:    async, abstract".to_string(),
            "  docstring:".to_string(),
            "    Fetch a URL.".to_string(),
            "    ".to_string(),
            "    Returns bytes.".to_string(),
        ]
    );
    let bare = NodeDetail {
        signature: String::new(),
        visibility: None,
        is_async: false,
        is_abstract: false,
        docstring: String::new(),
        ..detail
    };
    assert_eq!(node_detail_lines(&GetNodeDetailResponse { node: bare }).len(), 4);
}

#[test]
fn graph_requests_carry_the_options() {
    let input = GraphInputArgs { revision: Some("rev-2".to_string()) };
    let search = search_nodes_request(&SearchNodesCmd {
        repo_id: "r".to_string(),
        query: "q".to_string(),
        limit: 20,
        input: input.clone(),
        json: false,
    });
    assert_eq!((search.limit, search.revision.as_deref()), (20, Some("rev-2")));
    let neighbors = get_neighbors_request(&GetNeighborsCmd {
        repo_id: "r".to_string(),
        node_id: "n".to_string(),
        direction: "callers".to_string(),
        max_depth: 2,
        input: input.clone(),
        json: false,
    });
    assert_eq!(neighbors.direction, "callers");
    assert_eq!(neighbors.max_depth, 2);
    let detail = get_node_detail_request(&GetNodeDetailCmd {
        repo_id: "r".to_string(),
        node_id: "n".to_string(),
        input: GraphInputArgs { revision: None },
        json: true,
    });
    assert_eq!(detail.node_id, "n");
    assert_eq!(detail.revision, None);
}
