//! `fsy search-nodes`, `fsy get-neighbors` and `fsy get-node-detail`: locate graph symbols, walk
//! the call graph from a node id, and read one node's full record.

use vstd::prelude::*;
use crate::models::{
    GetNeighborsRequest, GetNeighborsResponse, GetNodeDetailRequest, GetNodeDetailResponse, Neighbor,
    NodeDetail, NodeSummary, SearchNodesRequest, SearchNodesResponse,
};
use crate::numbers::{decimal, u64_decimal};
use crate::text::{debug_quote, debug_quoted, join, join_strings, split_lines, text_lines, views};

verus! {

/// Options shared by the graph commands.
#[derive(Debug, Clone, PartialEq, Eq)]
pub struct GraphInputArgs {
    /// Logical revision label; the latest compiled revision without it.
    pub revision: Option<String>,
}

/// Options of `search-nodes`.
#[derive(Debug, Clone, PartialEq, Eq)]
pub struct SearchNodesCmd {
    pub repo_id: String,
    /// A symbol name, file name, or short code terms.
    pub query: String,
    /// Maximum number of nodes to return.
    pub limit: u32,
    pub input: GraphInputArgs,
    pub json: bool,
}

/// Options of `get-neighbors`.
#[derive(Debug, Clone, PartialEq, Eq)]
pub struct GetNeighborsCmd {
    pub repo_id: String,
    /// Node id from an earlier `search-nodes` or `get-neighbors` result.
    pub node_id: String,
    /// `callers`, `callees` or `both`.
    pub direction: String,
    /// Call-chain depth; 1 is direct edges only.
    pub max_depth: u32,
    pub input: GraphInputArgs,
    pub json: bool,
}

/// Options of `get-node-detail`.
#[derive(Debug, Clone, PartialEq, Eq)]
pub struct GetNodeDetailCmd {
    pub repo_id: String,
    /// Node id from an earlier `search-nodes` or `get-neighbors` result.
    pub node_id: String,
    pub input: GraphInputArgs,
    pub json: bool,
}

fn clone_opt(s: &Option<String>) -> (r: Option<String>)
    ensures
        r == *s,
{
    match s {
        Some(t) => Some(t.clone()),
        None => None,
    }
}

/// The `search_nodes` request of the options.
pub fn search_nodes_request(cmd: &SearchNodesCmd) -> (r: SearchNodesRequest)
    ensures
        r.repo_id == cmd.repo_id,
        r.query == cmd.query,
        r.limit == cmd.limit,
        r.revision == cmd.input.revision,
{
    let mut request = SearchNodesRequest::new(cmd.repo_id.clone(), cmd.query.clone());
    request.limit = cmd.limit;
    request.revision = clone_opt(&cmd.input.revision);
    request
}

/// The `get_neighbors` request of the options.
pub fn get_neighbors_request(cmd: &GetNeighborsCmd) -> (r: GetNeighborsRequest)
    ensures
        r.repo_id == cmd.repo_id,
        r.node_id == cmd.node_id,
        r.direction == cmd.direction,
        r.max_depth == cmd.max_depth,
        r.revision == cmd.input.revision,
{
    let mut request = GetNeighborsRequest::new(cmd.repo_id.clone(), cmd.node_id.clone());
    request.direction = cmd.direction.clone();
    request.max_depth = cmd.max_depth;
    request.revision = clone_opt(&cmd.input.revision);
    request
}

/// The `get_node_detail` request of the options.
pub fn get_node_detail_request(cmd: &GetNodeDetailCmd) -> (r: GetNodeDetailRequest)
    ensures
        r.repo_id == cmd.repo_id,
        r.node_id == cmd.node_id,
        r.revision == cmd.input.revision,
{
    let mut request = GetNodeDetailRequest::new(cmd.repo_id.clone(), cmd.node_id.clone());
    request.revision = clone_opt(&cmd.input.revision);
    request
}

/// One line per node: `id | kind | qualified name | file:line`, then ` | signature` when the
/// node has one.
pub open spec fn node_summary_line(node: NodeSummary) -> Seq<char> {
    node.id@ + " | "@ + node.kind@ + " | "@ + node.qualified_name@ + " | "@ + node.file_path@ + ":"@
        + decimal(node.start_line as nat) + if node.signature@.len() == 0 {
        Seq::<char>::empty()
    } else {
        " | "@ + node.signature@
    }
}

/// One line per node: `id | kind | qualified name | file:line`, then ` | signature`.
pub fn format_node_summary(node: &NodeSummary) -> (r: String)
    ensures
        r@ == node_summary_line(*node),
{
    let mut m = String::new();
    m.append(node.id.as_str());
    m.append(" | ");
    m.append(node.kind.as_str());
    m.append(" | ");
    m.append(node.qualified_name.as_str());
    m.append(" | ");
    m.append(node.file_path.as_str());
    m.append(":");
    m.append(u64_decimal(node.start_line as u64).as_str());
    if node.signature.as_str().unicode_len() > 0 {
        m.append(" | ");
        m.append(node.signature.as_str());
    }
    m
}

/// One line per neighbor: `  id | name | file | edge kind`, then ` L<line>` when the edge has a
/// line.
pub open spec fn neighbor_line(neighbor: Neighbor) -> Seq<char> {
    "  "@ + neighbor.node.id@ + " | "@ + neighbor.node.name@ + " | "@ + neighbor.node.file_path@
        + " | "@ + neighbor.edge_kind@ + match neighbor.edge_line {
        Some(line) => " L"@ + decimal(line as nat),
        None => Seq::<char>::empty(),
    }
}

/// One line per neighbor: `  id | name | file | edge kind`, then ` L<line>`.
pub fn format_neighbor(neighbor: &Neighbor) -> (r: String)
    ensures
        r@ == neighbor_line(*neighbor),
{
    let mut m = String::from_str("  ");
    m.append(neighbor.node.id.as_str());
    m.append(" | ");
    m.append(neighbor.node.name.as_str());
    m.append(" | ");
    m.append(neighbor.node.file_path.as_str());
    m.append(" | ");
    m.append(neighbor.edge_kind.as_str());
    match neighbor.edge_line {
        Some(line) => {
            m.append(" L");
            m.append(u64_decimal(line as u64).as_str());
        },
        None => {},
    }
    m
}

/// A node's signature, where it has one, is appended to its line as ` | <signature>`; the rest of
/// the line does not depend on it.
pub proof fn lemma_node_summary_signature(node: NodeSummary, other: NodeSummary)
    requires
        other.id == node.id,
        other.kind == node.kind,
        other.qualified_name == node.qualified_name,
        other.file_path == node.file_path,
        other.start_line == node.start_line,
        other.signature@.len() == 0,
    ensures
        node.signature@.len() == 0 ==> node_summary_line(node) == node_summary_line(other),
        node.signature@.len() > 0 ==> node_summary_line(node) == node_summary_line(other) + " | "@
            + node.signature@,
        node_summary_line(other).len() > 0,
{
    assert(node_summary_line(other) =~= node.id@ + " | "@ + node.kind@ + " | "@ + node.qualified_name@
        + " | "@ + node.file_path@ + ":"@ + decimal(node.start_line as nat));
    if node.signature@.len() > 0 {
        assert(node_summary_line(node) =~= node_summary_line(other) + " | "@ + node.signature@);
    }
    reveal_strlit(":");
}

/// The line of an edge that records where it occurs is the line of the same edge without it,
/// followed by ` L<line>`.
pub proof fn lemma_neighbor_edge_line(neighbor: Neighbor, line: u32)
    ensures
        neighbor_line(Neighbor { edge_line: Some(line), ..neighbor }) == neighbor_line(
            Neighbor { edge_line: None, ..neighbor },
        ) + " L"@ + decimal(line as nat),
        neighbor_line(Neighbor { edge_line: None, ..neighbor }).len() > 0,
{
    let base = Neighbor { edge_line: None, ..neighbor };
    assert(neighbor_line(base) =~= "  "@ + neighbor.node.id@ + " | "@ + neighbor.node.name@ + " | "@
        + neighbor.node.file_path@ + " | "@ + neighbor.edge_kind@);
    assert(neighbor_line(Neighbor { edge_line: Some(line), ..neighbor }) =~= neighbor_line(base) + " L"@
        + decimal(line as nat));
    reveal_strlit("  ");
}

/// A section of neighbors: nothing when there are none, else a `=== label (count) ===` header and
/// one line per neighbor.
pub open spec fn neighbor_section(label: Seq<char>, neighbors: Seq<Neighbor>) -> Seq<Seq<char>> {
    if neighbors.len() == 0 {
        Seq::empty()
    } else {
        seq!["=== "@ + label + " ("@ + decimal(neighbors.len()) + ") ==="@] + neighbors.map_values(
            |n: Neighbor| neighbor_line(n),
        )
    }
}

/// The lines of a section of neighbors.
pub fn neighbor_section_lines(label: &str, neighbors: &Vec<Neighbor>) -> (r: Vec<String>)
    ensures
        views(r@) == neighbor_section(label@, neighbors@),
{
    let mut lines: Vec<String> = Vec::new();
    if neighbors.len() == 0 {
        assert(views(lines@) =~= neighbor_section(label@, neighbors@));
        return lines;
    }
    let mut head = String::from_str("=== ");
    head.append(label);
    head.append(" (");
    head.append(u64_decimal(neighbors.len() as u64).as_str());
    head.append(") ===");
    lines.push(head);
    let mut i: usize = 0;
    assert(views(lines@) =~= seq![head@] + neighbors@.subrange(0, 0).map_values(|n: Neighbor| neighbor_line(n)));
    while i < neighbors.len()
        invariant
            i <= neighbors.len(),
            views(lines@) == seq![head@] + neighbors@.subrange(0, i as int).map_values(
                |n: Neighbor| neighbor_line(n),
            ),
        decreases neighbors.len() - i,
    {
        let line = format_neighbor(&neighbors[i]);
        let ghost before = views(lines@);
        lines.push(line);
        assert(neighbors@.subrange(0, i + 1).map_values(|n: Neighbor| neighbor_line(n)) =~= neighbors@.subrange(
            0,
            i as int,
        ).map_values(|n: Neighbor| neighbor_line(n)).push(neighbor_line(neighbors@[i as int])));
        assert(views(lines@) =~= before.push(line@));
        i = i + 1;
    }
    assert(neighbors@.subrange(0, neighbors.len() as int) =~= neighbors@);
    assert(views(lines@) =~= neighbor_section(label@, neighbors@));
    lines
}

/// What `search-nodes` prints: a note when nothing matched, else a count and one line per node.
pub open spec fn search_nodes_report(resp: SearchNodesResponse) -> Seq<Seq<char>> {
    if resp.nodes@.len() == 0 {
        seq!["[ok] no nodes matched query "@ + debug_quoted(resp.query@)]
    } else {
        seq!["[ok] "@ + decimal(resp.nodes@.len()) + " node(s) matched "@ + debug_quoted(resp.query@)]
            + resp.nodes@.map_values(|n: NodeSummary| node_summary_line(n))
    }
}

/// What `search-nodes` prints, line by line: the note alone when nothing matched; otherwise the
/// count of matches, then one line per matched node in the order the server gave them.
pub proof fn lemma_search_nodes_report_lines(resp: SearchNodesResponse)
    ensures
        ({
            let r = search_nodes_report(resp);
            let n = resp.nodes@.len();
            &&& n == 0 ==> r == seq!["[ok] no nodes matched query "@ + debug_quoted(resp.query@)]
            &&& n > 0 ==> r.len() == n + 1
            &&& n > 0 ==> r[0] == "[ok] "@ + decimal(n) + " node(s) matched "@ + debug_quoted(resp.query@)
            &&& forall|i: int| 0 <= i < n ==> r[i + 1] == node_summary_line(#[trigger] resp.nodes@[i])
        }),
{
}

/// The lines that `search-nodes` prints.
pub fn search_nodes_lines(resp: &SearchNodesResponse) -> (r: Vec<String>)
    ensures
        views(r@) == search_nodes_report(*resp),
{
    let mut lines: Vec<String> = Vec::new();
    if resp.nodes.len() == 0 {
        let mut m = String::from_str("[ok] no nodes matched query ");
        m.append(debug_quote(resp.query.as_str()).as_str());
        lines.push(m);
        assert(views(lines@) =~= search_nodes_report(*resp));
        return lines;
    }
    let mut head = String::from_str("[ok] ");
    head.append(u64_decimal(resp.nodes.len() as u64).as_str());
    head.append(" node(s) matched ");
    head.append(debug_quote(resp.query.as_str()).as_str());
    lines.push(head);
    let nodes = &resp.nodes;
    let mut i: usize = 0;
    assert(views(lines@) =~= seq![head@] + nodes@.subrange(0, 0).map_values(|n: NodeSummary| node_summary_line(n)));
    while i < nodes.len()
        invariant
            i <= nodes.len(),
            views(lines@) == seq![head@] + nodes@.subrange(0, i as int).map_values(
                |n: NodeSummary| node_summary_line(n),
            ),
        decreases nodes.len() - i,
    {
        let line = format_node_summary(&nodes[i]);
        let ghost before = views(lines@);
        lines.push(line);
        assert(nodes@.subrange(0, i + 1).map_values(|n: NodeSummary| node_summary_line(n)) =~= nodes@.subrange(
            0,
            i as int,
        ).map_values(|n: NodeSummary| node_summary_line(n)).push(node_summary_line(nodes@[i as int])));
        assert(views(lines@) =~= before.push(line@));
        i = i + 1;
    }
    assert(nodes@.subrange(0, nodes.len() as int) =~= nodes@);
    assert(views(lines@) =~= search_nodes_report(*resp));
    lines
}

/// What `get-neighbors` prints: a note when the node has neither callers nor callees, else the
/// caller section then the callee section.
pub open spec fn neighbors_report(resp: GetNeighborsResponse) -> Seq<Seq<char>> {
    if resp.callers@.len() == 0 && resp.callees@.len() == 0 {
        seq!["[ok] no "@ + resp.direction@ + " found for node "@ + debug_quoted(resp.node_id@)]
    } else {
        neighbor_section("callers"@, resp.callers@) + neighbor_section("callees"@, resp.callees@)
    }
}

/// What `get-neighbors` prints, line by line: the note alone when the node has neither callers
/// nor callees; otherwise, where there are callers, a `=== callers (n) ===` header and one line
/// per caller, then, where there are callees, a `=== callees (m) ===` header and one line per
/// callee, and nothing else.
pub proof fn lemma_neighbors_report_sections(resp: GetNeighborsResponse)
    ensures
        ({
            let r = neighbors_report(resp);
            let n = resp.callers@.len();
            let m = resp.callees@.len();
            let k: int = if n > 0 { n as int + 1 } else { 0int };
            &&& (n == 0 && m == 0) ==> r == seq![
                "[ok] no "@ + resp.direction@ + " found for node "@ + debug_quoted(resp.node_id@),
            ]
            &&& (n > 0 || m > 0) ==> r.len() == k + (if m > 0 { m as int + 1 } else { 0int })
            &&& n > 0 ==> r[0] == "=== "@ + "callers"@ + " ("@ + decimal(n) + ") ==="@
            &&& n > 0 ==> forall|i: int| 0 <= i < n ==> r[i + 1] == neighbor_line(#[trigger] resp.callers@[i])
            &&& m > 0 ==> r[k] == "=== "@ + "callees"@ + " ("@ + decimal(m) + ") ==="@
            &&& m > 0 ==> forall|j: int| 0 <= j < m ==> r[k + 1 + j] == neighbor_line(#[trigger] resp.callees@[j])
        }),
{
    let r = neighbors_report(resp);
    let n = resp.callers@.len();
    let m = resp.callees@.len();
    if n > 0 || m > 0 {
        let a = neighbor_section("callers"@, resp.callers@);
        let b = neighbor_section("callees"@, resp.callees@);
        assert(r == a + b);
        let k: int = if n > 0 { n as int + 1 } else { 0int };
        assert(a.len() == k);
        if m > 0 {
            assert(r[k] == b[0]);
        }
        assert forall|i: int| 0 <= i < n implies r[i + 1] == neighbor_line(#[trigger] resp.callers@[i]) by {
            assert(a[i + 1] == neighbor_line(resp.callers@[i]));
        }
        assert forall|j: int| 0 <= j < m implies r[k + 1 + j] == neighbor_line(#[trigger] resp.callees@[j]) by {
            assert(b[1 + j] == neighbor_line(resp.callees@[j]));
            assert(r[k + 1 + j] == b[1 + j]);
        }
    }
}

/// The lines that `get-neighbors` prints.
pub fn neighbors_lines(resp: &GetNeighborsResponse) -> (r: Vec<String>)
    ensures
        views(r@) == neighbors_report(*resp),
{
    if resp.callers.len() == 0 && resp.callees.len() == 0 {
        let mut m = String::from_str("[ok] no ");
        m.append(resp.direction.as_str());
        m.append(" found for node ");
        m.append(debug_quote(resp.node_id.as_str()).as_str());
        let mut lines: Vec<String> = Vec::new();
        lines.push(m);
        assert(views(lines@) =~= neighbors_report(*resp));
        return lines;
    }
    let mut lines = neighbor_section_lines("callers", &resp.callers);
    let mut rest = neighbor_section_lines("callees", &resp.callees);
    let ghost a = views(lines@);
    let ghost b = views(rest@);
    lines.append(&mut rest);
    assert(views(lines@) =~= a + b);
    lines
}

/// The flags of a node, in the order async, static, abstract.
pub open spec fn node_flags(node: NodeDetail) -> Seq<Seq<char>> {
    (if node.is_async {
        seq!["async"@]
    } else {
        Seq::<Seq<char>>::empty()
    }) + (if node.is_static {
        seq!["static"@]
    } else {
        Seq::<Seq<char>>::empty()
    }) + (if node.is_abstract {
        seq!["abstract"@]
    } else {
        Seq::<Seq<char>>::empty()
    })
}

/// The position of a flag in the order the flags are printed: `async`, `static`, `abstract`.
pub open spec fn flag_rank(flag: Seq<char>) -> int {
    if flag == "async"@ {
        0
    } else if flag == "static"@ {
        1
    } else if flag == "abstract"@ {
        2
    } else {
        3
    }
}

/// A node's flags name exactly the properties it has, each once, in the order `async`,
/// `static`, `abstract`.
pub proof fn lemma_node_flags(node: NodeDetail)
    ensures
        node_flags(node).contains("async"@) <==> node.is_async,
        node_flags(node).contains("static"@) <==> node.is_static,
        node_flags(node).contains("abstract"@) <==> node.is_abstract,
        node_flags(node).len() == (if node.is_async { 1int } else { 0 }) + (if node.is_static { 1int } else { 0 })
            + (if node.is_abstract { 1int } else { 0 }),
        forall|i: int, j: int|
            0 <= i < j < node_flags(node).len() ==> flag_rank(#[trigger] node_flags(node)[i]) < flag_rank(
                #[trigger] node_flags(node)[j],
            ),
{
    reveal_strlit("async");
    reveal_strlit("static");
    reveal_strlit("abstract");
    let f = node_flags(node);
    assert("async"@ != "static"@ && "async"@ != "abstract"@ && "static"@ != "abstract"@) by {
        assert("async"@[0] != "static"@[0]);
        assert("static"@.len() != "abstract"@.len());
    }
    assert(f.contains("async"@) ==> node.is_async) by {
        if f.contains("async"@) {
            let k = choose|k: int| 0 <= k < f.len() && f[k] == "async"@;
        }
    }
    assert(f.contains("static"@) ==> node.is_static) by {
        if f.contains("static"@) {
            let k = choose|k: int| 0 <= k < f.len() && f[k] == "static"@;
        }
    }
    assert(f.contains("abstract"@) ==> node.is_abstract) by {
        if f.contains("abstract"@) {
            let k = choose|k: int| 0 <= k < f.len() && f[k] == "abstract"@;
        }
    }
    if node.is_async {
        assert(f[0] == "async"@);
    }
    if node.is_static {
        let k: int = if node.is_async { 1 } else { 0 };
        assert(f[k] == "static"@);
    }
    if node.is_abstract {
        let k: int = (if node.is_async { 1int } else { 0 }) + (if node.is_static { 1int } else { 0 });
        assert(f[k] == "abstract"@);
    }
}

/// The node-detail output, line by line: kind, name and qualified name; id; location; language;
/// then the signature line where the node has a signature, the visibility line where it has a
/// visibility, and the flags line (the flags joined by `, `) exactly where it has a flag.
pub proof fn lemma_node_detail_flags_line(resp: GetNodeDetailResponse)
    ensures
        ({
            let node = resp.node;
            let r = node_detail_report(resp);
            let s: int = if node.signature@.len() > 0 { 1int } else { 0int };
            let v: int = if node.visibility is Some { 1int } else { 0int };
            let flagged = node.is_async || node.is_static || node.is_abstract;
            &&& r[0] == "[ok] "@ + node.kind@ + " "@ + node.name@ + " ("@ + node.qualified_name@ + ")"@
            &&& r[1] == "  id:       "@ + node.id@
            &&& r[2] == "  location: "@ + node.file_path@ + ":"@ + decimal(node.start_line as nat) + "-"@
                + decimal(node.end_line as nat)
            &&& r[3] == "  language: "@ + node.language@
            &&& node.signature@.len() > 0 ==> r[4] == "  signature: "@ + node.signature@
            &&& forall|vis: String| node.visibility == Some(vis) ==> r[4 + s] == "  visibility: "@ + vis@
            &&& node_attributes(node).len() == s + v + (if flagged { 1int } else { 0int })
            &&& flagged ==> r[4 + s + v] == "  flags:    "@ + join(node_flags(node), ", "@)
        }),
{
    lemma_node_flags(resp.node);
    let node = resp.node;
    let r = node_detail_report(resp);
    let s: int = if node.signature@.len() > 0 { 1int } else { 0int };
    assert(r[0] == node_header(node)[0]);
    assert(r[3] == node_header(node)[3]);
    if node.signature@.len() > 0 {
        assert(r[4] == node_attributes(node)[0]);
    }
    if let Some(vis) = node.visibility {
        assert(r[4 + s] == node_attributes(node)[s]);
    }
}

/// The four lines that every node detail starts with.
pub open spec fn node_header(node: NodeDetail) -> Seq<Seq<char>> {
    seq![
        "[ok] "@ + node.kind@ + " "@ + node.name@ + " ("@ + node.qualified_name@ + ")"@,
        "  id:       "@ + node.id@,
        "  location: "@ + node.file_path@ + ":"@ + decimal(node.start_line as nat) + "-"@ + decimal(
            node.end_line as nat,
        ),
        "  language: "@ + node.language@,
    ]
}

/// The signature, visibility and flags lines, each where the node has it.
pub open spec fn node_attributes(node: NodeDetail) -> Seq<Seq<char>> {
    let flags = node_flags(node);
    (if node.signature@.len() > 0 {
        seq!["  signature: "@ + node.signature@]
    } else {
        Seq::<Seq<char>>::empty()
    }) + (match node.visibility {
        Some(v) => seq!["  visibility: "@ + v@],
        None => Seq::<Seq<char>>::empty(),
    }) + (if flags.len() > 0 {
        seq!["  flags:    "@ + join(flags, ", "@)]
    } else {
        Seq::<Seq<char>>::empty()
    })
}

/// The docstring block: a `  docstring:` line, then each line of the docstring indented by four
/// spaces; nothing for an empty docstring.
pub open spec fn node_docstring(node: NodeDetail) -> Seq<Seq<char>> {
    if node.docstring@.len() > 0 {
        seq!["  docstring:"@] + text_lines(node.docstring@).map_values(|l: Seq<char>| "    "@ + l)
    } else {
        Seq::<Seq<char>>::empty()
    }
}

/// What `get-node-detail` prints: kind, name and qualified name; id; location; language; then the
/// signature, visibility, flags and docstring where the node has them.
pub open spec fn node_detail_report(resp: GetNodeDetailResponse) -> Seq<Seq<char>> {
    node_header(resp.node) + node_attributes(resp.node) + node_docstring(resp.node)
}

/// The node-detail output ends with the docstring block: nothing when the docstring is empty,
/// else a `  docstring:` line and each line of the docstring indented by four spaces.
pub proof fn lemma_node_detail_docstring(resp: GetNodeDetailResponse)
    ensures
        ({
            let node = resp.node;
            let r = node_detail_report(resp);
            let at: int = 4 + node_attributes(node).len() as int;
            let doc = text_lines(node.docstring@);
            &&& node.docstring@.len() == 0 ==> r.len() == at
            &&& node.docstring@.len() > 0 ==> r.len() == at + 1 + doc.len()
            &&& node.docstring@.len() > 0 ==> r[at] == "  docstring:"@
            &&& node.docstring@.len() > 0 ==> forall|i: int| 0 <= i < doc.len() ==> r[at + 1 + i] == "    "@
                + #[trigger] doc[i]
        }),
{
    let node = resp.node;
    let r = node_detail_report(resp);
    let at: int = 4 + node_attributes(node).len() as int;
    let doc = text_lines(node.docstring@);
    if node.docstring@.len() > 0 {
        assert forall|i: int| 0 <= i < doc.len() implies r[at + 1 + i] == "    "@ + #[trigger] doc[i] by {
            assert(node_docstring(node)[1 + i] == "    "@ + doc[i]);
        }
    }
}

fn node_header_lines(node: &NodeDetail) -> (r: Vec<String>)
    ensures
        views(r@) == node_header(*node),
{
    let mut lines: Vec<String> = Vec::new();
    let mut l0 = String::from_str("[ok] ");
    l0.append(node.kind.as_str());
    l0.append(" ");
    l0.append(node.name.as_str());
    l0.append(" (");
    l0.append(node.qualified_name.as_str());
    l0.append(")");
    lines.push(l0);
    let mut l1 = String::from_str("  id:       ");
    l1.append(node.id.as_str());
    lines.push(l1);
    let mut l2 = String::from_str("  location: ");
    l2.append(node.file_path.as_str());
    l2.append(":");
    l2.append(u64_decimal(node.start_line as u64).as_str());
    l2.append("-");
    l2.append(u64_decimal(node.end_line as u64).as_str());
    lines.push(l2);
    let mut l3 = String::from_str("  language: ");
    l3.append(node.language.as_str());
    lines.push(l3);
    assert(views(lines@) =~= node_header(*node));
    lines
}

fn node_attribute_lines(node: &NodeDetail) -> (r: Vec<String>)
    ensures
        views(r@) == node_attributes(*node),
{
    let mut lines: Vec<String> = Vec::new();
    assert(views(lines@) =~= Seq::<Seq<char>>::empty());
    if node.signature.as_str().unicode_len() > 0 {
        let mut l = String::from_str("  signature: ");
        l.append(node.signature.as_str());
        lines.push(l);
    }
    let ghost s1 = views(lines@);
    match &node.visibility {
        Some(v) => {
            let mut l = String::from_str("  visibility: ");
            l.append(v.as_str());
            lines.push(l);
            assert(views(lines@) =~= s1.push(l@));
        },
        None => {},
    }
    let ghost s2 = views(lines@);
    let mut flags: Vec<String> = Vec::new();
    assert(views(flags@) =~= Seq::<Seq<char>>::empty());
    if node.is_async {
        flags.push(String::from_str("async"));
    }
    let ghost f0 = views(flags@);
    if node.is_static {
        flags.push(String::from_str("static"));
        assert(views(flags@) =~= f0.push("static"@));
    }
    let ghost f1 = views(flags@);
    if node.is_abstract {
        flags.push(String::from_str("abstract"));
        assert(views(flags@) =~= f1.push("abstract"@));
    }
    assert(views(flags@) =~= node_flags(*node));
    if flags.len() > 0 {
        let mut l = String::from_str("  flags:    ");
        l.append(join_strings(&flags, ", ").as_str());
        lines.push(l);
        assert(views(lines@) =~= s2.push(l@));
    }
    assert(views(lines@) =~= node_attributes(*node));
    lines
}

fn node_docstring_lines(node: &NodeDetail) -> (r: Vec<String>)
    ensures
        views(r@) == node_docstring(*node),
{
    let mut lines: Vec<String> = Vec::new();
    if node.docstring.as_str().unicode_len() == 0 {
        assert(views(lines@) =~= node_docstring(*node));
        return lines;
    }
    lines.push(String::from_str("  docstring:"));
    let doc = split_lines(node.docstring.as_str());
    let ghost doc_lines = text_lines(node.docstring@);
    let ghost s4 = views(lines@);
    assert(s4 =~= seq!["  docstring:"@]);
    let mut i: usize = 0;
    assert(s4 =~= s4 + doc_lines.subrange(0, 0).map_values(|l: Seq<char>| "    "@ + l));
    while i < doc.len()
        invariant
            i <= doc.len(),
            views(doc@) == doc_lines,
            views(lines@) == s4 + doc_lines.subrange(0, i as int).map_values(|l: Seq<char>| "    "@ + l),
        decreases doc.len() - i,
    {
        let mut l = String::from_str("    ");
        l.append(doc[i].as_str());
        let ghost before = views(lines@);
        lines.push(l);
        assert(doc_lines[i as int] == doc@[i as int]@);
        assert(doc_lines.subrange(0, i + 1).map_values(|l: Seq<char>| "    "@ + l) =~= doc_lines.subrange(
            0,
            i as int,
        ).map_values(|l: Seq<char>| "    "@ + l).push("    "@ + doc_lines[i as int]));
        assert(views(lines@) =~= before.push(l@));
        i = i + 1;
    }
    assert(doc_lines.subrange(0, doc.len() as int) =~= doc_lines);
    assert(views(lines@) =~= node_docstring(*node));
    lines
}

/// The lines that `get-node-detail` prints.
pub fn node_detail_lines(resp: &GetNodeDetailResponse) -> (r: Vec<String>)
    ensures
        views(r@) == node_detail_report(*resp),
{
    let mut lines = node_header_lines(&resp.node);
    let mut attributes = node_attribute_lines(&resp.node);
    let mut doc = node_docstring_lines(&resp.node);
    let ghost a = views(lines@);
    let ghost b = views(attributes@);
    let ghost c = views(doc@);
    lines.append(&mut attributes);
    assert(views(lines@) =~= a + b);
    let ghost ab = views(lines@);
    lines.append(&mut doc);
    assert(views(lines@) =~= ab + c);
    lines
}

} // verus!
