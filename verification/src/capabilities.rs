//! The machine-readable statement of what this build of the client supports, which runners
//! read before they collect a repository or call the server.

use vstd::prelude::*;
use crate::text::{is_blank, text_eq, text_is_blank, views};

verus! {

/// The version of the capability document's shape.
pub const CAPABILITY_SCHEMA_VERSION: &'static str = "formsy.cli_capabilities.v1";

/// The protocol capabilities of this client, in the order the document lists them.
pub open spec fn spec_capabilities() -> Seq<Seq<char>> {
    seq![
        "compile.task_source.v1"@,
        "compile.test_file_mutation_policy.v1"@,
        "graph.get_neighbors.v1"@,
        "graph.get_node_detail.v1"@,
        "graph.search_nodes.v1"@,
        "query.task_identity.v1"@,
        "source.auto_extensions.v1"@,
    ]
}

/// Lexicographic order on texts by code point: `a` comes strictly before `b`.
pub open spec fn text_before(a: Seq<char>, b: Seq<char>) -> bool
    decreases a.len(),
{
    if a.len() == 0 {
        b.len() > 0
    } else if b.len() == 0 {
        false
    } else if a[0] != b[0] {
        (a[0] as u32) < (b[0] as u32)
    } else {
        text_before(a.drop_first(), b.drop_first())
    }
}

/// Text order is transitive.
pub proof fn lemma_text_before_transitive(a: Seq<char>, b: Seq<char>, c: Seq<char>)
    requires
        text_before(a, b),
        text_before(b, c),
    ensures
        text_before(a, c),
    decreases a.len(),
{
    if a.len() > 0 && b.len() > 0 && c.len() > 0 && a[0] == b[0] && b[0] == c[0] {
        lemma_text_before_transitive(a.drop_first(), b.drop_first(), c.drop_first());
    }
}

/// The capabilities are listed in ascending order, each strictly before the next, so no
/// capability is listed twice.
pub proof fn lemma_capabilities_ascending()
    ensures
        forall|i: int, j: int|
            0 <= i < j < spec_capabilities().len() ==> text_before(
                #[trigger] spec_capabilities()[i],
                #[trigger] spec_capabilities()[j],
            ),
{
    reveal_strlit("compile.task_source.v1");
    reveal_strlit("compile.test_file_mutation_policy.v1");
    reveal_strlit("graph.get_neighbors.v1");
    reveal_strlit("graph.get_node_detail.v1");
    reveal_strlit("graph.search_nodes.v1");
    reveal_strlit("query.task_identity.v1");
    reveal_strlit("source.auto_extensions.v1");
    let c = spec_capabilities();
    assert(text_before(c[0], c[1])) by {
        reveal_with_fuel(text_before, 11);
    }
    assert(text_before(c[1], c[2]));
    assert(text_before(c[2], c[3])) by {
        reveal_with_fuel(text_before, 13);
    }
    assert(text_before(c[3], c[4])) by {
        reveal_with_fuel(text_before, 8);
    }
    assert(text_before(c[4], c[5]));
    assert(text_before(c[5], c[6]));
    assert forall|i: int, j: int| 0 <= i < j < c.len() implies text_before(c[i], c[j]) by {
        lemma_consecutive_chain(c, i, j);
    }
}

/// In a list where each text comes before the next, each comes before all later ones.
proof fn lemma_consecutive_chain(c: Seq<Seq<char>>, i: int, j: int)
    requires
        0 <= i < j < c.len(),
        forall|k: int| 0 <= k < c.len() - 1 ==> text_before(#[trigger] c[k], c[k + 1]),
    ensures
        text_before(c[i], c[j]),
    decreases j - i,
{
    if i + 1 < j {
        lemma_consecutive_chain(c, i + 1, j);
        lemma_text_before_transitive(c[i], c[i + 1], c[j]);
    }
}

/// No capability is listed twice.
pub proof fn lemma_capabilities_distinct()
    ensures
        forall|i: int, j: int|
            0 <= i < j < spec_capabilities().len() ==> #[trigger] spec_capabilities()[i]
                != #[trigger] spec_capabilities()[j],
{
    reveal_strlit("compile.task_source.v1");
    reveal_strlit("compile.test_file_mutation_policy.v1");
    reveal_strlit("graph.get_neighbors.v1");
    reveal_strlit("graph.get_node_detail.v1");
    reveal_strlit("graph.search_nodes.v1");
    reveal_strlit("query.task_identity.v1");
    reveal_strlit("source.auto_extensions.v1");
    let c = spec_capabilities();
    assert forall|i: int, j: int| 0 <= i < j < c.len() implies c[i] != c[j] by {
        if c[i].len() == c[j].len() {
            assert(c[i][0] != c[j][0] || c[i][9] != c[j][9]);
        }
    }
}

/// The protocol capabilities of this client.
pub fn capabilities() -> (r: Vec<String>)
    ensures
        views(r@) == spec_capabilities(),
{
    let mut v: Vec<String> = Vec::new();
    v.push(String::from_str("compile.task_source.v1"));
    v.push(String::from_str("compile.test_file_mutation_policy.v1"));
    v.push(String::from_str("graph.get_neighbors.v1"));
    v.push(String::from_str("graph.get_node_detail.v1"));
    v.push(String::from_str("graph.search_nodes.v1"));
    v.push(String::from_str("query.task_identity.v1"));
    v.push(String::from_str("source.auto_extensions.v1"));
    assert(views(v@) =~= spec_capabilities());
    v
}

/// Options of the `capabilities` command.
#[derive(Debug, Clone, PartialEq, Eq)]
pub struct CapabilitiesCmd {
    /// Print the machine-readable document.
    pub json: bool,
}

/// The capability document: the build's identity and the capabilities it supports.
#[derive(Debug, Clone, PartialEq, Eq)]
pub struct CapabilityDocument {
    pub schema_version: String,
    pub cli_version: String,
    pub git_commit: String,
    pub git_dirty: String,
    pub target: String,
    pub capabilities: Vec<String>,
}

/// The commit that a document records: the one given, or `unknown` where none was given.
pub open spec fn recorded_commit(commit: Seq<char>) -> Seq<char> {
    if is_blank(commit) {
        "unknown"@
    } else {
        commit
    }
}

/// The dirty flag that a document records: `true` or `false` as given, `unknown` for anything
/// else.
pub open spec fn recorded_dirty(dirty: Seq<char>) -> Seq<char> {
    if dirty == "true"@ || dirty == "false"@ {
        dirty
    } else {
        "unknown"@
    }
}

/// The commit that a document records for the commit a build reported.
pub fn record_commit(commit: &str) -> (r: String)
    ensures
        r@ == recorded_commit(commit@),
{
    if text_is_blank(commit) {
        String::from_str("unknown")
    } else {
        String::from_str(commit)
    }
}

/// The dirty flag that a document records for the flag a build reported.
pub fn record_dirty(dirty: &str) -> (r: String)
    ensures
        r@ == recorded_dirty(dirty@),
        r@ == "true"@ || r@ == "false"@ || r@ == "unknown"@,
{
    if text_eq(dirty, "true") || text_eq(dirty, "false") {
        String::from_str(dirty)
    } else {
        String::from_str("unknown")
    }
}

impl CapabilityDocument {
    /// The document of this build, identified by the package version, the git commit, whether
    /// the work tree was dirty, and the target triple that the build recorded. A blank commit is
    /// recorded as `unknown`, and so is a dirty flag other than `true` or `false`.
    pub fn current(cli_version: &str, git_commit: &str, git_dirty: &str, target: &str) -> (r: Self)
        ensures
            r.schema_version@ == CAPABILITY_SCHEMA_VERSION@,
            r.cli_version@ == cli_version@,
            r.git_commit@ == recorded_commit(git_commit@),
            r.git_dirty@ == recorded_dirty(git_dirty@),
            r.git_dirty@ == "true"@ || r.git_dirty@ == "false"@ || r.git_dirty@ == "unknown"@,
            r.target@ == target@,
            views(r.capabilities@) == spec_capabilities(),
    {
        CapabilityDocument {
            schema_version: String::from_str(CAPABILITY_SCHEMA_VERSION),
            cli_version: String::from_str(cli_version),
            git_commit: record_commit(git_commit),
            git_dirty: record_dirty(git_dirty),
            target: String::from_str(target),
            capabilities: capabilities(),
        }
    }

    /// The lines that the `capabilities` command prints without `--json`: the build's identity,
    /// then one `- <capability>` line each.
    pub fn summary_lines(&self) -> (r: Vec<String>)
        ensures
            views(r@) == seq![
                "fsy "@ + self.cli_version@ + " commit="@ + self.git_commit@ + " dirty="@
                    + self.git_dirty@ + " target="@ + self.target@,
            ] + views(self.capabilities@).map_values(|c: Seq<char>| "- "@ + c),
    {
        let mut head = String::from_str("fsy ");
        head.append(self.cli_version.as_str());
        head.append(" commit=");
        head.append(self.git_commit.as_str());
        head.append(" dirty=");
        head.append(self.git_dirty.as_str());
        head.append(" target=");
        head.append(self.target.as_str());
        let mut lines: Vec<String> = Vec::new();
        lines.push(head);
        let mut i: usize = 0;
        while i < self.capabilities.len()
            invariant
                i <= self.capabilities.len(),
                lines@.len() == i + 1,
                views(lines@) == seq![lines@[0]@] + views(self.capabilities@).subrange(0, i as int).map_values(
                    |c: Seq<char>| "- "@ + c,
                ),
                lines@[0]@ == head@,
            decreases self.capabilities.len() - i,
        {
            let mut line = String::from_str("- ");
            line.append(self.capabilities[i].as_str());
            let ghost before = views(lines@);
            lines.push(line);
            assert(views(lines@) =~= before.push(line@));
            assert(views(self.capabilities@).subrange(0, i + 1).map_values(|c: Seq<char>| "- "@ + c)
                =~= views(self.capabilities@).subrange(0, i as int).map_values(|c: Seq<char>| "- "@ + c).push(
                "- "@ + self.capabilities@[i as int]@,
            ));
            i = i + 1;
        }
        assert(views(self.capabilities@).subrange(0, self.capabilities.len() as int) =~= views(
            self.capabilities@,
        ));
        lines
    }
}

} // verus!
