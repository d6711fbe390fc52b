//! Which repository files a compile request carries, in which order, and with which language.
//!
//! The file system is read elsewhere: this module takes the repository inventory as
//! repository-relative paths (`/`-separated, as git reports them) and decides which of them are
//! sent, sorts them as paths sort, drops duplicates, and labels each with its language.

use vstd::prelude::*;
use vstd::utf8::*;
use crate::models::SourceFilePayload;
use crate::text::{
    debug_quote_path, debug_quoted_path, is_white_space, trim_start, trim_end, ascii_lower,
    ascii_lowercase, strip_leading, text_eq, to_ascii_lowercase, trim, trim_text, strip_leading_char,
    views,
};

verus! {

broadcast use encode_utf8_decode_utf8;

// ---------------------------------------------------------------------------
// Path order
// ---------------------------------------------------------------------------

/// The rank of a byte in path order: the separator `/` comes before every other byte, so that a
/// path sorts before the paths below it, as paths compare component by component.
pub open spec fn byte_rank(b: u8) -> int {
    if b == 0x2f {
        -1
    } else {
        b as int
    }
}

/// Lexicographic order on byte strings by `byte_rank`.
pub open spec fn bytes_before(a: Seq<u8>, b: Seq<u8>) -> bool
    decreases a.len(),
{
    if a.len() == 0 {
        b.len() > 0
    } else if b.len() == 0 {
        false
    } else if a[0] != b[0] {
        byte_rank(a[0]) < byte_rank(b[0])
    } else {
        bytes_before(a.drop_first(), b.drop_first())
    }
}

/// Path order on repository-relative paths: their UTF-8 bytes compared by `bytes_before`.
pub open spec fn path_before(a: Seq<char>, b: Seq<char>) -> bool {
    bytes_before(encode_utf8(a), encode_utf8(b))
}

/// Every path comes before all paths after it: sorted, and no path occurs twice.
pub open spec fn strictly_ascending(paths: Seq<Seq<char>>) -> bool {
    forall|i: int, j: int| 0 <= i < j < paths.len() ==> path_before(#[trigger] paths[i], #[trigger] paths[j])
}

/// Path order is transitive.
pub proof fn lemma_bytes_before_transitive(a: Seq<u8>, b: Seq<u8>, c: Seq<u8>)
    requires
        bytes_before(a, b),
        bytes_before(b, c),
    ensures
        bytes_before(a, c),
    decreases a.len(),
{
    if a.len() > 0 && b.len() > 0 && c.len() > 0 && a[0] == b[0] && b[0] == c[0] {
        lemma_bytes_before_transitive(a.drop_first(), b.drop_first(), c.drop_first());
    }
}

/// Path order never puts two byte strings each before the other.
pub proof fn lemma_bytes_before_asymmetric(a: Seq<u8>, b: Seq<u8>)
    ensures
        !(bytes_before(a, b) && bytes_before(b, a)),
    decreases a.len(),
{
    if a.len() > 0 && b.len() > 0 && a[0] == b[0] {
        lemma_bytes_before_asymmetric(a.drop_first(), b.drop_first());
    }
}

/// Path order is total: of two different byte strings, one comes before the other.
pub proof fn lemma_bytes_before_total(a: Seq<u8>, b: Seq<u8>)
    requires
        a != b,
    ensures
        bytes_before(a, b) || bytes_before(b, a),
    decreases a.len(),
{
    if a.len() > 0 && b.len() > 0 && a[0] == b[0] {
        if a.drop_first() == b.drop_first() {
            assert(a =~= seq![a[0]] + a.drop_first());
            assert(b =~= seq![b[0]] + b.drop_first());
        }
        lemma_bytes_before_total(a.drop_first(), b.drop_first());
    } else if a.len() == 0 && b.len() == 0 {
        assert(a =~= b);
    }
}

/// How two paths are ordered: by their first differing byte, where `/` comes before every other
/// byte (so a directory's entries come before a sibling whose name extends the directory's) and
/// other bytes compare by value; and a path comes before every longer path that starts with it.
pub proof fn lemma_bytes_before_at_difference(prefix: Seq<u8>, x: u8, y: u8, a: Seq<u8>, b: Seq<u8>)
    requires
        x != y,
    ensures
        bytes_before(prefix + seq![x] + a, prefix + seq![y] + b) <==> (x == 0x2f || (y != 0x2f && x < y)),
        bytes_before(prefix, prefix + seq![y] + b),
        !bytes_before(prefix + seq![y] + b, prefix),
    decreases prefix.len(),
{
    let l = prefix + seq![x] + a;
    let r = prefix + seq![y] + b;
    if prefix.len() == 0 {
        assert(l[0] == x && r[0] == y);
    } else {
        assert(l[0] == prefix[0] && r[0] == prefix[0]);
        assert(l.drop_first() =~= prefix.drop_first() + seq![x] + a);
        assert(r.drop_first() =~= prefix.drop_first() + seq![y] + b);
        lemma_bytes_before_at_difference(prefix.drop_first(), x, y, a, b);
    }
}

/// The outcome of comparing two paths.
pub enum Precedence {
    Before,
    Same,
    After,
}

proof fn lemma_bytes_before_skip(a: Seq<u8>, b: Seq<u8>, i: int)
    requires
        0 <= i < a.len(),
        i < b.len(),
        a[i] == b[i],
    ensures
        bytes_before(a.skip(i), b.skip(i)) == bytes_before(a.skip(i + 1), b.skip(i + 1)),
{
    assert(a.skip(i).drop_first() =~= a.skip(i + 1));
    assert(b.skip(i).drop_first() =~= b.skip(i + 1));
}

/// Compares two byte strings in path order.
pub fn compare_path_bytes(a: &[u8], b: &[u8]) -> (r: Precedence)
    ensures
        r is Before <==> bytes_before(a@, b@),
        r is Same <==> a@ == b@,
        r is After <==> bytes_before(b@, a@),
{
    proof {
        lemma_bytes_before_asymmetric(a@, b@);
        if a@ != b@ {
            lemma_bytes_before_total(a@, b@);
        }
    }
    let la = a.len();
    let lb = b.len();
    let mut i: usize = 0;
    assert(a@.skip(0) =~= a@);
    assert(b@.skip(0) =~= b@);
    while i < la && i < lb
        invariant
            la == a@.len(),
            lb == b@.len(),
            i <= la,
            i <= lb,
            forall|j: int| 0 <= j < i ==> a@[j] == b@[j],
            bytes_before(a@, b@) == bytes_before(a@.skip(i as int), b@.skip(i as int)),
            bytes_before(b@, a@) == bytes_before(b@.skip(i as int), a@.skip(i as int)),
        decreases la - i,
    {
        if a[i] != b[i] {
            assert(a@.skip(i as int)[0] == a@[i as int]);
            assert(b@.skip(i as int)[0] == b@[i as int]);
            if byte_rank_exec(a[i]) < byte_rank_exec(b[i]) {
                return Precedence::Before;
            } else {
                return Precedence::After;
            }
        }
        proof {
            lemma_bytes_before_skip(a@, b@, i as int);
            lemma_bytes_before_skip(b@, a@, i as int);
        }
        i = i + 1;
    }
    if la == lb {
        assert(a@ =~= b@);
        Precedence::Same
    } else if la < lb {
        Precedence::Before
    } else {
        Precedence::After
    }
}

fn byte_rank_exec(b: u8) -> (r: i32)
    ensures
        r == byte_rank(b),
{
    if b == 0x2f {
        -1
    } else {
        b as i32
    }
}

proof fn lemma_path_before_irreflexive(a: Seq<char>)
    ensures
        !path_before(a, a),
{
    lemma_bytes_before_asymmetric(encode_utf8(a), encode_utf8(a));
}

proof fn lemma_path_before_transitive(a: Seq<char>, b: Seq<char>, c: Seq<char>)
    requires
        path_before(a, b),
        path_before(b, c),
    ensures
        path_before(a, c),
{
    lemma_bytes_before_transitive(encode_utf8(a), encode_utf8(b), encode_utf8(c));
}

/// Two strictly ascending lists that hold the same paths are the same list.
proof fn lemma_ascending_unique(a: Seq<Seq<char>>, b: Seq<Seq<char>>)
    requires
        strictly_ascending(a),
        strictly_ascending(b),
        forall|x: Seq<char>| a.contains(x) <==> b.contains(x),
    ensures
        a == b,
    decreases a.len(),
{
    if a.len() == 0 {
        if b.len() > 0 {
            assert(b.contains(b[0]));
        }
        assert(a =~= b);
    } else {
        assert(a.contains(a[0]));
        let j = choose|j: int| 0 <= j < b.len() && b[j] == a[0];
        assert(b.contains(b[0]));
        let i = choose|i: int| 0 <= i < a.len() && a[i] == b[0];
        if j > 0 {
            if i > 0 {
                assert(path_before(a[0], a[i]));
                assert(path_before(b[0], b[j]));
                lemma_bytes_before_asymmetric(encode_utf8(a[0]), encode_utf8(b[0]));
            } else {
                assert(path_before(b[0], b[j]));
                lemma_path_before_irreflexive(b[0]);
            }
        }
        assert(a[0] == b[0]);
        let a1 = a.drop_first();
        let b1 = b.drop_first();
        assert forall|x: Seq<char>| a1.contains(x) <==> b1.contains(x) by {
            if a1.contains(x) {
                let k = choose|k: int| 0 <= k < a1.len() && a1[k] == x;
                assert(a[k + 1] == x);
                assert(path_before(a[0], a[k + 1]));
                lemma_path_before_irreflexive(x);
                assert(b.contains(x));
                let m = choose|m: int| 0 <= m < b.len() && b[m] == x;
                assert(m != 0);
                assert(b1[m - 1] == x);
            }
            if b1.contains(x) {
                let k = choose|k: int| 0 <= k < b1.len() && b1[k] == x;
                assert(b[k + 1] == x);
                assert(path_before(b[0], b[k + 1]));
                lemma_path_before_irreflexive(x);
                assert(a.contains(x));
                let m = choose|m: int| 0 <= m < a.len() && a[m] == x;
                assert(m != 0);
                assert(a1[m - 1] == x);
            }
        }
        assert forall|p: int, q: int| 0 <= p < q < a1.len() implies path_before(#[trigger] a1[p], #[trigger] a1[q]) by {
            assert(a1[p] == a[p + 1] && a1[q] == a[q + 1]);
        }
        assert forall|p: int, q: int| 0 <= p < q < b1.len() implies path_before(#[trigger] b1[p], #[trigger] b1[q]) by {
            assert(b1[p] == b[p + 1] && b1[q] == b[q + 1]);
        }
        lemma_ascending_unique(a1, b1);
        assert(a =~= seq![a[0]] + a1);
        assert(b =~= seq![b[0]] + b1);
    }
}

/// What `select_source_paths` returns for an inventory: the eligible paths in strictly
/// ascending path order.
pub open spec fn is_selection_of(selected: Seq<Seq<char>>, inventory: Seq<Seq<char>>, extensions: Seq<Seq<char>>) -> bool {
    &&& strictly_ascending(selected)
    &&& forall|p: Seq<char>| selected.contains(p) <==> (inventory.contains(p) && is_eligible(p, extensions))
}

/// The selection depends on the set of inventory paths alone: neither the order in which git or
/// the directory walk reports them nor repeated paths change what is sent.
pub proof fn lemma_selection_depends_on_path_set(
    inventory1: Seq<Seq<char>>,
    inventory2: Seq<Seq<char>>,
    extensions: Seq<Seq<char>>,
    selected1: Seq<Seq<char>>,
    selected2: Seq<Seq<char>>,
)
    requires
        is_selection_of(selected1, inventory1, extensions),
        is_selection_of(selected2, inventory2, extensions),
        forall|p: Seq<char>| inventory1.contains(p) <==> inventory2.contains(p),
    ensures
        selected1 == selected2,
{
    lemma_ascending_unique(selected1, selected2);
}

/// Selecting again from a selection gives it back unchanged.
pub proof fn lemma_selection_idempotent(
    inventory: Seq<Seq<char>>,
    extensions: Seq<Seq<char>>,
    selected: Seq<Seq<char>>,
    reselected: Seq<Seq<char>>,
)
    requires
        is_selection_of(selected, inventory, extensions),
        is_selection_of(reselected, selected, extensions),
    ensures
        reselected == selected,
{
    lemma_ascending_unique(reselected, selected);
}

/// Inserts `x` into a strictly ascending list of paths, unless it is there already.
fn insert_path(out: &mut Vec<String>, x: String)
    requires
        strictly_ascending(views(old(out)@)),
    ensures
        strictly_ascending(views(final(out)@)),
        forall|p: Seq<char>|
            views(final(out)@).contains(p) <==> (views(old(out)@).contains(p) || p == x@),
{
    let ghost old_views = views(out@);
    let mut lo: usize = 0;
    let mut hi: usize = out.len();
    while lo < hi
        invariant
            lo <= hi <= out.len(),
            views(out@) == old_views,
            strictly_ascending(old_views),
            forall|j: int| 0 <= j < lo ==> path_before(#[trigger] old_views[j], x@),
            forall|j: int| hi <= j < old_views.len() ==> !path_before(#[trigger] old_views[j], x@),
        decreases hi - lo,
    {
        let mid = lo + (hi - lo) / 2;
        assert(old_views[mid as int] == out@[mid as int]@);
        match compare_path_bytes(out[mid].as_str().as_bytes(), x.as_str().as_bytes()) {
            Precedence::Before => {
                assert forall|j: int| 0 <= j < mid + 1 implies path_before(#[trigger] old_views[j], x@) by {
                    if lo <= j < mid {
                        lemma_path_before_transitive(old_views[j], old_views[mid as int], x@);
                    }
                }
                lo = mid + 1;
            },
            _ => {
                assert forall|j: int| mid <= j < old_views.len() implies !path_before(#[trigger] old_views[j], x@) by {
                    if mid < j && path_before(old_views[j], x@) {
                        lemma_path_before_transitive(old_views[mid as int], old_views[j], x@);
                    }
                }
                hi = mid;
            },
        }
    }
    if lo < out.len() {
        assert(old_views[lo as int] == out@[lo as int]@);
        match compare_path_bytes(out[lo].as_str().as_bytes(), x.as_str().as_bytes()) {
            Precedence::Same => {
                assert(decode_utf8(encode_utf8(out@[lo as int]@)) == out@[lo as int]@);
                assert(decode_utf8(encode_utf8(x@)) == x@);
                assert(old_views[lo as int] == x@);
                return;
            },
            _ => {},
        }
        proof {
            lemma_bytes_before_total(encode_utf8(old_views[lo as int]), encode_utf8(x@));
        }
        assert(path_before(x@, old_views[lo as int]));
    }
    let ghost pos = lo as int;
    assert forall|j: int| pos <= j < old_views.len() implies path_before(x@, #[trigger] old_views[j]) by {
        if j > pos {
            lemma_path_before_transitive(x@, old_views[pos], old_views[j]);
        }
    }
    out.insert(lo, x);
    let ghost new_views = views(out@);
    assert(new_views =~= old_views.insert(pos, x@));
    assert forall|i: int, j: int| 0 <= i < j < new_views.len() implies path_before(
        #[trigger] new_views[i],
        #[trigger] new_views[j],
    ) by {
        if j < pos {
        } else if j == pos {
        } else if i < pos {
            assert(new_views[j] == old_views[j - 1]);
        } else if i == pos {
            assert(new_views[j] == old_views[j - 1]);
        } else {
            assert(new_views[i] == old_views[i - 1]);
            assert(new_views[j] == old_views[j - 1]);
        }
    }
    assert forall|p: Seq<char>| new_views.contains(p) <==> (old_views.contains(p) || p == x@) by {
        if new_views.contains(p) {
            let k = choose|k: int| 0 <= k < new_views.len() && new_views[k] == p;
            if k < pos {
                assert(old_views[k] == p);
            } else if k > pos {
                assert(old_views[k - 1] == p);
            }
        }
        if old_views.contains(p) {
            let k = choose|k: int| 0 <= k < old_views.len() && old_views[k] == p;
            if k < pos {
                assert(new_views[k] == p);
            } else {
                assert(new_views[k + 1] == p);
            }
        }
        if p == x@ {
            assert(new_views[pos] == p);
        }
    }
}

/// The languages that the code-graph backend parses, by lower-case file extension.
pub open spec fn codegraph_language(ext: Seq<char>) -> Option<Seq<char>> {
    if ext == "py"@ {
        Some("python"@)
    } else if ext == "ts"@ {
        Some("typescript"@)
    } else if ext == "tsx"@ {
        Some("tsx"@)
    } else if ext == "js"@ {
        Some("javascript"@)
    } else if ext == "jsx"@ {
        Some("jsx"@)
    } else if ext == "go"@ {
        Some("go"@)
    } else if ext == "rs"@ {
        Some("rust"@)
    } else if ext == "java"@ {
        Some("java"@)
    } else if ext == "c"@ {
        Some("c"@)
    } else if ext == "h"@ {
        Some("c"@)
    } else if ext == "cpp"@ {
        Some("cpp"@)
    } else if ext == "hpp"@ {
        Some("cpp"@)
    } else if ext == "cc"@ {
        Some("cpp"@)
    } else if ext == "cxx"@ {
        Some("cpp"@)
    } else if ext == "cs"@ {
        Some("csharp"@)
    } else if ext == "php"@ {
        Some("php"@)
    } else if ext == "rb"@ {
        Some("ruby"@)
    } else if ext == "swift"@ {
        Some("swift"@)
    } else if ext == "kt"@ {
        Some("kotlin"@)
    } else if ext == "kts"@ {
        Some("kotlin"@)
    } else if ext == "dart"@ {
        Some("dart"@)
    } else {
        None
    }
}

/// The code-graph backend's languages as a table of (extension, language) pairs.
pub open spec fn codegraph_table() -> Seq<(Seq<char>, Seq<char>)> {
    seq![
        ("py"@, "python"@),
        ("ts"@, "typescript"@),
        ("tsx"@, "tsx"@),
        ("js"@, "javascript"@),
        ("jsx"@, "jsx"@),
        ("go"@, "go"@),
        ("rs"@, "rust"@),
        ("java"@, "java"@),
        ("c"@, "c"@),
        ("h"@, "c"@),
        ("cpp"@, "cpp"@),
        ("hpp"@, "cpp"@),
        ("cc"@, "cpp"@),
        ("cxx"@, "cpp"@),
        ("cs"@, "csharp"@),
        ("php"@, "php"@),
        ("rb"@, "ruby"@),
        ("swift"@, "swift"@),
        ("kt"@, "kotlin"@),
        ("kts"@, "kotlin"@),
        ("dart"@, "dart"@),
    ]
}

/// The backend's language of an extension is exactly the one the table pairs it with: every
/// extension of the table has its language, and an extension outside the table has none.
#[verifier::rlimit(50)]
#[verifier::spinoff_prover]
pub proof fn lemma_codegraph_language_table(ext: Seq<char>)
    ensures
        forall|i: int| 0 <= i < codegraph_table().len() ==> (#[trigger] codegraph_table()[i]).0 == ext
            ==> codegraph_language(ext) == Some(codegraph_table()[i].1),
        codegraph_language(ext) is None <==> forall|i: int|
            0 <= i < codegraph_table().len() ==> (#[trigger] codegraph_table()[i]).0 != ext,
{
    reveal_strlit("c");
    reveal_strlit("cc");
    reveal_strlit("cpp");
    reveal_strlit("cs");
    reveal_strlit("csharp");
    reveal_strlit("cxx");
    reveal_strlit("dart");
    reveal_strlit("go");
    reveal_strlit("h");
    reveal_strlit("hpp");
    reveal_strlit("java");
    reveal_strlit("javascript");
    reveal_strlit("js");
    reveal_strlit("jsx");
    reveal_strlit("kotlin");
    reveal_strlit("kt");
    reveal_strlit("kts");
    reveal_strlit("php");
    reveal_strlit("py");
    reveal_strlit("python");
    reveal_strlit("rb");
    reveal_strlit("rs");
    reveal_strlit("ruby");
    reveal_strlit("rust");
    reveal_strlit("swift");
    reveal_strlit("ts");
    reveal_strlit("tsx");
    reveal_strlit("typescript");
    let t = codegraph_table();
    assert forall|i: int| 0 <= i < t.len() && (#[trigger] t[i]).0 == ext implies codegraph_language(ext)
        == Some(t[i].1) by {
        if i == 0 {
            assert(t[0].0 == "py"@);
            assert(codegraph_language(t[0].0) == Some(t[0].1));
        }
        if i == 1 {
            assert(t[1].0 == "ts"@);
            assert(t[1].0[0] != t[0].0[0]);
            assert(codegraph_language(t[1].0) == Some(t[1].1));
        }
        if i == 2 {
            assert(t[2].0 == "tsx"@);
            assert(codegraph_language(t[2].0) == Some(t[2].1));
        }
        if i == 3 {
            assert(t[3].0 == "js"@);
            assert(t[3].0[0] != t[0].0[0]);
            assert(t[3].0[0] != t[1].0[0]);
            assert(codegraph_language(t[3].0) == Some(t[3].1));
        }
        if i == 4 {
            assert(t[4].0 == "jsx"@);
            assert(t[4].0[0] != t[2].0[0]);
            assert(codegraph_language(t[4].0) == Some(t[4].1));
        }
        if i == 5 {
            assert(t[5].0 == "go"@);
            assert(t[5].0[0] != t[0].0[0]);
            assert(t[5].0[0] != t[1].0[0]);
            assert(t[5].0[0] != t[3].0[0]);
            assert(codegraph_language(t[5].0) == Some(t[5].1));
        }
        if i == 6 {
            assert(t[6].0 == "rs"@);
            assert(t[6].0[0] != t[0].0[0]);
            assert(t[6].0[0] != t[1].0[0]);
            assert(t[6].0[0] != t[3].0[0]);
            assert(t[6].0[0] != t[5].0[0]);
            assert(codegraph_language(t[6].0) == Some(t[6].1));
        }
        if i == 7 {
            assert(t[7].0 == "java"@);
            assert(codegraph_language(t[7].0) == Some(t[7].1));
        }
        if i == 8 {
            assert(t[8].0 == "c"@);
            assert(codegraph_language(t[8].0) == Some(t[8].1));
        }
        if i == 9 {
            assert(t[9].0 == "h"@);
            assert(t[9].0[0] != t[8].0[0]);
            assert(codegraph_language(t[9].0) == Some(t[9].1));
        }
        if i == 10 {
            assert(t[10].0 == "cpp"@);
            assert(t[10].0[0] != t[2].0[0]);
            assert(t[10].0[0] != t[4].0[0]);
            assert(codegraph_language(t[10].0) == Some(t[10].1));
        }
        if i == 11 {
            assert(t[11].0 == "hpp"@);
            assert(t[11].0[0] != t[2].0[0]);
            assert(t[11].0[0] != t[4].0[0]);
            assert(t[11].0[0] != t[10].0[0]);
            assert("h"@.len() == 1);
            assert("hpp"@ != "h"@);
            assert(codegraph_language(t[11].0) == Some(t[11].1));
        }
        if i == 12 {
            assert(t[12].0 == "cc"@);
            assert(t[12].0[0] != t[0].0[0]);
            assert(t[12].0[0] != t[1].0[0]);
            assert(t[12].0[0] != t[3].0[0]);
            assert(t[12].0[0] != t[5].0[0]);
            assert(t[12].0[0] != t[6].0[0]);
            assert(codegraph_language(t[12].0) == Some(t[12].1));
        }
        if i == 13 {
            assert(t[13].0 == "cxx"@);
            assert(t[13].0[0] != t[2].0[0]);
            assert(t[13].0[0] != t[4].0[0]);
            assert(t[13].0[1] != t[10].0[1]);
            assert(t[13].0[0] != t[11].0[0]);
            assert(codegraph_language(t[13].0) == Some(t[13].1));
        }
        if i == 14 {
            assert(t[14].0 == "cs"@);
            assert(t[14].0[0] != t[0].0[0]);
            assert(t[14].0[0] != t[1].0[0]);
            assert(t[14].0[0] != t[3].0[0]);
            assert(t[14].0[0] != t[5].0[0]);
            assert(t[14].0[0] != t[6].0[0]);
            assert(t[14].0[1] != t[12].0[1]);
            assert(codegraph_language(t[14].0) == Some(t[14].1));
        }
        if i == 15 {
            assert(t[15].0 == "php"@);
            assert(t[15].0[0] != t[2].0[0]);
            assert(t[15].0[0] != t[4].0[0]);
            assert(t[15].0[0] != t[10].0[0]);
            assert(t[15].0[0] != t[11].0[0]);
            assert(t[15].0[0] != t[13].0[0]);
            assert(codegraph_language(t[15].0) == Some(t[15].1));
        }
        if i == 16 {
            assert(t[16].0 == "rb"@);
            assert(t[16].0[0] != t[0].0[0]);
            assert(t[16].0[0] != t[1].0[0]);
            assert(t[16].0[0] != t[3].0[0]);
            assert(t[16].0[0] != t[5].0[0]);
            assert(t[16].0[1] != t[6].0[1]);
            assert(t[16].0[0] != t[12].0[0]);
            assert(t[16].0[0] != t[14].0[0]);
            assert(codegraph_language(t[16].0) == Some(t[16].1));
        }
        if i == 17 {
            assert(t[17].0 == "swift"@);
            assert(codegraph_language(t[17].0) == Some(t[17].1));
        }
        if i == 18 {
            assert(t[18].0 == "kt"@);
            assert(t[18].0[0] != t[0].0[0]);
            assert(t[18].0[0] != t[1].0[0]);
            assert(t[18].0[0] != t[3].0[0]);
            assert(t[18].0[0] != t[5].0[0]);
            assert(t[18].0[0] != t[6].0[0]);
            assert(t[18].0[0] != t[12].0[0]);
            assert(t[18].0[0] != t[14].0[0]);
            assert(t[18].0[0] != t[16].0[0]);
            assert(codegraph_language(t[18].0) == Some(t[18].1));
        }
        if i == 19 {
            assert(t[19].0 == "kts"@);
            assert(t[19].0[0] != t[2].0[0]);
            assert(t[19].0[0] != t[4].0[0]);
            assert(t[19].0[0] != t[10].0[0]);
            assert(t[19].0[0] != t[11].0[0]);
            assert(t[19].0[0] != t[13].0[0]);
            assert(t[19].0[0] != t[15].0[0]);
            assert(codegraph_language(t[19].0) == Some(t[19].1));
        }
        if i == 20 {
            assert(t[20].0 == "dart"@);
            assert(t[20].0[0] != t[7].0[0]);
            assert(codegraph_language(t[20].0) == Some(t[20].1));
        }
    }
    if codegraph_language(ext) is Some {
        assert(exists|i: int| 0 <= i < t.len() && (#[trigger] t[i]).0 == ext) by {
            if ext == t[0].0 { assert(t[0].0 == ext); }
            if ext == t[1].0 { assert(t[1].0 == ext); }
            if ext == t[2].0 { assert(t[2].0 == ext); }
            if ext == t[3].0 { assert(t[3].0 == ext); }
            if ext == t[4].0 { assert(t[4].0 == ext); }
            if ext == t[5].0 { assert(t[5].0 == ext); }
            if ext == t[6].0 { assert(t[6].0 == ext); }
            if ext == t[7].0 { assert(t[7].0 == ext); }
            if ext == t[8].0 { assert(t[8].0 == ext); }
            if ext == t[9].0 { assert(t[9].0 == ext); }
            if ext == t[10].0 { assert(t[10].0 == ext); }
            if ext == t[11].0 { assert(t[11].0 == ext); }
            if ext == t[12].0 { assert(t[12].0 == ext); }
            if ext == t[13].0 { assert(t[13].0 == ext); }
            if ext == t[14].0 { assert(t[14].0 == ext); }
            if ext == t[15].0 { assert(t[15].0 == ext); }
            if ext == t[16].0 { assert(t[16].0 == ext); }
            if ext == t[17].0 { assert(t[17].0 == ext); }
            if ext == t[18].0 { assert(t[18].0 == ext); }
            if ext == t[19].0 { assert(t[19].0 == ext); }
            if ext == t[20].0 { assert(t[20].0 == ext); }
        }
    }
}

/// With no extension requested, a path is sent exactly when its lower-case extension is in the
/// backend's table, and its payload carries the language the table gives.
pub proof fn lemma_automatic_selection(p: Seq<char>, extensions: Seq<Seq<char>>, i: int)
    requires
        none_requested(extensions),
        0 <= i < codegraph_table().len(),
        path_extension(p) == Some(codegraph_table()[i].0),
    ensures
        is_eligible(p, extensions),
        codegraph_language(path_extension(p)->0) == Some(codegraph_table()[i].1),
{
    lemma_codegraph_language_table(codegraph_table()[i].0);
}

/// With no extension requested, a path whose extension is not in the backend's table is not sent.
pub proof fn lemma_automatic_selection_excludes(p: Seq<char>, extensions: Seq<Seq<char>>)
    requires
        none_requested(extensions),
        forall|i: int| 0 <= i < codegraph_table().len() ==> Some((#[trigger] codegraph_table()[i]).0)
            != path_extension(p),
    ensures
        !is_eligible(p, extensions),
{
    if let Some(e) = path_extension(p) {
        lemma_codegraph_language_table(e);
    }
}

/// The language of a lower-case file extension, where the code-graph backend parses it.
pub fn language_for_extension(extension: &str) -> (r: Option<&'static str>)
    ensures
        match r {
            Some(l) => codegraph_language(extension@) == Some(l@),
            None => codegraph_language(extension@) is None,
        },
{
    if text_eq(extension, "py") {
        return Some("python");
    }
    if text_eq(extension, "ts") {
        return Some("typescript");
    }
    if text_eq(extension, "tsx") {
        return Some("tsx");
    }
    if text_eq(extension, "js") {
        return Some("javascript");
    }
    if text_eq(extension, "jsx") {
        return Some("jsx");
    }
    if text_eq(extension, "go") {
        return Some("go");
    }
    if text_eq(extension, "rs") {
        return Some("rust");
    }
    if text_eq(extension, "java") {
        return Some("java");
    }
    if text_eq(extension, "c") {
        return Some("c");
    }
    if text_eq(extension, "h") {
        return Some("c");
    }
    if text_eq(extension, "cpp") {
        return Some("cpp");
    }
    if text_eq(extension, "hpp") {
        return Some("cpp");
    }
    if text_eq(extension, "cc") {
        return Some("cpp");
    }
    if text_eq(extension, "cxx") {
        return Some("cpp");
    }
    if text_eq(extension, "cs") {
        return Some("csharp");
    }
    if text_eq(extension, "php") {
        return Some("php");
    }
    if text_eq(extension, "rb") {
        return Some("ruby");
    }
    if text_eq(extension, "swift") {
        return Some("swift");
    }
    if text_eq(extension, "kt") {
        return Some("kotlin");
    }
    if text_eq(extension, "kts") {
        return Some("kotlin");
    }
    if text_eq(extension, "dart") {
        return Some("dart");
    }
    None
}

/// The last component of a `/`-separated path.
pub open spec fn file_name(p: Seq<char>) -> Seq<char>
    decreases p.len(),
{
    if p.len() == 0 {
        p
    } else if p.last() == '/' {
        Seq::empty()
    } else {
        file_name(p.drop_last()).push(p.last())
    }
}

/// The position of the last `.` in `s`.
pub open spec fn last_dot(s: Seq<char>) -> Option<int>
    decreases s.len(),
{
    if s.len() == 0 {
        None
    } else if s.last() == '.' {
        Some(s.len() - 1)
    } else {
        last_dot(s.drop_last())
    }
}

/// `Path::extension` of a file name: what follows its last `.`, unless that dot opens the
/// name or the name is `..`.
pub open spec fn name_extension(name: Seq<char>) -> Option<Seq<char>> {
    if name == seq!['.', '.'] {
        None
    } else {
        match last_dot(name) {
            Some(k) => if k > 0 {
                Some(name.skip(k + 1))
            } else {
                None
            },
            None => None,
        }
    }
}

/// The lower-case extension of a repository-relative path, if it has one.
pub open spec fn path_extension(p: Seq<char>) -> Option<Seq<char>> {
    match name_extension(file_name(p)) {
        Some(e) => Some(ascii_lowercase(e)),
        None => None,
    }
}

proof fn lemma_file_name_of_last_component(dir: Seq<char>, name: Seq<char>)
    requires
        forall|i: int| 0 <= i < name.len() ==> name[i] != '/',
    ensures
        file_name(dir + seq!['/'] + name) == name,
        file_name(name) == name,
    decreases name.len(),
{
    if name.len() == 0 {
        assert(dir + seq!['/'] + name =~= dir.push('/'));
    } else {
        let init = name.drop_last();
        lemma_file_name_of_last_component(dir, init);
        assert((dir + seq!['/'] + name).drop_last() =~= dir + seq!['/'] + init);
        assert((dir + seq!['/'] + name).last() == name.last());
        assert(init.push(name.last()) =~= name);
    }
}

proof fn lemma_last_dot_before(stem: Seq<char>, ext: Seq<char>)
    requires
        forall|i: int| 0 <= i < ext.len() ==> ext[i] != '.',
    ensures
        last_dot(stem + seq!['.'] + ext) == Some(stem.len() as int),
    decreases ext.len(),
{
    if ext.len() == 0 {
        assert(stem + seq!['.'] + ext =~= stem.push('.'));
    } else {
        lemma_last_dot_before(stem, ext.drop_last());
        assert((stem + seq!['.'] + ext).drop_last() =~= stem + seq!['.'] + ext.drop_last());
    }
}

/// The extension of a path is what follows the last `.` of its last component, in lower case:
/// for `dir/stem.ext` (or `stem.ext`) with a non-empty stem, it is `ext` in lower case, whatever
/// dots the stem holds.
pub proof fn lemma_path_extension_of(dir: Seq<char>, stem: Seq<char>, ext: Seq<char>)
    requires
        stem.len() > 0,
        stem + seq!['.'] + ext != seq!['.', '.'],
        forall|i: int| 0 <= i < stem.len() ==> stem[i] != '/',
        forall|i: int| 0 <= i < ext.len() ==> ext[i] != '/' && ext[i] != '.',
    ensures
        path_extension(dir + seq!['/'] + (stem + seq!['.'] + ext)) == Some(ascii_lowercase(ext)),
        path_extension(stem + seq!['.'] + ext) == Some(ascii_lowercase(ext)),
{
    let name = stem + seq!['.'] + ext;
    assert forall|i: int| 0 <= i < name.len() implies name[i] != '/' by {
        if i < stem.len() {
        } else if i > stem.len() {
            assert(name[i] == ext[i - stem.len() - 1]);
        }
    }
    lemma_file_name_of_last_component(dir, name);
    lemma_last_dot_before(stem, ext);
    assert(name.skip(stem.len() + 1int) =~= ext);
}

/// A last component without a dot, or whose only dot opens it, has no extension.
pub proof fn lemma_no_extension(dir: Seq<char>, name: Seq<char>)
    requires
        forall|i: int| 0 <= i < name.len() ==> name[i] != '/',
        forall|i: int| 0 < i < name.len() ==> name[i] != '.',
    ensures
        path_extension(dir + seq!['/'] + name) is None,
        path_extension(name) is None,
{
    lemma_file_name_of_last_component(dir, name);
    lemma_no_dot_after_first(name);
}

proof fn lemma_no_dot_after_first(name: Seq<char>)
    requires
        forall|i: int| 0 < i < name.len() ==> name[i] != '.',
    ensures
        last_dot(name) is None || last_dot(name) == Some(0int),
    decreases name.len(),
{
    if name.len() > 1 {
        assert(name.last() == name[name.len() - 1]);
        assert(name.last() != '.');
        let init = name.drop_last();
        assert forall|i: int| 0 < i < init.len() implies init[i] != '.' by {
            assert(init[i] == name[i]);
        }
        lemma_no_dot_after_first(init);
    } else if name.len() == 1 {
        assert(last_dot(name.drop_last()) is None);
    }
}

proof fn lemma_file_name_step(p: Seq<char>, j: int)
    requires
        0 < j <= p.len(),
        p[j - 1] != '/',
    ensures
        file_name(p.take(j)) + p.subrange(j, p.len() as int) == file_name(p.take(j - 1)) + p.subrange(
            j - 1,
            p.len() as int,
        ),
{
    assert(p.take(j).drop_last() =~= p.take(j - 1));
    assert(p.take(j).last() == p[j - 1]);
    assert(file_name(p.take(j - 1)).push(p[j - 1]) + p.subrange(j, p.len() as int) =~= file_name(
        p.take(j - 1),
    ) + p.subrange(j - 1, p.len() as int));
}

/// The lower-case extension of a repository-relative path, if it has one.
pub fn normalized_extension(path: &str) -> (r: Option<String>)
    ensures
        match r {
            Some(e) => path_extension(path@) == Some(e@),
            None => path_extension(path@) is None,
        },
{
    let n = path.unicode_len();
    let ghost p = path@;
    let mut j: usize = n;
    assert(p.subrange(n as int, n as int) =~= Seq::<char>::empty());
    assert(p.take(n as int) =~= p);
    loop
        invariant
            n == p.len(),
            p == path@,
            j <= n,
            file_name(p) == file_name(p.take(j as int)) + p.subrange(j as int, n as int),
        ensures
            j <= n,
            file_name(p) == file_name(p.take(j as int)) + p.subrange(j as int, n as int),
            j == 0 || p[j - 1] == '/',
        decreases j,
    {
        if j == 0 {
            break;
        }
        if path.get_char(j - 1) == '/' {
            break;
        }
        proof {
            lemma_file_name_step(p, j as int);
        }
        j = j - 1;
    }
    let ghost name = p.subrange(j as int, n as int);
    proof {
        if j > 0 {
            assert(p.take(j as int).last() == p[j - 1]);
        }
        assert(file_name(p.take(j as int)) =~= Seq::<char>::empty());
        assert(file_name(p) =~= name);
    }
    let name_len = n - j;
    if name_len == 2 && path.get_char(j) == '.' && path.get_char(j + 1) == '.' {
        assert(name =~= seq!['.', '.']);
        return None;
    }
    let mut k: usize = name_len;
    assert(name.take(name_len as int) =~= name);
    loop
        invariant
            name_len == name.len(),
            name == p.subrange(j as int, n as int),
            n == p.len(),
            p == path@,
            j + name_len == n,
            k <= name_len,
            last_dot(name) == last_dot(name.take(k as int)),
        ensures
            k <= name_len,
            last_dot(name) == last_dot(name.take(k as int)),
            k == 0 || name[k - 1] == '.',
        decreases k,
    {
        if k == 0 {
            break;
        }
        assert(name[k - 1] == p[j + k - 1]);
        if path.get_char(j + k - 1) == '.' {
            break;
        }
        assert(name.take(k as int).drop_last() =~= name.take(k - 1));
        k = k - 1;
    }
    if k == 0 {
        return None;
    }
    assert(name.take(k as int).last() == name[k - 1]);
    if k == 1 {
        return None;
    }
    let ext = path.substring_char(j + k, n);
    assert(ext@ =~= name.skip(k as int));
    Some(to_ascii_lowercase(ext))
}

/// An extension as given on the command line, made comparable: trimmed, without leading dots,
/// in lower case.
pub open spec fn normalized_request(e: Seq<char>) -> Seq<char> {
    ascii_lowercase(strip_leading(trim(e), '.'))
}

/// `e` is one of the requested extensions.
pub open spec fn is_requested(e: Seq<char>, extensions: Seq<Seq<char>>) -> bool {
    e.len() > 0 && exists|i: int| 0 <= i < extensions.len() && #[trigger] normalized_request(extensions[i]) == e
}

/// No extension is requested: the language list decides.
pub open spec fn none_requested(extensions: Seq<Seq<char>>) -> bool {
    forall|i: int| 0 <= i < extensions.len() ==> #[trigger] normalized_request(extensions[i]).len() == 0
}

/// Whether a path is sent: by its extension, against the requested extensions when there are
/// any, or else against the languages that the backend parses.
pub open spec fn is_eligible(p: Seq<char>, extensions: Seq<Seq<char>>) -> bool {
    match path_extension(p) {
        None => false,
        Some(e) => if none_requested(extensions) {
            codegraph_language(e) is Some
        } else {
            is_requested(e, extensions)
        },
    }
}

proof fn lemma_trim_start_len(s: Seq<char>)
    ensures
        trim_start(s).len() <= s.len(),
        s.len() > 0 && is_white_space(s[0]) ==> trim_start(s).len() < s.len(),
    decreases s.len(),
{
    if s.len() > 0 && is_white_space(s[0]) {
        lemma_trim_start_len(s.drop_first());
    }
}

proof fn lemma_trim_end_len(s: Seq<char>)
    ensures
        trim_end(s).len() <= s.len(),
        s.len() > 0 && is_white_space(s.last()) ==> trim_end(s).len() < s.len(),
    decreases s.len(),
{
    if s.len() > 0 && is_white_space(s.last()) {
        lemma_trim_end_len(s.drop_last());
    }
}

/// A text is its own trim exactly when it is empty or neither starts nor ends with whitespace.
proof fn lemma_trimmed(s: Seq<char>)
    ensures
        trim(s) == s <==> (s.len() == 0 || (!is_white_space(s[0]) && !is_white_space(s.last()))),
{
    lemma_trim_start_len(s);
    lemma_trim_end_len(trim_start(s));
    if s.len() > 0 && !is_white_space(s[0]) {
        lemma_trim_end_len(s);
    }
}

proof fn lemma_strip_dots_lower(s: Seq<char>)
    ensures
        strip_leading(ascii_lowercase(s), '.') == ascii_lowercase(strip_leading(s, '.')),
    decreases s.len(),
{
    if s.len() > 0 {
        assert(ascii_lowercase(s)[0] == ascii_lower(s[0]));
        assert(ascii_lowercase(s).drop_first() =~= ascii_lowercase(s.drop_first()));
        lemma_strip_dots_lower(s.drop_first());
    } else {
        assert(ascii_lowercase(s) =~= s);
    }
}

proof fn lemma_lowercase_idempotent(s: Seq<char>)
    ensures
        ascii_lowercase(ascii_lowercase(s)) == ascii_lowercase(s),
{
    assert forall|i: int| 0 <= i < s.len() implies ascii_lower(ascii_lower(s[i])) == ascii_lower(s[i]) by {
        let c = s[i];
        if 'A' <= c <= 'Z' {
            assert((((c as u32) + 32) as char) as u32 == (c as u32) + 32);
        }
    }
    assert(ascii_lowercase(ascii_lowercase(s)) =~= ascii_lowercase(s));
}

/// A requested extension means the same whatever its letter case and whether it is written
/// with a leading dot: `.MD`, `md` and `Md` request the same files.
pub proof fn lemma_requested_extension_spellings(e: Seq<char>)
    requires
        trim(e) == e,
    ensures
        normalized_request(seq!['.'] + e) == normalized_request(e),
        normalized_request(ascii_lowercase(e)) == normalized_request(e),
{
    lemma_trimmed(e);
    let dotted = seq!['.'] + e;
    assert(dotted[0] == '.');
    assert(dotted.last() == if e.len() > 0 { e.last() } else { '.' });
    lemma_trimmed(dotted);
    assert(dotted.drop_first() =~= e);
    let lower = ascii_lowercase(e);
    if e.len() > 0 {
        assert(lower[0] == ascii_lower(e[0]));
        assert(lower.last() == ascii_lower(e.last()));
    }
    lemma_trimmed(lower);
    lemma_strip_dots_lower(e);
    lemma_lowercase_idempotent(strip_leading(e, '.'));
}

/// With extensions requested, the request alone decides: a path is sent when its extension is
/// one of them, whether or not the backend parses that language ...
pub proof fn lemma_requested_selection(p: Seq<char>, extensions: Seq<Seq<char>>, i: int)
    requires
        0 <= i < extensions.len(),
        normalized_request(extensions[i]).len() > 0,
        path_extension(p) == Some(normalized_request(extensions[i])),
    ensures
        is_eligible(p, extensions),
{
}

/// ... and a path whose extension is none of them is not sent, even in a language the backend
/// parses.
pub proof fn lemma_unrequested_excluded(p: Seq<char>, extensions: Seq<Seq<char>>)
    requires
        !none_requested(extensions),
        forall|i: int| 0 <= i < extensions.len() ==> path_extension(p) != Some(normalized_request(#[trigger] extensions[i])),
    ensures
        !is_eligible(p, extensions),
{
}

/// A requested extension made comparable: trimmed, without leading dots, in lower case.
pub fn normalize_requested_extension(e: &str) -> (r: String)
    ensures
        r@ == normalized_request(e@),
{
    let t = trim_text(e);
    let s = strip_leading_char(t.as_str(), '.');
    to_ascii_lowercase(s.as_str())
}

/// The requested extensions that are not empty once normalized.
fn requested_extensions(extensions: &Vec<String>) -> (r: Vec<String>)
    ensures
        forall|e: Seq<char>| views(r@).contains(e) <==> is_requested(e, views(extensions@)),
        r@.len() == 0 <==> none_requested(views(extensions@)),
{
    let ghost exts = views(extensions@);
    let mut out: Vec<String> = Vec::new();
    let mut i: usize = 0;
    while i < extensions.len()
        invariant
            i <= extensions.len(),
            exts == views(extensions@),
            forall|e: Seq<char>| views(out@).contains(e) <==> (e.len() > 0 && exists|k: int| 0 <= k < i && #[trigger] normalized_request(exts[k]) == e),
            out@.len() == 0 <==> (forall|k: int| 0 <= k < i ==> #[trigger] normalized_request(exts[k]).len() == 0),
        decreases extensions.len() - i,
    {
        let e = normalize_requested_extension(extensions[i].as_str());
        assert(exts[i as int] == extensions@[i as int]@);
        let ghost before = views(out@);
        if e.unicode_len() > 0 {
            out.push(e);
            assert(views(out@) =~= before.push(e@));
            assert forall|x: Seq<char>| views(out@).contains(x) <==> (x.len() > 0 && exists|k: int| 0 <= k < i + 1 && #[trigger] normalized_request(exts[k]) == x) by {
                if x == e@ {
                    assert(views(out@)[before.len() as int] == x);
                    assert(normalized_request(exts[i as int]) == x);
                }
                if views(out@).contains(x) && x != e@ {
                    let m = choose|m: int| 0 <= m < views(out@).len() && views(out@)[m] == x;
                    assert(before[m] == x);
                }
                if before.contains(x) {
                    let m = choose|m: int| 0 <= m < before.len() && before[m] == x;
                    assert(views(out@)[m] == x);
                }
            }
        } else {
            assert forall|x: Seq<char>| views(out@).contains(x) <==> (x.len() > 0 && exists|k: int| 0 <= k < i + 1 && #[trigger] normalized_request(exts[k]) == x) by {
                if x.len() > 0 && exists|k: int| 0 <= k < i + 1 && #[trigger] normalized_request(exts[k]) == x {
                    let k = choose|k: int| 0 <= k < i + 1 && #[trigger] normalized_request(exts[k]) == x;
                    assert(k != i);
                }
            }
        }
        i = i + 1;
    }
    out
}

fn contains_text(list: &Vec<String>, e: &str) -> (r: bool)
    ensures
        r == views(list@).contains(e@),
{
    let mut i: usize = 0;
    while i < list.len()
        invariant
            i <= list.len(),
            forall|k: int| 0 <= k < i ==> views(list@)[k] != e@,
        decreases list.len() - i,
    {
        if text_eq(list[i].as_str(), e) {
            assert(views(list@)[i as int] == e@);
            return true;
        }
        i = i + 1;
    }
    false
}

/// Whether a path is sent, given the normalized requested extensions.
fn path_is_eligible(path: &str, requested: &Vec<String>, Ghost(extensions): Ghost<Seq<Seq<char>>>) -> (r: bool)
    requires
        forall|e: Seq<char>| views(requested@).contains(e) <==> is_requested(e, extensions),
        requested@.len() == 0 <==> none_requested(extensions),
    ensures
        r == is_eligible(path@, extensions),
{
    match normalized_extension(path) {
        None => false,
        Some(e) => {
            if requested.len() == 0 {
                language_for_extension(e.as_str()).is_some()
            } else {
                contains_text(requested, e.as_str())
            }
        },
    }
}

/// Whether a compile request carries the file at `path`, given the requested extensions.
pub fn is_eligible_path(path: &str, extensions: &Vec<String>) -> (r: bool)
    ensures
        r == is_eligible(path@, views(extensions@)),
{
    let requested = requested_extensions(extensions);
    path_is_eligible(path, &requested, Ghost(views(extensions@)))
}

/// The paths of the inventory that a compile request carries: those whose extension is
/// requested (or, with no extension requested, whose language the backend parses), in path
/// order, each once.
pub fn select_source_paths(paths: &Vec<String>, extensions: &Vec<String>) -> (r: Vec<String>)
    ensures
        strictly_ascending(views(r@)),
        forall|p: Seq<char>|
            views(r@).contains(p) <==> (views(paths@).contains(p) && is_eligible(p, views(extensions@))),
{
    let ghost exts = views(extensions@);
    let requested = requested_extensions(extensions);
    let mut out: Vec<String> = Vec::new();
    let mut i: usize = 0;
    while i < paths.len()
        invariant
            i <= paths.len(),
            exts == views(extensions@),
            forall|e: Seq<char>| views(requested@).contains(e) <==> is_requested(e, exts),
            requested@.len() == 0 <==> none_requested(exts),
            strictly_ascending(views(out@)),
            forall|p: Seq<char>|
                #[trigger] views(out@).contains(p) <==> (views(paths@).subrange(0, i as int).contains(p)
                    && is_eligible(p, exts)),
        decreases paths.len() - i,
    {
        let ghost before = views(out@);
        let ghost seen = views(paths@).subrange(0, i as int);
        let ghost seen_next = views(paths@).subrange(0, i + 1);
        assert(seen_next =~= seen.push(paths@[i as int]@));
        assert forall|q: Seq<char>| #[trigger] before.contains(q) <==> (seen.contains(q) && is_eligible(q, exts)) by {
            assert(views(out@).contains(q) <==> (seen.contains(q) && is_eligible(q, exts)));
        }
        let eligible = path_is_eligible(paths[i].as_str(), &requested, Ghost(exts));
        if eligible {
            let p = paths[i].clone();
            insert_path(&mut out, p);
        }
        assert forall|q: Seq<char>| #[trigger] views(out@).contains(q) <==> (before.contains(q) || (
        eligible && q == paths@[i as int]@)) by {}
        assert forall|q: Seq<char>| views(out@).contains(q) <==> (seen_next.contains(q) && is_eligible(q, exts)) by {
            if seen_next.contains(q) {
                let m = choose|m: int| 0 <= m < seen_next.len() && seen_next[m] == q;
                if m < i {
                    assert(seen[m] == q);
                }
            }
            if seen.contains(q) {
                let m = choose|m: int| 0 <= m < seen.len() && seen[m] == q;
                assert(seen_next[m] == q);
            }
            assert(seen_next[i as int] == paths@[i as int]@);
            assert(before.contains(q) <==> (seen.contains(q) && is_eligible(q, exts)));
            assert(views(out@).contains(q) <==> (before.contains(q) || (eligible && q == paths@[i as int]@)));
        }
        i = i + 1;
    }
    assert(views(paths@).subrange(0, paths.len() as int) =~= views(paths@));
    out
}

// ---------------------------------------------------------------------------
// The git inventory
// ---------------------------------------------------------------------------

/// Reading NUL-separated bytes from the left: the non-empty fields ended so far, and the field
/// being read.
pub open spec fn fields_state(b: Seq<u8>) -> (Seq<Seq<u8>>, Seq<u8>)
    decreases b.len(),
{
    if b.len() == 0 {
        (Seq::empty(), Seq::empty())
    } else {
        let (done, cur) = fields_state(b.drop_last());
        if b.last() == 0 {
            (if cur.len() > 0 {
                done.push(cur)
            } else {
                done
            }, Seq::empty())
        } else {
            (done, cur.push(b.last()))
        }
    }
}

/// The non-empty NUL-separated fields of `git ls-files -z` output, in order.
pub open spec fn nul_fields(b: Seq<u8>) -> Seq<Seq<u8>> {
    let (done, cur) = fields_state(b);
    if cur.len() > 0 {
        done.push(cur)
    } else {
        done
    }
}

/// A path that leaves the repository root: absolute, or with a `..` component.
pub open spec fn escapes_root(p: Seq<char>) -> bool {
    ||| (p.len() > 0 && p[0] == '/')
    ||| exists|i: int|
        0 <= i && i + 2 <= p.len() && #[trigger] p[i] == '.' && p[i + 1] == '.' && (i == 0 || p[i
            - 1] == '/') && (i + 2 == p.len() || p[i + 2] == '/')
}

/// A path leaves the repository root when it is absolute or when one of its components is
/// `..`, wherever that component stands.
pub proof fn lemma_escaping_paths(before: Seq<char>, after: Seq<char>)
    ensures
        escapes_root(seq!['/'] + after),
        escapes_root(seq!['.', '.']),
        escapes_root(seq!['.', '.', '/'] + after),
        escapes_root(before + seq!['/', '.', '.']),
        escapes_root(before + seq!['/', '.', '.', '/'] + after),
{
    let p1 = seq!['/'] + after;
    assert(p1[0] == '/');
    let p2 = seq!['.', '.'];
    assert(p2[0] == '.' && p2[1] == '.');
    let p3 = seq!['.', '.', '/'] + after;
    assert(p3[0] == '.' && p3[1] == '.' && p3[2] == '/');
    let p4 = before + seq!['/', '.', '.'];
    let k = before.len() as int;
    assert(p4[k + 1] == '.' && p4[k + 2] == '.' && p4[k] == '/');
    let p5 = before + seq!['/', '.', '.', '/'] + after;
    assert(p5[k + 1] == '.' && p5[k + 2] == '.' && p5[k] == '/' && p5[k + 3] == '/');
}

/// A relative path without `..` components stays inside the root; in particular one in which no
/// `.` follows another.
pub proof fn lemma_plain_paths_stay(p: Seq<char>)
    requires
        p.len() == 0 || p[0] != '/',
        forall|i: int| 0 <= i < p.len() - 1 ==> !(#[trigger] p[i] == '.' && p[i + 1] == '.'),
    ensures
        !escapes_root(p),
{
}

/// Reading the inventory fields in order: the repository-relative paths, or the first fault,
/// `None` for a field that is not UTF-8 and `Some(path)` for a path that leaves the root.
pub open spec fn inventory_paths(fields: Seq<Seq<u8>>) -> Result<Seq<Seq<char>>, Option<Seq<char>>>
    decreases fields.len(),
{
    if fields.len() == 0 {
        Ok(Seq::empty())
    } else {
        match inventory_paths(fields.drop_last()) {
            Err(e) => Err(e),
            Ok(paths) => {
                let f = fields.last();
                if !valid_utf8(f) {
                    Err(None)
                } else if escapes_root(decode_utf8(f)) {
                    Err(Some(decode_utf8(f)))
                } else {
                    Ok(paths.push(decode_utf8(f)))
                }
            },
        }
    }
}

/// Why the git inventory could not be read.
#[derive(Debug, Clone, PartialEq, Eq)]
pub enum InventoryError {
    /// Git reported a path that is not UTF-8.
    NotUtf8,
    /// Git reported a path outside the repository root.
    OutsideRoot { path: String },
}

impl InventoryError {
    /// The message the command prints for this error.
    pub fn message(&self) -> (r: String)
        ensures
            r@ == match self {
                InventoryError::NotUtf8 => "git reported a path that is not valid UTF-8"@,
                InventoryError::OutsideRoot { path } => "git reported path outside repo-root: "@
                    + debug_quoted_path(path@),
            },
    {
        match self {
            InventoryError::NotUtf8 => String::from_str("git reported a path that is not valid UTF-8"),
            InventoryError::OutsideRoot { path } => {
                let mut m = String::from_str("git reported path outside repo-root: ");
                let q = debug_quote_path(path.as_str());
                m.append(q.as_str());
                m
            },
        }
    }
}

/// `std::str::from_utf8`, the text copied into a `String`. Stated with vstd's model of UTF-8:
/// it succeeds exactly on valid UTF-8 and gives the decoded characters.
#[verifier::external_body]
fn utf8_text(bytes: &[u8]) -> (r: Option<String>)
    ensures
        r is Some <==> valid_utf8(bytes@),
        r matches Some(s) ==> s@ == decode_utf8(bytes@),
{
    match std::str::from_utf8(bytes) {
        Ok(s) => Some(s.to_string()),
        Err(_) => None,
    }
}

/// The views of a list of byte vectors.
pub open spec fn byte_views(v: Seq<Vec<u8>>) -> Seq<Seq<u8>> {
    v.map_values(|b: Vec<u8>| b@)
}

/// Splits `git ls-files -z` output at NUL bytes, dropping empty fields.
pub fn split_nul_fields(bytes: &[u8]) -> (r: Vec<Vec<u8>>)
    ensures
        byte_views(r@) == nul_fields(bytes@),
{
    let mut done: Vec<Vec<u8>> = Vec::new();
    let mut cur: Vec<u8> = Vec::new();
    let mut i: usize = 0;
    assert(byte_views(done@) =~= Seq::<Seq<u8>>::empty());
    while i < bytes.len()
        invariant
            i <= bytes.len(),
            fields_state(bytes@.subrange(0, i as int)) == (byte_views(done@), cur@),
        decreases bytes.len() - i,
    {
        let b = bytes[i];
        let ghost prefix = bytes@.subrange(0, i + 1);
        assert(prefix.drop_last() =~= bytes@.subrange(0, i as int));
        assert(prefix.last() == b);
        if b == 0 {
            if cur.len() > 0 {
                let ghost before = byte_views(done@);
                let field = cur;
                done.push(field);
                assert(byte_views(done@) =~= before.push(field@));
            }
            cur = Vec::new();
        } else {
            cur.push(b);
        }
        i = i + 1;
    }
    assert(bytes@.subrange(0, bytes.len() as int) =~= bytes@);
    if cur.len() > 0 {
        let ghost before = byte_views(done@);
        let field = cur;
        done.push(field);
        assert(byte_views(done@) =~= before.push(field@));
    }
    done
}

/// Whether a repository-relative path leaves the root.
pub fn path_escapes_root(p: &str) -> (r: bool)
    ensures
        r == escapes_root(p@),
{
    let n = p.unicode_len();
    if n > 0 && p.get_char(0) == '/' {
        return true;
    }
    let mut i: usize = 0;
    while n >= 2 && i <= n - 2
        invariant
            n == p@.len(),
            i <= n,
            !(n > 0 && p@[0] == '/'),
            forall|k: int|
                0 <= k < i ==> !(k + 2 <= p@.len() && #[trigger] p@[k] == '.' && p@[k + 1] == '.'
                    && (k == 0 || p@[k - 1] == '/') && (k + 2 == p@.len() || p@[k + 2] == '/')),
        decreases n - i,
    {
        if p.get_char(i) == '.' && p.get_char(i + 1) == '.' && (i == 0 || p.get_char(i - 1) == '/')
            && (i + 2 == n || p.get_char(i + 2) == '/') {
            return true;
        }
        i = i + 1;
    }
    false
}

/// Every path read from the git inventory is repository-relative: none is absolute and none
/// climbs out of the root through a `..` component.
pub proof fn lemma_inventory_stays_in_root(fields: Seq<Seq<u8>>)
    ensures
        inventory_paths(fields) matches Ok(paths) ==> forall|i: int|
            0 <= i < paths.len() ==> !escapes_root(#[trigger] paths[i]),
    decreases fields.len(),
{
    if fields.len() > 0 {
        lemma_inventory_stays_in_root(fields.drop_last());
    }
}

proof fn lemma_inventory_error_persists(fs: Seq<Seq<u8>>, k: int)
    requires
        0 <= k <= fs.len(),
        inventory_paths(fs.subrange(0, k)) is Err,
    ensures
        inventory_paths(fs) == inventory_paths(fs.subrange(0, k)),
    decreases fs.len() - k,
{
    if k < fs.len() {
        assert(fs.subrange(0, k + 1).drop_last() =~= fs.subrange(0, k));
        lemma_inventory_error_persists(fs, k + 1);
    } else {
        assert(fs.subrange(0, k) =~= fs);
    }
}

/// Reads the output of `git ls-files -z --cached --others --exclude-standard`: the reported
/// paths in order, or the first reported path that is not UTF-8 or leaves the repository.
pub fn parse_git_inventory(stdout: &[u8]) -> (r: Result<Vec<String>, InventoryError>)
    ensures
        match r {
            Ok(paths) => inventory_paths(nul_fields(stdout@)) == Ok::<Seq<Seq<char>>, Option<Seq<char>>>(views(paths@)),
            Err(InventoryError::NotUtf8) => inventory_paths(nul_fields(stdout@)) == Err::<Seq<Seq<char>>, Option<Seq<char>>>(None::<Seq<char>>),
            Err(InventoryError::OutsideRoot { path }) => inventory_paths(nul_fields(stdout@)) == Err::<Seq<Seq<char>>, Option<Seq<char>>>(Some(path@)),
        },
{
    let fields = split_nul_fields(stdout);
    let ghost fs = byte_views(fields@);
    let mut out: Vec<String> = Vec::new();
    let mut i: usize = 0;
    assert(fs.subrange(0, 0) =~= Seq::<Seq<u8>>::empty());
    assert(views(out@) =~= Seq::<Seq<char>>::empty());
    while i < fields.len()
        invariant
            i <= fields.len(),
            fs == byte_views(fields@),
            fs == nul_fields(stdout@),
            inventory_paths(fs.subrange(0, i as int)) == Ok::<Seq<Seq<char>>, Option<Seq<char>>>(views(out@)),
        decreases fields.len() - i,
    {
        let ghost prefix = fs.subrange(0, i + 1);
        assert(prefix.drop_last() =~= fs.subrange(0, i as int));
        assert(prefix.last() == fields@[i as int]@);
        match utf8_text(fields[i].as_slice()) {
            None => {
                proof {
                    lemma_inventory_error_persists(fs, i + 1);
                }
                return Err(InventoryError::NotUtf8);
            },
            Some(text) => {
                if path_escapes_root(text.as_str()) {
                    proof {
                        lemma_inventory_error_persists(fs, i + 1);
                    }
                    return Err(InventoryError::OutsideRoot { path: text });
                }
                let ghost before = views(out@);
                out.push(text);
                assert(views(out@) =~= before.push(text@));
            },
        }
        i = i + 1;
    }
    assert(fs.subrange(0, fields.len() as int) =~= fs);
    Ok(out)
}

/// The payload of one selected source file: its path, its content, and its language, which is
/// the backend's name for the extension where there is one, else the extension itself.
pub fn source_file_payload(path: String, content: String) -> (r: SourceFilePayload)
    requires
        path_extension(path@) is Some,
    ensures
        r.path == path,
        r.content == content,
        r.language@ == match codegraph_language(path_extension(path@)->0) {
            Some(l) => l,
            None => path_extension(path@)->0,
        },
{
    let ext = match normalized_extension(path.as_str()) {
        Some(e) => e,
        None => String::new(),
    };
    let language = match language_for_extension(ext.as_str()) {
        Some(l) => String::from_str(l),
        None => ext,
    };
    SourceFilePayload { path, content, language }
}

} // verus!
