//! Character-level text operations with their meaning stated over `Seq<char>`.

use vstd::prelude::*;

verus! {

// ---------------------------------------------------------------------------
// Whitespace, blankness and trimming
// ---------------------------------------------------------------------------

/// The Unicode `White_Space` property, which is what `char::is_whitespace` tests.
pub open spec fn is_white_space(c: char) -> bool {
    let u = c as u32;
    ||| 0x09 <= u <= 0x0d
    ||| u == 0x20
    ||| u == 0x85
    ||| u == 0xa0
    ||| u == 0x1680
    ||| 0x2000 <= u <= 0x200a
    ||| u == 0x2028
    ||| u == 0x2029
    ||| u == 0x202f
    ||| u == 0x205f
    ||| u == 0x3000
}

/// A text is blank when it holds nothing but whitespace (`s.trim().is_empty()`).
pub open spec fn is_blank(s: Seq<char>) -> bool {
    forall|i: int| 0 <= i < s.len() ==> is_white_space(#[trigger] s[i])
}

/// `s` without its leading whitespace.
pub open spec fn trim_start(s: Seq<char>) -> Seq<char>
    decreases s.len(),
{
    if s.len() > 0 && is_white_space(s[0]) {
        trim_start(s.drop_first())
    } else {
        s
    }
}

/// `s` without its trailing whitespace.
pub open spec fn trim_end(s: Seq<char>) -> Seq<char>
    decreases s.len(),
{
    if s.len() > 0 && is_white_space(s.last()) {
        trim_end(s.drop_last())
    } else {
        s
    }
}

/// `s` without leading and trailing whitespace (`str::trim`).
pub open spec fn trim(s: Seq<char>) -> Seq<char> {
    trim_end(trim_start(s))
}

/// `s` without every leading occurrence of `c` (`str::trim_start_matches` with a char).
pub open spec fn strip_leading(s: Seq<char>, c: char) -> Seq<char>
    decreases s.len(),
{
    if s.len() > 0 && s[0] == c {
        strip_leading(s.drop_first(), c)
    } else {
        s
    }
}

/// `s` without every trailing occurrence of `c` (`str::trim_end_matches` with a char).
pub open spec fn strip_trailing(s: Seq<char>, c: char) -> Seq<char>
    decreases s.len(),
{
    if s.len() > 0 && s.last() == c {
        strip_trailing(s.drop_last(), c)
    } else {
        s
    }
}

/// ASCII upper-case letters mapped to lower case, every other character kept.
pub open spec fn ascii_lower(c: char) -> char {
    if 'A' <= c <= 'Z' {
        ((c as u32) + 32) as char
    } else {
        c
    }
}

/// `str::to_ascii_lowercase` on a whole text.
pub open spec fn ascii_lowercase(s: Seq<char>) -> Seq<char> {
    s.map_values(|c: char| ascii_lower(c))
}

pub fn char_is_white_space(c: char) -> (r: bool)
    ensures
        r == is_white_space(c),
{
    let u = c as u32;
    (0x09 <= u && u <= 0x0d) || u == 0x20 || u == 0x85 || u == 0xa0 || u == 0x1680 || (0x2000
        <= u && u <= 0x200a) || u == 0x2028 || u == 0x2029 || u == 0x202f || u == 0x205f || u
        == 0x3000
}

/// Whether `s` holds nothing but whitespace.
pub fn text_is_blank(s: &str) -> (r: bool)
    ensures
        r == is_blank(s@),
{
    let n = s.unicode_len();
    let mut i: usize = 0;
    while i < n
        invariant
            n == s@.len(),
            i <= n,
            forall|j: int| 0 <= j < i ==> is_white_space(#[trigger] s@[j]),
        decreases n - i,
    {
        if !char_is_white_space(s.get_char(i)) {
            return false;
        }
        i = i + 1;
    }
    true
}

proof fn lemma_trim_start_step(s: Seq<char>, i: int)
    requires
        0 <= i < s.len(),
        is_white_space(s[i]),
    ensures
        trim_start(s.subrange(i, s.len() as int)) == trim_start(s.subrange(i + 1, s.len() as int)),
{
    assert(s.subrange(i, s.len() as int).drop_first() =~= s.subrange(i + 1, s.len() as int));
}

proof fn lemma_trim_end_step(s: Seq<char>, j: int)
    requires
        0 < j <= s.len(),
        is_white_space(s[j - 1]),
    ensures
        trim_end(s.subrange(0, j)) == trim_end(s.subrange(0, j - 1)),
{
    assert(s.subrange(0, j).drop_last() =~= s.subrange(0, j - 1));
}

/// `str::trim`: the text without leading and trailing whitespace.
pub fn trim_text(s: &str) -> (r: String)
    ensures
        r@ == trim(s@),
{
    let n = s.unicode_len();
    let mut i: usize = 0;
    assert(s@.subrange(0, n as int) =~= s@);
    loop
        invariant
            n == s@.len(),
            i <= n,
            trim_start(s@) == trim_start(s@.subrange(i as int, n as int)),
        ensures
            i <= n,
            trim_start(s@) == trim_start(s@.subrange(i as int, n as int)),
            i == n || !is_white_space(s@[i as int]),
        decreases n - i,
    {
        if i == n {
            break;
        }
        if !char_is_white_space(s.get_char(i)) {
            break;
        }
        proof {
            lemma_trim_start_step(s@, i as int);
        }
        i = i + 1;
    }
    let ghost rest = s@.subrange(i as int, n as int);
    assert(trim_start(rest) == rest) by {
        if i < n {
            assert(rest[0] == s@[i as int]);
        }
    }
    let mut j: usize = n;
    assert(rest.subrange(0, (n - i) as int) =~= rest);
    loop
        invariant
            n == s@.len(),
            i <= j <= n,
            rest == s@.subrange(i as int, n as int),
            trim_end(rest) == trim_end(rest.subrange(0, (j - i) as int)),
        ensures
            i <= j <= n,
            trim_end(rest) == trim_end(rest.subrange(0, (j - i) as int)),
            j == i || !is_white_space(s@[j - 1]),
        decreases j,
    {
        if j == i {
            break;
        }
        if !char_is_white_space(s.get_char(j - 1)) {
            break;
        }
        proof {
            lemma_trim_end_step(rest, (j - i) as int);
            assert(rest.subrange(0, (j - i - 1) as int) =~= rest.subrange(0, (j - 1 - i) as int));
        }
        j = j - 1;
    }
    assert(rest.subrange(0, (j - i) as int) =~= s@.subrange(i as int, j as int));
    assert(trim_end(s@.subrange(i as int, j as int)) == s@.subrange(i as int, j as int)) by {
        if j > i {
            assert(s@.subrange(i as int, j as int).last() == s@[j - 1]);
        }
    }
    let t = s.substring_char(i, j);
    String::from_str(t)
}

/// Appends one character to a string (`String::push`).
#[verifier::external_body]
pub(crate) fn push_char(s: &mut String, c: char)
    ensures
        final(s)@ == old(s)@.push(c),
{
    s.push(c);
}

pub fn ascii_lower_char(c: char) -> (r: char)
    ensures
        r == ascii_lower(c),
{
    if 'A' <= c && c <= 'Z' {
        let b = (c as u8) + 32;
        b as char
    } else {
        c
    }
}

/// `str::to_ascii_lowercase`.
pub fn to_ascii_lowercase(s: &str) -> (r: String)
    ensures
        r@ == ascii_lowercase(s@),
{
    let n = s.unicode_len();
    let mut out = String::new();
    let mut i: usize = 0;
    while i < n
        invariant
            n == s@.len(),
            i <= n,
            out@ == ascii_lowercase(s@.subrange(0, i as int)),
        decreases n - i,
    {
        let c = s.get_char(i);
        push_char(&mut out, ascii_lower_char(c));
        assert(ascii_lowercase(s@.subrange(0, i + 1)) =~= ascii_lowercase(s@.subrange(0, i as int)).push(ascii_lower(c)));
        i = i + 1;
    }
    assert(s@.subrange(0, n as int) =~= s@);
    out
}

proof fn lemma_strip_leading_step(s: Seq<char>, i: int, c: char)
    requires
        0 <= i < s.len(),
        s[i] == c,
    ensures
        strip_leading(s.subrange(i, s.len() as int), c) == strip_leading(s.subrange(i + 1, s.len() as int), c),
{
    assert(s.subrange(i, s.len() as int).drop_first() =~= s.subrange(i + 1, s.len() as int));
}

/// `str::trim_start_matches(c)` for a single character `c`.
pub fn strip_leading_char(s: &str, c: char) -> (r: String)
    ensures
        r@ == strip_leading(s@, c),
{
    let n = s.unicode_len();
    let mut i: usize = 0;
    assert(s@.subrange(0, n as int) =~= s@);
    loop
        invariant
            n == s@.len(),
            i <= n,
            strip_leading(s@, c) == strip_leading(s@.subrange(i as int, n as int), c),
        ensures
            i <= n,
            strip_leading(s@, c) == strip_leading(s@.subrange(i as int, n as int), c),
            i == n || s@[i as int] != c,
        decreases n - i,
    {
        if i == n {
            break;
        }
        if s.get_char(i) != c {
            break;
        }
        proof {
            lemma_strip_leading_step(s@, i as int, c);
        }
        i = i + 1;
    }
    proof {
        let rest = s@.subrange(i as int, n as int);
        if i < n {
            assert(rest[0] == s@[i as int]);
        }
    }
    String::from_str(s.substring_char(i, n))
}

/// `str::trim_end_matches(c)` for a single character `c`.
pub fn strip_trailing_char(s: &str, c: char) -> (r: String)
    ensures
        r@ == strip_trailing(s@, c),
{
    let n = s.unicode_len();
    let mut j: usize = n;
    assert(s@.subrange(0, n as int) =~= s@);
    loop
        invariant
            n == s@.len(),
            j <= n,
            strip_trailing(s@, c) == strip_trailing(s@.subrange(0, j as int), c),
        ensures
            j <= n,
            strip_trailing(s@, c) == strip_trailing(s@.subrange(0, j as int), c),
            j == 0 || s@[j - 1] != c,
        decreases j,
    {
        if j == 0 {
            break;
        }
        if s.get_char(j - 1) != c {
            break;
        }
        assert(s@.subrange(0, j as int).drop_last() =~= s@.subrange(0, j - 1));
        j = j - 1;
    }
    proof {
        if j > 0 {
            assert(s@.subrange(0, j as int).last() == s@[j - 1]);
        }
    }
    String::from_str(s.substring_char(0, j))
}

/// Whether two texts are equal.
pub fn text_eq(a: &str, b: &str) -> (r: bool)
    ensures
        r == (a@ == b@),
{
    let n = a.unicode_len();
    let m = b.unicode_len();
    if n != m {
        return false;
    }
    let mut i: usize = 0;
    while i < n
        invariant
            n == a@.len(),
            m == b@.len(),
            n == m,
            i <= n,
            forall|j: int| 0 <= j < i ==> a@[j] == b@[j],
        decreases n - i,
    {
        if a.get_char(i) != b.get_char(i) {
            return false;
        }
        i = i + 1;
    }
    assert(a@ =~= b@);
    true
}

// ---------------------------------------------------------------------------
// Lines, joining, quoting
// ---------------------------------------------------------------------------

/// The texts of a sequence of strings.
pub open spec fn views(v: Seq<String>) -> Seq<Seq<char>> {
    v.map_values(|s: String| s@)
}

/// A line without the `\r` of a `\r\n` ending.
pub open spec fn strip_cr(l: Seq<char>) -> Seq<char> {
    if l.len() > 0 && l.last() == '\r' {
        l.drop_last()
    } else {
        l
    }
}

/// Reading `s` from the left: the lines ended so far, and the line being read.
pub open spec fn lines_state(s: Seq<char>) -> (Seq<Seq<char>>, Seq<char>)
    decreases s.len(),
{
    if s.len() == 0 {
        (Seq::empty(), Seq::empty())
    } else {
        let (done, cur) = lines_state(s.drop_last());
        if s.last() == '\n' {
            (done.push(strip_cr(cur)), Seq::empty())
        } else {
            (done, cur.push(s.last()))
        }
    }
}

/// `str::lines`: the text cut at each `\n`, a `\r` before the `\n` dropped, and no empty
/// line after a final `\n`.
pub open spec fn text_lines(s: Seq<char>) -> Seq<Seq<char>> {
    let (done, cur) = lines_state(s);
    if cur.len() > 0 {
        done.push(cur)
    } else {
        done
    }
}

/// `parts` joined with `sep` between each two of them (`[String]::join`).
pub open spec fn join(parts: Seq<Seq<char>>, sep: Seq<char>) -> Seq<char>
    decreases parts.len(),
{
    if parts.len() == 0 {
        Seq::empty()
    } else if parts.len() == 1 {
        parts[0]
    } else {
        join(parts.drop_last(), sep) + sep + parts.last()
    }
}

/// What `format!("{:?}", s)` writes for a string `s`: the text in double quotes, with the
/// escapes that `str`'s `Debug` form uses.
pub uninterp spec fn debug_quoted(s: Seq<char>) -> Seq<char>;

/// The `Debug` form of a list of strings: `[` then the quoted items separated by `, `, then `]`.
pub open spec fn debug_list(items: Seq<Seq<char>>) -> Seq<char> {
    seq!['['] + join(items.map_values(|t: Seq<char>| debug_quoted(t)), seq![',', ' ']) + seq![']']
}

/// `format!("{:?}", s)` for a string. The contract names the result: the quoting and escaping
/// rules of `str`'s `Debug` form are not written out here.
#[verifier::external_body]
pub(crate) fn debug_quote(s: &str) -> (r: String)
    ensures
        r@ == debug_quoted(s@),
{
    format!("{:?}", s)
}

/// What `format!("{:?}", std::path::Path::new(s))` writes for a path given as text: the text in
/// double quotes, with the escapes that `Path`'s `Debug` form uses.
pub uninterp spec fn debug_quoted_path(s: Seq<char>) -> Seq<char>;

/// `format!("{:?}", std::path::Path::new(s))`. The contract names the result: the escaping
/// rules of `Path`'s `Debug` form are not written out here.
#[verifier::external_body]
pub(crate) fn debug_quote_path(s: &str) -> (r: String)
    ensures
        r@ == debug_quoted_path(s@),
{
    format!("{:?}", std::path::Path::new(s))
}

proof fn lemma_views_push(v: Seq<String>, x: String)
    ensures
        views(v.push(x)) == views(v).push(x@),
{
    assert(views(v.push(x)) =~= views(v).push(x@));
}

/// `str::lines`, each line as an owned string.
pub fn split_lines(s: &str) -> (r: Vec<String>)
    ensures
        views(r@) == text_lines(s@),
{
    let n = s.unicode_len();
    let mut done: Vec<String> = Vec::new();
    let mut cur = String::new();
    let mut cur_len: usize = 0;
    let mut i: usize = 0;
    assert(views(done@) =~= Seq::<Seq<char>>::empty());
    while i < n
        invariant
            n == s@.len(),
            i <= n,
            cur_len == cur@.len(),
            cur_len <= i,
            lines_state(s@.subrange(0, i as int)) == (views(done@), cur@),
        decreases n - i,
    {
        let c = s.get_char(i);
        let ghost prefix = s@.subrange(0, i + 1);
        assert(prefix.drop_last() =~= s@.subrange(0, i as int));
        assert(prefix.last() == c);
        if c == '\n' {
            let line = if cur_len > 0 && cur.as_str().get_char(cur_len - 1) == '\r' {
                String::from_str(cur.as_str().substring_char(0, cur_len - 1))
            } else {
                cur
            };
            proof {
                assert(line@ == strip_cr(cur@)) by {
                    if cur_len > 0 && cur@.last() == '\r' {
                        assert(cur@.subrange(0, cur_len - 1) =~= cur@.drop_last());
                    }
                }
                lemma_views_push(done@, line);
            }
            done.push(line);
            cur = String::new();
            cur_len = 0;
        } else {
            push_char(&mut cur, c);
            cur_len = cur_len + 1;
        }
        i = i + 1;
    }
    assert(s@.subrange(0, n as int) =~= s@);
    if cur_len > 0 {
        proof {
            lemma_views_push(done@, cur);
        }
        done.push(cur);
    }
    done
}

/// `[String]::join`: the parts with `sep` between each two of them.
pub fn join_strings(parts: &Vec<String>, sep: &str) -> (r: String)
    ensures
        r@ == join(views(parts@), sep@),
{
    let mut out = String::new();
    let mut i: usize = 0;
    while i < parts.len()
        invariant
            i <= parts.len(),
            out@ == join(views(parts@).subrange(0, i as int), sep@),
        decreases parts.len() - i,
    {
        let ghost before = views(parts@).subrange(0, i as int);
        let ghost after = views(parts@).subrange(0, i + 1);
        assert(after.drop_last() =~= before);
        assert(after.last() == parts@[i as int]@);
        if i > 0 {
            out.append(sep);
        } else {
            assert(before =~= Seq::<Seq<char>>::empty());
        }
        out.append(parts[i].as_str());
        i = i + 1;
    }
    assert(views(parts@).subrange(0, parts.len() as int) =~= views(parts@));
    out
}

/// The `Debug` form of a list of strings, as `format!("{:?}", list)` writes it.
pub fn debug_string_list(items: &Vec<String>) -> (r: String)
    ensures
        r@ == debug_list(views(items@)),
{
    let mut quoted: Vec<String> = Vec::new();
    let mut i: usize = 0;
    while i < items.len()
        invariant
            i <= items.len(),
            views(quoted@) == views(items@).subrange(0, i as int).map_values(
                |t: Seq<char>| debug_quoted(t),
            ),
        decreases items.len() - i,
    {
        let q = debug_quote(items[i].as_str());
        proof {
            lemma_views_push(quoted@, q);
        }
        quoted.push(q);
        assert(views(items@).subrange(0, i + 1).map_values(|t: Seq<char>| debug_quoted(t))
            =~= views(items@).subrange(0, i as int).map_values(|t: Seq<char>| debug_quoted(t)).push(
            debug_quoted(items@[i as int]@),
        ));
        i = i + 1;
    }
    assert(views(items@).subrange(0, items.len() as int) =~= views(items@));
    let inner = join_strings(&quoted, ", ");
    let mut out = String::new();
    push_char(&mut out, '[');
    out.append(inner.as_str());
    push_char(&mut out, ']');
    proof {
        reveal_strlit(", ");
        assert(", "@ =~= seq![',', ' ']);
    }
    assert(out@ =~= debug_list(views(items@)));
    out
}

} // verus!
