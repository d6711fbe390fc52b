//! Decimal rendering of integers and decimal parsing of `u32` (`str::parse::<u32>`).

use vstd::prelude::*;
use crate::text::push_char;

verus! {

/// The character of a decimal digit value.
pub open spec fn digit_char(d: int) -> char {
    (48 + d) as char
}

/// Decimal notation of a natural number, without sign or leading zeros.
pub open spec fn decimal(n: nat) -> Seq<char>
    decreases n,
{
    if n < 10 {
        seq![digit_char(n as int)]
    } else {
        decimal(n / 10).push(digit_char((n % 10) as int))
    }
}

/// Decimal notation of an integer, as `Display` writes it.
pub open spec fn signed_decimal(n: int) -> Seq<char> {
    if n < 0 {
        seq!['-'] + decimal((-n) as nat)
    } else {
        decimal(n as nat)
    }
}

pub open spec fn is_ascii_digit(c: char) -> bool {
    '0' <= c <= '9'
}

pub open spec fn all_ascii_digits(s: Seq<char>) -> bool {
    forall|i: int| 0 <= i < s.len() ==> is_ascii_digit(#[trigger] s[i])
}

/// The number that a string of decimal digits denotes.
pub open spec fn digits_value(s: Seq<char>) -> int
    decreases s.len(),
{
    if s.len() == 0 {
        0
    } else {
        digits_value(s.drop_last()) * 10 + (s.last() as int - 48)
    }
}

/// The digits part of an unsigned number: the text without one leading `+`.
pub open spec fn unsigned_body(s: Seq<char>) -> Seq<char> {
    if s.len() > 0 && s[0] == '+' {
        s.drop_first()
    } else {
        s
    }
}

/// What `str::parse::<u32>` gives: an optional `+`, then at least one ASCII digit, and a
/// value that fits in `u32`.
pub open spec fn parsed_u32(s: Seq<char>) -> Option<u32> {
    let body = unsigned_body(s);
    if body.len() > 0 && all_ascii_digits(body) && digits_value(body) <= u32::MAX {
        Some(digits_value(body) as u32)
    } else {
        None
    }
}

proof fn lemma_decimal_digits(n: nat)
    ensures
        all_ascii_digits(decimal(n)),
        decimal(n).len() > 0,
        decimal(n)[0] != '+',
        digits_value(decimal(n)) == n,
    decreases n,
{
    assert(digit_char((n % 10) as int) as int == 48 + n % 10);
    if n < 10 {
        assert(decimal(n).drop_last() =~= Seq::<char>::empty());
        assert(decimal(n).last() == digit_char(n as int));
        assert(digit_char(n as int) as int == 48 + n);
        assert(digits_value(decimal(n).drop_last()) == 0);
    } else {
        lemma_decimal_digits(n / 10);
        let d = decimal(n / 10);
        assert(decimal(n).drop_last() =~= d);
        assert(decimal(n)[0] == d[0]);
        assert(decimal(n).last() == digit_char((n % 10) as int));
        assert(digits_value(decimal(n)) == digits_value(d) * 10 + (n % 10));
        assert((n / 10) * 10 + n % 10 == n);
    }
}

/// Rendering a `u32` in decimal and parsing it back gives the same number.
pub proof fn lemma_parse_decimal_roundtrip(n: u32)
    ensures
        parsed_u32(decimal(n as nat)) == Some(n),
{
    lemma_decimal_digits(n as nat);
}

fn digit_to_char(d: u64) -> (c: char)
    requires
        d < 10,
    ensures
        c == digit_char(d as int),
{
    let b = (d as u8) + 48;
    b as char
}

/// Decimal notation of an unsigned number (`u64::to_string`).
pub fn u64_decimal(n: u64) -> (r: String)
    ensures
        r@ == decimal(n as nat),
{
    let mut cur = n;
    let mut digits: Vec<char> = Vec::new();
    while cur >= 10
        invariant
            decimal(n as nat) == decimal(cur as nat) + digits@,
        decreases cur,
    {
        let d = cur % 10;
        let c = digit_to_char(d);
        proof {
            assert(decimal(cur as nat) == decimal((cur / 10) as nat).push(c));
            assert(decimal((cur / 10) as nat).push(c) + digits@ =~= decimal((cur / 10) as nat)
                + seq![c].add(digits@));
        }
        let ghost before = digits@;
        digits.insert(0, c);
        assert(digits@ =~= seq![c].add(before));
        cur = cur / 10;
    }
    let first = digit_to_char(cur);
    let ghost before = digits@;
    digits.insert(0, first);
    assert(digits@ =~= seq![first].add(before));
    assert(decimal(n as nat) =~= digits@);
    chars_to_string(&digits)
}

/// Collects characters into a string.
pub fn chars_to_string(cs: &Vec<char>) -> (r: String)
    ensures
        r@ == cs@,
{
    let mut out = String::new();
    let mut i: usize = 0;
    while i < cs.len()
        invariant
            i <= cs.len(),
            out@ == cs@.subrange(0, i as int),
        decreases cs.len() - i,
    {
        push_char(&mut out, cs[i]);
        assert(cs@.subrange(0, i + 1) =~= cs@.subrange(0, i as int).push(cs@[i as int]));
        i = i + 1;
    }
    assert(cs@.subrange(0, cs.len() as int) =~= cs@);
    out
}

/// Decimal notation of a signed number (`i64::to_string`).
pub fn i64_decimal(n: i64) -> (r: String)
    ensures
        r@ == signed_decimal(n as int),
{
    if n < 0 {
        let magnitude: u64 = (-(n as i128)) as u64;
        let digits = u64_decimal(magnitude);
        let mut out = String::new();
        push_char(&mut out, '-');
        out.append(digits.as_str());
        out
    } else {
        u64_decimal(n as u64)
    }
}

proof fn lemma_digits_value_nonneg(s: Seq<char>)
    requires
        all_ascii_digits(s),
    ensures
        digits_value(s) >= 0,
    decreases s.len(),
{
    if s.len() > 0 {
        lemma_digits_value_nonneg(s.drop_last());
    }
}

/// `str::parse::<u32>`: `None` exactly where the standard parser reports an error.
pub fn parse_u32(s: &str) -> (r: Option<u32>)
    ensures
        r == parsed_u32(s@),
{
    let n = s.unicode_len();
    let start: usize = if n > 0 && s.get_char(0) == '+' {
        1
    } else {
        0
    };
    let ghost body = unsigned_body(s@);
    assert(body =~= s@.subrange(start as int, n as int));
    if start == n {
        return None;
    }
    let cap: u64 = 0x1_0000_0000;
    let mut acc: u64 = 0;
    let mut i: usize = start;
    while i < n
        invariant
            n == s@.len(),
            start <= i <= n,
            body == s@.subrange(start as int, n as int),
            body == unsigned_body(s@),
            all_ascii_digits(s@.subrange(start as int, i as int)),
            acc as int == if digits_value(s@.subrange(start as int, i as int)) < cap {
                digits_value(s@.subrange(start as int, i as int))
            } else {
                cap as int
            },
            cap == 0x1_0000_0000,
        decreases n - i,
    {
        let c = s.get_char(i);
        if !('0' <= c && c <= '9') {
            assert(body[i - start] == c);
            assert(!is_ascii_digit(body[i - start]));
            assert(!all_ascii_digits(body));

            return None;
        }
        let d = (c as u32 - 48) as u64;
        let ghost prev = s@.subrange(start as int, i as int);
        let ghost next = s@.subrange(start as int, i + 1);
        assert(next.drop_last() =~= prev);
        assert(all_ascii_digits(next));
        proof {
            lemma_digits_value_nonneg(prev);
        }
        let ghost v = digits_value(prev);
        assert(digits_value(next) == v * 10 + d);
        let ghost a0 = acc as int;
        let t = acc * 10 + d;
        acc = if t < cap {
            t
        } else {
            cap
        };
        assert(acc as int == if v * 10 + d < cap {
            v * 10 + d
        } else {
            cap as int
        }) by (nonlinear_arith)
            requires
                v >= 0,
                d < 10,
                a0 == (if v < cap {
                    v
                } else {
                    cap as int
                }),
                t == a0 * 10 + d,
                acc as int == if t < cap {
                    t as int
                } else {
                    cap as int
                },
                cap == 0x1_0000_0000,
        ;
        i = i + 1;
    }
    assert(s@.subrange(start as int, n as int) == body);
    if acc < cap {
        Some(acc as u32)
    } else {
        None
    }
}

} // verus!
