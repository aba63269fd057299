//! Decimal rendering and parsing of integers, and little-endian decoding.

use vstd::prelude::*;
use vstd::string::StringSliceAdditionalSpecFns;
use vstd::utf8::{encode_utf8_valid_utf8, is_char_boundary};

verus! {

/// The ASCII digit for `d` (meaningful for `d < 10`).
pub open spec fn digit_char(d: nat) -> char {
    (d + 48) as char
}

/// The decimal representation of `n`, without sign or leading zeros.
pub open spec fn decimal(n: nat) -> Seq<char>
    decreases n,
{
    if n < 10 {
        seq![digit_char(n)]
    } else {
        decimal(n / 10).push(digit_char(n % 10))
    }
}

fn digit_str(d: u64) -> (s: &'static str)
    requires
        d < 10,
    ensures
        s@ == seq![digit_char(d as nat)],
{
    proof {
        reveal_strlit("0");
        reveal_strlit("1");
        reveal_strlit("2");
        reveal_strlit("3");
        reveal_strlit("4");
        reveal_strlit("5");
        reveal_strlit("6");
        reveal_strlit("7");
        reveal_strlit("8");
        reveal_strlit("9");
    }
    match d {
        0 => "0",
        1 => "1",
        2 => "2",
        3 => "3",
        4 => "4",
        5 => "5",
        6 => "6",
        7 => "7",
        8 => "8",
        _ => "9",
    }
}

/// Renders `n` in decimal, as `Display` for unsigned integers does.
pub fn decimal_string(n: u64) -> (s: String)
    ensures
        s@ == decimal(n as nat),
    decreases n,
{
    if n < 10 {
        String::from_str(digit_str(n))
    } else {
        let mut s = decimal_string(n / 10);
        s.append(digit_str(n % 10));
        s
    }
}


/// `c` is one of the ASCII digits `0`..`9`.
pub open spec fn is_digit(c: char) -> bool {
    48 <= (c as u32) <= 57
}

/// The value of a sequence of decimal digits (most significant first).
pub open spec fn digits_value(s: Seq<char>) -> nat
    decreases s.len(),
{
    if s.len() == 0 {
        0
    } else {
        digits_value(s.drop_last()) * 10 + ((s.last() as u32) - 48) as nat
    }
}

/// Every character of `s` is a decimal digit.
pub open spec fn all_digits(s: Seq<char>) -> bool {
    forall|i: int| 0 <= i < s.len() ==> is_digit(#[trigger] s[i])
}

/// The digits of an unsigned number: the text after an optional leading `+`.
pub open spec fn unsigned_digits(s: Seq<char>) -> Seq<char> {
    if s.len() > 0 && s[0] == '+' {
        s.drop_first()
    } else {
        s
    }
}

/// What `str::parse::<u32>` gives: an optional `+`, then at least one decimal
/// digit and nothing else, with a value that fits in 32 bits.
pub open spec fn parse_u32_spec(s: Seq<char>) -> Option<u32> {
    let d = unsigned_digits(s);
    if d.len() > 0 && all_digits(d) && digits_value(d) <= u32::MAX {
        Some(digits_value(d) as u32)
    } else {
        None
    }
}

proof fn lemma_digits_value_prefix(s: Seq<char>, k: int)
    requires
        0 <= k <= s.len(),
        all_digits(s),
    ensures
        digits_value(s.subrange(0, k)) <= digits_value(s),
    decreases s.len(),
{
    if k < s.len() {
        lemma_digits_value_prefix(s.drop_last(), k);
        assert(s.drop_last().subrange(0, k) =~= s.subrange(0, k));
        assert(is_digit(s[s.len() - 1]));
    } else {
        assert(s.subrange(0, k) =~= s);
    }
}

/// Parses a status code the way `str::parse::<u32>` does.
pub fn parse_u32(s: &str) -> (r: Option<u32>)
    ensures
        r == parse_u32_spec(s@),
{
    let n = s.unicode_len();
    if n == 0 {
        return None;
    }
    let mut i: usize = 0;
    if s.get_char(0) == '+' {
        i = 1;
    }
    if i == n {
        return None;
    }
    let start = i;
    let ghost d = unsigned_digits(s@);
    assert(d =~= s@.subrange(start as int, n as int));
    let mut value: u64 = 0;
    while i < n
        invariant
            start <= i <= n,
            n == s@.len(),
            start < n,
            d == s@.subrange(start as int, n as int),
            d == unsigned_digits(s@),
            all_digits(s@.subrange(start as int, i as int)),
            value == digits_value(s@.subrange(start as int, i as int)),
            value <= u32::MAX,
        decreases n - i,
    {
        let c = s.get_char(i);
        let cu = c as u32;
        if cu < 48 || cu > 57 {
            assert(d[i - start] == c);
            return None;
        }
        let ghost pre = s@.subrange(start as int, i as int);
        let ghost next = s@.subrange(start as int, i + 1);
        assert(next.drop_last() =~= pre);
        assert(next.last() == c);
        value = value * 10 + (cu - 48) as u64;
        i = i + 1;
        assert(all_digits(next)) by {
            assert forall|j: int| 0 <= j < next.len() implies is_digit(#[trigger] next[j]) by {
                if j < pre.len() {
                    assert(next[j] == pre[j]);
                }
            }
        }
        if value > 0xffff_ffff {
            proof {
                if all_digits(d) {
                    lemma_digits_value_prefix(d, i - start);
                    assert(d.subrange(0, i - start) =~= next);
                }
            }
            return None;
        }
    }
    assert(s@.subrange(start as int, n as int) =~= d);
    Some(value as u32)
}

/// The little-endian value of a byte sequence.
pub open spec fn le_value(s: Seq<u8>) -> nat
    decreases s.len(),
{
    if s.len() == 0 {
        0
    } else {
        (s[0] + 256 * le_value(s.drop_first())) as nat
    }
}

/// `256` to the power `k`.
pub open spec fn byte_bound(k: nat) -> nat
    decreases k,
{
    if k == 0 {
        1
    } else {
        256 * byte_bound((k - 1) as nat)
    }
}

proof fn lemma_le_value_bound(s: Seq<u8>)
    ensures
        le_value(s) < byte_bound(s.len()),
    decreases s.len(),
{
    if s.len() > 0 {
        lemma_le_value_bound(s.drop_first());
        let r = le_value(s.drop_first());
        let b = byte_bound((s.len() - 1) as nat);
        assert(s[0] + 256 * r < 256 * b) by (nonlinear_arith)
            requires
                r < b,
                s[0] < 256,
        ;
    }
}

/// Reads the first eight bytes of `b` as a little-endian `u64`, as
/// `u64::from_le_bytes` does.
pub fn le_u64(b: &[u8]) -> (r: u64)
    requires
        b@.len() >= 8,
    ensures
        r == le_value(b@.subrange(0, 8)),
{
    let ghost w = b@.subrange(0, 8);
    let mut i: usize = 8;
    let mut v: u64 = 0;
    assert(w.subrange(8, 8) =~= Seq::<u8>::empty());
    while i > 0
        invariant
            i <= 8,
            b@.len() >= 8,
            w == b@.subrange(0, 8),
            v == le_value(w.subrange(i as int, 8)),
        decreases i,
    {
        let ghost rest = w.subrange(i as int, 8);
        let ghost more = w.subrange(i - 1, 8);
        assert(more.drop_first() =~= rest);
        proof {
            lemma_le_value_bound(more);
            assert(byte_bound(8) == 0x1_0000_0000_0000_0000) by {
                reveal_with_fuel(byte_bound, 9);
            }
            assert(byte_bound(more.len()) <= byte_bound(8)) by {
                lemma_byte_bound_mono(more.len(), 8);
            }
        }
        i = i - 1;
        v = (b[i] as u64) + 256 * v;
    }
    assert(w.subrange(0, 8) =~= w);
    v
}

proof fn lemma_byte_bound_mono(j: nat, k: nat)
    requires
        j <= k,
    ensures
        byte_bound(j) <= byte_bound(k),
    decreases k,
{
    if j < k {
        lemma_byte_bound_mono(j, (k - 1) as nat);
    }
}


/// The items written one after another with a comma between neighbours.
pub open spec fn join_commas(items: Seq<Seq<char>>) -> Seq<char>
    decreases items.len(),
{
    if items.len() == 0 {
        Seq::empty()
    } else if items.len() == 1 {
        items[0]
    } else {
        join_commas(items.drop_last()) + ","@ + items.last()
    }
}

/// Joins the items with commas, the way a JSON array lists its elements.
pub fn join_with_commas(items: &Vec<String>) -> (r: String)
    ensures
        r@ == join_commas(items.deep_view()),
{
    let ghost v = items.deep_view();
    let mut r = String::new();
    let n = items.len();
    let mut i: usize = 0;
    assert(v.take(0) =~= Seq::<Seq<char>>::empty());
    while i < n
        invariant
            i <= n,
            n == v.len(),
            v == items.deep_view(),
            r@ == join_commas(v.take(i as int)),
        decreases n - i,
    {
        let ghost before = r@;
        if i > 0 {
            r.append(",");
        }
        r.append(items[i].as_str());
        proof {
            let t = v.take(i + 1);
            assert(t.drop_last() =~= v.take(i as int));
            assert(t.last() == v[i as int]);
            if i == 0 {
                assert(r@ =~= before + v[0]);
                assert(before =~= Seq::<char>::empty());
                assert(r@ =~= v[0]);
            }
        }
        i = i + 1;
    }
    assert(v.take(n as int) =~= v);
    r
}


/// The longest start of `s` that takes at most `max_bytes` bytes in UTF-8
/// and ends on a character boundary, for a shortened copy of a text that
/// never splits a character.
pub fn char_prefix(s: &str, max_bytes: usize) -> (r: &str)
    ensures
        r.spec_bytes().len() <= max_bytes,
        r.spec_bytes().is_prefix_of(s.spec_bytes()),
        is_char_boundary(s.spec_bytes(), r.spec_bytes().len() as int),
        forall|j: int|
            r.spec_bytes().len() < j <= s.spec_bytes().len() && j <= max_bytes
                ==> !is_char_boundary(s.spec_bytes(), j),
{
    proof {
        encode_utf8_valid_utf8(s@);
    }
    let n = s.as_bytes().len();
    let limit = if max_bytes < n {
        max_bytes
    } else {
        n
    };
    let mut k = limit;
    while !s.is_char_boundary(k)
        invariant
            k <= limit,
            limit <= max_bytes,
            limit == s.spec_bytes().len() || limit == max_bytes,
            limit <= s.spec_bytes().len(),
            is_char_boundary(s.spec_bytes(), 0),
            forall|j: int| k < j <= limit ==> !is_char_boundary(s.spec_bytes(), j),
        decreases k,
    {
        k = k - 1;
    }
    let (head, _) = s.split_at(k);
    assert(head.spec_bytes() =~= s.spec_bytes().subrange(0, k as int));
    head
}

} // verus!
