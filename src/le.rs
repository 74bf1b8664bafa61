//! Little-endian integers and decimal text, stated over byte and character sequences.

use vstd::prelude::*;
use vstd::utf8::{encode_utf8, encode_utf8_valid_utf8, is_ascii_chars, is_ascii_chars_encode_utf8, valid_utf8};

verus! {

/// The `n` low-order bytes of `x`, least significant first.
pub open spec fn le_bytes(x: nat, n: nat) -> Seq<u8>
    decreases n,
{
    if n == 0 {
        Seq::empty()
    } else {
        seq![(x % 256) as u8].add(le_bytes(x / 256, (n - 1) as nat))
    }
}

/// The number that the bytes `b` denote, least significant first.
pub open spec fn le_value(b: Seq<u8>) -> nat
    decreases b.len(),
{
    if b.len() == 0 {
        0
    } else {
        b[0] as nat + 256 * le_value(b.drop_first())
    }
}

pub open spec fn pow256(n: nat) -> nat
    decreases n,
{
    if n == 0 {
        1
    } else {
        256 * pow256((n - 1) as nat)
    }
}

pub proof fn lemma_le_bytes_len(x: nat, n: nat)
    ensures
        le_bytes(x, n).len() == n,
    decreases n,
{
    if n > 0 {
        lemma_le_bytes_len(x / 256, (n - 1) as nat);
    }
}

/// Reading back `n` written bytes gives the number, when it fits in them.
pub proof fn lemma_le_round_trip(x: nat, n: nat)
    requires
        x < pow256(n),
    ensures
        le_value(le_bytes(x, n)) == x,
    decreases n,
{
    if n > 0 {
        let b = le_bytes(x, n);
        lemma_le_bytes_len(x / 256, (n - 1) as nat);
        assert(b.drop_first() =~= le_bytes(x / 256, (n - 1) as nat));
        lemma_le_round_trip(x / 256, (n - 1) as nat);
    }
}

pub proof fn lemma_le_value_bound(b: Seq<u8>)
    ensures
        le_value(b) < pow256(b.len()),
    decreases b.len(),
{
    if b.len() > 0 {
        lemma_le_value_bound(b.drop_first());
        assert(pow256(b.len()) == 256 * pow256((b.len() - 1) as nat));
    }
}

pub proof fn lemma_pow256_values()
    ensures
        pow256(4) == 0x1_0000_0000,
        pow256(8) == 0x1_0000_0000_0000_0000,
{
    reveal_with_fuel(pow256, 9);
}

/// Appends the `n` low-order bytes of `x` to `out`, least significant first.
pub fn push_le(out: &mut Vec<u8>, x: u64, n: usize)
    requires
        n <= 8,
    ensures
        final(out)@ == old(out)@ + le_bytes(x as nat, n as nat),
{
    let mut v: u64 = x;
    let mut i: usize = 0;
    while i < n
        invariant
            i <= n,
            out@ + le_bytes(v as nat, (n - i) as nat) == old(out)@ + le_bytes(x as nat, n as nat),
        decreases n - i,
    {
        let ghost before = out@;
        out.push((v % 256) as u8);
        proof {
            assert(le_bytes(v as nat, (n - i) as nat) == seq![(v % 256) as u8] + le_bytes(
                (v / 256) as nat,
                (n - i - 1) as nat,
            ));
            assert(out@ == before + seq![(v % 256) as u8]);
            assert(before + le_bytes(v as nat, (n - i) as nat) =~= out@ + le_bytes(
                (v / 256) as nat,
                (n - i - 1) as nat,
            ));
        }
        v = v / 256;
        i = i + 1;
    }
    assert(le_bytes(v as nat, 0) =~= Seq::<u8>::empty());
    assert(out@ =~= out@ + le_bytes(v as nat, 0));
}


proof fn lemma_pow256_mono(k: nat)
    requires
        k <= 8,
    ensures
        pow256(k) <= pow256(8),
    decreases 8 - k,
{
    if k < 8 {
        lemma_pow256_mono(k + 1);
    }
}

/// Reads the number held in `b[pos..pos + n]`, least significant byte first.
pub fn read_le(b: &[u8], pos: usize, n: usize) -> (r: u64)
    requires
        n <= 8,
        pos + n <= b@.len(),
    ensures
        r as nat == le_value(b@.subrange(pos as int, pos + n)),
{
    let len: usize = b.len();
    assert(pos + n <= len);
    let end: usize = pos + n;
    let mut j: usize = end;
    let mut v: u64 = 0;
    proof {
        lemma_pow256_values();
    }
    while j > pos
        invariant
            pos <= j <= end,
            end == pos + n,
            n <= 8,
            end <= b@.len(),
            pow256(8) == 0x1_0000_0000_0000_0000,
            v as nat == le_value(b@.subrange(j as int, end as int)),
        decreases j - pos,
    {
        let ghost tail = b@.subrange(j as int, end as int);
        let ghost next = b@.subrange(j - 1, end as int);
        proof {
            assert(next.drop_first() =~= tail);
            lemma_le_value_bound(next);
            lemma_pow256_mono(next.len());
        }
        v = v * 256 + b[j - 1] as u64;
        j = j - 1;
    }
    v
}

/// The decimal digits of `n` as ASCII bytes, without sign or leading zeros.
pub open spec fn decimal(n: nat) -> Seq<u8>
    decreases n,
{
    if n < 10 {
        seq![(n + 48) as u8]
    } else {
        decimal(n / 10).push((n % 10 + 48) as u8)
    }
}

pub open spec fn is_digit(c: u8) -> bool {
    48 <= c <= 57
}

/// The value of a string of ASCII digits, most significant first.
pub open spec fn digits_value(s: Seq<u8>) -> nat
    decreases s.len(),
{
    if s.len() == 0 {
        0
    } else {
        digits_value(s.drop_last()) * 10 + (s.last() - 48) as nat
    }
}

/// What a decimal field holds: a `u16` written as one or more ASCII digits.
pub open spec fn parse_decimal_u16(s: Seq<u8>) -> Option<u16> {
    if s.len() > 0 && (forall|i: int| 0 <= i < s.len() ==> is_digit(#[trigger] s[i]))
        && digits_value(s) <= u16::MAX {
        Some(digits_value(s) as u16)
    } else {
        None
    }
}

pub proof fn lemma_decimal_parses(n: nat)
    ensures
        decimal(n).len() > 0,
        forall|i: int| 0 <= i < decimal(n).len() ==> is_digit(#[trigger] decimal(n)[i]),
        digits_value(decimal(n)) == n,
    decreases n,
{
    if n >= 10 {
        lemma_decimal_parses(n / 10);
        let d = decimal(n);
        assert(d.drop_last() =~= decimal(n / 10));
        assert forall|i: int| 0 <= i < d.len() implies is_digit(#[trigger] d[i]) by {
            if i < d.len() - 1 {
                assert(d[i] == decimal(n / 10)[i]);
            }
        }
        assert(d.last() == (n % 10 + 48) as u8);
        assert(digits_value(d) == digits_value(decimal(n / 10)) * 10 + n % 10);
    } else {
        let d = decimal(n);
        assert(d.drop_last() =~= Seq::<u8>::empty());
        assert(digits_value(d) == digits_value(d.drop_last()) * 10 + n);
    }
}

/// Decimal digits are valid UTF-8.
pub proof fn lemma_decimal_utf8(n: nat)
    ensures
        valid_utf8(decimal(n)),
{
    let d = decimal(n);
    lemma_decimal_parses(n);
    let chars = Seq::new(d.len(), |i: int| d[i] as char);
    assert(is_ascii_chars(chars)) by {
        assert forall|i: int| 0 <= i < chars.len() implies '\0' <= #[trigger] chars[i] <= '\u{7f}' by {
            assert(is_digit(d[i]));
        }
    }
    is_ascii_chars_encode_utf8(chars);
    assert forall|i: int| 0 <= i < d.len() implies encode_utf8(chars)[i] == d[i] by {
        assert(chars[i] as u8 == d[i]);
    }
    assert(encode_utf8(chars) =~= d);
    encode_utf8_valid_utf8(chars);
}

/// The decimal text of `v` as ASCII bytes.
pub fn decimal_bytes(v: u64) -> (r: Vec<u8>)
    ensures
        r@ == decimal(v as nat),
{
    let mut out: Vec<u8> = Vec::new();
    decimal_push(&mut out, v);
    out
}

fn decimal_push(out: &mut Vec<u8>, v: u64)
    ensures
        final(out)@ == old(out)@ + decimal(v as nat),
    decreases v,
{
    if v < 10 {
        out.push((v + 48) as u8);
        assert(out@ =~= old(out)@ + decimal(v as nat));
    } else {
        decimal_push(out, v / 10);
        out.push((v % 10 + 48) as u8);
        assert(out@ =~= old(out)@ + decimal(v as nat));
    }
}

/// Parses a decimal `u16`: one or more ASCII digits, nothing else.
pub fn parse_decimal(s: &[u8]) -> (r: Option<u16>)
    ensures
        r == parse_decimal_u16(s@),
{
    if s.len() == 0 {
        return None;
    }
    let mut i: usize = 0;
    let mut v: u32 = 0;
    while i < s.len()
        invariant
            i <= s@.len(),
            s@.len() > 0,
            v as nat == digits_value(s@.subrange(0, i as int)),
            v <= u16::MAX,
            forall|k: int| 0 <= k < i ==> is_digit(#[trigger] s@[k]),
        decreases s@.len() - i,
    {
        let c = s[i];
        let ghost pre = s@.subrange(0, i + 1);
        assert(pre.drop_last() =~= s@.subrange(0, i as int));
        if c < 48 || c > 57 {
            return None;
        }
        v = v * 10 + (c - 48) as u32;
        if v > 65535 {
            proof {
                if forall|k: int| 0 <= k < s@.len() ==> is_digit(#[trigger] s@[k]) {
                    lemma_digits_value_prefix(s@, i + 1);
                }
            }
            return None;
        }
        i = i + 1;
    }
    assert(s@.subrange(0, s@.len() as int) =~= s@);
    Some(v as u16)
}

/// A longer prefix of digits never has a smaller value.
proof fn lemma_digits_value_prefix(s: Seq<u8>, i: int)
    requires
        0 <= i <= s.len(),
        forall|k: int| 0 <= k < s.len() ==> is_digit(#[trigger] s[k]),
    ensures
        digits_value(s.subrange(0, i)) <= digits_value(s),
    decreases s.len(),
{
    if i < s.len() {
        let t = s.drop_last();
        assert forall|k: int| 0 <= k < t.len() implies is_digit(#[trigger] t[k]) by {
            assert(t[k] == s[k]);
        }
        lemma_digits_value_prefix(t, i);
        assert(t.subrange(0, i) =~= s.subrange(0, i));
    } else {
        assert(s.subrange(0, i) =~= s);
    }
}

} // verus!
