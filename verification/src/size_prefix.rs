//! Little-endian size prefixes with the most significant zero bytes left out,
//! as used by the variable-size binary framing.

use vstd::prelude::*;
use vstd::arithmetic::div_mod::{lemma_breakdown, lemma_fundamental_div_mod_converse, lemma_small_mod};

verus! {

/// `256^n`
pub open spec fn pow256(n: nat) -> nat
    decreases n,
{
    if n == 0 {
        1
    } else {
        256 * pow256((n - 1) as nat)
    }
}

/// How many bytes are needed to write `v` in base 256 without leading zeros.
pub open spec fn significant_bytes(v: nat) -> nat
    decreases v,
{
    if v == 0 {
        0
    } else {
        1 + significant_bytes(v / 256)
    }
}

/// A number never has more significant bytes than its own value.
pub proof fn lemma_significant_bytes_at_most_value(v: nat)
    ensures
        significant_bytes(v) <= v,
    decreases v,
{
    if v != 0 {
        lemma_significant_bytes_at_most_value(v / 256);
    }
}

/// Tells the minimum number of bytes needed to represent `value`: how many of its
/// little-endian bytes are significant.
pub fn min_bytes_for_usize(value: usize) -> (count: usize)
    ensures
        count == significant_bytes(value as nat),
{
    proof {
        lemma_significant_bytes_at_most_value(value as nat);
    }
    let mut remaining: usize = value;
    let mut count: usize = 0;
    while remaining != 0
        invariant
            count + significant_bytes(remaining as nat) == significant_bytes(value as nat),
            significant_bytes(value as nat) <= value,
        decreases remaining,
    {
        assert(remaining >> 8 == remaining / 256) by (bit_vector);
        count = count + 1;
        remaining = remaining >> 8;
    }
    count
}

/// The value of `bytes` read as a little-endian number.
pub open spec fn le_value(bytes: Seq<u8>) -> nat
    decreases bytes.len(),
{
    if bytes.len() == 0 {
        0
    } else {
        bytes[0] as nat + 256 * le_value(bytes.drop_first())
    }
}

/// The `n` lowest little-endian bytes of `v` (higher bytes are cut off).
pub open spec fn le_bytes(v: nat, n: nat) -> Seq<u8>
    decreases n,
{
    if n == 0 {
        Seq::<u8>::empty()
    } else {
        seq![(v % 256) as u8] + le_bytes(v / 256, (n - 1) as nat)
    }
}

/// `256^n` grows with `n`.
pub proof fn lemma_pow256_monotonic(a: nat, b: nat)
    requires
        a <= b,
    ensures
        1 <= pow256(a) <= pow256(b),
    decreases b,
{
    if b > a {
        lemma_pow256_monotonic(a, (b - 1) as nat);
    } else {
        lemma_pow256_positive(a);
    }
}

/// `256^n` is positive.
pub proof fn lemma_pow256_positive(n: nat)
    ensures
        pow256(n) >= 1,
    decreases n,
{
    if n > 0 {
        lemma_pow256_positive((n - 1) as nat);
    }
}

/// `256^n` never exceeds the number of `usize` values when `n` bytes fit in a `usize`.
pub proof fn lemma_pow256_fits_usize(n: nat)
    requires
        n * 8 <= usize::BITS,
    ensures
        pow256(n) <= usize::MAX + 1,
{
    reveal_with_fuel(pow256, 9);
    if usize::BITS == 32 {
        lemma_pow256_monotonic(n, 4);
        assert(pow256(4) == 0x1_0000_0000);
    } else {
        lemma_pow256_monotonic(n, 8);
        assert(pow256(8) == 0x1_0000_0000_0000_0000);
    }
}

/// A little-endian number of `n` bytes is below `256^n`.
pub proof fn lemma_le_value_bound(bytes: Seq<u8>)
    ensures
        le_value(bytes) < pow256(bytes.len()),
    decreases bytes.len(),
{
    if bytes.len() > 0 {
        lemma_le_value_bound(bytes.drop_first());
    }
}

/// Reverse operation of writing a `usize` in little-endian bytes whose most significant
/// zero bytes were left out: `bytes` holds from zero up to `size_of::<usize>()` bytes.
pub fn decode_usize_min(bytes: &[u8]) -> (value: usize)
    requires
        bytes@.len() * 8 <= usize::BITS,
    ensures
        value == le_value(bytes@),
{
    let len = bytes.len();
    proof {
        lemma_le_value_bound(bytes@);
        lemma_pow256_fits_usize(len as nat);
    }
    let mut value: usize = 0;
    let mut i: usize = len;
    while i > 0
        invariant
            i <= len == bytes@.len(),
            pow256(len as nat) <= usize::MAX + 1,
            value == le_value(bytes@.skip(i as int)),
            value < pow256((len - i) as nat),
        decreases i,
    {
        i = i - 1;
        proof {
            assert(bytes@.skip(i as int).drop_first() =~= bytes@.skip(i + 1));
            lemma_pow256_monotonic((len - i) as nat, len as nat);
        }
        value = value * 256 + bytes[i] as usize;
    }
    assert(bytes@.skip(0) =~= bytes@);
    value
}

/// `le_bytes(v, n)` holds exactly `n` bytes.
pub proof fn lemma_le_bytes_len(v: nat, n: nat)
    ensures
        le_bytes(v, n).len() == n,
    decreases n,
{
    if n > 0 {
        lemma_le_bytes_len(v / 256, (n - 1) as nat);
    }
}

/// Reading back the `n` lowest bytes of `v` gives `v` modulo `256^n`.
pub proof fn lemma_le_value_of_le_bytes(v: nat, n: nat)
    ensures
        le_value(le_bytes(v, n)) == v % pow256(n),
    decreases n,
{
    if n == 0 {
        assert(v % 1 == 0) by (nonlinear_arith);
    } else {
        let rest = le_bytes(v / 256, (n - 1) as nat);
        lemma_le_value_of_le_bytes(v / 256, (n - 1) as nat);
        assert(le_bytes(v, n).drop_first() =~= rest);
        lemma_pow256_positive((n - 1) as nat);
        lemma_breakdown(v as int, 256, pow256((n - 1) as nat) as int);
    }
}

/// Writing the value of `n` little-endian bytes back in `n` bytes gives the same bytes.
pub proof fn lemma_le_bytes_of_le_value(bytes: Seq<u8>)
    ensures
        le_bytes(le_value(bytes), bytes.len()) == bytes,
    decreases bytes.len(),
{
    if bytes.len() > 0 {
        let v = le_value(bytes);
        let tail = bytes.drop_first();
        lemma_le_bytes_of_le_value(tail);
        lemma_fundamental_div_mod_converse(v as int, 256, le_value(tail) as int, bytes[0] as int);
        lemma_le_bytes_len(v / 256, tail.len());
        assert(le_bytes(v, bytes.len()) =~= bytes);
    }
}

/// `significant_bytes(v)` bytes are enough to hold `v`, and one byte less is not.
pub proof fn lemma_significant_bytes_bounds(v: nat)
    ensures
        v < pow256(significant_bytes(v)),
        v > 0 ==> pow256((significant_bytes(v) - 1) as nat) <= v,
    decreases v,
{
    if v > 0 {
        lemma_significant_bytes_bounds(v / 256);
        if v / 256 > 0 {
            lemma_pow256_positive((significant_bytes(v / 256) - 1) as nat);
        }
    }
}

/// Writes the `len` lowest little-endian bytes of `value`: the size prefix that precedes
/// a payload of `value` bytes when prefixes are `len` bytes long.
pub fn encode_usize_min(value: usize, len: usize) -> (bytes: Vec<u8>)
    requires
        len * 8 <= usize::BITS,
    ensures
        bytes@ == le_bytes(value as nat, len as nat),
{
    let mut bytes: Vec<u8> = Vec::new();
    let mut remaining: usize = value;
    let mut i: usize = 0;
    while i < len
        invariant
            i <= len,
            bytes@ + le_bytes(remaining as nat, (len - i) as nat) == le_bytes(value as nat, len as nat),
        decreases len - i,
    {
        let byte: u8 = (remaining % 256) as u8;
        proof {
            let k = (len - i) as nat;
            assert(le_bytes(remaining as nat, k) == seq![byte] + le_bytes((remaining / 256) as nat, (k - 1) as nat));
            assert(bytes@.push(byte) + le_bytes((remaining / 256) as nat, (k - 1) as nat)
                =~= bytes@ + le_bytes(remaining as nat, k));
        }
        bytes.push(byte);
        remaining = remaining / 256;
        i = i + 1;
    }
    assert(bytes@ + le_bytes(remaining as nat, 0) =~= bytes@);
    bytes
}

/// Decoding the shortest size prefix of a value gives the value back.
pub proof fn lemma_size_prefix_round_trip(v: nat)
    ensures
        le_value(le_bytes(v, significant_bytes(v))) == v,
{
    lemma_le_value_of_le_bytes(v, significant_bytes(v));
    lemma_significant_bytes_bounds(v);
    lemma_small_mod(v, pow256(significant_bytes(v)));
}

} // verus!
