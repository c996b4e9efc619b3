//! Arithmetic meaning of the bit operations that the wire formats use.
//!
//! Contracts in this crate describe octets with `/`, `%` and `+`; the code
//! masks and shifts. The lemmas here connect the two.

use vstd::prelude::*;

verus! {

/// The contribution of a flag that occupies the bit of the given weight.
pub open spec fn flag(set: bool, weight: int) -> int {
    if set {
        weight
    } else {
        0
    }
}

/// Whether the bit of the given weight is set in `b`.
pub open spec fn has(b: u8, weight: int) -> bool {
    (b as int / weight) % 2 == 1
}

/// Masking an octet is taking a remainder, and testing a bit is asking for it.
pub proof fn lemma_masks(b: u8)
    by (bit_vector)
    ensures
        b & 0x01 == b % 2,
        b & 0x03 == b % 4,
        b & 0x07 == b % 8,
        b & 0x0F == b % 16,
        b & 0x1F == b % 32,
        b & 0x3F == b % 64,
        b & 0x7F == b % 128,
        b & 0x01 != 0 <==> (b / 1) % 2 == 1,
        b & 0x10 != 0 <==> (b / 16) % 2 == 1,
        b & 0x20 != 0 <==> (b / 32) % 2 == 1,
        b & 0x40 != 0 <==> (b / 64) % 2 == 1,
        b & 0x80 != 0 <==> (b / 128) % 2 == 1,
        b >> 2 == b / 4,
        b >> 4 == b / 16,
        b >> 5 == b / 32,
        b >> 6 == b / 64,
{
}

/// Setting a bit that is clear adds its weight.
pub proof fn lemma_set_bits(b: u8)
    by (bit_vector)
    ensures
        b % 2 == 0 ==> (b | 0x01) == b + 1,
        (b / 16) % 2 == 0 ==> (b | 0x10) == b + 16,
        (b / 32) % 2 == 0 ==> (b | 0x20) == b + 32,
        (b / 64) % 2 == 0 ==> (b | 0x40) == b + 64,
        (b / 128) % 2 == 0 ==> (b | 0x80) == b + 128,
{
}

/// Joining fields that do not overlap adds them.
pub proof fn lemma_join_fields(hi: u8, lo: u8)
    by (bit_vector)
    ensures
        ((hi & 0x1F) << 2) == (hi % 32) * 4,
        ((hi & 0x03) << 6) == (hi % 4) * 64,
        ((hi & 0x07) << 5) == (hi % 8) * 32,
        ((hi & 0x0F) << 4) == (hi % 16) * 16,
        (lo % 4) | ((hi & 0x1F) << 2) == (lo % 4) + (hi % 32) * 4,
        (lo % 64) | ((hi & 0x03) << 6) == (lo % 64) + (hi % 4) * 64,
        (lo % 32) | ((hi & 0x07) << 5) == (lo % 32) + (hi % 8) * 32,
        (lo % 16) | ((hi & 0x0F) << 4) == (lo % 16) + (hi % 16) * 16,
        hi % 16 == 0 && lo < 16 ==> (hi | lo) == hi + lo,
{
}

/// The three low octets of an integer.
pub proof fn lemma_u24_split(v: u32)
    by (bit_vector)
    ensures
        v as u8 == v % 256,
        (v >> 8) as u8 == (v / 256) % 256,
        (v >> 16) as u8 == (v / 65536) % 256,
        v as u16 == v % 65536,
        (v % 65536) % 256 == v % 256,
        ((v % 65536) / 256) % 256 == (v / 256) % 256,
{
}

/// A 64-bit integer that fits into 32 bits keeps its value there.
pub proof fn lemma_low_half(v: u64)
    by (bit_vector)
    ensures
        v <= 0xFFFF_FFFF ==> v as u32 as u64 == v,
{
}

/// Masking to three octets keeps the three low octets.
pub proof fn lemma_u24_mask(v: u32)
    by (bit_vector)
    ensures
        (v & 0x00FF_FFFF) % 256 == v % 256,
        ((v & 0x00FF_FFFF) / 256) % 256 == (v / 256) % 256,
        ((v & 0x00FF_FFFF) / 65536) % 256 == (v / 65536) % 256,
{
}

/// Three octets joined into an integer.
pub proof fn lemma_u24_join(b0: u32, b1: u32, b2: u32)
    by (bit_vector)
    requires
        b0 < 256,
        b1 < 256,
        b2 < 256,
    ensures
        b0 | (b1 << 8) | (b2 << 16) == b0 + 256 * b1 + 65536 * b2,
{
}

/// The bit operations on 15-bit sequence numbers.
pub proof fn lemma_seq_bits(v: u16)
    by (bit_vector)
    ensures
        v & 0x7FFF == v % 32768,
        v >> 1 == v / 2,
        v < 32768 ==> (v << 1) == 2 * v,
{
}

/// The sum of all octets.
pub open spec fn octet_sum(s: Seq<u8>) -> int
    decreases s.len(),
{
    if s.len() == 0 {
        0
    } else {
        octet_sum(s.drop_last()) + s.last()
    }
}

/// The sum over two sequences one after the other is the sum of the sums.
pub proof fn lemma_octet_sum_concat(a: Seq<u8>, b: Seq<u8>)
    ensures
        octet_sum(a + b) == octet_sum(a) + octet_sum(b),
        octet_sum(a) >= 0,
    decreases b.len(), a.len(),
{
    if b.len() == 0 {
        assert(a + b =~= a);
        if a.len() > 0 {
            lemma_octet_sum_concat(a.drop_last(), b);
            assert(a.drop_last() + b =~= a.drop_last());
        }
    } else {
        assert((a + b).drop_last() =~= a + b.drop_last());
        lemma_octet_sum_concat(a, b.drop_last());
    }
}

/// The sum does not depend on the order of the octets.
pub proof fn lemma_octet_sum_order(a: Seq<u8>, b: Seq<u8>)
    requires
        a.to_multiset() == b.to_multiset(),
    ensures
        octet_sum(a) == octet_sum(b),
    decreases a.len(),
{
    a.to_multiset_ensures();
    b.to_multiset_ensures();
    if a.len() > 0 {
        let x = a.last();
        assert(a[a.len() - 1] == x);
        assert(b.to_multiset().count(x) > 0);
        let i = b.index_of(x);
        let rest = b.remove(i);
        let front = a.drop_last();
        assert(front =~= a.remove(a.len() - 1));
        assert(front.to_multiset() =~= rest.to_multiset());
        lemma_octet_sum_order(front, rest);
        let (before, after) = (b.take(i), b.skip(i + 1));
        assert(b =~= (before + seq![x]) + after);
        assert(rest =~= before + after);
        lemma_octet_sum_concat(before + seq![x], after);
        lemma_octet_sum_concat(before, seq![x]);
        lemma_octet_sum_concat(before, after);
        reveal_with_fuel(octet_sum, 2);
    }
}

/// Wrapping addition of 32-bit integers is addition modulo 2^32.
pub proof fn lemma_wrapping_u32(a: u32, b: u32)
    ensures
        a.wrapping_add(b) as int == (a + b) % 0x1_0000_0000,
{
}

} // verus!
