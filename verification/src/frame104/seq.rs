//! 15-bit sequence number with wrapping arithmetic.

use vstd::prelude::*;
use crate::bits::lemma_seq_bits;

verus! {

/// A 15-bit sequence number (`N(S)` or `N(R)`) used in I- and S-frame APCIs.
///
/// Values are always in the range `0..=32_767`; arithmetic wraps modulo 2^15.
/// On the wire the value is packed as the upper 15 bits of a little-endian
/// u16 - i.e. `wire = value << 1`. The view is the value.
#[derive(Debug, Default, Clone, Copy, PartialEq, Eq, Hash, PartialOrd, Ord, Structural)]
pub struct SeqNo(u16);

impl View for SeqNo {
    type V = int;

    closed spec fn view(&self) -> int {
        self.0 as int
    }
}

/// The sequence number `n` steps behind `s`.
pub open spec fn seq_plus(s: int, n: int) -> int {
    (s + n) % 32768
}

/// The number of steps from `s` to `later`.
pub open spec fn seq_distance(s: int, later: int) -> int {
    (later - s) % 32768
}

/// Whether `s` is a sequence number.
pub open spec fn is_seq(s: int) -> bool {
    0 <= s < 32768
}

impl SeqNo {
    pub const MAX: u16 = 32767;
    pub const MODULUS: u32 = 32768;

    #[verifier::type_invariant]
    spec fn in_range(self) -> bool {
        self.0 <= Self::MAX
    }

    /// Construct from a raw u16, masking down to 15 bits.
    pub fn new(v: u16) -> (s: Self)
        ensures
            s@ == v as int % 32768,
    {
        proof { lemma_seq_bits(v); }
        SeqNo(v & Self::MAX)
    }

    /// Underlying 15-bit value.
    pub fn value(self) -> (v: u16)
        ensures
            v as int == self@,
            is_seq(self@),
    {
        proof { use_type_invariant(&self); }
        self.0
    }

    /// Wrapping addition modulo 2^15.
    pub fn add(self, n: u16) -> (s: Self)
        ensures
            s@ == seq_plus(self@, n as int),
    {
        let sum: u16 = self.0.wrapping_add(n);
        proof { lemma_seq_bits(sum); }
        SeqNo(sum & Self::MAX)
    }

    /// Wrapping increment.
    pub fn next(self) -> (s: Self)
        ensures
            s@ == seq_plus(self@, 1),
    {
        self.add(1)
    }

    /// Number of outstanding frames between `self` and `later`, modulo 2^15.
    /// Returns `(later - self) mod 2^15`.
    pub fn distance(self, later: Self) -> (d: u16)
        ensures
            d as int == seq_distance(self@, later@),
    {
        proof {
            use_type_invariant(&self);
            use_type_invariant(&later);
        }
        let d: u16 = later.0 + 32768 - self.0;
        proof { lemma_seq_bits(d); }
        d & Self::MAX
    }

    /// Pack into the 16-bit little-endian wire form (`value << 1`).
    pub fn to_wire(self) -> (w: u16)
        ensures
            w as int == 2 * self@,
            is_seq(self@),
    {
        proof {
            use_type_invariant(&self);
            lemma_seq_bits(self.0);
        }
        self.0 << 1
    }

    /// Recover from the 16-bit wire form: shifts down by 1, masking off the
    /// type bit. The caller must already have checked the format discriminator.
    pub fn from_wire(w: u16) -> (s: Self)
        ensures
            s@ == w as int / 2,
    {
        proof {
            lemma_seq_bits(w);
            lemma_seq_bits(w >> 1);
        }
        SeqNo((w >> 1) & Self::MAX)
    }
}

/// Two sequence numbers are the same when their values are.
pub broadcast proof fn lemma_seq_no_ext(a: SeqNo, b: SeqNo)
    ensures
        (#[trigger] a@ == #[trigger] b@) <==> a == b,
{
}

/// The wire form gives the sequence number back.
pub proof fn law_seq_wire_round_trip(s: int)
    requires
        is_seq(s),
    ensures
        0 <= 2 * s < 65536,
        (2 * s) / 2 == s,
{
}

/// The distance undoes addition, and addition undoes the distance.
pub proof fn law_seq_distance(s: int, later: int, n: int)
    requires
        is_seq(s),
        is_seq(later),
        is_seq(n),
    ensures
        is_seq(seq_plus(s, n)),
        seq_distance(s, seq_plus(s, n)) == n,
        seq_plus(s, seq_distance(s, later)) == later,
        seq_distance(s, later) == 0 <==> s == later,
{
}

} // verus!
