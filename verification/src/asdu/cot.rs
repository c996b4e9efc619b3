//! Cause of Transmission (COT) per IEC 60870-5-101 and -104.
//!
//! Wire format:
//!
//! ```text
//! Byte 0 :  T  | P/N | cause (bits 0..5)
//! Byte 1 :  originator address (only in 2-octet mode; IEC 104 always 2 octets)
//! ```
//!
//! * `T` (bit 7) - test bit
//! * `P/N` (bit 6) - positive/negative confirm (0 = positive, 1 = negative)
//!
//! IEC 60870-5-101 makes the originator-address octet optional (system
//! parameter). IEC 60870-5-104 fixes the COT at two octets.

use vstd::prelude::*;
use crate::bits::{flag, has, lemma_masks, lemma_set_bits};
use crate::buf::{decodes, ensure, fixed, get_u8, put_u8, room};
use crate::error::Result;

verus! {

/// Cause value (6-bit, 0..=63). Named constants hold the standard codes.
#[derive(Debug, Default, Clone, Copy, PartialEq, Eq, Hash, PartialOrd, Ord, Structural)]
pub struct Cause(pub u8);

impl Cause {
    pub const PERIODIC: u8 = 1;
    pub const BACKGROUND: u8 = 2;
    pub const SPONTANEOUS: u8 = 3;
    pub const INITIALIZED: u8 = 4;
    pub const REQUEST: u8 = 5;
    pub const ACTIVATION: u8 = 6;
    pub const ACTIVATION_CON: u8 = 7;
    pub const DEACTIVATION: u8 = 8;
    pub const DEACTIVATION_CON: u8 = 9;
    pub const ACTIVATION_TERMINATION: u8 = 10;
    pub const RETURN_REMOTE: u8 = 11;
    pub const RETURN_LOCAL: u8 = 12;
    pub const FILE_TRANSFER: u8 = 13;
    /// Interrogated by station interrogation (general).
    pub const INTERROGATED_GENERAL: u8 = 20;
    /// Requested by general counter request.
    pub const REQUESTED_COUNTER_GENERAL: u8 = 37;
    pub const UNKNOWN_TYPE_ID: u8 = 44;
    pub const UNKNOWN_CAUSE: u8 = 45;
    pub const UNKNOWN_CA: u8 = 46;
    pub const UNKNOWN_IOA: u8 = 47;

    /// Interrogated by group 1..16 interrogation: codes 21..=36.
    pub fn interrogated_group(n: u8) -> (cause: Self)
        requires
            n <= 235,
        ensures
            cause.0 == Self::INTERROGATED_GENERAL + n,
    {
        Cause(20 + n)
    }

    /// Requested by counter group 1..4: codes 38..=41.
    pub fn requested_counter_group(n: u8) -> (cause: Self)
        requires
            n <= 218,
        ensures
            cause.0 == Self::REQUESTED_COUNTER_GENERAL + n,
    {
        Cause(37 + n)
    }
}

/// Cause of Transmission as carried inside an ASDU header.
#[derive(Debug, Default, Clone, Copy, PartialEq, Eq, Hash, Structural)]
pub struct Cot {
    pub cause: Cause,
    /// `P/N` - set when the cause carries a negative confirmation.
    pub negative: bool,
    /// `T` - set when the ASDU was generated for test purposes.
    pub test: bool,
    /// Originator address. Only used when the system is configured for the
    /// 2-octet COT (always the case for IEC 60870-5-104).
    pub originator: u8,
}

impl Cot {
    /// Length in octets when the system parameter selects the 1-octet COT.
    pub const LEN_1: usize = 1;
    /// Length in octets when the system parameter selects the 2-octet COT
    /// (always for IEC 60870-5-104).
    pub const LEN_2: usize = 2;

    const CAUSE_MASK: u8 = 0x3F;
    const PN: u8 = 0x40;
    const T: u8 = 0x80;

    /// The first octet: cause, P/N and T. A cause above 63 loses its high bits.
    pub open spec fn octet(self) -> u8 {
        (self.cause.0 % 64 + flag(self.negative, 64) + flag(self.test, 128)) as u8
    }

    /// What a first octet and an originator address stand for.
    pub open spec fn of_octets(b: u8, originator: u8) -> Cot {
        Cot { cause: Cause(b % 64), negative: has(b, 64), test: has(b, 128), originator }
    }

    /// Convenience constructor for a positive, non-test activation.
    pub fn act() -> (cot: Self)
        ensures
            cot == (Cot {
                cause: Cause(Cause::ACTIVATION),
                negative: false,
                test: false,
                originator: 0,
            }),
    {
        Self::with(Cause(Cause::ACTIVATION))
    }

    /// Convenience constructor for a positive, non-test cause with originator 0.
    pub fn with(cause: Cause) -> (cot: Self)
        ensures
            cot == (Cot { cause, negative: false, test: false, originator: 0 }),
    {
        Cot { cause, negative: false, test: false, originator: 0 }
    }

    fn first_octet(self) -> (b: u8)
        ensures
            b == self.octet(),
    {
        proof { lemma_masks(self.cause.0); }
        let mut b: u8 = self.cause.0 & Self::CAUSE_MASK;
        if self.negative {
            proof { lemma_set_bits(b); }
            b |= Self::PN;
        }
        if self.test {
            proof { lemma_set_bits(b); }
            b |= Self::T;
        }
        b
    }

    fn parse_first_octet(b: u8) -> (cot: Self)
        ensures
            cot == Self::of_octets(b, 0),
    {
        proof { lemma_masks(b); }
        Cot {
            cause: Cause(b & Self::CAUSE_MASK),
            negative: b & Self::PN != 0,
            test: b & Self::T != 0,
            originator: 0,
        }
    }

    /// Encode in 1-octet form (no originator address).
    pub fn encode_1(self, buf: &mut Vec<u8>)
        requires
            room(old(buf)@, 1),
        ensures
            final(buf)@ == old(buf)@ + seq![self.octet()],
    {
        put_u8(buf, self.first_octet());
    }

    /// Encode in 2-octet form (originator address as the second byte).
    pub fn encode_2(self, buf: &mut Vec<u8>)
        requires
            room(old(buf)@, 2),
        ensures
            final(buf)@ == old(buf)@ + seq![self.octet(), self.originator],
    {
        put_u8(buf, self.first_octet());
        put_u8(buf, self.originator);
    }

    /// Decode in 1-octet form.
    pub fn decode_1(buf: &mut &[u8]) -> (r: Result<Self>)
        ensures
            decodes(
                old(buf)@,
                final(buf)@,
                r,
                fixed(old(buf)@, 1, Self::of_octets(old(buf)@[0], 0)),
            ),
    {
        ensure(buf, Self::LEN_1)?;
        Ok(Self::parse_first_octet(get_u8(buf)))
    }

    /// Decode in 2-octet form.
    pub fn decode_2(buf: &mut &[u8]) -> (r: Result<Self>)
        ensures
            decodes(
                old(buf)@,
                final(buf)@,
                r,
                fixed(old(buf)@, 2, Self::of_octets(old(buf)@[0], old(buf)@[1])),
            ),
    {
        ensure(buf, Self::LEN_2)?;
        let first: u8 = get_u8(buf);
        let originator: u8 = get_u8(buf);
        let mut cot = Self::parse_first_octet(first);
        cot.originator = originator;
        Ok(cot)
    }
}

/// A cause of transmission survives the wire: the first octet gives back the
/// cause modulo 64 and both flags.
pub proof fn law_cot_round_trip(cot: Cot)
    ensures
        Cot::of_octets(cot.octet(), cot.originator) == (Cot {
            cause: Cause(cot.cause.0 % 64),
            ..cot
        }),
{
}

} // verus!
