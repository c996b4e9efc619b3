//! ASDU header: Type ID, VSQ, COT, CA, plus the addressing-width configuration
//! that determines how those fields are serialised.

use vstd::prelude::*;
use crate::asdu::cot::Cot;
use crate::bits::{flag, has, lemma_masks, lemma_set_bits, lemma_u24_split};
use crate::buf::{
    decodes, ensure, fixed, get_u16_le, get_u24_le, get_u8, le16, le24, put_u16_le, put_u24_le,
    put_u8, room, u16_of, u24_of, Decoded,
};
use crate::error::Result;

verus! {

// ---------------------------------------------------------------------------
// Variable Structure Qualifier
// ---------------------------------------------------------------------------

/// Variable Structure Qualifier - top bit selects single-IOA sequence mode,
/// low 7 bits hold the number of information objects.
#[derive(Debug, Default, Clone, Copy, PartialEq, Eq, Hash, Structural)]
pub struct Vsq {
    /// `SQ` - when `true`, the ASDU contains a single IOA followed by
    /// `count` consecutive information elements. When `false`, each
    /// information object carries its own IOA.
    pub sequence: bool,
    /// Number of information objects (0..=127). Values above 127 are
    /// truncated on encode to match the 7-bit wire field.
    pub count: u8,
}

impl Vsq {
    pub const LEN: usize = 1;
    const SQ: u8 = 0x80;
    const COUNT_MASK: u8 = 0x7F;

    /// The octet on the wire.
    pub open spec fn octet(self) -> u8 {
        (self.count % 128 + flag(self.sequence, 128)) as u8
    }

    /// What an octet stands for.
    pub open spec fn of_octet(b: u8) -> Vsq {
        Vsq { sequence: has(b, 128), count: b % 128 }
    }

    /// Build a VSQ where each information object carries its own IOA.
    pub fn single(count: u8) -> (vsq: Self)
        ensures
            vsq == (Vsq { sequence: false, count }),
    {
        Vsq { sequence: false, count }
    }

    /// Build a VSQ describing a sequence of `count` elements sharing a single IOA.
    pub fn sequence(count: u8) -> (vsq: Self)
        ensures
            vsq == (Vsq { sequence: true, count }),
    {
        Vsq { sequence: true, count }
    }

    pub fn encode(self, buf: &mut Vec<u8>)
        requires
            room(old(buf)@, Self::LEN as int),
        ensures
            final(buf)@ == old(buf)@ + seq![self.octet()],
    {
        proof { lemma_masks(self.count); }
        let mut b: u8 = self.count & Self::COUNT_MASK;
        if self.sequence {
            proof { lemma_set_bits(b); }
            b |= Self::SQ;
        }
        put_u8(buf, b);
    }

    pub fn decode(buf: &mut &[u8]) -> (r: Result<Self>)
        ensures
            decodes(old(buf)@, final(buf)@, r, fixed(old(buf)@, 1, Self::of_octet(old(buf)@[0]))),
    {
        ensure(buf, Self::LEN)?;
        let b: u8 = get_u8(buf);
        proof { lemma_masks(b); }
        Ok(Vsq { sequence: b & Self::SQ != 0, count: b & Self::COUNT_MASK })
    }
}

/// A VSQ survives the wire; a count above 127 is taken modulo 128.
pub proof fn law_vsq_round_trip(vsq: Vsq)
    ensures
        Vsq::of_octet(vsq.octet()) == (Vsq { sequence: vsq.sequence, count: vsq.count % 128 }),
{
}

// ---------------------------------------------------------------------------
// Addressing
// ---------------------------------------------------------------------------

/// Common Address of ASDU.
#[derive(Debug, Default, Clone, Copy, PartialEq, Eq, Hash, PartialOrd, Ord, Structural)]
pub struct CommonAddress(pub u16);

/// Information Object Address.
#[derive(Debug, Default, Clone, Copy, PartialEq, Eq, Hash, PartialOrd, Ord, Structural)]
pub struct Ioa(pub u32);

/// Width of the Cause of Transmission field.
#[derive(Debug, Default, Clone, Copy, PartialEq, Eq, Hash, Structural)]
pub enum CotSize {
    /// 1 octet - IEC 60870-5-101 configured for no originator address.
    One,
    /// 2 octets - IEC 60870-5-104 (always) and IEC 60870-5-101 with originator.
    #[default]
    Two,
}

/// Width of the Common Address field.
#[derive(Debug, Default, Clone, Copy, PartialEq, Eq, Hash, Structural)]
pub enum CaSize {
    One,
    #[default]
    Two,
}

/// Width of the Information Object Address field.
#[derive(Debug, Default, Clone, Copy, PartialEq, Eq, Hash, Structural)]
pub enum IoaSize {
    One,
    Two,
    #[default]
    Three,
}

/// Addressing-width configuration that turns wire bytes into structured
/// fields. These are deployment parameters fixed at link / system setup time.
#[derive(Debug, Default, Clone, Copy, PartialEq, Eq, Hash, Structural)]
pub struct AsduAddressing {
    pub cot_size: CotSize,
    pub ca_size: CaSize,
    pub ioa_size: IoaSize,
}

impl AsduAddressing {
    /// Default profile for IEC 60870-5-104: 2-octet COT, 2-octet CA, 3-octet IOA.
    #[verifier::allow_in_spec]
    pub fn iec104() -> Self
        returns
            (AsduAddressing {
                cot_size: CotSize::Two,
                ca_size: CaSize::Two,
                ioa_size: IoaSize::Three,
            }),
    {
        AsduAddressing { cot_size: CotSize::Two, ca_size: CaSize::Two, ioa_size: IoaSize::Three }
    }

    /// A common IEC 60870-5-101 profile: 2-octet COT (with originator),
    /// 2-octet CA, 2-octet IOA. Override individual fields as required.
    #[verifier::allow_in_spec]
    pub fn iec101_default() -> Self
        returns
            (AsduAddressing {
                cot_size: CotSize::Two,
                ca_size: CaSize::Two,
                ioa_size: IoaSize::Two,
            }),
    {
        AsduAddressing { cot_size: CotSize::Two, ca_size: CaSize::Two, ioa_size: IoaSize::Two }
    }

    /// Number of octets of the cause of transmission.
    pub open spec fn cot_octets(self) -> nat {
        match self.cot_size {
            CotSize::One => 1,
            CotSize::Two => 2,
        }
    }

    pub(crate) fn cot_len(self) -> (n: usize)
        ensures
            n == self.cot_octets(),
    {
        match self.cot_size {
            CotSize::One => Cot::LEN_1,
            CotSize::Two => Cot::LEN_2,
        }
    }

    pub(crate) fn ca_len(self) -> (n: usize)
        ensures
            n == ca_octets(self.ca_size),
    {
        match self.ca_size {
            CaSize::One => 1,
            CaSize::Two => 2,
        }
    }
}

/// Number of octets of a common address.
pub open spec fn ca_octets(size: CaSize) -> nat {
    match size {
        CaSize::One => 1,
        CaSize::Two => 2,
    }
}

/// The octets of a common address. The one-octet form keeps the low octet.
pub open spec fn ca_wire(ca: CommonAddress, size: CaSize) -> Seq<u8> {
    match size {
        CaSize::One => seq![(ca.0 % 256) as u8],
        CaSize::Two => le16(ca.0 as int),
    }
}

/// The common address that the first octets of `s` hold.
pub open spec fn ca_of(s: Seq<u8>, size: CaSize) -> CommonAddress {
    match size {
        CaSize::One => CommonAddress(s[0] as u16),
        CaSize::Two => CommonAddress(u16_of(s) as u16),
    }
}

/// Number of octets of an information object address.
pub open spec fn ioa_octets(size: IoaSize) -> nat {
    match size {
        IoaSize::One => 1,
        IoaSize::Two => 2,
        IoaSize::Three => 3,
    }
}

/// The octets of an information object address. Each form keeps as many low
/// octets as it has.
pub open spec fn ioa_wire(ioa: Ioa, size: IoaSize) -> Seq<u8> {
    match size {
        IoaSize::One => seq![(ioa.0 % 256) as u8],
        IoaSize::Two => le16(ioa.0 as int),
        IoaSize::Three => le24(ioa.0 as int),
    }
}

/// The information object address that the first octets of `s` hold.
pub open spec fn ioa_of(s: Seq<u8>, size: IoaSize) -> Ioa {
    match size {
        IoaSize::One => Ioa(s[0] as u32),
        IoaSize::Two => Ioa(u16_of(s) as u32),
        IoaSize::Three => Ioa(u24_of(s) as u32),
    }
}

/// What decoding an information object address from the front of `s` comes to.
pub open spec fn ioa_decoded(s: Seq<u8>, size: IoaSize) -> Decoded<Ioa> {
    fixed(s, ioa_octets(size), ioa_of(s, size))
}

/// Whether an information object address fits the width that it has on the wire.
pub open spec fn ioa_fits(ioa: Ioa, size: IoaSize) -> bool {
    match size {
        IoaSize::One => ioa.0 < 256,
        IoaSize::Two => ioa.0 < 65536,
        IoaSize::Three => ioa.0 < 16777216,
    }
}

/// Whether a common address fits the width that it has on the wire.
pub open spec fn ca_fits(ca: CommonAddress, size: CaSize) -> bool {
    size is One ==> ca.0 < 256
}

/// A common address that fits is read back as it was written, whatever follows.
pub proof fn law_ca_round_trip(ca: CommonAddress, size: CaSize, rest: Seq<u8>)
    ensures
        ca_wire(ca, size).len() == ca_octets(size),
        ca_fits(ca, size) ==> ca_of(ca_wire(ca, size) + rest, size) == ca,
{
}

/// An information object address that fits is read back as it was written,
/// whatever follows.
pub proof fn law_ioa_round_trip(ioa: Ioa, size: IoaSize, rest: Seq<u8>)
    ensures
        ioa_wire(ioa, size).len() == ioa_octets(size),
        ioa_fits(ioa, size) ==> ioa_decoded(ioa_wire(ioa, size) + rest, size) == (Decoded {
            result: Ok(ioa),
            used: ioa_octets(size),
        }),
{
}

pub fn encode_ca(buf: &mut Vec<u8>, ca: CommonAddress, size: CaSize)
    requires
        room(old(buf)@, ca_octets(size) as int),
    ensures
        final(buf)@ == old(buf)@ + ca_wire(ca, size),
{
    match size {
        CaSize::One => {
            proof { lemma_u24_split(ca.0 as u32); }
            put_u8(buf, ca.0 as u8)
        },
        CaSize::Two => put_u16_le(buf, ca.0),
    }
}

pub fn decode_ca(buf: &mut &[u8], size: CaSize) -> (r: Result<CommonAddress>)
    ensures
        decodes(old(buf)@, final(buf)@, r, fixed(old(buf)@, ca_octets(size), ca_of(old(buf)@, size))),
{
    match size {
        CaSize::One => {
            ensure(buf, 1)?;
            Ok(CommonAddress(get_u8(buf) as u16))
        },
        CaSize::Two => {
            ensure(buf, 2)?;
            Ok(CommonAddress(get_u16_le(buf)))
        },
    }
}

pub fn encode_ioa(buf: &mut Vec<u8>, ioa: Ioa, size: IoaSize)
    requires
        room(old(buf)@, ioa_octets(size) as int),
    ensures
        final(buf)@ == old(buf)@ + ioa_wire(ioa, size),
{
    proof { lemma_u24_split(ioa.0); }
    match size {
        IoaSize::One => put_u8(buf, ioa.0 as u8),
        IoaSize::Two => put_u16_le(buf, ioa.0 as u16),
        IoaSize::Three => put_u24_le(buf, ioa.0),
    }
}

pub fn decode_ioa(buf: &mut &[u8], size: IoaSize) -> (r: Result<Ioa>)
    ensures
        decodes(old(buf)@, final(buf)@, r, ioa_decoded(old(buf)@, size)),
{
    match size {
        IoaSize::One => {
            ensure(buf, 1)?;
            Ok(Ioa(get_u8(buf) as u32))
        },
        IoaSize::Two => {
            ensure(buf, 2)?;
            Ok(Ioa(get_u16_le(buf) as u32))
        },
        IoaSize::Three => {
            ensure(buf, 3)?;
            Ok(Ioa(get_u24_le(buf)))
        },
    }
}

} // verus!
