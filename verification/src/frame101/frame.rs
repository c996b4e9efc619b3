//! FT 1.2 frame types for IEC 60870-5-101.
//!
//! Three frame formats are defined in IEC 60870-5-1:
//!
//! ```text
//! Single-char:  [0xE5]  or  [0xA2]
//!
//! Fixed-length (5 + extra LA octets):
//!   +------+----+----+----+------+
//!   | 0x10 | C  | LA | CS | 0x16 |
//!   +------+----+----+----+------+
//!
//! Variable-length:
//!   +------+----+----+------+----+----+--------+----+------+
//!   | 0x68 | L  | L  | 0x68 | C  | LA | ASDU.. | CS | 0x16 |
//!   +------+----+----+------+----+----+--------+----+------+
//! ```
//!
//! `LA` occupies 1 or 2 octets depending on the system-wide [`LinkAddressSize`]
//! configuration. The checksum `CS` is the arithmetic sum (mod 256) of the
//! control byte, all link-address bytes, and all ASDU bytes.

use vstd::prelude::*;
use crate::bits::lemma_u24_split;
use crate::buf::{le16, put_u16_le, put_u8, room, u16_from_le, u16_of};

verus! {

/// A single-character frame - a raw acknowledgement octet.
#[derive(Debug, Clone, Copy, PartialEq, Eq, Hash, Structural)]
pub enum SingleChar {
    /// Positive acknowledgement (`0xE5`).
    Ack,
    /// Negative acknowledgement (`0xA2`).
    Nack,
}

impl SingleChar {
    /// The octet on the wire.
    pub open spec fn octet(self) -> u8 {
        match self {
            SingleChar::Ack => 0xE5,
            SingleChar::Nack => 0xA2,
        }
    }

    /// Parse a raw byte into a `SingleChar`, returning `None` if the byte is
    /// not a valid single-character frame value.
    pub fn from_byte(b: u8) -> (r: Option<Self>)
        ensures
            forall|c: SingleChar| r == Some(c) <==> #[trigger] c.octet() == b,
    {
        match b {
            0xE5 => Some(SingleChar::Ack),
            0xA2 => Some(SingleChar::Nack),
            _ => None,
        }
    }

    /// The wire byte for this single-character frame.
    pub fn as_byte(self) -> (b: u8)
        ensures
            b == self.octet(),
    {
        match self {
            SingleChar::Ack => 0xE5,
            SingleChar::Nack => 0xA2,
        }
    }
}

/// Width of the link address field (1 or 2 octets).
///
/// This is a system-wide configuration parameter negotiated at deployment
/// time. It must be the same on both ends of the link.
#[derive(Debug, Default, Clone, Copy, PartialEq, Eq, Hash, Structural)]
pub enum LinkAddressSize {
    /// 1-octet link address (values 0..=255).
    #[default]
    One,
    /// 2-octet link address (values 0..=65535, little-endian on the wire).
    Two,
}

impl LinkAddressSize {
    /// Number of octets.
    pub open spec fn octets(self) -> nat {
        match self {
            LinkAddressSize::One => 1,
            LinkAddressSize::Two => 2,
        }
    }

    /// Number of wire octets consumed by this address size.
    pub fn len(self) -> (n: usize)
        ensures
            n == self.octets(),
    {
        match self {
            LinkAddressSize::One => 1,
            LinkAddressSize::Two => 2,
        }
    }

    /// Returns `false` - a link address always occupies at least one octet.
    pub fn is_empty(self) -> (b: bool)
        ensures
            b == (self.octets() == 0),
            !b,
    {
        false
    }
}

/// A link-layer address (1 or 2 octets on the wire, always stored as `u16`).
///
/// The wire encoding is little-endian for the 2-octet variant, matching the
/// general IEC 60870-5 convention for multi-octet integers.
#[derive(Debug, Default, Clone, Copy, PartialEq, Eq, Hash, PartialOrd, Ord, Structural)]
pub struct LinkAddress(pub u16);

impl LinkAddress {
    /// The octets on the wire. The one-octet form keeps the low octet.
    pub open spec fn wire(self, size: LinkAddressSize) -> Seq<u8> {
        match size {
            LinkAddressSize::One => seq![(self.0 % 256) as u8],
            LinkAddressSize::Two => le16(self.0 as int),
        }
    }

    /// The address that the first octets of `s` hold.
    pub open spec fn of(s: Seq<u8>, size: LinkAddressSize) -> LinkAddress {
        match size {
            LinkAddressSize::One => LinkAddress(s[0] as u16),
            LinkAddressSize::Two => LinkAddress(u16_of(s) as u16),
        }
    }

    /// Whether the address fits its width on the wire.
    pub open spec fn fits(self, size: LinkAddressSize) -> bool {
        size is One ==> self.0 < 256
    }

    /// Append this address to `buf` using `size`-wide encoding.
    /// Returns the number of bytes written (1 or 2).
    pub fn encode_to(self, buf: &mut Vec<u8>, size: LinkAddressSize) -> (n: usize)
        requires
            room(old(buf)@, size.octets() as int),
        ensures
            final(buf)@ == old(buf)@ + self.wire(size),
            n == size.octets(),
    {
        match size {
            LinkAddressSize::One => {
                proof { lemma_u24_split(self.0 as u32); }
                put_u8(buf, self.0 as u8);
                1
            },
            LinkAddressSize::Two => {
                put_u16_le(buf, self.0);
                2
            },
        }
    }

    /// Decode a link address from a byte slice.
    ///
    /// Returns `None` if the slice is too short for the requested size.
    pub fn decode_from(buf: &[u8], size: LinkAddressSize) -> (r: Option<Self>)
        ensures
            r == (if buf@.len() < size.octets() {
                None
            } else {
                Some(Self::of(buf@, size))
            }),
    {
        if buf.len() < size.len() {
            return None;
        }
        match size {
            LinkAddressSize::One => Some(LinkAddress(buf[0] as u16)),
            LinkAddressSize::Two => Some(LinkAddress(u16_from_le(buf[0], buf[1]))),
        }
    }
}

/// An IEC 60870-5-101 FT 1.2 frame.
///
/// Three formats are defined by the standard:
///
/// * [`Single`](Frame101::Single) - a raw 1-octet ACK/NACK.
/// * [`Fixed`](Frame101::Fixed) - 5-octet control frame (no payload).
/// * [`Variable`](Frame101::Variable) - variable-length frame carrying an ASDU.
#[derive(Debug, Clone, PartialEq, Eq)]
pub enum Frame101 {
    /// Single-character frame (0xE5 = ACK, 0xA2 = NACK).
    Single(SingleChar),
    /// Fixed-length control frame (5 octets for 1-byte LA; 6 for 2-byte LA).
    Fixed {
        /// Control field byte.
        control: u8,
        /// Link address.
        address: LinkAddress,
    },
    /// Variable-length frame carrying an ASDU, where
    /// `L = 1 (control) + LA_size + len(ASDU)`.
    Variable {
        /// Control field byte.
        control: u8,
        /// Link address.
        address: LinkAddress,
        /// Raw ASDU bytes (application payload).
        asdu: Vec<u8>,
    },
}

/// What a [`Frame101`] holds.
pub enum FrameModel {
    Single(SingleChar),
    Fixed { control: u8, address: LinkAddress },
    Variable { control: u8, address: LinkAddress, asdu: Seq<u8> },
}

impl View for Frame101 {
    type V = FrameModel;

    open spec fn view(&self) -> FrameModel {
        match self {
            Frame101::Single(c) => FrameModel::Single(*c),
            Frame101::Fixed { control, address } => FrameModel::Fixed {
                control: *control,
                address: *address,
            },
            Frame101::Variable { control, address, asdu } => FrameModel::Variable {
                control: *control,
                address: *address,
                asdu: asdu@,
            },
        }
    }
}

impl Frame101 {
    /// A frame with the same content.
    pub(crate) fn duplicate(&self) -> (f: Frame101)
        ensures
            f@ == self@,
    {
        match self {
            Frame101::Single(c) => Frame101::Single(*c),
            Frame101::Fixed { control, address } => Frame101::Fixed {
                control: *control,
                address: *address,
            },
            Frame101::Variable { control, address, asdu } => Frame101::Variable {
                control: *control,
                address: *address,
                asdu: asdu.clone(),
            },
        }
    }
}

} // verus!
