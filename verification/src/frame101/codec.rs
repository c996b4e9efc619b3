//! FT 1.2 codec: encode and decode [`Frame101`] values to/from raw bytes.
//!
//! The codec is **stateless** - it holds no per-connection state and can be
//! shared freely.
//!
//! ## Wire layouts
//!
//! ```text
//! Single:   [0xE5]  or  [0xA2]
//!
//! Fixed:    0x10  C  LA..  CS  0x16
//!
//! Variable: 0x68  L  L  0x68  C  LA..  ASDU..  CS  0x16
//! ```
//!
//! `CS` is the arithmetic sum (mod 256) of the bytes from `C` through the
//! last ASDU byte. This is **not** CRC-16.

use vstd::prelude::*;
use crate::bits::{lemma_octet_sum_concat, octet_sum};
use crate::buf::{put_slice, put_u8, room};
use crate::error::{Error, Result};
use crate::frame101::frame::{Frame101, FrameModel, LinkAddress, LinkAddressSize, SingleChar};

verus! {

/// Start byte of a fixed-length frame.
pub const START_FIXED: u8 = 0x10;

/// Start byte of a variable-length frame.
pub const START_VAR: u8 = 0x68;

/// End byte common to fixed- and variable-length frames.
pub const END: u8 = 0x16;

/// The octets that a checksum covers: control field, link address and ASDU.
pub open spec fn covered(
    control: u8,
    address: LinkAddress,
    size: LinkAddressSize,
    asdu: Seq<u8>,
) -> Seq<u8> {
    seq![control] + address.wire(size) + asdu
}

/// The sum of all octets of `s`, modulo 256.
pub open spec fn checksum(s: Seq<u8>) -> u8 {
    (octet_sum(s) % 256) as u8
}

impl FrameModel {
    /// The value of the length octets: what the checksum covers is counted.
    pub open spec fn length(self, size: LinkAddressSize) -> nat {
        match self {
            FrameModel::Variable { asdu, .. } => 1 + size.octets() + asdu.len(),
            _ => 1 + size.octets(),
        }
    }

    /// The octets on the wire. A length above 255 loses its high bits.
    pub open spec fn wire(self, size: LinkAddressSize) -> Seq<u8> {
        match self {
            FrameModel::Single(c) => seq![c.octet()],
            FrameModel::Fixed { control, address } => {
                let body = covered(control, address, size, Seq::empty());
                seq![START_FIXED] + body + seq![checksum(body), END]
            },
            FrameModel::Variable { control, address, asdu } => {
                let body = covered(control, address, size, asdu);
                let l = (self.length(size) % 256) as u8;
                seq![START_VAR, l, l, START_VAR] + body + seq![checksum(body), END]
            },
        }
    }

    /// Whether the frame can be carried unchanged.
    pub open spec fn fits(self, size: LinkAddressSize) -> bool {
        &&& self.length(size) <= 255
        &&& match self {
            FrameModel::Single(_) => true,
            FrameModel::Fixed { address, .. } => address.fits(size),
            FrameModel::Variable { address, .. } => address.fits(size),
        }
    }
}

/// Judges the checksum and end octets behind the octets `body`.
pub open spec fn closed_by(body: Seq<u8>, cs: u8, end: u8) -> Result<()> {
    if end != END {
        Err(Error::InvalidEndByte { expected: END, got: end })
    } else if cs != checksum(body) {
        Err(Error::ChecksumMismatch { expected: checksum(body), got: cs })
    } else {
        Ok(())
    }
}

/// The fixed-length frame at the front of `s`.
pub open spec fn fixed_frame_of(s: Seq<u8>, size: LinkAddressSize) -> Result<
    Option<(FrameModel, int)>,
> {
    let n = size.octets() as int;
    if s.len() < 4 + n {
        Ok(None)
    } else {
        match closed_by(s.subrange(1, 2 + n), s[2 + n], s[3 + n]) {
            Ok(()) => Ok(
                Some(
                    (
                        FrameModel::Fixed {
                            control: s[1],
                            address: LinkAddress::of(s.skip(2), size),
                        },
                        4 + n,
                    ),
                ),
            ),
            Err(e) => Err(e),
        }
    }
}

/// The variable-length frame at the front of `s`.
pub open spec fn variable_frame_of(s: Seq<u8>, size: LinkAddressSize) -> Result<
    Option<(FrameModel, int)>,
> {
    let n = size.octets() as int;
    let l = s[1] as int;
    if s.len() < 6 {
        Ok(None)
    } else if s[1] != s[2] {
        Err(Error::LengthOctetsDiffer { first: s[1], second: s[2] })
    } else if l < 1 + n {
        Err(Error::LengthMismatch { declared: l as usize, actual: (1 + n) as usize })
    } else if s.len() < 6 + l {
        Ok(None)
    } else if s[3] != START_VAR {
        Err(Error::InvalidStartByte { expected: START_VAR, got: s[3] })
    } else {
        match closed_by(s.subrange(4, 4 + l), s[4 + l], s[5 + l]) {
            Ok(()) => Ok(
                Some(
                    (
                        FrameModel::Variable {
                            control: s[4],
                            address: LinkAddress::of(s.skip(5), size),
                            asdu: s.subrange(5 + n, 4 + l),
                        },
                        6 + l,
                    ),
                ),
            ),
            Err(e) => Err(e),
        }
    }
}

/// The frame at the front of `s` and its number of octets; `None` while more
/// octets are needed.
pub open spec fn frame_of(s: Seq<u8>, size: LinkAddressSize) -> Result<Option<(FrameModel, int)>> {
    if s.len() == 0 {
        Ok(None)
    } else if s[0] == SingleChar::Ack.octet() {
        Ok(Some((FrameModel::Single(SingleChar::Ack), 1)))
    } else if s[0] == SingleChar::Nack.octet() {
        Ok(Some((FrameModel::Single(SingleChar::Nack), 1)))
    } else if s[0] == START_FIXED {
        fixed_frame_of(s, size)
    } else if s[0] == START_VAR {
        variable_frame_of(s, size)
    } else {
        Err(Error::InvalidStartByte { expected: START_FIXED, got: s[0] })
    }
}

/// Stateless FT 1.2 codec.
#[derive(Debug, Default, Clone, Copy)]
pub struct Codec;

impl Codec {
    /// Encode `frame` into `buf`. Returns the number of bytes written.
    ///
    /// The link address is encoded with the supplied `addr_size`. For
    /// [`Frame101::Single`] the `addr_size` is ignored.
    pub fn encode(frame: &Frame101, buf: &mut Vec<u8>, addr_size: LinkAddressSize) -> (n: usize)
        requires
            room(old(buf)@, frame@.wire(addr_size).len() as int),
        ensures
            final(buf)@ == old(buf)@ + frame@.wire(addr_size),
            n == frame@.wire(addr_size).len(),
    {
        let n: usize = match frame {
            Frame101::Single(sc) => {
                put_u8(buf, sc.as_byte());
                1
            },
            Frame101::Fixed { control, address } => {
                let cs: u8 = checksum_fixed(*control, *address, addr_size);
                put_u8(buf, START_FIXED);
                put_u8(buf, *control);
                address.encode_to(buf, addr_size);
                put_u8(buf, cs);
                put_u8(buf, END);
                2 + addr_size.len() + 2
            },
            Frame101::Variable { control, address, asdu } => {
                let counted: usize = 1 + addr_size.len() + asdu.len();
                let length: u8 = (counted % 256) as u8;
                let cs: u8 = checksum_variable(*control, *address, addr_size, asdu.as_slice());
                put_u8(buf, START_VAR);
                put_u8(buf, length);
                put_u8(buf, length);
                put_u8(buf, START_VAR);
                put_u8(buf, *control);
                address.encode_to(buf, addr_size);
                put_slice(buf, asdu.as_slice());
                put_u8(buf, cs);
                put_u8(buf, END);
                4 + 1 + addr_size.len() + asdu.len() + 1 + 1
            },
        };
        assert(buf@ =~= old(buf)@ + frame@.wire(addr_size));
        n
    }

    /// Attempt to decode one frame from the head of `buf`.
    ///
    /// Returns `Ok(None)` if the buffer does not contain a complete frame -
    /// the caller should buffer more bytes and retry. Bytes are **never**
    /// consumed on `Ok(None)` or on `Err`.
    ///
    /// # Errors
    ///
    /// * [`Error::InvalidStartByte`] - the leading byte is not a known frame
    ///   discriminator and is not a single-character frame value.
    /// * [`Error::LengthOctetsDiffer`] - the two length bytes in a
    ///   variable-length frame do not match.
    /// * [`Error::LengthMismatch`] - the length bytes leave no room for control
    ///   field and link address.
    /// * [`Error::InvalidEndByte`] - the end byte is not `0x16`.
    /// * [`Error::ChecksumMismatch`] - the computed checksum does not match the
    ///   transmitted checksum.
    pub fn decode_slice(buf: &[u8], addr_size: LinkAddressSize) -> (r: Result<
        Option<(Frame101, usize)>,
    >)
        ensures
            frame_of(buf@, addr_size) == (match r {
                Ok(Some((frame, consumed))) => Ok::<Option<(FrameModel, int)>, Error>(
                    Some((frame@, consumed as int)),
                ),
                Ok(None) => Ok(None),
                Err(e) => Err(e),
            }),
    {
        if buf.len() == 0 {
            return Ok(None);
        }
        let first: u8 = buf[0];
        if let Some(sc) = SingleChar::from_byte(first) {
            assert(sc.octet() == first);
            return Ok(Some((Frame101::Single(sc), 1)));
        }
        assert(SingleChar::Ack.octet() != first && SingleChar::Nack.octet() != first);
        let la: usize = addr_size.len();
        if first == START_FIXED {
            // start + control + LA + CS + end
            let total: usize = 1 + 1 + la + 1 + 1;
            if buf.len() < total {
                return Ok(None);
            }
            let control: u8 = buf[1];
            let la_end: usize = 2 + la;
            let address = Self::address_at(buf, 2, addr_size);
            proof {
                assert(buf@.subrange(1, la_end as int) =~= covered(
                    control,
                    address,
                    addr_size,
                    Seq::empty(),
                ));
            }
            let cs_calc: u8 = checksum_fixed(control, address, addr_size);
            Self::check_close(cs_calc, buf[la_end], buf[la_end + 1])?;
            Ok(Some((Frame101::Fixed { control, address }, total)))
        } else if first == START_VAR {
            if buf.len() < 6 {
                return Ok(None);
            }
            let l1: u8 = buf[1];
            let l2: u8 = buf[2];
            if l1 != l2 {
                return Err(Error::LengthOctetsDiffer { first: l1, second: l2 });
            }
            // L counts control, link address and ASDU.
            let length: usize = l1 as usize;
            let min_length: usize = 1 + la;
            if length < min_length {
                return Err(Error::LengthMismatch { declared: length, actual: min_length });
            }
            // header + C, LA, ASDU + CS + end. A wrong second start octet is
            // not reported before the whole frame has arrived.
            let total: usize = 4 + length + 2;
            if buf.len() < total {
                return Ok(None);
            }
            let second_start: u8 = buf[3];
            if second_start != START_VAR {
                return Err(Error::InvalidStartByte { expected: START_VAR, got: second_start });
            }
            let control: u8 = buf[4];
            let asdu_start: usize = 5 + la;
            let asdu_end: usize = 4 + length;
            let address = Self::address_at(buf, 5, addr_size);
            let asdu_slice: &[u8] = &buf[asdu_start..asdu_end];
            proof {
                assert(buf@.subrange(4, asdu_end as int) =~= covered(
                    control,
                    address,
                    addr_size,
                    asdu_slice@,
                ));
            }
            let cs_calc: u8 = checksum_variable(control, address, addr_size, asdu_slice);
            Self::check_close(cs_calc, buf[asdu_end], buf[asdu_end + 1])?;
            let asdu: Vec<u8> = vstd::slice::slice_to_vec(asdu_slice);
            Ok(Some((Frame101::Variable { control, address, asdu }, total)))
        } else {
            Err(Error::InvalidStartByte { expected: START_FIXED, got: first })
        }
    }

    fn address_at(buf: &[u8], start: usize, size: LinkAddressSize) -> (address: LinkAddress)
        requires
            start + size.octets() <= buf.len(),
        ensures
            address == LinkAddress::of(buf@.skip(start as int), size),
            address.wire(size) == buf@.subrange(start as int, start + size.octets() as int),
    {
        let slice: &[u8] = &buf[start..start + size.len()];
        let address = match LinkAddress::decode_from(slice, size) {
            Some(a) => a,
            None => LinkAddress(0),
        };
        assert(address.wire(size) =~= buf@.subrange(start as int, start + size.octets() as int));
        address
    }

    fn check_close(cs_calc: u8, cs_wire: u8, end: u8) -> (r: Result<()>)
        ensures
            forall|body: Seq<u8>|
                checksum(body) == cs_calc ==> r == #[trigger] closed_by(body, cs_wire, end),
    {
        if end != END {
            return Err(Error::InvalidEndByte { expected: END, got: end });
        }
        if cs_calc != cs_wire {
            return Err(Error::ChecksumMismatch { expected: cs_calc, got: cs_wire });
        }
        Ok(())
    }
}

// ---------------------------------------------------------------------------
// Checksum helpers
// ---------------------------------------------------------------------------

proof fn lemma_covered_sum(
    control: u8,
    address: LinkAddress,
    size: LinkAddressSize,
    asdu: Seq<u8>,
)
    ensures
        octet_sum(covered(control, address, size, asdu)) == control + octet_sum(address.wire(size))
            + octet_sum(asdu),
        octet_sum(address.wire(size)) == (match size {
            LinkAddressSize::One => address.0 as int % 256,
            LinkAddressSize::Two => address.0 as int % 256 + address.0 as int / 256,
        }),
{
    lemma_octet_sum_concat(seq![control], address.wire(size));
    lemma_octet_sum_concat(seq![control] + address.wire(size), asdu);
    reveal_with_fuel(octet_sum, 3);
    match size {
        LinkAddressSize::One => {},
        LinkAddressSize::Two => {
            assert(address.wire(size).drop_last() =~= seq![(address.0 % 256) as u8]);
        },
    }
}

/// Arithmetic checksum (mod 256) for a fixed-length frame.
///
/// Covers: `control` + all LA bytes.
fn checksum_fixed(control: u8, address: LinkAddress, size: LinkAddressSize) -> (cs: u8)
    ensures
        cs == checksum(covered(control, address, size, Seq::empty())),
{
    proof { lemma_covered_sum(control, address, size, Seq::empty()); }
    let sum: u16 = match size {
        LinkAddressSize::One => control as u16 + address.0 % 256,
        LinkAddressSize::Two => control as u16 + address.0 % 256 + address.0 / 256,
    };
    (sum % 256) as u8
}

/// Arithmetic checksum (mod 256) for a variable-length frame.
///
/// Covers: `control` + all LA bytes + all ASDU bytes.
fn checksum_variable(control: u8, address: LinkAddress, size: LinkAddressSize, asdu: &[u8]) -> (cs:
    u8)
    ensures
        cs == checksum(covered(control, address, size, asdu@)),
{
    let mut sum: u16 = checksum_fixed(control, address, size) as u16;
    let n: usize = asdu.len();
    let mut i: usize = 0;
    proof {
        assert(asdu@.take(0) =~= Seq::empty());
    }
    while i < n
        invariant
            i <= n,
            n == asdu@.len(),
            sum < 256,
            sum as u8 == checksum(covered(control, address, size, asdu@.take(i as int))),
        decreases n - i,
    {
        proof {
            lemma_covered_sum(control, address, size, asdu@.take(i as int));
            lemma_covered_sum(control, address, size, asdu@.take(i + 1));
            assert(asdu@.take(i + 1).drop_last() =~= asdu@.take(i as int));
        }
        sum = (sum + asdu[i] as u16) % 256;
        i += 1;
    }
    assert(asdu@.take(n as int) =~= asdu@);
    sum as u8
}

// ---------------------------------------------------------------------------
// Laws
// ---------------------------------------------------------------------------

/// A frame that fits is decoded again as it was encoded, whatever follows it,
/// and exactly its own octets are counted.
pub proof fn law_frame_round_trip(frame: FrameModel, size: LinkAddressSize, rest: Seq<u8>)
    requires
        frame.fits(size),
    ensures
        frame_of(frame.wire(size) + rest, size) == Ok::<Option<(FrameModel, int)>, Error>(
            Some((frame, frame.wire(size).len() as int)),
        ),
{
    let s = frame.wire(size) + rest;
    let n = size.octets() as int;
    match frame {
        FrameModel::Single(_) => {},
        FrameModel::Fixed { control, address } => {
            let body = covered(control, address, size, Seq::empty());
            assert(s.subrange(1, 2 + n) =~= body);
            assert(LinkAddress::of(s.skip(2), size) == address);
        },
        FrameModel::Variable { control, address, asdu } => {
            let body = covered(control, address, size, asdu);
            let l = frame.length(size) as int;
            assert(s.subrange(4, 4 + l) =~= body);
            assert(s.subrange(5 + n, 4 + l) =~= asdu);
            assert(LinkAddress::of(s.skip(5), size) == address);
        },
    }
}

/// Octets behind a complete frame do not change how it is read.
pub proof fn law_frame_prefix(s: Seq<u8>, size: LinkAddressSize, more: Seq<u8>)
    requires
        frame_of(s, size) != Ok::<Option<(FrameModel, int)>, Error>(None),
    ensures
        frame_of(s + more, size) == frame_of(s, size),
{
    let t = s + more;
    let n = size.octets() as int;
    if s[0] == START_FIXED {
        assert(t.subrange(1, 2 + n) =~= s.subrange(1, 2 + n));
        assert(LinkAddress::of(t.skip(2), size) == LinkAddress::of(s.skip(2), size));
    } else if s[0] == START_VAR {
        let l = s[1] as int;
        if s[1] == s[2] && l >= 1 + n {
            assert(t.subrange(4, 4 + l) =~= s.subrange(4, 4 + l));
            assert(t.subrange(5 + n, 4 + l) =~= s.subrange(5 + n, 4 + l));
            assert(LinkAddress::of(t.skip(5), size) == LinkAddress::of(s.skip(5), size));
        }
    }
}

} // verus!
