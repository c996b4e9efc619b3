//! APDU codec: serialise and deserialise the on-wire APDU.
//!
//! Wire layout (6 + ASDU octets):
//!
//! ```text
//! 0x68  L  C1  C2  C3  C4   ASDU...
//! ```
//!
//! `L = 4 + |ASDU|`. The low two bits of `C1` discriminate the format
//! (`..0` = I, `01` = S, `11` = U).

use vstd::prelude::*;
use crate::bits::lemma_masks;
use crate::buf::{
    get_u8, le16, put_slice, put_u16_le, put_u8, remaining, room, take_vec, u16_from_le, u16_of,
};
use crate::error::{Error, Result};
use crate::frame104::apdu::{Apdu, ApduModel, UFunction, MAX_ASDU_LEN};
use crate::frame104::seq::{is_seq, SeqNo};

verus! {

/// Start-of-frame byte for all IEC 60870-5-104 APDUs.
pub const START: u8 = 0x68;

impl ApduModel {
    /// Whether the frame can be put on the wire: an I-frame's ASDU has a
    /// largest length.
    pub open spec fn encodable(self) -> bool {
        self matches ApduModel::I { asdu, .. } ==> asdu.len() <= MAX_ASDU_LEN
    }

    /// Whether the sequence numbers are sequence numbers.
    pub open spec fn well_formed(self) -> bool {
        match self {
            ApduModel::I { send, recv, .. } => is_seq(send) && is_seq(recv),
            ApduModel::S { recv } => is_seq(recv),
            ApduModel::U { .. } => true,
        }
    }

    /// The octets on the wire.
    pub open spec fn wire(self) -> Seq<u8> {
        match self {
            ApduModel::I { send, recv, asdu } => seq![START, (4 + asdu.len()) as u8] + le16(
                2 * send,
            ) + le16(2 * recv) + asdu,
            ApduModel::S { recv } => seq![START, 4u8, 0x01u8, 0x00u8] + le16(2 * recv),
            ApduModel::U { function } => seq![START, 4u8, function.octet(), 0u8, 0u8, 0u8],
        }
    }
}

/// The control field and ASDU at the front of `s`, of which `length` octets
/// belong to the frame.
pub open spec fn body_of(s: Seq<u8>, length: int) -> Result<ApduModel> {
    if s[0] % 2 == 0 {
        Ok(
            ApduModel::I {
                send: u16_of(s) / 2,
                recv: u16_of(s.skip(2)) / 2,
                asdu: s.subrange(4, length),
            },
        )
    } else if length != 4 {
        Err(Error::LengthMismatch { declared: length as usize, actual: 4 })
    } else if s[0] % 4 == 1 {
        Ok(ApduModel::S { recv: u16_of(s.skip(2)) / 2 })
    } else if exists|f: UFunction| f.octet() == s[0] {
        Ok(ApduModel::U { function: choose|f: UFunction| f.octet() == s[0] })
    } else {
        Err(Error::UnsupportedFormat)
    }
}

/// The frame at the front of `s` and its number of octets; `None` while more
/// octets are needed.
pub open spec fn frame_of(s: Seq<u8>) -> Result<Option<(ApduModel, int)>> {
    if s.len() < 2 {
        Ok(None)
    } else if s[0] != START {
        Err(Error::InvalidStartByte { expected: START, got: s[0] })
    } else if s[1] < 4 {
        Err(Error::LengthMismatch { declared: s[1] as usize, actual: 4 })
    } else if s.len() < 2 + s[1] {
        Ok(None)
    } else {
        match body_of(s.skip(2), s[1] as int) {
            Ok(apdu) => Ok(Some((apdu, 2 + s[1]))),
            Err(e) => Err(e),
        }
    }
}

/// How many octets of a malformed frame a consuming decoder has read when it
/// finds the fault: the header, or the header and the control field.
pub open spec fn read_before_fault(s: Seq<u8>) -> int {
    if s[0] != START || s[1] < 4 {
        2
    } else {
        6
    }
}

/// Stateless APDU codec.
#[derive(Debug, Default, Clone, Copy)]
pub struct Codec;

impl Codec {
    /// Encode an APDU to `buf`. Returns the number of bytes written, or
    /// [`Error::AsduTooLong`] if the I-frame's ASDU exceeds
    /// [`MAX_ASDU_LEN`]. The buffer is left untouched on error so a
    /// rejected encode never produces a partial frame.
    pub fn encode(apdu: &Apdu, buf: &mut Vec<u8>) -> (r: Result<usize>)
        requires
            apdu@.encodable() ==> room(old(buf)@, apdu@.wire().len() as int),
        ensures
            match r {
                Ok(n) => apdu@.encodable() && n == apdu@.wire().len() && final(buf)@ == old(buf)@
                    + apdu@.wire(),
                Err(e) => !apdu@.encodable() && e == (Error::AsduTooLong {
                    len: apdu@->asdu.len() as usize,
                    max: MAX_ASDU_LEN,
                }) && final(buf)@ == old(buf)@,
            },
    {
        if let Apdu::I { asdu, .. } = apdu {
            if asdu.len() > MAX_ASDU_LEN {
                return Err(Error::AsduTooLong { len: asdu.len(), max: MAX_ASDU_LEN });
            }
        }
        let start: usize = buf.len();
        match apdu {
            Apdu::I { send, recv, asdu } => {
                let length: u8 = 4 + asdu.len() as u8;
                put_u8(buf, START);
                put_u8(buf, length);
                put_u16_le(buf, send.to_wire());
                put_u16_le(buf, recv.to_wire());
                put_slice(buf, asdu.as_slice());
            },
            Apdu::S { recv } => {
                put_u8(buf, START);
                put_u8(buf, 4);
                put_u8(buf, 0x01);
                put_u8(buf, 0x00);
                put_u16_le(buf, recv.to_wire());
            },
            Apdu::U { function } => {
                put_u8(buf, START);
                put_u8(buf, 4);
                put_u8(buf, function.first_octet());
                put_u8(buf, 0x00);
                put_u8(buf, 0x00);
                put_u8(buf, 0x00);
            },
        }
        assert(buf@ =~= old(buf)@ + apdu@.wire());
        Ok(buf.len() - start)
    }

    /// Attempt to parse one APDU from the head of `buf`. Returns `Ok(None)`
    /// if the buffer doesn't yet contain a complete frame - nothing has been
    /// consumed then, and callers should retry after more bytes arrive.
    /// Returns `Err` for malformed frames.
    pub fn decode(buf: &mut &[u8]) -> (r: Result<Option<Apdu>>)
        ensures
            match r {
                Ok(Some(apdu)) => exists|n: int|
                    frame_of(old(buf)@) == Ok::<Option<(ApduModel, int)>, Error>(Some((apdu@, n)))
                        && #[trigger] old(buf)@.skip(n) == final(buf)@,
                Ok(None) => frame_of(old(buf)@) == Ok::<Option<(ApduModel, int)>, Error>(None)
                    && final(buf)@ == old(buf)@,
                Err(e) => frame_of(old(buf)@) == Err::<Option<(ApduModel, int)>, Error>(e)
                    && final(buf)@ == old(buf)@.skip(read_before_fault(old(buf)@)),
            },
    {
        if remaining(buf) < 2 {
            return Ok(None);
        }
        let whole: &[u8] = *buf;
        let start: u8 = get_u8(buf);
        let length: usize = get_u8(buf) as usize;
        assert(buf@ =~= whole@.skip(2));
        if start != START {
            return Err(Error::InvalidStartByte { expected: START, got: start });
        }
        if length < 4 {
            return Err(Error::LengthMismatch { declared: length, actual: 4 });
        }
        if remaining(buf) < length {
            *buf = whole;
            return Ok(None);
        }
        match Self::decode_payload(buf, length) {
            Ok(apdu) => {
                assert(buf@ =~= whole@.skip(2 + length));
                Ok(Some(apdu))
            },
            Err(e) => {
                assert(buf@ =~= whole@.skip(6));
                Err(e)
            },
        }
    }

    /// Like [`decode`](Self::decode) but operates on a `&[u8]` slice without
    /// consuming bytes on incomplete or invalid input. Returns
    /// `Ok((apdu, consumed))` on success, `Ok(None)` if more bytes are needed.
    pub fn decode_slice(buf: &[u8]) -> (r: Result<Option<(Apdu, usize)>>)
        ensures
            frame_of(buf@) == (match r {
                Ok(Some((apdu, consumed))) => Ok::<Option<(ApduModel, int)>, Error>(
                    Some((apdu@, consumed as int)),
                ),
                Ok(None) => Ok(None),
                Err(e) => Err(e),
            }),
    {
        if buf.len() < 2 {
            return Ok(None);
        }
        if buf[0] != START {
            return Err(Error::InvalidStartByte { expected: START, got: buf[0] });
        }
        let length: usize = buf[1] as usize;
        if length < 4 {
            return Err(Error::LengthMismatch { declared: length, actual: 4 });
        }
        let total: usize = 2 + length;
        if buf.len() < total {
            return Ok(None);
        }
        let mut slice: &[u8] = &buf[2..total];
        proof {
            let s = buf@.skip(2);
            assert(slice@.subrange(4, length as int) =~= s.subrange(4, length as int));
            assert(u16_of(slice@.skip(2)) == u16_of(s.skip(2)));
        }
        let apdu = Self::decode_payload(&mut slice, length)?;
        Ok(Some((apdu, total)))
    }

    fn decode_payload(buf: &mut &[u8], length: usize) -> (r: Result<Apdu>)
        requires
            4 <= length <= old(buf)@.len(),
        ensures
            body_of(old(buf)@, length as int) == (match r {
                Ok(apdu) => Ok::<ApduModel, Error>(apdu@),
                Err(e) => Err(e),
            }),
            final(buf)@ == old(buf)@.skip(
                if r is Ok {
                    length as int
                } else {
                    4
                },
            ),
    {
        let ghost s = buf@;
        let c1: u8 = get_u8(buf);
        let c2: u8 = get_u8(buf);
        let c3: u8 = get_u8(buf);
        let c4: u8 = get_u8(buf);
        assert(buf@ =~= s.skip(4));
        proof { lemma_masks(c1); }
        if c1 & 0x01 == 0 {
            let send = SeqNo::from_wire(u16_from_le(c1, c2));
            let recv = SeqNo::from_wire(u16_from_le(c3, c4));
            let asdu: Vec<u8> = take_vec(buf, length - 4);
            assert(asdu@ =~= s.subrange(4, length as int));
            assert(buf@ =~= s.skip(length as int));
            Ok(Apdu::I { send, recv, asdu })
        } else if length != 4 {
            Err(Error::LengthMismatch { declared: length, actual: 4 })
        } else if c1 & 0x03 == 0x01 {
            let recv = SeqNo::from_wire(u16_from_le(c3, c4));
            Ok(Apdu::S { recv })
        } else {
            // C2/C3/C4 must be zero in a valid U-frame; non-zero octets are
            // ignored for forward compatibility with vendor extensions.
            match UFunction::from_first_octet(c1) {
                Some(function) => {
                    assert(function.octet() == c1);
                    Ok(Apdu::U { function })
                },
                None => Err(Error::UnsupportedFormat),
            }
        }
    }
}

/// A frame is decoded again as it was encoded, whatever follows it, and
/// exactly its own octets are counted.
pub proof fn law_apdu_round_trip(apdu: ApduModel, rest: Seq<u8>)
    requires
        apdu.encodable(),
        apdu.well_formed(),
    ensures
        frame_of(apdu.wire() + rest) == Ok::<Option<(ApduModel, int)>, Error>(
            Some((apdu, apdu.wire().len() as int)),
        ),
{
    let s = apdu.wire() + rest;
    let b = s.skip(2);
    match apdu {
        ApduModel::I { send, recv, asdu } => {
            assert(b.subrange(4, 4 + asdu.len() as int) =~= asdu);
            assert(u16_of(b) == 2 * send);
            assert(u16_of(b.skip(2)) == 2 * recv);
        },
        ApduModel::S { recv } => {
            assert(u16_of(b.skip(2)) == 2 * recv);
        },
        ApduModel::U { function } => {
            assert(function.octet() == b[0]);
        },
    }
}

/// No frame on the wire is longer than the largest APDU.
pub proof fn law_apdu_bounded(apdu: ApduModel)
    requires
        apdu.encodable(),
    ensures
        6 <= apdu.wire().len() <= crate::frame104::apdu::MAX_APDU_LEN,
{
}

/// What is incomplete stays undecided until the whole frame is there, and
/// octets behind a complete frame do not change how it is read.
pub proof fn law_frame_prefix(s: Seq<u8>, more: Seq<u8>)
    requires
        frame_of(s) != Ok::<Option<(ApduModel, int)>, Error>(None),
    ensures
        frame_of(s + more) == frame_of(s),
{
    let t = s + more;
    if s.len() >= 2 && s[0] == START && s[1] >= 4 {
        let length = s[1] as int;
        let a = s.skip(2);
        let b = t.skip(2);
        assert(a.subrange(4, length) =~= b.subrange(4, length));
        assert(u16_of(a) == u16_of(b));
        assert(u16_of(a.skip(2)) == u16_of(b.skip(2)));
    }
}

} // verus!
