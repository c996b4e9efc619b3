//! The [`Asdu`] envelope: type-id + VSQ + COT + CA header, plus the
//! information-objects payload kept as raw bytes. [`AsduPayload`] gives the
//! bytes a type.

use vstd::prelude::*;
use crate::asdu::cot::{law_cot_round_trip, Cot};
use crate::asdu::header::{
    ca_fits, ca_octets, ca_of, ca_wire, decode_ca, encode_ca, law_ca_round_trip,
    law_vsq_round_trip, AsduAddressing, CommonAddress, CotSize, Vsq,
};
use crate::asdu::payload::AsduPayload;
use crate::buf::{
    decodes_view, ensure, get_u8, put_slice, put_u8, remaining, room, short_of, take_vec, Decoded,
};
use crate::error::{Error, Result};

verus! {

/// The wire form of an ASDU after the header has been parsed.
///
/// The information-objects payload is held as raw bytes. Call
/// [`Asdu::decode_payload`] to interpret the bytes as a specific Type ID.
#[derive(Debug, Default, Clone, PartialEq, Eq, Hash)]
pub struct Asdu {
    pub(crate) type_id: u8,
    pub(crate) vsq: Vsq,
    pub(crate) cot: Cot,
    pub(crate) ca: CommonAddress,
    /// Information-objects section, exactly as it appeared on the wire.
    pub(crate) payload: Vec<u8>,
}

/// What an [`Asdu`] holds.
pub struct AsduModel {
    pub type_id: u8,
    pub vsq: Vsq,
    pub cot: Cot,
    pub ca: CommonAddress,
    pub payload: Seq<u8>,
}

impl View for Asdu {
    type V = AsduModel;

    closed spec fn view(&self) -> AsduModel {
        AsduModel {
            type_id: self.type_id,
            vsq: self.vsq,
            cot: self.cot,
            ca: self.ca,
            payload: self.payload@,
        }
    }
}

/// Number of octets of the header: Type ID, VSQ, COT and CA.
pub open spec fn header_octets(addressing: AsduAddressing) -> nat {
    2 + addressing.cot_octets() + ca_octets(addressing.ca_size)
}

/// The octets of a cause of transmission in the configured width.
pub open spec fn cot_wire(cot: Cot, addressing: AsduAddressing) -> Seq<u8> {
    match addressing.cot_size {
        CotSize::One => seq![cot.octet()],
        CotSize::Two => seq![cot.octet(), cot.originator],
    }
}

/// The cause of transmission that the first octets of `s` hold. The one-octet
/// form carries no originator address, which is then 0.
pub open spec fn cot_of(s: Seq<u8>, addressing: AsduAddressing) -> Cot {
    match addressing.cot_size {
        CotSize::One => Cot::of_octets(s[0], 0),
        CotSize::Two => Cot::of_octets(s[0], s[1]),
    }
}

impl AsduModel {
    /// The octets of the whole ASDU.
    pub open spec fn wire(self, addressing: AsduAddressing) -> Seq<u8> {
        seq![self.type_id, self.vsq.octet()] + cot_wire(self.cot, addressing) + ca_wire(
            self.ca,
            addressing.ca_size,
        ) + self.payload
    }

    /// What decoding an ASDU from `s` comes to: everything behind the header
    /// is payload.
    pub open spec fn decoded(s: Seq<u8>, addressing: AsduAddressing) -> Decoded<AsduModel> {
        let n = header_octets(addressing);
        if s.len() < n {
            Decoded { result: Err(short_of(s, n as int)), used: 0 }
        } else {
            Decoded {
                result: Ok(
                    AsduModel {
                        type_id: s[0],
                        vsq: Vsq::of_octet(s[1]),
                        cot: cot_of(s.skip(2), addressing),
                        ca: ca_of(
                            s.skip(2 + addressing.cot_octets() as int),
                            addressing.ca_size,
                        ),
                        payload: s.skip(n as int),
                    },
                ),
                used: s.len(),
            }
        }
    }

    /// Whether the header fields fit the widths that they have on the wire.
    pub open spec fn fits(self, addressing: AsduAddressing) -> bool {
        &&& self.vsq.count < 128
        &&& self.cot.cause.0 < 64
        &&& addressing.cot_size is One ==> self.cot.originator == 0
        &&& ca_fits(self.ca, addressing.ca_size)
    }

    /// What decoding the payload as the concrete type `P` comes to.
    pub open spec fn typed<P: AsduPayload>(self, addressing: AsduAddressing) -> Result<P::V> {
        if self.type_id != P::code() {
            Err(Error::UnknownAsduType(self.type_id))
        } else {
            P::section_decoded(self.payload, self.vsq, addressing).result
        }
    }
}

impl Asdu {
    /// Header size in bytes for the given addressing profile (Type ID + VSQ + COT + CA).
    pub fn header_len(addressing: AsduAddressing) -> (n: usize)
        ensures
            n == header_octets(addressing),
    {
        1 + Vsq::LEN + addressing.cot_len() + addressing.ca_len()
    }

    /// Construct an `Asdu` from already-encoded payload bytes. Most callers
    /// should prefer [`Asdu::from_payload`], which serialises a typed
    /// payload, or [`Asdu::decode`], which parses one off the wire.
    pub fn new(type_id: u8, vsq: Vsq, cot: Cot, ca: CommonAddress, payload: Vec<u8>) -> (asdu: Self)
        ensures
            asdu@ == (AsduModel { type_id, vsq, cot, ca, payload: payload@ }),
    {
        Asdu { type_id, vsq, cot, ca, payload }
    }

    /// Type Identification field (e.g. `1` = `M_SP_NA_1`).
    pub fn type_id(&self) -> (r: u8)
        ensures
            r == self@.type_id,
    {
        self.type_id
    }

    /// Variable Structure Qualifier.
    pub fn vsq(&self) -> (r: Vsq)
        ensures
            r == self@.vsq,
    {
        self.vsq
    }

    /// Cause of Transmission.
    pub fn cot(&self) -> (r: Cot)
        ensures
            r == self@.cot,
    {
        self.cot
    }

    /// Common Address of ASDU.
    pub fn ca(&self) -> (r: CommonAddress)
        ensures
            r == self@.ca,
    {
        self.ca
    }

    /// Raw information-objects bytes (exactly as on the wire).
    pub fn payload_bytes(&self) -> (r: &[u8])
        ensures
            r@ == self@.payload,
    {
        self.payload.as_slice()
    }

    /// Build an Asdu by serialising a typed payload.
    pub fn from_payload<P: AsduPayload>(
        cot: Cot,
        ca: CommonAddress,
        vsq: Vsq,
        payload: &P,
        addressing: AsduAddressing,
    ) -> (asdu: Self)
        requires
            P::section(payload@, vsq, addressing).len() <= isize::MAX,
        ensures
            asdu@ == (AsduModel {
                type_id: P::code(),
                vsq,
                cot,
                ca,
                payload: P::section(payload@, vsq, addressing),
            }),
    {
        let mut bytes: Vec<u8> = Vec::new();
        payload.encode_information_objects(&mut bytes, vsq, addressing);
        assert(bytes@ =~= P::section(payload@, vsq, addressing));
        proof { P::law_type_id(); }
        Asdu { type_id: P::TYPE_ID, vsq, cot, ca, payload: bytes }
    }

    /// Decode the raw `payload` bytes as the concrete type `P`. Returns
    /// [`Error::UnknownAsduType`] if the type id does not match `P::TYPE_ID`.
    pub fn decode_payload<P: AsduPayload>(&self, addressing: AsduAddressing) -> (r: Result<P>)
        ensures
            match r {
                Ok(p) => self@.typed::<P>(addressing) == Ok::<P::V, Error>(p@),
                Err(e) => self@.typed::<P>(addressing) == Err::<P::V, Error>(e),
            },
    {
        proof { P::law_type_id(); }
        if self.type_id != P::TYPE_ID {
            return Err(Error::UnknownAsduType(self.type_id));
        }
        let mut slice: &[u8] = self.payload.as_slice();
        P::decode_information_objects(&mut slice, self.vsq, addressing)
    }

    /// Encode the complete ASDU (header + payload bytes) to `buf`.
    pub fn encode(&self, buf: &mut Vec<u8>, addressing: AsduAddressing)
        requires
            room(old(buf)@, (header_octets(addressing) + self@.payload.len()) as int),
        ensures
            final(buf)@ == old(buf)@ + self@.wire(addressing),
    {
        put_u8(buf, self.type_id);
        self.vsq.encode(buf);
        match addressing.cot_size {
            CotSize::One => self.cot.encode_1(buf),
            CotSize::Two => self.cot.encode_2(buf),
        }
        proof {
            law_ca_round_trip(self.ca, addressing.ca_size, Seq::empty());
        }
        encode_ca(buf, self.ca, addressing.ca_size);
        put_slice(buf, self.payload.as_slice());
        assert(buf@ =~= old(buf)@ + self@.wire(addressing));
    }

    /// Encode the complete ASDU (header + payload bytes) into a freshly
    /// allocated `Vec<u8>`. Convenience over [`Asdu::encode`] for the common
    /// case of "give me bytes I can ship".
    pub fn encode_to_vec(&self, addressing: AsduAddressing) -> (bytes: Vec<u8>)
        requires
            header_octets(addressing) + self@.payload.len() <= isize::MAX,
        ensures
            bytes@ == self@.wire(addressing),
    {
        let mut buf: Vec<u8> = Vec::with_capacity(Self::header_len(addressing) + self.payload.len());
        self.encode(&mut buf, addressing);
        assert(buf@ =~= self@.wire(addressing));
        buf
    }

    /// Decode an ASDU. The `payload` field captures the remaining bytes of
    /// the input. Returns [`Error::Incomplete`] if the input is shorter than
    /// the header.
    pub fn decode(buf: &mut &[u8], addressing: AsduAddressing) -> (r: Result<Self>)
        ensures
            decodes_view(old(buf)@, final(buf)@, r, AsduModel::decoded(old(buf)@, addressing)),
    {
        ensure(buf, Self::header_len(addressing))?;
        let ghost s = buf@;
        let type_id: u8 = get_u8(buf);
        let vsq = Vsq::decode(buf)?;
        assert(buf@ =~= s.skip(2));
        let cot = match addressing.cot_size {
            CotSize::One => Cot::decode_1(buf)?,
            CotSize::Two => Cot::decode_2(buf)?,
        };
        assert(buf@ =~= s.skip(2 + addressing.cot_octets() as int));
        let ca = decode_ca(buf, addressing.ca_size)?;
        assert(buf@ =~= s.skip(header_octets(addressing) as int));
        let n: usize = remaining(buf);
        let payload: Vec<u8> = take_vec(buf, n);
        assert(payload@ =~= s.skip(header_octets(addressing) as int));
        Ok(Asdu { type_id, vsq, cot, ca, payload })
    }
}

/// An ASDU whose header fields fit is decoded again as it was encoded.
pub proof fn law_asdu_round_trip(asdu: AsduModel, addressing: AsduAddressing)
    requires
        asdu.fits(addressing),
    ensures
        AsduModel::decoded(asdu.wire(addressing), addressing) == (Decoded {
            result: Ok(asdu),
            used: asdu.wire(addressing).len(),
        }),
{
    let w = asdu.wire(addressing);
    let c = addressing.cot_octets() as int;
    law_vsq_round_trip(asdu.vsq);
    law_cot_round_trip(asdu.cot);
    law_ca_round_trip(asdu.ca, addressing.ca_size, asdu.payload);
    assert(w.skip(2 + c) =~= ca_wire(asdu.ca, addressing.ca_size) + asdu.payload);
    assert(w.skip(header_octets(addressing) as int) =~= asdu.payload);
}

/// A typed payload that fits, wrapped into an ASDU and read back off the wire
/// with the same addressing, is the same payload again.
pub proof fn law_typed_round_trip<P: AsduPayload>(
    asdu: AsduModel,
    content: P::V,
    addressing: AsduAddressing,
)
    requires
        asdu.fits(addressing),
        asdu.type_id == P::code(),
        asdu.payload == P::section(content, asdu.vsq, addressing),
        P::section_fits(content, asdu.vsq, addressing),
    ensures
        AsduModel::decoded(asdu.wire(addressing), addressing).result == Ok::<AsduModel, Error>(asdu),
        asdu.typed::<P>(addressing) == Ok::<P::V, Error>(content),
{
    law_asdu_round_trip(asdu, addressing);
    P::law_section_round_trip(content, asdu.vsq, addressing, Seq::empty());
    assert(asdu.payload + Seq::<u8>::empty() =~= asdu.payload);
}

} // verus!
