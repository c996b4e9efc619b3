//! System-information ASDU types: end-of-initialisation, counter interrogation,
//! clock sync, read, reset.
//!
//! All of them carry a single object: the standard fixes the count at 1, so
//! they hold a concrete `ioa` field rather than a list, and the VSQ does not
//! change their layout.

#![allow(non_camel_case_types)]

use vstd::prelude::*;
use crate::asdu::element::Element;
use crate::asdu::header::{
    decode_ioa, encode_ioa, ioa_decoded, ioa_fits, ioa_wire, law_ioa_round_trip, AsduAddressing,
    Ioa, Vsq,
};
use crate::asdu::ie::Cp56Time2a;
use crate::asdu::io_list::{
    decode_object, encode_object, law_object_round_trip, object_decoded, object_wire,
};
use crate::asdu::payload::AsduPayload;
use crate::bits::{flag, has, lemma_join_fields, lemma_masks, lemma_set_bits};
use crate::buf::{decodes, ensure, fixed, get_u8, mapped, put_u8, room, Decoded};
use crate::error::Result;

verus! {

// ---------------------------------------------------------------------------
// COI / QCC / QRP qualifiers
// ---------------------------------------------------------------------------

/// Cause of Initialisation (1 octet) carried by `M_EI_NA_1`.
#[derive(Debug, Default, Clone, Copy, PartialEq, Eq, Hash, Structural)]
pub struct Coi {
    /// 7-bit cause: 0 = local power switch on, 1 = local manual reset,
    /// 2 = remote reset, 32 and up = vendor-specific.
    pub cause: u8,
    /// `BS1` - `true` if initialisation occurred after parameter change.
    pub after_param_change: bool,
}

impl Coi {
    pub const LEN: usize = 1;

    pub fn encode(self, buf: &mut Vec<u8>)
        requires
            room(old(buf)@, Self::LEN as int),
        ensures
            final(buf)@ == old(buf)@ + self.wire(),
    {
        proof { lemma_masks(self.cause); }
        let mut b: u8 = self.cause & 0x7F;
        if self.after_param_change {
            proof { lemma_set_bits(b); }
            b |= 0x80;
        }
        put_u8(buf, b);
    }

    pub fn decode(buf: &mut &[u8]) -> (r: Result<Self>)
        ensures
            decodes(old(buf)@, final(buf)@, r, Self::decoded(old(buf)@)),
    {
        ensure(buf, Self::LEN)?;
        let b: u8 = get_u8(buf);
        proof { lemma_masks(b); }
        Ok(Coi { cause: b & 0x7F, after_param_change: b & 0x80 != 0 })
    }
}

impl Element for Coi {
    open spec fn wire_len() -> nat {
        1
    }

    open spec fn wire(&self) -> Seq<u8> {
        seq![(self.cause % 128 + flag(self.after_param_change, 128)) as u8]
    }

    open spec fn decoded(s: Seq<u8>) -> Decoded<Self> {
        fixed(s, 1, Coi { cause: s[0] % 128, after_param_change: has(s[0], 128) })
    }

    open spec fn representable(&self) -> bool {
        self.cause < 128
    }

    fn encode_element(&self, buf: &mut Vec<u8>) {
        self.encode(buf);
    }

    fn decode_element(buf: &mut &[u8]) -> (r: Result<Self>) {
        Self::decode(buf)
    }

    proof fn law_wire_len(&self) {
    }

    proof fn law_decoded(s: Seq<u8>) {
    }

    proof fn law_round_trip(&self, rest: Seq<u8>) {
    }
}

/// Qualifier of Counter Interrogation Command (1 octet).
#[derive(Debug, Default, Clone, Copy, PartialEq, Eq, Hash, Structural)]
pub struct Qcc {
    /// `RQT` - 6-bit counter group: 0 = no, 1..4 = group 1..4, 5 = general.
    pub group: u8,
    /// `FRZ` - 2-bit freeze action: 0 = read, 1 = counter freeze without reset,
    /// 2 = freeze with reset, 3 = counter reset.
    pub freeze: u8,
}

impl Qcc {
    pub const LEN: usize = 1;

    pub fn encode(self, buf: &mut Vec<u8>)
        requires
            room(old(buf)@, Self::LEN as int),
        ensures
            final(buf)@ == old(buf)@ + self.wire(),
    {
        proof {
            lemma_masks(self.group);
            lemma_join_fields(self.freeze, self.group);
        }
        put_u8(buf, (self.group & 0x3F) | ((self.freeze & 0x03) << 6));
    }

    pub fn decode(buf: &mut &[u8]) -> (r: Result<Self>)
        ensures
            decodes(old(buf)@, final(buf)@, r, Self::decoded(old(buf)@)),
    {
        ensure(buf, Self::LEN)?;
        let b: u8 = get_u8(buf);
        proof {
            lemma_masks(b);
            lemma_masks(b >> 6);
        }
        Ok(Qcc { group: b & 0x3F, freeze: (b >> 6) & 0x03 })
    }
}

impl Element for Qcc {
    open spec fn wire_len() -> nat {
        1
    }

    open spec fn wire(&self) -> Seq<u8> {
        seq![(self.group % 64 + 64 * (self.freeze % 4)) as u8]
    }

    open spec fn decoded(s: Seq<u8>) -> Decoded<Self> {
        fixed(s, 1, Qcc { group: s[0] % 64, freeze: s[0] / 64 })
    }

    open spec fn representable(&self) -> bool {
        self.group < 64 && self.freeze < 4
    }

    fn encode_element(&self, buf: &mut Vec<u8>) {
        self.encode(buf);
    }

    fn decode_element(buf: &mut &[u8]) -> (r: Result<Self>) {
        Self::decode(buf)
    }

    proof fn law_wire_len(&self) {
    }

    proof fn law_decoded(s: Seq<u8>) {
    }

    proof fn law_round_trip(&self, rest: Seq<u8>) {
    }
}

/// Qualifier of Reset Process Command (1 octet).
#[derive(Debug, Default, Clone, Copy, PartialEq, Eq, Hash, Structural)]
pub struct Qrp(pub u8);

impl Qrp {
    pub const LEN: usize = 1;

    pub fn encode(self, buf: &mut Vec<u8>)
        requires
            room(old(buf)@, Self::LEN as int),
        ensures
            final(buf)@ == old(buf)@ + self.wire(),
    {
        put_u8(buf, self.0);
    }

    pub fn decode(buf: &mut &[u8]) -> (r: Result<Self>)
        ensures
            decodes(old(buf)@, final(buf)@, r, Self::decoded(old(buf)@)),
    {
        ensure(buf, Self::LEN)?;
        Ok(Qrp(get_u8(buf)))
    }
}

impl Element for Qrp {
    open spec fn wire_len() -> nat {
        1
    }

    open spec fn wire(&self) -> Seq<u8> {
        seq![self.0]
    }

    open spec fn decoded(s: Seq<u8>) -> Decoded<Self> {
        fixed(s, 1, Qrp(s[0]))
    }

    open spec fn representable(&self) -> bool {
        true
    }

    fn encode_element(&self, buf: &mut Vec<u8>) {
        self.encode(buf);
    }

    fn decode_element(buf: &mut &[u8]) -> (r: Result<Self>) {
        Self::decode(buf)
    }

    proof fn law_wire_len(&self) {
    }

    proof fn law_decoded(s: Seq<u8>) {
    }

    proof fn law_round_trip(&self, rest: Seq<u8>) {
    }
}

// ---------------------------------------------------------------------------
// Payloads
// ---------------------------------------------------------------------------

/// `M_EI_NA_1` (TypeID 70) - end of initialisation. By convention the IOA is 0.
#[derive(Debug, Default, Clone, Copy, PartialEq, Eq, Hash, Structural)]
pub struct M_EI_NA_1 {
    pub ioa: Ioa,
    pub coi: Coi,
}

impl View for M_EI_NA_1 {
    type V = M_EI_NA_1;

    open spec fn view(&self) -> M_EI_NA_1 {
        *self
    }
}

impl AsduPayload for M_EI_NA_1 {
    const TYPE_ID: u8 = 70;

    open spec fn code() -> u8 {
        70
    }

    proof fn law_type_id() {
    }

    open spec fn section(content: M_EI_NA_1, vsq: Vsq, addressing: AsduAddressing) -> Seq<u8> {
        object_wire(content.ioa, content.coi, addressing.ioa_size)
    }

    open spec fn section_decoded(
        s: Seq<u8>,
        vsq: Vsq,
        addressing: AsduAddressing,
    ) -> Decoded<M_EI_NA_1> {
        mapped(
            object_decoded(s, addressing.ioa_size),
            |o: (Ioa, Coi)| M_EI_NA_1 { ioa: o.0, coi: o.1 },
        )
    }

    open spec fn section_fits(content: M_EI_NA_1, vsq: Vsq, addressing: AsduAddressing) -> bool {
        ioa_fits(content.ioa, addressing.ioa_size) && content.coi.representable()
    }

    fn encode_information_objects(&self, buf: &mut Vec<u8>, vsq: Vsq, addressing: AsduAddressing) {
        encode_object(buf, self.ioa, &self.coi, addressing.ioa_size);
    }

    fn decode_information_objects(buf: &mut &[u8], vsq: Vsq, addressing: AsduAddressing) -> (r:
        Result<Self>) {
        let o: (Ioa, Coi) = decode_object(buf, addressing.ioa_size)?;
        Ok(M_EI_NA_1 { ioa: o.0, coi: o.1 })
    }

    proof fn law_section_round_trip(
        content: M_EI_NA_1,
        vsq: Vsq,
        addressing: AsduAddressing,
        rest: Seq<u8>,
    ) {
        law_object_round_trip(
            content.ioa,
            content.coi,
            addressing.ioa_size,
            rest,
        );
    }
}

/// `C_CI_NA_1` (TypeID 101) - counter interrogation command. By convention IOA = 0.
#[derive(Debug, Default, Clone, Copy, PartialEq, Eq, Hash, Structural)]
pub struct C_CI_NA_1 {
    pub ioa: Ioa,
    pub qcc: Qcc,
}

impl View for C_CI_NA_1 {
    type V = C_CI_NA_1;

    open spec fn view(&self) -> C_CI_NA_1 {
        *self
    }
}

impl AsduPayload for C_CI_NA_1 {
    const TYPE_ID: u8 = 101;

    open spec fn code() -> u8 {
        101
    }

    proof fn law_type_id() {
    }

    open spec fn section(content: C_CI_NA_1, vsq: Vsq, addressing: AsduAddressing) -> Seq<u8> {
        object_wire(content.ioa, content.qcc, addressing.ioa_size)
    }

    open spec fn section_decoded(
        s: Seq<u8>,
        vsq: Vsq,
        addressing: AsduAddressing,
    ) -> Decoded<C_CI_NA_1> {
        mapped(
            object_decoded(s, addressing.ioa_size),
            |o: (Ioa, Qcc)| C_CI_NA_1 { ioa: o.0, qcc: o.1 },
        )
    }

    open spec fn section_fits(content: C_CI_NA_1, vsq: Vsq, addressing: AsduAddressing) -> bool {
        ioa_fits(content.ioa, addressing.ioa_size) && content.qcc.representable()
    }

    fn encode_information_objects(&self, buf: &mut Vec<u8>, vsq: Vsq, addressing: AsduAddressing) {
        encode_object(buf, self.ioa, &self.qcc, addressing.ioa_size);
    }

    fn decode_information_objects(buf: &mut &[u8], vsq: Vsq, addressing: AsduAddressing) -> (r:
        Result<Self>) {
        let o: (Ioa, Qcc) = decode_object(buf, addressing.ioa_size)?;
        Ok(C_CI_NA_1 { ioa: o.0, qcc: o.1 })
    }

    proof fn law_section_round_trip(
        content: C_CI_NA_1,
        vsq: Vsq,
        addressing: AsduAddressing,
        rest: Seq<u8>,
    ) {
        law_object_round_trip(
            content.ioa,
            content.qcc,
            addressing.ioa_size,
            rest,
        );
    }
}

/// `C_RD_NA_1` (TypeID 102) - read command. The information object is just the IOA.
#[derive(Debug, Default, Clone, Copy, PartialEq, Eq, Hash, Structural)]
pub struct C_RD_NA_1 {
    pub ioa: Ioa,
}

impl View for C_RD_NA_1 {
    type V = C_RD_NA_1;

    open spec fn view(&self) -> C_RD_NA_1 {
        *self
    }
}

impl AsduPayload for C_RD_NA_1 {
    const TYPE_ID: u8 = 102;

    open spec fn code() -> u8 {
        102
    }

    proof fn law_type_id() {
    }

    open spec fn section(content: C_RD_NA_1, vsq: Vsq, addressing: AsduAddressing) -> Seq<u8> {
        ioa_wire(content.ioa, addressing.ioa_size)
    }

    open spec fn section_decoded(
        s: Seq<u8>,
        vsq: Vsq,
        addressing: AsduAddressing,
    ) -> Decoded<C_RD_NA_1> {
        mapped(ioa_decoded(s, addressing.ioa_size), |ioa: Ioa| C_RD_NA_1 { ioa })
    }

    open spec fn section_fits(content: C_RD_NA_1, vsq: Vsq, addressing: AsduAddressing) -> bool {
        ioa_fits(content.ioa, addressing.ioa_size)
    }

    fn encode_information_objects(&self, buf: &mut Vec<u8>, vsq: Vsq, addressing: AsduAddressing) {
        proof { law_ioa_round_trip(self.ioa, addressing.ioa_size, Seq::empty()); }
        encode_ioa(buf, self.ioa, addressing.ioa_size);
    }

    fn decode_information_objects(buf: &mut &[u8], vsq: Vsq, addressing: AsduAddressing) -> (r:
        Result<Self>) {
        let ioa = decode_ioa(buf, addressing.ioa_size)?;
        Ok(C_RD_NA_1 { ioa })
    }

    proof fn law_section_round_trip(
        content: C_RD_NA_1,
        vsq: Vsq,
        addressing: AsduAddressing,
        rest: Seq<u8>,
    ) {
        law_ioa_round_trip(content.ioa, addressing.ioa_size, rest);
    }
}

/// `C_CS_NA_1` (TypeID 103) - clock synchronisation. By convention IOA = 0,
/// payload is a CP56Time2a.
#[derive(Debug, Default, Clone, Copy, PartialEq, Eq, Hash, Structural)]
pub struct C_CS_NA_1 {
    pub ioa: Ioa,
    pub time: Cp56Time2a,
}

impl View for C_CS_NA_1 {
    type V = C_CS_NA_1;

    open spec fn view(&self) -> C_CS_NA_1 {
        *self
    }
}

impl AsduPayload for C_CS_NA_1 {
    const TYPE_ID: u8 = 103;

    open spec fn code() -> u8 {
        103
    }

    proof fn law_type_id() {
    }

    open spec fn section(content: C_CS_NA_1, vsq: Vsq, addressing: AsduAddressing) -> Seq<u8> {
        object_wire(content.ioa, content.time, addressing.ioa_size)
    }

    open spec fn section_decoded(
        s: Seq<u8>,
        vsq: Vsq,
        addressing: AsduAddressing,
    ) -> Decoded<C_CS_NA_1> {
        mapped(
            object_decoded(s, addressing.ioa_size),
            |o: (Ioa, Cp56Time2a)| C_CS_NA_1 { ioa: o.0, time: o.1 },
        )
    }

    open spec fn section_fits(content: C_CS_NA_1, vsq: Vsq, addressing: AsduAddressing) -> bool {
        ioa_fits(content.ioa, addressing.ioa_size) && content.time.representable()
    }

    fn encode_information_objects(&self, buf: &mut Vec<u8>, vsq: Vsq, addressing: AsduAddressing) {
        encode_object(buf, self.ioa, &self.time, addressing.ioa_size);
    }

    fn decode_information_objects(buf: &mut &[u8], vsq: Vsq, addressing: AsduAddressing) -> (r:
        Result<Self>) {
        let o: (Ioa, Cp56Time2a) = decode_object(buf, addressing.ioa_size)?;
        Ok(C_CS_NA_1 { ioa: o.0, time: o.1 })
    }

    proof fn law_section_round_trip(
        content: C_CS_NA_1,
        vsq: Vsq,
        addressing: AsduAddressing,
        rest: Seq<u8>,
    ) {
        law_object_round_trip(
            content.ioa,
            content.time,
            addressing.ioa_size,
            rest,
        );
    }
}

/// `C_RP_NA_1` (TypeID 105) - reset process command.
#[derive(Debug, Default, Clone, Copy, PartialEq, Eq, Hash, Structural)]
pub struct C_RP_NA_1 {
    pub ioa: Ioa,
    pub qrp: Qrp,
}

impl View for C_RP_NA_1 {
    type V = C_RP_NA_1;

    open spec fn view(&self) -> C_RP_NA_1 {
        *self
    }
}

impl AsduPayload for C_RP_NA_1 {
    const TYPE_ID: u8 = 105;

    open spec fn code() -> u8 {
        105
    }

    proof fn law_type_id() {
    }

    open spec fn section(content: C_RP_NA_1, vsq: Vsq, addressing: AsduAddressing) -> Seq<u8> {
        object_wire(content.ioa, content.qrp, addressing.ioa_size)
    }

    open spec fn section_decoded(
        s: Seq<u8>,
        vsq: Vsq,
        addressing: AsduAddressing,
    ) -> Decoded<C_RP_NA_1> {
        mapped(
            object_decoded(s, addressing.ioa_size),
            |o: (Ioa, Qrp)| C_RP_NA_1 { ioa: o.0, qrp: o.1 },
        )
    }

    open spec fn section_fits(content: C_RP_NA_1, vsq: Vsq, addressing: AsduAddressing) -> bool {
        ioa_fits(content.ioa, addressing.ioa_size) && content.qrp.representable()
    }

    fn encode_information_objects(&self, buf: &mut Vec<u8>, vsq: Vsq, addressing: AsduAddressing) {
        encode_object(buf, self.ioa, &self.qrp, addressing.ioa_size);
    }

    fn decode_information_objects(buf: &mut &[u8], vsq: Vsq, addressing: AsduAddressing) -> (r:
        Result<Self>) {
        let o: (Ioa, Qrp) = decode_object(buf, addressing.ioa_size)?;
        Ok(C_RP_NA_1 { ioa: o.0, qrp: o.1 })
    }

    proof fn law_section_round_trip(
        content: C_RP_NA_1,
        vsq: Vsq,
        addressing: AsduAddressing,
        rest: Seq<u8>,
    ) {
        law_object_round_trip(
            content.ioa,
            content.qrp,
            addressing.ioa_size,
            rest,
        );
    }
}

} // verus!
