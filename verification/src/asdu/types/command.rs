//! Control-direction ASDU types (those in the `C_*` family).
//!
//! All command types carry information objects that begin with an IOA and end
//! with a 1-octet **command qualifier** (Single Command Object, Double Command
//! Object, Regulating-step Command Object, Qualifier of Set-Point, Qualifier
//! of Interrogation, ...) that specifies whether the command is a select or
//! execute, and a type-specific Q field.

#![allow(non_camel_case_types)]

use vstd::prelude::*;
use crate::asdu::element::Element;
use crate::asdu::header::{AsduAddressing, Ioa, Vsq};
use crate::asdu::ie::{Cp56Time2a, DoublePoint, Nva, Sva, R32};
use crate::asdu::io_list::{
    decode_io_list, encode_io_list, law_list_round_trip, list_decoded, list_fits, list_wire,
};
use crate::asdu::payload::AsduPayload;
use crate::bits::{flag, has, lemma_join_fields, lemma_masks, lemma_set_bits};
use crate::buf::{decodes, ensure, fixed, get_u8, put_u8, room, Decoded};
use crate::error::Result;

verus! {

// ---------------------------------------------------------------------------
// Single Command Object (SCO) - used by C_SC_NA_1 / C_SC_TA_1
// ---------------------------------------------------------------------------

/// Single command with its qualifier.
#[derive(Debug, Default, Clone, Copy, PartialEq, Eq, Hash, Structural)]
pub struct Sco {
    /// `SCS` - command state. `false` = OFF, `true` = ON.
    pub on: bool,
    /// `QU` - 5-bit type-specific qualifier (0 = no additional definition).
    pub qualifier: u8,
    /// `S/E` - `true` = SELECT, `false` = EXECUTE.
    pub select: bool,
}

impl Sco {
    pub const LEN: usize = 1;

    pub fn encode(self, buf: &mut Vec<u8>)
        requires
            room(old(buf)@, Self::LEN as int),
        ensures
            final(buf)@ == old(buf)@ + self.wire(),
    {
        proof { lemma_join_fields(self.qualifier, 0); }
        let mut b: u8 = (self.qualifier & 0x1F) << 2;
        if self.on {
            proof { lemma_set_bits(b); }
            b |= 0x01;
        }
        if self.select {
            proof { lemma_set_bits(b); }
            b |= 0x80;
        }
        put_u8(buf, b);
    }

    pub fn decode(buf: &mut &[u8]) -> (r: Result<Self>)
        ensures
            decodes(old(buf)@, final(buf)@, r, Self::decoded(old(buf)@)),
    {
        ensure(buf, Self::LEN)?;
        let b: u8 = get_u8(buf);
        proof {
            lemma_masks(b);
            lemma_masks(b >> 2);
        }
        Ok(Sco { on: b & 0x01 != 0, qualifier: (b >> 2) & 0x1F, select: b & 0x80 != 0 })
    }
}

impl Element for Sco {
    open spec fn wire_len() -> nat {
        1
    }

    open spec fn wire(&self) -> Seq<u8> {
        seq![
            (flag(self.on, 1) + 4 * (self.qualifier % 32) + flag(self.select, 128)) as u8,
        ]
    }

    open spec fn decoded(s: Seq<u8>) -> Decoded<Self> {
        fixed(
            s,
            1,
            Sco { on: has(s[0], 1), qualifier: (s[0] / 4) % 32, select: has(s[0], 128) },
        )
    }

    open spec fn representable(&self) -> bool {
        self.qualifier < 32
    }

    fn encode_element(&self, buf: &mut Vec<u8>) {
        self.encode(buf);
    }

    fn decode_element(buf: &mut &[u8]) -> (r: Result<Self>) {
        Self::decode(buf)
    }

    proof fn law_wire_len(&self) {
    }

    proof fn law_decoded(s: Seq<u8>) {
    }

    proof fn law_round_trip(&self, rest: Seq<u8>) {
    }
}

// ---------------------------------------------------------------------------
// Double Command Object (DCO) - used by C_DC_NA_1
// ---------------------------------------------------------------------------

/// Double command with its qualifier.
#[derive(Debug, Default, Clone, Copy, PartialEq, Eq, Hash, Structural)]
pub struct Dco {
    /// `DCS` - command state (Off, On). 00 and 11 are not permitted for commands;
    /// the codec still carries them, so that it is loss-less.
    pub state: DoublePoint,
    /// `QU` - 5-bit type-specific qualifier (0 = no additional definition).
    pub qualifier: u8,
    /// `S/E` - `true` = SELECT, `false` = EXECUTE.
    pub select: bool,
}

impl Dco {
    pub const LEN: usize = 1;

    pub fn encode(self, buf: &mut Vec<u8>)
        requires
            room(old(buf)@, Self::LEN as int),
        ensures
            final(buf)@ == old(buf)@ + self.wire(),
    {
        let code: u8 = self.state.to_bits();
        proof { lemma_join_fields(self.qualifier, code); }
        let mut b: u8 = code | ((self.qualifier & 0x1F) << 2);
        if self.select {
            proof { lemma_set_bits(b); }
            b |= 0x80;
        }
        put_u8(buf, b);
    }

    pub fn decode(buf: &mut &[u8]) -> (r: Result<Self>)
        ensures
            decodes(old(buf)@, final(buf)@, r, Self::decoded(old(buf)@)),
    {
        ensure(buf, Self::LEN)?;
        let b: u8 = get_u8(buf);
        proof {
            lemma_masks(b);
            lemma_masks(b >> 2);
        }
        Ok(
            Dco {
                state: DoublePoint::from_bits(b),
                qualifier: (b >> 2) & 0x1F,
                select: b & 0x80 != 0,
            },
        )
    }
}

impl Element for Dco {
    open spec fn wire_len() -> nat {
        1
    }

    open spec fn wire(&self) -> Seq<u8> {
        seq![
            (self.state.code() + 4 * (self.qualifier % 32) + flag(self.select, 128)) as u8,
        ]
    }

    open spec fn decoded(s: Seq<u8>) -> Decoded<Self> {
        fixed(
            s,
            1,
            Dco {
                state: DoublePoint::of_code(s[0] as int % 4),
                qualifier: (s[0] / 4) % 32,
                select: has(s[0], 128),
            },
        )
    }

    open spec fn representable(&self) -> bool {
        self.qualifier < 32
    }

    fn encode_element(&self, buf: &mut Vec<u8>) {
        self.encode(buf);
    }

    fn decode_element(buf: &mut &[u8]) -> (r: Result<Self>) {
        Self::decode(buf)
    }

    proof fn law_wire_len(&self) {
    }

    proof fn law_decoded(s: Seq<u8>) {
    }

    proof fn law_round_trip(&self, rest: Seq<u8>) {
    }
}

// ---------------------------------------------------------------------------
// Regulating-step Command Object (RCO) - used by C_RC_NA_1
// ---------------------------------------------------------------------------

/// Direction of a regulating step.
#[derive(Debug, Default, Clone, Copy, PartialEq, Eq, Hash, Structural)]
pub enum StepDirection {
    /// 00 - not permitted.
    #[default]
    NotPermitted0,
    /// 01 - step LOWER.
    Lower,
    /// 10 - step HIGHER.
    Higher,
    /// 11 - not permitted.
    NotPermitted3,
}

impl StepDirection {
    /// The two-bit code of the direction.
    pub open spec fn code(self) -> int {
        match self {
            StepDirection::NotPermitted0 => 0,
            StepDirection::Lower => 1,
            StepDirection::Higher => 2,
            StepDirection::NotPermitted3 => 3,
        }
    }

    /// The direction that a two-bit code stands for.
    pub open spec fn of_code(n: int) -> StepDirection {
        if n == 0 {
            StepDirection::NotPermitted0
        } else if n == 1 {
            StepDirection::Lower
        } else if n == 2 {
            StepDirection::Higher
        } else {
            StepDirection::NotPermitted3
        }
    }

    fn to_bits(self) -> (b: u8)
        ensures
            b as int == self.code(),
    {
        match self {
            StepDirection::NotPermitted0 => 0b00,
            StepDirection::Lower => 0b01,
            StepDirection::Higher => 0b10,
            StepDirection::NotPermitted3 => 0b11,
        }
    }

    fn from_bits(b: u8) -> (direction: Self)
        ensures
            direction == Self::of_code(b as int % 4),
    {
        proof { lemma_masks(b); }
        match b & 0b11 {
            0b00 => StepDirection::NotPermitted0,
            0b01 => StepDirection::Lower,
            0b10 => StepDirection::Higher,
            _ => StepDirection::NotPermitted3,
        }
    }
}

/// Regulating-step command with its qualifier.
#[derive(Debug, Default, Clone, Copy, PartialEq, Eq, Hash, Structural)]
pub struct Rco {
    /// `RCS` - step direction.
    pub direction: StepDirection,
    /// `QU` - 5-bit type-specific qualifier (0 = no additional definition).
    pub qualifier: u8,
    /// `S/E` - `true` = SELECT, `false` = EXECUTE.
    pub select: bool,
}

impl Rco {
    pub const LEN: usize = 1;

    pub fn encode(self, buf: &mut Vec<u8>)
        requires
            room(old(buf)@, Self::LEN as int),
        ensures
            final(buf)@ == old(buf)@ + self.wire(),
    {
        let code: u8 = self.direction.to_bits();
        proof { lemma_join_fields(self.qualifier, code); }
        let mut b: u8 = code | ((self.qualifier & 0x1F) << 2);
        if self.select {
            proof { lemma_set_bits(b); }
            b |= 0x80;
        }
        put_u8(buf, b);
    }

    pub fn decode(buf: &mut &[u8]) -> (r: Result<Self>)
        ensures
            decodes(old(buf)@, final(buf)@, r, Self::decoded(old(buf)@)),
    {
        ensure(buf, Self::LEN)?;
        let b: u8 = get_u8(buf);
        proof {
            lemma_masks(b);
            lemma_masks(b >> 2);
        }
        Ok(
            Rco {
                direction: StepDirection::from_bits(b),
                qualifier: (b >> 2) & 0x1F,
                select: b & 0x80 != 0,
            },
        )
    }
}

impl Element for Rco {
    open spec fn wire_len() -> nat {
        1
    }

    open spec fn wire(&self) -> Seq<u8> {
        seq![
            (self.direction.code() + 4 * (self.qualifier % 32) + flag(self.select, 128)) as u8,
        ]
    }

    open spec fn decoded(s: Seq<u8>) -> Decoded<Self> {
        fixed(
            s,
            1,
            Rco {
                direction: StepDirection::of_code(s[0] as int % 4),
                qualifier: (s[0] / 4) % 32,
                select: has(s[0], 128),
            },
        )
    }

    open spec fn representable(&self) -> bool {
        self.qualifier < 32
    }

    fn encode_element(&self, buf: &mut Vec<u8>) {
        self.encode(buf);
    }

    fn decode_element(buf: &mut &[u8]) -> (r: Result<Self>) {
        Self::decode(buf)
    }

    proof fn law_wire_len(&self) {
    }

    proof fn law_decoded(s: Seq<u8>) {
    }

    proof fn law_round_trip(&self, rest: Seq<u8>) {
    }
}

// ---------------------------------------------------------------------------
// Qualifier of Set-Point (QOS) - used by C_SE_*
// ---------------------------------------------------------------------------

/// Qualifier of a set-point command.
#[derive(Debug, Default, Clone, Copy, PartialEq, Eq, Hash, Structural)]
pub struct Qos {
    /// `QL` - 7-bit qualifier (0 = default).
    pub qualifier: u8,
    /// `S/E` - `true` = SELECT, `false` = EXECUTE.
    pub select: bool,
}

impl Qos {
    pub const LEN: usize = 1;

    pub fn encode(self, buf: &mut Vec<u8>)
        requires
            room(old(buf)@, Self::LEN as int),
        ensures
            final(buf)@ == old(buf)@ + self.wire(),
    {
        proof { lemma_masks(self.qualifier); }
        let mut b: u8 = self.qualifier & 0x7F;
        if self.select {
            proof { lemma_set_bits(b); }
            b |= 0x80;
        }
        put_u8(buf, b);
    }

    pub fn decode(buf: &mut &[u8]) -> (r: Result<Self>)
        ensures
            decodes(old(buf)@, final(buf)@, r, Self::decoded(old(buf)@)),
    {
        ensure(buf, Self::LEN)?;
        let b: u8 = get_u8(buf);
        proof { lemma_masks(b); }
        Ok(Qos { qualifier: b & 0x7F, select: b & 0x80 != 0 })
    }
}

impl Element for Qos {
    open spec fn wire_len() -> nat {
        1
    }

    open spec fn wire(&self) -> Seq<u8> {
        seq![(self.qualifier % 128 + flag(self.select, 128)) as u8]
    }

    open spec fn decoded(s: Seq<u8>) -> Decoded<Self> {
        fixed(s, 1, Qos { qualifier: s[0] % 128, select: has(s[0], 128) })
    }

    open spec fn representable(&self) -> bool {
        self.qualifier < 128
    }

    fn encode_element(&self, buf: &mut Vec<u8>) {
        self.encode(buf);
    }

    fn decode_element(buf: &mut &[u8]) -> (r: Result<Self>) {
        Self::decode(buf)
    }

    proof fn law_wire_len(&self) {
    }

    proof fn law_decoded(s: Seq<u8>) {
    }

    proof fn law_round_trip(&self, rest: Seq<u8>) {
    }
}

// ---------------------------------------------------------------------------
// Qualifier of Interrogation (QOI) - used by C_IC_NA_1
// ---------------------------------------------------------------------------

/// Qualifier of Interrogation.
#[derive(Debug, Default, Clone, Copy, PartialEq, Eq, Hash, Structural)]
pub struct Qoi(pub u8);

impl Qoi {
    pub const LEN: usize = 1;

    /// General interrogation (QOI = 20).
    pub const GENERAL: u8 = 20;

    /// Group N interrogation (QOI = 20 + N), `N` in 1..=16.
    pub fn group(n: u8) -> (qoi: Self)
        requires
            n <= 235,
        ensures
            qoi.0 == Self::GENERAL + n,
    {
        Qoi(20 + n)
    }

    pub fn encode(self, buf: &mut Vec<u8>)
        requires
            room(old(buf)@, Self::LEN as int),
        ensures
            final(buf)@ == old(buf)@ + self.wire(),
    {
        put_u8(buf, self.0);
    }

    pub fn decode(buf: &mut &[u8]) -> (r: Result<Self>)
        ensures
            decodes(old(buf)@, final(buf)@, r, Self::decoded(old(buf)@)),
    {
        ensure(buf, Self::LEN)?;
        Ok(Qoi(get_u8(buf)))
    }
}

impl Element for Qoi {
    open spec fn wire_len() -> nat {
        1
    }

    open spec fn wire(&self) -> Seq<u8> {
        seq![self.0]
    }

    open spec fn decoded(s: Seq<u8>) -> Decoded<Self> {
        fixed(s, 1, Qoi(s[0]))
    }

    open spec fn representable(&self) -> bool {
        true
    }

    fn encode_element(&self, buf: &mut Vec<u8>) {
        self.encode(buf);
    }

    fn decode_element(buf: &mut &[u8]) -> (r: Result<Self>) {
        Self::decode(buf)
    }

    proof fn law_wire_len(&self) {
    }

    proof fn law_decoded(s: Seq<u8>) {
    }

    proof fn law_round_trip(&self, rest: Seq<u8>) {
    }
}

// ---------------------------------------------------------------------------
// Command payloads
// ---------------------------------------------------------------------------

/// `C_SC_NA_1` (TypeID 45) - single command.
#[derive(Debug, Default, Clone, PartialEq, Eq, Hash)]
pub struct C_SC_NA_1 {
    pub objects: Vec<(Ioa, Sco)>,
}

impl View for C_SC_NA_1 {
    type V = Seq<(Ioa, Sco)>;

    open spec fn view(&self) -> Seq<(Ioa, Sco)> {
        self.objects@
    }
}

impl AsduPayload for C_SC_NA_1 {
    const TYPE_ID: u8 = 45;

    open spec fn code() -> u8 {
        45
    }

    proof fn law_type_id() {
    }

    open spec fn section(
        content: Seq<(Ioa, Sco)>,
        vsq: Vsq,
        addressing: AsduAddressing,
    ) -> Seq<u8> {
        list_wire(content, vsq, addressing)
    }

    open spec fn section_decoded(
        s: Seq<u8>,
        vsq: Vsq,
        addressing: AsduAddressing,
    ) -> Decoded<Seq<(Ioa, Sco)>> {
        list_decoded(s, vsq, addressing)
    }

    open spec fn section_fits(
        content: Seq<(Ioa, Sco)>,
        vsq: Vsq,
        addressing: AsduAddressing,
    ) -> bool {
        list_fits(content, vsq, addressing)
    }

    fn encode_information_objects(&self, buf: &mut Vec<u8>, vsq: Vsq, addressing: AsduAddressing) {
        encode_io_list(buf, &self.objects, vsq, addressing);
    }

    fn decode_information_objects(buf: &mut &[u8], vsq: Vsq, addressing: AsduAddressing) -> (r:
        Result<Self>) {
        let objects = decode_io_list(buf, vsq, addressing)?;
        Ok(C_SC_NA_1 { objects })
    }

    proof fn law_section_round_trip(
        content: Seq<(Ioa, Sco)>,
        vsq: Vsq,
        addressing: AsduAddressing,
        rest: Seq<u8>,
    ) {
        law_list_round_trip(content, vsq, addressing, rest);
    }
}

/// `C_DC_NA_1` (TypeID 46) - double command.
#[derive(Debug, Default, Clone, PartialEq, Eq, Hash)]
pub struct C_DC_NA_1 {
    pub objects: Vec<(Ioa, Dco)>,
}

impl View for C_DC_NA_1 {
    type V = Seq<(Ioa, Dco)>;

    open spec fn view(&self) -> Seq<(Ioa, Dco)> {
        self.objects@
    }
}

impl AsduPayload for C_DC_NA_1 {
    const TYPE_ID: u8 = 46;

    open spec fn code() -> u8 {
        46
    }

    proof fn law_type_id() {
    }

    open spec fn section(
        content: Seq<(Ioa, Dco)>,
        vsq: Vsq,
        addressing: AsduAddressing,
    ) -> Seq<u8> {
        list_wire(content, vsq, addressing)
    }

    open spec fn section_decoded(
        s: Seq<u8>,
        vsq: Vsq,
        addressing: AsduAddressing,
    ) -> Decoded<Seq<(Ioa, Dco)>> {
        list_decoded(s, vsq, addressing)
    }

    open spec fn section_fits(
        content: Seq<(Ioa, Dco)>,
        vsq: Vsq,
        addressing: AsduAddressing,
    ) -> bool {
        list_fits(content, vsq, addressing)
    }

    fn encode_information_objects(&self, buf: &mut Vec<u8>, vsq: Vsq, addressing: AsduAddressing) {
        encode_io_list(buf, &self.objects, vsq, addressing);
    }

    fn decode_information_objects(buf: &mut &[u8], vsq: Vsq, addressing: AsduAddressing) -> (r:
        Result<Self>) {
        let objects = decode_io_list(buf, vsq, addressing)?;
        Ok(C_DC_NA_1 { objects })
    }

    proof fn law_section_round_trip(
        content: Seq<(Ioa, Dco)>,
        vsq: Vsq,
        addressing: AsduAddressing,
        rest: Seq<u8>,
    ) {
        law_list_round_trip(content, vsq, addressing, rest);
    }
}

/// `C_RC_NA_1` (TypeID 47) - regulating-step command.
#[derive(Debug, Default, Clone, PartialEq, Eq, Hash)]
pub struct C_RC_NA_1 {
    pub objects: Vec<(Ioa, Rco)>,
}

impl View for C_RC_NA_1 {
    type V = Seq<(Ioa, Rco)>;

    open spec fn view(&self) -> Seq<(Ioa, Rco)> {
        self.objects@
    }
}

impl AsduPayload for C_RC_NA_1 {
    const TYPE_ID: u8 = 47;

    open spec fn code() -> u8 {
        47
    }

    proof fn law_type_id() {
    }

    open spec fn section(
        content: Seq<(Ioa, Rco)>,
        vsq: Vsq,
        addressing: AsduAddressing,
    ) -> Seq<u8> {
        list_wire(content, vsq, addressing)
    }

    open spec fn section_decoded(
        s: Seq<u8>,
        vsq: Vsq,
        addressing: AsduAddressing,
    ) -> Decoded<Seq<(Ioa, Rco)>> {
        list_decoded(s, vsq, addressing)
    }

    open spec fn section_fits(
        content: Seq<(Ioa, Rco)>,
        vsq: Vsq,
        addressing: AsduAddressing,
    ) -> bool {
        list_fits(content, vsq, addressing)
    }

    fn encode_information_objects(&self, buf: &mut Vec<u8>, vsq: Vsq, addressing: AsduAddressing) {
        encode_io_list(buf, &self.objects, vsq, addressing);
    }

    fn decode_information_objects(buf: &mut &[u8], vsq: Vsq, addressing: AsduAddressing) -> (r:
        Result<Self>) {
        let objects = decode_io_list(buf, vsq, addressing)?;
        Ok(C_RC_NA_1 { objects })
    }

    proof fn law_section_round_trip(
        content: Seq<(Ioa, Rco)>,
        vsq: Vsq,
        addressing: AsduAddressing,
        rest: Seq<u8>,
    ) {
        law_list_round_trip(content, vsq, addressing, rest);
    }
}

/// `C_SE_NA_1` (TypeID 48) - set-point command, normalised.
#[derive(Debug, Default, Clone, PartialEq, Eq, Hash)]
pub struct C_SE_NA_1 {
    pub objects: Vec<(Ioa, (Nva, Qos))>,
}

impl View for C_SE_NA_1 {
    type V = Seq<(Ioa, (Nva, Qos))>;

    open spec fn view(&self) -> Seq<(Ioa, (Nva, Qos))> {
        self.objects@
    }
}

impl AsduPayload for C_SE_NA_1 {
    const TYPE_ID: u8 = 48;

    open spec fn code() -> u8 {
        48
    }

    proof fn law_type_id() {
    }

    open spec fn section(
        content: Seq<(Ioa, (Nva, Qos))>,
        vsq: Vsq,
        addressing: AsduAddressing,
    ) -> Seq<u8> {
        list_wire(content, vsq, addressing)
    }

    open spec fn section_decoded(
        s: Seq<u8>,
        vsq: Vsq,
        addressing: AsduAddressing,
    ) -> Decoded<Seq<(Ioa, (Nva, Qos))>> {
        list_decoded(s, vsq, addressing)
    }

    open spec fn section_fits(
        content: Seq<(Ioa, (Nva, Qos))>,
        vsq: Vsq,
        addressing: AsduAddressing,
    ) -> bool {
        list_fits(content, vsq, addressing)
    }

    fn encode_information_objects(&self, buf: &mut Vec<u8>, vsq: Vsq, addressing: AsduAddressing) {
        encode_io_list(buf, &self.objects, vsq, addressing);
    }

    fn decode_information_objects(buf: &mut &[u8], vsq: Vsq, addressing: AsduAddressing) -> (r:
        Result<Self>) {
        let objects = decode_io_list(buf, vsq, addressing)?;
        Ok(C_SE_NA_1 { objects })
    }

    proof fn law_section_round_trip(
        content: Seq<(Ioa, (Nva, Qos))>,
        vsq: Vsq,
        addressing: AsduAddressing,
        rest: Seq<u8>,
    ) {
        law_list_round_trip(content, vsq, addressing, rest);
    }
}

/// `C_SE_NB_1` (TypeID 49) - set-point command, scaled.
#[derive(Debug, Default, Clone, PartialEq, Eq, Hash)]
pub struct C_SE_NB_1 {
    pub objects: Vec<(Ioa, (Sva, Qos))>,
}

impl View for C_SE_NB_1 {
    type V = Seq<(Ioa, (Sva, Qos))>;

    open spec fn view(&self) -> Seq<(Ioa, (Sva, Qos))> {
        self.objects@
    }
}

impl AsduPayload for C_SE_NB_1 {
    const TYPE_ID: u8 = 49;

    open spec fn code() -> u8 {
        49
    }

    proof fn law_type_id() {
    }

    open spec fn section(
        content: Seq<(Ioa, (Sva, Qos))>,
        vsq: Vsq,
        addressing: AsduAddressing,
    ) -> Seq<u8> {
        list_wire(content, vsq, addressing)
    }

    open spec fn section_decoded(
        s: Seq<u8>,
        vsq: Vsq,
        addressing: AsduAddressing,
    ) -> Decoded<Seq<(Ioa, (Sva, Qos))>> {
        list_decoded(s, vsq, addressing)
    }

    open spec fn section_fits(
        content: Seq<(Ioa, (Sva, Qos))>,
        vsq: Vsq,
        addressing: AsduAddressing,
    ) -> bool {
        list_fits(content, vsq, addressing)
    }

    fn encode_information_objects(&self, buf: &mut Vec<u8>, vsq: Vsq, addressing: AsduAddressing) {
        encode_io_list(buf, &self.objects, vsq, addressing);
    }

    fn decode_information_objects(buf: &mut &[u8], vsq: Vsq, addressing: AsduAddressing) -> (r:
        Result<Self>) {
        let objects = decode_io_list(buf, vsq, addressing)?;
        Ok(C_SE_NB_1 { objects })
    }

    proof fn law_section_round_trip(
        content: Seq<(Ioa, (Sva, Qos))>,
        vsq: Vsq,
        addressing: AsduAddressing,
        rest: Seq<u8>,
    ) {
        law_list_round_trip(content, vsq, addressing, rest);
    }
}

/// `C_SE_NC_1` (TypeID 50) - set-point command, short floating point.
#[derive(Debug, Default, Clone, PartialEq, Eq, Hash)]
pub struct C_SE_NC_1 {
    pub objects: Vec<(Ioa, (R32, Qos))>,
}

impl View for C_SE_NC_1 {
    type V = Seq<(Ioa, (R32, Qos))>;

    open spec fn view(&self) -> Seq<(Ioa, (R32, Qos))> {
        self.objects@
    }
}

impl AsduPayload for C_SE_NC_1 {
    const TYPE_ID: u8 = 50;

    open spec fn code() -> u8 {
        50
    }

    proof fn law_type_id() {
    }

    open spec fn section(
        content: Seq<(Ioa, (R32, Qos))>,
        vsq: Vsq,
        addressing: AsduAddressing,
    ) -> Seq<u8> {
        list_wire(content, vsq, addressing)
    }

    open spec fn section_decoded(
        s: Seq<u8>,
        vsq: Vsq,
        addressing: AsduAddressing,
    ) -> Decoded<Seq<(Ioa, (R32, Qos))>> {
        list_decoded(s, vsq, addressing)
    }

    open spec fn section_fits(
        content: Seq<(Ioa, (R32, Qos))>,
        vsq: Vsq,
        addressing: AsduAddressing,
    ) -> bool {
        list_fits(content, vsq, addressing)
    }

    fn encode_information_objects(&self, buf: &mut Vec<u8>, vsq: Vsq, addressing: AsduAddressing) {
        encode_io_list(buf, &self.objects, vsq, addressing);
    }

    fn decode_information_objects(buf: &mut &[u8], vsq: Vsq, addressing: AsduAddressing) -> (r:
        Result<Self>) {
        let objects = decode_io_list(buf, vsq, addressing)?;
        Ok(C_SE_NC_1 { objects })
    }

    proof fn law_section_round_trip(
        content: Seq<(Ioa, (R32, Qos))>,
        vsq: Vsq,
        addressing: AsduAddressing,
        rest: Seq<u8>,
    ) {
        law_list_round_trip(content, vsq, addressing, rest);
    }
}

/// `C_SC_TA_1` (TypeID 58) - single command with CP56Time2a.
#[derive(Debug, Default, Clone, PartialEq, Eq, Hash)]
pub struct C_SC_TA_1 {
    pub objects: Vec<(Ioa, (Sco, Cp56Time2a))>,
}

impl View for C_SC_TA_1 {
    type V = Seq<(Ioa, (Sco, Cp56Time2a))>;

    open spec fn view(&self) -> Seq<(Ioa, (Sco, Cp56Time2a))> {
        self.objects@
    }
}

impl AsduPayload for C_SC_TA_1 {
    const TYPE_ID: u8 = 58;

    open spec fn code() -> u8 {
        58
    }

    proof fn law_type_id() {
    }

    open spec fn section(
        content: Seq<(Ioa, (Sco, Cp56Time2a))>,
        vsq: Vsq,
        addressing: AsduAddressing,
    ) -> Seq<u8> {
        list_wire(content, vsq, addressing)
    }

    open spec fn section_decoded(
        s: Seq<u8>,
        vsq: Vsq,
        addressing: AsduAddressing,
    ) -> Decoded<Seq<(Ioa, (Sco, Cp56Time2a))>> {
        list_decoded(s, vsq, addressing)
    }

    open spec fn section_fits(
        content: Seq<(Ioa, (Sco, Cp56Time2a))>,
        vsq: Vsq,
        addressing: AsduAddressing,
    ) -> bool {
        list_fits(content, vsq, addressing)
    }

    fn encode_information_objects(&self, buf: &mut Vec<u8>, vsq: Vsq, addressing: AsduAddressing) {
        encode_io_list(buf, &self.objects, vsq, addressing);
    }

    fn decode_information_objects(buf: &mut &[u8], vsq: Vsq, addressing: AsduAddressing) -> (r:
        Result<Self>) {
        let objects = decode_io_list(buf, vsq, addressing)?;
        Ok(C_SC_TA_1 { objects })
    }

    proof fn law_section_round_trip(
        content: Seq<(Ioa, (Sco, Cp56Time2a))>,
        vsq: Vsq,
        addressing: AsduAddressing,
        rest: Seq<u8>,
    ) {
        law_list_round_trip(content, vsq, addressing, rest);
    }
}

/// `C_SE_TA_1` (TypeID 61) - set-point normalised with CP56Time2a.
#[derive(Debug, Default, Clone, PartialEq, Eq, Hash)]
pub struct C_SE_TA_1 {
    pub objects: Vec<(Ioa, (Nva, Qos, Cp56Time2a))>,
}

impl View for C_SE_TA_1 {
    type V = Seq<(Ioa, (Nva, Qos, Cp56Time2a))>;

    open spec fn view(&self) -> Seq<(Ioa, (Nva, Qos, Cp56Time2a))> {
        self.objects@
    }
}

impl AsduPayload for C_SE_TA_1 {
    const TYPE_ID: u8 = 61;

    open spec fn code() -> u8 {
        61
    }

    proof fn law_type_id() {
    }

    open spec fn section(
        content: Seq<(Ioa, (Nva, Qos, Cp56Time2a))>,
        vsq: Vsq,
        addressing: AsduAddressing,
    ) -> Seq<u8> {
        list_wire(content, vsq, addressing)
    }

    open spec fn section_decoded(
        s: Seq<u8>,
        vsq: Vsq,
        addressing: AsduAddressing,
    ) -> Decoded<Seq<(Ioa, (Nva, Qos, Cp56Time2a))>> {
        list_decoded(s, vsq, addressing)
    }

    open spec fn section_fits(
        content: Seq<(Ioa, (Nva, Qos, Cp56Time2a))>,
        vsq: Vsq,
        addressing: AsduAddressing,
    ) -> bool {
        list_fits(content, vsq, addressing)
    }

    fn encode_information_objects(&self, buf: &mut Vec<u8>, vsq: Vsq, addressing: AsduAddressing) {
        encode_io_list(buf, &self.objects, vsq, addressing);
    }

    fn decode_information_objects(buf: &mut &[u8], vsq: Vsq, addressing: AsduAddressing) -> (r:
        Result<Self>) {
        let objects = decode_io_list(buf, vsq, addressing)?;
        Ok(C_SE_TA_1 { objects })
    }

    proof fn law_section_round_trip(
        content: Seq<(Ioa, (Nva, Qos, Cp56Time2a))>,
        vsq: Vsq,
        addressing: AsduAddressing,
        rest: Seq<u8>,
    ) {
        law_list_round_trip(content, vsq, addressing, rest);
    }
}

/// `C_SE_TB_1` (TypeID 62) - set-point scaled with CP56Time2a.
#[derive(Debug, Default, Clone, PartialEq, Eq, Hash)]
pub struct C_SE_TB_1 {
    pub objects: Vec<(Ioa, (Sva, Qos, Cp56Time2a))>,
}

impl View for C_SE_TB_1 {
    type V = Seq<(Ioa, (Sva, Qos, Cp56Time2a))>;

    open spec fn view(&self) -> Seq<(Ioa, (Sva, Qos, Cp56Time2a))> {
        self.objects@
    }
}

impl AsduPayload for C_SE_TB_1 {
    const TYPE_ID: u8 = 62;

    open spec fn code() -> u8 {
        62
    }

    proof fn law_type_id() {
    }

    open spec fn section(
        content: Seq<(Ioa, (Sva, Qos, Cp56Time2a))>,
        vsq: Vsq,
        addressing: AsduAddressing,
    ) -> Seq<u8> {
        list_wire(content, vsq, addressing)
    }

    open spec fn section_decoded(
        s: Seq<u8>,
        vsq: Vsq,
        addressing: AsduAddressing,
    ) -> Decoded<Seq<(Ioa, (Sva, Qos, Cp56Time2a))>> {
        list_decoded(s, vsq, addressing)
    }

    open spec fn section_fits(
        content: Seq<(Ioa, (Sva, Qos, Cp56Time2a))>,
        vsq: Vsq,
        addressing: AsduAddressing,
    ) -> bool {
        list_fits(content, vsq, addressing)
    }

    fn encode_information_objects(&self, buf: &mut Vec<u8>, vsq: Vsq, addressing: AsduAddressing) {
        encode_io_list(buf, &self.objects, vsq, addressing);
    }

    fn decode_information_objects(buf: &mut &[u8], vsq: Vsq, addressing: AsduAddressing) -> (r:
        Result<Self>) {
        let objects = decode_io_list(buf, vsq, addressing)?;
        Ok(C_SE_TB_1 { objects })
    }

    proof fn law_section_round_trip(
        content: Seq<(Ioa, (Sva, Qos, Cp56Time2a))>,
        vsq: Vsq,
        addressing: AsduAddressing,
        rest: Seq<u8>,
    ) {
        law_list_round_trip(content, vsq, addressing, rest);
    }
}

/// `C_SE_TC_1` (TypeID 63) - set-point float with CP56Time2a.
#[derive(Debug, Default, Clone, PartialEq, Eq, Hash)]
pub struct C_SE_TC_1 {
    pub objects: Vec<(Ioa, (R32, Qos, Cp56Time2a))>,
}

impl View for C_SE_TC_1 {
    type V = Seq<(Ioa, (R32, Qos, Cp56Time2a))>;

    open spec fn view(&self) -> Seq<(Ioa, (R32, Qos, Cp56Time2a))> {
        self.objects@
    }
}

impl AsduPayload for C_SE_TC_1 {
    const TYPE_ID: u8 = 63;

    open spec fn code() -> u8 {
        63
    }

    proof fn law_type_id() {
    }

    open spec fn section(
        content: Seq<(Ioa, (R32, Qos, Cp56Time2a))>,
        vsq: Vsq,
        addressing: AsduAddressing,
    ) -> Seq<u8> {
        list_wire(content, vsq, addressing)
    }

    open spec fn section_decoded(
        s: Seq<u8>,
        vsq: Vsq,
        addressing: AsduAddressing,
    ) -> Decoded<Seq<(Ioa, (R32, Qos, Cp56Time2a))>> {
        list_decoded(s, vsq, addressing)
    }

    open spec fn section_fits(
        content: Seq<(Ioa, (R32, Qos, Cp56Time2a))>,
        vsq: Vsq,
        addressing: AsduAddressing,
    ) -> bool {
        list_fits(content, vsq, addressing)
    }

    fn encode_information_objects(&self, buf: &mut Vec<u8>, vsq: Vsq, addressing: AsduAddressing) {
        encode_io_list(buf, &self.objects, vsq, addressing);
    }

    fn decode_information_objects(buf: &mut &[u8], vsq: Vsq, addressing: AsduAddressing) -> (r:
        Result<Self>) {
        let objects = decode_io_list(buf, vsq, addressing)?;
        Ok(C_SE_TC_1 { objects })
    }

    proof fn law_section_round_trip(
        content: Seq<(Ioa, (R32, Qos, Cp56Time2a))>,
        vsq: Vsq,
        addressing: AsduAddressing,
        rest: Seq<u8>,
    ) {
        law_list_round_trip(content, vsq, addressing, rest);
    }
}

/// `C_IC_NA_1` (TypeID 100) - interrogation command. By IEC convention
/// the IOA is fixed at 0 and there is a single information object per
/// ASDU; this codec does not enforce that, callers may submit lists.
#[derive(Debug, Default, Clone, PartialEq, Eq, Hash)]
pub struct C_IC_NA_1 {
    pub objects: Vec<(Ioa, Qoi)>,
}

impl View for C_IC_NA_1 {
    type V = Seq<(Ioa, Qoi)>;

    open spec fn view(&self) -> Seq<(Ioa, Qoi)> {
        self.objects@
    }
}

impl AsduPayload for C_IC_NA_1 {
    const TYPE_ID: u8 = 100;

    open spec fn code() -> u8 {
        100
    }

    proof fn law_type_id() {
    }

    open spec fn section(
        content: Seq<(Ioa, Qoi)>,
        vsq: Vsq,
        addressing: AsduAddressing,
    ) -> Seq<u8> {
        list_wire(content, vsq, addressing)
    }

    open spec fn section_decoded(
        s: Seq<u8>,
        vsq: Vsq,
        addressing: AsduAddressing,
    ) -> Decoded<Seq<(Ioa, Qoi)>> {
        list_decoded(s, vsq, addressing)
    }

    open spec fn section_fits(
        content: Seq<(Ioa, Qoi)>,
        vsq: Vsq,
        addressing: AsduAddressing,
    ) -> bool {
        list_fits(content, vsq, addressing)
    }

    fn encode_information_objects(&self, buf: &mut Vec<u8>, vsq: Vsq, addressing: AsduAddressing) {
        encode_io_list(buf, &self.objects, vsq, addressing);
    }

    fn decode_information_objects(buf: &mut &[u8], vsq: Vsq, addressing: AsduAddressing) -> (r:
        Result<Self>) {
        let objects = decode_io_list(buf, vsq, addressing)?;
        Ok(C_IC_NA_1 { objects })
    }

    proof fn law_section_round_trip(
        content: Seq<(Ioa, Qoi)>,
        vsq: Vsq,
        addressing: AsduAddressing,
        rest: Seq<u8>,
    ) {
        law_list_round_trip(content, vsq, addressing, rest);
    }
}

} // verus!
