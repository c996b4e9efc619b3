//! Information elements per IEC 60870-5-4.
//!
//! Every element exposes a constant `LEN` (its wire size in octets), an
//! `encode` method that appends to a `Vec<u8>`, and a `decode` constructor
//! that consumes from the front of a `&[u8]`. All multi-octet integers are
//! little-endian on the wire. The octets themselves are given by the spec
//! functions of [`Element`].

use vstd::prelude::*;
use crate::asdu::element::Element;
use crate::bits::{flag, has, lemma_join_fields, lemma_masks, lemma_set_bits};
use crate::buf::{
    decodes, ensure, fixed, get_i16_le, get_i32_le, get_u16_le, get_u32_le, get_u8, le16, le32,
    put_i16_le, put_i32_le, put_u16_le, put_u32_le, put_u8, room, signed16, signed32, u16_of,
    u32_of, Decoded,
};
use crate::error::Result;
use crate::float_bits::{from_steps, nearest_step, stands_for_steps, step_bits, to_steps};

verus! {

// ---------------------------------------------------------------------------
// Quality bits - shared layout across SIQ, DIQ and QDS
// ---------------------------------------------------------------------------

/// Quality flags that appear in the high nibble of SIQ/DIQ/QDS.
#[derive(Debug, Default, Clone, Copy, PartialEq, Eq, Hash, Structural)]
pub struct Quality {
    /// `BL` - blocked for transmission.
    pub blocked: bool,
    /// `SB` - value substituted by the operator.
    pub substituted: bool,
    /// `NT` - not topical (value has not been updated within the expected window).
    pub not_topical: bool,
    /// `IV` - invalid.
    pub invalid: bool,
}

impl Quality {
    const BL: u8 = 0x10;
    const SB: u8 = 0x20;
    const NT: u8 = 0x40;
    const IV: u8 = 0x80;

    /// The flags as the high nibble of an octet.
    pub open spec fn bits(self) -> int {
        flag(self.blocked, 16) + flag(self.substituted, 32) + flag(self.not_topical, 64) + flag(
            self.invalid,
            128,
        )
    }

    /// The flags that an octet carries.
    pub open spec fn of_octet(b: u8) -> Quality {
        Quality {
            blocked: has(b, 16),
            substituted: has(b, 32),
            not_topical: has(b, 64),
            invalid: has(b, 128),
        }
    }

    pub(crate) fn to_bits(self) -> (b: u8)
        ensures
            b as int == self.bits(),
    {
        let mut b: u8 = 0;
        if self.blocked {
            proof { lemma_set_bits(b); }
            b |= Self::BL;
        }
        if self.substituted {
            proof { lemma_set_bits(b); }
            b |= Self::SB;
        }
        if self.not_topical {
            proof { lemma_set_bits(b); }
            b |= Self::NT;
        }
        if self.invalid {
            proof { lemma_set_bits(b); }
            b |= Self::IV;
        }
        b
    }

    pub(crate) fn from_bits(b: u8) -> (q: Self)
        ensures
            q == Self::of_octet(b),
    {
        proof { lemma_masks(b); }
        Quality {
            blocked: b & Self::BL != 0,
            substituted: b & Self::SB != 0,
            not_topical: b & Self::NT != 0,
            invalid: b & Self::IV != 0,
        }
    }
}

// ---------------------------------------------------------------------------
// SIQ - single-point information with quality (1 octet)
// ---------------------------------------------------------------------------

/// Single-point information with quality bits.
#[derive(Debug, Default, Clone, Copy, PartialEq, Eq, Hash, Structural)]
pub struct Siq {
    /// SPI - single-point state. `false` = OFF, `true` = ON.
    pub on: bool,
    pub quality: Quality,
}

impl Siq {
    pub const LEN: usize = 1;

    pub fn encode(self, buf: &mut Vec<u8>)
        requires
            room(old(buf)@, Self::LEN as int),
        ensures
            final(buf)@ == old(buf)@ + self.wire(),
    {
        let mut b: u8 = self.quality.to_bits();
        if self.on {
            proof { lemma_set_bits(b); }
            b |= 0x01;
        }
        put_u8(buf, b);
    }

    pub fn decode(buf: &mut &[u8]) -> (r: Result<Self>)
        ensures
            decodes(old(buf)@, final(buf)@, r, Self::decoded(old(buf)@)),
    {
        ensure(buf, Self::LEN)?;
        let b: u8 = get_u8(buf);
        proof { lemma_masks(b); }
        Ok(Siq { on: b & 0x01 != 0, quality: Quality::from_bits(b) })
    }
}

impl Element for Siq {
    open spec fn wire_len() -> nat {
        1
    }

    open spec fn wire(&self) -> Seq<u8> {
        seq![(flag(self.on, 1) + self.quality.bits()) as u8]
    }

    open spec fn decoded(s: Seq<u8>) -> Decoded<Self> {
        fixed(s, 1, Siq { on: has(s[0], 1), quality: Quality::of_octet(s[0]) })
    }

    open spec fn representable(&self) -> bool {
        true
    }

    fn encode_element(&self, buf: &mut Vec<u8>) {
        self.encode(buf);
    }

    fn decode_element(buf: &mut &[u8]) -> (r: Result<Self>) {
        Self::decode(buf)
    }

    proof fn law_wire_len(&self) {
    }

    proof fn law_decoded(s: Seq<u8>) {
    }

    proof fn law_round_trip(&self, rest: Seq<u8>) {
    }
}

// ---------------------------------------------------------------------------
// DIQ - double-point information with quality (1 octet)
// ---------------------------------------------------------------------------

/// Double-point state, per IEC 60870-5-4.
#[derive(Debug, Default, Clone, Copy, PartialEq, Eq, Hash, Structural)]
pub enum DoublePoint {
    /// 00 - indeterminate or intermediate state.
    #[default]
    Intermediate,
    /// 01 - determined state OFF.
    Off,
    /// 10 - determined state ON.
    On,
    /// 11 - indeterminate state.
    Indeterminate,
}

impl DoublePoint {
    /// The two-bit code of the state.
    pub open spec fn code(self) -> int {
        match self {
            DoublePoint::Intermediate => 0,
            DoublePoint::Off => 1,
            DoublePoint::On => 2,
            DoublePoint::Indeterminate => 3,
        }
    }

    /// The state that a two-bit code stands for.
    pub open spec fn of_code(n: int) -> DoublePoint {
        if n == 0 {
            DoublePoint::Intermediate
        } else if n == 1 {
            DoublePoint::Off
        } else if n == 2 {
            DoublePoint::On
        } else {
            DoublePoint::Indeterminate
        }
    }

    pub(crate) fn to_bits(self) -> (b: u8)
        ensures
            b as int == self.code(),
    {
        match self {
            DoublePoint::Intermediate => 0b00,
            DoublePoint::Off => 0b01,
            DoublePoint::On => 0b10,
            DoublePoint::Indeterminate => 0b11,
        }
    }

    pub(crate) fn from_bits(b: u8) -> (state: Self)
        ensures
            state == Self::of_code(b as int % 4),
    {
        proof { lemma_masks(b); }
        match b & 0b11 {
            0b00 => DoublePoint::Intermediate,
            0b01 => DoublePoint::Off,
            0b10 => DoublePoint::On,
            _ => DoublePoint::Indeterminate,
        }
    }
}

/// Double-point information with quality bits.
#[derive(Debug, Default, Clone, Copy, PartialEq, Eq, Hash, Structural)]
pub struct Diq {
    pub state: DoublePoint,
    pub quality: Quality,
}

impl Diq {
    pub const LEN: usize = 1;

    pub fn encode(self, buf: &mut Vec<u8>)
        requires
            room(old(buf)@, Self::LEN as int),
        ensures
            final(buf)@ == old(buf)@ + self.wire(),
    {
        let q: u8 = self.quality.to_bits();
        let d: u8 = self.state.to_bits();
        proof { lemma_join_fields(q, d); }
        put_u8(buf, q | d);
    }

    pub fn decode(buf: &mut &[u8]) -> (r: Result<Self>)
        ensures
            decodes(old(buf)@, final(buf)@, r, Self::decoded(old(buf)@)),
    {
        ensure(buf, Self::LEN)?;
        let b: u8 = get_u8(buf);
        Ok(Diq { state: DoublePoint::from_bits(b), quality: Quality::from_bits(b) })
    }
}

impl Element for Diq {
    open spec fn wire_len() -> nat {
        1
    }

    open spec fn wire(&self) -> Seq<u8> {
        seq![(self.state.code() + self.quality.bits()) as u8]
    }

    open spec fn decoded(s: Seq<u8>) -> Decoded<Self> {
        fixed(
            s,
            1,
            Diq { state: DoublePoint::of_code(s[0] as int % 4), quality: Quality::of_octet(s[0]) },
        )
    }

    open spec fn representable(&self) -> bool {
        true
    }

    fn encode_element(&self, buf: &mut Vec<u8>) {
        self.encode(buf);
    }

    fn decode_element(buf: &mut &[u8]) -> (r: Result<Self>) {
        Self::decode(buf)
    }

    proof fn law_wire_len(&self) {
    }

    proof fn law_decoded(s: Seq<u8>) {
    }

    proof fn law_round_trip(&self, rest: Seq<u8>) {
    }
}

// ---------------------------------------------------------------------------
// QDS - quality descriptor (1 octet)
// ---------------------------------------------------------------------------

/// Quality descriptor as used by measured values: quality bits plus an overflow flag.
#[derive(Debug, Default, Clone, Copy, PartialEq, Eq, Hash, Structural)]
pub struct Qds {
    /// `OV` - measured value exceeded the configured range.
    pub overflow: bool,
    pub quality: Quality,
}

impl Qds {
    pub const LEN: usize = 1;
    const OV: u8 = 0x01;

    pub fn encode(self, buf: &mut Vec<u8>)
        requires
            room(old(buf)@, Self::LEN as int),
        ensures
            final(buf)@ == old(buf)@ + self.wire(),
    {
        let mut b: u8 = self.quality.to_bits();
        if self.overflow {
            proof { lemma_set_bits(b); }
            b |= Self::OV;
        }
        put_u8(buf, b);
    }

    pub fn decode(buf: &mut &[u8]) -> (r: Result<Self>)
        ensures
            decodes(old(buf)@, final(buf)@, r, Self::decoded(old(buf)@)),
    {
        ensure(buf, Self::LEN)?;
        let b: u8 = get_u8(buf);
        proof { lemma_masks(b); }
        Ok(Qds { overflow: b & Self::OV != 0, quality: Quality::from_bits(b) })
    }
}

impl Element for Qds {
    open spec fn wire_len() -> nat {
        1
    }

    open spec fn wire(&self) -> Seq<u8> {
        seq![(flag(self.overflow, 1) + self.quality.bits()) as u8]
    }

    open spec fn decoded(s: Seq<u8>) -> Decoded<Self> {
        fixed(s, 1, Qds { overflow: has(s[0], 1), quality: Quality::of_octet(s[0]) })
    }

    open spec fn representable(&self) -> bool {
        true
    }

    fn encode_element(&self, buf: &mut Vec<u8>) {
        self.encode(buf);
    }

    fn decode_element(buf: &mut &[u8]) -> (r: Result<Self>) {
        Self::decode(buf)
    }

    proof fn law_wire_len(&self) {
    }

    proof fn law_decoded(s: Seq<u8>) {
    }

    proof fn law_round_trip(&self, rest: Seq<u8>) {
    }
}

// ---------------------------------------------------------------------------
// NVA - normalized value (2 octets)
// ---------------------------------------------------------------------------

/// Normalized value: 16-bit signed integer mapped to `[-1, 1 - 2^-15]`. The
/// real number that it stands for is the integer divided by 2^15. Real numbers
/// come in and go out as IEEE 754 binary32 bit patterns.
#[derive(Debug, Default, Clone, Copy, PartialEq, Eq, Hash, Structural)]
pub struct Nva(pub i16);

impl Nva {
    pub const LEN: usize = 2;

    /// Reinterpret as a floating-point value in `[-1.0, 1.0 - 2^-15]`: the bit
    /// pattern of exactly that number.
    pub fn as_f32(self) -> (bits: u32)
        ensures
            stands_for_steps(bits, self.0 as int),
            bits == step_bits(self.0 as int),
    {
        from_steps(self.0)
    }

    /// Construct from the bit pattern of a floating-point value, clamping to
    /// the representable range and rounding halves away from zero.
    pub fn from_f32(bits: u32) -> (v: Self)
        ensures
            v.0 as int == nearest_step(bits),
    {
        Nva(to_steps(bits))
    }

    pub fn encode(self, buf: &mut Vec<u8>)
        requires
            room(old(buf)@, Self::LEN as int),
        ensures
            final(buf)@ == old(buf)@ + self.wire(),
    {
        put_i16_le(buf, self.0);
    }

    pub fn decode(buf: &mut &[u8]) -> (r: Result<Self>)
        ensures
            decodes(old(buf)@, final(buf)@, r, Self::decoded(old(buf)@)),
    {
        ensure(buf, Self::LEN)?;
        Ok(Nva(get_i16_le(buf)))
    }
}

impl Element for Nva {
    open spec fn wire_len() -> nat {
        2
    }

    open spec fn wire(&self) -> Seq<u8> {
        le16(self.0 as int)
    }

    open spec fn decoded(s: Seq<u8>) -> Decoded<Self> {
        fixed(s, 2, Nva(signed16(u16_of(s)) as i16))
    }

    open spec fn representable(&self) -> bool {
        true
    }

    fn encode_element(&self, buf: &mut Vec<u8>) {
        self.encode(buf);
    }

    fn decode_element(buf: &mut &[u8]) -> (r: Result<Self>) {
        Self::decode(buf)
    }

    proof fn law_wire_len(&self) {
    }

    proof fn law_decoded(s: Seq<u8>) {
    }

    proof fn law_round_trip(&self, rest: Seq<u8>) {
    }
}

// ---------------------------------------------------------------------------
// SVA - scaled value (2 octets)
// ---------------------------------------------------------------------------

/// Scaled (signed 16-bit integer) value.
#[derive(Debug, Default, Clone, Copy, PartialEq, Eq, Hash, Structural)]
pub struct Sva(pub i16);

impl Sva {
    pub const LEN: usize = 2;

    pub fn encode(self, buf: &mut Vec<u8>)
        requires
            room(old(buf)@, Self::LEN as int),
        ensures
            final(buf)@ == old(buf)@ + self.wire(),
    {
        put_i16_le(buf, self.0);
    }

    pub fn decode(buf: &mut &[u8]) -> (r: Result<Self>)
        ensures
            decodes(old(buf)@, final(buf)@, r, Self::decoded(old(buf)@)),
    {
        ensure(buf, Self::LEN)?;
        Ok(Sva(get_i16_le(buf)))
    }
}

impl Element for Sva {
    open spec fn wire_len() -> nat {
        2
    }

    open spec fn wire(&self) -> Seq<u8> {
        le16(self.0 as int)
    }

    open spec fn decoded(s: Seq<u8>) -> Decoded<Self> {
        fixed(s, 2, Sva(signed16(u16_of(s)) as i16))
    }

    open spec fn representable(&self) -> bool {
        true
    }

    fn encode_element(&self, buf: &mut Vec<u8>) {
        self.encode(buf);
    }

    fn decode_element(buf: &mut &[u8]) -> (r: Result<Self>) {
        Self::decode(buf)
    }

    proof fn law_wire_len(&self) {
    }

    proof fn law_decoded(s: Seq<u8>) {
    }

    proof fn law_round_trip(&self, rest: Seq<u8>) {
    }
}

// ---------------------------------------------------------------------------
// R32 - short floating point (4 octets)
// ---------------------------------------------------------------------------

/// IEEE 754 binary32 short floating-point value, held as its bit pattern.
#[derive(Debug, Default, Clone, Copy, PartialEq, Eq, Hash, Structural)]
pub struct R32(pub u32);

impl R32 {
    pub const LEN: usize = 4;

    pub fn encode(self, buf: &mut Vec<u8>)
        requires
            room(old(buf)@, Self::LEN as int),
        ensures
            final(buf)@ == old(buf)@ + self.wire(),
    {
        put_u32_le(buf, self.0);
    }

    pub fn decode(buf: &mut &[u8]) -> (r: Result<Self>)
        ensures
            decodes(old(buf)@, final(buf)@, r, Self::decoded(old(buf)@)),
    {
        ensure(buf, Self::LEN)?;
        Ok(R32(get_u32_le(buf)))
    }
}

impl Element for R32 {
    open spec fn wire_len() -> nat {
        4
    }

    open spec fn wire(&self) -> Seq<u8> {
        le32(self.0 as int)
    }

    open spec fn decoded(s: Seq<u8>) -> Decoded<Self> {
        fixed(s, 4, R32(u32_of(s) as u32))
    }

    open spec fn representable(&self) -> bool {
        true
    }

    fn encode_element(&self, buf: &mut Vec<u8>) {
        self.encode(buf);
    }

    fn decode_element(buf: &mut &[u8]) -> (r: Result<Self>) {
        Self::decode(buf)
    }

    proof fn law_wire_len(&self) {
    }

    proof fn law_decoded(s: Seq<u8>) {
    }

    proof fn law_round_trip(&self, rest: Seq<u8>) {
    }
}

// ---------------------------------------------------------------------------
// BCR - binary counter reading (5 octets)
// ---------------------------------------------------------------------------

/// Binary counter reading: 32-bit signed counter plus a 1-octet qualifier.
#[derive(Debug, Default, Clone, Copy, PartialEq, Eq, Hash, Structural)]
pub struct Bcr {
    pub value: i32,
    /// 5-bit sequence number (0..=31).
    pub sequence: u8,
    /// `CY` - carry: counter has overflowed at least once since the last reset.
    pub carry: bool,
    /// `CA` - counter has been adjusted since the last reset.
    pub adjusted: bool,
    /// `IV` - invalid.
    pub invalid: bool,
}

impl Bcr {
    pub const LEN: usize = 5;
    const CY: u8 = 0x20;
    const CA: u8 = 0x40;
    const IV: u8 = 0x80;
    const SQ_MASK: u8 = 0x1F;

    pub fn encode(self, buf: &mut Vec<u8>)
        requires
            room(old(buf)@, Self::LEN as int),
        ensures
            final(buf)@ == old(buf)@ + self.wire(),
    {
        put_i32_le(buf, self.value);
        proof { lemma_masks(self.sequence); }
        let mut q: u8 = self.sequence & Self::SQ_MASK;
        if self.carry {
            proof { lemma_set_bits(q); }
            q |= Self::CY;
        }
        if self.adjusted {
            proof { lemma_set_bits(q); }
            q |= Self::CA;
        }
        if self.invalid {
            proof { lemma_set_bits(q); }
            q |= Self::IV;
        }
        put_u8(buf, q);
    }

    pub fn decode(buf: &mut &[u8]) -> (r: Result<Self>)
        ensures
            decodes(old(buf)@, final(buf)@, r, Self::decoded(old(buf)@)),
    {
        ensure(buf, Self::LEN)?;
        let value: i32 = get_i32_le(buf);
        let q: u8 = get_u8(buf);
        proof { lemma_masks(q); }
        Ok(
            Bcr {
                value,
                sequence: q & Self::SQ_MASK,
                carry: q & Self::CY != 0,
                adjusted: q & Self::CA != 0,
                invalid: q & Self::IV != 0,
            },
        )
    }
}

impl Element for Bcr {
    open spec fn wire_len() -> nat {
        5
    }

    open spec fn wire(&self) -> Seq<u8> {
        le32(self.value as int).push(
            (self.sequence % 32 + flag(self.carry, 32) + flag(self.adjusted, 64) + flag(
                self.invalid,
                128,
            )) as u8,
        )
    }

    open spec fn decoded(s: Seq<u8>) -> Decoded<Self> {
        fixed(
            s,
            5,
            Bcr {
                value: signed32(u32_of(s)) as i32,
                sequence: s[4] % 32,
                carry: has(s[4], 32),
                adjusted: has(s[4], 64),
                invalid: has(s[4], 128),
            },
        )
    }

    open spec fn representable(&self) -> bool {
        self.sequence < 32
    }

    fn encode_element(&self, buf: &mut Vec<u8>) {
        self.encode(buf);
    }

    fn decode_element(buf: &mut &[u8]) -> (r: Result<Self>) {
        Self::decode(buf)
    }

    proof fn law_wire_len(&self) {
    }

    proof fn law_decoded(s: Seq<u8>) {
    }

    proof fn law_round_trip(&self, rest: Seq<u8>) {
    }
}

// ---------------------------------------------------------------------------
// CP24Time2a - milliseconds, minute and IV (3 octets)
// ---------------------------------------------------------------------------

/// 3-octet time tag (milliseconds within the minute + minute + IV).
#[derive(Debug, Default, Clone, Copy, PartialEq, Eq, Hash, Structural)]
pub struct Cp24Time2a {
    /// Milliseconds within the minute: 0..59_999.
    pub milliseconds: u16,
    /// Minute: 0..59.
    pub minute: u8,
    /// `IV` - time tag is invalid.
    pub invalid: bool,
}

impl Cp24Time2a {
    pub const LEN: usize = 3;

    pub fn encode(self, buf: &mut Vec<u8>)
        requires
            room(old(buf)@, Self::LEN as int),
        ensures
            final(buf)@ == old(buf)@ + self.wire(),
    {
        put_u16_le(buf, self.milliseconds);
        proof { lemma_masks(self.minute); }
        let mut b: u8 = self.minute & 0x3F;
        if self.invalid {
            proof { lemma_set_bits(b); }
            b |= 0x80;
        }
        put_u8(buf, b);
    }

    pub fn decode(buf: &mut &[u8]) -> (r: Result<Self>)
        ensures
            decodes(old(buf)@, final(buf)@, r, Self::decoded(old(buf)@)),
    {
        ensure(buf, Self::LEN)?;
        let milliseconds: u16 = get_u16_le(buf);
        let b: u8 = get_u8(buf);
        proof { lemma_masks(b); }
        Ok(Cp24Time2a { milliseconds, minute: b & 0x3F, invalid: b & 0x80 != 0 })
    }
}

impl Element for Cp24Time2a {
    open spec fn wire_len() -> nat {
        3
    }

    open spec fn wire(&self) -> Seq<u8> {
        le16(self.milliseconds as int).push((self.minute % 64 + flag(self.invalid, 128)) as u8)
    }

    open spec fn decoded(s: Seq<u8>) -> Decoded<Self> {
        fixed(
            s,
            3,
            Cp24Time2a { milliseconds: u16_of(s) as u16, minute: s[2] % 64, invalid: has(s[2], 128) },
        )
    }

    open spec fn representable(&self) -> bool {
        self.minute < 64
    }

    fn encode_element(&self, buf: &mut Vec<u8>) {
        self.encode(buf);
    }

    fn decode_element(buf: &mut &[u8]) -> (r: Result<Self>) {
        Self::decode(buf)
    }

    proof fn law_wire_len(&self) {
    }

    proof fn law_decoded(s: Seq<u8>) {
    }

    proof fn law_round_trip(&self, rest: Seq<u8>) {
    }
}

// ---------------------------------------------------------------------------
// CP56Time2a - full date and time with millisecond precision (7 octets)
// ---------------------------------------------------------------------------

/// 7-octet time tag with full date and millisecond precision.
///
/// The year is stored as `0..99` and conventionally refers to the 21st
/// century. This struct preserves the octet verbatim and does not interpret
/// the century.
#[derive(Debug, Default, Clone, Copy, PartialEq, Eq, Hash, Structural)]
pub struct Cp56Time2a {
    /// Milliseconds within the minute: 0..59_999.
    pub milliseconds: u16,
    /// Minute: 0..59.
    pub minute: u8,
    /// Hour: 0..23.
    pub hour: u8,
    /// Day of month: 1..31.
    pub day: u8,
    /// Day of week: 1..7 (Mon..Sun). 0 means "not used".
    pub day_of_week: u8,
    /// Month: 1..12.
    pub month: u8,
    /// Year: 0..99 (raw, no century offset).
    pub year: u8,
    /// `SU` - summer time / daylight saving in effect.
    pub summer_time: bool,
    /// `IV` - time tag is invalid.
    pub invalid: bool,
    /// `GEN` - bit 6 of the minute octet, preserved verbatim.
    pub genuine: bool,
}

impl Cp56Time2a {
    pub const LEN: usize = 7;

    pub fn encode(self, buf: &mut Vec<u8>)
        requires
            room(old(buf)@, Self::LEN as int),
        ensures
            final(buf)@ == old(buf)@ + self.wire(),
    {
        put_u16_le(buf, self.milliseconds);
        proof {
            lemma_masks(self.minute);
            lemma_masks(self.hour);
            lemma_masks(self.day);
            lemma_masks(self.month);
            lemma_masks(self.year);
            lemma_join_fields(self.day_of_week, self.day);
        }
        let mut b: u8 = self.minute & 0x3F;
        if self.genuine {
            proof { lemma_set_bits(b); }
            b |= 0x40;
        }
        if self.invalid {
            proof { lemma_set_bits(b); }
            b |= 0x80;
        }
        put_u8(buf, b);
        let mut h: u8 = self.hour & 0x1F;
        if self.summer_time {
            proof { lemma_set_bits(h); }
            h |= 0x80;
        }
        put_u8(buf, h);
        let d: u8 = (self.day & 0x1F) | ((self.day_of_week & 0x07) << 5);
        put_u8(buf, d);
        put_u8(buf, self.month & 0x0F);
        put_u8(buf, self.year & 0x7F);
    }

    pub fn decode(buf: &mut &[u8]) -> (r: Result<Self>)
        ensures
            decodes(old(buf)@, final(buf)@, r, Self::decoded(old(buf)@)),
    {
        ensure(buf, Self::LEN)?;
        let milliseconds: u16 = get_u16_le(buf);
        let min_b: u8 = get_u8(buf);
        let hour_b: u8 = get_u8(buf);
        let day_b: u8 = get_u8(buf);
        let month_b: u8 = get_u8(buf);
        let year_b: u8 = get_u8(buf);
        proof {
            lemma_masks(min_b);
            lemma_masks(hour_b);
            lemma_masks(day_b);
            lemma_masks(day_b >> 5);
            lemma_masks(month_b);
            lemma_masks(year_b);
        }
        Ok(
            Cp56Time2a {
                milliseconds,
                minute: min_b & 0x3F,
                genuine: min_b & 0x40 != 0,
                invalid: min_b & 0x80 != 0,
                hour: hour_b & 0x1F,
                summer_time: hour_b & 0x80 != 0,
                day: day_b & 0x1F,
                day_of_week: (day_b >> 5) & 0x07,
                month: month_b & 0x0F,
                year: year_b & 0x7F,
            },
        )
    }
}

impl Element for Cp56Time2a {
    open spec fn wire_len() -> nat {
        7
    }

    open spec fn wire(&self) -> Seq<u8> {
        le16(self.milliseconds as int) + seq![
            (self.minute % 64 + flag(self.genuine, 64) + flag(self.invalid, 128)) as u8,
            (self.hour % 32 + flag(self.summer_time, 128)) as u8,
            (self.day % 32 + (self.day_of_week % 8) * 32) as u8,
            self.month % 16,
            self.year % 128,
        ]
    }

    open spec fn decoded(s: Seq<u8>) -> Decoded<Self> {
        fixed(
            s,
            7,
            Cp56Time2a {
                milliseconds: u16_of(s) as u16,
                minute: s[2] % 64,
                genuine: has(s[2], 64),
                invalid: has(s[2], 128),
                hour: s[3] % 32,
                summer_time: has(s[3], 128),
                day: s[4] % 32,
                day_of_week: s[4] / 32,
                month: s[5] % 16,
                year: s[6] % 128,
            },
        )
    }

    open spec fn representable(&self) -> bool {
        &&& self.minute < 64
        &&& self.hour < 32
        &&& self.day < 32
        &&& self.day_of_week < 8
        &&& self.month < 16
        &&& self.year < 128
    }

    fn encode_element(&self, buf: &mut Vec<u8>) {
        self.encode(buf);
    }

    fn decode_element(buf: &mut &[u8]) -> (r: Result<Self>) {
        Self::decode(buf)
    }

    proof fn law_wire_len(&self) {
    }

    proof fn law_decoded(s: Seq<u8>) {
    }

    proof fn law_round_trip(&self, rest: Seq<u8>) {
    }
}

} // verus!
