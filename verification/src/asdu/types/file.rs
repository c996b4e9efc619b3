//! File-transfer ASDU types (TypeIDs 120-126).
//!
//! These ASDUs orchestrate the multi-step file-transfer dialogue. They are
//! independent of direction - both a controlling station (master) and a
//! controlled station (outstation) may emit any of them. The accompanying
//! [`crate::file_transfer`] state machine sequences them into a complete
//! transfer.
//!
//! ```text
//!   120  F_FR_NA_1   file ready
//!   121  F_SR_NA_1   section ready
//!   122  F_SC_NA_1   select / call / deactivate / delete
//!   123  F_LS_NA_1   last section / last segment with checksum
//!   124  F_AF_NA_1   acknowledge file / section
//!   125  F_SG_NA_1   segment data
//!   126  F_DR_TA_1   directory listing
//! ```

#![allow(non_camel_case_types)]

use vstd::prelude::*;
use crate::asdu::element::Element;
use crate::asdu::header::{ioa_fits, AsduAddressing, Ioa, Vsq};
use crate::asdu::ie::Cp56Time2a;
use crate::asdu::io_list::{
    decode_io_list, decode_object, encode_io_list, encode_object, law_list_round_trip,
    law_object_round_trip, list_decoded, list_fits, list_wire, object_decoded, object_wire,
};
use crate::asdu::payload::AsduPayload;
use crate::bits::{
    flag, has, lemma_join_fields, lemma_masks, lemma_octet_sum_concat, lemma_octet_sum_order,
    lemma_set_bits, lemma_u24_mask, octet_sum,
};
use crate::buf::{
    and_next, decodes, ensure, fixed, get_u16_le, get_u24_le, get_u8, le16, le24, mapped, put_slice,
    put_u16_le, put_u24_le, put_u8, room, short_of, take_vec, u16_of, u24_of, Decoded,
};
use crate::error::Result;

verus! {

// ---------------------------------------------------------------------------
// Atomic file-transfer elements
// ---------------------------------------------------------------------------

/// Name of File (2 octets, little-endian). Identifies a file on the peer.
#[derive(Debug, Default, Clone, Copy, PartialEq, Eq, Hash, PartialOrd, Ord, Structural)]
pub struct NameOfFile(pub u16);

impl NameOfFile {
    pub const LEN: usize = 2;

    pub fn encode(self, buf: &mut Vec<u8>)
        requires
            room(old(buf)@, Self::LEN as int),
        ensures
            final(buf)@ == old(buf)@ + self.wire(),
    {
        put_u16_le(buf, self.0);
    }

    pub fn decode(buf: &mut &[u8]) -> (r: Result<Self>)
        ensures
            decodes(old(buf)@, final(buf)@, r, Self::decoded(old(buf)@)),
    {
        ensure(buf, Self::LEN)?;
        Ok(NameOfFile(get_u16_le(buf)))
    }
}

impl Element for NameOfFile {
    open spec fn wire_len() -> nat {
        2
    }

    open spec fn wire(&self) -> Seq<u8> {
        le16(self.0 as int)
    }

    open spec fn decoded(s: Seq<u8>) -> Decoded<Self> {
        fixed(s, 2, NameOfFile(u16_of(s) as u16))
    }

    open spec fn representable(&self) -> bool {
        true
    }

    fn encode_element(&self, buf: &mut Vec<u8>) {
        self.encode(buf);
    }

    fn decode_element(buf: &mut &[u8]) -> (r: Result<Self>) {
        Self::decode(buf)
    }

    proof fn law_wire_len(&self) {
    }

    proof fn law_decoded(s: Seq<u8>) {
    }

    proof fn law_round_trip(&self, rest: Seq<u8>) {
    }
}

/// Name of Section (2 octets, little-endian). `0` means "no section / whole file".
#[derive(Debug, Default, Clone, Copy, PartialEq, Eq, Hash, PartialOrd, Ord, Structural)]
pub struct NameOfSection(pub u16);

impl NameOfSection {
    pub const LEN: usize = 2;
    /// Convention: section number 0 refers to the file as a whole, used during
    /// SELECT / FILE_READY before any section has been chosen.
    pub const WHOLE_FILE: u16 = 0;

    pub fn encode(self, buf: &mut Vec<u8>)
        requires
            room(old(buf)@, Self::LEN as int),
        ensures
            final(buf)@ == old(buf)@ + self.wire(),
    {
        put_u16_le(buf, self.0);
    }

    pub fn decode(buf: &mut &[u8]) -> (r: Result<Self>)
        ensures
            decodes(old(buf)@, final(buf)@, r, Self::decoded(old(buf)@)),
    {
        ensure(buf, Self::LEN)?;
        Ok(NameOfSection(get_u16_le(buf)))
    }
}

impl Element for NameOfSection {
    open spec fn wire_len() -> nat {
        2
    }

    open spec fn wire(&self) -> Seq<u8> {
        le16(self.0 as int)
    }

    open spec fn decoded(s: Seq<u8>) -> Decoded<Self> {
        fixed(s, 2, NameOfSection(u16_of(s) as u16))
    }

    open spec fn representable(&self) -> bool {
        true
    }

    fn encode_element(&self, buf: &mut Vec<u8>) {
        self.encode(buf);
    }

    fn decode_element(buf: &mut &[u8]) -> (r: Result<Self>) {
        Self::decode(buf)
    }

    proof fn law_wire_len(&self) {
    }

    proof fn law_decoded(s: Seq<u8>) {
    }

    proof fn law_round_trip(&self, rest: Seq<u8>) {
    }
}

/// Length of File (3 octets, little-endian). Range: 0..=2^24-1 bytes; higher
/// bits are dropped on encode.
#[derive(Debug, Default, Clone, Copy, PartialEq, Eq, Hash, PartialOrd, Ord, Structural)]
pub struct LengthOfFile(pub u32);

impl LengthOfFile {
    pub const LEN: usize = 3;
    pub const MAX: u32 = 0x00FF_FFFF;

    pub fn encode(self, buf: &mut Vec<u8>)
        requires
            room(old(buf)@, Self::LEN as int),
        ensures
            final(buf)@ == old(buf)@ + self.wire(),
    {
        proof { lemma_u24_mask(self.0); }
        put_u24_le(buf, self.0 & Self::MAX);
    }

    pub fn decode(buf: &mut &[u8]) -> (r: Result<Self>)
        ensures
            decodes(old(buf)@, final(buf)@, r, Self::decoded(old(buf)@)),
    {
        ensure(buf, Self::LEN)?;
        Ok(LengthOfFile(get_u24_le(buf)))
    }
}

impl Element for LengthOfFile {
    open spec fn wire_len() -> nat {
        3
    }

    open spec fn wire(&self) -> Seq<u8> {
        le24(self.0 as int)
    }

    open spec fn decoded(s: Seq<u8>) -> Decoded<Self> {
        fixed(s, 3, LengthOfFile(u24_of(s) as u32))
    }

    open spec fn representable(&self) -> bool {
        self.0 <= Self::MAX
    }

    fn encode_element(&self, buf: &mut Vec<u8>) {
        self.encode(buf);
    }

    fn decode_element(buf: &mut &[u8]) -> (r: Result<Self>) {
        Self::decode(buf)
    }

    proof fn law_wire_len(&self) {
    }

    proof fn law_decoded(s: Seq<u8>) {
    }

    proof fn law_round_trip(&self, rest: Seq<u8>) {
    }
}

/// Length of Section (3 octets, little-endian). Range: 0..=2^24-1 bytes; higher
/// bits are dropped on encode.
#[derive(Debug, Default, Clone, Copy, PartialEq, Eq, Hash, PartialOrd, Ord, Structural)]
pub struct LengthOfSection(pub u32);

impl LengthOfSection {
    pub const LEN: usize = 3;
    pub const MAX: u32 = 0x00FF_FFFF;

    pub fn encode(self, buf: &mut Vec<u8>)
        requires
            room(old(buf)@, Self::LEN as int),
        ensures
            final(buf)@ == old(buf)@ + self.wire(),
    {
        proof { lemma_u24_mask(self.0); }
        put_u24_le(buf, self.0 & Self::MAX);
    }

    pub fn decode(buf: &mut &[u8]) -> (r: Result<Self>)
        ensures
            decodes(old(buf)@, final(buf)@, r, Self::decoded(old(buf)@)),
    {
        ensure(buf, Self::LEN)?;
        Ok(LengthOfSection(get_u24_le(buf)))
    }
}

impl Element for LengthOfSection {
    open spec fn wire_len() -> nat {
        3
    }

    open spec fn wire(&self) -> Seq<u8> {
        le24(self.0 as int)
    }

    open spec fn decoded(s: Seq<u8>) -> Decoded<Self> {
        fixed(s, 3, LengthOfSection(u24_of(s) as u32))
    }

    open spec fn representable(&self) -> bool {
        self.0 <= Self::MAX
    }

    fn encode_element(&self, buf: &mut Vec<u8>) {
        self.encode(buf);
    }

    fn decode_element(buf: &mut &[u8]) -> (r: Result<Self>) {
        Self::decode(buf)
    }

    proof fn law_wire_len(&self) {
    }

    proof fn law_decoded(s: Seq<u8>) {
    }

    proof fn law_round_trip(&self, rest: Seq<u8>) {
    }
}

// ---------------------------------------------------------------------------
// Qualifier octets
// ---------------------------------------------------------------------------

/// File Ready Qualifier (1 octet). Bit 7 selects positive/negative
/// acknowledgement; bits 0-6 carry an implementation-specific code.
#[derive(Debug, Default, Clone, Copy, PartialEq, Eq, Hash, Structural)]
pub struct Frq {
    /// Implementation-specific 7-bit qualifier code (0..=127).
    pub code: u8,
    /// `true` for negative ack ("file not ready").
    pub negative: bool,
}

impl Frq {
    pub const LEN: usize = 1;

    /// Standard "file ready, default acknowledgement" qualifier.
    pub fn ready() -> (q: Self)
        ensures
            q == (Frq { code: 0, negative: false }),
    {
        Frq { code: 0, negative: false }
    }

    /// Standard "file not ready" negative acknowledgement.
    pub fn not_ready() -> (q: Self)
        ensures
            q == (Frq { code: 0, negative: true }),
    {
        Frq { code: 0, negative: true }
    }

    pub fn encode(self, buf: &mut Vec<u8>)
        requires
            room(old(buf)@, Self::LEN as int),
        ensures
            final(buf)@ == old(buf)@ + self.wire(),
    {
        proof { lemma_masks(self.code); }
        let mut b: u8 = self.code & 0x7F;
        if self.negative {
            proof { lemma_set_bits(b); }
            b |= 0x80;
        }
        put_u8(buf, b);
    }

    pub fn decode(buf: &mut &[u8]) -> (r: Result<Self>)
        ensures
            decodes(old(buf)@, final(buf)@, r, Self::decoded(old(buf)@)),
    {
        ensure(buf, Self::LEN)?;
        let b: u8 = get_u8(buf);
        proof { lemma_masks(b); }
        Ok(Frq { code: b & 0x7F, negative: b & 0x80 != 0 })
    }
}

impl Element for Frq {
    open spec fn wire_len() -> nat {
        1
    }

    open spec fn wire(&self) -> Seq<u8> {
        seq![(self.code % 128 + flag(self.negative, 128)) as u8]
    }

    open spec fn decoded(s: Seq<u8>) -> Decoded<Self> {
        fixed(s, 1, Frq { code: s[0] % 128, negative: has(s[0], 128) })
    }

    open spec fn representable(&self) -> bool {
        self.code < 128
    }

    fn encode_element(&self, buf: &mut Vec<u8>) {
        self.encode(buf);
    }

    fn decode_element(buf: &mut &[u8]) -> (r: Result<Self>) {
        Self::decode(buf)
    }

    proof fn law_wire_len(&self) {
    }

    proof fn law_decoded(s: Seq<u8>) {
    }

    proof fn law_round_trip(&self, rest: Seq<u8>) {
    }
}

/// Section Ready Qualifier (1 octet). Same layout as [`Frq`].
#[derive(Debug, Default, Clone, Copy, PartialEq, Eq, Hash, Structural)]
pub struct Srq {
    /// Implementation-specific 7-bit qualifier code (0..=127).
    pub code: u8,
    /// `true` for negative ack ("section not ready").
    pub negative: bool,
}

impl Srq {
    pub const LEN: usize = 1;

    /// Standard "section ready" qualifier.
    pub fn ready() -> (q: Self)
        ensures
            q == (Srq { code: 0, negative: false }),
    {
        Srq { code: 0, negative: false }
    }

    /// Standard "section not ready" negative acknowledgement.
    pub fn not_ready() -> (q: Self)
        ensures
            q == (Srq { code: 0, negative: true }),
    {
        Srq { code: 0, negative: true }
    }

    pub fn encode(self, buf: &mut Vec<u8>)
        requires
            room(old(buf)@, Self::LEN as int),
        ensures
            final(buf)@ == old(buf)@ + self.wire(),
    {
        proof { lemma_masks(self.code); }
        let mut b: u8 = self.code & 0x7F;
        if self.negative {
            proof { lemma_set_bits(b); }
            b |= 0x80;
        }
        put_u8(buf, b);
    }

    pub fn decode(buf: &mut &[u8]) -> (r: Result<Self>)
        ensures
            decodes(old(buf)@, final(buf)@, r, Self::decoded(old(buf)@)),
    {
        ensure(buf, Self::LEN)?;
        let b: u8 = get_u8(buf);
        proof { lemma_masks(b); }
        Ok(Srq { code: b & 0x7F, negative: b & 0x80 != 0 })
    }
}

impl Element for Srq {
    open spec fn wire_len() -> nat {
        1
    }

    open spec fn wire(&self) -> Seq<u8> {
        seq![(self.code % 128 + flag(self.negative, 128)) as u8]
    }

    open spec fn decoded(s: Seq<u8>) -> Decoded<Self> {
        fixed(s, 1, Srq { code: s[0] % 128, negative: has(s[0], 128) })
    }

    open spec fn representable(&self) -> bool {
        self.code < 128
    }

    fn encode_element(&self, buf: &mut Vec<u8>) {
        self.encode(buf);
    }

    fn decode_element(buf: &mut &[u8]) -> (r: Result<Self>) {
        Self::decode(buf)
    }

    proof fn law_wire_len(&self) {
    }

    proof fn law_decoded(s: Seq<u8>) {
    }

    proof fn law_round_trip(&self, rest: Seq<u8>) {
    }
}

/// Select-and-Call Qualifier (1 octet). Low nibble selects the action,
/// high nibble carries the reason / status code.
#[derive(Debug, Default, Clone, Copy, PartialEq, Eq, Hash, Structural)]
pub struct Scq {
    /// `UI4.1` - action (0..=15).
    pub action: ScqAction,
    /// `UI4.2` - vendor-defined status / reason (0..=15).
    pub status: u8,
}

impl Scq {
    pub const LEN: usize = 1;

    /// The status is cut to its four bits.
    pub fn new(action: ScqAction, status: u8) -> (q: Self)
        ensures
            q == (Scq { action, status: status % 16 }),
    {
        proof { lemma_masks(status); }
        Scq { action, status: status & 0x0F }
    }

    pub fn encode(self, buf: &mut Vec<u8>)
        requires
            room(old(buf)@, Self::LEN as int),
        ensures
            final(buf)@ == old(buf)@ + self.wire(),
    {
        let code: u8 = self.action.to_bits();
        proof {
            lemma_masks(code);
            lemma_join_fields(self.status, code);
        }
        put_u8(buf, (code & 0x0F) | ((self.status & 0x0F) << 4));
    }

    pub fn decode(buf: &mut &[u8]) -> (r: Result<Self>)
        ensures
            decodes(old(buf)@, final(buf)@, r, Self::decoded(old(buf)@)),
    {
        ensure(buf, Self::LEN)?;
        let b: u8 = get_u8(buf);
        proof {
            lemma_masks(b);
            lemma_masks(b >> 4);
        }
        Ok(Scq { action: ScqAction::from_bits(b & 0x0F), status: (b >> 4) & 0x0F })
    }
}

impl Element for Scq {
    open spec fn wire_len() -> nat {
        1
    }

    open spec fn wire(&self) -> Seq<u8> {
        seq![(self.action.code() + 16 * (self.status % 16)) as u8]
    }

    open spec fn decoded(s: Seq<u8>) -> Decoded<Self> {
        fixed(
            s,
            1,
            Scq { action: ScqAction::of_code(s[0] as int % 16), status: s[0] / 16 },
        )
    }

    open spec fn representable(&self) -> bool {
        self.action.canonical() && self.status < 16
    }

    fn encode_element(&self, buf: &mut Vec<u8>) {
        self.encode(buf);
    }

    fn decode_element(buf: &mut &[u8]) -> (r: Result<Self>) {
        Self::decode(buf)
    }

    proof fn law_wire_len(&self) {
    }

    proof fn law_decoded(s: Seq<u8>) {
    }

    proof fn law_round_trip(&self, rest: Seq<u8>) {
    }
}

/// Select-and-Call action codes (low nibble of [`Scq`]).
#[derive(Debug, Default, Clone, Copy, PartialEq, Eq, Hash, Structural)]
pub enum ScqAction {
    #[default]
    Default,
    SelectFile,
    RequestFile,
    DeactivateFile,
    DeleteFile,
    SelectSection,
    RequestSection,
    DeactivateSection,
    /// 8..=15 are reserved for compatible extensions; the raw nibble is preserved.
    Other(u8),
}

impl ScqAction {
    /// The code on the wire.
    pub open spec fn code(self) -> int {
        match self {
            ScqAction::Default => 0,
            ScqAction::SelectFile => 1,
            ScqAction::RequestFile => 2,
            ScqAction::DeactivateFile => 3,
            ScqAction::DeleteFile => 4,
            ScqAction::SelectSection => 5,
            ScqAction::RequestSection => 6,
            ScqAction::DeactivateSection => 7,
            ScqAction::Other(b) => b as int % 16,
        }
    }

    /// What a code stands for.
    pub open spec fn of_code(n: int) -> ScqAction {
        if n == 0 {
            ScqAction::Default
        } else if n == 1 {
            ScqAction::SelectFile
        } else if n == 2 {
            ScqAction::RequestFile
        } else if n == 3 {
            ScqAction::DeactivateFile
        } else if n == 4 {
            ScqAction::DeleteFile
        } else if n == 5 {
            ScqAction::SelectSection
        } else if n == 6 {
            ScqAction::RequestSection
        } else if n == 7 {
            ScqAction::DeactivateSection
        } else {
            ScqAction::Other(n as u8)
        }
    }

    /// Whether `Other` holds only a code that has no name.
    pub open spec fn canonical(self) -> bool {
        self matches ScqAction::Other(b) ==> 8 <= b < 16
    }

    fn to_bits(self) -> (b: u8)
        ensures
            b as int == self.code(),
    {
        proof {
            if let ScqAction::Other(b) = self {
                lemma_masks(b);
            }
        }
        match self {
            ScqAction::Default => 0,
            ScqAction::SelectFile => 1,
            ScqAction::RequestFile => 2,
            ScqAction::DeactivateFile => 3,
            ScqAction::DeleteFile => 4,
            ScqAction::SelectSection => 5,
            ScqAction::RequestSection => 6,
            ScqAction::DeactivateSection => 7,
            ScqAction::Other(b) => b & 0x0F,
        }
    }

    fn from_bits(b: u8) -> (action: Self)
        ensures
            action == Self::of_code(b as int % 16),
    {
        proof { lemma_masks(b); }
        match b & 0x0F {
            0 => ScqAction::Default,
            1 => ScqAction::SelectFile,
            2 => ScqAction::RequestFile,
            3 => ScqAction::DeactivateFile,
            4 => ScqAction::DeleteFile,
            5 => ScqAction::SelectSection,
            6 => ScqAction::RequestSection,
            7 => ScqAction::DeactivateSection,
            n => ScqAction::Other(n),
        }
    }
}

/// Last Section / Last Segment Qualifier (1 octet).
#[derive(Debug, Default, Clone, Copy, PartialEq, Eq, Hash, Structural)]
pub enum Lsq {
    #[default]
    Default,
    /// Section transfer completed without deactivation.
    SectionWithoutDeactivate,
    /// Section transfer completed with deactivation.
    SectionWithDeactivate,
    /// File transfer completed without deactivation.
    FileWithoutDeactivate,
    /// File transfer completed with deactivation.
    FileWithDeactivate,
    /// 5..=255 are reserved / private use; preserved verbatim.
    Other(u8),
}

impl Lsq {
    pub const LEN: usize = 1;

    /// The code on the wire.
    pub open spec fn code(self) -> int {
        match self {
            Lsq::Default => 0,
            Lsq::SectionWithoutDeactivate => 1,
            Lsq::SectionWithDeactivate => 2,
            Lsq::FileWithoutDeactivate => 3,
            Lsq::FileWithDeactivate => 4,
            Lsq::Other(b) => b as int,
        }
    }

    /// What a code stands for.
    pub open spec fn of_code(n: int) -> Lsq {
        if n == 0 {
            Lsq::Default
        } else if n == 1 {
            Lsq::SectionWithoutDeactivate
        } else if n == 2 {
            Lsq::SectionWithDeactivate
        } else if n == 3 {
            Lsq::FileWithoutDeactivate
        } else if n == 4 {
            Lsq::FileWithDeactivate
        } else {
            Lsq::Other(n as u8)
        }
    }

    /// Whether `Other` holds only a code that has no name.
    pub open spec fn canonical(self) -> bool {
        self matches Lsq::Other(b) ==> 5 <= b
    }

    fn to_bits(self) -> (b: u8)
        ensures
            b as int == self.code(),
    {
        match self {
            Lsq::Default => 0,
            Lsq::SectionWithoutDeactivate => 1,
            Lsq::SectionWithDeactivate => 2,
            Lsq::FileWithoutDeactivate => 3,
            Lsq::FileWithDeactivate => 4,
            Lsq::Other(b) => b,
        }
    }

    fn from_bits(b: u8) -> (action: Self)
        ensures
            action == Self::of_code(b as int),
    {
        match b {
            0 => Lsq::Default,
            1 => Lsq::SectionWithoutDeactivate,
            2 => Lsq::SectionWithDeactivate,
            3 => Lsq::FileWithoutDeactivate,
            4 => Lsq::FileWithDeactivate,
            n => Lsq::Other(n),
        }
    }

    pub fn encode(self, buf: &mut Vec<u8>)
        requires
            room(old(buf)@, Self::LEN as int),
        ensures
            final(buf)@ == old(buf)@ + self.wire(),
    {
        put_u8(buf, self.to_bits());
    }

    pub fn decode(buf: &mut &[u8]) -> (r: Result<Self>)
        ensures
            decodes(old(buf)@, final(buf)@, r, Self::decoded(old(buf)@)),
    {
        ensure(buf, Self::LEN)?;
        Ok(Self::from_bits(get_u8(buf)))
    }
}

impl Element for Lsq {
    open spec fn wire_len() -> nat {
        1
    }

    open spec fn wire(&self) -> Seq<u8> {
        seq![self.code() as u8]
    }

    open spec fn decoded(s: Seq<u8>) -> Decoded<Self> {
        fixed(s, 1, Lsq::of_code(s[0] as int))
    }

    open spec fn representable(&self) -> bool {
        self.canonical()
    }

    fn encode_element(&self, buf: &mut Vec<u8>) {
        self.encode(buf);
    }

    fn decode_element(buf: &mut &[u8]) -> (r: Result<Self>) {
        Self::decode(buf)
    }

    proof fn law_wire_len(&self) {
    }

    proof fn law_decoded(s: Seq<u8>) {
    }

    proof fn law_round_trip(&self, rest: Seq<u8>) {
    }
}

/// Acknowledge-File / Acknowledge-Section Qualifier (1 octet). Low nibble
/// holds the action ack, high nibble holds the reason code.
#[derive(Debug, Default, Clone, Copy, PartialEq, Eq, Hash, Structural)]
pub struct Afq {
    /// `UI4.1` - acknowledgement code (0..=15).
    pub action: AfqAction,
    /// `UI4.2` - reason / error code (0..=15).
    pub status: u8,
}

impl Afq {
    pub const LEN: usize = 1;

    /// The status is cut to its four bits.
    pub fn new(action: AfqAction, status: u8) -> (q: Self)
        ensures
            q == (Afq { action, status: status % 16 }),
    {
        proof { lemma_masks(status); }
        Afq { action, status: status & 0x0F }
    }

    pub fn encode(self, buf: &mut Vec<u8>)
        requires
            room(old(buf)@, Self::LEN as int),
        ensures
            final(buf)@ == old(buf)@ + self.wire(),
    {
        let code: u8 = self.action.to_bits();
        proof {
            lemma_masks(code);
            lemma_join_fields(self.status, code);
        }
        put_u8(buf, (code & 0x0F) | ((self.status & 0x0F) << 4));
    }

    pub fn decode(buf: &mut &[u8]) -> (r: Result<Self>)
        ensures
            decodes(old(buf)@, final(buf)@, r, Self::decoded(old(buf)@)),
    {
        ensure(buf, Self::LEN)?;
        let b: u8 = get_u8(buf);
        proof {
            lemma_masks(b);
            lemma_masks(b >> 4);
        }
        Ok(Afq { action: AfqAction::from_bits(b & 0x0F), status: (b >> 4) & 0x0F })
    }
}

impl Element for Afq {
    open spec fn wire_len() -> nat {
        1
    }

    open spec fn wire(&self) -> Seq<u8> {
        seq![(self.action.code() + 16 * (self.status % 16)) as u8]
    }

    open spec fn decoded(s: Seq<u8>) -> Decoded<Self> {
        fixed(
            s,
            1,
            Afq { action: AfqAction::of_code(s[0] as int % 16), status: s[0] / 16 },
        )
    }

    open spec fn representable(&self) -> bool {
        self.action.canonical() && self.status < 16
    }

    fn encode_element(&self, buf: &mut Vec<u8>) {
        self.encode(buf);
    }

    fn decode_element(buf: &mut &[u8]) -> (r: Result<Self>) {
        Self::decode(buf)
    }

    proof fn law_wire_len(&self) {
    }

    proof fn law_decoded(s: Seq<u8>) {
    }

    proof fn law_round_trip(&self, rest: Seq<u8>) {
    }
}

/// Acknowledge action codes (low nibble of [`Afq`]).
#[derive(Debug, Default, Clone, Copy, PartialEq, Eq, Hash, Structural)]
pub enum AfqAction {
    #[default]
    Default,
    PositiveFile,
    NegativeFile,
    PositiveSection,
    NegativeSection,
    /// 5..=15 reserved / private use.
    Other(u8),
}

impl AfqAction {
    /// The code on the wire.
    pub open spec fn code(self) -> int {
        match self {
            AfqAction::Default => 0,
            AfqAction::PositiveFile => 1,
            AfqAction::NegativeFile => 2,
            AfqAction::PositiveSection => 3,
            AfqAction::NegativeSection => 4,
            AfqAction::Other(b) => b as int % 16,
        }
    }

    /// What a code stands for.
    pub open spec fn of_code(n: int) -> AfqAction {
        if n == 0 {
            AfqAction::Default
        } else if n == 1 {
            AfqAction::PositiveFile
        } else if n == 2 {
            AfqAction::NegativeFile
        } else if n == 3 {
            AfqAction::PositiveSection
        } else if n == 4 {
            AfqAction::NegativeSection
        } else {
            AfqAction::Other(n as u8)
        }
    }

    /// Whether `Other` holds only a code that has no name.
    pub open spec fn canonical(self) -> bool {
        self matches AfqAction::Other(b) ==> 5 <= b < 16
    }

    fn to_bits(self) -> (b: u8)
        ensures
            b as int == self.code(),
    {
        proof {
            if let AfqAction::Other(b) = self {
                lemma_masks(b);
            }
        }
        match self {
            AfqAction::Default => 0,
            AfqAction::PositiveFile => 1,
            AfqAction::NegativeFile => 2,
            AfqAction::PositiveSection => 3,
            AfqAction::NegativeSection => 4,
            AfqAction::Other(b) => b & 0x0F,
        }
    }

    fn from_bits(b: u8) -> (action: Self)
        ensures
            action == Self::of_code(b as int % 16),
    {
        proof { lemma_masks(b); }
        match b & 0x0F {
            0 => AfqAction::Default,
            1 => AfqAction::PositiveFile,
            2 => AfqAction::NegativeFile,
            3 => AfqAction::PositiveSection,
            4 => AfqAction::NegativeSection,
            n => AfqAction::Other(n),
        }
    }
}

/// Status of File (1 octet) - appears in directory entries (F_DR_TA_1).
#[derive(Debug, Default, Clone, Copy, PartialEq, Eq, Hash, Structural)]
pub struct Sof {
    /// Bits 0-4 - application-defined status code.
    pub status: u8,
    /// `LFD` - this entry is the last file in the directory.
    pub last_file: bool,
    /// `FOR` - entry refers to a sub-directory rather than a file.
    pub sub_directory: bool,
    /// `FA` - file transfer is currently active.
    pub active: bool,
}

impl Sof {
    pub const LEN: usize = 1;
    const LFD: u8 = 0x20;
    const FOR_BIT: u8 = 0x40;
    const FA: u8 = 0x80;
    const STATUS_MASK: u8 = 0x1F;

    pub fn encode(self, buf: &mut Vec<u8>)
        requires
            room(old(buf)@, Self::LEN as int),
        ensures
            final(buf)@ == old(buf)@ + self.wire(),
    {
        proof { lemma_masks(self.status); }
        let mut b: u8 = self.status & Self::STATUS_MASK;
        if self.last_file {
            proof { lemma_set_bits(b); }
            b |= Self::LFD;
        }
        if self.sub_directory {
            proof { lemma_set_bits(b); }
            b |= Self::FOR_BIT;
        }
        if self.active {
            proof { lemma_set_bits(b); }
            b |= Self::FA;
        }
        put_u8(buf, b);
    }

    pub fn decode(buf: &mut &[u8]) -> (r: Result<Self>)
        ensures
            decodes(old(buf)@, final(buf)@, r, Self::decoded(old(buf)@)),
    {
        ensure(buf, Self::LEN)?;
        let b: u8 = get_u8(buf);
        proof { lemma_masks(b); }
        Ok(
            Sof {
                status: b & Self::STATUS_MASK,
                last_file: b & Self::LFD != 0,
                sub_directory: b & Self::FOR_BIT != 0,
                active: b & Self::FA != 0,
            },
        )
    }
}

impl Element for Sof {
    open spec fn wire_len() -> nat {
        1
    }

    open spec fn wire(&self) -> Seq<u8> {
        seq![
            (self.status % 32 + flag(self.last_file, 32) + flag(self.sub_directory, 64) + flag(
                self.active,
                128,
            )) as u8,
        ]
    }

    open spec fn decoded(s: Seq<u8>) -> Decoded<Self> {
        fixed(
            s,
            1,
            Sof {
                status: s[0] % 32,
                last_file: has(s[0], 32),
                sub_directory: has(s[0], 64),
                active: has(s[0], 128),
            },
        )
    }

    open spec fn representable(&self) -> bool {
        self.status < 32
    }

    fn encode_element(&self, buf: &mut Vec<u8>) {
        self.encode(buf);
    }

    fn decode_element(buf: &mut &[u8]) -> (r: Result<Self>) {
        Self::decode(buf)
    }

    proof fn law_wire_len(&self) {
    }

    proof fn law_decoded(s: Seq<u8>) {
    }

    proof fn law_round_trip(&self, rest: Seq<u8>) {
    }
}

/// Checksum (1 octet) - modulo-256 sum of all section data bytes.
#[derive(Debug, Default, Clone, Copy, PartialEq, Eq, Hash, Structural)]
pub struct Checksum(pub u8);

impl Checksum {
    pub const LEN: usize = 1;

    /// The running checksum `self` with all of `data` folded in.
    pub open spec fn folded(self, data: Seq<u8>) -> Checksum {
        Checksum(((self.0 + octet_sum(data)) % 256) as u8)
    }

    /// Compute the modulo-256 checksum of `data`.
    pub fn of(data: &[u8]) -> (c: Self)
        ensures
            c == Checksum(0).folded(data@),
    {
        let mut c = Checksum(0);
        c.update_slice(data);
        c
    }

    /// Incremental update - fold one byte into a running checksum.
    pub fn update(&mut self, byte: u8)
        ensures
            *final(self) == old(self).folded(seq![byte]),
    {
        proof { reveal_with_fuel(octet_sum, 2); }
        self.0 = self.0.wrapping_add(byte);
    }

    /// Incremental update from a slice.
    pub fn update_slice(&mut self, data: &[u8])
        ensures
            *final(self) == old(self).folded(data@),
    {
        let n: usize = data.len();
        let mut i: usize = 0;
        while i < n
            invariant
                i <= n,
                n == data@.len(),
                *self == old(self).folded(data@.take(i as int)),
            decreases n - i,
        {
            assert(data@.take(i + 1).drop_last() =~= data@.take(i as int));
            self.0 = self.0.wrapping_add(data[i]);
            i += 1;
        }
        assert(data@.take(n as int) =~= data@);
    }

    pub fn encode(self, buf: &mut Vec<u8>)
        requires
            room(old(buf)@, Self::LEN as int),
        ensures
            final(buf)@ == old(buf)@ + self.wire(),
    {
        put_u8(buf, self.0);
    }

    pub fn decode(buf: &mut &[u8]) -> (r: Result<Self>)
        ensures
            decodes(old(buf)@, final(buf)@, r, Self::decoded(old(buf)@)),
    {
        ensure(buf, Self::LEN)?;
        Ok(Checksum(get_u8(buf)))
    }
}

impl Element for Checksum {
    open spec fn wire_len() -> nat {
        1
    }

    open spec fn wire(&self) -> Seq<u8> {
        seq![self.0]
    }

    open spec fn decoded(s: Seq<u8>) -> Decoded<Self> {
        fixed(s, 1, Checksum(s[0]))
    }

    open spec fn representable(&self) -> bool {
        true
    }

    fn encode_element(&self, buf: &mut Vec<u8>) {
        self.encode(buf);
    }

    fn decode_element(buf: &mut &[u8]) -> (r: Result<Self>) {
        Self::decode(buf)
    }

    proof fn law_wire_len(&self) {
    }

    proof fn law_decoded(s: Seq<u8>) {
    }

    proof fn law_round_trip(&self, rest: Seq<u8>) {
    }
}

/// Folding data into a running checksum piece by piece comes to folding in
/// all of it, and the order of the pieces does not matter.
pub proof fn law_checksum_pieces(c: Checksum, a: Seq<u8>, b: Seq<u8>)
    ensures
        c.folded(a).folded(b) == c.folded(a + b),
        c.folded(a + b) == c.folded(b + a),
{
    lemma_octet_sum_concat(a, b);
    lemma_octet_sum_concat(b, a);
}

/// The checksum does not depend on the order of the octets.
pub proof fn law_checksum_order(c: Checksum, a: Seq<u8>, b: Seq<u8>)
    requires
        a.to_multiset() == b.to_multiset(),
    ensures
        c.folded(a) == c.folded(b),
{
    lemma_octet_sum_order(a, b);
}

// ---------------------------------------------------------------------------
// F_FR_NA_1 (TypeID 120) - File Ready
// ---------------------------------------------------------------------------

/// `F_FR_NA_1` - sender announces a file is ready for transfer.
#[derive(Debug, Default, Clone, Copy, PartialEq, Eq, Hash, Structural)]
pub struct F_FR_NA_1 {
    pub ioa: Ioa,
    pub nof: NameOfFile,
    pub lof: LengthOfFile,
    pub frq: Frq,
}

impl View for F_FR_NA_1 {
    type V = F_FR_NA_1;

    open spec fn view(&self) -> F_FR_NA_1 {
        *self
    }
}

impl AsduPayload for F_FR_NA_1 {
    const TYPE_ID: u8 = 120;

    open spec fn code() -> u8 {
        120
    }

    proof fn law_type_id() {
    }

    open spec fn section(content: F_FR_NA_1, vsq: Vsq, addressing: AsduAddressing) -> Seq<u8> {
        object_wire(content.ioa, (content.nof, content.lof, content.frq), addressing.ioa_size)
    }

    open spec fn section_decoded(
        s: Seq<u8>,
        vsq: Vsq,
        addressing: AsduAddressing,
    ) -> Decoded<F_FR_NA_1> {
        mapped(
            object_decoded(s, addressing.ioa_size),
            |o: (Ioa, (NameOfFile, LengthOfFile, Frq))| F_FR_NA_1 { ioa: o.0, nof: o.1.0, lof: o.1.1, frq: o.1.2 },
        )
    }

    open spec fn section_fits(content: F_FR_NA_1, vsq: Vsq, addressing: AsduAddressing) -> bool {
        ioa_fits(content.ioa, addressing.ioa_size) && (content.nof, content.lof, content.frq).representable()
    }

    fn encode_information_objects(&self, buf: &mut Vec<u8>, vsq: Vsq, addressing: AsduAddressing) {
        encode_object(buf, self.ioa, &(self.nof, self.lof, self.frq), addressing.ioa_size);
    }

    fn decode_information_objects(buf: &mut &[u8], vsq: Vsq, addressing: AsduAddressing) -> (r:
        Result<Self>) {
        let o: (Ioa, (NameOfFile, LengthOfFile, Frq)) = decode_object(buf, addressing.ioa_size)?;
        Ok(F_FR_NA_1 { ioa: o.0, nof: o.1.0, lof: o.1.1, frq: o.1.2 })
    }

    proof fn law_section_round_trip(
        content: F_FR_NA_1,
        vsq: Vsq,
        addressing: AsduAddressing,
        rest: Seq<u8>,
    ) {
        law_object_round_trip(
            content.ioa,
            (content.nof, content.lof, content.frq),
            addressing.ioa_size,
            rest,
        );
    }
}

// ---------------------------------------------------------------------------
// F_SR_NA_1 (TypeID 121) - Section Ready
// ---------------------------------------------------------------------------

/// `F_SR_NA_1` - sender announces a section is ready for transfer.
#[derive(Debug, Default, Clone, Copy, PartialEq, Eq, Hash, Structural)]
pub struct F_SR_NA_1 {
    pub ioa: Ioa,
    pub nof: NameOfFile,
    pub nos: NameOfSection,
    pub los: LengthOfSection,
    pub srq: Srq,
}

impl View for F_SR_NA_1 {
    type V = F_SR_NA_1;

    open spec fn view(&self) -> F_SR_NA_1 {
        *self
    }
}

impl AsduPayload for F_SR_NA_1 {
    const TYPE_ID: u8 = 121;

    open spec fn code() -> u8 {
        121
    }

    proof fn law_type_id() {
    }

    open spec fn section(content: F_SR_NA_1, vsq: Vsq, addressing: AsduAddressing) -> Seq<u8> {
        object_wire(content.ioa, ((content.nof, content.nos), content.los, content.srq), addressing.ioa_size)
    }

    open spec fn section_decoded(
        s: Seq<u8>,
        vsq: Vsq,
        addressing: AsduAddressing,
    ) -> Decoded<F_SR_NA_1> {
        mapped(
            object_decoded(s, addressing.ioa_size),
            |o: (Ioa, ((NameOfFile, NameOfSection), LengthOfSection, Srq))| F_SR_NA_1 {
                ioa: o.0,
                nof: o.1.0.0,
                nos: o.1.0.1,
                los: o.1.1,
                srq: o.1.2,
            },
        )
    }

    open spec fn section_fits(content: F_SR_NA_1, vsq: Vsq, addressing: AsduAddressing) -> bool {
        ioa_fits(content.ioa, addressing.ioa_size) && ((content.nof, content.nos), content.los, content.srq).representable()
    }

    fn encode_information_objects(&self, buf: &mut Vec<u8>, vsq: Vsq, addressing: AsduAddressing) {
        encode_object(buf, self.ioa, &((self.nof, self.nos), self.los, self.srq), addressing.ioa_size);
    }

    fn decode_information_objects(buf: &mut &[u8], vsq: Vsq, addressing: AsduAddressing) -> (r:
        Result<Self>) {
        let o: (Ioa, ((NameOfFile, NameOfSection), LengthOfSection, Srq)) = decode_object(buf, addressing.ioa_size)?;
        Ok(F_SR_NA_1 {
                ioa: o.0,
                nof: o.1.0.0,
                nos: o.1.0.1,
                los: o.1.1,
                srq: o.1.2,
            })
    }

    proof fn law_section_round_trip(
        content: F_SR_NA_1,
        vsq: Vsq,
        addressing: AsduAddressing,
        rest: Seq<u8>,
    ) {
        law_object_round_trip(
            content.ioa,
            ((content.nof, content.nos), content.los, content.srq),
            addressing.ioa_size,
            rest,
        );
    }
}

// ---------------------------------------------------------------------------
// F_SC_NA_1 (TypeID 122) - Select / Call / Deactivate / Delete
// ---------------------------------------------------------------------------

/// `F_SC_NA_1` - direct the peer to select, request, deactivate or delete a
/// file or section.
#[derive(Debug, Default, Clone, Copy, PartialEq, Eq, Hash, Structural)]
pub struct F_SC_NA_1 {
    pub ioa: Ioa,
    pub nof: NameOfFile,
    pub nos: NameOfSection,
    pub scq: Scq,
}

impl View for F_SC_NA_1 {
    type V = F_SC_NA_1;

    open spec fn view(&self) -> F_SC_NA_1 {
        *self
    }
}

impl AsduPayload for F_SC_NA_1 {
    const TYPE_ID: u8 = 122;

    open spec fn code() -> u8 {
        122
    }

    proof fn law_type_id() {
    }

    open spec fn section(content: F_SC_NA_1, vsq: Vsq, addressing: AsduAddressing) -> Seq<u8> {
        object_wire(content.ioa, (content.nof, content.nos, content.scq), addressing.ioa_size)
    }

    open spec fn section_decoded(
        s: Seq<u8>,
        vsq: Vsq,
        addressing: AsduAddressing,
    ) -> Decoded<F_SC_NA_1> {
        mapped(
            object_decoded(s, addressing.ioa_size),
            |o: (Ioa, (NameOfFile, NameOfSection, Scq))| F_SC_NA_1 { ioa: o.0, nof: o.1.0, nos: o.1.1, scq: o.1.2 },
        )
    }

    open spec fn section_fits(content: F_SC_NA_1, vsq: Vsq, addressing: AsduAddressing) -> bool {
        ioa_fits(content.ioa, addressing.ioa_size) && (content.nof, content.nos, content.scq).representable()
    }

    fn encode_information_objects(&self, buf: &mut Vec<u8>, vsq: Vsq, addressing: AsduAddressing) {
        encode_object(buf, self.ioa, &(self.nof, self.nos, self.scq), addressing.ioa_size);
    }

    fn decode_information_objects(buf: &mut &[u8], vsq: Vsq, addressing: AsduAddressing) -> (r:
        Result<Self>) {
        let o: (Ioa, (NameOfFile, NameOfSection, Scq)) = decode_object(buf, addressing.ioa_size)?;
        Ok(F_SC_NA_1 { ioa: o.0, nof: o.1.0, nos: o.1.1, scq: o.1.2 })
    }

    proof fn law_section_round_trip(
        content: F_SC_NA_1,
        vsq: Vsq,
        addressing: AsduAddressing,
        rest: Seq<u8>,
    ) {
        law_object_round_trip(
            content.ioa,
            (content.nof, content.nos, content.scq),
            addressing.ioa_size,
            rest,
        );
    }
}

// ---------------------------------------------------------------------------
// F_LS_NA_1 (TypeID 123) - Last Section / Last Segment with checksum
// ---------------------------------------------------------------------------

/// `F_LS_NA_1` - close a section or file with its checksum.
#[derive(Debug, Default, Clone, Copy, PartialEq, Eq, Hash, Structural)]
pub struct F_LS_NA_1 {
    pub ioa: Ioa,
    pub nof: NameOfFile,
    pub nos: NameOfSection,
    pub lsq: Lsq,
    pub chs: Checksum,
}

impl View for F_LS_NA_1 {
    type V = F_LS_NA_1;

    open spec fn view(&self) -> F_LS_NA_1 {
        *self
    }
}

impl AsduPayload for F_LS_NA_1 {
    const TYPE_ID: u8 = 123;

    open spec fn code() -> u8 {
        123
    }

    proof fn law_type_id() {
    }

    open spec fn section(content: F_LS_NA_1, vsq: Vsq, addressing: AsduAddressing) -> Seq<u8> {
        object_wire(content.ioa, ((content.nof, content.nos), content.lsq, content.chs), addressing.ioa_size)
    }

    open spec fn section_decoded(
        s: Seq<u8>,
        vsq: Vsq,
        addressing: AsduAddressing,
    ) -> Decoded<F_LS_NA_1> {
        mapped(
            object_decoded(s, addressing.ioa_size),
            |o: (Ioa, ((NameOfFile, NameOfSection), Lsq, Checksum))| F_LS_NA_1 {
                ioa: o.0,
                nof: o.1.0.0,
                nos: o.1.0.1,
                lsq: o.1.1,
                chs: o.1.2,
            },
        )
    }

    open spec fn section_fits(content: F_LS_NA_1, vsq: Vsq, addressing: AsduAddressing) -> bool {
        ioa_fits(content.ioa, addressing.ioa_size) && ((content.nof, content.nos), content.lsq, content.chs).representable()
    }

    fn encode_information_objects(&self, buf: &mut Vec<u8>, vsq: Vsq, addressing: AsduAddressing) {
        encode_object(buf, self.ioa, &((self.nof, self.nos), self.lsq, self.chs), addressing.ioa_size);
    }

    fn decode_information_objects(buf: &mut &[u8], vsq: Vsq, addressing: AsduAddressing) -> (r:
        Result<Self>) {
        let o: (Ioa, ((NameOfFile, NameOfSection), Lsq, Checksum)) = decode_object(buf, addressing.ioa_size)?;
        Ok(F_LS_NA_1 {
                ioa: o.0,
                nof: o.1.0.0,
                nos: o.1.0.1,
                lsq: o.1.1,
                chs: o.1.2,
            })
    }

    proof fn law_section_round_trip(
        content: F_LS_NA_1,
        vsq: Vsq,
        addressing: AsduAddressing,
        rest: Seq<u8>,
    ) {
        law_object_round_trip(
            content.ioa,
            ((content.nof, content.nos), content.lsq, content.chs),
            addressing.ioa_size,
            rest,
        );
    }
}

// ---------------------------------------------------------------------------
// F_AF_NA_1 (TypeID 124) - Acknowledge File / Section
// ---------------------------------------------------------------------------

/// `F_AF_NA_1` - acknowledge (positively or negatively) a file or section
/// transfer.
#[derive(Debug, Default, Clone, Copy, PartialEq, Eq, Hash, Structural)]
pub struct F_AF_NA_1 {
    pub ioa: Ioa,
    pub nof: NameOfFile,
    pub nos: NameOfSection,
    pub afq: Afq,
}

impl View for F_AF_NA_1 {
    type V = F_AF_NA_1;

    open spec fn view(&self) -> F_AF_NA_1 {
        *self
    }
}

impl AsduPayload for F_AF_NA_1 {
    const TYPE_ID: u8 = 124;

    open spec fn code() -> u8 {
        124
    }

    proof fn law_type_id() {
    }

    open spec fn section(content: F_AF_NA_1, vsq: Vsq, addressing: AsduAddressing) -> Seq<u8> {
        object_wire(content.ioa, (content.nof, content.nos, content.afq), addressing.ioa_size)
    }

    open spec fn section_decoded(
        s: Seq<u8>,
        vsq: Vsq,
        addressing: AsduAddressing,
    ) -> Decoded<F_AF_NA_1> {
        mapped(
            object_decoded(s, addressing.ioa_size),
            |o: (Ioa, (NameOfFile, NameOfSection, Afq))| F_AF_NA_1 { ioa: o.0, nof: o.1.0, nos: o.1.1, afq: o.1.2 },
        )
    }

    open spec fn section_fits(content: F_AF_NA_1, vsq: Vsq, addressing: AsduAddressing) -> bool {
        ioa_fits(content.ioa, addressing.ioa_size) && (content.nof, content.nos, content.afq).representable()
    }

    fn encode_information_objects(&self, buf: &mut Vec<u8>, vsq: Vsq, addressing: AsduAddressing) {
        encode_object(buf, self.ioa, &(self.nof, self.nos, self.afq), addressing.ioa_size);
    }

    fn decode_information_objects(buf: &mut &[u8], vsq: Vsq, addressing: AsduAddressing) -> (r:
        Result<Self>) {
        let o: (Ioa, (NameOfFile, NameOfSection, Afq)) = decode_object(buf, addressing.ioa_size)?;
        Ok(F_AF_NA_1 { ioa: o.0, nof: o.1.0, nos: o.1.1, afq: o.1.2 })
    }

    proof fn law_section_round_trip(
        content: F_AF_NA_1,
        vsq: Vsq,
        addressing: AsduAddressing,
        rest: Seq<u8>,
    ) {
        law_object_round_trip(
            content.ioa,
            (content.nof, content.nos, content.afq),
            addressing.ioa_size,
            rest,
        );
    }
}

// ---------------------------------------------------------------------------
// F_SG_NA_1 (TypeID 125) - Segment of section data
// ---------------------------------------------------------------------------

/// Maximum length of the segment payload carried by `F_SG_NA_1`. The standard
/// uses an 8-bit Length-of-Segment field, so the payload is capped at 255
/// bytes. Implementations typically stay below 240 to fit within IEC 60870-5
/// frame budgets.
pub const MAX_SEGMENT_BYTES: usize = 0xFF;

/// `F_SG_NA_1` - one segment of a section. The segment data length is given
/// by an explicit 1-octet field on the wire (it is NOT derivable from the
/// surrounding frame size).
#[derive(Debug, Default, Clone, PartialEq, Eq, Hash)]
pub struct F_SG_NA_1 {
    pub ioa: Ioa,
    pub nof: NameOfFile,
    pub nos: NameOfSection,
    /// Segment data. Must be `<= MAX_SEGMENT_BYTES` bytes long; what is beyond
    /// is cut off on encode.
    pub segment: Vec<u8>,
}

/// What an [`F_SG_NA_1`] holds.
pub struct SegmentModel {
    pub ioa: Ioa,
    pub nof: NameOfFile,
    pub nos: NameOfSection,
    pub segment: Seq<u8>,
}

impl View for F_SG_NA_1 {
    type V = SegmentModel;

    open spec fn view(&self) -> SegmentModel {
        SegmentModel { ioa: self.ioa, nof: self.nof, nos: self.nos, segment: self.segment@ }
    }
}

/// The part of a segment that its length octet can describe.
pub open spec fn carried(segment: Seq<u8>) -> Seq<u8> {
    if segment.len() <= MAX_SEGMENT_BYTES {
        segment
    } else {
        segment.take(MAX_SEGMENT_BYTES as int)
    }
}

/// Decoding a length octet and as many octets of data as it says.
pub open spec fn counted_decoded(s: Seq<u8>) -> Decoded<Seq<u8>> {
    if s.len() < 1 {
        Decoded { result: Err(short_of(s, 1)), used: 0 }
    } else if s.len() < 1 + s[0] {
        Decoded { result: Err(short_of(s.skip(1), s[0] as int)), used: 1 }
    } else {
        Decoded { result: Ok(s.subrange(1, 1 + s[0])), used: (1 + s[0]) as nat }
    }
}

impl AsduPayload for F_SG_NA_1 {
    const TYPE_ID: u8 = 125;

    open spec fn code() -> u8 {
        125
    }

    proof fn law_type_id() {
    }

    open spec fn section(content: SegmentModel, vsq: Vsq, addressing: AsduAddressing) -> Seq<u8> {
        object_wire(content.ioa, (content.nof, content.nos), addressing.ioa_size).push(
            carried(content.segment).len() as u8,
        ) + carried(content.segment)
    }

    open spec fn section_decoded(
        s: Seq<u8>,
        vsq: Vsq,
        addressing: AsduAddressing,
    ) -> Decoded<SegmentModel> {
        and_next(
            s,
            object_decoded(s, addressing.ioa_size),
            |o: (Ioa, (NameOfFile, NameOfSection)), t: Seq<u8>|
                mapped(
                    counted_decoded(t),
                    |segment: Seq<u8>|
                        SegmentModel { ioa: o.0, nof: o.1.0, nos: o.1.1, segment },
                ),
        )
    }

    open spec fn section_fits(content: SegmentModel, vsq: Vsq, addressing: AsduAddressing) -> bool {
        ioa_fits(content.ioa, addressing.ioa_size) && content.segment.len() <= MAX_SEGMENT_BYTES
    }

    fn encode_information_objects(&self, buf: &mut Vec<u8>, vsq: Vsq, addressing: AsduAddressing) {
        encode_object(buf, self.ioa, &(self.nof, self.nos), addressing.ioa_size);
        let len: usize = if self.segment.len() < MAX_SEGMENT_BYTES {
            self.segment.len()
        } else {
            MAX_SEGMENT_BYTES
        };
        put_u8(buf, len as u8);
        let head: &[u8] = &self.segment.as_slice()[0..len];
        assert(head@ =~= carried(self.segment@));
        put_slice(buf, head);
        assert(buf@ =~= old(buf)@ + Self::section(self@, vsq, addressing));
    }

    fn decode_information_objects(buf: &mut &[u8], vsq: Vsq, addressing: AsduAddressing) -> (r:
        Result<Self>) {
        let ghost s = buf@;
        let o: (Ioa, (NameOfFile, NameOfSection)) = decode_object(buf, addressing.ioa_size)?;
        let ghost t = buf@;
        proof {
            <(NameOfFile, NameOfSection)>::law_decoded(
                s.skip(crate::asdu::header::ioa_decoded(s, addressing.ioa_size).used as int),
            );
        }
        ensure(buf, 1)?;
        let len: usize = get_u8(buf) as usize;
        ensure(buf, len)?;
        let segment: Vec<u8> = take_vec(buf, len);
        assert(segment@ =~= t.subrange(1, 1 + t[0]));
        Ok(F_SG_NA_1 { ioa: o.0, nof: o.1.0, nos: o.1.1, segment })
    }

    proof fn law_section_round_trip(
        content: SegmentModel,
        vsq: Vsq,
        addressing: AsduAddressing,
        rest: Seq<u8>,
    ) {
        let size = addressing.ioa_size;
        let head = object_wire(content.ioa, (content.nof, content.nos), size);
        let tail = seq![content.segment.len() as u8] + content.segment + rest;
        law_object_round_trip(content.ioa, (content.nof, content.nos), size, tail);
        let s = Self::section(content, vsq, addressing) + rest;
        assert(s =~= head + tail);
        assert(s.skip(head.len() as int) =~= tail);
        assert(tail.subrange(1, 1 + content.segment.len() as int) =~= content.segment);
    }
}

// ---------------------------------------------------------------------------
// F_DR_TA_1 (TypeID 126) - Directory listing
// ---------------------------------------------------------------------------

/// A single directory entry as carried inside `F_DR_TA_1`.
#[derive(Debug, Default, Clone, Copy, PartialEq, Eq, Hash, Structural)]
pub struct DirectoryEntry {
    pub nof: NameOfFile,
    pub lof: LengthOfFile,
    pub sof: Sof,
    pub time: Cp56Time2a,
}

impl DirectoryEntry {
    pub const LEN: usize = 13;

    pub fn encode(self, buf: &mut Vec<u8>)
        requires
            room(old(buf)@, Self::LEN as int),
        ensures
            final(buf)@ == old(buf)@ + self.wire(),
    {
        self.nof.encode(buf);
        self.lof.encode(buf);
        self.sof.encode(buf);
        self.time.encode(buf);
        assert(buf@ =~= old(buf)@ + self.wire());
    }

    pub fn decode(buf: &mut &[u8]) -> (r: Result<Self>)
        ensures
            decodes(old(buf)@, final(buf)@, r, Self::decoded(old(buf)@)),
    {
        ensure(buf, Self::LEN)?;
        let ghost s = buf@;
        let nof = NameOfFile::decode(buf)?;
        assert(buf@ =~= s.skip(2));
        let lof = LengthOfFile::decode(buf)?;
        assert(buf@ =~= s.skip(5));
        let sof = Sof::decode(buf)?;
        assert(buf@ =~= s.skip(6));
        let time = Cp56Time2a::decode(buf)?;
        Ok(DirectoryEntry { nof, lof, sof, time })
    }
}

impl Element for DirectoryEntry {
    open spec fn wire_len() -> nat {
        13
    }

    open spec fn wire(&self) -> Seq<u8> {
        self.nof.wire() + self.lof.wire() + self.sof.wire() + self.time.wire()
    }

    open spec fn decoded(s: Seq<u8>) -> Decoded<Self> {
        fixed(
            s,
            13,
            DirectoryEntry {
                nof: NameOfFile::decoded(s).result->Ok_0,
                lof: LengthOfFile::decoded(s.skip(2)).result->Ok_0,
                sof: Sof::decoded(s.skip(5)).result->Ok_0,
                time: Cp56Time2a::decoded(s.skip(6)).result->Ok_0,
            },
        )
    }

    open spec fn representable(&self) -> bool {
        &&& self.nof.representable()
        &&& self.lof.representable()
        &&& self.sof.representable()
        &&& self.time.representable()
    }

    fn encode_element(&self, buf: &mut Vec<u8>) {
        self.encode(buf);
    }

    fn decode_element(buf: &mut &[u8]) -> (r: Result<Self>) {
        Self::decode(buf)
    }

    proof fn law_wire_len(&self) {
    }

    proof fn law_decoded(s: Seq<u8>) {
    }

    proof fn law_round_trip(&self, rest: Seq<u8>) {
        let s = self.wire() + rest;
        assert(s =~= self.nof.wire() + s.skip(2));
        assert(s.skip(2) =~= self.lof.wire() + s.skip(5));
        assert(s.skip(5) =~= self.sof.wire() + s.skip(6));
        assert(s.skip(6) =~= self.time.wire() + rest);
        self.nof.law_round_trip(s.skip(2));
        self.lof.law_round_trip(s.skip(5));
        self.sof.law_round_trip(s.skip(6));
        self.time.law_round_trip(rest);
    }
}

/// `F_DR_TA_1` - directory listing: zero or more `(IOA, DirectoryEntry)` pairs.
///
/// Each entry carries its own IOA; the count comes from the VSQ. Use
/// [`Vsq::single`] to build the ASDU (the standard does not assign a sequence
/// meaning to a directory listing).
#[derive(Debug, Default, Clone, PartialEq, Eq, Hash)]
pub struct F_DR_TA_1 {
    pub entries: Vec<(Ioa, DirectoryEntry)>,
}

impl View for F_DR_TA_1 {
    type V = Seq<(Ioa, DirectoryEntry)>;

    open spec fn view(&self) -> Seq<(Ioa, DirectoryEntry)> {
        self.entries@
    }
}

impl AsduPayload for F_DR_TA_1 {
    const TYPE_ID: u8 = 126;

    open spec fn code() -> u8 {
        126
    }

    proof fn law_type_id() {
    }

    open spec fn section(
        content: Seq<(Ioa, DirectoryEntry)>,
        vsq: Vsq,
        addressing: AsduAddressing,
    ) -> Seq<u8> {
        list_wire(content, vsq, addressing)
    }

    open spec fn section_decoded(
        s: Seq<u8>,
        vsq: Vsq,
        addressing: AsduAddressing,
    ) -> Decoded<Seq<(Ioa, DirectoryEntry)>> {
        list_decoded(s, vsq, addressing)
    }

    open spec fn section_fits(
        content: Seq<(Ioa, DirectoryEntry)>,
        vsq: Vsq,
        addressing: AsduAddressing,
    ) -> bool {
        list_fits(content, vsq, addressing)
    }

    fn encode_information_objects(&self, buf: &mut Vec<u8>, vsq: Vsq, addressing: AsduAddressing) {
        encode_io_list(buf, &self.entries, vsq, addressing);
    }

    fn decode_information_objects(buf: &mut &[u8], vsq: Vsq, addressing: AsduAddressing) -> (r:
        Result<Self>) {
        let entries = decode_io_list(buf, vsq, addressing)?;
        Ok(F_DR_TA_1 { entries })
    }

    proof fn law_section_round_trip(
        content: Seq<(Ioa, DirectoryEntry)>,
        vsq: Vsq,
        addressing: AsduAddressing,
        rest: Seq<u8>,
    ) {
        law_list_round_trip(content, vsq, addressing, rest);
    }
}

} // verus!
