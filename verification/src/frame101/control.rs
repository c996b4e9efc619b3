//! Control field for the FT 1.2 link layer.
//!
//! The control field is a single octet with the following bit layout (MSB to LSB):
//!
//! ```text
//! | 7   | 6   | 5       | 4       | 3..0     |
//! | RES | PRM | FCB/ACD | FCV/DFC | FuncCode |
//! ```
//!
//! * **PRM** (bit 6) - Primary message. Set to 1 in frames sent by the primary
//!   (master) station, 0 in frames sent by the secondary (outstation).
//! * **FCB** (bit 5, primary) - Frame Count Bit. Alternates on each
//!   SEND/CONFIRM cycle so the outstation can detect duplicates.
//! * **ACD** (bit 5, secondary) - Access Demand. Set by the outstation when it
//!   has class-1 data ready.
//! * **FCV** (bit 4, primary) - Frame Count Valid. When 0, FCB is ignored by
//!   the outstation (used for unconfirmed sends and requests).
//! * **DFC** (bit 4, secondary) - Data Flow Control. Set by the outstation
//!   when its receive buffer is full.
//! * **FuncCode** (bits 3..0) - Function code; meaning depends on `PRM`.

use vstd::prelude::*;
use crate::bits::{flag, has, lemma_join_fields, lemma_masks, lemma_set_bits};

verus! {

/// Which side of the link is sending the control field.
///
/// The meaning of bits 5 and 4 in the control byte differs between primary
/// and secondary directions.
#[derive(Debug, Clone, Copy, PartialEq, Eq, Hash, Structural)]
pub enum Direction {
    /// Primary station (master) sending; bits 5/4 = FCB/FCV.
    Primary,
    /// Secondary station (outstation) sending; bits 5/4 = ACD/DFC.
    Secondary,
}

// ---------------------------------------------------------------------------
// Function codes
// ---------------------------------------------------------------------------

/// Primary-direction function codes (bits 3..0 when PRM=1).
#[derive(Debug, Clone, Copy, PartialEq, Eq, Hash, Structural)]
pub enum FuncCodePrimary {
    /// Reset of remote link (`0`).
    ResetRemoteLink,
    /// Reset of user process (`1`).
    ResetUserProcess,
    /// User data, confirmed - SEND/CONFIRM (`3`).
    UserDataConfirmed,
    /// User data, unconfirmed - SEND/NO REPLY (`4`).
    UserDataUnconfirmed,
    /// Request status of link (`9`).
    RequestStatus,
    /// Request user data class 1 - REQ/RESP (`10`).
    RequestUserDataClass1,
    /// Request user data class 2 - REQ/RESP (`11`).
    RequestUserDataClass2,
}

impl FuncCodePrimary {
    /// The four-bit code.
    pub open spec fn code(self) -> u8 {
        match self {
            FuncCodePrimary::ResetRemoteLink => 0,
            FuncCodePrimary::ResetUserProcess => 1,
            FuncCodePrimary::UserDataConfirmed => 3,
            FuncCodePrimary::UserDataUnconfirmed => 4,
            FuncCodePrimary::RequestStatus => 9,
            FuncCodePrimary::RequestUserDataClass1 => 10,
            FuncCodePrimary::RequestUserDataClass2 => 11,
        }
    }

    fn to_nibble(self) -> (n: u8)
        ensures
            n == self.code(),
    {
        match self {
            FuncCodePrimary::ResetRemoteLink => 0,
            FuncCodePrimary::ResetUserProcess => 1,
            FuncCodePrimary::UserDataConfirmed => 3,
            FuncCodePrimary::UserDataUnconfirmed => 4,
            FuncCodePrimary::RequestStatus => 9,
            FuncCodePrimary::RequestUserDataClass1 => 10,
            FuncCodePrimary::RequestUserDataClass2 => 11,
        }
    }

    /// Parse a 4-bit function code (bits 3..0 of the control byte).
    pub fn from_nibble(nibble: u8) -> (r: Option<Self>)
        ensures
            forall|f: FuncCodePrimary| r == Some(f) <==> #[trigger] f.code() == nibble % 16,
    {
        proof { lemma_masks(nibble); }
        match nibble & 0x0F {
            0 => Some(FuncCodePrimary::ResetRemoteLink),
            1 => Some(FuncCodePrimary::ResetUserProcess),
            3 => Some(FuncCodePrimary::UserDataConfirmed),
            4 => Some(FuncCodePrimary::UserDataUnconfirmed),
            9 => Some(FuncCodePrimary::RequestStatus),
            10 => Some(FuncCodePrimary::RequestUserDataClass1),
            11 => Some(FuncCodePrimary::RequestUserDataClass2),
            _ => None,
        }
    }
}

/// Secondary-direction function codes (bits 3..0 when PRM=0).
#[derive(Debug, Clone, Copy, PartialEq, Eq, Hash, Structural)]
pub enum FuncCodeSecondary {
    /// Acknowledge (`0`).
    Ack,
    /// Negative acknowledge (`1`).
    Nack,
    /// Response with user data (`8`).
    RespondUserData,
    /// NACK - no user data available (`9`).
    NackNoData,
    /// Status of link or access demand (`11`).
    StatusOfLink,
}

impl FuncCodeSecondary {
    /// The four-bit code.
    pub open spec fn code(self) -> u8 {
        match self {
            FuncCodeSecondary::Ack => 0,
            FuncCodeSecondary::Nack => 1,
            FuncCodeSecondary::RespondUserData => 8,
            FuncCodeSecondary::NackNoData => 9,
            FuncCodeSecondary::StatusOfLink => 11,
        }
    }

    fn to_nibble(self) -> (n: u8)
        ensures
            n == self.code(),
    {
        match self {
            FuncCodeSecondary::Ack => 0,
            FuncCodeSecondary::Nack => 1,
            FuncCodeSecondary::RespondUserData => 8,
            FuncCodeSecondary::NackNoData => 9,
            FuncCodeSecondary::StatusOfLink => 11,
        }
    }

    /// Parse a 4-bit function code (bits 3..0 of the control byte).
    pub fn from_nibble(nibble: u8) -> (r: Option<Self>)
        ensures
            forall|f: FuncCodeSecondary| r == Some(f) <==> #[trigger] f.code() == nibble % 16,
    {
        proof { lemma_masks(nibble); }
        match nibble & 0x0F {
            0 => Some(FuncCodeSecondary::Ack),
            1 => Some(FuncCodeSecondary::Nack),
            8 => Some(FuncCodeSecondary::RespondUserData),
            9 => Some(FuncCodeSecondary::NackNoData),
            11 => Some(FuncCodeSecondary::StatusOfLink),
            _ => None,
        }
    }
}

// ---------------------------------------------------------------------------
// ControlField
// ---------------------------------------------------------------------------

/// Decoded control field for an FT 1.2 frame.
///
/// Two variants cover the primary (master) and secondary (outstation)
/// directions, because bits 5 and 4 have different meanings in each:
///
/// | Bit | Primary  | Secondary |
/// |-----|----------|-----------|
/// |  6  | PRM=1    | PRM=0     |
/// |  5  | FCB      | ACD       |
/// |  4  | FCV      | DFC       |
#[derive(Debug, Clone, Copy, PartialEq, Eq, Hash, Structural)]
pub enum ControlField {
    /// Frame sent by the primary (master) station.
    Primary {
        /// Frame Count Bit - alternates on each SEND/CONFIRM cycle.
        fcb: bool,
        /// Frame Count Valid - when `false`, `fcb` is ignored.
        fcv: bool,
        /// Function code.
        func: FuncCodePrimary,
    },
    /// Frame sent by the secondary (outstation) station.
    Secondary {
        /// Access Demand - outstation has class-1 data ready.
        acd: bool,
        /// Data Flow Control - outstation receive buffer full.
        dfc: bool,
        /// Function code.
        func: FuncCodeSecondary,
    },
}

const PRM_BIT: u8 = 0x40;

pub const FCB_ACD_BIT: u8 = 0x20;

const FCV_DFC_BIT: u8 = 0x10;

const FUNC_MASK: u8 = 0x0F;

impl ControlField {
    /// The octet on the wire. Bit 7 (reserved) is always zero.
    pub open spec fn octet(self) -> u8 {
        match self {
            ControlField::Primary { fcb, fcv, func } => (64 + flag(fcb, 32) + flag(fcv, 16)
                + func.code()) as u8,
            ControlField::Secondary { acd, dfc, func } => (flag(acd, 32) + flag(dfc, 16)
                + func.code()) as u8,
        }
    }

    /// Which side sends such a control field.
    pub open spec fn direction(self) -> Direction {
        match self {
            ControlField::Primary { .. } => Direction::Primary,
            ControlField::Secondary { .. } => Direction::Secondary,
        }
    }

    /// The octet `byte` says `self` when it is sent in the direction of
    /// `self`: the function code and bits 5 and 4 agree. Bits 7 and 6 are not
    /// looked at.
    pub open spec fn said_by(self, byte: u8) -> bool {
        match self {
            ControlField::Primary { fcb, fcv, func } => {
                &&& fcb == has(byte, 32)
                &&& fcv == has(byte, 16)
                &&& func.code() == byte % 16
            },
            ControlField::Secondary { acd, dfc, func } => {
                &&& acd == has(byte, 32)
                &&& dfc == has(byte, 16)
                &&& func.code() == byte % 16
            },
        }
    }

    /// What the octet `byte` says when it is sent in the given direction, if
    /// its function code is a known one there.
    pub open spec fn decoded(byte: u8, direction: Direction) -> Option<ControlField> {
        if exists|cf: ControlField| cf.direction() == direction && #[trigger] cf.said_by(byte) {
            Some(
                choose|cf: ControlField|
                    cf.direction() == direction && #[trigger] cf.said_by(byte),
            )
        } else {
            None
        }
    }

    /// Encode this control field as a single wire byte.
    ///
    /// Bit 7 (reserved) is always zero.
    pub fn encode(self) -> (b: u8)
        ensures
            b == self.octet(),
    {
        match self {
            ControlField::Primary { fcb, fcv, func } => {
                let n: u8 = func.to_nibble();
                proof {
                    lemma_masks(n);
                    lemma_join_fields(PRM_BIT, n & FUNC_MASK);
                }
                let mut b: u8 = PRM_BIT | (n & FUNC_MASK);
                if fcb {
                    proof { lemma_set_bits(b); }
                    b |= FCB_ACD_BIT;
                }
                if fcv {
                    proof { lemma_set_bits(b); }
                    b |= FCV_DFC_BIT;
                }
                b
            },
            ControlField::Secondary { acd, dfc, func } => {
                let n: u8 = func.to_nibble();
                proof { lemma_masks(n); }
                let mut b: u8 = n & FUNC_MASK;
                if acd {
                    proof { lemma_set_bits(b); }
                    b |= FCB_ACD_BIT;
                }
                if dfc {
                    proof { lemma_set_bits(b); }
                    b |= FCV_DFC_BIT;
                }
                b
            },
        }
    }

    /// Decode a wire byte using the supplied `direction` to disambiguate
    /// bits 5 and 4.
    ///
    /// Returns `None` if the function-code nibble is not a recognised value
    /// for the given direction.
    pub fn decode(byte: u8, direction: Direction) -> (r: Option<Self>)
        ensures
            r == Self::decoded(byte, direction),
            forall|cf: ControlField|
                r == Some(cf) <==> cf.direction() == direction && #[trigger] cf.said_by(byte),
    {
        proof { lemma_masks(byte); }
        let fcb_acd: bool = byte & FCB_ACD_BIT != 0;
        let fcv_dfc: bool = byte & FCV_DFC_BIT != 0;
        let nibble: u8 = byte & FUNC_MASK;
        let r = match direction {
            Direction::Primary => {
                match FuncCodePrimary::from_nibble(nibble) {
                    Some(func) => {
                        assert(func.code() == nibble);
                        Some(ControlField::Primary { fcb: fcb_acd, fcv: fcv_dfc, func })
                    },
                    None => None,
                }
            },
            Direction::Secondary => {
                match FuncCodeSecondary::from_nibble(nibble) {
                    Some(func) => {
                        assert(func.code() == nibble);
                        Some(ControlField::Secondary { acd: fcb_acd, dfc: fcv_dfc, func })
                    },
                    None => None,
                }
            },
        };
        assert forall|cf: ControlField|
            r == Some(cf) <==> cf.direction() == direction && #[trigger] cf.said_by(byte) by {
            match cf {
                ControlField::Primary { func, .. } => {
                    assert(func.code() == nibble % 16 || func.code() != nibble % 16);
                },
                ControlField::Secondary { func, .. } => {
                    assert(func.code() == nibble % 16 || func.code() != nibble % 16);
                },
            }
        }
        if let Some(cf) = r {
            assert(cf.said_by(byte));
        }
        r
    }
}

/// A control field is decoded again as it was encoded, when the direction is
/// the one it was sent in.
pub proof fn law_control_round_trip(cf: ControlField)
    ensures
        ControlField::decoded(cf.octet(), cf.direction()) == Some(cf),
        cf.octet() < 128,
        (cf.octet() / 64) % 2 == 1 <==> cf.direction() is Primary,
{
    assert(cf.said_by(cf.octet()));
    lemma_decoded_unique(cf, cf.octet());
}

/// An octet says at most one control field in each direction.
pub proof fn lemma_decoded_unique(cf: ControlField, byte: u8)
    requires
        cf.said_by(byte),
    ensures
        ControlField::decoded(byte, cf.direction()) == Some(cf),
{
    let other = ControlField::decoded(byte, cf.direction()).unwrap();
    assert(other.direction() == cf.direction() && other.said_by(byte));
    assert(other == cf);
}

} // verus!
