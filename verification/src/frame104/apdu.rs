//! APDU value type: the three frame formats I / S / U.

use vstd::prelude::*;
use crate::frame104::seq::SeqNo;

verus! {

/// Maximum size of the ASDU portion of an APDU, in octets. Derived from the
/// 1-octet length field (max 253) minus the 4 control octets.
pub const MAX_ASDU_LEN: usize = 249;

/// Maximum overall APDU length on the wire (start + length + 4 control + ASDU).
pub const MAX_APDU_LEN: usize = 255;

/// U-format function (act/con of STARTDT, STOPDT, TESTFR).
///
/// Encoded as the upper 6 bits of the first control octet. Exactly one
/// of `_act` / `_con` is set per pair.
#[derive(Debug, Clone, Copy, PartialEq, Eq, Hash, Structural)]
pub enum UFunction {
    StartDtAct,
    StartDtCon,
    StopDtAct,
    StopDtCon,
    TestFrAct,
    TestFrCon,
}

impl UFunction {
    /// The first control octet of the function.
    pub open spec fn octet(self) -> u8 {
        match self {
            UFunction::StartDtAct => 0x07,
            UFunction::StartDtCon => 0x0B,
            UFunction::StopDtAct => 0x13,
            UFunction::StopDtCon => 0x23,
            UFunction::TestFrAct => 0x43,
            UFunction::TestFrCon => 0x83,
        }
    }

    /// Bit pattern of the first control octet for this function (with the
    /// low two bits `11` already set).
    pub fn first_octet(self) -> (b: u8)
        ensures
            b == self.octet(),
    {
        match self {
            UFunction::StartDtAct => 0b0000_0111,
            UFunction::StartDtCon => 0b0000_1011,
            UFunction::StopDtAct => 0b0001_0011,
            UFunction::StopDtCon => 0b0010_0011,
            UFunction::TestFrAct => 0b0100_0011,
            UFunction::TestFrCon => 0b1000_0011,
        }
    }

    /// Parse the first control octet into a `UFunction`, or `None` if the
    /// pattern doesn't match exactly one of the standard six.
    pub fn from_first_octet(b: u8) -> (r: Option<Self>)
        ensures
            forall|f: UFunction| r == Some(f) <==> #[trigger] f.octet() == b,
    {
        match b {
            0x07 => Some(UFunction::StartDtAct),
            0x0B => Some(UFunction::StartDtCon),
            0x13 => Some(UFunction::StopDtAct),
            0x23 => Some(UFunction::StopDtCon),
            0x43 => Some(UFunction::TestFrAct),
            0x83 => Some(UFunction::TestFrCon),
            _ => None,
        }
    }
}

/// Parsed APDU - one of three frame formats.
#[derive(Debug, Clone, PartialEq, Eq)]
pub enum Apdu {
    /// Information transfer: an ASDU with send and receive sequence numbers.
    I { send: SeqNo, recv: SeqNo, asdu: Vec<u8> },
    /// Supervisory: acknowledges I-frames up to (but not including) `recv`.
    S { recv: SeqNo },
    /// Unnumbered: connection-control frame.
    U { function: UFunction },
}

/// What an [`Apdu`] holds.
pub enum ApduModel {
    I { send: int, recv: int, asdu: Seq<u8> },
    S { recv: int },
    U { function: UFunction },
}

impl View for Apdu {
    type V = ApduModel;

    open spec fn view(&self) -> ApduModel {
        match self {
            Apdu::I { send, recv, asdu } => ApduModel::I {
                send: send@,
                recv: recv@,
                asdu: asdu@,
            },
            Apdu::S { recv } => ApduModel::S { recv: recv@ },
            Apdu::U { function } => ApduModel::U { function: *function },
        }
    }
}

/// Convenience builder pattern that mirrors how protocols usually want to
/// construct an APDU - without spelling out the enum variant each time.
#[derive(Debug, Default, Clone)]
pub struct ApduPayload;

impl ApduPayload {
    pub fn info(send: SeqNo, recv: SeqNo, asdu: Vec<u8>) -> (apdu: Apdu)
        ensures
            apdu@ == (ApduModel::I { send: send@, recv: recv@, asdu: asdu@ }),
    {
        Apdu::I { send, recv, asdu }
    }

    pub fn supervisory(recv: SeqNo) -> (apdu: Apdu)
        ensures
            apdu@ == (ApduModel::S { recv: recv@ }),
    {
        Apdu::S { recv }
    }

    pub fn unnumbered(function: UFunction) -> (apdu: Apdu)
        ensures
            apdu@ == (ApduModel::U { function }),
    {
        Apdu::U { function }
    }
}

} // verus!
