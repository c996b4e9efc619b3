//! Values, requests and events of the control plane of the test daemons, as
//! plain data. Floating-point numbers are carried as IEEE 754 bit patterns.

use vstd::prelude::*;
use crate::control::Line;

verus! {

/// One ASDU type of the test rig's point store. Maps 1:1 to the
/// IEC 60870-5 `TypeID` namespace.
#[derive(Debug, Clone, Copy, PartialEq, Eq, Hash, Structural)]
pub enum PointKind {
    /// M_SP_NA_1 (TypeID 1) - single-point information.
    SpNa,
    /// M_DP_NA_1 (TypeID 3) - double-point information.
    DpNa,
    /// M_ME_NA_1 (TypeID 9) - measured value, normalized.
    MeNa,
    /// M_ME_NB_1 (TypeID 11) - measured value, scaled.
    MeNb,
    /// M_ME_NC_1 (TypeID 13) - measured value, short float.
    MeNc,
    /// M_SP_TB_1 (TypeID 30) - single-point + CP56Time2a.
    SpTb,
    /// M_DP_TB_1 (TypeID 31) - double-point + CP56Time2a.
    DpTb,
    /// M_ME_TD_1 (TypeID 34) - normalized + CP56Time2a.
    MeTd,
    /// M_ME_TE_1 (TypeID 35) - scaled + CP56Time2a.
    MeTe,
    /// M_ME_TF_1 (TypeID 36) - float + CP56Time2a.
    MeTf,
}

impl PointKind {
    /// All kinds, in the order of their Type IDs.
    pub const ALL: [PointKind; 10] = [
        PointKind::SpNa,
        PointKind::DpNa,
        PointKind::MeNa,
        PointKind::MeNb,
        PointKind::MeNc,
        PointKind::SpTb,
        PointKind::DpTb,
        PointKind::MeTd,
        PointKind::MeTe,
        PointKind::MeTf,
    ];

    /// The Type ID.
    pub open spec fn code(self) -> u8 {
        match self {
            PointKind::SpNa => 1,
            PointKind::DpNa => 3,
            PointKind::MeNa => 9,
            PointKind::MeNb => 11,
            PointKind::MeNc => 13,
            PointKind::SpTb => 30,
            PointKind::DpTb => 31,
            PointKind::MeTd => 34,
            PointKind::MeTe => 35,
            PointKind::MeTf => 36,
        }
    }

    /// The name of the ASDU type.
    pub open spec fn name(self) -> Seq<char> {
        match self {
            PointKind::SpNa => "M_SP_NA_1"@,
            PointKind::DpNa => "M_DP_NA_1"@,
            PointKind::MeNa => "M_ME_NA_1"@,
            PointKind::MeNb => "M_ME_NB_1"@,
            PointKind::MeNc => "M_ME_NC_1"@,
            PointKind::SpTb => "M_SP_TB_1"@,
            PointKind::DpTb => "M_DP_TB_1"@,
            PointKind::MeTd => "M_ME_TD_1"@,
            PointKind::MeTe => "M_ME_TE_1"@,
            PointKind::MeTf => "M_ME_TF_1"@,
        }
    }

    /// Whether the ASDU type carries a time tag.
    pub open spec fn timed(self) -> bool {
        self is SpTb || self is DpTb || self is MeTd || self is MeTe || self is MeTf
    }

    pub fn type_id(self) -> (t: u8)
        ensures
            t == self.code(),
    {
        match self {
            PointKind::SpNa => 1,
            PointKind::DpNa => 3,
            PointKind::MeNa => 9,
            PointKind::MeNb => 11,
            PointKind::MeNc => 13,
            PointKind::SpTb => 30,
            PointKind::DpTb => 31,
            PointKind::MeTd => 34,
            PointKind::MeTe => 35,
            PointKind::MeTf => 36,
        }
    }

    pub fn from_type_id(t: u8) -> (r: Option<Self>)
        ensures
            forall|k: PointKind| r == Some(k) <==> #[trigger] k.code() == t,
    {
        match t {
            1 => Some(PointKind::SpNa),
            3 => Some(PointKind::DpNa),
            9 => Some(PointKind::MeNa),
            11 => Some(PointKind::MeNb),
            13 => Some(PointKind::MeNc),
            30 => Some(PointKind::SpTb),
            31 => Some(PointKind::DpTb),
            34 => Some(PointKind::MeTd),
            35 => Some(PointKind::MeTe),
            36 => Some(PointKind::MeTf),
            _ => None,
        }
    }

    pub fn mnemonic(self) -> (s: &'static str)
        ensures
            s@ == self.name(),
    {
        match self {
            PointKind::SpNa => "M_SP_NA_1",
            PointKind::DpNa => "M_DP_NA_1",
            PointKind::MeNa => "M_ME_NA_1",
            PointKind::MeNb => "M_ME_NB_1",
            PointKind::MeNc => "M_ME_NC_1",
            PointKind::SpTb => "M_SP_TB_1",
            PointKind::DpTb => "M_DP_TB_1",
            PointKind::MeTd => "M_ME_TD_1",
            PointKind::MeTe => "M_ME_TE_1",
            PointKind::MeTf => "M_ME_TF_1",
        }
    }

    pub fn has_timestamp(self) -> (b: bool)
        ensures
            b == self.timed(),
    {
        matches!(
            self,
            PointKind::SpTb | PointKind::DpTb | PointKind::MeTd | PointKind::MeTe | PointKind::MeTf
        )
    }
}

/// No two kinds share a Type ID.
pub proof fn law_type_ids_distinct(a: PointKind, b: PointKind)
    ensures
        a.code() == b.code() <==> a == b,
{
}

/// Every kind is listed, each once.
pub proof fn law_all_kinds(k: PointKind)
    ensures
        exists|i: int| 0 <= i < 10 && #[trigger] PointKind::ALL@[i] == k,
        PointKind::ALL@.no_duplicates(),
{
    let i: int = match k {
        PointKind::SpNa => 0,
        PointKind::DpNa => 1,
        PointKind::MeNa => 2,
        PointKind::MeNb => 3,
        PointKind::MeNc => 4,
        PointKind::SpTb => 5,
        PointKind::DpTb => 6,
        PointKind::MeTd => 7,
        PointKind::MeTe => 8,
        PointKind::MeTf => 9,
    };
    assert(PointKind::ALL@[i] == k);
}

/// Double-point state.
#[derive(Debug, Default, Clone, Copy, PartialEq, Eq, Structural)]
pub enum DoublePointWire {
    #[default]
    Intermediate,
    Off,
    On,
    Indeterminate,
}

/// A point value. `Normalized` and `Float` hold IEEE 754 binary32 bit patterns.
#[derive(Debug, Clone, Copy, PartialEq, Eq, Structural)]
pub enum PointValue {
    Single(bool),
    Double(DoublePointWire),
    Normalized(u32),
    Scaled(i16),
    Float(u32),
}

/// Quality bits as carried on the wire.
#[derive(Debug, Default, Clone, Copy, PartialEq, Eq, Structural)]
pub struct QualityWire {
    pub overflow: bool,
    pub blocked: bool,
    pub substituted: bool,
    pub not_topical: bool,
    pub invalid: bool,
}

#[derive(Debug, Clone, Copy, PartialEq, Eq, Structural)]
pub enum StepDir {
    Lower,
    Higher,
}

#[derive(Debug, Clone, Copy, PartialEq, Eq, Structural)]
pub enum SetpointKind {
    Normalized,
    Scaled,
    Float,
}

/// Simulator schedule for one point. `Hold` disables autonomous evolution
/// (the value is held until set explicitly via the control socket). Steps,
/// bounds, amplitudes and offsets are IEEE 754 binary32 bit patterns.
#[derive(Debug, Clone, Copy, PartialEq, Eq, Structural)]
pub enum SimSchedule {
    /// Hold the current value indefinitely.
    Hold,
    /// Flip a single-point value every `interval_ms`. Phase offset is applied
    /// per-IOA so a range doesn't all toggle in lockstep.
    Toggle { interval_ms: u64, phase_ms: u64 },
    /// Rotate a double-point value Off - On - Off every `interval_ms`.
    Rotate { interval_ms: u64 },
    /// Random-walk a float-valued point by `step` per tick, clamped to
    /// `[min, max]`.
    RandomWalk { interval_ms: u64, step: u32, min: u32, max: u32 },
    /// Integer step-up by `step` every tick, wrapping at `wrap_at`.
    StepUp { interval_ms: u64, step: i32, wrap_at: i32 },
    /// Sinusoid sampled every `interval_ms`; one full period over `period_ms`.
    Sine { interval_ms: u64, period_ms: u64, amplitude: u32, offset: u32 },
}

/// One asynchronous notification streamed to subscribers. A cause of
/// transmission is given by its code.
#[derive(Debug, Clone, Copy, PartialEq, Eq, Structural)]
pub enum Event {
    /// The daemon emitted an ASDU (either spontaneous, interrogated, or
    /// command confirmation).
    AsduSent { cot: u8, type_id: u8, ioa: u32, value: Option<PointValue> },
    /// The daemon received an ASDU from its peer.
    AsduReceived { cot: u8, type_id: u8, ioa: u32, value: Option<PointValue> },
    /// Simulator updated a point internally.
    SimTick { ioa: u32, kind: PointKind },
}

/// Control-plane request. A set-point value is an IEEE 754 binary64 bit
/// pattern.
#[derive(Debug, Clone, PartialEq, Eq)]
pub enum Request {
    // -- server side --
    Get { ioa: u32 },
    SetValue { ioa: u32, value: PointValue, quality: Option<QualityWire> },
    List { type_id: Option<u8> },
    SimGet { ioa: u32 },
    SimSet { ioa: u32, schedule: SimSchedule },
    // -- client side --
    Interrogate { group: Option<u8>, ca: Option<u16>, timeout_ms: Option<u64> },
    CmdSingle { ioa: u32, on: bool, ca: Option<u16> },
    CmdDouble { ioa: u32, on: bool, ca: Option<u16> },
    CmdRegulating { ioa: u32, step: StepDir, ca: Option<u16> },
    CmdSetpoint { ioa: u32, kind: SetpointKind, value: u64, ca: Option<u16> },
    Read { ioa: u32, type_id: Option<u8> },
    FileGet { nof: u16, out: String, ca: Option<u16> },
    FilePut { nof: u16, input: String, ca: Option<u16> },
    // -- shared --
    Status,
    Shutdown,
    /// Open a long-lived subscription. The daemon responds with an initial
    /// acknowledgement and then streams events, one per line, until the
    /// connection is closed.
    Events,
}

impl Request {
    /// Whether an outstation daemon answers the request.
    pub open spec fn for_server(self) -> bool {
        self is Get || self is SetValue || self is List || self is SimGet || self is SimSet
            || self is Status || self is Shutdown
    }

    /// Whether a master daemon answers the request.
    pub open spec fn for_client(self) -> bool {
        self is Interrogate || self is CmdSingle || self is CmdDouble || self is CmdRegulating
            || self is CmdSetpoint || self is Read || self is FileGet || self is FilePut
            || self is Status || self is Shutdown
    }

    /// Whether an outstation daemon answers the request.
    pub fn is_server_op(&self) -> (b: bool)
        ensures
            b == self.for_server(),
    {
        matches!(
            self,
            Request::Get { .. } | Request::SetValue { .. } | Request::List { .. }
            | Request::SimGet { .. } | Request::SimSet { .. } | Request::Status | Request::Shutdown
        )
    }

    /// Whether a master daemon answers the request.
    pub fn is_client_op(&self) -> (b: bool)
        ensures
            b == self.for_client(),
    {
        matches!(
            self,
            Request::Interrogate { .. } | Request::CmdSingle { .. } | Request::CmdDouble { .. }
            | Request::CmdRegulating { .. } | Request::CmdSetpoint { .. } | Request::Read { .. }
            | Request::FileGet { .. } | Request::FilePut { .. } | Request::Status
            | Request::Shutdown
        )
    }

    /// What the request means for the connection that it came on.
    pub fn line(&self) -> (l: Line)
        ensures
            l == (match *self {
                Request::Events => Line::Events,
                Request::Shutdown => Line::Shutdown,
                _ => Line::Request,
            }),
    {
        match self {
            Request::Events => Line::Events,
            Request::Shutdown => Line::Shutdown,
            _ => Line::Request,
        }
    }
}

/// Every request is answered by a daemon, but for the subscription, which the
/// connection itself serves; only the status and the shutdown are answered by
/// both.
pub proof fn law_requests_answered(r: Request)
    ensures
        r.for_server() || r.for_client() || r is Events,
        r.for_server() && r.for_client() <==> r is Status || r is Shutdown,
        r is Events ==> !r.for_server() && !r.for_client(),
{
}

/// The kinds have the numbers of their types, and those from 30 up carry a time
/// tag.
pub proof fn law_kind_numbers()
    ensures
        PointKind::SpNa.code() == 1 && PointKind::DpNa.code() == 3 && PointKind::MeNa.code() == 9,
        PointKind::MeNb.code() == 11 && PointKind::MeNc.code() == 13,
        PointKind::SpTb.code() == 30 && PointKind::DpTb.code() == 31,
        PointKind::MeTd.code() == 34 && PointKind::MeTe.code() == 35 && PointKind::MeTf.code() == 36,
        forall|k: PointKind| #[trigger] k.timed() <==> k.code() >= 30,
{
}

/// The kinds have the names of their types.
pub proof fn law_kind_names()
    ensures
        PointKind::SpNa.name() == "M_SP_NA_1"@ && PointKind::DpNa.name() == "M_DP_NA_1"@,
        PointKind::MeNa.name() == "M_ME_NA_1"@ && PointKind::MeNb.name() == "M_ME_NB_1"@,
        PointKind::MeNc.name() == "M_ME_NC_1"@ && PointKind::SpTb.name() == "M_SP_TB_1"@,
        PointKind::DpTb.name() == "M_DP_TB_1"@ && PointKind::MeTd.name() == "M_ME_TD_1"@,
        PointKind::MeTe.name() == "M_ME_TE_1"@ && PointKind::MeTf.name() == "M_ME_TF_1"@,
{
}

/// Which daemon answers what: reading, setting and simulating points is for the
/// outstation, interrogating, commanding, reading and transferring files for
/// the master.
pub proof fn law_requests_by_side(r: Request)
    ensures
        r is Get || r is SetValue || r is List || r is SimGet || r is SimSet ==> r.for_server()
            && !r.for_client(),
        r is Interrogate || r is CmdSingle || r is CmdDouble || r is CmdRegulating || r
            is CmdSetpoint || r is Read || r is FileGet || r is FilePut ==> r.for_client()
            && !r.for_server(),
        r is Status || r is Shutdown ==> r.for_client() && r.for_server(),
        r is Events ==> !r.for_client() && !r.for_server(),
{
}

} // verus!
