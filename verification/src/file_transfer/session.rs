//! File-transfer session state machine.
//!
//! See [`Session`] for the public entry point and [`stepped`] for what it
//! does. The state machine is single-file, single-section by design.

use vstd::prelude::*;
use crate::asdu::header::Ioa;
use crate::asdu::types::file::{
    Afq, AfqAction, Checksum, Frq, LengthOfFile, LengthOfSection, Lsq, NameOfFile, NameOfSection,
    Scq, ScqAction, SegmentModel, Srq, F_AF_NA_1, F_FR_NA_1, F_LS_NA_1, F_SC_NA_1, F_SG_NA_1,
    F_SR_NA_1, MAX_SEGMENT_BYTES,
};
use crate::time::{Duration, Instant};

verus! {

/// Default segment payload size in bytes. Conservative enough to fit inside
/// an IEC 60870-5-104 APDU after the surrounding header (TypeID + VSQ + COT
/// + CA + IOA + NOF + NOS + length octet = ~13 bytes overhead).
pub const DEFAULT_SEGMENT_BYTES: usize = 240;

/// Tunables for one [`Session`].
#[derive(Debug, Clone, Copy)]
pub struct SessionConfig {
    /// Maximum bytes per `F_SG_NA_1` segment. Clamped to [1, [`MAX_SEGMENT_BYTES`]].
    pub max_segment_bytes: usize,
    /// Inactivity timeout - if no progress is observed within this window,
    /// the session aborts with [`FailureReason::Timeout`].
    pub idle_timeout: Duration,
    /// IOA carried in emitted ASDUs. By convention 0 for file-transfer.
    pub ioa: Ioa,
}

impl Default for SessionConfig {
    fn default() -> (c: Self)
        ensures
            c.max_segment_bytes == DEFAULT_SEGMENT_BYTES,
            c.idle_timeout.nanos == 30_000_000_000,
            c.ioa == Ioa(0),
    {
        SessionConfig {
            max_segment_bytes: DEFAULT_SEGMENT_BYTES,
            idle_timeout: Duration::from_secs(30),
            ioa: Ioa(0),
        }
    }
}

/// Direction of a transfer from the local side's perspective.
#[derive(Debug, Clone, Copy, PartialEq, Eq, Hash, Structural)]
pub enum Role {
    /// We want to receive a file. We drive the dialogue with `F_SC_NA_1`.
    Receiver,
    /// We hold the file and emit segments. We respond to `F_SC_NA_1` (or
    /// initiate proactively with `F_FR_NA_1`).
    Sender,
}

/// Why a session failed.
#[derive(Debug, Clone, Copy, PartialEq, Eq, Hash, Structural)]
pub enum FailureReason {
    /// No FT ASDU was observed within [`SessionConfig::idle_timeout`].
    Timeout,
    /// Peer reported a negative ack (negative `FRQ`, `SRQ`, `AFQ`, ...).
    PeerRejected,
    /// We rejected the peer's request locally (e.g. file unknown, write
    /// refused).
    LocallyRejected,
    /// `F_LS_NA_1` carried a checksum that disagrees with the bytes we
    /// observed for the section.
    ChecksumMismatch,
    /// Inbound ASDU arrived in a state where it doesn't make sense.
    ProtocolViolation,
    /// Local caller asked the session to abort.
    Aborted,
}

/// Stages of the dialogue.
#[derive(Debug, Clone, Copy, PartialEq, Eq, Hash, Structural)]
pub enum SessionState {
    /// Receiver: about to send `F_SC_NA_1{SelectFile}`.
    /// Sender: about to send `F_FR_NA_1` (proactive) OR awaiting it (reactive).
    Idle,
    /// Receiver: sent SELECT, awaiting `F_FR_NA_1`.
    RxAwaitFileReady,
    /// Receiver: sent REQUEST, awaiting `F_SR_NA_1`.
    RxAwaitSectionReady,
    /// Receiver: collecting `F_SG_NA_1` segments; waiting for `F_LS_NA_1`.
    RxReceivingSegments,
    /// Sender: sent `F_FR_NA_1`, awaiting `F_SC_NA_1{SelectFile}` confirmation.
    /// (Reactive senders may skip this and start at [`Self::TxAwaitRequest`].)
    TxAwaitSelect,
    /// Sender: ready to ship; awaiting `F_SC_NA_1{RequestFile}`.
    TxAwaitRequest,
    /// Sender: pushing segments. Waits for [`SessionInput::SegmentReady`]
    /// callbacks from the provider.
    TxSendingSegments,
    /// Sender: sent `F_LS_NA_1`, awaiting `F_AF_NA_1`.
    TxAwaitAck,
    /// Terminal - transfer succeeded.
    Completed,
    /// Terminal - transfer failed.
    Failed,
}

/// Driver inputs.
#[derive(Debug)]
pub enum SessionInput {
    /// Local kick-off. For [`Role::Receiver`], `length` is ignored. For
    /// [`Role::Sender`], `length` is the total file size in bytes.
    Start { length: u32 },
    /// An `F_FR_NA_1` arrived from the peer.
    FileReady(F_FR_NA_1),
    /// An `F_SR_NA_1` arrived from the peer.
    SectionReady(F_SR_NA_1),
    /// An `F_SC_NA_1` arrived from the peer.
    SelectCall(F_SC_NA_1),
    /// An `F_LS_NA_1` arrived from the peer.
    LastSection(F_LS_NA_1),
    /// An `F_AF_NA_1` arrived from the peer.
    AckFile(F_AF_NA_1),
    /// An `F_SG_NA_1` segment arrived from the peer (receiver side).
    Segment(F_SG_NA_1),
    /// The provider produced the next chunk of bytes (sender side). An empty
    /// slice signals EOF - the session emits `F_LS_NA_1` and advances.
    SegmentReady(Vec<u8>),
    /// Wall clock advanced. The driver should send this every ~250 ms.
    Tick,
    /// Local caller wants to give up.
    Abort,
}

/// Driver outputs.
#[derive(Debug, Clone, PartialEq, Eq)]
pub enum SessionAction {
    /// Encode and ship `F_FR_NA_1`.
    SendFileReady(F_FR_NA_1),
    /// Encode and ship `F_SR_NA_1`.
    SendSectionReady(F_SR_NA_1),
    /// Encode and ship `F_SC_NA_1`.
    SendSelectCall(F_SC_NA_1),
    /// Encode and ship `F_LS_NA_1`.
    SendLastSection(F_LS_NA_1),
    /// Encode and ship `F_AF_NA_1`.
    SendAckFile(F_AF_NA_1),
    /// Encode and ship `F_SG_NA_1`.
    SendSegment(F_SG_NA_1),
    /// Sender side: ask the provider for the next chunk (up to `max_bytes`).
    /// When the provider answers via [`SessionInput::SegmentReady`], the
    /// session resumes.
    RequestNextSegment { max_bytes: usize },
    /// Receiver side: hand the bytes to the provider for storage. The driver
    /// is expected to feed them into a `FileWriter` immediately.
    DeliverSegment(Vec<u8>),
    /// Terminal success: the transfer completed and the session can be dropped.
    Completed { bytes: u32 },
    /// Terminal failure: drop the session and surface the reason.
    Failed(FailureReason),
}

// ---------------------------------------------------------------------------
// What the state machine does
// ---------------------------------------------------------------------------

/// What a [`SessionInput`] holds.
pub enum InputModel {
    Start { length: u32 },
    FileReady(F_FR_NA_1),
    SectionReady(F_SR_NA_1),
    SelectCall(F_SC_NA_1),
    LastSection(F_LS_NA_1),
    AckFile(F_AF_NA_1),
    Segment(SegmentModel),
    SegmentReady(Seq<u8>),
    Tick,
    Abort,
}

impl View for SessionInput {
    type V = InputModel;

    open spec fn view(&self) -> InputModel {
        match self {
            SessionInput::Start { length } => InputModel::Start { length: *length },
            SessionInput::FileReady(asdu) => InputModel::FileReady(*asdu),
            SessionInput::SectionReady(asdu) => InputModel::SectionReady(*asdu),
            SessionInput::SelectCall(asdu) => InputModel::SelectCall(*asdu),
            SessionInput::LastSection(asdu) => InputModel::LastSection(*asdu),
            SessionInput::AckFile(asdu) => InputModel::AckFile(*asdu),
            SessionInput::Segment(asdu) => InputModel::Segment(asdu@),
            SessionInput::SegmentReady(data) => InputModel::SegmentReady(data@),
            SessionInput::Tick => InputModel::Tick,
            SessionInput::Abort => InputModel::Abort,
        }
    }
}

/// What a [`SessionAction`] holds.
pub enum ActionModel {
    SendFileReady(F_FR_NA_1),
    SendSectionReady(F_SR_NA_1),
    SendSelectCall(F_SC_NA_1),
    SendLastSection(F_LS_NA_1),
    SendAckFile(F_AF_NA_1),
    SendSegment(SegmentModel),
    RequestNextSegment { max_bytes: usize },
    DeliverSegment(Seq<u8>),
    Completed { bytes: u32 },
    Failed(FailureReason),
}

impl View for SessionAction {
    type V = ActionModel;

    open spec fn view(&self) -> ActionModel {
        match self {
            SessionAction::SendFileReady(asdu) => ActionModel::SendFileReady(*asdu),
            SessionAction::SendSectionReady(asdu) => ActionModel::SendSectionReady(*asdu),
            SessionAction::SendSelectCall(asdu) => ActionModel::SendSelectCall(*asdu),
            SessionAction::SendLastSection(asdu) => ActionModel::SendLastSection(*asdu),
            SessionAction::SendAckFile(asdu) => ActionModel::SendAckFile(*asdu),
            SessionAction::SendSegment(asdu) => ActionModel::SendSegment(asdu@),
            SessionAction::RequestNextSegment { max_bytes } => ActionModel::RequestNextSegment {
                max_bytes: *max_bytes,
            },
            SessionAction::DeliverSegment(data) => ActionModel::DeliverSegment(data@),
            SessionAction::Completed { bytes } => ActionModel::Completed { bytes: *bytes },
            SessionAction::Failed(reason) => ActionModel::Failed(*reason),
        }
    }
}

/// The views of a list of actions.
pub open spec fn actions_view(s: Seq<SessionAction>) -> Seq<ActionModel> {
    Seq::new(s.len(), |i: int| s[i]@)
}

/// The number of the one section that a file has.
pub const ONLY_SECTION: u16 = 1;

/// Whether a session in this state is over.
pub open spec fn terminal(state: SessionState) -> bool {
    state is Completed || state is Failed
}

/// A byte count after `n` more bytes. It sticks at the largest value.
pub open spec fn counted(bytes: u32, n: int) -> u32 {
    if bytes + n % 0x1_0000_0000 > u32::MAX {
        u32::MAX
    } else {
        (bytes + n % 0x1_0000_0000) as u32
    }
}

/// Everything that a session remembers, together with the actions that it has
/// emitted and not yet handed out.
#[verifier::ext_equal]
pub struct SessionModel {
    pub role: Role,
    pub nof: NameOfFile,
    pub state: SessionState,
    pub config: SessionConfig,
    pub file_length: u32,
    pub section_length: u32,
    pub bytes_transferred: u32,
    pub section_checksum: Checksum,
    pub last_progress: Option<Instant>,
    pub awaiting_provider: bool,
    pub actions: Seq<ActionModel>,
}

impl SessionModel {
    pub open spec fn emit(self, action: ActionModel) -> SessionModel {
        SessionModel { actions: self.actions.push(action), ..self }
    }

    pub open spec fn progress(self, now: Instant) -> SessionModel {
        SessionModel { last_progress: Some(now), ..self }
    }

    /// A session that is over does not fail any more.
    pub open spec fn fail(self, reason: FailureReason) -> SessionModel {
        if terminal(self.state) {
            self
        } else {
            SessionModel { state: SessionState::Failed, ..self }.emit(ActionModel::Failed(reason))
        }
    }

    pub open spec fn complete(self) -> SessionModel {
        SessionModel { state: SessionState::Completed, ..self }.emit(
            ActionModel::Completed { bytes: self.bytes_transferred },
        )
    }

    /// The announcement of the file.
    pub open spec fn file_ready(self) -> ActionModel {
        ActionModel::SendFileReady(
            F_FR_NA_1 {
                ioa: self.config.ioa,
                nof: self.nof,
                lof: LengthOfFile(self.file_length),
                frq: Frq { code: 0, negative: false },
            },
        )
    }

    /// A call for the whole file.
    pub open spec fn call(self, action: ScqAction) -> ActionModel {
        ActionModel::SendSelectCall(
            F_SC_NA_1 {
                ioa: self.config.ioa,
                nof: self.nof,
                nos: NameOfSection(NameOfSection::WHOLE_FILE),
                scq: Scq { action, status: 0 },
            },
        )
    }

    /// A verdict on a section.
    pub open spec fn ack(self, nos: NameOfSection, action: AfqAction) -> ActionModel {
        ActionModel::SendAckFile(
            F_AF_NA_1 { ioa: self.config.ioa, nof: self.nof, nos, afq: Afq { action, status: 0 } },
        )
    }

    /// The largest segment to ask the provider for.
    pub open spec fn segment_limit(self) -> usize {
        if self.config.max_segment_bytes < 1 {
            1
        } else if self.config.max_segment_bytes > MAX_SEGMENT_BYTES {
            MAX_SEGMENT_BYTES
        } else {
            self.config.max_segment_bytes
        }
    }

    /// The provider is asked for more, unless it has been asked already.
    pub open spec fn request_next_segment(self) -> SessionModel {
        if self.awaiting_provider {
            self
        } else {
            SessionModel { awaiting_provider: true, ..self }.emit(
                ActionModel::RequestNextSegment { max_bytes: self.segment_limit() },
            )
        }
    }

    pub open spec fn on_start(self, length: u32) -> SessionModel {
        if !(self.state is Idle) {
            self
        } else {
            match self.role {
                Role::Receiver => SessionModel {
                    state: SessionState::RxAwaitFileReady,
                    ..self.emit(self.call(ScqAction::SelectFile))
                },
                Role::Sender => {
                    let sized = SessionModel {
                        file_length: length,
                        section_length: length,
                        ..self
                    };
                    SessionModel {
                        state: SessionState::TxAwaitSelect,
                        ..sized.emit(sized.file_ready())
                    }
                },
            }
        }
    }

    pub open spec fn on_file_ready(self, asdu: F_FR_NA_1, now: Instant) -> SessionModel {
        if !(self.role is Receiver) {
            self
        } else if !(self.state is RxAwaitFileReady) {
            self.fail(FailureReason::ProtocolViolation)
        } else if asdu.frq.negative {
            self.progress(now).fail(FailureReason::PeerRejected)
        } else {
            SessionModel {
                file_length: asdu.lof.0,
                section_length: asdu.lof.0,
                state: SessionState::RxAwaitSectionReady,
                ..self.progress(now).emit(self.call(ScqAction::RequestFile))
            }
        }
    }

    pub open spec fn on_section_ready(self, asdu: F_SR_NA_1, now: Instant) -> SessionModel {
        if !(self.role is Receiver) || !(self.state is RxAwaitSectionReady) {
            self.fail(FailureReason::ProtocolViolation)
        } else if asdu.srq.negative {
            self.progress(now).fail(FailureReason::PeerRejected)
        } else {
            SessionModel {
                section_length: asdu.los.0,
                bytes_transferred: 0,
                section_checksum: Checksum(0),
                state: SessionState::RxReceivingSegments,
                ..self.progress(now)
            }
        }
    }

    pub open spec fn on_select_call(self, asdu: F_SC_NA_1, now: Instant) -> SessionModel {
        let heard = self.progress(now);
        if !(self.role is Sender) {
            self.fail(FailureReason::ProtocolViolation)
        } else {
            match asdu.scq.action {
                ScqAction::SelectFile if self.state is Idle || self.state is TxAwaitSelect =>
                SessionModel {
                    state: SessionState::TxAwaitRequest,
                    ..heard.emit(self.file_ready())
                },
                ScqAction::RequestFile if self.state is TxAwaitRequest => {
                    let announced = SessionModel {
                        section_checksum: Checksum(0),
                        bytes_transferred: 0,
                        ..heard
                    }.emit(
                        ActionModel::SendSectionReady(
                            F_SR_NA_1 {
                                ioa: self.config.ioa,
                                nof: self.nof,
                                nos: NameOfSection(ONLY_SECTION),
                                los: LengthOfSection(self.section_length),
                                srq: Srq { code: 0, negative: false },
                            },
                        ),
                    );
                    SessionModel {
                        state: SessionState::TxSendingSegments,
                        ..announced.request_next_segment()
                    }
                },
                ScqAction::DeactivateFile
                | ScqAction::DeleteFile
                | ScqAction::DeactivateSection => heard.fail(FailureReason::Aborted),
                _ => heard.fail(FailureReason::ProtocolViolation),
            }
        }
    }

    pub open spec fn on_last_section(self, asdu: F_LS_NA_1, now: Instant) -> SessionModel {
        if !(self.role is Receiver) || !(self.state is RxReceivingSegments) {
            self.fail(FailureReason::ProtocolViolation)
        } else if asdu.chs != self.section_checksum {
            self.progress(now).emit(self.ack(asdu.nos, AfqAction::NegativeSection)).fail(
                FailureReason::ChecksumMismatch,
            )
        } else {
            self.progress(now).emit(self.ack(asdu.nos, AfqAction::PositiveFile)).complete()
        }
    }

    pub open spec fn on_ack_file(self, asdu: F_AF_NA_1, now: Instant) -> SessionModel {
        if !(self.role is Sender) || !(self.state is TxAwaitAck) {
            self.fail(FailureReason::ProtocolViolation)
        } else if asdu.afq.action is PositiveFile || asdu.afq.action is PositiveSection {
            self.progress(now).complete()
        } else {
            self.progress(now).fail(FailureReason::PeerRejected)
        }
    }

    /// `data` belongs to the section.
    pub open spec fn accounted(self, data: Seq<u8>) -> SessionModel {
        SessionModel {
            section_checksum: self.section_checksum.folded(data),
            bytes_transferred: counted(self.bytes_transferred, data.len() as int),
            ..self
        }
    }

    pub open spec fn on_segment(self, asdu: SegmentModel, now: Instant) -> SessionModel {
        if !(self.role is Receiver) || !(self.state is RxReceivingSegments) {
            self.fail(FailureReason::ProtocolViolation)
        } else {
            self.progress(now).accounted(asdu.segment).emit(
                ActionModel::DeliverSegment(asdu.segment),
            )
        }
    }

    pub open spec fn on_segment_ready(self, data: Seq<u8>, now: Instant) -> SessionModel {
        let answered = SessionModel { awaiting_provider: false, ..self }.progress(now);
        if !(self.role is Sender) || !(self.state is TxSendingSegments) {
            self
        } else if data.len() == 0 {
            SessionModel {
                state: SessionState::TxAwaitAck,
                ..answered.emit(
                    ActionModel::SendLastSection(
                        F_LS_NA_1 {
                            ioa: self.config.ioa,
                            nof: self.nof,
                            nos: NameOfSection(ONLY_SECTION),
                            lsq: Lsq::FileWithoutDeactivate,
                            chs: self.section_checksum,
                        },
                    ),
                )
            }
        } else {
            answered.accounted(data).emit(
                ActionModel::SendSegment(
                    SegmentModel {
                        ioa: self.config.ioa,
                        nof: self.nof,
                        nos: NameOfSection(ONLY_SECTION),
                        segment: data,
                    },
                ),
            ).request_next_segment()
        }
    }

    /// A session under way fails when nothing has happened for too long. The
    /// timer starts with the first look at the clock.
    pub open spec fn check_timeout(self, now: Instant) -> SessionModel {
        if terminal(self.state) || self.state is Idle {
            self
        } else {
            match self.last_progress {
                Some(last) => if now.reached(last, self.config.idle_timeout) {
                    self.fail(FailureReason::Timeout)
                } else {
                    self
                },
                None => self.progress(now),
            }
        }
    }

    /// What the input itself brings about, before the timer is looked at.
    pub open spec fn taken(self, input: InputModel, now: Instant) -> SessionModel {
        match input {
            InputModel::Start { length } => self.on_start(length),
            InputModel::FileReady(asdu) => self.on_file_ready(asdu, now),
            InputModel::SectionReady(asdu) => self.on_section_ready(asdu, now),
            InputModel::SelectCall(asdu) => self.on_select_call(asdu, now),
            InputModel::LastSection(asdu) => self.on_last_section(asdu, now),
            InputModel::AckFile(asdu) => self.on_ack_file(asdu, now),
            InputModel::Segment(asdu) => self.on_segment(asdu, now),
            InputModel::SegmentReady(data) => self.on_segment_ready(data, now),
            InputModel::Tick => self,
            InputModel::Abort => self.fail(FailureReason::Aborted),
        }
    }

    /// The session once its actions have been handed out.
    pub open spec fn drained(self) -> SessionModel {
        SessionModel { actions: Seq::empty(), ..self }
    }
}

/// The session after an input, with the actions that it asks for. A session
/// that is over ignores everything.
pub open spec fn stepped(s: SessionModel, input: InputModel, now: Instant) -> SessionModel {
    if terminal(s.state) {
        s.drained()
    } else {
        s.taken(input, now).check_timeout(now)
    }
}

/// A session that has not begun.
pub open spec fn fresh(role: Role, nof: NameOfFile, config: SessionConfig) -> SessionModel {
    SessionModel {
        role,
        nof,
        state: SessionState::Idle,
        config,
        file_length: 0,
        section_length: 0,
        bytes_transferred: 0,
        section_checksum: Checksum(0),
        last_progress: None,
        awaiting_provider: false,
        actions: Seq::empty(),
    }
}

// ---------------------------------------------------------------------------
// The state machine
// ---------------------------------------------------------------------------

/// One file-transfer session.
#[derive(Debug)]
pub struct Session {
    role: Role,
    nof: NameOfFile,
    state: SessionState,
    config: SessionConfig,
    /// File length. For Sender: total to ship. For Receiver: announced by
    /// `F_FR_NA_1` (zero until then).
    file_length: u32,
    /// Section length (we use one section per file). Equal to `file_length`
    /// once known.
    section_length: u32,
    /// How many segment bytes have been pushed (sender) or accepted (receiver).
    bytes_transferred: u32,
    /// Incremental checksum over the current section's segment payloads.
    section_checksum: Checksum,
    /// Latest time at which an FT ASDU made progress (resets the idle timer).
    last_progress: Option<Instant>,
    /// Sender-only: most recent `RequestNextSegment` is outstanding. Used to
    /// avoid double-requesting on consecutive `Tick`s.
    awaiting_provider: bool,
    actions: Vec<SessionAction>,
}

impl View for Session {
    type V = SessionModel;

    closed spec fn view(&self) -> SessionModel {
        SessionModel {
            role: self.role,
            nof: self.nof,
            state: self.state,
            config: self.config,
            file_length: self.file_length,
            section_length: self.section_length,
            bytes_transferred: self.bytes_transferred,
            section_checksum: self.section_checksum,
            last_progress: self.last_progress,
            awaiting_provider: self.awaiting_provider,
            actions: actions_view(self.actions@),
        }
    }
}

impl Session {
    /// Build a session. The session does *not* drive itself; the caller must
    /// invoke [`Self::step`] for each input. Use [`SessionInput::Start`] to
    /// initiate.
    pub fn new(role: Role, nof: NameOfFile, config: SessionConfig) -> (s: Self)
        ensures
            s@ == fresh(role, nof, config),
    {
        Session {
            role,
            nof,
            state: SessionState::Idle,
            config,
            file_length: 0,
            section_length: 0,
            bytes_transferred: 0,
            section_checksum: Checksum(0),
            last_progress: None,
            awaiting_provider: false,
            actions: Vec::new(),
        }
    }

    /// Current role.
    pub fn role(&self) -> (r: Role)
        ensures
            r == self@.role,
    {
        self.role
    }

    /// File the session refers to.
    pub fn nof(&self) -> (n: NameOfFile)
        ensures
            n == self@.nof,
    {
        self.nof
    }

    /// Current high-level state.
    pub fn state(&self) -> (s: SessionState)
        ensures
            s == self@.state,
    {
        self.state
    }

    /// `true` once the session has reached [`SessionState::Completed`] or
    /// [`SessionState::Failed`].
    pub fn is_terminal(&self) -> (b: bool)
        ensures
            b == terminal(self@.state),
    {
        matches!(self.state, SessionState::Completed | SessionState::Failed)
    }

    /// Drive the state machine with one input. Returns the actions to apply.
    pub fn step(&mut self, input: SessionInput, now: Instant) -> (actions: Vec<SessionAction>)
        ensures
            actions_view(actions@) == stepped(old(self)@, input@, now).actions,
            final(self)@ == stepped(old(self)@, input@, now).drained(),
    {
        if self.is_terminal() {
            self.actions = Vec::new();
            assert(self@ =~= old(self)@.drained());
            let none: Vec<SessionAction> = Vec::new();
            assert(actions_view(none@) =~= Seq::empty());
            return none;
        }
        match input {
            SessionInput::Start { length } => self.on_start(length),
            SessionInput::FileReady(asdu) => self.on_file_ready(asdu, now),
            SessionInput::SectionReady(asdu) => self.on_section_ready(asdu, now),
            SessionInput::SelectCall(asdu) => self.on_select_call(asdu, now),
            SessionInput::LastSection(asdu) => self.on_last_section(asdu, now),
            SessionInput::AckFile(asdu) => self.on_ack_file(asdu, now),
            SessionInput::Segment(asdu) => self.on_segment(asdu, now),
            SessionInput::SegmentReady(data) => self.on_segment_ready(data, now),
            SessionInput::Tick => {},
            SessionInput::Abort => self.fail(FailureReason::Aborted),
        }
        self.check_timeout(now);
        let mut out: Vec<SessionAction> = Vec::new();
        std::mem::swap(&mut out, &mut self.actions);
        assert(self@ =~= stepped(old(self)@, input@, now).drained());
        out
    }

    // ---- Input handlers ---------------------------------------------------

    fn on_start(&mut self, length: u32)
        ensures
            final(self)@ == old(self)@.on_start(length),
    {
        if self.state != SessionState::Idle {
            return;
        }
        match self.role {
            Role::Receiver => {
                self.emit_call(ScqAction::SelectFile);
                self.state = SessionState::RxAwaitFileReady;
            },
            Role::Sender => {
                self.file_length = length;
                self.section_length = length;
                self.emit_file_ready();
                self.state = SessionState::TxAwaitSelect;
            },
        }
    }

    fn on_file_ready(&mut self, asdu: F_FR_NA_1, now: Instant)
        ensures
            final(self)@ == old(self)@.on_file_ready(asdu, now),
    {
        // Only the receiver consumes F_FR_NA_1. A sender that sees one is
        // looking at its own echo - ignore.
        if self.role != Role::Receiver {
            return;
        }
        if self.state != SessionState::RxAwaitFileReady {
            self.fail(FailureReason::ProtocolViolation);
            return;
        }
        self.last_progress = Some(now);
        if asdu.frq.negative {
            self.fail(FailureReason::PeerRejected);
            return;
        }
        self.file_length = asdu.lof.0;
        self.section_length = asdu.lof.0;
        self.emit_call(ScqAction::RequestFile);
        self.state = SessionState::RxAwaitSectionReady;
    }

    fn on_section_ready(&mut self, asdu: F_SR_NA_1, now: Instant)
        ensures
            final(self)@ == old(self)@.on_section_ready(asdu, now),
    {
        if self.role != Role::Receiver || self.state != SessionState::RxAwaitSectionReady {
            self.fail(FailureReason::ProtocolViolation);
            return;
        }
        self.last_progress = Some(now);
        if asdu.srq.negative {
            self.fail(FailureReason::PeerRejected);
            return;
        }
        self.section_length = asdu.los.0;
        self.bytes_transferred = 0;
        self.section_checksum = Checksum(0);
        self.state = SessionState::RxReceivingSegments;
    }

    fn on_select_call(&mut self, asdu: F_SC_NA_1, now: Instant)
        ensures
            final(self)@ == old(self)@.on_select_call(asdu, now),
    {
        if self.role != Role::Sender {
            self.fail(FailureReason::ProtocolViolation);
            return;
        }
        self.last_progress = Some(now);
        match (self.state, asdu.scq.action) {
            (SessionState::Idle, ScqAction::SelectFile)
            | (SessionState::TxAwaitSelect, ScqAction::SelectFile) => {
                // Reactive start: respond with F_FR_NA_1, await REQUEST.
                self.emit_file_ready();
                self.state = SessionState::TxAwaitRequest;
            },
            (SessionState::TxAwaitRequest, ScqAction::RequestFile) => {
                // Master wants the data: announce the section, ask the
                // provider for the first chunk.
                self.section_checksum = Checksum(0);
                self.bytes_transferred = 0;
                let ready = F_SR_NA_1 {
                    ioa: self.config.ioa,
                    nof: self.nof,
                    nos: NameOfSection(ONLY_SECTION),
                    los: LengthOfSection(self.section_length),
                    srq: Srq::ready(),
                };
                self.emit(SessionAction::SendSectionReady(ready));
                self.request_next_segment();
                self.state = SessionState::TxSendingSegments;
            },
            (_, ScqAction::DeactivateFile)
            | (_, ScqAction::DeleteFile)
            | (_, ScqAction::DeactivateSection) => {
                self.fail(FailureReason::Aborted);
            },
            _ => {
                self.fail(FailureReason::ProtocolViolation);
            },
        }
    }

    fn on_last_section(&mut self, asdu: F_LS_NA_1, now: Instant)
        ensures
            final(self)@ == old(self)@.on_last_section(asdu, now),
    {
        if self.role != Role::Receiver || self.state != SessionState::RxReceivingSegments {
            self.fail(FailureReason::ProtocolViolation);
            return;
        }
        self.last_progress = Some(now);
        if asdu.chs.0 != self.section_checksum.0 {
            // Tell the peer we rejected the section, then mark failure.
            self.emit_ack(asdu.nos, AfqAction::NegativeSection);
            self.fail(FailureReason::ChecksumMismatch);
            return;
        }
        // ACK section, ACK file (single-section model).
        self.emit_ack(asdu.nos, AfqAction::PositiveFile);
        self.complete();
    }

    fn on_ack_file(&mut self, asdu: F_AF_NA_1, now: Instant)
        ensures
            final(self)@ == old(self)@.on_ack_file(asdu, now),
    {
        if self.role != Role::Sender || self.state != SessionState::TxAwaitAck {
            self.fail(FailureReason::ProtocolViolation);
            return;
        }
        self.last_progress = Some(now);
        match asdu.afq.action {
            AfqAction::PositiveFile | AfqAction::PositiveSection => self.complete(),
            _ => self.fail(FailureReason::PeerRejected),
        }
    }

    fn on_segment(&mut self, asdu: F_SG_NA_1, now: Instant)
        ensures
            final(self)@ == old(self)@.on_segment(asdu@, now),
    {
        if self.role != Role::Receiver || self.state != SessionState::RxReceivingSegments {
            self.fail(FailureReason::ProtocolViolation);
            return;
        }
        self.last_progress = Some(now);
        self.account(asdu.segment.as_slice());
        self.emit(SessionAction::DeliverSegment(asdu.segment));
    }

    fn on_segment_ready(&mut self, data: Vec<u8>, now: Instant)
        ensures
            final(self)@ == old(self)@.on_segment_ready(data@, now),
    {
        if self.role != Role::Sender || self.state != SessionState::TxSendingSegments {
            return;
        }
        self.awaiting_provider = false;
        self.last_progress = Some(now);
        if data.len() == 0 {
            // EOF - close with F_LS_NA_1 carrying the running checksum.
            let last = F_LS_NA_1 {
                ioa: self.config.ioa,
                nof: self.nof,
                nos: NameOfSection(ONLY_SECTION),
                lsq: Lsq::FileWithoutDeactivate,
                chs: self.section_checksum,
            };
            self.emit(SessionAction::SendLastSection(last));
            self.state = SessionState::TxAwaitAck;
            return;
        }
        self.account(data.as_slice());
        let segment = F_SG_NA_1 {
            ioa: self.config.ioa,
            nof: self.nof,
            nos: NameOfSection(ONLY_SECTION),
            segment: data,
        };
        self.emit(SessionAction::SendSegment(segment));
        // Pump the pipeline by asking for the next chunk straight away.
        self.request_next_segment();
    }

    // ---- Helpers ----------------------------------------------------------

    fn account(&mut self, data: &[u8])
        ensures
            final(self)@ == old(self)@.accounted(data@),
    {
        self.section_checksum.update_slice(data);
        let n: u32 = (data.len() as u64 % 0x1_0000_0000) as u32;
        self.bytes_transferred = self.bytes_transferred.saturating_add(n);
    }

    fn emit_file_ready(&mut self)
        ensures
            final(self)@ == old(self)@.emit(old(self)@.file_ready()),
    {
        let ready = F_FR_NA_1 {
            ioa: self.config.ioa,
            nof: self.nof,
            lof: LengthOfFile(self.file_length),
            frq: Frq::ready(),
        };
        self.emit(SessionAction::SendFileReady(ready));
    }

    fn emit_call(&mut self, action: ScqAction)
        ensures
            final(self)@ == old(self)@.emit(old(self)@.call(action)),
    {
        let call = F_SC_NA_1 {
            ioa: self.config.ioa,
            nof: self.nof,
            nos: NameOfSection(NameOfSection::WHOLE_FILE),
            scq: Scq::new(action, 0),
        };
        self.emit(SessionAction::SendSelectCall(call));
    }

    fn emit_ack(&mut self, nos: NameOfSection, action: AfqAction)
        ensures
            final(self)@ == old(self)@.emit(old(self)@.ack(nos, action)),
    {
        let ack = F_AF_NA_1 {
            ioa: self.config.ioa,
            nof: self.nof,
            nos,
            afq: Afq::new(action, 0),
        };
        self.emit(SessionAction::SendAckFile(ack));
    }

    fn complete(&mut self)
        ensures
            final(self)@ == old(self)@.complete(),
    {
        let bytes: u32 = self.bytes_transferred;
        self.state = SessionState::Completed;
        self.emit(SessionAction::Completed { bytes });
    }

    fn request_next_segment(&mut self)
        ensures
            final(self)@ == old(self)@.request_next_segment(),
    {
        if self.awaiting_provider {
            return;
        }
        let asked: usize = self.config.max_segment_bytes;
        let max: usize = if asked < 1 {
            1
        } else if asked > MAX_SEGMENT_BYTES {
            MAX_SEGMENT_BYTES
        } else {
            asked
        };
        self.awaiting_provider = true;
        self.emit(SessionAction::RequestNextSegment { max_bytes: max });
    }

    fn check_timeout(&mut self, now: Instant)
        ensures
            final(self)@ == old(self)@.check_timeout(now),
    {
        if self.is_terminal() {
            return;
        }
        if self.state == SessionState::Idle {
            return;
        }
        if let Some(last) = self.last_progress {
            if now.has_reached(last, self.config.idle_timeout) {
                self.fail(FailureReason::Timeout);
            }
        } else {
            // No progress yet - start the timer relative to now.
            self.last_progress = Some(now);
        }
    }

    fn fail(&mut self, reason: FailureReason)
        ensures
            final(self)@ == old(self)@.fail(reason),
    {
        if self.is_terminal() {
            return;
        }
        self.state = SessionState::Failed;
        self.emit(SessionAction::Failed(reason));
    }

    fn emit(&mut self, action: SessionAction)
        ensures
            final(self)@ == old(self)@.emit(action@),
    {
        self.actions.push(action);
        assert(self@.actions =~= old(self)@.actions.push(action@));
    }
}

} // verus!
