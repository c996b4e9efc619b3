//! IEC 60870-5-101 link-layer state machine (sans-I/O).
//!
//! This module provides a sans-I/O state machine for the FT 1.2 link layer.
//! The machine consumes [`Input`]s and emits [`Action`]s, leaving all I/O and
//! clock calls to the surrounding driver. [`handled`] says what it does.
//!
//! ## Modes
//!
//! * **Unbalanced** - master polls outstation; outstation only sends when
//!   polled. This is the mode used in most IEC 60870-5-101 deployments over
//!   serial links.
//! * **Balanced** - peer-to-peer; both sides can initiate. Not available.
//!
//! ## FCB (Frame Count Bit)
//!
//! The master alternates FCB on each SEND/CONFIRM cycle so the outstation can
//! detect retransmissions.
//!
//! ## Timers
//!
//! The machine is entirely driven from the outside. The caller passes the
//! current instant to every [`Connection::handle`] call; the machine never
//! reads the clock itself.

use vstd::prelude::*;
use std::collections::VecDeque;
use crate::frame101::control::{ControlField, Direction, FuncCodePrimary, FuncCodeSecondary};
use crate::frame101::frame::{Frame101, FrameModel, LinkAddress, LinkAddressSize, SingleChar};
use crate::time::{Duration, Instant};

verus! {

/// Link-layer state machine configuration.
#[derive(Debug, Clone, Copy)]
pub struct Config {
    /// Link address of the local station (broadcast address excluded).
    pub link_address: LinkAddress,
    /// Width of the link address on the wire.
    pub addr_size: LinkAddressSize,
    /// Timeout waiting for an ACK after a confirmed send (default 1 s).
    pub timeout: Duration,
    /// Maximum retransmission attempts before the link is declared down
    /// (default 3).
    pub max_retries: u8,
}

impl Default for Config {
    fn default() -> (c: Self)
        ensures
            c.link_address == LinkAddress(0),
            c.addr_size is One,
            c.timeout.nanos == 1_000_000_000,
            c.max_retries == 3,
    {
        Config {
            link_address: LinkAddress(0),
            addr_size: LinkAddressSize::One,
            timeout: Duration::from_secs(1),
            max_retries: 3,
        }
    }
}

/// Connection role.
#[derive(Debug, Clone, Copy, PartialEq, Eq, Structural)]
pub enum Role {
    /// Primary (master) station - initiates requests and confirmed sends.
    Master,
    /// Secondary (outstation) station - responds to requests from the master.
    Outstation,
}

/// Transfer mode.
#[derive(Debug, Clone, Copy, PartialEq, Eq, Structural)]
pub enum Mode {
    /// Unbalanced - master controls; outstation only responds.
    Unbalanced,
    /// Balanced - peer-to-peer; both sides may initiate. A `Connection` cannot
    /// be constructed with this mode.
    Balanced,
}

/// High-level link state.
#[derive(Debug, Clone, Copy, PartialEq, Eq, Structural)]
pub enum LinkState {
    /// Link is not yet initialised (reset not completed).
    NotReady,
    /// Link is ready for data transfer.
    Ready,
    /// Link has been declared down (too many failed retries).
    Failed,
}

/// Inputs to the link-layer state machine.
#[derive(Debug, Clone)]
pub enum Input {
    /// A frame was received from the peer.
    FrameReceived(Frame101),
    /// A timer tick - check for timeouts.
    Tick,
    /// Send an ASDU: the master sends it as a confirmed user-data frame, the
    /// outstation keeps it for the master's next poll.
    SendUserData(Vec<u8>),
    /// (Master only) Request status of link.
    RequestStatus,
    /// (Master only) Reset the remote link.
    ResetRemoteLink,
    /// (Master only) Request class-1 user data from the outstation.
    RequestUserDataClass1,
    /// (Master only) Request class-2 user data from the outstation.
    RequestUserDataClass2,
}

/// Reason for a link error.
#[derive(Debug, Clone, Copy, PartialEq, Eq, Structural)]
pub enum Reason {
    /// Acknowledged timeout exhausted all retries.
    AckTimeout,
    /// Peer returned a NACK.
    Nack,
    /// Protocol violation (unexpected frame type or content).
    ProtocolError,
}

/// Actions emitted by the link-layer state machine for the I/O layer.
#[derive(Debug, Clone, PartialEq, Eq)]
pub enum Action {
    /// Transmit the given frame to the peer.
    SendFrame(Frame101),
    /// Deliver the ASDU payload to the application layer.
    DeliverAsdu(Vec<u8>),
    /// The link state has changed.
    LinkStateChanged(LinkState),
    /// A link-layer error occurred.
    LinkError(Reason),
}

// ---------------------------------------------------------------------------
// What the state machine does
// ---------------------------------------------------------------------------

/// What an [`Input`] holds.
pub enum InputModel {
    FrameReceived(FrameModel),
    Tick,
    SendUserData(Seq<u8>),
    RequestStatus,
    ResetRemoteLink,
    RequestUserDataClass1,
    RequestUserDataClass2,
}

impl View for Input {
    type V = InputModel;

    open spec fn view(&self) -> InputModel {
        match self {
            Input::FrameReceived(frame) => InputModel::FrameReceived(frame@),
            Input::Tick => InputModel::Tick,
            Input::SendUserData(asdu) => InputModel::SendUserData(asdu@),
            Input::RequestStatus => InputModel::RequestStatus,
            Input::ResetRemoteLink => InputModel::ResetRemoteLink,
            Input::RequestUserDataClass1 => InputModel::RequestUserDataClass1,
            Input::RequestUserDataClass2 => InputModel::RequestUserDataClass2,
        }
    }
}

/// What an [`Action`] holds.
pub enum ActionModel {
    SendFrame(FrameModel),
    DeliverAsdu(Seq<u8>),
    LinkStateChanged(LinkState),
    LinkError(Reason),
}

impl View for Action {
    type V = ActionModel;

    open spec fn view(&self) -> ActionModel {
        match self {
            Action::SendFrame(frame) => ActionModel::SendFrame(frame@),
            Action::DeliverAsdu(asdu) => ActionModel::DeliverAsdu(asdu@),
            Action::LinkStateChanged(state) => ActionModel::LinkStateChanged(*state),
            Action::LinkError(reason) => ActionModel::LinkError(*reason),
        }
    }
}

/// The views of a list of actions.
pub open spec fn actions_view(s: Seq<Action>) -> Seq<ActionModel> {
    Seq::new(s.len(), |i: int| s[i]@)
}

/// The views of a list of ASDUs.
pub open spec fn asdus_view(s: Seq<Vec<u8>>) -> Seq<Seq<u8>> {
    Seq::new(s.len(), |i: int| s[i]@)
}

/// A frame that waits for its confirmation.
pub struct PendingModel {
    pub frame: FrameModel,
    /// When it was last transmitted.
    pub sent_at: Instant,
    /// Number of transmissions so far.
    pub attempts: int,
}

/// Everything that a link remembers, together with the actions that it has
/// emitted and not yet handed out.
#[verifier::ext_equal]
pub struct LinkModel {
    pub role: Role,
    pub mode: Mode,
    pub config: Config,
    pub link_state: LinkState,
    /// FCB of the next confirmed user-data frame.
    pub fcb: bool,
    /// FCB of the last confirmed user-data frame received.
    pub last_fcb_seen: Option<bool>,
    pub pending: Option<PendingModel>,
    /// ASDUs that wait to be sent, in order.
    pub send_queue: Seq<Seq<u8>>,
    pub actions: Seq<ActionModel>,
}

impl LinkModel {
    pub open spec fn emit(self, action: ActionModel) -> LinkModel {
        LinkModel { actions: self.actions.push(action), ..self }
    }

    /// Entering a state is reported, staying in it is not.
    pub open spec fn enter(self, state: LinkState) -> LinkModel {
        if self.link_state == state {
            self
        } else {
            LinkModel { link_state: state, ..self }.emit(ActionModel::LinkStateChanged(state))
        }
    }

    pub open spec fn fail(self, reason: Reason) -> LinkModel {
        self.emit(ActionModel::LinkError(reason))
    }

    /// Nothing waits for a confirmation any more.
    pub open spec fn settled(self) -> LinkModel {
        LinkModel { pending: None, ..self }
    }

    /// The link becomes ready unless it has left that stage already.
    pub open spec fn ready(self) -> LinkModel {
        if self.link_state is NotReady {
            self.enter(LinkState::Ready)
        } else {
            self
        }
    }

    /// A control frame of this station.
    pub open spec fn fixed(self, cf: ControlField) -> FrameModel {
        FrameModel::Fixed { control: cf.octet(), address: self.config.link_address }
    }

    /// A data frame of this station.
    pub open spec fn variable(self, cf: ControlField, asdu: Seq<u8>) -> FrameModel {
        FrameModel::Variable { control: cf.octet(), address: self.config.link_address, asdu }
    }

    /// A frame goes out and waits for its confirmation.
    pub open spec fn send_with_confirm(self, frame: FrameModel, now: Instant) -> LinkModel {
        LinkModel {
            pending: Some(PendingModel { frame, sent_at: now, attempts: 1 }),
            ..self.emit(ActionModel::SendFrame(frame))
        }
    }

    /// A request without user data goes out.
    pub open spec fn request(self, func: FuncCodePrimary, now: Instant) -> LinkModel {
        self.send_with_confirm(
            self.fixed(ControlField::Primary { fcb: false, fcv: false, func }),
            now,
        )
    }

    /// A reply without user data goes out.
    pub open spec fn reply(self, func: FuncCodeSecondary) -> LinkModel {
        self.emit(
            ActionModel::SendFrame(
                self.fixed(ControlField::Secondary { acd: false, dfc: false, func }),
            ),
        )
    }

    /// The control field of the next confirmed user-data frame.
    pub open spec fn next_control(self) -> ControlField {
        ControlField::Primary { fcb: self.fcb, fcv: true, func: FuncCodePrimary::UserDataConfirmed }
    }

    /// The first waiting ASDU goes out, unless something waits for its
    /// confirmation.
    pub open spec fn flush(self, now: Instant) -> LinkModel {
        if self.pending is Some || self.send_queue.len() == 0 {
            self
        } else {
            let popped = LinkModel { send_queue: self.send_queue.skip(1), ..self };
            LinkModel {
                fcb: !self.fcb,
                ..popped.send_with_confirm(
                    self.variable(self.next_control(), self.send_queue[0]),
                    now,
                )
            }
        }
    }

    pub open spec fn master_on_secondary_fixed(
        self,
        func: FuncCodeSecondary,
        now: Instant,
    ) -> LinkModel {
        match func {
            FuncCodeSecondary::Ack => if self.pending is Some {
                self.settled().ready().flush(now)
            } else {
                self
            },
            FuncCodeSecondary::Nack => self.settled().fail(Reason::Nack),
            FuncCodeSecondary::StatusOfLink => self.settled().ready(),
            FuncCodeSecondary::NackNoData => self.settled(),
            FuncCodeSecondary::RespondUserData => self.fail(Reason::ProtocolError),
        }
    }

    pub open spec fn master_on_frame(self, frame: FrameModel, now: Instant) -> LinkModel {
        match frame {
            FrameModel::Single(SingleChar::Ack) => if self.pending is Some {
                self.settled().flush(now)
            } else {
                self
            },
            FrameModel::Single(SingleChar::Nack) => self.settled().fail(Reason::Nack),
            FrameModel::Fixed { control, .. } => match ControlField::decoded(
                control,
                Direction::Secondary,
            ) {
                Some(ControlField::Secondary { func, .. }) => self.master_on_secondary_fixed(
                    func,
                    now,
                ),
                _ => self.fail(Reason::ProtocolError),
            },
            FrameModel::Variable { control, asdu, .. } => match ControlField::decoded(
                control,
                Direction::Secondary,
            ) {
                Some(
                    ControlField::Secondary { func: FuncCodeSecondary::RespondUserData, .. },
                ) => self.settled().emit(ActionModel::DeliverAsdu(asdu)),
                _ => self.fail(Reason::ProtocolError),
            },
        }
    }

    pub open spec fn outstation_on_primary_fixed(self, func: FuncCodePrimary) -> LinkModel {
        match func {
            FuncCodePrimary::ResetRemoteLink => LinkModel { last_fcb_seen: None, ..self }.reply(
                FuncCodeSecondary::Ack,
            ).enter(LinkState::Ready),
            FuncCodePrimary::RequestStatus => self.reply(FuncCodeSecondary::StatusOfLink),
            FuncCodePrimary::RequestUserDataClass1
            | FuncCodePrimary::RequestUserDataClass2 => if self.send_queue.len() > 0 {
                LinkModel { send_queue: self.send_queue.skip(1), ..self }.emit(
                    ActionModel::SendFrame(
                        self.variable(
                            ControlField::Secondary {
                                acd: false,
                                dfc: false,
                                func: FuncCodeSecondary::RespondUserData,
                            },
                            self.send_queue[0],
                        ),
                    ),
                )
            } else {
                self.reply(FuncCodeSecondary::NackNoData)
            },
            _ => self,
        }
    }

    /// A confirmed user-data frame is a retransmission when its FCB counts and
    /// is the one seen last.
    pub open spec fn repeats(self, fcb: bool, fcv: bool) -> bool {
        fcv && self.last_fcb_seen == Some(fcb)
    }

    pub open spec fn outstation_on_primary_variable(
        self,
        fcb: bool,
        fcv: bool,
        func: FuncCodePrimary,
        asdu: Seq<u8>,
    ) -> LinkModel {
        match func {
            FuncCodePrimary::UserDataConfirmed => {
                let seen = LinkModel {
                    last_fcb_seen: if fcv {
                        Some(fcb)
                    } else {
                        self.last_fcb_seen
                    },
                    ..self
                };
                let acked = seen.reply(FuncCodeSecondary::Ack);
                if self.repeats(fcb, fcv) {
                    acked
                } else {
                    acked.emit(ActionModel::DeliverAsdu(asdu))
                }
            },
            FuncCodePrimary::UserDataUnconfirmed => self.emit(ActionModel::DeliverAsdu(asdu)),
            _ => self,
        }
    }

    pub open spec fn outstation_on_frame(self, frame: FrameModel) -> LinkModel {
        match frame {
            FrameModel::Single(_) => self,
            FrameModel::Fixed { control, address } => match ControlField::decoded(
                control,
                Direction::Primary,
            ) {
                Some(ControlField::Primary { func, .. }) if address
                    == self.config.link_address => self.outstation_on_primary_fixed(func),
                _ => self,
            },
            FrameModel::Variable { control, address, asdu } => match ControlField::decoded(
                control,
                Direction::Primary,
            ) {
                Some(ControlField::Primary { fcb, fcv, func }) if address
                    == self.config.link_address => self.outstation_on_primary_variable(
                    fcb,
                    fcv,
                    func,
                    asdu,
                ),
                _ => self,
            },
        }
    }

    pub open spec fn on_send_user_data(self, asdu: Seq<u8>, now: Instant) -> LinkModel {
        let queued = LinkModel { send_queue: self.send_queue.push(asdu), ..self };
        match self.role {
            Role::Master => queued.flush(now),
            Role::Outstation => queued,
        }
    }

    /// A master asks for something, unless an earlier request is open.
    pub open spec fn on_request(self, func: FuncCodePrimary, now: Instant) -> LinkModel {
        if self.role is Master && self.pending is None {
            self.request(func, now)
        } else {
            self
        }
    }

    /// A reset does not wait for an earlier request.
    pub open spec fn on_reset_remote_link(self, now: Instant) -> LinkModel {
        if self.role is Master {
            self.settled().request(FuncCodePrimary::ResetRemoteLink, now)
        } else {
            self
        }
    }

    /// A confirmation that is overdue has the frame sent again, until the
    /// retransmissions are used up and the link is declared down.
    pub open spec fn run_timers(self, now: Instant) -> LinkModel {
        match self.pending {
            Some(p) if now.reached(p.sent_at, self.config.timeout) => if p.attempts
                > self.config.max_retries {
                self.settled().enter(LinkState::Failed).fail(Reason::AckTimeout)
            } else {
                LinkModel {
                    pending: Some(
                        PendingModel { frame: p.frame, sent_at: now, attempts: p.attempts + 1 },
                    ),
                    ..self.emit(ActionModel::SendFrame(p.frame))
                }
            },
            _ => self,
        }
    }

    /// What the input itself brings about, before the timer is looked at.
    pub open spec fn taken(self, input: InputModel, now: Instant) -> LinkModel {
        match input {
            InputModel::FrameReceived(frame) => match self.role {
                Role::Master => self.master_on_frame(frame, now),
                Role::Outstation => self.outstation_on_frame(frame),
            },
            InputModel::Tick => self,
            InputModel::SendUserData(asdu) => self.on_send_user_data(asdu, now),
            InputModel::RequestStatus => self.on_request(FuncCodePrimary::RequestStatus, now),
            InputModel::ResetRemoteLink => self.on_reset_remote_link(now),
            InputModel::RequestUserDataClass1 => self.on_request(
                FuncCodePrimary::RequestUserDataClass1,
                now,
            ),
            InputModel::RequestUserDataClass2 => self.on_request(
                FuncCodePrimary::RequestUserDataClass2,
                now,
            ),
        }
    }
}

/// The link after an input, with the actions that it asks for.
pub open spec fn handled(c: LinkModel, input: InputModel, now: Instant) -> LinkModel {
    c.taken(input, now).run_timers(now)
}

/// A link that has just been set up.
pub open spec fn opened(role: Role, mode: Mode, config: Config) -> LinkModel {
    LinkModel {
        role,
        mode,
        config,
        link_state: LinkState::NotReady,
        fcb: false,
        last_fcb_seen: None,
        pending: None,
        send_queue: Seq::empty(),
        actions: Seq::empty(),
    }
}

// ---------------------------------------------------------------------------
// The state machine
// ---------------------------------------------------------------------------

/// Tracks an in-flight SEND/CONFIRM exchange.
#[derive(Debug, Clone)]
struct PendingSend {
    /// The full frame that was sent (kept for retransmission).
    frame: Frame101,
    /// Time when the frame was last transmitted.
    sent_at: Instant,
    /// Number of transmissions so far (1 on first send).
    attempts: u16,
}

/// IEC 60870-5-101 link-layer state machine.
#[derive(Debug)]
pub struct Connection {
    role: Role,
    mode: Mode,
    config: Config,
    link_state: LinkState,
    /// Current FCB value (master tracks the next FCB to send).
    fcb: bool,
    /// FCB of the last confirmed frame received (outstation side only; used to
    /// detect duplicate frames).
    last_fcb_seen: Option<bool>,
    /// In-flight confirmed-send, if any.
    pending: Option<PendingSend>,
    /// Queue of user-data ASDUs waiting to be sent.
    send_queue: VecDeque<Vec<u8>>,
    /// Buffered actions to drain on the next `handle` return.
    actions: VecDeque<Action>,
}

impl View for Connection {
    type V = LinkModel;

    closed spec fn view(&self) -> LinkModel {
        LinkModel {
            role: self.role,
            mode: self.mode,
            config: self.config,
            link_state: self.link_state,
            fcb: self.fcb,
            last_fcb_seen: self.last_fcb_seen,
            pending: match self.pending {
                Some(p) => Some(
                    PendingModel {
                        frame: p.frame@,
                        sent_at: p.sent_at,
                        attempts: p.attempts as int,
                    },
                ),
                None => None,
            },
            send_queue: asdus_view(self.send_queue@),
            actions: actions_view(self.actions@),
        }
    }
}

impl Connection {
    /// Create a new link-layer connection. Balanced mode is not available.
    pub fn new(role: Role, mode: Mode, config: Config) -> (c: Self)
        requires
            mode is Unbalanced,
        ensures
            c@ == opened(role, mode, config),
    {
        Connection {
            role,
            mode,
            config,
            link_state: LinkState::NotReady,
            fcb: false,
            last_fcb_seen: None,
            pending: None,
            send_queue: VecDeque::new(),
            actions: VecDeque::new(),
        }
    }

    /// Current link state.
    pub fn link_state(&self) -> (s: LinkState)
        ensures
            s == self@.link_state,
    {
        self.link_state
    }

    /// Drive the state machine with a single input.
    ///
    /// Returns the sequence of actions the I/O layer must perform. The `now`
    /// parameter is used for timeout tracking.
    pub fn handle(&mut self, input: Input, now: Instant) -> (actions: Vec<Action>)
        ensures
            actions_view(actions@) == handled(old(self)@, input@, now).actions,
            final(self)@ == (LinkModel {
                actions: Seq::empty(),
                ..handled(old(self)@, input@, now)
            }),
    {
        match input {
            Input::FrameReceived(frame) => self.on_frame(frame, now),
            Input::Tick => {},
            Input::SendUserData(asdu) => self.on_send_user_data(asdu, now),
            Input::RequestStatus => self.on_request_status(now),
            Input::ResetRemoteLink => self.on_reset_remote_link(now),
            Input::RequestUserDataClass1 => {
                self.on_request_class(FuncCodePrimary::RequestUserDataClass1, now)
            },
            Input::RequestUserDataClass2 => {
                self.on_request_class(FuncCodePrimary::RequestUserDataClass2, now)
            },
        }
        self.run_timers(now);
        self.drain()
    }

    fn drain(&mut self) -> (out: Vec<Action>)
        ensures
            actions_view(out@) == old(self)@.actions,
            final(self)@ == (LinkModel { actions: Seq::empty(), ..old(self)@ }),
    {
        let mut out: Vec<Action> = Vec::new();
        let ghost all = self.actions@;
        while self.actions.len() > 0
            invariant
                out@ + self.actions@ == all,
                self@ == (LinkModel { actions: actions_view(self.actions@), ..old(self)@ }),
            decreases self.actions@.len(),
        {
            if let Some(action) = self.actions.pop_front() {
                out.push(action);
            }
            assert(out@ + self.actions@ =~= all);
        }
        assert(out@ =~= all);
        out
    }

    fn on_frame(&mut self, frame: Frame101, now: Instant)
        ensures
            final(self)@ == (match old(self)@.role {
                Role::Master => old(self)@.master_on_frame(frame@, now),
                Role::Outstation => old(self)@.outstation_on_frame(frame@),
            }),
    {
        match self.role {
            Role::Master => self.master_on_frame(frame, now),
            Role::Outstation => self.outstation_on_frame(frame),
        }
    }

    // ---- Master receive path -----------------------------------------------

    fn master_on_frame(&mut self, frame: Frame101, now: Instant)
        ensures
            final(self)@ == old(self)@.master_on_frame(frame@, now),
    {
        match frame {
            Frame101::Single(sc) => {
                match sc {
                    SingleChar::Ack => {
                        // Clear the pending confirmed send.
                        if self.pending.is_some() {
                            self.pending = None;
                            // If there's more to send, flush.
                            self.maybe_flush_queue(now);
                        }
                    },
                    SingleChar::Nack => {
                        self.pending = None;
                        self.emit_link_error(Reason::Nack);
                    },
                }
            },
            Frame101::Fixed { control, address: _ } => {
                // Decode the control field as a secondary frame.
                if let Some(cf) = ControlField::decode(control, Direction::Secondary) {
                    self.master_on_secondary_fixed(cf, now);
                } else {
                    self.emit_link_error(Reason::ProtocolError);
                }
            },
            Frame101::Variable { control, address: _, asdu } => {
                if let Some(
                    ControlField::Secondary { func: FuncCodeSecondary::RespondUserData, .. },
                ) = ControlField::decode(control, Direction::Secondary) {
                    // Clear any pending request.
                    self.pending = None;
                    self.emit(Action::DeliverAsdu(asdu));
                } else {
                    self.emit_link_error(Reason::ProtocolError);
                }
            },
        }
    }

    fn master_on_secondary_fixed(&mut self, cf: ControlField, now: Instant)
        requires
            cf is Secondary,
        ensures
            final(self)@ == old(self)@.master_on_secondary_fixed(cf->Secondary_func, now),
    {
        match cf {
            ControlField::Secondary { func: FuncCodeSecondary::Ack, .. } => {
                if self.pending.is_some() {
                    self.pending = None;
                    if self.link_state == LinkState::NotReady {
                        self.transition_link(LinkState::Ready);
                    }
                    self.maybe_flush_queue(now);
                }
            },
            ControlField::Secondary { func: FuncCodeSecondary::Nack, .. } => {
                self.pending = None;
                self.emit_link_error(Reason::Nack);
            },
            ControlField::Secondary { func: FuncCodeSecondary::StatusOfLink, .. } => {
                // A status response counts as an ACK.
                self.pending = None;
                if self.link_state == LinkState::NotReady {
                    self.transition_link(LinkState::Ready);
                }
            },
            ControlField::Secondary { func: FuncCodeSecondary::NackNoData, .. } => {
                // Outstation has no data for the request: end of exchange.
                self.pending = None;
            },
            _ => {
                self.emit_link_error(Reason::ProtocolError);
            },
        }
    }

    // ---- Outstation receive path ------------------------------------------

    fn outstation_on_frame(&mut self, frame: Frame101)
        ensures
            final(self)@ == old(self)@.outstation_on_frame(frame@),
    {
        match frame {
            Frame101::Fixed { control, address } => {
                if address != self.config.link_address {
                    // Not addressed to us; ignore.
                    return;
                }
                // An unknown function code is ignored silently per the standard.
                if let Some(cf) = ControlField::decode(control, Direction::Primary) {
                    self.outstation_on_primary_fixed(cf);
                }
            },
            Frame101::Variable { control, address, asdu } => {
                if address != self.config.link_address {
                    return;
                }
                if let Some(cf) = ControlField::decode(control, Direction::Primary) {
                    self.outstation_on_primary_variable(cf, asdu);
                }
            },
            // Single-char frames (ACK/NACK) are only sent by secondary; ignore.
            Frame101::Single(_) => {},
        }
    }

    fn outstation_on_primary_fixed(&mut self, cf: ControlField)
        requires
            cf is Primary,
        ensures
            final(self)@ == old(self)@.outstation_on_primary_fixed(cf->Primary_func),
    {
        match cf {
            ControlField::Primary { func: FuncCodePrimary::ResetRemoteLink, .. } => {
                self.last_fcb_seen = None;
                self.send_ack();
                self.transition_link(LinkState::Ready);
            },
            ControlField::Primary { func: FuncCodePrimary::RequestStatus, .. } => {
                self.send_status();
            },
            ControlField::Primary { func: FuncCodePrimary::RequestUserDataClass1, .. }
            | ControlField::Primary { func: FuncCodePrimary::RequestUserDataClass2, .. } => {
                // Serve the next queued ASDU if available; otherwise NACK.
                let ghost before = self@;
                if let Some(asdu) = self.send_queue.pop_front() {
                    assert(self@.send_queue =~= before.send_queue.skip(1));
                    self.send_respond_user_data(asdu);
                } else {
                    self.send_nack_no_data();
                }
            },
            _ => {
                // Ignore unrecognised primary fixed frames.
            },
        }
    }

    fn outstation_on_primary_variable(&mut self, cf: ControlField, asdu: Vec<u8>)
        requires
            cf is Primary,
        ensures
            final(self)@ == old(self)@.outstation_on_primary_variable(
                cf->fcb,
                cf->fcv,
                cf->Primary_func,
                asdu@,
            ),
    {
        match cf {
            ControlField::Primary { fcb, fcv, func: FuncCodePrimary::UserDataConfirmed } => {
                // FCB duplicate detection: if FCV=1 and FCB matches last seen,
                // this is a retransmission - still ACK but don't deliver again.
                let duplicate: bool = match self.last_fcb_seen {
                    Some(seen) => fcv && seen == fcb,
                    None => false,
                };
                if fcv {
                    self.last_fcb_seen = Some(fcb);
                }
                self.send_ack();
                if !duplicate {
                    self.emit(Action::DeliverAsdu(asdu));
                }
            },
            ControlField::Primary { func: FuncCodePrimary::UserDataUnconfirmed, .. } => {
                // No ACK required.
                self.emit(Action::DeliverAsdu(asdu));
            },
            _ => {
                // Ignore.
            },
        }
    }

    // ---- Send path -----------------------------------------------------------

    fn on_send_user_data(&mut self, asdu: Vec<u8>, now: Instant)
        ensures
            final(self)@ == old(self)@.on_send_user_data(asdu@, now),
    {
        self.send_queue.push_back(asdu);
        assert(self@.send_queue =~= old(self)@.send_queue.push(asdu@));
        match self.role {
            Role::Master => self.maybe_flush_queue(now),
            // The outstation's data goes out in response to a poll.
            Role::Outstation => {},
        }
    }

    fn on_request_status(&mut self, now: Instant)
        ensures
            final(self)@ == old(self)@.on_request(FuncCodePrimary::RequestStatus, now),
    {
        self.on_request_class(FuncCodePrimary::RequestStatus, now)
    }

    fn on_reset_remote_link(&mut self, now: Instant)
        ensures
            final(self)@ == old(self)@.on_reset_remote_link(now),
    {
        if self.role != Role::Master {
            return;
        }
        // Cancel any in-flight send.
        self.pending = None;
        let frame = self.build_fixed(
            ControlField::Primary {
                fcb: false,
                fcv: false,
                func: FuncCodePrimary::ResetRemoteLink,
            },
        );
        self.send_with_confirm(frame, now);
    }

    fn on_request_class(&mut self, func: FuncCodePrimary, now: Instant)
        ensures
            final(self)@ == old(self)@.on_request(func, now),
    {
        if self.role != Role::Master {
            return;
        }
        if self.pending.is_some() {
            return;
        }
        let frame = self.build_fixed(ControlField::Primary { fcb: false, fcv: false, func });
        self.send_with_confirm(frame, now);
    }

    // ---- Timer logic -------------------------------------------------------

    fn run_timers(&mut self, now: Instant)
        ensures
            final(self)@ == old(self)@.run_timers(now),
    {
        if let Some(pending) = self.pending.take() {
            if !now.has_reached(pending.sent_at, self.config.timeout) {
                self.pending = Some(pending);
            } else if pending.attempts > self.config.max_retries as u16 {
                self.transition_link(LinkState::Failed);
                self.emit_link_error(Reason::AckTimeout);
            } else {
                // Retransmit.
                self.emit(Action::SendFrame(pending.frame.duplicate()));
                self.pending = Some(
                    PendingSend {
                        frame: pending.frame,
                        sent_at: now,
                        attempts: pending.attempts + 1,
                    },
                );
            }
        }
    }

    // ---- Helpers -----------------------------------------------------------

    fn maybe_flush_queue(&mut self, now: Instant)
        ensures
            final(self)@ == old(self)@.flush(now),
    {
        if self.pending.is_some() {
            return;
        }
        let ghost before = self@;
        if let Some(asdu) = self.send_queue.pop_front() {
            assert(self@.send_queue =~= before.send_queue.skip(1));
            let cf = ControlField::Primary {
                fcb: self.fcb,
                fcv: true,
                func: FuncCodePrimary::UserDataConfirmed,
            };
            let frame = Frame101::Variable {
                control: cf.encode(),
                address: self.config.link_address,
                asdu,
            };
            self.send_with_confirm(frame, now);
            // Toggle FCB for the next send.
            self.fcb = !self.fcb;
        }
    }

    fn send_with_confirm(&mut self, frame: Frame101, now: Instant)
        ensures
            final(self)@ == old(self)@.send_with_confirm(frame@, now),
    {
        self.emit(Action::SendFrame(frame.duplicate()));
        self.pending = Some(PendingSend { frame, sent_at: now, attempts: 1 });
    }

    fn build_fixed(&self, cf: ControlField) -> (frame: Frame101)
        ensures
            frame@ == self@.fixed(cf),
    {
        Frame101::Fixed { control: cf.encode(), address: self.config.link_address }
    }

    fn send_ack(&mut self)
        ensures
            final(self)@ == old(self)@.reply(FuncCodeSecondary::Ack),
    {
        self.send_reply(FuncCodeSecondary::Ack)
    }

    fn send_status(&mut self)
        ensures
            final(self)@ == old(self)@.reply(FuncCodeSecondary::StatusOfLink),
    {
        self.send_reply(FuncCodeSecondary::StatusOfLink)
    }

    fn send_respond_user_data(&mut self, asdu: Vec<u8>)
        ensures
            final(self)@ == old(self)@.emit(
                ActionModel::SendFrame(
                    old(self)@.variable(
                        ControlField::Secondary {
                            acd: false,
                            dfc: false,
                            func: FuncCodeSecondary::RespondUserData,
                        },
                        asdu@,
                    ),
                ),
            ),
    {
        let cf = ControlField::Secondary {
            acd: false,
            dfc: false,
            func: FuncCodeSecondary::RespondUserData,
        };
        let frame = Frame101::Variable {
            control: cf.encode(),
            address: self.config.link_address,
            asdu,
        };
        self.emit(Action::SendFrame(frame));
    }

    fn send_nack_no_data(&mut self)
        ensures
            final(self)@ == old(self)@.reply(FuncCodeSecondary::NackNoData),
    {
        self.send_reply(FuncCodeSecondary::NackNoData)
    }

    fn send_reply(&mut self, func: FuncCodeSecondary)
        ensures
            final(self)@ == old(self)@.reply(func),
    {
        let frame = self.build_fixed(ControlField::Secondary { acd: false, dfc: false, func });
        self.emit(Action::SendFrame(frame));
    }

    fn transition_link(&mut self, new_state: LinkState)
        ensures
            final(self)@ == old(self)@.enter(new_state),
    {
        if self.link_state != new_state {
            self.link_state = new_state;
            self.emit(Action::LinkStateChanged(new_state));
        }
    }

    fn emit_link_error(&mut self, reason: Reason)
        ensures
            final(self)@ == old(self)@.fail(reason),
    {
        self.emit(Action::LinkError(reason));
    }

    fn emit(&mut self, action: Action)
        ensures
            final(self)@ == old(self)@.emit(action@),
    {
        self.actions.push_back(action);
        assert(self@.actions =~= old(self)@.actions.push(action@));
    }
}

} // verus!
