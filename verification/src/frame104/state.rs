//! IEC 60870-5-104 connection state machine (sans-I/O).
//!
//! The state machine consumes inputs ([`Input`] - incoming APDUs, user
//! requests, timer firings) and emits a queue of [`Action`]s for the I/O
//! layer to execute. It owns *all* per-connection mutable state including
//! sequence numbers, the send/receive windows, and the timer deadlines.
//!
//! Every entry point accepts the current instant explicitly, so the machine
//! is deterministic: [`handled`] says what it does.

use vstd::prelude::*;
use std::collections::VecDeque;
use crate::frame104::apdu::{Apdu, ApduModel, UFunction};
use crate::frame104::seq::{lemma_seq_no_ext, seq_distance, seq_plus, SeqNo};
use crate::time::{Duration, Instant};

verus! {

/// Connection role. Determines who initiates the STARTDT handshake.
#[derive(Debug, Clone, Copy, PartialEq, Eq, Structural)]
pub enum Role {
    /// Controlling station - the side that sends STARTDT_act.
    Client,
    /// Controlled station - replies to STARTDT_act with STARTDT_con.
    Server,
}

/// Connection state machine configuration. Defaults match the IEC
/// 60870-5-104 standard values.
#[derive(Debug, Clone, Copy)]
pub struct Config {
    /// Maximum unacknowledged outgoing I-frames before send is blocked.
    pub k: u16,
    /// Maximum unacknowledged incoming I-frames before we *must* ACK.
    pub w: u16,
    /// `t1` - time to wait for an ACK of a sent I- or U-frame.
    pub t1: Duration,
    /// `t2` - time after which we proactively ACK pending I-frames.
    /// Must be strictly less than `t1`.
    pub t2: Duration,
    /// `t3` - idle timeout. If no APDU is sent or received for this long
    /// we send TESTFR_act to keep the connection alive.
    pub t3: Duration,
}

impl Default for Config {
    fn default() -> (c: Self)
        ensures
            c.k == 12,
            c.w == 8,
            c.t1.nanos == 15_000_000_000,
            c.t2.nanos == 10_000_000_000,
            c.t3.nanos == 20_000_000_000,
    {
        Config {
            k: 12,
            w: 8,
            t1: Duration::from_secs(15),
            t2: Duration::from_secs(10),
            t3: Duration::from_secs(20),
        }
    }
}

/// High-level connection state.
#[derive(Debug, Clone, Copy, PartialEq, Eq, Structural)]
pub enum State {
    /// Initial state - TCP just opened, STARTDT not yet exchanged.
    Stopped,
    /// STARTDT_act has been sent (client) and we're waiting for STARTDT_con.
    /// Only reachable on the client side.
    Starting,
    /// Data transfer is active in both directions.
    Active,
    /// STOPDT_act has been sent, waiting for STOPDT_con plus all outstanding
    /// I-frame ACKs.
    Stopping,
    /// Connection has been closed by the state machine; the I/O layer should
    /// tear down the underlying transport.
    Closed,
}

/// Inputs to the state machine.
#[derive(Debug, Clone)]
pub enum Input {
    /// An APDU was decoded from the peer.
    Apdu(Apdu),
    /// The user wants to enable data transfer (client side only).
    StartDt,
    /// The user wants to stop data transfer.
    StopDt,
    /// The user has an ASDU to send.
    SendAsdu(Vec<u8>),
    /// Time has advanced; check for timer expirations.
    Tick,
}

/// Actions emitted by the state machine for the I/O layer to perform.
#[derive(Debug, Clone, PartialEq, Eq)]
pub enum Action {
    /// Write the given APDU to the transport.
    SendApdu(Apdu),
    /// Deliver an ASDU to the application.
    DeliverAsdu(Vec<u8>),
    /// State has changed; report to the user / hook.
    StateChanged(State),
    /// Connection should be torn down.
    Disconnect(DisconnectReason),
}

/// Why the connection should be torn down.
#[derive(Debug, Clone, Copy, PartialEq, Eq, Structural)]
pub enum DisconnectReason {
    /// `t1` expired without an ACK from the peer.
    AckTimeout,
    /// Protocol error (sequence-number mismatch, malformed frame, ...).
    ProtocolError,
    /// User requested STOPDT and outstanding frames are now drained.
    StoppedCleanly,
}

// ---------------------------------------------------------------------------
// What the state machine does
// ---------------------------------------------------------------------------

/// What an [`Input`] holds.
pub enum InputModel {
    Apdu(ApduModel),
    StartDt,
    StopDt,
    SendAsdu(Seq<u8>),
    Tick,
}

impl View for Input {
    type V = InputModel;

    open spec fn view(&self) -> InputModel {
        match self {
            Input::Apdu(apdu) => InputModel::Apdu(apdu@),
            Input::StartDt => InputModel::StartDt,
            Input::StopDt => InputModel::StopDt,
            Input::SendAsdu(asdu) => InputModel::SendAsdu(asdu@),
            Input::Tick => InputModel::Tick,
        }
    }
}

/// What an [`Action`] holds.
pub enum ActionModel {
    SendApdu(ApduModel),
    DeliverAsdu(Seq<u8>),
    StateChanged(State),
    Disconnect(DisconnectReason),
}

impl View for Action {
    type V = ActionModel;

    open spec fn view(&self) -> ActionModel {
        match self {
            Action::SendApdu(apdu) => ActionModel::SendApdu(apdu@),
            Action::DeliverAsdu(asdu) => ActionModel::DeliverAsdu(asdu@),
            Action::StateChanged(state) => ActionModel::StateChanged(*state),
            Action::Disconnect(reason) => ActionModel::Disconnect(*reason),
        }
    }
}

/// The views of a list of actions.
pub open spec fn actions_view(s: Seq<Action>) -> Seq<ActionModel> {
    Seq::new(s.len(), |i: int| s[i]@)
}

/// The views of a list of ASDUs.
pub open spec fn asdus_view(s: Seq<Vec<u8>>) -> Seq<Seq<u8>> {
    Seq::new(s.len(), |i: int| s[i]@)
}

/// The views of a list of sent frames.
pub open spec fn sent_view(s: Seq<(SeqNo, Instant)>) -> Seq<(int, Instant)> {
    Seq::new(s.len(), |i: int| (s[i].0@, s[i].1))
}

/// Everything that a connection remembers, together with the actions that it
/// has emitted and not yet handed out.
#[verifier::ext_equal]
pub struct ConnectionModel {
    pub role: Role,
    pub config: Config,
    pub state: State,
    /// N(S) of the next I-frame that is sent.
    pub send_next: int,
    /// N(S) that is expected of the next I-frame received.
    pub recv_next: int,
    /// Sent I-frames that are not acknowledged, oldest first, with the time
    /// each was sent.
    pub sent: Seq<(int, Instant)>,
    /// Received I-frames that have not been acknowledged.
    pub unacked_recv: int,
    pub last_recv_iframe: Option<Instant>,
    pub last_send_any: Option<Instant>,
    pub last_recv_any: Option<Instant>,
    /// When the TESTFR_act was sent that has not been confirmed.
    pub test_sent: Option<Instant>,
    /// When the STARTDT_act or STOPDT_act was sent that has not been
    /// confirmed.
    pub act_sent: Option<Instant>,
    /// ASDUs that wait to be sent, in order.
    pub pending: Seq<Seq<u8>>,
    pub actions: Seq<ActionModel>,
}

/// I-frames are exchanged in these states.
pub open spec fn transfers(state: State) -> bool {
    state is Active || state is Stopping
}

/// N(R) = `nr` acknowledges the frame that was sent with N(S) = `seq`: `nr` is
/// ahead of it by less than half the number space.
pub open spec fn acks(nr: int, seq: int) -> bool {
    0 < seq_distance(seq, nr) <= SeqNo::MAX / 2
}

/// What is left unacknowledged of `sent` after N(R) = `nr`.
pub open spec fn unacked(sent: Seq<(int, Instant)>, nr: int) -> Seq<(int, Instant)>
    decreases sent.len(),
{
    if sent.len() > 0 && acks(nr, sent[0].0) {
        unacked(sent.skip(1), nr)
    } else {
        sent
    }
}

/// The later of two optional points in time.
pub open spec fn latest(a: Option<Instant>, b: Option<Instant>) -> Option<Instant> {
    match (a, b) {
        (Some(x), Some(y)) => if x.nanos >= y.nanos {
            Some(x)
        } else {
            Some(y)
        },
        (Some(x), None) => Some(x),
        (None, y) => y,
    }
}

impl ConnectionModel {
    pub open spec fn emit(self, action: ActionModel) -> ConnectionModel {
        ConnectionModel { actions: self.actions.push(action), ..self }
    }

    /// A U-frame goes out.
    pub open spec fn send_u(self, function: UFunction, now: Instant) -> ConnectionModel {
        ConnectionModel {
            last_send_any: Some(now),
            ..self.emit(ActionModel::SendApdu(ApduModel::U { function }))
        }
    }

    /// Entering a state is reported, staying in it is not.
    pub open spec fn enter(self, state: State) -> ConnectionModel {
        if self.state == state {
            self
        } else {
            ConnectionModel { state, ..self }.emit(ActionModel::StateChanged(state))
        }
    }

    /// The connection is to be torn down, and is closed.
    pub open spec fn abort(self, reason: DisconnectReason) -> ConnectionModel {
        self.emit(ActionModel::Disconnect(reason)).enter(State::Closed)
    }

    /// The connection has been stopped, and is to be torn down.
    pub open spec fn finish(self) -> ConnectionModel {
        self.enter(State::Stopped).emit(
            ActionModel::Disconnect(DisconnectReason::StoppedCleanly),
        )
    }

    /// An ASDU goes out in an I-frame, which also acknowledges everything
    /// received.
    pub open spec fn send_i(self, asdu: Seq<u8>, now: Instant) -> ConnectionModel {
        ConnectionModel {
            send_next: seq_plus(self.send_next, 1),
            sent: self.sent.push((self.send_next, now)),
            unacked_recv: 0,
            last_send_any: Some(now),
            ..self.emit(
                ActionModel::SendApdu(
                    ApduModel::I { send: self.send_next, recv: self.recv_next, asdu },
                ),
            )
        }
    }

    /// An S-frame goes out and acknowledges everything received.
    pub open spec fn send_s(self, now: Instant) -> ConnectionModel {
        ConnectionModel {
            unacked_recv: 0,
            last_send_any: Some(now),
            ..self.emit(ActionModel::SendApdu(ApduModel::S { recv: self.recv_next }))
        }
    }

    /// Waiting ASDUs go out as long as the send window has room.
    pub open spec fn flush(self, now: Instant) -> ConnectionModel
        decreases self.pending.len(),
    {
        if self.pending.len() > 0 && self.sent.len() < self.config.k {
            ConnectionModel { pending: self.pending.skip(1), ..self }.send_i(
                self.pending[0],
                now,
            ).flush(now)
        } else {
            self
        }
    }

    /// The peer has acknowledged what was sent before `nr`.
    pub open spec fn acknowledge(self, nr: int, now: Instant) -> ConnectionModel {
        ConnectionModel { sent: unacked(self.sent, nr), ..self }.flush(now)
    }

    /// STARTDT is confirmed: data transfer is on.
    pub open spec fn started(self) -> ConnectionModel {
        ConnectionModel { act_sent: None, ..self }.enter(State::Active)
    }

    pub open spec fn on_u_frame(self, function: UFunction, now: Instant) -> ConnectionModel {
        match function {
            UFunction::TestFrAct => self.send_u(UFunction::TestFrCon, now),
            UFunction::TestFrCon => ConnectionModel { test_sent: None, ..self },
            UFunction::StartDtCon => if self.role is Client && self.state is Starting {
                self.started().flush(now)
            } else {
                self.abort(DisconnectReason::ProtocolError)
            },
            UFunction::StartDtAct => if self.role is Server && self.state is Stopped {
                self.send_u(UFunction::StartDtCon, now).enter(State::Active)
            } else {
                self.abort(DisconnectReason::ProtocolError)
            },
            UFunction::StopDtAct => if self.role is Server {
                self.send_u(UFunction::StopDtCon, now).enter(State::Stopped)
            } else {
                self.abort(DisconnectReason::ProtocolError)
            },
            UFunction::StopDtCon => if self.role is Client && self.state is Stopping {
                let confirmed = ConnectionModel { act_sent: None, ..self };
                if self.sent.len() == 0 {
                    confirmed.finish()
                } else {
                    confirmed
                }
            } else {
                self.abort(DisconnectReason::ProtocolError)
            },
        }
    }

    /// An I-frame has come in its turn.
    pub open spec fn counted(self, now: Instant) -> ConnectionModel {
        ConnectionModel {
            recv_next: seq_plus(self.recv_next, 1),
            unacked_recv: if self.unacked_recv < u16::MAX {
                self.unacked_recv + 1
            } else {
                self.unacked_recv
            },
            last_recv_iframe: Some(now),
            ..self
        }
    }

    pub open spec fn on_i_frame(
        self,
        send: int,
        recv: int,
        asdu: Seq<u8>,
        now: Instant,
    ) -> ConnectionModel {
        if !transfers(self.state) || send != self.recv_next {
            self.abort(DisconnectReason::ProtocolError)
        } else {
            let delivered = self.counted(now).acknowledge(recv, now).emit(
                ActionModel::DeliverAsdu(asdu),
            );
            if delivered.unacked_recv >= self.config.w {
                delivered.send_s(now)
            } else {
                delivered
            }
        }
    }

    pub open spec fn on_apdu(self, apdu: ApduModel, now: Instant) -> ConnectionModel {
        let heard = ConnectionModel { last_recv_any: Some(now), ..self };
        match apdu {
            ApduModel::U { function } => heard.on_u_frame(function, now),
            ApduModel::S { recv } => if transfers(self.state) {
                heard.acknowledge(recv, now)
            } else {
                heard
            },
            ApduModel::I { send, recv, asdu } => heard.on_i_frame(send, recv, asdu, now),
        }
    }

    pub open spec fn on_user_startdt(self, now: Instant) -> ConnectionModel {
        if self.role is Client && self.state is Stopped {
            ConnectionModel { act_sent: Some(now), ..self }.send_u(
                UFunction::StartDtAct,
                now,
            ).enter(State::Starting)
        } else {
            self
        }
    }

    pub open spec fn on_user_stopdt(self, now: Instant) -> ConnectionModel {
        if !(self.state is Active) {
            self
        } else if self.role is Client {
            ConnectionModel { act_sent: Some(now), ..self }.send_u(
                UFunction::StopDtAct,
                now,
            ).enter(State::Stopping)
        } else {
            self.enter(State::Stopped)
        }
    }

    pub open spec fn on_user_send(self, asdu: Seq<u8>, now: Instant) -> ConnectionModel {
        if self.state is Active && self.sent.len() < self.config.k {
            self.send_i(asdu, now)
        } else {
            ConnectionModel { pending: self.pending.push(asdu), ..self }
        }
    }

    /// `t1` has run out on the oldest unacknowledged I-frame, or on a U-frame
    /// that waits for its confirmation.
    pub open spec fn ack_overdue(self, now: Instant) -> bool {
        ||| self.sent.len() > 0 && now.reached(self.sent[0].1, self.config.t1)
        ||| self.test_sent matches Some(t) && now.reached(t, self.config.t1)
        ||| self.act_sent matches Some(t) && now.reached(t, self.config.t1)
    }

    /// `t2` has run out on received I-frames.
    pub open spec fn ack_due(self, now: Instant) -> bool {
        &&& self.unacked_recv > 0
        &&& self.last_recv_iframe matches Some(t)
        &&& now.reached(t, self.config.t2)
    }

    /// `t3` has run out without any frame, and no test is under way.
    pub open spec fn test_due(self, now: Instant) -> bool {
        &&& transfers(self.state)
        &&& self.test_sent is None
        &&& latest(self.last_send_any, self.last_recv_any) matches Some(t)
        &&& now.reached(t, self.config.t3)
    }

    /// STOPDT is confirmed and nothing is outstanding.
    pub open spec fn drained(self) -> bool {
        &&& self.state is Stopping
        &&& self.act_sent is None
        &&& self.sent.len() == 0
        &&& self.pending.len() == 0
    }

    pub open spec fn run_timers(self, now: Instant) -> ConnectionModel {
        if self.ack_overdue(now) {
            self.abort(DisconnectReason::AckTimeout)
        } else {
            let acked = if self.ack_due(now) {
                self.send_s(now)
            } else {
                self
            };
            let tested = if acked.test_due(now) {
                ConnectionModel {
                    test_sent: Some(now),
                    ..acked.send_u(UFunction::TestFrAct, now)
                }
            } else {
                acked
            };
            if tested.drained() {
                tested.finish()
            } else {
                tested
            }
        }
    }

    /// What the input itself brings about, before the timers are looked at.
    pub open spec fn taken(self, input: InputModel, now: Instant) -> ConnectionModel {
        match input {
            InputModel::Apdu(apdu) => self.on_apdu(apdu, now),
            InputModel::StartDt => self.on_user_startdt(now),
            InputModel::StopDt => self.on_user_stopdt(now),
            InputModel::SendAsdu(asdu) => self.on_user_send(asdu, now),
            InputModel::Tick => self,
        }
    }
}

/// The connection after an input, with the actions that it asks for.
pub open spec fn handled(c: ConnectionModel, input: InputModel, now: Instant) -> ConnectionModel {
    c.taken(input, now).run_timers(now)
}

/// What flushing leaves alone.
pub proof fn lemma_flush_keeps(c: ConnectionModel, now: Instant)
    ensures
        c.flush(now).role == c.role,
        c.flush(now).config == c.config,
        c.flush(now).state == c.state,
        c.flush(now).recv_next == c.recv_next,
        c.flush(now).last_recv_iframe == c.last_recv_iframe,
        c.flush(now).last_recv_any == c.last_recv_any,
        c.flush(now).test_sent == c.test_sent,
        c.flush(now).act_sent == c.act_sent,
    decreases c.pending.len(),
{
    if c.pending.len() > 0 && c.sent.len() < c.config.k {
        lemma_flush_keeps(
            (ConnectionModel { pending: c.pending.skip(1), ..c }).send_i(c.pending[0], now),
            now,
        );
    }
}

// ---------------------------------------------------------------------------
// The state machine
// ---------------------------------------------------------------------------

/// IEC 60870-5-104 connection state machine.
#[derive(Debug)]
pub struct Connection {
    role: Role,
    config: Config,
    state: State,
    send_next: SeqNo,
    recv_next: SeqNo,
    /// Send-side window: sent but unacknowledged frames (in send order).
    sent: VecDeque<(SeqNo, Instant)>,
    /// Number of received I-frames not yet acknowledged via an S-frame
    /// (or piggy-backed I-frame N(R)).
    unacked_recv: u16,
    /// Timestamp of the most recent received I-frame (resets the t2 deadline).
    last_recv_iframe: Option<Instant>,
    /// Timestamp of the most recent successful send (any APDU; resets t3).
    last_send_any: Option<Instant>,
    /// Timestamp of the most recent received APDU (resets t3 idle-test).
    last_recv_any: Option<Instant>,
    /// If a TESTFR_act has been sent and is awaiting confirm, this is when.
    test_sent: Option<Instant>,
    /// If a STARTDT_act or STOPDT_act has been sent and is awaiting confirm,
    /// this is when.
    act_sent: Option<Instant>,
    /// Pending ASDUs queued because the send window is full or data transfer
    /// is off.
    pending: VecDeque<Vec<u8>>,
    /// Actions to emit on the next drain.
    actions: VecDeque<Action>,
}

impl View for Connection {
    type V = ConnectionModel;

    closed spec fn view(&self) -> ConnectionModel {
        ConnectionModel {
            role: self.role,
            config: self.config,
            state: self.state,
            send_next: self.send_next@,
            recv_next: self.recv_next@,
            sent: sent_view(self.sent@),
            unacked_recv: self.unacked_recv as int,
            last_recv_iframe: self.last_recv_iframe,
            last_send_any: self.last_send_any,
            last_recv_any: self.last_recv_any,
            test_sent: self.test_sent,
            act_sent: self.act_sent,
            pending: asdus_view(self.pending@),
            actions: actions_view(self.actions@),
        }
    }
}

/// A connection that has just been opened.
pub open spec fn opened(role: Role, config: Config) -> ConnectionModel {
    ConnectionModel {
        role,
        config,
        state: State::Stopped,
        send_next: 0,
        recv_next: 0,
        sent: Seq::empty(),
        unacked_recv: 0,
        last_recv_iframe: None,
        last_send_any: None,
        last_recv_any: None,
        test_sent: None,
        act_sent: None,
        pending: Seq::empty(),
        actions: Seq::empty(),
    }
}

impl Connection {
    pub fn new(role: Role, config: Config) -> (c: Self)
        ensures
            c@ == opened(role, config),
    {
        Connection {
            role,
            config,
            state: State::Stopped,
            send_next: SeqNo::new(0),
            recv_next: SeqNo::new(0),
            sent: VecDeque::new(),
            unacked_recv: 0,
            last_recv_iframe: None,
            last_send_any: None,
            last_recv_any: None,
            test_sent: None,
            act_sent: None,
            pending: VecDeque::new(),
            actions: VecDeque::new(),
        }
    }

    pub fn role(&self) -> (r: Role)
        ensures
            r == self@.role,
    {
        self.role
    }

    pub fn state(&self) -> (s: State)
        ensures
            s == self@.state,
    {
        self.state
    }

    pub fn config(&self) -> (c: &Config)
        ensures
            *c == self@.config,
    {
        &self.config
    }

    /// Drive the state machine with an input. Returns the sequence of
    /// actions that should be performed by the I/O layer.
    pub fn handle(&mut self, input: Input, now: Instant) -> (actions: Vec<Action>)
        ensures
            actions_view(actions@) == handled(old(self)@, input@, now).actions,
            final(self)@ == (ConnectionModel {
                actions: Seq::empty(),
                ..handled(old(self)@, input@, now)
            }),
    {
        match input {
            Input::Apdu(apdu) => self.on_apdu(apdu, now),
            Input::StartDt => self.on_user_startdt(now),
            Input::StopDt => self.on_user_stopdt(now),
            Input::SendAsdu(asdu) => self.on_user_send(asdu, now),
            Input::Tick => {},
        }
        self.run_timers(now);
        self.drain()
    }

    fn drain(&mut self) -> (out: Vec<Action>)
        ensures
            actions_view(out@) == old(self)@.actions,
            final(self)@ == (ConnectionModel { actions: Seq::empty(), ..old(self)@ }),
    {
        let mut out: Vec<Action> = Vec::new();
        let ghost all = self.actions@;
        while self.actions.len() > 0
            invariant
                out@ + self.actions@ == all,
                self@ == (ConnectionModel { actions: actions_view(self.actions@), ..old(self)@ }),
            decreases self.actions@.len(),
        {
            if let Some(action) = self.actions.pop_front() {
                out.push(action);
            }
            assert(out@ + self.actions@ =~= all);
        }
        assert(out@ =~= all);
        out
    }

    // -----------------------------------------------------------------
    // APDU handling
    // -----------------------------------------------------------------

    fn on_apdu(&mut self, apdu: Apdu, now: Instant)
        ensures
            final(self)@ == old(self)@.on_apdu(apdu@, now),
    {
        self.last_recv_any = Some(now);
        match apdu {
            Apdu::U { function } => self.on_u_frame(function, now),
            Apdu::S { recv } => {
                if matches!(self.state, State::Active | State::Stopping) {
                    self.acknowledge(recv, now);
                }
            },
            Apdu::I { send, recv, asdu } => self.on_i_frame(send, recv, asdu, now),
        }
    }

    fn on_u_frame(&mut self, function: UFunction, now: Instant)
        ensures
            final(self)@ == old(self)@.on_u_frame(function, now),
    {
        match (function, self.role, self.state) {
            // Client receives STARTDT_con
            (UFunction::StartDtCon, Role::Client, State::Starting) => {
                self.act_sent = None;
                self.transition(State::Active);
                self.flush_pending(now);
            },
            // Server receives STARTDT_act: reply with con and go active
            (UFunction::StartDtAct, Role::Server, State::Stopped) => {
                self.emit_u(UFunction::StartDtCon, now);
                self.transition(State::Active);
            },
            // Symmetric STOPDT handshake
            (UFunction::StopDtAct, Role::Server, _) => {
                self.emit_u(UFunction::StopDtCon, now);
                self.transition(State::Stopped);
            },
            (UFunction::StopDtCon, Role::Client, State::Stopping) => {
                self.act_sent = None;
                if self.sent.len() == 0 {
                    self.transition(State::Stopped);
                    self.emit(Action::Disconnect(DisconnectReason::StoppedCleanly));
                }
            },
            // TESTFR keepalive
            (UFunction::TestFrAct, _, _) => {
                self.emit_u(UFunction::TestFrCon, now);
            },
            (UFunction::TestFrCon, _, _) => {
                self.test_sent = None;
            },
            // Anything else is a protocol error
            _ => {
                self.emit(Action::Disconnect(DisconnectReason::ProtocolError));
                self.transition(State::Closed);
            },
        }
    }

    fn on_i_frame(&mut self, send: SeqNo, recv: SeqNo, asdu: Vec<u8>, now: Instant)
        ensures
            final(self)@ == old(self)@.on_i_frame(send@, recv@, asdu@, now),
    {
        broadcast use lemma_seq_no_ext;

        if !matches!(self.state, State::Active | State::Stopping) {
            // I-frames outside of the data-transfer phase are illegal.
            self.emit(Action::Disconnect(DisconnectReason::ProtocolError));
            self.transition(State::Closed);
            return;
        }
        if send != self.recv_next {
            // Out-of-sequence I-frame. The standard requires immediate
            // disconnect; the peer has lost track.
            self.emit(Action::Disconnect(DisconnectReason::ProtocolError));
            self.transition(State::Closed);
            return;
        }
        self.recv_next = self.recv_next.next();
        self.unacked_recv = self.unacked_recv.saturating_add(1);
        self.last_recv_iframe = Some(now);
        proof {
            lemma_flush_keeps(
                ConnectionModel { sent: unacked(self@.sent, recv@), ..self@ },
                now,
            );
        }
        self.acknowledge(recv, now);
        self.emit(Action::DeliverAsdu(asdu));
        if self.unacked_recv >= self.config.w {
            self.emit_supervisory(now);
        }
    }

    /// Process an incoming N(R) - peer has acknowledged everything sent with
    /// `N(S) < n_r`. Drop those entries from the `sent` queue.
    fn acknowledge(&mut self, nr: SeqNo, now: Instant)
        ensures
            final(self)@ == old(self)@.acknowledge(nr@, now),
    {
        let mut more: bool = true;
        while more
            invariant
                self@ == (ConnectionModel { sent: self@.sent, ..old(self)@ }),
                unacked(self@.sent, nr@) == unacked(old(self)@.sent, nr@),
                !more ==> self@.sent == unacked(old(self)@.sent, nr@),
            decreases self@.sent.len() + if more { 1int } else { 0int },
        {
            if self.sent.len() == 0 {
                more = false;
            } else {
                // A distance of 0 means that the peer expects this very frame
                // next; it is not acknowledged.
                let d: u16 = self.sent[0].0.distance(nr);
                if d == 0 || d > SeqNo::MAX / 2 {
                    more = false;
                } else {
                    let ghost before = self@.sent;
                    let _ = self.sent.pop_front();
                    assert(self@.sent =~= before.skip(1));
                }
            }
        }
        // The window may have room now.
        self.flush_pending(now);
    }

    fn flush_pending(&mut self, now: Instant)
        ensures
            final(self)@ == old(self)@.flush(now),
    {
        while self.pending.len() > 0 && self.sent.len() < self.config.k as usize
            invariant
                self@.flush(now) == old(self)@.flush(now),
            decreases self@.pending.len(),
        {
            let ghost before = self@;
            if let Some(asdu) = self.pending.pop_front() {
                assert(self@ =~= (ConnectionModel { pending: before.pending.skip(1), ..before }));
                self.send_iframe(asdu, now);
            }
        }
    }

    // -----------------------------------------------------------------
    // User-initiated transitions
    // -----------------------------------------------------------------

    fn on_user_startdt(&mut self, now: Instant)
        ensures
            final(self)@ == old(self)@.on_user_startdt(now),
    {
        if self.role == Role::Client && self.state == State::Stopped {
            self.act_sent = Some(now);
            self.emit_u(UFunction::StartDtAct, now);
            self.transition(State::Starting);
        }
    }

    fn on_user_stopdt(&mut self, now: Instant)
        ensures
            final(self)@ == old(self)@.on_user_stopdt(now),
    {
        if self.state == State::Active {
            if self.role == Role::Client {
                self.act_sent = Some(now);
                self.emit_u(UFunction::StopDtAct, now);
                self.transition(State::Stopping);
            } else {
                // Server can't initiate STOPDT in the standard; just go
                // stopped locally and let the client notice on the next
                // attempt to use the link.
                self.transition(State::Stopped);
            }
        }
    }

    fn on_user_send(&mut self, asdu: Vec<u8>, now: Instant)
        ensures
            final(self)@ == old(self)@.on_user_send(asdu@, now),
    {
        if self.state != State::Active || self.sent.len() >= self.config.k as usize {
            // Before data transfer it is queued silently, and flushed when
            // STARTDT_con arrives.
            self.pending.push_back(asdu);
            assert(self@.pending =~= old(self)@.pending.push(asdu@));
            return;
        }
        self.send_iframe(asdu, now);
    }

    fn send_iframe(&mut self, asdu: Vec<u8>, now: Instant)
        ensures
            final(self)@ == old(self)@.send_i(asdu@, now),
    {
        let send = self.send_next;
        self.send_next = self.send_next.next();
        self.sent.push_back((send, now));
        assert(self@.sent =~= old(self)@.sent.push((send@, now)));
        self.unacked_recv = 0;
        self.last_send_any = Some(now);
        let recv = self.recv_next;
        self.emit(Action::SendApdu(Apdu::I { send, recv, asdu }));
    }

    fn emit_supervisory(&mut self, now: Instant)
        ensures
            final(self)@ == old(self)@.send_s(now),
    {
        let recv = self.recv_next;
        self.emit(Action::SendApdu(Apdu::S { recv }));
        self.unacked_recv = 0;
        self.last_send_any = Some(now);
    }

    fn emit_u(&mut self, function: UFunction, now: Instant)
        ensures
            final(self)@ == old(self)@.send_u(function, now),
    {
        self.emit(Action::SendApdu(Apdu::U { function }));
        self.last_send_any = Some(now);
    }

    fn emit(&mut self, action: Action)
        ensures
            final(self)@ == old(self)@.emit(action@),
    {
        self.actions.push_back(action);
        assert(self@.actions =~= old(self)@.actions.push(action@));
    }

    fn transition(&mut self, to: State)
        ensures
            final(self)@ == old(self)@.enter(to),
    {
        if self.state != to {
            self.state = to;
            self.emit(Action::StateChanged(to));
        }
    }

    // -----------------------------------------------------------------
    // Timer logic - invoked at the tail of every handle()
    // -----------------------------------------------------------------

    fn run_timers(&mut self, now: Instant)
        ensures
            final(self)@ == old(self)@.run_timers(now),
    {
        // t1: oldest sent I-frame must be acked within config.t1
        if self.sent.len() > 0 {
            let sent_at = self.sent[0].1;
            if now.has_reached(sent_at, self.config.t1) {
                self.emit(Action::Disconnect(DisconnectReason::AckTimeout));
                self.transition(State::Closed);
                return;
            }
        }
        // t1 on outstanding TESTFR_act
        if let Some(ts) = self.test_sent {
            if now.has_reached(ts, self.config.t1) {
                self.emit(Action::Disconnect(DisconnectReason::AckTimeout));
                self.transition(State::Closed);
                return;
            }
        }
        // t1 on outstanding STARTDT_act or STOPDT_act
        if let Some(ts) = self.act_sent {
            if now.has_reached(ts, self.config.t1) {
                self.emit(Action::Disconnect(DisconnectReason::AckTimeout));
                self.transition(State::Closed);
                return;
            }
        }
        // t2: acknowledge pending received I-frames
        if self.unacked_recv > 0 {
            if let Some(last) = self.last_recv_iframe {
                if now.has_reached(last, self.config.t2) {
                    self.emit_supervisory(now);
                }
            }
        }
        // t3: idle test
        if matches!(self.state, State::Active | State::Stopping) && self.test_sent.is_none() {
            if let Some(t) = later_of(self.last_send_any, self.last_recv_any) {
                if now.has_reached(t, self.config.t3) {
                    self.emit_u(UFunction::TestFrAct, now);
                    self.test_sent = Some(now);
                }
            }
        }
        // STOPDT confirmed and no outstanding frames: done.
        if self.state == State::Stopping && self.act_sent.is_none() && self.sent.len() == 0
            && self.pending.len() == 0 {
            self.transition(State::Stopped);
            self.emit(Action::Disconnect(DisconnectReason::StoppedCleanly));
        }
    }
}

fn later_of(a: Option<Instant>, b: Option<Instant>) -> (r: Option<Instant>)
    ensures
        r == latest(a, b),
{
    match (a, b) {
        (Some(x), Some(y)) => if x.nanos >= y.nanos {
            Some(x)
        } else {
            Some(y)
        },
        (Some(x), None) => Some(x),
        (None, y) => y,
    }
}

} // verus!
