//! What holds of every IEC 60870-5-104 connection, whatever happens to it.

use vstd::prelude::*;
use crate::frame104::apdu::{ApduModel, UFunction};
use crate::frame104::seq::{is_seq, seq_distance, seq_plus, SeqNo};
use crate::frame104::state::{
    acks, handled, lemma_flush_keeps, opened, transfers, unacked, ActionModel, Config,
    ConnectionModel, DisconnectReason, InputModel, Role, State,
};
use crate::time::Instant;

verus! {

// ---------------------------------------------------------------------------
// Reading a list of actions
// ---------------------------------------------------------------------------

/// The I-frames that a list of actions sends, in order: N(S), N(R) and ASDU.
pub open spec fn i_frames(actions: Seq<ActionModel>) -> Seq<(int, int, Seq<u8>)>
    decreases actions.len(),
{
    if actions.len() == 0 {
        Seq::empty()
    } else {
        let front = i_frames(actions.drop_last());
        match actions.last() {
            ActionModel::SendApdu(ApduModel::I { send, recv, asdu }) => front.push(
                (send, recv, asdu),
            ),
            _ => front,
        }
    }
}

/// The ASDUs that a list of actions sends, in order.
pub open spec fn sent_asdus(actions: Seq<ActionModel>) -> Seq<Seq<u8>> {
    Seq::new(i_frames(actions).len(), |i: int| i_frames(actions)[i].2)
}

/// The ASDUs that a list of actions delivers, in order.
pub open spec fn delivered(actions: Seq<ActionModel>) -> Seq<Seq<u8>>
    decreases actions.len(),
{
    if actions.len() == 0 {
        Seq::empty()
    } else {
        let front = delivered(actions.drop_last());
        match actions.last() {
            ActionModel::DeliverAsdu(asdu) => front.push(asdu),
            _ => front,
        }
    }
}

proof fn lemma_emit(c: ConnectionModel, a: ActionModel)
    ensures
        i_frames(c.emit(a).actions) == (match a {
            ActionModel::SendApdu(ApduModel::I { send, recv, asdu }) => i_frames(c.actions).push(
                (send, recv, asdu),
            ),
            _ => i_frames(c.actions),
        }),
        delivered(c.emit(a).actions) == (match a {
            ActionModel::DeliverAsdu(asdu) => delivered(c.actions).push(asdu),
            _ => delivered(c.actions),
        }),
        forall|x: ActionModel|
            #[trigger] c.emit(a).actions.contains(x) <==> c.actions.contains(x) || x == a,
{
    let out = c.emit(a).actions;
    assert(out.drop_last() =~= c.actions);
    assert forall|x: ActionModel| #[trigger] out.contains(x) <==> c.actions.contains(x) || x
        == a by {
        if c.actions.contains(x) {
            let i = choose|i: int| 0 <= i < c.actions.len() && c.actions[i] == x;
            assert(out[i] == x);
        }
        if x == a {
            assert(out[c.actions.len() as int] == x);
        }
        if out.contains(x) {
            let i = choose|i: int| 0 <= i < out.len() && out[i] == x;
            if i < c.actions.len() {
                assert(c.actions[i] == x);
            }
        }
    }
}

proof fn lemma_enter(c: ConnectionModel, state: State)
    ensures
        i_frames(c.enter(state).actions) == i_frames(c.actions),
        delivered(c.enter(state).actions) == delivered(c.actions),
        forall|r: DisconnectReason| #[trigger]
            c.enter(state).actions.contains(ActionModel::Disconnect(r))
                <==> c.actions.contains(ActionModel::Disconnect(r)),
{
    lemma_emit(ConnectionModel { state, ..c }, ActionModel::StateChanged(state));
}

proof fn lemma_send_u(c: ConnectionModel, f: UFunction, now: Instant)
    ensures
        i_frames(c.send_u(f, now).actions) == i_frames(c.actions),
        delivered(c.send_u(f, now).actions) == delivered(c.actions),
        forall|r: DisconnectReason| #[trigger]
            c.send_u(f, now).actions.contains(ActionModel::Disconnect(r))
                <==> c.actions.contains(ActionModel::Disconnect(r)),
{
    lemma_emit(c, ActionModel::SendApdu(ApduModel::U { function: f }));
}

proof fn lemma_send_s(c: ConnectionModel, now: Instant)
    ensures
        i_frames(c.send_s(now).actions) == i_frames(c.actions),
        delivered(c.send_s(now).actions) == delivered(c.actions),
        forall|r: DisconnectReason| #[trigger]
            c.send_s(now).actions.contains(ActionModel::Disconnect(r))
                <==> c.actions.contains(ActionModel::Disconnect(r)),
{
    lemma_emit(c, ActionModel::SendApdu(ApduModel::S { recv: c.recv_next }));
}

proof fn lemma_abort(c: ConnectionModel, reason: DisconnectReason)
    ensures
        i_frames(c.abort(reason).actions) == i_frames(c.actions),
        delivered(c.abort(reason).actions) == delivered(c.actions),
        c.abort(reason).state is Closed,
        forall|r: DisconnectReason| #[trigger]
            c.abort(reason).actions.contains(ActionModel::Disconnect(r))
                <==> c.actions.contains(ActionModel::Disconnect(r)) || r == reason,
{
    lemma_emit(c, ActionModel::Disconnect(reason));
    lemma_enter(c.emit(ActionModel::Disconnect(reason)), State::Closed);
}

proof fn lemma_finish(c: ConnectionModel)
    ensures
        i_frames(c.finish().actions) == i_frames(c.actions),
        delivered(c.finish().actions) == delivered(c.actions),
        c.finish().state is Stopped,
        forall|r: DisconnectReason| #[trigger]
            c.finish().actions.contains(ActionModel::Disconnect(r)) <==> c.actions.contains(
                ActionModel::Disconnect(r),
            ) || r is StoppedCleanly,
{
    lemma_enter(c, State::Stopped);
    lemma_emit(
        c.enter(State::Stopped),
        ActionModel::Disconnect(DisconnectReason::StoppedCleanly),
    );
}

/// Timers neither send I-frames nor deliver anything, and they leave the
/// windows alone.
proof fn lemma_run_timers(c: ConnectionModel, now: Instant)
    ensures
        i_frames(c.run_timers(now).actions) == i_frames(c.actions),
        delivered(c.run_timers(now).actions) == delivered(c.actions),
        c.run_timers(now).role == c.role,
        c.run_timers(now).config == c.config,
        c.run_timers(now).send_next == c.send_next,
        c.run_timers(now).recv_next == c.recv_next,
        c.run_timers(now).sent == c.sent,
        c.run_timers(now).pending == c.pending,
        c.run_timers(now).unacked_recv == c.unacked_recv || c.run_timers(now).unacked_recv == 0,
        c.run_timers(now).act_sent == c.act_sent,
        c.run_timers(now).state == c.state || c.run_timers(now).state is Closed || (c.drained()
            && c.run_timers(now).state is Stopped),
        forall|r: DisconnectReason| #[trigger]
            c.run_timers(now).actions.contains(ActionModel::Disconnect(r)) ==> c.actions.contains(
                ActionModel::Disconnect(r),
            ) || (r is AckTimeout && c.ack_overdue(now)) || (r is StoppedCleanly && c.drained()),
        forall|r: DisconnectReason|
            c.actions.contains(ActionModel::Disconnect(r)) ==> #[trigger] c.run_timers(
                now,
            ).actions.contains(ActionModel::Disconnect(r)),
{
    if c.ack_overdue(now) {
        lemma_abort(c, DisconnectReason::AckTimeout);
    } else {
        lemma_send_s(c, now);
        let acked = if c.ack_due(now) {
            c.send_s(now)
        } else {
            c
        };
        lemma_send_u(acked, UFunction::TestFrAct, now);
        let tested = if acked.test_due(now) {
            ConnectionModel { test_sent: Some(now), ..acked.send_u(UFunction::TestFrAct, now) }
        } else {
            acked
        };
        lemma_finish(tested);
    }
}

// ---------------------------------------------------------------------------
// The windows
// ---------------------------------------------------------------------------

/// What every connection keeps: the unacknowledged I-frames are the last ones
/// sent, with consecutive numbers up to the next one, there are never more of
/// them than `k`, and fewer than `w` received frames wait for acknowledgement.
pub open spec fn consistent(c: ConnectionModel) -> bool {
    &&& is_seq(c.send_next)
    &&& is_seq(c.recv_next)
    &&& c.sent.len() <= c.config.k
    &&& forall|i: int|
        0 <= i < c.sent.len() ==> (#[trigger] c.sent[i]).0 == seq_plus(
            c.send_next,
            i - c.sent.len(),
        )
    &&& 0 <= c.unacked_recv <= u16::MAX
    &&& c.unacked_recv == 0 || c.unacked_recv < c.config.w
}

proof fn lemma_unacked_suffix(sent: Seq<(int, Instant)>, nr: int) -> (j: int)
    ensures
        0 <= j <= sent.len(),
        unacked(sent, nr) == sent.skip(j),
    decreases sent.len(),
{
    if sent.len() > 0 && acks(nr, sent[0].0) {
        let k = lemma_unacked_suffix(sent.skip(1), nr);
        assert(sent.skip(1).skip(k) =~= sent.skip(k + 1));
        k + 1
    } else {
        assert(sent.skip(0) =~= sent);
        0
    }
}

/// As [`consistent`], but the received frames are only counted.
pub open spec fn send_consistent(c: ConnectionModel) -> bool {
    &&& is_seq(c.send_next)
    &&& c.sent.len() <= c.config.k
    &&& forall|i: int|
        0 <= i < c.sent.len() ==> (#[trigger] c.sent[i]).0 == seq_plus(
            c.send_next,
            i - c.sent.len(),
        )
}

proof fn lemma_send_i_consistent(c: ConnectionModel, asdu: Seq<u8>, now: Instant)
    requires
        send_consistent(c),
        c.sent.len() < c.config.k,
    ensures
        send_consistent(c.send_i(asdu, now)),
{
}

proof fn lemma_flush_consistent(c: ConnectionModel, now: Instant)
    requires
        send_consistent(c),
        0 <= c.unacked_recv,
    ensures
        send_consistent(c.flush(now)),
        0 <= c.flush(now).unacked_recv <= c.unacked_recv,
    decreases c.pending.len(),
{
    if c.pending.len() > 0 && c.sent.len() < c.config.k {
        let popped = ConnectionModel { pending: c.pending.skip(1), ..c };
        lemma_send_i_consistent(popped, c.pending[0], now);
        lemma_flush_consistent(popped.send_i(c.pending[0], now), now);
    }
}

proof fn lemma_acknowledge_consistent(c: ConnectionModel, nr: int, now: Instant)
    requires
        send_consistent(c),
        0 <= c.unacked_recv,
    ensures
        send_consistent(c.acknowledge(nr, now)),
        0 <= c.acknowledge(nr, now).unacked_recv <= c.unacked_recv,
{
    let j = lemma_unacked_suffix(c.sent, nr);
    let left = ConnectionModel { sent: unacked(c.sent, nr), ..c };
    assert(send_consistent(left));
    lemma_flush_consistent(left, now);
}

/// A connection is consistent when it is opened, and every input leaves it
/// consistent.
pub proof fn law_consistent(
    role: Role,
    config: Config,
    c: ConnectionModel,
    input: InputModel,
    now: Instant,
)
    ensures
        consistent(opened(role, config)),
        consistent(c) ==> consistent(handled(c, input, now)),
{
    if consistent(c) {
        lemma_run_timers(c.taken(input, now), now);
        match input {
            InputModel::Apdu(apdu) => {
                let heard = ConnectionModel { last_recv_any: Some(now), ..c };
                match apdu {
                    ApduModel::S { recv } => {
                        lemma_acknowledge_consistent(heard, recv, now);
                        lemma_flush_keeps(
                            ConnectionModel { sent: unacked(heard.sent, recv), ..heard },
                            now,
                        );
                    },
                    ApduModel::I { send, recv, asdu } => {
                        let taken = heard.counted(now);
                        lemma_acknowledge_consistent(taken, recv, now);
                        lemma_flush_keeps(
                            ConnectionModel { sent: unacked(taken.sent, recv), ..taken },
                            now,
                        );
                    },
                    ApduModel::U { .. } => {
                        let started = heard.started();
                        lemma_flush_consistent(started, now);
                        lemma_flush_keeps(started, now);
                    },
                }
            },
            InputModel::SendAsdu(asdu) => {
                if c.sent.len() < c.config.k {
                    lemma_send_i_consistent(c, asdu, now);
                }
            },
            _ => {},
        }
    }
}

proof fn lemma_ack_exact(c: ConnectionModel, sent: Seq<(int, Instant)>, i: int, nr: int)
    requires
        is_seq(c.send_next),
        sent.len() <= SeqNo::MAX / 2,
        0 <= i <= sent.len(),
        nr == seq_plus(c.send_next, i - sent.len()),
        forall|j: int|
            0 <= j < sent.len() ==> (#[trigger] sent[j]).0 == seq_plus(
                c.send_next,
                j - sent.len(),
            ),
    ensures
        unacked(sent, nr) == sent.skip(i),
    decreases sent.len(),
{
    if i > 0 {
        let rest = sent.skip(1);
        assert(seq_distance(sent[0].0, nr) == i);
        assert forall|j: int| 0 <= j < rest.len() implies (#[trigger] rest[j]).0 == seq_plus(
            c.send_next,
            j - rest.len(),
        ) by {
            assert(rest[j] == sent[j + 1]);
        }
        lemma_ack_exact(c, rest, i - 1, nr);
        assert(rest.skip(i - 1) =~= sent.skip(i));
    } else {
        assert(sent.skip(0) =~= sent);
        if sent.len() > 0 {
            assert(seq_distance(sent[0].0, nr) == 0);
        }
    }
}

/// An N(R) that names one of the outstanding frames, or the frame behind them,
/// acknowledges exactly the frames before it. The window must stay below half
/// the number space for N(R) to be unambiguous.
pub proof fn law_ack_exact(c: ConnectionModel, i: int)
    requires
        consistent(c),
        c.config.k <= SeqNo::MAX / 2,
        0 <= i <= c.sent.len(),
    ensures
        unacked(c.sent, seq_plus(c.send_next, i - c.sent.len())) == c.sent.skip(i),
        i < c.sent.len() ==> c.sent[i].0 == seq_plus(c.send_next, i - c.sent.len()),
        unacked(c.sent, c.send_next) == Seq::<(int, Instant)>::empty(),
{
    lemma_ack_exact(c, c.sent, i, seq_plus(c.send_next, i - c.sent.len()));
    lemma_ack_exact(c, c.sent, c.sent.len() as int, c.send_next);
    assert(c.sent.skip(c.sent.len() as int) =~= Seq::empty());
}

// ---------------------------------------------------------------------------
// Sending
// ---------------------------------------------------------------------------

/// From `before` to `after` the I-frames `sent` went out: they are numbered
/// consecutively and all carry the number expected next of the peer.
pub open spec fn numbered(
    before: ConnectionModel,
    after: ConnectionModel,
    sent: Seq<(int, int, Seq<u8>)>,
) -> bool {
    &&& after.send_next == seq_plus(before.send_next, sent.len() as int)
    &&& forall|j: int|
        0 <= j < sent.len() ==> (#[trigger] sent[j]).0 == seq_plus(before.send_next, j)
            && sent[j].1 == after.recv_next
}

proof fn lemma_flush_sends(c: ConnectionModel, now: Instant) -> (sent: Seq<(int, int, Seq<u8>)>)
    requires
        is_seq(c.send_next),
    ensures
        i_frames(c.flush(now).actions) == i_frames(c.actions) + sent,
        delivered(c.flush(now).actions) == delivered(c.actions),
        numbered(c, c.flush(now), sent),
        sent.len() <= c.pending.len(),
        forall|j: int| 0 <= j < sent.len() ==> (#[trigger] sent[j]).2 == c.pending[j],
        c.flush(now).pending == c.pending.skip(sent.len() as int),
        forall|r: DisconnectReason| #[trigger]
            c.flush(now).actions.contains(ActionModel::Disconnect(r)) <==> c.actions.contains(
                ActionModel::Disconnect(r),
            ),
    decreases c.pending.len(),
{
    if c.pending.len() > 0 && c.sent.len() < c.config.k {
        let popped = ConnectionModel { pending: c.pending.skip(1), ..c };
        let next = popped.send_i(c.pending[0], now);
        let first = (c.send_next, c.recv_next, c.pending[0]);
        lemma_emit(
            popped,
            ActionModel::SendApdu(
                ApduModel::I { send: c.send_next, recv: c.recv_next, asdu: c.pending[0] },
            ),
        );
        let rest = lemma_flush_sends(next, now);
        lemma_flush_keeps(next, now);
        let sent = seq![first] + rest;
        assert(i_frames(c.actions).push(first) + rest =~= i_frames(c.actions) + sent);
        assert forall|j: int| 0 <= j < sent.len() implies (#[trigger] sent[j]).0 == seq_plus(
            c.send_next,
            j,
        ) && sent[j].1 == c.flush(now).recv_next && sent[j].2 == c.pending[j] by {
            if j > 0 {
                assert(sent[j] == rest[j - 1]);
                assert(c.pending.skip(1)[j - 1] == c.pending[j]);
            }
        }
        assert(c.pending.skip(1).skip(rest.len() as int) =~= c.pending.skip(sent.len() as int));
        sent
    } else {
        let sent = Seq::<(int, int, Seq<u8>)>::empty();
        assert(i_frames(c.actions) + sent =~= i_frames(c.actions));
        assert(c.pending.skip(0) =~= c.pending);
        sent
    }
}

/// What one input sends and delivers, from a connection that has handed out
/// all its actions.
pub open spec fn transfer_of(c: ConnectionModel, input: InputModel, now: Instant) -> bool {
    let d = handled(c, input, now);
    let sent = i_frames(d.actions);
    &&& numbered(c, d, sent)
    // An acknowledgement lets waiting ASDUs out in the order they came in; a
    // new one goes out at once or joins the end; nothing is lost or repeated.
    &&& match input {
        InputModel::SendAsdu(asdu) => if c.state is Active && c.sent.len() < c.config.k {
            sent_asdus(d.actions) == seq![asdu] && d.pending == c.pending
        } else {
            sent_asdus(d.actions) == Seq::<Seq<u8>>::empty() && d.pending == c.pending.push(asdu)
        },
        _ => sent_asdus(d.actions) + d.pending == c.pending,
    }
    // I-frames go out only while data transfer is on.
    &&& sent.len() > 0 ==> transfers(c.taken(input, now).state)
    // What is delivered is the ASDU of an I-frame that came in its turn.
    &&& match input {
        InputModel::Apdu(ApduModel::I { send, recv, asdu }) if transfers(c.state) && send
            == c.recv_next => delivered(d.actions) == seq![asdu] && d.recv_next == seq_plus(
            c.recv_next,
            1,
        ),
        _ => delivered(d.actions) == Seq::<Seq<u8>>::empty() && d.recv_next == c.recv_next,
    }
}

/// Every input sends I-frames under consecutive numbers and only while data
/// transfer is on, an ASDU that it does not send waits, and exactly the
/// I-frames that come in their turn are delivered.
#[verifier::rlimit(50)]
pub proof fn law_transfer(c: ConnectionModel, input: InputModel, now: Instant)
    requires
        is_seq(c.send_next),
        c.actions.len() == 0,
    ensures
        transfer_of(c, input, now),
{
    let t = c.taken(input, now);
    let d = handled(c, input, now);
    lemma_run_timers(t, now);
    assert(i_frames(c.actions) =~= Seq::empty());
    assert(delivered(c.actions) =~= Seq::empty());
    match input {
        InputModel::Apdu(apdu) => {
            let heard = ConnectionModel { last_recv_any: Some(now), ..c };
            match apdu {
                ApduModel::U { function } => {
                    lemma_abort(heard, DisconnectReason::ProtocolError);
                    let started = heard.started();
                    lemma_enter(ConnectionModel { act_sent: None, ..heard }, State::Active);
                    let sent = lemma_flush_sends(started, now);
                    lemma_flush_keeps(started, now);
                    lemma_send_u(heard, UFunction::TestFrCon, now);
                    lemma_send_u(heard, UFunction::StartDtCon, now);
                    lemma_enter(heard.send_u(UFunction::StartDtCon, now), State::Active);
                    lemma_send_u(heard, UFunction::StopDtCon, now);
                    lemma_enter(heard.send_u(UFunction::StopDtCon, now), State::Stopped);
                    lemma_finish(ConnectionModel { act_sent: None, ..heard });
                    if function is StartDtCon && c.role is Client && c.state is Starting {
                        assert(i_frames(t.actions) =~= sent);
                        lemma_sent_prefix(t.actions, c.pending, t.pending);
                    } else {
                        assert(i_frames(t.actions) =~= Seq::empty());
                    }
                },
                ApduModel::S { recv } => {
                    if transfers(c.state) {
                        let left = ConnectionModel { sent: unacked(heard.sent, recv), ..heard };
                        let sent = lemma_flush_sends(left, now);
                        lemma_flush_keeps(left, now);
                        assert(i_frames(t.actions) =~= sent);
                        lemma_sent_prefix(t.actions, c.pending, t.pending);
                    }
                },
                ApduModel::I { send, recv, asdu } => {
                    if transfers(c.state) && send == c.recv_next {
                        let taken = heard.counted(now);
                        let left = ConnectionModel { sent: unacked(taken.sent, recv), ..taken };
                        let flushed = taken.acknowledge(recv, now);
                        let sent = lemma_flush_sends(left, now);
                        lemma_flush_keeps(left, now);
                        lemma_emit(flushed, ActionModel::DeliverAsdu(asdu));
                        lemma_send_s(flushed.emit(ActionModel::DeliverAsdu(asdu)), now);
                        assert(i_frames(t.actions) =~= sent);
                        assert(delivered(t.actions) =~= seq![asdu]);
                        lemma_sent_prefix(t.actions, c.pending, t.pending);
                    } else {
                        lemma_abort(heard, DisconnectReason::ProtocolError);
                    }
                },
            }
        },
        InputModel::StartDt => {
            let asked = ConnectionModel { act_sent: Some(now), ..c };
            lemma_send_u(asked, UFunction::StartDtAct, now);
            lemma_enter(asked.send_u(UFunction::StartDtAct, now), State::Starting);
        },
        InputModel::StopDt => {
            let asked = ConnectionModel { act_sent: Some(now), ..c };
            lemma_send_u(asked, UFunction::StopDtAct, now);
            lemma_enter(asked.send_u(UFunction::StopDtAct, now), State::Stopping);
            lemma_enter(c, State::Stopped);
        },
        InputModel::SendAsdu(asdu) => {
            lemma_emit(
                c,
                ActionModel::SendApdu(
                    ApduModel::I { send: c.send_next, recv: c.recv_next, asdu },
                ),
            );
            if c.state is Active && c.sent.len() < c.config.k {
                assert(sent_asdus(d.actions) =~= seq![asdu]);
            } else {
                assert(sent_asdus(d.actions) =~= Seq::empty());
            }
        },
        InputModel::Tick => {},
    }
    if i_frames(t.actions).len() == 0 {
        assert(sent_asdus(d.actions) =~= Seq::empty());
        assert(sent_asdus(d.actions) + d.pending =~= d.pending);
    }
}

proof fn lemma_sent_prefix(actions: Seq<ActionModel>, before: Seq<Seq<u8>>, after: Seq<Seq<u8>>)
    requires
        i_frames(actions).len() <= before.len(),
        forall|j: int|
            0 <= j < i_frames(actions).len() ==> (#[trigger] i_frames(actions)[j]).2 == before[j],
        after == before.skip(i_frames(actions).len() as int),
    ensures
        sent_asdus(actions) + after == before,
{
    assert(sent_asdus(actions) + after =~= before);
}

// ---------------------------------------------------------------------------
// States and faults
// ---------------------------------------------------------------------------

/// An I-frame outside data transfer or out of its turn closes the connection
/// as a protocol error, and nothing of it is delivered.
pub proof fn law_out_of_sequence(
    c: ConnectionModel,
    send: int,
    recv: int,
    asdu: Seq<u8>,
    now: Instant,
)
    requires
        is_seq(c.send_next),
        c.actions.len() == 0,
        !transfers(c.state) || send != c.recv_next,
    ensures
        ({
            let d = handled(c, InputModel::Apdu(ApduModel::I { send, recv, asdu }), now);
            &&& d.state is Closed
            &&& d.actions.contains(ActionModel::Disconnect(DisconnectReason::ProtocolError))
            &&& delivered(d.actions) == Seq::<Seq<u8>>::empty()
            &&& d.recv_next == c.recv_next
        }),
{
    let input = InputModel::Apdu(ApduModel::I { send, recv, asdu });
    let heard = ConnectionModel { last_recv_any: Some(now), ..c };
    law_transfer(c, input, now);
    lemma_abort(heard, DisconnectReason::ProtocolError);
    lemma_run_timers(c.taken(input, now), now);
}

/// Data transfer starts only with the STARTDT handshake, and the station that
/// is asked to start confirms it.
pub proof fn law_active_by_startdt(c: ConnectionModel, input: InputModel, now: Instant)
    requires
        !(c.state is Active),
        handled(c, input, now).state is Active,
    ensures
        match c.role {
            Role::Client => c.state is Starting && input == InputModel::Apdu(
                ApduModel::U { function: UFunction::StartDtCon },
            ),
            Role::Server => c.state is Stopped && input == InputModel::Apdu(
                ApduModel::U { function: UFunction::StartDtAct },
            ) && handled(c, input, now).actions.len() > c.actions.len() && handled(
                c,
                input,
                now,
            ).actions[c.actions.len() as int] == ActionModel::SendApdu(
                ApduModel::U { function: UFunction::StartDtCon },
            ),
        },
{
    lemma_run_timers(c.taken(input, now), now);
    let heard = ConnectionModel { last_recv_any: Some(now), ..c };
    match input {
        InputModel::Apdu(ApduModel::S { recv }) => {
            lemma_flush_keeps(ConnectionModel { sent: unacked(heard.sent, recv), ..heard }, now);
        },
        InputModel::Apdu(ApduModel::I { recv, .. }) => {
            let taken = heard.counted(now);
            lemma_flush_keeps(ConnectionModel { sent: unacked(taken.sent, recv), ..taken }, now);
        },
        InputModel::Apdu(ApduModel::U { .. }) => {
            lemma_flush_keeps(heard.started(), now);
        },
        _ => {},
    }
}

/// A TESTFR_act is answered with TESTFR_con before anything else happens.
pub proof fn law_testfr_answered(c: ConnectionModel, now: Instant)
    ensures
        ({
            let d = handled(
                c,
                InputModel::Apdu(ApduModel::U { function: UFunction::TestFrAct }),
                now,
            );
            &&& d.actions.len() > c.actions.len()
            &&& d.actions[c.actions.len() as int] == ActionModel::SendApdu(
                ApduModel::U { function: UFunction::TestFrCon },
            )
        }),
{
}

/// A clean stop is reported only once STOPDT has been confirmed and every
/// I-frame sent has been acknowledged.
pub proof fn law_clean_stop(c: ConnectionModel, input: InputModel, now: Instant)
    requires
        is_seq(c.send_next),
        c.actions.len() == 0,
        handled(c, input, now).actions.contains(
            ActionModel::Disconnect(DisconnectReason::StoppedCleanly),
        ),
    ensures
        handled(c, input, now).act_sent is None,
        handled(c, input, now).sent.len() == 0,
        handled(c, input, now).state is Stopped || handled(c, input, now).state is Closed,
{
    let t = c.taken(input, now);
    let stopped = DisconnectReason::StoppedCleanly;
    lemma_run_timers(t, now);
    assert(!c.actions.contains(ActionModel::Disconnect(stopped)));
    let heard = ConnectionModel { last_recv_any: Some(now), ..c };
    match input {
        InputModel::Apdu(ApduModel::U { function }) => {
            lemma_abort(heard, DisconnectReason::ProtocolError);
            let started = heard.started();
            lemma_enter(ConnectionModel { act_sent: None, ..heard }, State::Active);
            let _ = lemma_flush_sends(started, now);
            lemma_flush_keeps(started, now);
            lemma_send_u(heard, UFunction::TestFrCon, now);
            lemma_send_u(heard, UFunction::StartDtCon, now);
            lemma_enter(heard.send_u(UFunction::StartDtCon, now), State::Active);
            lemma_send_u(heard, UFunction::StopDtCon, now);
            lemma_enter(heard.send_u(UFunction::StopDtCon, now), State::Stopped);
        },
        InputModel::Apdu(ApduModel::S { recv }) => {
            let left = ConnectionModel { sent: unacked(heard.sent, recv), ..heard };
            let _ = lemma_flush_sends(left, now);
            lemma_flush_keeps(left, now);
        },
        InputModel::Apdu(ApduModel::I { send, recv, asdu }) => {
            let taken = heard.counted(now);
            let left = ConnectionModel { sent: unacked(taken.sent, recv), ..taken };
            let _ = lemma_flush_sends(left, now);
            lemma_flush_keeps(left, now);
            lemma_emit(taken.acknowledge(recv, now), ActionModel::DeliverAsdu(asdu));
            lemma_send_s(
                taken.acknowledge(recv, now).emit(ActionModel::DeliverAsdu(asdu)),
                now,
            );
            lemma_abort(heard, DisconnectReason::ProtocolError);
        },
        InputModel::StartDt => {
            let asked = ConnectionModel { act_sent: Some(now), ..c };
            lemma_send_u(asked, UFunction::StartDtAct, now);
            lemma_enter(asked.send_u(UFunction::StartDtAct, now), State::Starting);
        },
        InputModel::StopDt => {
            let asked = ConnectionModel { act_sent: Some(now), ..c };
            lemma_send_u(asked, UFunction::StopDtAct, now);
            lemma_enter(asked.send_u(UFunction::StopDtAct, now), State::Stopping);
            lemma_enter(c, State::Stopped);
        },
        InputModel::SendAsdu(asdu) => {
            lemma_emit(
                c,
                ActionModel::SendApdu(
                    ApduModel::I { send: c.send_next, recv: c.recv_next, asdu },
                ),
            );
        },
        InputModel::Tick => {},
    }
}

/// After every input, either the connection has been closed for a missing
/// acknowledgement, or no timer is left expired: no I- or U-frame waits for its
/// acknowledgement longer than `t1`, nothing received waits longer than `t2`,
/// and no silence lasts longer than `t3` untested. A `t1` of zero would expire
/// on the spot.
pub proof fn law_timers(c: ConnectionModel, input: InputModel, now: Instant)
    requires
        handled(c, input, now).config.t1.nanos > 0,
    ensures
        ({
            let d = handled(c, input, now);
            ||| d.state is Closed && d.actions.contains(
                ActionModel::Disconnect(DisconnectReason::AckTimeout),
            ) && c.taken(input, now).ack_overdue(now)
            ||| !d.ack_overdue(now) && !d.ack_due(now) && !d.test_due(now)
        }),
{
    let t = c.taken(input, now);
    lemma_run_timers(t, now);
    if t.ack_overdue(now) {
        lemma_abort(t, DisconnectReason::AckTimeout);
    }
}

// ---------------------------------------------------------------------------
// Whole runs
// ---------------------------------------------------------------------------

/// While data transfer is on, nothing waits to be sent unless the send window
/// is full.
pub open spec fn prompt(c: ConnectionModel) -> bool {
    c.state is Active && c.pending.len() > 0 ==> c.sent.len() >= c.config.k
}

/// A server is started although ASDUs have been queued and the window has
/// room. They go out with the next acknowledgement, not with the start.
pub open spec fn starts_queued(c: ConnectionModel, input: InputModel, now: Instant) -> bool {
    &&& c.role is Server
    &&& c.state is Stopped
    &&& c.pending.len() > 0
    &&& c.sent.len() < c.config.k
    &&& input == InputModel::Apdu(ApduModel::U { function: UFunction::StartDtAct })
    &&& handled(c, input, now).state is Active
}

proof fn lemma_flush_fills(c: ConnectionModel, now: Instant)
    ensures
        c.flush(now).pending.len() == 0 || c.flush(now).sent.len() >= c.config.k,
        c.flush(now).sent.len() - c.sent.len() == c.pending.len() - c.flush(now).pending.len(),
    decreases c.pending.len(),
{
    if c.pending.len() > 0 && c.sent.len() < c.config.k {
        let popped = ConnectionModel { pending: c.pending.skip(1), ..c };
        lemma_flush_fills(popped.send_i(c.pending[0], now), now);
    }
}

/// A connection is prompt when it is opened, and every input leaves it prompt
/// but for the start of a server that has queued ASDUs.
pub proof fn law_prompt(
    role: Role,
    config: Config,
    c: ConnectionModel,
    input: InputModel,
    now: Instant,
)
    requires
        !starts_queued(c, input, now),
    ensures
        prompt(opened(role, config)),
        prompt(c) ==> prompt(handled(c, input, now)),
        handled(c, input, now).role == c.role,
        handled(c, input, now).config == c.config,
{
    lemma_run_timers(c.taken(input, now), now);
    let heard = ConnectionModel { last_recv_any: Some(now), ..c };
    match input {
        InputModel::Apdu(ApduModel::U { .. }) => {
            lemma_flush_fills(heard.started(), now);
            lemma_flush_keeps(heard.started(), now);
        },
        InputModel::Apdu(ApduModel::S { recv }) => {
            let left = ConnectionModel { sent: unacked(heard.sent, recv), ..heard };
            lemma_flush_fills(left, now);
            lemma_flush_keeps(left, now);
        },
        InputModel::Apdu(ApduModel::I { recv, .. }) => {
            let taken = heard.counted(now);
            let left = ConnectionModel { sent: unacked(taken.sent, recv), ..taken };
            lemma_flush_fills(left, now);
            lemma_flush_keeps(left, now);
        },
        _ => {},
    }
}

/// The connection after a run of inputs, each with the time it came at. After
/// each input the actions have been handed out.
pub open spec fn ran(c: ConnectionModel, steps: Seq<(InputModel, Instant)>) -> ConnectionModel
    decreases steps.len(),
{
    if steps.len() == 0 {
        c
    } else {
        ConnectionModel {
            actions: Seq::empty(),
            ..handled(ran(c, steps.drop_last()), steps.last().0, steps.last().1)
        }
    }
}

/// All actions that are handed out during a run, in order.
pub open spec fn emitted(c: ConnectionModel, steps: Seq<(InputModel, Instant)>) -> Seq<ActionModel>
    decreases steps.len(),
{
    if steps.len() == 0 {
        Seq::empty()
    } else {
        emitted(c, steps.drop_last()) + handled(
            ran(c, steps.drop_last()),
            steps.last().0,
            steps.last().1,
        ).actions
    }
}

/// The ASDUs that the user submits during a run, in order.
pub open spec fn submitted(steps: Seq<(InputModel, Instant)>) -> Seq<Seq<u8>>
    decreases steps.len(),
{
    if steps.len() == 0 {
        Seq::empty()
    } else {
        submitted(steps.drop_last()) + given(steps.last().0)
    }
}

/// No server is started during the run while it has queued ASDUs.
pub open spec fn orderly(c: ConnectionModel, steps: Seq<(InputModel, Instant)>) -> bool
    decreases steps.len(),
{
    steps.len() > 0 ==> {
        &&& orderly(c, steps.drop_last())
        &&& !starts_queued(ran(c, steps.drop_last()), steps.last().0, steps.last().1)
    }
}

proof fn lemma_client_orderly(c: ConnectionModel, steps: Seq<(InputModel, Instant)>)
    requires
        c.role is Client,
    ensures
        orderly(c, steps),
        ran(c, steps).role is Client,
    decreases steps.len(),
{
    if steps.len() > 0 {
        let p = ran(c, steps.drop_last());
        let (input, now) = steps.last();
        lemma_client_orderly(c, steps.drop_last());
        law_prompt(p.role, p.config, p, input, now);
    }
}

proof fn lemma_i_frames_concat(a: Seq<ActionModel>, b: Seq<ActionModel>)
    ensures
        i_frames(a + b) == i_frames(a) + i_frames(b),
        sent_asdus(a + b) == sent_asdus(a) + sent_asdus(b),
    decreases b.len(),
{
    if b.len() == 0 {
        assert(a + b =~= a);
        assert(i_frames(a) + i_frames(b) =~= i_frames(a));
    } else {
        lemma_i_frames_concat(a, b.drop_last());
        assert((a + b).drop_last() =~= a + b.drop_last());
        assert((a + b).last() == b.last());
        assert(i_frames(a + b) =~= i_frames(a) + i_frames(b));
    }
    assert(sent_asdus(a + b) =~= sent_asdus(a) + sent_asdus(b));
}

/// The frames `sent` are numbered from `first` on and carry the front of
/// `all`, of which `left` is the rest.
pub open spec fn in_order(
    sent: Seq<(int, int, Seq<u8>)>,
    first: int,
    all: Seq<Seq<u8>>,
    left: Seq<Seq<u8>>,
) -> bool {
    &&& sent.len() + left.len() == all.len()
    &&& left == all.skip(sent.len() as int)
    &&& forall|j: int|
        0 <= j < sent.len() ==> (#[trigger] sent[j]).0 == seq_plus(first, j) && sent[j].2 == all[j]
}

/// What the user submits with an input.
pub open spec fn given(input: InputModel) -> Seq<Seq<u8>> {
    match input {
        InputModel::SendAsdu(asdu) => seq![asdu],
        _ => Seq::empty(),
    }
}

proof fn lemma_step_in_order(p: ConnectionModel, input: InputModel, now: Instant)
    requires
        is_seq(p.send_next),
        p.actions.len() == 0,
        prompt(p),
        !starts_queued(p, input, now),
    ensures
        ({
            let h = handled(p, input, now);
            let sent = i_frames(h.actions);
            &&& in_order(sent, p.send_next, p.pending + given(input), h.pending)
            &&& h.send_next == seq_plus(p.send_next, sent.len() as int)
            &&& h.config == p.config
            &&& h.role == p.role
            &&& prompt(h)
        }),
{
    let h = handled(p, input, now);
    let sent = i_frames(h.actions);
    let all = p.pending + given(input);
    law_transfer(p, input, now);
    law_prompt(p.role, p.config, p, input, now);
    assert(sent_asdus(h.actions) + h.pending =~= all);
    lemma_split(sent, sent_asdus(h.actions), p.send_next, all, h.pending);
}

proof fn lemma_split(
    sent: Seq<(int, int, Seq<u8>)>,
    asdus: Seq<Seq<u8>>,
    first: int,
    all: Seq<Seq<u8>>,
    left: Seq<Seq<u8>>,
)
    requires
        asdus.len() == sent.len(),
        forall|j: int| 0 <= j < sent.len() ==> (#[trigger] sent[j]).2 == asdus[j],
        forall|j: int| 0 <= j < sent.len() ==> (#[trigger] sent[j]).0 == seq_plus(first, j),
        asdus + left == all,
    ensures
        in_order(sent, first, all, left),
{
    assert(left =~= all.skip(sent.len() as int));
    assert forall|j: int| 0 <= j < sent.len() implies (#[trigger] sent[j]).2 == all[j] by {
        assert((asdus + left)[j] == asdus[j]);
    }
}

/// Frames in order, followed by frames in order for what was left and what
/// came in, are in order together.
proof fn lemma_join(
    early: Seq<(int, int, Seq<u8>)>,
    late: Seq<(int, int, Seq<u8>)>,
    first: int,
    all: Seq<Seq<u8>>,
    more: Seq<Seq<u8>>,
    middle: Seq<Seq<u8>>,
    left: Seq<Seq<u8>>,
)
    requires
        in_order(early, first, all, middle),
        in_order(late, seq_plus(first, early.len() as int), middle + more, left),
    ensures
        in_order(early + late, first, all + more, left),
        seq_plus(seq_plus(first, early.len() as int), late.len() as int) == seq_plus(
            first,
            (early + late).len() as int,
        ),
{
    let sent = early + late;
    assert(middle + more =~= (all + more).skip(early.len() as int));
    assert(left =~= (all + more).skip(sent.len() as int));
    assert forall|j: int| 0 <= j < sent.len() implies (#[trigger] sent[j]).0 == seq_plus(first, j)
        && sent[j].2 == (all + more)[j] by {
        if j < early.len() {
            assert(sent[j] == early[j]);
        } else {
            let i = j - early.len();
            assert(sent[j] == late[i]);
            assert((middle + more)[i] == (all + more)[j]);
        }
    }
}

/// Over any run, the I-frames are numbered consecutively and carry the ASDUs
/// in the order in which they were submitted, none lost and none repeated:
/// what has been sent and what still waits are together all that was
/// submitted. Nothing waits while data transfer is on and the window has room.
pub proof fn law_run_in_order(c: ConnectionModel, steps: Seq<(InputModel, Instant)>)
    requires
        is_seq(c.send_next),
        c.actions.len() == 0,
        prompt(c),
        c.role is Client || orderly(c, steps),
    ensures
        ({
            let d = ran(c, steps);
            let sent = i_frames(emitted(c, steps));
            &&& in_order(sent, c.send_next, c.pending + submitted(steps), d.pending)
            &&& d.send_next == seq_plus(c.send_next, sent.len() as int)
            &&& d.actions.len() == 0
            &&& d.config == c.config
            &&& prompt(d)
        }),
    decreases steps.len(),
{
    if c.role is Client {
        lemma_client_orderly(c, steps);
    }
    if steps.len() == 0 {
        assert(c.pending =~= (c.pending + submitted(steps)).skip(0));
    } else {
        let front = steps.drop_last();
        let (input, now) = steps.last();
        let p = ran(c, front);
        let h = handled(p, input, now);
        law_run_in_order(c, front);
        lemma_step_in_order(p, input, now);
        lemma_i_frames_concat(emitted(c, front), h.actions);
        lemma_join(
            i_frames(emitted(c, front)),
            i_frames(h.actions),
            c.send_next,
            c.pending + submitted(front),
            given(input),
            p.pending,
            h.pending,
        );
        assert(c.pending + submitted(front) + given(input) =~= c.pending + submitted(steps));
    }
}

/// The I-frame with index `j` that a client ever sends has N(S) = `j` modulo
/// 32768 and carries the ASDU with index `j` that was ever submitted.
pub proof fn law_run_of_client(config: Config, steps: Seq<(InputModel, Instant)>, j: int)
    requires
        0 <= j < i_frames(emitted(opened(Role::Client, config), steps)).len(),
    ensures
        ({
            let frame = i_frames(emitted(opened(Role::Client, config), steps))[j];
            &&& frame.0 == j % 32768
            &&& j < submitted(steps).len()
            &&& frame.2 == submitted(steps)[j]
        }),
{
    let c = opened(Role::Client, config);
    law_run_in_order(c, steps);
    assert(c.pending + submitted(steps) =~= submitted(steps));
    assert(i_frames(emitted(c, steps))[j].0 == seq_plus(0, j));
}

/// The N(R) that an input brings.
pub open spec fn nr_of(input: InputModel) -> Option<int> {
    match input {
        InputModel::Apdu(ApduModel::S { recv }) => Some(recv),
        InputModel::Apdu(ApduModel::I { recv, .. }) => Some(recv),
        _ => None,
    }
}

/// How many frames the peer has acknowledged during a run that started with
/// the frame `first`: each N(R) is as far ahead of the last one as the number
/// of frames that it adds.
pub open spec fn acknowledged(first: int, steps: Seq<(InputModel, Instant)>) -> int
    decreases steps.len(),
{
    if steps.len() == 0 {
        0
    } else {
        let front = acknowledged(first, steps.drop_last());
        match nr_of(steps.last().0) {
            Some(nr) => front + seq_distance(seq_plus(first, front), nr),
            None => front,
        }
    }
}

/// Data transfer stays on during the run, and no N(R) goes back or beyond what
/// was sent.
pub open spec fn steady(c: ConnectionModel, steps: Seq<(InputModel, Instant)>) -> bool
    decreases steps.len(),
{
    &&& ran(c, steps).state is Active
    &&& steps.len() > 0 ==> {
        &&& steady(c, steps.drop_last())
        &&& nr_of(steps.last().0) matches Some(nr) ==> is_seq(nr)
        &&& acknowledged(c.send_next, steps) <= i_frames(emitted(c, steps.drop_last())).len()
    }
}

proof fn lemma_steady_orderly(c: ConnectionModel, steps: Seq<(InputModel, Instant)>)
    requires
        steady(c, steps),
    ensures
        orderly(c, steps),
    decreases steps.len(),
{
    if steps.len() > 0 {
        reveal_with_fuel(steady, 2);
        lemma_steady_orderly(c, steps.drop_last());
    }
}

/// An input that acknowledges the `i` oldest frames lets as many frames into
/// the window as it has sent.
proof fn lemma_window_step(p: ConnectionModel, input: InputModel, now: Instant, i: int)
    requires
        consistent(p),
        p.config.k <= SeqNo::MAX / 2,
        p.actions.len() == 0,
        p.state is Active,
        handled(p, input, now).state is Active,
        0 <= i <= p.sent.len(),
        match nr_of(input) {
            Some(nr) => nr == seq_plus(p.send_next, i - p.sent.len()),
            None => i == 0,
        },
    ensures
        ({
            let h = handled(p, input, now);
            h.sent.len() == p.sent.len() - i + i_frames(h.actions).len()
        }),
{
    let t = p.taken(input, now);
    let h = handled(p, input, now);
    lemma_run_timers(t, now);
    law_transfer(p, input, now);
    law_ack_exact(p, i);
    assert(sent_asdus(h.actions).len() == i_frames(h.actions).len());
    let heard = ConnectionModel { last_recv_any: Some(now), ..p };
    match input {
        InputModel::Apdu(ApduModel::S { recv }) => {
            let left = ConnectionModel { sent: unacked(heard.sent, recv), ..heard };
            lemma_flush_fills(left, now);
            assert((sent_asdus(h.actions) + h.pending).len() == p.pending.len());
        },
        InputModel::Apdu(ApduModel::I { recv, .. }) => {
            let taken = heard.counted(now);
            let left = ConnectionModel { sent: unacked(taken.sent, recv), ..taken };
            lemma_flush_fills(left, now);
            assert((sent_asdus(h.actions) + h.pending).len() == p.pending.len());
        },
        InputModel::SendAsdu(asdu) => {},
        _ => {
            assert((sent_asdus(h.actions) + h.pending).len() == p.pending.len());
        },
    }
}

/// The send window: over a run during which data transfer stays on, as many
/// frames have been sent as were submitted or as the window lets through,
/// whichever is fewer. Never are more than `k` unacknowledged, and none waits
/// while the window has room.
pub proof fn law_send_window(c: ConnectionModel, steps: Seq<(InputModel, Instant)>)
    requires
        consistent(c),
        c.config.k <= SeqNo::MAX / 2,
        c.sent.len() == 0,
        c.pending.len() == 0,
        c.actions.len() == 0,
        steady(c, steps),
    ensures
        ({
            let d = ran(c, steps);
            let sent = i_frames(emitted(c, steps));
            let acked = acknowledged(c.send_next, steps);
            let all = submitted(steps);
            &&& sent.len() == if all.len() <= acked + c.config.k {
                all.len() as int
            } else {
                acked + c.config.k
            }
            &&& in_order(sent, c.send_next, all, d.pending)
            &&& d.sent.len() == sent.len() - acked
            &&& d.sent.len() <= c.config.k
        }),
{
    lemma_steady_orderly(c, steps);
    law_run_in_order(c, steps);
    lemma_send_window(c, steps);
    assert(c.pending + submitted(steps) =~= submitted(steps));
}

proof fn lemma_send_window(c: ConnectionModel, steps: Seq<(InputModel, Instant)>)
    requires
        consistent(c),
        c.config.k <= SeqNo::MAX / 2,
        c.sent.len() == 0,
        c.pending.len() == 0,
        c.actions.len() == 0,
        steady(c, steps),
    ensures
        consistent(ran(c, steps)),
        ran(c, steps).sent.len() == i_frames(emitted(c, steps)).len() - acknowledged(
            c.send_next,
            steps,
        ),
        0 <= acknowledged(c.send_next, steps),
    decreases steps.len(),
{
    if steps.len() > 0 {
        let front = steps.drop_last();
        let (input, now) = steps.last();
        let p = ran(c, front);
        let h = handled(p, input, now);
        let first = c.send_next;
        let before = acknowledged(first, front);
        reveal_with_fuel(steady, 2);
        lemma_send_window(c, front);
        lemma_steady_orderly(c, front);
        law_run_in_order(c, front);
        law_consistent(p.role, p.config, p, input, now);
        lemma_i_frames_concat(emitted(c, front), h.actions);
        let i = acknowledged(first, steps) - before;
        if let Some(nr) = nr_of(input) {
            lemma_nr(first, i_frames(emitted(c, front)).len() as int, before, nr);
        }
        lemma_window_step(p, input, now, i);
    }
}

/// An N(R) that is `i` ahead of the last one names the frame `i` behind the
/// oldest of the `sent - before` outstanding ones.
proof fn lemma_nr(first: int, sent: int, before: int, nr: int)
    requires
        is_seq(nr),
    ensures
        ({
            let i = seq_distance(seq_plus(first, before), nr);
            &&& 0 <= i
            &&& nr == seq_plus(seq_plus(first, sent), i - (sent - before))
        }),
{
}

} // verus!
