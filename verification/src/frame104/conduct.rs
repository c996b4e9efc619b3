//! What a peer and a user see of an IEC 60870-5-104 connection: which frames
//! go out on which input, and when the timers speak.

use vstd::prelude::*;
use crate::frame104::apdu::{ApduModel, UFunction};
use crate::frame104::laws::nr_of;
use crate::frame104::state::{
    acks, handled, lemma_flush_keeps, opened, unacked, ActionModel, Config, ConnectionModel,
    DisconnectReason, InputModel, Role, State,
};
use crate::time::Instant;

verus! {

// ---------------------------------------------------------------------------
// t1
// ---------------------------------------------------------------------------

proof fn lemma_unacked_part(sent: Seq<(int, Instant)>, nr: int)
    ensures
        unacked(sent, nr).len() <= sent.len(),
        forall|i: int|
            0 <= i < unacked(sent, nr).len() ==> (#[trigger] unacked(sent, nr)[i]) == sent[i
                + sent.len() - unacked(sent, nr).len()],
    decreases sent.len(),
{
    if sent.len() > 0 && unacked(sent, nr) != sent {
        lemma_unacked_part(sent.skip(1), nr);
    }
}

proof fn lemma_flush_times(c: ConnectionModel, now: Instant)
    ensures
        c.flush(now).sent.len() >= c.sent.len(),
        forall|i: int|
            0 <= i < c.sent.len() ==> (#[trigger] c.flush(now).sent[i]) == c.sent[i],
        forall|i: int|
            c.sent.len() <= i < c.flush(now).sent.len() ==> (#[trigger] c.flush(now).sent[i]).1
                == now,
    decreases c.pending.len(),
{
    if c.pending.len() > 0 && c.sent.len() < c.config.k {
        let popped = ConnectionModel { pending: c.pending.skip(1), ..c };
        let next = popped.send_i(c.pending[0], now);
        lemma_flush_times(next, now);
        assert forall|i: int| 0 <= i < c.sent.len() implies (#[trigger] c.flush(now).sent[i])
            == c.sent[i] by {
            assert(next.sent[i] == c.sent[i]);
            assert(next.flush(now).sent[i] == next.sent[i]);
        }
        assert forall|i: int| c.sent.len() <= i < c.flush(now).sent.len() implies (
        #[trigger] c.flush(now).sent[i]).1 == now by {
            if i == c.sent.len() {
                assert(next.flush(now).sent[i] == next.sent[i]);
            }
        }
    }
}

/// What an input leaves of the sent frames: those that it acknowledges are
/// gone from the front, and new ones stand behind, sent now.
proof fn lemma_sent_times(c: ConnectionModel, input: InputModel, now: Instant) -> (gone: int)
    ensures
        0 <= gone <= c.sent.len(),
        nr_of(input) is None ==> gone == 0,
        c.taken(input, now).sent.len() >= c.sent.len() - gone,
        forall|i: int|
            0 <= i < c.sent.len() - gone ==> (#[trigger] c.taken(input, now).sent[i]) == c.sent[i
                + gone],
        forall|i: int|
            c.sent.len() - gone <= i < c.taken(input, now).sent.len() ==> (#[trigger] c.taken(
                input,
                now,
            ).sent[i]).1 == now,
        c.taken(input, now).config == c.config,
{
    let heard = ConnectionModel { last_recv_any: Some(now), ..c };
    match input {
        InputModel::Apdu(ApduModel::U { .. }) => {
            lemma_flush_times(heard.started(), now);
            lemma_flush_keeps(heard.started(), now);
            0
        },
        InputModel::Apdu(ApduModel::S { recv }) => {
            let left = ConnectionModel { sent: unacked(heard.sent, recv), ..heard };
            lemma_unacked_part(c.sent, recv);
            lemma_flush_times(left, now);
            lemma_flush_keeps(left, now);
            if c.state is Active || c.state is Stopping {
                c.sent.len() - left.sent.len()
            } else {
                0
            }
        },
        InputModel::Apdu(ApduModel::I { send, recv, .. }) => {
            let counted = heard.counted(now);
            let left = ConnectionModel { sent: unacked(counted.sent, recv), ..counted };
            lemma_unacked_part(c.sent, recv);
            lemma_flush_times(left, now);
            lemma_flush_keeps(left, now);
            if (c.state is Active || c.state is Stopping) && send == c.recv_next {
                c.sent.len() - left.sent.len()
            } else {
                0
            }
        },
        _ => 0,
    }
}

/// `t1` bounds every I-frame: as soon as any frame that is still
/// unacknowledged was sent `t1` ago or longer, the connection is closed for a
/// missing acknowledgement. The clock must not run backwards.
pub proof fn law_t1_bounds_every_frame(c: ConnectionModel, input: InputModel, now: Instant, i: int)
    requires
        forall|a: int, b: int|
            0 <= a <= b < c.sent.len() ==> (#[trigger] c.sent[a]).1.nanos <= (
            #[trigger] c.sent[b]).1.nanos,
        forall|a: int| 0 <= a < c.sent.len() ==> (#[trigger] c.sent[a]).1.nanos <= now.nanos,
    ensures
        ({
            let d = handled(c, input, now);
            let closed = d.state is Closed && d.actions.contains(
                ActionModel::Disconnect(DisconnectReason::AckTimeout),
            );
            let t = c.taken(input, now).sent;
            &&& 0 <= i < t.len() && now.nanos - t[i].1.nanos >= c.config.t1.nanos ==> closed
            &&& nr_of(input) is None && 0 <= i < c.sent.len() && now.nanos - c.sent[i].1.nanos
                >= c.config.t1.nanos ==> closed
        }),
        ({
            let d = handled(c, input, now);
            &&& forall|a: int, b: int|
                0 <= a <= b < d.sent.len() ==> (#[trigger] d.sent[a]).1.nanos <= (
                #[trigger] d.sent[b]).1.nanos
            &&& forall|a: int| 0 <= a < d.sent.len() ==> (#[trigger] d.sent[a]).1.nanos <= now.nanos
        }),
{
    let t = c.taken(input, now);
    let d = handled(c, input, now);
    let gone = lemma_sent_times(c, input, now);
    lemma_timers_append(t, now);
    assert(d.sent == t.sent);
    assert forall|a: int, b: int| 0 <= a <= b < d.sent.len() implies (
    #[trigger] d.sent[a]).1.nanos <= (#[trigger] d.sent[b]).1.nanos && d.sent[b].1.nanos
        <= now.nanos by {
        let kept = c.sent.len() - gone;
        if b < kept {
            assert(c.sent[a + gone].1.nanos <= c.sent[b + gone].1.nanos);
        } else if a < kept {
            assert(c.sent[a + gone].1.nanos <= now.nanos);
        }
    }
    if 0 <= i < t.sent.len() && now.nanos - t.sent[i].1.nanos >= c.config.t1.nanos {
        assert(t.sent[0].1.nanos <= t.sent[i].1.nanos);
        lemma_timed_out(t, now);
    }
    if nr_of(input) is None && 0 <= i < c.sent.len() && now.nanos - c.sent[i].1.nanos
        >= c.config.t1.nanos {
        assert(t.sent[i] == c.sent[i]);
        assert(t.sent[0].1.nanos <= t.sent[i].1.nanos);
        lemma_timed_out(t, now);
    }
}

/// `t1` counts from the frame that has waited longest: once the first of the
/// unacknowledged frames, or any that was not sent before it, has been out for
/// `t1`, the connection is closed, whatever else there is.
pub proof fn law_t1_counts_from_first(c: ConnectionModel, input: InputModel, now: Instant, i: int)
    requires
        0 <= i < c.taken(input, now).sent.len(),
        c.taken(input, now).sent[0].1.nanos <= c.taken(input, now).sent[i].1.nanos,
        now.nanos - c.taken(input, now).sent[i].1.nanos >= c.config.t1.nanos,
    ensures
        handled(c, input, now).state is Closed,
        handled(c, input, now).actions.contains(
            ActionModel::Disconnect(DisconnectReason::AckTimeout),
        ),
{
    let gone = lemma_sent_times(c, input, now);
    lemma_timed_out(c.taken(input, now), now);
}

proof fn lemma_timed_out(t: ConnectionModel, now: Instant)
    requires
        t.ack_overdue(now),
    ensures
        t.run_timers(now).state is Closed,
        t.run_timers(now).actions.contains(ActionModel::Disconnect(DisconnectReason::AckTimeout)),
{
    let d = t.run_timers(now);
    assert(d.actions[t.actions.len() as int] == ActionModel::Disconnect(
        DisconnectReason::AckTimeout,
    ));
}

/// Timers only add actions behind those that the input has brought.
proof fn lemma_timers_append(t: ConnectionModel, now: Instant)
    ensures
        t.run_timers(now).actions.len() >= t.actions.len(),
        forall|i: int|
            0 <= i < t.actions.len() ==> (#[trigger] t.run_timers(now).actions[i]) == t.actions[i],
        t.run_timers(now).sent == t.sent,
        t.run_timers(now).config == t.config,
        t.run_timers(now).last_recv_any == t.last_recv_any,
        t.run_timers(now).last_recv_iframe == t.last_recv_iframe,
{
}

/// `t1` bounds U-frames too: a TESTFR_act, STARTDT_act or STOPDT_act that was
/// sent `t1` ago or longer and has not been confirmed closes the connection.
pub proof fn law_t1_bounds_u_frames(c: ConnectionModel, input: InputModel, now: Instant, at: Instant)
    requires
        now.nanos >= at.nanos,
        now.nanos - at.nanos >= c.config.t1.nanos,
    ensures
        ({
            let d = handled(c, input, now);
            let closed = d.state is Closed && d.actions.contains(
                ActionModel::Disconnect(DisconnectReason::AckTimeout),
            );
            let u = if let InputModel::Apdu(ApduModel::U { function }) = input {
                Some(function)
            } else {
                None
            };
            &&& c.test_sent == Some(at) && u != Some(UFunction::TestFrCon) ==> closed
            &&& c.act_sent == Some(at) && c.state is Starting && u != Some(UFunction::StartDtCon)
                ==> closed
            &&& c.act_sent == Some(at) && c.state is Stopping && u != Some(UFunction::StopDtCon)
                ==> closed
        }),
{
    let t = c.taken(input, now);
    let heard = ConnectionModel { last_recv_any: Some(now), ..c };
    match input {
        InputModel::Apdu(ApduModel::U { .. }) => {
            lemma_flush_keeps(heard.started(), now);
        },
        InputModel::Apdu(ApduModel::S { recv }) => {
            lemma_flush_keeps(ConnectionModel { sent: unacked(heard.sent, recv), ..heard }, now);
        },
        InputModel::Apdu(ApduModel::I { recv, .. }) => {
            let counted = heard.counted(now);
            lemma_flush_keeps(ConnectionModel { sent: unacked(counted.sent, recv), ..counted }, now);
        },
        _ => {},
    }
    if t.ack_overdue(now) {
        lemma_timed_out(t, now);
    }
}

/// No connection is closed for a missing acknowledgement before its time: then
/// a frame had been out for `t1` without being acknowledged.
pub proof fn law_t1_not_early(c: ConnectionModel, now: Instant)
    requires
        c.actions.len() == 0,
        forall|i: int|
            0 <= i < c.sent.len() ==> (#[trigger] c.sent[i]).1.nanos <= now.nanos < c.sent[i].1.nanos
                + c.config.t1.nanos,
        c.test_sent matches Some(at) ==> at.nanos <= now.nanos < at.nanos + c.config.t1.nanos,
        c.act_sent matches Some(at) ==> at.nanos <= now.nanos < at.nanos + c.config.t1.nanos,
    ensures
        ({
            let d = handled(c, InputModel::Tick, now);
            &&& !d.actions.contains(ActionModel::Disconnect(DisconnectReason::AckTimeout))
            &&& d.state == c.state || (c.state is Stopping && d.state is Stopped)
            &&& d.sent == c.sent
            &&& d.pending == c.pending
        }),
{
    let d = handled(c, InputModel::Tick, now);
    if d.actions.contains(ActionModel::Disconnect(DisconnectReason::AckTimeout)) {
        let i = choose|i: int|
            0 <= i < d.actions.len() && d.actions[i] == ActionModel::Disconnect(
                DisconnectReason::AckTimeout,
            );
        assert(d.actions.len() <= 4);
        assert(i == 0 || i == 1 || i == 2 || i == 3);
    }
}

// ---------------------------------------------------------------------------
// t2 and t3
// ---------------------------------------------------------------------------

/// `t2`: received I-frames are acknowledged once the last of them is `t2` old,
/// and not before; the acknowledgement names the frame expected next.
pub proof fn law_t2_acknowledges(c: ConnectionModel, now: Instant, last: Instant)
    requires
        c.actions.len() == 0,
        c.unacked_recv > 0,
        c.last_recv_iframe == Some(last),
        last.nanos <= now.nanos,
        c.sent.len() == 0,
        c.test_sent is None,
        c.act_sent is None,
    ensures
        ({
            let d = handled(c, InputModel::Tick, now);
            let ack = ActionModel::SendApdu(ApduModel::S { recv: c.recv_next });
            &&& now.nanos - last.nanos >= c.config.t2.nanos ==> d.actions.len() > 0 && d.actions[0]
                == ack && d.unacked_recv == 0
            &&& now.nanos - last.nanos < c.config.t2.nanos ==> !d.actions.contains(ack)
                && d.unacked_recv == c.unacked_recv
        }),
{
    let d = handled(c, InputModel::Tick, now);
    if now.nanos - last.nanos < c.config.t2.nanos {
        let ack = ActionModel::SendApdu(ApduModel::S { recv: c.recv_next });
        if d.actions.contains(ack) {
            let i = choose|i: int| 0 <= i < d.actions.len() && d.actions[i] == ack;
            assert(d.actions.len() <= 3);
            assert(i == 0 || i == 1 || i == 2);
        }
    }
}

/// `t3`: when nothing has been sent or received for `t3`, a TESTFR_act goes
/// out, and it waits for its confirmation from now on; not before, and not
/// while another one waits.
pub proof fn law_t3_tests(c: ConnectionModel, now: Instant, out: Instant, heard: Instant)
    requires
        c.actions.len() == 0,
        c.state is Active,
        c.last_send_any == Some(out),
        c.last_recv_any == Some(heard),
        out.nanos <= now.nanos,
        heard.nanos <= now.nanos,
        c.unacked_recv == 0,
        c.sent.len() == 0,
        c.act_sent is None,
        c.config.t1.nanos > 0,
        c.test_sent matches Some(at) ==> at.nanos <= now.nanos < at.nanos + c.config.t1.nanos,
    ensures
        ({
            let d = handled(c, InputModel::Tick, now);
            let idle = now.nanos - out.nanos >= c.config.t3.nanos && now.nanos - heard.nanos
                >= c.config.t3.nanos;
            &&& c.test_sent is None && idle ==> d.actions == seq![
                ActionModel::SendApdu(ApduModel::U { function: UFunction::TestFrAct }),
            ] && d.test_sent == Some(now) && d.last_send_any == Some(now) && d.state is Active
            &&& c.test_sent is Some || !idle ==> d == c
        }),
{
    let d = handled(c, InputModel::Tick, now);
    assert(c.actions =~= Seq::empty());
    if c.test_sent is None && now.nanos - out.nanos >= c.config.t3.nanos && now.nanos - heard.nanos
        >= c.config.t3.nanos {
        assert(d.actions =~= seq![
            ActionModel::SendApdu(ApduModel::U { function: UFunction::TestFrAct }),
        ]);
    }
}

/// When anything was last sent or received: an APDU that comes in is noted,
/// and so is one that goes out, whichever it is.
pub proof fn law_contact_noted(c: ConnectionModel, input: InputModel, now: Instant)
    requires
        c.actions.len() == 0,
    ensures
        ({
            let d = handled(c, input, now);
            &&& d.last_recv_any == if input is Apdu {
                Some(now)
            } else {
                c.last_recv_any
            }
            &&& (exists|i: int| 0 <= i < d.actions.len() && #[trigger] d.actions[i] is SendApdu)
                ==> d.last_send_any == Some(now)
            &&& (forall|i: int| 0 <= i < d.actions.len() ==> !(#[trigger] d.actions[i] is SendApdu))
                ==> d.last_send_any == c.last_send_any
        }),
{
    let t = c.taken(input, now);
    let d = handled(c, input, now);
    let heard = ConnectionModel { last_recv_any: Some(now), ..c };
    lemma_timers_append(t, now);
    match input {
        InputModel::Apdu(ApduModel::U { function }) => {
            lemma_flush_contact(heard.started(), now);
            lemma_flush_keeps(heard.started(), now);
        },
        InputModel::Apdu(ApduModel::S { recv }) => {
            let left = ConnectionModel { sent: unacked(heard.sent, recv), ..heard };
            lemma_flush_contact(left, now);
            lemma_flush_keeps(left, now);
        },
        InputModel::Apdu(ApduModel::I { recv, .. }) => {
            let counted = heard.counted(now);
            let left = ConnectionModel { sent: unacked(counted.sent, recv), ..counted };
            lemma_flush_contact(left, now);
            lemma_flush_keeps(left, now);
        },
        _ => {},
    }
    let n = t.actions.len() as int;
    assert(n > 0 && t.actions[0] is SendApdu ==> t.last_send_any == Some(now));
    assert(n > 1 && t.actions[1] is SendApdu ==> t.last_send_any == Some(now));
    assert(t.last_send_any == c.last_send_any || (n > 0 && t.actions[0] is SendApdu) || (n > 1
        && t.actions[1] is SendApdu));
    assert(t.last_send_any != Some(now) ==> n <= 2);
    assert(contact(t, c, now));
    lemma_timers_contact(t, c, now);
}

/// The last send is noted: `t` has sent nothing since `c`, or it was now.
spec fn contact(t: ConnectionModel, c: ConnectionModel, now: Instant) -> bool {
    &&& (exists|i: int| 0 <= i < t.actions.len() && #[trigger] t.actions[i] is SendApdu)
        ==> t.last_send_any == Some(now)
    &&& (forall|i: int| 0 <= i < t.actions.len() ==> !(#[trigger] t.actions[i] is SendApdu))
        ==> t.last_send_any == c.last_send_any
}

proof fn lemma_flush_contact(c: ConnectionModel, now: Instant)
    ensures
        c.flush(now).actions.len() >= c.actions.len(),
        forall|i: int|
            0 <= i < c.actions.len() ==> (#[trigger] c.flush(now).actions[i]) == c.actions[i],
        c.flush(now).actions.len() == c.actions.len() ==> c.flush(now).last_send_any
            == c.last_send_any,
        c.flush(now).actions.len() > c.actions.len() ==> c.flush(now).last_send_any == Some(now)
            && c.flush(now).actions[c.actions.len() as int] is SendApdu,
    decreases c.pending.len(),
{
    if c.pending.len() > 0 && c.sent.len() < c.config.k {
        let popped = ConnectionModel { pending: c.pending.skip(1), ..c };
        let next = popped.send_i(c.pending[0], now);
        lemma_flush_contact(next, now);
        assert forall|i: int| 0 <= i < c.actions.len() implies (#[trigger] c.flush(now).actions[i])
            == c.actions[i] by {
            assert(next.flush(now).actions[i] == next.actions[i]);
        }
        assert(next.flush(now).actions[c.actions.len() as int] == next.actions[c.actions.len() as int]);
    }
}

proof fn lemma_timers_contact(t: ConnectionModel, c: ConnectionModel, now: Instant)
    requires
        contact(t, c, now),
    ensures
        contact(t.run_timers(now), c, now),
{
    let d = t.run_timers(now);
    let n = t.actions.len() as int;
    lemma_timers_append(t, now);
    if exists|i: int| 0 <= i < t.actions.len() && #[trigger] t.actions[i] is SendApdu {
        let i = choose|i: int| 0 <= i < t.actions.len() && #[trigger] t.actions[i] is SendApdu;
        assert(d.actions[i] is SendApdu);
    } else if d.last_send_any != t.last_send_any {
        assert(d.actions[n] is SendApdu);
    }
    assert(d.last_send_any == t.last_send_any || d.last_send_any == Some(now));
    if d.last_send_any == t.last_send_any {
        assert forall|i: int| 0 <= i < d.actions.len() && !(exists|j: int|
            0 <= j < t.actions.len() && #[trigger] t.actions[j] is SendApdu) && d.last_send_any
            != Some(now) implies !(#[trigger] d.actions[i] is SendApdu) by {
            if i < n {
                assert(d.actions[i] == t.actions[i]);
            }
        }
    }
}

// ---------------------------------------------------------------------------
// The window of received frames
// ---------------------------------------------------------------------------

/// An I-frame in its turn is counted: its ASDU is delivered, the next number is
/// expected, and the `w`-th unacknowledged one is acknowledged at once with
/// that number.
pub proof fn law_w_acknowledges(
    c: ConnectionModel,
    asdu: Seq<u8>,
    recv: int,
    now: Instant,
)
    requires
        c.actions.len() == 0,
        c.state is Active,
        c.sent.len() == 0,
        c.pending.len() == 0,
        c.test_sent is None,
        c.act_sent is None,
        c.config.t2.nanos > 0,
        c.config.t3.nanos > 0,
        0 <= c.unacked_recv < u16::MAX,
    ensures
        ({
            let d = handled(
                c,
                InputModel::Apdu(ApduModel::I { send: c.recv_next, recv, asdu }),
                now,
            );
            let next = (c.recv_next + 1) % 32768;
            &&& d.recv_next == next
            &&& d.last_recv_iframe == Some(now)
            &&& d.state is Active
            &&& c.unacked_recv + 1 < c.config.w ==> d.actions == seq![
                ActionModel::DeliverAsdu(asdu),
            ] && d.unacked_recv == c.unacked_recv + 1
            &&& c.unacked_recv + 1 >= c.config.w ==> d.actions == seq![
                ActionModel::DeliverAsdu(asdu),
                ActionModel::SendApdu(ApduModel::S { recv: next }),
            ] && d.unacked_recv == 0
        }),
{
    let d = handled(c, InputModel::Apdu(ApduModel::I { send: c.recv_next, recv, asdu }), now);
    assert(c.actions =~= Seq::empty());
    if c.unacked_recv + 1 < c.config.w {
        assert(d.actions =~= seq![ActionModel::DeliverAsdu(asdu)]);
    } else {
        assert(d.actions =~= seq![
            ActionModel::DeliverAsdu(asdu),
            ActionModel::SendApdu(ApduModel::S { recv: (c.recv_next + 1) % 32768 }),
        ]);
    }
}

/// An active connection with room in its window sends an ASDU at once, under
/// the next number, and acknowledges with it everything received.
pub proof fn law_sends_now(c: ConnectionModel, asdu: Seq<u8>, now: Instant)
    requires
        c.actions.len() == 0,
        c.state is Active,
        c.sent.len() < c.config.k,
    ensures
        ({
            let d = handled(c, InputModel::SendAsdu(asdu), now);
            &&& d.actions.len() > 0
            &&& d.actions[0] == ActionModel::SendApdu(
                ApduModel::I { send: c.send_next, recv: c.recv_next, asdu },
            )
            &&& d.send_next == (c.send_next + 1) % 32768
            &&& d.unacked_recv == 0
            &&& d.sent == c.sent.push((c.send_next, now))
        }),
{
    lemma_timers_append(c.taken(InputModel::SendAsdu(asdu), now), now);
}

// ---------------------------------------------------------------------------
// Handshakes
// ---------------------------------------------------------------------------

/// A client that is stopped asks for the start, and waits for the
/// confirmation from now on. Nobody else reacts to the user's wish.
pub proof fn law_start_asked(c: ConnectionModel, now: Instant)
    requires
        c.actions.len() == 0,
        c.config.t1.nanos > 0,
        c.sent.len() == 0,
        c.test_sent is None,
        c.unacked_recv == 0,
    ensures
        ({
            let d = handled(c, InputModel::StartDt, now);
            c.role is Client && c.state is Stopped ==> {
                &&& d.actions == seq![
                    ActionModel::SendApdu(ApduModel::U { function: UFunction::StartDtAct }),
                    ActionModel::StateChanged(State::Starting),
                ]
                &&& d.state is Starting
                &&& d.act_sent == Some(now)
            }
        }),
        !(c.role is Client && c.state is Stopped) ==> handled(c, InputModel::StartDt, now)
            == handled(c, InputModel::Tick, now),
{
    let d = handled(c, InputModel::StartDt, now);
    if c.role is Client && c.state is Stopped {
        assert(d.actions =~= seq![
            ActionModel::SendApdu(ApduModel::U { function: UFunction::StartDtAct }),
            ActionModel::StateChanged(State::Starting),
        ]);
    }
}

/// A start that is confirmed or asked for turns data transfer on: a client
/// that asked becomes active, a stopped server confirms and becomes active.
pub proof fn law_started(c: ConnectionModel, now: Instant)
    requires
        c.actions.len() == 0,
        c.config.t1.nanos > 0,
        c.config.t3.nanos > 0,
        c.sent.len() == 0,
        c.pending.len() == 0,
        c.test_sent is None,
        c.unacked_recv == 0,
    ensures
        c.role is Client && c.state is Starting ==> {
            let d = handled(
                c,
                InputModel::Apdu(ApduModel::U { function: UFunction::StartDtCon }),
                now,
            );
            &&& d.actions == seq![ActionModel::StateChanged(State::Active)]
            &&& d.state is Active
            &&& d.act_sent is None
        },
        c.role is Server && c.state is Stopped && c.act_sent is None ==> {
            let d = handled(
                c,
                InputModel::Apdu(ApduModel::U { function: UFunction::StartDtAct }),
                now,
            );
            &&& d.actions == seq![
                ActionModel::SendApdu(ApduModel::U { function: UFunction::StartDtCon }),
                ActionModel::StateChanged(State::Active),
            ]
            &&& d.state is Active
        },
{
    let con = handled(c, InputModel::Apdu(ApduModel::U { function: UFunction::StartDtCon }), now);
    let act = handled(c, InputModel::Apdu(ApduModel::U { function: UFunction::StartDtAct }), now);
    if c.role is Client && c.state is Starting {
        assert(con.actions =~= seq![ActionModel::StateChanged(State::Active)]);
    }
    if c.role is Server && c.state is Stopped && c.act_sent is None {
        assert(act.actions =~= seq![
            ActionModel::SendApdu(ApduModel::U { function: UFunction::StartDtCon }),
            ActionModel::StateChanged(State::Active),
        ]);
    }
}

/// The user's wish to stop: an active client asks for it and waits for the
/// confirmation from now on, an active server just stops.
pub proof fn law_stop_asked(c: ConnectionModel, now: Instant)
    requires
        c.actions.len() == 0,
        c.config.t1.nanos > 0,
        c.config.t3.nanos > 0,
        c.state is Active,
        c.sent.len() == 0,
        c.test_sent is None,
        c.act_sent is None,
        c.unacked_recv == 0,
    ensures
        ({
            let d = handled(c, InputModel::StopDt, now);
            &&& c.role is Client ==> d.actions == seq![
                ActionModel::SendApdu(ApduModel::U { function: UFunction::StopDtAct }),
                ActionModel::StateChanged(State::Stopping),
            ] && d.state is Stopping && d.act_sent == Some(now)
            &&& c.role is Server ==> d.actions == seq![ActionModel::StateChanged(State::Stopped)]
                && d.state is Stopped
        }),
{
    let d = handled(c, InputModel::StopDt, now);
    if c.role is Client {
        assert(d.actions =~= seq![
            ActionModel::SendApdu(ApduModel::U { function: UFunction::StopDtAct }),
            ActionModel::StateChanged(State::Stopping),
        ]);
    } else {
        assert(d.actions =~= seq![ActionModel::StateChanged(State::Stopped)]);
    }
}

/// The stop itself: a server that is asked confirms and is stopped, and a
/// client that hears the confirmation with nothing outstanding is stopped and
/// done.
pub proof fn law_stopped(c: ConnectionModel, now: Instant)
    requires
        c.actions.len() == 0,
        c.config.t1.nanos > 0,
        c.config.t3.nanos > 0,
        c.sent.len() == 0,
        c.test_sent is None,
        c.unacked_recv == 0,
    ensures
        c.role is Server && c.state is Active && c.act_sent is None ==> {
            let d = handled(
                c,
                InputModel::Apdu(ApduModel::U { function: UFunction::StopDtAct }),
                now,
            );
            &&& d.actions == seq![
                ActionModel::SendApdu(ApduModel::U { function: UFunction::StopDtCon }),
                ActionModel::StateChanged(State::Stopped),
            ]
            &&& d.state is Stopped
        },
        c.role is Client && c.state is Stopping ==> {
            let d = handled(
                c,
                InputModel::Apdu(ApduModel::U { function: UFunction::StopDtCon }),
                now,
            );
            &&& d.actions == seq![
                ActionModel::StateChanged(State::Stopped),
                ActionModel::Disconnect(DisconnectReason::StoppedCleanly),
            ]
            &&& d.state is Stopped
            &&& d.act_sent is None
        },
{
    let act = handled(c, InputModel::Apdu(ApduModel::U { function: UFunction::StopDtAct }), now);
    let con = handled(c, InputModel::Apdu(ApduModel::U { function: UFunction::StopDtCon }), now);
    if c.role is Server && c.state is Active && c.act_sent is None {
        assert(act.actions =~= seq![
            ActionModel::SendApdu(ApduModel::U { function: UFunction::StopDtCon }),
            ActionModel::StateChanged(State::Stopped),
        ]);
    }
    if c.role is Client && c.state is Stopping {
        assert(con.actions =~= seq![
            ActionModel::StateChanged(State::Stopped),
            ActionModel::Disconnect(DisconnectReason::StoppedCleanly),
        ]);
    }
}

/// A stopping client whose stop is confirmed is done with the acknowledgement
/// of the last frame, and not while a frame or an ASDU is left.
pub proof fn law_stop_waits(c: ConnectionModel, recv: int, now: Instant)
    requires
        c.actions.len() == 0,
        c.config.t1.nanos > 0,
        c.config.t3.nanos > 0,
        c.role is Client,
        c.state is Stopping,
        c.test_sent is None,
        c.unacked_recv == 0,
        c.pending.len() == 0,
        forall|i: int|
            0 <= i < c.sent.len() ==> (#[trigger] c.sent[i]).1.nanos <= now.nanos < c.sent[i].1.nanos
                + c.config.t1.nanos,
        c.act_sent matches Some(at) ==> at.nanos <= now.nanos < at.nanos + c.config.t1.nanos,
    ensures
        ({
            let d = handled(c, InputModel::Apdu(ApduModel::S { recv }), now);
            &&& c.act_sent is None && d.sent.len() == 0 ==> d.actions == seq![
                ActionModel::StateChanged(State::Stopped),
                ActionModel::Disconnect(DisconnectReason::StoppedCleanly),
            ]
            &&& c.act_sent is Some || d.sent.len() > 0 ==> d.actions.len() == 0 && d.state
                is Stopping
        }),
        c.sent.len() > 0 ==> {
            let d = handled(
                c,
                InputModel::Apdu(ApduModel::U { function: UFunction::StopDtCon }),
                now,
            );
            d.actions.len() == 0 && d.state is Stopping && d.act_sent is None
        },
{
    let heard = ConnectionModel { last_recv_any: Some(now), ..c };
    let left = ConnectionModel { sent: unacked(heard.sent, recv), ..heard };
    lemma_unacked_part(c.sent, recv);
    let d = handled(c, InputModel::Apdu(ApduModel::S { recv }), now);
    assert(left.flush(now) == left);
    if left.sent.len() > 0 {
        assert(left.sent[0] == c.sent[c.sent.len() - left.sent.len()]);
    }
    assert(c.actions =~= Seq::empty());
    if c.act_sent is None && d.sent.len() == 0 {
        assert(d.actions =~= seq![
            ActionModel::StateChanged(State::Stopped),
            ActionModel::Disconnect(DisconnectReason::StoppedCleanly),
        ]);
    }
}

/// A handshake frame that the station does not wait for is a protocol error:
/// the connection is closed.
pub proof fn law_unexpected_u_frame(c: ConnectionModel, function: UFunction, now: Instant)
    requires
        match function {
            UFunction::StartDtAct => !(c.role is Server && c.state is Stopped),
            UFunction::StartDtCon => !(c.role is Client && c.state is Starting),
            UFunction::StopDtAct => c.role is Client,
            UFunction::StopDtCon => !(c.role is Client && c.state is Stopping),
            _ => false,
        },
    ensures
        ({
            let d = handled(c, InputModel::Apdu(ApduModel::U { function }), now);
            &&& d.state is Closed
            &&& d.actions.len() > c.actions.len()
            &&& d.actions[c.actions.len() as int] == ActionModel::Disconnect(
                DisconnectReason::ProtocolError,
            )
        }),
{
    lemma_timers_append(c.taken(InputModel::Apdu(ApduModel::U { function }), now), now);
}

/// A TESTFR_con ends the wait for it, and does nothing else.
pub proof fn law_test_confirmed(c: ConnectionModel, now: Instant)
    requires
        c.actions.len() == 0,
        c.sent.len() == 0,
        c.act_sent is None,
        c.unacked_recv == 0,
        c.state is Active,
        c.config.t3.nanos > 0,
        c.last_send_any matches Some(t) ==> t.nanos <= now.nanos,
    ensures
        handled(c, InputModel::Apdu(ApduModel::U { function: UFunction::TestFrCon }), now) == (
        ConnectionModel { test_sent: None, last_recv_any: Some(now), ..c }),
{
}

/// Outside data transfer an acknowledgement means nothing; inside, it takes the
/// same frames off the window whether it comes in an S-frame or in an I-frame.
pub proof fn law_acknowledgement_counts(c: ConnectionModel, recv: int, asdu: Seq<u8>, now: Instant)
    requires
        c.pending.len() == 0,
    ensures
        !(c.state is Active || c.state is Stopping) ==> c.taken(
            InputModel::Apdu(ApduModel::S { recv }),
            now,
        ) == (ConnectionModel { last_recv_any: Some(now), ..c }),
        c.state is Active || c.state is Stopping ==> c.taken(
            InputModel::Apdu(ApduModel::S { recv }),
            now,
        ).sent == c.taken(
            InputModel::Apdu(ApduModel::I { send: c.recv_next, recv, asdu }),
            now,
        ).sent,
{
}

/// What is submitted while data transfer is off waits, in order, and nothing
/// goes out.
pub proof fn law_submitted_early(c: ConnectionModel, asdu: Seq<u8>, now: Instant)
    requires
        c.sent.len() == 0,
        c.test_sent is None,
        c.act_sent is None,
        c.unacked_recv == 0,
        c.state is Stopped,
    ensures
        handled(c, InputModel::SendAsdu(asdu), now) == (ConnectionModel {
            pending: c.pending.push(asdu),
            ..c
        }),
{
}

/// What is submitted while data transfer is off or the window is full waits
/// behind what waits already, and changes nothing else.
pub proof fn law_submitted_waits(c: ConnectionModel, asdu: Seq<u8>, now: Instant)
    requires
        !(c.state is Active) || c.sent.len() >= c.config.k,
    ensures
        c.taken(InputModel::SendAsdu(asdu), now) == (ConnectionModel {
            pending: c.pending.push(asdu),
            ..c
        }),
{
}

/// N(R) acknowledges a frame when it is 1 to 16383 ahead of its number, counted
/// modulo 32768.
pub proof fn law_acknowledged_by_distance(nr: int, seq: int)
    requires
        0 <= nr < 32768,
        0 <= seq < 32768,
    ensures
        acks(nr, seq) <==> (seq < nr <= seq + 16383 || (nr < seq && nr + 32768 <= seq + 16383)),
{
}

/// A server that is asked to stop confirms and is stopped, in whatever state it
/// was; that is reported unless it was stopped already.
pub proof fn law_server_stops(c: ConnectionModel, now: Instant)
    requires
        c.role is Server,
        c.actions.len() == 0,
    ensures
        ({
            let t = c.taken(
                InputModel::Apdu(ApduModel::U { function: UFunction::StopDtAct }),
                now,
            );
            let con = ActionModel::SendApdu(ApduModel::U { function: UFunction::StopDtCon });
            &&& t.state is Stopped
            &&& t.sent == c.sent
            &&& t.pending == c.pending
            &&& t.last_send_any == Some(now)
            &&& t.last_recv_any == Some(now)
            &&& c.state is Stopped ==> t.actions == seq![con]
            &&& !(c.state is Stopped) ==> t.actions == seq![
                con,
                ActionModel::StateChanged(State::Stopped),
            ]
        }),
{
    let t = c.taken(InputModel::Apdu(ApduModel::U { function: UFunction::StopDtAct }), now);
    if c.state is Stopped {
        assert(t.actions =~= seq![t.actions[0]]);
    } else {
        assert(t.actions =~= seq![t.actions[0], t.actions[1]]);
    }
}

/// The count of received frames sticks at the largest number, and an I-frame in
/// its turn is then acknowledged however large `w` is.
pub proof fn law_received_count_sticks(c: ConnectionModel, recv: int, asdu: Seq<u8>, now: Instant)
    requires
        c.state is Active,
        c.pending.len() == 0,
        c.unacked_recv == u16::MAX,
    ensures
        ({
            let t = c.taken(
                InputModel::Apdu(ApduModel::I { send: c.recv_next, recv, asdu }),
                now,
            );
            &&& t.actions.len() == c.actions.len() + 2
            &&& t.actions.last() == ActionModel::SendApdu(
                ApduModel::S { recv: (c.recv_next + 1) % 32768 },
            )
            &&& t.unacked_recv == 0
        }),
{
}

/// A new connection is stopped, numbers from 0 and has nothing outstanding.
pub proof fn law_opened(role: Role, config: Config)
    ensures
        ({
            let c = opened(role, config);
            &&& c.role == role && c.config == config
            &&& c.state is Stopped
            &&& c.send_next == 0 && c.recv_next == 0 && c.unacked_recv == 0
            &&& c.sent.len() == 0 && c.pending.len() == 0 && c.actions.len() == 0
            &&& c.last_recv_iframe is None && c.last_send_any is None && c.last_recv_any is None
            &&& c.test_sent is None && c.act_sent is None
        }),
{
}

} // verus!
