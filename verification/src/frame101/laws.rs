//! What holds of every IEC 60870-5-101 link, whatever happens to it.

use vstd::prelude::*;
use crate::frame101::control::{
    law_control_round_trip, ControlField, Direction, FuncCodePrimary, FuncCodeSecondary,
};
use crate::frame101::frame::{FrameModel, SingleChar};
use crate::frame101::link::{
    handled, opened, ActionModel, Config, InputModel, LinkModel, Mode, Reason, Role,
};
use crate::time::Instant;

verus! {

/// The ASDUs that a list of actions delivers, in order.
pub open spec fn delivered(actions: Seq<ActionModel>) -> Seq<Seq<u8>>
    decreases actions.len(),
{
    if actions.len() == 0 {
        Seq::empty()
    } else {
        let front = delivered(actions.drop_last());
        match actions.last() {
            ActionModel::DeliverAsdu(asdu) => front.push(asdu),
            _ => front,
        }
    }
}

/// What every link keeps: an outstation never waits for a confirmation, and no
/// frame is transmitted more often than once and `max_retries` times again.
pub open spec fn consistent(c: LinkModel) -> bool {
    &&& c.role is Outstation ==> c.pending is None
    &&& c.pending matches Some(p) ==> 1 <= p.attempts <= c.config.max_retries + 1
}

/// A link is consistent when it is set up, and every input leaves it
/// consistent.
pub proof fn law_link_consistent(
    role: Role,
    mode: Mode,
    config: Config,
    c: LinkModel,
    input: InputModel,
    now: Instant,
)
    ensures
        consistent(opened(role, mode, config)),
        consistent(c) ==> consistent(handled(c, input, now)),
{
}

// ---------------------------------------------------------------------------
// The master
// ---------------------------------------------------------------------------

/// The ASDUs that wait to be sent once the input has been taken.
pub open spec fn waiting(c: LinkModel, input: InputModel) -> Seq<Seq<u8>> {
    match input {
        InputModel::SendUserData(asdu) => c.send_queue.push(asdu),
        _ => c.send_queue,
    }
}

/// FCB alternates: each confirmed user-data frame carries the opposite of the
/// one before, and nothing else touches it. ASDUs go out in the order they
/// came in, one frame each, and none is lost.
pub proof fn law_fcb_alternates(c: LinkModel, input: InputModel, now: Instant)
    requires
        c.role is Master,
    ensures
        ({
            let d = handled(c, input, now);
            let q = waiting(c, input);
            ||| d.send_queue == q && d.fcb == c.fcb
            ||| {
                &&& q.len() > 0
                &&& d.send_queue == q.skip(1)
                &&& d.fcb == !c.fcb
                &&& d.actions.contains(
                    ActionModel::SendFrame(c.variable(c.next_control(), q[0])),
                )
            }
        }),
{
    let t = c.taken(input, now);
    let d = handled(c, input, now);
    let q = waiting(c, input);
    if t.fcb != c.fcb {
        let f = ActionModel::SendFrame(c.variable(c.next_control(), q[0]));
        let i = t.actions.len() - 1;
        assert(t.actions[i] == f);
        assert(d.actions[i] == f);
    }
}

/// While a frame waits for its confirmation, nothing but that same frame is
/// transmitted, unless the peer answers or the link is reset.
pub proof fn law_one_in_flight(c: LinkModel, input: InputModel, now: Instant, i: int)
    requires
        c.role is Master,
        c.pending is Some,
        !(input is FrameReceived),
        !(input is ResetRemoteLink),
        c.actions.len() <= i < handled(c, input, now).actions.len(),
    ensures
        handled(c, input, now).actions[i] matches ActionModel::SendFrame(f) ==> f
            == c.pending->0.frame,
{
}

/// A confirmation that is overdue has the same frame sent again, as often as
/// `max_retries` says; then the link is declared down.
pub proof fn law_retries_then_fails(c: LinkModel, now: Instant)
    requires
        consistent(c),
        c.pending matches Some(p) && now.reached(p.sent_at, c.config.timeout),
    ensures
        ({
            let p = c.pending->0;
            let d = handled(c, InputModel::Tick, now);
            if p.attempts <= c.config.max_retries {
                &&& d.actions == c.actions.push(ActionModel::SendFrame(p.frame))
                &&& d.pending->0.attempts == p.attempts + 1
                &&& d.pending->0.frame == p.frame
                &&& d.pending->0.sent_at == now
                &&& d.link_state == c.link_state
            } else {
                &&& p.attempts == c.config.max_retries + 1
                &&& d.pending is None
                &&& d.link_state is Failed
                &&& d.actions.last() == ActionModel::LinkError(Reason::AckTimeout)
            }
        }),
{
}

// ---------------------------------------------------------------------------
// The outstation
// ---------------------------------------------------------------------------

/// An outstation does nothing about frames for another address.
pub proof fn law_ignores_other_addresses(c: LinkModel, frame: FrameModel, now: Instant)
    requires
        consistent(c),
        c.role is Outstation,
        match frame {
            FrameModel::Single(_) => true,
            FrameModel::Fixed { address, .. } => address != c.config.link_address,
            FrameModel::Variable { address, .. } => address != c.config.link_address,
        },
    ensures
        handled(c, InputModel::FrameReceived(frame), now) == c,
{
}

/// A confirmed user-data frame is always acknowledged. It is delivered unless
/// it is a retransmission: its FCB counts and is the one seen last.
pub proof fn law_confirmed_data(
    c: LinkModel,
    fcb: bool,
    fcv: bool,
    asdu: Seq<u8>,
    now: Instant,
)
    requires
        consistent(c),
        c.role is Outstation,
        c.actions.len() == 0,
    ensures
        ({
            let cf = ControlField::Primary { fcb, fcv, func: FuncCodePrimary::UserDataConfirmed };
            let d = handled(c, InputModel::FrameReceived(c.variable(cf, asdu)), now);
            &&& d.actions.contains(
                ActionModel::SendFrame(
                    c.fixed(
                        ControlField::Secondary {
                            acd: false,
                            dfc: false,
                            func: FuncCodeSecondary::Ack,
                        },
                    ),
                ),
            )
            &&& delivered(d.actions) == (if fcv && c.last_fcb_seen == Some(fcb) {
                Seq::<Seq<u8>>::empty()
            } else {
                seq![asdu]
            })
            &&& d.last_fcb_seen == (if fcv {
                Some(fcb)
            } else {
                c.last_fcb_seen
            })
        }),
{
    let cf = ControlField::Primary { fcb, fcv, func: FuncCodePrimary::UserDataConfirmed };
    let frame = c.variable(cf, asdu);
    let d = handled(c, InputModel::FrameReceived(frame), now);
    law_control_round_trip(cf);
    let ack = ActionModel::SendFrame(
        c.fixed(
            ControlField::Secondary { acd: false, dfc: false, func: FuncCodeSecondary::Ack },
        ),
    );
    assert(d.actions[0] == ack);
    reveal_with_fuel(delivered, 3);
    assert(delivered(d.actions) =~= (if fcv && c.last_fcb_seen == Some(fcb) {
        Seq::<Seq<u8>>::empty()
    } else {
        seq![asdu]
    }));
}

/// A poll is answered with the ASDU that has waited longest, and with "no
/// data" when none waits.
pub proof fn law_poll_in_order(c: LinkModel, func: FuncCodePrimary, now: Instant)
    requires
        consistent(c),
        c.role is Outstation,
        func is RequestUserDataClass1 || func is RequestUserDataClass2,
    ensures
        ({
            let poll = c.fixed(ControlField::Primary { fcb: false, fcv: false, func });
            let d = handled(c, InputModel::FrameReceived(poll), now);
            if c.send_queue.len() > 0 {
                &&& d.send_queue == c.send_queue.skip(1)
                &&& d.actions == c.actions.push(
                    ActionModel::SendFrame(
                        c.variable(
                            ControlField::Secondary {
                                acd: false,
                                dfc: false,
                                func: FuncCodeSecondary::RespondUserData,
                            },
                            c.send_queue[0],
                        ),
                    ),
                )
            } else {
                &&& d.send_queue == c.send_queue
                &&& d.actions == c.actions.push(
                    ActionModel::SendFrame(
                        c.fixed(
                            ControlField::Secondary {
                                acd: false,
                                dfc: false,
                                func: FuncCodeSecondary::NackNoData,
                            },
                        ),
                    ),
                )
            }
        }),
{
    law_control_round_trip(ControlField::Primary { fcb: false, fcv: false, func });
}

// ---------------------------------------------------------------------------
// Both together
// ---------------------------------------------------------------------------

/// The outstation has not seen the FCB that the master uses next.
pub open spec fn in_step(master: LinkModel, outstation: LinkModel) -> bool {
    &&& outstation.role is Outstation
    &&& consistent(outstation)
    &&& outstation.actions.len() == 0
    &&& outstation.config.link_address == master.config.link_address
    &&& outstation.last_fcb_seen != Some(master.fcb)
}

/// Between a master and an outstation that are in step, the next user-data
/// frame is delivered exactly once although it arrives twice, and they stay in
/// step for the frame after it.
pub proof fn law_exactly_once(
    master: LinkModel,
    outstation: LinkModel,
    now: Instant,
    later: Instant,
)
    requires
        master.role is Master,
        master.pending is None,
        master.send_queue.len() > 0,
        in_step(master, outstation),
    ensures
        ({
            let sent = master.flush(now);
            let arrival = InputModel::FrameReceived(sent.pending->0.frame);
            let first = handled(outstation, arrival, now);
            let again = handled(LinkModel { actions: Seq::empty(), ..first }, arrival, later);
            &&& delivered(first.actions) == seq![master.send_queue[0]]
            &&& delivered(again.actions) == Seq::<Seq<u8>>::empty()
            &&& in_step(sent, LinkModel { actions: Seq::empty(), ..first })
            &&& in_step(sent, LinkModel { actions: Seq::empty(), ..again })
        }),
{
    let asdu = master.send_queue[0];
    let cf = master.next_control();
    let frame = outstation.variable(cf, asdu);
    law_confirmed_data(outstation, master.fcb, true, asdu, now);
    let first = handled(outstation, InputModel::FrameReceived(frame), now);
    let idle = LinkModel { actions: Seq::empty(), ..first };
    law_link_consistent(
        outstation.role,
        outstation.mode,
        outstation.config,
        outstation,
        InputModel::FrameReceived(frame),
        now,
    );
    law_control_round_trip(cf);
    assert(idle.variable(cf, asdu) == frame);
    law_confirmed_data(idle, master.fcb, true, asdu, later);
    law_link_consistent(
        idle.role,
        idle.mode,
        idle.config,
        idle,
        InputModel::FrameReceived(frame),
        later,
    );
}

/// A reset puts a fresh master and an outstation in step.
pub proof fn law_reset_in_step(master: LinkModel, outstation: LinkModel, now: Instant)
    requires
        outstation.role is Outstation,
        consistent(outstation),
        outstation.config.link_address == master.config.link_address,
        master.role is Master,
    ensures
        ({
            let reset = master.on_reset_remote_link(now);
            let arrival = InputModel::FrameReceived(reset.pending->0.frame);
            let d = handled(outstation, arrival, now);
            &&& d.link_state is Ready
            &&& in_step(reset, LinkModel { actions: Seq::empty(), ..d })
        }),
{
    law_control_round_trip(
        ControlField::Primary {
            fcb: false,
            fcv: false,
            func: FuncCodePrimary::ResetRemoteLink,
        },
    );
}

// ---------------------------------------------------------------------------
// Whole runs of a master
// ---------------------------------------------------------------------------

/// The link after a run of inputs, each with the time it came at. After each
/// input the actions have been handed out.
pub open spec fn ran(c: LinkModel, steps: Seq<(InputModel, Instant)>) -> LinkModel
    decreases steps.len(),
{
    if steps.len() == 0 {
        c
    } else {
        LinkModel {
            actions: Seq::empty(),
            ..handled(ran(c, steps.drop_last()), steps.last().0, steps.last().1)
        }
    }
}

/// All actions that are handed out during a run, in order.
pub open spec fn emitted(c: LinkModel, steps: Seq<(InputModel, Instant)>) -> Seq<ActionModel>
    decreases steps.len(),
{
    if steps.len() == 0 {
        Seq::empty()
    } else {
        emitted(c, steps.drop_last()) + handled(
            ran(c, steps.drop_last()),
            steps.last().0,
            steps.last().1,
        ).actions
    }
}

/// The ASDUs that the user submits during a run, in order.
pub open spec fn submitted(steps: Seq<(InputModel, Instant)>) -> Seq<Seq<u8>>
    decreases steps.len(),
{
    if steps.len() == 0 {
        Seq::empty()
    } else {
        let front = submitted(steps.drop_last());
        match steps.last().0 {
            InputModel::SendUserData(asdu) => front.push(asdu),
            _ => front,
        }
    }
}

/// The distinct data frames so far, after one more action: a data frame that
/// is the same as the last one is a retransmission.
pub open spec fn noted(frames: Seq<FrameModel>, action: ActionModel) -> Seq<FrameModel> {
    match action {
        ActionModel::SendFrame(f) => if f is Variable && (frames.len() == 0 || frames.last() != f) {
            frames.push(f)
        } else {
            frames
        },
        _ => frames,
    }
}

/// The distinct data frames that a list of actions sends, in order.
pub open spec fn data_frames(actions: Seq<ActionModel>) -> Seq<FrameModel>
    decreases actions.len(),
{
    if actions.len() == 0 {
        Seq::empty()
    } else {
        noted(data_frames(actions.drop_last()), actions.last())
    }
}

/// A data frame waits for its confirmation.
pub open spec fn in_flight(c: LinkModel) -> bool {
    c.pending matches Some(p) && p.frame is Variable
}

/// The input is an acknowledgement: the single octet, or a control frame.
pub open spec fn acks(input: InputModel) -> bool {
    match input {
        InputModel::FrameReceived(FrameModel::Single(SingleChar::Ack)) => true,
        InputModel::FrameReceived(FrameModel::Fixed { control, .. }) => ControlField::decoded(
            control,
            Direction::Secondary,
        ) matches Some(ControlField::Secondary { func: FuncCodeSecondary::Ack, .. }),
        _ => false,
    }
}

/// FCB of the data frame with index `j`, if the first one has FCB `first`.
pub open spec fn fcb_at(first: bool, j: int) -> bool {
    if j % 2 == 0 {
        first
    } else {
        !first
    }
}

/// The data frame with index `j` of a master that has `all` to send.
pub open spec fn data_frame(c: LinkModel, all: Seq<Seq<u8>>, j: int) -> FrameModel {
    c.variable(
        ControlField::Primary {
            fcb: fcb_at(c.fcb, j),
            fcv: true,
            func: FuncCodePrimary::UserDataConfirmed,
        },
        all[j],
    )
}

proof fn lemma_noted(out: Seq<ActionModel>)
    ensures
        forall|s: Seq<ActionModel>, a: ActionModel| #[trigger]
            data_frames(out + s.push(a)) == noted(data_frames(out + s), a),
        data_frames(out + Seq::<ActionModel>::empty()) == data_frames(out),
{
    assert forall|s: Seq<ActionModel>, a: ActionModel| #[trigger]
        data_frames(out + s.push(a)) == noted(data_frames(out + s), a) by {
        assert((out + s.push(a)).drop_last() =~= out + s);
    }
    assert(out + Seq::<ActionModel>::empty() =~= out);
}

/// What one input does to the data frames of a master: it leaves them as they
/// are, or it adds the first ASDU that waits.
proof fn lemma_step_frames(p: LinkModel, input: InputModel, now: Instant, out: Seq<ActionModel>)
    requires
        p.role is Master,
        p.actions == Seq::<ActionModel>::empty(),
        in_flight(p) ==> data_frames(out).len() > 0 && data_frames(out).last()
            == p.pending->0.frame,
        waiting(p, input).len() > 0 && data_frames(out).len() > 0 ==> data_frames(out).last()
            != p.variable(p.next_control(), waiting(p, input)[0]),
    ensures
        ({
            let h = handled(p, input, now);
            let q = waiting(p, input);
            let before = data_frames(out);
            let after = data_frames(out + h.actions);
            let next = p.variable(p.next_control(), q[0]);
            &&& h.role == p.role
            &&& h.config == p.config
            &&& {
                ||| {
                    &&& after == before
                    &&& h.send_queue == q
                    &&& h.fcb == p.fcb
                    &&& in_flight(h) ==> in_flight(p) && h.pending->0.frame == p.pending->0.frame
                }
                ||| {
                    &&& q.len() > 0
                    &&& after == before.push(next)
                    &&& h.send_queue == q.skip(1)
                    &&& h.fcb == !p.fcb
                    &&& in_flight(h) ==> h.pending->0.frame == next
                    &&& p.pending is None || acks(input)
                }
            }
        }),
{
    lemma_noted(out);
}

/// Over any run, a master sends its ASDUs in the order in which they were
/// submitted, none lost: the data frame with index `j` carries the ASDU with
/// index `j`, and FCB alternates from each data frame to the next. Whatever is
/// sent between the two is the first of them again.
pub proof fn law_run_alternates(c: LinkModel, steps: Seq<(InputModel, Instant)>)
    requires
        c.role is Master,
        c.actions == Seq::<ActionModel>::empty(),
        !in_flight(c),
    ensures
        ({
            let d = ran(c, steps);
            let frames = data_frames(emitted(c, steps));
            let all = c.send_queue + submitted(steps);
            &&& frames.len() + d.send_queue.len() == all.len()
            &&& d.send_queue == all.skip(frames.len() as int)
            &&& forall|j: int|
                0 <= j < frames.len() ==> #[trigger] frames[j] == data_frame(c, all, j)
            &&& d.fcb == fcb_at(c.fcb, frames.len() as int)
            &&& in_flight(d) ==> frames.len() > 0 && d.pending->0.frame == frames.last()
            &&& d.role is Master
            &&& d.config == c.config
            &&& d.actions == Seq::<ActionModel>::empty()
        }),
    decreases steps.len(),
{
    let all = c.send_queue + submitted(steps);
    if steps.len() == 0 {
        assert(c.send_queue =~= all.skip(0));
    } else {
        let front = steps.drop_last();
        let (input, now) = steps.last();
        let p = ran(c, front);
        let h = handled(p, input, now);
        let q = waiting(p, input);
        let out = emitted(c, front);
        let before = data_frames(out);
        let after = data_frames(out + h.actions);
        let was = c.send_queue + submitted(front);
        law_run_alternates(c, front);
        assert(q =~= all.skip(before.len() as int));
        assert forall|j: int| 0 <= j < before.len() implies #[trigger] before[j] == data_frame(
            c,
            all,
            j,
        ) by {
            assert(all[j] == was[j]);
        }
        lemma_fcb_tells(c, all, before, p, q);
        lemma_step_frames(p, input, now, out);
        if after != before {
            assert(q.skip(1) =~= all.skip(after.len() as int));
            assert(after.last() == data_frame(c, all, before.len() as int));
            assert forall|j: int| 0 <= j < after.len() implies #[trigger] after[j] == data_frame(
                c,
                all,
                j,
            ) by {
                if j < before.len() {
                    assert(after[j] == before[j]);
                }
            }
        }
    }
}

proof fn lemma_fcb_tells(
    c: LinkModel,
    all: Seq<Seq<u8>>,
    frames: Seq<FrameModel>,
    p: LinkModel,
    q: Seq<Seq<u8>>,
)
    requires
        forall|j: int| 0 <= j < frames.len() ==> #[trigger] frames[j] == data_frame(c, all, j),
        p.fcb == fcb_at(c.fcb, frames.len() as int),
        p.config == c.config,
        q == all.skip(frames.len() as int),
        frames.len() <= all.len(),
    ensures
        q.len() > 0 ==> p.variable(p.next_control(), q[0]) == data_frame(
            c,
            all,
            frames.len() as int,
        ),
        q.len() > 0 && frames.len() > 0 ==> frames.last() != p.variable(p.next_control(), q[0]),
{
}

/// The data frame with index `j` that a master ever sends has control octet
/// 0x53 if `j` is even and 0x73 if it is odd, and carries the ASDU with index
/// `j` that was ever submitted.
pub proof fn law_run_of_master(config: Config, steps: Seq<(InputModel, Instant)>, j: int)
    requires
        0 <= j < data_frames(emitted(opened(Role::Master, Mode::Unbalanced, config), steps)).len(),
    ensures
        j < submitted(steps).len(),
        data_frames(emitted(opened(Role::Master, Mode::Unbalanced, config), steps))[j]
            == (FrameModel::Variable {
            control: if j % 2 == 0 {
                0x53
            } else {
                0x73
            },
            address: config.link_address,
            asdu: submitted(steps)[j],
        }),
{
    let c = opened(Role::Master, Mode::Unbalanced, config);
    law_run_alternates(c, steps);
    assert(c.send_queue + submitted(steps) =~= submitted(steps));
}

/// How many data frames are acknowledged during a run.
pub open spec fn acknowledged(c: LinkModel, steps: Seq<(InputModel, Instant)>) -> int
    decreases steps.len(),
{
    if steps.len() == 0 {
        0
    } else {
        acknowledged(c, steps.drop_last()) + if in_flight(ran(c, steps.drop_last())) && acks(
            steps.last().0,
        ) {
            1int
        } else {
            0int
        }
    }
}

/// No data frame is given up during the run: each waits until it is
/// acknowledged.
pub open spec fn kept(c: LinkModel, steps: Seq<(InputModel, Instant)>) -> bool
    decreases steps.len(),
{
    steps.len() > 0 ==> {
        let p = ran(c, steps.drop_last());
        let d = ran(c, steps);
        &&& kept(c, steps.drop_last())
        &&& in_flight(p) && !acks(steps.last().0) ==> in_flight(d) && d.pending->0.frame
            == p.pending->0.frame
    }
}

/// Over a run in which no data frame is given up, each data frame is first
/// sent only after the one before it has been acknowledged. (Without any
/// timeout and without retries a frame would be given up as it is sent.)
pub proof fn law_run_waits(c: LinkModel, steps: Seq<(InputModel, Instant)>)
    requires
        c.role is Master,
        c.actions == Seq::<ActionModel>::empty(),
        !in_flight(c),
        c.config.timeout.nanos > 0 || c.config.max_retries > 0,
        kept(c, steps),
    ensures
        data_frames(emitted(c, steps)).len() == acknowledged(c, steps) + if in_flight(
            ran(c, steps),
        ) {
            1int
        } else {
            0int
        },
    decreases steps.len(),
{
    if steps.len() > 0 {
        let front = steps.drop_last();
        let (input, now) = steps.last();
        let p = ran(c, front);
        let h = handled(p, input, now);
        let out = emitted(c, front);
        law_run_waits(c, front);
        law_run_alternates(c, front);
        law_run_alternates(c, steps);
        lemma_noted(out);
    }
}

/// The run consists of submissions, acknowledgements and ticks.
pub open spec fn plain(steps: Seq<(InputModel, Instant)>) -> bool {
    forall|i: int|
        0 <= i < steps.len() ==> (#[trigger] steps[i]).0 is SendUserData || steps[i].0 is Tick
            || acks(steps[i].0)
}

proof fn lemma_plain_run(c: LinkModel, steps: Seq<(InputModel, Instant)>)
    requires
        c.role is Master,
        c.pending is None,
        c.send_queue.len() == 0,
        c.actions == Seq::<ActionModel>::empty(),
        c.config.timeout.nanos > 0 || c.config.max_retries > 0,
        kept(c, steps),
        plain(steps),
    ensures
        ran(c, steps).pending is Some ==> in_flight(ran(c, steps)),
        ran(c, steps).pending is None ==> ran(c, steps).send_queue.len() == 0,
    decreases steps.len(),
{
    if steps.len() > 0 {
        let front = steps.drop_last();
        let p = ran(c, front);
        assert(plain(front)) by {
            assert forall|i: int| 0 <= i < front.len() implies (#[trigger] front[i]).0
                is SendUserData || front[i].0 is Tick || acks(front[i].0) by {
                assert(front[i] == steps[i]);
            }
        }
        lemma_plain_run(c, front);
        law_run_alternates(c, front);
        let (input, now) = steps[steps.len() - 1];
        assert(input is SendUserData || input is Tick || acks(input));
    }
}

/// Stop and wait: over a run of submissions, acknowledgements and ticks in
/// which no data frame is given up, every ASDU has been sent, or all up to the
/// one behind the last that was acknowledged.
pub proof fn law_run_stop_and_wait(c: LinkModel, steps: Seq<(InputModel, Instant)>)
    requires
        c.role is Master,
        c.pending is None,
        c.send_queue.len() == 0,
        c.actions == Seq::<ActionModel>::empty(),
        c.config.timeout.nanos > 0 || c.config.max_retries > 0,
        kept(c, steps),
        plain(steps),
    ensures
        data_frames(emitted(c, steps)).len() == if submitted(steps).len() <= acknowledged(c, steps)
            + 1 {
            submitted(steps).len() as int
        } else {
            acknowledged(c, steps) + 1
        },
{
    lemma_plain_run(c, steps);
    law_run_waits(c, steps);
    law_run_alternates(c, steps);
}

} // verus!
