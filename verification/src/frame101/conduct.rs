//! What goes over an IEC 60870-5-101 link, octet by octet: which control octet
//! asks for what, and what each side answers.

use vstd::prelude::*;
use crate::bits::lemma_masks;
use crate::frame101::control::{
    lemma_decoded_unique, ControlField, Direction, FuncCodePrimary, FuncCodeSecondary,
};
use crate::frame101::frame::{FrameModel, LinkAddress, SingleChar};
use crate::frame101::link::{
    handled, opened, ActionModel, Config, InputModel, LinkModel, LinkState, Mode, PendingModel,
    Reason, Role,
};
use crate::time::Instant;

verus! {

/// The control octet, bit by bit: PRM 0x40, FCB or ACD 0x20, FCV or DFC 0x10,
/// and the number of the function in the low nibble.
pub proof fn law_control_octet(cf: ControlField)
    ensures
        cf.octet() & 0x80 == 0,
        cf.octet() & 0x40 != 0 <==> cf is Primary,
        cf matches ControlField::Primary { fcb, fcv, func } ==> {
            &&& cf.octet() & 0x20 != 0 <==> fcb
            &&& cf.octet() & 0x10 != 0 <==> fcv
            &&& cf.octet() % 16 == 0 <==> func is ResetRemoteLink
            &&& cf.octet() % 16 == 1 <==> func is ResetUserProcess
            &&& cf.octet() % 16 == 3 <==> func is UserDataConfirmed
            &&& cf.octet() % 16 == 4 <==> func is UserDataUnconfirmed
            &&& cf.octet() % 16 == 9 <==> func is RequestStatus
            &&& cf.octet() % 16 == 10 <==> func is RequestUserDataClass1
            &&& cf.octet() % 16 == 11 <==> func is RequestUserDataClass2
        },
        cf matches ControlField::Secondary { acd, dfc, func } ==> {
            &&& cf.octet() & 0x20 != 0 <==> acd
            &&& cf.octet() & 0x10 != 0 <==> dfc
            &&& cf.octet() % 16 == 0 <==> func is Ack
            &&& cf.octet() % 16 == 1 <==> func is Nack
            &&& cf.octet() % 16 == 8 <==> func is RespondUserData
            &&& cf.octet() % 16 == 9 <==> func is NackNoData
            &&& cf.octet() % 16 == 11 <==> func is StatusOfLink
        },
{
    lemma_masks(cf.octet());
}

/// The control octet is read from the same bits; a number that stands for no
/// function is not understood.
pub proof fn law_control_octet_read(b: u8)
    ensures
        match ControlField::decoded(b, Direction::Primary) {
            Some(ControlField::Primary { fcb, fcv, func }) => {
                &&& fcb <==> b & 0x20 != 0
                &&& fcv <==> b & 0x10 != 0
                &&& func is ResetRemoteLink <==> b % 16 == 0
                &&& func is ResetUserProcess <==> b % 16 == 1
                &&& func is UserDataConfirmed <==> b % 16 == 3
                &&& func is UserDataUnconfirmed <==> b % 16 == 4
                &&& func is RequestStatus <==> b % 16 == 9
                &&& func is RequestUserDataClass1 <==> b % 16 == 10
                &&& func is RequestUserDataClass2 <==> b % 16 == 11
            },
            Some(_) => false,
            None => b % 16 == 2 || 5 <= b % 16 <= 8 || b % 16 >= 12,
        },
        match ControlField::decoded(b, Direction::Secondary) {
            Some(ControlField::Secondary { acd, dfc, func }) => {
                &&& acd <==> b & 0x20 != 0
                &&& dfc <==> b & 0x10 != 0
                &&& func is Ack <==> b % 16 == 0
                &&& func is Nack <==> b % 16 == 1
                &&& func is RespondUserData <==> b % 16 == 8
                &&& func is NackNoData <==> b % 16 == 9
                &&& func is StatusOfLink <==> b % 16 == 11
            },
            Some(_) => false,
            None => 2 <= b % 16 <= 7 || b % 16 == 10 || b % 16 >= 12,
        },
{
    lemma_masks(b);
    let fcb = b & 0x20 != 0;
    let fcv = b & 0x10 != 0;
    let primary = if b % 16 == 0 {
        Some(FuncCodePrimary::ResetRemoteLink)
    } else if b % 16 == 1 {
        Some(FuncCodePrimary::ResetUserProcess)
    } else if b % 16 == 3 {
        Some(FuncCodePrimary::UserDataConfirmed)
    } else if b % 16 == 4 {
        Some(FuncCodePrimary::UserDataUnconfirmed)
    } else if b % 16 == 9 {
        Some(FuncCodePrimary::RequestStatus)
    } else if b % 16 == 10 {
        Some(FuncCodePrimary::RequestUserDataClass1)
    } else if b % 16 == 11 {
        Some(FuncCodePrimary::RequestUserDataClass2)
    } else {
        None
    };
    if let Some(func) = primary {
        lemma_decoded_unique(ControlField::Primary { fcb, fcv, func }, b);
    }
    let secondary = if b % 16 == 0 {
        Some(FuncCodeSecondary::Ack)
    } else if b % 16 == 1 {
        Some(FuncCodeSecondary::Nack)
    } else if b % 16 == 8 {
        Some(FuncCodeSecondary::RespondUserData)
    } else if b % 16 == 9 {
        Some(FuncCodeSecondary::NackNoData)
    } else if b % 16 == 11 {
        Some(FuncCodeSecondary::StatusOfLink)
    } else {
        None
    };
    if let Some(func) = secondary {
        lemma_decoded_unique(ControlField::Secondary { acd: fcb, dfc: fcv, func }, b);
    }
}

// ---------------------------------------------------------------------------
// The outstation
// ---------------------------------------------------------------------------

/// What an outstation answers to a control frame for its own address, by the
/// number of the function: 0 resets the link (answer 0x00), 9 asks for the
/// status (0x0B), 10 and 11 ask for data (0x08 with the ASDU that has waited
/// longest, 0x09 if none waits). It does nothing about any other.
pub proof fn law_outstation_answers(c: LinkModel, b: u8, now: Instant)
    requires
        c.role is Outstation,
        c.pending is None,
        c.actions == Seq::<ActionModel>::empty(),
    ensures
        ({
            let address = c.config.link_address;
            let d = handled(
                c,
                InputModel::FrameReceived(FrameModel::Fixed { control: b, address }),
                now,
            );
            let answer = |control: u8| ActionModel::SendFrame(FrameModel::Fixed { control, address });
            &&& b % 16 == 0 ==> {
                &&& d.link_state is Ready
                &&& d.last_fcb_seen is None
                &&& d.send_queue == c.send_queue
                &&& d.pending is None
                &&& c.link_state is Ready ==> d.actions == seq![answer(0x00)]
                &&& !(c.link_state is Ready) ==> d.actions == seq![
                    answer(0x00),
                    ActionModel::LinkStateChanged(LinkState::Ready),
                ]
            }
            &&& b % 16 == 9 ==> d == (LinkModel { actions: seq![answer(0x0B)], ..c })
            &&& (b % 16 == 10 || b % 16 == 11) && c.send_queue.len() == 0 ==> d == (LinkModel {
                actions: seq![answer(0x09)],
                ..c
            })
            &&& (b % 16 == 10 || b % 16 == 11) && c.send_queue.len() > 0 ==> d == (LinkModel {
                send_queue: c.send_queue.skip(1),
                actions: seq![
                    ActionModel::SendFrame(
                        FrameModel::Variable { control: 0x08, address, asdu: c.send_queue[0] },
                    ),
                ],
                ..c
            })
            &&& b % 16 != 0 && b % 16 != 9 && b % 16 != 10 && b % 16 != 11 ==> d == c
        }),
{
    law_control_octet_read(b);
    let address = c.config.link_address;
    let d = handled(c, InputModel::FrameReceived(FrameModel::Fixed { control: b, address }), now);
    let answer = |control: u8| ActionModel::SendFrame(FrameModel::Fixed { control, address });
    assert(d.actions =~= Seq::empty() || d.actions =~= seq![d.actions[0]] || d.actions =~= seq![
        d.actions[0],
        d.actions[1],
    ]);
    if b % 16 == 0 {
        if c.link_state is Ready {
            assert(d.actions =~= seq![answer(0x00)]);
        } else {
            assert(d.actions =~= seq![
                answer(0x00),
                ActionModel::LinkStateChanged(LinkState::Ready),
            ]);
        }
    }
}

/// What an outstation does with a data frame for its own address: a confirmed
/// one (3) is acknowledged with 0x00 and delivered unless FCV 0x10 is set and
/// FCB 0x20 is the one seen last, an unconfirmed one (4) is delivered, and
/// nothing is done about any other.
pub proof fn law_outstation_takes_data(c: LinkModel, b: u8, asdu: Seq<u8>, now: Instant)
    requires
        c.role is Outstation,
        c.pending is None,
        c.actions == Seq::<ActionModel>::empty(),
    ensures
        ({
            let address = c.config.link_address;
            let d = handled(
                c,
                InputModel::FrameReceived(FrameModel::Variable { control: b, address, asdu }),
                now,
            );
            let ack = ActionModel::SendFrame(FrameModel::Fixed { control: 0x00, address });
            let fcv = b & 0x10 != 0;
            let fcb = b & 0x20 != 0;
            &&& b % 16 == 3 ==> d == (LinkModel {
                last_fcb_seen: if fcv {
                    Some(fcb)
                } else {
                    c.last_fcb_seen
                },
                actions: if fcv && c.last_fcb_seen == Some(fcb) {
                    seq![ack]
                } else {
                    seq![ack, ActionModel::DeliverAsdu(asdu)]
                },
                ..c
            })
            &&& b % 16 == 4 ==> d == (LinkModel {
                actions: seq![ActionModel::DeliverAsdu(asdu)],
                ..c
            })
            &&& b % 16 != 3 && b % 16 != 4 ==> d == c
        }),
{
    law_control_octet_read(b);
    let address = c.config.link_address;
    let d = handled(
        c,
        InputModel::FrameReceived(FrameModel::Variable { control: b, address, asdu }),
        now,
    );
    assert(d.actions =~= Seq::empty() || d.actions =~= seq![d.actions[0]] || d.actions =~= seq![
        d.actions[0],
        d.actions[1],
    ]);
}

/// An outstation keeps what it is given until it is asked, and asks nothing
/// itself.
pub proof fn law_outstation_waits(c: LinkModel, asdu: Seq<u8>, now: Instant)
    requires
        c.role is Outstation,
        c.pending is None,
    ensures
        handled(c, InputModel::SendUserData(asdu), now) == (LinkModel {
            send_queue: c.send_queue.push(asdu),
            ..c
        }),
        handled(c, InputModel::Tick, now) == c,
        handled(c, InputModel::RequestStatus, now) == c,
        handled(c, InputModel::ResetRemoteLink, now) == c,
        handled(c, InputModel::RequestUserDataClass1, now) == c,
        handled(c, InputModel::RequestUserDataClass2, now) == c,
        forall|single: SingleChar| #[trigger]
            handled(c, InputModel::FrameReceived(FrameModel::Single(single)), now) == c,
{
}

// ---------------------------------------------------------------------------
// The master
// ---------------------------------------------------------------------------

/// What a master asks: the reset goes out as 0x40 at any time, the requests for
/// status (0x49) and for data of class 1 (0x4A) and class 2 (0x4B) only while
/// nothing waits for its confirmation. Each then waits for its own.
pub proof fn law_master_asks(c: LinkModel, input: InputModel, now: Instant)
    requires
        c.role is Master,
        c.actions == Seq::<ActionModel>::empty(),
        c.config.timeout.nanos > 0,
        input is ResetRemoteLink || input is RequestStatus || input is RequestUserDataClass1
            || input is RequestUserDataClass2,
    ensures
        ({
            let d = handled(c, input, now);
            let control: u8 = match input {
                InputModel::ResetRemoteLink => 0x40,
                InputModel::RequestStatus => 0x49,
                InputModel::RequestUserDataClass1 => 0x4A,
                _ => 0x4B,
            };
            let frame = FrameModel::Fixed { control, address: c.config.link_address };
            &&& input is ResetRemoteLink || c.pending is None ==> d == (LinkModel {
                pending: Some(PendingModel { frame, sent_at: now, attempts: 1 }),
                actions: seq![ActionModel::SendFrame(frame)],
                ..c
            })
            &&& !(input is ResetRemoteLink) && c.pending is Some ==> d == handled(
                c,
                InputModel::Tick,
                now,
            )
        }),
{
    let d = handled(c, input, now);
    if input is ResetRemoteLink || c.pending is None {
        assert(d.actions =~= seq![d.actions[0]]);
    }
}

/// User data: while nothing waits for its confirmation, an ASDU goes out at
/// once in a frame with control octet 0x53, or 0x73 if FCB is set, and FCB
/// changes; otherwise it joins the queue.
pub proof fn law_master_sends(c: LinkModel, asdu: Seq<u8>, now: Instant)
    requires
        c.role is Master,
        c.actions == Seq::<ActionModel>::empty(),
        c.config.timeout.nanos > 0,
        c.pending matches Some(p) ==> p.sent_at.nanos <= now.nanos < p.sent_at.nanos
            + c.config.timeout.nanos,
    ensures
        ({
            let d = handled(c, InputModel::SendUserData(asdu), now);
            let frame = FrameModel::Variable {
                control: if c.fcb {
                    0x73
                } else {
                    0x53
                },
                address: c.config.link_address,
                asdu,
            };
            &&& c.pending is None && c.send_queue.len() == 0 ==> d == (LinkModel {
                fcb: !c.fcb,
                pending: Some(PendingModel { frame, sent_at: now, attempts: 1 }),
                actions: seq![ActionModel::SendFrame(frame)],
                ..c
            })
            &&& c.pending is Some ==> d == (LinkModel { send_queue: c.send_queue.push(asdu), ..c })
        }),
{
    let d = handled(c, InputModel::SendUserData(asdu), now);
    if c.pending is None && c.send_queue.len() == 0 {
        assert(d.actions =~= seq![d.actions[0]]);
        assert(d.send_queue =~= c.send_queue);
    }
}

/// What a master makes of the answer to what it asked, with no user data
/// waiting. By the number of the function: 0 confirms, 1 refuses, 9 means no
/// data, 11 is the status; 0 and 11 make the link ready. Anything else in a
/// control frame is a protocol error and the wait goes on. The address in the
/// answer does not matter.
pub proof fn law_master_hears(
    c: LinkModel,
    p: PendingModel,
    b: u8,
    address: LinkAddress,
    now: Instant,
)
    requires
        c.role is Master,
        c.actions == Seq::<ActionModel>::empty(),
        c.pending == Some(p),
        p.sent_at.nanos <= now.nanos < p.sent_at.nanos + c.config.timeout.nanos,
        c.send_queue.len() == 0,
    ensures
        ({
            let d = handled(
                c,
                InputModel::FrameReceived(FrameModel::Fixed { control: b, address }),
                now,
            );
            &&& b % 16 == 0 || b % 16 == 11 ==> {
                &&& d.pending is None
                &&& c.link_state is NotReady ==> d.link_state is Ready && d.actions == seq![
                    ActionModel::LinkStateChanged(LinkState::Ready),
                ]
                &&& !(c.link_state is NotReady) ==> d == (LinkModel { pending: None, ..c })
            }
            &&& b % 16 == 1 ==> d == (LinkModel {
                pending: None,
                actions: seq![ActionModel::LinkError(Reason::Nack)],
                ..c
            })
            &&& b % 16 == 9 ==> d == (LinkModel { pending: None, ..c })
            &&& b % 16 != 0 && b % 16 != 1 && b % 16 != 9 && b % 16 != 11 ==> d == (LinkModel {
                actions: seq![ActionModel::LinkError(Reason::ProtocolError)],
                ..c
            })
        }),
{
    law_control_octet_read(b);
    let d = handled(c, InputModel::FrameReceived(FrameModel::Fixed { control: b, address }), now);
    assert(d.actions =~= Seq::empty() || d.actions =~= seq![d.actions[0]]);
}

/// What a master makes of a data frame: function 8 brings an ASDU, which is
/// delivered and ends the wait; anything else is a protocol error.
pub proof fn law_master_takes_data(
    c: LinkModel,
    b: u8,
    address: LinkAddress,
    asdu: Seq<u8>,
    now: Instant,
)
    requires
        c.role is Master,
        c.actions == Seq::<ActionModel>::empty(),
        c.pending matches Some(p) ==> p.sent_at.nanos <= now.nanos < p.sent_at.nanos
            + c.config.timeout.nanos,
    ensures
        ({
            let d = handled(
                c,
                InputModel::FrameReceived(FrameModel::Variable { control: b, address, asdu }),
                now,
            );
            &&& b % 16 == 8 ==> d == (LinkModel {
                pending: None,
                actions: seq![ActionModel::DeliverAsdu(asdu)],
                ..c
            })
            &&& b % 16 != 8 ==> d == (LinkModel {
                actions: seq![ActionModel::LinkError(Reason::ProtocolError)],
                ..c
            })
        }),
{
    law_control_octet_read(b);
    let d = handled(
        c,
        InputModel::FrameReceived(FrameModel::Variable { control: b, address, asdu }),
        now,
    );
    assert(d.actions =~= seq![d.actions[0]]);
}

/// The single octets: an acknowledgement ends the wait and lets the next ASDU
/// out, a refusal ends the wait with an error.
pub proof fn law_master_hears_single(c: LinkModel, p: PendingModel, now: Instant)
    requires
        c.role is Master,
        c.actions == Seq::<ActionModel>::empty(),
        c.pending == Some(p),
        c.config.timeout.nanos > 0,
    ensures
        ({
            let d = handled(
                c,
                InputModel::FrameReceived(FrameModel::Single(SingleChar::Ack)),
                now,
            );
            let frame = FrameModel::Variable {
                control: if c.fcb {
                    0x73
                } else {
                    0x53
                },
                address: c.config.link_address,
                asdu: c.send_queue[0],
            };
            &&& c.send_queue.len() == 0 ==> d == (LinkModel { pending: None, ..c })
            &&& c.send_queue.len() > 0 ==> d == (LinkModel {
                fcb: !c.fcb,
                pending: Some(PendingModel { frame, sent_at: now, attempts: 1 }),
                send_queue: c.send_queue.skip(1),
                actions: seq![ActionModel::SendFrame(frame)],
                ..c
            })
        }),
        handled(c, InputModel::FrameReceived(FrameModel::Single(SingleChar::Nack)), now) == (
        LinkModel { pending: None, actions: seq![ActionModel::LinkError(Reason::Nack)], ..c }),
{
    let d = handled(c, InputModel::FrameReceived(FrameModel::Single(SingleChar::Ack)), now);
    let n = handled(c, InputModel::FrameReceived(FrameModel::Single(SingleChar::Nack)), now);
    assert(d.actions =~= Seq::empty() || d.actions =~= seq![d.actions[0]]);
    assert(n.actions =~= seq![n.actions[0]]);
}

/// A frame that is not confirmed within the timeout goes out again, unchanged,
/// up to `max_retries` times; then the link is down. Within the timeout nothing
/// happens.
pub proof fn law_master_repeats(c: LinkModel, p: PendingModel, now: Instant)
    requires
        c.role is Master,
        c.actions == Seq::<ActionModel>::empty(),
        c.pending == Some(p),
        p.sent_at.nanos <= now.nanos,
    ensures
        ({
            let d = handled(c, InputModel::Tick, now);
            let over = now.nanos - p.sent_at.nanos >= c.config.timeout.nanos;
            &&& !over ==> d == c
            &&& over && p.attempts <= c.config.max_retries ==> d == (LinkModel {
                pending: Some(
                    PendingModel { frame: p.frame, sent_at: now, attempts: p.attempts + 1 },
                ),
                actions: seq![ActionModel::SendFrame(p.frame)],
                ..c
            })
            &&& over && p.attempts > c.config.max_retries ==> {
                &&& d.pending is None
                &&& d.link_state is Failed
                &&& d.send_queue == c.send_queue
                &&& c.link_state is Failed ==> d.actions == seq![
                    ActionModel::LinkError(Reason::AckTimeout),
                ]
                &&& !(c.link_state is Failed) ==> d.actions == seq![
                    ActionModel::LinkStateChanged(LinkState::Failed),
                    ActionModel::LinkError(Reason::AckTimeout),
                ]
            }
        }),
{
    let d = handled(c, InputModel::Tick, now);
    assert(d.actions =~= Seq::empty() || d.actions =~= seq![d.actions[0]] || d.actions =~= seq![
        d.actions[0],
        d.actions[1],
    ]);
}

// ---------------------------------------------------------------------------
// Both together
// ---------------------------------------------------------------------------

/// Asking for the status and for the reset brings the link up: what the master
/// sends, the outstation answers, and on that answer a master that was not
/// ready is ready, with nothing left to wait for.
pub proof fn law_link_comes_up(
    master: LinkModel,
    outstation: LinkModel,
    input: InputModel,
    now: Instant,
)
    requires
        master.role is Master,
        outstation.role is Outstation,
        master.actions == Seq::<ActionModel>::empty(),
        outstation.actions == Seq::<ActionModel>::empty(),
        master.config.link_address == outstation.config.link_address,
        master.config.timeout.nanos > 0,
        master.pending is None,
        outstation.pending is None,
        master.send_queue.len() == 0,
        master.link_state is NotReady,
        input is RequestStatus || input is ResetRemoteLink,
    ensures
        ({
            let asked = handled(master, input, now);
            &&& asked.actions.len() == 1
            &&& asked.actions[0] matches ActionModel::SendFrame(question) && {
                let answered = handled(outstation, InputModel::FrameReceived(question), now);
                &&& answered.actions.len() > 0
                &&& answered.actions[0] matches ActionModel::SendFrame(answer) && {
                    let heard = handled(
                        LinkModel { actions: Seq::empty(), ..asked },
                        InputModel::FrameReceived(answer),
                        now,
                    );
                    &&& heard.link_state is Ready
                    &&& heard.pending is None
                    &&& heard.actions == seq![ActionModel::LinkStateChanged(LinkState::Ready)]
                }
            }
        }),
{
    law_master_asks(master, input, now);
    law_outstation_answers(outstation, if input is RequestStatus { 0x49u8 } else { 0x40u8 }, now);
    let asked = LinkModel { actions: Seq::empty(), ..handled(master, input, now) };
    law_master_hears(
        asked,
        asked.pending->0,
        if input is RequestStatus { 0x0Bu8 } else { 0x00u8 },
        outstation.config.link_address,
        now,
    );
}

/// A poll brings the ASDU that has waited longest at the outstation to the
/// master's application.
pub proof fn law_poll_brings_data(
    master: LinkModel,
    outstation: LinkModel,
    input: InputModel,
    now: Instant,
)
    requires
        master.role is Master,
        outstation.role is Outstation,
        master.actions == Seq::<ActionModel>::empty(),
        outstation.actions == Seq::<ActionModel>::empty(),
        master.config.link_address == outstation.config.link_address,
        master.config.timeout.nanos > 0,
        master.pending is None,
        outstation.pending is None,
        outstation.send_queue.len() > 0,
        input is RequestUserDataClass1 || input is RequestUserDataClass2,
    ensures
        ({
            let asked = handled(master, input, now);
            &&& asked.actions.len() == 1
            &&& asked.actions[0] matches ActionModel::SendFrame(question) && {
                let answered = handled(outstation, InputModel::FrameReceived(question), now);
                &&& answered.send_queue == outstation.send_queue.skip(1)
                &&& answered.actions.len() == 1
                &&& answered.actions[0] matches ActionModel::SendFrame(answer) && {
                    let heard = handled(
                        LinkModel { actions: Seq::empty(), ..asked },
                        InputModel::FrameReceived(answer),
                        now,
                    );
                    &&& heard.pending is None
                    &&& heard.actions == seq![ActionModel::DeliverAsdu(outstation.send_queue[0])]
                }
            }
        }),
{
    law_master_asks(master, input, now);
    law_outstation_answers(
        outstation,
        if input is RequestUserDataClass1 { 0x4Au8 } else { 0x4Bu8 },
        now,
    );
    let asked = LinkModel { actions: Seq::empty(), ..handled(master, input, now) };
    law_master_takes_data(
        asked,
        0x08,
        outstation.config.link_address,
        outstation.send_queue[0],
        now,
    );
}

/// What a master makes of an answer that it did not wait for: a confirmation
/// and "no data" mean nothing, a refusal is an error, and a status still makes
/// the link ready.
pub proof fn law_master_hears_unasked(c: LinkModel, b: u8, address: LinkAddress, now: Instant)
    requires
        c.role is Master,
        c.actions == Seq::<ActionModel>::empty(),
        c.pending is None,
    ensures
        ({
            let d = handled(
                c,
                InputModel::FrameReceived(FrameModel::Fixed { control: b, address }),
                now,
            );
            &&& b % 16 == 0 || b % 16 == 9 ==> d == c
            &&& b % 16 == 1 ==> d == (LinkModel {
                actions: seq![ActionModel::LinkError(Reason::Nack)],
                ..c
            })
            &&& b % 16 == 11 && c.link_state is NotReady ==> d.link_state is Ready && d.pending
                is None && d.actions == seq![ActionModel::LinkStateChanged(LinkState::Ready)]
            &&& b % 16 == 11 && !(c.link_state is NotReady) ==> d == c
        }),
        handled(c, InputModel::FrameReceived(FrameModel::Single(SingleChar::Ack)), now) == c,
        handled(c, InputModel::FrameReceived(FrameModel::Single(SingleChar::Nack)), now) == (
        LinkModel { actions: seq![ActionModel::LinkError(Reason::Nack)], ..c }),
        handled(c, InputModel::Tick, now) == c,
{
    law_control_octet_read(b);
    let d = handled(c, InputModel::FrameReceived(FrameModel::Fixed { control: b, address }), now);
    let n = handled(c, InputModel::FrameReceived(FrameModel::Single(SingleChar::Nack)), now);
    assert(d.actions =~= Seq::empty() || d.actions =~= seq![d.actions[0]]);
    assert(n.actions =~= seq![n.actions[0]]);
}

/// A confirmation in a control frame lets the next ASDU out, as the single octet
/// does, and makes a link ready that was not.
pub proof fn law_confirmation_lets_out(
    c: LinkModel,
    p: PendingModel,
    b: u8,
    address: LinkAddress,
    now: Instant,
)
    requires
        c.role is Master,
        c.actions == Seq::<ActionModel>::empty(),
        c.pending == Some(p),
        c.config.timeout.nanos > 0,
        c.send_queue.len() > 0,
        b % 16 == 0,
    ensures
        ({
            let d = handled(
                c,
                InputModel::FrameReceived(FrameModel::Fixed { control: b, address }),
                now,
            );
            let frame = FrameModel::Variable {
                control: if c.fcb {
                    0x73
                } else {
                    0x53
                },
                address: c.config.link_address,
                asdu: c.send_queue[0],
            };
            &&& d.actions.last() == ActionModel::SendFrame(frame)
            &&& d.pending == Some(PendingModel { frame, sent_at: now, attempts: 1 })
            &&& d.send_queue == c.send_queue.skip(1)
            &&& d.fcb == !c.fcb
            &&& c.link_state is NotReady ==> d.link_state is Ready
            &&& !(c.link_state is NotReady) ==> d.link_state == c.link_state
        }),
{
    law_control_octet_read(b);
}

/// A new link is not ready, begins with FCB 0 and has nothing outstanding.
pub proof fn law_opened(role: Role, mode: Mode, config: Config)
    ensures
        ({
            let c = opened(role, mode, config);
            &&& c.role == role && c.mode == mode && c.config == config
            &&& c.link_state is NotReady
            &&& !c.fcb && c.last_fcb_seen is None
            &&& c.pending is None
            &&& c.send_queue.len() == 0 && c.actions.len() == 0
        }),
{
}

} // verus!
