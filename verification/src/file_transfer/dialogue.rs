//! What the two sides of a file transfer say to each other, message by
//! message.

use vstd::prelude::*;
use crate::asdu::types::file::{
    Afq, AfqAction, Checksum, Frq, LengthOfFile, LengthOfSection, Lsq, NameOfFile, NameOfSection,
    Scq, ScqAction, SegmentModel, Srq, F_AF_NA_1, F_FR_NA_1, F_LS_NA_1, F_SC_NA_1, F_SR_NA_1,
};
use crate::bits::octet_sum;
use crate::file_transfer::session::{
    fresh, stepped, ActionModel, FailureReason, InputModel, Role, SessionConfig, SessionModel,
};
use crate::time::Instant;

verus! {

/// The checksum is the sum of all octets modulo 256: nothing adds nothing, one
/// octet adds its value, and a sequence adds what its parts add.
pub proof fn law_checksum_is_sum(c: Checksum, b: u8, front: Seq<u8>)
    ensures
        c.folded(Seq::empty()) == c,
        c.folded(seq![b]).0 == (c.0 + b) % 256,
        c.folded(front.push(b)).0 == (c.folded(front).0 + b) % 256,
{
    reveal_with_fuel(octet_sum, 2);
    assert(seq![b].drop_last() =~= Seq::empty());
    assert(front.push(b).drop_last() =~= front);
}

// ---------------------------------------------------------------------------
// The sender
// ---------------------------------------------------------------------------

/// A sender that is started announces its file with the length it was given,
/// announces it again when it is selected, and offers its one section with the
/// same length when the file is called for; then it asks for the first
/// segment, of as many octets as the session is set up for, but at least one
/// and at most 255.
pub proof fn law_sender_offers(
    s: SessionModel,
    length: u32,
    select: F_SC_NA_1,
    request: F_SC_NA_1,
    t0: Instant,
    t1: Instant,
    t2: Instant,
)
    requires
        s.role is Sender,
        s.state is Idle,
        s.actions == Seq::<ActionModel>::empty(),
        s.last_progress is None,
        !s.awaiting_provider,
        s.config.idle_timeout.nanos > 0,
        select.scq.action is SelectFile,
        request.scq.action is RequestFile,
    ensures
        ({
            let ready = ActionModel::SendFileReady(
                F_FR_NA_1 {
                    ioa: s.config.ioa,
                    nof: s.nof,
                    lof: LengthOfFile(length),
                    frq: Frq { code: 0, negative: false },
                },
            );
            let a = stepped(s, InputModel::Start { length }, t0);
            let b = stepped(a.drained(), InputModel::SelectCall(select), t1);
            let c = stepped(b.drained(), InputModel::SelectCall(request), t2);
            let limit = s.config.max_segment_bytes;
            &&& a.actions == seq![ready]
            &&& a.state is TxAwaitSelect
            &&& b.actions == seq![ready]
            &&& b.state is TxAwaitRequest
            &&& c.actions == seq![
                ActionModel::SendSectionReady(
                    F_SR_NA_1 {
                        ioa: s.config.ioa,
                        nof: s.nof,
                        nos: NameOfSection(1),
                        los: LengthOfSection(length),
                        srq: Srq { code: 0, negative: false },
                    },
                ),
                ActionModel::RequestNextSegment {
                    max_bytes: if limit < 1 {
                        1
                    } else if limit > 255 {
                        255
                    } else {
                        limit
                    },
                },
            ]
            &&& c.state is TxSendingSegments
            &&& c.section_checksum.0 == 0
            &&& c.bytes_transferred == 0
            &&& c.file_length == length
        }),
{
    let a = stepped(s, InputModel::Start { length }, t0);
    let b = stepped(a.drained(), InputModel::SelectCall(select), t1);
    let c = stepped(b.drained(), InputModel::SelectCall(request), t2);
    assert(a.actions =~= seq![a.actions[0]]);
    assert(b.actions =~= seq![b.actions[0]]);
    assert(c.actions =~= seq![c.actions[0], c.actions[1]]);
}

/// A sender passes on each chunk that it is given, in a segment of its section,
/// and asks for the next. It counts the octets and adds them up.
pub proof fn law_sender_passes_on(s: SessionModel, chunk: Seq<u8>, now: Instant)
    requires
        s.role is Sender,
        s.state is TxSendingSegments,
        s.actions == Seq::<ActionModel>::empty(),
        s.config.idle_timeout.nanos > 0,
        0 < chunk.len() <= 255,
        s.bytes_transferred + chunk.len() <= u32::MAX,
    ensures
        ({
            let d = stepped(s, InputModel::SegmentReady(chunk), now);
            let limit = s.config.max_segment_bytes;
            &&& d.actions == seq![
                ActionModel::SendSegment(
                    SegmentModel {
                        ioa: s.config.ioa,
                        nof: s.nof,
                        nos: NameOfSection(1),
                        segment: chunk,
                    },
                ),
                ActionModel::RequestNextSegment {
                    max_bytes: if limit < 1 {
                        1
                    } else if limit > 255 {
                        255
                    } else {
                        limit
                    },
                },
            ]
            &&& d.state is TxSendingSegments
            &&& d.bytes_transferred == s.bytes_transferred + chunk.len()
            &&& d.section_checksum == s.section_checksum.folded(chunk)
            &&& d.last_progress == Some(now)
        }),
{
    let d = stepped(s, InputModel::SegmentReady(chunk), now);
    assert(d.actions =~= seq![d.actions[0], d.actions[1]]);
}

/// At the end of the data a sender closes its section with the checksum of
/// what it has sent, and waits for the verdict.
pub proof fn law_sender_closes(s: SessionModel, now: Instant)
    requires
        s.role is Sender,
        s.state is TxSendingSegments,
        s.actions == Seq::<ActionModel>::empty(),
        s.config.idle_timeout.nanos > 0,
    ensures
        ({
            let d = stepped(s, InputModel::SegmentReady(Seq::empty()), now);
            &&& d.actions == seq![
                ActionModel::SendLastSection(
                    F_LS_NA_1 {
                        ioa: s.config.ioa,
                        nof: s.nof,
                        nos: NameOfSection(1),
                        lsq: Lsq::FileWithoutDeactivate,
                        chs: s.section_checksum,
                    },
                ),
            ]
            &&& d.state is TxAwaitAck
            &&& d.bytes_transferred == s.bytes_transferred
        }),
{
    let d = stepped(s, InputModel::SegmentReady(Seq::empty()), now);
    assert(d.actions =~= seq![d.actions[0]]);
}

/// The verdict decides: a positive acknowledgement of the file or the section
/// completes the sender, any other fails it as rejected.
pub proof fn law_sender_hears_verdict(s: SessionModel, ack: F_AF_NA_1, now: Instant)
    requires
        s.role is Sender,
        s.state is TxAwaitAck,
        s.actions == Seq::<ActionModel>::empty(),
    ensures
        ({
            let d = stepped(s, InputModel::AckFile(ack), now);
            if ack.afq.action is PositiveFile || ack.afq.action is PositiveSection {
                d.state is Completed && d.actions == seq![
                    ActionModel::Completed { bytes: s.bytes_transferred },
                ]
            } else {
                d.state is Failed && d.actions == seq![
                    ActionModel::Failed(FailureReason::PeerRejected),
                ]
            }
        }),
{
    let d = stepped(s, InputModel::AckFile(ack), now);
    assert(d.actions =~= seq![d.actions[0]]);
}

// ---------------------------------------------------------------------------
// The receiver
// ---------------------------------------------------------------------------

/// A receiver that is started selects the file; when it is announced it keeps
/// the length and calls for the file; when the section is offered it is ready
/// for segments, with nothing counted yet.
pub proof fn law_receiver_asks(
    s: SessionModel,
    length: u32,
    ready: F_FR_NA_1,
    section: F_SR_NA_1,
    t0: Instant,
    t1: Instant,
    t2: Instant,
)
    requires
        s.role is Receiver,
        s.state is Idle,
        s.actions == Seq::<ActionModel>::empty(),
        s.last_progress is None,
        s.config.idle_timeout.nanos > 0,
        !ready.frq.negative,
        !section.srq.negative,
    ensures
        ({
            let a = stepped(s, InputModel::Start { length }, t0);
            let b = stepped(a.drained(), InputModel::FileReady(ready), t1);
            let c = stepped(b.drained(), InputModel::SectionReady(section), t2);
            let call = |action: ScqAction| ActionModel::SendSelectCall(
                F_SC_NA_1 {
                    ioa: s.config.ioa,
                    nof: s.nof,
                    nos: NameOfSection(0),
                    scq: Scq { action, status: 0 },
                },
            );
            &&& a.actions == seq![call(ScqAction::SelectFile)]
            &&& a.state is RxAwaitFileReady
            &&& b.actions == seq![call(ScqAction::RequestFile)]
            &&& b.state is RxAwaitSectionReady
            &&& b.file_length == ready.lof.0
            &&& c.actions == Seq::<ActionModel>::empty()
            &&& c.state is RxReceivingSegments
            &&& c.file_length == ready.lof.0
            &&& c.section_length == section.los.0
            &&& c.bytes_transferred == 0
            &&& c.section_checksum.0 == 0
        }),
{
    let a = stepped(s, InputModel::Start { length }, t0);
    let b = stepped(a.drained(), InputModel::FileReady(ready), t1);
    assert(a.actions =~= seq![a.actions[0]]);
    assert(b.actions =~= seq![b.actions[0]]);
}

/// A receiver delivers each segment unchanged, counts its octets and adds them
/// up.
pub proof fn law_receiver_delivers(s: SessionModel, segment: SegmentModel, now: Instant)
    requires
        s.role is Receiver,
        s.state is RxReceivingSegments,
        s.actions == Seq::<ActionModel>::empty(),
        s.config.idle_timeout.nanos > 0,
        segment.segment.len() <= 255,
        s.bytes_transferred + segment.segment.len() <= u32::MAX,
    ensures
        ({
            let d = stepped(s, InputModel::Segment(segment), now);
            &&& d.actions == seq![ActionModel::DeliverSegment(segment.segment)]
            &&& d.state is RxReceivingSegments
            &&& d.bytes_transferred == s.bytes_transferred + segment.segment.len()
            &&& d.section_checksum == s.section_checksum.folded(segment.segment)
            &&& d.last_progress == Some(now)
        }),
{
    let d = stepped(s, InputModel::Segment(segment), now);
    assert(d.actions =~= seq![d.actions[0]]);
}

/// The end of the section decides: with the right checksum the receiver
/// acknowledges the file and is complete, with any other it refuses the
/// section and has failed. It answers for the section that was named.
pub proof fn law_receiver_judges(s: SessionModel, last: F_LS_NA_1, now: Instant)
    requires
        s.role is Receiver,
        s.state is RxReceivingSegments,
        s.actions == Seq::<ActionModel>::empty(),
    ensures
        ({
            let d = stepped(s, InputModel::LastSection(last), now);
            let verdict = |action: AfqAction| ActionModel::SendAckFile(
                F_AF_NA_1 {
                    ioa: s.config.ioa,
                    nof: s.nof,
                    nos: last.nos,
                    afq: Afq { action, status: 0 },
                },
            );
            if last.chs.0 == s.section_checksum.0 {
                d.state is Completed && d.actions == seq![
                    verdict(AfqAction::PositiveFile),
                    ActionModel::Completed { bytes: s.bytes_transferred },
                ]
            } else {
                d.state is Failed && d.actions == seq![
                    verdict(AfqAction::NegativeSection),
                    ActionModel::Failed(FailureReason::ChecksumMismatch),
                ]
            }
        }),
{
    let d = stepped(s, InputModel::LastSection(last), now);
    assert(d.actions =~= seq![d.actions[0], d.actions[1]]);
    assert(last.chs == s.section_checksum <==> last.chs.0 == s.section_checksum.0);
}

// ---------------------------------------------------------------------------
// What goes wrong
// ---------------------------------------------------------------------------

/// A negative announcement of the file or the section is a rejection.
pub proof fn law_rejections(
    s: SessionModel,
    ready: F_FR_NA_1,
    section: F_SR_NA_1,
    now: Instant,
)
    requires
        s.role is Receiver,
        s.actions == Seq::<ActionModel>::empty(),
        ready.frq.negative,
        section.srq.negative,
    ensures
        s.state is RxAwaitFileReady ==> {
            let d = stepped(s, InputModel::FileReady(ready), now);
            d.state is Failed && d.actions == seq![ActionModel::Failed(FailureReason::PeerRejected)]
        },
        s.state is RxAwaitSectionReady ==> {
            let d = stepped(s, InputModel::SectionReady(section), now);
            d.state is Failed && d.actions == seq![ActionModel::Failed(FailureReason::PeerRejected)]
        },
{
    let a = stepped(s, InputModel::FileReady(ready), now);
    let b = stepped(s, InputModel::SectionReady(section), now);
    if s.state is RxAwaitFileReady {
        assert(a.actions =~= seq![a.actions[0]]);
    }
    if s.state is RxAwaitSectionReady {
        assert(b.actions =~= seq![b.actions[0]]);
    }
}

/// Whether a message comes in its turn.
pub open spec fn in_turn(s: SessionModel, input: InputModel) -> bool {
    match input {
        InputModel::FileReady(_) => s.state is RxAwaitFileReady,
        InputModel::SectionReady(_) => s.state is RxAwaitSectionReady,
        InputModel::Segment(_) => s.state is RxReceivingSegments,
        InputModel::LastSection(_) => s.state is RxReceivingSegments,
        InputModel::AckFile(_) => s.state is TxAwaitAck,
        InputModel::SelectCall(call) => match call.scq.action {
            ScqAction::SelectFile => s.state is Idle || s.state is TxAwaitSelect,
            ScqAction::RequestFile => s.state is TxAwaitRequest,
            _ => false,
        },
        _ => true,
    }
}

/// A message out of its turn, or one for the other side, fails the session as a
/// protocol violation. A call that deactivates or deletes aborts it instead,
/// and a sender takes no notice of an announcement.
pub proof fn law_out_of_turn(s: SessionModel, input: InputModel, now: Instant)
    requires
        !(s.state is Completed),
        !(s.state is Failed),
        s.actions == Seq::<ActionModel>::empty(),
    ensures
        ({
            let d = stepped(s, input, now);
            let for_receiver = input is FileReady || input is SectionReady || input is Segment
                || input is LastSection;
            let for_sender = input is SelectCall || input is AckFile;
            let gives_up = input matches InputModel::SelectCall(call) && (call.scq.action
                is DeactivateFile || call.scq.action is DeleteFile || call.scq.action
                is DeactivateSection);
            let violated = d.state is Failed && d.actions == seq![
                ActionModel::Failed(FailureReason::ProtocolViolation),
            ];
            &&& s.role is Receiver && for_sender ==> violated
            &&& s.role is Sender && for_receiver && !(input is FileReady) ==> violated
            &&& s.role is Receiver && for_receiver && !in_turn(s, input) ==> violated
            &&& s.role is Sender && for_sender && !in_turn(s, input) && !gives_up ==> violated
            &&& s.role is Sender && gives_up ==> d.state is Failed && d.actions == seq![
                ActionModel::Failed(FailureReason::Aborted),
            ]
            &&& s.role is Sender && input is FileReady ==> d == stepped(s, InputModel::Tick, now)
        }),
{
    let d = stepped(s, input, now);
    if d.actions.len() == 1 {
        assert(d.actions =~= seq![d.actions[0]]);
    }
}

/// The user can abort a session that is under way, and a start has an effect
/// only once.
pub proof fn law_user_inputs(s: SessionModel, length: u32, chunk: Seq<u8>, now: Instant)
    requires
        !(s.state is Completed),
        !(s.state is Failed),
        s.actions == Seq::<ActionModel>::empty(),
    ensures
        ({
            let d = stepped(s, InputModel::Abort, now);
            d.state is Failed && d.actions == seq![ActionModel::Failed(FailureReason::Aborted)]
        }),
        !(s.state is Idle) ==> stepped(s, InputModel::Start { length }, now) == stepped(
            s,
            InputModel::Tick,
            now,
        ),
        !(s.role is Sender && s.state is TxSendingSegments) ==> stepped(
            s,
            InputModel::SegmentReady(chunk),
            now,
        ) == stepped(s, InputModel::Tick, now),
{
    let d = stepped(s, InputModel::Abort, now);
    assert(d.actions =~= seq![d.actions[0]]);
}

/// A session under way fails once nothing has happened for as long as the
/// timeout, and not before. The time counts from the last message, or from the
/// first look at the clock.
pub proof fn law_idle_session_fails(s: SessionModel, now: Instant)
    requires
        !(s.state is Completed),
        !(s.state is Failed),
        !(s.state is Idle),
        s.actions == Seq::<ActionModel>::empty(),
        s.last_progress matches Some(last) ==> last.nanos <= now.nanos,
    ensures
        ({
            let d = stepped(s, InputModel::Tick, now);
            match s.last_progress {
                Some(last) => if now.nanos - last.nanos >= s.config.idle_timeout.nanos {
                    d.state is Failed && d.actions == seq![
                        ActionModel::Failed(FailureReason::Timeout),
                    ]
                } else {
                    d == s
                },
                None => d == (SessionModel { last_progress: Some(now), ..s }),
            }
        }),
{
    let d = stepped(s, InputModel::Tick, now);
    if d.actions.len() == 1 {
        assert(d.actions =~= seq![d.actions[0]]);
    }
}

// ---------------------------------------------------------------------------
// Both together
// ---------------------------------------------------------------------------

/// The whole opening: a receiver and a sender that are started for the same
/// file agree on its length, and the receiver is ready for the segments that
/// the sender is asked for.
pub proof fn law_opening(
    nof: NameOfFile,
    rx_config: SessionConfig,
    tx_config: SessionConfig,
    length: u32,
    now: Instant,
)
    requires
        rx_config.idle_timeout.nanos > 0,
        tx_config.idle_timeout.nanos > 0,
    ensures
        ({
            let rx0 = stepped(fresh(Role::Receiver, nof, rx_config), InputModel::Start { length: 0 }, now);
            let tx0 = stepped(fresh(Role::Sender, nof, tx_config), InputModel::Start { length }, now);
            &&& rx0.actions.len() == 1 && tx0.actions.len() == 1
            &&& rx0.actions[0] matches ActionModel::SendSelectCall(select) && {
                let tx1 = stepped(tx0.drained(), InputModel::SelectCall(select), now);
                &&& tx1.actions.len() == 1
                &&& tx1.actions[0] == tx0.actions[0]
                &&& tx1.actions[0] matches ActionModel::SendFileReady(ready) && {
                    let rx1 = stepped(rx0.drained(), InputModel::FileReady(ready), now);
                    &&& ready.lof.0 == length
                    &&& rx1.file_length == length
                    &&& rx1.actions.len() == 1
                    &&& rx1.actions[0] matches ActionModel::SendSelectCall(request) && {
                        let tx2 = stepped(tx1.drained(), InputModel::SelectCall(request), now);
                        &&& tx2.state is TxSendingSegments
                        &&& tx2.actions.len() == 2
                        &&& tx2.actions[1] is RequestNextSegment
                        &&& tx2.actions[0] matches ActionModel::SendSectionReady(section) && {
                            let rx2 = stepped(rx1.drained(), InputModel::SectionReady(section), now);
                            &&& section.los.0 == length
                            &&& rx2.state is RxReceivingSegments
                            &&& rx2.section_length == length
                            &&& rx2.section_checksum == tx2.section_checksum
                            &&& rx2.bytes_transferred == 0 && tx2.bytes_transferred == 0
                        }
                    }
                }
            }
        }),
{
}

/// A sender that is selected, started before or not, announces the length that
/// it holds, as ready.
pub proof fn law_sender_selected(s: SessionModel, select: F_SC_NA_1, now: Instant)
    requires
        s.role is Sender,
        s.state is Idle || s.state is TxAwaitSelect,
        s.actions == Seq::<ActionModel>::empty(),
        s.config.idle_timeout.nanos > 0,
        select.scq.action is SelectFile,
    ensures
        ({
            let d = stepped(s, InputModel::SelectCall(select), now);
            &&& d.actions == seq![
                ActionModel::SendFileReady(
                    F_FR_NA_1 {
                        ioa: s.config.ioa,
                        nof: s.nof,
                        lof: LengthOfFile(s.file_length),
                        frq: Frq { code: 0, negative: false },
                    },
                ),
            ]
            &&& d.state is TxAwaitRequest
            &&& d.file_length == s.file_length
            &&& d.last_progress == Some(now)
        }),
{
    let d = stepped(s, InputModel::SelectCall(select), now);
    assert(d.actions =~= seq![d.actions[0]]);
}

/// The count of octets sticks at the largest number.
pub proof fn law_count_sticks(s: SessionModel, segment: SegmentModel, now: Instant)
    requires
        s.role is Receiver,
        s.state is RxReceivingSegments,
        segment.segment.len() <= 255,
        s.bytes_transferred + segment.segment.len() > u32::MAX,
    ensures
        stepped(s, InputModel::Segment(segment), now).bytes_transferred == u32::MAX,
{
}

/// A session that is over takes no notice of anything, and one that has not
/// begun has no timeout.
pub proof fn law_at_rest(s: SessionModel, input: InputModel, now: Instant)
    requires
        s.actions == Seq::<ActionModel>::empty(),
    ensures
        s.state is Completed || s.state is Failed ==> stepped(s, input, now) == s,
        s.state is Idle ==> stepped(s, InputModel::Tick, now) == s,
{
}

/// A new session is idle, and nothing is known or counted.
pub proof fn law_fresh(role: Role, nof: NameOfFile, config: SessionConfig)
    ensures
        ({
            let s = fresh(role, nof, config);
            &&& s.role == role && s.nof == nof && s.config == config
            &&& s.state is Idle
            &&& s.file_length == 0 && s.section_length == 0 && s.bytes_transferred == 0
            &&& s.section_checksum.0 == 0
            &&& s.last_progress is None
            &&& s.actions.len() == 0
        }),
{
}

} // verus!
