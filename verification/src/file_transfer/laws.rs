//! What holds of every file transfer.

use vstd::prelude::*;
use crate::asdu::types::file::{
    law_checksum_pieces, AfqAction, Checksum, NameOfSection, SegmentModel, F_LS_NA_1,
};
use crate::file_transfer::session::{
    counted, stepped, terminal, ActionModel, FailureReason, InputModel, SessionModel, SessionState,
    ONLY_SECTION,
};
use crate::time::Instant;

verus! {

/// A session that is over ignores every input.
pub proof fn law_terminal_absorbs(s: SessionModel, input: InputModel, now: Instant)
    requires
        terminal(s.state),
    ensures
        stepped(s, input, now) == s.drained(),
{
}

/// The actions that end a session.
pub open spec fn ends(a: ActionModel) -> bool {
    a is Completed || a is Failed
}

/// A session ends exactly once: an action that ends it is emitted in the step
/// that brings it into a terminal state, as the last action of that step, and
/// never otherwise.
pub proof fn law_ends_once(s: SessionModel, input: InputModel, now: Instant)
    requires
        s.actions.len() == 0,
        !terminal(s.state),
    ensures
        ({
            let d = stepped(s, input, now);
            &&& terminal(d.state) ==> d.actions.len() > 0 && (match d.state {
                SessionState::Completed => d.actions.last() is Completed,
                _ => d.actions.last() is Failed,
            })
            &&& forall|i: int|
                0 <= i < d.actions.len() && ends(#[trigger] d.actions[i]) ==> i == d.actions.len()
                    - 1 && terminal(d.state)
        }),
{
}

/// A receiver completes a transfer only on a last-section message whose
/// checksum is that of the data received; any other checksum fails it, and the
/// peer is told so.
pub proof fn law_receiver_verdict(s: SessionModel, asdu: F_LS_NA_1, now: Instant)
    requires
        s.role is Receiver,
        s.state is RxReceivingSegments,
    ensures
        ({
            let d = stepped(s, InputModel::LastSection(asdu), now);
            if asdu.chs == s.section_checksum {
                &&& d.state is Completed
                &&& d.actions == s.actions.push(s.ack(asdu.nos, AfqAction::PositiveFile)).push(
                    ActionModel::Completed { bytes: s.bytes_transferred },
                )
            } else {
                &&& d.state is Failed
                &&& d.actions == s.actions.push(
                    s.ack(asdu.nos, AfqAction::NegativeSection),
                ).push(ActionModel::Failed(FailureReason::ChecksumMismatch))
            }
        }),
{
}

/// A receiver enters the completed state in no other way.
pub proof fn law_receiver_completes_only_checked(s: SessionModel, input: InputModel, now: Instant)
    requires
        s.role is Receiver,
        !terminal(s.state),
        stepped(s, input, now).state is Completed,
    ensures
        s.state is RxReceivingSegments,
        input matches InputModel::LastSection(asdu) && asdu.chs == s.section_checksum,
{
}

/// A session under way that has seen no progress for as long as the timeout
/// fails for that reason.
pub proof fn law_idle_timeout(s: SessionModel, last: Instant, now: Instant)
    requires
        !terminal(s.state),
        !(s.state is Idle),
        s.last_progress == Some(last),
    ensures
        now.reached(last, s.config.idle_timeout) ==> stepped(s, InputModel::Tick, now)
            == s.fail(FailureReason::Timeout),
        !now.reached(last, s.config.idle_timeout) ==> stepped(s, InputModel::Tick, now) == s,
{
}

// ---------------------------------------------------------------------------
// A sender and a receiver together
// ---------------------------------------------------------------------------

/// A sender and a receiver in the middle of a transfer, having counted and
/// summed the same data, with no actions left to hand out.
pub open spec fn in_step(tx: SessionModel, rx: SessionModel) -> bool {
    &&& tx.role is Sender
    &&& tx.state is TxSendingSegments
    &&& rx.role is Receiver
    &&& rx.state is RxReceivingSegments
    &&& tx.section_checksum == rx.section_checksum
    &&& tx.bytes_transferred == rx.bytes_transferred
    &&& tx.config.idle_timeout.nanos > 0
    &&& rx.config.idle_timeout.nanos > 0
    &&& tx.actions.len() == 0
    &&& rx.actions.len() == 0
}

/// The segment that the sender emits for a chunk.
pub open spec fn segment_for(tx: SessionModel, chunk: Seq<u8>) -> SegmentModel {
    SegmentModel {
        ioa: tx.config.ioa,
        nof: tx.nof,
        nos: NameOfSection(ONLY_SECTION),
        segment: chunk,
    }
}

/// Both sides after the sender has sent a chunk and the receiver has got it.
pub open spec fn relayed(
    tx: SessionModel,
    rx: SessionModel,
    chunk: Seq<u8>,
    now: Instant,
) -> (SessionModel, SessionModel) {
    (
        stepped(tx, InputModel::SegmentReady(chunk), now),
        stepped(rx, InputModel::Segment(segment_for(tx, chunk)), now),
    )
}

/// A chunk that the sender emits and the receiver gets is delivered unchanged,
/// and both sides have accounted for it.
pub proof fn law_segment_relayed(
    tx: SessionModel,
    rx: SessionModel,
    chunk: Seq<u8>,
    now: Instant,
)
    requires
        in_step(tx, rx),
        chunk.len() > 0,
    ensures
        ({
            let (t, r) = relayed(tx, rx, chunk, now);
            &&& t.actions[0] == ActionModel::SendSegment(segment_for(tx, chunk))
            &&& r.actions == seq![ActionModel::DeliverSegment(chunk)]
            &&& in_step(t.drained(), r.drained())
            &&& r.section_checksum == rx.section_checksum.folded(chunk)
            &&& r.bytes_transferred == counted(rx.bytes_transferred, chunk.len() as int)
        }),
{
    let (t, r) = relayed(tx, rx, chunk, now);
    assert(r.actions =~= seq![ActionModel::DeliverSegment(chunk)]);
}

/// All chunks one behind the other.
pub open spec fn joined(chunks: Seq<Seq<u8>>) -> Seq<u8>
    decreases chunks.len(),
{
    if chunks.len() == 0 {
        Seq::empty()
    } else {
        chunks[0] + joined(chunks.skip(1))
    }
}

/// Both sides after all chunks have been relayed.
pub open spec fn relayed_all(
    tx: SessionModel,
    rx: SessionModel,
    chunks: Seq<Seq<u8>>,
    now: Instant,
) -> (SessionModel, SessionModel)
    decreases chunks.len(),
{
    if chunks.len() == 0 {
        (tx, rx)
    } else {
        let (t, r) = relayed(tx, rx, chunks[0], now);
        relayed_all(t.drained(), r.drained(), chunks.skip(1), now)
    }
}

proof fn lemma_relayed_all(
    tx: SessionModel,
    rx: SessionModel,
    chunks: Seq<Seq<u8>>,
    now: Instant,
)
    requires
        in_step(tx, rx),
        forall|i: int| 0 <= i < chunks.len() ==> (#[trigger] chunks[i]).len() > 0,
        rx.bytes_transferred + joined(chunks).len() <= u32::MAX,
    ensures
        ({
            let (t, r) = relayed_all(tx, rx, chunks, now);
            &&& in_step(t, r)
            &&& r.section_checksum == rx.section_checksum.folded(joined(chunks))
            &&& r.bytes_transferred == rx.bytes_transferred + joined(chunks).len()
            &&& t.nof == tx.nof
            &&& t.config == tx.config
        }),
    decreases chunks.len(),
{
    if chunks.len() > 0 {
        let chunk = chunks[0];
        let rest = chunks.skip(1);
        let (t, r) = relayed(tx, rx, chunk, now);
        law_segment_relayed(tx, rx, chunk, now);
        assert forall|i: int| 0 <= i < rest.len() implies (#[trigger] rest[i]).len() > 0 by {
            assert(rest[i] == chunks[i + 1]);
        }
        lemma_relayed_all(t.drained(), r.drained(), rest, now);
        law_checksum_pieces(rx.section_checksum, chunk, joined(rest));
    }
}

/// A transfer comes through: when every chunk that the sender was given has
/// reached the receiver and the sender runs out of data, the receiver finds
/// the checksum right and completes, and its acknowledgement completes the
/// sender, both with the size of the data.
pub proof fn law_transfer_completes(
    tx: SessionModel,
    rx: SessionModel,
    chunks: Seq<Seq<u8>>,
    now: Instant,
)
    requires
        in_step(tx, rx),
        tx.section_checksum == Checksum(0),
        tx.bytes_transferred == 0,
        forall|i: int| 0 <= i < chunks.len() ==> (#[trigger] chunks[i]).len() > 0,
        joined(chunks).len() <= u32::MAX,
    ensures
        ({
            let (t, r) = relayed_all(tx, rx, chunks, now);
            let eof = stepped(t, InputModel::SegmentReady(Seq::empty()), now);
            let done = ActionModel::Completed { bytes: joined(chunks).len() as u32 };
            &&& r.section_checksum == Checksum(0).folded(joined(chunks))
            &&& eof.actions.len() == 1
            &&& eof.actions[0] matches ActionModel::SendLastSection(last) && {
                let closed = stepped(r, InputModel::LastSection(last), now);
                &&& closed.state is Completed
                &&& closed.actions.len() == 2
                &&& closed.actions[1] == done
                &&& closed.actions[0] matches ActionModel::SendAckFile(ack) && {
                    let acked = stepped(eof.drained(), InputModel::AckFile(ack), now);
                    &&& acked.state is Completed
                    &&& acked.actions == seq![done]
                }
            }
        }),
{
    lemma_relayed_all(tx, rx, chunks, now);
    let (t, r) = relayed_all(tx, rx, chunks, now);
    let eof = stepped(t, InputModel::SegmentReady(Seq::empty()), now);
    let last = eof.actions[0]->SendLastSection_0;
    let closed = stepped(r, InputModel::LastSection(last), now);
    let ack = closed.actions[0]->SendAckFile_0;
    let acked = stepped(eof.drained(), InputModel::AckFile(ack), now);
    let done = ActionModel::Completed { bytes: joined(chunks).len() as u32 };
    assert(acked.actions =~= seq![done]);
}

} // verus!
