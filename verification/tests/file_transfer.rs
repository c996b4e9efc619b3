//! File transfer sessions.

use iec60870::asdu::header::Ioa;
use iec60870::asdu::types::file::{
    Afq, AfqAction, Checksum, Frq, LengthOfFile, LengthOfSection, Lsq, NameOfFile, NameOfSection, Scq,
    ScqAction, Srq, F_AF_NA_1, F_FR_NA_1, F_LS_NA_1, F_SC_NA_1, F_SG_NA_1, F_SR_NA_1,
};
use iec60870::file_transfer::session::{
    FailureReason, Role, Session, SessionAction, SessionConfig, SessionInput, SessionState,
};
use iec60870::time::{Duration, Instant};

fn cfg() -> SessionConfig {
    SessionConfig {
        max_segment_bytes: 16,
        idle_timeout: Duration::from_millis(500),
        ioa: Ioa(0),
    }
}

fn now_plus(d: Duration) -> Instant {
    Instant { nanos: 0 }.checked_add(d).unwrap()
}

// ---- Receiver happy path ----------------------------------------------

#[test]
fn receiver_happy_path() {
    let mut s = Session::new(Role::Receiver, NameOfFile(7), cfg());
    let t0 = Instant { nanos: 0 };

    let acts = s.step(SessionInput::Start { length: 0 }, t0);
    assert_eq!(acts.len(), 1);
    assert!(matches!(acts[0], SessionAction::SendSelectCall(_)));
    assert_eq!(s.state(), SessionState::RxAwaitFileReady);

    // Peer announces file ready with 32 bytes.
    let acts = s.step(
        SessionInput::FileReady(F_FR_NA_1 {
            ioa: Ioa(0),
            nof: NameOfFile(7),
            lof: LengthOfFile(32),
            frq: Frq::ready(),
        }),
        t0,
    );
    assert!(matches!(acts[0], SessionAction::SendSelectCall(_)));
    assert_eq!(s.state(), SessionState::RxAwaitSectionReady);

    // Peer announces section ready.
    let acts = s.step(
        SessionInput::SectionReady(F_SR_NA_1 {
            ioa: Ioa(0),
            nof: NameOfFile(7),
            nos: NameOfSection(1),
            los: LengthOfSection(32),
            srq: Srq::ready(),
        }),
        t0,
    );
    assert!(acts.is_empty()); // Receiver just transitions silently
    assert_eq!(s.state(), SessionState::RxReceivingSegments);

    // Two segments arrive: 16 + 16 bytes.
    let seg_a = vec![0x01u8; 16];
    let seg_b = vec![0x02u8; 16];
    let acts = s.step(
        SessionInput::Segment(F_SG_NA_1 {
            ioa: Ioa(0),
            nof: NameOfFile(7),
            nos: NameOfSection(1),
            segment: seg_a.clone(),
        }),
        t0,
    );
    assert!(matches!(acts[0], SessionAction::DeliverSegment(ref d) if *d == seg_a));

    let acts = s.step(
        SessionInput::Segment(F_SG_NA_1 {
            ioa: Ioa(0),
            nof: NameOfFile(7),
            nos: NameOfSection(1),
            segment: seg_b.clone(),
        }),
        t0,
    );
    assert!(matches!(acts[0], SessionAction::DeliverSegment(ref d) if *d == seg_b));

    // Compute expected checksum.
    let mut chs = Checksum::default();
    chs.update_slice(&seg_a);
    chs.update_slice(&seg_b);

    // Last section.
    let acts = s.step(
        SessionInput::LastSection(F_LS_NA_1 {
            ioa: Ioa(0),
            nof: NameOfFile(7),
            nos: NameOfSection(1),
            lsq: Lsq::FileWithoutDeactivate,
            chs,
        }),
        t0,
    );
    // Expect: SendAckFile + Completed
    assert_eq!(acts.len(), 2);
    assert!(matches!(acts[0], SessionAction::SendAckFile(_)));
    assert!(matches!(acts[1], SessionAction::Completed { bytes: 32 }));
    assert_eq!(s.state(), SessionState::Completed);
    assert!(s.is_terminal());
}

// ---- Sender happy path ------------------------------------------------

#[test]
fn sender_happy_path_proactive() {
    let mut s = Session::new(Role::Sender, NameOfFile(7), cfg());
    let t0 = Instant { nanos: 0 };

    let acts = s.step(SessionInput::Start { length: 32 }, t0);
    assert!(matches!(acts[0], SessionAction::SendFileReady(_)));
    assert_eq!(s.state(), SessionState::TxAwaitSelect);

    // Master confirms with SELECT.
    let acts = s.step(
        SessionInput::SelectCall(F_SC_NA_1 {
            ioa: Ioa(0),
            nof: NameOfFile(7),
            nos: NameOfSection(NameOfSection::WHOLE_FILE),
            scq: Scq::new(ScqAction::SelectFile, 0),
        }),
        t0,
    );
    // Reactive SELECT after proactive FR is handled by re-sending FR.
    // The session is now in TxAwaitRequest.
    assert_eq!(s.state(), SessionState::TxAwaitRequest);
    assert!(matches!(acts[0], SessionAction::SendFileReady(_)));

    // Master requests the data.
    let acts = s.step(
        SessionInput::SelectCall(F_SC_NA_1 {
            ioa: Ioa(0),
            nof: NameOfFile(7),
            nos: NameOfSection(NameOfSection::WHOLE_FILE),
            scq: Scq::new(ScqAction::RequestFile, 0),
        }),
        t0,
    );
    // Expect SendSectionReady + RequestNextSegment.
    assert!(matches!(acts[0], SessionAction::SendSectionReady(_)));
    assert!(matches!(acts[1], SessionAction::RequestNextSegment { max_bytes: 16 }));
    assert_eq!(s.state(), SessionState::TxSendingSegments);

    // Provider yields a 16-byte chunk.
    let chunk = vec![0xAB; 16];
    let acts = s.step(SessionInput::SegmentReady(chunk.clone()), t0);
    // Expect SendSegment + RequestNextSegment.
    assert!(matches!(acts[0], SessionAction::SendSegment(ref a) if a.segment == chunk));
    assert!(matches!(acts[1], SessionAction::RequestNextSegment { .. }));

    // Provider yields a second 16-byte chunk.
    let chunk2 = vec![0xCD; 16];
    let _ = s.step(SessionInput::SegmentReady(chunk2.clone()), t0);

    // Provider signals EOF.
    let acts = s.step(SessionInput::SegmentReady(Vec::new()), t0);
    assert!(matches!(acts[0], SessionAction::SendLastSection(_)));
    assert_eq!(s.state(), SessionState::TxAwaitAck);

    // Master acks positively.
    let acts = s.step(
        SessionInput::AckFile(F_AF_NA_1 {
            ioa: Ioa(0),
            nof: NameOfFile(7),
            nos: NameOfSection(1),
            afq: Afq::new(AfqAction::PositiveFile, 0),
        }),
        t0,
    );
    assert!(matches!(acts[0], SessionAction::Completed { bytes: 32 }));
    assert_eq!(s.state(), SessionState::Completed);
}

// ---- Failure modes ----------------------------------------------------

#[test]
fn receiver_checksum_mismatch() {
    let mut s = Session::new(Role::Receiver, NameOfFile(1), cfg());
    let t0 = Instant { nanos: 0 };
    let _ = s.step(SessionInput::Start { length: 0 }, t0);
    let _ = s.step(
        SessionInput::FileReady(F_FR_NA_1 {
            ioa: Ioa(0),
            nof: NameOfFile(1),
            lof: LengthOfFile(4),
            frq: Frq::ready(),
        }),
        t0,
    );
    let _ = s.step(
        SessionInput::SectionReady(F_SR_NA_1 {
            ioa: Ioa(0),
            nof: NameOfFile(1),
            nos: NameOfSection(1),
            los: LengthOfSection(4),
            srq: Srq::ready(),
        }),
        t0,
    );
    let _ = s.step(
        SessionInput::Segment(F_SG_NA_1 {
            ioa: Ioa(0),
            nof: NameOfFile(1),
            nos: NameOfSection(1),
            segment: vec![1, 2, 3, 4],
        }),
        t0,
    );
    // Real checksum is 10, send a wrong one.
    let acts = s.step(
        SessionInput::LastSection(F_LS_NA_1 {
            ioa: Ioa(0),
            nof: NameOfFile(1),
            nos: NameOfSection(1),
            lsq: Lsq::FileWithoutDeactivate,
            chs: Checksum(0xFF),
        }),
        t0,
    );
    // SendAckFile (negative) + Failed(ChecksumMismatch)
    assert!(matches!(acts[0], SessionAction::SendAckFile(_)));
    assert!(matches!(
        acts[1],
        SessionAction::Failed(FailureReason::ChecksumMismatch)
    ));
    assert_eq!(s.state(), SessionState::Failed);
}

#[test]
fn receiver_timeout() {
    let mut s = Session::new(Role::Receiver, NameOfFile(1), cfg());
    let t0 = Instant { nanos: 0 };
    let _ = s.step(SessionInput::Start { length: 0 }, t0);
    // Skip forward past idle_timeout without any peer activity.
    let acts = s.step(SessionInput::Tick, now_plus(Duration::from_secs(2)));
    assert!(matches!(
        acts[0],
        SessionAction::Failed(FailureReason::Timeout)
    ));
}

#[test]
fn sender_peer_rejects() {
    let mut s = Session::new(Role::Sender, NameOfFile(1), cfg());
    let t0 = Instant { nanos: 0 };
    let _ = s.step(SessionInput::Start { length: 4 }, t0);
    // Force sender into TxAwaitAck path quickly.
    let _ = s.step(
        SessionInput::SelectCall(F_SC_NA_1 {
            ioa: Ioa(0),
            nof: NameOfFile(1),
            nos: NameOfSection(NameOfSection::WHOLE_FILE),
            scq: Scq::new(ScqAction::SelectFile, 0),
        }),
        t0,
    );
    let _ = s.step(
        SessionInput::SelectCall(F_SC_NA_1 {
            ioa: Ioa(0),
            nof: NameOfFile(1),
            nos: NameOfSection(NameOfSection::WHOLE_FILE),
            scq: Scq::new(ScqAction::RequestFile, 0),
        }),
        t0,
    );
    // Provider yields all four bytes then EOF.
    let _ = s.step(SessionInput::SegmentReady(vec![1, 2, 3, 4]), t0);
    let _ = s.step(SessionInput::SegmentReady(Vec::new()), t0);
    assert_eq!(s.state(), SessionState::TxAwaitAck);

    let acts = s.step(
        SessionInput::AckFile(F_AF_NA_1 {
            ioa: Ioa(0),
            nof: NameOfFile(1),
            nos: NameOfSection(1),
            afq: Afq::new(AfqAction::NegativeFile, 0),
        }),
        t0,
    );
    assert!(matches!(
        acts[0],
        SessionAction::Failed(FailureReason::PeerRejected)
    ));
}

#[test]
fn abort_is_idempotent() {
    let mut s = Session::new(Role::Receiver, NameOfFile(1), cfg());
    let t0 = Instant { nanos: 0 };
    let _ = s.step(SessionInput::Start { length: 0 }, t0);
    let acts = s.step(SessionInput::Abort, t0);
    assert!(matches!(
        acts[0],
        SessionAction::Failed(FailureReason::Aborted)
    ));
    // Subsequent inputs are ignored.
    let acts = s.step(
        SessionInput::FileReady(F_FR_NA_1::default()),
        t0,
    );
    assert!(acts.is_empty());
}
