//! The connection, link and session state machines over several steps.

use iec60870::asdu::header::Ioa;
use iec60870::asdu::types::file::{NameOfFile, ScqAction};
use iec60870::file_transfer::session::{
    FailureReason, Role as FileRole, Session, SessionAction, SessionConfig, SessionInput,
    SessionState, DEFAULT_SEGMENT_BYTES,
};
use iec60870::frame101::control::{ControlField, Direction, FuncCodePrimary, FuncCodeSecondary};
use iec60870::frame101::frame::{Frame101, LinkAddress, LinkAddressSize, SingleChar};
use iec60870::frame101::link::{
    Action as LinkAction, Config as LinkConfig, Connection as Link, Input as LinkInput, LinkState,
    Mode, Reason, Role as LinkRole,
};
use iec60870::frame104::apdu::{Apdu, UFunction};
use iec60870::frame104::seq::SeqNo;
use iec60870::frame104::state::{
    Action, Config, Connection, DisconnectReason, Input, Role, State,
};
use iec60870::time::{Duration, Instant};

fn at(secs: u64) -> Instant {
    Instant { nanos: 0 }.checked_add(Duration::from_secs(secs)).unwrap()
}

fn u(function: UFunction) -> Apdu {
    Apdu::U { function }
}

fn s(recv: u16) -> Apdu {
    Apdu::S { recv: SeqNo::new(recv) }
}

fn i(send: u16, recv: u16, asdu: Vec<u8>) -> Apdu {
    Apdu::I { send: SeqNo::new(send), recv: SeqNo::new(recv), asdu }
}

fn active_client(config: Config) -> Connection {
    let mut c = Connection::new(Role::Client, config);
    c.handle(Input::StartDt, at(0));
    c.handle(Input::Apdu(u(UFunction::StartDtCon)), at(0));
    assert_eq!(c.state(), State::Active);
    c
}

fn active_server() -> Connection {
    let mut c = Connection::new(Role::Server, Config::default());
    c.handle(Input::Apdu(u(UFunction::StartDtAct)), at(0));
    c
}

// ---- IEC 60870-5-104 -------------------------------------------------------

#[test]
fn default_parameters() {
    let c = Connection::new(Role::Server, Config::default());
    assert_eq!(c.role(), Role::Server);
    assert_eq!(c.state(), State::Stopped);
    assert_eq!((c.config().k, c.config().w), (12, 8));
    assert_eq!(c.config().t1, Duration::from_secs(15));
    assert_eq!(c.config().t2, Duration::from_secs(10));
    assert_eq!(c.config().t3, Duration::from_secs(20));
}

#[test]
fn stop_waits_for_confirmation_and_acknowledgements() {
    let mut c = active_client(Config::default());
    assert_eq!(
        c.handle(Input::SendAsdu(vec![1]), at(1)),
        [Action::SendApdu(i(0, 0, vec![1]))]
    );
    assert_eq!(
        c.handle(Input::StopDt, at(2)),
        [Action::SendApdu(u(UFunction::StopDtAct)), Action::StateChanged(State::Stopping)]
    );
    // The confirmation alone is not enough while a frame is outstanding.
    assert_eq!(c.handle(Input::Apdu(u(UFunction::StopDtCon)), at(3)), []);
    assert_eq!(c.state(), State::Stopping);
    assert_eq!(
        c.handle(Input::Apdu(s(1)), at(4)),
        [
            Action::StateChanged(State::Stopped),
            Action::Disconnect(DisconnectReason::StoppedCleanly),
        ]
    );
}

#[test]
fn stop_without_outstanding_frames_waits_for_the_confirmation() {
    let mut c = active_client(Config::default());
    assert_eq!(c.handle(Input::StopDt, at(1)).len(), 2);
    assert_eq!(c.handle(Input::Tick, at(2)), []);
    assert_eq!(
        c.handle(Input::Apdu(u(UFunction::StopDtCon)), at(3)),
        [
            Action::StateChanged(State::Stopped),
            Action::Disconnect(DisconnectReason::StoppedCleanly),
        ]
    );
}

#[test]
fn a_server_confirms_the_stop() {
    let mut c = active_server();
    assert_eq!(
        c.handle(Input::Apdu(u(UFunction::StopDtAct)), at(1)),
        [Action::SendApdu(u(UFunction::StopDtCon)), Action::StateChanged(State::Stopped)]
    );
    let mut c = active_server();
    assert_eq!(c.handle(Input::StopDt, at(1)), [Action::StateChanged(State::Stopped)]);
}

#[test]
fn received_frames_are_acknowledged_after_t2() {
    let mut c = active_server();
    c.handle(Input::Apdu(i(0, 0, vec![9])), at(1));
    assert_eq!(c.handle(Input::Tick, at(10)), []);
    assert_eq!(c.handle(Input::Tick, at(11)), [Action::SendApdu(s(1))]);
    assert_eq!(c.handle(Input::Tick, at(12)), []);
}

#[test]
fn an_i_frame_acknowledges_what_was_received() {
    let mut c = active_server();
    c.handle(Input::Apdu(i(0, 0, vec![9])), at(1));
    assert_eq!(
        c.handle(Input::SendAsdu(vec![7]), at(2)),
        [Action::SendApdu(i(0, 1, vec![7]))]
    );
    // Nothing is left to acknowledge.
    assert_eq!(c.handle(Input::Tick, at(12)), []);
}

#[test]
fn a_test_frame_that_is_not_confirmed_closes_the_connection() {
    let mut c = active_client(Config::default());
    assert_eq!(
        c.handle(Input::Tick, at(20)),
        [Action::SendApdu(u(UFunction::TestFrAct))]
    );
    let mut confirmed = active_client(Config::default());
    confirmed.handle(Input::Tick, at(20));
    confirmed.handle(Input::Apdu(u(UFunction::TestFrCon)), at(21));
    assert_eq!(confirmed.handle(Input::Tick, at(36)), []);
    assert_eq!(
        c.handle(Input::Tick, at(35)),
        [
            Action::Disconnect(DisconnectReason::AckTimeout),
            Action::StateChanged(State::Closed),
        ]
    );
}

#[test]
fn a_start_or_stop_that_is_not_confirmed_closes_the_connection() {
    let closed = [
        Action::Disconnect(DisconnectReason::AckTimeout),
        Action::StateChanged(State::Closed),
    ];
    let mut c = Connection::new(Role::Client, Config::default());
    c.handle(Input::StartDt, at(0));
    assert_eq!(c.handle(Input::Tick, at(14)), []);
    assert_eq!(c.handle(Input::Tick, at(15)), closed);

    let mut c = active_client(Config::default());
    c.handle(Input::StopDt, at(1));
    assert_eq!(c.handle(Input::Tick, at(15)), []);
    assert_eq!(c.handle(Input::Tick, at(16)), closed);
}

#[test]
fn what_is_sent_before_the_start_is_flushed_with_it() {
    let mut c = Connection::new(Role::Client, Config { k: 2, ..Config::default() });
    for n in 1..=3u8 {
        assert_eq!(c.handle(Input::SendAsdu(vec![n]), at(0)), []);
    }
    c.handle(Input::StartDt, at(0));
    // As far as the window goes.
    assert_eq!(
        c.handle(Input::Apdu(u(UFunction::StartDtCon)), at(1)),
        [
            Action::StateChanged(State::Active),
            Action::SendApdu(i(0, 0, vec![1])),
            Action::SendApdu(i(1, 0, vec![2])),
        ]
    );
    // A later one does not overtake.
    assert_eq!(c.handle(Input::SendAsdu(vec![4]), at(1)), []);
    assert_eq!(
        c.handle(Input::Apdu(s(2)), at(2)),
        [Action::SendApdu(i(2, 0, vec![3])), Action::SendApdu(i(3, 0, vec![4]))]
    );
}

#[test]
fn a_server_sends_what_was_queued_with_the_next_acknowledgement() {
    let mut c = Connection::new(Role::Server, Config::default());
    assert_eq!(c.handle(Input::SendAsdu(vec![5]), at(0)), []);
    assert_eq!(
        c.handle(Input::Apdu(u(UFunction::StartDtAct)), at(1)),
        [Action::SendApdu(u(UFunction::StartDtCon)), Action::StateChanged(State::Active)]
    );
    assert_eq!(c.handle(Input::Apdu(s(0)), at(2)), [Action::SendApdu(i(0, 0, vec![5]))]);
}

#[test]
fn the_window_lets_through_what_is_acknowledged() {
    let k = 3usize;
    let mut c = active_client(Config { k: k as u16, ..Config::default() });
    let mut sent: Vec<Apdu> = Vec::new();
    let mut acked = 0usize;
    for n in 0..20usize {
        let mut out = c.handle(Input::SendAsdu(vec![n as u8]), at(1));
        if n % 4 == 3 {
            acked = (acked + 3).min(sent.len());
            out.extend(c.handle(Input::Apdu(s(acked as u16)), at(1)));
        }
        for action in out {
            match action {
                Action::SendApdu(apdu) => sent.push(apdu),
                other => panic!("{other:?}"),
            }
        }
        assert_eq!(sent.len(), (n + 1).min(acked + k));
    }
    for (j, apdu) in sent.iter().enumerate() {
        assert_eq!(*apdu, i(j as u16, 0, vec![j as u8]));
    }
}

#[test]
fn i_frames_before_the_start_are_protocol_errors() {
    let mut c = Connection::new(Role::Server, Config::default());
    assert_eq!(
        c.handle(Input::Apdu(i(0, 0, vec![])), at(0)),
        [
            Action::Disconnect(DisconnectReason::ProtocolError),
            Action::StateChanged(State::Closed),
        ]
    );
}

#[test]
fn acknowledgements_wrap_with_the_sequence_numbers() {
    let mut c = active_client(Config { k: 1, ..Config::default() });
    for n in 0..=32768u32 {
        let here = (n % 32768) as u16;
        let next = ((n + 1) % 32768) as u16;
        assert_eq!(
            c.handle(Input::SendAsdu(vec![]), at(1)),
            [Action::SendApdu(i(here, 0, vec![]))]
        );
        assert_eq!(c.handle(Input::Apdu(s(next)), at(1)), []);
    }
}

// ---- IEC 60870-5-101 -------------------------------------------------------

fn link(role: LinkRole, max_retries: u8) -> Link {
    Link::new(
        role,
        Mode::Unbalanced,
        LinkConfig {
            link_address: LinkAddress(5),
            addr_size: LinkAddressSize::One,
            timeout: Duration::from_secs(1),
            max_retries,
        },
    )
}

fn frames(actions: &[LinkAction]) -> Vec<Frame101> {
    actions
        .iter()
        .filter_map(|a| match a {
            LinkAction::SendFrame(f) => Some(f.clone()),
            _ => None,
        })
        .collect()
}

fn delivered(actions: &[LinkAction]) -> Vec<Vec<u8>> {
    actions
        .iter()
        .filter_map(|a| match a {
            LinkAction::DeliverAsdu(d) => Some(d.clone()),
            _ => None,
        })
        .collect()
}

fn primary(func: FuncCodePrimary, address: u16) -> Frame101 {
    Frame101::Fixed {
        control: ControlField::Primary { fcb: false, fcv: false, func }.encode(),
        address: LinkAddress(address),
    }
}

#[test]
fn master_and_outstation_exchange_data_exactly_once() {
    let mut m = link(LinkRole::Master, 3);
    let mut o = link(LinkRole::Outstation, 3);
    let reset = frames(&m.handle(LinkInput::ResetRemoteLink, at(0)));
    let ack = frames(&o.handle(LinkInput::FrameReceived(reset[0].clone()), at(0)));
    m.handle(LinkInput::FrameReceived(ack[0].clone()), at(0));
    assert_eq!((m.link_state(), o.link_state()), (LinkState::Ready, LinkState::Ready));

    m.handle(LinkInput::SendUserData(vec![1]), at(1));
    m.handle(LinkInput::SendUserData(vec![2]), at(1));
    // The acknowledgement of the first frame is lost; it is sent again.
    let again = frames(&m.handle(LinkInput::Tick, at(2)));
    assert_eq!(again.len(), 1);
    let first = o.handle(LinkInput::FrameReceived(again[0].clone()), at(2));
    assert_eq!(delivered(&first), [vec![1]]);
    let second = o.handle(LinkInput::FrameReceived(again[0].clone()), at(2));
    assert!(delivered(&second).is_empty());
    assert_eq!(frames(&second).len(), 1);
    // The acknowledgement lets the next frame go out.
    let next = frames(&m.handle(LinkInput::FrameReceived(frames(&second)[0].clone()), at(2)));
    let third = o.handle(LinkInput::FrameReceived(next[0].clone()), at(2));
    assert_eq!(delivered(&third), [vec![2]]);
}

#[test]
fn user_data_alternates_and_waits_for_the_acknowledgement() {
    let mut m = link(LinkRole::Master, 3);
    let mut sent = Vec::new();
    for n in 0..4u8 {
        sent.extend(frames(&m.handle(LinkInput::SendUserData(vec![n]), at(0))));
    }
    assert_eq!(sent.len(), 1);
    for n in 0..4usize {
        let expected = Frame101::Variable {
            control: if n % 2 == 0 { 0x53 } else { 0x73 },
            address: LinkAddress(5),
            asdu: vec![n as u8],
        };
        assert_eq!(sent[n], expected);
        // A timeout repeats the frame with the same FCB.
        let later = at(10 * (n as u64 + 1));
        assert_eq!(frames(&m.handle(LinkInput::Tick, later)), [expected]);
        let ack = if n % 2 == 0 {
            Frame101::Single(SingleChar::Ack)
        } else {
            Frame101::Fixed { control: 0x00, address: LinkAddress(5) }
        };
        sent.extend(frames(&m.handle(LinkInput::FrameReceived(ack), later)));
        assert_eq!(sent.len(), (n + 2).min(4));
    }
}

#[test]
fn polls_are_answered_in_order() {
    let mut o = link(LinkRole::Outstation, 3);
    o.handle(LinkInput::SendUserData(vec![1]), at(0));
    o.handle(LinkInput::SendUserData(vec![2]), at(0));
    for (func, expected) in [
        (FuncCodePrimary::RequestUserDataClass1, Some(vec![1u8])),
        (FuncCodePrimary::RequestUserDataClass2, Some(vec![2])),
        (FuncCodePrimary::RequestUserDataClass1, None),
    ] {
        let out = frames(&o.handle(LinkInput::FrameReceived(primary(func, 5)), at(1)));
        match (&out[0], expected) {
            (Frame101::Variable { control, address, asdu }, Some(data)) => {
                assert_eq!(asdu, &data);
                assert_eq!(*address, LinkAddress(5));
                assert_eq!(
                    ControlField::decode(*control, Direction::Secondary),
                    Some(ControlField::Secondary {
                        acd: false,
                        dfc: false,
                        func: FuncCodeSecondary::RespondUserData,
                    })
                );
            }
            (Frame101::Fixed { control, .. }, None) => assert_eq!(
                ControlField::decode(*control, Direction::Secondary),
                Some(ControlField::Secondary {
                    acd: false,
                    dfc: false,
                    func: FuncCodeSecondary::NackNoData,
                })
            ),
            other => panic!("{other:?}"),
        }
    }
}

#[test]
fn frames_for_another_address_are_ignored() {
    let mut o = link(LinkRole::Outstation, 3);
    let out = o.handle(
        LinkInput::FrameReceived(primary(FuncCodePrimary::ResetRemoteLink, 6)),
        at(0),
    );
    assert_eq!(out, []);
    assert_eq!(o.link_state(), LinkState::NotReady);
}

#[test]
fn a_negative_answer_is_a_link_error() {
    let mut m = link(LinkRole::Master, 3);
    m.handle(LinkInput::RequestStatus, at(0));
    assert_eq!(
        m.handle(LinkInput::FrameReceived(Frame101::Single(SingleChar::Nack)), at(0)),
        [LinkAction::LinkError(Reason::Nack)]
    );
    let odd = Frame101::Fixed { control: 0x02, address: LinkAddress(5) };
    assert_eq!(
        m.handle(LinkInput::FrameReceived(odd), at(0)),
        [LinkAction::LinkError(Reason::ProtocolError)]
    );
}

#[test]
fn the_largest_retry_count_is_exhausted_too() {
    let mut m = link(LinkRole::Master, 255);
    m.handle(LinkInput::ResetRemoteLink, at(0));
    for n in 1..=255u64 {
        assert_eq!(frames(&m.handle(LinkInput::Tick, at(n))).len(), 1);
    }
    assert_eq!(
        m.handle(LinkInput::Tick, at(256)),
        [
            LinkAction::LinkStateChanged(LinkState::Failed),
            LinkAction::LinkError(Reason::AckTimeout),
        ]
    );
}

// ---- file transfer ---------------------------------------------------------

/// Hands the messages of each session to the other until both are silent.
fn run_transfer(data: &[u8], chunk: usize) -> (Vec<u8>, Session, Session) {
    let config = SessionConfig { max_segment_bytes: chunk, ..SessionConfig::default() };
    let mut rx = Session::new(FileRole::Receiver, NameOfFile(9), config);
    let mut tx = Session::new(FileRole::Sender, NameOfFile(9), config);
    let mut stored = Vec::new();
    let mut left: &[u8] = data;
    let mut to_tx: Vec<SessionInput> = Vec::new();
    let mut to_rx: Vec<SessionInput> = vec![SessionInput::Start { length: 0 }];
    loop {
        let mut emitted = Vec::new();
        for input in to_rx.drain(..) {
            emitted.extend(rx.step(input, at(0)));
        }
        for input in to_tx.drain(..) {
            emitted.extend(tx.step(input, at(0)));
        }
        if emitted.is_empty() {
            return (stored, rx, tx);
        }
        for action in emitted {
            match action {
                SessionAction::SendFileReady(a) => to_rx.push(SessionInput::FileReady(a)),
                SessionAction::SendSectionReady(a) => to_rx.push(SessionInput::SectionReady(a)),
                SessionAction::SendLastSection(a) => to_rx.push(SessionInput::LastSection(a)),
                SessionAction::SendSegment(a) => to_rx.push(SessionInput::Segment(a)),
                SessionAction::SendSelectCall(a) => to_tx.push(SessionInput::SelectCall(a)),
                SessionAction::SendAckFile(a) => to_tx.push(SessionInput::AckFile(a)),
                SessionAction::DeliverSegment(d) => stored.extend(d),
                SessionAction::RequestNextSegment { max_bytes } => {
                    let n = left.len().min(max_bytes);
                    let (head, tail) = left.split_at(n);
                    left = tail;
                    to_tx.push(SessionInput::SegmentReady(head.to_vec()));
                }
                SessionAction::Completed { bytes } => assert_eq!(bytes as usize, data.len()),
                SessionAction::Failed(reason) => panic!("{reason:?}"),
            }
        }
    }
}

#[test]
fn a_file_comes_through() {
    for (len, chunk) in [(0usize, 16usize), (1, 16), (100, 16), (1000, 9999), (5, 0)] {
        let data: Vec<u8> = (0..len).map(|k| (k * 31) as u8).collect();
        let (stored, rx, tx) = run_transfer(&data, chunk);
        assert_eq!(stored, data);
        assert_eq!(rx.state(), SessionState::Completed);
        assert_eq!(tx.state(), SessionState::Completed);
        assert_eq!((rx.role(), rx.nof()), (FileRole::Receiver, NameOfFile(9)));
    }
}

#[test]
fn the_segment_size_is_clamped() {
    for (asked, granted) in [(0usize, 1usize), (255, 255), (4000, 255)] {
        let config = SessionConfig { max_segment_bytes: asked, ..SessionConfig::default() };
        let mut tx = Session::new(FileRole::Sender, NameOfFile(1), config);
        tx.step(SessionInput::Start { length: 4 }, at(0));
        for action in [ScqAction::SelectFile, ScqAction::RequestFile] {
            let call = iec60870::asdu::types::file::F_SC_NA_1 {
                ioa: Ioa(0),
                nof: NameOfFile(1),
                nos: Default::default(),
                scq: iec60870::asdu::types::file::Scq::new(action, 0),
            };
            let acts = tx.step(SessionInput::SelectCall(call), at(0));
            if action == ScqAction::RequestFile {
                assert_eq!(acts[1], SessionAction::RequestNextSegment { max_bytes: granted });
            }
        }
    }
    assert_eq!(SessionConfig::default().max_segment_bytes, DEFAULT_SEGMENT_BYTES);
    assert_eq!(SessionConfig::default().idle_timeout, Duration::from_secs(30));
}

#[test]
fn messages_out_of_their_turn_fail_the_session() {
    let mut tx = Session::new(FileRole::Sender, NameOfFile(1), SessionConfig::default());
    tx.step(SessionInput::Start { length: 4 }, at(0));
    let acts = tx.step(SessionInput::AckFile(Default::default()), at(0));
    assert_eq!(acts, [SessionAction::Failed(FailureReason::ProtocolViolation)]);
    assert!(tx.is_terminal());
    assert!(tx.step(SessionInput::Tick, at(99)).is_empty());
}

#[test]
fn a_negative_announcement_is_a_rejection() {
    let mut rx = Session::new(FileRole::Receiver, NameOfFile(1), SessionConfig::default());
    rx.step(SessionInput::Start { length: 0 }, at(0));
    let refused = iec60870::asdu::types::file::F_FR_NA_1 {
        frq: iec60870::asdu::types::file::Frq::not_ready(),
        ..Default::default()
    };
    assert_eq!(
        rx.step(SessionInput::FileReady(refused), at(1)),
        [SessionAction::Failed(FailureReason::PeerRejected)]
    );
}
