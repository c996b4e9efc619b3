//! IEC 60870-5-104 frames and connection.

use iec60870::frame104::apdu::{Apdu, UFunction, MAX_ASDU_LEN};
use iec60870::frame104::codec::Codec;
use iec60870::frame104::seq::SeqNo;
use iec60870::frame104::state::{Action, Config, Connection, DisconnectReason, Input, Role, State};
use iec60870::time::{Duration, Instant};
use iec60870::Error;

fn encode(apdu: &Apdu) -> Vec<u8> {
    let mut buf = Vec::<u8>::new();
    Codec::encode(apdu, &mut buf).expect("encode");
    buf.to_vec()
}

#[test]
fn encode_rejects_oversized_asdu() {
    let mut buf = Vec::<u8>::new();
    let huge = vec![0u8; MAX_ASDU_LEN + 1];
    let result = Codec::encode(
        &Apdu::I {
            send: SeqNo::new(0),
            recv: SeqNo::new(0),
            asdu: huge,
        },
        &mut buf,
    );
    assert!(
        matches!(
            result,
            Err(Error::AsduTooLong {
                len,
                max,
            }) if len == MAX_ASDU_LEN + 1 && max == MAX_ASDU_LEN,
        ),
        "expected AsduTooLong, got {result:?}",
    );
    assert!(
        buf.is_empty(),
        "rejected encode must not write partial frames",
    );
}

#[test]
fn startdt_act_wire_layout() {
    let bytes = encode(&Apdu::U {
        function: UFunction::StartDtAct,
    });
    assert_eq!(bytes, vec![0x68, 0x04, 0x07, 0x00, 0x00, 0x00]);
}

#[test]
fn s_frame_carries_only_nr() {
    let bytes = encode(&Apdu::S {
        recv: SeqNo::new(7),
    });
    // N(R) = 7, on wire = 7 << 1 = 14 = 0x0E
    assert_eq!(bytes, vec![0x68, 0x04, 0x01, 0x00, 0x0E, 0x00]);
}

#[test]
fn i_frame_carries_ns_nr_and_asdu() {
    let bytes = encode(&Apdu::I {
        send: SeqNo::new(0x100),
        recv: SeqNo::new(0x200),
        asdu: vec![0xAA, 0xBB],
    });
    // N(S)<<1 = 0x200 LE → [0x00, 0x02]; N(R)<<1 = 0x400 LE → [0x00, 0x04]
    assert_eq!(bytes, vec![0x68, 0x06, 0x00, 0x02, 0x00, 0x04, 0xAA, 0xBB]);
}

#[test]
fn decode_slice_roundtrip_u() {
    let bytes = encode(&Apdu::U {
        function: UFunction::TestFrAct,
    });
    let (apdu, consumed) = Codec::decode_slice(&bytes).unwrap().unwrap();
    assert_eq!(consumed, bytes.len());
    assert_eq!(
        apdu,
        Apdu::U {
            function: UFunction::TestFrAct
        }
    );
}

#[test]
fn decode_slice_roundtrip_s() {
    let bytes = encode(&Apdu::S {
        recv: SeqNo::new(0x1234),
    });
    let (apdu, consumed) = Codec::decode_slice(&bytes).unwrap().unwrap();
    assert_eq!(consumed, bytes.len());
    assert_eq!(
        apdu,
        Apdu::S {
            recv: SeqNo::new(0x1234)
        }
    );
}

#[test]
fn decode_slice_roundtrip_i_with_asdu() {
    let asdu = (0u8..40).collect::<Vec<u8>>();
    let bytes = encode(&Apdu::I {
        send: SeqNo::new(11),
        recv: SeqNo::new(22),
        asdu: asdu.clone(),
    });
    let (apdu, consumed) = Codec::decode_slice(&bytes).unwrap().unwrap();
    assert_eq!(consumed, bytes.len());
    assert_eq!(
        apdu,
        Apdu::I {
            send: SeqNo::new(11),
            recv: SeqNo::new(22),
            asdu
        }
    );
}

#[test]
fn decode_slice_incomplete_returns_none() {
    // Just the start byte
    assert_eq!(Codec::decode_slice(&[0x68]).unwrap(), None);
    // Header complete but body missing
    assert_eq!(Codec::decode_slice(&[0x68, 0x04, 0x07]).unwrap(), None);
}

#[test]
fn decode_slice_rejects_bad_start_byte() {
    let r = Codec::decode_slice(&[0x69, 0x04, 0x07, 0x00, 0x00, 0x00]);
    assert!(matches!(
        r,
        Err(Error::InvalidStartByte {
            expected: 0x68,
            got: 0x69
        })
    ));
}

#[test]
fn decode_slice_rejects_short_length() {
    let r = Codec::decode_slice(&[0x68, 0x03, 0x07, 0x00, 0x00]);
    assert!(matches!(
        r,
        Err(Error::LengthMismatch {
            declared: 3,
            actual: 4
        })
    ));
}

#[test]
fn decode_slice_rejects_unknown_u_function() {
    let r = Codec::decode_slice(&[0x68, 0x04, 0xFF, 0x00, 0x00, 0x00]);
    assert!(matches!(r, Err(Error::UnsupportedFormat)));
}

#[test]
fn decode_slice_does_not_overconsume() {
    // Two STARTDT_ACT frames back-to-back
    let one = encode(&Apdu::U {
        function: UFunction::StartDtAct,
    });
    let mut both = one.clone();
    both.extend_from_slice(&one);
    let (apdu1, consumed1) = Codec::decode_slice(&both).unwrap().unwrap();
    assert_eq!(consumed1, one.len());
    assert_eq!(
        apdu1,
        Apdu::U {
            function: UFunction::StartDtAct
        }
    );
    let (apdu2, consumed2) = Codec::decode_slice(&both[consumed1..]).unwrap().unwrap();
    assert_eq!(consumed2, one.len());
    assert_eq!(
        apdu2,
        Apdu::U {
            function: UFunction::StartDtAct
        }
    );
}

#[test]
fn wraps_at_2_15() {
    let s = SeqNo::new(SeqNo::MAX);
    assert_eq!(s.next(), SeqNo::new(0));
}

#[test]
fn wire_form_shifts_left_by_one() {
    let s = SeqNo::new(0x1234);
    assert_eq!(s.to_wire(), 0x1234 << 1);
    assert_eq!(SeqNo::from_wire(s.to_wire()), s);
}

#[test]
fn distance_handles_wrap() {
    let a = SeqNo::new(SeqNo::MAX - 2);
    let b = SeqNo::new(3);
    // a is 5 steps behind b (32765, 32766, 32767, 0, 1, 2, 3)
    assert_eq!(a.distance(b), 6);
}

#[test]
fn new_masks_input() {
    // SeqNo is only 15 bits; the constructor must mask off bit 15.
    let s = SeqNo::new(0xFFFF);
    assert_eq!(s.value(), SeqNo::MAX);
}

fn at(now: Instant, sec: u64) -> Instant {
    now.checked_add(Duration::from_secs(sec)).unwrap()
}

#[test]
fn client_startdt_handshake() {
    let t0 = Instant { nanos: 0 };
    let mut c = Connection::new(Role::Client, Config::default());
    let actions = c.handle(Input::StartDt, t0);
    assert_eq!(
        actions,
        vec![
            Action::SendApdu(Apdu::U {
                function: UFunction::StartDtAct
            }),
            Action::StateChanged(State::Starting),
        ]
    );
    let actions = c.handle(
        Input::Apdu(Apdu::U {
            function: UFunction::StartDtCon,
        }),
        at(t0, 1),
    );
    assert_eq!(actions, vec![Action::StateChanged(State::Active)]);
    assert_eq!(c.state(), State::Active);
}

#[test]
fn server_replies_to_startdt() {
    let t0 = Instant { nanos: 0 };
    let mut s = Connection::new(Role::Server, Config::default());
    let actions = s.handle(
        Input::Apdu(Apdu::U {
            function: UFunction::StartDtAct,
        }),
        t0,
    );
    assert_eq!(
        actions,
        vec![
            Action::SendApdu(Apdu::U {
                function: UFunction::StartDtCon
            }),
            Action::StateChanged(State::Active),
        ]
    );
}

#[test]
fn testfr_act_echoed_as_con() {
    let t0 = Instant { nanos: 0 };
    let mut c = Connection::new(Role::Server, Config::default());
    // Get to active first
    c.handle(
        Input::Apdu(Apdu::U {
            function: UFunction::StartDtAct,
        }),
        t0,
    );
    let actions = c.handle(
        Input::Apdu(Apdu::U {
            function: UFunction::TestFrAct,
        }),
        at(t0, 1),
    );
    assert_eq!(
        actions,
        vec![Action::SendApdu(Apdu::U {
            function: UFunction::TestFrCon
        })]
    );
}

#[test]
fn t3_idle_sends_testfr_act() {
    let config = Config {
        t3: Duration::from_secs(5),
        ..Config::default()
    };
    let t0 = Instant { nanos: 0 };
    let mut c = Connection::new(Role::Client, config);
    c.handle(Input::StartDt, t0);
    c.handle(
        Input::Apdu(Apdu::U {
            function: UFunction::StartDtCon,
        }),
        at(t0, 1),
    );
    // 7 seconds later (t3=5) with no traffic
    let actions = c.handle(Input::Tick, at(t0, 8));
    assert!(actions.iter().any(|a| matches!(
        a,
        Action::SendApdu(Apdu::U {
            function: UFunction::TestFrAct
        })
    )));
}

#[test]
fn iframe_is_acknowledged_after_w_received() {
    let t0 = Instant { nanos: 0 };
    let config = Config {
        w: 2,
        ..Config::default()
    };
    let mut c = Connection::new(Role::Server, config);
    c.handle(
        Input::Apdu(Apdu::U {
            function: UFunction::StartDtAct,
        }),
        t0,
    );

    let asdu = vec![0xAA];
    // First I-frame: delivered, no ACK yet (1 < w)
    let actions = c.handle(
        Input::Apdu(Apdu::I {
            send: SeqNo::new(0),
            recv: SeqNo::new(0),
            asdu: asdu.clone(),
        }),
        at(t0, 1),
    );
    assert_eq!(actions, vec![Action::DeliverAsdu(asdu.clone())]);

    // Second I-frame: triggers S-frame ACK because unacked_recv == w
    let actions = c.handle(
        Input::Apdu(Apdu::I {
            send: SeqNo::new(1),
            recv: SeqNo::new(0),
            asdu: asdu.clone(),
        }),
        at(t0, 2),
    );
    assert_eq!(
        actions,
        vec![
            Action::DeliverAsdu(asdu),
            Action::SendApdu(Apdu::S {
                recv: SeqNo::new(2)
            })
        ]
    );
}

#[test]
fn out_of_order_iframe_disconnects() {
    let t0 = Instant { nanos: 0 };
    let mut c = Connection::new(Role::Server, Config::default());
    c.handle(
        Input::Apdu(Apdu::U {
            function: UFunction::StartDtAct,
        }),
        t0,
    );
    // Peer skips N(S)=0 and sends N(S)=1 directly
    let actions = c.handle(
        Input::Apdu(Apdu::I {
            send: SeqNo::new(1),
            recv: SeqNo::new(0),
            asdu: vec![],
        }),
        at(t0, 1),
    );
    assert!(actions
        .iter()
        .any(|a| matches!(a, Action::Disconnect(DisconnectReason::ProtocolError))));
    assert_eq!(c.state(), State::Closed);
}

#[test]
fn t1_expiry_on_unacked_iframe() {
    let config = Config {
        t1: Duration::from_secs(2),
        ..Config::default()
    };
    let t0 = Instant { nanos: 0 };
    let mut c = Connection::new(Role::Client, config);
    c.handle(Input::StartDt, t0);
    c.handle(
        Input::Apdu(Apdu::U {
            function: UFunction::StartDtCon,
        }),
        at(t0, 1),
    );
    c.handle(Input::SendAsdu(vec![1, 2, 3]), at(t0, 2));
    // No ACK by t0 + 5 (= sent_at(2) + t1(2) + 1)
    let actions = c.handle(Input::Tick, at(t0, 5));
    assert!(actions
        .iter()
        .any(|a| matches!(a, Action::Disconnect(DisconnectReason::AckTimeout))));
}

#[test]
fn k_window_backpressure_queues_sends() {
    let config = Config {
        k: 2,
        ..Config::default()
    };
    let t0 = Instant { nanos: 0 };
    let mut c = Connection::new(Role::Client, config);
    c.handle(Input::StartDt, t0);
    c.handle(
        Input::Apdu(Apdu::U {
            function: UFunction::StartDtCon,
        }),
        at(t0, 1),
    );
    // Submit three ASDUs; only two should be sent before k saturates.
    c.handle(Input::SendAsdu(vec![1]), at(t0, 2));
    c.handle(Input::SendAsdu(vec![2]), at(t0, 2));
    let actions = c.handle(Input::SendAsdu(vec![3]), at(t0, 2));
    assert!(!actions
        .iter()
        .any(|a| matches!(a, Action::SendApdu(Apdu::I { .. }))));

    // Peer ACKs the first one (N(R) = 1).
    let actions = c.handle(
        Input::Apdu(Apdu::S {
            recv: SeqNo::new(1),
        }),
        at(t0, 3),
    );
    // The queued ASDU should now flush.
    assert_eq!(
        actions,
        vec![Action::SendApdu(Apdu::I {
            send: SeqNo::new(2),
            recv: SeqNo::new(0),
            asdu: vec![3],
        })]
    );
}
