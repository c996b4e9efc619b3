//! IEC 60870-5-101 frames and link layer.

use iec60870::frame101::codec::Codec;
use iec60870::frame101::control::{
    ControlField, Direction, FuncCodePrimary, FuncCodeSecondary, FCB_ACD_BIT,
};
use iec60870::frame101::frame::{Frame101, LinkAddress, LinkAddressSize, SingleChar};
use iec60870::frame101::link::{Action, Config, Connection, Input, LinkState, Mode, Reason, Role};
use iec60870::time::{Duration, Instant};
use iec60870::Error;

fn encode(frame: &Frame101, addr_size: LinkAddressSize) -> Vec<u8> {
    let mut buf = Vec::new();
    Codec::encode(frame, &mut buf, addr_size);
    buf
}

// ---- single-character frames -------------------------------------------

#[test]
fn single_ack_wire() {
    let bytes = encode(&Frame101::Single(SingleChar::Ack), LinkAddressSize::One);
    assert_eq!(bytes, [0xE5]);
}

#[test]
fn single_nack_wire() {
    let bytes = encode(&Frame101::Single(SingleChar::Nack), LinkAddressSize::One);
    assert_eq!(bytes, [0xA2]);
}

#[test]
fn decode_ack() {
    let (frame, consumed) = Codec::decode_slice(&[0xE5], LinkAddressSize::One)
        .unwrap()
        .unwrap();
    assert_eq!(frame, Frame101::Single(SingleChar::Ack));
    assert_eq!(consumed, 1);
}

#[test]
fn decode_nack() {
    let (frame, consumed) = Codec::decode_slice(&[0xA2], LinkAddressSize::One)
        .unwrap()
        .unwrap();
    assert_eq!(frame, Frame101::Single(SingleChar::Nack));
    assert_eq!(consumed, 1);
}

// ---- fixed-length frame ------------------------------------------------

/// control=0x49, addr=0x01 → CS = 0x49 + 0x01 = 0x4A.
#[test]
fn fixed_frame_spec_example() {
    let frame = Frame101::Fixed {
        control: 0x49,
        address: LinkAddress(0x01),
    };
    let bytes = encode(&frame, LinkAddressSize::One);
    assert_eq!(bytes, [0x10, 0x49, 0x01, 0x4A, 0x16]);
}

#[test]
fn fixed_frame_decode_spec_example() {
    let (frame, consumed) =
        Codec::decode_slice(&[0x10, 0x49, 0x01, 0x4A, 0x16], LinkAddressSize::One)
            .unwrap()
            .unwrap();
    assert_eq!(
        frame,
        Frame101::Fixed {
            control: 0x49,
            address: LinkAddress(0x01),
        }
    );
    assert_eq!(consumed, 5);
}

// ---- variable-length frame ---------------------------------------------

/// control=0x73, addr=0x01, asdu=[0x09, 0x01].
/// L = 1 (C) + 1 (LA) + 2 (ASDU) = 4
/// CS = 0x73 + 0x01 + 0x09 + 0x01 = 0x7E
#[test]
fn variable_frame_spec_example() {
    let frame = Frame101::Variable {
        control: 0x73,
        address: LinkAddress(0x01),
        asdu: vec![0x09, 0x01],
    };
    let bytes = encode(&frame, LinkAddressSize::One);
    assert_eq!(
        bytes,
        [0x68, 0x04, 0x04, 0x68, 0x73, 0x01, 0x09, 0x01, 0x7E, 0x16]
    );
}

#[test]
fn variable_frame_decode_spec_example() {
    let wire = [0x68u8, 0x04, 0x04, 0x68, 0x73, 0x01, 0x09, 0x01, 0x7E, 0x16];
    let (frame, consumed) = Codec::decode_slice(&wire, LinkAddressSize::One)
        .unwrap()
        .unwrap();
    assert_eq!(
        frame,
        Frame101::Variable {
            control: 0x73,
            address: LinkAddress(0x01),
            asdu: vec![0x09, 0x01],
        }
    );
    assert_eq!(consumed, 10);
}

// ---- error cases -------------------------------------------------------

#[test]
fn checksum_mismatch_fixed() {
    // CS should be 0x4A but we put 0xFF
    let r = Codec::decode_slice(&[0x10, 0x49, 0x01, 0xFF, 0x16], LinkAddressSize::One);
    assert!(matches!(
        r,
        Err(Error::ChecksumMismatch {
            expected: 0x4A,
            got: 0xFF
        })
    ));
}

#[test]
fn checksum_mismatch_variable() {
    // corrupt CS byte (0x7E → 0x00)
    let wire = [0x68u8, 0x04, 0x04, 0x68, 0x73, 0x01, 0x09, 0x01, 0x00, 0x16];
    let r = Codec::decode_slice(&wire, LinkAddressSize::One);
    assert!(matches!(r, Err(Error::ChecksumMismatch { .. })));
}

#[test]
fn length_octets_differ() {
    // L1=0x04, L2=0x05 — mismatch
    let wire = [0x68u8, 0x04, 0x05, 0x68, 0x73, 0x01, 0x09, 0x01, 0x7E, 0x16];
    let r = Codec::decode_slice(&wire, LinkAddressSize::One);
    assert!(matches!(
        r,
        Err(Error::LengthOctetsDiffer {
            first: 4,
            second: 5
        })
    ));
}

#[test]
fn invalid_end_byte_fixed() {
    // Replace 0x16 with 0xFF
    let r = Codec::decode_slice(&[0x10, 0x49, 0x01, 0x4A, 0xFF], LinkAddressSize::One);
    assert!(matches!(
        r,
        Err(Error::InvalidEndByte {
            expected: 0x16,
            got: 0xFF
        })
    ));
}

#[test]
fn invalid_end_byte_variable() {
    let wire = [0x68u8, 0x04, 0x04, 0x68, 0x73, 0x01, 0x09, 0x01, 0x7E, 0xFF];
    let r = Codec::decode_slice(&wire, LinkAddressSize::One);
    assert!(matches!(
        r,
        Err(Error::InvalidEndByte {
            expected: 0x16,
            got: 0xFF
        })
    ));
}

// ---- incomplete input returns Ok(None) ---------------------------------

#[test]
fn incomplete_single_char_empty() {
    assert_eq!(
        Codec::decode_slice(&[], LinkAddressSize::One).unwrap(),
        None
    );
}

#[test]
fn incomplete_fixed_frame() {
    // Only start byte
    assert_eq!(
        Codec::decode_slice(&[0x10], LinkAddressSize::One).unwrap(),
        None
    );
    // start + control only
    assert_eq!(
        Codec::decode_slice(&[0x10, 0x49], LinkAddressSize::One).unwrap(),
        None
    );
}

#[test]
fn incomplete_variable_frame() {
    // Only start byte
    assert_eq!(
        Codec::decode_slice(&[0x68], LinkAddressSize::One).unwrap(),
        None
    );
    // start + two length bytes + second start — body missing
    assert_eq!(
        Codec::decode_slice(&[0x68, 0x04, 0x04, 0x68], LinkAddressSize::One).unwrap(),
        None
    );
}

// ---- no over-consumption -----------------------------------------------

#[test]
fn no_overconsume_two_fixed_frames() {
    let frame = Frame101::Fixed {
        control: 0x49,
        address: LinkAddress(0x01),
    };
    let one = encode(&frame, LinkAddressSize::One);
    let mut both = one.clone();
    both.extend_from_slice(&one);

    let (f1, c1) = Codec::decode_slice(&both, LinkAddressSize::One)
        .unwrap()
        .unwrap();
    assert_eq!(c1, one.len());
    let (f2, c2) = Codec::decode_slice(&both[c1..], LinkAddressSize::One)
        .unwrap()
        .unwrap();
    assert_eq!(c2, one.len());
    assert_eq!(f1, f2);
}

// ---- two-octet address -------------------------------------------------

#[test]
fn fixed_frame_two_octet_addr() {
    let frame = Frame101::Fixed {
        control: 0x49,
        address: LinkAddress(0x0102),
    };
    let bytes = encode(&frame, LinkAddressSize::Two);
    // CS = 0x49 + 0x02 + 0x01 = 0x4C (little-endian: low byte 0x02, high byte 0x01)
    assert_eq!(bytes, [0x10, 0x49, 0x02, 0x01, 0x4C, 0x16]);
    let (decoded, consumed) = Codec::decode_slice(&bytes, LinkAddressSize::Two)
        .unwrap()
        .unwrap();
    assert_eq!(decoded, frame);
    assert_eq!(consumed, bytes.len());
}

#[test]
fn variable_frame_two_octet_addr() {
    let frame = Frame101::Variable {
        control: 0x73,
        address: LinkAddress(0x0102),
        asdu: vec![0x09, 0x01],
    };
    let bytes = encode(&frame, LinkAddressSize::Two);
    let (decoded, consumed) = Codec::decode_slice(&bytes, LinkAddressSize::Two)
        .unwrap()
        .unwrap();
    assert_eq!(decoded, frame);
    assert_eq!(consumed, bytes.len());
}

// ---- encoding individual function codes --------------------------------

#[test]
fn primary_reset_remote_link_encodes() {
    let cf = ControlField::Primary {
        fcb: false,
        fcv: false,
        func: FuncCodePrimary::ResetRemoteLink,
    };
    // PRM(0x40) + func(0x00) = 0x40
    assert_eq!(cf.encode(), 0x40);
}

#[test]
fn primary_user_data_confirmed_with_fcb_fcv() {
    let cf = ControlField::Primary {
        fcb: true,
        fcv: true,
        func: FuncCodePrimary::UserDataConfirmed,
    };
    // PRM(0x40) | FCB(0x20) | FCV(0x10) | func(0x03) = 0x73
    assert_eq!(cf.encode(), 0x73);
}

#[test]
fn secondary_ack_encodes() {
    let cf = ControlField::Secondary {
        acd: false,
        dfc: false,
        func: FuncCodeSecondary::Ack,
    };
    // no PRM, no ACD, no DFC, func=0 → 0x00
    assert_eq!(cf.encode(), 0x00);
}

#[test]
fn secondary_respond_user_data_with_acd() {
    let cf = ControlField::Secondary {
        acd: true,
        dfc: false,
        func: FuncCodeSecondary::RespondUserData,
    };
    // ACD(0x20) | func(0x08) = 0x28
    assert_eq!(cf.encode(), 0x28);
}

// ---- decode / roundtrip ------------------------------------------------

#[test]
fn decode_primary_request_status() {
    // PRM=1 | func=9 → 0x49
    let cf = ControlField::decode(0x49, Direction::Primary).unwrap();
    assert_eq!(
        cf,
        ControlField::Primary {
            fcb: false,
            fcv: false,
            func: FuncCodePrimary::RequestStatus,
        }
    );
}

#[test]
fn decode_secondary_status_of_link() {
    // func=11 = 0x0B
    let cf = ControlField::decode(0x0B, Direction::Secondary).unwrap();
    assert_eq!(
        cf,
        ControlField::Secondary {
            acd: false,
            dfc: false,
            func: FuncCodeSecondary::StatusOfLink,
        }
    );
}

#[test]
fn fcb_toggle_bit_pattern() {
    // Two consecutive confirmed sends — FCB should alternate.
    let first = ControlField::Primary {
        fcb: false,
        fcv: true,
        func: FuncCodePrimary::UserDataConfirmed,
    };
    let second = ControlField::Primary {
        fcb: true,
        fcv: true,
        func: FuncCodePrimary::UserDataConfirmed,
    };
    let b1 = first.encode();
    let b2 = second.encode();
    // FCB bit must differ
    assert_ne!(b1 & FCB_ACD_BIT, b2 & FCB_ACD_BIT);
}

#[test]
fn unknown_primary_func_returns_none() {
    // Nibble 0x02 is not defined for primary
    assert!(ControlField::decode(0x42, Direction::Primary).is_none());
}

#[test]
fn unknown_secondary_func_returns_none() {
    // Nibble 0x02 is not defined for secondary
    assert!(ControlField::decode(0x02, Direction::Secondary).is_none());
}

fn at(base: Instant, secs: u64) -> Instant {
    base.checked_add(Duration::from_secs(secs)).unwrap()
}

fn master(addr: u16) -> Connection {
    Connection::new(
        Role::Master,
        Mode::Unbalanced,
        Config {
            link_address: LinkAddress(addr),
            addr_size: LinkAddressSize::One,
            timeout: Duration::from_secs(1),
            max_retries: 3,
        },
    )
}

fn outstation(addr: u16) -> Connection {
    Connection::new(
        Role::Outstation,
        Mode::Unbalanced,
        Config {
            link_address: LinkAddress(addr),
            addr_size: LinkAddressSize::One,
            timeout: Duration::from_secs(1),
            max_retries: 3,
        },
    )
}

// ---- Scenario: master reset → ACK → ready ----------------------------

#[test]
fn master_reset_ack_ready() {
    let t0 = Instant { nanos: 0 };
    let mut m = master(1);

    // Master sends reset.
    let actions = m.handle(Input::ResetRemoteLink, t0);
    assert!(actions.iter().any(|a| matches!(
        a,
        Action::SendFrame(Frame101::Fixed { control, .. })
        if ControlField::decode(*control, Direction::Primary)
            == Some(ControlField::Primary {
                fcb: false, fcv: false,
                func: FuncCodePrimary::ResetRemoteLink,
            })
    )));

    // Outstation ACKs with a fixed secondary frame.
    let ack_cf = ControlField::Secondary {
        acd: false,
        dfc: false,
        func: FuncCodeSecondary::Ack,
    };
    let ack_frame = Frame101::Fixed {
        control: ack_cf.encode(),
        address: LinkAddress(1),
    };
    let actions = m.handle(Input::FrameReceived(ack_frame), at(t0, 0));
    assert!(actions.contains(&Action::LinkStateChanged(LinkState::Ready)));
    assert_eq!(m.link_state(), LinkState::Ready);
}

// ---- Scenario: master sends USER_DATA_CONFIRMED → outstation ACKs -----

#[test]
fn master_user_data_confirmed_acked() {
    let t0 = Instant { nanos: 0 };
    let mut m = master(1);

    // First get to Ready state.
    m.handle(Input::ResetRemoteLink, t0);
    let ack_cf = ControlField::Secondary {
        acd: false,
        dfc: false,
        func: FuncCodeSecondary::Ack,
    };
    m.handle(
        Input::FrameReceived(Frame101::Fixed {
            control: ack_cf.encode(),
            address: LinkAddress(1),
        }),
        at(t0, 0),
    );
    assert_eq!(m.link_state(), LinkState::Ready);

    // Send user data.
    let asdu = vec![0x01, 0x02, 0x03];
    let actions = m.handle(Input::SendUserData(asdu.clone()), at(t0, 1));
    // Should emit a Variable frame with UserDataConfirmed.
    let sent = actions.iter().find_map(|a| match a {
        Action::SendFrame(f @ Frame101::Variable { .. }) => Some(f.clone()),
        _ => None,
    });
    assert!(sent.is_some(), "expected a Variable frame to be sent");

    // ACK with a single-char 0xE5.
    let actions = m.handle(
        Input::FrameReceived(Frame101::Single(SingleChar::Ack)),
        at(t0, 1),
    );
    // No error, no further send.
    assert!(!actions.iter().any(|a| matches!(a, Action::LinkError(_))));
}

// ---- Scenario: FCB toggles on consecutive confirmed sends -------------

#[test]
fn fcb_alternates_on_consecutive_sends() {
    let t0 = Instant { nanos: 0 };
    let mut m = master(1);

    // Get to Ready.
    m.handle(Input::ResetRemoteLink, t0);
    let ack_cf = ControlField::Secondary {
        acd: false,
        dfc: false,
        func: FuncCodeSecondary::Ack,
    };
    m.handle(
        Input::FrameReceived(Frame101::Fixed {
            control: ack_cf.encode(),
            address: LinkAddress(1),
        }),
        t0,
    );

    // First send — FCB should be false (initial).
    let actions = m.handle(Input::SendUserData(vec![0xAA]), at(t0, 1));
    let first_control = extract_variable_control(&actions);

    // ACK the first send.
    m.handle(
        Input::FrameReceived(Frame101::Single(SingleChar::Ack)),
        at(t0, 1),
    );

    // Second send — FCB should have toggled.
    let actions = m.handle(Input::SendUserData(vec![0xBB]), at(t0, 2));
    let second_control = extract_variable_control(&actions);

    let cf1 = ControlField::decode(first_control, Direction::Primary).unwrap();
    let cf2 = ControlField::decode(second_control, Direction::Primary).unwrap();

    let fcb1 = match cf1 {
        ControlField::Primary { fcb, .. } => fcb,
        _ => panic!("expected primary"),
    };
    let fcb2 = match cf2 {
        ControlField::Primary { fcb, .. } => fcb,
        _ => panic!("expected primary"),
    };
    assert_ne!(fcb1, fcb2, "FCB should toggle between sends");
}

fn extract_variable_control(actions: &[Action]) -> u8 {
    actions
        .iter()
        .find_map(|a| match a {
            Action::SendFrame(Frame101::Variable { control, .. }) => Some(*control),
            _ => None,
        })
        .expect("expected a Variable frame")
}

// ---- Scenario: outstation responds to REQUEST_USER_DATA_CLASS_1 -------

#[test]
fn master_class1_request_delivers_asdu() {
    let t0 = Instant { nanos: 0 };
    let mut m = master(1);

    // Get to Ready.
    m.handle(Input::ResetRemoteLink, t0);
    let ack_cf = ControlField::Secondary {
        acd: false,
        dfc: false,
        func: FuncCodeSecondary::Ack,
    };
    m.handle(
        Input::FrameReceived(Frame101::Fixed {
            control: ack_cf.encode(),
            address: LinkAddress(1),
        }),
        t0,
    );

    // Master requests class-1 data.
    let actions = m.handle(Input::RequestUserDataClass1, at(t0, 1));
    assert!(actions.iter().any(|a| matches!(a, Action::SendFrame(_))));

    // Outstation replies with user data.
    let resp_cf = ControlField::Secondary {
        acd: false,
        dfc: false,
        func: FuncCodeSecondary::RespondUserData,
    };
    let asdu = vec![0xDE, 0xAD];
    let actions = m.handle(
        Input::FrameReceived(Frame101::Variable {
            control: resp_cf.encode(),
            address: LinkAddress(1),
            asdu: asdu.clone(),
        }),
        at(t0, 1),
    );
    assert!(actions.contains(&Action::DeliverAsdu(asdu.clone())));
}

// ---- Scenario: ACK timeout triggers retry then LinkError ---------------

#[test]
fn ack_timeout_retries_then_fails() {
    let t0 = Instant { nanos: 0 };
    let timeout = Duration::from_secs(1);
    let max_retries = 3;
    let mut m = Connection::new(
        Role::Master,
        Mode::Unbalanced,
        Config {
            link_address: LinkAddress(1),
            addr_size: LinkAddressSize::One,
            timeout,
            max_retries,
        },
    );

    // Get to Ready.
    m.handle(Input::ResetRemoteLink, t0);
    let ack_cf = ControlField::Secondary {
        acd: false,
        dfc: false,
        func: FuncCodeSecondary::Ack,
    };
    m.handle(
        Input::FrameReceived(Frame101::Fixed {
            control: ack_cf.encode(),
            address: LinkAddress(1),
        }),
        t0,
    );

    // Send user data — first attempt.
    m.handle(Input::SendUserData(vec![0x01]), at(t0, 1));

    // No ACK — first retry at t0+2.
    let actions = m.handle(Input::Tick, at(t0, 2));
    assert!(actions.iter().any(|a| matches!(a, Action::SendFrame(_))));

    // Second retry at t0+3.
    let actions = m.handle(Input::Tick, at(t0, 3));
    assert!(actions.iter().any(|a| matches!(a, Action::SendFrame(_))));

    // Third retry at t0+4.
    let actions = m.handle(Input::Tick, at(t0, 4));
    assert!(actions.iter().any(|a| matches!(a, Action::SendFrame(_))));

    // Fourth tick: attempts exhausted → LinkError.
    let actions = m.handle(Input::Tick, at(t0, 5));
    assert!(actions.contains(&Action::LinkError(Reason::AckTimeout)));
    assert_eq!(m.link_state(), LinkState::Failed);
}

// ---- Outstation: reset → ack, then handles confirmed user data --------

#[test]
fn outstation_reset_then_delivers_user_data() {
    let t0 = Instant { nanos: 0 };
    let mut o = outstation(1);

    // Receive a reset from the master.
    let reset_cf = ControlField::Primary {
        fcb: false,
        fcv: false,
        func: FuncCodePrimary::ResetRemoteLink,
    };
    let actions = o.handle(
        Input::FrameReceived(Frame101::Fixed {
            control: reset_cf.encode(),
            address: LinkAddress(1),
        }),
        t0,
    );
    // Should ACK and transition to Ready.
    assert!(actions.iter().any(|a| matches!(a, Action::SendFrame(_))));
    assert!(actions.contains(&Action::LinkStateChanged(LinkState::Ready)));

    // Receive user data (UserDataConfirmed).
    let data_cf = ControlField::Primary {
        fcb: false,
        fcv: true,
        func: FuncCodePrimary::UserDataConfirmed,
    };
    let asdu = vec![0x01, 0x02];
    let actions = o.handle(
        Input::FrameReceived(Frame101::Variable {
            control: data_cf.encode(),
            address: LinkAddress(1),
            asdu: asdu.clone(),
        }),
        at(t0, 1),
    );
    // Should ACK and deliver the ASDU.
    assert!(actions.iter().any(|a| matches!(a, Action::SendFrame(_))));
    assert!(actions.contains(&Action::DeliverAsdu(asdu.clone())));
}
