//! What was encoded is decoded again, over ranges of values.

use iec60870::asdu::cot::{Cause, Cot};
use iec60870::asdu::envelope::Asdu;
use iec60870::asdu::header::{
    decode_ca, decode_ioa, encode_ca, encode_ioa, AsduAddressing, CaSize, CommonAddress, Ioa, IoaSize,
    Vsq,
};
use iec60870::asdu::ie::{
    Bcr, Cp24Time2a, Cp56Time2a, Diq, DoublePoint, Nva, Qds, Quality, Siq, Sva, R32,
};
use iec60870::asdu::payload::AsduPayload;
use iec60870::asdu::types::file::{
    Checksum, LengthOfFile, LengthOfSection, NameOfFile, NameOfSection, F_SG_NA_1,
    MAX_SEGMENT_BYTES,
};
use iec60870::asdu::types::{
    Dco, Qos, Rco, Sco, StepDirection, C_CI_NA_1, C_RC_NA_1, C_RP_NA_1, C_SC_TA_1, C_SE_NA_1,
    C_SE_NB_1, C_SE_TA_1, C_SE_TB_1, C_SE_TC_1, M_DP_NA_1, M_DP_TB_1, M_ME_NA_1, M_ME_NB_1,
    M_ME_NC_1, M_ME_TD_1, M_ME_TE_1, M_ME_TF_1, M_SP_TB_1, Qcc, Qrp,
};
use iec60870::frame101::codec::Codec as Codec101;
use iec60870::frame101::control::{
    ControlField, Direction, FuncCodePrimary, FuncCodeSecondary,
};
use iec60870::frame101::frame::{Frame101, LinkAddress, LinkAddressSize};
use iec60870::frame104::apdu::{Apdu, UFunction, MAX_ASDU_LEN};
use iec60870::frame104::codec::Codec as Codec104;
use iec60870::frame104::seq::SeqNo;
use iec60870::Error;

const FLAGS: [bool; 2] = [false, true];

fn qualities() -> Vec<Quality> {
    let mut all = Vec::new();
    for blocked in FLAGS {
        for substituted in FLAGS {
            for not_topical in FLAGS {
                for invalid in FLAGS {
                    all.push(Quality { blocked, substituted, not_topical, invalid });
                }
            }
        }
    }
    all
}

fn time_tag() -> Cp56Time2a {
    Cp56Time2a {
        milliseconds: 59_999,
        minute: 59,
        hour: 23,
        day: 31,
        day_of_week: 7,
        month: 12,
        year: 99,
        summer_time: true,
        invalid: false,
        genuine: true,
    }
}

#[test]
fn cot_round_trips() {
    for cause in 0u8..64 {
        for negative in FLAGS {
            for test in FLAGS {
                let one = Cot { cause: Cause(cause), negative, test, originator: 0 };
                let mut buf = Vec::new();
                one.encode_1(&mut buf);
                assert_eq!(buf.len(), Cot::LEN_1);
                let mut slice: &[u8] = &buf;
                assert_eq!(Cot::decode_1(&mut slice), Ok(one));
                assert!(slice.is_empty());

                let two = Cot { originator: 0x7B, ..one };
                let mut buf = Vec::new();
                two.encode_2(&mut buf);
                assert_eq!(buf.len(), Cot::LEN_2);
                let mut slice: &[u8] = &buf;
                assert_eq!(Cot::decode_2(&mut slice), Ok(two));
                assert!(slice.is_empty());
            }
        }
    }
}

#[test]
fn header_fields_round_trip() {
    for sequence in FLAGS {
        for count in 0u8..128 {
            let v = Vsq { sequence, count };
            let mut buf = Vec::new();
            v.encode(&mut buf);
            let mut slice: &[u8] = &buf;
            assert_eq!(Vsq::decode(&mut slice), Ok(v));
        }
    }
    for addr in [0u32, 1, 255, 256, 65_535, 65_536, 0x123456, 0xFF_FFFF] {
        let mut buf = Vec::new();
        encode_ioa(&mut buf, Ioa(addr), IoaSize::Three);
        let mut slice: &[u8] = &buf;
        assert_eq!(decode_ioa(&mut slice, IoaSize::Three), Ok(Ioa(addr)));
    }
    for addr in [0u16, 1, 255, 256, 0xBEEF, 0xFFFF] {
        let mut buf = Vec::new();
        encode_ca(&mut buf, CommonAddress(addr), CaSize::Two);
        let mut slice: &[u8] = &buf;
        assert_eq!(decode_ca(&mut slice, CaSize::Two), Ok(CommonAddress(addr)));
    }
}

#[test]
fn narrow_addresses_lose_their_high_octets() {
    let mut buf = Vec::new();
    encode_ioa(&mut buf, Ioa(0x123456), IoaSize::Two);
    encode_ioa(&mut buf, Ioa(0x123456), IoaSize::One);
    encode_ca(&mut buf, CommonAddress(0x1234), CaSize::One);
    assert_eq!(buf, [0x56, 0x34, 0x56, 0x34]);
}

#[test]
fn qualified_elements_round_trip() {
    for quality in qualities() {
        for on in FLAGS {
            let siq = Siq { on, quality };
            let mut buf = Vec::new();
            siq.encode(&mut buf);
            assert_eq!(buf.len(), Siq::LEN);
            let mut slice: &[u8] = &buf;
            assert_eq!(Siq::decode(&mut slice), Ok(siq));

            let qds = Qds { overflow: on, quality };
            let mut buf = Vec::new();
            qds.encode(&mut buf);
            assert_eq!(buf.len(), Qds::LEN);
            let mut slice: &[u8] = &buf;
            assert_eq!(Qds::decode(&mut slice), Ok(qds));
        }
        for state in [
            DoublePoint::Intermediate,
            DoublePoint::Off,
            DoublePoint::On,
            DoublePoint::Indeterminate,
        ] {
            let diq = Diq { state, quality };
            let mut buf = Vec::new();
            diq.encode(&mut buf);
            assert_eq!(buf.len(), Diq::LEN);
            let mut slice: &[u8] = &buf;
            assert_eq!(Diq::decode(&mut slice), Ok(diq));
        }
    }
}

#[test]
fn measured_elements_round_trip() {
    for v in [i16::MIN, -12345, -1, 0, 1, 258, i16::MAX] {
        let mut buf = Vec::new();
        Nva(v).encode(&mut buf);
        let mut slice: &[u8] = &buf;
        assert_eq!(Nva::decode(&mut slice), Ok(Nva(v)));
        let mut buf = Vec::new();
        Sva(v).encode(&mut buf);
        let mut slice: &[u8] = &buf;
        assert_eq!(Sva::decode(&mut slice), Ok(Sva(v)));
    }
    for bits in [0u32, 1, 0x8000_0000, 0x3F80_0000, 0x7F80_0000, 0x7FC0_0001, u32::MAX] {
        let mut buf = Vec::new();
        R32(bits).encode(&mut buf);
        let mut slice: &[u8] = &buf;
        assert_eq!(R32::decode(&mut slice), Ok(R32(bits)));
    }
    for value in [i32::MIN, -2, 0, 0x0102_0304, i32::MAX] {
        for sequence in [0u8, 1, 31] {
            for flag in FLAGS {
                let bcr = Bcr { value, sequence, carry: flag, adjusted: !flag, invalid: flag };
                let mut buf = Vec::new();
                bcr.encode(&mut buf);
                assert_eq!(buf.len(), Bcr::LEN);
                let mut slice: &[u8] = &buf;
                assert_eq!(Bcr::decode(&mut slice), Ok(bcr));
            }
        }
    }
}

#[test]
fn two_octet_values_are_little_endian_and_signed() {
    let mut buf = Vec::new();
    Sva(-2).encode(&mut buf);
    assert_eq!(buf, [0xFE, 0xFF]);
    let mut slice: &[u8] = &[0x01, 0x80];
    assert_eq!(Sva::decode(&mut slice), Ok(Sva(-32767)));
    let mut slice: &[u8] = &[0xFE, 0xFF, 0xFF, 0xFF, 0x00];
    assert_eq!(Bcr::decode(&mut slice).unwrap().value, -2);
    let mut slice: &[u8] = &[0x78, 0x56, 0x34, 0x12];
    assert_eq!(R32::decode(&mut slice), Ok(R32(0x1234_5678)));
}

#[test]
fn time_tags_round_trip() {
    for ms in [0u16, 1, 12_345, 59_999] {
        for minute in [0u8, 30, 59] {
            let short = Cp24Time2a { milliseconds: ms, minute, invalid: ms == 1 };
            let mut buf = Vec::new();
            short.encode(&mut buf);
            assert_eq!(buf.len(), Cp24Time2a::LEN);
            let mut slice: &[u8] = &buf;
            assert_eq!(Cp24Time2a::decode(&mut slice), Ok(short));

            let long = Cp56Time2a { milliseconds: ms, minute, ..time_tag() };
            let mut buf = Vec::new();
            long.encode(&mut buf);
            assert_eq!(buf.len(), Cp56Time2a::LEN);
            let mut slice: &[u8] = &buf;
            assert_eq!(Cp56Time2a::decode(&mut slice), Ok(long));
        }
    }
}

#[test]
fn time_tag_octets() {
    let mut buf = Vec::new();
    time_tag().encode(&mut buf);
    // 59 999 = 0xEA5F; minute 59 with GEN; hour 23 with SU; day 31, Sunday.
    assert_eq!(buf, [0x5F, 0xEA, 0x3B | 0x40, 0x17 | 0x80, 0xFF, 0x0C, 0x63]);
}

#[test]
fn normalized_values_as_floats() {
    for (n, f) in [
        (0i16, 0.0f32),
        (1, 1.0 / 32768.0),
        (-1, -1.0 / 32768.0),
        (16384, 0.5),
        (-16384, -0.5),
        (32767, 32767.0 / 32768.0),
        (-32768, -1.0),
        (12345, 12345.0 / 32768.0),
    ] {
        assert_eq!(f32::from_bits(Nva(n).as_f32()), f);
        assert_eq!(Nva::from_f32(f.to_bits()), Nva(n));
    }
}

#[test]
fn normalized_values_are_rounded_to_the_nearest_step() {
    for (f, n) in [
        (0.5f32 / 32768.0, 1i16),
        (-0.5 / 32768.0, -1),
        (0.49 / 32768.0, 0),
        (1.49 / 32768.0, 1),
        (0.99999, 32767),
        (1.0, 32767),
        (-1.5, -32768),
        (f32::INFINITY, 32767),
        (f32::NEG_INFINITY, -32768),
        (f32::NAN, 0),
        (f32::MIN_POSITIVE, 0),
    ] {
        assert_eq!(Nva::from_f32(f.to_bits()), Nva(n), "{f}");
    }
}

fn through_the_wire<P: AsduPayload + PartialEq + std::fmt::Debug>(payload: P, vsq: Vsq, type_id: u8) {
    let addressing = AsduAddressing::iec104();
    assert_eq!(P::TYPE_ID, type_id);
    let asdu = Asdu::from_payload(
        Cot::with(Cause(Cause::SPONTANEOUS)),
        CommonAddress(1),
        vsq,
        &payload,
        addressing,
    );
    let bytes = asdu.encode_to_vec(addressing);
    let mut slice: &[u8] = &bytes;
    let parsed = Asdu::decode(&mut slice, addressing).unwrap();
    assert_eq!(parsed, asdu);
    assert_eq!(parsed.decode_payload::<P>(addressing), Ok(payload));
}

#[test]
fn monitor_types_round_trip() {
    let quality = Quality { blocked: true, not_topical: true, ..Quality::default() };
    let qds = Qds { overflow: true, quality };
    let (a, b) = (Ioa(10), Ioa(11));
    let siq = Siq { on: true, quality };
    let diq = Diq { state: DoublePoint::On, quality };
    let ts = time_tag();
    for vsq in [Vsq::single(2), Vsq::sequence(2)] {
        through_the_wire(M_DP_NA_1 { objects: vec![(a, diq), (b, diq)] }, vsq, 3);
        through_the_wire(M_ME_NA_1 { objects: vec![(a, (Nva(-5), qds)), (b, (Nva(6), qds))] }, vsq, 9);
        through_the_wire(M_ME_NB_1 { objects: vec![(a, (Sva(-5), qds)), (b, (Sva(6), qds))] }, vsq, 11);
        through_the_wire(M_ME_NC_1 { objects: vec![(a, (R32(5), qds)), (b, (R32(6), qds))] }, vsq, 13);
        through_the_wire(M_SP_TB_1 { objects: vec![(a, (siq, ts)), (b, (siq, ts))] }, vsq, 30);
        through_the_wire(M_DP_TB_1 { objects: vec![(a, (diq, ts)), (b, (diq, ts))] }, vsq, 31);
        through_the_wire(
            M_ME_TD_1 { objects: vec![(a, (Nva(-5), qds, ts)), (b, (Nva(6), qds, ts))] },
            vsq,
            34,
        );
        through_the_wire(
            M_ME_TE_1 { objects: vec![(a, (Sva(-5), qds, ts)), (b, (Sva(6), qds, ts))] },
            vsq,
            35,
        );
        through_the_wire(
            M_ME_TF_1 { objects: vec![(a, (R32(5), qds, ts)), (b, (R32(6), qds, ts))] },
            vsq,
            36,
        );
    }
}

#[test]
fn command_types_round_trip() {
    let at = Ioa(0x0A0B0C);
    let ts = time_tag();
    let qos = Qos { qualifier: 127, select: true };
    let sco = Sco { on: true, qualifier: 31, select: true };
    let rco = Rco { direction: StepDirection::Lower, qualifier: 3, select: false };
    let one = Vsq::single(1);
    through_the_wire(C_RC_NA_1 { objects: vec![(at, rco)] }, one, 47);
    through_the_wire(C_SE_NA_1 { objects: vec![(at, (Nva(-7), qos))] }, one, 48);
    through_the_wire(C_SE_NB_1 { objects: vec![(at, (Sva(-7), qos))] }, one, 49);
    through_the_wire(C_SC_TA_1 { objects: vec![(at, (sco, ts))] }, one, 58);
    through_the_wire(C_SE_TA_1 { objects: vec![(at, (Nva(8), qos, ts))] }, one, 61);
    through_the_wire(C_SE_TB_1 { objects: vec![(at, (Sva(8), qos, ts))] }, one, 62);
    through_the_wire(C_SE_TC_1 { objects: vec![(at, (R32(8), qos, ts))] }, one, 63);
    through_the_wire(C_CI_NA_1 { ioa: at, qcc: Qcc { group: 5, freeze: 3 } }, one, 101);
    through_the_wire(C_RP_NA_1 { ioa: at, qrp: Qrp(2) }, one, 105);
}

#[test]
fn double_command_octets() {
    for (state, select, octet) in [
        (DoublePoint::Off, false, 0x01u8),
        (DoublePoint::On, true, 0x82),
        (DoublePoint::Indeterminate, false, 0x03),
    ] {
        let mut buf = Vec::new();
        Dco { state, qualifier: 0, select }.encode(&mut buf);
        assert_eq!(buf, [octet]);
    }
}

#[test]
fn a_list_that_is_cut_off_is_incomplete() {
    let addressing = AsduAddressing::iec104();
    let asdu = Asdu::new(
        1,
        Vsq::single(2),
        Cot::with(Cause(Cause::SPONTANEOUS)),
        CommonAddress(1),
        vec![0x64, 0, 0, 1, 0x65, 0, 0],
    );
    assert_eq!(
        asdu.decode_payload::<iec60870::asdu::types::M_SP_NA_1>(addressing),
        Err(Error::Incomplete { needed: 1, have: 0 }),
    );
}

#[test]
fn lengths_round_trip() {
    for v in [0u32, 1, 255, 65_536, LengthOfFile::MAX] {
        let mut buf = Vec::new();
        LengthOfFile(v).encode(&mut buf);
        let mut slice: &[u8] = &buf;
        assert_eq!(LengthOfFile::decode(&mut slice).unwrap().0, v);
        let mut buf = Vec::new();
        LengthOfSection(v).encode(&mut buf);
        let mut slice: &[u8] = &buf;
        assert_eq!(LengthOfSection::decode(&mut slice).unwrap().0, v);
    }
}

#[test]
fn segments_round_trip() {
    for n in [0usize, 1, 16, MAX_SEGMENT_BYTES] {
        let segment: Vec<u8> = (0..n).map(|i| (i * 7) as u8).collect();
        through_the_wire(
            F_SG_NA_1 { ioa: Ioa(0), nof: NameOfFile(42), nos: NameOfSection(1), segment },
            Vsq::single(1),
            125,
        );
    }
}

#[test]
fn checksum_does_not_depend_on_order() {
    let mut data: Vec<u8> = (0..200u32).map(|i| (i * 37 + 11) as u8).collect();
    let direct = Checksum::of(&data);
    data.reverse();
    assert_eq!(Checksum::of(&data), direct);
    let (front, back) = data.split_at(77);
    let mut pieces = Checksum::of(back);
    pieces.update_slice(front);
    assert_eq!(pieces, direct);
}

#[test]
fn control_fields_round_trip() {
    for a in FLAGS {
        for b in FLAGS {
            for func in [
                FuncCodePrimary::ResetRemoteLink,
                FuncCodePrimary::ResetUserProcess,
                FuncCodePrimary::UserDataConfirmed,
                FuncCodePrimary::UserDataUnconfirmed,
                FuncCodePrimary::RequestStatus,
                FuncCodePrimary::RequestUserDataClass1,
                FuncCodePrimary::RequestUserDataClass2,
            ] {
                let cf = ControlField::Primary { fcb: a, fcv: b, func };
                assert_eq!(ControlField::decode(cf.encode(), Direction::Primary), Some(cf));
            }
            for func in [
                FuncCodeSecondary::Ack,
                FuncCodeSecondary::Nack,
                FuncCodeSecondary::RespondUserData,
                FuncCodeSecondary::NackNoData,
                FuncCodeSecondary::StatusOfLink,
            ] {
                let cf = ControlField::Secondary { acd: a, dfc: b, func };
                assert_eq!(ControlField::decode(cf.encode(), Direction::Secondary), Some(cf));
            }
        }
    }
}

#[test]
fn link_frames_round_trip() {
    for (size, addr) in [(LinkAddressSize::One, 0xFEu16), (LinkAddressSize::Two, 0xABCD)] {
        for n in [0usize, 1, 31, 250] {
            let frame = Frame101::Variable {
                control: 0x73,
                address: LinkAddress(addr),
                asdu: (0..n).map(|i| (i * 3) as u8).collect(),
            };
            let mut bytes = Vec::new();
            let written = Codec101::encode(&frame, &mut bytes, size);
            assert_eq!(written, bytes.len());
            let (decoded, consumed) = Codec101::decode_slice(&bytes, size).unwrap().unwrap();
            assert_eq!(decoded, frame);
            assert_eq!(consumed, bytes.len());
        }
        let frame = Frame101::Fixed { control: 0x5A, address: LinkAddress(addr) };
        let mut bytes = Vec::new();
        Codec101::encode(&frame, &mut bytes, size);
        let (decoded, consumed) = Codec101::decode_slice(&bytes, size).unwrap().unwrap();
        assert_eq!(decoded, frame);
        assert_eq!(consumed, bytes.len());
    }
}

#[test]
fn link_checksum_wraps() {
    let frame = Frame101::Fixed { control: 0xFF, address: LinkAddress(0xFF) };
    let mut bytes = Vec::new();
    Codec101::encode(&frame, &mut bytes, LinkAddressSize::One);
    assert_eq!(bytes, [0x10, 0xFF, 0xFF, 0xFE, 0x16]);
}

#[test]
fn link_frame_with_bad_start() {
    assert!(matches!(
        Codec101::decode_slice(&[0x77, 0, 0, 0, 0], LinkAddressSize::One),
        Err(Error::InvalidStartByte { got: 0x77, .. })
    ));
    assert!(matches!(
        Codec101::decode_slice(&[0x68, 4, 4, 0x69, 0, 0, 0, 0, 0, 0x16], LinkAddressSize::One),
        Err(Error::InvalidStartByte { expected: 0x68, got: 0x69 })
    ));
}

#[test]
fn sequence_numbers_wrap() {
    for v in [0u16, 1, 12345, SeqNo::MAX] {
        let s = SeqNo::new(v);
        assert_eq!(SeqNo::from_wire(s.to_wire()), s);
        for n in [0u16, 1, 20000, SeqNo::MAX] {
            let r = s.add(n);
            assert_eq!(r.value() as u32, (v as u32 + n as u32) % SeqNo::MODULUS);
            assert_eq!(s.distance(r), n);
        }
    }
}

#[test]
fn apdus_are_taken_off_a_stream() {
    let mut bytes = Vec::new();
    let first = Apdu::I { send: SeqNo::new(3), recv: SeqNo::new(9), asdu: vec![7; MAX_ASDU_LEN] };
    let second = Apdu::U { function: UFunction::StopDtCon };
    assert_eq!(Codec104::encode(&first, &mut bytes), Ok(MAX_ASDU_LEN + 6));
    assert_eq!(Codec104::encode(&second, &mut bytes), Ok(6));
    bytes.push(0x68);
    let mut stream: &[u8] = &bytes;
    assert_eq!(Codec104::decode(&mut stream), Ok(Some(first)));
    assert_eq!(Codec104::decode(&mut stream), Ok(Some(second)));
    assert_eq!(Codec104::decode(&mut stream), Ok(None));
    assert_eq!(stream, [0x68]);
}

#[test]
fn all_u_functions_have_their_octet() {
    for (function, octet) in [
        (UFunction::StartDtAct, 0x07u8),
        (UFunction::StartDtCon, 0x0B),
        (UFunction::StopDtAct, 0x13),
        (UFunction::StopDtCon, 0x23),
        (UFunction::TestFrAct, 0x43),
        (UFunction::TestFrCon, 0x83),
    ] {
        let mut bytes = Vec::new();
        Codec104::encode(&Apdu::U { function }, &mut bytes).unwrap();
        assert_eq!(bytes, [0x68, 4, octet, 0, 0, 0]);
        let (apdu, _) = Codec104::decode_slice(&bytes).unwrap().unwrap();
        assert_eq!(apdu, Apdu::U { function });
    }
}
