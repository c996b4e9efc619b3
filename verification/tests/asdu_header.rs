//! Cause of transmission, header fields and the ASDU envelope.

use iec60870::asdu::cot::{Cause, Cot};
use iec60870::asdu::envelope::Asdu;
use iec60870::asdu::header::{
    decode_ca, decode_ioa, encode_ca, encode_ioa, AsduAddressing, CaSize, CommonAddress, CotSize, Ioa,
    IoaSize, Vsq,
};
use iec60870::Error;

#[test]
fn known_constants_have_correct_values() {
    assert_eq!(Cause::SPONTANEOUS, 3);
    assert_eq!(Cause::ACTIVATION, 6);
    assert_eq!(Cause::ACTIVATION_TERMINATION, 10);
    assert_eq!(Cause::INTERROGATED_GENERAL, 20);
    assert_eq!(Cause::interrogated_group(1).0, 21);
    assert_eq!(Cause::interrogated_group(16).0, 36);
    assert_eq!(Cause::REQUESTED_COUNTER_GENERAL, 37);
    assert_eq!(Cause::requested_counter_group(4).0, 41);
    assert_eq!(Cause::UNKNOWN_TYPE_ID, 44);
    assert_eq!(Cause::UNKNOWN_IOA, 47);
}

#[test]
fn first_octet_packs_flags() {
    let cot = Cot {
        cause: Cause(Cause::SPONTANEOUS),
        negative: true,
        test: true,
        originator: 0,
    };
    let mut buf = Vec::<u8>::new();
    cot.encode_1(&mut buf);
    // 0x80 (T) | 0x40 (P/N) | 0x03 (cause=3) == 0xC3
    assert_eq!(&buf[..], &[0xC3]);
}

#[test]
fn cause_above_63_is_truncated_on_encode() {
    // Cause is a 6-bit field; values above 63 are masked off, not refused.
    // This is deliberate: the wire format simply cannot carry them, so we
    // truncate rather than panic. Decoder will roundtrip the truncated value.
    let cot = Cot::with(Cause(0xFF));
    let mut buf = Vec::<u8>::new();
    cot.encode_1(&mut buf);
    assert_eq!(&buf[..], &[0x3F]);
}

#[test]
fn two_octet_carries_originator() {
    let cot = Cot {
        cause: Cause(Cause::ACTIVATION_CON),
        negative: false,
        test: false,
        originator: 0xA5,
    };
    let mut buf = Vec::<u8>::new();
    cot.encode_2(&mut buf);
    assert_eq!(&buf[..], &[0x07, 0xA5]);
}

#[test]
fn decode_1_leaves_originator_zero() {
    let mut bytes: &[u8] = &[0xC3];
    let cot = Cot::decode_1(&mut bytes).unwrap();
    assert_eq!(cot.cause, Cause(Cause::SPONTANEOUS));
    assert!(cot.negative);
    assert!(cot.test);
    assert_eq!(cot.originator, 0);
}

#[test]
fn cot_decode_rejects_short_buffer() {
    let mut empty: &[u8] = &[];
    assert!(matches!(
        Cot::decode_1(&mut empty),
        Err(Error::Incomplete { needed: 1, have: 0 })
    ));
    let mut short: &[u8] = &[0x03];
    assert!(matches!(
        Cot::decode_2(&mut short),
        Err(Error::Incomplete { needed: 2, have: 1 })
    ));
}

#[test]
fn header_len_iec104() {
    // type-id (1) + vsq (1) + cot (2) + ca (2)
    assert_eq!(Asdu::header_len(AsduAddressing::iec104()), 6);
}

#[test]
fn encode_then_decode_104_roundtrip() {
    let asdu = Asdu::new(9, Vsq::single(2), Cot::with(Cause(Cause::SPONTANEOUS)), CommonAddress(0x1234), vec![0xDE, 0xAD, 0xBE, 0xEF]);
    let mut buf = Vec::<u8>::new();
    asdu.encode(&mut buf, AsduAddressing::iec104());
    // Layout: TID(1) | VSQ(1) | COT lo,hi (2) | CA lo,hi (2) | payload (4)
    assert_eq!(
        &buf[..],
        &[0x09, 0x02, 0x03, 0x00, 0x34, 0x12, 0xDE, 0xAD, 0xBE, 0xEF]
    );
    let mut slice: &[u8] = &buf;
    let parsed = Asdu::decode(&mut slice, AsduAddressing::iec104()).unwrap();
    assert_eq!(parsed, asdu);
}

#[test]
fn encode_then_decode_101_short_address_roundtrip() {
    let addressing = AsduAddressing {
        cot_size: CotSize::One,
        ca_size: CaSize::One,
        ioa_size: IoaSize::One,
    };
    let asdu = Asdu::new(1, Vsq::single(1), Cot::with(Cause(Cause::INTERROGATED_GENERAL)), CommonAddress(0x10), vec![0x07, 0x81]);
    let mut buf = Vec::<u8>::new();
    asdu.encode(&mut buf, addressing);
    assert_eq!(&buf[..], &[0x01, 0x01, 0x14, 0x10, 0x07, 0x81]);
    let mut slice: &[u8] = &buf;
    assert_eq!(Asdu::decode(&mut slice, addressing).unwrap(), asdu);
}

#[test]
fn encode_to_vec_matches_encode_buf() {
    let asdu = Asdu::new(100, Vsq::single(1), Cot::with(Cause(Cause::ACTIVATION)), CommonAddress(1), vec![0x00, 0x00, 0x00, 0x14]);
    let mut via_buf = Vec::<u8>::new();
    asdu.encode(&mut via_buf, AsduAddressing::iec104());
    let via_vec = asdu.encode_to_vec(AsduAddressing::iec104());
    assert_eq!(&via_buf[..], &via_vec[..]);
}

#[test]
fn decode_rejects_short_header() {
    let bytes = [0x01, 0x02, 0x03]; // less than 6 bytes
    let mut slice: &[u8] = &bytes;
    assert!(matches!(
        Asdu::decode(&mut slice, AsduAddressing::iec104()),
        Err(Error::Incomplete { needed: 6, have: 3 })
    ));
}

#[test]
fn vsq_packs_sq_bit() {
    let mut buf = Vec::<u8>::new();
    Vsq::sequence(5).encode(&mut buf);
    assert_eq!(&buf[..], &[0x85]);
    buf.clear();
    Vsq::single(5).encode(&mut buf);
    assert_eq!(&buf[..], &[0x05]);
}

#[test]
fn vsq_count_truncates_above_127() {
    let mut buf = Vec::<u8>::new();
    Vsq {
        sequence: false,
        count: 200,
    }
    .encode(&mut buf);
    // 200 = 0xC8, masked to 0x48; SQ bit must remain unset
    assert_eq!(&buf[..], &[0x48]);
}

#[test]
fn ioa_three_octet_little_endian() {
    let mut buf = Vec::<u8>::new();
    encode_ioa(&mut buf, Ioa(0x123456), IoaSize::Three);
    assert_eq!(&buf[..], &[0x56, 0x34, 0x12]);
    let mut slice: &[u8] = &buf;
    assert_eq!(
        decode_ioa(&mut slice, IoaSize::Three).unwrap(),
        Ioa(0x123456)
    );
}

#[test]
fn ca_two_octet_little_endian() {
    let mut buf = Vec::<u8>::new();
    encode_ca(&mut buf, CommonAddress(0xBEEF), CaSize::Two);
    assert_eq!(&buf[..], &[0xEF, 0xBE]);
}

#[test]
fn short_buffers_rejected() {
    let mut empty: &[u8] = &[];
    assert!(matches!(
        decode_ioa(&mut empty, IoaSize::Three),
        Err(Error::Incomplete { needed: 3, have: 0 })
    ));
    let mut empty2: &[u8] = &[];
    assert!(matches!(
        decode_ca(&mut empty2, CaSize::Two),
        Err(Error::Incomplete { needed: 2, have: 0 })
    ));
}
