//! Information elements.

use iec60870::asdu::ie::{
    Bcr, Cp24Time2a, Cp56Time2a, Diq, DoublePoint, Nva, Qds, Quality, Siq, R32,
};
use iec60870::Error;

#[test]
fn siq_known_pattern() {
    // SPI=1, IV=1 → 0x81
    let mut buf = Vec::<u8>::new();
    Siq {
        on: true,
        quality: Quality {
            invalid: true,
            ..Default::default()
        },
    }
    .encode(&mut buf);
    assert_eq!(&buf[..], &[0x81]);

    let mut slice: &[u8] = &[0x91];
    let s = Siq::decode(&mut slice).unwrap();
    assert!(s.on);
    assert!(s.quality.invalid);
    assert!(s.quality.blocked);
}

#[test]
fn diq_double_point_states() {
    for (bits, want) in [
        (0b00, DoublePoint::Intermediate),
        (0b01, DoublePoint::Off),
        (0b10, DoublePoint::On),
        (0b11, DoublePoint::Indeterminate),
    ] {
        let mut slice: &[u8] = &[bits];
        let d = Diq::decode(&mut slice).unwrap();
        assert_eq!(d.state, want, "for bits {bits:#04b}");
    }
}

#[test]
fn qds_overflow_bit() {
    let mut buf = Vec::<u8>::new();
    Qds {
        overflow: true,
        quality: Quality::default(),
    }
    .encode(&mut buf);
    assert_eq!(&buf[..], &[0x01]);
}

#[test]
fn nva_extremes() {
    let mut buf = Vec::<u8>::new();
    Nva(i16::MIN).encode(&mut buf);
    assert_eq!(&buf[..], &[0x00, 0x80]); // -32768 LE
    buf.clear();
    Nva(i16::MAX).encode(&mut buf);
    assert_eq!(&buf[..], &[0xFF, 0x7F]); // 32767 LE
}

#[test]
fn nva_f32_conversion() {
    assert!((f32::from_bits(Nva::from_f32(f32::to_bits(-1.0)).as_f32()) - -1.0).abs() < f32::EPSILON);
    assert!((f32::from_bits(Nva::from_f32(f32::to_bits(0.0)).as_f32()) - 0.0).abs() < f32::EPSILON);
    // Saturating clamp on overflow
    assert_eq!(Nva::from_f32(f32::to_bits(2.0)).0, i16::MAX);
    assert_eq!(Nva::from_f32(f32::to_bits(-2.0)).0, i16::MIN);
}

#[test]
fn r32_known_pattern() {
    let mut buf = Vec::<u8>::new();
    R32(1.0_f32.to_bits()).encode(&mut buf);
    // 0x3F800000 little-endian
    assert_eq!(&buf[..], &[0x00, 0x00, 0x80, 0x3F]);
}

#[test]
fn bcr_qualifier_bits() {
    let mut buf = Vec::<u8>::new();
    Bcr {
        value: 0x0102_0304,
        sequence: 0x1F,
        carry: true,
        adjusted: true,
        invalid: true,
    }
    .encode(&mut buf);
    assert_eq!(&buf[..], &[0x04, 0x03, 0x02, 0x01, 0xFF]);
}

#[test]
fn cp24time2a_known_pattern() {
    // 12345 ms, minute 30, IV=1
    let mut buf = Vec::<u8>::new();
    Cp24Time2a {
        milliseconds: 12345,
        minute: 30,
        invalid: true,
    }
    .encode(&mut buf);
    assert_eq!(&buf[..], &[0x39, 0x30, 0x9E]);
}

#[test]
fn cp56time2a_known_pattern() {
    // 2024-12-25 (Wed = 3) 15:42:33.500
    // milliseconds = 42*1000? no: ms within minute = 33*1000+500 = 33500 → 0x82DC
    let t = Cp56Time2a {
        milliseconds: 33_500,
        minute: 42,
        hour: 15,
        day: 25,
        day_of_week: 3,
        month: 12,
        year: 24,
        summer_time: false,
        invalid: false,
        genuine: false,
    };
    let mut buf = Vec::<u8>::new();
    t.encode(&mut buf);
    assert_eq!(buf.len(), Cp56Time2a::LEN);
    let mut slice: &[u8] = &buf;
    assert_eq!(Cp56Time2a::decode(&mut slice).unwrap(), t);
}

#[test]
fn ie_decode_rejects_short_buffer() {
    let mut empty: &[u8] = &[];
    assert!(matches!(
        Cp56Time2a::decode(&mut empty),
        Err(Error::Incomplete { needed: 7, have: 0 })
    ));
}
