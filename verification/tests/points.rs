//! The process image, the cache, the simulator and the text forms.

use iec60870::asdu::cot::{Cause, Cot};
use iec60870::asdu::header::CommonAddress;
use iec60870::asdu::ie::{Cp56Time2a, Qds, Quality};
use iec60870::cache::PointCache;
use iec60870::calendar::{date_of, Date};
use iec60870::control::{
    default_client_socket, default_server_socket, line_action, Line, LineAction,
};
use iec60870::points::{
    dp_wire_to_value, encode_point, kind_for_group, now_cp56, populate_default, qds_from_wire,
    qds_to_wire, quality_from_wire, quality_to_wire, PointEntry, ProcessImage,
};
use iec60870::sim::{
    advance, can_advance, schedule_interval_ms, schedule_phase_ms, settle, Advance,
};
use iec60870::table::Table;
use iec60870::text::{parse_nof, parse_point_value, timestamp_text, upload_name, TextError};
use iec60870::time::{Duration, Instant};
use iec60870::transport::{
    LinkAddrSize, TransportArgs, TransportChoice, TransportError, TransportKind,
};
use iec60870::frame101::frame::LinkAddressSize;
use iec60870::wire::{
    DoublePointWire, PointKind, PointValue, QualityWire, Request, SimSchedule,
};

const KINDS: [PointKind; 10] = PointKind::ALL;

fn tag() -> Cp56Time2a {
    // 2024-12-25T15:42:33.500Z
    now_cp56(1_735_141_353, 500)
}

fn instant(ms: u64) -> Instant {
    Instant { nanos: 0 }.checked_add(Duration::from_millis(ms)).unwrap()
}

// ---- kinds -----------------------------------------------------------------

#[test]
fn kinds_and_type_ids() {
    let ids: Vec<u8> = KINDS.iter().map(|k| k.type_id()).collect();
    assert_eq!(ids, [1, 3, 9, 11, 13, 30, 31, 34, 35, 36]);
    for k in KINDS {
        assert_eq!(PointKind::from_type_id(k.type_id()), Some(k));
    }
    assert_eq!(PointKind::from_type_id(2), None);
    assert_eq!(PointKind::MeTd.mnemonic(), "M_ME_TD_1");
    assert!(PointKind::SpTb.has_timestamp());
    assert!(!PointKind::MeNc.has_timestamp());
}

#[test]
fn groups_follow_the_kinds() {
    for (i, k) in KINDS.iter().enumerate() {
        assert_eq!(kind_for_group(i as u8 + 1), Some(*k));
    }
    assert_eq!(kind_for_group(0), None);
    assert_eq!(kind_for_group(11), None);
}

// ---- time ------------------------------------------------------------------

#[test]
fn dates_of_days() {
    for (days, year, month, day) in [
        (0u64, 1970, 1u8, 1u8),
        (58, 1970, 2, 28),
        (59, 1970, 3, 1),
        (789, 1972, 2, 29),
        (10_957, 2000, 1, 1),
        (11_016, 2000, 2, 29),
        (20_082, 2024, 12, 25),
        (47_540, 2100, 2, 28),
        (47_541, 2100, 3, 1),
    ] {
        assert_eq!(date_of(days), Date { year, month, day });
    }
}

#[test]
fn clock_reading_becomes_a_time_tag() {
    let t = tag();
    assert_eq!(
        t,
        Cp56Time2a {
            milliseconds: 33_500,
            minute: 42,
            hour: 15,
            day: 25,
            day_of_week: 3,
            month: 12,
            year: 24,
            ..Cp56Time2a::default()
        }
    );
    // The epoch was a Thursday; three days later it was Sunday.
    assert_eq!(now_cp56(0, 0).day_of_week, 4);
    assert_eq!(now_cp56(3 * 86_400, 0).day_of_week, 7);
    assert_eq!(now_cp56(4 * 86_400, 0).day_of_week, 1);
    assert_eq!(now_cp56(0, 0).year, 70);
}

#[test]
fn time_tags_as_text() {
    assert_eq!(timestamp_text(&tag()), "2024-12-25T15:42:33.500Z");
    let early = Cp56Time2a { milliseconds: 7_004, minute: 3, hour: 2, day: 1, month: 9, year: 5, ..tag() };
    assert_eq!(timestamp_text(&early), "2005-09-01T02:03:07.004Z");
    let odd = Cp56Time2a { year: 127, milliseconds: 65_535, ..tag() };
    assert_eq!(timestamp_text(&odd), "20127-12-25T15:42:65.535Z");
}

#[test]
fn instants() {
    let t = instant(100);
    assert_eq!(instant(250).saturating_duration_since(t), Duration::from_millis(150));
    assert_eq!(t.saturating_duration_since(instant(250)), Duration::from_millis(0));
    assert!(instant(250).has_reached(t, Duration::from_millis(150)));
    assert!(!instant(250).has_reached(t, Duration::from_millis(151)));
    assert_eq!(Instant { nanos: u128::MAX }.checked_add(Duration::from_secs(1)), None);
    assert_eq!(Duration::from_secs(2), Duration::from_millis(2000));
}

// ---- quality ---------------------------------------------------------------

#[test]
fn quality_conversions() {
    let wire = QualityWire {
        overflow: true,
        blocked: true,
        substituted: false,
        not_topical: true,
        invalid: false,
    };
    let quality = Quality { blocked: true, substituted: false, not_topical: true, invalid: false };
    assert_eq!(quality_from_wire(wire), quality);
    assert_eq!(quality_to_wire(quality), QualityWire { overflow: false, ..wire });
    assert_eq!(qds_from_wire(wire), Qds { overflow: true, quality });
    assert_eq!(qds_to_wire(Qds { overflow: true, quality }), wire);
}

// ---- process image ---------------------------------------------------------

#[test]
fn table_keeps_its_rows_in_order() {
    let mut t: Table<char> = Table::new();
    for (k, c) in [(5u64, 'e'), (1, 'a'), (9, 'i'), (5, 'E')] {
        t.insert(k, c);
    }
    assert_eq!(t.len(), 3);
    assert_eq!((t.row(0).0, *t.row(0).1), (1, 'a'));
    assert_eq!((t.row(1).0, *t.row(1).1), (5, 'E'));
    assert_eq!(t.get(9), Some(&'i'));
    assert_eq!(t.remove(5), Some('E'));
    assert_eq!(t.remove(5), None);
    assert!(!t.contains(5));
    *t.get_mut(9).unwrap() = 'I';
    assert_eq!(t.get(9), Some(&'I'));
    assert!(t.get_mut(2).is_none());
}

#[test]
fn default_table() {
    let mut image = ProcessImage::new();
    assert!(image.is_empty() && ProcessImage::default().is_empty());
    populate_default(&mut image);
    assert_eq!(image.len(), 50);
    let ioas = image.sorted_ioas();
    assert_eq!(&ioas[..6], &[100, 101, 102, 103, 104, 200]);
    assert_eq!(ioas[49], 1504);
    for k in KINDS {
        assert_eq!(image.iter_kind(k).len(), 5);
    }
    let third = image.get(1102).unwrap();
    assert_eq!(third.kind, PointKind::SpTb);
    assert_eq!(third.value, PointValue::Single(false));
    assert_eq!(third.schedule, SimSchedule::Toggle { interval_ms: 5000, phase_ms: 2000 });
    assert_eq!(
        image.get(300).unwrap().schedule,
        SimSchedule::RandomWalk {
            interval_ms: 1000,
            step: 0.05f32.to_bits(),
            min: (-1.0f32).to_bits(),
            max: 1.0f32.to_bits(),
        }
    );
    assert_eq!(
        image.get(504).unwrap().schedule,
        SimSchedule::Sine {
            interval_ms: 500,
            period_ms: 10_000,
            amplitude: 50.0f32.to_bits(),
            offset: 0.0f32.to_bits(),
        }
    );
    assert!(image.get(105).is_none());
}

#[test]
fn image_set_and_get() {
    let mut image = ProcessImage::new();
    image.insert(7, PointEntry::new(PointKind::MeNb, SimSchedule::Hold));
    assert!(image.set(7, PointValue::Scaled(-3), None));
    assert_eq!(image.get(7).unwrap().value, PointValue::Scaled(-3));
    assert_eq!(image.get(7).unwrap().quality, QualityWire::default());
    let bad = QualityWire { invalid: true, ..QualityWire::default() };
    assert!(image.set(7, PointValue::Scaled(4), Some(bad)));
    assert_eq!(image.get(7).unwrap().quality, bad);
    assert_eq!(image.get(7).unwrap().kind, PointKind::MeNb);
    image.get_mut(7).unwrap().value = PointValue::Scaled(11);
    assert_eq!(image.iter()[0].1.value, PointValue::Scaled(11));
    assert_eq!(dp_wire_to_value(DoublePointWire::On), PointValue::Double(DoublePointWire::On));
}

#[test]
fn image_set_inserts_unknown_points() {
    let bad = QualityWire { invalid: true, ..QualityWire::default() };
    for (ioa, value, kind) in [
        (7u32, PointValue::Single(true), PointKind::SpNa),
        (8, PointValue::Double(DoublePointWire::On), PointKind::DpNa),
        (9, PointValue::Normalized(0x3F00_0000), PointKind::MeNa),
        (10, PointValue::Scaled(4), PointKind::MeNb),
        (11, PointValue::Float(0x3F80_0000), PointKind::MeNc),
    ] {
        let mut image = ProcessImage::new();
        assert!(!image.set(ioa, value, Some(bad)));
        let entry = *image.get(ioa).unwrap();
        assert_eq!(
            entry,
            PointEntry { kind, value, quality: bad, schedule: SimSchedule::Hold }
        );
        assert_eq!(image.len(), 1);
        // From then on it is a known point, and keeps its quality.
        assert!(image.set(ioa, value, None));
        assert_eq!(*image.get(ioa).unwrap(), entry);
    }
    let mut image = ProcessImage::new();
    assert!(!image.set(3, PointValue::Single(false), None));
    assert_eq!(image.get(3).unwrap().quality, QualityWire::default());
}

#[test]
fn points_as_octets() {
    let cot = Cot::with(Cause(Cause::SPONTANEOUS));
    let ca = CommonAddress(0x0102);
    let quality = QualityWire { overflow: true, invalid: true, ..QualityWire::default() };
    let stamp = [0xDCu8, 0x82, 42, 15, 25 | (3 << 5), 12, 24];
    for (kind, value, id, body, timed) in [
        (PointKind::SpNa, PointValue::Single(true), 1u8, vec![0x81u8], false),
        (PointKind::DpNa, PointValue::Double(DoublePointWire::On), 3, vec![0x82], false),
        (PointKind::MeNa, PointValue::Normalized(0.5f32.to_bits()), 9, vec![0x00, 0x40, 0x81], false),
        (PointKind::MeNb, PointValue::Scaled(-2), 11, vec![0xFE, 0xFF, 0x81], false),
        (PointKind::MeNc, PointValue::Float(1.0f32.to_bits()), 13, vec![0, 0, 0x80, 0x3F, 0x81], false),
        (PointKind::SpTb, PointValue::Single(false), 30, vec![0x80], true),
        (PointKind::DpTb, PointValue::Double(DoublePointWire::Off), 31, vec![0x81], true),
        (PointKind::MeTd, PointValue::Normalized((-1.0f32).to_bits()), 34, vec![0x00, 0x80, 0x81], true),
        (PointKind::MeTe, PointValue::Scaled(258), 35, vec![2, 1, 0x81], true),
        (PointKind::MeTf, PointValue::Float(0), 36, vec![0, 0, 0, 0, 0x81], true),
    ] {
        let entry = PointEntry { kind, value, quality, schedule: SimSchedule::Hold };
        let mut expected = vec![id, 0x01, 0x03, 0x00, 0x02, 0x01, 0x56, 0x34, 0x12];
        expected.extend_from_slice(&body);
        if timed {
            expected.extend_from_slice(&stamp);
        }
        assert_eq!(encode_point(0x123456, &entry, tag(), cot, ca), Some(expected), "{kind:?}");
    }
}

#[test]
fn a_value_of_another_shape_is_not_encoded() {
    let cot = Cot::with(Cause(Cause::SPONTANEOUS));
    for kind in KINDS {
        let mut entry = PointEntry::new(kind, SimSchedule::Hold);
        assert!(encode_point(1, &entry, tag(), cot, CommonAddress(1)).is_some());
        entry.value = if matches!(entry.value, PointValue::Scaled(_)) {
            PointValue::Single(true)
        } else {
            PointValue::Scaled(1)
        };
        assert_eq!(encode_point(1, &entry, tag(), cot, CommonAddress(1)), None);
    }
}

// ---- cache -----------------------------------------------------------------

#[test]
fn cache_returns_the_newest() {
    let mut cache = PointCache::new();
    let q = QualityWire::default();
    cache.update(PointKind::SpNa, 100, PointValue::Single(true), q, None, instant(5));
    cache.update(PointKind::SpTb, 100, PointValue::Single(false), q, Some(tag()), instant(9));
    cache.update(PointKind::MeNb, 7, PointValue::Scaled(1), q, None, instant(1));
    cache.update(PointKind::MeNb, 7, PointValue::Scaled(2), q, None, instant(2));

    assert_eq!(cache.get(PointKind::MeNb, 7).unwrap().value, PointValue::Scaled(2));
    assert!(cache.get(PointKind::MeNb, 8).is_none());
    let (kind, point) = cache.get_by_ioa(100, None).unwrap();
    assert_eq!(kind, PointKind::SpTb);
    assert_eq!(point.timestamp, Some(tag()));
    assert_eq!(cache.get_by_ioa(100, Some(1)).unwrap().1.value, PointValue::Single(true));
    assert!(cache.get_by_ioa(100, Some(13)).is_none());
    assert!(cache.get_by_ioa(101, None).is_none());

    let order: Vec<(PointKind, u32)> = cache.list_all().iter().map(|e| (e.0, e.1)).collect();
    assert_eq!(
        order,
        [(PointKind::MeNb, 7), (PointKind::SpNa, 100), (PointKind::SpTb, 100)]
    );
    assert!(PointCache::default().list_all().is_empty());
}

// ---- simulator -------------------------------------------------------------

#[test]
fn schedules_tick() {
    let toggle = SimSchedule::Toggle { interval_ms: 50, phase_ms: 3 };
    assert_eq!(schedule_interval_ms(&toggle), Some(50));
    assert_eq!(schedule_phase_ms(&toggle), 3);
    assert_eq!(schedule_interval_ms(&SimSchedule::Hold), None);
    assert_eq!(schedule_phase_ms(&SimSchedule::Rotate { interval_ms: 9 }), 0);
    assert_eq!(advance(&SimSchedule::Hold, Some(&PointValue::Single(true)), 1), None);
    for on in [false, true] {
        assert_eq!(
            advance(&toggle, Some(&PointValue::Single(on)), 1),
            Some(Advance::Value(PointValue::Single(!on)))
        );
    }
    assert_eq!(
        advance(&toggle, None, 1),
        Some(Advance::Value(PointValue::Single(true)))
    );
}

#[test]
fn rotation_alternates_between_off_and_on() {
    let rotate = SimSchedule::Rotate { interval_ms: 10 };
    for (from, to) in [
        (DoublePointWire::Off, DoublePointWire::On),
        (DoublePointWire::On, DoublePointWire::Off),
        (DoublePointWire::Intermediate, DoublePointWire::Off),
        (DoublePointWire::Indeterminate, DoublePointWire::Off),
    ] {
        assert_eq!(
            advance(&rotate, Some(&PointValue::Double(from)), 1),
            Some(Advance::Value(PointValue::Double(to)))
        );
    }
}

#[test]
fn steps_wrap() {
    for (step, wrap_at, from, to) in [
        (1, 100, 98i16, 99i16),
        (1, 100, 99, 0),
        (-1, 100, 0, 99),
        (-250, 100, 10, 60),
        (7, -10, 5, 2),
        (-7, -10, 5, 8),
        (40_000, 100_000, 0, 32_767),
        (-1, 1, i16::MIN, 0),
    ] {
        let s = SimSchedule::StepUp { interval_ms: 1, step, wrap_at };
        let v = PointValue::Scaled(from);
        assert!(can_advance(&s, &v));
        assert_eq!(advance(&s, Some(&v), 1), Some(Advance::Value(PointValue::Scaled(to))));
    }
    for (step, wrap_at) in [(1, 0), (i32::MAX, 5), (i32::MIN, 5)] {
        let s = SimSchedule::StepUp { interval_ms: 1, step, wrap_at };
        assert!(!can_advance(&s, &PointValue::Scaled(if step < 0 { -1 } else { 1 })) || wrap_at == 0);
    }
    let s = SimSchedule::StepUp { interval_ms: 1, step: i32::MIN, wrap_at: -1 };
    assert!(!can_advance(&s, &PointValue::Scaled(0)));
    let s = SimSchedule::StepUp { interval_ms: 1, step: 1, wrap_at: 0 };
    assert!(!can_advance(&s, &PointValue::Scaled(0)));
}

#[test]
fn float_schedules_hand_out_their_operands() {
    let walk = SimSchedule::RandomWalk { interval_ms: 1, step: 11, min: 22, max: 33 };
    assert_eq!(
        advance(&walk, Some(&PointValue::Normalized(44)), 9),
        Some(Advance::Walk { from: 44, step: 11, min: 22, max: 33, normalized: true })
    );
    assert_eq!(
        advance(&walk, Some(&PointValue::Single(true)), 9),
        Some(Advance::Walk { from: 0, step: 11, min: 22, max: 33, normalized: false })
    );
    let wave = |period_ms, interval_ms| SimSchedule::Sine { interval_ms, period_ms, amplitude: 1, offset: 2 };
    for (period, interval, tick, phase) in [
        (10_000u64, 500u64, 23u64, (3u64, 20u64)),
        (10, 500, 23, (0, 1)),
        (0, 0, 5, (0, 1)),
        (7, 0, 8, (1, 7)),
    ] {
        assert_eq!(
            advance(&wave(period, interval), Some(&PointValue::Float(0)), tick),
            Some(Advance::Wave {
                tick: phase.0,
                ticks: phase.1,
                amplitude: 1,
                offset: 2,
                normalized: false,
            })
        );
    }
    assert_eq!(settle(true, 5), PointValue::Normalized(5));
    assert_eq!(settle(false, 5), PointValue::Float(5));
}

// ---- text ------------------------------------------------------------------

#[test]
fn names_of_files() {
    for (text, value) in [
        ("0", Ok(0u16)),
        ("65535", Ok(65535)),
        ("65536", Err(TextError::InvalidNof)),
        ("+12", Ok(12)),
        ("-1", Err(TextError::InvalidNof)),
        ("", Err(TextError::InvalidNof)),
        ("+", Err(TextError::InvalidNof)),
        ("12a", Err(TextError::InvalidNof)),
        ("99999999999999999999", Err(TextError::InvalidNof)),
        ("0xBB3D", Ok(0xBB3D)),
        ("0Xbb3d", Ok(0xBB3D)),
        ("0x+1f", Ok(0x1F)),
        ("0x", Err(TextError::InvalidHexNof)),
        ("0x10000", Err(TextError::InvalidHexNof)),
        ("0xg", Err(TextError::InvalidHexNof)),
        ("0x-1", Err(TextError::InvalidHexNof)),
    ] {
        assert_eq!(parse_nof(text), value, "{text}");
    }
    assert_eq!(upload_name(0x0A3F), "upload_0A3F.bin");
    assert_eq!(TextError::InvalidNof.message(), "invalid NOF");
}

#[test]
fn point_values() {
    let number = Some(1.5f32.to_bits());
    for (kind, value, expected) in [
        ("sp-na", "true", Ok(PointValue::Single(true))),
        ("SP_TB", "false", Ok(PointValue::Single(false))),
        ("sp_na", "True", Err(TextError::ExpectedBool)),
        ("dp-na", "OFF", Ok(PointValue::Double(DoublePointWire::Off))),
        ("dp_tb", "1", Ok(PointValue::Double(DoublePointWire::On))),
        ("dp_na", "Intermediate", Ok(PointValue::Double(DoublePointWire::Intermediate))),
        ("dp_na", "indeterminate", Ok(PointValue::Double(DoublePointWire::Indeterminate))),
        ("dp_na", "2", Err(TextError::ExpectedDoublePoint)),
        ("me-na", "1.5", Ok(PointValue::Normalized(1.5f32.to_bits()))),
        ("Me-Tf", "1.5", Ok(PointValue::Float(1.5f32.to_bits()))),
        ("me_nb", "-32768", Ok(PointValue::Scaled(-32768))),
        ("me_te", "+32767", Ok(PointValue::Scaled(32767))),
        ("me_nb", "32768", Err(TextError::ExpectedI16)),
        ("me_nb", "-32769", Err(TextError::ExpectedI16)),
        ("me_nb", "-", Err(TextError::ExpectedI16)),
        ("me_nb", "1.5", Err(TextError::ExpectedI16)),
        ("me-xx", "1", Err(TextError::UnknownKind)),
        ("", "1", Err(TextError::UnknownKind)),
    ] {
        assert_eq!(parse_point_value(kind, value, number), expected, "{kind} {value}");
    }
    assert_eq!(parse_point_value("me-nc", "abc", None), Err(TextError::ExpectedFloat));
    assert_eq!(parse_point_value("me-td", "abc", None), Err(TextError::ExpectedFloat));
}

// ---- transport and control -------------------------------------------------

fn args(transport: TransportKind, addr: Option<&str>, serial: Option<&str>) -> TransportArgs {
    TransportArgs {
        transport,
        addr: addr.map(String::from),
        serial: serial.map(String::from),
        baud: 9600,
        link_addr: 3,
        link_addr_size: LinkAddrSize::Two,
        coa: 17,
    }
}

#[test]
fn transport_flags() {
    assert!(matches!(
        args(TransportKind::Tcp, None, None).resolve(),
        Ok(TransportChoice::Tcp { addr, coa: 17 }) if addr == "127.0.0.1:2404"
    ));
    assert!(matches!(
        args(TransportKind::Tcp, Some("10.0.0.1:99"), None).resolve(),
        Ok(TransportChoice::Tcp { addr, .. }) if addr == "10.0.0.1:99"
    ));
    assert!(matches!(
        args(TransportKind::Tcp, None, Some("/dev/x")).resolve(),
        Err(TransportError::SerialWithTcp)
    ));
    assert!(matches!(
        args(TransportKind::Serial, None, None).resolve(),
        Err(TransportError::SerialMissing)
    ));
    assert!(matches!(
        args(TransportKind::Serial, Some("a"), Some("/dev/x")).resolve(),
        Err(TransportError::AddrWithSerial)
    ));
    let choice = args(TransportKind::Serial, None, Some("/dev/x")).resolve().unwrap();
    assert_eq!(choice.coa(), 17);
    assert!(matches!(
        choice,
        TransportChoice::Serial { path, baud: 9600, link_addr: 3, link_addr_size: LinkAddrSize::Two, coa: 17 }
            if path == "/dev/x"
    ));
    assert_eq!(LinkAddrSize::default().to_proto(), LinkAddressSize::One);
    assert_eq!(LinkAddrSize::Two.to_proto(), LinkAddressSize::Two);
    assert_eq!(TransportKind::Serial.name(), "serial");
    assert_eq!(
        TransportError::SerialMissing.message(),
        "--serial <PATH> is required for --transport serial"
    );
}

#[test]
fn control_lines() {
    assert_eq!(default_server_socket(), "/tmp/iec-test-server.sock");
    assert_eq!(default_client_socket(), "/tmp/iec-test-client.sock");
    for (line, streams, action) in [
        (Line::End, true, LineAction::Close),
        (Line::Blank, true, LineAction::Skip),
        (Line::Malformed, false, LineAction::Refuse),
        (Line::Events, true, LineAction::Stream),
        (Line::Events, false, LineAction::NoStream),
        (Line::Shutdown, false, LineAction::AnswerAndClose),
        (Line::Request, true, LineAction::Answer),
    ] {
        assert_eq!(line_action(line, streams), action);
    }
}

#[test]
fn requests_go_to_their_daemon() {
    for (request, server, client, line) in [
        (Request::Get { ioa: 1 }, true, false, Line::Request),
        (Request::SimSet { ioa: 1, schedule: SimSchedule::Hold }, true, false, Line::Request),
        (Request::Read { ioa: 1, type_id: None }, false, true, Line::Request),
        (Request::CmdSingle { ioa: 1, on: true, ca: None }, false, true, Line::Request),
        (Request::Status, true, true, Line::Request),
        (Request::Shutdown, true, true, Line::Shutdown),
        (Request::Events, false, false, Line::Events),
    ] {
        assert_eq!(request.is_server_op(), server);
        assert_eq!(request.is_client_op(), client);
        assert_eq!(request.line(), line);
    }
}
