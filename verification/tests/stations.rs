//! An outstation and a master, apart and with each other.

use iec60870::asdu::cot::{Cause, Cot};
use iec60870::asdu::envelope::Asdu;
use iec60870::asdu::header::{AsduAddressing, CommonAddress, Ioa, Vsq};
use iec60870::asdu::ie::{Cp56Time2a, DoublePoint, Quality, Siq};
use iec60870::asdu::payload::AsduPayload;
use iec60870::asdu::types::{
    Dco, Qcc, Qoi, Qrp, Sco, C_CI_NA_1, C_CS_NA_1, C_DC_NA_1, C_IC_NA_1, C_RD_NA_1, C_RP_NA_1,
    C_SC_NA_1, C_SC_TA_1, M_SP_NA_1, M_SP_TB_1,
};
use iec60870::master::{
    deduplicate, interrogation_timeout_ms, Confirmation, Master, Setpoint, COLLECTOR_CAPACITY,
};
use iec60870::observation::{observe, Observation};
use iec60870::outstation::{handle_incoming_asdu, NotFound, Outstation, Step};
use iec60870::points::now_cp56;
use iec60870::sim::{settle, Advance};
use iec60870::time::{Duration, Instant};
use iec60870::wire::{
    DoublePointWire, Event, PointKind, PointValue, QualityWire, SimSchedule, StepDir,
};

const CA: u16 = 1;

fn tag() -> Cp56Time2a {
    now_cp56(1_735_141_353, 500)
}

fn at(ms: u64) -> Instant {
    Instant { nanos: 0 }.checked_add(Duration::from_millis(ms)).unwrap()
}

fn activation<P: AsduPayload>(payload: &P, vsq: Vsq) -> Vec<u8> {
    Asdu::from_payload(
        Cot::with(Cause(Cause::ACTIVATION)),
        CommonAddress(CA),
        vsq,
        payload,
        AsduAddressing::iec104(),
    )
    .encode_to_vec(AsduAddressing::iec104())
}

fn parse(bytes: &[u8]) -> Asdu {
    let mut slice: &[u8] = bytes;
    Asdu::decode(&mut slice, AsduAddressing::iec104()).unwrap()
}

fn react(station: &Outstation, bytes: &[u8]) -> Vec<Step> {
    handle_incoming_asdu(bytes, &station.image, station.coa, tag())
}

fn sent(steps: &[Step]) -> Vec<Asdu> {
    steps
        .iter()
        .filter_map(|s| match s {
            Step::Send(bytes) => Some(parse(bytes)),
            _ => None,
        })
        .collect()
}

fn received_report(cause: u8, type_id: u8, ioa: u32) -> Step {
    Step::Report(Event::AsduReceived { cot: cause, type_id, ioa, value: None })
}

// ---- outstation ------------------------------------------------------------

#[test]
fn general_interrogation_sends_every_point() {
    let station = Outstation::new(CA);
    let ask = activation(&C_IC_NA_1 { objects: vec![(Ioa(0), Qoi(Qoi::GENERAL))] }, Vsq::single(1));
    let steps = react(&station, &ask);
    assert_eq!(steps[0], received_report(6, 100, 0));
    let asdus = sent(&steps);
    assert_eq!(asdus.len(), 52);
    assert_eq!(asdus[0].type_id(), 100);
    assert_eq!(asdus[0].cot().cause, Cause(Cause::ACTIVATION_CON));
    assert_eq!(asdus[0].payload_bytes(), &[0, 0, 0, 20]);
    assert_eq!(asdus[1].type_id(), 1);
    assert_eq!(asdus[1].cot().cause, Cause(Cause::INTERROGATED_GENERAL));
    assert_eq!(asdus[1].payload_bytes(), &[100, 0, 0, 0]);
    assert_eq!(asdus[50].type_id(), 36);
    assert_eq!(asdus[51].cot().cause, Cause(Cause::ACTIVATION_TERMINATION));
    assert_eq!(
        steps.last(),
        Some(&Step::Report(Event::AsduSent { cot: 20, type_id: 100, ioa: 0, value: None }))
    );
}

#[test]
fn an_interrogation_without_an_object_is_general() {
    let station = Outstation::new(CA);
    let ask = activation(&C_IC_NA_1 { objects: vec![] }, Vsq::single(0));
    assert_eq!(sent(&react(&station, &ask)).len(), 52);
}

#[test]
fn group_interrogation_sends_the_points_of_one_kind() {
    let station = Outstation::new(CA);
    for group in 1u8..=10 {
        let ask = activation(&C_IC_NA_1 { objects: vec![(Ioa(0), Qoi::group(group))] }, Vsq::single(1));
        let asdus = sent(&react(&station, &ask));
        assert_eq!(asdus.len(), 7);
        assert_eq!(asdus[0].payload_bytes(), &[0, 0, 0, 20 + group]);
        for a in &asdus[1..6] {
            assert_eq!(a.cot().cause, Cause(20 + group));
        }
        assert_eq!(asdus[6].cot().cause, Cause(Cause::ACTIVATION_TERMINATION));
    }
    // A group without points, and a qualifier below the groups.
    for (qoi, echoed) in [(36u8, 36u8), (255, 255), (3, 20)] {
        let ask = activation(&C_IC_NA_1 { objects: vec![(Ioa(0), Qoi(qoi))] }, Vsq::single(1));
        let asdus = sent(&react(&station, &ask));
        assert_eq!(asdus.len(), 2);
        assert_eq!(asdus[0].payload_bytes(), &[0, 0, 0, echoed]);
    }
}

#[test]
fn system_commands_come_back() {
    let station = Outstation::new(CA);
    let at = Ioa(0x010203);
    let ci = C_CI_NA_1 { ioa: at, qcc: Qcc { group: 5, freeze: 1 } };
    let cs = C_CS_NA_1 { ioa: at, time: tag() };
    let rp = C_RP_NA_1 { ioa: at, qrp: Qrp(1) };
    let rd = C_RD_NA_1 { ioa: at };
    for (bytes, cause) in [
        (activation(&ci, Vsq::single(1)), Cause::ACTIVATION_CON),
        (activation(&cs, Vsq::single(1)), Cause::ACTIVATION_CON),
        (activation(&rp, Vsq::single(1)), Cause::ACTIVATION_CON),
        (activation(&rd, Vsq::single(1)), Cause::REQUEST),
    ] {
        let asked = parse(&bytes);
        let steps = react(&station, &bytes);
        assert_eq!(steps.len(), 2);
        assert_eq!(steps[0], received_report(6, asked.type_id(), 0x010203));
        let answer = &sent(&steps)[0];
        assert_eq!(answer.type_id(), asked.type_id());
        assert_eq!(answer.cot(), Cot::with(Cause(cause)));
        assert_eq!(answer.payload_bytes(), asked.payload_bytes());
    }
}

#[test]
fn commands_are_confirmed_and_terminated() {
    let station = Outstation::new(CA);
    let sco = Sco { on: true, qualifier: 0, select: false };
    let bytes = activation(&C_SC_NA_1 { objects: vec![(Ioa(2100), sco)] }, Vsq::single(1));
    let steps = react(&station, &bytes);
    assert_eq!(steps.len(), 5);
    assert_eq!(steps[0], received_report(6, 45, 2100));
    assert_eq!(steps[2], received_report(6, 45, 0));
    assert_eq!(steps[3], Step::Pause(50));
    let asdus = sent(&steps);
    assert_eq!(asdus[0].cot(), Cot::with(Cause(Cause::ACTIVATION_CON)));
    assert_eq!(asdus[1].cot(), Cot::with(Cause(Cause::ACTIVATION_TERMINATION)));
    for a in &asdus {
        assert_eq!(a.payload_bytes(), parse(&bytes).payload_bytes());
    }

    let timed = activation(&C_SC_TA_1 { objects: vec![(Ioa(5), (sco, tag()))] }, Vsq::single(1));
    assert_eq!(sent(&react(&station, &timed)).len(), 2);
}

#[test]
fn a_command_sequence_is_answered_with_single_objects() {
    let station = Outstation::new(CA);
    let dco = Dco { state: DoublePoint::Off, qualifier: 0, select: false };
    let bytes = activation(
        &C_DC_NA_1 { objects: vec![(Ioa(9), dco), (Ioa(10), dco)] },
        Vsq::sequence(2),
    );
    let asdus = sent(&react(&station, &bytes));
    assert_eq!(asdus[0].vsq(), Vsq::single(2));
    assert_eq!(asdus[0].payload_bytes(), &[9, 0, 0, 1, 10, 0, 0, 1]);
}

#[test]
fn what_cannot_be_decoded_is_not_answered() {
    let station = Outstation::new(CA);
    assert_eq!(react(&station, &[45, 1, 6, 0, 1]), []);
    assert_eq!(react(&station, &[45, 1, 6, 0, 1, 0, 7, 0, 0]), [received_report(6, 45, 7)]);
    assert_eq!(react(&station, &[100, 1, 6, 0, 1, 0]), [received_report(6, 100, 0)]);
    assert_eq!(react(&station, &[1, 0, 3, 0, 1, 0]), [received_report(3, 1, 0)]);
}

#[test]
fn control_plane_of_the_outstation() {
    let mut station = Outstation::new(CA);
    assert_eq!(station.handle_list(None).len(), 50);
    assert_eq!(station.handle_list(Some(13)).len(), 5);
    assert_eq!(station.handle_list(Some(77)).len(), 50);
    assert_eq!(station.scheduled().len(), 50);
    assert_eq!(station.scheduled()[1], (101, 5000, 1000));

    let bytes = station
        .handle_set(500, PointValue::Float(123.5f32.to_bits()), None, tag())
        .unwrap()
        .unwrap();
    assert_eq!(parse(&bytes).cot().cause, Cause(Cause::SPONTANEOUS));
    assert_eq!(station.handle_get(500).unwrap().value, PointValue::Float(123.5f32.to_bits()));
    assert_eq!(station.handle_set(500, PointValue::Single(true), None, tag()), Ok(None));
    assert_eq!(
        station.handle_set(9999, PointValue::Single(true), None, tag()),
        Err(NotFound(9999))
    );
    assert!(station.handle_get(9999).is_none());

    assert!(station.handle_sim_set(100, SimSchedule::Hold));
    assert_eq!(station.handle_sim_get(100), Some(SimSchedule::Hold));
    assert!(!station.handle_sim_set(9999, SimSchedule::Hold));
    assert_eq!(station.handle_sim_get(9999), None);
    assert_eq!(station.scheduled().len(), 49);
}

#[test]
fn simulator_ticks() {
    let mut station = Outstation::new(CA);
    assert_eq!(station.sim_advance(9999, 1), None);
    assert_eq!(
        station.sim_advance(200, 1),
        Some(Some(Advance::Value(PointValue::Double(DoublePointWire::On))))
    );
    let on = Some(PointValue::Double(DoublePointWire::On));
    let ticked = station.sim_apply(200, on, true, tag()).unwrap();
    assert_eq!(parse(&ticked.bytes.unwrap()).payload_bytes(), &[200, 0, 0, 2]);
    assert_eq!(ticked.report, Event::SimTick { ioa: 200, kind: PointKind::DpNa });
    let quiet = station.sim_apply(200, None, false, tag()).unwrap();
    assert!(quiet.bytes.is_none());
    assert_eq!(station.handle_get(200).unwrap().value, on.unwrap());
    assert!(station.sim_apply(9999, None, true, tag()).is_none());
}

#[test]
fn simulated_points_can_always_be_sent() {
    let mut station = Outstation::new(CA);
    for elapsed in 1..=6u64 {
        for (ioa, _, _) in station.scheduled() {
            let next = match station.sim_advance(ioa, elapsed).unwrap().unwrap() {
                Advance::Value(v) => v,
                Advance::Walk { normalized, .. } => settle(normalized, 0x3F00_0000),
                Advance::Wave { normalized, .. } => settle(normalized, 0xBF00_0000),
            };
            let ticked = station.sim_apply(ioa, Some(next), true, tag()).unwrap();
            assert!(ticked.bytes.is_some());
        }
    }
    assert_eq!(station.handle_get(400).unwrap().value, PointValue::Scaled(6));
}

// ---- master ----------------------------------------------------------------

fn single_point(ioa: u32, on: bool, cause: u8) -> Asdu {
    Asdu::from_payload(
        Cot::with(Cause(cause)),
        CommonAddress(CA),
        Vsq::single(1),
        &M_SP_NA_1 { objects: vec![(Ioa(ioa), Siq { on, quality: Quality::default() })] },
        AsduAddressing::iec104(),
    )
}

#[test]
fn monitored_points_are_observed() {
    let quality = Quality { substituted: true, ..Quality::default() };
    let asdu = Asdu::from_payload(
        Cot::with(Cause(Cause::SPONTANEOUS)),
        CommonAddress(CA),
        Vsq::single(1),
        &M_SP_TB_1 { objects: vec![(Ioa(4), (Siq { on: true, quality }, tag()))] },
        AsduAddressing::iec104(),
    );
    assert_eq!(
        observe(&asdu),
        [Observation {
            kind: PointKind::SpTb,
            ioa: 4,
            value: PointValue::Single(true),
            quality: QualityWire { substituted: true, ..QualityWire::default() },
            timestamp: Some(tag()),
        }]
    );
    let ic = Asdu::new(100, Vsq::single(1), Cot::default(), CommonAddress(1), vec![0, 0, 0, 20]);
    assert_eq!(observe(&ic), []);
    let cut = Asdu::new(1, Vsq::single(1), Cot::default(), CommonAddress(1), vec![0, 0, 0]);
    assert_eq!(observe(&cut), []);
}

#[test]
fn observations_are_cached_told_and_collected() {
    let mut m = Master::new(CA);
    let asked = m.begin_interrogation(None, None);
    assert_eq!(asked.key, (CA, 20));
    assert_eq!(asked.bytes, [0x64, 0x01, 0x06, 0x00, 0x01, 0x00, 0x00, 0x00, 0x00, 0x14]);
    assert!(asked.displaced.is_none());

    let out = m.process_asdu(&single_point(7, true, 20), at(10));
    assert_eq!(
        out.events,
        [Event::AsduReceived { cot: 20, type_id: 1, ioa: 7, value: Some(PointValue::Single(true)) }]
    );
    assert!(out.ended.is_empty());
    assert_eq!(out.confirmed, None);
    assert_eq!(m.cache().list_all().len(), 1);

    let points = m.drain_interrogation(asked.key);
    assert_eq!(points.len(), 1);
    assert_eq!(m.drain_interrogation(asked.key).len(), 0);

    let term = Asdu::new(
        100,
        Vsq::single(1),
        Cot::with(Cause(Cause::ACTIVATION_TERMINATION)),
        CommonAddress(CA),
        vec![0, 0, 0, 20],
    );
    let out = m.process_asdu(&term, at(11));
    assert_eq!(out.ended, [(CA, 20)]);
    assert!(out.events.is_empty());
    // It ends only once.
    assert!(m.process_asdu(&term, at(12)).ended.is_empty());
    assert!(m.finish_interrogation(asked.key).is_empty());
    assert!(m.finish_interrogation(asked.key).is_empty());
}

#[test]
fn collectors_are_kept_apart_by_common_address() {
    let mut m = Master::new(CA);
    let mine = m.begin_interrogation(Some(3), None).key;
    let other = m.begin_interrogation(Some(3), Some(77)).key;
    assert_eq!((mine, other), ((CA, 23), (77, 23)));
    m.process_asdu(&single_point(7, true, 23), at(0));
    assert_eq!(m.drain_interrogation(other).len(), 0);
    assert_eq!(m.drain_interrogation(mine).len(), 1);
}

#[test]
fn a_collector_is_displaced_by_a_second_one() {
    let mut m = Master::new(CA);
    let key = m.begin_interrogation(None, None).key;
    m.process_asdu(&single_point(7, true, 20), at(0));
    let second = m.begin_interrogation(None, None);
    assert_eq!(second.displaced.unwrap().len(), 1);
    assert_eq!(m.finish_interrogation(key).len(), 0);
}

#[test]
fn a_collector_drops_what_it_cannot_buffer() {
    let mut m = Master::new(CA);
    let key = m.begin_interrogation(None, None).key;
    for i in 0..300u32 {
        m.process_asdu(&single_point(i, true, 20), at(0));
    }
    let points = m.finish_interrogation(key);
    assert_eq!(points.len(), COLLECTOR_CAPACITY);
    assert_eq!(points[255].1, 255);
    assert_eq!(m.cache().list_all().len(), 300);
}

#[test]
fn deduplication_keeps_the_last() {
    let q = QualityWire::default();
    let points = vec![
        (PointKind::SpNa, 9, PointValue::Single(false), q),
        (PointKind::MeNb, 4, PointValue::Scaled(1), q),
        (PointKind::SpNa, 9, PointValue::Single(true), q),
        (PointKind::SpNa, 4, PointValue::Single(true), q),
    ];
    assert_eq!(
        deduplicate(&points),
        [
            (PointKind::SpNa, 4, PointValue::Single(true), q),
            (PointKind::MeNb, 4, PointValue::Scaled(1), q),
            (PointKind::SpNa, 9, PointValue::Single(true), q),
        ]
    );
    assert!(deduplicate(&Vec::new()).is_empty());
    assert_eq!(interrogation_timeout_ms(None), 5000);
    assert_eq!(interrogation_timeout_ms(Some(7)), 7);
}

#[test]
fn command_octets() {
    let mut m = Master::new(0x0201);
    assert_eq!(m.command_single(100, true, None), [45, 1, 6, 0, 1, 2, 100, 0, 0, 0x01]);
    assert_eq!(m.command_double(100, true, Some(5)), [46, 1, 6, 0, 5, 0, 100, 0, 0, 0x02]);
    assert_eq!(m.command_double(100, false, Some(5)), [46, 1, 6, 0, 5, 0, 100, 0, 0, 0x01]);
    assert_eq!(m.command_regulating(1, StepDir::Higher, None), [47, 1, 6, 0, 1, 2, 1, 0, 0, 0x02]);
    assert_eq!(m.command_regulating(1, StepDir::Lower, None), [47, 1, 6, 0, 1, 2, 1, 0, 0, 0x01]);
    assert_eq!(
        m.command_setpoint(2, Setpoint::Normalized((-1.0f32).to_bits()), None),
        [48, 1, 6, 0, 1, 2, 2, 0, 0, 0x00, 0x80, 0]
    );
    assert_eq!(
        m.command_setpoint(2, Setpoint::Scaled(-2), None),
        [49, 1, 6, 0, 1, 2, 2, 0, 0, 0xFE, 0xFF, 0]
    );
    assert_eq!(
        m.command_setpoint(2, Setpoint::Float(7.5f32.to_bits()), None),
        [50, 1, 6, 0, 1, 2, 2, 0, 0, 0x00, 0x00, 0xF0, 0x40, 0]
    );
    assert_eq!(m.resolve_ca(None), 0x0201);
    assert_eq!(m.resolve_ca(Some(4)), 4);
}

#[test]
fn confirmations_find_their_command() {
    let mut m = Master::new(CA);
    m.command_single(2100, true, None);
    let con = |negative, type_id, ioa: u8| {
        let cot = Cot { negative, ..Cot::with(Cause(Cause::ACTIVATION_CON)) };
        Asdu::new(type_id, Vsq::single(1), cot, CommonAddress(CA), vec![ioa, 8, 0, 1])
    };
    // 2100 = 0x0834.
    assert_eq!(m.process_asdu(&con(false, 46, 0x34), at(0)).confirmed, None);
    assert_eq!(m.process_asdu(&con(false, 45, 0x35), at(0)).confirmed, None);
    assert_eq!(m.process_asdu(&con(true, 45, 0x34), at(0)).confirmed, Some((45, 2100, true)));
    assert_eq!(m.process_asdu(&con(true, 45, 0x34), at(0)).confirmed, None);

    m.command_single(2100, true, None);
    let short = Asdu::new(
        45,
        Vsq::single(1),
        Cot::with(Cause(Cause::ACTIVATION_CON)),
        CommonAddress(CA),
        vec![0x34, 8],
    );
    assert_eq!(m.process_asdu(&short, at(0)).confirmed, None);
    m.forget(45, 2100);
    assert_eq!(m.process_asdu(&con(false, 45, 0x34), at(0)).confirmed, None);

    assert_eq!(Confirmation::Received { negative: false }.failure(), None);
    assert_eq!(Confirmation::Received { negative: true }.failure(), Some("negative ACTIVATION_CON"));
    assert_eq!(Confirmation::Dropped.failure(), Some("command waiter dropped"));
    assert_eq!(Confirmation::TimedOut.failure(), Some("timeout waiting for ACTIVATION_CON"));
}

#[test]
fn reading_the_cache() {
    let mut m = Master::new(CA);
    assert!(m.read(7, None, at(0)).is_none());
    m.process_asdu(&single_point(7, true, 3), at(100));
    let r = m.read(7, None, at(350)).unwrap();
    assert_eq!((r.kind, r.value, r.age_ms), (PointKind::SpNa, PointValue::Single(true), 250));
    assert_eq!(r.timestamp, None);
    assert!(m.read(7, Some(30), at(350)).is_none());
}

// ---- both ------------------------------------------------------------------

fn deliver(m: &mut Master, steps: &[Step]) -> Vec<(u16, u8)> {
    let mut ended = Vec::new();
    for asdu in sent(steps) {
        ended.extend(m.process_asdu(&asdu, at(1)).ended);
    }
    ended
}

#[test]
fn interrogation_brings_all_fifty_points() {
    let station = Outstation::new(CA);
    let mut m = Master::new(CA);
    let asked = m.begin_interrogation(None, None);
    let ended = deliver(&mut m, &react(&station, &asked.bytes));
    assert_eq!(ended, [(CA, 20)]);
    let points = m.finish_interrogation(asked.key);
    assert_eq!(points.len(), 50);
    assert_eq!(deduplicate(&points), points);
    let rows = station.image.iter();
    for (row, point) in rows.iter().zip(&points) {
        assert_eq!((row.0, row.1.kind, row.1.value), (point.1, point.0, point.2));
    }
    assert_eq!(m.cache().list_all().len(), 50);
    let tagged = m.read(1100, None, at(5)).unwrap();
    assert_eq!(tagged.timestamp.as_deref(), Some("2024-12-25T15:42:33.500Z"));
}

#[test]
fn a_group_brings_its_five_points() {
    let station = Outstation::new(CA);
    let mut m = Master::new(CA);
    let asked = m.begin_interrogation(Some(8), None);
    let ended = deliver(&mut m, &react(&station, &asked.bytes));
    assert_eq!(ended, [(CA, 28)]);
    let points = m.finish_interrogation(asked.key);
    assert_eq!(points.len(), 5);
    assert!(points.iter().all(|p| p.0 == PointKind::MeTd));
}

#[test]
fn commands_are_confirmed_end_to_end() {
    let station = Outstation::new(CA);
    let mut m = Master::new(CA);
    let commands = [
        (45, 2100, m.command_single(2100, true, None)),
        (46, 2200, m.command_double(2200, false, None)),
        (47, 2300, m.command_regulating(2300, StepDir::Higher, None)),
        (48, 2400, m.command_setpoint(2400, Setpoint::Normalized(0), None)),
        (49, 2400, m.command_setpoint(2400, Setpoint::Scaled(3), None)),
        (50, 2500, m.command_setpoint(2500, Setpoint::Float(7.5f32.to_bits()), None)),
    ];
    for (type_id, ioa, bytes) in &commands {
        let asdus = sent(&react(&station, bytes));
        assert_eq!(
            m.process_asdu(&asdus[0], at(2)).confirmed,
            Some((*type_id, *ioa, false))
        );
        assert_eq!(m.process_asdu(&asdus[1], at(3)).confirmed, None);
    }
}

#[test]
fn a_spontaneous_value_reaches_the_cache() {
    let mut station = Outstation::new(CA);
    let mut m = Master::new(CA);
    let value = PointValue::Normalized(0.25f32.to_bits());
    let bytes = station.handle_set(1300, value, None, tag()).unwrap().unwrap();
    m.process_asdu(&parse(&bytes), at(4));
    let r = m.read(1300, None, at(4)).unwrap();
    assert_eq!((r.kind, r.value), (PointKind::MeTd, value));
}
