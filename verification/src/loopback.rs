//! What holds of an outstation and a master that talk to each other: what one
//! sends is what the other sees.

use vstd::prelude::*;
use crate::asdu::cot::{Cause, Cot};
use crate::asdu::element::Element;
use crate::asdu::envelope::{law_asdu_round_trip, law_typed_round_trip, AsduModel};
use crate::asdu::header::{law_ioa_round_trip, AsduAddressing, CommonAddress, Ioa, Vsq};
use crate::asdu::ie::{Cp56Time2a, Diq, DoublePoint, Nva, Qds, Siq, Sva, R32};
use crate::asdu::io_list::{addressed_wire, list_wire};
use crate::asdu::payload::AsduPayload;
use crate::asdu::types::{
    Dco, Qoi, Qos, Rco, Sco, C_DC_NA_1, C_IC_NA_1, C_RC_NA_1, C_SC_NA_1, C_SE_NA_1, C_SE_NB_1,
    C_SE_NC_1, M_DP_NA_1, M_DP_TB_1, M_ME_NA_1, M_ME_NB_1, M_ME_NC_1, M_ME_TD_1, M_ME_TE_1,
    M_ME_TF_1, M_SP_NA_1, M_SP_TB_1,
};
use crate::buf::u24_of;
use crate::cache::CachedPoint;
use crate::float_bits::{law_nearest_step_range, nearest_step, step_bits};
use crate::master::{
    activation, answered, capped, collected, confirmed_command, direction_of, fed, is_confirmation,
    is_termination, latest, lists, processed, remembered, setpoint_type, sorts_before, with_waiting,
    Collected, CollectorModel, MasterModel, Setpoint, COLLECTOR_CAPACITY,
};
use crate::observation::{observed, Observation};
use crate::outstation::{
    all_match, command_reply, general_reply, group_reply, interrogation_step, plain, point_steps,
    reaction, StepModel,
};
use crate::points::{
    dp_of, group_kind, law_default_table, law_default_table_size, of_kind, point_asdu, populated,
    quality_of, single_asdu, value_matches, PointEntry, ProcessImage,
};
use crate::time::Instant;
use crate::wire::{PointKind, PointValue, QualityWire, StepDir};

verus! {

// ---------------------------------------------------------------------------
// Points
// ---------------------------------------------------------------------------

/// What a master sees of a point: normalized values are rounded to multiples
/// of 2^-15, single and double points have no overflow flag, and only the
/// time-tagged kinds carry the time.
pub open spec fn delivered(ioa: u32, entry: PointEntry, ts: Cp56Time2a) -> Observation {
    Observation {
        kind: entry.kind,
        ioa,
        value: match entry.value {
            PointValue::Normalized(bits) => PointValue::Normalized(step_bits(nearest_step(bits))),
            other => other,
        },
        quality: QualityWire {
            overflow: entry.quality.overflow && !(entry.value is Single || entry.value is Double),
            ..entry.quality
        },
        timestamp: if entry.kind.timed() {
            Some(ts)
        } else {
            None
        },
    }
}

/// A point that an outstation sends is the point that a master sees.
pub proof fn law_point_observed(
    ioa: u32,
    entry: PointEntry,
    ts: Cp56Time2a,
    cot: Cot,
    ca: CommonAddress,
)
    requires
        ioa < 0x100_0000,
        value_matches(entry.kind, entry.value),
        ts.representable(),
        cot.cause.0 < 64,
    ensures
        ({
            let asdu = point_asdu(ioa, entry, ts, cot, ca)->0;
            let read = AsduModel::decoded(
                asdu.wire(AsduAddressing::iec104()),
                AsduAddressing::iec104(),
            );
            &&& point_asdu(ioa, entry, ts, cot, ca) is Some
            &&& read.result is Ok
            &&& read.result->Ok_0 == asdu
            &&& observed(asdu) == seq![delivered(ioa, entry, ts)]
        }),
{
    let addressing = AsduAddressing::iec104();
    let asdu = point_asdu(ioa, entry, ts, cot, ca)->0;
    let at = Ioa(ioa);
    let quality = quality_of(entry.quality);
    let qds = Qds { overflow: entry.quality.overflow, quality };
    if let PointValue::Normalized(bits) = entry.value {
        law_nearest_step_range(bits);
    }
    match (entry.kind, entry.value) {
        (PointKind::SpNa, PointValue::Single(on)) => law_typed_round_trip::<M_SP_NA_1>(
            asdu,
            seq![(at, Siq { on, quality })],
            addressing,
        ),
        (PointKind::DpNa, PointValue::Double(d)) => law_typed_round_trip::<M_DP_NA_1>(
            asdu,
            seq![(at, Diq { state: dp_of(d), quality })],
            addressing,
        ),
        (PointKind::MeNa, PointValue::Normalized(bits)) => law_typed_round_trip::<M_ME_NA_1>(
            asdu,
            seq![(at, (Nva(nearest_step(bits) as i16), qds))],
            addressing,
        ),
        (PointKind::MeNb, PointValue::Scaled(v)) => law_typed_round_trip::<M_ME_NB_1>(
            asdu,
            seq![(at, (Sva(v), qds))],
            addressing,
        ),
        (PointKind::MeNc, PointValue::Float(bits)) => law_typed_round_trip::<M_ME_NC_1>(
            asdu,
            seq![(at, (R32(bits), qds))],
            addressing,
        ),
        (PointKind::SpTb, PointValue::Single(on)) => law_typed_round_trip::<M_SP_TB_1>(
            asdu,
            seq![(at, (Siq { on, quality }, ts))],
            addressing,
        ),
        (PointKind::DpTb, PointValue::Double(d)) => law_typed_round_trip::<M_DP_TB_1>(
            asdu,
            seq![(at, (Diq { state: dp_of(d), quality }, ts))],
            addressing,
        ),
        (PointKind::MeTd, PointValue::Normalized(bits)) => law_typed_round_trip::<M_ME_TD_1>(
            asdu,
            seq![(at, (Nva(nearest_step(bits) as i16), qds, ts))],
            addressing,
        ),
        (PointKind::MeTe, PointValue::Scaled(v)) => law_typed_round_trip::<M_ME_TE_1>(
            asdu,
            seq![(at, (Sva(v), qds, ts))],
            addressing,
        ),
        (PointKind::MeTf, PointValue::Float(bits)) => law_typed_round_trip::<M_ME_TF_1>(
            asdu,
            seq![(at, (R32(bits), qds, ts))],
            addressing,
        ),
        _ => {},
    }
    assert(observed(asdu) =~= seq![delivered(ioa, entry, ts)]);
}

// ---------------------------------------------------------------------------
// Commands
// ---------------------------------------------------------------------------

/// A command that a master can issue.
pub enum Command {
    Single(bool),
    Double(bool),
    Regulating(StepDir),
    Setpoint(Setpoint),
}

/// The Type ID of a command.
pub open spec fn command_type(command: Command) -> u8 {
    match command {
        Command::Single(_) => 45,
        Command::Double(_) => 46,
        Command::Regulating(_) => 47,
        Command::Setpoint(value) => setpoint_type(value),
    }
}

/// The octets that a master sends for a command.
pub open spec fn command_octets(command: Command, ioa: u32, ca: u16) -> Seq<u8> {
    let qos = Qos { qualifier: 0, select: false };
    match command {
        Command::Single(on) => activation::<C_SC_NA_1>(
            seq![(Ioa(ioa), Sco { on, qualifier: 0, select: false })],
            ca,
        ),
        Command::Double(on) => activation::<C_DC_NA_1>(
            seq![
                (
                    Ioa(ioa),
                    Dco {
                        state: if on {
                            DoublePoint::On
                        } else {
                            DoublePoint::Off
                        },
                        qualifier: 0,
                        select: false,
                    },
                ),
            ],
            ca,
        ),
        Command::Regulating(step) => activation::<C_RC_NA_1>(
            seq![(Ioa(ioa), Rco { direction: direction_of(step), qualifier: 0, select: false })],
            ca,
        ),
        Command::Setpoint(Setpoint::Normalized(bits)) => activation::<C_SE_NA_1>(
            seq![(Ioa(ioa), (Nva(nearest_step(bits) as i16), qos))],
            ca,
        ),
        Command::Setpoint(Setpoint::Scaled(v)) => activation::<C_SE_NB_1>(
            seq![(Ioa(ioa), (Sva(v), qos))],
            ca,
        ),
        Command::Setpoint(Setpoint::Float(bits)) => activation::<C_SE_NC_1>(
            seq![(Ioa(ioa), (R32(bits), qos))],
            ca,
        ),
    }
}

/// Whether `steps` confirm and then terminate the command, so that a master
/// which waits for it takes the first as its positive confirmation and the
/// second as none.
pub open spec fn confirms(steps: Seq<StepModel>, type_id: u8, ioa: u32) -> bool {
    let addressing = AsduAddressing::iec104();
    &&& steps.len() == 5
    &&& steps[1] matches StepModel::Send(con)
    &&& steps[3] == StepModel::Pause(50)
    &&& steps[4] matches StepModel::Send(term)
    &&& AsduModel::decoded(con, addressing).result matches Ok(first)
    &&& AsduModel::decoded(term, addressing).result matches Ok(second)
    &&& is_confirmation(first)
    &&& first.payload.len() >= 3
    &&& confirmed_command(first) == (type_id, ioa)
    &&& !first.cot.negative
    &&& !is_confirmation(second)
    &&& second.cot.cause.0 == Cause::ACTIVATION_TERMINATION
}

/// The section of one addressed object begins with the address.
proof fn lemma_address_first<E: Element>(ioa: Ioa, e: E)
    requires
        ioa.0 < 0x100_0000,
    ensures
        ({
            let s = list_wire(
                seq![(ioa, e)],
                (Vsq { sequence: false, count: 1 }),
                AsduAddressing::iec104(),
            );
            s.len() >= 3 && u24_of(s) == ioa.0
        }),
{
    let size = AsduAddressing::iec104().ioa_size;
    law_ioa_round_trip(ioa, size, e.wire());
    let objects = seq![(ioa, e)];
    assert(objects.drop_last() =~= Seq::empty());
    assert(addressed_wire(objects.drop_last(), size) =~= Seq::empty());
    let whole = crate::asdu::header::ioa_wire(ioa, size) + e.wire();
    assert(addressed_wire(objects, size) =~= whole);
}

proof fn lemma_command_confirmed<P: AsduPayload>(content: P::V, ioa: u32, ca: u16)
    requires
        45 <= P::code() <= 50,
        ({
            let vsq = Vsq { sequence: false, count: 1 };
            let section = P::section(content, vsq, AsduAddressing::iec104());
            &&& P::section_fits(content, vsq, AsduAddressing::iec104())
            &&& section.len() >= 3
            &&& u24_of(section) == ioa
        }),
    ensures
        ({
            let addressing = AsduAddressing::iec104();
            let asdu = single_asdu::<P>(content, plain(Cause::ACTIVATION), CommonAddress(ca));
            &&& AsduModel::decoded(activation::<P>(content, ca), addressing).result
                == Ok::<AsduModel, crate::error::Error>(asdu)
            &&& command_reply::<P>(asdu, CommonAddress(ca)).len() == 4
            &&& forall|reply: Seq<StepModel>|
                reply.len() == 5 && #[trigger] reply.skip(1) == command_reply::<P>(
                    asdu,
                    CommonAddress(ca),
                ) ==> confirms(reply, P::code(), ioa)
        }),
{
    let addressing = AsduAddressing::iec104();
    let asdu = single_asdu::<P>(content, plain(Cause::ACTIVATION), CommonAddress(ca));
    law_typed_round_trip::<P>(asdu, content, addressing);
    let con = single_asdu::<P>(content, plain(Cause::ACTIVATION_CON), CommonAddress(ca));
    let term = single_asdu::<P>(content, plain(Cause::ACTIVATION_TERMINATION), CommonAddress(ca));
    law_asdu_round_trip(con, addressing);
    law_asdu_round_trip(term, addressing);
    assert forall|reply: Seq<StepModel>|
        reply.len() == 5 && #[trigger] reply.skip(1) == command_reply::<P>(
            asdu,
            CommonAddress(ca),
        ) implies confirms(reply, P::code(), ioa) by {
        let r = reply.skip(1);
        assert(reply[1] == r[0] && reply[3] == r[2] && reply[4] == r[3]);
    }
}

/// Every command that a master issues is confirmed by the outstation, and the
/// master that waits for it takes the confirmation as the answer to exactly
/// that command.
pub proof fn law_command_confirmed(
    command: Command,
    ioa: u32,
    ca: u16,
    rows: Seq<(u32, PointEntry)>,
    ts: Cp56Time2a,
    m: MasterModel,
    now: Instant,
)
    requires
        ioa < 0x100_0000,
    ensures
        ({
            let steps = reaction(command_octets(command, ioa, ca), rows, CommonAddress(ca), ts);
            let type_id = command_type(command);
            let waiting = with_waiting(m, type_id, ioa);
            let first = AsduModel::decoded(
                steps[1]->Send_0,
                AsduAddressing::iec104(),
            ).result->Ok_0;
            &&& confirms(steps, type_id, ioa)
            &&& answered(waiting, first) == Some((type_id, ioa, false))
            &&& processed(waiting, first, now) == (MasterModel {
                waiting: m.waiting.remove((type_id, ioa)),
                ..m
            })
        }),
{
    let steps = reaction(command_octets(command, ioa, ca), rows, CommonAddress(ca), ts);
    let at = Ioa(ioa);
    let qos = Qos { qualifier: 0, select: false };
    match command {
        Command::Single(on) => {
            let e = Sco { on, qualifier: 0, select: false };
            lemma_address_first(at, e);
            lemma_command_confirmed::<C_SC_NA_1>(seq![(at, e)], ioa, ca);
        },
        Command::Double(on) => {
            let e = Dco {
                state: if on {
                    DoublePoint::On
                } else {
                    DoublePoint::Off
                },
                qualifier: 0,
                select: false,
            };
            lemma_address_first(at, e);
            lemma_command_confirmed::<C_DC_NA_1>(seq![(at, e)], ioa, ca);
        },
        Command::Regulating(step) => {
            let e = Rco { direction: direction_of(step), qualifier: 0, select: false };
            lemma_address_first(at, e);
            lemma_command_confirmed::<C_RC_NA_1>(seq![(at, e)], ioa, ca);
        },
        Command::Setpoint(Setpoint::Normalized(bits)) => {
            let e = (Nva(nearest_step(bits) as i16), qos);
            lemma_address_first(at, e);
            lemma_command_confirmed::<C_SE_NA_1>(seq![(at, e)], ioa, ca);
        },
        Command::Setpoint(Setpoint::Scaled(v)) => {
            let e = (Sva(v), qos);
            lemma_address_first(at, e);
            lemma_command_confirmed::<C_SE_NB_1>(seq![(at, e)], ioa, ca);
        },
        Command::Setpoint(Setpoint::Float(bits)) => {
            let e = (R32(bits), qos);
            lemma_address_first(at, e);
            lemma_command_confirmed::<C_SE_NC_1>(seq![(at, e)], ioa, ca);
        },
    }
    let asdu = AsduModel::decoded(
        command_octets(command, ioa, ca),
        AsduAddressing::iec104(),
    ).result->Ok_0;
    assert(steps.skip(1) =~= crate::outstation::replies(asdu, rows, CommonAddress(ca), ts));
    let type_id = command_type(command);
    assert(with_waiting(m, type_id, ioa).waiting.remove((type_id, ioa)) =~= m.waiting.remove(
        (type_id, ioa),
    ));
}

// ---------------------------------------------------------------------------
// Interrogations
// ---------------------------------------------------------------------------

/// What a master makes of the messages among the steps of an outstation.
pub open spec fn received(m: MasterModel, steps: Seq<StepModel>, now: Instant) -> MasterModel
    decreases steps.len(),
{
    if steps.len() == 0 {
        m
    } else {
        let before = received(m, steps.drop_last(), now);
        match steps.last() {
            StepModel::Send(bytes) => match AsduModel::decoded(
                bytes,
                AsduAddressing::iec104(),
            ).result {
                Ok(asdu) => processed(before, asdu, now),
                Err(_) => before,
            },
            _ => before,
        }
    }
}

/// What a master sees of the points of an outstation.
pub open spec fn delivered_list(rows: Seq<(u32, PointEntry)>, ts: Cp56Time2a) -> Seq<Observation> {
    Seq::new(rows.len(), |i: int| delivered(rows[i].0, rows[i].1, ts))
}

/// Whether every IOA fits its three octets.
pub open spec fn addressable(rows: Seq<(u32, PointEntry)>) -> bool {
    forall|i: int| 0 <= i < rows.len() ==> (#[trigger] rows[i]).0 < 0x100_0000
}

/// Whether no collector holds more than it buffers.
pub open spec fn within_capacity(m: MasterModel) -> bool {
    forall|key: (u16, u8)| #[trigger]
        m.interrogations.contains_key(key) ==> m.interrogations[key].points.len()
            <= COLLECTOR_CAPACITY
}

proof fn lemma_received_concat(
    m: MasterModel,
    a: Seq<StepModel>,
    b: Seq<StepModel>,
    now: Instant,
)
    ensures
        received(m, a + b, now) == received(received(m, a, now), b, now),
    decreases b.len(),
{
    if b.len() == 0 {
        assert(a + b =~= a);
    } else {
        assert((a + b).drop_last() =~= a + b.drop_last());
        lemma_received_concat(m, a, b.drop_last(), now);
    }
}

proof fn lemma_fed_nothing(m: MasterModel, ca: u16)
    requires
        within_capacity(m),
    ensures
        fed(m.interrogations, ca, Seq::empty()) == m.interrogations,
{
    let after = fed(m.interrogations, ca, Seq::empty());
    assert forall|key: (u16, u8)| #[trigger] m.interrogations.contains_key(key) implies after[key]
        == m.interrogations[key] by {
        let points = m.interrogations[key].points;
        assert(points + collected(Seq::empty()) =~= points);
    }
    assert(after =~= m.interrogations);
}

proof fn lemma_fed_one_more(
    interrogations: Map<(u16, u8), CollectorModel>,
    ca: u16,
    list: Seq<Observation>,
    o: Observation,
)
    ensures
        fed(fed(interrogations, ca, list), ca, seq![o]) == fed(interrogations, ca, list.push(o)),
{
    let twice = fed(fed(interrogations, ca, list), ca, seq![o]);
    let once = fed(interrogations, ca, list.push(o));
    assert forall|key: (u16, u8)| #[trigger] interrogations.contains_key(key) implies twice[key]
        == once[key] by {
        let points = interrogations[key].points;
        assert(points + collected(list.push(o)) =~= points + collected(list) + collected(seq![o]));
        if key.0 == ca {
            assert(fed(interrogations, ca, list)[key].points == capped(points + collected(list)));
            assert(capped(capped(points + collected(list)) + collected(seq![o])) =~= capped(
                points + collected(list.push(o)),
            ));
        }
    }
    assert(twice =~= once);
}

/// What a master makes of the points that an outstation sends.
proof fn lemma_points_received(
    m: MasterModel,
    rows: Seq<(u32, PointEntry)>,
    ts: Cp56Time2a,
    cause: u8,
    ca: u16,
    now: Instant,
)
    requires
        within_capacity(m),
        all_match(rows),
        addressable(rows),
        ts.representable(),
        cause < 64,
        cause != Cause::ACTIVATION_TERMINATION,
    ensures
        received(m, point_steps(rows, ts, plain(cause), CommonAddress(ca)), now) == (MasterModel {
            cache: remembered(m.cache, delivered_list(rows, ts), now),
            interrogations: fed(m.interrogations, ca, delivered_list(rows, ts)),
            ..m
        }),
    decreases rows.len(),
{
    let steps = point_steps(rows, ts, plain(cause), CommonAddress(ca));
    let list = delivered_list(rows, ts);
    if rows.len() == 0 {
        assert(list =~= Seq::empty());
        lemma_fed_nothing(m, ca);
    } else {
        let front = rows.drop_last();
        let last = rows[rows.len() - 1];
        assert forall|i: int| 0 <= i < front.len() implies (#[trigger] front[i]) == rows[i] by {}
        assert(all_match(front)) by {
            assert forall|i: int| 0 <= i < front.len() implies value_matches(
                (#[trigger] front[i]).1.kind,
                front[i].1.value,
            ) by {
                assert(front[i] == rows[i]);
            }
        }
        lemma_points_received(m, front, ts, cause, ca, now);
        assert(value_matches(last.1.kind, last.1.value));
        law_point_observed(last.0, last.1, ts, plain(cause), CommonAddress(ca));
        let o = delivered(last.0, last.1, ts);
        let asdu = point_asdu(last.0, last.1, ts, plain(cause), CommonAddress(ca))->0;
        assert(steps.drop_last() =~= point_steps(front, ts, plain(cause), CommonAddress(ca)));
        assert(list =~= delivered_list(front, ts).push(o));
        assert(list.drop_last() =~= delivered_list(front, ts));
        lemma_fed_one_more(m.interrogations, ca, delivered_list(front, ts), o);
        let before = received(m, steps.drop_last(), now);
        assert(!is_termination(asdu) && !is_confirmation(asdu));
        reveal_with_fuel(remembered, 2);
        assert(seq![o].drop_last() =~= Seq::empty());
        assert(remembered(before.cache, seq![o], now) == remembered(m.cache, list, now));
    }
}

/// What a master makes of an interrogation command that comes back with
/// another cause.
proof fn lemma_interrogation_step(m: MasterModel, qoi: u8, cause: u8, ca: u16, now: Instant)
    requires
        within_capacity(m),
        cause == Cause::ACTIVATION_CON || cause == Cause::ACTIVATION_TERMINATION,
    ensures
        received(m, seq![interrogation_step(qoi, cause, CommonAddress(ca))], now) == (if cause
            == Cause::ACTIVATION_TERMINATION {
            MasterModel {
                interrogations: crate::master::terminated(m.interrogations, ca),
                ..m
            }
        } else {
            m
        }),
{
    let s = interrogation_step(qoi, cause, CommonAddress(ca));
    let asdu = single_asdu::<C_IC_NA_1>(seq![(Ioa(0), Qoi(qoi))], plain(cause), CommonAddress(ca));
    law_asdu_round_trip(asdu, AsduAddressing::iec104());
    reveal_with_fuel(received, 2);
    assert(seq![s].drop_last() =~= Seq::empty());
    if cause == Cause::ACTIVATION_CON {
        assert(observed(asdu) =~= Seq::empty());
        lemma_fed_nothing(m, ca);
    }
}

/// A confirmation, then points, then a termination.
proof fn lemma_answer_received(
    m: MasterModel,
    rows: Seq<(u32, PointEntry)>,
    ts: Cp56Time2a,
    qoi: u8,
    cause: u8,
    ca: u16,
    now: Instant,
)
    requires
        within_capacity(m),
        all_match(rows),
        addressable(rows),
        ts.representable(),
        cause < 64,
        cause != Cause::ACTIVATION_TERMINATION,
    ensures
        received(
            m,
            seq![interrogation_step(qoi, Cause::ACTIVATION_CON, CommonAddress(ca))] + point_steps(
                rows,
                ts,
                plain(cause),
                CommonAddress(ca),
            ) + seq![interrogation_step(qoi, Cause::ACTIVATION_TERMINATION, CommonAddress(ca))],
            now,
        ) == (MasterModel {
            cache: remembered(m.cache, delivered_list(rows, ts), now),
            interrogations: crate::master::terminated(
                fed(m.interrogations, ca, delivered_list(rows, ts)),
                ca,
            ),
            ..m
        }),
{
    let con = seq![interrogation_step(qoi, Cause::ACTIVATION_CON, CommonAddress(ca))];
    let points = point_steps(rows, ts, plain(cause), CommonAddress(ca));
    let term = seq![interrogation_step(qoi, Cause::ACTIVATION_TERMINATION, CommonAddress(ca))];
    lemma_received_concat(m, con + points, term, now);
    lemma_received_concat(m, con, points, now);
    lemma_interrogation_step(m, qoi, Cause::ACTIVATION_CON, ca, now);
    lemma_points_received(m, rows, ts, cause, ca, now);
    let mid = received(m, con + points, now);
    assert(within_capacity(mid)) by {
        assert forall|key: (u16, u8)| #[trigger]
            mid.interrogations.contains_key(key) implies mid.interrogations[key].points.len()
            <= COLLECTOR_CAPACITY by {
            assert(m.interrogations.contains_key(key));
        }
    }
    lemma_interrogation_step(mid, qoi, Cause::ACTIVATION_TERMINATION, ca, now);
}

/// A master that interrogates an outstation gets every point into its cache
/// and into the collector, in ascending order of IOA as far as the collector
/// has room, and the collector is then done.
pub proof fn law_general_interrogation_received(
    m: MasterModel,
    rows: Seq<(u32, PointEntry)>,
    ca: u16,
    ts: Cp56Time2a,
    now: Instant,
)
    requires
        within_capacity(m),
        all_match(rows),
        addressable(rows),
        ts.representable(),
        m.interrogations.contains_key((ca, Qoi::GENERAL)),
    ensures
        ({
            let after = received(m, general_reply(rows, CommonAddress(ca), ts), now);
            let list = delivered_list(rows, ts);
            &&& after.cache == remembered(m.cache, list, now)
            &&& after.interrogations.contains_key((ca, Qoi::GENERAL))
            &&& after.interrogations[(ca, Qoi::GENERAL)] == (CollectorModel {
                points: capped(m.interrogations[(ca, Qoi::GENERAL)].points + collected(list)),
                done: true,
            })
        }),
{
    let reply = general_reply(rows, CommonAddress(ca), ts);
    lemma_answer_received(m, rows, ts, Qoi::GENERAL, Cause::INTERROGATED_GENERAL, ca, now);
    let sent = seq![
        interrogation_step(Qoi::GENERAL, Cause::ACTIVATION_CON, CommonAddress(ca)),
    ] + point_steps(rows, ts, plain(Cause::INTERROGATED_GENERAL), CommonAddress(ca)) + seq![
        interrogation_step(Qoi::GENERAL, Cause::ACTIVATION_TERMINATION, CommonAddress(ca)),
    ];
    assert(reply.drop_last() =~= sent);
}

proof fn lemma_of_kind(rows: Seq<(u32, PointEntry)>, kind: PointKind)
    requires
        all_match(rows),
        addressable(rows),
    ensures
        all_match(of_kind(rows, kind)),
        addressable(of_kind(rows, kind)),
    decreases rows.len(),
{
    if rows.len() > 0 {
        let front = rows.drop_last();
        assert forall|i: int| 0 <= i < front.len() implies value_matches(
            (#[trigger] front[i]).1.kind,
            front[i].1.value,
        ) && front[i].0 < 0x100_0000 by {
            assert(front[i] == rows[i]);
        }
        lemma_of_kind(front, kind);
        let last = rows[rows.len() - 1];
        assert(value_matches(last.1.kind, last.1.value) && last.0 < 0x100_0000);
    }
}

/// The same of a group that a kind belongs to: the points of that kind.
pub proof fn law_group_interrogation_received(
    m: MasterModel,
    rows: Seq<(u32, PointEntry)>,
    group: u8,
    kind: PointKind,
    ca: u16,
    ts: Cp56Time2a,
    now: Instant,
)
    requires
        within_capacity(m),
        all_match(rows),
        addressable(rows),
        ts.representable(),
        group_kind(group) == Some(kind),
        m.interrogations.contains_key((ca, (Qoi::GENERAL + group) as u8)),
    ensures
        ({
            let key = (ca, (Qoi::GENERAL + group) as u8);
            let after = received(m, group_reply(rows, group, CommonAddress(ca), ts), now);
            let list = delivered_list(of_kind(rows, kind), ts);
            &&& after.cache == remembered(m.cache, list, now)
            &&& after.interrogations.contains_key(key)
            &&& after.interrogations[key] == (CollectorModel {
                points: capped(m.interrogations[key].points + collected(list)),
                done: true,
            })
        }),
{
    lemma_of_kind(rows, kind);
    lemma_answer_received(
        m,
        of_kind(rows, kind),
        ts,
        (Qoi::GENERAL + group) as u8,
        (Cause::INTERROGATED_GENERAL + group) as u8,
        ca,
        now,
    );
}

/// Of what was received, the cache holds the last observation for each kind
/// and IOA, and what it held before for all others.
pub proof fn law_cache_holds_latest(
    cache: Map<(PointKind, u32), CachedPoint>,
    list: Seq<Observation>,
    now: Instant,
    i: int,
)
    requires
        0 <= i < list.len(),
        forall|j: int|
            i < j < list.len() ==> !((#[trigger] list[j]).kind == list[i].kind && list[j].ioa
                == list[i].ioa),
    ensures
        remembered(cache, list, now).contains_key((list[i].kind, list[i].ioa)),
        remembered(cache, list, now)[(list[i].kind, list[i].ioa)] == (CachedPoint {
            value: list[i].value,
            quality: list[i].quality,
            timestamp: list[i].timestamp,
            received_at: now,
        }),
    decreases list.len(),
{
    if i < list.len() - 1 {
        let front = list.drop_last();
        assert(list[list.len() - 1] == list.last());
        assert forall|j: int| i < j < front.len() implies !((#[trigger] front[j]).kind
            == front[i].kind && front[j].ioa == front[i].ioa) by {
            assert(front[j] == list[j]);
        }
        law_cache_holds_latest(cache, front, now, i);
    }
}

/// What is not among the received observations stays as it was.
pub proof fn law_cache_keeps_others(
    cache: Map<(PointKind, u32), CachedPoint>,
    list: Seq<Observation>,
    now: Instant,
    key: (PointKind, u32),
)
    requires
        forall|j: int|
            0 <= j < list.len() ==> ((#[trigger] list[j]).kind, list[j].ioa) != key,
    ensures
        remembered(cache, list, now).contains_key(key) == cache.contains_key(key),
        remembered(cache, list, now)[key] == cache[key],
    decreases list.len(),
{
    if list.len() > 0 {
        let front = list.drop_last();
        assert(list[list.len() - 1] == list.last());
        assert forall|j: int| 0 <= j < front.len() implies ((#[trigger] front[j]).kind, front[j].ioa)
            != key by {
            assert(front[j] == list[j]);
        }
        law_cache_keeps_others(cache, front, now, key);
    }
}

// ---------------------------------------------------------------------------
// Deduplication
// ---------------------------------------------------------------------------

/// There is only one list of the entries of a map in order.
pub proof fn law_listing_unique(
    a: Seq<Collected>,
    b: Seq<Collected>,
    m: Map<(PointKind, u32), Collected>,
)
    requires
        lists(a, m),
        lists(b, m),
    ensures
        a == b,
{
    lemma_listing_prefix(a, b, m, a.len() as int);
    lemma_listing_prefix(b, a, m, b.len() as int);
    assert(a.take(a.len() as int) =~= a && b.take(b.len() as int) =~= b);
}

proof fn lemma_listing_prefix(
    a: Seq<Collected>,
    b: Seq<Collected>,
    m: Map<(PointKind, u32), Collected>,
    n: int,
)
    requires
        lists(a, m),
        lists(b, m),
        0 <= n <= a.len(),
    ensures
        n <= b.len(),
        a.take(n) == b.take(n),
    decreases n,
{
    if n > 0 {
        lemma_listing_prefix(a, b, m, n - 1);
        let p = a[n - 1];
        assert(m.contains_key((p.0, p.1)));
        let j = choose|j: int| 0 <= j < b.len() && (#[trigger] b[j]).0 == p.0 && b[j].1 == p.1;
        assert(m[(b[j].0, b[j].1)] == b[j]);
        assert(b[j] == p);
        if j < n - 1 {
            assert(a.take(n - 1)[j] == b.take(n - 1)[j]);
            assert(sorts_before(a[j], a[n - 1]));
        }
        if j > n - 1 {
            let q = b[n - 1];
            assert(sorts_before(q, p));
            assert(m.contains_key((q.0, q.1)));
            let i = choose|i: int| 0 <= i < a.len() && (#[trigger] a[i]).0 == q.0 && a[i].1 == q.1;
            assert(m[(a[i].0, a[i].1)] == a[i]);
            assert(a[i] == q);
            if i < n - 1 {
                assert(b.take(n - 1)[i] == a.take(n - 1)[i]);
                assert(sorts_before(b[i], b[n - 1]));
            }
            if i > n - 1 {
                assert(sorts_before(a[n - 1], a[i]));
            }
        }
        assert(a.take(n) =~= b.take(n));
    }
}

/// A list that is already in order, no kind and IOA twice, is its own result
/// of deduplication.
pub proof fn law_sorted_is_listing(points: Seq<Collected>)
    requires
        forall|i: int, j: int|
            0 <= i < j < points.len() ==> sorts_before(#[trigger] points[i], #[trigger] points[j]),
    ensures
        lists(points, latest(points)),
    decreases points.len(),
{
    if points.len() > 0 {
        let front = points.drop_last();
        let p = points[points.len() - 1];
        let m = latest(points);
        assert forall|i: int, j: int| 0 <= i < j < front.len() implies sorts_before(
            #[trigger] front[i],
            #[trigger] front[j],
        ) by {
            assert(front[i] == points[i] && front[j] == points[j]);
        }
        law_sorted_is_listing(front);
        assert forall|i: int| 0 <= i < points.len() implies {
            let q = #[trigger] points[i];
            m.contains_key((q.0, q.1)) && m[(q.0, q.1)] == q
        } by {
            if i < points.len() - 1 {
                assert(front[i] == points[i]);
                assert(sorts_before(points[i], p));
            }
        }
        assert forall|kind: PointKind, ioa: u32| #[trigger]
            m.contains_key((kind, ioa)) implies exists|i: int|
            0 <= i < points.len() && (#[trigger] points[i]).0 == kind && points[i].1 == ioa by {
            if (kind, ioa) == (p.0, p.1) {
                assert(points[points.len() - 1].0 == kind);
            } else {
                assert(latest(front).contains_key((kind, ioa)));
                let i = choose|i: int|
                    0 <= i < front.len() && (#[trigger] front[i]).0 == kind && front[i].1 == ioa;
                assert(points[i] == front[i]);
            }
        }
    }
}

// ---------------------------------------------------------------------------
// The default table
// ---------------------------------------------------------------------------

/// An image with the default table has fifty points, each of which can be sent.
pub proof fn law_default_image(image: &ProcessImage)
    requires
        image.wf(),
        image@ == populated(Map::empty()),
    ensures
        image.rows().len() == 50,
        all_match(image.rows()),
        addressable(image.rows()),
{
    law_default_table_size();
    image.law_size();
    image.law_rows();
    assert forall|i: int| 0 <= i < image.rows().len() implies value_matches(
        (#[trigger] image.rows()[i]).1.kind,
        image.rows()[i].1.value,
    ) && image.rows()[i].0 < 0x100_0000 by {
        let ioa = image.rows()[i].0;
        law_default_table(ioa);
        assert(image@.contains_key(ioa));
    }
}

/// A general interrogation of an outstation with the default table, by a
/// master whose collector is empty, brings all fifty points, in ascending
/// order of IOA, and nothing else; deduplication changes nothing about them.
pub proof fn law_default_interrogation(
    image: &ProcessImage,
    m: MasterModel,
    ca: u16,
    ts: Cp56Time2a,
    now: Instant,
)
    requires
        image.wf(),
        image@ == populated(Map::empty()),
        ts.representable(),
        within_capacity(m),
        m.interrogations.contains_key((ca, Qoi::GENERAL)),
        m.interrogations[(ca, Qoi::GENERAL)].points.len() == 0,
    ensures
        ({
            let after = received(m, general_reply(image.rows(), CommonAddress(ca), ts), now);
            let points = after.interrogations[(ca, Qoi::GENERAL)].points;
            &&& after.interrogations[(ca, Qoi::GENERAL)].done
            &&& points == collected(delivered_list(image.rows(), ts))
            &&& points.len() == 50
            &&& lists(points, latest(points))
        }),
{
    law_default_image(image);
    image.law_rows();
    law_general_interrogation_received(m, image.rows(), ca, ts, now);
    let list = delivered_list(image.rows(), ts);
    let points = collected(list);
    assert(m.interrogations[(ca, Qoi::GENERAL)].points + points =~= points);
    assert forall|i: int, j: int| 0 <= i < j < points.len() implies sorts_before(
        #[trigger] points[i],
        #[trigger] points[j],
    ) by {
        assert(image.rows()[i].0 < image.rows()[j].0);
    }
    law_sorted_is_listing(points);
}

} // verus!
