//! What an outstation does: answer interrogations and commands out of its
//! process image, and carry out the operations of its control plane.
//!
//! Nothing here sends, waits or reads a clock. An incoming ASDU is turned into
//! a list of [`Step`]s, and whoever drives the connection takes them in order.

use vstd::prelude::*;
use crate::asdu::cot::{Cause, Cot};
use crate::asdu::element::Element;
use crate::asdu::envelope::{Asdu, AsduModel};
use crate::asdu::header::{law_ioa_round_trip, AsduAddressing, CommonAddress, Ioa, Vsq};
use crate::asdu::ie::{Cp56Time2a, Nva, Sva, R32};
use crate::asdu::io_list::{law_list_decodes_iff_complete, law_list_len, list_wire, object_wire};
use crate::asdu::payload::AsduPayload;
use crate::asdu::types::{
    Dco, Qoi, Qos, Rco, Sco, C_CI_NA_1, C_CS_NA_1, C_DC_NA_1, C_IC_NA_1, C_RC_NA_1, C_RD_NA_1, C_RP_NA_1, C_SC_NA_1,
    C_SC_TA_1, C_SE_NA_1, C_SE_NB_1, C_SE_NC_1, C_SE_TA_1, C_SE_TB_1, C_SE_TC_1,
};
use crate::buf::{get_u24_le, u24_of};
use crate::points::{
    encode_asdu, encode_point, group_kind, kind_for_group, lemma_one_object, of_kind, point_asdu,
    populate_default, populated, revalued, single_asdu, value_matches, PointEntry, ProcessImage,
};
use crate::sim::{
    advance, advanced, interval_of, schedule_interval_ms, schedule_phase_ms, steps, Advance,
};
use crate::wire::{Event, PointKind, PointValue, QualityWire, SimSchedule};

verus! {

/// One thing to do on behalf of an outstation.
#[derive(Debug, Clone, PartialEq, Eq)]
pub enum Step {
    /// Send the ASDU to the peer.
    Send(Vec<u8>),
    /// Let this many milliseconds go by.
    Pause(u64),
    /// Tell the subscribers.
    Report(Event),
}

/// What a [`Step`] holds.
pub enum StepModel {
    Send(Seq<u8>),
    Pause(u64),
    Report(Event),
}

impl View for Step {
    type V = StepModel;

    open spec fn view(&self) -> StepModel {
        match self {
            Step::Send(bytes) => StepModel::Send(bytes@),
            Step::Pause(ms) => StepModel::Pause(*ms),
            Step::Report(e) => StepModel::Report(*e),
        }
    }
}

/// What a list of steps holds.
pub open spec fn steps_of(list: Seq<Step>) -> Seq<StepModel> {
    Seq::new(list.len(), |i: int| list[i]@)
}

proof fn lemma_steps_push(list: Seq<Step>, s: Step)
    ensures
        steps_of(list.push(s)) == steps_of(list).push(s@),
{
    assert(steps_of(list.push(s)) =~= steps_of(list).push(s@));
}

/// A positive, non-test cause of transmission without originator.
pub open spec fn plain(cause: u8) -> Cot {
    Cot { cause: Cause(cause), negative: false, test: false, originator: 0 }
}

// ---------------------------------------------------------------------------
// Interrogation
// ---------------------------------------------------------------------------

/// Sending every point that can be encoded, in order.
pub open spec fn point_steps(
    rows: Seq<(u32, PointEntry)>,
    ts: Cp56Time2a,
    cot: Cot,
    ca: CommonAddress,
) -> Seq<StepModel>
    decreases rows.len(),
{
    if rows.len() == 0 {
        Seq::empty()
    } else {
        let front = point_steps(rows.drop_last(), ts, cot, ca);
        match point_asdu(rows.last().0, rows.last().1, ts, cot, ca) {
            Some(asdu) => front.push(StepModel::Send(asdu.wire(AsduAddressing::iec104()))),
            None => front,
        }
    }
}

/// Sending an interrogation command back with another cause.
pub open spec fn interrogation_step(qoi: u8, cause: u8, ca: CommonAddress) -> StepModel {
    StepModel::Send(
        single_asdu::<C_IC_NA_1>(seq![(Ioa(0), Qoi(qoi))], plain(cause), ca).wire(
            AsduAddressing::iec104(),
        ),
    )
}

/// The answer to a general interrogation: confirmation, all points, and
/// termination.
pub open spec fn general_reply(
    rows: Seq<(u32, PointEntry)>,
    ca: CommonAddress,
    ts: Cp56Time2a,
) -> Seq<StepModel> {
    seq![interrogation_step(Qoi::GENERAL, Cause::ACTIVATION_CON, ca)] + point_steps(
        rows,
        ts,
        plain(Cause::INTERROGATED_GENERAL),
        ca,
    ) + seq![
        interrogation_step(Qoi::GENERAL, Cause::ACTIVATION_TERMINATION, ca),
        StepModel::Report(
            Event::AsduSent {
                cot: Cause::INTERROGATED_GENERAL,
                type_id: C_IC_NA_1::code(),
                ioa: 0,
                value: None,
            },
        ),
    ]
}

/// The answer to an interrogation of a group: confirmation, the points of the
/// kind that belongs to the group, and termination.
pub open spec fn group_reply(
    rows: Seq<(u32, PointEntry)>,
    group: u8,
    ca: CommonAddress,
    ts: Cp56Time2a,
) -> Seq<StepModel> {
    let qoi = (Qoi::GENERAL + group) as u8;
    let points = match group_kind(group) {
        Some(kind) => point_steps(
            of_kind(rows, kind),
            ts,
            plain((Cause::INTERROGATED_GENERAL + group) as u8),
            ca,
        ),
        None => Seq::empty(),
    };
    seq![interrogation_step(qoi, Cause::ACTIVATION_CON, ca)] + points + seq![
        interrogation_step(qoi, Cause::ACTIVATION_TERMINATION, ca),
    ]
}

fn send_points(
    out: &mut Vec<Step>,
    rows: &Vec<(u32, PointEntry)>,
    ts: Cp56Time2a,
    cot: Cot,
    ca: CommonAddress,
)
    ensures
        steps_of(final(out)@) == steps_of(old(out)@) + point_steps(rows@, ts, cot, ca),
{
    let n: usize = rows.len();
    let mut i: usize = 0;
    assert(rows@.take(0) =~= Seq::empty());
    assert(steps_of(out@) =~= steps_of(old(out)@) + point_steps(rows@.take(0), ts, cot, ca));
    while i < n
        invariant
            i <= n,
            n == rows@.len(),
            steps_of(out@) == steps_of(old(out)@) + point_steps(rows@.take(i as int), ts, cot, ca),
        decreases n - i,
    {
        let ghost so_far = steps_of(out@);
        assert(rows@.take(i + 1).drop_last() =~= rows@.take(i as int));
        let (ioa, entry) = rows[i];
        if let Some(bytes) = encode_point(ioa, &entry, ts, cot, ca) {
            out.push(Step::Send(bytes));
            assert(steps_of(out@) =~= so_far.push(StepModel::Send(bytes@)));
        }
        assert(steps_of(out@) =~= steps_of(old(out)@) + point_steps(
            rows@.take(i + 1),
            ts,
            cot,
            ca,
        ));
        i += 1;
    }
    assert(rows@.take(n as int) =~= rows@);
}

fn interrogation(qoi: u8, cause: u8, ca: CommonAddress) -> (s: Step)
    ensures
        s@ == interrogation_step(qoi, cause, ca),
{
    let payload = C_IC_NA_1 { objects: vec![(Ioa(0), Qoi(qoi))] };
    assert(payload@ =~= seq![(Ioa(0), Qoi(qoi))]);
    proof { lemma_one_object(payload@); }
    Step::Send(encode_asdu(&payload, Cot::with(Cause(cause)), ca))
}

fn respond_interrogation_general(image: &ProcessImage, ca: CommonAddress, ts: Cp56Time2a) -> (out:
    Vec<Step>)
    requires
        image.wf(),
    ensures
        steps_of(out@) == general_reply(image.rows(), ca, ts),
{
    let mut out: Vec<Step> = Vec::new();
    let first = interrogation(Qoi::GENERAL, Cause::ACTIVATION_CON, ca);
    proof { lemma_steps_push(out@, first); }
    out.push(first);
    let rows: Vec<(u32, PointEntry)> = image.iter();
    send_points(&mut out, &rows, ts, Cot::with(Cause(Cause::INTERROGATED_GENERAL)), ca);
    let last = interrogation(Qoi::GENERAL, Cause::ACTIVATION_TERMINATION, ca);
    proof { lemma_steps_push(out@, last); }
    out.push(last);
    proof { C_IC_NA_1::law_type_id(); }
    let report = Step::Report(
        Event::AsduSent {
            cot: Cause::INTERROGATED_GENERAL,
            type_id: C_IC_NA_1::TYPE_ID,
            ioa: 0,
            value: None,
        },
    );
    proof { lemma_steps_push(out@, report); }
    out.push(report);
    assert(steps_of(out@) =~= general_reply(image.rows(), ca, ts));
    out
}

fn respond_interrogation_group(
    image: &ProcessImage,
    group: u8,
    ca: CommonAddress,
    ts: Cp56Time2a,
) -> (out: Vec<Step>)
    requires
        image.wf(),
        group <= 235,
    ensures
        steps_of(out@) == group_reply(image.rows(), group, ca, ts),
{
    let qoi = Qoi::group(group);
    let mut out: Vec<Step> = Vec::new();
    let first = interrogation(qoi.0, Cause::ACTIVATION_CON, ca);
    proof { lemma_steps_push(out@, first); }
    out.push(first);
    if let Some(kind) = kind_for_group(group) {
        let rows: Vec<(u32, PointEntry)> = image.iter_kind(kind);
        send_points(&mut out, &rows, ts, Cot::with(Cause::interrogated_group(group)), ca);
    }
    let last = interrogation(qoi.0, Cause::ACTIVATION_TERMINATION, ca);
    proof { lemma_steps_push(out@, last); }
    out.push(last);
    assert(steps_of(out@) =~= group_reply(image.rows(), group, ca, ts));
    out
}

// ---------------------------------------------------------------------------
// Commands
// ---------------------------------------------------------------------------

/// List-based command types (those with `objects: Vec<(Ioa, V)>`).
pub trait ListPayload: AsduPayload {
    spec fn count(content: Self::V) -> nat;

    fn object_count(&self) -> (n: usize)
        ensures
            n == Self::count(self@),
    ;

    /// A decoded payload has as many objects as the qualifier says.
    proof fn lemma_decoded_count(s: Seq<u8>, vsq: Vsq)
        ensures
            Self::section_decoded(s, vsq, AsduAddressing::iec104()).result is Ok ==> Self::count(
                Self::section_decoded(s, vsq, AsduAddressing::iec104()).result->Ok_0,
            ) == vsq.count,
    ;

    /// No object takes more than sixteen octets.
    proof fn lemma_section_len(content: Self::V, vsq: Vsq)
        requires
            !vsq.sequence,
        ensures
            Self::section(content, vsq, AsduAddressing::iec104()).len() <= 16 * Self::count(content),
    ;
}

proof fn lemma_list_len<E: Element>(objects: Seq<(Ioa, E)>, vsq: Vsq)
    requires
        !vsq.sequence,
        E::wire_len() <= 13,
    ensures
        list_wire(objects, vsq, AsduAddressing::iec104()).len() <= 16 * objects.len(),
{
    law_list_len(objects, vsq, AsduAddressing::iec104());
    let n = objects.len();
    let each = 3 + E::wire_len();
    assert(n * each <= 16 * n) by (nonlinear_arith)
        requires
            each <= 16,
            n >= 0,
    ;
}

impl ListPayload for C_SC_NA_1 {
    open spec fn count(content: Self::V) -> nat {
        content.len()
    }

    fn object_count(&self) -> (n: usize) {
        self.objects.len()
    }

    proof fn lemma_decoded_count(s: Seq<u8>, vsq: Vsq) {
        law_list_decodes_iff_complete::<Sco>(s, vsq, AsduAddressing::iec104());
    }

    proof fn lemma_section_len(content: Self::V, vsq: Vsq) {
        lemma_list_len(content, vsq);
    }
}

impl ListPayload for C_DC_NA_1 {
    open spec fn count(content: Self::V) -> nat {
        content.len()
    }

    fn object_count(&self) -> (n: usize) {
        self.objects.len()
    }

    proof fn lemma_decoded_count(s: Seq<u8>, vsq: Vsq) {
        law_list_decodes_iff_complete::<Dco>(s, vsq, AsduAddressing::iec104());
    }

    proof fn lemma_section_len(content: Self::V, vsq: Vsq) {
        lemma_list_len(content, vsq);
    }
}

impl ListPayload for C_RC_NA_1 {
    open spec fn count(content: Self::V) -> nat {
        content.len()
    }

    fn object_count(&self) -> (n: usize) {
        self.objects.len()
    }

    proof fn lemma_decoded_count(s: Seq<u8>, vsq: Vsq) {
        law_list_decodes_iff_complete::<Rco>(s, vsq, AsduAddressing::iec104());
    }

    proof fn lemma_section_len(content: Self::V, vsq: Vsq) {
        lemma_list_len(content, vsq);
    }
}

impl ListPayload for C_SE_NA_1 {
    open spec fn count(content: Self::V) -> nat {
        content.len()
    }

    fn object_count(&self) -> (n: usize) {
        self.objects.len()
    }

    proof fn lemma_decoded_count(s: Seq<u8>, vsq: Vsq) {
        law_list_decodes_iff_complete::<(Nva, Qos)>(s, vsq, AsduAddressing::iec104());
    }

    proof fn lemma_section_len(content: Self::V, vsq: Vsq) {
        lemma_list_len(content, vsq);
    }
}

impl ListPayload for C_SE_NB_1 {
    open spec fn count(content: Self::V) -> nat {
        content.len()
    }

    fn object_count(&self) -> (n: usize) {
        self.objects.len()
    }

    proof fn lemma_decoded_count(s: Seq<u8>, vsq: Vsq) {
        law_list_decodes_iff_complete::<(Sva, Qos)>(s, vsq, AsduAddressing::iec104());
    }

    proof fn lemma_section_len(content: Self::V, vsq: Vsq) {
        lemma_list_len(content, vsq);
    }
}

impl ListPayload for C_SE_NC_1 {
    open spec fn count(content: Self::V) -> nat {
        content.len()
    }

    fn object_count(&self) -> (n: usize) {
        self.objects.len()
    }

    proof fn lemma_decoded_count(s: Seq<u8>, vsq: Vsq) {
        law_list_decodes_iff_complete::<(R32, Qos)>(s, vsq, AsduAddressing::iec104());
    }

    proof fn lemma_section_len(content: Self::V, vsq: Vsq) {
        lemma_list_len(content, vsq);
    }
}

impl ListPayload for C_SC_TA_1 {
    open spec fn count(content: Self::V) -> nat {
        content.len()
    }

    fn object_count(&self) -> (n: usize) {
        self.objects.len()
    }

    proof fn lemma_decoded_count(s: Seq<u8>, vsq: Vsq) {
        law_list_decodes_iff_complete::<(Sco, Cp56Time2a)>(s, vsq, AsduAddressing::iec104());
    }

    proof fn lemma_section_len(content: Self::V, vsq: Vsq) {
        lemma_list_len(content, vsq);
    }
}

impl ListPayload for C_SE_TA_1 {
    open spec fn count(content: Self::V) -> nat {
        content.len()
    }

    fn object_count(&self) -> (n: usize) {
        self.objects.len()
    }

    proof fn lemma_decoded_count(s: Seq<u8>, vsq: Vsq) {
        law_list_decodes_iff_complete::<(Nva, Qos, Cp56Time2a)>(s, vsq, AsduAddressing::iec104());
    }

    proof fn lemma_section_len(content: Self::V, vsq: Vsq) {
        lemma_list_len(content, vsq);
    }
}

impl ListPayload for C_SE_TB_1 {
    open spec fn count(content: Self::V) -> nat {
        content.len()
    }

    fn object_count(&self) -> (n: usize) {
        self.objects.len()
    }

    proof fn lemma_decoded_count(s: Seq<u8>, vsq: Vsq) {
        law_list_decodes_iff_complete::<(Sva, Qos, Cp56Time2a)>(s, vsq, AsduAddressing::iec104());
    }

    proof fn lemma_section_len(content: Self::V, vsq: Vsq) {
        lemma_list_len(content, vsq);
    }
}

impl ListPayload for C_SE_TC_1 {
    open spec fn count(content: Self::V) -> nat {
        content.len()
    }

    fn object_count(&self) -> (n: usize) {
        self.objects.len()
    }

    proof fn lemma_decoded_count(s: Seq<u8>, vsq: Vsq) {
        law_list_decodes_iff_complete::<(R32, Qos, Cp56Time2a)>(s, vsq, AsduAddressing::iec104());
    }

    proof fn lemma_section_len(content: Self::V, vsq: Vsq) {
        lemma_list_len(content, vsq);
    }
}

/// Sending a command back with another cause, each object with its own address.
pub open spec fn echo_step<P: AsduPayload>(
    content: P::V,
    count: u8,
    cause: u8,
    ca: CommonAddress,
) -> StepModel {
    let vsq = Vsq { sequence: false, count };
    let asdu = AsduModel {
        type_id: P::code(),
        vsq,
        cot: plain(cause),
        ca,
        payload: P::section(content, vsq, AsduAddressing::iec104()),
    };
    StepModel::Send(asdu.wire(AsduAddressing::iec104()))
}

/// The answer to a command: confirmation, and 50 ms later termination. There
/// is none if the payload cannot be decoded.
pub open spec fn command_reply<P: AsduPayload>(asdu: AsduModel, ca: CommonAddress) -> Seq<StepModel> {
    match asdu.typed::<P>(AsduAddressing::iec104()) {
        Ok(content) => seq![
            echo_step::<P>(content, asdu.vsq.count, Cause::ACTIVATION_CON, ca),
            StepModel::Report(
                Event::AsduReceived {
                    cot: asdu.cot.cause.0,
                    type_id: P::code(),
                    ioa: 0,
                    value: None,
                },
            ),
            StepModel::Pause(50),
            echo_step::<P>(content, asdu.vsq.count, Cause::ACTIVATION_TERMINATION, ca),
        ],
        Err(_) => Seq::empty(),
    }
}

fn echo<P: ListPayload>(payload: &P, count: u8, cause: u8, ca: CommonAddress) -> (s: Step)
    requires
        P::count(payload@) == count,
    ensures
        s@ == echo_step::<P>(payload@, count, cause, ca),
{
    let vsq = Vsq::single(count);
    proof { P::lemma_section_len(payload@, vsq); }
    let asdu = Asdu::from_payload(
        Cot::with(Cause(cause)),
        ca,
        vsq,
        payload,
        AsduAddressing::iec104(),
    );
    Step::Send(asdu.encode_to_vec(AsduAddressing::iec104()))
}

/// Generic command-direction responder for list-based payloads:
/// ACTIVATION_CON, 50 ms, ACTIVATION_TERMINATION.
fn handle_command_list<P: ListPayload>(asdu: &Asdu, ca: CommonAddress) -> (out: Vec<Step>)
    ensures
        steps_of(out@) == command_reply::<P>(asdu@, ca),
{
    let mut out: Vec<Step> = Vec::new();
    match asdu.decode_payload::<P>(AsduAddressing::iec104()) {
        Ok(payload) => {
            proof {
                P::law_type_id();
                P::lemma_decoded_count(asdu@.payload, asdu@.vsq);
            }
            let count: u8 = payload.object_count() as u8;
            out.push(echo(&payload, count, Cause::ACTIVATION_CON, ca));
            out.push(
                Step::Report(
                    Event::AsduReceived {
                        cot: asdu.cot().cause.0,
                        type_id: P::TYPE_ID,
                        ioa: 0,
                        value: None,
                    },
                ),
            );
            out.push(Step::Pause(50));
            out.push(echo(&payload, count, Cause::ACTIVATION_TERMINATION, ca));
        },
        Err(_) => {},
    }
    assert(steps_of(out@) =~= command_reply::<P>(asdu@, ca));
    out
}

// ---------------------------------------------------------------------------
// System commands
// ---------------------------------------------------------------------------

/// The answer to a system command: the same object with another cause. There
/// is none if the payload cannot be decoded.
pub open spec fn system_reply<P: AsduPayload>(asdu: AsduModel, cause: u8, ca: CommonAddress) -> Seq<
    StepModel,
> {
    match asdu.typed::<P>(AsduAddressing::iec104()) {
        Ok(content) => seq![
            StepModel::Send(
                single_asdu::<P>(content, plain(cause), ca).wire(AsduAddressing::iec104()),
            ),
        ],
        Err(_) => Seq::empty(),
    }
}

fn confirm<P: AsduPayload>(payload: &P, cause: u8, ca: CommonAddress) -> (out: Vec<Step>)
    requires
        P::section(
            payload@,
            (Vsq { sequence: false, count: 1 }),
            AsduAddressing::iec104(),
        ).len() <= 255,
    ensures
        steps_of(out@) == seq![
            StepModel::Send(
                single_asdu::<P>(payload@, plain(cause), ca).wire(AsduAddressing::iec104()),
            ),
        ],
{
    let mut out: Vec<Step> = Vec::new();
    out.push(Step::Send(encode_asdu(payload, Cot::with(Cause(cause)), ca)));
    assert(steps_of(out@) =~= seq![out@[0]@]);
    out
}

proof fn lemma_object_len<E: Element>(ioa: Ioa, e: E)
    ensures
        object_wire(ioa, e, AsduAddressing::iec104().ioa_size).len() == 3 + E::wire_len(),
{
    e.law_wire_len();
    law_ioa_round_trip(ioa, AsduAddressing::iec104().ioa_size, Seq::empty());
}

// ---------------------------------------------------------------------------
// Incoming ASDUs
// ---------------------------------------------------------------------------

/// The address of the first object, 0 in an ASDU that is too short to hold one.
pub open spec fn first_ioa(bytes: Seq<u8>) -> u32 {
    if bytes.len() >= 9 {
        u24_of(bytes.skip(6)) as u32
    } else {
        0
    }
}

/// What an outstation answers to a decoded ASDU.
pub open spec fn replies(
    asdu: AsduModel,
    rows: Seq<(u32, PointEntry)>,
    ca: CommonAddress,
    ts: Cp56Time2a,
) -> Seq<StepModel> {
    if asdu.type_id == 100 {
        match asdu.typed::<C_IC_NA_1>(AsduAddressing::iec104()) {
            Ok(objects) => {
                let qoi = if objects.len() == 0 {
                    Qoi::GENERAL
                } else {
                    objects[0].1.0
                };
                if qoi == Qoi::GENERAL {
                    general_reply(rows, ca, ts)
                } else if qoi > Qoi::GENERAL {
                    group_reply(rows, (qoi - Qoi::GENERAL) as u8, ca, ts)
                } else {
                    group_reply(rows, 0, ca, ts)
                }
            },
            Err(_) => Seq::empty(),
        }
    } else if asdu.type_id == 101 {
        system_reply::<C_CI_NA_1>(asdu, Cause::ACTIVATION_CON, ca)
    } else if asdu.type_id == 102 {
        system_reply::<C_RD_NA_1>(asdu, Cause::REQUEST, ca)
    } else if asdu.type_id == 103 {
        system_reply::<C_CS_NA_1>(asdu, Cause::ACTIVATION_CON, ca)
    } else if asdu.type_id == 105 {
        system_reply::<C_RP_NA_1>(asdu, Cause::ACTIVATION_CON, ca)
    } else if asdu.type_id == 45 {
        command_reply::<C_SC_NA_1>(asdu, ca)
    } else if asdu.type_id == 46 {
        command_reply::<C_DC_NA_1>(asdu, ca)
    } else if asdu.type_id == 47 {
        command_reply::<C_RC_NA_1>(asdu, ca)
    } else if asdu.type_id == 48 {
        command_reply::<C_SE_NA_1>(asdu, ca)
    } else if asdu.type_id == 49 {
        command_reply::<C_SE_NB_1>(asdu, ca)
    } else if asdu.type_id == 50 {
        command_reply::<C_SE_NC_1>(asdu, ca)
    } else if asdu.type_id == 58 {
        command_reply::<C_SC_TA_1>(asdu, ca)
    } else if asdu.type_id == 61 {
        command_reply::<C_SE_TA_1>(asdu, ca)
    } else if asdu.type_id == 62 {
        command_reply::<C_SE_TB_1>(asdu, ca)
    } else if asdu.type_id == 63 {
        command_reply::<C_SE_TC_1>(asdu, ca)
    } else {
        Seq::empty()
    }
}

/// What an outstation does on an incoming ASDU: it reports it and answers. An
/// ASDU whose header is cut off is ignored.
pub open spec fn reaction(
    bytes: Seq<u8>,
    rows: Seq<(u32, PointEntry)>,
    ca: CommonAddress,
    ts: Cp56Time2a,
) -> Seq<StepModel> {
    match AsduModel::decoded(bytes, AsduAddressing::iec104()).result {
        Ok(asdu) => seq![
            StepModel::Report(
                Event::AsduReceived {
                    cot: asdu.cot.cause.0,
                    type_id: asdu.type_id,
                    ioa: first_ioa(bytes),
                    value: None,
                },
            ),
        ] + replies(asdu, rows, ca, ts),
        Err(_) => Seq::empty(),
    }
}

/// What an outstation answers to a decoded ASDU.
fn reply_to(asdu: &Asdu, image: &ProcessImage, ca: CommonAddress, ts: Cp56Time2a) -> (out: Vec<
    Step,
>)
    requires
        image.wf(),
    ensures
        steps_of(out@) == replies(asdu@, image.rows(), ca, ts),
{
    let addressing = AsduAddressing::iec104();
    let none: Vec<Step> = Vec::new();
    assert(steps_of(none@) =~= Seq::<StepModel>::empty());
    match asdu.type_id() {
        // Interrogation.
        100 => match asdu.decode_payload::<C_IC_NA_1>(addressing) {
            Ok(ic) => {
                let qoi: u8 = if ic.objects.len() == 0 {
                    Qoi::GENERAL
                } else {
                    ic.objects[0].1.0
                };
                if qoi == Qoi::GENERAL {
                    respond_interrogation_general(image, ca, ts)
                } else {
                    let group: u8 = if qoi > Qoi::GENERAL {
                        qoi - Qoi::GENERAL
                    } else {
                        0
                    };
                    respond_interrogation_group(image, group, ca, ts)
                }
            },
            Err(_) => none,
        },
        // Counter interrogation.
        101 => match asdu.decode_payload::<C_CI_NA_1>(addressing) {
            Ok(ci) => {
                proof { lemma_object_len(ci.ioa, ci.qcc); }
                confirm(&ci, Cause::ACTIVATION_CON, ca)
            },
            Err(_) => none,
        },
        // Read command.
        102 => match asdu.decode_payload::<C_RD_NA_1>(addressing) {
            Ok(rd) => {
                proof { law_ioa_round_trip(rd.ioa, addressing.ioa_size, Seq::empty()); }
                confirm(&rd, Cause::REQUEST, ca)
            },
            Err(_) => none,
        },
        // Clock synchronisation.
        103 => match asdu.decode_payload::<C_CS_NA_1>(addressing) {
            Ok(cs) => {
                proof { lemma_object_len(cs.ioa, cs.time); }
                confirm(&cs, Cause::ACTIVATION_CON, ca)
            },
            Err(_) => none,
        },
        // Reset process.
        105 => match asdu.decode_payload::<C_RP_NA_1>(addressing) {
            Ok(rp) => {
                proof { lemma_object_len(rp.ioa, rp.qrp); }
                confirm(&rp, Cause::ACTIVATION_CON, ca)
            },
            Err(_) => none,
        },
        45 => handle_command_list::<C_SC_NA_1>(asdu, ca),
        46 => handle_command_list::<C_DC_NA_1>(asdu, ca),
        47 => handle_command_list::<C_RC_NA_1>(asdu, ca),
        48 => handle_command_list::<C_SE_NA_1>(asdu, ca),
        49 => handle_command_list::<C_SE_NB_1>(asdu, ca),
        50 => handle_command_list::<C_SE_NC_1>(asdu, ca),
        58 => handle_command_list::<C_SC_TA_1>(asdu, ca),
        61 => handle_command_list::<C_SE_TA_1>(asdu, ca),
        62 => handle_command_list::<C_SE_TB_1>(asdu, ca),
        63 => handle_command_list::<C_SE_TC_1>(asdu, ca),
        _ => none,
    }
}

/// What an outstation does on an incoming ASDU. Points with a time tag are
/// stamped with `ts`.
pub fn handle_incoming_asdu(
    bytes: &[u8],
    image: &ProcessImage,
    ca: CommonAddress,
    ts: Cp56Time2a,
) -> (out: Vec<Step>)
    requires
        image.wf(),
    ensures
        steps_of(out@) == reaction(bytes@, image.rows(), ca, ts),
{
    let mut rest: &[u8] = bytes;
    let asdu = match Asdu::decode(&mut rest, AsduAddressing::iec104()) {
        Ok(a) => a,
        Err(_) => {
            let none: Vec<Step> = Vec::new();
            assert(steps_of(none@) =~= Seq::<StepModel>::empty());
            return none;
        },
    };
    // The first object's address follows the six octets of the header.
    let ioa: u32 = if bytes.len() >= 9 {
        let mut at: &[u8] = &bytes[6..bytes.len()];
        assert(at@ =~= bytes@.skip(6));
        get_u24_le(&mut at)
    } else {
        0
    };
    let mut out: Vec<Step> = Vec::new();
    out.push(
        Step::Report(
            Event::AsduReceived {
                cot: asdu.cot().cause.0,
                type_id: asdu.type_id(),
                ioa,
                value: None,
            },
        ),
    );
    let mut replied: Vec<Step> = reply_to(&asdu, image, ca, ts);
    let ghost answer = replied@;
    out.append(&mut replied);
    assert(steps_of(out@) =~= seq![out@[0]@] + steps_of(answer));
    out
}

// ---------------------------------------------------------------------------
// Control plane
// ---------------------------------------------------------------------------

/// What the outstation daemon keeps: its process image and its common address.
#[derive(Debug)]
pub struct Outstation {
    pub image: ProcessImage,
    pub coa: CommonAddress,
}

/// The octets of a point that is reported spontaneously.
pub open spec fn spontaneous(ioa: u32, entry: PointEntry, ts: Cp56Time2a, ca: CommonAddress) -> Option<
    Seq<u8>,
> {
    match point_asdu(ioa, entry, ts, plain(Cause::SPONTANEOUS), ca) {
        Some(asdu) => Some(asdu.wire(AsduAddressing::iec104())),
        None => None,
    }
}

/// The octets of an optional message.
pub open spec fn octets_of(bytes: Option<Vec<u8>>) -> Option<Seq<u8>> {
    match bytes {
        Some(b) => Some(b@),
        None => None,
    }
}

/// The points that tick on their own: IOA, interval and phase offset in
/// milliseconds.
pub open spec fn ticking(rows: Seq<(u32, PointEntry)>) -> Seq<(u32, u64, u64)>
    decreases rows.len(),
{
    if rows.len() == 0 {
        Seq::empty()
    } else {
        let (ioa, entry) = rows.last();
        let front = ticking(rows.drop_last());
        match interval_of(entry.schedule) {
            Some(interval_ms) => front.push(
                (
                    ioa,
                    interval_ms,
                    match entry.schedule {
                        SimSchedule::Toggle { phase_ms, .. } => phase_ms,
                        _ => 0,
                    },
                ),
            ),
            None => front,
        }
    }
}

/// What one simulator tick leaves to be done.
#[derive(Debug)]
pub struct Ticked {
    /// The ASDU for all peers, if one is to be sent.
    pub bytes: Option<Vec<u8>>,
    /// What the subscribers are told afterwards.
    pub report: Event,
}

impl Outstation {
    /// An outstation with the canonical points.
    pub fn new(coa: u16) -> (s: Self)
        ensures
            s.image.wf(),
            s.image@ == populated(Map::empty()),
            s.coa == CommonAddress(coa),
    {
        let mut image = ProcessImage::new();
        populate_default(&mut image);
        Outstation { image, coa: CommonAddress(coa) }
    }

    /// The point at the IOA.
    pub fn handle_get(&self, ioa: u32) -> (r: Option<PointEntry>)
        requires
            self.image.wf(),
        ensures
            match r {
                Some(e) => self.image@.contains_key(ioa) && e == self.image@[ioa],
                None => !self.image@.contains_key(ioa),
            },
    {
        match self.image.get(ioa) {
            Some(e) => Some(*e),
            None => None,
        }
    }

    /// Set a point's value. Returns the spontaneous ASDU for all peers (`None`
    /// if the value does not match the kind of the point), or an error if
    /// there is no such point.
    pub fn handle_set(
        &mut self,
        ioa: u32,
        value: PointValue,
        quality: Option<QualityWire>,
        ts: Cp56Time2a,
    ) -> (r: core::result::Result<Option<Vec<u8>>, NotFound>)
        requires
            old(self).image.wf(),
        ensures
            final(self).image.wf(),
            final(self).coa == old(self).coa,
            match r {
                Ok(bytes) => {
                    let entry = revalued(old(self).image@[ioa], value, quality);
                    &&& old(self).image@.contains_key(ioa)
                    &&& final(self).image@ == old(self).image@.insert(ioa, entry)
                    &&& octets_of(bytes) == spontaneous(ioa, entry, ts, old(self).coa)
                },
                Err(NotFound(at)) => {
                    &&& at == ioa
                    &&& !old(self).image@.contains_key(ioa)
                    &&& final(self).image@ == old(self).image@
                },
            },
    {
        if self.image.get(ioa).is_none() {
            return Err(NotFound(ioa));
        }
        self.image.set(ioa, value, quality);
        match self.image.get(ioa) {
            Some(entry) => Ok(
                encode_point(ioa, entry, ts, Cot::with(Cause(Cause::SPONTANEOUS)), self.coa),
            ),
            None => Ok(None),
        }
    }

    /// The points in ascending order of IOA; only those of a Type ID if one is
    /// given that belongs to a kind.
    pub fn handle_list(&self, type_id: Option<u8>) -> (r: Vec<(u32, PointEntry)>)
        requires
            self.image.wf(),
        ensures
            forall|kind: PointKind|
                type_id == Some(#[trigger] kind.code()) ==> r@ == of_kind(self.image.rows(), kind),
            (forall|kind: PointKind| type_id != Some(#[trigger] kind.code())) ==> r@
                == self.image.rows(),
    {
        match type_id {
            Some(t) => match PointKind::from_type_id(t) {
                Some(kind) => {
                    assert(kind.code() == t);
                    self.image.iter_kind(kind)
                },
                None => self.image.iter(),
            },
            None => self.image.iter(),
        }
    }

    /// A point's simulator schedule.
    pub fn handle_sim_get(&self, ioa: u32) -> (r: Option<SimSchedule>)
        requires
            self.image.wf(),
        ensures
            match r {
                Some(s) => self.image@.contains_key(ioa) && s == self.image@[ioa].schedule,
                None => !self.image@.contains_key(ioa),
            },
    {
        match self.image.get(ioa) {
            Some(e) => Some(e.schedule),
            None => None,
        }
    }

    /// Replace a point's simulator schedule. Returns whether there is such a
    /// point.
    pub fn handle_sim_set(&mut self, ioa: u32, schedule: SimSchedule) -> (known: bool)
        requires
            old(self).image.wf(),
        ensures
            final(self).image.wf(),
            final(self).coa == old(self).coa,
            known == old(self).image@.contains_key(ioa),
            final(self).image@ == (if known {
                old(self).image@.insert(ioa, PointEntry { schedule, ..old(self).image@[ioa] })
            } else {
                old(self).image@
            }),
    {
        match self.handle_get(ioa) {
            Some(e) => {
                self.image.insert(
                    ioa,
                    PointEntry { kind: e.kind, value: e.value, quality: e.quality, schedule },
                );
                true
            },
            None => false,
        }
    }

    /// The points that tick on their own.
    pub fn scheduled(&self) -> (r: Vec<(u32, u64, u64)>)
        requires
            self.image.wf(),
        ensures
            r@ == ticking(self.image.rows()),
    {
        let rows: Vec<(u32, PointEntry)> = self.image.iter();
        let n: usize = rows.len();
        let mut out: Vec<(u32, u64, u64)> = Vec::new();
        let mut i: usize = 0;
        while i < n
            invariant
                i <= n,
                n == rows@.len(),
                out@ == ticking(rows@.take(i as int)),
            decreases n - i,
        {
            assert(rows@.take(i + 1).drop_last() =~= rows@.take(i as int));
            let (ioa, entry) = rows[i];
            if let Some(interval_ms) = schedule_interval_ms(&entry.schedule) {
                out.push((ioa, interval_ms, schedule_phase_ms(&entry.schedule)));
            }
            i += 1;
        }
        assert(rows@.take(n as int) =~= rows@);
        out
    }

    /// How a point is to be advanced on the tick with number `elapsed`; `None`
    /// if there is no such point any more.
    pub fn sim_advance(&self, ioa: u32, elapsed: u64) -> (r: Option<Option<Advance>>)
        requires
            self.image.wf(),
            self.image@.contains_key(ioa) ==> steps(
                self.image@[ioa].schedule,
                Some(self.image@[ioa].value),
            ),
        ensures
            match r {
                Some(a) => {
                    let entry = self.image@[ioa];
                    &&& self.image@.contains_key(ioa)
                    &&& a == advanced(entry.schedule, Some(entry.value), elapsed)
                },
                None => !self.image@.contains_key(ioa),
            },
    {
        match self.image.get(ioa) {
            Some(entry) => Some(advance(&entry.schedule, Some(&entry.value), elapsed)),
            None => None,
        }
    }

    /// Store the value that a tick brought, and say what is to be sent and
    /// told. The ASDU is suppressed unless `emit`; the subscribers see every
    /// tick. `None` if there is no such point any more.
    pub fn sim_apply(&mut self, ioa: u32, value: Option<PointValue>, emit: bool, ts: Cp56Time2a) -> (r:
        Option<Ticked>)
        requires
            old(self).image.wf(),
        ensures
            final(self).image.wf(),
            final(self).coa == old(self).coa,
            match r {
                Some(t) => {
                    let was = old(self).image@[ioa];
                    let entry = match value {
                        Some(v) => revalued(was, v, None),
                        None => was,
                    };
                    &&& old(self).image@.contains_key(ioa)
                    &&& final(self).image@ == old(self).image@.insert(ioa, entry)
                    &&& octets_of(t.bytes) == (if emit {
                        spontaneous(ioa, entry, ts, old(self).coa)
                    } else {
                        None
                    })
                    &&& t.report == (Event::SimTick { ioa, kind: was.kind })
                },
                None => !old(self).image@.contains_key(ioa) && final(self).image@ == old(
                    self,
                ).image@,
            },
    {
        if self.image.get(ioa).is_none() {
            return None;
        }
        if let Some(v) = value {
            self.image.set(ioa, v, None);
        }
        match self.image.get(ioa) {
            Some(entry) => {
                assert(self.image@ =~= old(self).image@.insert(ioa, *entry));
                let bytes = if emit {
                    encode_point(ioa, entry, ts, Cot::with(Cause(Cause::SPONTANEOUS)), self.coa)
                } else {
                    None
                };
                Some(Ticked { bytes, report: Event::SimTick { ioa, kind: entry.kind } })
            },
            None => None,
        }
    }
}

/// There is no point at the IOA.
#[derive(Debug, Clone, Copy, PartialEq, Eq, Structural)]
pub struct NotFound(pub u32);

// ---------------------------------------------------------------------------
// Laws
// ---------------------------------------------------------------------------

/// Whether every point's value has the shape of its kind.
pub open spec fn all_match(rows: Seq<(u32, PointEntry)>) -> bool {
    forall|i: int|
        0 <= i < rows.len() ==> value_matches((#[trigger] rows[i]).1.kind, rows[i].1.value)
}

/// Where every value has the shape of its kind, an interrogation sends exactly
/// one ASDU for each point, in the order of the points.
pub proof fn law_every_point_sent(
    rows: Seq<(u32, PointEntry)>,
    ts: Cp56Time2a,
    cot: Cot,
    ca: CommonAddress,
)
    requires
        all_match(rows),
    ensures
        point_steps(rows, ts, cot, ca).len() == rows.len(),
        forall|i: int|
            0 <= i < rows.len() ==> (#[trigger] point_steps(rows, ts, cot, ca)[i])
                == StepModel::Send(
                point_asdu(rows[i].0, rows[i].1, ts, cot, ca)->0.wire(AsduAddressing::iec104()),
            ),
    decreases rows.len(),
{
    if rows.len() > 0 {
        assert forall|i: int| 0 <= i < rows.drop_last().len() implies value_matches(
            (#[trigger] rows.drop_last()[i]).1.kind,
            rows.drop_last()[i].1.value,
        ) by {
            assert(rows.drop_last()[i] == rows[i]);
        }
        law_every_point_sent(rows.drop_last(), ts, cot, ca);
        let last = rows[rows.len() - 1];
        assert(value_matches(last.1.kind, last.1.value));
    }
}

/// A general interrogation is answered with a confirmation, then the points,
/// then a termination, and is reported last; the rows of an image that holds
/// only fitting values are all sent.
pub proof fn law_general_interrogation(
    rows: Seq<(u32, PointEntry)>,
    ca: CommonAddress,
    ts: Cp56Time2a,
)
    requires
        all_match(rows),
    ensures
        ({
            let reply = general_reply(rows, ca, ts);
            let n = rows.len() as int;
            &&& reply.len() == n + 3
            &&& reply[0] == interrogation_step(Qoi::GENERAL, Cause::ACTIVATION_CON, ca)
            &&& reply.subrange(1, n + 1) == point_steps(
                rows,
                ts,
                plain(Cause::INTERROGATED_GENERAL),
                ca,
            )
            &&& reply[n + 1] == interrogation_step(
                Qoi::GENERAL,
                Cause::ACTIVATION_TERMINATION,
                ca,
            )
            &&& reply[n + 2] is Report
        }),
{
    law_every_point_sent(rows, ts, plain(Cause::INTERROGATED_GENERAL), ca);
    let reply = general_reply(rows, ca, ts);
    assert(reply.subrange(1, rows.len() as int + 1) =~= point_steps(
        rows,
        ts,
        plain(Cause::INTERROGATED_GENERAL),
        ca,
    ));
}

/// The groups part the points: a point of the default kinds is sent in answer
/// to the interrogation of exactly one group.
pub proof fn law_groups_part_the_kinds(kind: PointKind)
    ensures
        exists|group: u8| #[trigger] group_kind(group) == Some(kind),
        forall|a: u8, b: u8| #[trigger]
            group_kind(a) == Some(kind) && #[trigger] group_kind(b) == Some(kind) ==> a == b,
{
    match kind {
        PointKind::SpNa => assert(group_kind(1) == Some(kind)),
        PointKind::DpNa => assert(group_kind(2) == Some(kind)),
        PointKind::MeNa => assert(group_kind(3) == Some(kind)),
        PointKind::MeNb => assert(group_kind(4) == Some(kind)),
        PointKind::MeNc => assert(group_kind(5) == Some(kind)),
        PointKind::SpTb => assert(group_kind(6) == Some(kind)),
        PointKind::DpTb => assert(group_kind(7) == Some(kind)),
        PointKind::MeTd => assert(group_kind(8) == Some(kind)),
        PointKind::MeTe => assert(group_kind(9) == Some(kind)),
        PointKind::MeTf => assert(group_kind(10) == Some(kind)),
    }
}

/// Only interrogations, system commands and commands are answered; every other
/// ASDU is reported and nothing more.
pub proof fn law_answered_types(
    asdu: AsduModel,
    rows: Seq<(u32, PointEntry)>,
    ca: CommonAddress,
    ts: Cp56Time2a,
)
    requires
        !(45 <= asdu.type_id <= 50),
        asdu.type_id != 58,
        !(61 <= asdu.type_id <= 63),
        !(100 <= asdu.type_id <= 103),
        asdu.type_id != 105,
    ensures
        replies(asdu, rows, ca, ts) == Seq::<StepModel>::empty(),
{
}

/// The points that tick are those that are not held, each with its interval and
/// with the phase of a toggle, in the order of the points.
pub proof fn law_ticking(rows: Seq<(u32, PointEntry)>, ioa: u32, interval_ms: u64, phase_ms: u64)
    ensures
        ticking(rows).contains((ioa, interval_ms, phase_ms)) <==> exists|i: int|
            0 <= i < rows.len() && (#[trigger] rows[i]).0 == ioa && (match rows[i].1.schedule {
                SimSchedule::Hold => false,
                SimSchedule::Toggle { interval_ms: t, phase_ms: p } => t == interval_ms && p
                    == phase_ms,
                SimSchedule::Rotate { interval_ms: t } => t == interval_ms && phase_ms == 0,
                SimSchedule::RandomWalk { interval_ms: t, .. } => t == interval_ms && phase_ms == 0,
                SimSchedule::StepUp { interval_ms: t, .. } => t == interval_ms && phase_ms == 0,
                SimSchedule::Sine { interval_ms: t, .. } => t == interval_ms && phase_ms == 0,
            }),
    decreases rows.len(),
{
    let x = (ioa, interval_ms, phase_ms);
    if rows.len() > 0 {
        let front = rows.drop_last();
        law_ticking(front, ioa, interval_ms, phase_ms);
        let last = rows[rows.len() - 1];
        assert(rows.last() == last);
        let all = ticking(rows);
        let some = ticking(front);
        if some.contains(x) {
            let j = choose|j: int| 0 <= j < some.len() && some[j] == x;
            assert(all[j] == x);
            let i = choose|i: int|
                0 <= i < front.len() && (#[trigger] front[i]).0 == ioa && (match front[i].1.schedule {
                    SimSchedule::Hold => false,
                    SimSchedule::Toggle { interval_ms: t, phase_ms: p } => t == interval_ms && p
                        == phase_ms,
                    SimSchedule::Rotate { interval_ms: t } => t == interval_ms && phase_ms == 0,
                    SimSchedule::RandomWalk { interval_ms: t, .. } => t == interval_ms && phase_ms
                        == 0,
                    SimSchedule::StepUp { interval_ms: t, .. } => t == interval_ms && phase_ms == 0,
                    SimSchedule::Sine { interval_ms: t, .. } => t == interval_ms && phase_ms == 0,
                });
            assert(rows[i] == front[i]);
        }
        if all.contains(x) && !some.contains(x) {
            let j = choose|j: int| 0 <= j < all.len() && all[j] == x;
            assert(j == some.len()) by {
                if j < some.len() {
                    assert(some[j] == x);
                }
            }
        }
        if !(last.1.schedule is Hold) {
            assert(all[some.len() as int] == all.last());
        }
        assert forall|i: int| 0 <= i < front.len() implies (#[trigger] rows[i]) == front[i] by {}
    }
}

} // verus!
