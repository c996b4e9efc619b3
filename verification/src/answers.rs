//! What an outstation answers, as the station at the other end reads it, and
//! what a master reads from each kind of point.

use vstd::prelude::*;
use crate::asdu::cot::{Cause, Cot};
use crate::asdu::element::Element;
use crate::asdu::envelope::{law_typed_round_trip, AsduModel};
use crate::asdu::header::{ioa_fits, AsduAddressing, CommonAddress, Ioa, IoaSize, Vsq};
use crate::asdu::ie::{Cp56Time2a, Diq, DoublePoint, Nva, Qds, Quality, Siq, Sva, R32};
use crate::asdu::io_list::{list_decoded, list_fits, list_wire, nth_address};
use crate::asdu::payload::AsduPayload;
use crate::asdu::types::{
    DirectoryEntry, Dco, Qoi, Qos, Rco, Sco, C_CI_NA_1, C_CS_NA_1, C_DC_NA_1, C_IC_NA_1, C_RC_NA_1,
    C_RD_NA_1, C_RP_NA_1, C_SC_NA_1, C_SC_TA_1, C_SE_NA_1, C_SE_NB_1, C_SE_NC_1, C_SE_TA_1,
    C_SE_TB_1, C_SE_TC_1, F_AF_NA_1, F_DR_TA_1, F_FR_NA_1, F_LS_NA_1, F_SC_NA_1, F_SG_NA_1,
    F_SR_NA_1, M_DP_NA_1, M_DP_TB_1, M_EI_NA_1, M_ME_NA_1, M_ME_NB_1, M_ME_NC_1, M_ME_TD_1,
    M_ME_TE_1, M_ME_TF_1, M_SP_NA_1, M_SP_TB_1,
};
use crate::error::Error;
use crate::float_bits::{law_nearest_step_range, nearest_step, step_bits};
use crate::loopback::{addressable, delivered, law_point_observed};
use crate::master::activation;
use crate::observation::{observed, Observation};
use crate::outstation::{
    all_match, command_reply, general_reply, group_reply, law_every_point_sent, plain, point_steps,
    reaction, replies, spontaneous, StepModel,
};
use crate::points::{of_kind, point_asdu, value_matches, PointEntry};
use crate::wire::{DoublePointWire, Event, PointKind, PointValue, QualityWire};

verus! {

/// The Type IDs have their standard numbers.
pub proof fn law_type_numbers()
    ensures
        M_SP_NA_1::code() == 1 && M_DP_NA_1::code() == 3 && M_ME_NA_1::code() == 9,
        M_ME_NB_1::code() == 11 && M_ME_NC_1::code() == 13,
        M_SP_TB_1::code() == 30 && M_DP_TB_1::code() == 31 && M_ME_TD_1::code() == 34,
        M_ME_TE_1::code() == 35 && M_ME_TF_1::code() == 36,
        C_SC_NA_1::code() == 45 && C_DC_NA_1::code() == 46 && C_RC_NA_1::code() == 47,
        C_SE_NA_1::code() == 48 && C_SE_NB_1::code() == 49 && C_SE_NC_1::code() == 50,
        C_SC_TA_1::code() == 58 && C_SE_TA_1::code() == 61 && C_SE_TB_1::code() == 62,
        C_SE_TC_1::code() == 63 && M_EI_NA_1::code() == 70,
        C_IC_NA_1::code() == 100 && C_CI_NA_1::code() == 101 && C_RD_NA_1::code() == 102,
        C_CS_NA_1::code() == 103 && C_RP_NA_1::code() == 105,
        F_FR_NA_1::code() == 120 && F_SR_NA_1::code() == 121 && F_SC_NA_1::code() == 122,
        F_LS_NA_1::code() == 123 && F_AF_NA_1::code() == 124 && F_SG_NA_1::code() == 125,
        F_DR_TA_1::code() == 126,
{
}

// ---------------------------------------------------------------------------
// Commands
// ---------------------------------------------------------------------------

/// Whether `bytes` is read as a message of that type with exactly that content
/// and cause, positive, not a test, without originator, from that station.
#[verifier::opaque]
pub open spec fn says<P: AsduPayload>(
    bytes: Seq<u8>,
    type_id: u8,
    content: P::V,
    cause: u8,
    ca: CommonAddress,
) -> bool {
    &&& AsduModel::decoded(bytes, AsduAddressing::iec104()).result matches Ok(asdu)
    &&& asdu.type_id == type_id
    &&& asdu.typed::<P>(AsduAddressing::iec104()) == Ok::<P::V, Error>(content)
    &&& asdu.cot == Cot { cause: Cause(cause), negative: false, test: false, originator: 0 }
    &&& asdu.ca == ca
}

/// Whether the steps carry out a command: after the report of its arrival it
/// is sent back with cause 7, reported with the cause it came with, and 50 ms
/// later sent back with cause 10.
pub open spec fn carried_out<P: AsduPayload>(
    steps: Seq<StepModel>,
    type_id: u8,
    content: P::V,
    cause: u8,
    ca: CommonAddress,
) -> bool {
    &&& steps.len() == 5
    &&& steps[0] is Report
    &&& steps[1] matches StepModel::Send(con)
    &&& says::<P>(con, type_id, content, 7, ca)
    &&& steps[2] == StepModel::Report(
        Event::AsduReceived { cot: cause, type_id, ioa: 0, value: None },
    )
    &&& steps[3] == StepModel::Pause(50)
    &&& steps[4] matches StepModel::Send(term)
    &&& says::<P>(term, type_id, content, 10, ca)
}

/// The message as it comes in from a master.
pub open spec fn message<P: AsduPayload>(
    type_id: u8,
    content: P::V,
    vsq: Vsq,
    cot: Cot,
    ca: CommonAddress,
) -> AsduModel {
    AsduModel { type_id, vsq, cot, ca, payload: P::section(content, vsq, AsduAddressing::iec104()) }
}

/// Whether the content can be carried as the message says, and with an address
/// for each object.
pub open spec fn carriable<P: AsduPayload>(content: P::V, vsq: Vsq, cot: Cot) -> bool {
    &&& P::section_fits(content, vsq, AsduAddressing::iec104())
    &&& P::section_fits(
        content,
        (Vsq { sequence: false, count: vsq.count }),
        AsduAddressing::iec104(),
    )
    &&& vsq.count < 128
    &&& cot.cause.0 < 64
}

proof fn lemma_says<P: AsduPayload>(
    content: P::V,
    count: u8,
    cause: u8,
    ca: CommonAddress,
)
    requires
        P::section_fits(
            content,
            (Vsq { sequence: false, count }),
            AsduAddressing::iec104(),
        ),
        count < 128,
        cause < 64,
    ensures
        says::<P>(
            message::<P>(
                P::code(),
                content,
                Vsq { sequence: false, count },
                plain(cause),
                ca,
            ).wire(AsduAddressing::iec104()),
            P::code(),
            content,
            cause,
            ca,
        ),
{
    reveal(says);
    let m = message::<P>(P::code(), content, Vsq { sequence: false, count }, plain(cause), ca);
    law_typed_round_trip::<P>(m, content, AsduAddressing::iec104());
}

proof fn lemma_carried_out<P: AsduPayload>(
    type_id: u8,
    content: P::V,
    vsq: Vsq,
    cot: Cot,
    sent_to: CommonAddress,
    rows: Seq<(u32, PointEntry)>,
    ca: CommonAddress,
    ts: Cp56Time2a,
)
    requires
        carriable::<P>(content, vsq, cot),
        type_id == P::code(),
        ({
            let asdu = message::<P>(type_id, content, vsq, cot, sent_to);
            replies(asdu, rows, ca, ts) == command_reply::<P>(asdu, ca)
        }),
    ensures
        carried_out::<P>(
            reaction(
                message::<P>(type_id, content, vsq, cot, sent_to).wire(AsduAddressing::iec104()),
                rows,
                ca,
                ts,
            ),
            type_id,
            content,
            cot.cause.0,
            ca,
        ),
{
    let asdu = message::<P>(type_id, content, vsq, cot, sent_to);
    law_typed_round_trip::<P>(asdu, content, AsduAddressing::iec104());
    lemma_says::<P>(content, vsq.count, 7, ca);
    lemma_says::<P>(content, vsq.count, 10, ca);
}

/// A single command (type 45) is carried out with the content
/// that it brought, whichever station it was meant for.
pub proof fn law_c_sc_na_1_carried_out(
    content: <C_SC_NA_1 as View>::V,
    vsq: Vsq,
    cot: Cot,
    sent_to: CommonAddress,
    rows: Seq<(u32, PointEntry)>,
    ca: CommonAddress,
    ts: Cp56Time2a,
)
    requires
        carriable::<C_SC_NA_1>(content, vsq, cot),
    ensures
        carried_out::<C_SC_NA_1>(
            reaction(
                message::<C_SC_NA_1>(45, content, vsq, cot, sent_to).wire(AsduAddressing::iec104()),
                rows,
                ca,
                ts,
            ),
            45,
            content,
            cot.cause.0,
            ca,
        ),
{
    lemma_carried_out::<C_SC_NA_1>(45, content, vsq, cot, sent_to, rows, ca, ts);
}

/// A double command (type 46) is carried out with the content
/// that it brought, whichever station it was meant for.
pub proof fn law_c_dc_na_1_carried_out(
    content: <C_DC_NA_1 as View>::V,
    vsq: Vsq,
    cot: Cot,
    sent_to: CommonAddress,
    rows: Seq<(u32, PointEntry)>,
    ca: CommonAddress,
    ts: Cp56Time2a,
)
    requires
        carriable::<C_DC_NA_1>(content, vsq, cot),
    ensures
        carried_out::<C_DC_NA_1>(
            reaction(
                message::<C_DC_NA_1>(46, content, vsq, cot, sent_to).wire(AsduAddressing::iec104()),
                rows,
                ca,
                ts,
            ),
            46,
            content,
            cot.cause.0,
            ca,
        ),
{
    lemma_carried_out::<C_DC_NA_1>(46, content, vsq, cot, sent_to, rows, ca, ts);
}

/// A regulating step (type 47) is carried out with the content
/// that it brought, whichever station it was meant for.
pub proof fn law_c_rc_na_1_carried_out(
    content: <C_RC_NA_1 as View>::V,
    vsq: Vsq,
    cot: Cot,
    sent_to: CommonAddress,
    rows: Seq<(u32, PointEntry)>,
    ca: CommonAddress,
    ts: Cp56Time2a,
)
    requires
        carriable::<C_RC_NA_1>(content, vsq, cot),
    ensures
        carried_out::<C_RC_NA_1>(
            reaction(
                message::<C_RC_NA_1>(47, content, vsq, cot, sent_to).wire(AsduAddressing::iec104()),
                rows,
                ca,
                ts,
            ),
            47,
            content,
            cot.cause.0,
            ca,
        ),
{
    lemma_carried_out::<C_RC_NA_1>(47, content, vsq, cot, sent_to, rows, ca, ts);
}

/// A normalized set-point (type 48) is carried out with the content
/// that it brought, whichever station it was meant for.
pub proof fn law_c_se_na_1_carried_out(
    content: <C_SE_NA_1 as View>::V,
    vsq: Vsq,
    cot: Cot,
    sent_to: CommonAddress,
    rows: Seq<(u32, PointEntry)>,
    ca: CommonAddress,
    ts: Cp56Time2a,
)
    requires
        carriable::<C_SE_NA_1>(content, vsq, cot),
    ensures
        carried_out::<C_SE_NA_1>(
            reaction(
                message::<C_SE_NA_1>(48, content, vsq, cot, sent_to).wire(AsduAddressing::iec104()),
                rows,
                ca,
                ts,
            ),
            48,
            content,
            cot.cause.0,
            ca,
        ),
{
    lemma_carried_out::<C_SE_NA_1>(48, content, vsq, cot, sent_to, rows, ca, ts);
}

/// A scaled set-point (type 49) is carried out with the content
/// that it brought, whichever station it was meant for.
pub proof fn law_c_se_nb_1_carried_out(
    content: <C_SE_NB_1 as View>::V,
    vsq: Vsq,
    cot: Cot,
    sent_to: CommonAddress,
    rows: Seq<(u32, PointEntry)>,
    ca: CommonAddress,
    ts: Cp56Time2a,
)
    requires
        carriable::<C_SE_NB_1>(content, vsq, cot),
    ensures
        carried_out::<C_SE_NB_1>(
            reaction(
                message::<C_SE_NB_1>(49, content, vsq, cot, sent_to).wire(AsduAddressing::iec104()),
                rows,
                ca,
                ts,
            ),
            49,
            content,
            cot.cause.0,
            ca,
        ),
{
    lemma_carried_out::<C_SE_NB_1>(49, content, vsq, cot, sent_to, rows, ca, ts);
}

/// A floating-point set-point (type 50) is carried out with the content
/// that it brought, whichever station it was meant for.
pub proof fn law_c_se_nc_1_carried_out(
    content: <C_SE_NC_1 as View>::V,
    vsq: Vsq,
    cot: Cot,
    sent_to: CommonAddress,
    rows: Seq<(u32, PointEntry)>,
    ca: CommonAddress,
    ts: Cp56Time2a,
)
    requires
        carriable::<C_SE_NC_1>(content, vsq, cot),
    ensures
        carried_out::<C_SE_NC_1>(
            reaction(
                message::<C_SE_NC_1>(50, content, vsq, cot, sent_to).wire(AsduAddressing::iec104()),
                rows,
                ca,
                ts,
            ),
            50,
            content,
            cot.cause.0,
            ca,
        ),
{
    lemma_carried_out::<C_SE_NC_1>(50, content, vsq, cot, sent_to, rows, ca, ts);
}

/// A single command with time tag (type 58) is carried out with the content
/// that it brought, whichever station it was meant for.
pub proof fn law_c_sc_ta_1_carried_out(
    content: <C_SC_TA_1 as View>::V,
    vsq: Vsq,
    cot: Cot,
    sent_to: CommonAddress,
    rows: Seq<(u32, PointEntry)>,
    ca: CommonAddress,
    ts: Cp56Time2a,
)
    requires
        carriable::<C_SC_TA_1>(content, vsq, cot),
    ensures
        carried_out::<C_SC_TA_1>(
            reaction(
                message::<C_SC_TA_1>(58, content, vsq, cot, sent_to).wire(AsduAddressing::iec104()),
                rows,
                ca,
                ts,
            ),
            58,
            content,
            cot.cause.0,
            ca,
        ),
{
    lemma_carried_out::<C_SC_TA_1>(58, content, vsq, cot, sent_to, rows, ca, ts);
}

/// A normalized set-point with time tag (type 61) is carried out with the content
/// that it brought, whichever station it was meant for.
pub proof fn law_c_se_ta_1_carried_out(
    content: <C_SE_TA_1 as View>::V,
    vsq: Vsq,
    cot: Cot,
    sent_to: CommonAddress,
    rows: Seq<(u32, PointEntry)>,
    ca: CommonAddress,
    ts: Cp56Time2a,
)
    requires
        carriable::<C_SE_TA_1>(content, vsq, cot),
    ensures
        carried_out::<C_SE_TA_1>(
            reaction(
                message::<C_SE_TA_1>(61, content, vsq, cot, sent_to).wire(AsduAddressing::iec104()),
                rows,
                ca,
                ts,
            ),
            61,
            content,
            cot.cause.0,
            ca,
        ),
{
    lemma_carried_out::<C_SE_TA_1>(61, content, vsq, cot, sent_to, rows, ca, ts);
}

/// A scaled set-point with time tag (type 62) is carried out with the content
/// that it brought, whichever station it was meant for.
pub proof fn law_c_se_tb_1_carried_out(
    content: <C_SE_TB_1 as View>::V,
    vsq: Vsq,
    cot: Cot,
    sent_to: CommonAddress,
    rows: Seq<(u32, PointEntry)>,
    ca: CommonAddress,
    ts: Cp56Time2a,
)
    requires
        carriable::<C_SE_TB_1>(content, vsq, cot),
    ensures
        carried_out::<C_SE_TB_1>(
            reaction(
                message::<C_SE_TB_1>(62, content, vsq, cot, sent_to).wire(AsduAddressing::iec104()),
                rows,
                ca,
                ts,
            ),
            62,
            content,
            cot.cause.0,
            ca,
        ),
{
    lemma_carried_out::<C_SE_TB_1>(62, content, vsq, cot, sent_to, rows, ca, ts);
}

/// A floating-point set-point with time tag (type 63) is carried out with the content
/// that it brought, whichever station it was meant for.
pub proof fn law_c_se_tc_1_carried_out(
    content: <C_SE_TC_1 as View>::V,
    vsq: Vsq,
    cot: Cot,
    sent_to: CommonAddress,
    rows: Seq<(u32, PointEntry)>,
    ca: CommonAddress,
    ts: Cp56Time2a,
)
    requires
        carriable::<C_SE_TC_1>(content, vsq, cot),
    ensures
        carried_out::<C_SE_TC_1>(
            reaction(
                message::<C_SE_TC_1>(63, content, vsq, cot, sent_to).wire(AsduAddressing::iec104()),
                rows,
                ca,
                ts,
            ),
            63,
            content,
            cot.cause.0,
            ca,
        ),
{
    lemma_carried_out::<C_SE_TC_1>(63, content, vsq, cot, sent_to, rows, ca, ts);
}

// ---------------------------------------------------------------------------
// System commands
// ---------------------------------------------------------------------------

/// A counter interrogation (type 101) is reported and sent back as it came, with cause 7.
pub proof fn law_c_ci_na_1_answered(
    content: C_CI_NA_1,
    vsq: Vsq,
    cot: Cot,
    sent_to: CommonAddress,
    rows: Seq<(u32, PointEntry)>,
    ca: CommonAddress,
    ts: Cp56Time2a,
)
    requires
        carriable::<C_CI_NA_1>(content, vsq, cot),
    ensures
        ({
            let steps = reaction(
                message::<C_CI_NA_1>(101, content, vsq, cot, sent_to).wire(AsduAddressing::iec104()),
                rows,
                ca,
                ts,
            );
            &&& steps.len() == 2
            &&& steps[0] is Report
            &&& steps[1] matches StepModel::Send(bytes) && says::<C_CI_NA_1>(bytes, 101, content, 7, ca)
        }),
{
    let asdu = message::<C_CI_NA_1>(101, content, vsq, cot, sent_to);
    law_typed_round_trip::<C_CI_NA_1>(asdu, content, AsduAddressing::iec104());
    lemma_says::<C_CI_NA_1>(content, 1, 7, ca);
}

/// A read command (type 102) is reported and sent back as it came, with cause 5.
pub proof fn law_c_rd_na_1_answered(
    content: C_RD_NA_1,
    vsq: Vsq,
    cot: Cot,
    sent_to: CommonAddress,
    rows: Seq<(u32, PointEntry)>,
    ca: CommonAddress,
    ts: Cp56Time2a,
)
    requires
        carriable::<C_RD_NA_1>(content, vsq, cot),
    ensures
        ({
            let steps = reaction(
                message::<C_RD_NA_1>(102, content, vsq, cot, sent_to).wire(AsduAddressing::iec104()),
                rows,
                ca,
                ts,
            );
            &&& steps.len() == 2
            &&& steps[0] is Report
            &&& steps[1] matches StepModel::Send(bytes) && says::<C_RD_NA_1>(bytes, 102, content, 5, ca)
        }),
{
    let asdu = message::<C_RD_NA_1>(102, content, vsq, cot, sent_to);
    law_typed_round_trip::<C_RD_NA_1>(asdu, content, AsduAddressing::iec104());
    lemma_says::<C_RD_NA_1>(content, 1, 5, ca);
}

/// A clock synchronisation (type 103) is reported and sent back as it came, with cause 7.
pub proof fn law_c_cs_na_1_answered(
    content: C_CS_NA_1,
    vsq: Vsq,
    cot: Cot,
    sent_to: CommonAddress,
    rows: Seq<(u32, PointEntry)>,
    ca: CommonAddress,
    ts: Cp56Time2a,
)
    requires
        carriable::<C_CS_NA_1>(content, vsq, cot),
    ensures
        ({
            let steps = reaction(
                message::<C_CS_NA_1>(103, content, vsq, cot, sent_to).wire(AsduAddressing::iec104()),
                rows,
                ca,
                ts,
            );
            &&& steps.len() == 2
            &&& steps[0] is Report
            &&& steps[1] matches StepModel::Send(bytes) && says::<C_CS_NA_1>(bytes, 103, content, 7, ca)
        }),
{
    let asdu = message::<C_CS_NA_1>(103, content, vsq, cot, sent_to);
    law_typed_round_trip::<C_CS_NA_1>(asdu, content, AsduAddressing::iec104());
    lemma_says::<C_CS_NA_1>(content, 1, 7, ca);
}

/// A reset of the process (type 105) is reported and sent back as it came, with cause 7.
pub proof fn law_c_rp_na_1_answered(
    content: C_RP_NA_1,
    vsq: Vsq,
    cot: Cot,
    sent_to: CommonAddress,
    rows: Seq<(u32, PointEntry)>,
    ca: CommonAddress,
    ts: Cp56Time2a,
)
    requires
        carriable::<C_RP_NA_1>(content, vsq, cot),
    ensures
        ({
            let steps = reaction(
                message::<C_RP_NA_1>(105, content, vsq, cot, sent_to).wire(AsduAddressing::iec104()),
                rows,
                ca,
                ts,
            );
            &&& steps.len() == 2
            &&& steps[0] is Report
            &&& steps[1] matches StepModel::Send(bytes) && says::<C_RP_NA_1>(bytes, 105, content, 7, ca)
        }),
{
    let asdu = message::<C_RP_NA_1>(105, content, vsq, cot, sent_to);
    law_typed_round_trip::<C_RP_NA_1>(asdu, content, AsduAddressing::iec104());
    lemma_says::<C_RP_NA_1>(content, 1, 7, ca);
}

// ---------------------------------------------------------------------------
// Reports
// ---------------------------------------------------------------------------

/// Every message whose header is whole is reported first, with its cause, its
/// type and the address that stands behind the six octets of the header; a
/// message that is cut off in the header is not answered at all.
pub proof fn law_arrival_reported(
    bytes: Seq<u8>,
    rows: Seq<(u32, PointEntry)>,
    ca: CommonAddress,
    ts: Cp56Time2a,
)
    ensures
        bytes.len() < 6 ==> reaction(bytes, rows, ca, ts).len() == 0,
        bytes.len() >= 6 ==> reaction(bytes, rows, ca, ts).len() > 0 && reaction(bytes, rows, ca, ts)[0]
            == StepModel::Report(
            Event::AsduReceived {
                cot: bytes[2] % 64,
                type_id: bytes[0],
                ioa: if bytes.len() >= 9 {
                    (bytes[6] + 256 * bytes[7] + 65536 * bytes[8]) as u32
                } else {
                    0
                },
                value: None,
            },
        ),
{
}

// ---------------------------------------------------------------------------
// Interrogations
// ---------------------------------------------------------------------------

/// Whether `bytes` carries exactly that point, read by a master, with that
/// cause, from that station.
#[verifier::opaque]
pub open spec fn shows(
    bytes: Seq<u8>,
    ioa: u32,
    entry: PointEntry,
    ts: Cp56Time2a,
    cause: u8,
    ca: CommonAddress,
) -> bool {
    &&& AsduModel::decoded(bytes, AsduAddressing::iec104()).result matches Ok(asdu)
    &&& asdu.cot == Cot { cause: Cause(cause), negative: false, test: false, originator: 0 }
    &&& asdu.ca == ca
    &&& observed(asdu) == seq![delivered(ioa, entry, ts)]
}

/// Whether the steps answer an interrogation: after the report of its arrival
/// it is sent back with cause 7 and the qualifier, then come the points in
/// order, each with its own message, and then it is sent back with cause 10.
pub open spec fn interrogated(
    steps: Seq<StepModel>,
    rows: Seq<(u32, PointEntry)>,
    qoi: u8,
    cause: u8,
    ca: CommonAddress,
    ts: Cp56Time2a,
) -> bool {
    let n = rows.len() as int;
    &&& steps.len() >= n + 3
    &&& steps[0] is Report
    &&& steps[1] matches StepModel::Send(con)
    &&& says::<C_IC_NA_1>(con, 100, seq![(Ioa(0), Qoi(qoi))], 7, ca)
    &&& forall|i: int|
        0 <= i < n ==> (#[trigger] steps[2 + i] matches StepModel::Send(bytes) && shows(
            bytes,
            rows[i].0,
            rows[i].1,
            ts,
            cause,
            ca,
        ))
    &&& steps[n + 2] matches StepModel::Send(term)
    &&& says::<C_IC_NA_1>(term, 100, seq![(Ioa(0), Qoi(qoi))], 10, ca)
    &&& forall|i: int| n + 3 <= i < steps.len() ==> #[trigger] steps[i] is Report
}

proof fn lemma_points_shown(
    rows: Seq<(u32, PointEntry)>,
    ts: Cp56Time2a,
    cause: u8,
    ca: CommonAddress,
)
    requires
        all_match(rows),
        addressable(rows),
        ts.representable(),
        cause < 64,
    ensures
        point_steps(rows, ts, plain(cause), ca).len() == rows.len(),
        forall|i: int|
            0 <= i < rows.len() ==> (#[trigger] point_steps(rows, ts, plain(cause), ca)[i] matches StepModel::Send(
                bytes,
            ) && shows(bytes, rows[i].0, rows[i].1, ts, cause, ca)),
{
    reveal(shows);
    law_every_point_sent(rows, ts, plain(cause), ca);
    assert forall|i: int| 0 <= i < rows.len() implies (#[trigger] point_steps(
        rows,
        ts,
        plain(cause),
        ca,
    )[i] matches StepModel::Send(bytes) && shows(bytes, rows[i].0, rows[i].1, ts, cause, ca)) by {
        assert(value_matches(rows[i].1.kind, rows[i].1.value));
        law_point_observed(rows[i].0, rows[i].1, ts, plain(cause), ca);
    }
}

proof fn lemma_general_reply(
    report: StepModel,
    rows: Seq<(u32, PointEntry)>,
    ca: CommonAddress,
    ts: Cp56Time2a,
)
    requires
        report is Report,
        all_match(rows),
        addressable(rows),
        ts.representable(),
    ensures
        interrogated(seq![report] + general_reply(rows, ca, ts), rows, 20, 20, ca, ts),
        general_reply(rows, ca, ts).len() == rows.len() + 3,
{
    lemma_says::<C_IC_NA_1>(seq![(Ioa(0), Qoi(20))], 1, 7, ca);
    lemma_says::<C_IC_NA_1>(seq![(Ioa(0), Qoi(20))], 1, 10, ca);
    lemma_points_shown(rows, ts, 20, ca);
    let steps = seq![report] + general_reply(rows, ca, ts);
    let points = point_steps(rows, ts, plain(20), ca);
    assert forall|i: int| 0 <= i < rows.len() implies (#[trigger] steps[2 + i]) == points[i] by {}
}

/// A general interrogation (qualifier 20, also meant by one without objects)
/// is answered with all points, cause 20.
pub proof fn law_general_interrogation_answered(
    content: Seq<(Ioa, Qoi)>,
    vsq: Vsq,
    cot: Cot,
    sent_to: CommonAddress,
    rows: Seq<(u32, PointEntry)>,
    ca: CommonAddress,
    ts: Cp56Time2a,
)
    requires
        carriable::<C_IC_NA_1>(content, vsq, cot),
        content.len() == 0 || content[0].1.0 == 20,
        all_match(rows),
        addressable(rows),
        ts.representable(),
    ensures
        ({
            let steps = reaction(
                message::<C_IC_NA_1>(100, content, vsq, cot, sent_to).wire(AsduAddressing::iec104()),
                rows,
                ca,
                ts,
            );
            &&& interrogated(steps, rows, 20, 20, ca, ts)
            &&& steps.len() == rows.len() + 4
            &&& steps.last() == StepModel::Report(
                Event::AsduSent { cot: 20, type_id: 100, ioa: 0, value: None },
            )
        }),
{
    let asdu = message::<C_IC_NA_1>(100, content, vsq, cot, sent_to);
    law_typed_round_trip::<C_IC_NA_1>(asdu, content, AsduAddressing::iec104());
    let steps = reaction(asdu.wire(AsduAddressing::iec104()), rows, ca, ts);
    assert(replies(asdu, rows, ca, ts) == general_reply(rows, ca, ts));
    lemma_general_reply(steps[0], rows, ca, ts);
    assert(steps =~= seq![steps[0]] + general_reply(rows, ca, ts));
}

/// The kind of points that a group holds: groups 1 to 5 are the kinds without
/// time tag, 6 to 10 those with one, each in the order single, double,
/// normalized, scaled, floating point.
pub open spec fn in_group(group: int, kind: PointKind) -> bool {
    ||| group == 1 && kind is SpNa
    ||| group == 2 && kind is DpNa
    ||| group == 3 && kind is MeNa
    ||| group == 4 && kind is MeNb
    ||| group == 5 && kind is MeNc
    ||| group == 6 && kind is SpTb
    ||| group == 7 && kind is DpTb
    ||| group == 8 && kind is MeTd
    ||| group == 9 && kind is MeTe
    ||| group == 10 && kind is MeTf
}

/// The points of a kind are those rows, in the same order and no others.
pub proof fn law_of_kind(rows: Seq<(u32, PointEntry)>, kind: PointKind)
    ensures
        of_kind(rows, kind) == rows.filter(|row: (u32, PointEntry)| row.1.kind == kind),
    decreases rows.len(),
{
    reveal(Seq::filter);
    if rows.len() > 0 {
        law_of_kind(rows.drop_last(), kind);
    }
}

proof fn lemma_filtered(rows: Seq<(u32, PointEntry)>, kind: PointKind)
    requires
        all_match(rows),
        addressable(rows),
    ensures
        all_match(of_kind(rows, kind)),
        addressable(of_kind(rows, kind)),
    decreases rows.len(),
{
    if rows.len() > 0 {
        let front = rows.drop_last();
        assert forall|i: int| 0 <= i < front.len() implies value_matches(
            (#[trigger] front[i]).1.kind,
            front[i].1.value,
        ) && front[i].0 < 0x100_0000 by {
            assert(front[i] == rows[i]);
        }
        lemma_filtered(front, kind);
        let last = rows[rows.len() - 1];
        assert(value_matches(last.1.kind, last.1.value) && last.0 < 0x100_0000);
    }
}

proof fn lemma_group_reply(
    report: StepModel,
    rows: Seq<(u32, PointEntry)>,
    group: u8,
    kind: PointKind,
    ca: CommonAddress,
    ts: Cp56Time2a,
)
    requires
        report is Report,
        in_group(group as int, kind),
        all_match(rows),
        addressable(rows),
        ts.representable(),
    ensures
        ({
            let qoi = (20 + group) as u8;
            let steps = seq![report] + group_reply(rows, group, ca, ts);
            &&& interrogated(steps, of_kind(rows, kind), qoi, qoi, ca, ts)
            &&& steps.len() == of_kind(rows, kind).len() + 3
        }),
{
    let qoi = (20 + group) as u8;
    lemma_says::<C_IC_NA_1>(seq![(Ioa(0), Qoi(qoi))], 1, 7, ca);
    lemma_says::<C_IC_NA_1>(seq![(Ioa(0), Qoi(qoi))], 1, 10, ca);
    lemma_filtered(rows, kind);
    let chosen = of_kind(rows, kind);
    lemma_points_shown(chosen, ts, qoi, ca);
    let steps = seq![report] + group_reply(rows, group, ca, ts);
    let points = point_steps(chosen, ts, plain(qoi), ca);
    assert forall|i: int| 0 <= i < chosen.len() implies (#[trigger] steps[2 + i]) == points[i] by {}
}

/// An interrogation of group 1 to 10 (qualifier 21 to 30) is answered with the
/// points of the kind that belongs to the group, cause 21 to 30.
pub proof fn law_group_interrogation_answered(
    content: Seq<(Ioa, Qoi)>,
    vsq: Vsq,
    cot: Cot,
    sent_to: CommonAddress,
    rows: Seq<(u32, PointEntry)>,
    kind: PointKind,
    ca: CommonAddress,
    ts: Cp56Time2a,
)
    requires
        carriable::<C_IC_NA_1>(content, vsq, cot),
        content.len() > 0,
        in_group(content[0].1.0 - 20, kind),
        all_match(rows),
        addressable(rows),
        ts.representable(),
    ensures
        ({
            let steps = reaction(
                message::<C_IC_NA_1>(100, content, vsq, cot, sent_to).wire(AsduAddressing::iec104()),
                rows,
                ca,
                ts,
            );
            let points = rows.filter(|row: (u32, PointEntry)| row.1.kind == kind);
            &&& interrogated(steps, points, content[0].1.0, content[0].1.0, ca, ts)
            &&& steps.len() == points.len() + 3
        }),
{
    let asdu = message::<C_IC_NA_1>(100, content, vsq, cot, sent_to);
    let qoi = content[0].1.0;
    law_typed_round_trip::<C_IC_NA_1>(asdu, content, AsduAddressing::iec104());
    law_of_kind(rows, kind);
    let steps = reaction(asdu.wire(AsduAddressing::iec104()), rows, ca, ts);
    let group = (qoi - 20) as u8;
    assert(replies(asdu, rows, ca, ts) == group_reply(rows, group, ca, ts));
    lemma_group_reply(steps[0], rows, group, kind, ca, ts);
    assert(steps =~= seq![steps[0]] + group_reply(rows, group, ca, ts));
}

/// An interrogation with any other qualifier is confirmed and terminated
/// without a point: of group 0 where it is below 20, of its own otherwise.
pub proof fn law_empty_interrogation_answered(
    content: Seq<(Ioa, Qoi)>,
    vsq: Vsq,
    cot: Cot,
    sent_to: CommonAddress,
    rows: Seq<(u32, PointEntry)>,
    ca: CommonAddress,
    ts: Cp56Time2a,
)
    requires
        carriable::<C_IC_NA_1>(content, vsq, cot),
        content.len() > 0,
        content[0].1.0 < 20 || content[0].1.0 > 30,
    ensures
        ({
            let steps = reaction(
                message::<C_IC_NA_1>(100, content, vsq, cot, sent_to).wire(AsduAddressing::iec104()),
                rows,
                ca,
                ts,
            );
            let qoi = if content[0].1.0 < 20 {
                20u8
            } else {
                content[0].1.0
            };
            &&& steps.len() == 3
            &&& interrogated(steps, Seq::empty(), qoi, 0, ca, ts)
        }),
{
    let asdu = message::<C_IC_NA_1>(100, content, vsq, cot, sent_to);
    let qoi = if content[0].1.0 < 20 {
        20u8
    } else {
        content[0].1.0
    };
    law_typed_round_trip::<C_IC_NA_1>(asdu, content, AsduAddressing::iec104());
    lemma_says::<C_IC_NA_1>(seq![(Ioa(0), Qoi(qoi))], 1, 7, ca);
    lemma_says::<C_IC_NA_1>(seq![(Ioa(0), Qoi(qoi))], 1, 10, ca);
}

// ---------------------------------------------------------------------------
// Points
// ---------------------------------------------------------------------------

/// Whether the flags are the same, name by name.
pub open spec fn same_flags(wire: QualityWire, q: Quality) -> bool {
    &&& wire.blocked == q.blocked
    &&& wire.substituted == q.substituted
    &&& wire.not_topical == q.not_topical
    &&& wire.invalid == q.invalid
}

/// Whether the state is the same, name by name.
pub open spec fn same_state(wire: DoublePointWire, state: DoublePoint) -> bool {
    match wire {
        DoublePointWire::Intermediate => state is Intermediate,
        DoublePointWire::Off => state is Off,
        DoublePointWire::On => state is On,
        DoublePointWire::Indeterminate => state is Indeterminate,
    }
}

/// A point goes out as one object at its address, in the type of its kind, with
/// its value and flags unchanged (a normalized value as the nearest step), and
/// with the time where the kind has one; with the cause and station given. A
/// value of another shape does not go out.
pub proof fn law_point_content(
    ioa: u32,
    entry: PointEntry,
    ts: Cp56Time2a,
    cot: Cot,
    ca: CommonAddress,
)
    requires
        ioa < 0x100_0000,
        ts.representable(),
        cot.cause.0 < 64,
    ensures
        point_asdu(ioa, entry, ts, cot, ca) is None <==> !value_matches(entry.kind, entry.value),
        point_asdu(ioa, entry, ts, cot, ca) matches Some(asdu) ==> {
            let at = Ioa(ioa);
            let quality = Quality {
                blocked: entry.quality.blocked,
                substituted: entry.quality.substituted,
                not_topical: entry.quality.not_topical,
                invalid: entry.quality.invalid,
            };
            let qds = Qds { overflow: entry.quality.overflow, quality };
            let addressing = AsduAddressing::iec104();
            &&& asdu.cot == cot
            &&& asdu.ca == ca
            &&& asdu.vsq == Vsq { sequence: false, count: 1 }
            &&& match (entry.kind, entry.value) {
                (PointKind::SpNa, PointValue::Single(on)) => asdu.type_id == 1 && asdu.typed::<M_SP_NA_1>(addressing)
                    == Ok::<<M_SP_NA_1 as View>::V, Error>(seq![(at, Siq { on, quality })]),
                (PointKind::DpNa, PointValue::Double(d)) => asdu.type_id == 3 && asdu.typed::<M_DP_NA_1>(addressing)
                    == Ok::<<M_DP_NA_1 as View>::V, Error>(seq![(at, Diq { state: match d {
                        DoublePointWire::Intermediate => DoublePoint::Intermediate,
                        DoublePointWire::Off => DoublePoint::Off,
                        DoublePointWire::On => DoublePoint::On,
                        DoublePointWire::Indeterminate => DoublePoint::Indeterminate,
                    }, quality })]),
                (PointKind::MeNa, PointValue::Normalized(bits)) => asdu.type_id == 9 && asdu.typed::<M_ME_NA_1>(addressing)
                    == Ok::<<M_ME_NA_1 as View>::V, Error>(seq![(at, (Nva(nearest_step(bits) as i16), qds))]),
                (PointKind::MeNb, PointValue::Scaled(v)) => asdu.type_id == 11 && asdu.typed::<M_ME_NB_1>(addressing)
                    == Ok::<<M_ME_NB_1 as View>::V, Error>(seq![(at, (Sva(v), qds))]),
                (PointKind::MeNc, PointValue::Float(bits)) => asdu.type_id == 13 && asdu.typed::<M_ME_NC_1>(addressing)
                    == Ok::<<M_ME_NC_1 as View>::V, Error>(seq![(at, (R32(bits), qds))]),
                (PointKind::SpTb, PointValue::Single(on)) => asdu.type_id == 30 && asdu.typed::<M_SP_TB_1>(addressing)
                    == Ok::<<M_SP_TB_1 as View>::V, Error>(seq![(at, (Siq { on, quality }, ts))]),
                (PointKind::DpTb, PointValue::Double(d)) => asdu.type_id == 31 && asdu.typed::<M_DP_TB_1>(addressing)
                    == Ok::<<M_DP_TB_1 as View>::V, Error>(seq![(at, (Diq { state: match d {
                        DoublePointWire::Intermediate => DoublePoint::Intermediate,
                        DoublePointWire::Off => DoublePoint::Off,
                        DoublePointWire::On => DoublePoint::On,
                        DoublePointWire::Indeterminate => DoublePoint::Indeterminate,
                    }, quality }, ts))]),
                (PointKind::MeTd, PointValue::Normalized(bits)) => asdu.type_id == 34 && asdu.typed::<M_ME_TD_1>(addressing)
                    == Ok::<<M_ME_TD_1 as View>::V, Error>(seq![(at, (Nva(nearest_step(bits) as i16), qds, ts))]),
                (PointKind::MeTe, PointValue::Scaled(v)) => asdu.type_id == 35 && asdu.typed::<M_ME_TE_1>(addressing)
                    == Ok::<<M_ME_TE_1 as View>::V, Error>(seq![(at, (Sva(v), qds, ts))]),
                (PointKind::MeTf, PointValue::Float(bits)) => asdu.type_id == 36 && asdu.typed::<M_ME_TF_1>(addressing)
                    == Ok::<<M_ME_TF_1 as View>::V, Error>(seq![(at, (R32(bits), qds, ts))]),
                _ => false,
            }
        },
{
    let addressing = AsduAddressing::iec104();
    let asdu = point_asdu(ioa, entry, ts, cot, ca)->0;
    let at = Ioa(ioa);
    let quality = crate::points::quality_of(entry.quality);
    let qds = Qds { overflow: entry.quality.overflow, quality };
    if let PointValue::Normalized(bits) = entry.value {
        law_nearest_step_range(bits);
    }
    match (entry.kind, entry.value) {
        (PointKind::SpNa, PointValue::Single(on)) => law_typed_round_trip::<M_SP_NA_1>(
            asdu,
            seq![(at, Siq { on, quality })],
            addressing,
        ),
        (PointKind::DpNa, PointValue::Double(d)) => law_typed_round_trip::<M_DP_NA_1>(
            asdu,
            seq![(at, Diq { state: crate::points::dp_of(d), quality })],
            addressing,
        ),
        (PointKind::MeNa, PointValue::Normalized(bits)) => law_typed_round_trip::<M_ME_NA_1>(
            asdu,
            seq![(at, (Nva(nearest_step(bits) as i16), qds))],
            addressing,
        ),
        (PointKind::MeNb, PointValue::Scaled(v)) => law_typed_round_trip::<M_ME_NB_1>(
            asdu,
            seq![(at, (Sva(v), qds))],
            addressing,
        ),
        (PointKind::MeNc, PointValue::Float(bits)) => law_typed_round_trip::<M_ME_NC_1>(
            asdu,
            seq![(at, (R32(bits), qds))],
            addressing,
        ),
        (PointKind::SpTb, PointValue::Single(on)) => law_typed_round_trip::<M_SP_TB_1>(
            asdu,
            seq![(at, (Siq { on, quality }, ts))],
            addressing,
        ),
        (PointKind::DpTb, PointValue::Double(d)) => law_typed_round_trip::<M_DP_TB_1>(
            asdu,
            seq![(at, (Diq { state: crate::points::dp_of(d), quality }, ts))],
            addressing,
        ),
        (PointKind::MeTd, PointValue::Normalized(bits)) => law_typed_round_trip::<M_ME_TD_1>(
            asdu,
            seq![(at, (Nva(nearest_step(bits) as i16), qds, ts))],
            addressing,
        ),
        (PointKind::MeTe, PointValue::Scaled(v)) => law_typed_round_trip::<M_ME_TE_1>(
            asdu,
            seq![(at, (Sva(v), qds, ts))],
            addressing,
        ),
        (PointKind::MeTf, PointValue::Float(bits)) => law_typed_round_trip::<M_ME_TF_1>(
            asdu,
            seq![(at, (R32(bits), qds, ts))],
            addressing,
        ),
        _ => {},
    }
}

// ---------------------------------------------------------------------------
// Observations
// ---------------------------------------------------------------------------

/// A message of type 1 is read object by object.
pub proof fn law_m_sp_na_1_observed(asdu: AsduModel, objects: <M_SP_NA_1 as View>::V, i: int)
    requires
        asdu.type_id == 1,
        asdu.typed::<M_SP_NA_1>(AsduAddressing::iec104()) == Ok::<<M_SP_NA_1 as View>::V, Error>(objects),
        0 <= i < objects.len(),
    ensures
        observed(asdu).len() == objects.len(),
        ({
            let o = observed(asdu)[i];
            &&& o.kind is SpNa
            &&& o.ioa == objects[i].0.0
            &&& o.value == PointValue::Single(objects[i].1.on)
            &&& same_flags(o.quality, objects[i].1.quality)
            &&& !o.quality.overflow
            &&& o.timestamp is None
        }),
{
}

/// A message of type 3 is read object by object.
pub proof fn law_m_dp_na_1_observed(asdu: AsduModel, objects: <M_DP_NA_1 as View>::V, i: int)
    requires
        asdu.type_id == 3,
        asdu.typed::<M_DP_NA_1>(AsduAddressing::iec104()) == Ok::<<M_DP_NA_1 as View>::V, Error>(objects),
        0 <= i < objects.len(),
    ensures
        observed(asdu).len() == objects.len(),
        ({
            let o = observed(asdu)[i];
            &&& o.kind is DpNa
            &&& o.ioa == objects[i].0.0
            &&& (o.value matches PointValue::Double(d) && same_state(d, objects[i].1.state))
            &&& same_flags(o.quality, objects[i].1.quality)
            &&& !o.quality.overflow
            &&& o.timestamp is None
        }),
{
}

/// A message of type 9 is read object by object.
pub proof fn law_m_me_na_1_observed(asdu: AsduModel, objects: <M_ME_NA_1 as View>::V, i: int)
    requires
        asdu.type_id == 9,
        asdu.typed::<M_ME_NA_1>(AsduAddressing::iec104()) == Ok::<<M_ME_NA_1 as View>::V, Error>(objects),
        0 <= i < objects.len(),
    ensures
        observed(asdu).len() == objects.len(),
        ({
            let o = observed(asdu)[i];
            &&& o.kind is MeNa
            &&& o.ioa == objects[i].0.0
            &&& o.value == PointValue::Normalized(step_bits(objects[i].1.0.0 as int))
            &&& same_flags(o.quality, objects[i].1.1.quality)
            &&& o.quality.overflow == objects[i].1.1.overflow
            &&& o.timestamp is None
        }),
{
}

/// A message of type 11 is read object by object.
pub proof fn law_m_me_nb_1_observed(asdu: AsduModel, objects: <M_ME_NB_1 as View>::V, i: int)
    requires
        asdu.type_id == 11,
        asdu.typed::<M_ME_NB_1>(AsduAddressing::iec104()) == Ok::<<M_ME_NB_1 as View>::V, Error>(objects),
        0 <= i < objects.len(),
    ensures
        observed(asdu).len() == objects.len(),
        ({
            let o = observed(asdu)[i];
            &&& o.kind is MeNb
            &&& o.ioa == objects[i].0.0
            &&& o.value == PointValue::Scaled(objects[i].1.0.0)
            &&& same_flags(o.quality, objects[i].1.1.quality)
            &&& o.quality.overflow == objects[i].1.1.overflow
            &&& o.timestamp is None
        }),
{
}

/// A message of type 13 is read object by object.
pub proof fn law_m_me_nc_1_observed(asdu: AsduModel, objects: <M_ME_NC_1 as View>::V, i: int)
    requires
        asdu.type_id == 13,
        asdu.typed::<M_ME_NC_1>(AsduAddressing::iec104()) == Ok::<<M_ME_NC_1 as View>::V, Error>(objects),
        0 <= i < objects.len(),
    ensures
        observed(asdu).len() == objects.len(),
        ({
            let o = observed(asdu)[i];
            &&& o.kind is MeNc
            &&& o.ioa == objects[i].0.0
            &&& o.value == PointValue::Float(objects[i].1.0.0)
            &&& same_flags(o.quality, objects[i].1.1.quality)
            &&& o.quality.overflow == objects[i].1.1.overflow
            &&& o.timestamp is None
        }),
{
}

/// A message of type 30 is read object by object.
pub proof fn law_m_sp_tb_1_observed(asdu: AsduModel, objects: <M_SP_TB_1 as View>::V, i: int)
    requires
        asdu.type_id == 30,
        asdu.typed::<M_SP_TB_1>(AsduAddressing::iec104()) == Ok::<<M_SP_TB_1 as View>::V, Error>(objects),
        0 <= i < objects.len(),
    ensures
        observed(asdu).len() == objects.len(),
        ({
            let o = observed(asdu)[i];
            &&& o.kind is SpTb
            &&& o.ioa == objects[i].0.0
            &&& o.value == PointValue::Single(objects[i].1.0.on)
            &&& same_flags(o.quality, objects[i].1.0.quality)
            &&& !o.quality.overflow
            &&& o.timestamp == Some(objects[i].1.1)
        }),
{
}

/// A message of type 31 is read object by object.
pub proof fn law_m_dp_tb_1_observed(asdu: AsduModel, objects: <M_DP_TB_1 as View>::V, i: int)
    requires
        asdu.type_id == 31,
        asdu.typed::<M_DP_TB_1>(AsduAddressing::iec104()) == Ok::<<M_DP_TB_1 as View>::V, Error>(objects),
        0 <= i < objects.len(),
    ensures
        observed(asdu).len() == objects.len(),
        ({
            let o = observed(asdu)[i];
            &&& o.kind is DpTb
            &&& o.ioa == objects[i].0.0
            &&& (o.value matches PointValue::Double(d) && same_state(d, objects[i].1.0.state))
            &&& same_flags(o.quality, objects[i].1.0.quality)
            &&& !o.quality.overflow
            &&& o.timestamp == Some(objects[i].1.1)
        }),
{
}

/// A message of type 34 is read object by object.
pub proof fn law_m_me_td_1_observed(asdu: AsduModel, objects: <M_ME_TD_1 as View>::V, i: int)
    requires
        asdu.type_id == 34,
        asdu.typed::<M_ME_TD_1>(AsduAddressing::iec104()) == Ok::<<M_ME_TD_1 as View>::V, Error>(objects),
        0 <= i < objects.len(),
    ensures
        observed(asdu).len() == objects.len(),
        ({
            let o = observed(asdu)[i];
            &&& o.kind is MeTd
            &&& o.ioa == objects[i].0.0
            &&& o.value == PointValue::Normalized(step_bits(objects[i].1.0.0 as int))
            &&& same_flags(o.quality, objects[i].1.1.quality)
            &&& o.quality.overflow == objects[i].1.1.overflow
            &&& o.timestamp == Some(objects[i].1.2)
        }),
{
}

/// A message of type 35 is read object by object.
pub proof fn law_m_me_te_1_observed(asdu: AsduModel, objects: <M_ME_TE_1 as View>::V, i: int)
    requires
        asdu.type_id == 35,
        asdu.typed::<M_ME_TE_1>(AsduAddressing::iec104()) == Ok::<<M_ME_TE_1 as View>::V, Error>(objects),
        0 <= i < objects.len(),
    ensures
        observed(asdu).len() == objects.len(),
        ({
            let o = observed(asdu)[i];
            &&& o.kind is MeTe
            &&& o.ioa == objects[i].0.0
            &&& o.value == PointValue::Scaled(objects[i].1.0.0)
            &&& same_flags(o.quality, objects[i].1.1.quality)
            &&& o.quality.overflow == objects[i].1.1.overflow
            &&& o.timestamp == Some(objects[i].1.2)
        }),
{
}

/// A message of type 36 is read object by object.
pub proof fn law_m_me_tf_1_observed(asdu: AsduModel, objects: <M_ME_TF_1 as View>::V, i: int)
    requires
        asdu.type_id == 36,
        asdu.typed::<M_ME_TF_1>(AsduAddressing::iec104()) == Ok::<<M_ME_TF_1 as View>::V, Error>(objects),
        0 <= i < objects.len(),
    ensures
        observed(asdu).len() == objects.len(),
        ({
            let o = observed(asdu)[i];
            &&& o.kind is MeTf
            &&& o.ioa == objects[i].0.0
            &&& o.value == PointValue::Float(objects[i].1.0.0)
            &&& same_flags(o.quality, objects[i].1.1.quality)
            &&& o.quality.overflow == objects[i].1.1.overflow
            &&& o.timestamp == Some(objects[i].1.2)
        }),
{
}

/// A message of any other type is no observation.
pub proof fn law_others_not_observed(asdu: AsduModel)
    requires
        asdu.type_id != 1 && asdu.type_id != 3 && asdu.type_id != 9 && asdu.type_id != 11,
        asdu.type_id != 13 && asdu.type_id != 30 && asdu.type_id != 31,
        !(34 <= asdu.type_id <= 36),
    ensures
        observed(asdu) == Seq::<Observation>::empty(),
{
}

// ---------------------------------------------------------------------------
// What a master sends
// ---------------------------------------------------------------------------

/// What a master sends for a request is read as that request, with cause 6, by
/// the station that it is for.
pub proof fn law_request_read<P: AsduPayload>(content: P::V, ca: u16)
    requires
        P::section_fits(content, (Vsq { sequence: false, count: 1 }), AsduAddressing::iec104()),
    ensures
        says::<P>(activation::<P>(content, ca), P::code(), content, 6, CommonAddress(ca)),
{
    lemma_says::<P>(content, 1, 6, CommonAddress(ca));
}

// ---------------------------------------------------------------------------
// What an outstation sends on its own
// ---------------------------------------------------------------------------

/// A value that is set or simulated goes out as that point, with cause 3.
pub proof fn law_spontaneous_shown(ioa: u32, entry: PointEntry, ts: Cp56Time2a, ca: CommonAddress)
    requires
        ioa < 0x100_0000,
        ts.representable(),
    ensures
        value_matches(entry.kind, entry.value) ==> (spontaneous(ioa, entry, ts, ca) matches Some(
            bytes,
        ) && shows(bytes, ioa, entry, ts, 3, ca)),
        !value_matches(entry.kind, entry.value) ==> spontaneous(ioa, entry, ts, ca) is None,
{
    reveal(shows);
    if value_matches(entry.kind, entry.value) {
        law_point_observed(ioa, entry, ts, plain(3), ca);
    }
}

// ---------------------------------------------------------------------------
// Lists
// ---------------------------------------------------------------------------

/// Whether a list can be carried with an address for each object: the number is
/// right, the elements fit, and so do the addresses.
pub proof fn law_list_fits<E: Element>(objects: Seq<(Ioa, E)>, count: u8, addressing: AsduAddressing)
    ensures
        list_fits(objects, (Vsq { sequence: false, count }), addressing) <==> {
            &&& objects.len() == count
            &&& forall|i: int|
                0 <= i < objects.len() ==> (#[trigger] objects[i]).1.representable() && (
                match addressing.ioa_size {
                    IoaSize::One => objects[i].0.0 <= 255,
                    IoaSize::Two => objects[i].0.0 <= 65535,
                    IoaSize::Three => objects[i].0.0 <= 16777215,
                })
        },
{
    let vsq = Vsq { sequence: false, count };
    if list_fits(objects, vsq, addressing) {
        assert forall|i: int| 0 <= i < objects.len() implies (#[trigger] objects[i]).1.representable()
            && (match addressing.ioa_size {
            IoaSize::One => objects[i].0.0 <= 255,
            IoaSize::Two => objects[i].0.0 <= 65535,
            IoaSize::Three => objects[i].0.0 <= 16777215,
        }) by {
            assert(ioa_fits(objects[i].0, addressing.ioa_size));
        }
    }
}

/// A sequence can be carried if the number is right, the elements and the first
/// address fit, and the addresses follow each other.
pub proof fn law_sequence_fits<E: Element>(
    objects: Seq<(Ioa, E)>,
    count: u8,
    addressing: AsduAddressing,
)
    requires
        objects.len() > 0,
        objects[0].0.0 + objects.len() <= u32::MAX,
    ensures
        list_fits(objects, (Vsq { sequence: true, count }), addressing) <==> {
            &&& objects.len() == count
            &&& ioa_fits(objects[0].0, addressing.ioa_size)
            &&& forall|i: int|
                0 <= i < objects.len() ==> (#[trigger] objects[i]).1.representable()
                    && objects[i].0.0 == objects[0].0.0 + i
        },
{
    if list_fits(objects, (Vsq { sequence: true, count }), addressing) {
        assert forall|i: int| 0 <= i < objects.len() implies (#[trigger] objects[i]).0.0
            == objects[0].0.0 + i by {
            assert(objects[i].0 == nth_address(objects[0].0, i));
        }
    }
}

/// Whether a payload type is a list of objects on the wire, read as one and
/// fitting as one.
pub open spec fn is_list<P: AsduPayload<V = Seq<(Ioa, E)>>, E: Element>(
    content: Seq<(Ioa, E)>,
    s: Seq<u8>,
    vsq: Vsq,
    addressing: AsduAddressing,
) -> bool {
    &&& P::section(content, vsq, addressing) == list_wire(content, vsq, addressing)
    &&& P::section_decoded(s, vsq, addressing) == list_decoded::<E>(s, vsq, addressing)
    &&& P::section_fits(content, vsq, addressing) == list_fits(content, vsq, addressing)
}

/// Every monitored type is a list of objects, the time behind the value.
pub proof fn law_monitored_lists(s: Seq<u8>, vsq: Vsq, addressing: AsduAddressing)
    ensures
        forall|c: Seq<(Ioa, Siq)>| #[trigger]
            is_list::<M_SP_NA_1, Siq>(c, s, vsq, addressing),
        forall|c: Seq<(Ioa, Diq)>| #[trigger]
            is_list::<M_DP_NA_1, Diq>(c, s, vsq, addressing),
        forall|c: Seq<(Ioa, (Nva, Qds))>| #[trigger]
            is_list::<M_ME_NA_1, (Nva, Qds)>(c, s, vsq, addressing),
        forall|c: Seq<(Ioa, (Sva, Qds))>| #[trigger]
            is_list::<M_ME_NB_1, (Sva, Qds)>(c, s, vsq, addressing),
        forall|c: Seq<(Ioa, (R32, Qds))>| #[trigger]
            is_list::<M_ME_NC_1, (R32, Qds)>(c, s, vsq, addressing),
        forall|c: Seq<(Ioa, (Siq, Cp56Time2a))>| #[trigger]
            is_list::<M_SP_TB_1, (Siq, Cp56Time2a)>(c, s, vsq, addressing),
        forall|c: Seq<(Ioa, (Diq, Cp56Time2a))>| #[trigger]
            is_list::<M_DP_TB_1, (Diq, Cp56Time2a)>(c, s, vsq, addressing),
        forall|c: Seq<(Ioa, (Nva, Qds, Cp56Time2a))>| #[trigger]
            is_list::<M_ME_TD_1, (Nva, Qds, Cp56Time2a)>(c, s, vsq, addressing),
        forall|c: Seq<(Ioa, (Sva, Qds, Cp56Time2a))>| #[trigger]
            is_list::<M_ME_TE_1, (Sva, Qds, Cp56Time2a)>(c, s, vsq, addressing),
        forall|c: Seq<(Ioa, (R32, Qds, Cp56Time2a))>| #[trigger]
            is_list::<M_ME_TF_1, (R32, Qds, Cp56Time2a)>(c, s, vsq, addressing),
{
}

/// Every command type is a list of objects, the time behind the command, and so
/// is a directory.
pub proof fn law_command_lists(s: Seq<u8>, vsq: Vsq, addressing: AsduAddressing)
    ensures
        forall|c: Seq<(Ioa, Sco)>| #[trigger]
            is_list::<C_SC_NA_1, Sco>(c, s, vsq, addressing),
        forall|c: Seq<(Ioa, Dco)>| #[trigger]
            is_list::<C_DC_NA_1, Dco>(c, s, vsq, addressing),
        forall|c: Seq<(Ioa, Rco)>| #[trigger]
            is_list::<C_RC_NA_1, Rco>(c, s, vsq, addressing),
        forall|c: Seq<(Ioa, (Nva, Qos))>| #[trigger]
            is_list::<C_SE_NA_1, (Nva, Qos)>(c, s, vsq, addressing),
        forall|c: Seq<(Ioa, (Sva, Qos))>| #[trigger]
            is_list::<C_SE_NB_1, (Sva, Qos)>(c, s, vsq, addressing),
        forall|c: Seq<(Ioa, (R32, Qos))>| #[trigger]
            is_list::<C_SE_NC_1, (R32, Qos)>(c, s, vsq, addressing),
        forall|c: Seq<(Ioa, (Sco, Cp56Time2a))>| #[trigger]
            is_list::<C_SC_TA_1, (Sco, Cp56Time2a)>(c, s, vsq, addressing),
        forall|c: Seq<(Ioa, (Nva, Qos, Cp56Time2a))>| #[trigger]
            is_list::<C_SE_TA_1, (Nva, Qos, Cp56Time2a)>(c, s, vsq, addressing),
        forall|c: Seq<(Ioa, (Sva, Qos, Cp56Time2a))>| #[trigger]
            is_list::<C_SE_TB_1, (Sva, Qos, Cp56Time2a)>(c, s, vsq, addressing),
        forall|c: Seq<(Ioa, (R32, Qos, Cp56Time2a))>| #[trigger]
            is_list::<C_SE_TC_1, (R32, Qos, Cp56Time2a)>(c, s, vsq, addressing),
        forall|c: Seq<(Ioa, Qoi)>| #[trigger]
            is_list::<C_IC_NA_1, Qoi>(c, s, vsq, addressing),
        forall|c: Seq<(Ioa, DirectoryEntry)>| #[trigger]
            is_list::<F_DR_TA_1, DirectoryEntry>(c, s, vsq, addressing),
{
}

// ---------------------------------------------------------------------------
// What is left out
// ---------------------------------------------------------------------------

/// A message that cannot be read as its type is reported and not answered.
pub proof fn law_garbled_not_answered(
    asdu: AsduModel,
    rows: Seq<(u32, PointEntry)>,
    ca: CommonAddress,
    ts: Cp56Time2a,
)
    requires
        asdu.type_id == 100 ==> asdu.typed::<C_IC_NA_1>(AsduAddressing::iec104()) is Err,
        asdu.type_id == 101 ==> asdu.typed::<C_CI_NA_1>(AsduAddressing::iec104()) is Err,
        asdu.type_id == 102 ==> asdu.typed::<C_RD_NA_1>(AsduAddressing::iec104()) is Err,
        asdu.type_id == 103 ==> asdu.typed::<C_CS_NA_1>(AsduAddressing::iec104()) is Err,
        asdu.type_id == 105 ==> asdu.typed::<C_RP_NA_1>(AsduAddressing::iec104()) is Err,
        asdu.type_id == 45 ==> asdu.typed::<C_SC_NA_1>(AsduAddressing::iec104()) is Err,
        asdu.type_id == 46 ==> asdu.typed::<C_DC_NA_1>(AsduAddressing::iec104()) is Err,
        asdu.type_id == 47 ==> asdu.typed::<C_RC_NA_1>(AsduAddressing::iec104()) is Err,
        asdu.type_id == 48 ==> asdu.typed::<C_SE_NA_1>(AsduAddressing::iec104()) is Err,
        asdu.type_id == 49 ==> asdu.typed::<C_SE_NB_1>(AsduAddressing::iec104()) is Err,
        asdu.type_id == 50 ==> asdu.typed::<C_SE_NC_1>(AsduAddressing::iec104()) is Err,
        asdu.type_id == 58 ==> asdu.typed::<C_SC_TA_1>(AsduAddressing::iec104()) is Err,
        asdu.type_id == 61 ==> asdu.typed::<C_SE_TA_1>(AsduAddressing::iec104()) is Err,
        asdu.type_id == 62 ==> asdu.typed::<C_SE_TB_1>(AsduAddressing::iec104()) is Err,
        asdu.type_id == 63 ==> asdu.typed::<C_SE_TC_1>(AsduAddressing::iec104()) is Err,
    ensures
        replies(asdu, rows, ca, ts).len() == 0,
{
}

/// A point whose value does not have the shape of its kind is passed over, and
/// the others are sent as if it were not there.
pub proof fn law_misfits_passed_over(
    rows: Seq<(u32, PointEntry)>,
    ts: Cp56Time2a,
    cot: Cot,
    ca: CommonAddress,
)
    ensures
        point_steps(rows, ts, cot, ca) == point_steps(
            rows.filter(|row: (u32, PointEntry)| value_matches(row.1.kind, row.1.value)),
            ts,
            cot,
            ca,
        ),
    decreases rows.len(),
{
    reveal(Seq::filter);
    let fits = |row: (u32, PointEntry)| value_matches(row.1.kind, row.1.value);
    if rows.len() > 0 {
        let front = rows.drop_last();
        law_misfits_passed_over(front, ts, cot, ca);
        if fits(rows.last()) {
            let kept = front.filter(fits).push(rows.last());
            assert(rows.filter(fits) == kept);
            assert(kept.drop_last() =~= front.filter(fits));
        }
    }
}

/// A message is read only as the type that it says it has.
pub proof fn law_read_as_its_type<P: AsduPayload>(asdu: AsduModel, addressing: AsduAddressing)
    ensures
        asdu.type_id != P::code() ==> asdu.typed::<P>(addressing) == Err::<P::V, Error>(
            Error::UnknownAsduType(asdu.type_id),
        ),
        asdu.type_id == P::code() ==> asdu.typed::<P>(addressing) == P::section_decoded(
            asdu.payload,
            asdu.vsq,
            addressing,
        ).result,
{
}

} // verus!
