//! Where each field of an information element stands: the octets, bit by bit.

use vstd::prelude::*;
use crate::asdu::cot::{Cause, Cot};
use crate::asdu::element::Element;
use crate::asdu::envelope::AsduModel;
use crate::asdu::header::{
    ca_fits, ca_of, ca_wire, ioa_decoded, ioa_fits, ioa_wire, AsduAddressing, CaSize, CommonAddress,
    CotSize, Ioa, IoaSize, Vsq,
};
use crate::asdu::ie::{
    Bcr, Cp24Time2a, Cp56Time2a, Diq, Nva, Qds, Siq, Sva, R32,
};
use crate::asdu::io_list::{
    elements_wire, law_list_len, list_decoded, list_wire, sequence_decoded,
};
use crate::asdu::payload::AsduPayload;
use crate::asdu::types::command::{Dco, Qoi, Qos, Rco, Sco};
use crate::asdu::types::file::{
    counted_decoded, Afq, AfqAction, Checksum, DirectoryEntry, Frq, LengthOfFile, LengthOfSection, Lsq, NameOfFile,
    NameOfSection, Scq, ScqAction, SegmentModel, Sof, Srq, F_AF_NA_1, F_FR_NA_1, F_LS_NA_1,
    F_SC_NA_1, F_SG_NA_1, F_SR_NA_1,
};
use crate::asdu::types::system::{
    Coi, Qcc, Qrp, C_CI_NA_1, C_CS_NA_1, C_RD_NA_1, C_RP_NA_1, M_EI_NA_1,
};
use crate::bits::lemma_masks;
use crate::buf::{and_next, fixed, le32, mapped, Decoded};
use crate::error::Error;

verus! {

// ---------------------------------------------------------------------------
// Quality
// ---------------------------------------------------------------------------

/// A single point on the wire: its state in bit 0x01, BL 0x10, SB 0x20, NT 0x40
/// and IV 0x80.
pub proof fn law_single_point_on_the_wire(siq: Siq)
    ensures
        siq.wire().len() == 1,
        siq.wire()[0] & 0x01 != 0 <==> siq.on,
        siq.wire()[0] & 0x10 != 0 <==> siq.quality.blocked,
        siq.wire()[0] & 0x20 != 0 <==> siq.quality.substituted,
        siq.wire()[0] & 0x40 != 0 <==> siq.quality.not_topical,
        siq.wire()[0] & 0x80 != 0 <==> siq.quality.invalid,
        (siq.wire()[0] % 16) / 2 == 0,
        siq.representable(),
{
    lemma_masks(siq.wire()[0]);
}

/// A double point on the wire: its state in the two low bits, BL 0x10, SB 0x20,
/// NT 0x40 and IV 0x80.
pub proof fn law_double_point_on_the_wire(diq: Diq)
    ensures
        diq.wire().len() == 1,
        diq.wire()[0] % 4 == 0 <==> diq.state is Intermediate,
        diq.wire()[0] % 4 == 1 <==> diq.state is Off,
        diq.wire()[0] % 4 == 2 <==> diq.state is On,
        diq.wire()[0] % 4 == 3 <==> diq.state is Indeterminate,
        diq.wire()[0] & 0x10 != 0 <==> diq.quality.blocked,
        diq.wire()[0] & 0x20 != 0 <==> diq.quality.substituted,
        diq.wire()[0] & 0x40 != 0 <==> diq.quality.not_topical,
        diq.wire()[0] & 0x80 != 0 <==> diq.quality.invalid,
        (diq.wire()[0] % 16) / 4 == 0,
        diq.representable(),
{
    lemma_masks(diq.wire()[0]);
}

/// The quality of a measured value on the wire: OV 0x01, BL 0x10, SB 0x20, NT
/// 0x40 and IV 0x80.
pub proof fn law_quality_on_the_wire(qds: Qds)
    ensures
        qds.wire().len() == 1,
        qds.wire()[0] & 0x01 != 0 <==> qds.overflow,
        qds.wire()[0] & 0x10 != 0 <==> qds.quality.blocked,
        qds.wire()[0] & 0x20 != 0 <==> qds.quality.substituted,
        qds.wire()[0] & 0x40 != 0 <==> qds.quality.not_topical,
        qds.wire()[0] & 0x80 != 0 <==> qds.quality.invalid,
        (qds.wire()[0] % 16) / 2 == 0,
        qds.representable(),
{
    lemma_masks(qds.wire()[0]);
}

/// Every octet is read by the same bits, and the bits between are not looked
/// at.
pub proof fn law_quality_off_the_wire(s: Seq<u8>)
    requires
        s.len() >= 1,
    ensures
        Siq::decoded(s).used == 1 && Diq::decoded(s).used == 1 && Qds::decoded(s).used == 1,
        Siq::decoded(s).result matches Ok(siq) && {
            &&& siq.on <==> s[0] & 0x01 != 0
            &&& siq.quality.blocked <==> s[0] & 0x10 != 0
            &&& siq.quality.substituted <==> s[0] & 0x20 != 0
            &&& siq.quality.not_topical <==> s[0] & 0x40 != 0
            &&& siq.quality.invalid <==> s[0] & 0x80 != 0
        },
        Diq::decoded(s).result matches Ok(diq) && {
            &&& diq.state is Intermediate <==> s[0] % 4 == 0
            &&& diq.state is Off <==> s[0] % 4 == 1
            &&& diq.state is On <==> s[0] % 4 == 2
            &&& diq.state is Indeterminate <==> s[0] % 4 == 3
            &&& diq.quality.blocked <==> s[0] & 0x10 != 0
            &&& diq.quality.substituted <==> s[0] & 0x20 != 0
            &&& diq.quality.not_topical <==> s[0] & 0x40 != 0
            &&& diq.quality.invalid <==> s[0] & 0x80 != 0
        },
        Qds::decoded(s).result matches Ok(qds) && {
            &&& qds.overflow <==> s[0] & 0x01 != 0
            &&& qds.quality.blocked <==> s[0] & 0x10 != 0
            &&& qds.quality.substituted <==> s[0] & 0x20 != 0
            &&& qds.quality.not_topical <==> s[0] & 0x40 != 0
            &&& qds.quality.invalid <==> s[0] & 0x80 != 0
        },
{
    lemma_masks(s[0]);
}

// ---------------------------------------------------------------------------
// Values
// ---------------------------------------------------------------------------

/// Integers go low octet first, negative ones in two's complement; a short
/// floating-point number goes as its bit pattern, low octet first.
pub proof fn law_values_on_the_wire(n: Nva, v: Sva, r: R32)
    ensures
        n.wire().len() == 2 && v.wire().len() == 2 && r.wire().len() == 4,
        n.wire()[0] + 256 * n.wire()[1] == if n.0 < 0 {
            n.0 + 65536
        } else {
            n.0 as int
        },
        v.wire()[0] + 256 * v.wire()[1] == if v.0 < 0 {
            v.0 + 65536
        } else {
            v.0 as int
        },
        r.wire()[0] + 256 * r.wire()[1] + 65536 * r.wire()[2] + 16777216 * r.wire()[3] == r.0,
        n.representable() && v.representable() && r.representable(),
{
}

/// The same integers come off the wire.
pub proof fn law_values_off_the_wire(s: Seq<u8>)
    requires
        s.len() >= 4,
    ensures
        Nva::decoded(s).used == 2 && Sva::decoded(s).used == 2 && R32::decoded(s).used == 4,
        Nva::decoded(s).result matches Ok(n) && s[0] + 256 * s[1] == (if n.0 < 0 {
            n.0 + 65536
        } else {
            n.0 as int
        }),
        Sva::decoded(s).result matches Ok(v) && s[0] + 256 * s[1] == (if v.0 < 0 {
            v.0 + 65536
        } else {
            v.0 as int
        }),
        R32::decoded(s).result matches Ok(r) && s[0] + 256 * s[1] + 65536 * s[2] + 16777216 * s[3]
            == r.0,
{
}

/// A counter reading is a 32-bit integer, low octet first and in two's
/// complement, and a qualifier: sequence number in the five low bits, CY 0x20,
/// CA 0x40, IV 0x80.
pub proof fn law_counter_on_the_wire(c: Bcr)
    ensures
        c.wire().len() == 5,
        c.wire()[0] + 256 * c.wire()[1] + 65536 * c.wire()[2] + 16777216 * c.wire()[3]
            == if c.value < 0 {
            c.value + 4294967296
        } else {
            c.value as int
        },
        c.wire()[4] % 32 == c.sequence % 32,
        c.wire()[4] & 0x20 != 0 <==> c.carry,
        c.wire()[4] & 0x40 != 0 <==> c.adjusted,
        c.wire()[4] & 0x80 != 0 <==> c.invalid,
        c.representable() <==> c.sequence <= 31,
{
    lemma_four_octets(c.value as int);
    lemma_counter_qualifier(c);
}

proof fn lemma_four_octets(v: int)
    ensures
        le32(v).len() == 4,
        le32(v)[0] + 256 * le32(v)[1] + 65536 * le32(v)[2] + 16777216 * le32(v)[3] == v % 4294967296,
{
    let (a, b, c, d) = (v / 256, v / 65536, v / 16777216, v / 4294967296);
    assert(a / 256 == b);
    assert(b / 256 == c);
    assert(c / 256 == d);
    assert(le32(v)[0] == v - 256 * a);
    assert(le32(v)[1] == a - 256 * b);
    assert(le32(v)[2] == b - 256 * c);
    assert(le32(v)[3] == c - 256 * d);
    assert(v % 4294967296 == v - 4294967296 * d);
}

proof fn lemma_counter_qualifier(c: Bcr)
    ensures
        c.wire()[4] % 32 == c.sequence % 32,
        c.wire()[4] & 0x20 != 0 <==> c.carry,
        c.wire()[4] & 0x40 != 0 <==> c.adjusted,
        c.wire()[4] & 0x80 != 0 <==> c.invalid,
{
    lemma_masks(c.wire()[4]);
}

/// A counter reading comes off the wire from the same places.
pub proof fn law_counter_off_the_wire(s: Seq<u8>)
    requires
        s.len() >= 5,
    ensures
        Bcr::decoded(s).used == 5,
        Bcr::decoded(s).result matches Ok(d) && {
            &&& s[0] + 256 * s[1] + 65536 * s[2] + 16777216 * s[3] == if d.value < 0 {
                d.value + 4294967296
            } else {
                d.value as int
            }
            &&& d.sequence == s[4] % 32
            &&& d.carry <==> s[4] & 0x20 != 0
            &&& d.adjusted <==> s[4] & 0x40 != 0
            &&& d.invalid <==> s[4] & 0x80 != 0
        },
{
    lemma_masks(s[4]);
}

// ---------------------------------------------------------------------------
// Time tags
// ---------------------------------------------------------------------------

/// The short time tag: milliseconds low octet first, then the minute with IV
/// in bit 0x80.
pub proof fn law_short_time_on_the_wire(t: Cp24Time2a, s: Seq<u8>)
    ensures
        t.wire().len() == 3,
        t.wire()[0] + 256 * t.wire()[1] == t.milliseconds,
        t.wire()[2] % 64 == t.minute % 64,
        t.wire()[2] & 0x40 == 0,
        t.wire()[2] & 0x80 != 0 <==> t.invalid,
        t.representable() <==> t.minute <= 63,
        s.len() >= 3 ==> Cp24Time2a::decoded(s).used == 3 && (Cp24Time2a::decoded(s).result matches Ok(
            d,
        ) && {
            &&& d.milliseconds == s[0] + 256 * s[1]
            &&& d.minute == s[2] % 64
            &&& d.invalid <==> s[2] & 0x80 != 0
        }),
{
    lemma_masks(t.wire()[2]);
    if s.len() >= 3 {
        lemma_masks(s[2]);
    }
}

/// The full time tag, octet by octet: milliseconds (two), minute with GEN 0x40
/// and IV 0x80, hour with SU 0x80, day of month below day of week, month, year.
pub proof fn law_time_on_the_wire(t: Cp56Time2a)
    ensures
        t.wire().len() == 7,
        t.wire()[0] + 256 * t.wire()[1] == t.milliseconds,
        t.wire()[2] % 64 == t.minute % 64,
        t.wire()[2] & 0x40 != 0 <==> t.genuine,
        t.wire()[2] & 0x80 != 0 <==> t.invalid,
        t.wire()[3] % 32 == t.hour % 32,
        (t.wire()[3] / 32) % 4 == 0,
        t.wire()[3] & 0x80 != 0 <==> t.summer_time,
        t.wire()[4] % 32 == t.day % 32,
        t.wire()[4] / 32 == t.day_of_week % 8,
        t.wire()[5] == t.month % 16,
        t.wire()[6] == t.year % 128,
        t.representable() <==> t.minute <= 63 && t.hour <= 31 && t.day <= 31 && t.day_of_week <= 7
            && t.month <= 15 && t.year <= 127,
{
    lemma_masks(t.wire()[2]);
    lemma_masks(t.wire()[3]);
}

/// The full time tag is read from the same places.
pub proof fn law_time_off_the_wire(s: Seq<u8>)
    requires
        s.len() >= 7,
    ensures
        Cp56Time2a::decoded(s).used == 7,
        Cp56Time2a::decoded(s).result matches Ok(t) && {
            &&& t.milliseconds == s[0] + 256 * s[1]
            &&& t.minute == s[2] % 64
            &&& t.genuine <==> s[2] & 0x40 != 0
            &&& t.invalid <==> s[2] & 0x80 != 0
            &&& t.hour == s[3] % 32
            &&& t.summer_time <==> s[3] & 0x80 != 0
            &&& t.day == s[4] % 32
            &&& t.day_of_week == s[4] / 32
            &&& t.month == s[5] % 16
            &&& t.year == s[6] % 128
        },
{
    lemma_masks(s[2]);
    lemma_masks(s[3]);
}

// ---------------------------------------------------------------------------
// Command qualifiers
// ---------------------------------------------------------------------------

/// A single command on the wire: its state in bit 0x01, the qualifier from bit
/// 0x04 up, and S/E in bit 0x80, set for SELECT.
pub proof fn law_single_command_on_the_wire(s: Sco)
    ensures
        s.wire().len() == 1,
        s.wire()[0] & 0x01 != 0 <==> s.on,
        (s.wire()[0] / 2) % 2 == 0,
        (s.wire()[0] / 4) % 32 == s.qualifier % 32,
        s.wire()[0] & 0x80 != 0 <==> s.select,
        s.representable() <==> s.qualifier <= 31,
{
    lemma_masks(s.wire()[0]);
}

/// A double command on the wire: off 1 and on 2 in the two low bits, the
/// qualifier above, and S/E in bit 0x80.
pub proof fn law_double_command_on_the_wire(d: Dco)
    ensures
        d.wire().len() == 1,
        d.wire()[0] % 4 == 0 <==> d.state is Intermediate,
        d.wire()[0] % 4 == 1 <==> d.state is Off,
        d.wire()[0] % 4 == 2 <==> d.state is On,
        d.wire()[0] % 4 == 3 <==> d.state is Indeterminate,
        (d.wire()[0] / 4) % 32 == d.qualifier % 32,
        d.wire()[0] & 0x80 != 0 <==> d.select,
        d.representable() <==> d.qualifier <= 31,
{
    lemma_masks(d.wire()[0]);
}

/// A regulating step on the wire: lower 1 and higher 2 in the two low bits, the
/// qualifier above, and S/E in bit 0x80.
pub proof fn law_regulating_step_on_the_wire(r: Rco)
    ensures
        r.wire().len() == 1,
        r.wire()[0] % 4 == 0 <==> r.direction is NotPermitted0,
        r.wire()[0] % 4 == 1 <==> r.direction is Lower,
        r.wire()[0] % 4 == 2 <==> r.direction is Higher,
        r.wire()[0] % 4 == 3 <==> r.direction is NotPermitted3,
        (r.wire()[0] / 4) % 32 == r.qualifier % 32,
        r.wire()[0] & 0x80 != 0 <==> r.select,
        r.representable() <==> r.qualifier <= 31,
{
    lemma_masks(r.wire()[0]);
}

/// Commands are read from the same bits.
pub proof fn law_commands_off_the_wire(s: Seq<u8>)
    requires
        s.len() >= 1,
    ensures
        Sco::decoded(s).used == 1 && Dco::decoded(s).used == 1 && Rco::decoded(s).used == 1,
        Sco::decoded(s).result matches Ok(c) && {
            &&& c.on <==> s[0] & 0x01 != 0
            &&& c.qualifier == (s[0] / 4) % 32
            &&& c.select <==> s[0] & 0x80 != 0
        },
        Dco::decoded(s).result matches Ok(c) && {
            &&& c.state is Intermediate <==> s[0] % 4 == 0
            &&& c.state is Off <==> s[0] % 4 == 1
            &&& c.state is On <==> s[0] % 4 == 2
            &&& c.state is Indeterminate <==> s[0] % 4 == 3
            &&& c.qualifier == (s[0] / 4) % 32
            &&& c.select <==> s[0] & 0x80 != 0
        },
        Rco::decoded(s).result matches Ok(c) && {
            &&& c.direction is NotPermitted0 <==> s[0] % 4 == 0
            &&& c.direction is Lower <==> s[0] % 4 == 1
            &&& c.direction is Higher <==> s[0] % 4 == 2
            &&& c.direction is NotPermitted3 <==> s[0] % 4 == 3
            &&& c.qualifier == (s[0] / 4) % 32
            &&& c.select <==> s[0] & 0x80 != 0
        },
{
    lemma_masks(s[0]);
}

/// Qualifiers: set-point (QL in seven bits, S/E 0x80), interrogation and reset
/// (a whole octet), counter interrogation (group in six bits, freeze above),
/// cause of initialisation (seven bits, parameter change 0x80).
pub proof fn law_qualifiers_on_the_wire(qos: Qos, qoi: Qoi, qcc: Qcc, qrp: Qrp, coi: Coi)
    ensures
        qos.wire().len() == 1 && qoi.wire().len() == 1 && qcc.wire().len() == 1,
        qrp.wire().len() == 1 && coi.wire().len() == 1,
        qos.wire()[0] % 128 == qos.qualifier % 128,
        qos.wire()[0] & 0x80 != 0 <==> qos.select,
        qoi.wire()[0] == qoi.0,
        qcc.wire()[0] % 64 == qcc.group % 64,
        qcc.wire()[0] / 64 == qcc.freeze % 4,
        qrp.wire()[0] == qrp.0,
        coi.wire()[0] % 128 == coi.cause % 128,
        coi.wire()[0] & 0x80 != 0 <==> coi.after_param_change,
        qos.representable() <==> qos.qualifier <= 127,
        qcc.representable() <==> qcc.group <= 63 && qcc.freeze <= 3,
        coi.representable() <==> coi.cause <= 127,
        qoi.representable() && qrp.representable(),
{
    lemma_masks(qos.wire()[0]);
    lemma_masks(coi.wire()[0]);
}

/// Qualifiers are read from the same bits.
pub proof fn law_qualifiers_off_the_wire(s: Seq<u8>)
    requires
        s.len() >= 1,
    ensures
        Qos::decoded(s).used == 1 && Qoi::decoded(s).used == 1 && Qcc::decoded(s).used == 1,
        Qrp::decoded(s).used == 1 && Coi::decoded(s).used == 1,
        Qos::decoded(s).result matches Ok(q) && q.qualifier == s[0] % 128 && (q.select <==> s[0]
            & 0x80 != 0),
        Qoi::decoded(s).result matches Ok(q) && q.0 == s[0],
        Qcc::decoded(s).result matches Ok(q) && q.group == s[0] % 64 && q.freeze == s[0] / 64,
        Qrp::decoded(s).result matches Ok(q) && q.0 == s[0],
        Coi::decoded(s).result matches Ok(q) && q.cause == s[0] % 128 && (q.after_param_change <==> s[0]
            & 0x80 != 0),
{
    lemma_masks(s[0]);
}

// ---------------------------------------------------------------------------
// File transfer
// ---------------------------------------------------------------------------

/// Names and lengths: two octets and three octets, low octet first.
pub proof fn law_file_names_on_the_wire(
    f: NameOfFile,
    n: NameOfSection,
    l: LengthOfFile,
    m: LengthOfSection,
    c: Checksum,
    s: Seq<u8>,
)
    ensures
        f.wire().len() == 2 && n.wire().len() == 2 && l.wire().len() == 3 && m.wire().len() == 3,
        f.wire()[0] + 256 * f.wire()[1] == f.0,
        n.wire()[0] + 256 * n.wire()[1] == n.0,
        l.wire()[0] + 256 * l.wire()[1] + 65536 * l.wire()[2] == l.0 % 16777216,
        m.wire()[0] + 256 * m.wire()[1] + 65536 * m.wire()[2] == m.0 % 16777216,
        c.wire() == seq![c.0],
        l.representable() <==> l.0 <= 16777215,
        m.representable() <==> m.0 <= 16777215,
        f.representable() && n.representable() && c.representable(),
        NameOfSection::WHOLE_FILE == 0,
        s.len() >= 3 ==> {
            &&& NameOfFile::decoded(s).used == 2
            &&& NameOfSection::decoded(s).used == 2
            &&& LengthOfFile::decoded(s).used == 3
            &&& LengthOfSection::decoded(s).used == 3
            &&& Checksum::decoded(s).used == 1
            &&& NameOfFile::decoded(s).result matches Ok(d) && d.0 == s[0] + 256 * s[1]
            &&& NameOfSection::decoded(s).result matches Ok(d) && d.0 == s[0] + 256 * s[1]
            &&& LengthOfFile::decoded(s).result matches Ok(d) && d.0 == s[0] + 256 * s[1] + 65536
                * s[2]
            &&& LengthOfSection::decoded(s).result matches Ok(d) && d.0 == s[0] + 256 * s[1] + 65536
                * s[2]
            &&& Checksum::decoded(s).result matches Ok(d) && d.0 == s[0]
        },
{
}

/// File and section ready: a code in seven bits, and bit 0x80 for a refusal.
pub proof fn law_ready_on_the_wire(f: Frq, q: Srq)
    ensures
        f.wire().len() == 1 && q.wire().len() == 1,
        f.wire()[0] % 128 == f.code % 128,
        f.wire()[0] & 0x80 != 0 <==> f.negative,
        q.wire()[0] % 128 == q.code % 128,
        q.wire()[0] & 0x80 != 0 <==> q.negative,
        f.representable() <==> f.code <= 127,
        q.representable() <==> q.code <= 127,
{
    lemma_masks(f.wire()[0]);
    lemma_masks(q.wire()[0]);
}

/// The status of a file: five bits, LFD 0x20, FOR 0x40, FA 0x80.
pub proof fn law_file_status_on_the_wire(o: Sof)
    ensures
        o.wire().len() == 1,
        o.wire()[0] % 32 == o.status % 32,
        o.wire()[0] & 0x20 != 0 <==> o.last_file,
        o.wire()[0] & 0x40 != 0 <==> o.sub_directory,
        o.wire()[0] & 0x80 != 0 <==> o.active,
        o.representable() <==> o.status <= 31,
{
    lemma_masks(o.wire()[0]);
}

/// Readiness and status are read from the same bits.
pub proof fn law_file_status_off_the_wire(s: Seq<u8>)
    requires
        s.len() >= 1,
    ensures
        Frq::decoded(s).used == 1 && Srq::decoded(s).used == 1 && Sof::decoded(s).used == 1,
        Frq::decoded(s).result matches Ok(d) && d.code == s[0] % 128 && (d.negative <==> s[0] & 0x80
            != 0),
        Srq::decoded(s).result matches Ok(d) && d.code == s[0] % 128 && (d.negative <==> s[0] & 0x80
            != 0),
        Sof::decoded(s).result matches Ok(d) && d.status == s[0] % 32 && (d.last_file <==> s[0]
            & 0x20 != 0) && (d.sub_directory <==> s[0] & 0x40 != 0) && (d.active <==> s[0] & 0x80
            != 0),
{
    lemma_masks(s[0]);
}

/// A call: the action in the low nibble, by number, and a status above it.
pub proof fn law_calls_on_the_wire(q: Scq, s: Seq<u8>)
    ensures
        q.wire().len() == 1,
        q.wire()[0] / 16 == q.status % 16,
        q.action is Default ==> q.wire()[0] % 16 == 0,
        q.action is SelectFile ==> q.wire()[0] % 16 == 1,
        q.action is RequestFile ==> q.wire()[0] % 16 == 2,
        q.action is DeactivateFile ==> q.wire()[0] % 16 == 3,
        q.action is DeleteFile ==> q.wire()[0] % 16 == 4,
        q.action is SelectSection ==> q.wire()[0] % 16 == 5,
        q.action is RequestSection ==> q.wire()[0] % 16 == 6,
        q.action is DeactivateSection ==> q.wire()[0] % 16 == 7,
        q.action matches ScqAction::Other(b) ==> q.wire()[0] % 16 == b % 16,
        q.representable() <==> q.status <= 15 && (q.action matches ScqAction::Other(b) ==> 8 <= b
            <= 15),
        s.len() >= 1 ==> Scq::decoded(s).used == 1 && (Scq::decoded(s).result matches Ok(d) && {
            &&& d.status == s[0] / 16
            &&& d.action is Default <==> s[0] % 16 == 0
            &&& d.action is SelectFile <==> s[0] % 16 == 1
            &&& d.action is RequestFile <==> s[0] % 16 == 2
            &&& d.action is DeactivateFile <==> s[0] % 16 == 3
            &&& d.action is DeleteFile <==> s[0] % 16 == 4
            &&& d.action is SelectSection <==> s[0] % 16 == 5
            &&& d.action is RequestSection <==> s[0] % 16 == 6
            &&& d.action is DeactivateSection <==> s[0] % 16 == 7
            &&& s[0] % 16 >= 8 ==> d.action == ScqAction::Other(s[0] % 16)
        }),
{
}

/// The end of a section and the acknowledgement, by number; an acknowledgement
/// has a status above it.
pub proof fn law_acknowledgements_on_the_wire(l: Lsq, a: Afq, s: Seq<u8>)
    ensures
        l.wire().len() == 1 && a.wire().len() == 1,
        l is Default ==> l.wire()[0] == 0,
        l is SectionWithoutDeactivate ==> l.wire()[0] == 1,
        l is SectionWithDeactivate ==> l.wire()[0] == 2,
        l is FileWithoutDeactivate ==> l.wire()[0] == 3,
        l is FileWithDeactivate ==> l.wire()[0] == 4,
        l matches Lsq::Other(b) ==> l.wire()[0] == b,
        a.wire()[0] / 16 == a.status % 16,
        a.action is Default ==> a.wire()[0] % 16 == 0,
        a.action is PositiveFile ==> a.wire()[0] % 16 == 1,
        a.action is NegativeFile ==> a.wire()[0] % 16 == 2,
        a.action is PositiveSection ==> a.wire()[0] % 16 == 3,
        a.action is NegativeSection ==> a.wire()[0] % 16 == 4,
        a.action matches AfqAction::Other(b) ==> a.wire()[0] % 16 == b % 16,
        l.representable() <==> (l matches Lsq::Other(b) ==> 5 <= b),
        a.representable() <==> a.status <= 15 && (a.action matches AfqAction::Other(b) ==> 5 <= b
            <= 15),
        s.len() >= 1 ==> Lsq::decoded(s).used == 1 && (Lsq::decoded(s).result matches Ok(d) && {
            &&& d is Default <==> s[0] == 0
            &&& d is SectionWithoutDeactivate <==> s[0] == 1
            &&& d is SectionWithDeactivate <==> s[0] == 2
            &&& d is FileWithoutDeactivate <==> s[0] == 3
            &&& d is FileWithDeactivate <==> s[0] == 4
            &&& s[0] >= 5 ==> d == Lsq::Other(s[0])
        }),
        s.len() >= 1 ==> Afq::decoded(s).used == 1 && (Afq::decoded(s).result matches Ok(d) && {
            &&& d.status == s[0] / 16
            &&& d.action is Default <==> s[0] % 16 == 0
            &&& d.action is PositiveFile <==> s[0] % 16 == 1
            &&& d.action is NegativeFile <==> s[0] % 16 == 2
            &&& d.action is PositiveSection <==> s[0] % 16 == 3
            &&& d.action is NegativeSection <==> s[0] % 16 == 4
            &&& s[0] % 16 >= 5 ==> d.action == AfqAction::Other(s[0] % 16)
        }),
{
}

// ---------------------------------------------------------------------------
// Header fields
// ---------------------------------------------------------------------------

/// The structure qualifier has the count in seven bits and SQ in bit 0x80. The
/// cause of transmission has the cause in six bits, P/N 0x40 and T 0x80.
pub proof fn law_header_on_the_wire(vsq: Vsq, cot: Cot, b: u8, originator: u8)
    ensures
        vsq.octet() % 128 == vsq.count % 128,
        vsq.octet() & 0x80 != 0 <==> vsq.sequence,
        Vsq::of_octet(b).count == b % 128,
        Vsq::of_octet(b).sequence <==> b & 0x80 != 0,
        cot.octet() % 64 == cot.cause.0 % 64,
        cot.octet() & 0x40 != 0 <==> cot.negative,
        cot.octet() & 0x80 != 0 <==> cot.test,
        Cot::of_octets(b, originator).cause.0 == b % 64,
        Cot::of_octets(b, originator).negative <==> b & 0x40 != 0,
        Cot::of_octets(b, originator).test <==> b & 0x80 != 0,
        Cot::of_octets(b, originator).originator == originator,
{
    lemma_masks(vsq.octet());
    lemma_masks(cot.octet());
    lemma_masks(b);
}

/// The causes of transmission have their standard numbers.
pub proof fn law_cause_numbers()
    ensures
        Cause::PERIODIC == 1 && Cause::BACKGROUND == 2 && Cause::SPONTANEOUS == 3,
        Cause::INITIALIZED == 4 && Cause::REQUEST == 5 && Cause::ACTIVATION == 6,
        Cause::ACTIVATION_CON == 7 && Cause::DEACTIVATION == 8 && Cause::DEACTIVATION_CON == 9,
        Cause::ACTIVATION_TERMINATION == 10 && Cause::RETURN_REMOTE == 11,
        Cause::RETURN_LOCAL == 12 && Cause::FILE_TRANSFER == 13,
        Cause::INTERROGATED_GENERAL == 20 && Cause::REQUESTED_COUNTER_GENERAL == 37,
        Cause::UNKNOWN_TYPE_ID == 44 && Cause::UNKNOWN_CAUSE == 45,
        Cause::UNKNOWN_CA == 46 && Cause::UNKNOWN_IOA == 47,
        Qoi::GENERAL == 20,
{
}

/// Addresses go low octet first in as many octets as the link is set up for,
/// and lose the octets above.
pub proof fn law_addresses_on_the_wire(ca: CommonAddress, ioa: Ioa, s: Seq<u8>)
    ensures
        ca_wire(ca, CaSize::One) == seq![(ca.0 % 256) as u8],
        ca_wire(ca, CaSize::Two).len() == 2,
        ca_wire(ca, CaSize::Two)[0] + 256 * ca_wire(ca, CaSize::Two)[1] == ca.0,
        ioa_wire(ioa, IoaSize::One) == seq![(ioa.0 % 256) as u8],
        ioa_wire(ioa, IoaSize::Two).len() == 2,
        ioa_wire(ioa, IoaSize::Two)[0] + 256 * ioa_wire(ioa, IoaSize::Two)[1] == ioa.0 % 65536,
        ioa_wire(ioa, IoaSize::Three).len() == 3,
        ioa_wire(ioa, IoaSize::Three)[0] + 256 * ioa_wire(ioa, IoaSize::Three)[1] + 65536
            * ioa_wire(ioa, IoaSize::Three)[2] == ioa.0 % 16777216,
        ca_fits(ca, CaSize::One) <==> ca.0 <= 255,
        ca_fits(ca, CaSize::Two),
        ioa_fits(ioa, IoaSize::One) <==> ioa.0 <= 255,
        ioa_fits(ioa, IoaSize::Two) <==> ioa.0 <= 65535,
        ioa_fits(ioa, IoaSize::Three) <==> ioa.0 <= 16777215,
        s.len() >= 3 ==> {
            &&& ca_of(s, CaSize::One).0 == s[0]
            &&& ca_of(s, CaSize::Two).0 == s[0] + 256 * s[1]
            &&& ioa_decoded(s, IoaSize::One).used == 1
            &&& ioa_decoded(s, IoaSize::Two).used == 2
            &&& ioa_decoded(s, IoaSize::Three).used == 3
            &&& ioa_decoded(s, IoaSize::One).result matches Ok(a) && a.0 == s[0]
            &&& ioa_decoded(s, IoaSize::Two).result matches Ok(a) && a.0 == s[0] + 256 * s[1]
            &&& ioa_decoded(s, IoaSize::Three).result matches Ok(a) && a.0 == s[0] + 256 * s[1]
                + 65536 * s[2]
        },
{
}

// ---------------------------------------------------------------------------
// Whole messages
// ---------------------------------------------------------------------------

/// A message: Type ID, structure qualifier, cause of transmission with or
/// without originator, common address in one octet or two, then the objects.
pub proof fn law_message_on_the_wire(asdu: AsduModel, addressing: AsduAddressing)
    ensures
        asdu.wire(addressing) == seq![asdu.type_id, asdu.vsq.octet()] + (match addressing.cot_size {
            CotSize::One => seq![asdu.cot.octet()],
            CotSize::Two => seq![asdu.cot.octet(), asdu.cot.originator],
        }) + (match addressing.ca_size {
            CaSize::One => seq![(asdu.ca.0 % 256) as u8],
            CaSize::Two => seq![(asdu.ca.0 % 256) as u8, (asdu.ca.0 / 256) as u8],
        }) + asdu.payload,
        asdu.fits(addressing) <==> asdu.vsq.count <= 127 && asdu.cot.cause.0 <= 63 && (
        addressing.cot_size is One ==> asdu.cot.originator == 0) && (addressing.ca_size is One
            ==> asdu.ca.0 <= 255),
        AsduAddressing::iec104() == (AsduAddressing {
            cot_size: CotSize::Two,
            ca_size: CaSize::Two,
            ioa_size: IoaSize::Three,
        }),
{
}

/// A message is read from the same places; one that is cut off in its header is
/// incomplete.
pub proof fn law_message_off_the_wire(s: Seq<u8>, addressing: AsduAddressing, c: int, a: int)
    requires
        c == (if addressing.cot_size is One {
            1
        } else {
            2int
        }),
        a == (if addressing.ca_size is One {
            1
        } else {
            2int
        }),
    ensures
        s.len() < 2 + c + a ==> AsduModel::decoded(s, addressing).result == Err::<AsduModel, Error>(
            Error::Incomplete { needed: (2 + c + a) as usize, have: s.len() as usize },
        ),
        s.len() >= 2 + c + a ==> (AsduModel::decoded(s, addressing).result matches Ok(asdu) && {
            &&& asdu.type_id == s[0]
            &&& asdu.vsq == Vsq::of_octet(s[1])
            &&& asdu.cot == Cot::of_octets(
                s[2],
                if c == 1 {
                    0
                } else {
                    s[3]
                },
            )
            &&& asdu.ca.0 == s[2 + c] + (if a == 1 {
                0int
            } else {
                256 * s[3 + c]
            })
            &&& asdu.payload == s.skip(2 + c + a)
        }),
{
}

/// Where the objects of a list stand when each has its own address: one behind
/// the other, all of the same length, address before element.
pub proof fn law_object_positions<E: Element>(
    objects: Seq<(Ioa, E)>,
    count: u8,
    addressing: AsduAddressing,
    a: int,
    i: int,
)
    requires
        a == (match addressing.ioa_size {
            IoaSize::One => 1,
            IoaSize::Two => 2,
            IoaSize::Three => 3int,
        }),
        0 <= i < objects.len(),
    ensures
        ({
            let w = list_wire(objects, (Vsq { sequence: false, count }), addressing);
            let each = a + E::wire_len();
            &&& w.len() == objects.len() * each
            &&& 0 <= i * each && i * each + each <= w.len()
            &&& w.subrange(i * each, i * each + each) == ioa_wire(
                objects[i].0,
                addressing.ioa_size,
            ) + objects[i].1.wire()
        }),
    decreases objects.len(),
{
    let vsq = Vsq { sequence: false, count };
    let each = a + E::wire_len();
    let n = objects.len() as int;
    let front = objects.drop_last();
    let w = list_wire(objects, vsq, addressing);
    let head = list_wire(front, vsq, addressing);
    let last = ioa_wire(objects.last().0, addressing.ioa_size) + objects.last().1.wire();
    law_list_len(objects, vsq, addressing);
    law_list_len(front, vsq, addressing);
    objects.last().1.law_wire_len();
    assert(w =~= head + last);
    assert(n * each == (n - 1) * each + each) by (nonlinear_arith);
    if i == n - 1 {
        assert(0 <= i * each) by (nonlinear_arith)
            requires
                i >= 0,
                each >= 0,
        ;
        assert(w.subrange(i * each, i * each + each) =~= last);
    } else {
        law_object_positions(front, count, addressing, a, i);
        assert(w.subrange(i * each, i * each + each) =~= head.subrange(i * each, i * each + each));
    }
}

/// Where the elements of a sequence stand: the first address, then the elements
/// one behind the other.
pub proof fn law_sequence_positions<E: Element>(
    objects: Seq<(Ioa, E)>,
    count: u8,
    addressing: AsduAddressing,
    i: int,
)
    requires
        0 <= i < objects.len(),
    ensures
        ({
            let w = list_wire(objects, (Vsq { sequence: true, count }), addressing);
            let first = ioa_wire(objects[0].0, addressing.ioa_size);
            let each = E::wire_len() as int;
            &&& w.take(first.len() as int) == first
            &&& w.len() == first.len() + objects.len() * each
            &&& 0 <= i * each && i * each + each <= w.len() - first.len()
            &&& w.skip(first.len() as int).subrange(i * each, i * each + each)
                == objects[i].1.wire()
        }),
{
    let w = list_wire(objects, Vsq { sequence: true, count }, addressing);
    let first = ioa_wire(objects[0].0, addressing.ioa_size);
    lemma_elements(objects, i);
    assert(w.take(first.len() as int) =~= first);
    assert(w.skip(first.len() as int) =~= elements_wire(objects));
}

proof fn lemma_elements<E: Element>(objects: Seq<(Ioa, E)>, i: int)
    requires
        0 <= i < objects.len(),
    ensures
        ({
            let w = elements_wire(objects);
            let each = E::wire_len() as int;
            &&& w.len() == objects.len() * each
            &&& 0 <= i * each && i * each + each <= w.len()
            &&& w.subrange(i * each, i * each + each) == objects[i].1.wire()
        }),
    decreases objects.len(),
{
    let each = E::wire_len() as int;
    let n = objects.len() as int;
    let front = objects.drop_last();
    let w = elements_wire(objects);
    let head = elements_wire(front);
    objects.last().1.law_wire_len();
    assert(n * each == (n - 1) * each + each) by (nonlinear_arith);
    assert(0 <= i * each) by (nonlinear_arith)
        requires
            i >= 0,
            each >= 0,
    ;
    if n > 1 {
        lemma_elements(front, if i == n - 1 {
            0
        } else {
            i
        });
    }
    if i == n - 1 {
        assert(w.subrange(i * each, i * each + each) =~= objects.last().1.wire());
    } else {
        assert(w.subrange(i * each, i * each + each) =~= head.subrange(i * each, i * each + each));
    }
}

/// The elements of a sequence get consecutive addresses.
pub proof fn law_sequence_addresses<E: Element>(
    s: Seq<u8>,
    count: u8,
    addressing: AsduAddressing,
    objects: Seq<(Ioa, E)>,
    i: int,
)
    requires
        list_decoded::<E>(s, (Vsq { sequence: true, count }), addressing).result == Ok::<
            Seq<(Ioa, E)>,
            Error,
        >(objects),
        0 <= i < objects.len(),
        objects[0].0.0 + i <= u32::MAX,
    ensures
        objects[i].0.0 == objects[0].0.0 + i,
        ioa_decoded(s, addressing.ioa_size).result == Ok::<Ioa, Error>(objects[0].0),
{
    if count > 0 {
        let base = ioa_decoded(s, addressing.ioa_size).result->Ok_0;
        let t = s.skip(ioa_decoded(s, addressing.ioa_size).used as int);
        lemma_sequence_addresses::<E>(t, count as nat, base);
    }
}

proof fn lemma_sequence_addresses<E: Element>(s: Seq<u8>, n: nat, base: Ioa)
    ensures
        sequence_decoded::<E>(s, n, base).result matches Ok(objects) ==> objects.len() == n
            && forall|i: int|
            0 <= i < n ==> (#[trigger] objects[i]).0.0 == (base.0 + i) % 0x1_0000_0000,
    decreases n,
{
    if n > 0 {
        lemma_sequence_addresses::<E>(s, (n - 1) as nat, base);
    }
}

// ---------------------------------------------------------------------------
// File-transfer messages
// ---------------------------------------------------------------------------

/// The messages of a file transfer are their fields one behind the other, in
/// this order.
pub proof fn law_file_messages_on_the_wire(
    fr: F_FR_NA_1,
    sr: F_SR_NA_1,
    sc: F_SC_NA_1,
    ls: F_LS_NA_1,
    af: F_AF_NA_1,
    vsq: Vsq,
    addressing: AsduAddressing,
)
    ensures
        F_FR_NA_1::section(fr, vsq, addressing) == ioa_wire(fr.ioa, addressing.ioa_size)
            + fr.nof.wire() + fr.lof.wire() + fr.frq.wire(),
        F_SR_NA_1::section(sr, vsq, addressing) == ioa_wire(sr.ioa, addressing.ioa_size)
            + sr.nof.wire() + sr.nos.wire() + sr.los.wire() + sr.srq.wire(),
        F_SC_NA_1::section(sc, vsq, addressing) == ioa_wire(sc.ioa, addressing.ioa_size)
            + sc.nof.wire() + sc.nos.wire() + sc.scq.wire(),
        F_LS_NA_1::section(ls, vsq, addressing) == ioa_wire(ls.ioa, addressing.ioa_size)
            + ls.nof.wire() + ls.nos.wire() + ls.lsq.wire() + ls.chs.wire(),
        F_AF_NA_1::section(af, vsq, addressing) == ioa_wire(af.ioa, addressing.ioa_size)
            + af.nof.wire() + af.nos.wire() + af.afq.wire(),
{
    assert(F_FR_NA_1::section(fr, vsq, addressing) =~= ioa_wire(fr.ioa, addressing.ioa_size)
        + fr.nof.wire() + fr.lof.wire() + fr.frq.wire());
    assert(F_SR_NA_1::section(sr, vsq, addressing) =~= ioa_wire(sr.ioa, addressing.ioa_size)
        + sr.nof.wire() + sr.nos.wire() + sr.los.wire() + sr.srq.wire());
    assert(F_SC_NA_1::section(sc, vsq, addressing) =~= ioa_wire(sc.ioa, addressing.ioa_size)
        + sc.nof.wire() + sc.nos.wire() + sc.scq.wire());
    assert(F_LS_NA_1::section(ls, vsq, addressing) =~= ioa_wire(ls.ioa, addressing.ioa_size)
        + ls.nof.wire() + ls.nos.wire() + ls.lsq.wire() + ls.chs.wire());
    assert(F_AF_NA_1::section(af, vsq, addressing) =~= ioa_wire(af.ioa, addressing.ioa_size)
        + af.nof.wire() + af.nos.wire() + af.afq.wire());
}

/// A segment has its length in one octet before its data, of which at most 255
/// octets are sent; a directory entry is name, length, status and time.
pub proof fn law_segments_on_the_wire(
    sg: SegmentModel,
    e: DirectoryEntry,
    vsq: Vsq,
    addressing: AsduAddressing,
)
    ensures
        ({
            let data = if sg.segment.len() > 255 {
                sg.segment.take(255)
            } else {
                sg.segment
            };
            F_SG_NA_1::section(sg, vsq, addressing) == ioa_wire(sg.ioa, addressing.ioa_size)
                + sg.nof.wire() + sg.nos.wire() + seq![data.len() as u8] + data
        }),
        e.wire() == e.nof.wire() + e.lof.wire() + e.sof.wire() + e.time.wire(),
        e.representable() <==> e.nof.representable() && e.lof.representable()
            && e.sof.representable() && e.time.representable(),
{
    let data = if sg.segment.len() > 255 {
        sg.segment.take(255)
    } else {
        sg.segment
    };
    assert(F_SG_NA_1::section(sg, vsq, addressing) =~= ioa_wire(sg.ioa, addressing.ioa_size)
        + sg.nof.wire() + sg.nos.wire() + seq![data.len() as u8] + data);
}

/// System messages with one object: its address, then its element; a read
/// command has the address alone.
pub proof fn law_system_messages_on_the_wire(
    ei: M_EI_NA_1,
    ci: C_CI_NA_1,
    rd: C_RD_NA_1,
    cs: C_CS_NA_1,
    rp: C_RP_NA_1,
    vsq: Vsq,
    addressing: AsduAddressing,
)
    ensures
        M_EI_NA_1::section(ei, vsq, addressing) == ioa_wire(ei.ioa, addressing.ioa_size)
            + ei.coi.wire(),
        C_CI_NA_1::section(ci, vsq, addressing) == ioa_wire(ci.ioa, addressing.ioa_size)
            + ci.qcc.wire(),
        C_RD_NA_1::section(rd, vsq, addressing) == ioa_wire(rd.ioa, addressing.ioa_size),
        C_CS_NA_1::section(cs, vsq, addressing) == ioa_wire(cs.ioa, addressing.ioa_size)
            + cs.time.wire(),
        C_RP_NA_1::section(rp, vsq, addressing) == ioa_wire(rp.ioa, addressing.ioa_size)
            + rp.qrp.wire(),
{
}

/// An element of several parts is its parts one behind the other.
pub proof fn law_parts_on_the_wire<A: Element, B: Element, C: Element>(a: A, b: B, c: C)
    ensures
        (a, b).wire() == a.wire() + b.wire(),
        (a, b, c).wire() == a.wire() + b.wire() + c.wire(),
        (a, b).representable() <==> a.representable() && b.representable(),
        (a, b, c).representable() <==> a.representable() && b.representable() && c.representable(),
{
}

// ---------------------------------------------------------------------------
// What is cut off
// ---------------------------------------------------------------------------

/// An item that is cut off is incomplete, which is said with the octets it
/// needs and those there are, and takes nothing; a whole one takes its octets.
pub proof fn law_cut_off<T>(s: Seq<u8>, n: nat, v: T)
    ensures
        s.len() < n ==> fixed(s, n, v).used == 0 && fixed(s, n, v).result == Err::<T, Error>(
            Error::Incomplete { needed: n as usize, have: s.len() as usize },
        ),
        s.len() >= n ==> fixed(s, n, v).used == n && fixed(s, n, v).result == Ok::<T, Error>(v),
{
}

/// Items are read one behind the other: the second from where the first has
/// ended, and not at all if the first failed.
pub proof fn law_read_in_turn<A, B>(
    s: Seq<u8>,
    first: Decoded<A>,
    next: spec_fn(A, Seq<u8>) -> Decoded<B>,
    f: spec_fn(A) -> B,
)
    ensures
        first.result matches Ok(a) ==> {
            let rest = next(a, s.skip(first.used as int));
            &&& and_next(s, first, next).result == rest.result
            &&& and_next(s, first, next).used == first.used + rest.used
            &&& mapped(first, f) == (Decoded::<B> { result: Ok(f(a)), used: first.used })
        },
        first.result matches Err(e) ==> {
            &&& and_next(s, first, next) == (Decoded::<B> { result: Err(e), used: first.used })
            &&& mapped(first, f) == (Decoded::<B> { result: Err(e), used: first.used })
        },
{
}

/// The data of a segment are as many octets as the octet before them says; one
/// that is cut off is incomplete.
pub proof fn law_segment_data_off_the_wire(s: Seq<u8>)
    ensures
        ({
            let d = counted_decoded(s);
            &&& s.len() == 0 ==> d == (Decoded::<Seq<u8>> {
                result: Err(Error::Incomplete { needed: 1, have: 0 }),
                used: 0,
            })
            &&& s.len() > 0 && s.len() - 1 < s[0] ==> d == (Decoded::<Seq<u8>> {
                result: Err(Error::Incomplete { needed: s[0] as usize, have: (s.len() - 1) as usize }),
                used: 1,
            })
            &&& s.len() > 0 && s.len() - 1 >= s[0] ==> d == (Decoded::<Seq<u8>> {
                result: Ok(s.skip(1).take(s[0] as int)),
                used: (1 + s[0]) as nat,
            })
        }),
{
    if s.len() > 0 && s.len() - 1 >= s[0] {
        assert(s.skip(1).take(s[0] as int) =~= s.subrange(1, 1 + s[0]));
    }
}

/// Which messages of one object can be carried: the address and every field
/// must fit, and a segment has at most 255 octets.
pub proof fn law_messages_fit(
    fr: F_FR_NA_1,
    sr: F_SR_NA_1,
    sc: F_SC_NA_1,
    ls: F_LS_NA_1,
    af: F_AF_NA_1,
    sg: SegmentModel,
    vsq: Vsq,
    addressing: AsduAddressing,
)
    ensures
        F_FR_NA_1::section_fits(fr, vsq, addressing) <==> ioa_fits(fr.ioa, addressing.ioa_size)
            && fr.nof.representable() && fr.lof.representable() && fr.frq.representable(),
        F_SR_NA_1::section_fits(sr, vsq, addressing) <==> ioa_fits(sr.ioa, addressing.ioa_size)
            && sr.nof.representable() && sr.nos.representable() && sr.los.representable()
            && sr.srq.representable(),
        F_SC_NA_1::section_fits(sc, vsq, addressing) <==> ioa_fits(sc.ioa, addressing.ioa_size)
            && sc.nof.representable() && sc.nos.representable() && sc.scq.representable(),
        F_LS_NA_1::section_fits(ls, vsq, addressing) <==> ioa_fits(ls.ioa, addressing.ioa_size)
            && ls.nof.representable() && ls.nos.representable() && ls.lsq.representable()
            && ls.chs.representable(),
        F_AF_NA_1::section_fits(af, vsq, addressing) <==> ioa_fits(af.ioa, addressing.ioa_size)
            && af.nof.representable() && af.nos.representable() && af.afq.representable(),
        F_SG_NA_1::section_fits(sg, vsq, addressing) <==> ioa_fits(sg.ioa, addressing.ioa_size)
            && sg.segment.len() <= 255,
{
}

/// As above, for the system messages.
pub proof fn law_system_messages_fit(
    ei: M_EI_NA_1,
    ci: C_CI_NA_1,
    rd: C_RD_NA_1,
    cs: C_CS_NA_1,
    rp: C_RP_NA_1,
    vsq: Vsq,
    addressing: AsduAddressing,
)
    ensures
        M_EI_NA_1::section_fits(ei, vsq, addressing) <==> ioa_fits(ei.ioa, addressing.ioa_size)
            && ei.coi.representable(),
        C_CI_NA_1::section_fits(ci, vsq, addressing) <==> ioa_fits(ci.ioa, addressing.ioa_size)
            && ci.qcc.representable(),
        C_RD_NA_1::section_fits(rd, vsq, addressing) <==> ioa_fits(rd.ioa, addressing.ioa_size),
        C_CS_NA_1::section_fits(cs, vsq, addressing) <==> ioa_fits(cs.ioa, addressing.ioa_size)
            && cs.time.representable(),
        C_RP_NA_1::section_fits(rp, vsq, addressing) <==> ioa_fits(rp.ioa, addressing.ioa_size)
            && rp.qrp.representable(),
{
}

} // verus!
