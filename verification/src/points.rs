//! Server-side process image.
//!
//! Holds the IOA-keyed map of typed values, their quality bits, and the
//! per-IOA simulator schedule. Used by both the control handler and the
//! interrogation responder (to render every monitored point as an outbound
//! ASDU).

use vstd::prelude::*;
use crate::asdu::cot::Cot;
use crate::asdu::element::Element;
use crate::asdu::envelope::{Asdu, AsduModel};
use crate::asdu::header::{AsduAddressing, CommonAddress, Ioa, Vsq};
use crate::asdu::ie::{Cp56Time2a, Diq, DoublePoint, Nva, Qds, Quality, Siq, Sva, R32};
use crate::asdu::io_list::{law_list_len, list_wire};
use crate::asdu::payload::AsduPayload;
use crate::asdu::types::{
    M_DP_NA_1, M_DP_TB_1, M_ME_NA_1, M_ME_NB_1, M_ME_NC_1, M_ME_TD_1, M_ME_TE_1, M_ME_TF_1,
    M_SP_NA_1, M_SP_TB_1,
};
use crate::calendar::{date_of, day_number, is_date};
use crate::float_bits::nearest_step;
use crate::sim::{advanced, settled, steps, Advance};
use crate::table::Table;
use crate::wire::{DoublePointWire, PointKind, PointValue, QualityWire, SimSchedule};

verus! {

// ---------------------------------------------------------------------------
// Time tags
// ---------------------------------------------------------------------------

/// The time tag that `total_secs` seconds and `subsec_ms` milliseconds after
/// 1970-01-01 00:00 UTC have: the civil date and time of that moment, with the
/// year taken modulo 100 and Monday as day 1 of the week.
pub open spec fn is_time_tag(t: Cp56Time2a, total_secs: int, subsec_ms: int) -> bool {
    let days = total_secs / 86400;
    let secs = total_secs % 86400;
    &&& exists|year: int|
        #![trigger day_number(year, t.month as int, t.day as int)]
        is_date(year, t.month as int, t.day as int) && day_number(
            year,
            t.month as int,
            t.day as int,
        ) == days && t.year == year % 100
    &&& t.hour == secs / 3600
    &&& t.minute == (secs % 3600) / 60
    &&& t.milliseconds == (secs % 60) * 1000 + subsec_ms
    &&& t.day_of_week == (days + 3) % 7 + 1
    &&& !t.summer_time
    &&& !t.invalid
    &&& !t.genuine
}

/// Build a `Cp56Time2a` from a clock reading: whole seconds and milliseconds
/// since 1970-01-01 00:00 UTC.
///
/// The year is stored raw (0-99), corresponding to 2000-2099.
pub fn now_cp56(total_secs: u64, subsec_ms: u16) -> (t: Cp56Time2a)
    requires
        subsec_ms < 1000,
    ensures
        is_time_tag(t, total_secs as int, subsec_ms as int),
{
    let days: u64 = total_secs / 86400;
    let secs_of_day: u64 = total_secs % 86400;
    let hour: u8 = (secs_of_day / 3600) as u8;
    let minute: u8 = ((secs_of_day % 3600) / 60) as u8;
    let second: u8 = (secs_of_day % 60) as u8;
    let milliseconds: u16 = second as u16 * 1000 + subsec_ms;
    let date = date_of(days);
    let year: u8 = (date.year % 100) as u8;
    // 1970-01-01 was a Thursday.
    let day_of_week: u8 = ((days + 3) % 7 + 1) as u8;
    let t = Cp56Time2a {
        milliseconds,
        minute,
        hour,
        day: date.day,
        day_of_week,
        month: date.month,
        year,
        summer_time: false,
        invalid: false,
        genuine: false,
    };
    assert(day_number(date.year as int, t.month as int, t.day as int) == days);
    t
}

/// A time tag from the clock fits its fields on the wire.
pub proof fn law_time_tag_representable(t: Cp56Time2a, total_secs: int, subsec_ms: int)
    requires
        total_secs >= 0,
        0 <= subsec_ms < 1000,
        is_time_tag(t, total_secs, subsec_ms),
    ensures
        t.representable(),
        t.milliseconds < 60_000,
        1 <= t.day_of_week <= 7,
{
}

// ---------------------------------------------------------------------------
// Quality conversion
// ---------------------------------------------------------------------------

pub open spec fn quality_of(q: QualityWire) -> Quality {
    Quality {
        blocked: q.blocked,
        substituted: q.substituted,
        not_topical: q.not_topical,
        invalid: q.invalid,
    }
}

/// Quality bits with an overflow flag.
pub open spec fn quality_wire(overflow: bool, q: Quality) -> QualityWire {
    QualityWire {
        overflow,
        blocked: q.blocked,
        substituted: q.substituted,
        not_topical: q.not_topical,
        invalid: q.invalid,
    }
}

pub fn quality_from_wire(q: QualityWire) -> (r: Quality)
    ensures
        r == quality_of(q),
{
    Quality {
        blocked: q.blocked,
        substituted: q.substituted,
        not_topical: q.not_topical,
        invalid: q.invalid,
    }
}

pub fn quality_to_wire(q: Quality) -> (r: QualityWire)
    ensures
        r == quality_wire(false, q),
{
    QualityWire {
        overflow: false,
        blocked: q.blocked,
        substituted: q.substituted,
        not_topical: q.not_topical,
        invalid: q.invalid,
    }
}

pub fn qds_to_wire(qds: Qds) -> (r: QualityWire)
    ensures
        r == quality_wire(qds.overflow, qds.quality),
{
    QualityWire {
        overflow: qds.overflow,
        blocked: qds.quality.blocked,
        substituted: qds.quality.substituted,
        not_topical: qds.quality.not_topical,
        invalid: qds.quality.invalid,
    }
}

pub fn qds_from_wire(q: QualityWire) -> (r: Qds)
    ensures
        r == (Qds { overflow: q.overflow, quality: quality_of(q) }),
{
    Qds { overflow: q.overflow, quality: quality_from_wire(q) }
}

/// Quality bits survive the conversion; the single-octet qualities have no
/// overflow flag.
pub proof fn law_quality_conversions(q: QualityWire, quality: Quality, qds: Qds)
    ensures
        quality_of(quality_wire(false, quality)) == quality,
        quality_wire(q.overflow, quality_of(q)) == q,
        (Qds {
            overflow: quality_wire(qds.overflow, qds.quality).overflow,
            quality: quality_of(quality_wire(qds.overflow, qds.quality)),
        }) == qds,
{
}

/// The double-point state of the same name.
pub open spec fn dp_of(dpw: DoublePointWire) -> DoublePoint {
    match dpw {
        DoublePointWire::Intermediate => DoublePoint::Intermediate,
        DoublePointWire::Off => DoublePoint::Off,
        DoublePointWire::On => DoublePoint::On,
        DoublePointWire::Indeterminate => DoublePoint::Indeterminate,
    }
}

fn dp_from_wire(dpw: DoublePointWire) -> (dp: DoublePoint)
    ensures
        dp == dp_of(dpw),
{
    match dpw {
        DoublePointWire::Intermediate => DoublePoint::Intermediate,
        DoublePointWire::Off => DoublePoint::Off,
        DoublePointWire::On => DoublePoint::On,
        DoublePointWire::Indeterminate => DoublePoint::Indeterminate,
    }
}

// ---------------------------------------------------------------------------
// Point entry
// ---------------------------------------------------------------------------

/// One monitored data point in the process image.
#[derive(Debug, Clone, Copy, PartialEq, Eq, Structural)]
pub struct PointEntry {
    pub kind: PointKind,
    pub value: PointValue,
    pub quality: QualityWire,
    pub schedule: SimSchedule,
}

/// Whether a value of this shape belongs to points of the kind.
pub open spec fn value_matches(kind: PointKind, value: PointValue) -> bool {
    match kind {
        PointKind::SpNa | PointKind::SpTb => value is Single,
        PointKind::DpNa | PointKind::DpTb => value is Double,
        PointKind::MeNa | PointKind::MeTd => value is Normalized,
        PointKind::MeNb | PointKind::MeTe => value is Scaled,
        PointKind::MeNc | PointKind::MeTf => value is Float,
    }
}

/// The value that a point of the kind starts with: off, or zero.
pub open spec fn initial_value(kind: PointKind) -> PointValue {
    match kind {
        PointKind::SpNa | PointKind::SpTb => PointValue::Single(false),
        PointKind::DpNa | PointKind::DpTb => PointValue::Double(DoublePointWire::Off),
        PointKind::MeNa | PointKind::MeTd => PointValue::Normalized(0),
        PointKind::MeNb | PointKind::MeTe => PointValue::Scaled(0),
        PointKind::MeNc | PointKind::MeTf => PointValue::Float(0),
    }
}

/// Good quality: no flag is set.
pub open spec fn good() -> QualityWire {
    QualityWire {
        overflow: false,
        blocked: false,
        substituted: false,
        not_topical: false,
        invalid: false,
    }
}

/// A point that has just been set up.
pub open spec fn initial_entry(kind: PointKind, schedule: SimSchedule) -> PointEntry {
    PointEntry { kind, value: initial_value(kind), quality: good(), schedule }
}

/// The kind without time tag whose points hold values of this shape.
pub open spec fn kind_of(value: PointValue) -> PointKind {
    match value {
        PointValue::Single(_) => PointKind::SpNa,
        PointValue::Double(_) => PointKind::DpNa,
        PointValue::Normalized(_) => PointKind::MeNa,
        PointValue::Scaled(_) => PointKind::MeNb,
        PointValue::Float(_) => PointKind::MeNc,
    }
}

/// The point that stands for a value where there was none before. It has good
/// quality unless one is given, and does not tick.
pub open spec fn entry_for(value: PointValue, quality: Option<QualityWire>) -> PointEntry {
    PointEntry {
        kind: kind_of(value),
        value,
        quality: match quality {
            Some(q) => q,
            None => good(),
        },
        schedule: SimSchedule::Hold,
    }
}

/// The point with a new value and, where one is given, a new quality.
pub open spec fn revalued(entry: PointEntry, value: PointValue, quality: Option<QualityWire>) -> PointEntry {
    PointEntry {
        value,
        quality: match quality {
            Some(q) => q,
            None => entry.quality,
        },
        ..entry
    }
}

/// Whether or not the point was there before, it then has the value and the
/// quality that were set; a point that was not there has a kind without time
/// tag that its value fits.
pub proof fn law_set_point(entry: PointEntry, value: PointValue, quality: Option<QualityWire>)
    ensures
        revalued(entry, value, quality).value == value,
        entry_for(value, quality).value == value,
        quality matches Some(q) ==> revalued(entry, value, quality).quality == q && entry_for(
            value,
            quality,
        ).quality == q,
        value_matches(entry_for(value, quality).kind, value),
        !entry_for(value, quality).kind.timed(),
{
}

impl PointEntry {
    /// Construct an entry with its default initial value and schedule.
    pub fn new(kind: PointKind, schedule: SimSchedule) -> (e: Self)
        ensures
            e == initial_entry(kind, schedule),
            value_matches(e.kind, e.value),
    {
        let value = match kind {
            PointKind::SpNa | PointKind::SpTb => PointValue::Single(false),
            PointKind::DpNa | PointKind::DpTb => PointValue::Double(DoublePointWire::Off),
            PointKind::MeNa | PointKind::MeTd => PointValue::Normalized(0),
            PointKind::MeNb | PointKind::MeTe => PointValue::Scaled(0),
            PointKind::MeNc | PointKind::MeTf => PointValue::Float(0),
        };
        let quality = QualityWire {
            overflow: false,
            blocked: false,
            substituted: false,
            not_topical: false,
            invalid: false,
        };
        PointEntry { kind, value, quality, schedule }
    }
}

// ---------------------------------------------------------------------------
// Process image
// ---------------------------------------------------------------------------

/// The full server process image, keyed by IOA. The view is the map from IOA
/// to entry.
#[derive(Debug)]
pub struct ProcessImage {
    points: Table<PointEntry>,
}

/// The rows whose entry is of the kind, in the same order.
pub open spec fn of_kind(rows: Seq<(u32, PointEntry)>, kind: PointKind) -> Seq<(u32, PointEntry)>
    decreases rows.len(),
{
    if rows.len() == 0 {
        Seq::empty()
    } else {
        let front = of_kind(rows.drop_last(), kind);
        if rows.last().1.kind == kind {
            front.push(rows.last())
        } else {
            front
        }
    }
}

impl View for ProcessImage {
    type V = Map<u32, PointEntry>;

    closed spec fn view(&self) -> Map<u32, PointEntry> {
        Map::new(
            |ioa: u32| self.points@.contains_key(ioa as u64),
            |ioa: u32| self.points@[ioa as u64],
        )
    }
}

impl ProcessImage {
    /// The rows are in order and their keys are IOAs.
    pub closed spec fn wf(&self) -> bool {
        &&& self.points.wf()
        &&& forall|k: u64| #[trigger] self.points@.contains_key(k) ==> k <= u32::MAX
    }

    /// All points, in ascending order of IOA.
    pub closed spec fn rows(&self) -> Seq<(u32, PointEntry)> {
        Seq::new(
            self.points.listed().len(),
            |i: int| (self.points.listed()[i].0 as u32, self.points.listed()[i].1),
        )
    }

    /// The rows list exactly what the map holds, each IOA once, in ascending
    /// order.
    pub proof fn law_rows(&self)
        requires
            self.wf(),
        ensures
            forall|i: int, j: int|
                0 <= i < j < self.rows().len() ==> (#[trigger] self.rows()[i]).0 < (
                #[trigger] self.rows()[j]).0,
            forall|i: int|
                0 <= i < self.rows().len() ==> self@.contains_key((#[trigger] self.rows()[i]).0)
                    && self@[self.rows()[i].0] == self.rows()[i].1,
            forall|ioa: u32| #[trigger]
                self@.contains_key(ioa) ==> exists|i: int|
                    0 <= i < self.rows().len() && (#[trigger] self.rows()[i]).0 == ioa,
    {
        self.points.lemma_listed();
        assert forall|i: int| 0 <= i < self.rows().len() implies self@.contains_key(
            (#[trigger] self.rows()[i]).0,
        ) && self@[self.rows()[i].0] == self.rows()[i].1 by {
            let row = self.points.listed()[i];
            assert(self.points@.contains_key(row.0));
        }
        assert forall|i: int, j: int| 0 <= i < j < self.rows().len() implies (
        #[trigger] self.rows()[i]).0 < (#[trigger] self.rows()[j]).0 by {
            let a = self.points.listed()[i];
            let b = self.points.listed()[j];
            assert(self.points@.contains_key(a.0) && self.points@.contains_key(b.0));
        }
        assert forall|ioa: u32| #[trigger] self@.contains_key(ioa) implies exists|i: int|
            0 <= i < self.rows().len() && (#[trigger] self.rows()[i]).0 == ioa by {
            let k = ioa as u64;
            assert(self.points@.contains_key(k));
            let listed = self.points.listed();
            let i = choose|i: int| 0 <= i < listed.len() && (#[trigger] listed[i]).0 == k;
            assert(self.rows()[i].0 == ioa);
        }
    }

    pub fn new() -> (image: Self)
        ensures
            image.wf(),
            image@ == Map::<u32, PointEntry>::empty(),
            image.rows() == Seq::<(u32, PointEntry)>::empty(),
    {
        let image = ProcessImage { points: Table::new() };
        assert(image@ =~= Map::<u32, PointEntry>::empty());
        assert(image.rows() =~= Seq::<(u32, PointEntry)>::empty());
        image
    }

    pub fn insert(&mut self, ioa: u32, entry: PointEntry)
        requires
            old(self).wf(),
        ensures
            final(self).wf(),
            final(self)@ == old(self)@.insert(ioa, entry),
    {
        self.points.insert(ioa as u64, entry);
        assert(self@ =~= old(self)@.insert(ioa, entry));
    }

    pub fn get(&self, ioa: u32) -> (r: Option<&PointEntry>)
        requires
            self.wf(),
        ensures
            match r {
                Some(e) => self@.contains_key(ioa) && *e == self@[ioa],
                None => !self@.contains_key(ioa),
            },
    {
        self.points.get(ioa as u64)
    }

    pub fn get_mut(&mut self, ioa: u32) -> (r: Option<&mut PointEntry>)
        requires
            old(self).wf(),
        ensures
            match r {
                Some(e) => {
                    &&& old(self)@.contains_key(ioa)
                    &&& *e == old(self)@[ioa]
                    &&& final(self).wf()
                    &&& final(self)@ =~= old(self)@.insert(ioa, *final(e))
                },
                None => !old(self)@.contains_key(ioa) && *final(self) == *old(self),
            },
    {
        self.points.get_mut(ioa as u64)
    }

    /// Update or insert a point's value and quality. Returns whether the point
    /// was there before. It then keeps its kind and schedule, and its quality
    /// unless one is given.
    pub fn set(&mut self, ioa: u32, value: PointValue, quality: Option<QualityWire>) -> (known: bool)
        requires
            old(self).wf(),
        ensures
            final(self).wf(),
            known == old(self)@.contains_key(ioa),
            final(self)@ == old(self)@.insert(
                ioa,
                if known {
                    revalued(old(self)@[ioa], value, quality)
                } else {
                    entry_for(value, quality)
                },
            ),
    {
        let (current, known): (PointEntry, bool) = match self.get(ioa) {
            Some(e) => (*e, true),
            None => {
                let kind = match value {
                    PointValue::Single(_) => PointKind::SpNa,
                    PointValue::Double(_) => PointKind::DpNa,
                    PointValue::Normalized(_) => PointKind::MeNa,
                    PointValue::Scaled(_) => PointKind::MeNb,
                    PointValue::Float(_) => PointKind::MeNc,
                };
                (PointEntry::new(kind, SimSchedule::Hold), false)
            },
        };
        let quality = match quality {
            Some(q) => q,
            None => current.quality,
        };
        let entry = PointEntry {
            kind: current.kind,
            value,
            quality,
            schedule: current.schedule,
        };
        self.insert(ioa, entry);
        known
    }

    pub fn len(&self) -> (n: usize)
        requires
            self.wf(),
        ensures
            n == self.rows().len(),
            self@.dom().finite() && n == self@.dom().len(),
    {
        proof { self.law_size(); }
        self.points.len()
    }

    /// There are as many rows as IOAs.
    pub proof fn law_size(&self)
        requires
            self.wf(),
        ensures
            self@.dom().finite(),
            self@.dom().len() == self.rows().len(),
    {
        self.law_rows();
        let keys = Seq::new(self.rows().len(), |i: int| self.rows()[i].0);
        assert(keys.no_duplicates()) by {
            assert forall|i: int, j: int|
                0 <= i < keys.len() && 0 <= j < keys.len() && i != j implies keys[i] != keys[j] by {
                if i < j {
                    assert(self.rows()[i].0 < self.rows()[j].0);
                } else {
                    assert(self.rows()[j].0 < self.rows()[i].0);
                }
            }
        }
        assert(keys.to_set() =~= self@.dom()) by {
            assert forall|ioa: u32| keys.to_set().contains(ioa) <==> self@.dom().contains(ioa) by {
                if self@.contains_key(ioa) {
                    let i = choose|i: int|
                        0 <= i < self.rows().len() && (#[trigger] self.rows()[i]).0 == ioa;
                    assert(keys[i] == ioa);
                }
                if keys.contains(ioa) {
                    let i = choose|i: int| 0 <= i < keys.len() && keys[i] == ioa;
                    assert(self@.contains_key(self.rows()[i].0));
                }
            }
        }
        keys.unique_seq_to_set();
    }

    pub fn is_empty(&self) -> (b: bool)
        requires
            self.wf(),
        ensures
            b == (self@ == Map::<u32, PointEntry>::empty()),
    {
        let b: bool = self.points.len() == 0;
        proof {
            self.law_size();
            if b {
                assert(self@ =~= Map::<u32, PointEntry>::empty());
            }
        }
        b
    }

    /// All points, in ascending order of IOA.
    pub fn iter(&self) -> (r: Vec<(u32, PointEntry)>)
        requires
            self.wf(),
        ensures
            r@ == self.rows(),
    {
        let n: usize = self.points.len();
        let mut out: Vec<(u32, PointEntry)> = Vec::new();
        let mut i: usize = 0;
        while i < n
            invariant
                i <= n,
                n == self.rows().len(),
                n == self.points.listed().len(),
                out@ == self.rows().take(i as int),
            decreases n - i,
        {
            let row = self.points.row(i);
            proof {
                crate::bits::lemma_low_half(row.0);
            }
            out.push((row.0 as u32, *row.1));
            assert(out@ =~= self.rows().take(i + 1));
            i += 1;
        }
        assert(self.rows().take(n as int) =~= self.rows());
        out
    }

    /// Only the points of a specific `PointKind`, in ascending order of IOA.
    pub fn iter_kind(&self, kind: PointKind) -> (r: Vec<(u32, PointEntry)>)
        requires
            self.wf(),
        ensures
            r@ == of_kind(self.rows(), kind),
    {
        let all: Vec<(u32, PointEntry)> = self.iter();
        let n: usize = all.len();
        let mut out: Vec<(u32, PointEntry)> = Vec::new();
        let mut i: usize = 0;
        while i < n
            invariant
                i <= n,
                n == all@.len(),
                out@ == of_kind(all@.take(i as int), kind),
            decreases n - i,
        {
            assert(all@.take(i + 1).drop_last() =~= all@.take(i as int));
            if all[i].1.kind == kind {
                out.push(all[i]);
            }
            i += 1;
        }
        assert(all@.take(n as int) =~= all@);
        out
    }

    /// All IOAs in ascending order.
    pub fn sorted_ioas(&self) -> (r: Vec<u32>)
        requires
            self.wf(),
        ensures
            r@ == Seq::new(self.rows().len(), |i: int| self.rows()[i].0),
    {
        let all: Vec<(u32, PointEntry)> = self.iter();
        let n: usize = all.len();
        let mut out: Vec<u32> = Vec::new();
        let mut i: usize = 0;
        while i < n
            invariant
                i <= n,
                n == all@.len(),
                out@ == Seq::new(i as nat, |j: int| all@[j].0),
            decreases n - i,
        {
            out.push(all[i].0);
            i += 1;
        }
        out
    }
}

impl Default for ProcessImage {
    fn default() -> (image: Self)
        ensures
            image.wf(),
            image@ == Map::<u32, PointEntry>::empty(),
    {
        ProcessImage::new()
    }
}

// ---------------------------------------------------------------------------
// ASDU encoding helpers
// ---------------------------------------------------------------------------

/// The ASDU that carries a payload with a single object count under the
/// IEC 60870-5-104 addressing profile.
pub open spec fn single_asdu<P: AsduPayload>(content: P::V, cot: Cot, ca: CommonAddress) -> AsduModel {
    let vsq = Vsq { sequence: false, count: 1 };
    AsduModel {
        type_id: P::code(),
        vsq,
        cot,
        ca,
        payload: P::section(content, vsq, AsduAddressing::iec104()),
    }
}

/// Encode a payload with a single object count, IEC 60870-5-104 addressing.
pub(crate) fn encode_asdu<P: AsduPayload>(payload: &P, cot: Cot, ca: CommonAddress) -> (bytes: Vec<
    u8,
>)
    requires
        P::section(
            payload@,
            (Vsq { sequence: false, count: 1 }),
            AsduAddressing::iec104(),
        ).len() <= 255,
    ensures
        bytes@ == single_asdu::<P>(payload@, cot, ca).wire(AsduAddressing::iec104()),
{
    let asdu = Asdu::from_payload(cot, ca, Vsq::single(1), payload, AsduAddressing::iec104());
    asdu.encode_to_vec(AsduAddressing::iec104())
}

/// One object takes three octets for its address and those of its element.
pub proof fn lemma_one_object<E: Element>(objects: Seq<(Ioa, E)>)
    requires
        objects.len() == 1,
    ensures
        list_wire(
            objects,
            (Vsq { sequence: false, count: 1 }),
            AsduAddressing::iec104(),
        ).len() == 3 + E::wire_len(),
{
    law_list_len(objects, Vsq { sequence: false, count: 1 }, AsduAddressing::iec104());
    let each = 3 + E::wire_len();
    assert(1 * each == each) by (nonlinear_arith);
}

/// The ASDU for a point, if its value has the shape of its kind.
pub open spec fn point_asdu(
    ioa: u32,
    entry: PointEntry,
    ts: Cp56Time2a,
    cot: Cot,
    ca: CommonAddress,
) -> Option<AsduModel> {
    let at = Ioa(ioa);
    let quality = quality_of(entry.quality);
    let qds = Qds { overflow: entry.quality.overflow, quality };
    match (entry.kind, entry.value) {
        (PointKind::SpNa, PointValue::Single(on)) => Some(
            single_asdu::<M_SP_NA_1>(seq![(at, Siq { on, quality })], cot, ca),
        ),
        (PointKind::DpNa, PointValue::Double(d)) => Some(
            single_asdu::<M_DP_NA_1>(seq![(at, Diq { state: dp_of(d), quality })], cot, ca),
        ),
        (PointKind::MeNa, PointValue::Normalized(bits)) => Some(
            single_asdu::<M_ME_NA_1>(seq![(at, (Nva(nearest_step(bits) as i16), qds))], cot, ca),
        ),
        (PointKind::MeNb, PointValue::Scaled(v)) => Some(
            single_asdu::<M_ME_NB_1>(seq![(at, (Sva(v), qds))], cot, ca),
        ),
        (PointKind::MeNc, PointValue::Float(bits)) => Some(
            single_asdu::<M_ME_NC_1>(seq![(at, (R32(bits), qds))], cot, ca),
        ),
        (PointKind::SpTb, PointValue::Single(on)) => Some(
            single_asdu::<M_SP_TB_1>(seq![(at, (Siq { on, quality }, ts))], cot, ca),
        ),
        (PointKind::DpTb, PointValue::Double(d)) => Some(
            single_asdu::<M_DP_TB_1>(seq![(at, (Diq { state: dp_of(d), quality }, ts))], cot, ca),
        ),
        (PointKind::MeTd, PointValue::Normalized(bits)) => Some(
            single_asdu::<M_ME_TD_1>(
                seq![(at, (Nva(nearest_step(bits) as i16), qds, ts))],
                cot,
                ca,
            ),
        ),
        (PointKind::MeTe, PointValue::Scaled(v)) => Some(
            single_asdu::<M_ME_TE_1>(seq![(at, (Sva(v), qds, ts))], cot, ca),
        ),
        (PointKind::MeTf, PointValue::Float(bits)) => Some(
            single_asdu::<M_ME_TF_1>(seq![(at, (R32(bits), qds, ts))], cot, ca),
        ),
        _ => None,
    }
}

/// Build a single-IOA ASDU for a given point entry; `ts` is the time tag for
/// the kinds that carry one. Returns `None` if the value doesn't match the
/// kind (should never happen in a well-formed store).
pub fn encode_point(
    ioa: u32,
    entry: &PointEntry,
    ts: Cp56Time2a,
    cot: Cot,
    ca: CommonAddress,
) -> (r: Option<Vec<u8>>)
    ensures
        r is Some <==> value_matches(entry.kind, entry.value),
        match r {
            Some(bytes) => {
                &&& point_asdu(ioa, *entry, ts, cot, ca) is Some
                &&& bytes@ == point_asdu(ioa, *entry, ts, cot, ca)->0.wire(
                    AsduAddressing::iec104(),
                )
            },
            None => point_asdu(ioa, *entry, ts, cot, ca) is None,
        },
{
    let at = Ioa(ioa);
    let quality = quality_from_wire(entry.quality);
    let qds = qds_from_wire(entry.quality);
    match (entry.kind, entry.value) {
        (PointKind::SpNa, PointValue::Single(on)) => {
            let payload = M_SP_NA_1 { objects: vec![(at, Siq { on, quality })] };
            assert(payload@ =~= seq![(at, Siq { on, quality })]);
            proof { lemma_one_object(payload@); }
            Some(encode_asdu(&payload, cot, ca))
        },
        (PointKind::DpNa, PointValue::Double(d)) => {
            let state = dp_from_wire(d);
            let payload = M_DP_NA_1 { objects: vec![(at, Diq { state, quality })] };
            assert(payload@ =~= seq![(at, Diq { state, quality })]);
            proof { lemma_one_object(payload@); }
            Some(encode_asdu(&payload, cot, ca))
        },
        (PointKind::MeNa, PointValue::Normalized(bits)) => {
            let v = Nva::from_f32(bits);
            let payload = M_ME_NA_1 { objects: vec![(at, (v, qds))] };
            assert(payload@ =~= seq![(at, (v, qds))]);
            proof { lemma_one_object(payload@); }
            Some(encode_asdu(&payload, cot, ca))
        },
        (PointKind::MeNb, PointValue::Scaled(v)) => {
            let payload = M_ME_NB_1 { objects: vec![(at, (Sva(v), qds))] };
            assert(payload@ =~= seq![(at, (Sva(v), qds))]);
            proof { lemma_one_object(payload@); }
            Some(encode_asdu(&payload, cot, ca))
        },
        (PointKind::MeNc, PointValue::Float(bits)) => {
            let payload = M_ME_NC_1 { objects: vec![(at, (R32(bits), qds))] };
            assert(payload@ =~= seq![(at, (R32(bits), qds))]);
            proof { lemma_one_object(payload@); }
            Some(encode_asdu(&payload, cot, ca))
        },
        (PointKind::SpTb, PointValue::Single(on)) => {
            let payload = M_SP_TB_1 { objects: vec![(at, (Siq { on, quality }, ts))] };
            assert(payload@ =~= seq![(at, (Siq { on, quality }, ts))]);
            proof { lemma_one_object(payload@); }
            Some(encode_asdu(&payload, cot, ca))
        },
        (PointKind::DpTb, PointValue::Double(d)) => {
            let state = dp_from_wire(d);
            let payload = M_DP_TB_1 { objects: vec![(at, (Diq { state, quality }, ts))] };
            assert(payload@ =~= seq![(at, (Diq { state, quality }, ts))]);
            proof { lemma_one_object(payload@); }
            Some(encode_asdu(&payload, cot, ca))
        },
        (PointKind::MeTd, PointValue::Normalized(bits)) => {
            let v = Nva::from_f32(bits);
            let payload = M_ME_TD_1 { objects: vec![(at, (v, qds, ts))] };
            assert(payload@ =~= seq![(at, (v, qds, ts))]);
            proof { lemma_one_object(payload@); }
            Some(encode_asdu(&payload, cot, ca))
        },
        (PointKind::MeTe, PointValue::Scaled(v)) => {
            let payload = M_ME_TE_1 { objects: vec![(at, (Sva(v), qds, ts))] };
            assert(payload@ =~= seq![(at, (Sva(v), qds, ts))]);
            proof { lemma_one_object(payload@); }
            Some(encode_asdu(&payload, cot, ca))
        },
        (PointKind::MeTf, PointValue::Float(bits)) => {
            let payload = M_ME_TF_1 { objects: vec![(at, (R32(bits), qds, ts))] };
            assert(payload@ =~= seq![(at, (R32(bits), qds, ts))]);
            proof { lemma_one_object(payload@); }
            Some(encode_asdu(&payload, cot, ca))
        },
        _ => None,
    }
}

/// A double-point state as a point value.
pub fn dp_wire_to_value(dpw: DoublePointWire) -> (v: PointValue)
    ensures
        v == PointValue::Double(dpw),
{
    PointValue::Double(dpw)
}

// ---------------------------------------------------------------------------
// Default IOA table
// ---------------------------------------------------------------------------

/// 0.05 as a binary32 bit pattern.
pub const F32_0_05: u32 = 0x3D4C_CCCD;

/// 1.0 as a binary32 bit pattern.
pub const F32_1: u32 = 0x3F80_0000;

/// -1.0 as a binary32 bit pattern.
pub const F32_MINUS_1: u32 = 0xBF80_0000;

/// 50.0 as a binary32 bit pattern.
pub const F32_50: u32 = 0x4248_0000;

/// The schedule that points of the kind have by default; `i` is the position
/// among the points of that kind.
pub open spec fn default_schedule(kind: PointKind, i: int) -> SimSchedule {
    match kind {
        PointKind::SpNa | PointKind::SpTb => SimSchedule::Toggle {
            interval_ms: 5000,
            phase_ms: (i * 1000) as u64,
        },
        PointKind::DpNa | PointKind::DpTb => SimSchedule::Rotate { interval_ms: 7000 },
        PointKind::MeNa | PointKind::MeTd => SimSchedule::RandomWalk {
            interval_ms: 1000,
            step: F32_0_05,
            min: F32_MINUS_1,
            max: F32_1,
        },
        PointKind::MeNb | PointKind::MeTe => SimSchedule::StepUp {
            interval_ms: 2000,
            step: 1,
            wrap_at: 100,
        },
        PointKind::MeNc | PointKind::MeTf => SimSchedule::Sine {
            interval_ms: 500,
            period_ms: 10000,
            amplitude: F32_50,
            offset: 0,
        },
    }
}

/// The first of the five IOAs that points of the kind have by default.
pub open spec fn default_base(kind: PointKind) -> u32 {
    match kind {
        PointKind::SpNa => 100,
        PointKind::DpNa => 200,
        PointKind::MeNa => 300,
        PointKind::MeNb => 400,
        PointKind::MeNc => 500,
        PointKind::SpTb => 1100,
        PointKind::DpTb => 1200,
        PointKind::MeTd => 1300,
        PointKind::MeTe => 1400,
        PointKind::MeTf => 1500,
    }
}

/// The map with five default points of the kind added.
pub open spec fn with_defaults(m: Map<u32, PointEntry>, kind: PointKind) -> Map<u32, PointEntry> {
    m.union_prefer_right(
        Map::new(
            |ioa: u32| default_base(kind) <= ioa < default_base(kind) + 5,
            |ioa: u32| initial_entry(kind, default_schedule(kind, ioa - default_base(kind))),
        ),
    )
}

fn schedule_for(kind: PointKind, i: u32) -> (s: SimSchedule)
    requires
        i < 5,
    ensures
        s == default_schedule(kind, i as int),
{
    match kind {
        PointKind::SpNa | PointKind::SpTb => SimSchedule::Toggle {
            interval_ms: 5000,
            phase_ms: i as u64 * 1000,
        },
        PointKind::DpNa | PointKind::DpTb => SimSchedule::Rotate { interval_ms: 7000 },
        PointKind::MeNa | PointKind::MeTd => SimSchedule::RandomWalk {
            interval_ms: 1000,
            step: F32_0_05,
            min: F32_MINUS_1,
            max: F32_1,
        },
        PointKind::MeNb | PointKind::MeTe => SimSchedule::StepUp {
            interval_ms: 2000,
            step: 1,
            wrap_at: 100,
        },
        PointKind::MeNc | PointKind::MeTf => SimSchedule::Sine {
            interval_ms: 500,
            period_ms: 10000,
            amplitude: F32_50,
            offset: 0,
        },
    }
}

fn populate_kind(image: &mut ProcessImage, kind: PointKind, base: u32)
    requires
        old(image).wf(),
        base == default_base(kind),
    ensures
        final(image).wf(),
        final(image)@ == with_defaults(old(image)@, kind),
{
    let mut i: u32 = 0;
    while i < 5
        invariant
            i <= 5,
            base == default_base(kind),
            image.wf(),
            image@ == old(image)@.union_prefer_right(
                Map::new(
                    |ioa: u32| base <= ioa < base + i,
                    |ioa: u32| initial_entry(kind, default_schedule(kind, ioa - base)),
                ),
            ),
        decreases 5 - i,
    {
        let ghost before = image@;
        image.insert(base + i, PointEntry::new(kind, schedule_for(kind, i)));
        proof {
            let next = old(image)@.union_prefer_right(
                Map::new(
                    |ioa: u32| base <= ioa < base + (i + 1),
                    |ioa: u32| initial_entry(kind, default_schedule(kind, ioa - base)),
                ),
            );
            assert(image@ =~= next);
        }
        i += 1;
    }
    assert(image@ =~= with_defaults(old(image)@, kind));
}

/// The image with all default points added.
pub open spec fn populated(m: Map<u32, PointEntry>) -> Map<u32, PointEntry> {
    let m = with_defaults(m, PointKind::SpNa);
    let m = with_defaults(m, PointKind::DpNa);
    let m = with_defaults(m, PointKind::MeNa);
    let m = with_defaults(m, PointKind::MeNb);
    let m = with_defaults(m, PointKind::MeNc);
    let m = with_defaults(m, PointKind::SpTb);
    let m = with_defaults(m, PointKind::DpTb);
    let m = with_defaults(m, PointKind::MeTd);
    let m = with_defaults(m, PointKind::MeTe);
    with_defaults(m, PointKind::MeTf)
}

/// Populate the process image with the canonical IOA table: five points of
/// every kind.
pub fn populate_default(image: &mut ProcessImage)
    requires
        old(image).wf(),
    ensures
        final(image).wf(),
        final(image)@ == populated(old(image)@),
{
    populate_kind(image, PointKind::SpNa, 100);
    populate_kind(image, PointKind::DpNa, 200);
    populate_kind(image, PointKind::MeNa, 300);
    populate_kind(image, PointKind::MeNb, 400);
    populate_kind(image, PointKind::MeNc, 500);
    populate_kind(image, PointKind::SpTb, 1100);
    populate_kind(image, PointKind::DpTb, 1200);
    populate_kind(image, PointKind::MeTd, 1300);
    populate_kind(image, PointKind::MeTe, 1400);
    populate_kind(image, PointKind::MeTf, 1500);
}

/// The default table holds five points of every kind and nothing else, and
/// every point's value has the shape of its kind.
pub proof fn law_default_table(ioa: u32)
    ensures
        ({
            let m = populated(Map::empty());
            &&& m.contains_key(ioa) <==> exists|kind: PointKind| #[trigger]
                default_base(kind) <= ioa < default_base(kind) + 5
            &&& forall|kind: PointKind| #[trigger]
                default_base(kind) <= ioa < default_base(kind) + 5 ==> m[ioa] == initial_entry(
                    kind,
                    default_schedule(kind, ioa - default_base(kind)),
                )
            &&& m.contains_key(ioa) ==> value_matches(m[ioa].kind, m[ioa].value)
        }),
{
    let m = populated(Map::empty());
    assert forall|kind: PointKind| #[trigger]
        default_base(kind) <= ioa < default_base(kind) + 5 implies m.contains_key(ioa)
        && m[ioa] == initial_entry(kind, default_schedule(kind, ioa - default_base(kind))) by {
        match kind {
            PointKind::SpNa => {},
            PointKind::DpNa => {},
            PointKind::MeNa => {},
            PointKind::MeNb => {},
            PointKind::MeNc => {},
            PointKind::SpTb => {},
            PointKind::DpTb => {},
            PointKind::MeTd => {},
            PointKind::MeTe => {},
            PointKind::MeTf => {},
        }
    }
    if m.contains_key(ioa) {
        if 100 <= ioa < 105 {
            assert(default_base(PointKind::SpNa) == 100);
        } else if 200 <= ioa < 205 {
            assert(default_base(PointKind::DpNa) == 200);
        } else if 300 <= ioa < 305 {
            assert(default_base(PointKind::MeNa) == 300);
        } else if 400 <= ioa < 405 {
            assert(default_base(PointKind::MeNb) == 400);
        } else if 500 <= ioa < 505 {
            assert(default_base(PointKind::MeNc) == 500);
        } else if 1100 <= ioa < 1105 {
            assert(default_base(PointKind::SpTb) == 1100);
        } else if 1200 <= ioa < 1205 {
            assert(default_base(PointKind::DpTb) == 1200);
        } else if 1300 <= ioa < 1305 {
            assert(default_base(PointKind::MeTd) == 1300);
        } else if 1400 <= ioa < 1405 {
            assert(default_base(PointKind::MeTe) == 1400);
        } else {
            assert(default_base(PointKind::MeTf) == 1500);
        }
    }
}

proof fn lemma_five_more(m: Map<u32, PointEntry>, kind: PointKind)
    requires
        m.dom().finite(),
        forall|ioa: u32|
            default_base(kind) <= ioa < default_base(kind) + 5 ==> !#[trigger] m.contains_key(ioa),
    ensures
        with_defaults(m, kind).dom().finite(),
        with_defaults(m, kind).dom().len() == m.dom().len() + 5,
{
    let b = default_base(kind);
    let (b1, b2, b3, b4) = ((b + 1) as u32, (b + 2) as u32, (b + 3) as u32, (b + 4) as u32);
    assert(!m.contains_key(b) && !m.contains_key(b1) && !m.contains_key(b2) && !m.contains_key(b3)
        && !m.contains_key(b4));
    assert(with_defaults(m, kind).dom() =~= m.dom().insert(b).insert(b1).insert(b2).insert(
        b3,
    ).insert(b4));
}

/// The default table holds fifty points.
pub proof fn law_default_table_size()
    ensures
        populated(Map::empty()).dom().finite(),
        populated(Map::empty()).dom().len() == 50,
{
    let m0 = Map::<u32, PointEntry>::empty();
    let m1 = with_defaults(m0, PointKind::SpNa);
    let m2 = with_defaults(m1, PointKind::DpNa);
    let m3 = with_defaults(m2, PointKind::MeNa);
    let m4 = with_defaults(m3, PointKind::MeNb);
    let m5 = with_defaults(m4, PointKind::MeNc);
    let m6 = with_defaults(m5, PointKind::SpTb);
    let m7 = with_defaults(m6, PointKind::DpTb);
    let m8 = with_defaults(m7, PointKind::MeTd);
    let m9 = with_defaults(m8, PointKind::MeTe);
    lemma_five_more(m0, PointKind::SpNa);
    lemma_five_more(m1, PointKind::DpNa);
    lemma_five_more(m2, PointKind::MeNa);
    lemma_five_more(m3, PointKind::MeNb);
    lemma_five_more(m4, PointKind::MeNc);
    lemma_five_more(m5, PointKind::SpTb);
    lemma_five_more(m6, PointKind::DpTb);
    lemma_five_more(m7, PointKind::MeTd);
    lemma_five_more(m8, PointKind::MeTe);
    lemma_five_more(m9, PointKind::MeTf);
}

/// The kind of the points that belong to an interrogation group.
pub open spec fn group_kind(group: u8) -> Option<PointKind> {
    if group == 1 {
        Some(PointKind::SpNa)
    } else if group == 2 {
        Some(PointKind::DpNa)
    } else if group == 3 {
        Some(PointKind::MeNa)
    } else if group == 4 {
        Some(PointKind::MeNb)
    } else if group == 5 {
        Some(PointKind::MeNc)
    } else if group == 6 {
        Some(PointKind::SpTb)
    } else if group == 7 {
        Some(PointKind::DpTb)
    } else if group == 8 {
        Some(PointKind::MeTd)
    } else if group == 9 {
        Some(PointKind::MeTe)
    } else if group == 10 {
        Some(PointKind::MeTf)
    } else {
        None
    }
}

/// Map an interrogation group to the `PointKind` that belongs to that group in
/// the IOA layout.
pub fn kind_for_group(group: u8) -> (r: Option<PointKind>)
    ensures
        r == group_kind(group),
{
    match group {
        1 => Some(PointKind::SpNa),
        2 => Some(PointKind::DpNa),
        3 => Some(PointKind::MeNa),
        4 => Some(PointKind::MeNb),
        5 => Some(PointKind::MeNc),
        6 => Some(PointKind::SpTb),
        7 => Some(PointKind::DpTb),
        8 => Some(PointKind::MeTd),
        9 => Some(PointKind::MeTe),
        10 => Some(PointKind::MeTf),
        _ => None,
    }
}

// ---------------------------------------------------------------------------
// Simulated points
// ---------------------------------------------------------------------------

/// Whether the schedule produces values of the shape that the kind has.
pub open spec fn schedule_suits(kind: PointKind, schedule: SimSchedule) -> bool {
    match schedule {
        SimSchedule::Hold => true,
        SimSchedule::Toggle { .. } => kind is SpNa || kind is SpTb,
        SimSchedule::Rotate { .. } => kind is DpNa || kind is DpTb,
        SimSchedule::RandomWalk { .. } => kind is MeNa || kind is MeTd || kind is MeNc
            || kind is MeTf,
        SimSchedule::StepUp { .. } => kind is MeNb || kind is MeTe,
        SimSchedule::Sine { .. } => kind is MeNa || kind is MeTd || kind is MeNc || kind is MeTf,
    }
}

/// Whether the value that comes of a tick has the shape of the kind, whatever
/// sample is computed for it.
pub open spec fn advance_matches(kind: PointKind, next: Advance) -> bool {
    match next {
        Advance::Value(v) => value_matches(kind, v),
        Advance::Walk { normalized, .. } => forall|sample: u32| #[trigger]
            value_matches(kind, settled(normalized, sample)),
        Advance::Wave { normalized, .. } => forall|sample: u32| #[trigger]
            value_matches(kind, settled(normalized, sample)),
    }
}

/// A tick of a suitable schedule keeps the shape of a point's value, so that
/// the point can always be encoded.
pub proof fn law_tick_keeps_shape(entry: PointEntry, tick: u64)
    requires
        value_matches(entry.kind, entry.value),
        schedule_suits(entry.kind, entry.schedule),
    ensures
        advanced(entry.schedule, Some(entry.value), tick) matches Some(next) ==> advance_matches(
            entry.kind,
            next,
        ),
{
}

/// Every point of the default table has a suitable schedule, and one that can
/// be advanced from every scaled value.
pub proof fn law_default_schedules(ioa: u32, value: PointValue)
    requires
        populated(Map::empty()).contains_key(ioa),
    ensures
        ({
            let entry = populated(Map::empty())[ioa];
            &&& schedule_suits(entry.kind, entry.schedule)
            &&& steps(entry.schedule, Some(value))
        }),
{
    law_default_table(ioa);
    let entry = populated(Map::empty())[ioa];
    let kind = choose|kind: PointKind| #[trigger]
        default_base(kind) <= ioa < default_base(kind) + 5;
    assert(entry == initial_entry(kind, default_schedule(kind, ioa - default_base(kind))));
}

/// The time tag of a moment: hour, minute and milliseconds are those of the day
/// in UTC, and the days of the week follow each other from Thursday, the first
/// of January 1970.
pub proof fn law_time_of_day(t: Cp56Time2a, total_secs: int, subsec_ms: int)
    requires
        total_secs >= 0,
        0 <= subsec_ms < 1000,
        is_time_tag(t, total_secs, subsec_ms),
    ensures
        t.hour * 3600 + t.minute * 60 + t.milliseconds as int / 1000 == total_secs % 86400,
        t.milliseconds as int % 1000 == subsec_ms,
        t.hour < 24 && t.minute < 60 && t.milliseconds < 60000,
        (total_secs / 86400) % 7 == 0 ==> t.day_of_week == 4,
        (total_secs / 86400) % 7 == 1 ==> t.day_of_week == 5,
        (total_secs / 86400) % 7 == 2 ==> t.day_of_week == 6,
        (total_secs / 86400) % 7 == 3 ==> t.day_of_week == 7,
        (total_secs / 86400) % 7 == 4 ==> t.day_of_week == 1,
        (total_secs / 86400) % 7 == 5 ==> t.day_of_week == 2,
        (total_secs / 86400) % 7 == 6 ==> t.day_of_week == 3,
        !t.summer_time && !t.invalid && !t.genuine,
        exists|year: int| #[trigger]
            is_date(year, t.month as int, t.day as int) && year % 100 == t.year && day_number(
                year,
                t.month as int,
                t.day as int,
            ) == total_secs / 86400,
{
    let year = choose|year: int|
        #![trigger day_number(year, t.month as int, t.day as int)]
        is_date(year, t.month as int, t.day as int) && day_number(
            year,
            t.month as int,
            t.day as int,
        ) == total_secs / 86400 && t.year == year % 100;
    assert(is_date(year, t.month as int, t.day as int));
}

/// The canonical table, address by address: five points of each kind from 100
/// up in steps of a hundred, and with time tag from 1100 up, off or zero and
/// with good quality, and with the schedule of the kind.
pub proof fn law_canonical_points(i: int)
    requires
        0 <= i < 5,
    ensures
        ({
            let m = populated(Map::empty());
            let good = QualityWire {
                overflow: false,
                blocked: false,
                substituted: false,
                not_topical: false,
                invalid: false,
            };
            let toggle = SimSchedule::Toggle { interval_ms: 5000, phase_ms: (1000 * i) as u64 };
            let rotate = SimSchedule::Rotate { interval_ms: 7000 };
            let walk = SimSchedule::RandomWalk {
                interval_ms: 1000,
                step: 0x3D4C_CCCD,
                min: 0xBF80_0000,
                max: 0x3F80_0000,
            };
            let up = SimSchedule::StepUp { interval_ms: 2000, step: 1, wrap_at: 100 };
            let sine = SimSchedule::Sine {
                interval_ms: 500,
                period_ms: 10000,
                amplitude: 0x4248_0000,
                offset: 0,
            };
            let off = PointValue::Double(DoublePointWire::Off);
            let at = |base: int, kind: PointKind, value: PointValue, schedule: SimSchedule|
                m.contains_key((base + i) as u32) && m[(base + i) as u32] == (PointEntry {
                    kind,
                    value,
                    quality: good,
                    schedule,
                });
            &&& at(100, PointKind::SpNa, PointValue::Single(false), toggle)
            &&& at(200, PointKind::DpNa, off, rotate)
            &&& at(300, PointKind::MeNa, PointValue::Normalized(0), walk)
            &&& at(400, PointKind::MeNb, PointValue::Scaled(0), up)
            &&& at(500, PointKind::MeNc, PointValue::Float(0), sine)
            &&& at(1100, PointKind::SpTb, PointValue::Single(false), toggle)
            &&& at(1200, PointKind::DpTb, off, rotate)
            &&& at(1300, PointKind::MeTd, PointValue::Normalized(0), walk)
            &&& at(1400, PointKind::MeTe, PointValue::Scaled(0), up)
            &&& at(1500, PointKind::MeTf, PointValue::Float(0), sine)
        }),
{
}

/// What a point keeps when it is given a new value: its kind and its schedule,
/// and its quality unless a new one is given. One that was not there before is
/// held, and good unless a quality is given.
pub proof fn law_set_keeps(entry: PointEntry, value: PointValue, q: QualityWire)
    ensures
        revalued(entry, value, None) == (PointEntry { value, ..entry }),
        revalued(entry, value, Some(q)) == (PointEntry { value, quality: q, ..entry }),
        entry_for(value, Some(q)).schedule is Hold && entry_for(value, Some(q)).quality == q,
        !entry_for(value, None).quality.overflow && !entry_for(value, None).quality.blocked,
        !entry_for(value, None).quality.substituted && !entry_for(value, None).quality.not_topical,
        !entry_for(value, None).quality.invalid,
        value is Single ==> entry_for(value, None).kind is SpNa,
        value is Double ==> entry_for(value, None).kind is DpNa,
        value is Normalized ==> entry_for(value, None).kind is MeNa,
        value is Scaled ==> entry_for(value, None).kind is MeNb,
        value is Float ==> entry_for(value, None).kind is MeNc,
{
}

/// Which values belong to which kinds.
pub proof fn law_value_shapes(kind: PointKind, value: PointValue)
    ensures
        value_matches(kind, value) <==> (match value {
            PointValue::Single(_) => kind is SpNa || kind is SpTb,
            PointValue::Double(_) => kind is DpNa || kind is DpTb,
            PointValue::Normalized(_) => kind is MeNa || kind is MeTd,
            PointValue::Scaled(_) => kind is MeNb || kind is MeTe,
            PointValue::Float(_) => kind is MeNc || kind is MeTf,
        }),
{
}

} // verus!
