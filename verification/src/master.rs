//! What a master daemon does: keep a last-value cache of what the outstation
//! sends, collect the answers to interrogations, and match command
//! confirmations with the commands that wait for them.
//!
//! Nothing here sends, waits or reads a clock. A request is turned into the
//! octets to send, and an incoming ASDU into an [`Output`].

use vstd::prelude::*;
use crate::asdu::cot::{Cause, Cot};
use crate::asdu::envelope::{Asdu, AsduModel};
use crate::asdu::header::{AsduAddressing, CommonAddress, Ioa};
use crate::asdu::ie::{DoublePoint, Nva, Sva, R32};
use crate::asdu::payload::AsduPayload;
use crate::asdu::types::{
    Dco, Qoi, Qos, Rco, Sco, StepDirection, C_DC_NA_1, C_IC_NA_1, C_RC_NA_1, C_SC_NA_1, C_SE_NA_1,
    C_SE_NB_1, C_SE_NC_1,
};
use crate::buf::{get_u24_le, u24_of};
use crate::cache::{admits, CachedPoint, PointCache};
use crate::float_bits::nearest_step;
use crate::observation::{observe, observed, Observation};
use crate::outstation::plain;
use crate::points::{encode_asdu, lemma_one_object, single_asdu};
use crate::table::Table;
use crate::text::{stamp, timestamp_text};
use crate::time::Instant;
use crate::wire::{law_type_ids_distinct, Event, PointKind, PointValue, QualityWire, StepDir};

verus! {

// ---------------------------------------------------------------------------
// Interrogation collectors
// ---------------------------------------------------------------------------

/// How many points a collector buffers; further ones are dropped.
pub const COLLECTOR_CAPACITY: usize = 256;

/// A point that was received in answer to an interrogation.
pub type Collected = (PointKind, u32, PointValue, QualityWire);

/// Pending interrogation collector.
#[derive(Debug)]
pub struct Collector {
    points: Vec<Collected>,
    /// Set when the termination has been seen.
    done: bool,
}

/// What a [`Collector`] holds.
#[verifier::ext_equal]
pub struct CollectorModel {
    pub points: Seq<Collected>,
    pub done: bool,
}

impl View for Collector {
    type V = CollectorModel;

    closed spec fn view(&self) -> CollectorModel {
        CollectorModel { points: self.points@, done: self.done }
    }
}

/// The points of a list of observations.
pub open spec fn collected(list: Seq<Observation>) -> Seq<Collected> {
    Seq::new(list.len(), |i: int| (list[i].kind, list[i].ioa, list[i].value, list[i].quality))
}

/// The first points, as many as a collector buffers.
pub open spec fn capped(points: Seq<Collected>) -> Seq<Collected> {
    if points.len() <= COLLECTOR_CAPACITY {
        points
    } else {
        points.take(COLLECTOR_CAPACITY as int)
    }
}

impl Collector {
    fn feed(&mut self, list: &Vec<Observation>)
        requires
            old(self)@.points.len() <= COLLECTOR_CAPACITY,
        ensures
            final(self)@ == (CollectorModel {
                points: capped(old(self)@.points + collected(list@)),
                done: old(self)@.done,
            }),
    {
        let n: usize = list.len();
        let mut i: usize = 0;
        assert(self.points@ =~= capped(old(self)@.points + collected(list@).take(0)));
        while i < n
            invariant
                i <= n,
                n == list@.len(),
                self.done == old(self)@.done,
                old(self)@.points.len() <= COLLECTOR_CAPACITY,
                self.points@ == capped(old(self)@.points + collected(list@).take(i as int)),
            decreases n - i,
        {
            let o = list[i];
            if self.points.len() < COLLECTOR_CAPACITY {
                self.points.push((o.kind, o.ioa, o.value, o.quality));
            }
            assert(self.points@ =~= capped(old(self)@.points + collected(list@).take(i + 1)));
            i += 1;
        }
        assert(collected(list@).take(n as int) =~= collected(list@));
    }
}

// ---------------------------------------------------------------------------
// The state and what an ASDU does to it
// ---------------------------------------------------------------------------

/// What a [`Master`] keeps.
#[verifier::ext_equal]
pub struct MasterModel {
    /// Common address configured for this daemon instance.
    pub coa: u16,
    /// Last-value cache.
    pub cache: Map<(PointKind, u32), CachedPoint>,
    /// In-flight interrogation collectors, by common address and qualifier.
    pub interrogations: Map<(u16, u8), CollectorModel>,
    /// Commands that wait for their confirmation, by Type ID and IOA.
    pub waiting: Set<(u8, u32)>,
}

/// The end of an interrogation.
pub open spec fn is_termination(asdu: AsduModel) -> bool {
    asdu.cot.cause.0 == Cause::ACTIVATION_TERMINATION && asdu.type_id == C_IC_NA_1::code()
}

/// The Type IDs of the commands that wait for a confirmation.
pub open spec fn is_command(type_id: u8) -> bool {
    45 <= type_id <= 50
}

/// The confirmation of a command.
pub open spec fn is_confirmation(asdu: AsduModel) -> bool {
    asdu.cot.cause.0 == Cause::ACTIVATION_CON && is_command(asdu.type_id)
}

/// The command that a confirmation is for.
pub open spec fn confirmed_command(asdu: AsduModel) -> (u8, u32) {
    (asdu.type_id, u24_of(asdu.payload) as u32)
}

/// The cache after the observations have been entered in order.
pub open spec fn remembered(
    cache: Map<(PointKind, u32), CachedPoint>,
    list: Seq<Observation>,
    now: Instant,
) -> Map<(PointKind, u32), CachedPoint>
    decreases list.len(),
{
    if list.len() == 0 {
        cache
    } else {
        let o = list.last();
        remembered(cache, list.drop_last(), now).insert(
            (o.kind, o.ioa),
            CachedPoint {
                value: o.value,
                quality: o.quality,
                timestamp: o.timestamp,
                received_at: now,
            },
        )
    }
}

/// The collectors of a common address after they were fed.
pub open spec fn fed(
    interrogations: Map<(u16, u8), CollectorModel>,
    ca: u16,
    list: Seq<Observation>,
) -> Map<(u16, u8), CollectorModel> {
    interrogations.map_entries(
        |key: (u16, u8), c: CollectorModel|
            if key.0 == ca {
                CollectorModel { points: capped(c.points + collected(list)), done: c.done }
            } else {
                c
            },
    )
}

/// The collectors of a common address after their interrogations ended.
pub open spec fn terminated(interrogations: Map<(u16, u8), CollectorModel>, ca: u16) -> Map<
    (u16, u8),
    CollectorModel,
> {
    interrogations.map_entries(
        |key: (u16, u8), c: CollectorModel|
            if key.0 == ca {
                CollectorModel { points: c.points, done: true }
            } else {
                c
            },
    )
}

/// What an ASDU makes of the state.
pub open spec fn processed(m: MasterModel, asdu: AsduModel, now: Instant) -> MasterModel {
    if is_termination(asdu) {
        MasterModel { interrogations: terminated(m.interrogations, asdu.ca.0), ..m }
    } else if is_confirmation(asdu) {
        if asdu.payload.len() >= 3 {
            MasterModel { waiting: m.waiting.remove(confirmed_command(asdu)), ..m }
        } else {
            m
        }
    } else {
        let list = observed(asdu);
        MasterModel {
            cache: remembered(m.cache, list, now),
            interrogations: fed(m.interrogations, asdu.ca.0, list),
            ..m
        }
    }
}

/// The events that an ASDU gives rise to: one for each observation.
pub open spec fn events_of(asdu: AsduModel) -> Seq<Event> {
    if is_termination(asdu) || is_confirmation(asdu) {
        Seq::empty()
    } else {
        reported(asdu.cot.cause.0, asdu.type_id, observed(asdu))
    }
}

/// The waiting command that an ASDU answers, and whether negatively.
pub open spec fn answered(m: MasterModel, asdu: AsduModel) -> Option<(u8, u32, bool)> {
    if !is_termination(asdu) && is_confirmation(asdu) && asdu.payload.len() >= 3
        && m.waiting.contains(confirmed_command(asdu)) {
        Some((asdu.type_id, confirmed_command(asdu).1, asdu.cot.negative))
    } else {
        None
    }
}

/// What an incoming ASDU leaves to be done.
#[derive(Debug)]
pub struct Output {
    /// What the subscribers are told.
    pub events: Vec<Event>,
    /// The interrogations that have just ended, by common address and
    /// qualifier.
    pub ended: Vec<(u16, u8)>,
    /// The waiting command that was answered, and whether negatively.
    pub confirmed: Option<(u8, u32, bool)>,
}

/// Whether `ended` lists, each once, the collectors that were waiting for the
/// termination.
pub open spec fn lists_ended(m: MasterModel, asdu: AsduModel, ended: Seq<(u16, u8)>) -> bool {
    &&& ended.no_duplicates()
    &&& forall|key: (u16, u8)| #[trigger]
        ended.contains(key) <==> {
            &&& is_termination(asdu)
            &&& m.interrogations.contains_key(key)
            &&& key.0 == asdu.ca.0
            &&& !m.interrogations[key].done
        }
}

/// The state of a master daemon.
#[derive(Debug)]
pub struct Master {
    coa: u16,
    cache: PointCache,
    interrogations: Table<Collector>,
    waiting: Table<()>,
}

spec fn collector_key(key: (u16, u8)) -> u64 {
    (key.0 * 256 + key.1) as u64
}

spec fn command_key(key: (u8, u32)) -> u64 {
    (key.1 * 256 + key.0) as u64
}

/// The common address and qualifier that a collector is filed under.
spec fn filed_under(key: u64) -> (u16, u8) {
    ((key / 256) as u16, (key % 256) as u8)
}

/// Whether one of the first `n` keys is that of a collector at `key` which is
/// not done.
spec fn pending_among(keys: Seq<u64>, n: int, rows: Map<u64, Collector>, key: (u16, u8)) -> bool {
    exists|j: int|
        0 <= j < n && filed_under(#[trigger] keys[j]) == key && !rows[keys[j]]@.done
}

spec fn collectors_of(rows: Map<u64, Collector>) -> Map<(u16, u8), CollectorModel> {
    Map::new(
        |key: (u16, u8)| rows.contains_key(collector_key(key)),
        |key: (u16, u8)| rows[collector_key(key)]@,
    )
}

impl View for Master {
    type V = MasterModel;

    closed spec fn view(&self) -> MasterModel {
        MasterModel {
            coa: self.coa,
            cache: self.cache@,
            interrogations: collectors_of(self.interrogations@),
            waiting: Set::new(|key: (u8, u32)| self.waiting@.contains_key(command_key(key))),
        }
    }
}

impl Master {
    /// The tables are in order, and no collector holds more than it buffers.
    pub closed spec fn wf(&self) -> bool {
        &&& self.cache.wf()
        &&& self.interrogations.wf()
        &&& self.waiting.wf()
        &&& forall|k: u64| #[trigger]
            self.interrogations@.contains_key(k) ==> k < 0x100_0000
                && self.interrogations@[k]@.points.len() <= COLLECTOR_CAPACITY
    }

    pub fn new(coa: u16) -> (m: Self)
        ensures
            m.wf(),
            m@ == (MasterModel {
                coa,
                cache: Map::empty(),
                interrogations: Map::empty(),
                waiting: Set::empty(),
            }),
    {
        let m = Master {
            coa,
            cache: PointCache::new(),
            interrogations: Table::new(),
            waiting: Table::new(),
        };
        assert(m@ =~= (MasterModel {
            coa,
            cache: Map::empty(),
            interrogations: Map::empty(),
            waiting: Set::empty(),
        }));
        m
    }

    /// The keys of the collectors of a common address.
    fn keys_of(&self, ca: u16) -> (keys: Vec<u64>)
        requires
            self.wf(),
        ensures
            keys@.no_duplicates(),
            forall|k: u64| #[trigger]
                keys@.contains(k) <==> self.interrogations@.contains_key(k) && k / 256 == ca,
    {
        let n: usize = self.interrogations.len();
        let mut keys: Vec<u64> = Vec::new();
        let mut i: usize = 0;
        let ghost listed = self.interrogations.listed();
        proof { self.interrogations.lemma_listed(); }
        while i < n
            invariant
                i <= n,
                n == listed.len(),
                listed == self.interrogations.listed(),
                crate::table::ascending(listed),
                keys@.no_duplicates(),
                forall|j: int| 0 <= j < keys@.len() ==> (#[trigger] keys@[j]) / 256 == ca,
                forall|j: int|
                    0 <= j < keys@.len() ==> exists|l: int|
                        0 <= l < i && (#[trigger] listed[l]).0 == #[trigger] keys@[j],
                forall|l: int|
                    0 <= l < i && (#[trigger] listed[l]).0 / 256 == ca ==> keys@.contains(
                        listed[l].0,
                    ),
            decreases n - i,
        {
            let k: u64 = self.interrogations.row(i).0;
            let ghost had = keys@;
            if k / 256 == ca as u64 {
                assert(!had.contains(k)) by {
                    if had.contains(k) {
                        let j = choose|j: int| 0 <= j < had.len() && had[j] == k;
                        let l = choose|l: int| 0 <= l < i && (#[trigger] listed[l]).0 == had[j];
                        assert(listed[l].0 < listed[i as int].0);
                    }
                }
                keys.push(k);
                assert(keys@[had.len() as int] == k);
                assert forall|j: int| 0 <= j < keys@.len() implies exists|l: int|
                    0 <= l < i + 1 && (#[trigger] listed[l]).0 == #[trigger] keys@[j] by {
                    if j == had.len() {
                        assert(listed[i as int].0 == keys@[j]);
                    } else {
                        assert(keys@[j] == had[j]);
                        let l = choose|l: int| 0 <= l < i && (#[trigger] listed[l]).0 == had[j];
                        assert(listed[l].0 == keys@[j]);
                    }
                }
                assert forall|l: int| 0 <= l < i + 1 && (#[trigger] listed[l]).0 / 256
                    == ca implies keys@.contains(listed[l].0) by {
                    if l < i {
                        let j = choose|j: int| 0 <= j < had.len() && had[j] == listed[l].0;
                        assert(keys@[j] == listed[l].0);
                    }
                }
            }
            i += 1;
        }
        proof {
            assert forall|k: u64| #[trigger]
                keys@.contains(k) <==> self.interrogations@.contains_key(k) && k / 256 == ca by {
                if keys@.contains(k) {
                    let j = choose|j: int| 0 <= j < keys@.len() && keys@[j] == k;
                    let l = choose|l: int| 0 <= l < n && (#[trigger] listed[l]).0 == keys@[j];
                    assert(self.interrogations@.contains_key(listed[l].0));
                }
                if self.interrogations@.contains_key(k) && k / 256 == ca {
                    let l = choose|l: int| 0 <= l < listed.len() && (#[trigger] listed[l]).0 == k;
                    assert(keys@.contains(listed[l].0));
                }
            }
        }
        keys
    }

    /// Enter the observations into the cache, in order.
    fn remember(&mut self, list: &Vec<Observation>, now: Instant)
        requires
            old(self).wf(),
        ensures
            final(self).wf(),
            final(self)@ == (MasterModel {
                cache: remembered(old(self)@.cache, list@, now),
                ..old(self)@
            }),
    {
        let n: usize = list.len();
        let mut i: usize = 0;
        assert(list@.take(0) =~= Seq::empty());
        while i < n
            invariant
                i <= n,
                n == list@.len(),
                self.wf(),
                self@ == (MasterModel {
                    cache: remembered(old(self)@.cache, list@.take(i as int), now),
                    ..old(self)@
                }),
            decreases n - i,
        {
            assert(list@.take(i + 1).drop_last() =~= list@.take(i as int));
            let o = list[i];
            self.cache.update(o.kind, o.ioa, o.value, o.quality, o.timestamp, now);
            i += 1;
        }
        assert(list@.take(n as int) =~= list@);
    }

    /// Push the observations to every active interrogation collector for the
    /// common address.
    fn feed_interrogation(&mut self, ca: u16, list: &Vec<Observation>)
        requires
            old(self).wf(),
        ensures
            final(self).wf(),
            final(self)@ == (MasterModel {
                interrogations: fed(old(self)@.interrogations, ca, list@),
                ..old(self)@
            }),
    {
        let keys: Vec<u64> = self.keys_of(ca);
        let n: usize = keys.len();
        let ghost first = self.interrogations@;
        proof {
            assert forall|j: int| 0 <= j < n implies first.contains_key(#[trigger] keys@[j]) by {
                assert(keys@.contains(keys@[j]));
            }
        }
        let mut i: usize = 0;
        while i < n
            invariant
                i <= n,
                n == keys@.len(),
                keys@.no_duplicates(),
                forall|j: int| 0 <= j < n ==> first.contains_key(#[trigger] keys@[j]),
                forall|k: u64| #[trigger]
                    first.contains_key(k) ==> k < 0x100_0000 && first[k]@.points.len()
                        <= COLLECTOR_CAPACITY,
                self.wf(),
                self.coa == old(self).coa,
                self.cache == old(self).cache,
                self.waiting == old(self).waiting,
                self.interrogations@.dom() == first.dom(),
                forall|j: int|
                    0 <= j < i ==> self.interrogations@[#[trigger] keys@[j]]@ == (CollectorModel {
                        points: capped(first[keys@[j]]@.points + collected(list@)),
                        done: first[keys@[j]]@.done,
                    }),
                forall|k: u64|
                    first.contains_key(k) && !keys@.take(i as int).contains(k)
                        ==> #[trigger] self.interrogations@[k] == first[k],
            decreases n - i,
        {
            let k: u64 = keys[i];
            let ghost before = self.interrogations@;
            proof {
                assert(first.contains_key(k));
                assert(before.contains_key(k));
                assert(!keys@.take(i as int).contains(k)) by {
                    if keys@.take(i as int).contains(k) {
                        let j = choose|j: int| 0 <= j < i && keys@.take(i as int)[j] == k;
                        assert(keys@[j] == keys@[i as int]);
                    }
                }
            }
            if let Some(c) = self.interrogations.get_mut(k) {
                c.feed(list);
            }
            proof {
                assert(self.interrogations@ =~= before.insert(k, self.interrogations@[k]));
                assert forall|j: int| 0 <= j < i + 1 implies self.interrogations@[
                    #[trigger] keys@[j]
                ]@ == (CollectorModel {
                    points: capped(first[keys@[j]]@.points + collected(list@)),
                    done: first[keys@[j]]@.done,
                }) by {
                    if j < i {
                        assert(keys@[j] != k);
                    }
                }
                assert forall|l: u64|
                    first.contains_key(l) && !keys@.take(i + 1).contains(l) implies #[trigger] self.interrogations@[l]
                    == first[l] by {
                    assert(keys@.take(i + 1)[i as int] == k);
                    if keys@.take(i as int).contains(l) {
                        let j = choose|j: int| 0 <= j < i && keys@.take(i as int)[j] == l;
                        assert(keys@.take(i + 1)[j] == l);
                    }
                }
            }
            i += 1;
        }
        proof {
            assert(keys@.take(n as int) =~= keys@);
            let want = fed(old(self)@.interrogations, ca, list@);
            assert forall|key: (u16, u8)| #[trigger]
                want.contains_key(key) implies self@.interrogations[key] == want[key] by {
                let k = collector_key(key);
                if key.0 == ca {
                    assert(keys@.contains(k));
                    let j = choose|j: int| 0 <= j < keys@.len() && keys@[j] == k;
                    assert(self.interrogations@[keys@[j]]@.points =~= want[key].points);
                } else {
                    assert(!keys@.contains(k));
                }
            }
            assert forall|key: (u16, u8)| #[trigger]
                want.contains_key(key) <==> self@.interrogations.contains_key(key) by {
                assert(first.dom().contains(collector_key(key)) <==> first.contains_key(
                    collector_key(key),
                ));
            }
            assert(self@.interrogations.dom() =~= want.dom());
            assert(self@.interrogations =~= want);
        }
    }

    /// Mark every interrogation collector for the common address as done.
    /// Returns those that were not.
    fn end_interrogations(&mut self, ca: u16) -> (ended: Vec<(u16, u8)>)
        requires
            old(self).wf(),
        ensures
            final(self).wf(),
            final(self)@ == (MasterModel {
                interrogations: terminated(old(self)@.interrogations, ca),
                ..old(self)@
            }),
            ended@.no_duplicates(),
            forall|key: (u16, u8)| #[trigger]
                ended@.contains(key) <==> old(self)@.interrogations.contains_key(key) && key.0 == ca
                    && !old(self)@.interrogations[key].done,
    {
        let keys: Vec<u64> = self.keys_of(ca);
        let n: usize = keys.len();
        let ghost first = self.interrogations@;
        let mut ended: Vec<(u16, u8)> = Vec::new();
        proof {
            assert forall|j: int| 0 <= j < n implies first.contains_key(#[trigger] keys@[j])
                && keys@[j] / 256 == ca by {
                assert(keys@.contains(keys@[j]));
            }
        }
        let mut i: usize = 0;
        while i < n
            invariant
                i <= n,
                n == keys@.len(),
                keys@.no_duplicates(),
                forall|j: int| 0 <= j < n ==> first.contains_key(#[trigger] keys@[j]),
                forall|j: int| 0 <= j < n ==> (#[trigger] keys@[j]) / 256 == ca,
                forall|k: u64| #[trigger]
                    first.contains_key(k) ==> k < 0x100_0000 && first[k]@.points.len()
                        <= COLLECTOR_CAPACITY,
                self.wf(),
                self.coa == old(self).coa,
                self.cache == old(self).cache,
                self.waiting == old(self).waiting,
                self.interrogations@.dom() == first.dom(),
                forall|j: int|
                    0 <= j < i ==> self.interrogations@[#[trigger] keys@[j]]@ == (CollectorModel {
                        points: first[keys@[j]]@.points,
                        done: true,
                    }),
                forall|k: u64|
                    first.contains_key(k) && !keys@.take(i as int).contains(k)
                        ==> #[trigger] self.interrogations@[k] == first[k],
                ended@.no_duplicates(),
                forall|m: int|
                    0 <= m < ended@.len() ==> pending_among(
                        keys@,
                        i as int,
                        first,
                        #[trigger] ended@[m],
                    ),
                forall|j: int|
                    0 <= j < i && !first[#[trigger] keys@[j]]@.done ==> ended@.contains(
                        filed_under(keys@[j]),
                    ),
            decreases n - i,
        {
            let k: u64 = keys[i];
            let ghost before = self.interrogations@;
            let ghost had = ended@;
            proof {
                assert(first.contains_key(k));
                assert(before.contains_key(k));
                assert(!keys@.take(i as int).contains(k)) by {
                    if keys@.take(i as int).contains(k) {
                        let j = choose|j: int| 0 <= j < i && keys@.take(i as int)[j] == k;
                        assert(keys@[j] == keys@[i as int]);
                    }
                }
                assert(before[k] == first[k]);
            }
            if let Some(c) = self.interrogations.get_mut(k) {
                if !c.done {
                    c.done = true;
                    let key: (u16, u8) = ((k / 256) as u16, (k % 256) as u8);
                    assert(!had.contains(key)) by {
                        if had.contains(key) {
                            let m = choose|m: int| 0 <= m < had.len() && had[m] == key;
                            let j = choose|j: int|
                                0 <= j < i && filed_under(#[trigger] keys@[j]) == had[m]
                                    && !first[keys@[j]]@.done;
                            assert(first.contains_key(keys@[j]));
                            assert(keys@[j] == keys@[i as int]);
                        }
                    }
                    ended.push(key);
                }
            }
            proof {
                assert(self.interrogations@ =~= before.insert(k, self.interrogations@[k]));
                assert forall|j: int| 0 <= j < i + 1 implies self.interrogations@[
                    #[trigger] keys@[j]
                ]@ == (CollectorModel { points: first[keys@[j]]@.points, done: true }) by {
                    if j < i {
                        assert(keys@[j] != k);
                    }
                }
                assert forall|l: u64|
                    first.contains_key(l) && !keys@.take(i + 1).contains(l) implies #[trigger] self.interrogations@[l]
                    == first[l] by {
                    assert(keys@.take(i + 1)[i as int] == k);
                    if keys@.take(i as int).contains(l) {
                        let j = choose|j: int| 0 <= j < i && keys@.take(i as int)[j] == l;
                        assert(keys@.take(i + 1)[j] == l);
                    }
                }
                assert forall|m: int| 0 <= m < ended@.len() implies pending_among(
                    keys@,
                    i + 1,
                    first,
                    #[trigger] ended@[m],
                ) by {
                    if m < had.len() {
                        assert(had[m] == ended@[m]);
                        let j = choose|j: int|
                            0 <= j < i && filed_under(#[trigger] keys@[j]) == had[m]
                                && !first[keys@[j]]@.done;
                        assert(filed_under(keys@[j]) == ended@[m]);
                    } else {
                        assert(filed_under(keys@[i as int]) == ended@[m]);
                    }
                }
                assert forall|j: int|
                    0 <= j < i + 1 && !first[#[trigger] keys@[j]]@.done implies ended@.contains(
                    filed_under(keys@[j]),
                ) by {
                    if j < i {
                        let m = choose|m: int|
                            0 <= m < had.len() && had[m] == filed_under(keys@[j]);
                        assert(ended@[m] == filed_under(keys@[j]));
                    } else {
                        assert(ended@[ended@.len() - 1] == filed_under(k));
                    }
                }
            }
            i += 1;
        }
        proof {
            assert(keys@.take(n as int) =~= keys@);
            let want = terminated(old(self)@.interrogations, ca);
            assert forall|key: (u16, u8)| #[trigger]
                want.contains_key(key) implies self@.interrogations[key] == want[key] by {
                let k = collector_key(key);
                if key.0 == ca {
                    assert(keys@.contains(k));
                    let j = choose|j: int| 0 <= j < keys@.len() && keys@[j] == k;
                    assert(self.interrogations@[keys@[j]]@.points =~= want[key].points);
                } else {
                    assert(!keys@.contains(k));
                }
            }
            assert forall|key: (u16, u8)| #[trigger]
                want.contains_key(key) <==> self@.interrogations.contains_key(key) by {
                assert(first.dom().contains(collector_key(key)) <==> first.contains_key(
                    collector_key(key),
                ));
            }
            assert(self@.interrogations.dom() =~= want.dom());
            assert(self@.interrogations =~= want);
            assert forall|key: (u16, u8)| #[trigger]
                ended@.contains(key) <==> old(self)@.interrogations.contains_key(key) && key.0 == ca
                    && !old(self)@.interrogations[key].done by {
                let k = collector_key(key);
                assert(filed_under(k) == key);
                if ended@.contains(key) {
                    let m = choose|m: int| 0 <= m < ended@.len() && ended@[m] == key;
                    let j = choose|j: int|
                        0 <= j < n && filed_under(#[trigger] keys@[j]) == ended@[m]
                            && !first[keys@[j]]@.done;
                    assert(first.contains_key(keys@[j]));
                    assert(keys@[j] == k);
                }
                if first.contains_key(k) && key.0 == ca && !first[k]@.done {
                    assert(keys@.contains(k));
                    let j = choose|j: int| 0 <= j < keys@.len() && keys@[j] == k;
                    assert(!first[keys@[j]]@.done);
                }
            }
        }
        ended
    }

    /// Decode one ASDU and dispatch updates to the cache, interrogation
    /// collectors, and waiting commands.
    pub fn process_asdu(&mut self, asdu: &Asdu, now: Instant) -> (out: Output)
        requires
            old(self).wf(),
        ensures
            final(self).wf(),
            final(self)@ == processed(old(self)@, asdu@, now),
            out.events@ == events_of(asdu@),
            lists_ended(old(self)@, asdu@, out.ended@),
            out.confirmed == answered(old(self)@, asdu@),
    {
        let cause: u8 = asdu.cot().cause.0;
        let type_id: u8 = asdu.type_id();
        let ca: u16 = asdu.ca().0;
        proof { C_IC_NA_1::law_type_id(); }
        // The end of an interrogation.
        if cause == Cause::ACTIVATION_TERMINATION && type_id == C_IC_NA_1::TYPE_ID {
            let ended = self.end_interrogations(ca);
            return Output { events: Vec::new(), ended, confirmed: None };
        }
        if cause == Cause::ACTIVATION_CON && 45 <= type_id && type_id <= 50 {
            let confirmed = self.take_confirmation(asdu);
            return Output { events: Vec::new(), ended: Vec::new(), confirmed };
        }
        // Monitor direction: cache, tell, and collect.
        let list: Vec<Observation> = observe(asdu);
        self.remember(&list, now);
        self.feed_interrogation(ca, &list);
        let events = report(cause, type_id, &list);
        Output { events, ended: Vec::new(), confirmed: None }
    }

    /// Match a confirmation with the command that waits for it. All of them
    /// start with a 3-octet IOA.
    fn take_confirmation(&mut self, asdu: &Asdu) -> (confirmed: Option<(u8, u32, bool)>)
        requires
            old(self).wf(),
            is_confirmation(asdu@),
        ensures
            final(self).wf(),
            final(self)@ == (if asdu@.payload.len() >= 3 {
                MasterModel {
                    waiting: old(self)@.waiting.remove(confirmed_command(asdu@)),
                    ..old(self)@
                }
            } else {
                old(self)@
            }),
            confirmed == answered(old(self)@, asdu@),
    {
        let type_id: u8 = asdu.type_id();
        let mut payload: &[u8] = asdu.payload_bytes();
        if payload.len() < 3 {
            return None;
        }
        let ioa: u32 = get_u24_le(&mut payload);
        let key: u64 = ioa as u64 * 256 + type_id as u64;
        assert(key == command_key(confirmed_command(asdu@)));
        let waited: bool = self.waiting.remove(key).is_some();
        assert(self@.waiting =~= old(self)@.waiting.remove(confirmed_command(asdu@)));
        if waited {
            Some((type_id, ioa, asdu.cot().negative))
        } else {
            None
        }
    }
}

/// One event for each observation.
pub open spec fn reported(cause: u8, type_id: u8, list: Seq<Observation>) -> Seq<Event> {
    Seq::new(
        list.len(),
        |i: int|
            Event::AsduReceived {
                cot: cause,
                type_id,
                ioa: list[i].ioa,
                value: Some(list[i].value),
            },
    )
}

fn report(cause: u8, type_id: u8, list: &Vec<Observation>) -> (events: Vec<Event>)
    ensures
        events@ == reported(cause, type_id, list@),
{
    let n: usize = list.len();
    let mut events: Vec<Event> = Vec::new();
    let mut i: usize = 0;
    while i < n
        invariant
            i <= n,
            n == list@.len(),
            events@ == reported(cause, type_id, list@).take(i as int),
        decreases n - i,
    {
        let o = list[i];
        events.push(Event::AsduReceived { cot: cause, type_id, ioa: o.ioa, value: Some(o.value) });
        assert(events@ =~= reported(cause, type_id, list@).take(i + 1));
        i += 1;
    }
    assert(reported(cause, type_id, list@).take(n as int) =~= reported(cause, type_id, list@));
    events
}

// ---------------------------------------------------------------------------
// Requests
// ---------------------------------------------------------------------------

/// The octets of a command that carries one object.
pub open spec fn activation<P: AsduPayload>(content: P::V, ca: u16) -> Seq<u8> {
    single_asdu::<P>(content, plain(Cause::ACTIVATION), CommonAddress(ca)).wire(
        AsduAddressing::iec104(),
    )
}

/// The common address that a request is for: the given one, or else the
/// configured one.
pub open spec fn resolved(m: MasterModel, ca: Option<u16>) -> u16 {
    match ca {
        Some(c) => c,
        None => m.coa,
    }
}

/// The qualifier of an interrogation: general, or of a group.
pub open spec fn qualifier_of(group: Option<u8>) -> u8 {
    match group {
        Some(g) => (Qoi::GENERAL + g) as u8,
        None => Qoi::GENERAL,
    }
}

/// The state in which a command waits for its confirmation.
pub open spec fn with_waiting(m: MasterModel, type_id: u8, ioa: u32) -> MasterModel {
    MasterModel { waiting: m.waiting.insert((type_id, ioa)), ..m }
}

/// The direction of the same name.
pub open spec fn direction_of(step: StepDir) -> StepDirection {
    match step {
        StepDir::Lower => StepDirection::Lower,
        StepDir::Higher => StepDirection::Higher,
    }
}

fn step_direction(step: StepDir) -> (d: StepDirection)
    ensures
        d == direction_of(step),
{
    match step {
        StepDir::Lower => StepDirection::Lower,
        StepDir::Higher => StepDirection::Higher,
    }
}

/// A set-point value. `Normalized` and `Float` hold IEEE 754 binary32 bit
/// patterns.
#[derive(Debug, Clone, Copy, PartialEq, Eq, Structural)]
pub enum Setpoint {
    Normalized(u32),
    Scaled(i16),
    Float(u32),
}

/// The Type ID of the set-point command for a value.
pub open spec fn setpoint_type(value: Setpoint) -> u8 {
    match value {
        Setpoint::Normalized(_) => 48,
        Setpoint::Scaled(_) => 49,
        Setpoint::Float(_) => 50,
    }
}

/// An interrogation that has been set up.
#[derive(Debug)]
pub struct Interrogation {
    /// Common address and qualifier.
    pub key: (u16, u8),
    /// The command to send.
    pub bytes: Vec<u8>,
    /// What the collector had buffered that was registered for the same common
    /// address and qualifier before, if there was one.
    pub displaced: Option<Vec<Collected>>,
}

/// What came of waiting for the confirmation of a command.
#[derive(Debug, Clone, Copy, PartialEq, Eq, Structural)]
pub enum Confirmation {
    Received { negative: bool },
    /// Another command for the same object took over.
    Dropped,
    TimedOut,
}

impl Confirmation {
    /// Why a command has failed; `None` if it was confirmed.
    pub fn failure(self) -> (r: Option<&'static str>)
        ensures
            match self {
                Confirmation::Received { negative: false } => r is None,
                Confirmation::Received { negative: true } => r is Some && r->0@
                    == "negative ACTIVATION_CON"@,
                Confirmation::Dropped => r is Some && r->0@ == "command waiter dropped"@,
                Confirmation::TimedOut => r is Some && r->0@
                    == "timeout waiting for ACTIVATION_CON"@,
            },
    {
        match self {
            Confirmation::Received { negative } => if negative {
                Some("negative ACTIVATION_CON")
            } else {
                None
            },
            Confirmation::Dropped => Some("command waiter dropped"),
            Confirmation::TimedOut => Some("timeout waiting for ACTIVATION_CON"),
        }
    }
}

/// The answer to a read.
#[derive(Debug)]
pub struct Reading {
    pub kind: PointKind,
    pub value: PointValue,
    pub quality: QualityWire,
    /// Milliseconds since the value was received.
    pub age_ms: u128,
    /// The time tag in text form, if the value has one.
    pub timestamp: Option<String>,
}

/// How long to wait for the end of an interrogation, in milliseconds: 5000
/// unless the request says otherwise.
pub fn interrogation_timeout_ms(timeout_ms: Option<u64>) -> (ms: u64)
    ensures
        ms == (match timeout_ms {
            Some(t) => t,
            None => 5000,
        }),
{
    match timeout_ms {
        Some(t) => t,
        None => 5000,
    }
}

impl Master {
    /// The cache.
    pub fn cache(&self) -> (cache: &PointCache)
        requires
            self.wf(),
        ensures
            cache.wf(),
            cache@ == self@.cache,
    {
        &self.cache
    }

    /// Resolve the common address: use caller-supplied `ca` or fall back to
    /// the daemon's configured `coa`.
    pub fn resolve_ca(&self, ca: Option<u16>) -> (r: u16)
        ensures
            r == resolved(self@, ca),
    {
        match ca {
            Some(c) => c,
            None => self.coa,
        }
    }

    /// Register a collector for a general interrogation, or for that of a
    /// group, and build the command.
    pub fn begin_interrogation(&mut self, group: Option<u8>, ca: Option<u16>) -> (r: Interrogation)
        requires
            old(self).wf(),
            group matches Some(g) ==> g <= 235,
        ensures
            final(self).wf(),
            r.key == (resolved(old(self)@, ca), qualifier_of(group)),
            r.bytes@ == activation::<C_IC_NA_1>(seq![(Ioa(0), Qoi(r.key.1))], r.key.0),
            final(self)@ == (MasterModel {
                interrogations: old(self)@.interrogations.insert(
                    r.key,
                    CollectorModel { points: Seq::empty(), done: false },
                ),
                ..old(self)@
            }),
            match r.displaced {
                Some(points) => old(self)@.interrogations.contains_key(r.key) && points@ == old(
                    self,
                )@.interrogations[r.key].points,
                None => !old(self)@.interrogations.contains_key(r.key),
            },
    {
        let qoi: u8 = match group {
            Some(g) => Qoi::group(g).0,
            None => Qoi::GENERAL,
        };
        let ca: u16 = self.resolve_ca(ca);
        let key: u64 = ca as u64 * 256 + qoi as u64;
        let ghost at = (ca, qoi);
        assert(key == collector_key(at));
        let displaced: Option<Vec<Collected>> = match self.interrogations.remove(key) {
            Some(c) => Some(c.points),
            None => None,
        };
        self.interrogations.insert(key, Collector { points: Vec::new(), done: false });
        proof {
            let fresh = CollectorModel { points: Seq::empty(), done: false };
            assert(self.interrogations@ =~= old(self).interrogations@.insert(
                key,
                self.interrogations@[key],
            ));
            assert(self.interrogations@[key]@ =~= fresh);
            assert(self@.interrogations =~= old(self)@.interrogations.insert(at, fresh));
        }
        let payload = C_IC_NA_1 { objects: vec![(Ioa(0), Qoi(qoi))] };
        assert(payload@ =~= seq![(Ioa(0), Qoi(qoi))]);
        proof { lemma_one_object(payload@); }
        let bytes = encode_asdu(&payload, Cot::with(Cause(Cause::ACTIVATION)), CommonAddress(ca));
        Interrogation { key: (ca, qoi), bytes, displaced }
    }

    /// Take out what a collector has buffered so far. It goes on collecting.
    pub fn drain_interrogation(&mut self, key: (u16, u8)) -> (points: Vec<Collected>)
        requires
            old(self).wf(),
        ensures
            final(self).wf(),
            old(self)@.interrogations.contains_key(key) ==> {
                let was = old(self)@.interrogations[key];
                &&& points@ == was.points
                &&& final(self)@ == (MasterModel {
                    interrogations: old(self)@.interrogations.insert(
                        key,
                        CollectorModel { points: Seq::empty(), done: was.done },
                    ),
                    ..old(self)@
                })
            },
            !old(self)@.interrogations.contains_key(key) ==> points@ == Seq::<Collected>::empty()
                && final(self)@ == old(self)@,
    {
        let k: u64 = key.0 as u64 * 256 + key.1 as u64;
        assert(k == collector_key(key));
        match self.interrogations.remove(k) {
            Some(c) => {
                self.interrogations.insert(k, Collector { points: Vec::new(), done: c.done });
                proof {
                    let emptied = CollectorModel { points: Seq::empty(), done: c@.done };
                    assert(self.interrogations@ =~= old(self).interrogations@.insert(
                        k,
                        self.interrogations@[k],
                    ));
                    assert(self.interrogations@[k]@ =~= emptied);
                    assert(self@.interrogations =~= old(self)@.interrogations.insert(key, emptied));
                }
                c.points
            },
            None => {
                assert(self.interrogations@ =~= old(self).interrogations@);
                Vec::new()
            },
        }
    }

    /// Remove a collector, handing out what it had buffered.
    pub fn finish_interrogation(&mut self, key: (u16, u8)) -> (points: Vec<Collected>)
        requires
            old(self).wf(),
        ensures
            final(self).wf(),
            points@ == (if old(self)@.interrogations.contains_key(key) {
                old(self)@.interrogations[key].points
            } else {
                Seq::<Collected>::empty()
            }),
            final(self)@ == (MasterModel {
                interrogations: old(self)@.interrogations.remove(key),
                ..old(self)@
            }),
    {
        let k: u64 = key.0 as u64 * 256 + key.1 as u64;
        assert(k == collector_key(key));
        let removed = self.interrogations.remove(k);
        assert(self@.interrogations =~= old(self)@.interrogations.remove(key));
        match removed {
            Some(c) => c.points,
            None => Vec::new(),
        }
    }

    fn await_confirmation(&mut self, type_id: u8, ioa: u32)
        requires
            old(self).wf(),
        ensures
            final(self).wf(),
            final(self)@ == with_waiting(old(self)@, type_id, ioa),
    {
        let key: u64 = ioa as u64 * 256 + type_id as u64;
        assert(key == command_key((type_id, ioa)));
        self.waiting.insert(key, ());
        assert(self@.waiting =~= old(self)@.waiting.insert((type_id, ioa)));
    }

    /// Give up waiting for the confirmation of a command.
    pub fn forget(&mut self, type_id: u8, ioa: u32)
        requires
            old(self).wf(),
        ensures
            final(self).wf(),
            final(self)@ == (MasterModel {
                waiting: old(self)@.waiting.remove((type_id, ioa)),
                ..old(self)@
            }),
    {
        let key: u64 = ioa as u64 * 256 + type_id as u64;
        assert(key == command_key((type_id, ioa)));
        let _ = self.waiting.remove(key);
        assert(self@.waiting =~= old(self)@.waiting.remove((type_id, ioa)));
    }

    /// Issue `C_SC_NA_1` (single command). The command waits for its
    /// confirmation.
    pub fn command_single(&mut self, ioa: u32, on: bool, ca: Option<u16>) -> (bytes: Vec<u8>)
        requires
            old(self).wf(),
        ensures
            final(self).wf(),
            final(self)@ == with_waiting(old(self)@, 45, ioa),
            bytes@ == activation::<C_SC_NA_1>(
                seq![(
                    Ioa(ioa),
                    Sco { on, qualifier: 0, select: false },
                )],
                resolved(old(self)@, ca),
            ),
    {
        let command = Sco { on, qualifier: 0, select: false };
        let payload = C_SC_NA_1 { objects: vec![(Ioa(ioa), command)] };
        assert(payload@ =~= seq![(Ioa(ioa), command)]);
        proof {
            lemma_one_object(payload@);
            C_SC_NA_1::law_type_id();
        }
        let ca = CommonAddress(self.resolve_ca(ca));
        self.await_confirmation(C_SC_NA_1::TYPE_ID, ioa);
        encode_asdu(&payload, Cot::with(Cause(Cause::ACTIVATION)), ca)
    }

    /// Issue `C_DC_NA_1` (double command). The command waits for its
    /// confirmation.
    pub fn command_double(&mut self, ioa: u32, on: bool, ca: Option<u16>) -> (bytes: Vec<u8>)
        requires
            old(self).wf(),
        ensures
            final(self).wf(),
            final(self)@ == with_waiting(old(self)@, 46, ioa),
            bytes@ == activation::<C_DC_NA_1>(
                seq![(
                    Ioa(ioa),
                    Dco {
                        state: if on {
                            DoublePoint::On
                        } else {
                            DoublePoint::Off
                        },
                        qualifier: 0,
                        select: false,
                    },
                )],
                resolved(old(self)@, ca),
            ),
    {
        let state = if on {
            DoublePoint::On
        } else {
            DoublePoint::Off
        };
        let command = Dco { state, qualifier: 0, select: false };
        let payload = C_DC_NA_1 { objects: vec![(Ioa(ioa), command)] };
        assert(payload@ =~= seq![(Ioa(ioa), command)]);
        proof {
            lemma_one_object(payload@);
            C_DC_NA_1::law_type_id();
        }
        let ca = CommonAddress(self.resolve_ca(ca));
        self.await_confirmation(C_DC_NA_1::TYPE_ID, ioa);
        encode_asdu(&payload, Cot::with(Cause(Cause::ACTIVATION)), ca)
    }

    /// Issue `C_RC_NA_1` (regulating-step command). The command waits for its
    /// confirmation.
    pub fn command_regulating(&mut self, ioa: u32, step: StepDir, ca: Option<u16>) -> (bytes: Vec<u8>)
        requires
            old(self).wf(),
        ensures
            final(self).wf(),
            final(self)@ == with_waiting(old(self)@, 47, ioa),
            bytes@ == activation::<C_RC_NA_1>(
                seq![(
                    Ioa(ioa),
                    Rco { direction: direction_of(step), qualifier: 0, select: false },
                )],
                resolved(old(self)@, ca),
            ),
    {
        let command = Rco { direction: step_direction(step), qualifier: 0, select: false };
        let payload = C_RC_NA_1 { objects: vec![(Ioa(ioa), command)] };
        assert(payload@ =~= seq![(Ioa(ioa), command)]);
        proof {
            lemma_one_object(payload@);
            C_RC_NA_1::law_type_id();
        }
        let ca = CommonAddress(self.resolve_ca(ca));
        self.await_confirmation(C_RC_NA_1::TYPE_ID, ioa);
        encode_asdu(&payload, Cot::with(Cause(Cause::ACTIVATION)), ca)
    }

    /// Issue `C_SE_NA_1`/`NB_1`/`NC_1` (set-point command). The command waits
    /// for its confirmation.
    pub fn command_setpoint(&mut self, ioa: u32, value: Setpoint, ca: Option<u16>) -> (bytes: Vec<
        u8,
    >)
        requires
            old(self).wf(),
        ensures
            final(self).wf(),
            final(self)@ == with_waiting(old(self)@, setpoint_type(value), ioa),
            bytes@ == ({
                let qos = Qos { qualifier: 0, select: false };
                let ca = resolved(old(self)@, ca);
                match value {
                    Setpoint::Normalized(bits) => activation::<C_SE_NA_1>(
                        seq![(Ioa(ioa), (Nva(nearest_step(bits) as i16), qos))],
                        ca,
                    ),
                    Setpoint::Scaled(v) => activation::<C_SE_NB_1>(
                        seq![(Ioa(ioa), (Sva(v), qos))],
                        ca,
                    ),
                    Setpoint::Float(bits) => activation::<C_SE_NC_1>(
                        seq![(Ioa(ioa), (R32(bits), qos))],
                        ca,
                    ),
                }
            }),
    {
        let qos = Qos { qualifier: 0, select: false };
        let ca = CommonAddress(self.resolve_ca(ca));
        let cot = Cot::with(Cause(Cause::ACTIVATION));
        match value {
            Setpoint::Normalized(bits) => {
                let v = Nva::from_f32(bits);
                let payload = C_SE_NA_1 { objects: vec![(Ioa(ioa), (v, qos))] };
                assert(payload@ =~= seq![(Ioa(ioa), (v, qos))]);
                proof {
                    lemma_one_object(payload@);
                    C_SE_NA_1::law_type_id();
                }
                self.await_confirmation(C_SE_NA_1::TYPE_ID, ioa);
                encode_asdu(&payload, cot, ca)
            },
            Setpoint::Scaled(v) => {
                let payload = C_SE_NB_1 { objects: vec![(Ioa(ioa), (Sva(v), qos))] };
                assert(payload@ =~= seq![(Ioa(ioa), (Sva(v), qos))]);
                proof {
                    lemma_one_object(payload@);
                    C_SE_NB_1::law_type_id();
                }
                self.await_confirmation(C_SE_NB_1::TYPE_ID, ioa);
                encode_asdu(&payload, cot, ca)
            },
            Setpoint::Float(bits) => {
                let payload = C_SE_NC_1 { objects: vec![(Ioa(ioa), (R32(bits), qos))] };
                assert(payload@ =~= seq![(Ioa(ioa), (R32(bits), qos))]);
                proof {
                    lemma_one_object(payload@);
                    C_SE_NC_1::law_type_id();
                }
                self.await_confirmation(C_SE_NC_1::TYPE_ID, ioa);
                encode_asdu(&payload, cot, ca)
            },
        }
    }

    /// The most recent cached value for an IOA.
    pub fn read(&self, ioa: u32, type_id: Option<u8>, now: Instant) -> (r: Option<Reading>)
        requires
            self.wf(),
        ensures
            match r {
                Some(reading) => {
                    let p = self@.cache[(reading.kind, ioa)];
                    &&& self@.cache.contains_key((reading.kind, ioa))
                    &&& admits(type_id, reading.kind)
                    &&& forall|other: PointKind| #[trigger]
                        self@.cache.contains_key((other, ioa)) && admits(type_id, other)
                            ==> self@.cache[(other, ioa)].received_at.nanos <= p.received_at.nanos
                    &&& reading.value == p.value
                    &&& reading.quality == p.quality
                    &&& reading.age_ms == (if now.nanos >= p.received_at.nanos {
                        (now.nanos - p.received_at.nanos) / 1_000_000
                    } else {
                        0
                    })
                    &&& match (reading.timestamp, p.timestamp) {
                        (Some(text), Some(t)) => text@ == stamp(t),
                        (None, None) => true,
                        _ => false,
                    }
                },
                None => forall|kind: PointKind|
                    admits(type_id, kind) ==> !#[trigger] self@.cache.contains_key((kind, ioa)),
            },
    {
        match self.cache.get_by_ioa(ioa, type_id) {
            Some((kind, p)) => {
                let age_ms: u128 = now.saturating_duration_since(p.received_at).nanos / 1_000_000;
                let timestamp: Option<String> = match &p.timestamp {
                    Some(t) => Some(timestamp_text(t)),
                    None => None,
                };
                Some(Reading { kind, value: p.value, quality: p.quality, age_ms, timestamp })
            },
            None => None,
        }
    }
}

// ---------------------------------------------------------------------------
// Interrogation results
// ---------------------------------------------------------------------------

/// The last entry for each kind and IOA.
pub open spec fn latest(points: Seq<Collected>) -> Map<(PointKind, u32), Collected>
    decreases points.len(),
{
    if points.len() == 0 {
        Map::empty()
    } else {
        let p = points.last();
        latest(points.drop_last()).insert((p.0, p.1), p)
    }
}

/// One point comes before another: by IOA, then by Type ID.
pub open spec fn sorts_before(a: Collected, b: Collected) -> bool {
    a.1 < b.1 || (a.1 == b.1 && a.0.code() < b.0.code())
}

/// Whether `list` holds exactly the entries of the map, in order.
pub open spec fn lists(list: Seq<Collected>, m: Map<(PointKind, u32), Collected>) -> bool {
    &&& forall|i: int, j: int|
        0 <= i < j < list.len() ==> sorts_before(#[trigger] list[i], #[trigger] list[j])
    &&& forall|i: int|
        0 <= i < list.len() ==> {
            let p = #[trigger] list[i];
            m.contains_key((p.0, p.1)) && m[(p.0, p.1)] == p
        }
    &&& forall|kind: PointKind, ioa: u32| #[trigger]
        m.contains_key((kind, ioa)) ==> exists|i: int|
            0 <= i < list.len() && (#[trigger] list[i]).0 == kind && list[i].1 == ioa
}

spec fn point_key(kind: PointKind, ioa: u32) -> u64 {
    (ioa * 256 + kind.code()) as u64
}

/// Keep the last entry per kind and IOA, sorted by IOA.
pub fn deduplicate(points: &Vec<Collected>) -> (out: Vec<Collected>)
    ensures
        lists(out@, latest(points@)),
{
    let n: usize = points.len();
    let mut seen: Table<Collected> = Table::new();
    let mut i: usize = 0;
    assert(points@.take(0) =~= Seq::empty());
    while i < n
        invariant
            i <= n,
            n == points@.len(),
            seen.wf(),
            forall|k: u64| #[trigger]
                seen@.contains_key(k) ==> k == point_key(seen@[k].0, seen@[k].1),
            forall|kind: PointKind, ioa: u32| #[trigger]
                latest(points@.take(i as int)).contains_key((kind, ioa)) <==> seen@.contains_key(
                    point_key(kind, ioa),
                ),
            forall|kind: PointKind, ioa: u32| #[trigger]
                latest(points@.take(i as int)).contains_key((kind, ioa)) ==> latest(
                    points@.take(i as int),
                )[(kind, ioa)] == seen@[point_key(kind, ioa)],
        decreases n - i,
    {
        assert(points@.take(i + 1).drop_last() =~= points@.take(i as int));
        let p: Collected = points[i];
        let key: u64 = p.1 as u64 * 256 + p.0.type_id() as u64;
        assert(key == point_key(p.0, p.1));
        seen.insert(key, p);
        proof {
            let so_far = latest(points@.take(i as int));
            let next = latest(points@.take(i + 1));
            assert(next == so_far.insert((p.0, p.1), p));
            assert forall|kind: PointKind, ioa: u32| #[trigger]
                next.contains_key((kind, ioa)) <==> seen@.contains_key(point_key(kind, ioa)) by {
                assert(next.contains_key((kind, ioa)) <==> so_far.contains_key((kind, ioa)) || (kind
                    == p.0 && ioa == p.1));
                law_type_ids_distinct(kind, p.0);
            }
            assert forall|kind: PointKind, ioa: u32| #[trigger]
                next.contains_key((kind, ioa)) implies next[(kind, ioa)] == seen@[
                point_key(kind, ioa)
            ] by {
                law_type_ids_distinct(kind, p.0);
                if (kind, ioa) != (p.0, p.1) {
                    assert(so_far.contains_key((kind, ioa)));
                }
            }
        }
        i += 1;
    }
    assert(points@.take(n as int) =~= points@);
    let count: usize = seen.len();
    let ghost listed = seen.listed();
    let ghost want = latest(points@);
    proof { seen.lemma_listed(); }
    let mut out: Vec<Collected> = Vec::new();
    let mut i: usize = 0;
    while i < count
        invariant
            i <= count,
            count == listed.len(),
            listed == seen.listed(),
            out@.len() == i,
            forall|j: int| 0 <= j < i ==> #[trigger] out@[j] == listed[j].1,
        decreases count - i,
    {
        out.push(*seen.row(i).1);
        i += 1;
    }
    proof {
        assert forall|j: int| 0 <= j < listed.len() implies (#[trigger] listed[j]).0 == point_key(
            listed[j].1.0,
            listed[j].1.1,
        ) && seen@.contains_key(listed[j].0) && seen@[listed[j].0] == listed[j].1 by {
            assert(seen@.contains_key(listed[j].0));
        }
        assert forall|a: int, b: int| 0 <= a < b < out@.len() implies sorts_before(
            #[trigger] out@[a],
            #[trigger] out@[b],
        ) by {
            assert(listed[a].0 < listed[b].0);
        }
        assert forall|j: int| 0 <= j < out@.len() implies {
            let p = #[trigger] out@[j];
            want.contains_key((p.0, p.1)) && want[(p.0, p.1)] == p
        } by {
            assert(seen@.contains_key(listed[j].0));
            assert(want.contains_key((listed[j].1.0, listed[j].1.1)));
        }
        assert forall|kind: PointKind, ioa: u32| #[trigger]
            want.contains_key((kind, ioa)) implies exists|j: int|
            0 <= j < out@.len() && (#[trigger] out@[j]).0 == kind && out@[j].1 == ioa by {
            let k = point_key(kind, ioa);
            assert(seen@.contains_key(k));
            let j = choose|j: int| 0 <= j < listed.len() && (#[trigger] listed[j]).0 == k;
            assert(listed[j].0 == point_key(listed[j].1.0, listed[j].1.1));
            assert(out@[j].0 == kind && out@[j].1 == ioa);
        }
    }
    out
}

// ---------------------------------------------------------------------------
// Laws
// ---------------------------------------------------------------------------

/// An ASDU touches no collector of another common address, sets up none and
/// removes none, and a collector that is done stays done.
pub proof fn law_collectors_by_address(
    m: MasterModel,
    asdu: AsduModel,
    now: Instant,
    key: (u16, u8),
)
    ensures
        processed(m, asdu, now).interrogations.contains_key(key) == m.interrogations.contains_key(
            key,
        ),
        m.interrogations.contains_key(key) && key.0 != asdu.ca.0 ==> processed(
            m,
            asdu,
            now,
        ).interrogations[key] == m.interrogations[key],
        m.interrogations.contains_key(key) && m.interrogations[key].done ==> processed(
            m,
            asdu,
            now,
        ).interrogations[key].done,
{
}

/// Only a confirmation ends the wait for a command, and only for the command
/// that it names.
pub proof fn law_waiting_until_confirmed(
    m: MasterModel,
    asdu: AsduModel,
    now: Instant,
    command: (u8, u32),
)
    requires
        m.waiting.contains(command),
    ensures
        processed(m, asdu, now).waiting.contains(command) <==> answered(m, asdu) != Some(
            (command.0, command.1, asdu.cot.negative),
        ),
{
}

/// The end of an interrogation (type 100, cause 10) marks the collectors of its
/// common address as done, and changes nothing else.
pub proof fn law_termination(m: MasterModel, asdu: AsduModel, now: Instant, key: (u16, u8))
    requires
        asdu.type_id == 100,
        asdu.cot.cause.0 == 10,
    ensures
        ({
            let d = processed(m, asdu, now);
            &&& d.cache == m.cache
            &&& d.waiting == m.waiting
            &&& d.coa == m.coa
            &&& m.interrogations.contains_key(key) ==> d.interrogations[key].points
                == m.interrogations[key].points
            &&& m.interrogations.contains_key(key) && key.0 == asdu.ca.0
                ==> d.interrogations[key].done
            &&& events_of(asdu).len() == 0
            &&& answered(m, asdu) is None
        }),
{
}

/// The confirmation of a command (types 45 to 50, cause 7) ends the wait for the
/// command of that type at the address in its first three octets, and says
/// whether it is negative; it changes nothing else.
pub proof fn law_confirmation(m: MasterModel, asdu: AsduModel, now: Instant)
    requires
        45 <= asdu.type_id <= 50,
        asdu.cot.cause.0 == 7,
        asdu.payload.len() >= 3,
    ensures
        ({
            let d = processed(m, asdu, now);
            let ioa = (asdu.payload[0] + 256 * asdu.payload[1] + 65536 * asdu.payload[2]) as u32;
            &&& d == (MasterModel { waiting: m.waiting.remove((asdu.type_id, ioa)), ..m })
            &&& events_of(asdu).len() == 0
            &&& answered(m, asdu) == (if m.waiting.contains((asdu.type_id, ioa)) {
                Some((asdu.type_id, ioa, asdu.cot.negative))
            } else {
                None
            })
        }),
{
}

/// Any other message ends no wait and no interrogation. What it shows is
/// cached, told to the subscribers in order, and given to the collectors of its
/// common address, which keep 256 points at most.
pub proof fn law_observation(m: MasterModel, asdu: AsduModel, now: Instant, key: (u16, u8), i: int)
    requires
        !(asdu.type_id == 100 && asdu.cot.cause.0 == 10),
        !(45 <= asdu.type_id <= 50 && asdu.cot.cause.0 == 7),
        0 <= i < observed(asdu).len(),
    ensures
        ({
            let d = processed(m, asdu, now);
            let list = observed(asdu);
            let o = list[i];
            &&& d.waiting == m.waiting
            &&& d.coa == m.coa
            &&& answered(m, asdu) is None
            &&& d.cache.contains_key((o.kind, o.ioa))
            &&& (forall|j: int|
                i < j < list.len() ==> ((#[trigger] list[j]).kind, list[j].ioa) != (o.kind, o.ioa))
                ==> d.cache[(o.kind, o.ioa)] == (CachedPoint {
                value: o.value,
                quality: o.quality,
                timestamp: o.timestamp,
                received_at: now,
            })
            &&& events_of(asdu).len() == list.len()
            &&& events_of(asdu)[i] == (Event::AsduReceived {
                cot: asdu.cot.cause.0,
                type_id: asdu.type_id,
                ioa: o.ioa,
                value: Some(o.value),
            })
            &&& m.interrogations.contains_key(key) ==> {
                let was = m.interrogations[key];
                let is = d.interrogations[key];
                &&& is.done == was.done
                &&& key.0 != asdu.ca.0 ==> is == was
                &&& key.0 == asdu.ca.0 && was.points.len() <= 256 ==> is.points.take(
                    was.points.len() as int,
                ) == was.points
                &&& key.0 == asdu.ca.0 && was.points.len() + i < 256 ==> is.points[was.points.len()
                    + i] == (o.kind, o.ioa, o.value, o.quality)
                &&& key.0 == asdu.ca.0 && was.points.len() + list.len() <= 256 ==> is.points.len()
                    == was.points.len() + list.len()
                &&& key.0 == asdu.ca.0 && was.points.len() + list.len() > 256 ==> is.points.len()
                    == 256
            }
        }),
{
    let d = processed(m, asdu, now);
    let list = observed(asdu);
    lemma_remembered_key(m.cache, list, now, i);
    if m.interrogations.contains_key(key) && key.0 == asdu.ca.0 {
        let was = m.interrogations[key].points;
        let all = was + collected(list);
        if was.len() <= 256 {
            assert(d.interrogations[key].points.take(was.len() as int) =~= was);
        }
    }
}

proof fn lemma_remembered_key(
    cache: Map<(PointKind, u32), CachedPoint>,
    list: Seq<Observation>,
    now: Instant,
    i: int,
)
    requires
        0 <= i < list.len(),
    ensures
        remembered(cache, list, now).contains_key((list[i].kind, list[i].ioa)),
        (forall|j: int|
            i < j < list.len() ==> ((#[trigger] list[j]).kind, list[j].ioa) != (
            list[i].kind,
            list[i].ioa,
        )) ==> remembered(cache, list, now)[(list[i].kind, list[i].ioa)] == (CachedPoint {
            value: list[i].value,
            quality: list[i].quality,
            timestamp: list[i].timestamp,
            received_at: now,
        }),
    decreases list.len(),
{
    if i < list.len() - 1 {
        let front = list.drop_last();
        lemma_remembered_key(cache, front, now, i);
        if forall|j: int|
            i < j < list.len() ==> ((#[trigger] list[j]).kind, list[j].ioa) != (
            list[i].kind,
            list[i].ioa,
        ) {
            assert(list[list.len() - 1] == list.last());
            assert forall|j: int| i < j < front.len() implies (
            (#[trigger] front[j]).kind,
            front[j].ioa,
        ) != (front[i].kind, front[i].ioa) by {
                assert(front[j] == list[j]);
            }
        }
    }
}

/// A request goes to the address it names, or else to the configured one, and
/// an interrogation has qualifier 20, or 20 and the number of its group.
pub proof fn law_request_defaults(m: MasterModel, ca: u16, group: u8, value: Setpoint)
    requires
        group <= 235,
    ensures
        resolved(m, Some(ca)) == ca,
        resolved(m, None) == m.coa,
        qualifier_of(None) == 20,
        qualifier_of(Some(group)) == 20 + group,
        setpoint_type(value) == 48 <==> value is Normalized,
        setpoint_type(value) == 49 <==> value is Scaled,
        setpoint_type(value) == 50 <==> value is Float,
        direction_of(StepDir::Lower) is Lower && direction_of(StepDir::Higher) is Higher,
        COLLECTOR_CAPACITY == 256,
{
}

/// Deduplication: what stays of each kind and address is what came last, and
/// the list is in ascending order of address, then of Type ID.
pub proof fn law_latest(points: Seq<Collected>, list: Seq<Collected>, i: int, a: int, b: int)
    requires
        lists(list, latest(points)),
        0 <= i < points.len(),
        forall|j: int|
            i < j < points.len() ==> !((#[trigger] points[j]).0 == points[i].0 && points[j].1
                == points[i].1),
        0 <= a < b < list.len(),
    ensures
        list.contains(points[i]),
        list[a].1 < list[b].1 || (list[a].1 == list[b].1 && list[a].0.code() < list[b].0.code()),
{
    lemma_latest(points, i);
    let p = points[i];
    let j = choose|j: int| 0 <= j < list.len() && (#[trigger] list[j]).0 == p.0 && list[j].1 == p.1;
    assert(latest(points).contains_key((p.0, p.1)));
    assert(list[j] == p);
    assert(sorts_before(list[a], list[b]));
}

proof fn lemma_latest(points: Seq<Collected>, i: int)
    requires
        0 <= i < points.len(),
        forall|j: int|
            i < j < points.len() ==> !((#[trigger] points[j]).0 == points[i].0 && points[j].1
                == points[i].1),
    ensures
        latest(points).contains_key((points[i].0, points[i].1)),
        latest(points)[(points[i].0, points[i].1)] == points[i],
    decreases points.len(),
{
    if i < points.len() - 1 {
        let front = points.drop_last();
        assert(points[points.len() - 1] == points.last());
        assert forall|j: int| i < j < front.len() implies !((#[trigger] front[j]).0 == front[i].0
            && front[j].1 == front[i].1) by {
            assert(front[j] == points[j]);
        }
        lemma_latest(front, i);
    }
}

/// A message that shows nothing changes nothing, and so does the confirmation
/// of a command that is cut off in its address.
pub proof fn law_nothing_shown(m: MasterModel, asdu: AsduModel, now: Instant)
    requires
        !(asdu.type_id == 100 && asdu.cot.cause.0 == 10),
        45 <= asdu.type_id <= 50 && asdu.cot.cause.0 == 7 ==> asdu.payload.len() < 3,
        observed(asdu).len() == 0,
        forall|key: (u16, u8)| #[trigger]
            m.interrogations.contains_key(key) ==> m.interrogations[key].points.len() <= 256,
    ensures
        processed(m, asdu, now) == m,
        events_of(asdu).len() == 0,
        answered(m, asdu) is None,
{
    let d = processed(m, asdu, now);
    assert forall|key: (u16, u8)| #[trigger] m.interrogations.contains_key(key) implies
        d.interrogations[key] == m.interrogations[key] by {
        let points = m.interrogations[key].points;
        assert(points + collected(observed(asdu)) =~= points);
    }
    assert(d.interrogations =~= m.interrogations);
}

} // verus!
