//! Client-side last-value cache.
//!
//! The master daemon's event pump decodes incoming ASDUs from the outstation
//! and calls [`PointCache::update`] for every information object. Callers can
//! then query the freshest seen value for a given IOA - with or without a
//! specific Type ID - without issuing a new poll.

use vstd::prelude::*;
use crate::asdu::ie::Cp56Time2a;
use crate::table::Table;
use crate::time::Instant;
use crate::wire::{PointKind, PointValue, QualityWire};

verus! {

/// A single cached point observation.
#[derive(Debug, Clone, Copy)]
pub struct CachedPoint {
    /// Decoded value.
    pub value: PointValue,
    /// Quality bits at the time of the last update.
    pub quality: QualityWire,
    /// Optional time-tag embedded in the ASDU itself.
    pub timestamp: Option<Cp56Time2a>,
    /// Instant at which this update was received.
    pub received_at: Instant,
}

#[derive(Debug, Clone, Copy)]
struct Row {
    kind: PointKind,
    ioa: u32,
    point: CachedPoint,
}

/// Last-value store. The view is the map from kind and IOA to the observation.
#[derive(Debug)]
pub struct PointCache {
    rows: Table<Row>,
}

spec fn key_of(kind: PointKind, ioa: u32) -> u64 {
    (ioa * 256 + kind.code()) as u64
}

fn key(kind: PointKind, ioa: u32) -> (k: u64)
    ensures
        k == key_of(kind, ioa),
        k == ioa * 256 + kind.code(),
{
    ioa as u64 * 256 + kind.type_id() as u64
}

/// Whether an observation of the kind answers a query for the Type ID.
pub open spec fn admits(type_id: Option<u8>, kind: PointKind) -> bool {
    match type_id {
        Some(t) => kind.code() == t,
        None => true,
    }
}

/// One observation comes before another: by IOA, then by Type ID.
pub open spec fn before(a: (PointKind, u32, CachedPoint), b: (PointKind, u32, CachedPoint)) -> bool {
    a.1 < b.1 || (a.1 == b.1 && a.0.code() < b.0.code())
}

impl View for PointCache {
    type V = Map<(PointKind, u32), CachedPoint>;

    closed spec fn view(&self) -> Map<(PointKind, u32), CachedPoint> {
        Map::new(
            |k: (PointKind, u32)| self.rows@.contains_key(key_of(k.0, k.1)),
            |k: (PointKind, u32)| self.rows@[key_of(k.0, k.1)].point,
        )
    }
}

impl PointCache {
    /// The rows are in order, and each is filed under its kind and IOA.
    pub closed spec fn wf(&self) -> bool {
        &&& self.rows.wf()
        &&& forall|k: u64| #[trigger]
            self.rows@.contains_key(k) ==> k == key_of(self.rows@[k].kind, self.rows@[k].ioa)
    }

    /// All observations, sorted by IOA, then by Type ID.
    pub closed spec fn entries(&self) -> Seq<(PointKind, u32, CachedPoint)> {
        Seq::new(
            self.rows.listed().len(),
            |i: int|
                {
                    let row = self.rows.listed()[i].1;
                    (row.kind, row.ioa, row.point)
                },
        )
    }

    /// The entries list exactly what the map holds, each kind and IOA once, in
    /// order.
    pub proof fn law_entries(&self)
        requires
            self.wf(),
        ensures
            forall|i: int, j: int|
                0 <= i < j < self.entries().len() ==> before(
                    #[trigger] self.entries()[i],
                    #[trigger] self.entries()[j],
                ),
            forall|i: int|
                0 <= i < self.entries().len() ==> {
                    let e = #[trigger] self.entries()[i];
                    self@.contains_key((e.0, e.1)) && self@[(e.0, e.1)] == e.2
                },
            forall|kind: PointKind, ioa: u32| #[trigger]
                self@.contains_key((kind, ioa)) ==> exists|i: int|
                    0 <= i < self.entries().len() && (#[trigger] self.entries()[i]).0 == kind
                        && self.entries()[i].1 == ioa,
    {
        self.rows.lemma_listed();
        let listed = self.rows.listed();
        assert forall|i: int| 0 <= i < listed.len() implies (#[trigger] listed[i]).0 == key_of(
            listed[i].1.kind,
            listed[i].1.ioa,
        ) && self.rows@[listed[i].0] == listed[i].1 by {
            assert(self.rows@.contains_key(listed[i].0));
        }
        assert forall|i: int, j: int| 0 <= i < j < self.entries().len() implies before(
            #[trigger] self.entries()[i],
            #[trigger] self.entries()[j],
        ) by {
            assert(listed[i].0 < listed[j].0);
        }
        assert forall|i: int| 0 <= i < self.entries().len() implies {
            let e = #[trigger] self.entries()[i];
            self@.contains_key((e.0, e.1)) && self@[(e.0, e.1)] == e.2
        } by {
            assert(self.rows@.contains_key(listed[i].0));
        }
        assert forall|kind: PointKind, ioa: u32| #[trigger]
            self@.contains_key((kind, ioa)) implies exists|i: int|
            0 <= i < self.entries().len() && (#[trigger] self.entries()[i]).0 == kind
                && self.entries()[i].1 == ioa by {
            let k = key_of(kind, ioa);
            let i = choose|i: int| 0 <= i < listed.len() && (#[trigger] listed[i]).0 == k;
            assert(listed[i].0 == key_of(listed[i].1.kind, listed[i].1.ioa));
            assert(self.entries()[i].0 == kind && self.entries()[i].1 == ioa);
        }
    }

    /// Create an empty cache.
    pub fn new() -> (cache: Self)
        ensures
            cache.wf(),
            cache@ == Map::<(PointKind, u32), CachedPoint>::empty(),
    {
        let cache = PointCache { rows: Table::new() };
        assert(cache@ =~= Map::<(PointKind, u32), CachedPoint>::empty());
        cache
    }

    /// Insert or overwrite the cached value for `(kind, ioa)`.
    pub fn update(
        &mut self,
        kind: PointKind,
        ioa: u32,
        value: PointValue,
        quality: QualityWire,
        timestamp: Option<Cp56Time2a>,
        received_at: Instant,
    )
        requires
            old(self).wf(),
        ensures
            final(self).wf(),
            final(self)@ == old(self)@.insert(
                (kind, ioa),
                CachedPoint { value, quality, timestamp, received_at },
            ),
    {
        let point = CachedPoint { value, quality, timestamp, received_at };
        self.rows.insert(key(kind, ioa), Row { kind, ioa, point });
        assert forall|k: (PointKind, u32)| #[trigger]
            self@.contains_key(k) <==> old(self)@.insert((kind, ioa), point).contains_key(k) by {}
        assert(self@ =~= old(self)@.insert((kind, ioa), point));
    }

    /// Look up a specific `(kind, ioa)` pair.
    pub fn get(&self, kind: PointKind, ioa: u32) -> (r: Option<CachedPoint>)
        requires
            self.wf(),
        ensures
            match r {
                Some(p) => self@.contains_key((kind, ioa)) && p == self@[(kind, ioa)],
                None => !self@.contains_key((kind, ioa)),
            },
    {
        match self.rows.get(key(kind, ioa)) {
            Some(row) => Some(row.point),
            None => None,
        }
    }

    /// Return the most-recently-updated entry for `ioa`, searching across all
    /// known `PointKind`s. If `type_id` is `Some`, only that type is searched.
    pub fn get_by_ioa(&self, ioa: u32, type_id: Option<u8>) -> (r: Option<(PointKind, CachedPoint)>)
        requires
            self.wf(),
        ensures
            match r {
                Some((kind, p)) => {
                    &&& self@.contains_key((kind, ioa))
                    &&& p == self@[(kind, ioa)]
                    &&& admits(type_id, kind)
                    &&& forall|other: PointKind| #[trigger]
                        self@.contains_key((other, ioa)) && admits(type_id, other)
                            ==> self@[(other, ioa)].received_at.nanos <= p.received_at.nanos
                },
                None => forall|kind: PointKind|
                    admits(type_id, kind) ==> !#[trigger] self@.contains_key((kind, ioa)),
            },
    {
        proof { self.law_entries(); }
        let all: Vec<(PointKind, u32, CachedPoint)> = self.list_all();
        let n: usize = all.len();
        let mut best: Option<(PointKind, CachedPoint)> = None;
        let mut i: usize = 0;
        while i < n
            invariant
                i <= n,
                n == all@.len(),
                match best {
                    Some((kind, p)) => {
                        &&& admits(type_id, kind)
                        &&& exists|j: int|
                            0 <= j < i && (#[trigger] all@[j]).0 == kind && all@[j].1 == ioa
                                && all@[j].2 == p
                        &&& forall|j: int|
                            0 <= j < i && (#[trigger] all@[j]).1 == ioa && admits(
                                type_id,
                                all@[j].0,
                            ) ==> all@[j].2.received_at.nanos <= p.received_at.nanos
                    },
                    None => forall|j: int|
                        0 <= j < i && (#[trigger] all@[j]).1 == ioa ==> !admits(type_id, all@[j].0),
                },
            decreases n - i,
        {
            let (kind, k_ioa, point) = all[i];
            let wanted: bool = match type_id {
                Some(t) => kind.type_id() == t,
                None => true,
            };
            if k_ioa == ioa && wanted {
                let newer: bool = match &best {
                    Some((_, b)) => point.received_at.nanos > b.received_at.nanos,
                    None => true,
                };
                if newer {
                    best = Some((kind, point));
                    assert(all@[i as int].0 == kind);
                }
            }
            i += 1;
        }
        best
    }

    /// Return all cached entries sorted by IOA, then by Type ID.
    /// Useful for the interrogation collector result set.
    pub fn list_all(&self) -> (r: Vec<(PointKind, u32, CachedPoint)>)
        requires
            self.wf(),
        ensures
            r@ == self.entries(),
    {
        let n: usize = self.rows.len();
        let mut out: Vec<(PointKind, u32, CachedPoint)> = Vec::new();
        let mut i: usize = 0;
        while i < n
            invariant
                i <= n,
                n == self.rows.listed().len(),
                n == self.entries().len(),
                out@ == self.entries().take(i as int),
            decreases n - i,
        {
            let row: &Row = self.rows.row(i).1;
            out.push((row.kind, row.ioa, row.point));
            assert(out@ =~= self.entries().take(i + 1));
            i += 1;
        }
        assert(self.entries().take(n as int) =~= self.entries());
        out
    }
}

impl Default for PointCache {
    fn default() -> (cache: Self)
        ensures
            cache.wf(),
            cache@ == Map::<(PointKind, u32), CachedPoint>::empty(),
    {
        PointCache::new()
    }
}

} // verus!
