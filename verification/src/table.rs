//! A map from integers to values that keeps its rows in ascending key order.

use vstd::prelude::*;

verus! {

/// Rows sorted by key, no key twice. The view is the map from key to value.
#[derive(Debug, Clone)]
pub struct Table<V> {
    rows: Vec<(u64, V)>,
}

/// Strictly ascending keys.
pub open spec fn ascending<V>(rows: Seq<(u64, V)>) -> bool {
    forall|i: int, j: int|
        0 <= i < j < rows.len() ==> (#[trigger] rows[i]).0 < (#[trigger] rows[j]).0
}

/// Whether a row has the key.
pub open spec fn has_key<V>(rows: Seq<(u64, V)>, key: u64) -> bool {
    exists|i: int| 0 <= i < rows.len() && (#[trigger] rows[i]).0 == key
}

/// The value of the row with the key.
pub open spec fn value_of<V>(rows: Seq<(u64, V)>, key: u64) -> V {
    let i = choose|i: int| 0 <= i < rows.len() && (#[trigger] rows[i]).0 == key;
    rows[i].1
}

/// The map that a list of rows stands for.
pub open spec fn map_of<V>(rows: Seq<(u64, V)>) -> Map<u64, V> {
    Map::new(|key: u64| has_key(rows, key), |key: u64| value_of(rows, key))
}

/// In ascending rows, the map gives each row's value for its key.
pub proof fn lemma_row<V>(rows: Seq<(u64, V)>, i: int)
    requires
        ascending(rows),
        0 <= i < rows.len(),
    ensures
        map_of(rows).contains_key(rows[i].0),
        map_of(rows)[rows[i].0] == rows[i].1,
{
    let key = rows[i].0;
    assert(has_key(rows, key));
    let j = choose|j: int| 0 <= j < rows.len() && (#[trigger] rows[j]).0 == key;
    if j < i {
        assert(rows[j].0 < rows[i].0);
    }
    if i < j {
        assert(rows[i].0 < rows[j].0);
    }
}

proof fn lemma_insert<V>(rows: Seq<(u64, V)>, at: int, key: u64, value: V)
    requires
        ascending(rows),
        0 <= at <= rows.len(),
        forall|i: int| 0 <= i < at ==> (#[trigger] rows[i]).0 < key,
        forall|i: int| at <= i < rows.len() ==> (#[trigger] rows[i]).0 > key,
    ensures
        ascending(rows.insert(at, (key, value))),
        map_of(rows.insert(at, (key, value))) == map_of(rows).insert(key, value),
{
    let after = rows.insert(at, (key, value));
    assert forall|i: int, j: int| 0 <= i < j < after.len() implies (#[trigger] after[i]).0 < (
    #[trigger] after[j]).0 by {
        let oi = if i < at {
            i
        } else {
            i - 1
        };
        let oj = if j < at {
            j
        } else {
            j - 1
        };
        if i != at && j != at {
            assert(after[i] == rows[oi] && after[j] == rows[oj]);
        } else if i == at {
            assert(after[j] == rows[oj]);
        } else {
            assert(after[i] == rows[oi]);
        }
    }
    assert forall|k: u64| #[trigger]
        map_of(after).contains_key(k) <==> map_of(rows).insert(key, value).contains_key(k) by {
        if has_key(after, k) {
            let i = choose|i: int| 0 <= i < after.len() && (#[trigger] after[i]).0 == k;
            if i < at {
                assert(rows[i].0 == k);
            } else if i > at {
                assert(rows[i - 1].0 == k);
            }
        }
        if has_key(rows, k) {
            let i = choose|i: int| 0 <= i < rows.len() && (#[trigger] rows[i]).0 == k;
            if i < at {
                assert(after[i].0 == k);
            } else {
                assert(after[i + 1].0 == k);
            }
        }
        if k == key {
            assert(after[at].0 == k);
        }
    }
    assert forall|k: u64| #[trigger] map_of(after).contains_key(k) implies map_of(after)[k]
        == map_of(rows).insert(key, value)[k] by {
        let i = choose|i: int| 0 <= i < after.len() && (#[trigger] after[i]).0 == k;
        lemma_row(after, i);
        if i < at {
            assert(after[i] == rows[i]);
            lemma_row(rows, i);
        } else if i > at {
            assert(after[i] == rows[i - 1]);
            lemma_row(rows, i - 1);
        }
    }
    assert(map_of(after) =~= map_of(rows).insert(key, value));
}

proof fn lemma_update<V>(rows: Seq<(u64, V)>, at: int, value: V)
    requires
        ascending(rows),
        0 <= at < rows.len(),
    ensures
        ascending(rows.update(at, (rows[at].0, value))),
        map_of(rows.update(at, (rows[at].0, value))) == map_of(rows).insert(rows[at].0, value),
{
    let key = rows[at].0;
    let after = rows.update(at, (key, value));
    assert forall|i: int, j: int| 0 <= i < j < after.len() implies (#[trigger] after[i]).0 < (
    #[trigger] after[j]).0 by {
        assert(rows[i].0 < rows[j].0);
    }
    assert forall|k: u64| #[trigger]
        map_of(after).contains_key(k) <==> map_of(rows).insert(key, value).contains_key(k) by {
        if has_key(after, k) {
            let i = choose|i: int| 0 <= i < after.len() && (#[trigger] after[i]).0 == k;
            assert(rows[i].0 == k);
        }
        if has_key(rows, k) {
            let i = choose|i: int| 0 <= i < rows.len() && (#[trigger] rows[i]).0 == k;
            assert(after[i].0 == k);
        }
        if k == key {
            assert(after[at].0 == k);
        }
    }
    assert forall|k: u64| #[trigger] map_of(after).contains_key(k) implies map_of(after)[k]
        == map_of(rows).insert(key, value)[k] by {
        let i = choose|i: int| 0 <= i < after.len() && (#[trigger] after[i]).0 == k;
        lemma_row(after, i);
        lemma_row(rows, i);
        if i != at {
            if i < at {
                assert(rows[i].0 < rows[at].0);
            } else {
                assert(rows[at].0 < rows[i].0);
            }
        }
    }
    assert(map_of(after) =~= map_of(rows).insert(key, value));
}

proof fn lemma_remove<V>(rows: Seq<(u64, V)>, at: int)
    requires
        ascending(rows),
        0 <= at < rows.len(),
    ensures
        ascending(rows.remove(at)),
        map_of(rows.remove(at)) == map_of(rows).remove(rows[at].0),
{
    let key = rows[at].0;
    let after = rows.remove(at);
    assert forall|i: int, j: int| 0 <= i < j < after.len() implies (#[trigger] after[i]).0 < (
    #[trigger] after[j]).0 by {
        let oi = if i < at {
            i
        } else {
            i + 1
        };
        let oj = if j < at {
            j
        } else {
            j + 1
        };
        assert(after[i] == rows[oi] && after[j] == rows[oj]);
    }
    assert forall|k: u64| #[trigger]
        map_of(after).contains_key(k) <==> map_of(rows).remove(key).contains_key(k) by {
        if has_key(after, k) {
            let i = choose|i: int| 0 <= i < after.len() && (#[trigger] after[i]).0 == k;
            if i < at {
                assert(rows[i].0 == k);
                assert(rows[i].0 < rows[at].0);
            } else {
                assert(rows[i + 1].0 == k);
                assert(rows[at].0 < rows[i + 1].0);
            }
        }
        if has_key(rows, k) && k != key {
            let i = choose|i: int| 0 <= i < rows.len() && (#[trigger] rows[i]).0 == k;
            if i < at {
                assert(after[i].0 == k);
            } else {
                assert(after[i - 1].0 == k);
            }
        }
    }
    assert forall|k: u64| #[trigger] map_of(after).contains_key(k) implies map_of(after)[k]
        == map_of(rows).remove(key)[k] by {
        let i = choose|i: int| 0 <= i < after.len() && (#[trigger] after[i]).0 == k;
        lemma_row(after, i);
        if i < at {
            assert(after[i] == rows[i]);
            lemma_row(rows, i);
        } else {
            assert(after[i] == rows[i + 1]);
            lemma_row(rows, i + 1);
        }
    }
    assert(map_of(after) =~= map_of(rows).remove(key));
}

proof fn lemma_size<V>(rows: Seq<(u64, V)>)
    requires
        ascending(rows),
    ensures
        map_of(rows).dom().finite(),
        map_of(rows).dom().len() == rows.len(),
    decreases rows.len(),
{
    if rows.len() == 0 {
        assert(map_of(rows).dom() =~= Set::empty());
    } else {
        let at = rows.len() - 1;
        lemma_remove(rows, at);
        lemma_row(rows, at);
        lemma_size(rows.remove(at));
        assert(map_of(rows).dom() =~= map_of(rows).remove(rows[at].0).dom().insert(rows[at].0));
    }
}

impl<V> View for Table<V> {
    type V = Map<u64, V>;

    closed spec fn view(&self) -> Map<u64, V> {
        map_of(self.rows@)
    }
}

impl<V> Table<V> {
    /// The rows are in order.
    pub closed spec fn wf(&self) -> bool {
        ascending(self.rows@)
    }

    /// The rows, in ascending order of their keys.
    pub closed spec fn listed(&self) -> Seq<(u64, V)> {
        self.rows@
    }

    /// The rows list exactly what the map holds, in ascending order.
    pub proof fn lemma_listed(&self)
        requires
            self.wf(),
        ensures
            ascending(self.listed()),
            map_of(self.listed()) == self@,
            self@.dom().finite(),
            self@.dom().len() == self.listed().len(),
            forall|i: int|
                0 <= i < self.listed().len() ==> self@.contains_key(
                    (#[trigger] self.listed()[i]).0,
                ) && self@[self.listed()[i].0] == self.listed()[i].1,
            forall|k: u64| #[trigger] self@.contains_key(k) <==> has_key(self.listed(), k),
    {
        lemma_size(self.rows@);
        assert forall|i: int| 0 <= i < self.listed().len() implies self@.contains_key(
            (#[trigger] self.listed()[i]).0,
        ) && self@[self.listed()[i].0] == self.listed()[i].1 by {
            lemma_row(self.rows@, i);
        }
    }

    pub fn new() -> (t: Self)
        ensures
            t.wf(),
            t@ == Map::<u64, V>::empty(),
            t.listed() == Seq::<(u64, V)>::empty(),
    {
        let t = Table { rows: Vec::new() };
        assert(t@ =~= Map::<u64, V>::empty());
        t
    }

    /// The position of the first row whose key is not below `key`.
    fn position(&self, key: u64) -> (at: usize)
        requires
            self.wf(),
        ensures
            at <= self.rows@.len(),
            forall|i: int| 0 <= i < at ==> (#[trigger] self.rows@[i]).0 < key,
            forall|i: int| at <= i < self.rows@.len() ==> (#[trigger] self.rows@[i]).0 >= key,
    {
        let mut lo: usize = 0;
        let mut hi: usize = self.rows.len();
        while lo < hi
            invariant
                lo <= hi <= self.rows@.len(),
                ascending(self.rows@),
                forall|i: int| 0 <= i < lo ==> (#[trigger] self.rows@[i]).0 < key,
                forall|i: int| hi <= i < self.rows@.len() ==> (#[trigger] self.rows@[i]).0 >= key,
            decreases hi - lo,
        {
            let mid: usize = lo + (hi - lo) / 2;
            if self.rows[mid].0 < key {
                assert forall|i: int| 0 <= i < mid + 1 implies (#[trigger] self.rows@[i]).0
                    < key by {
                    if i < mid {
                        assert(self.rows@[i].0 < self.rows@[mid as int].0);
                    }
                }
                lo = mid + 1;
            } else {
                assert forall|i: int| mid <= i < self.rows@.len() implies (#[trigger] self.rows@[i]).0
                    >= key by {
                    if mid < i {
                        assert(self.rows@[mid as int].0 < self.rows@[i].0);
                    }
                }
                hi = mid;
            }
        }
        lo
    }

    proof fn lemma_absent(&self, at: int, key: u64)
        requires
            self.wf(),
            0 <= at <= self.rows@.len(),
            forall|i: int| 0 <= i < at ==> (#[trigger] self.rows@[i]).0 < key,
            forall|i: int| at <= i < self.rows@.len() ==> (#[trigger] self.rows@[i]).0 >= key,
            at == self.rows@.len() || self.rows@[at].0 != key,
        ensures
            !self@.contains_key(key),
            forall|i: int| at <= i < self.rows@.len() ==> (#[trigger] self.rows@[i]).0 > key,
    {
        assert forall|i: int| at <= i < self.rows@.len() implies (#[trigger] self.rows@[i]).0
            > key by {
            if at < i {
                assert(self.rows@[at].0 < self.rows@[i].0);
            }
        }
    }

    pub fn get(&self, key: u64) -> (r: Option<&V>)
        requires
            self.wf(),
        ensures
            match r {
                Some(v) => self@.contains_key(key) && *v == self@[key],
                None => !self@.contains_key(key),
            },
    {
        let at: usize = self.position(key);
        if at < self.rows.len() && self.rows[at].0 == key {
            proof { lemma_row(self.rows@, at as int); }
            Some(&self.rows[at].1)
        } else {
            proof { self.lemma_absent(at as int, key); }
            None
        }
    }

    pub fn contains(&self, key: u64) -> (b: bool)
        requires
            self.wf(),
        ensures
            b == self@.contains_key(key),
    {
        self.get(key).is_some()
    }

    /// Insert or overwrite.
    pub fn insert(&mut self, key: u64, value: V)
        requires
            old(self).wf(),
        ensures
            final(self).wf(),
            final(self)@ == old(self)@.insert(key, value),
    {
        let at: usize = self.position(key);
        let ghost before = self.rows@;
        if at < self.rows.len() && self.rows[at].0 == key {
            proof { lemma_update(before, at as int, value); }
            self.rows[at] = (key, value);
            assert(self.rows@ =~= before.update(at as int, (key, value)));
        } else {
            proof {
                self.lemma_absent(at as int, key);
                lemma_insert(before, at as int, key, value);
            }
            self.rows.insert(at, (key, value));
        }
    }

    /// Remove, handing out what was there.
    pub fn remove(&mut self, key: u64) -> (r: Option<V>)
        requires
            old(self).wf(),
        ensures
            final(self).wf(),
            final(self)@ == old(self)@.remove(key),
            match r {
                Some(v) => old(self)@.contains_key(key) && v == old(self)@[key],
                None => !old(self)@.contains_key(key),
            },
    {
        let at: usize = self.position(key);
        if at < self.rows.len() && self.rows[at].0 == key {
            proof {
                lemma_row(self.rows@, at as int);
                lemma_remove(self.rows@, at as int);
            }
            let row = self.rows.remove(at);
            Some(row.1)
        } else {
            proof { self.lemma_absent(at as int, key); }
            assert(self@ =~= self@.remove(key));
            None
        }
    }

    pub fn get_mut(&mut self, key: u64) -> (r: Option<&mut V>)
        requires
            old(self).wf(),
        ensures
            match r {
                Some(v) => {
                    &&& old(self)@.contains_key(key)
                    &&& *v == old(self)@[key]
                    &&& final(self).wf()
                    &&& final(self)@ == old(self)@.insert(key, *final(v))
                },
                None => !old(self)@.contains_key(key) && *final(self) == *old(self),
            },
    {
        let at: usize = self.position(key);
        if at < self.rows.len() && self.rows[at].0 == key {
            let ghost before = self.rows@;
            proof {
                lemma_row(before, at as int);
                assert forall|value: V| #![trigger before.update(at as int, (key, value))]
                    ascending(before.update(at as int, (key, value))) && map_of(
                        before.update(at as int, (key, value)),
                    ) == map_of(before).insert(key, value) by {
                    lemma_update(before, at as int, value);
                }
            }
            Some(&mut self.rows[at].1)
        } else {
            proof { self.lemma_absent(at as int, key); }
            None
        }
    }

    pub fn len(&self) -> (n: usize)
        requires
            self.wf(),
        ensures
            n == self@.dom().len(),
            n == self.listed().len(),
    {
        proof { lemma_size(self.rows@); }
        self.rows.len()
    }

    /// The row at a position, in ascending order of keys.
    pub fn row(&self, i: usize) -> (r: (u64, &V))
        requires
            i < self.listed().len(),
        ensures
            r.0 == self.listed()[i as int].0,
            *r.1 == self.listed()[i as int].1,
    {
        let row = &self.rows[i];
        (row.0, &row.1)
    }
}

} // verus!
