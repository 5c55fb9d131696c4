//! A table: a finite map from keys to values.
//!
//! The table is modelled by a `Map`. The rows stand in the order in which their
//! keys came, and no key has two rows.

use vstd::prelude::*;

verus! {

/// A type whose values can be compared. Two keys are the same if their models
/// are equal.
pub trait Key {
    type Model;

    spec fn model(&self) -> Self::Model;

    fn same(&self, other: &Self) -> (r: bool)
        ensures
            r == (self.model() == other.model()),
    ;
}

pub struct Table<K, V> {
    rows: Vec<(K, V)>,
}

/// The map that a list of rows stands for: of two rows with one key the later
/// one counts.
pub open spec fn rows_map<K, V>(rows: Seq<(K, V)>) -> Map<K, V>
    decreases rows.len(),
{
    if rows.len() == 0 {
        Map::empty()
    } else {
        rows_map(rows.drop_last()).insert(rows.last().0, rows.last().1)
    }
}

pub open spec fn keys_differ<K, V>(rows: Seq<(K, V)>) -> bool {
    forall|i: int, j: int| 0 <= i < j < rows.len() ==> #[trigger] rows[i].0 != #[trigger] rows[j].0
}

/// The rows of `map` that `keep` holds of.
pub open spec fn kept<K, V>(map: Map<K, V>, keep: spec_fn(K, V) -> bool) -> Map<K, V> {
    map.restrict(map.dom().filter(|k: K| keep(k, map[k])))
}

proof fn rows_map_lookup<K, V>(rows: Seq<(K, V)>)
    requires
        keys_differ(rows),
    ensures
        rows_map(rows).dom().finite(),
        rows_map(rows).len() == rows.len(),
        forall|i: int|
            0 <= i < rows.len() ==> rows_map(rows).contains_key(#[trigger] rows[i].0) && rows_map(
                rows,
            )[rows[i].0] == rows[i].1,
        forall|k: K|
            #[trigger] rows_map(rows).contains_key(k) ==> exists|i: int|
                0 <= i < rows.len() && #[trigger] rows[i].0 == k,
    decreases rows.len(),
{
    if rows.len() > 0 {
        let front = rows.drop_last();
        assert(keys_differ(front)) by {
            assert forall|i: int, j: int| 0 <= i < j < front.len() implies #[trigger] front[i].0
                != #[trigger] front[j].0 by {
                assert(front[i] == rows[i] && front[j] == rows[j]);
            }
        }
        rows_map_lookup(front);
        let last = rows.last();
        assert(!rows_map(front).contains_key(last.0)) by {
            if rows_map(front).contains_key(last.0) {
                let i = choose|i: int| 0 <= i < front.len() && #[trigger] front[i].0 == last.0;
                assert(rows[i].0 == rows[rows.len() - 1].0);
            }
        }
        assert forall|i: int| 0 <= i < rows.len() implies rows_map(rows).contains_key(
            #[trigger] rows[i].0,
        ) && rows_map(rows)[rows[i].0] == rows[i].1 by {
            if i < front.len() {
                assert(front[i] == rows[i]);
            }
        }
        assert forall|k: K| #[trigger] rows_map(rows).contains_key(k) implies exists|i: int|
            0 <= i < rows.len() && #[trigger] rows[i].0 == k by {
            if k == last.0 {
                assert(rows[rows.len() - 1].0 == k);
            } else {
                assert(rows_map(front).contains_key(k));
                let i = choose|i: int| 0 <= i < front.len() && #[trigger] front[i].0 == k;
                assert(rows[i].0 == k);
            }
        }
    }
}

proof fn rows_map_remove<K, V>(rows: Seq<(K, V)>, at: int)
    requires
        keys_differ(rows),
        0 <= at < rows.len(),
    ensures
        keys_differ(rows.remove(at)),
        rows_map(rows.remove(at)) == rows_map(rows).remove(rows[at].0),
{
    let less = rows.remove(at);
    assert forall|i: int, j: int| 0 <= i < j < less.len() implies #[trigger] less[i].0
        != #[trigger] less[j].0 by {
        let a = if i < at {
            i
        } else {
            i + 1
        };
        let b = if j < at {
            j
        } else {
            j + 1
        };
        assert(less[i] == rows[a] && less[j] == rows[b]);
    }
    rows_map_lookup(rows);
    rows_map_lookup(less);
    let m = rows_map(rows).remove(rows[at].0);
    assert forall|k: K| rows_map(less).contains_key(k) <==> m.contains_key(k) by {
        if rows_map(less).contains_key(k) {
            let i = choose|i: int| 0 <= i < less.len() && #[trigger] less[i].0 == k;
            let a = if i < at {
                i
            } else {
                i + 1
            };
            assert(less[i] == rows[a]);
            assert(rows[a].0 != rows[at].0);
        }
        if m.contains_key(k) {
            let i = choose|i: int| 0 <= i < rows.len() && #[trigger] rows[i].0 == k;
            let a = if i < at {
                i
            } else {
                i - 1
            };
            assert(less[a] == rows[i]);
        }
    }
    assert forall|k: K| m.contains_key(k) implies rows_map(less)[k] == m[k] by {
        let i = choose|i: int| 0 <= i < rows.len() && #[trigger] rows[i].0 == k;
        let a = if i < at {
            i
        } else {
            i - 1
        };
        assert(less[a] == rows[i]);
    }
    assert(rows_map(less) =~= m);
}

/// The rows with their keys' models.
pub open spec fn pairs<K: Key, V>(rows: Seq<(K, V)>) -> Seq<(K::Model, V)> {
    rows.map_values(|row: (K, V)| (row.0.model(), row.1))
}

impl<K: Key, V> Table<K, V> {
    pub closed spec fn wf(self) -> bool {
        keys_differ(pairs(self.rows@))
    }

    pub fn new() -> (r: Table<K, V>)
        ensures
            r.wf(),
            r@ == Map::<K::Model, V>::empty(),
    {
        Table { rows: Vec::new() }
    }

    fn find(&self, key: &K) -> (r: Option<usize>)
        requires
            self.wf(),
        ensures
            match r {
                Some(i) => i < self.rows@.len() && pairs(self.rows@)[i as int].0 == key.model(),
                None => !self@.contains_key(key.model()),
            },
    {
        let ghost all = pairs(self.rows@);
        proof {
            rows_map_lookup(all);
        }
        let mut i: usize = 0;
        while i < self.rows.len()
            invariant
                i <= self.rows@.len(),
                all == pairs(self.rows@),
                forall|k: int| 0 <= k < i ==> (#[trigger] all[k]).0 != key.model(),
            decreases self.rows@.len() - i,
        {
            if self.rows[i].0.same(key) {
                return Some(i);
            }
            i += 1;
        }
        None
    }

    pub fn len(&self) -> (r: usize)
        requires
            self.wf(),
        ensures
            r == self@.len(),
            self@.dom().finite(),
    {
        proof {
            rows_map_lookup(pairs(self.rows@));
        }
        self.rows.len()
    }

    pub fn contains(&self, key: &K) -> (r: bool)
        requires
            self.wf(),
        ensures
            r == self@.contains_key(key.model()),
    {
        proof {
            rows_map_lookup(pairs(self.rows@));
        }
        self.find(key).is_some()
    }

    pub fn get(&self, key: &K) -> (r: Option<&V>)
        requires
            self.wf(),
        ensures
            match r {
                Some(v) => self@.contains_key(key.model()) && *v == self@[key.model()],
                None => !self@.contains_key(key.model()),
            },
    {
        proof {
            rows_map_lookup(pairs(self.rows@));
        }
        match self.find(key) {
            Some(i) => Some(&self.rows[i].1),
            None => None,
        }
    }

    /// Takes the row of a key out of the table.
    pub fn take(&mut self, key: &K) -> (r: Option<V>)
        requires
            old(self).wf(),
        ensures
            final(self).wf(),
            final(self)@ == old(self)@.remove(key.model()),
            match r {
                Some(v) => old(self)@.contains_key(key.model()) && v == old(self)@[key.model()],
                None => !old(self)@.contains_key(key.model()),
            },
    {
        let ghost all = pairs(self.rows@);
        proof {
            rows_map_lookup(all);
        }
        match self.find(key) {
            Some(i) => {
                proof {
                    rows_map_remove(all, i as int);
                }
                let row: (K, V) = self.rows.remove(i);
                assert(pairs(self.rows@) =~= all.remove(i as int));
                Some(row.1)
            },
            None => {
                assert(self@.remove(key.model()) =~= self@);
                None
            },
        }
    }

    /// Sets the row of a key.
    pub fn insert(&mut self, key: K, value: V)
        requires
            old(self).wf(),
        ensures
            final(self).wf(),
            final(self)@ == old(self)@.insert(key.model(), value),
    {
        let ghost before = self@;
        let old_row: Option<V> = self.take(&key);
        let ghost rows = pairs(self.rows@);
        let ghost row = (key.model(), value);
        proof {
            rows_map_lookup(rows);
        }
        self.rows.push((key, value));
        let ghost all = pairs(self.rows@);
        assert(all =~= rows.push(row));
        assert(all.drop_last() =~= rows);
        assert(keys_differ(all)) by {
            assert forall|i: int, j: int| 0 <= i < j < all.len() implies #[trigger] all[i].0
                != #[trigger] all[j].0 by {
                if j == rows.len() {
                    assert(rows_map(rows).contains_key(rows[i].0));
                }
            }
        }
        assert(self@ =~= before.insert(row.0, value));
    }

    /// Keeps the rows that `keep` holds of.
    pub fn retain<F: Fn(&K, &V) -> bool>(
        &mut self,
        keep: F,
        Ghost(keeps): Ghost<spec_fn(K::Model, V) -> bool>,
    )
        requires
            old(self).wf(),
            forall|k: K, v: V| keep.requires((&k, &v)),
            forall|k: K, v: V, b: bool| keep.ensures((&k, &v), b) ==> b == keeps(k.model(), v),
        ensures
            final(self).wf(),
            final(self)@ == kept(old(self)@, keeps),
    {
        let ghost all = self@;
        proof {
            rows_map_lookup(pairs(self.rows@));
        }
        let mut i: usize = 0;
        while i < self.rows.len()
            invariant
                self.wf(),
                i <= self.rows@.len(),
                forall|k: K, v: V| keep.requires((&k, &v)),
                forall|k: K, v: V, b: bool|
                    keep.ensures((&k, &v), b) ==> b == keeps(k.model(), v),
                kept(self@, keeps) == kept(all, keeps),
                forall|k: int|
                    0 <= k < i ==> keeps(
                        (#[trigger] pairs(self.rows@)[k]).0,
                        pairs(self.rows@)[k].1,
                    ),
            decreases self.rows@.len() - i,
        {
            let ghost rows = pairs(self.rows@);
            proof {
                rows_map_lookup(rows);
                rows_map_remove(rows, i as int);
            }
            assert(rows[i as int] == (self.rows@[i as int].0.model(), self.rows@[i as int].1));
            if keep(&self.rows[i].0, &self.rows[i].1) {
                i += 1;
            } else {
                let ghost before = self@;
                let dropped: (K, V) = self.rows.remove(i);
                assert(pairs(self.rows@) =~= rows.remove(i as int));
                assert(kept(self@, keeps) =~= kept(before, keeps));
            }
        }
        proof {
            let rows = pairs(self.rows@);
            rows_map_lookup(rows);
            assert forall|k: K::Model| self@.contains_key(k) implies keeps(k, self@[k]) by {
                let i = choose|i: int| 0 <= i < rows.len() && #[trigger] rows[i].0 == k;
            }
            assert(kept(self@, keeps) =~= self@);
        }
    }

    /// The number of rows that `test` holds of.
    pub fn count<F: Fn(&K, &V) -> bool>(
        &self,
        test: F,
        Ghost(holds): Ghost<spec_fn(K::Model, V) -> bool>,
    ) -> (r: usize)
        requires
            self.wf(),
            forall|k: K, v: V| test.requires((&k, &v)),
            forall|k: K, v: V, b: bool| test.ensures((&k, &v), b) ==> b == holds(k.model(), v),
        ensures
            r == kept(self@, holds).len(),
            self@.dom().finite(),
    {
        let ghost rows = pairs(self.rows@);
        proof {
            rows_map_lookup(rows);
        }
        let mut n: usize = 0;
        let mut i: usize = 0;
        assert(kept(rows_map(rows.take(0)), holds).dom() =~= Set::<K::Model>::empty());
        while i < self.rows.len()
            invariant
                rows == pairs(self.rows@),
                keys_differ(rows),
                i <= rows.len(),
                n <= i,
                forall|k: K, v: V| test.requires((&k, &v)),
                forall|k: K, v: V, b: bool|
                    test.ensures((&k, &v), b) ==> b == holds(k.model(), v),
                n == kept(rows_map(rows.take(i as int)), holds).len(),
            decreases rows.len() - i,
        {
            let yes: bool = test(&self.rows[i].0, &self.rows[i].1);
            proof {
                let front = rows.take(i as int);
                let more = rows.take(i + 1);
                let row = rows[i as int];
                assert(more.drop_last() =~= front);
                assert(keys_differ(front)) by {
                    assert forall|a: int, b: int| 0 <= a < b < front.len() implies #[trigger] front[a].0
                        != #[trigger] front[b].0 by {
                        assert(front[a] == rows[a] && front[b] == rows[b]);
                    }
                }
                rows_map_lookup(front);
                assert(!rows_map(front).contains_key(row.0)) by {
                    if rows_map(front).contains_key(row.0) {
                        let a = choose|a: int| 0 <= a < front.len() && #[trigger] front[a].0 == row.0;
                        assert(rows[a].0 == rows[i as int].0);
                    }
                }
                let was = kept(rows_map(front), holds).dom();
                let is = kept(rows_map(more), holds).dom();
                assert(was.subset_of(rows_map(front).dom()));
                vstd::set_lib::lemma_len_subset(was, rows_map(front).dom());
                if yes {
                    assert(is =~= was.insert(row.0));
                } else {
                    assert(is =~= was);
                }
            }
            if yes {
                n += 1;
            }
            i += 1;
        }
        assert(rows.take(i as int) =~= rows);
        n
    }
}

impl<K: Key, V> View for Table<K, V> {
    type V = Map<K::Model, V>;

    closed spec fn view(&self) -> Map<K::Model, V> {
        rows_map(pairs(self.rows@))
    }
}

impl Key for [u8; 32] {
    type Model = [u8; 32];

    open spec fn model(&self) -> [u8; 32] {
        *self
    }

    fn same(&self, other: &Self) -> (r: bool) {
        crate::octets::same_key(self, other)
    }
}

impl Key for [u8; 16] {
    type Model = [u8; 16];

    open spec fn model(&self) -> [u8; 16] {
        *self
    }

    fn same(&self, other: &Self) -> (r: bool) {
        crate::octets::same_id(self, other)
    }
}

impl Key for String {
    type Model = Seq<char>;

    open spec fn model(&self) -> Seq<char> {
        self@
    }

    fn same(&self, other: &Self) -> (r: bool) {
        *self == *other
    }
}

} // verus!
