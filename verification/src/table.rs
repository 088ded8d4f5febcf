//! A finite map kept as a vector of key-value pairs in which no key occurs
//! twice, and the sum of a finite map of natural numbers.

use crate::primitives::{Address, Bytes32};
use vstd::prelude::*;

verus! {

/// Keys of a [`Table`]: values that can be compared for equality at run time.
pub trait Key: Sized {
    /// Whether the two keys are the same value.
    fn same(&self, other: &Self) -> (r: bool)
        ensures
            r == (*self == *other),
    ;
}

impl Key for Address {
    fn same(&self, other: &Address) -> (r: bool) {
        *self == *other
    }
}

impl Key for Bytes32 {
    fn same(&self, other: &Bytes32) -> (r: bool) {
        *self == *other
    }
}

impl<A: Key, B: Key> Key for (A, B) {
    fn same(&self, other: &(A, B)) -> (r: bool) {
        self.0.same(&other.0) && self.1.same(&other.1)
    }
}

/// The map that a sequence of pairs denotes: later pairs win.
pub open spec fn pairs_to_map<K, V>(pairs: Seq<(K, V)>) -> Map<K, V>
    decreases pairs.len(),
{
    if pairs.len() == 0 {
        Map::empty()
    } else {
        pairs_to_map(pairs.drop_last()).insert(pairs.last().0, pairs.last().1)
    }
}

/// No key occurs at two positions.
pub open spec fn distinct_keys<K, V>(pairs: Seq<(K, V)>) -> bool {
    forall|i: int, j: int|
        0 <= i < pairs.len() && 0 <= j < pairs.len() && i != j ==> pairs[i].0 != pairs[j].0
}

/// The domain of the denoted map is finite and holds exactly the keys that
/// occur in the sequence.
pub proof fn lemma_pairs_domain<K, V>(pairs: Seq<(K, V)>)
    ensures
        pairs_to_map(pairs).dom().finite(),
        forall|k: K|
            pairs_to_map(pairs).contains_key(k) <==> exists|i: int|
                0 <= i < pairs.len() && #[trigger] pairs[i].0 == k,
    decreases pairs.len(),
{
    if pairs.len() > 0 {
        let front = pairs.drop_last();
        lemma_pairs_domain(front);
        assert forall|k: K| pairs_to_map(pairs).contains_key(k) implies exists|i: int|
            0 <= i < pairs.len() && #[trigger] pairs[i].0 == k by {
            if k == pairs.last().0 {
                assert(pairs[pairs.len() - 1].0 == k);
            } else {
                let i = choose|i: int| 0 <= i < front.len() && #[trigger] front[i].0 == k;
                assert(pairs[i].0 == k);
            }
        }
        assert forall|k: K|
            (exists|i: int|
                0 <= i < pairs.len() && #[trigger] pairs[i].0
                    == k) implies pairs_to_map(pairs).contains_key(k) by {
            let i = choose|i: int| 0 <= i < pairs.len() && #[trigger] pairs[i].0 == k;
            if i < pairs.len() - 1 {
                assert(front[i].0 == k);
            }
        }
    }
}

/// With distinct keys, the denoted map sends each key to the value beside it.
pub proof fn lemma_pairs_lookup<K, V>(pairs: Seq<(K, V)>, i: int)
    requires
        distinct_keys(pairs),
        0 <= i < pairs.len(),
    ensures
        pairs_to_map(pairs).contains_key(pairs[i].0),
        pairs_to_map(pairs)[pairs[i].0] == pairs[i].1,
    decreases pairs.len(),
{
    if i < pairs.len() - 1 {
        let front = pairs.drop_last();
        assert(front[i] == pairs[i]);
        lemma_pairs_lookup(front, i);
        assert(pairs[pairs.len() - 1].0 != pairs[i].0);
    }
}

/// With distinct keys, replacing the value at one position overwrites that
/// key in the denoted map.
pub proof fn lemma_pairs_update<K, V>(pairs: Seq<(K, V)>, i: int, value: V)
    requires
        distinct_keys(pairs),
        0 <= i < pairs.len(),
    ensures
        distinct_keys(pairs.update(i, (pairs[i].0, value))),
        pairs_to_map(pairs.update(i, (pairs[i].0, value))) =~= pairs_to_map(pairs).insert(
            pairs[i].0,
            value,
        ),
    decreases pairs.len(),
{
    let updated = pairs.update(i, (pairs[i].0, value));
    let front = pairs.drop_last();
    if i < pairs.len() - 1 {
        assert(front[i] == pairs[i]);
        lemma_pairs_update(front, i, value);
        assert(updated.drop_last() =~= front.update(i, (pairs[i].0, value)));
        assert(updated.last() == pairs.last());
        assert(pairs[pairs.len() - 1].0 != pairs[i].0);
    } else {
        assert(updated.drop_last() =~= front);
    }
}

/// A finite map from `K` to `V`.
pub struct Table<K: Key, V> {
    entries: Vec<(K, V)>,
}

impl<K: Key, V> View for Table<K, V> {
    type V = Map<K, V>;

    closed spec fn view(&self) -> Map<K, V> {
        pairs_to_map(self.entries@)
    }
}

impl<K: Key, V> Table<K, V> {
    /// No key is held twice.
    pub closed spec fn wf(&self) -> bool {
        distinct_keys(self.entries@)
    }

    /// A table denotes a finite map.
    pub proof fn lemma_finite(&self)
        ensures
            self@.dom().finite(),
    {
        lemma_pairs_domain(self.entries@);
    }

    /// The empty table.
    pub fn new() -> (r: Self)
        ensures
            r.wf(),
            r@ == Map::<K, V>::empty(),
    {
        Table { entries: Vec::new() }
    }

    /// The position of `key` among the entries, if it is held.
    fn position(&self, key: &K) -> (r: Option<usize>)
        requires
            self.wf(),
        ensures
            match r {
                Some(i) => i < self.entries@.len() && self.entries@[i as int].0 == *key,
                None => !self@.contains_key(*key),
            },
    {
        let mut i: usize = 0;
        while i < self.entries.len()
            invariant
                i <= self.entries@.len(),
                forall|j: int| 0 <= j < i ==> self.entries@[j].0 != *key,
            decreases self.entries@.len() - i,
        {
            if self.entries[i].0.same(key) {
                return Some(i);
            }
            i += 1;
        }
        proof {
            lemma_pairs_domain(self.entries@);
        }
        None
    }

    /// The value held for `key`, if any.
    pub fn get(&self, key: &K) -> (r: Option<&V>)
        requires
            self.wf(),
        ensures
            match r {
                Some(value) => self@.contains_key(*key) && *value == self@[*key],
                None => !self@.contains_key(*key),
            },
    {
        match self.position(key) {
            Some(i) => {
                proof {
                    lemma_pairs_lookup(self.entries@, i as int);
                }
                Some(&self.entries[i].1)
            },
            None => None,
        }
    }

    /// Holds `value` for `key`, in place of whatever was held for it before.
    pub fn insert(&mut self, key: K, value: V)
        requires
            old(self).wf(),
        ensures
            final(self).wf(),
            final(self)@ == old(self)@.insert(key, value),
    {
        match self.position(&key) {
            Some(i) => {
                proof {
                    lemma_pairs_update(self.entries@, i as int, value);
                }
                self.entries[i] = (key, value);
            },
            None => {
                proof {
                    lemma_pairs_domain(self.entries@);
                }
                self.entries.push((key, value));
                assert(self.entries@.drop_last() =~= old(self).entries@);
            },
        }
    }
}

/// The sum of the values of a finite map.
pub open spec fn map_sum<K>(m: Map<K, nat>) -> nat
    decreases m.dom().len(),
    when m.dom().finite()
{
    if m.dom().len() == 0 {
        0
    } else {
        let k = m.dom().choose();
        m[k] + map_sum(m.remove(k))
    }
}

/// The value at `k`, or zero where the map holds none.
pub open spec fn value_or_zero<K>(m: Map<K, nat>, k: K) -> nat {
    if m.contains_key(k) {
        m[k]
    } else {
        0
    }
}

/// The sum splits at any key of the map.
pub proof fn lemma_map_sum_remove<K>(m: Map<K, nat>, k: K)
    requires
        m.dom().finite(),
        m.contains_key(k),
    ensures
        map_sum(m) == m[k] + map_sum(m.remove(k)),
    decreases m.dom().len(),
{
    let c = m.dom().choose();
    if m.dom().len() == 0 {
        assert(false);
    } else if c != k {
        lemma_map_sum_remove(m.remove(c), k);
        lemma_map_sum_remove(m.remove(k), c);
        assert(m.remove(c).remove(k) =~= m.remove(k).remove(c));
    }
}

/// Writing `value` at `k` changes the sum by the difference to what was
/// there.
pub proof fn lemma_map_sum_insert<K>(m: Map<K, nat>, k: K, value: nat)
    requires
        m.dom().finite(),
    ensures
        map_sum(m.insert(k, value)) + value_or_zero(m, k) == map_sum(m) + value,
{
    lemma_map_sum_remove(m.insert(k, value), k);
    assert(m.insert(k, value).remove(k) =~= m.remove(k));
    if m.contains_key(k) {
        lemma_map_sum_remove(m, k);
    } else {
        assert(m.remove(k) =~= m);
    }
}

/// No single value exceeds the sum.
pub proof fn lemma_map_sum_bounds<K>(m: Map<K, nat>, k: K)
    requires
        m.dom().finite(),
    ensures
        value_or_zero(m, k) <= map_sum(m),
{
    if m.contains_key(k) {
        lemma_map_sum_remove(m, k);
    }
}

} // verus!
