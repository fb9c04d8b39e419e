//! An insertion-ordered map keyed by quantized points.
//!
//! The keys are looked up through an `IndexMap`, which remembers for each key
//! its place in the order; the values stand in a vector of their own.

use indexmap::IndexMap;
use vstd::prelude::*;

verus! {

#[verifier::external_type_specification]
#[verifier::external_body]
#[verifier::reject_recursive_types(K)]
#[verifier::reject_recursive_types(V)]
#[verifier::reject_recursive_types(S)]
pub struct ExIndexMap<K, V, S>(IndexMap<K, V, S>);

/// The key-value pairs that an index holds, in insertion order.
pub uninterp spec fn slots(m: IndexMap<(i32, i32), usize>) -> Seq<((i32, i32), usize)>;

/// `IndexMap::new`: the new map holds no pair.
#[verifier::external_body]
fn slots_new() -> (m: IndexMap<(i32, i32), usize>)
    ensures
        slots(m) == Seq::<((i32, i32), usize)>::empty(),
{
    IndexMap::new()
}

/// `IndexMap::get`: the value stored for `key` if a pair with that key is
/// held, `None` if no pair has that key.
#[verifier::external_body]
fn slots_get(m: &IndexMap<(i32, i32), usize>, key: (i32, i32)) -> (r: Option<usize>)
    ensures
        match r {
            Some(v) => exists|i: int| 0 <= i < slots(*m).len() && slots(*m)[i] == (key, v),
            None => forall|i: int| 0 <= i < slots(*m).len() ==> (#[trigger] slots(*m)[i]).0 != key,
        },
{
    m.get(&key).copied()
}

/// `IndexMap::insert`: a pair whose key is already held keeps its place and
/// takes the new value, and the old value is returned; a pair with a new key
/// goes last, and `None` is returned.
#[verifier::external_body]
fn slots_insert(m: &mut IndexMap<(i32, i32), usize>, key: (i32, i32), value: usize) -> (r: Option<
    usize,
>)
    ensures
        match r {
            Some(v) => exists|i: int|
                0 <= i < slots(*old(m)).len() && slots(*old(m))[i] == (key, v) && slots(*final(m))
                    == slots(*old(m)).update(i, (key, value)),
            None => (forall|i: int|
                0 <= i < slots(*old(m)).len() ==> (#[trigger] slots(*old(m))[i]).0 != key)
                && slots(*final(m)) == slots(*old(m)).push((key, value)),
        },
{
    m.insert(key, value)
}

/// A map from quantized points to values that keeps the order in which the
/// keys came.
pub struct OrderedMap<V> {
    /// For each key, its place in `keys` and `values`.
    pub index: IndexMap<(i32, i32), usize>,
    /// The keys, in the order in which they came.
    pub keys: Vec<(i32, i32)>,
    /// The value of each key, at the key's place.
    pub values: Vec<V>,
}

/// The place of `key` in `keys`, or -1 if it is not there.
pub open spec fn place_of(keys: Seq<(i32, i32)>, key: (i32, i32)) -> int
    decreases keys.len(),
{
    if keys.len() == 0 {
        -1
    } else if keys.last() == key && place_of(keys.drop_last(), key) < 0 {
        keys.len() - 1
    } else {
        place_of(keys.drop_last(), key)
    }
}

/// `place_of` gives the first place of the key, and -1 only if the key is at
/// no place.
pub proof fn lemma_place_of(keys: Seq<(i32, i32)>, key: (i32, i32))
    ensures
        -1 <= place_of(keys, key) < keys.len(),
        place_of(keys, key) >= 0 ==> keys[place_of(keys, key)] == key,
        forall|i: int| 0 <= i < place_of(keys, key) ==> keys[i] != key,
        place_of(keys, key) < 0 ==> forall|i: int| 0 <= i < keys.len() ==> keys[i] != key,
    decreases keys.len(),
{
    if keys.len() > 0 {
        lemma_place_of(keys.drop_last(), key);
        assert forall|i: int| 0 <= i < keys.len() - 1 implies keys.drop_last()[i] == keys[i] by {}
    }
}

/// Whether no key stands at two places.
pub open spec fn distinct(keys: Seq<(i32, i32)>) -> bool {
    forall|i: int, j: int| 0 <= i < j < keys.len() ==> keys[i] != keys[j]
}

impl<V> OrderedMap<V> {
    /// The invariant: the index holds each key with its place, and no key
    /// stands at two places.
    pub open spec fn wf(self) -> bool {
        &&& self.keys@.len() == self.values@.len()
        &&& slots(self.index).len() == self.keys@.len()
        &&& forall|i: int|
            0 <= i < self.keys@.len() ==> (#[trigger] slots(self.index)[i]).0 == self.keys@[i]
                && slots(self.index)[i].1 as int == i
        &&& distinct(self.keys@)
    }

    /// An empty map.
    pub fn new() -> (m: Self)
        ensures
            m.wf(),
            m.keys@.len() == 0,
            m.values@.len() == 0,
    {
        OrderedMap { index: slots_new(), keys: Vec::new(), values: Vec::new() }
    }

    /// The number of keys.
    pub fn len(&self) -> (n: usize)
        requires
            self.wf(),
        ensures
            n == self.keys@.len(),
    {
        self.keys.len()
    }

    /// The place of a key, if the map holds it.
    pub fn find(&self, key: (i32, i32)) -> (r: Option<usize>)
        requires
            self.wf(),
        ensures
            match r {
                Some(i) => i as int == place_of(self.keys@, key) && i < self.keys@.len()
                    && self.keys@[i as int] == key,
                None => place_of(self.keys@, key) == -1 && !self.keys@.contains(key),
            },
    {
        proof {
            lemma_place_of(self.keys@, key);
        }
        match slots_get(&self.index, key) {
            Some(v) => {
                proof {
                    let i = choose|i: int|
                        0 <= i < slots(self.index).len() && slots(self.index)[i] == (key, v);
                    assert(slots(self.index)[i].0 == self.keys@[i]);
                    assert(self.keys@[i] == key);
                    assert(v as int == i);
                    let p = place_of(self.keys@, key);
                    if p < 0 {
                        assert(self.keys@[i] != key);
                    }
                    if p < i {
                        assert(self.keys@[p] != self.keys@[i]);
                    }
                    if i < p {
                        assert(self.keys@[i] != self.keys@[p]);
                    }
                }
                Some(v)
            },
            None => {
                proof {
                    assert forall|i: int| 0 <= i < self.keys@.len() implies self.keys@[i] != key by {
                        assert(slots(self.index)[i].0 != key);
                    }
                    let p = place_of(self.keys@, key);
                    if p >= 0 {
                        assert(self.keys@[p] != key);
                    }
                }
                None
            },
        }
    }

    /// Puts a key that the map does not hold behind the others.
    pub fn push(&mut self, key: (i32, i32), value: V)
        requires
            old(self).wf(),
            !old(self).keys@.contains(key),
        ensures
            final(self).wf(),
            final(self).keys@ == old(self).keys@.push(key),
            final(self).values@ == old(self).values@.push(value),
    {
        let n = self.keys.len();
        let ghost before = slots(self.index);
        let r = slots_insert(&mut self.index, key, n);
        proof {
            if r is Some {
                let i = choose|i: int|
                    0 <= i < before.len() && before[i] == (key, r->0) && slots(self.index)
                        == before.update(i, (key, n));
                assert(before[i].0 == old(self).keys@[i]);
                assert(old(self).keys@[i] == key);
            }
        }
        self.keys.push(key);
        self.values.push(value);
        proof {
            assert forall|i: int| 0 <= i < self.keys@.len() implies (#[trigger] slots(
                self.index,
            )[i]).0 == self.keys@[i] && slots(self.index)[i].1 as int == i by {
                if i < n {
                    assert(before[i].0 == old(self).keys@[i]);
                }
            }
            assert forall|i: int, j: int| 0 <= i < j < self.keys@.len() implies self.keys@[i]
                != self.keys@[j] by {
                if j == n {
                    assert(old(self).keys@[i] != key);
                }
            }
        }
    }
}

} // verus!
