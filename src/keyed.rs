//! A map from 64-bit ids to values that keeps its entries in insertion order; lookups go
//! through an `ahash::AHashMap` from id to position.
use vstd::prelude::*;
use ahash::AHashMap;

verus! {

#[verifier::external_type_specification]
#[verifier::external_body]
#[verifier::reject_recursive_types(K)]
#[verifier::reject_recursive_types(V)]
#[verifier::reject_recursive_types(S)]
pub struct ExAHashMap<K, V, S>(AHashMap<K, V, S>);

#[verifier::external_type_specification]
#[verifier::external_body]
pub struct ExRandomState(ahash::RandomState);

/// The entries that an id-to-position map holds.
pub uninterp spec fn index_entries(m: AHashMap<u64, usize>) -> Map<u64, usize>;

/// Relies on `AHashMap::new`: a map without entries.
#[verifier::external_body]
fn index_new() -> (r: AHashMap<u64, usize>)
    ensures
        index_entries(r).dom().is_empty(),
{
    AHashMap::new()
}

/// Relies on `AHashMap::insert`: the key maps to the value afterwards, other keys are unchanged.
#[verifier::external_body]
fn index_insert(m: &mut AHashMap<u64, usize>, k: u64, v: usize)
    ensures
        index_entries(*final(m)) == index_entries(*old(m)).insert(k, v),
{
    m.insert(k, v);
}

/// Relies on `AHashMap::get`: the value of the key, if the map holds it.
#[verifier::external_body]
fn index_get(m: &AHashMap<u64, usize>, k: u64) -> (r: Option<usize>)
    ensures
        index_entries(*m).contains_key(k) ==> r == Some(index_entries(*m)[k]),
        !index_entries(*m).contains_key(k) ==> r is None,
{
    m.get(&k).copied()
}

pub struct Keyed<V> {
    index: AHashMap<u64, usize>,
    keys: Vec<u64>,
    values: Vec<V>,
}

impl<V> Keyed<V> {
    pub closed spec fn wf(&self) -> bool {
        let m = index_entries(self.index);
        &&& self.keys@.len() == self.values@.len()
        &&& forall|k: u64| #[trigger]
            m.contains_key(k) ==> m[k] < self.keys@.len() && self.keys@[m[k] as int] == k
        &&& forall|i: int|
            0 <= i < self.keys@.len() ==> m.contains_key(#[trigger] self.keys@[i])
                && m[self.keys@[i]] == i
    }

    /// The entries, by id.
    pub closed spec fn view(&self) -> Map<u64, V> {
        let m = index_entries(self.index);
        Map::new(|k: u64| m.contains_key(k), |k: u64| self.values@[m[k] as int])
    }

    /// The ids, in the order in which they were first inserted.
    pub closed spec fn key_seq(&self) -> Seq<u64> {
        self.keys@
    }

    /// The values, in the order in which their ids were first inserted.
    pub closed spec fn value_seq(&self) -> Seq<V> {
        self.values@
    }

    pub proof fn lemma_seqs(&self)
        requires
            self.wf(),
        ensures
            self.key_seq().len() == self.value_seq().len(),
            self.key_seq().no_duplicates(),
            forall|i: int|
                0 <= i < self.key_seq().len() ==> self.view().contains_key(
                    #[trigger] self.key_seq()[i],
                ) && self.view()[self.key_seq()[i]] == self.value_seq()[i],
            forall|k: u64|
                #[trigger] self.view().contains_key(k) ==> exists|i: int|
                    0 <= i < self.key_seq().len() && self.key_seq()[i] == k,
            self.key_seq().to_set() == self.view().dom(),
            self.view().dom().finite(),
            self.view().dom().len() == self.key_seq().len(),
    {
        let m = index_entries(self.index);
        assert forall|k: u64| #[trigger] self.view().contains_key(k) implies exists|i: int|
            0 <= i < self.key_seq().len() && self.key_seq()[i] == k by {
            assert(m.contains_key(k));
            let i = m[k] as int;
            assert(self.keys@[i] == k);
            assert(0 <= i < self.key_seq().len() && self.key_seq()[i] == k);
        }
        assert forall|i: int, j: int|
            0 <= i < self.keys@.len() && 0 <= j < self.keys@.len() && i != j implies self.keys@[i]
            != self.keys@[j] by {
            assert(m.contains_key(self.keys@[i]));
            assert(m.contains_key(self.keys@[j]));
        }
        assert forall|k: u64| self.key_seq().to_set().contains(k) == self.view().dom().contains(k) by {
            if self.view().dom().contains(k) {
                let i = choose|i: int| 0 <= i < self.key_seq().len() && self.key_seq()[i] == k;
                assert(self.key_seq().contains(k));
            }
            if self.key_seq().contains(k) {
                let i = choose|i: int| 0 <= i < self.key_seq().len() && self.key_seq()[i] == k;
                assert(m.contains_key(self.keys@[i]));
            }
        }
        assert(self.key_seq().to_set() =~= self.view().dom());
        self.key_seq().unique_seq_to_set();
        vstd::seq_lib::seq_to_set_is_finite(self.key_seq());
    }

    pub fn new() -> (r: Self)
        ensures
            r.wf(),
            r.view() == Map::<u64, V>::empty(),
            r.key_seq().len() == 0,
    {
        let r = Keyed { index: index_new(), keys: Vec::new(), values: Vec::new() };
        assert(index_entries(r.index) =~= Map::<u64, usize>::empty());
        assert(r.view() =~= Map::<u64, V>::empty());
        r
    }

    pub fn len(&self) -> (r: usize)
        requires
            self.wf(),
        ensures
            r == self.key_seq().len(),
    {
        self.keys.len()
    }

    pub fn get(&self, k: u64) -> (r: Option<&V>)
        requires
            self.wf(),
        ensures
            self.view().contains_key(k) ==> r == Some(&self.view()[k]),
            !self.view().contains_key(k) ==> r is None,
    {
        match index_get(&self.index, k) {
            Some(i) => Some(&self.values[i]),
            None => None,
        }
    }

    /// The id and the value of the entry at position `i` of insertion order.
    pub fn entry_at(&self, i: usize) -> (r: (u64, &V))
        requires
            self.wf(),
            i < self.key_seq().len(),
        ensures
            r.0 == self.key_seq()[i as int],
            *r.1 == self.value_seq()[i as int],
    {
        (self.keys[i], &self.values[i])
    }

    /// Sets the value of `k`; a new id goes last in insertion order.
    pub fn insert(&mut self, k: u64, v: V)
        requires
            old(self).wf(),
        ensures
            final(self).wf(),
            final(self).view() == old(self).view().insert(k, v),
            old(self).view().contains_key(k) ==> final(self).key_seq() == old(self).key_seq(),
            !old(self).view().contains_key(k) ==> final(self).key_seq() == old(
                self,
            ).key_seq().push(k),
    {
        let ghost m0 = index_entries(self.index);
        match index_get(&self.index, k) {
            Some(i) => {
                self.values.set(i, v);
                proof {
                    assert(self.view() =~= old(self).view().insert(k, v));
                }
            },
            None => {
                let n = self.keys.len();
                self.keys.push(k);
                self.values.push(v);
                index_insert(&mut self.index, k, n);
                proof {
                    let m = index_entries(self.index);
                    assert forall|i: int| 0 <= i < self.keys@.len() implies m.contains_key(
                        #[trigger] self.keys@[i],
                    ) && m[self.keys@[i]] == i by {
                        if i < n {
                            assert(m0.contains_key(old(self).keys@[i]));
                        }
                    }
                    assert(self.view() =~= old(self).view().insert(k, v));
                }
            },
        }
    }
}

} // verus!
