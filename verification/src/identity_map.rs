//! An ordered map keyed by identity.
//!
//! The map keeps its keys in a vector in ascending order, so that a key is
//! found by bisection and the records are listed by position.

use crate::identity::{
    identity_lt, identity_order, lemma_identity_lt_irreflexive, lemma_identity_lt_total,
    lemma_identity_lt_transitive, lemma_identity_order, Identity,
};
use crate::order::{ascending_keys, is_ascending, lemma_ascending_keys, lists_keys};
use vstd::prelude::*;

verus! {

/// A finite map from identities to values of type `V`, listed in the order of
/// identities.
pub struct IdentityMap<V> {
    keys: Vec<Identity>,
    values: Vec<V>,
}

impl<V> View for IdentityMap<V> {
    type V = Map<Seq<u8>, V>;

    closed spec fn view(&self) -> Map<Seq<u8>, V> {
        Map::new(
            |k: Seq<u8>| self.key_seq().contains(k),
            |k: Seq<u8>| self.values@[self.key_seq().index_of(k)],
        )
    }
}

impl<V> IdentityMap<V> {
    /// The keys as they are stored.
    closed spec fn key_seq(&self) -> Seq<Seq<u8>> {
        self.keys@.map_values(|k: Identity| k@)
    }

    /// The keys are stored in ascending order, one value for each.
    pub closed spec fn wf(&self) -> bool {
        &&& self.keys@.len() == self.values@.len()
        &&& is_ascending(self.key_seq(), identity_order())
    }

    /// The keys of the map in ascending order.
    pub open spec fn listing(&self) -> Seq<Seq<u8>> {
        ascending_keys(self@.dom(), identity_order())
    }

    /// The values of the map in ascending order of their keys.
    pub open spec fn values_in_order(&self) -> Seq<V> {
        self.listing().map_values(|k: Seq<u8>| self@[k])
    }

    /// What the stored vectors say of the map and of its listing.
    proof fn lemma_stored(&self)
        requires
            self.wf(),
        ensures
            self.listing() == self.key_seq(),
            self.key_seq().len() == self.keys@.len(),
            self.key_seq().no_duplicates(),
            forall|i: int|
                0 <= i < self.keys@.len() ==> #[trigger] self.key_seq()[i] == self.keys@[i]@,
            forall|i: int|
                0 <= i < self.keys@.len() ==> self@.contains_key(#[trigger] self.key_seq()[i])
                    && self@[self.key_seq()[i]] == self.values@[i],
            forall|k: Seq<u8>| self@.contains_key(k) <==> self.key_seq().contains(k),
    {
        let ks = self.key_seq();
        lemma_identity_order();
        crate::order::lemma_ascending_no_duplicates(ks, identity_order());
        assert forall|i: int| 0 <= i < ks.len() implies self@.contains_key(#[trigger] ks[i])
            && self@[ks[i]] == self.values@[i] by {
            assert(ks.contains(ks[i]));
            let j = ks.index_of(ks[i]);
            assert(ks[j] == ks[i]);
        }
        assert(lists_keys(ks, self@.dom(), identity_order()));
        lemma_ascending_keys(ks, self@.dom(), identity_order());
    }

    /// The map is finite and holds as many keys as its listing is long.
    pub proof fn lemma_listing(&self)
        requires
            self.wf(),
        ensures
            self@.dom().finite(),
            self.listing().len() == self@.dom().len(),
            is_ascending(self.listing(), identity_order()),
            forall|k: Seq<u8>| self@.contains_key(k) <==> self.listing().contains(k),
    {
        self.lemma_stored();
        let ks = self.key_seq();
        assert(ks.to_set() =~= self@.dom());
        ks.unique_seq_to_set();
    }

    /// The empty map.
    pub fn new() -> (m: Self)
        ensures
            m.wf(),
            m@ == Map::<Seq<u8>, V>::empty(),
    {
        let m = IdentityMap { keys: Vec::new(), values: Vec::new() };
        assert(m@ =~= Map::<Seq<u8>, V>::empty());
        m
    }

    /// The number of keys.
    pub fn len(&self) -> (n: usize)
        requires
            self.wf(),
        ensures
            n == self.listing().len(),
            n == self@.dom().len(),
    {
        proof {
            self.lemma_stored();
            self.lemma_listing();
        }
        self.keys.len()
    }

    /// The first position whose key does not precede `key`.
    fn lower_bound(&self, key: &Identity) -> (p: usize)
        requires
            self.wf(),
        ensures
            p <= self.keys@.len(),
            forall|i: int| 0 <= i < p ==> identity_lt(#[trigger] self.key_seq()[i], key@),
            forall|i: int|
                p <= i < self.keys@.len() ==> !identity_lt(#[trigger] self.key_seq()[i], key@),
    {
        let ghost ks = self.key_seq();
        let mut lo: usize = 0;
        let mut hi: usize = self.keys.len();
        while lo < hi
            invariant
                self.wf(),
                ks == self.key_seq(),
                lo <= hi <= self.keys@.len(),
                forall|i: int| 0 <= i < lo ==> identity_lt(#[trigger] ks[i], key@),
                forall|i: int| hi <= i < self.keys@.len() ==> !identity_lt(#[trigger] ks[i], key@),
            decreases hi - lo,
        {
            let mid: usize = lo + (hi - lo) / 2;
            if self.keys[mid].precedes(key) {
                assert forall|i: int| 0 <= i < mid + 1 implies identity_lt(
                    #[trigger] ks[i],
                    key@,
                ) by {
                    if i < mid {
                        assert(identity_order()(ks[i], ks[mid as int]));
                        lemma_identity_lt_transitive(ks[i], ks[mid as int], key@);
                    }
                }
                lo = mid + 1;
            } else {
                assert forall|i: int| mid <= i < self.keys@.len() implies !identity_lt(
                    #[trigger] ks[i],
                    key@,
                ) by {
                    if mid < i && identity_lt(ks[i], key@) {
                        assert(identity_order()(ks[mid as int], ks[i]));
                        lemma_identity_lt_transitive(ks[mid as int], ks[i], key@);
                    }
                }
                hi = mid;
            }
        }
        lo
    }

    /// The position of `key`, if the map holds it.
    fn position(&self, key: &Identity) -> (r: Option<usize>)
        requires
            self.wf(),
        ensures
            match r {
                Some(p) => p < self.keys@.len() && self.key_seq()[p as int] == key@,
                None => !self.key_seq().contains(key@),
            },
    {
        let p: usize = self.lower_bound(key);
        if p < self.keys.len() && self.keys[p].same(key) {
            Some(p)
        } else {
            proof {
                let ks = self.key_seq();
                if ks.contains(key@) {
                    let q = choose|q: int| 0 <= q < ks.len() && ks[q] == key@;
                    lemma_identity_lt_irreflexive(key@);
                    if q > p {
                        assert(identity_order()(ks[p as int], ks[q]));
                    }
                }
            }
            None
        }
    }

    /// Whether the map holds `key`.
    pub fn contains_key(&self, key: &Identity) -> (r: bool)
        requires
            self.wf(),
        ensures
            r == self@.contains_key(key@),
    {
        proof {
            self.lemma_stored();
        }
        self.position(key).is_some()
    }

    /// The value stored under `key`.
    pub fn get(&self, key: &Identity) -> (r: Option<&V>)
        requires
            self.wf(),
        ensures
            match r {
                Some(v) => self@.contains_key(key@) && *v == self@[key@],
                None => !self@.contains_key(key@),
            },
    {
        proof {
            self.lemma_stored();
        }
        match self.position(key) {
            Some(p) => Some(&self.values[p]),
            None => None,
        }
    }

    /// The position in the listing at which a walk from `start` begins: that
    /// of the first key that is not below `start`, or the length of the listing
    /// if every key is below it.
    pub fn position_from(&self, start: &Identity) -> (p: usize)
        requires
            self.wf(),
        ensures
            p <= self.listing().len(),
            forall|i: int| 0 <= i < p ==> identity_lt(#[trigger] self.listing()[i], start@),
            forall|i: int|
                p <= i < self.listing().len() ==> !identity_lt(#[trigger] self.listing()[i], start@),
    {
        proof {
            self.lemma_stored();
        }
        self.lower_bound(start)
    }

    /// The key at position `i` of the listing.
    pub fn key_at(&self, i: usize) -> (key: &Identity)
        requires
            self.wf(),
            i < self.listing().len(),
        ensures
            key@ == self.listing()[i as int],
    {
        proof {
            self.lemma_stored();
        }
        &self.keys[i]
    }

    /// The value at position `i` of the listing.
    pub fn value_at(&self, i: usize) -> (value: &V)
        requires
            self.wf(),
            i < self.listing().len(),
        ensures
            *value == self.values_in_order()[i as int],
            self@.contains_key(self.listing()[i as int]),
    {
        proof {
            self.lemma_stored();
        }
        &self.values[i]
    }

    /// Stores `value` under `key`, in place of what was stored there.
    pub fn insert(&mut self, key: Identity, value: V)
        requires
            old(self).wf(),
        ensures
            final(self).wf(),
            final(self)@ == old(self)@.insert(key@, value),
    {
        let p: usize = self.lower_bound(&key);
        let ghost ks = self.key_seq();
        let ghost vs = self.values@;
        proof {
            self.lemma_stored();
        }
        if p < self.keys.len() && self.keys[p].same(&key) {
            self.values.set(p, value);
            proof {
                assert(self.key_seq() == ks);
                self.lemma_stored();
                assert(self@ =~= old(self)@.insert(key@, value)) by {
                    assert(ks[p as int] == key@);
                    assert(old(self).key_seq()[p as int] == key@);
                    assert(old(self)@.contains_key(key@));
                    assert forall|k: Seq<u8>| self@.contains_key(k) implies #[trigger] self@[k]
                        == old(self)@.insert(key@, value)[k] by {
                        let q = choose|q: int| 0 <= q < ks.len() && ks[q] == k;
                        assert(self.key_seq()[q] == k);
                        assert(self@[ks[q]] == self.values@[q]);
                        assert(old(self).key_seq()[q] == k);
                        assert(old(self)@[ks[q]] == vs[q]);
                        assert(ks[p as int] == key@);
                        if q != p {
                            assert(k != key@);
                        }
                    }
                }
            }
        } else {
            self.keys.insert(p, key);
            self.values.insert(p, value);
            proof {
                let ks2 = self.key_seq();
                assert(ks2 =~= ks.insert(p as int, key@));
                lemma_identity_lt_irreflexive(key@);
                assert forall|i: int, j: int| 0 <= i < j < ks2.len() implies identity_order()(
                    #[trigger] ks2[i],
                    #[trigger] ks2[j],
                ) by {
                    if j < p {
                        assert(identity_order()(ks[i], ks[j]));
                    } else if j == p {
                        assert(identity_lt(ks[i], key@));
                    } else if i < p {
                        assert(identity_order()(ks[i], ks[j - 1]));
                    } else if i == p {
                        if ks[j - 1] == key@ {
                            if j - 1 > p {
                                assert(identity_order()(ks[p as int], ks[j - 1]));
                            }
                        } else {
                            lemma_identity_lt_total(ks[j - 1], key@);
                        }
                    } else {
                        assert(identity_order()(ks[i - 1], ks[j - 1]));
                    }
                }
                self.lemma_stored();
                assert(self@ =~= old(self)@.insert(key@, value)) by {
                    assert forall|k: Seq<u8>| self@.contains_key(k) implies old(self)@.insert(
                        key@,
                        value,
                    ).contains_key(k) && #[trigger] self@[k] == old(self)@.insert(key@, value)[k] by {
                        let q = choose|q: int| 0 <= q < ks2.len() && ks2[q] == k;
                        assert(self.key_seq()[q] == k);
                        assert(self@[ks2[q]] == self.values@[q]);
                        if q < p {
                            assert(ks[q] == k);
                            assert(old(self).key_seq()[q] == k);
                            assert(identity_lt(ks[q], key@));
                            assert(old(self)@[ks[q]] == vs[q]);
                        } else if q > p {
                            assert(ks[q - 1] == k);
                            assert(old(self).key_seq()[q - 1] == k);
                            if q - 1 > p {
                                assert(identity_order()(ks[p as int], ks[q - 1]));
                            }
                            assert(k != key@);
                            assert(old(self)@[ks[q - 1]] == vs[q - 1]);
                        }
                    }
                    assert forall|k: Seq<u8>|
                        old(self)@.insert(key@, value).contains_key(k) implies self@.contains_key(
                        k,
                    ) by {
                        if k == key@ {
                            assert(ks2[p as int] == k);
                        } else {
                            assert(old(self)@.contains_key(k));
                            let q = choose|q: int| 0 <= q < ks.len() && ks[q] == k;
                            if q < p {
                                assert(ks2[q] == k);
                                assert(self.key_seq()[q] == k);
                            } else {
                                assert(ks2[q + 1] == k);
                                assert(self.key_seq()[q + 1] == k);
                            }
                        }
                    }
                }
            }
        }
    }
}

} // verus!
