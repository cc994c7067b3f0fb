//! Ascending listings of a key set under a strict order.
//!
//! Every store in this crate hands its records out in ascending key order.
//! The listing of a key set is defined here once, for any key type, together
//! with the facts that make it usable: a key set has at most one ascending
//! listing, and a finite key set has one.

use vstd::prelude::*;

verus! {

/// `lt` is irreflexive and transitive.
pub open spec fn strict_order<K>(lt: spec_fn(K, K) -> bool) -> bool {
    &&& forall|a: K| !#[trigger] lt(a, a)
    &&& forall|a: K, b: K, c: K| #[trigger] lt(a, b) && #[trigger] lt(b, c) ==> lt(a, c)
}

/// `lt` is a strict order in which any two distinct keys are comparable.
pub open spec fn strict_total_order<K>(lt: spec_fn(K, K) -> bool) -> bool {
    &&& strict_order(lt)
    &&& forall|a: K, b: K| a != b ==> #[trigger] lt(a, b) || lt(b, a)
}

/// Each element of `s` is below every later one.
pub open spec fn is_ascending<K>(s: Seq<K>, lt: spec_fn(K, K) -> bool) -> bool {
    forall|i: int, j: int| 0 <= i < j < s.len() ==> lt(#[trigger] s[i], #[trigger] s[j])
}

/// `s` is ascending and holds exactly the keys of `keys`.
pub open spec fn lists_keys<K>(s: Seq<K>, keys: Set<K>, lt: spec_fn(K, K) -> bool) -> bool {
    &&& is_ascending(s, lt)
    &&& forall|k: K| keys.contains(k) <==> s.contains(k)
}

/// The keys of `keys` in ascending order.
///
/// Under a strict order this is the one ascending listing of `keys`, where
/// there is one ([`lemma_ascending_keys`]); under a strict total order every
/// finite set has one ([`lemma_ascending_exists`]).
pub open spec fn ascending_keys<K>(keys: Set<K>, lt: spec_fn(K, K) -> bool) -> Seq<K> {
    choose|s: Seq<K>| lists_keys(s, keys, lt)
}

/// An ascending sequence holds no key twice.
pub proof fn lemma_ascending_no_duplicates<K>(s: Seq<K>, lt: spec_fn(K, K) -> bool)
    requires
        strict_order(lt),
        is_ascending(s, lt),
    ensures
        s.no_duplicates(),
{
    assert forall|i: int, j: int| 0 <= i < s.len() && 0 <= j < s.len() && i != j implies s[i]
        != s[j] by {
        if i < j {
            assert(lt(s[i], s[j]));
        } else {
            assert(lt(s[j], s[i]));
        }
    }
}

/// Two ascending sequences over the same keys are the same sequence.
pub proof fn lemma_ascending_unique<K>(s: Seq<K>, t: Seq<K>, lt: spec_fn(K, K) -> bool)
    requires
        strict_order(lt),
        is_ascending(s, lt),
        is_ascending(t, lt),
        forall|k: K| s.contains(k) <==> t.contains(k),
    ensures
        s == t,
    decreases s.len(),
{
    if s.len() == 0 {
        if t.len() > 0 {
            assert(t.contains(t[0]));
            assert(s.contains(t[0]));
        }
        assert(s =~= t);
    } else {
        assert(s.contains(s[0]));
        assert(t.contains(s[0]));
        let sl = s.last();
        let tl = t.last();
        assert(s.contains(sl));
        assert(t.contains(tl));
        assert(t.contains(sl));
        assert(s.contains(tl));
        let j = choose|j: int| 0 <= j < t.len() && t[j] == sl;
        let i = choose|i: int| 0 <= i < s.len() && s[i] == tl;
        if sl != tl {
            assert(lt(t[j], t[t.len() - 1]));
            assert(lt(s[i], s[s.len() - 1]));
            assert(lt(sl, sl));
        }
        let s0 = s.drop_last();
        let t0 = t.drop_last();
        assert forall|k: K| s0.contains(k) <==> t0.contains(k) by {
            if s0.contains(k) {
                let a = choose|a: int| 0 <= a < s0.len() && s0[a] == k;
                assert(s[a] == k);
                assert(lt(s[a], s[s.len() - 1]));
                assert(s.contains(k));
                let b = choose|b: int| 0 <= b < t.len() && t[b] == k;
                assert(b < t.len() - 1);
                assert(t0[b] == k);
            }
            if t0.contains(k) {
                let b = choose|b: int| 0 <= b < t0.len() && t0[b] == k;
                assert(t[b] == k);
                assert(lt(t[b], t[t.len() - 1]));
                assert(t.contains(k));
                let a = choose|a: int| 0 <= a < s.len() && s[a] == k;
                assert(a < s.len() - 1);
                assert(s0[a] == k);
            }
        }
        assert(is_ascending(s0, lt)) by {
            assert forall|a: int, b: int| 0 <= a < b < s0.len() implies lt(
                #[trigger] s0[a],
                #[trigger] s0[b],
            ) by {
                assert(lt(s[a], s[b]));
            }
        }
        assert(is_ascending(t0, lt)) by {
            assert forall|a: int, b: int| 0 <= a < b < t0.len() implies lt(
                #[trigger] t0[a],
                #[trigger] t0[b],
            ) by {
                assert(lt(t[a], t[b]));
            }
        }
        lemma_ascending_unique(s0, t0, lt);
        assert(s =~= s0.push(sl));
        assert(t =~= t0.push(tl));
    }
}

/// A sequence that lists a key set in ascending order is the listing of that
/// set.
pub proof fn lemma_ascending_keys<K>(s: Seq<K>, keys: Set<K>, lt: spec_fn(K, K) -> bool)
    requires
        strict_order(lt),
        lists_keys(s, keys, lt),
    ensures
        ascending_keys(keys, lt) == s,
{
    let t = ascending_keys(keys, lt);
    assert(lists_keys(t, keys, lt));
    lemma_ascending_unique(s, t, lt);
}

/// A finite set that is not empty has a greatest key.
pub proof fn lemma_greatest_key<K>(keys: Set<K>, lt: spec_fn(K, K) -> bool) -> (top: K)
    requires
        strict_total_order(lt),
        keys.finite(),
        keys.len() > 0,
    ensures
        keys.contains(top),
        forall|k: K| keys.contains(k) && k != top ==> #[trigger] lt(k, top),
    decreases keys.len(),
{
    let some = keys.choose();
    let rest = keys.remove(some);
    if rest.len() == 0 {
        assert forall|k: K| keys.contains(k) && k != some implies #[trigger] lt(k, some) by {
            assert(rest.contains(k));
        }
        some
    } else {
        let best = lemma_greatest_key(rest, lt);
        if lt(best, some) {
            assert forall|k: K| keys.contains(k) && k != some implies #[trigger] lt(k, some) by {
                assert(rest.contains(k));
                if k != best {
                    assert(lt(k, best));
                }
            }
            some
        } else {
            assert forall|k: K| keys.contains(k) && k != best implies #[trigger] lt(k, best) by {
                if k != some {
                    assert(rest.contains(k));
                }
            }
            best
        }
    }
}

/// Every finite key set has an ascending listing, so that
/// [`ascending_keys`] lists it.
pub proof fn lemma_ascending_exists<K>(keys: Set<K>, lt: spec_fn(K, K) -> bool)
    requires
        strict_total_order(lt),
        keys.finite(),
    ensures
        lists_keys(ascending_keys(keys, lt), keys, lt),
        ascending_keys(keys, lt).len() == keys.len(),
        ascending_keys(keys, lt).no_duplicates(),
    decreases keys.len(),
{
    if keys.len() == 0 {
        let s = Seq::<K>::empty();
        assert forall|k: K| keys.contains(k) <==> s.contains(k) by {
            if keys.contains(k) {
                assert(keys.len() > 0);
            }
        }
        assert(lists_keys(s, keys, lt));
        lemma_ascending_keys(s, keys, lt);
    } else {
        let top = lemma_greatest_key(keys, lt);
        let rest = keys.remove(top);
        lemma_ascending_exists(rest, lt);
        let below = ascending_keys(rest, lt);
        let s = below.push(top);
        assert forall|i: int, j: int| 0 <= i < j < s.len() implies lt(
            #[trigger] s[i],
            #[trigger] s[j],
        ) by {
            if j < below.len() {
                assert(lt(below[i], below[j]));
            } else {
                assert(below.contains(below[i]));
                assert(rest.contains(below[i]));
            }
        }
        assert forall|k: K| keys.contains(k) <==> s.contains(k) by {
            if keys.contains(k) {
                if k == top {
                    assert(s[below.len() as int] == k);
                } else {
                    assert(rest.contains(k));
                    assert(below.contains(k));
                    let i = choose|i: int| 0 <= i < below.len() && below[i] == k;
                    assert(s[i] == k);
                }
            }
            if s.contains(k) {
                let i = choose|i: int| 0 <= i < s.len() && s[i] == k;
                if i < below.len() {
                    assert(below.contains(below[i]));
                }
            }
        }
        assert(lists_keys(s, keys, lt));
        lemma_ascending_keys(s, keys, lt);
    }
    lemma_ascending_no_duplicates(ascending_keys(keys, lt), lt);
}

} // verus!
