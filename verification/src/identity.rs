//! Caller identities and their order.
//!
//! An identity is an opaque byte string. Identities are ordered first by
//! length and then bytewise, so that a store keyed by identity lists its
//! records in one fixed order.

use crate::order::strict_total_order;
use vstd::prelude::*;

verus! {

/// The principal on whose behalf an operation runs.
#[derive(Debug, PartialEq, Eq)]
pub struct Identity {
    bytes: Vec<u8>,
}

impl View for Identity {
    type V = Seq<u8>;

    closed spec fn view(&self) -> Seq<u8> {
        self.bytes@
    }
}

/// `a` and `b` hold the same byte at every position below `i`.
pub open spec fn agree_before(a: Seq<u8>, b: Seq<u8>, i: int) -> bool {
    forall|j: int| 0 <= j < i ==> #[trigger] a[j] == b[j]
}

/// At the first position where `a` and `b` differ, `a` holds the smaller byte.
pub open spec fn bytes_lt(a: Seq<u8>, b: Seq<u8>) -> bool {
    exists|i: int|
        0 <= i < a.len() && i < b.len() && #[trigger] agree_before(a, b, i) && a[i] < b[i]
}

/// The order of identities: a shorter identity comes first; identities of one
/// length are ordered bytewise.
pub open spec fn identity_lt(a: Seq<u8>, b: Seq<u8>) -> bool {
    a.len() < b.len() || (a.len() == b.len() && bytes_lt(a, b))
}

/// [`identity_lt`] as a value, for the functions of [`crate::order`].
pub open spec fn identity_order() -> spec_fn(Seq<u8>, Seq<u8>) -> bool {
    |a: Seq<u8>, b: Seq<u8>| identity_lt(a, b)
}

/// The first position below `n` at which `a` and `b` differ.
proof fn lemma_first_difference(a: Seq<u8>, b: Seq<u8>, n: int) -> (i: int)
    requires
        0 <= n,
        !agree_before(a, b, n),
    ensures
        0 <= i < n,
        agree_before(a, b, i),
        a[i] != b[i],
    decreases n,
{
    if n == 0 {
        0
    } else if agree_before(a, b, n - 1) {
        n - 1
    } else {
        lemma_first_difference(a, b, n - 1)
    }
}

/// No identity precedes itself.
pub proof fn lemma_identity_lt_irreflexive(a: Seq<u8>)
    ensures
        !identity_lt(a, a),
{
}

/// If `a` precedes `b` and `b` precedes `c`, then `a` precedes `c`.
pub proof fn lemma_identity_lt_transitive(a: Seq<u8>, b: Seq<u8>, c: Seq<u8>)
    requires
        identity_lt(a, b),
        identity_lt(b, c),
    ensures
        identity_lt(a, c),
{
    if a.len() == b.len() && b.len() == c.len() {
        let i = choose|i: int|
            0 <= i < a.len() && i < b.len() && #[trigger] agree_before(a, b, i) && a[i] < b[i];
        let j = choose|j: int|
            0 <= j < b.len() && j < c.len() && #[trigger] agree_before(b, c, j) && b[j] < c[j];
        let m = if i <= j {
            i
        } else {
            j
        };
        assert(agree_before(a, c, m));
        assert(a[m] < c[m]);
    }
}

/// Of two distinct identities one precedes the other.
pub proof fn lemma_identity_lt_total(a: Seq<u8>, b: Seq<u8>)
    requires
        a != b,
    ensures
        identity_lt(a, b) || identity_lt(b, a),
{
    if a.len() == b.len() {
        if agree_before(a, b, a.len() as int) {
            assert(a =~= b);
        }
        let i = lemma_first_difference(a, b, a.len() as int);
        if a[i] < b[i] {
            assert(bytes_lt(a, b));
        } else {
            assert(agree_before(b, a, i));
            assert(bytes_lt(b, a));
        }
    }
}

/// The order of identities is a strict total order.
pub proof fn lemma_identity_order()
    ensures
        strict_total_order(identity_order()),
{
    let lt = identity_order();
    assert forall|a: Seq<u8>| !#[trigger] lt(a, a) by {
        lemma_identity_lt_irreflexive(a);
    }
    assert forall|a: Seq<u8>, b: Seq<u8>, c: Seq<u8>| #[trigger]
        lt(a, b) && #[trigger] lt(b, c) implies lt(a, c) by {
        lemma_identity_lt_transitive(a, b, c);
    }
    assert forall|a: Seq<u8>, b: Seq<u8>| a != b implies #[trigger] lt(a, b) || lt(b, a) by {
        lemma_identity_lt_total(a, b);
    }
}

impl Identity {
    /// The identity made of `bytes`.
    pub fn new(bytes: Vec<u8>) -> (id: Identity)
        ensures
            id@ == bytes@,
    {
        Identity { bytes }
    }

    /// The bytes of this identity.
    pub fn as_bytes(&self) -> (bytes: &Vec<u8>)
        ensures
            bytes@ == self@,
    {
        &self.bytes
    }

    /// Whether the two identities are the same principal.
    pub fn same(&self, other: &Identity) -> (r: bool)
        ensures
            r == (self@ == other@),
    {
        if self.bytes.len() != other.bytes.len() {
            return false;
        }
        let n: usize = self.bytes.len();
        let mut i: usize = 0;
        while i < n
            invariant
                i <= n,
                n == self.bytes@.len(),
                n == other.bytes@.len(),
                agree_before(self.bytes@, other.bytes@, i as int),
            decreases n - i,
        {
            if self.bytes[i] != other.bytes[i] {
                return false;
            }
            i = i + 1;
        }
        assert(self.bytes@ =~= other.bytes@);
        true
    }

    /// Whether this identity comes before `other` in the order of identities.
    pub fn precedes(&self, other: &Identity) -> (r: bool)
        ensures
            r == identity_lt(self@, other@),
    {
        if self.bytes.len() != other.bytes.len() {
            return self.bytes.len() < other.bytes.len();
        }
        let n: usize = self.bytes.len();
        let mut i: usize = 0;
        while i < n
            invariant
                i <= n,
                n == self.bytes@.len(),
                n == other.bytes@.len(),
                agree_before(self.bytes@, other.bytes@, i as int),
            decreases n - i,
        {
            if self.bytes[i] != other.bytes[i] {
                proof {
                    let a = self.bytes@;
                    let b = other.bytes@;
                    if a[i as int] < b[i as int] {
                        assert(bytes_lt(a, b));
                    } else {
                        assert forall|k: int|
                            0 <= k < a.len() && k < b.len() && #[trigger] agree_before(
                                a,
                                b,
                                k,
                            ) implies !(a[k] < b[k]) by {
                            if k > i {
                                assert(a[i as int] == b[i as int]);
                            }
                        }
                    }
                }
                return self.bytes[i] < other.bytes[i];
            }
            i = i + 1;
        }
        proof {
            assert(self.bytes@ =~= other.bytes@);
            lemma_identity_lt_irreflexive(self.bytes@);
        }
        false
    }
}

impl Clone for Identity {
    fn clone(&self) -> (id: Self)
        ensures
            id@ == self@,
    {
        Identity { bytes: self.bytes.clone() }
    }
}

} // verus!
