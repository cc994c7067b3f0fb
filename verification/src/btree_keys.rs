//! What the key iterator of a `BTreeMap` yields, in plain terms.

use vstd::prelude::*;
use vstd::std_specs::btree::{axiom_increasing_seq_meaning, increasing_seq};
use vstd::std_specs::cmp::OrdSpec;

verus! {

/// In an increasing sequence each element compares as less than every later
/// one.
proof fn lemma_increasing_at<K: Ord>(s: Seq<K>, i: int, j: int)
    requires
        vstd::laws_cmp::obeys_cmp::<K>(),
        increasing_seq(s),
        0 <= i < j < s.len(),
    ensures
        s[i].cmp_spec(&s[j]) is Less,
{
    axiom_increasing_seq_meaning::<K>(s);
}

/// An increasing sequence of skill ids ascends by `<`.
pub proof fn lemma_skill_ids_ascend(s: Seq<&u16>)
    requires
        increasing_seq(s),
    ensures
        forall|i: int, j: int| 0 <= i < j < s.len() ==> *#[trigger] s[i] < *#[trigger] s[j],
{
    assert(vstd::laws_cmp::obeys_cmp::<&u16>());
    assert forall|i: int, j: int| 0 <= i < j < s.len() implies *#[trigger] s[i] < *#[trigger] s[j] by {
        lemma_increasing_at::<&u16>(s, i, j);
    }
}

} // verus!
