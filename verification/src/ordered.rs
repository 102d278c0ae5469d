use vstd::prelude::*;
use vstd::std_specs::btree::{increasing_seq, key_obeys_cmp_spec};
use vstd::std_specs::cmp::OrdSpec;

verus! {

/// `keys` lists the members of `dom` once each, in increasing order: the
/// order in which a `BTreeMap` or `BTreeSet` keyed by `u32` hands them out.
pub open spec fn key_order(keys: Seq<u32>, dom: Set<u32>) -> bool {
    &&& keys.to_set() == dom
    &&& forall|i: int, j: int| 0 <= i < j < keys.len() ==> keys[i] < keys[j]
}

pub proof fn lemma_u32_keys_ordered()
    ensures
        key_obeys_cmp_spec::<u32>(),
{
    assert(vstd::laws_cmp::obeys_cmp::<u32>());
}

pub proof fn lemma_increasing_u32(keys: Seq<u32>)
    requires
        increasing_seq(keys),
    ensures
        forall|i: int, j: int| 0 <= i < j < keys.len() ==> keys[i] < keys[j],
{
    assert(vstd::laws_cmp::obeys_cmp::<u32>());
    assert forall|i: int, j: int| 0 <= i < j < keys.len() implies keys[i] < keys[j] by {
        assert(keys[i].cmp_spec(&keys[j]) is Less);
    }
}

} // verus!

verus! {

pub proof fn lemma_increasing_u32_refs(keys: Seq<&u32>)
    requires
        increasing_seq(keys),
    ensures
        forall|i: int, j: int| 0 <= i < j < keys.len() ==> *keys[i] < *keys[j],
{
    assert(vstd::laws_cmp::obeys_cmp::<u32>());
    assert(vstd::laws_cmp::obeys_cmp::<&u32>());
    assert forall|i: int, j: int| 0 <= i < j < keys.len() implies *keys[i] < *keys[j] by {
        assert(OrdSpec::cmp_spec(&keys[i], &keys[j]) is Less);
    }
}

} // verus!
