//! Facts about walking a `BTreeMap` keyed by integers.
use vstd::prelude::*;
use vstd::std_specs::btree::{axiom_increasing_seq_meaning, increasing_seq};

verus! {

/// Walking a map yields its keys in increasing order.
pub proof fn lemma_keys_increase<V>(s: Seq<(&u64, &V)>, i: int, j: int)
    requires
        increasing_seq(s.map_values(|kv: (&u64, &V)| *kv.0)),
        0 <= i < j < s.len(),
    ensures
        *s[i].0 < *s[j].0,
{
    let ks = s.map_values(|kv: (&u64, &V)| *kv.0);
    assert(ks[i] == *s[i].0);
    assert(ks[j] == *s[j].0);
    assert(vstd::laws_cmp::obeys_cmp::<u64>());
    axiom_increasing_seq_meaning::<u64>(ks);
    assert(vstd::std_specs::cmp::OrdSpec::cmp_spec(&ks[i], &ks[j]) is Less);
}

} // verus!
