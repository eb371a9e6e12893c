use vstd::prelude::*;
use std::collections::{BTreeMap, BTreeSet};
use vstd::std_specs::cmp::OrdSpec;
use vstd::std_specs::iter::IteratorSpec;
use crate::room::ascending;
use crate::waiting::PlayerId;

verus! {

broadcast use {vstd::std_specs::btree::group_btree_axioms, vstd::laws_cmp::group_laws_cmp};

/// The members of `set`, ascending.
pub fn members(set: &BTreeSet<PlayerId>) -> (r: Vec<PlayerId>)
    ensures
        ascending(r@),
        r@.to_set() == set@,
        r@.len() == set@.len(),
{
    let mut out: Vec<PlayerId> = Vec::new();
    let ghost all: Seq<&PlayerId> = vstd::std_specs::btree::spec_btree_keys_iter(set).remaining();
    for id in it: set.iter()
        invariant
            it.seq() == all,
            out@ == all.unref().take(it.index()),
    {
        out.push(*id);
        assert(out@ =~= all.unref().take(it.index() + 1));
    }
    assert(out@ =~= all.unref());
    assert(ascending(out@)) by {
        assert(vstd::std_specs::btree::increasing_seq(all));
        assert(vstd::laws_cmp::obeys_cmp::<&PlayerId>());
        assert forall|i: int, j: int| 0 <= i < j < out@.len() implies out@[i] < out@[j] by {
            assert(OrdSpec::cmp_spec(&all[i], &all[j]) is Less);
        }
    }
    out
}

/// The keys of `map`, ascending.
pub fn keys_of<V>(map: &BTreeMap<PlayerId, V>) -> (r: Vec<PlayerId>)
    ensures
        ascending(r@),
        r@.to_set() == map@.dom(),
        r@.len() == map@.dom().len(),
{
    let mut out: Vec<PlayerId> = Vec::new();
    let ghost all: Seq<&PlayerId> = vstd::std_specs::btree::spec_keys_iter(map).remaining();
    for id in it: map.keys()
        invariant
            it.seq() == all,
            out@ == all.unref().take(it.index()),
    {
        out.push(*id);
        assert(out@ =~= all.unref().take(it.index() + 1));
    }
    assert(out@ =~= all.unref());
    assert(ascending(out@)) by {
        assert(vstd::std_specs::btree::increasing_seq(all));
        assert(vstd::laws_cmp::obeys_cmp::<&PlayerId>());
        assert forall|i: int, j: int| 0 <= i < j < out@.len() implies out@[i] < out@[j] by {
            assert(OrdSpec::cmp_spec(&all[i], &all[j]) is Less);
        }
    }
    out
}

} // verus!
