//! Merkle paths: from a leaf to the root by a list of siblings.

use crate::field::FieldElement;
use crate::poseidon::{node, node_hash, PoseidonParams, PoseidonParamsView};
use vstd::prelude::*;

verus! {

/// A Merkle path as values: sibling and side, from the leaf upwards.
pub open spec fn path_values(path: Seq<(FieldElement, bool)>) -> Seq<(nat, bool)> {
    Seq::new(path.len(), |i: int| (path[i].0@, path[i].1))
}

/// The node above `current` and a sibling that stands on the left where
/// `is_left` holds, on the right where it does not.
pub open spec fn parent(params: PoseidonParamsView, current: nat, sibling: nat, is_left: bool) -> nat {
    if is_left {
        node(params, sibling, current)
    } else {
        node(params, current, sibling)
    }
}

/// The root that a path leads to from a leaf.
pub open spec fn merkle_root(params: PoseidonParamsView, leaf: nat, path: Seq<(nat, bool)>) -> nat
    decreases path.len(),
{
    if path.len() == 0 {
        leaf
    } else {
        parent(params, merkle_root(params, leaf, path.drop_last()), path.last().0, path.last().1)
    }
}

/// Walks a path from a leaf to the root.
pub fn compute_root(params: &PoseidonParams, leaf: FieldElement, path: &Vec<(FieldElement, bool)>) -> (root:
    FieldElement)
    ensures
        root@ == merkle_root(params@, leaf@, path_values(path@)),
        root.valid(),
{
    let mut current = leaf;
    let mut idx: usize = 0;
    proof {
        use_type_invariant(&leaf);
        assert(path_values(path@).subrange(0, 0) =~= Seq::<(nat, bool)>::empty());
    }
    while idx < path.len()
        invariant
            idx <= path@.len(),
            current.valid(),
            current@ == merkle_root(params@, leaf@, path_values(path@).subrange(0, idx as int)),
        decreases path@.len() - idx,
    {
        let sibling = path[idx].0;
        let is_left = path[idx].1;
        proof {
            let upto = path_values(path@).subrange(0, idx + 1);
            assert(upto.drop_last() =~= path_values(path@).subrange(0, idx as int));
            assert(upto.last() == (sibling@, is_left));
        }
        current =
        if is_left {
            node_hash(params, sibling, current)
        } else {
            node_hash(params, current, sibling)
        };
        idx = idx + 1;
    }
    assert(path_values(path@).subrange(0, idx as int) =~= path_values(path@));
    current
}

} // verus!
