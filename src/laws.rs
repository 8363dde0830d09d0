//! Laws of the node query and of the merge of multiproofs.
use vstd::prelude::*;
use crate::multiproof::{
    MultiProofView, StorageMultiProofView, extend_spec, merge_storage_spec, merge_storages_spec,
};
use crate::nodes::{matching_spec, matching_upto};
use crate::primitives::is_prefix;

verus! {

proof fn lemma_matching_upto<V>(m: Map<Seq<u8>, V>, t: Seq<u8>, n: nat)
    requires
        n <= t.len() + 1,
    ensures
        forall|i: int, j: int|
            0 <= i < j < matching_upto(m, t, n).len() ==> (#[trigger] matching_upto(m, t, n)[i]).0.len()
                < (#[trigger] matching_upto(m, t, n)[j]).0.len(),
        forall|i: int|
            0 <= i < matching_upto(m, t, n).len() ==> {
                let e = #[trigger] matching_upto(m, t, n)[i];
                &&& e.0.len() < n
                &&& is_prefix(e.0, t)
                &&& m.contains_key(e.0)
                &&& e.1 == m[e.0]
            },
        forall|k: Seq<u8>|
            m.contains_key(k) && is_prefix(k, t) && k.len() < n ==> exists|i: int|
                0 <= i < matching_upto(m, t, n).len() && (#[trigger] matching_upto(m, t, n)[i]).0
                    == k,
    decreases n,
{
    if n > 0 {
        let p = t.subrange(0, n - 1);
        lemma_matching_upto(m, t, (n - 1) as nat);
        let rest = matching_upto(m, t, (n - 1) as nat);
        assert forall|k: Seq<u8>|
            m.contains_key(k) && is_prefix(k, t) && k.len() < n implies exists|i: int|
                0 <= i < matching_upto(m, t, n).len() && (#[trigger] matching_upto(m, t, n)[i]).0
                    == k by {
            if k.len() == n - 1 {
                assert(k =~= p);
                let i = matching_upto(m, t, n).len() - 1;
                assert(matching_upto(m, t, n)[i].0 == k);
            } else {
                let i = choose|i: int| 0 <= i < rest.len() && (#[trigger] rest[i]).0 == k;
                assert(matching_upto(m, t, n)[i] == rest[i]);
            }
        }
        if m.contains_key(p) {
            assert(forall|i: int| 0 <= i < rest.len() ==> matching_upto(m, t, n)[i] == rest[i]);
        }
    }
}

/// The entries that the node query returns for a target path are exactly the
/// stored entries whose path is a prefix of the target, each with its node, in
/// strictly ascending order of path length (root first, deepest last).
pub proof fn lemma_matching_nodes_ordered<V>(m: Map<Seq<u8>, V>, t: Seq<u8>)
    ensures
        forall|i: int, j: int|
            0 <= i < j < matching_spec(m, t).len() ==> (#[trigger] matching_spec(m, t)[i]).0.len()
                < (#[trigger] matching_spec(m, t)[j]).0.len(),
        forall|i: int|
            0 <= i < matching_spec(m, t).len() ==> {
                let e = #[trigger] matching_spec(m, t)[i];
                &&& is_prefix(e.0, t)
                &&& m.contains_key(e.0)
                &&& e.1 == m[e.0]
            },
        forall|k: Seq<u8>|
            m.contains_key(k) && is_prefix(k, t) ==> exists|i: int|
                0 <= i < matching_spec(m, t).len() && (#[trigger] matching_spec(m, t)[i]).0 == k,
{
    lemma_matching_upto(m, t, t.len() + 1);
    assert forall|k: Seq<u8>| m.contains_key(k) && is_prefix(k, t) implies exists|i: int|
        0 <= i < matching_spec(m, t).len() && (#[trigger] matching_spec(m, t)[i]).0 == k by {
        let n = (t.len() + 1) as nat;
        assert(k.len() < n);
        assert(matching_spec(m, t) == matching_upto(m, t, n));
        let i = choose|i: int|
            0 <= i < matching_upto(m, t, n).len() && (#[trigger] matching_upto(m, t, n)[i]).0 == k;
        assert(matching_spec(m, t)[i].0 == k);
    }
}

/// Merging two multiproofs whose account nodes, masks and storage accounts lie
/// at disjoint keys gives the same result in either order; in particular the
/// merged account nodes, and so every node query on them, agree.
pub proof fn lemma_extend_commutes_on_disjoint(a: MultiProofView, b: MultiProofView)
    requires
        a.account_subtree.dom().disjoint(b.account_subtree.dom()),
        a.hash_masks.dom().disjoint(b.hash_masks.dom()),
        a.tree_masks.dom().disjoint(b.tree_masks.dom()),
        a.storages.dom().disjoint(b.storages.dom()),
    ensures
        extend_spec(a, b) == extend_spec(b, a),
        forall|t: Seq<u8>|
            matching_spec(extend_spec(a, b).account_subtree, t) == #[trigger] matching_spec(
                extend_spec(b, a).account_subtree,
                t,
            ),
{
    assert(a.account_subtree.union_prefer_right(b.account_subtree) =~= b.account_subtree.union_prefer_right(
        a.account_subtree,
    )) by {
        assert forall|k| #[trigger] a.account_subtree.contains_key(k) implies !b.account_subtree.contains_key(k) by {
            assert(a.account_subtree.dom().contains(k));
        }
    }
    assert(a.hash_masks.union_prefer_right(b.hash_masks) =~= b.hash_masks.union_prefer_right(
        a.hash_masks,
    )) by {
        assert forall|k| #[trigger] a.hash_masks.contains_key(k) implies !b.hash_masks.contains_key(k) by {
            assert(a.hash_masks.dom().contains(k));
        }
    }
    assert(a.tree_masks.union_prefer_right(b.tree_masks) =~= b.tree_masks.union_prefer_right(
        a.tree_masks,
    )) by {
        assert forall|k| #[trigger] a.tree_masks.contains_key(k) implies !b.tree_masks.contains_key(k) by {
            assert(a.tree_masks.dom().contains(k));
        }
    }
    assert(merge_storages_spec(a.storages, b.storages) =~= merge_storages_spec(b.storages, a.storages))
        by {
        assert forall|k| #[trigger] a.storages.contains_key(k) implies !b.storages.contains_key(k) by {
            assert(a.storages.dom().contains(k));
        }
    }
}

/// Merging a multiproof with itself changes nothing.
pub proof fn lemma_extend_idempotent(a: MultiProofView)
    ensures
        extend_spec(a, a) == a,
{
    assert(a.account_subtree.union_prefer_right(a.account_subtree) =~= a.account_subtree);
    assert(a.hash_masks.union_prefer_right(a.hash_masks) =~= a.hash_masks);
    assert(a.tree_masks.union_prefer_right(a.tree_masks) =~= a.tree_masks);
    assert forall|k| #[trigger] a.storages.contains_key(k) implies merge_storage_spec(
        a.storages[k],
        a.storages[k],
    ) == a.storages[k] by {
        let s: StorageMultiProofView = a.storages[k];
        assert(s.subtree.union_prefer_right(s.subtree) =~= s.subtree);
        assert(s.hash_masks.union_prefer_right(s.hash_masks) =~= s.hash_masks);
        assert(s.tree_masks.union_prefer_right(s.tree_masks) =~= s.tree_masks);
    }
    assert(merge_storages_spec(a.storages, a.storages) =~= a.storages);
}

} // verus!
