//! Multiproofs over the state trie and the storage tries: extraction of
//! single proofs, and merge.
use vstd::prelude::*;
use crate::codec::{
    DecodedNode, NodeView, bytes_list_view, decode_node, decode_trie_account, decode_u256,
    empty_root_hash, empty_root_spec, keccak, keccak_empty, keccak_empty_spec, keccak_of,
    node_decode_of, trie_account_decode_of, u256_decode_of,
};
use crate::maps::{MaskMap, fold_map, lemma_fold_absent, lemma_fold_distinct, lemma_fold_push};
use crate::nodes::{
    DecodedNodeMap, NodeMap, decoded_entries_view, matching_spec, nodes_of, raw_entries_view,
};
use crate::primitives::{Address, B256, Nibbles, U256, bytes_to_vec, unpack_spec};
use crate::witness::{
    Account, AccountProof, AccountProofView, AccountView, DecodedStorageProof,
    DecodedStorageProofView, StorageProof, StorageProofView, absent_slot_proof,
};

verus! {

/// The leaf value that the entries on `path` (root first) end on: `None` when
/// the last node does not decode, `Some(None)` when there is no entry or the
/// last is not a leaf whose own path followed by its key is exactly `path`.
pub open spec fn leaf_value_spec(entries: Seq<(Seq<u8>, Seq<u8>)>, path: Seq<u8>) -> Option<
    Option<Seq<u8>>,
> {
    if entries.len() == 0 {
        Some(None)
    } else {
        match node_decode_of(entries.last().1) {
            None => None,
            Some(NodeView::Leaf { key, value }) => if entries.last().0 + key == path {
                Some(Some(value))
            } else {
                Some(None)
            },
            Some(_) => Some(None),
        }
    }
}

/// The same for entries of decoded nodes, which need no decoding.
pub open spec fn decoded_leaf_value_spec(entries: Seq<(Seq<u8>, NodeView)>, path: Seq<u8>) -> Option<
    Seq<u8>,
> {
    if entries.len() == 0 {
        None
    } else {
        match entries.last().1 {
            NodeView::Leaf { key, value } => if entries.last().0 + key == path {
                Some(value)
            } else {
                None
            },
            _ => None,
        }
    }
}

pub open spec fn zero_limbs() -> Seq<u64> {
    seq![0u64, 0u64, 0u64, 0u64]
}

/// A slot's value from the leaf found (zero when none); `None` when decoding fails.
pub open spec fn slot_value_of(leaf: Option<Seq<u8>>) -> Option<Seq<u64>> {
    match leaf {
        None => Some(zero_limbs()),
        Some(v) => u256_decode_of(v),
    }
}

/// The account that a decoded record denotes: the empty-code hash stands for no code.
pub open spec fn account_of_record(rec: (u64, Seq<u64>, Seq<u8>, Seq<u8>)) -> AccountView {
    AccountView {
        balance: rec.1,
        nonce: rec.0,
        bytecode_hash: if rec.3 == keccak_empty_spec() {
            None
        } else {
            Some(rec.3)
        },
    }
}

/// An account's fields from the entries on its path: `Some(None)` when it is
/// proven absent, `None` when decoding fails.
pub open spec fn account_info_spec(entries: Seq<(Seq<u8>, Seq<u8>)>, path: Seq<u8>) -> Option<
    Option<AccountView>,
> {
    match leaf_value_spec(entries, path) {
        None => None,
        Some(None) => Some(None),
        Some(Some(v)) => match trie_account_decode_of(v) {
            None => None,
            Some(rec) => Some(Some(account_of_record(rec))),
        },
    }
}

/// The proof of `slot` that a storage trie's nodes give; `None` when decoding fails.
pub open spec fn storage_proof_spec(subtree: Map<Seq<u8>, Seq<u8>>, slot: Seq<u8>) -> Option<
    StorageProofView,
> {
    let path = unpack_spec(keccak_of(slot));
    let entries = matching_spec(subtree, path);
    let proof = nodes_of(entries);
    match leaf_value_spec(entries, path) {
        None => None,
        Some(leaf) => match slot_value_of(leaf) {
            None => None,
            Some(value) => Some(StorageProofView { key: slot, nibbles: path, value, proof }),
        },
    }
}

/// The proof of `slot` that a storage trie's decoded nodes give; `None` when
/// decoding the value fails.
pub open spec fn decoded_storage_proof_spec(subtree: Map<Seq<u8>, NodeView>, slot: Seq<u8>) -> Option<
    DecodedStorageProofView,
> {
    let path = unpack_spec(keccak_of(slot));
    let entries = matching_spec(subtree, path);
    let proof = nodes_of(entries);
    match slot_value_of(decoded_leaf_value_spec(entries, path)) {
        None => None,
        Some(value) => Some(DecodedStorageProofView { key: slot, nibbles: path, value, proof }),
    }
}

/// A storage multiproof as plain values.
pub struct StorageMultiProofView {
    pub root: Seq<u8>,
    pub subtree: Map<Seq<u8>, Seq<u8>>,
    pub hash_masks: Map<Seq<u8>, u16>,
    pub tree_masks: Map<Seq<u8>, u16>,
}

/// The proof of any number of slots of one storage trie.
pub struct StorageMultiProof {
    pub root: B256,
    pub subtree: NodeMap,
    pub branch_node_hash_masks: MaskMap,
    pub branch_node_tree_masks: MaskMap,
}

impl View for StorageMultiProof {
    type V = StorageMultiProofView;

    open spec fn view(&self) -> StorageMultiProofView {
        StorageMultiProofView {
            root: self.root.bytes@,
            subtree: self.subtree@,
            hash_masks: self.branch_node_hash_masks@,
            tree_masks: self.branch_node_tree_masks@,
        }
    }
}

/// Two storage multiproofs merged: the first's root, the union of nodes and masks,
/// the second's entry kept where both have one.
pub open spec fn merge_storage_spec(a: StorageMultiProofView, b: StorageMultiProofView) -> StorageMultiProofView {
    StorageMultiProofView {
        root: a.root,
        subtree: a.subtree.union_prefer_right(b.subtree),
        hash_masks: a.hash_masks.union_prefer_right(b.hash_masks),
        tree_masks: a.tree_masks.union_prefer_right(b.tree_masks),
    }
}

/// The nodes of an empty trie: the empty node at the root.
pub open spec fn empty_trie_nodes() -> Map<Seq<u8>, Seq<u8>> {
    Map::<Seq<u8>, Seq<u8>>::empty().insert(Seq::empty(), seq![0x80u8])
}

impl StorageMultiProof {
    /// The multiproof of an empty storage trie.
    pub fn empty() -> (r: StorageMultiProof)
        ensures
            r@ == (StorageMultiProofView {
                root: empty_root_spec(),
                subtree: empty_trie_nodes(),
                hash_masks: Map::empty(),
                tree_masks: Map::empty(),
            }),
    {
        let mut subtree = NodeMap::new();
        let mut node: Vec<u8> = Vec::new();
        node.push(0x80u8);
        subtree.insert(Nibbles::root(), node);
        assert(subtree@ =~= empty_trie_nodes());
        StorageMultiProof {
            root: empty_root_hash(),
            subtree,
            branch_node_hash_masks: MaskMap::new(),
            branch_node_tree_masks: MaskMap::new(),
        }
    }

    /// The proof of `slot` (not hashed): the nodes along the path of its hash,
    /// root first, and the value in the leaf they end on, zero when there is none.
    pub fn storage_proof(&self, slot: B256) -> (r: Result<StorageProof, alloy_rlp::Error>)
        ensures
            r is Ok <==> storage_proof_spec(self.subtree@, slot.bytes@) is Some,
            r matches Ok(p) ==> p@ == storage_proof_spec(self.subtree@, slot.bytes@).unwrap()
                && p.nibbles.wf(),
            self.subtree@ == empty_trie_nodes() ==> (r matches Ok(p) && p.value.is_zero_spec()
                && p@.proof == seq![seq![0x80u8]]),
    {
        let hashed = keccak(slot.bytes.as_slice());
        let nibbles = Nibbles::unpack(&hashed);
        let entries = self.subtree.matching_nodes_sorted(&nibbles);
        let ghost m = matching_spec(self.subtree@, nibbles@);
        let proof = entry_nodes(&entries);
        let ghost pv = nodes_of(m);
        assert(bytes_list_view(proof@) == pv);
        proof {
            if self.subtree@ == empty_trie_nodes() {
                lemma_matching_root_only(seq![0x80u8], nibbles@);
                assert(pv =~= seq![seq![0x80u8]]);
            }
        }
        let mut value = U256::zero();
        if entries.len() > 0 {
            let last = &entries[entries.len() - 1];
            assert(raw_entries_view(entries@).last() == (last.0@, last.1@));
            assert(pv.last() == last.1@);
            let node = decode_node(last.1.as_slice())?;
            match node {
                DecodedNode::Leaf { key, value: v } => {
                    if nibbles.is_joined(&last.0, &key) {
                        value = decode_u256(v.as_slice())?;
                    }
                },
                _ => {},
            }
        }
        Ok(StorageProof { key: slot, nibbles, value, proof })
    }
}

/// The nodes of a list of entries, in order.
fn entry_nodes(entries: &Vec<(Nibbles, Vec<u8>)>) -> (r: Vec<Vec<u8>>)
    ensures
        bytes_list_view(r@) == nodes_of(raw_entries_view(entries@)),
{
    let mut r: Vec<Vec<u8>> = Vec::new();
    let mut i: usize = 0;
    while i < entries.len()
        invariant
            i <= entries@.len(),
            bytes_list_view(r@) == nodes_of(raw_entries_view(entries@)).take(i as int),
        decreases entries@.len() - i,
    {
        let node = bytes_to_vec(entries[i].1.as_slice());
        let ghost before = r@;
        r.push(node);
        assert(r@ == before.push(node));
        assert(bytes_list_view(before.push(node)) =~= bytes_list_view(before).push(node@));
        assert(nodes_of(raw_entries_view(entries@))[i as int] == entries@[i as int].1@);
        assert(bytes_list_view(r@) =~= nodes_of(raw_entries_view(entries@)).take(i + 1));
        i = i + 1;
    }
    assert(nodes_of(raw_entries_view(entries@)).take(i as int) =~= nodes_of(
        raw_entries_view(entries@),
    ));
    r
}

/// The entries of a container that holds one node, at the root, on any path:
/// that node alone.
pub proof fn lemma_matching_root_only<V>(v: V, t: Seq<u8>)
    ensures
        matching_spec(Map::<Seq<u8>, V>::empty().insert(Seq::empty(), v), t) == seq![
            (Seq::<u8>::empty(), v),
        ],
{
    lemma_matching_single_root(Map::<Seq<u8>, V>::empty().insert(Seq::empty(), v), v, t, t.len() + 1);
}

proof fn lemma_matching_single_root<V>(m: Map<Seq<u8>, V>, v: V, t: Seq<u8>, n: nat)
    requires
        m == Map::<Seq<u8>, V>::empty().insert(Seq::empty(), v),
        1 <= n <= t.len() + 1,
    ensures
        crate::nodes::matching_upto(m, t, n) == seq![(Seq::<u8>::empty(), v)],
    decreases n,
{
    if n == 1 {
        assert(t.subrange(0, 0) =~= Seq::<u8>::empty());
        assert(crate::nodes::matching_upto(m, t, 0) =~= Seq::empty());
        assert(crate::nodes::matching_upto(m, t, 1) =~= seq![(Seq::<u8>::empty(), v)]);
    } else {
        lemma_matching_single_root(m, v, t, (n - 1) as nat);
        assert(t.subrange(0, n - 1).len() > 0);
        assert(!m.contains_key(t.subrange(0, n - 1)));
    }
}

} // verus!

verus! {

/// A decoded storage multiproof as plain values.
pub struct DecodedStorageMultiProofView {
    pub root: Seq<u8>,
    pub subtree: Map<Seq<u8>, NodeView>,
    pub hash_masks: Map<Seq<u8>, u16>,
    pub tree_masks: Map<Seq<u8>, u16>,
}

/// The proof of any number of slots of one storage trie, with the nodes decoded.
pub struct DecodedStorageMultiProof {
    pub root: B256,
    pub subtree: DecodedNodeMap,
    pub branch_node_hash_masks: MaskMap,
    pub branch_node_tree_masks: MaskMap,
}

impl View for DecodedStorageMultiProof {
    type V = DecodedStorageMultiProofView;

    open spec fn view(&self) -> DecodedStorageMultiProofView {
        DecodedStorageMultiProofView {
            root: self.root.bytes@,
            subtree: self.subtree@,
            hash_masks: self.branch_node_hash_masks@,
            tree_masks: self.branch_node_tree_masks@,
        }
    }
}

/// The decoded nodes of an empty trie: the empty node at the root.
pub open spec fn empty_trie_decoded_nodes() -> Map<Seq<u8>, NodeView> {
    Map::<Seq<u8>, NodeView>::empty().insert(Seq::empty(), NodeView::EmptyRoot)
}

impl DecodedStorageMultiProof {
    /// The multiproof of an empty storage trie.
    pub fn empty() -> (r: DecodedStorageMultiProof)
        ensures
            r@ == (DecodedStorageMultiProofView {
                root: empty_root_spec(),
                subtree: empty_trie_decoded_nodes(),
                hash_masks: Map::empty(),
                tree_masks: Map::empty(),
            }),
    {
        let mut subtree = DecodedNodeMap::new();
        let mut node: Vec<u8> = Vec::new();
        node.push(0x80u8);
        assert(node@ =~= crate::codec::empty_node_spec());
        let _ = subtree.insert_encoded(Nibbles::root(), node);
        assert(subtree@ =~= empty_trie_decoded_nodes());
        DecodedStorageMultiProof {
            root: empty_root_hash(),
            subtree,
            branch_node_hash_masks: MaskMap::new(),
            branch_node_tree_masks: MaskMap::new(),
        }
    }

    /// The proof of `slot` (not hashed): the decoded nodes along the path of its
    /// hash, root first, and the value in the leaf they end on, zero when there is none.
    pub fn storage_proof(&self, slot: B256) -> (r: Result<DecodedStorageProof, alloy_rlp::Error>)
        ensures
            r is Ok <==> decoded_storage_proof_spec(self.subtree@, slot.bytes@) is Some,
            r matches Ok(p) ==> p@ == decoded_storage_proof_spec(self.subtree@, slot.bytes@).unwrap()
                && p.nibbles.wf(),
            self.subtree@ == empty_trie_decoded_nodes() ==> (r matches Ok(p) && p.value.is_zero_spec()
                && p@.proof == seq![NodeView::EmptyRoot]),
    {
        let hashed = keccak(slot.bytes.as_slice());
        let nibbles = Nibbles::unpack(&hashed);
        let mut entries = self.subtree.matching_nodes_sorted(&nibbles);
        let ghost pv = nodes_of(matching_spec(self.subtree@, nibbles@));
        let ghost e0 = decoded_entries_view(entries@);
        let last_path = if entries.len() > 0 {
            entries[entries.len() - 1].0.duplicate()
        } else {
            Nibbles::root()
        };
        assert(entries@.len() > 0 ==> last_path@ == e0.last().0);
        let mut proof: Vec<DecodedNode> = Vec::new();
        let ghost mut i: int = 0;
        while entries.len() > 0
            invariant
                0 <= i <= e0.len(),
                decoded_entries_view(entries@) == e0.skip(i),
                proof@.map_values(|n: DecodedNode| n@) == nodes_of(e0).take(i),
                pv == nodes_of(e0),
            decreases entries@.len(),
        {
            let ghost before = proof@;
            let ghost ev = entries@;
            assert(decoded_entries_view(ev).len() == ev.len());
            assert(e0.skip(i).len() == e0.len() - i);
            assert(i < e0.len());
            let (_, node) = entries.remove(0);
            assert(node == ev[0].1);
            assert(decoded_entries_view(ev)[0] == e0.skip(i)[0]);
            assert(node@ == e0[i].1);
            proof.push(node);
            assert(proof@.map_values(|n: DecodedNode| n@) =~= before.map_values(
                |n: DecodedNode| n@,
            ).push(node@));
            assert(nodes_of(e0).take(i + 1) =~= nodes_of(e0).take(i).push(e0[i].1));
            assert(entries@ == ev.remove(0));
            assert forall|j: int| 0 <= j < entries@.len() implies decoded_entries_view(entries@)[j]
                == e0.skip(i + 1)[j] by {
                assert(entries@[j] == ev[j + 1]);
                assert(decoded_entries_view(ev)[j + 1] == e0.skip(i)[j + 1]);
            }
            assert(decoded_entries_view(entries@) =~= e0.skip(i + 1));
            proof {
                i = i + 1;
            }
        }
        assert(nodes_of(e0).take(i) =~= nodes_of(e0));
        proof {
            if self.subtree@ == empty_trie_decoded_nodes() {
                lemma_matching_root_only(NodeView::EmptyRoot, nibbles@);
                assert(pv =~= seq![NodeView::EmptyRoot]);
            }
        }
        let mut value = U256::zero();
        if proof.len() > 0 {
            let last = &proof[proof.len() - 1];
            assert(last@ == pv.last());
            match last {
                DecodedNode::Leaf { key, value: v } => {
                    if nibbles.is_joined(&last_path, key) {
                        value = decode_u256(v.as_slice())?;
                    }
                },
                _ => {},
            }
        }
        Ok(DecodedStorageProof { key: slot, nibbles, value, proof })
    }
}

} // verus!

verus! {

impl StorageMultiProof {
    /// Merges `other` into this proof: nodes and masks are unioned, `other`'s kept
    /// at a path that both hold; the root stays this proof's.
    pub fn merge_from(&mut self, other: StorageMultiProof)
        ensures
            final(self)@ == merge_storage_spec(old(self)@, other@),
    {
        self.subtree.extend_from(other.subtree);
        self.branch_node_hash_masks.extend(other.branch_node_hash_masks);
        self.branch_node_tree_masks.extend(other.branch_node_tree_masks);
    }
}

/// The view of a list of storage entries.
pub open spec fn storage_entries_view(s: Seq<(B256, StorageMultiProof)>) -> Seq<
    (Seq<u8>, StorageMultiProofView),
> {
    s.map_values(|e: (B256, StorageMultiProof)| (e.0.bytes@, e.1@))
}

/// Two maps of storage multiproofs merged: an account in both gets the merge
/// of its two proofs, any other keeps its own.
pub open spec fn merge_storages_spec(
    m: Map<Seq<u8>, StorageMultiProofView>,
    o: Map<Seq<u8>, StorageMultiProofView>,
) -> Map<Seq<u8>, StorageMultiProofView> {
    Map::new(
        |k: Seq<u8>| m.contains_key(k) || o.contains_key(k),
        |k: Seq<u8>|
            if m.contains_key(k) && o.contains_key(k) {
                merge_storage_spec(m[k], o[k])
            } else if m.contains_key(k) {
                m[k]
            } else {
                o[k]
            },
    )
}

/// Storage multiproofs by hashed account address, held in alloy's `B256Map`.
#[verifier::external_body]
pub struct StorageMap {
    inner: alloy_primitives::map::B256Map<StorageMultiProof>,
}

/// What a `StorageMap` holds: the view of each proof by account hash.
pub uninterp spec fn storage_contents(storages: StorageMap) -> Map<Seq<u8>, StorageMultiProofView>;

impl View for StorageMap {
    type V = Map<Seq<u8>, StorageMultiProofView>;

    open spec fn view(&self) -> Map<Seq<u8>, StorageMultiProofView> {
        storage_contents(*self)
    }
}

/// Relies on `Default` of alloy_primitives' `B256Map`: no entry.
#[verifier::external_body]
fn storages_new() -> (r: StorageMap)
    ensures
        storage_contents(r).dom() == Set::<Seq<u8>>::empty(),
{
    StorageMap { inner: alloy_primitives::map::B256Map::default() }
}

/// Relies on `HashMap::get`: the proof stored under a key, if any.
#[verifier::external_body]
fn storages_get<'a>(storages: &'a StorageMap, key: &B256) -> (r: Option<&'a StorageMultiProof>)
    ensures
        r is Some <==> storage_contents(*storages).contains_key(key.bytes@),
        r matches Some(p) ==> p@ == storage_contents(*storages)[key.bytes@],
{
    storages.inner.get(&alloy_primitives::B256::new(key.bytes))
}

/// Relies on `HashMap::insert`, which adds or replaces the proof under a key.
#[verifier::external_body]
fn storages_insert(storages: &mut StorageMap, key: B256, value: StorageMultiProof)
    ensures
        storage_contents(*final(storages)) == storage_contents(*old(storages)).insert(
            key.bytes@,
            value@,
        ),
{
    storages.inner.insert(alloy_primitives::B256::new(key.bytes), value);
}

/// Relies on `HashMap::remove`: takes out the proof stored under a key, if any.
#[verifier::external_body]
fn storages_remove(storages: &mut StorageMap, key: &B256) -> (r: Option<StorageMultiProof>)
    ensures
        r is Some <==> storage_contents(*old(storages)).contains_key(key.bytes@),
        r matches Some(p) ==> p@ == storage_contents(*old(storages))[key.bytes@],
        storage_contents(*final(storages)) == storage_contents(*old(storages)).remove(key.bytes@),
{
    storages.inner.remove(&alloy_primitives::B256::new(key.bytes))
}

/// Relies on `HashMap::is_empty`.
#[verifier::external_body]
fn storages_is_empty(storages: &StorageMap) -> (r: bool)
    ensures
        r == (storage_contents(*storages).dom() == Set::<Seq<u8>>::empty()),
{
    storages.inner.is_empty()
}

/// Relies on `IntoIterator` of `HashMap`, which yields each entry once, in an
/// order that the hasher decides.
#[verifier::external_body]
fn storages_into_entries(storages: StorageMap) -> (r: Vec<(B256, StorageMultiProof)>)
    ensures
        forall|i: int, j: int|
            0 <= i < j < r@.len() ==> (#[trigger] r@[i]).0.bytes@ != (#[trigger] r@[j]).0.bytes@,
        forall|i: int|
            0 <= i < r@.len() ==> storage_contents(storages).contains_key((#[trigger] r@[i]).0.bytes@)
                && storage_contents(storages)[r@[i].0.bytes@] == r@[i].1@,
        forall|k: Seq<u8>|
            #[trigger] storage_contents(storages).contains_key(k) ==> exists|i: int|
                0 <= i < r@.len() && r@[i].0.bytes@ == k,
{
    storages.inner.into_iter().map(|(k, v)| (B256 { bytes: k.0 }, v)).collect()
}

impl StorageMap {
    /// A map with no entry.
    pub fn new() -> (r: StorageMap)
        ensures
            r@ == Map::<Seq<u8>, StorageMultiProofView>::empty(),
    {
        let r = storages_new();
        assert(r@ =~= Map::<Seq<u8>, StorageMultiProofView>::empty());
        r
    }

    /// The proof recorded for `key`.
    pub fn get(&self, key: &B256) -> (r: Option<&StorageMultiProof>)
        ensures
            r is Some <==> self@.contains_key(key.bytes@),
            r matches Some(p) ==> p@ == self@[key.bytes@],
    {
        storages_get(self, key)
    }

    pub fn is_empty(&self) -> (r: bool)
        ensures
            r == (self@ == Map::<Seq<u8>, StorageMultiProofView>::empty()),
    {
        let r = storages_is_empty(self);
        if r {
            assert(self@ =~= Map::<Seq<u8>, StorageMultiProofView>::empty());
        }
        r
    }

    /// Records `value` for `key`, replacing any proof there.
    pub fn insert(&mut self, key: B256, value: StorageMultiProof)
        ensures
            final(self)@ == old(self)@.insert(key.bytes@, value@),
    {
        storages_insert(self, key, value)
    }

    /// Merges `other` into this map: an account in both gets the merge of its two
    /// proofs (see `StorageMultiProof::merge_from`), any other is kept as it is.
    pub fn merge_from(&mut self, other: StorageMap)
        ensures
            final(self)@ == merge_storages_spec(old(self)@, other@),
    {
        let ghost om = other@;
        let ghost m0 = self@;
        let mut rest = storages_into_entries(other);
        let ghost o = storage_entries_view(rest@);
        proof {
            assert forall|a: int, b: int| 0 <= a < b < o.len() implies o[a].0 != o[b].0 by {
                assert(o[a].0 == rest@[a].0.bytes@ && o[b].0 == rest@[b].0.bytes@);
            }
            assert forall|k: Seq<u8>| om.contains_key(k) implies exists|i: int|
                0 <= i < o.len() && o[i].0 == k by {
                let i = choose|i: int| 0 <= i < rest@.len() && rest@[i].0.bytes@ == k;
                assert(o[i].0 == k);
            }
            assert forall|i: int| 0 <= i < o.len() implies om.contains_key(o[i].0) && om[o[i].0]
                == o[i].1 by {
                assert(o[i] == (rest@[i].0.bytes@, rest@[i].1@));
            }
            lemma_fold_distinct(o, om);
        }
        let ghost mut i: int = 0;
        assert(o.take(0) =~= Seq::empty());
        assert(merge_storages_spec(m0, fold_map(o.take(0))) =~= m0);
        assert(o.skip(0) =~= o);
        while rest.len() > 0
            invariant
                0 <= i <= o.len(),
                storage_entries_view(rest@) == o.skip(i),
                forall|a: int, b: int| 0 <= a < b < o.len() ==> o[a].0 != o[b].0,
                self@ == merge_storages_spec(m0, fold_map(o.take(i))),
            decreases rest@.len(),
        {
            let ghost rv = rest@;
            assert(storage_entries_view(rv).len() == rv.len());
            assert(i < o.len());
            let (k, p) = rest.remove(0);
            assert(storage_entries_view(rv)[0] == o.skip(i)[0]);
            assert((k.bytes@, p@) == o[i]);
            proof {
                assert(forall|j: int| 0 <= j < o.take(i).len() ==> o.take(i)[j].0 != o[i].0);
                lemma_fold_absent(o.take(i), o[i].0);
                assert(o.take(i + 1) =~= o.take(i).push(o[i]));
                lemma_fold_push(o.take(i), o[i]);
            }
            match storages_remove(self, &k) {
                Some(cur) => {
                    let mut cur = cur;
                    cur.merge_from(p);
                    storages_insert(self, k, cur);
                },
                None => {
                    storages_insert(self, k, p);
                },
            }
            assert(self@ =~= merge_storages_spec(m0, fold_map(o.take(i + 1))));
            assert forall|j: int| 0 <= j < rest@.len() implies storage_entries_view(rest@)[j]
                == o.skip(i + 1)[j] by {
                assert(rest@[j] == rv[j + 1]);
                assert(storage_entries_view(rv)[j + 1] == o.skip(i)[j + 1]);
            }
            assert(storage_entries_view(rest@) =~= o.skip(i + 1));
            proof {
                i = i + 1;
            }
        }
        assert(o.take(i) =~= o);
    }
}

} // verus!

verus! {

/// A multiproof as plain values.
pub struct MultiProofView {
    pub account_subtree: Map<Seq<u8>, Seq<u8>>,
    pub hash_masks: Map<Seq<u8>, u16>,
    pub tree_masks: Map<Seq<u8>, u16>,
    pub storages: Map<Seq<u8>, StorageMultiProofView>,
}

/// The proof of any number of accounts of the state trie, with a storage
/// multiproof for each account whose storage was asked for.
pub struct MultiProof {
    pub account_subtree: NodeMap,
    pub branch_node_hash_masks: MaskMap,
    pub branch_node_tree_masks: MaskMap,
    pub storages: StorageMap,
}

impl View for MultiProof {
    type V = MultiProofView;

    open spec fn view(&self) -> MultiProofView {
        MultiProofView {
            account_subtree: self.account_subtree@,
            hash_masks: self.branch_node_hash_masks@,
            tree_masks: self.branch_node_tree_masks@,
            storages: self.storages@,
        }
    }
}

/// Two multiproofs merged: nodes and masks unioned, `b`'s kept at a path that
/// both hold, and their storage maps merged.
pub open spec fn extend_spec(a: MultiProofView, b: MultiProofView) -> MultiProofView {
    MultiProofView {
        account_subtree: a.account_subtree.union_prefer_right(b.account_subtree),
        hash_masks: a.hash_masks.union_prefer_right(b.hash_masks),
        tree_masks: a.tree_masks.union_prefer_right(b.tree_masks),
        storages: merge_storages_spec(a.storages, b.storages),
    }
}

/// The view of a list of slot keys.
pub open spec fn slots_view(slots: Seq<B256>) -> Seq<Seq<u8>> {
    slots.map_values(|s: B256| s.bytes@)
}

/// The account proof that a multiproof gives for `address` and `slots`;
/// `None` when decoding fails.
pub open spec fn account_proof_spec(mp: MultiProofView, address: Seq<u8>, slots: Seq<Seq<u8>>) -> Option<
    AccountProofView,
> {
    let hashed = keccak_of(address);
    let path = unpack_spec(hashed);
    let entries = matching_spec(mp.account_subtree, path);
    let proof = nodes_of(entries);
    let has = mp.storages.contains_key(hashed);
    match account_info_spec(entries, path) {
        None => None,
        Some(info) => if has && exists|i: int|
            0 <= i < slots.len() && (#[trigger] storage_proof_spec(
                mp.storages[hashed].subtree,
                slots[i],
            )) is None {
            None
        } else {
            Some(
                AccountProofView {
                    address,
                    info,
                    proof,
                    storage_root: if has {
                        mp.storages[hashed].root
                    } else {
                        empty_root_spec()
                    },
                    storage_proofs: Seq::new(
                        slots.len(),
                        |i: int|
                            if has {
                                storage_proof_spec(mp.storages[hashed].subtree, slots[i]).unwrap()
                            } else {
                                absent_slot_proof(slots[i])
                            },
                    ),
                },
            )
        },
    }
}

impl MultiProof {
    /// A multiproof with nothing in it.
    pub fn new() -> (r: MultiProof)
        ensures
            r@ == (MultiProofView {
                account_subtree: Map::empty(),
                hash_masks: Map::empty(),
                tree_masks: Map::empty(),
                storages: Map::empty(),
            }),
    {
        MultiProof {
            account_subtree: NodeMap::new(),
            branch_node_hash_masks: MaskMap::new(),
            branch_node_tree_masks: MaskMap::new(),
            storages: StorageMap::new(),
        }
    }

    /// Whether the multiproof holds no node, no mask and no storage proof.
    pub fn is_empty(&self) -> (r: bool)
        ensures
            r == (self@.account_subtree == Map::<Seq<u8>, Seq<u8>>::empty() && self@.hash_masks
                == Map::<Seq<u8>, u16>::empty() && self@.tree_masks == Map::<Seq<u8>, u16>::empty()
                && self@.storages == Map::<Seq<u8>, StorageMultiProofView>::empty()),
    {
        self.account_subtree.is_empty() && self.branch_node_hash_masks.is_empty()
            && self.branch_node_tree_masks.is_empty() && self.storages.is_empty()
    }

    /// The account-trie entries on `path`, root first.
    pub fn account_proof_nodes(&self, path: &Nibbles) -> (r: Vec<(Nibbles, Vec<u8>)>)
        requires
            path.wf(),
        ensures
            raw_entries_view(r@) == matching_spec(self@.account_subtree, path@),
    {
        self.account_subtree.matching_nodes_sorted(path)
    }

    /// For each slot path (already hashed), the entries on it in the storage trie
    /// of `hashed_address`, root first; nothing when that storage was not proven.
    pub fn storage_proof_nodes(&self, hashed_address: &B256, slots: &[B256]) -> (r: Vec<
        (B256, Vec<(Nibbles, Vec<u8>)>),
    >)
        ensures
            !self@.storages.contains_key(hashed_address.bytes@) ==> r@.len() == 0,
            self@.storages.contains_key(hashed_address.bytes@) ==> {
                &&& r@.len() == slots@.len()
                &&& forall|i: int|
                    0 <= i < slots@.len() ==> (#[trigger] r@[i]).0 == slots@[i] && raw_entries_view(
                        r@[i].1@,
                    ) == matching_spec(
                        self@.storages[hashed_address.bytes@].subtree,
                        unpack_spec(slots@[i].bytes@),
                    )
            },
    {
        let mut r: Vec<(B256, Vec<(Nibbles, Vec<u8>)>)> = Vec::new();
        match self.storages.get(hashed_address) {
            None => r,
            Some(sp) => {
                let mut i: usize = 0;
                while i < slots.len()
                    invariant
                        i <= slots@.len(),
                        r@.len() == i,
                        sp@ == self@.storages[hashed_address.bytes@],
                        forall|j: int|
                            0 <= j < i ==> (#[trigger] r@[j]).0 == slots@[j] && raw_entries_view(
                                r@[j].1@,
                            ) == matching_spec(sp@.subtree, unpack_spec(slots@[j].bytes@)),
                    decreases slots@.len() - i,
                {
                    let nibbles = Nibbles::unpack(&slots[i]);
                    let nodes = sp.subtree.matching_nodes_sorted(&nibbles);
                    r.push((slots[i], nodes));
                    i = i + 1;
                }
                r
            },
        }
    }

    /// Extracts the proof of the account at `address` and of its `slots`: the
    /// account-trie nodes on the path of the hashed address, the account's fields
    /// when the last of them is its leaf (`None` otherwise: proven absent), its
    /// storage root (the empty root when its storage was not proven), and a proof
    /// of each slot (with value zero and no node when its storage was not proven).
    pub fn account_proof(&self, address: Address, slots: &[B256]) -> (r: Result<
        AccountProof,
        alloy_rlp::Error,
    >)
        ensures
            r is Ok <==> account_proof_spec(self@, address.bytes@, slots_view(slots@)) is Some,
            r matches Ok(p) ==> p@ == account_proof_spec(
                self@,
                address.bytes@,
                slots_view(slots@),
            ).unwrap(),
    {
        let hashed = keccak(address.bytes.as_slice());
        let nibbles = Nibbles::unpack(&hashed);
        let entries = self.account_proof_nodes(&nibbles);
        let proof = entry_nodes(&entries);
        let ghost pv = nodes_of(matching_spec(self@.account_subtree, nibbles@));
        assert(bytes_list_view(proof@) == pv);
        let ghost ev = matching_spec(self@.account_subtree, nibbles@);
        let mut info: Option<Account> = None;
        if entries.len() > 0 {
            let last = &entries[entries.len() - 1];
            assert(raw_entries_view(entries@).last() == (last.0@, last.1@));
            let node = decode_node(last.1.as_slice())?;
            match node {
                DecodedNode::Leaf { key, value } => {
                    if nibbles.is_joined(&last.0, &key) {
                        let account = decode_trie_account(value.as_slice())?;
                        let empty_code = keccak_empty();
                        let bytecode_hash = if account.code_hash.same(&empty_code) {
                            None
                        } else {
                            Some(account.code_hash)
                        };
                        info = Some(
                            Account { balance: account.balance, nonce: account.nonce, bytecode_hash },
                        );
                    }
                },
                _ => {},
            }
        }
        let ghost sv = slots_view(slots@);
        let ghost has = self@.storages.contains_key(hashed.bytes@);
        let storage_multiproof = self.storages.get(&hashed);
        let storage_root = match storage_multiproof {
            Some(m) => m.root,
            None => empty_root_hash(),
        };
        let mut storage_proofs: Vec<StorageProof> = Vec::new();
        let mut i: usize = 0;
        while i < slots.len()
            invariant
                i <= slots@.len(),
                sv == slots_view(slots@),
                storage_proofs@.len() == i,
                has == storage_multiproof is Some,
                has == self@.storages.contains_key(hashed.bytes@),
                storage_multiproof matches Some(m) ==> m@ == self@.storages[hashed.bytes@],
                hashed.bytes@ == keccak_of(address.bytes@),
                nibbles@ == unpack_spec(hashed.bytes@),
                pv == nodes_of(matching_spec(self@.account_subtree, nibbles@)),
                account_info_spec(matching_spec(self@.account_subtree, nibbles@), nibbles@) is Some,
                forall|j: int|
                    0 <= j < i ==> (#[trigger] storage_proofs@[j])@ == (if has {
                        storage_proof_spec(self@.storages[hashed.bytes@].subtree, sv[j]).unwrap()
                    } else {
                        absent_slot_proof(sv[j])
                    }),
                has ==> forall|j: int|
                    0 <= j < i ==> (#[trigger] storage_proof_spec(
                        self@.storages[hashed.bytes@].subtree,
                        sv[j],
                    )) is Some,
            decreases slots@.len() - i,
        {
            assert(sv[i as int] == slots@[i as int].bytes@);
            let p = match storage_multiproof {
                Some(m) => match m.storage_proof(slots[i]) {
                    Ok(p) => p,
                    Err(e) => {
                        assert(storage_proof_spec(
                            self@.storages[hashed.bytes@].subtree,
                            sv[i as int],
                        ) is None);
                        return Err(e);
                    },
                },
                None => StorageProof::new(slots[i]),
            };
            storage_proofs.push(p);
            i = i + 1;
        }
        let r = AccountProof { address, info, proof, storage_root, storage_proofs };
        assert(r@.storage_proofs =~= account_proof_spec(self@, address.bytes@, sv).unwrap().storage_proofs);
        Ok(r)
    }

    /// Merges `other` into this multiproof: account nodes and masks are unioned,
    /// `other`'s kept at a path that both hold; storage proofs of an account in
    /// both are merged, keeping this multiproof's storage root.
    pub fn extend(&mut self, other: MultiProof)
        ensures
            final(self)@ == extend_spec(old(self)@, other@),
    {
        self.account_subtree.extend_from(other.account_subtree);
        self.branch_node_hash_masks.extend(other.branch_node_hash_masks);
        self.branch_node_tree_masks.extend(other.branch_node_tree_masks);
        self.storages.merge_from(other.storages);
    }
}

} // verus!

verus! {

impl Default for MultiProof {
    fn default() -> (r: MultiProof)
        ensures
            r@ == (MultiProofView {
                account_subtree: Map::empty(),
                hash_masks: Map::empty(),
                tree_masks: Map::empty(),
                storages: Map::empty(),
            }),
    {
        MultiProof::new()
    }
}

} // verus!
