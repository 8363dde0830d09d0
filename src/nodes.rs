//! Containers of proof nodes keyed by their path from the trie's root.
use vstd::prelude::*;
use crate::codec::{DecodedNode, NodeView, node_from_alloy};
use crate::primitives::{Nibbles, bytes_to_vec, is_prefix};

verus! {

/// Encoded trie nodes by path, held in alloy_trie's `ProofNodes`.
#[verifier::external_body]
pub struct NodeMap {
    inner: alloy_trie::proof::ProofNodes,
}

/// Decoded trie nodes by path, held in alloy_trie's `DecodedProofNodes`.
#[verifier::external_body]
pub struct DecodedNodeMap {
    inner: alloy_trie::proof::DecodedProofNodes,
}

/// What a `NodeMap` holds: encoded node by path.
pub uninterp spec fn raw_contents(nodes: NodeMap) -> Map<Seq<u8>, Seq<u8>>;

/// What a `DecodedNodeMap` holds: decoded node by path.
pub uninterp spec fn decoded_contents(nodes: DecodedNodeMap) -> Map<Seq<u8>, NodeView>;

/// The entries of `m` at the prefixes of `t` shorter than `n`, shortest first.
pub open spec fn matching_upto<V>(m: Map<Seq<u8>, V>, t: Seq<u8>, n: nat) -> Seq<(Seq<u8>, V)>
    decreases n,
{
    if n == 0 {
        Seq::empty()
    } else {
        let p = t.subrange(0, n - 1);
        let rest = matching_upto(m, t, (n - 1) as nat);
        if m.contains_key(p) {
            rest.push((p, m[p]))
        } else {
            rest
        }
    }
}

/// Every entry of `m` whose path is a prefix of `t`, in ascending order of path length.
pub open spec fn matching_spec<V>(m: Map<Seq<u8>, V>, t: Seq<u8>) -> Seq<(Seq<u8>, V)> {
    matching_upto(m, t, t.len() + 1)
}

/// The nodes of a list of entries, in the same order.
pub open spec fn nodes_of<V>(entries: Seq<(Seq<u8>, V)>) -> Seq<V> {
    entries.map_values(|e: (Seq<u8>, V)| e.1)
}

/// The view of a list of raw entries.
pub open spec fn raw_entries_view(s: Seq<(Nibbles, Vec<u8>)>) -> Seq<(Seq<u8>, Seq<u8>)> {
    s.map_values(|e: (Nibbles, Vec<u8>)| (e.0@, e.1@))
}

/// The view of a list of decoded entries.
pub open spec fn decoded_entries_view(s: Seq<(Nibbles, DecodedNode)>) -> Seq<(Seq<u8>, NodeView)> {
    s.map_values(|e: (Nibbles, DecodedNode)| (e.0@, e.1@))
}

/// Relies on alloy_trie's `ProofNodes::default`: no entry.
#[verifier::external_body]
fn raw_new() -> (r: NodeMap)
    ensures
        raw_contents(r).dom() == Set::<Seq<u8>>::empty(),
{
    NodeMap { inner: alloy_trie::proof::ProofNodes::default() }
}

/// Relies on alloy_trie's `ProofNodes::insert`, which adds or replaces the node at a path.
#[verifier::external_body]
fn raw_insert(nodes: &mut NodeMap, path: &Nibbles, node: &[u8])
    requires
        path.wf(),
    ensures
        raw_contents(*final(nodes)) == raw_contents(*old(nodes)).insert(path@, node@),
{
    nodes.inner.insert(
        alloy_trie::Nibbles::from_nibbles(&path.data),
        alloy_primitives::Bytes::copy_from_slice(node),
    );
}

/// Relies on `contains_key` of the map behind alloy_trie's `ProofNodes`.
#[verifier::external_body]
fn raw_contains(nodes: &NodeMap, path: &Nibbles) -> (r: bool)
    requires
        path.wf(),
    ensures
        r == raw_contents(*nodes).contains_key(path@),
{
    nodes.inner.contains_key(&alloy_trie::Nibbles::from_nibbles(&path.data))
}

/// Relies on `is_empty` of the map behind alloy_trie's `ProofNodes`.
#[verifier::external_body]
fn raw_is_empty(nodes: &NodeMap) -> (r: bool)
    ensures
        r == (raw_contents(*nodes) == Map::<Seq<u8>, Seq<u8>>::empty()),
{
    nodes.inner.is_empty()
}

/// Relies on alloy_trie's `ProofNodes::matching_nodes_sorted`: the entries whose
/// path is a prefix of the target, sorted by path. Prefixes of one path sort by length.
#[verifier::external_body]
fn raw_matching_sorted(nodes: &NodeMap, target: &Nibbles) -> (r: Vec<
    (Nibbles, Vec<u8>),
>)
    requires
        target.wf(),
    ensures
        raw_entries_view(r@) == matching_spec(raw_contents(*nodes), target@),
{
    nodes.inner.matching_nodes_sorted(&alloy_trie::Nibbles::from_nibbles(&target.data)).into_iter().map(
        |(k, v)| (Nibbles { data: k.to_vec() }, v.to_vec()),
    ).collect()
}

/// Relies on alloy_trie's `ProofNodes::extend_from`: the entries of `other` are
/// added, replacing those at the same path.
#[verifier::external_body]
fn raw_extend(nodes: &mut NodeMap, other: NodeMap)
    ensures
        raw_contents(*final(nodes)) == raw_contents(*old(nodes)).union_prefer_right(
            raw_contents(other),
        ),
{
    nodes.inner.extend_from(other.inner)
}

/// Relies on `Clone` of alloy_trie's `ProofNodes`: the same entries.
#[verifier::external_body]
fn raw_clone(nodes: &NodeMap) -> (r: NodeMap)
    ensures
        raw_contents(r) == raw_contents(*nodes),
{
    NodeMap { inner: nodes.inner.clone() }
}

impl View for NodeMap {
    type V = Map<Seq<u8>, Seq<u8>>;

    open spec fn view(&self) -> Map<Seq<u8>, Seq<u8>> {
        raw_contents(*self)
    }
}

impl NodeMap {
    /// A container with no node.
    pub fn new() -> (r: NodeMap)
        ensures
            r@ == Map::<Seq<u8>, Seq<u8>>::empty(),
    {
        raw_new()
    }

    /// Adds the node at `path`, replacing any node there.
    pub fn insert(&mut self, path: Nibbles, node: Vec<u8>)
        requires
            path.wf(),
        ensures
            final(self)@ == old(self)@.insert(path@, node@),
    {
        raw_insert(self, &path, node.as_slice());
    }

    /// Whether a node stands at `path`.
    pub fn contains_key(&self, path: &Nibbles) -> (r: bool)
        requires
            path.wf(),
        ensures
            r == self@.contains_key(path@),
    {
        raw_contains(self, path)
    }

    pub fn is_empty(&self) -> (r: bool)
        ensures
            r == (self@ == Map::<Seq<u8>, Seq<u8>>::empty()),
    {
        raw_is_empty(self)
    }

    /// Every entry whose path is a prefix of `target`, root first.
    pub fn matching_nodes_sorted(&self, target: &Nibbles) -> (r: Vec<(Nibbles, Vec<u8>)>)
        requires
            target.wf(),
        ensures
            raw_entries_view(r@) == matching_spec(self@, target@),
    {
        raw_matching_sorted(self, target)
    }

    /// Adds every entry of `other`; at a path that both hold, `other`'s node is kept.
    pub fn extend_from(&mut self, other: NodeMap)
        ensures
            final(self)@ == old(self)@.union_prefer_right(other@),
    {
        raw_extend(self, other)
    }

    /// A container with the same entries.
    pub fn duplicate(&self) -> (r: NodeMap)
        ensures
            r@ == self@,
    {
        raw_clone(self)
    }
}

/// Relies on alloy_trie's `DecodedProofNodes::default`: no entry.
#[verifier::external_body]
fn decoded_new() -> (r: DecodedNodeMap)
    ensures
        decoded_contents(r).dom() == Set::<Seq<u8>>::empty(),
{
    DecodedNodeMap { inner: alloy_trie::proof::DecodedProofNodes::default() }
}

/// Relies on alloy_trie's `DecodedProofNodes::insert_encoded`, which decodes the
/// node with `TrieNode::decode` and, when that succeeds, adds or replaces it at a path.
#[verifier::external_body]
fn decoded_insert_encoded(
    nodes: &mut DecodedNodeMap,
    path: &Nibbles,
    node: &[u8],
) -> (r: Result<(), alloy_rlp::Error>)
    requires
        path.wf(),
    ensures
        r is Ok <==> crate::codec::node_decode_of(node@) is Some,
        r is Ok ==> decoded_contents(*final(nodes)) == decoded_contents(*old(nodes)).insert(
            path@,
            crate::codec::node_decode_of(node@).unwrap(),
        ),
        r is Err ==> decoded_contents(*final(nodes)) == decoded_contents(*old(nodes)),
        node@ == crate::codec::empty_node_spec() ==> (r is Ok && decoded_contents(*final(nodes))
            == decoded_contents(*old(nodes)).insert(path@, NodeView::EmptyRoot)),
{
    let key = alloy_trie::Nibbles::from_nibbles(&path.data);
    nodes.inner.insert_encoded(key, alloy_primitives::Bytes::copy_from_slice(node)).map(|_| ())
}

/// Relies on `contains_key` of the map behind alloy_trie's `DecodedProofNodes`.
#[verifier::external_body]
fn decoded_contains(nodes: &DecodedNodeMap, path: &Nibbles) -> (r: bool)
    requires
        path.wf(),
    ensures
        r == decoded_contents(*nodes).contains_key(path@),
{
    nodes.inner.contains_key(&alloy_trie::Nibbles::from_nibbles(&path.data))
}

/// Relies on `is_empty` of the map behind alloy_trie's `DecodedProofNodes`.
#[verifier::external_body]
fn decoded_is_empty(nodes: &DecodedNodeMap) -> (r: bool)
    ensures
        r == (decoded_contents(*nodes) == Map::<Seq<u8>, NodeView>::empty()),
{
    nodes.inner.is_empty()
}

/// Relies on alloy_trie's `DecodedProofNodes::matching_nodes_sorted`: the entries
/// whose path is a prefix of the target, sorted by path.
#[verifier::external_body]
fn decoded_matching_sorted(
    nodes: &DecodedNodeMap,
    target: &Nibbles,
) -> (r: Vec<(Nibbles, DecodedNode)>)
    requires
        target.wf(),
    ensures
        decoded_entries_view(r@) == matching_spec(decoded_contents(*nodes), target@),
{
    nodes.inner.matching_nodes_sorted(&alloy_trie::Nibbles::from_nibbles(&target.data)).into_iter().map(
        |(k, v)| (Nibbles { data: k.to_vec() }, node_from_alloy(v)),
    ).collect()
}

/// Relies on `Extend` of alloy_trie's `DecodedProofNodes`: the entries of `other`
/// are added, replacing those at the same path.
#[verifier::external_body]
fn decoded_extend(
    nodes: &mut DecodedNodeMap,
    other: DecodedNodeMap,
)
    ensures
        decoded_contents(*final(nodes)) == decoded_contents(*old(nodes)).union_prefer_right(
            decoded_contents(other),
        ),
{
    nodes.inner.extend(other.inner.into_inner())
}

impl View for DecodedNodeMap {
    type V = Map<Seq<u8>, NodeView>;

    open spec fn view(&self) -> Map<Seq<u8>, NodeView> {
        decoded_contents(*self)
    }
}

impl DecodedNodeMap {
    /// A container with no node.
    pub fn new() -> (r: DecodedNodeMap)
        ensures
            r@ == Map::<Seq<u8>, NodeView>::empty(),
    {
        decoded_new()
    }

    /// Decodes `node` and adds it at `path`, replacing any node there; on a
    /// decode failure nothing changes.
    pub fn insert_encoded(&mut self, path: Nibbles, node: Vec<u8>) -> (r: Result<
        (),
        alloy_rlp::Error,
    >)
        requires
            path.wf(),
        ensures
            r is Ok <==> crate::codec::node_decode_of(node@) is Some,
            r is Ok ==> final(self)@ == old(self)@.insert(
                path@,
                crate::codec::node_decode_of(node@).unwrap(),
            ),
            r is Err ==> final(self)@ == old(self)@,
            node@ == crate::codec::empty_node_spec() ==> (r is Ok && final(self)@ == old(self)@.insert(
                path@,
                NodeView::EmptyRoot,
            )),
    {
        decoded_insert_encoded(self, &path, node.as_slice())
    }

    /// Whether a node stands at `path`.
    pub fn contains_key(&self, path: &Nibbles) -> (r: bool)
        requires
            path.wf(),
        ensures
            r == self@.contains_key(path@),
    {
        decoded_contains(self, path)
    }

    pub fn is_empty(&self) -> (r: bool)
        ensures
            r == (self@ == Map::<Seq<u8>, NodeView>::empty()),
    {
        decoded_is_empty(self)
    }

    /// Every entry whose path is a prefix of `target`, root first.
    pub fn matching_nodes_sorted(&self, target: &Nibbles) -> (r: Vec<(Nibbles, DecodedNode)>)
        requires
            target.wf(),
        ensures
            decoded_entries_view(r@) == matching_spec(self@, target@),
    {
        decoded_matching_sorted(self, target)
    }

    /// Adds every entry of `other`; at a path that both hold, `other`'s node is kept.
    pub fn extend_from(&mut self, other: DecodedNodeMap)
        ensures
            final(self)@ == old(self)@.union_prefer_right(other@),
    {
        decoded_extend(self, other)
    }
}

} // verus!
