//! Hashing, the trie's node and value encodings, and proof-chain
//! verification, as the alloy crates provide them.
use vstd::prelude::*;
use crate::primitives::{Address, B256, Nibbles, U256, slices_equal};

verus! {

#[verifier::external_type_specification]
#[verifier::external_body]
pub struct ExRlpError(alloy_rlp::Error);

#[verifier::external_type_specification]
#[verifier::external_body]
pub struct ExProofVerificationError(alloy_trie::proof::ProofVerificationError);

#[verifier::external_type_specification]
#[verifier::external_body]
pub struct ExTrieNode(alloy_trie::nodes::TrieNode);

/// Keccak-256 of a byte string.
pub uninterp spec fn keccak_of(data: Seq<u8>) -> Seq<u8>;

/// What decoding a trie node from the start of a byte string gives; `None` when it fails.
pub uninterp spec fn node_decode_of(encoded: Seq<u8>) -> Option<NodeView>;

/// What decoding an unsigned 256-bit integer (as limbs, least significant first)
/// from the start of a byte string gives; `None` when it fails.
pub uninterp spec fn u256_decode_of(encoded: Seq<u8>) -> Option<Seq<u64>>;

/// The canonical encoding of an unsigned 256-bit integer given by its limbs.
pub uninterp spec fn u256_rlp_of(limbs: Seq<u64>) -> Seq<u8>;

/// What decoding an account record (nonce, balance limbs, storage root,
/// code hash) from the start of a byte string gives; `None` when it fails.
pub uninterp spec fn trie_account_decode_of(encoded: Seq<u8>) -> Option<
    (u64, Seq<u64>, Seq<u8>, Seq<u8>),
>;

/// The canonical encoding of an account record.
pub uninterp spec fn trie_account_rlp_of(
    nonce: u64,
    balance: Seq<u64>,
    storage_root: Seq<u8>,
    code_hash: Seq<u8>,
) -> Seq<u8>;

/// Whether a chain of proof nodes proves, against `root`, that the key at
/// `path` holds `expected` (or, for `None`, is absent).
pub uninterp spec fn proof_accepted(
    root: Seq<u8>,
    path: Seq<u8>,
    expected: Option<Seq<u8>>,
    proof: Seq<Seq<u8>>,
) -> bool;

/// The root hash of an empty trie.
pub open spec fn empty_root_spec() -> Seq<u8> {
    seq![
        0x56u8, 0xe8, 0x1f, 0x17, 0x1b, 0xcc, 0x55, 0xa6, 0xff, 0x83, 0x45, 0xe6, 0x92, 0xc0,
        0xf8, 0x6e, 0x5b, 0x48, 0xe0, 0x1b, 0x99, 0x6c, 0xad, 0xc0, 0x01, 0x62, 0x2f, 0xb5,
        0xe3, 0x63, 0xb4, 0x21,
    ]
}

/// The hash of empty bytecode.
pub open spec fn keccak_empty_spec() -> Seq<u8> {
    seq![
        0xc5u8, 0xd2, 0x46, 0x01, 0x86, 0xf7, 0x23, 0x3c, 0x92, 0x7e, 0x7d, 0xb2, 0xdc, 0xc7,
        0x03, 0xc0, 0xe5, 0x00, 0xb6, 0x53, 0xca, 0x82, 0x27, 0x3b, 0x7b, 0xfa, 0xd8, 0x04,
        0x5d, 0x85, 0xa4, 0x70,
    ]
}

/// The encoding of the empty node, the single node of an empty trie.
pub open spec fn empty_node_spec() -> Seq<u8> {
    seq![0x80u8]
}

/// A trie node as plain values.
pub enum NodeView {
    EmptyRoot,
    Branch { stack: Seq<Seq<u8>>, state_mask: u16 },
    Extension { key: Seq<u8>, child: Seq<u8> },
    Leaf { key: Seq<u8>, value: Seq<u8> },
}

/// A decoded trie node.
#[derive(Debug, PartialEq, Eq)]
pub enum DecodedNode {
    /// The node of an empty trie.
    EmptyRoot,
    /// A branch: the references of its present children, and a bit per present child.
    Branch { stack: Vec<Vec<u8>>, state_mask: u16 },
    /// An extension: a shared key part and the reference of its one child.
    Extension { key: Nibbles, child: Vec<u8> },
    /// A leaf: the rest of the key and the encoded value.
    Leaf { key: Nibbles, value: Vec<u8> },
}

impl View for DecodedNode {
    type V = NodeView;

    open spec fn view(&self) -> NodeView {
        match self {
            DecodedNode::EmptyRoot => NodeView::EmptyRoot,
            DecodedNode::Branch { stack, state_mask } => NodeView::Branch {
                stack: stack@.map_values(|c: Vec<u8>| c@),
                state_mask: *state_mask,
            },
            DecodedNode::Extension { key, child } => NodeView::Extension { key: key@, child: child@ },
            DecodedNode::Leaf { key, value } => NodeView::Leaf { key: key@, value: value@ },
        }
    }
}

/// Moves the fields of each variant of alloy's `TrieNode` into the library's node type.
#[verifier::external_body]
pub(crate) fn node_from_alloy(node: alloy_trie::nodes::TrieNode) -> DecodedNode {
    match node {
        alloy_trie::nodes::TrieNode::EmptyRoot => DecodedNode::EmptyRoot,
        alloy_trie::nodes::TrieNode::Branch(b) => DecodedNode::Branch {
            stack: b.stack.iter().map(|c| c.to_vec()).collect(),
            state_mask: b.state_mask.get(),
        },
        alloy_trie::nodes::TrieNode::Extension(e) => DecodedNode::Extension {
            key: Nibbles { data: e.key.to_vec() },
            child: e.child.to_vec(),
        },
        alloy_trie::nodes::TrieNode::Leaf(l) => DecodedNode::Leaf {
            key: Nibbles { data: l.key.to_vec() },
            value: l.value,
        },
    }
}

/// Relies on alloy_primitives::keccak256: the 32-byte Keccak-256 digest of the input.
#[verifier::external_body]
pub(crate) fn keccak(data: &[u8]) -> (r: B256)
    ensures
        r.bytes@ == keccak_of(data@),
{
    B256 { bytes: alloy_primitives::keccak256(data).0 }
}

/// The hash of an address, the key of its account in the state trie.
pub fn hash_address(address: &Address) -> (r: B256)
    ensures
        r.bytes@ == keccak_of(address.bytes@),
{
    keccak(address.bytes.as_slice())
}

/// Relies on alloy_trie::EMPTY_ROOT_HASH, the root hash of an empty trie.
#[verifier::external_body]
pub fn empty_root_hash() -> (r: B256)
    ensures
        r.bytes@ == empty_root_spec(),
{
    B256 { bytes: alloy_trie::EMPTY_ROOT_HASH.0 }
}

/// Relies on alloy_consensus::constants::KECCAK_EMPTY, the hash of empty bytecode.
#[verifier::external_body]
pub fn keccak_empty() -> (r: B256)
    ensures
        r.bytes@ == keccak_empty_spec(),
{
    B256 { bytes: alloy_consensus::constants::KECCAK_EMPTY.0 }
}

/// Relies on alloy_trie's `TrieNode::decode`, which reads one node from the
/// start of the input.
#[verifier::external_body]
pub(crate) fn decode_node(encoded: &[u8]) -> (r: Result<DecodedNode, alloy_rlp::Error>)
    ensures
        r is Ok <==> node_decode_of(encoded@) is Some,
        r matches Ok(n) ==> n@ == node_decode_of(encoded@).unwrap(),
        encoded@ == empty_node_spec() ==> r matches Ok(DecodedNode::EmptyRoot),
{
    let mut buf = encoded;
    <alloy_trie::nodes::TrieNode as alloy_rlp::Decodable>::decode(&mut buf).map(node_from_alloy)
}

/// Relies on alloy_rlp's `Decodable` for alloy_primitives::U256, which reads one
/// integer from the start of the input.
#[verifier::external_body]
pub(crate) fn decode_u256(encoded: &[u8]) -> (r: Result<U256, alloy_rlp::Error>)
    ensures
        r is Ok <==> u256_decode_of(encoded@) is Some,
        r matches Ok(v) ==> v.limbs@ == u256_decode_of(encoded@).unwrap(),
{
    let mut buf = encoded;
    <alloy_primitives::U256 as alloy_rlp::Decodable>::decode(&mut buf).map(
        |v| U256 { limbs: v.into_limbs() },
    )
}

/// Relies on alloy_rlp::encode_fixed_size on alloy_primitives::U256: the canonical
/// encoding of the integer.
#[verifier::external_body]
pub(crate) fn encode_u256(value: &U256) -> (r: Vec<u8>)
    ensures
        r@ == u256_rlp_of(value.limbs@),
{
    alloy_rlp::encode_fixed_size(&alloy_primitives::U256::from_limbs(value.limbs)).to_vec()
}

/// An account record as it stands in a leaf of the state trie.
pub struct TrieAccount {
    pub nonce: u64,
    pub balance: U256,
    pub storage_root: B256,
    pub code_hash: B256,
}

/// Relies on the `Decodable` that alloy_rlp derives for alloy_trie::TrieAccount,
/// which reads one record from the start of the input.
#[verifier::external_body]
pub(crate) fn decode_trie_account(encoded: &[u8]) -> (r: Result<TrieAccount, alloy_rlp::Error>)
    ensures
        r is Ok <==> trie_account_decode_of(encoded@) is Some,
        r matches Ok(a) ==> trie_account_decode_of(encoded@) == Some(
            (a.nonce, a.balance.limbs@, a.storage_root.bytes@, a.code_hash.bytes@),
        ),
{
    let mut buf = encoded;
    <alloy_trie::TrieAccount as alloy_rlp::Decodable>::decode(&mut buf).map(
        |a| TrieAccount {
            nonce: a.nonce,
            balance: U256 { limbs: a.balance.into_limbs() },
            storage_root: B256 { bytes: a.storage_root.0 },
            code_hash: B256 { bytes: a.code_hash.0 },
        },
    )
}

/// Relies on alloy_rlp::encode of alloy_trie::TrieAccount: the canonical encoding
/// of the record.
#[verifier::external_body]
pub(crate) fn encode_trie_account(a: &TrieAccount) -> (r: Vec<u8>)
    ensures
        r@ == trie_account_rlp_of(
            a.nonce,
            a.balance.limbs@,
            a.storage_root.bytes@,
            a.code_hash.bytes@,
        ),
{
    alloy_rlp::encode(alloy_trie::TrieAccount {
        nonce: a.nonce,
        balance: alloy_primitives::U256::from_limbs(a.balance.limbs),
        storage_root: alloy_primitives::B256::new(a.storage_root.bytes),
        code_hash: alloy_primitives::B256::new(a.code_hash.bytes),
    })
}

/// The view of an optional byte string.
pub open spec fn opt_bytes_view(v: Option<Vec<u8>>) -> Option<Seq<u8>> {
    match v {
        Some(b) => Some(b@),
        None => None,
    }
}

/// The view of a list of byte strings.
pub open spec fn bytes_list_view(v: Seq<Vec<u8>>) -> Seq<Seq<u8>> {
    v.map_values(|b: Vec<u8>| b@)
}

/// Whether the proof verifier, walking the encoded node `enc`, stays clear of
/// an in-place extension whose child is not a branch (a shape no trie has, on
/// which the verifier stops the process). Only branches lead into in-place
/// children; an in-place child is shorter than the node holding it.
pub open spec fn walk_safe(enc: Seq<u8>) -> bool
    decreases enc.len(), 2nat, 0nat,
{
    match node_decode_of(enc) {
        Some(NodeView::Branch { stack, state_mask }) => children_safe(enc.len(), stack, 0),
        _ => true,
    }
}

/// Whether the children of a branch from index `i` on are safe to walk.
pub open spec fn children_safe(bound: nat, stack: Seq<Seq<u8>>, i: nat) -> bool
    decreases bound, 1nat, stack.len() - i,
{
    if i >= stack.len() {
        true
    } else {
        child_safe(bound, stack[i as int]) && children_safe(bound, stack, i + 1)
    }
}

/// Whether a branch child is safe to walk: a 33-byte child is a hash and is not
/// walked in place; an in-place child must be shorter than its parent, and an
/// in-place extension must lead to a branch.
pub open spec fn child_safe(bound: nat, c: Seq<u8>) -> bool
    decreases bound, 0nat, 0nat,
{
    if c.len() == 33 {
        true
    } else if c.len() >= bound {
        false
    } else {
        match node_decode_of(c) {
            Some(NodeView::Branch { stack, state_mask }) => walk_safe(c),
            Some(NodeView::Extension { key, child }) => if child.len() >= c.len() {
                false
            } else {
                match node_decode_of(child) {
                    Some(NodeView::Branch { stack, state_mask }) => walk_safe(child),
                    Some(_) => false,
                    None => true,
                }
            },
            _ => true,
        }
    }
}

/// Whether the verifier can walk a chain of nodes: it does not walk an empty
/// chain, nor one that starts with the empty node.
pub open spec fn chain_walkable(proof: Seq<Seq<u8>>) -> bool {
    proof.len() == 0 || proof[0] == empty_node_spec() || forall|i: int|
        0 <= i < proof.len() ==> walk_safe(#[trigger] proof[i])
}

/// Whether the verifier can walk the encoded node `enc`.
pub fn node_walk_safe(enc: &[u8]) -> (r: bool)
    ensures
        r == walk_safe(enc@),
    decreases enc@.len(), 1nat,
{
    match decode_node(enc) {
        Ok(DecodedNode::Branch { stack, state_mask }) => {
            let bound = enc.len();
            let mut i: usize = 0;
            while i < stack.len()
                invariant
                    i <= stack@.len(),
                    bound == enc@.len(),
                    node_decode_of(enc@) == Some(
                        NodeView::Branch { stack: stack@.map_values(|c: Vec<u8>| c@), state_mask },
                    ),
                    children_safe(bound as nat, stack@.map_values(|c: Vec<u8>| c@), 0)
                        == children_safe(bound as nat, stack@.map_values(|c: Vec<u8>| c@), i as nat),
                decreases stack@.len() - i,
            {
                let ghost sv = stack@.map_values(|c: Vec<u8>| c@);
                assert(sv[i as int] == stack@[i as int]@);
                if !child_walk_safe(bound, stack[i].as_slice()) {
                    return false;
                }
                i = i + 1;
            }
            true
        },
        _ => true,
    }
}

/// Whether the verifier can walk a branch child of a node of `bound` bytes.
fn child_walk_safe(bound: usize, c: &[u8]) -> (r: bool)
    ensures
        r == child_safe(bound as nat, c@),
    decreases bound, 0nat,
{
    if c.len() == 33 {
        true
    } else if c.len() >= bound {
        false
    } else {
        match decode_node(c) {
            Ok(DecodedNode::Branch { stack, state_mask }) => node_walk_safe(c),
            Ok(DecodedNode::Extension { key, child }) => {
                if child.len() >= c.len() {
                    false
                } else {
                    match decode_node(child.as_slice()) {
                        Ok(DecodedNode::Branch { stack, state_mask }) => node_walk_safe(
                            child.as_slice(),
                        ),
                        Ok(_) => false,
                        Err(_) => true,
                    }
                }
            },
            _ => true,
        }
    }
}

/// Whether the verifier can walk the chain of nodes `proof`.
pub fn proof_walkable(proof: &Vec<Vec<u8>>) -> (r: bool)
    ensures
        r == chain_walkable(bytes_list_view(proof@)),
{
    let ghost pv = bytes_list_view(proof@);
    if proof.len() == 0 {
        return true;
    }
    assert(pv[0] == proof@[0]@);
    if slices_equal(proof[0].as_slice(), [0x80u8].as_slice()) {
        assert([0x80u8]@ =~= empty_node_spec());
        return true;
    }
    assert([0x80u8]@ =~= empty_node_spec());
    let mut i: usize = 0;
    while i < proof.len()
        invariant
            i <= proof@.len(),
            pv == bytes_list_view(proof@),
            pv[0] != empty_node_spec(),
            pv.len() > 0,
            forall|j: int| 0 <= j < i ==> walk_safe(#[trigger] pv[j]),
        decreases proof@.len() - i,
    {
        assert(pv[i as int] == proof@[i as int]@);
        if !node_walk_safe(proof[i].as_slice()) {
            return false;
        }
        i = i + 1;
    }
    true
}

/// Relies on alloy_trie's `ProofVerificationError::Rlp`, the error for a node
/// that cannot be walked as the verifier needs.
#[verifier::external_body]
pub(crate) fn unwalkable_node_error() -> alloy_trie::proof::ProofVerificationError {
    alloy_trie::proof::ProofVerificationError::Rlp(
        alloy_rlp::Error::Custom("in-place extension node whose child is not a branch"),
    )
}

/// Relies on alloy_trie::proof::verify_proof, which walks the chain of nodes from
/// `root` along `path`. An empty chain, or one that starts with the empty node,
/// is accepted exactly when `root` is the empty root and nothing is expected.
/// The verifier stops the process on a chain that `chain_walkable` rules out.
#[verifier::external_body]
pub(crate) fn check_proof(
    root: &B256,
    path: &Nibbles,
    expected: Option<Vec<u8>>,
    proof: &Vec<Vec<u8>>,
) -> (r: Result<(), alloy_trie::proof::ProofVerificationError>)
    requires
        chain_walkable(bytes_list_view(proof@)),
    ensures
        r is Ok <==> proof_accepted(
            root.bytes@,
            path@,
            opt_bytes_view(expected),
            bytes_list_view(proof@),
        ),
        (proof@.len() == 0 || proof@[0]@ == empty_node_spec()) ==> (r is Ok <==> (root.bytes@
            == empty_root_spec() && expected is None)),
{
    let nodes: Vec<alloy_primitives::Bytes> = proof.iter().map(
        |n| alloy_primitives::Bytes::copy_from_slice(n),
    ).collect();
    let key = alloy_trie::Nibbles::from_nibbles_unchecked(&path.data);
    alloy_trie::proof::verify_proof(alloy_primitives::B256::new(root.bytes), key, expected, &nodes)
}

} // verus!
