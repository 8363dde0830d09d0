//! Single-account and single-slot proofs, and their verification against a root.
use vstd::prelude::*;
use crate::codec::{
    DecodedNode, NodeView, TrieAccount, bytes_list_view, chain_walkable, check_proof,
    empty_root_hash, proof_walkable, unwalkable_node_error,
    empty_root_spec, encode_trie_account, encode_u256, keccak, keccak_empty, keccak_empty_spec,
    keccak_of, proof_accepted, trie_account_rlp_of, u256_rlp_of,
};
use crate::primitives::{Address, B256, Nibbles, U256, unpack_spec};

verus! {

/// An account's fields as plain values.
pub struct AccountView {
    pub balance: Seq<u64>,
    pub nonce: u64,
    pub bytecode_hash: Option<Seq<u8>>,
}

/// An account: balance, nonce and, unless it has no code, the hash of its bytecode.
#[derive(Clone, Copy, Debug, PartialEq, Eq)]
pub struct Account {
    pub balance: U256,
    pub nonce: u64,
    pub bytecode_hash: Option<B256>,
}

impl View for Account {
    type V = AccountView;

    open spec fn view(&self) -> AccountView {
        AccountView {
            balance: self.balance.limbs@,
            nonce: self.nonce,
            bytecode_hash: match self.bytecode_hash {
                Some(h) => Some(h.bytes@),
                None => None,
            },
        }
    }
}

/// The code hash that an account's record holds.
pub open spec fn code_hash_spec(a: AccountView) -> Seq<u8> {
    match a.bytecode_hash {
        Some(h) => h,
        None => keccak_empty_spec(),
    }
}

/// The account with no balance, nonce or code.
pub open spec fn default_account_spec() -> AccountView {
    AccountView { balance: seq![0u64, 0u64, 0u64, 0u64], nonce: 0, bytecode_hash: None }
}

impl Account {
    /// The account with no balance, nonce or code.
    pub fn empty() -> (r: Account)
        ensures
            r@ == default_account_spec(),
    {
        Account { balance: U256::zero(), nonce: 0, bytecode_hash: None }
    }

    /// The record of this account under the given storage root.
    pub fn into_trie_account(&self, storage_root: B256) -> (r: TrieAccount)
        ensures
            r.nonce == self.nonce,
            r.balance.limbs@ == self.balance.limbs@,
            r.storage_root.bytes@ == storage_root.bytes@,
            r.code_hash.bytes@ == code_hash_spec(self@),
    {
        let code_hash = match self.bytecode_hash {
            Some(h) => h,
            None => keccak_empty(),
        };
        TrieAccount { nonce: self.nonce, balance: self.balance, storage_root, code_hash }
    }
}

/// A storage proof as plain values.
pub struct StorageProofView {
    pub key: Seq<u8>,
    pub nibbles: Seq<u8>,
    pub value: Seq<u64>,
    pub proof: Seq<Seq<u8>>,
}

/// The proof of one storage slot: its key, the path of its hash, its value
/// (zero when absent) and the encoded nodes from the storage root along that path.
#[derive(Debug, PartialEq, Eq)]
pub struct StorageProof {
    pub key: B256,
    pub nibbles: Nibbles,
    pub value: U256,
    pub proof: Vec<Vec<u8>>,
}

impl View for StorageProof {
    type V = StorageProofView;

    open spec fn view(&self) -> StorageProofView {
        StorageProofView {
            key: self.key.bytes@,
            nibbles: self.nibbles@,
            value: self.value.limbs@,
            proof: bytes_list_view(self.proof@),
        }
    }
}

/// What a proof of a slot should show: absence for zero, else the value's encoding.
pub open spec fn expected_slot_value(value: Seq<u64>) -> Option<Seq<u8>> {
    if value == seq![0u64, 0u64, 0u64, 0u64] {
        None
    } else {
        Some(u256_rlp_of(value))
    }
}

/// Whether a storage proof verifies against `root`.
pub open spec fn storage_proof_valid(p: StorageProofView, root: Seq<u8>) -> bool {
    chain_walkable(p.proof) && proof_accepted(root, p.nibbles, expected_slot_value(p.value), p.proof)
}

/// The proof of a slot that was never looked at: zero and no node.
pub open spec fn absent_slot_proof(key: Seq<u8>) -> StorageProofView {
    StorageProofView {
        key,
        nibbles: unpack_spec(keccak_of(key)),
        value: seq![0u64, 0u64, 0u64, 0u64],
        proof: Seq::empty(),
    }
}

impl StorageProof {
    /// The proof of slot `key` with value zero and no node.
    pub fn new(key: B256) -> (r: StorageProof)
        ensures
            r@ == absent_slot_proof(key.bytes@),
    {
        let hashed = keccak(key.bytes.as_slice());
        let r = StorageProof {
            key,
            nibbles: Nibbles::unpack(&hashed),
            value: U256::zero(),
            proof: Vec::new(),
        };
        assert(bytes_list_view(r.proof@) =~= Seq::empty());
        r
    }

    /// The proof of slot `key`, whose hash is `hashed_key`, with value zero and no node.
    pub fn new_with_hashed(key: B256, hashed_key: B256) -> (r: StorageProof)
        ensures
            r.key == key,
            r.nibbles@ == unpack_spec(hashed_key.bytes@),
            r.value.is_zero_spec(),
            r.proof@.len() == 0,
    {
        StorageProof {
            key,
            nibbles: Nibbles::unpack(&hashed_key),
            value: U256::zero(),
            proof: Vec::new(),
        }
    }

    /// The proof of slot `key` at path `nibbles`, with value zero and no node.
    pub fn new_with_nibbles(key: B256, nibbles: Nibbles) -> (r: StorageProof)
        ensures
            r.key == key,
            r.nibbles == nibbles,
            r.value.is_zero_spec(),
            r.proof@.len() == 0,
    {
        StorageProof { key, nibbles, value: U256::zero(), proof: Vec::new() }
    }

    /// The same proof with the given nodes.
    pub fn with_proof(self, proof: Vec<Vec<u8>>) -> (r: StorageProof)
        ensures
            r.key == self.key,
            r.nibbles == self.nibbles,
            r.value == self.value,
            r.proof == proof,
    {
        let mut r = self;
        r.proof = proof;
        r
    }

    /// Checks the nodes against the storage root `root`: they must prove the value
    /// at the slot's path, or its absence when the value is zero. A chain that
    /// holds an in-place extension whose child is not a branch is an error.
    pub fn verify(&self, root: &B256) -> (r: Result<(), alloy_trie::proof::ProofVerificationError>)
        ensures
            r is Ok <==> storage_proof_valid(self@, root.bytes@),
            (self.proof@.len() == 0 || self.proof@[0]@ == seq![0x80u8]) ==> (r is Ok <==> (
            root.bytes@ == empty_root_spec() && self.value.is_zero_spec())),
    {
        if !proof_walkable(&self.proof) {
            return Err(unwalkable_node_error());
        }
        let expected = if self.value.is_zero() {
            None
        } else {
            Some(encode_u256(&self.value))
        };
        check_proof(root, &self.nibbles, expected, &self.proof)
    }
}

/// An account proof as plain values.
pub struct AccountProofView {
    pub address: Seq<u8>,
    pub info: Option<AccountView>,
    pub proof: Seq<Seq<u8>>,
    pub storage_root: Seq<u8>,
    pub storage_proofs: Seq<StorageProofView>,
}

/// The proof of one account: its address, its fields (`None` when proven absent),
/// the encoded nodes from the state root along the path of its hashed address,
/// its storage root, and proofs of the requested slots.
#[derive(Debug, PartialEq, Eq)]
pub struct AccountProof {
    pub address: Address,
    pub info: Option<Account>,
    pub proof: Vec<Vec<u8>>,
    pub storage_root: B256,
    pub storage_proofs: Vec<StorageProof>,
}

impl View for AccountProof {
    type V = AccountProofView;

    open spec fn view(&self) -> AccountProofView {
        AccountProofView {
            address: self.address.bytes@,
            info: match self.info {
                Some(a) => Some(a@),
                None => None,
            },
            proof: bytes_list_view(self.proof@),
            storage_root: self.storage_root.bytes@,
            storage_proofs: self.storage_proofs@.map_values(|p: StorageProof| p@),
        }
    }
}

/// What a proof of an account should show: absence when the account is absent and
/// its storage empty, else the encoding of its record.
pub open spec fn expected_account_value(info: Option<AccountView>, storage_root: Seq<u8>) -> Option<
    Seq<u8>,
> {
    if info is None && storage_root == empty_root_spec() {
        None
    } else {
        let a = match info {
            Some(a) => a,
            None => default_account_spec(),
        };
        Some(trie_account_rlp_of(a.nonce, a.balance, storage_root, code_hash_spec(a)))
    }
}

/// Whether an account proof verifies against the state root `root`: every storage
/// proof against its storage root, and the account's own chain.
pub open spec fn account_proof_valid(p: AccountProofView, root: Seq<u8>) -> bool {
    &&& forall|i: int|
        0 <= i < p.storage_proofs.len() ==> storage_proof_valid(
            #[trigger] p.storage_proofs[i],
            p.storage_root,
        )
    &&& chain_walkable(p.proof)
    &&& proof_accepted(
        root,
        unpack_spec(keccak_of(p.address)),
        expected_account_value(p.info, p.storage_root),
        p.proof,
    )
}

impl AccountProof {
    /// The proof of an absent account with empty storage and no node.
    pub fn new(address: Address) -> (r: AccountProof)
        ensures
            r@ == (AccountProofView {
                address: address.bytes@,
                info: None,
                proof: Seq::empty(),
                storage_root: empty_root_spec(),
                storage_proofs: Seq::empty(),
            }),
    {
        let r = AccountProof {
            address,
            info: None,
            proof: Vec::new(),
            storage_root: empty_root_hash(),
            storage_proofs: Vec::new(),
        };
        assert(bytes_list_view(r.proof@) =~= Seq::empty());
        assert(r.storage_proofs@.map_values(|p: StorageProof| p@) =~= Seq::empty());
        r
    }

    /// Checks every storage proof against the storage root, in order, stopping
    /// at the first that fails; then the account's nodes against `root`. A chain
    /// that holds an in-place extension whose child is not a branch is an error.
    pub fn verify(&self, root: &B256) -> (r: Result<(), alloy_trie::proof::ProofVerificationError>)
        ensures
            r is Ok <==> account_proof_valid(self@, root.bytes@),
            (self.proof@.len() == 0 || self.proof@[0]@ == seq![0x80u8]) ==> (r is Ok <==> ((
            forall|i: int|
                0 <= i < self@.storage_proofs.len() ==> storage_proof_valid(
                    #[trigger] self@.storage_proofs[i],
                    self@.storage_root,
                )) && root.bytes@ == empty_root_spec() && expected_account_value(
                self@.info,
                self@.storage_root,
            ) is None)),
    {
        let mut i: usize = 0;
        while i < self.storage_proofs.len()
            invariant
                i <= self.storage_proofs@.len(),
                forall|j: int|
                    0 <= j < i ==> storage_proof_valid(
                        #[trigger] self@.storage_proofs[j],
                        self@.storage_root,
                    ),
            decreases self.storage_proofs@.len() - i,
        {
            let res = self.storage_proofs[i].verify(&self.storage_root);
            match res {
                Ok(()) => {},
                Err(e) => {
                    assert(!storage_proof_valid(self@.storage_proofs[i as int], self@.storage_root));
                    return Err(e);
                },
            }
            i = i + 1;
        }
        let empty_root = empty_root_hash();
        let expected = if self.info.is_none() && self.storage_root.same(&empty_root) {
            None
        } else {
            let info = match self.info {
                Some(a) => a,
                None => Account::empty(),
            };
            Some(encode_trie_account(&info.into_trie_account(self.storage_root)))
        };
        let hashed = keccak(self.address.bytes.as_slice());
        let nibbles = Nibbles::unpack(&hashed);
        if !proof_walkable(&self.proof) {
            return Err(unwalkable_node_error());
        }
        check_proof(root, &nibbles, expected, &self.proof)
    }
}

/// A storage proof over decoded nodes, as plain values.
pub struct DecodedStorageProofView {
    pub key: Seq<u8>,
    pub nibbles: Seq<u8>,
    pub value: Seq<u64>,
    pub proof: Seq<NodeView>,
}

/// The proof of one storage slot, with the nodes decoded.
#[derive(Debug, PartialEq, Eq)]
pub struct DecodedStorageProof {
    pub key: B256,
    pub nibbles: Nibbles,
    pub value: U256,
    pub proof: Vec<DecodedNode>,
}

impl View for DecodedStorageProof {
    type V = DecodedStorageProofView;

    open spec fn view(&self) -> DecodedStorageProofView {
        DecodedStorageProofView {
            key: self.key.bytes@,
            nibbles: self.nibbles@,
            value: self.value.limbs@,
            proof: self.proof@.map_values(|n: DecodedNode| n@),
        }
    }
}

impl DecodedStorageProof {
    /// The proof of slot `key` with value zero and no node.
    pub fn new(key: B256) -> (r: DecodedStorageProof)
        ensures
            r.key == key,
            r.nibbles@ == unpack_spec(keccak_of(key.bytes@)),
            r.value.is_zero_spec(),
            r.proof@.len() == 0,
    {
        let hashed = keccak(key.bytes.as_slice());
        DecodedStorageProof {
            key,
            nibbles: Nibbles::unpack(&hashed),
            value: U256::zero(),
            proof: Vec::new(),
        }
    }

    /// The proof of slot `key`, whose hash is `hashed_key`, with value zero and no node.
    pub fn new_with_hashed(key: B256, hashed_key: B256) -> (r: DecodedStorageProof)
        ensures
            r.key == key,
            r.nibbles@ == unpack_spec(hashed_key.bytes@),
            r.value.is_zero_spec(),
            r.proof@.len() == 0,
    {
        DecodedStorageProof {
            key,
            nibbles: Nibbles::unpack(&hashed_key),
            value: U256::zero(),
            proof: Vec::new(),
        }
    }

    /// The proof of slot `key` at path `nibbles`, with value zero and no node.
    pub fn new_with_nibbles(key: B256, nibbles: Nibbles) -> (r: DecodedStorageProof)
        ensures
            r.key == key,
            r.nibbles == nibbles,
            r.value.is_zero_spec(),
            r.proof@.len() == 0,
    {
        DecodedStorageProof { key, nibbles, value: U256::zero(), proof: Vec::new() }
    }

    /// The same proof with the given nodes.
    pub fn with_proof(self, proof: Vec<DecodedNode>) -> (r: DecodedStorageProof)
        ensures
            r.key == self.key,
            r.nibbles == self.nibbles,
            r.value == self.value,
            r.proof == proof,
    {
        let mut r = self;
        r.proof = proof;
        r
    }
}

} // verus!

verus! {

impl Default for AccountProof {
    fn default() -> (r: AccountProof)
        ensures
            r@ == (AccountProofView {
                address: Seq::new(20, |i: int| 0u8),
                info: None,
                proof: Seq::empty(),
                storage_root: empty_root_spec(),
                storage_proofs: Seq::empty(),
            }),
    {
        let r = AccountProof::new(Address { bytes: [0u8; 20] });
        assert(r@.address =~= Seq::new(20, |i: int| 0u8));
        r
    }
}

impl AccountProof {
    /// For each storage proof, in order, whose key is among `slots`: its index
    /// and that of the first slot equal to its key. A response that lists the
    /// requested slots with their proofs is built from these pairs.
    pub fn requested_storage_proofs(&self, slots: &[B256]) -> (r: Vec<(usize, usize)>)
        ensures
            forall|k: int|
                0 <= k < r@.len() ==> {
                    let (p, s) = #[trigger] r@[k];
                    &&& p < self.storage_proofs@.len()
                    &&& s < slots@.len()
                    &&& slots@[s as int].bytes@ == self.storage_proofs@[p as int].key.bytes@
                    &&& forall|l: int| 0 <= l < s ==> slots@[l].bytes@ != self.storage_proofs@[p as int].key.bytes@
                },
            forall|k1: int, k2: int| 0 <= k1 < k2 < r@.len() ==> (#[trigger] r@[k1]).0 < (#[trigger] r@[k2]).0,
            forall|p: int|
                0 <= p < self.storage_proofs@.len() && (exists|s: int|
                    0 <= s < slots@.len() && (#[trigger] slots@[s]).bytes@ == (
                    #[trigger] self.storage_proofs@[p]).key.bytes@)
                    ==> exists|k: int| 0 <= k < r@.len() && (#[trigger] r@[k]).0 == p,
    {
        let mut r: Vec<(usize, usize)> = Vec::new();
        let mut p: usize = 0;
        while p < self.storage_proofs.len()
            invariant
                p <= self.storage_proofs@.len(),
                forall|k: int|
                    0 <= k < r@.len() ==> {
                        let (pp, s) = #[trigger] r@[k];
                        &&& pp < p
                        &&& s < slots@.len()
                        &&& slots@[s as int].bytes@ == self.storage_proofs@[pp as int].key.bytes@
                        &&& forall|l: int| 0 <= l < s ==> slots@[l].bytes@ != self.storage_proofs@[pp as int].key.bytes@
                    },
                forall|k1: int, k2: int| 0 <= k1 < k2 < r@.len() ==> (#[trigger] r@[k1]).0 < (#[trigger] r@[k2]).0,
                forall|q: int|
                    0 <= q < p && (exists|s: int|
                        0 <= s < slots@.len() && (#[trigger] slots@[s]).bytes@ == (
                        #[trigger] self.storage_proofs@[q]).key.bytes@)
                        ==> exists|k: int| 0 <= k < r@.len() && (#[trigger] r@[k]).0 == q,
            decreases self.storage_proofs@.len() - p,
        {
            let key = &self.storage_proofs[p].key;
            let mut s: usize = 0;
            let mut found = false;
            while s < slots.len()
                invariant_except_break
                    !found,
                invariant
                    s <= slots@.len(),
                    key == &self.storage_proofs@[p as int].key,
                    forall|l: int| 0 <= l < s ==> slots@[l].bytes@ != key.bytes@,
                ensures
                    found ==> s < slots@.len() && slots@[s as int].bytes@ == key.bytes@,
                    !found ==> s == slots@.len(),
                    forall|l: int| 0 <= l < s ==> slots@[l].bytes@ != key.bytes@,
                decreases slots@.len() - s,
            {
                if slots[s].same(key) {
                    found = true;
                    break;
                }
                s = s + 1;
            }
            let ghost before = r@;
            if found {
                r.push((p, s));
                assert(r@[r@.len() - 1].0 == p);
            } else {
                assert(forall|l: int| 0 <= l < slots@.len() ==> slots@[l].bytes@ != self.storage_proofs@[p as int].key.bytes@);
            }
            assert forall|q: int|
                0 <= q < p + 1 && (exists|s: int|
                    0 <= s < slots@.len() && (#[trigger] slots@[s]).bytes@ == (
                    #[trigger] self.storage_proofs@[q]).key.bytes@)
                    implies exists|k: int| 0 <= k < r@.len() && (#[trigger] r@[k]).0 == q by {
                if q < p {
                    let k = choose|k: int| 0 <= k < before.len() && (#[trigger] before[k]).0 == q;
                    assert(r@[k] == before[k]);
                }
            }
            p = p + 1;
        }
        r
    }
}

} // verus!

verus! {

impl Default for StorageProof {
    fn default() -> (r: StorageProof)
        ensures
            r@ == (StorageProofView {
                key: Seq::new(32, |i: int| 0u8),
                nibbles: Seq::empty(),
                value: seq![0u64, 0u64, 0u64, 0u64],
                proof: Seq::empty(),
            }),
    {
        let r = StorageProof {
            key: B256 { bytes: [0u8; 32] },
            nibbles: Nibbles::root(),
            value: U256::zero(),
            proof: Vec::new(),
        };
        assert(r@.key =~= Seq::new(32, |i: int| 0u8));
        assert(r@.proof =~= Seq::empty());
        r
    }
}

impl Default for DecodedStorageProof {
    fn default() -> (r: DecodedStorageProof)
        ensures
            r@ == (DecodedStorageProofView {
                key: Seq::new(32, |i: int| 0u8),
                nibbles: Seq::empty(),
                value: seq![0u64, 0u64, 0u64, 0u64],
                proof: Seq::empty(),
            }),
    {
        let r = DecodedStorageProof {
            key: B256 { bytes: [0u8; 32] },
            nibbles: Nibbles::root(),
            value: U256::zero(),
            proof: Vec::new(),
        };
        assert(r@.key =~= Seq::new(32, |i: int| 0u8));
        assert(r@.proof =~= Seq::empty());
        r
    }
}

} // verus!
