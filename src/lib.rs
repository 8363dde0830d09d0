//! Merkle-Patricia-Trie multiproofs: a container of proof nodes keyed by
//! nibble path, multiproofs over the account trie and the storage tries,
//! extraction of single-account and single-slot proofs, their verification
//! against a trusted root, and the merge of two multiproofs.

pub mod primitives;
pub mod codec;
pub mod nodes;
pub mod maps;
pub mod witness;
pub mod multiproof;
pub mod laws;

pub use codec::{DecodedNode, TrieAccount, empty_root_hash, hash_address, keccak_empty};
pub use maps::MaskMap;
pub use multiproof::{DecodedStorageMultiProof, MultiProof, StorageMap, StorageMultiProof};
pub use nodes::{DecodedNodeMap, NodeMap};
pub use primitives::{Address, B256, Nibbles, U256};
pub use witness::{Account, AccountProof, DecodedStorageProof, StorageProof};
pub mod receipts;
