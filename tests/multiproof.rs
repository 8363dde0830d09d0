use trie_multiproof::{
    empty_root_hash, hash_address, keccak_empty, Address, DecodedNode, DecodedStorageMultiProof,
    MaskMap, MultiProof, Nibbles, NodeMap, StorageMultiProof, B256, U256,
};

fn random_b256() -> B256 {
    B256::new(alloy_primitives::B256::random().0)
}

fn encoded_u256(v: u64) -> Vec<u8> {
    alloy_rlp::encode_fixed_size(&alloy_primitives::U256::from(v)).to_vec()
}

fn to_alloy(b: &B256) -> alloy_primitives::B256 {
    alloy_primitives::B256::new(b.bytes)
}

fn node_map_from(nodes: &alloy_trie::proof::ProofNodes) -> NodeMap {
    let mut map = NodeMap::new();
    for (k, v) in nodes.iter() {
        map.insert(Nibbles::from_nibbles(k.to_vec()), v.to_vec());
    }
    map
}

fn account_record(nonce: u64, balance: u64, code_hash: alloy_primitives::B256) -> Vec<u8> {
    alloy_rlp::encode(alloy_trie::TrieAccount {
        nonce,
        balance: alloy_primitives::U256::from(balance),
        storage_root: alloy_trie::EMPTY_ROOT_HASH,
        code_hash,
    })
}

/// Builds a state trie of the given accounts (address, nonce, balance) and keeps
/// the proof nodes of the paths of `targets`. Returns the root and the nodes.
fn state_trie(
    accounts: &[(Address, u64, u64)],
    targets: &[Address],
) -> (alloy_primitives::B256, alloy_trie::proof::ProofNodes) {
    let mut leaves: Vec<(alloy_trie::Nibbles, Vec<u8>)> = accounts
        .iter()
        .map(|(a, nonce, balance)| {
            let hashed = alloy_primitives::keccak256(a.bytes);
            (alloy_trie::Nibbles::unpack(hashed), account_record(*nonce, *balance, alloy_trie::KECCAK_EMPTY))
        })
        .collect();
    leaves.sort_by(|a, b| a.0.cmp(&b.0));
    let retainer = alloy_trie::proof::ProofRetainer::new(
        targets.iter().map(|a| alloy_trie::Nibbles::unpack(alloy_primitives::keccak256(a.bytes))).collect(),
    );
    let mut hb = alloy_trie::HashBuilder::default().with_proof_retainer(retainer);
    for (k, v) in &leaves {
        hb.add_leaf(k.clone(), v);
    }
    let root = hb.root();
    (root, hb.take_proof_nodes())
}

fn address(n: u8) -> Address {
    Address::new([n; 20])
}

#[test]
fn test_multiproof_extend_account_proofs() {
    let mut proof1 = MultiProof::default();
    let mut proof2 = MultiProof::default();

    let addr1 = random_b256();
    let addr2 = random_b256();

    proof1.account_subtree.insert(Nibbles::unpack(&addr1), encoded_u256(42));
    proof2.account_subtree.insert(Nibbles::unpack(&addr2), encoded_u256(43));

    proof1.extend(proof2);

    assert!(proof1.account_subtree.contains_key(&Nibbles::unpack(&addr1)));
    assert!(proof1.account_subtree.contains_key(&Nibbles::unpack(&addr2)));
}

#[test]
fn test_multiproof_extend_storage_proofs() {
    let mut proof1 = MultiProof::default();
    let mut proof2 = MultiProof::default();

    let addr = random_b256();
    let root = random_b256();

    let mut subtree1 = NodeMap::new();
    subtree1.insert(Nibbles::from_nibbles(vec![0]), encoded_u256(42));
    proof1.storages.insert(
        addr,
        StorageMultiProof {
            root,
            subtree: subtree1,
            branch_node_hash_masks: MaskMap::new(),
            branch_node_tree_masks: MaskMap::new(),
        },
    );

    let mut subtree2 = NodeMap::new();
    subtree2.insert(Nibbles::from_nibbles(vec![1]), encoded_u256(43));
    proof2.storages.insert(
        addr,
        StorageMultiProof {
            root,
            subtree: subtree2,
            branch_node_hash_masks: MaskMap::new(),
            branch_node_tree_masks: MaskMap::new(),
        },
    );

    proof1.extend(proof2);

    let storage = proof1.storages.get(&addr).unwrap();
    assert_eq!(storage.root, root);
    assert!(storage.subtree.contains_key(&Nibbles::from_nibbles(vec![0])));
    assert!(storage.subtree.contains_key(&Nibbles::from_nibbles(vec![1])));
}

#[test]
fn matching_nodes_come_root_first() {
    let target = random_b256();
    let full = Nibbles::unpack(&target).data;
    let mut nodes = NodeMap::new();
    for len in [64usize, 5, 0, 2] {
        nodes.insert(Nibbles::from_nibbles(full[..len].to_vec()), vec![len as u8]);
    }
    let mut other = full[..3].to_vec();
    other[2] = (other[2] + 1) % 16;
    nodes.insert(Nibbles::from_nibbles(other), vec![99]);
    let found = nodes.matching_nodes_sorted(&Nibbles::from_nibbles(full.clone()));
    let lens: Vec<usize> = found.iter().map(|(k, _)| k.data.len()).collect();
    assert_eq!(lens, vec![0, 2, 5, 64]);
    let values: Vec<Vec<u8>> = found.iter().map(|(_, v)| v.clone()).collect();
    assert_eq!(values, vec![vec![0], vec![2], vec![5], vec![64]]);
    for (k, _) in &found {
        assert_eq!(&full[..k.data.len()], &k.data[..]);
    }
}

#[test]
fn matching_nodes_empty_when_nothing_on_path() {
    let mut nodes = NodeMap::new();
    nodes.insert(Nibbles::from_nibbles(vec![1, 2]), vec![1]);
    let found = nodes.matching_nodes_sorted(&Nibbles::from_nibbles(vec![2, 1, 0]));
    assert!(found.is_empty());
}

#[test]
fn single_leaf_account_scenario() {
    let addr = address(7);
    let hashed = alloy_primitives::keccak256(addr.bytes);
    let code_hash = alloy_primitives::keccak256([1u8, 2, 3]);
    let record = alloy_rlp::encode(alloy_trie::TrieAccount {
        nonce: 5,
        balance: alloy_primitives::U256::from(1000u64),
        storage_root: alloy_trie::EMPTY_ROOT_HASH,
        code_hash,
    });
    let leaf = alloy_trie::nodes::TrieNode::Leaf(alloy_trie::nodes::LeafNode::new(
        alloy_trie::Nibbles::unpack(hashed),
        record,
    ));
    let v1 = alloy_rlp::encode(&leaf);
    let mut mp = MultiProof::default();
    mp.account_subtree.insert(Nibbles::root(), v1.clone());
    let p = mp.account_proof(addr, &[]).unwrap();
    let info = p.info.unwrap();
    assert_eq!(info.nonce, 5);
    assert_eq!(info.balance, U256::from_u64(1000));
    assert_eq!(info.bytecode_hash, Some(B256::new(code_hash.0)));
    assert_eq!(p.proof, vec![v1.clone()]);
    assert!(p.storage_proofs.is_empty());
    assert_eq!(p.storage_root, empty_root_hash());
    let root = B256::new(alloy_primitives::keccak256(&v1).0);
    assert!(p.verify(&root).is_ok());
    assert!(p.verify(&random_b256()).is_err());
    assert!(p.verify(&empty_root_hash()).is_err());
}

#[test]
fn empty_code_hash_means_no_bytecode() {
    let addr = address(8);
    let hashed = alloy_primitives::keccak256(addr.bytes);
    let leaf = alloy_trie::nodes::TrieNode::Leaf(alloy_trie::nodes::LeafNode::new(
        alloy_trie::Nibbles::unpack(hashed),
        account_record(1, 2, alloy_trie::KECCAK_EMPTY),
    ));
    let mut mp = MultiProof::new();
    mp.account_subtree.insert(Nibbles::root(), alloy_rlp::encode(&leaf));
    let p = mp.account_proof(addr, &[]).unwrap();
    assert_eq!(p.info.unwrap().bytecode_hash, None);
    assert_eq!(keccak_empty().bytes, alloy_trie::KECCAK_EMPTY.0);
}

#[test]
fn round_trip_membership_and_absence() {
    let accounts: Vec<(Address, u64, u64)> =
        (1u8..=20).map(|i| (address(i), i as u64, 100 * i as u64)).collect();
    let absent = address(200);
    let targets = vec![address(3), address(11), absent];
    let (root, nodes) = state_trie(&accounts, &targets);
    let mut mp = MultiProof::new();
    mp.account_subtree = node_map_from(&nodes);
    let root = B256::new(root.0);

    for i in [3u8, 11] {
        let p = mp.account_proof(address(i), &[]).unwrap();
        let info = p.info.unwrap();
        assert_eq!(info.nonce, i as u64);
        assert_eq!(info.balance, U256::from_u64(100 * i as u64));
        assert_eq!(info.bytecode_hash, None);
        assert!(p.verify(&root).is_ok());
    }

    let p = mp.account_proof(absent, &[]).unwrap();
    assert!(p.info.is_none());
    assert!(!p.proof.is_empty());
    assert!(p.verify(&root).is_ok());
}

#[test]
fn tampered_node_fails_verification() {
    let accounts: Vec<(Address, u64, u64)> =
        (1u8..=20).map(|i| (address(i), i as u64, 7 * i as u64)).collect();
    let (root, nodes) = state_trie(&accounts, &[address(5)]);
    let mut mp = MultiProof::new();
    mp.account_subtree = node_map_from(&nodes);
    let root = B256::new(root.0);
    let p = mp.account_proof(address(5), &[]).unwrap();
    assert!(p.verify(&root).is_ok());
    for n in 0..p.proof.len() {
        for pos in [0usize, p.proof[n].len() / 2, p.proof[n].len() - 1] {
            let mut q = mp.account_proof(address(5), &[]).unwrap();
            q.proof[n][pos] ^= 0x01;
            assert!(q.verify(&root).is_err());
        }
    }
}

#[test]
fn storage_round_trip() {
    let slots: Vec<B256> = (1u8..=12).map(|i| B256::new([i; 32])).collect();
    let mut leaves: Vec<(alloy_trie::Nibbles, Vec<u8>)> = slots
        .iter()
        .enumerate()
        .map(|(i, s)| {
            (
                alloy_trie::Nibbles::unpack(alloy_primitives::keccak256(s.bytes)),
                encoded_u256(1000 + i as u64),
            )
        })
        .collect();
    leaves.sort_by(|a, b| a.0.cmp(&b.0));
    let absent = B256::new([0xee; 32]);
    let targets = [slots[2], slots[9], absent]
        .iter()
        .map(|s| alloy_trie::Nibbles::unpack(alloy_primitives::keccak256(s.bytes)))
        .collect();
    let mut hb = alloy_trie::HashBuilder::default()
        .with_proof_retainer(alloy_trie::proof::ProofRetainer::new(targets));
    for (k, v) in &leaves {
        hb.add_leaf(k.clone(), v);
    }
    let root = B256::new(hb.root().0);
    let sp = StorageMultiProof {
        root,
        subtree: node_map_from(&hb.take_proof_nodes()),
        branch_node_hash_masks: MaskMap::new(),
        branch_node_tree_masks: MaskMap::new(),
    };
    let p = sp.storage_proof(slots[2]).unwrap();
    assert_eq!(p.value, U256::from_u64(1002));
    assert!(p.verify(&root).is_ok());
    let p = sp.storage_proof(slots[9]).unwrap();
    assert_eq!(p.value, U256::from_u64(1009));
    assert!(p.verify(&root).is_ok());
    let p = sp.storage_proof(absent).unwrap();
    assert!(p.value.is_zero());
    assert!(p.verify(&root).is_ok());
    assert!(p.verify(&empty_root_hash()).is_err());

    let mut mp = MultiProof::new();
    let account = address(1);
    let hashed = hash_address(&account);
    let storage_root = sp.root;
    mp.storages.insert(hashed, sp);
    let ap = mp.account_proof(account, &[slots[2], absent]).unwrap();
    assert_eq!(ap.storage_root, storage_root);
    assert_eq!(ap.storage_proofs.len(), 2);
    assert_eq!(ap.storage_proofs[0].value, U256::from_u64(1002));
    assert!(ap.storage_proofs[1].value.is_zero());
}

#[test]
fn empty_storage_proof_verifies_against_empty_root() {
    let sp = StorageMultiProof::empty();
    for slot in [random_b256(), B256::new([0; 32])] {
        let p = sp.storage_proof(slot).unwrap();
        assert!(p.value.is_zero());
        assert_eq!(p.proof, vec![vec![0x80u8]]);
        assert_eq!(p.key, slot);
        assert!(p.verify(&empty_root_hash()).is_ok());
        assert!(p.verify(&random_b256()).is_err());
    }
}

#[test]
fn decoded_empty_storage_proof() {
    let sp = DecodedStorageMultiProof::empty();
    let p = sp.storage_proof(random_b256()).unwrap();
    assert!(p.value.is_zero());
    assert_eq!(p.proof, vec![DecodedNode::EmptyRoot]);
    assert_eq!(sp.root, empty_root_hash());
}

#[test]
fn decoded_storage_proof_reads_leaf() {
    let slot = B256::new([4; 32]);
    let hashed = alloy_primitives::keccak256(slot.bytes);
    let leaf = alloy_trie::nodes::TrieNode::Leaf(alloy_trie::nodes::LeafNode::new(
        alloy_trie::Nibbles::unpack(hashed),
        encoded_u256(77),
    ));
    let mut sp = DecodedStorageMultiProof::empty();
    assert!(sp.subtree.insert_encoded(Nibbles::root(), alloy_rlp::encode(&leaf)).is_ok());
    let p = sp.storage_proof(slot).unwrap();
    assert_eq!(p.value, U256::from_u64(77));
    assert_eq!(p.proof.len(), 1);
    assert!(matches!(p.proof[0], DecodedNode::Leaf { .. }));
    assert!(sp.subtree.insert_encoded(Nibbles::root(), vec![0xc1, 0x01, 0x02]).is_err());
}

#[test]
fn slot_of_untouched_storage_has_no_proof() {
    let mp = MultiProof::new();
    let slot = B256::new([9; 32]);
    let p = mp.account_proof(address(1), &[slot]).unwrap();
    assert!(p.info.is_none());
    assert!(p.proof.is_empty());
    assert_eq!(p.storage_root, empty_root_hash());
    assert_eq!(p.storage_proofs.len(), 1);
    assert!(p.storage_proofs[0].value.is_zero());
    assert!(p.storage_proofs[0].proof.is_empty());
    assert_eq!(
        Nibbles::unpack(&B256::new(alloy_primitives::keccak256(slot.bytes).0)),
        p.storage_proofs[0].nibbles
    );
    assert!(p.verify(&empty_root_hash()).is_ok());
}

#[test]
fn malformed_last_node_is_a_decode_error() {
    let addr = address(3);
    let hashed = hash_address(&addr);
    let mut mp = MultiProof::new();
    mp.account_subtree.insert(Nibbles::unpack(&hashed), vec![0xff, 0x00]);
    assert!(mp.account_proof(addr, &[]).is_err());

    let leaf = alloy_trie::nodes::TrieNode::Leaf(alloy_trie::nodes::LeafNode::new(
        alloy_trie::Nibbles::unpack(to_alloy(&hashed)),
        vec![0xc2, 0x01],
    ));
    let mut mp = MultiProof::new();
    mp.account_subtree.insert(Nibbles::root(), alloy_rlp::encode(&leaf));
    assert!(mp.account_proof(addr, &[]).is_err());
}

#[test]
fn leaf_of_another_key_proves_absence() {
    let addr = address(3);
    let other = hash_address(&address(4));
    let leaf = alloy_trie::nodes::TrieNode::Leaf(alloy_trie::nodes::LeafNode::new(
        alloy_trie::Nibbles::unpack(to_alloy(&other)),
        account_record(1, 1, alloy_trie::KECCAK_EMPTY),
    ));
    let mut mp = MultiProof::new();
    mp.account_subtree.insert(Nibbles::root(), alloy_rlp::encode(&leaf));
    let p = mp.account_proof(addr, &[]).unwrap();
    assert!(p.info.is_none());
    assert_eq!(p.proof.len(), 1);
}

#[test]
fn extend_disjoint_in_either_order() {
    let a1 = random_b256();
    let a2 = random_b256();
    let build = |first: bool| {
        let mut x = MultiProof::new();
        x.account_subtree.insert(Nibbles::unpack(&a1), vec![1]);
        let mut y = MultiProof::new();
        y.account_subtree.insert(Nibbles::unpack(&a2), vec![2]);
        if first {
            x.extend(y);
            x
        } else {
            y.extend(x);
            y
        }
    };
    let ab = build(true);
    let ba = build(false);
    for t in [&a1, &a2] {
        let path = Nibbles::unpack(t);
        assert_eq!(ab.account_subtree.contains_key(&path), ba.account_subtree.contains_key(&path));
        assert_eq!(
            ab.account_subtree.matching_nodes_sorted(&path),
            ba.account_subtree.matching_nodes_sorted(&path)
        );
    }
}

#[test]
fn extend_with_itself_changes_nothing() {
    let a1 = random_b256();
    let mut x = MultiProof::new();
    x.account_subtree.insert(Nibbles::unpack(&a1), vec![1]);
    x.branch_node_hash_masks.insert(Nibbles::from_nibbles(vec![1]), 0b101);
    let mut copy = MultiProof::new();
    copy.account_subtree = x.account_subtree.duplicate();
    copy.branch_node_hash_masks.insert(Nibbles::from_nibbles(vec![1]), 0b101);
    x.extend(copy);
    let path = Nibbles::unpack(&a1);
    assert_eq!(x.account_subtree.matching_nodes_sorted(&path), vec![(path, vec![1])]);
    assert_eq!(x.branch_node_hash_masks.get(&Nibbles::from_nibbles(vec![1])), Some(0b101));
    assert!(!x.is_empty());
}

#[test]
fn extend_conflict_keeps_later_node_and_first_root() {
    let addr = random_b256();
    let path = Nibbles::from_nibbles(vec![0]);
    let mk = |root: B256, node: u8| {
        let mut subtree = NodeMap::new();
        subtree.insert(Nibbles::from_nibbles(vec![0]), vec![node]);
        let mut m = MultiProof::new();
        m.storages.insert(
            addr,
            StorageMultiProof {
                root,
                subtree,
                branch_node_hash_masks: MaskMap::new(),
                branch_node_tree_masks: MaskMap::new(),
            },
        );
        m
    };
    let r1 = B256::new([1; 32]);
    let r2 = B256::new([2; 32]);
    let mut a = mk(r1, 10);
    a.extend(mk(r2, 20));
    let s = a.storages.get(&addr).unwrap();
    assert_eq!(s.root, r1);
    assert_eq!(s.subtree.matching_nodes_sorted(&path), vec![(Nibbles::from_nibbles(vec![0]), vec![20])]);
}

#[test]
fn mask_map_last_write_wins() {
    let mut m = MaskMap::new();
    assert!(m.is_empty());
    m.insert(Nibbles::from_nibbles(vec![3]), 1);
    m.insert(Nibbles::from_nibbles(vec![3]), 2);
    let mut o = MaskMap::new();
    o.insert(Nibbles::from_nibbles(vec![4]), 7);
    o.insert(Nibbles::from_nibbles(vec![3]), 9);
    m.extend(o);
    assert_eq!(m.get(&Nibbles::from_nibbles(vec![3])), Some(9));
    assert_eq!(m.get(&Nibbles::from_nibbles(vec![4])), Some(7));
    assert_eq!(m.get(&Nibbles::from_nibbles(vec![5])), None);
}

#[test]
fn multiproof_emptiness() {
    let mut mp = MultiProof::new();
    assert!(mp.is_empty());
    mp.storages.insert(random_b256(), StorageMultiProof::empty());
    assert!(!mp.is_empty());
    let mp2 = MultiProof::default();
    assert!(mp2.is_empty());
}

#[test]
fn storage_proof_nodes_by_slot() {
    let addr = random_b256();
    let slot = random_b256();
    let mut subtree = NodeMap::new();
    subtree.insert(Nibbles::root(), vec![1]);
    let mut mp = MultiProof::new();
    assert!(mp.storage_proof_nodes(&addr, &[slot]).is_empty());
    mp.storages.insert(
        addr,
        StorageMultiProof {
            root: random_b256(),
            subtree,
            branch_node_hash_masks: MaskMap::new(),
            branch_node_tree_masks: MaskMap::new(),
        },
    );
    let r = mp.storage_proof_nodes(&addr, &[slot, slot]);
    assert_eq!(r.len(), 2);
    assert_eq!(r[0].0, slot);
    assert_eq!(r[0].1, vec![(Nibbles::root(), vec![1])]);
}

#[test]
fn unpack_splits_bytes_high_first() {
    let mut bytes = [0u8; 32];
    bytes[0] = 0xab;
    bytes[31] = 0x0f;
    let n = Nibbles::unpack(&B256::new(bytes));
    assert_eq!(n.data.len(), 64);
    assert_eq!(&n.data[..2], &[0xa, 0xb]);
    assert_eq!(&n.data[62..], &[0x0, 0xf]);
    assert_eq!(n.data, alloy_trie::Nibbles::unpack(bytes).to_vec());
}

#[test]
fn address_hash_is_keccak() {
    let a = address(1);
    assert_eq!(hash_address(&a).bytes, alloy_primitives::keccak256(a.bytes).0);
    assert_ne!(hash_address(&a).bytes[..20], a.bytes[..]);
}

#[test]
fn requested_storage_proofs_pairs_keys_with_slots() {
    let mp = MultiProof::new();
    let s1 = B256::new([1; 32]);
    let s2 = B256::new([2; 32]);
    let s3 = B256::new([3; 32]);
    let p = mp.account_proof(address(1), &[s1, s2, s3]).unwrap();
    let pairs = p.requested_storage_proofs(&[s3, s1, s1]);
    assert_eq!(pairs, vec![(0, 1), (2, 0)]);
}

#[test]
fn account_proof_default_is_empty() {
    let p = trie_multiproof::AccountProof::default();
    assert_eq!(p.address, Address::new([0; 20]));
    assert!(p.info.is_none());
    assert_eq!(p.storage_root, empty_root_hash());
}

#[test]
fn decoded_node_map_union_keeps_later() {
    let mut a = trie_multiproof::DecodedNodeMap::new();
    assert!(a.is_empty());
    assert!(a.insert_encoded(Nibbles::from_nibbles(vec![1]), vec![0x80]).is_ok());
    let leaf = alloy_trie::nodes::TrieNode::Leaf(alloy_trie::nodes::LeafNode::new(
        alloy_trie::Nibbles::from_nibbles([2u8, 3]),
        vec![0x05],
    ));
    let mut b = trie_multiproof::DecodedNodeMap::new();
    assert!(b.insert_encoded(Nibbles::from_nibbles(vec![1]), alloy_rlp::encode(&leaf)).is_ok());
    assert!(b.insert_encoded(Nibbles::from_nibbles(vec![2]), vec![0x80]).is_ok());
    a.extend_from(b);
    assert!(a.contains_key(&Nibbles::from_nibbles(vec![2])));
    let found = a.matching_nodes_sorted(&Nibbles::from_nibbles(vec![1, 2]));
    assert_eq!(found.len(), 1);
    assert_eq!(
        found[0].1,
        DecodedNode::Leaf { key: Nibbles::from_nibbles(vec![2, 3]), value: vec![0x05] }
    );
}

#[test]
fn storage_multiproof_empty_shape() {
    let sp = StorageMultiProof::empty();
    assert_eq!(sp.root.bytes, alloy_trie::EMPTY_ROOT_HASH.0);
    assert!(sp.subtree.contains_key(&Nibbles::root()));
    assert!(sp.branch_node_hash_masks.is_empty());
    assert!(sp.branch_node_tree_masks.is_empty());
}

/// A branch whose child at nibble 0 is an in-place extension leading to the
/// empty node, with enough hashed children that the branch itself is hashed.
fn branch_with_bad_extension() -> Vec<u8> {
    let ext = alloy_trie::nodes::TrieNode::Extension(alloy_trie::nodes::ExtensionNode::new(
        alloy_trie::Nibbles::from_nibbles([1u8]),
        alloy_trie::nodes::RlpNode::from_raw(&[0x80]).unwrap(),
    ));
    let ext_enc = alloy_rlp::encode(&ext);
    let mut stack = vec![alloy_trie::nodes::RlpNode::from_raw(&ext_enc).unwrap()];
    stack.push(alloy_trie::nodes::RlpNode::word_rlp(&alloy_primitives::B256::repeat_byte(7)));
    stack.push(alloy_trie::nodes::RlpNode::word_rlp(&alloy_primitives::B256::repeat_byte(8)));
    let branch = alloy_trie::nodes::TrieNode::Branch(alloy_trie::nodes::BranchNode::new(
        stack,
        alloy_trie::TrieMask::new(0b111),
    ));
    alloy_rlp::encode(&branch)
}

#[test]
fn extension_to_non_branch_is_rejected_not_walked() {
    let node = branch_with_bad_extension();
    assert!(node.len() >= 32);
    let root = B256::new(alloy_primitives::keccak256(&node).0);
    let sp = trie_multiproof::StorageProof::new_with_nibbles(
        B256::new([0; 32]),
        Nibbles::unpack(&B256::new([0; 32])),
    )
    .with_proof(vec![node.clone()]);
    assert!(sp.verify(&root).is_err());

    let mut ap = trie_multiproof::AccountProof::new(address(1));
    ap.proof = vec![node];
    assert!(ap.verify(&root).is_err());
}

#[test]
fn fresh_account_proof_verifies_only_against_empty_root() {
    let ap = trie_multiproof::AccountProof::new(address(0));
    assert!(ap.verify(&empty_root_hash()).is_ok());
    assert!(ap.verify(&B256::new([1; 32])).is_err());
}

#[test]
fn leaf_must_complete_the_path_exactly() {
    // A leaf whose key is a suffix of the target but stands at a path that,
    // with the key, is longer than the target does not count.
    let addr = address(9);
    let hashed = hash_address(&addr);
    let full = Nibbles::unpack(&hashed).data;
    let leaf = alloy_trie::nodes::TrieNode::Leaf(alloy_trie::nodes::LeafNode::new(
        alloy_trie::Nibbles::from_nibbles(&full[1..]),
        account_record(1, 1, alloy_trie::KECCAK_EMPTY),
    ));
    let mut mp = MultiProof::new();
    mp.account_subtree.insert(Nibbles::from_nibbles(full[..2].to_vec()), alloy_rlp::encode(&leaf));
    let p = mp.account_proof(addr, &[]).unwrap();
    assert!(p.info.is_none());
    let mut mp = MultiProof::new();
    mp.account_subtree.insert(Nibbles::from_nibbles(full[..1].to_vec()), alloy_rlp::encode(&leaf));
    let p = mp.account_proof(addr, &[]).unwrap();
    assert_eq!(p.info.unwrap().nonce, 1);
}

#[test]
fn leaf_keyed_by_full_path_at_full_path_is_not_the_account() {
    let addr = address(7);
    let hashed = alloy_primitives::keccak256(addr.bytes);
    let leaf = alloy_trie::nodes::TrieNode::Leaf(alloy_trie::nodes::LeafNode::new(
        alloy_trie::Nibbles::unpack(hashed),
        account_record(5, 1000, alloy_trie::KECCAK_EMPTY),
    ));
    let mut mp = MultiProof::new();
    mp.account_subtree.insert(Nibbles::unpack(&B256::new(hashed.0)), alloy_rlp::encode(&leaf));
    let p = mp.account_proof(addr, &[]).unwrap();
    assert!(p.info.is_none());
    assert_eq!(p.proof.len(), 1);
}
