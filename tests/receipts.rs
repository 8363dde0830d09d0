use trie_multiproof::receipts::{
    narrow_u128, BasicOpReceiptBuilder, DepositReceipt, L1BlockInfo, Log, OpReceipt, OpTxType,
    ReceiptBuilderCtx,
};
use trie_multiproof::{Address, B256, U256};

fn ctx(tx_type: OpTxType, info: Option<L1BlockInfo>) -> ReceiptBuilderCtx {
    ReceiptBuilderCtx {
        tx_type,
        success: true,
        logs: vec![Log { address: Address::new([1; 20]), topics: vec![B256::new([2; 32])], data: vec![3] }],
        cumulative_gas_used: 21000,
        l1_block_info: info,
    }
}

fn info() -> L1BlockInfo {
    L1BlockInfo {
        l1_base_fee: U256 { limbs: [5, 1, 0, 0] },
        l1_fee_overhead: Some(U256::from_u64(7)),
        l1_base_fee_scalar: U256 { limbs: [0, 0, 1, 0] },
        token_ratio: None,
    }
}

#[test]
fn deposit_context_is_handed_back() {
    let b = BasicOpReceiptBuilder;
    let c = ctx(OpTxType::Deposit, None);
    let back = b.build_receipt(c).unwrap_err();
    assert_eq!(back, ctx(OpTxType::Deposit, None));
}

#[test]
fn eip1559_receipt_keeps_fields() {
    let b = BasicOpReceiptBuilder;
    let r = b.build_receipt(ctx(OpTxType::Eip1559, Some(info()))).unwrap();
    match r {
        OpReceipt::Eip1559(s) => {
            assert!(s.status);
            assert_eq!(s.cumulative_gas_used, 21000);
            assert_eq!(s.logs.len(), 1);
            assert_eq!(s.l1_base_fee, Some((1u128 << 64) + 5));
            assert_eq!(s.l1_fee_overhead, Some(7));
            assert_eq!(s.l1_base_fee_scalar, None);
            assert_eq!(s.token_ratio, None);
        }
        other => panic!("unexpected {:?}", other),
    }
}

#[test]
fn each_kind_gets_its_variant() {
    let b = BasicOpReceiptBuilder;
    assert!(matches!(b.build_receipt(ctx(OpTxType::Legacy, Some(info()))), Ok(OpReceipt::Legacy(_))));
    assert!(matches!(b.build_receipt(ctx(OpTxType::Eip2930, Some(info()))), Ok(OpReceipt::Eip2930(_))));
    assert!(matches!(b.build_receipt(ctx(OpTxType::Eip7702, Some(info()))), Ok(OpReceipt::Eip7702(_))));
}

#[test]
fn deposit_receipt_wraps_inner() {
    let b = BasicOpReceiptBuilder;
    let inner = DepositReceipt {
        status: false,
        cumulative_gas_used: 1,
        logs: vec![],
        deposit_nonce: Some(3),
        deposit_receipt_version: Some(1),
    };
    match b.build_deposit_receipt(inner) {
        OpReceipt::Deposit(d) => assert_eq!(d.deposit_nonce, Some(3)),
        other => panic!("unexpected {:?}", other),
    }
}

#[test]
fn narrowing_to_128_bits() {
    assert_eq!(narrow_u128(&U256 { limbs: [u64::MAX, u64::MAX, 0, 0] }), Some(u128::MAX));
    assert_eq!(narrow_u128(&U256 { limbs: [0, 0, 0, 1] }), None);
    assert_eq!(narrow_u128(&U256::zero()), Some(0));
}
