//! Building a transaction receipt from the outcome of its execution.
use vstd::prelude::*;
use crate::primitives::{Address, B256, U256};

verus! {

/// The kinds of transaction.
#[derive(Clone, Copy, Debug, PartialEq, Eq)]
pub enum OpTxType {
    Legacy,
    Eip2930,
    Eip1559,
    Eip7702,
    Deposit,
}

/// A log emitted during execution.
#[derive(Debug, PartialEq, Eq)]
pub struct Log {
    pub address: Address,
    pub topics: Vec<B256>,
    pub data: Vec<u8>,
}

/// The L1 fee parameters in force for a block.
#[derive(Clone, Copy, Debug, PartialEq, Eq)]
pub struct L1BlockInfo {
    pub l1_base_fee: U256,
    pub l1_fee_overhead: Option<U256>,
    pub l1_base_fee_scalar: U256,
    pub token_ratio: Option<U256>,
}

/// What a receipt is built from: the transaction's kind, the outcome of its
/// execution, the gas used so far in the block, and the block's L1 fee parameters.
#[derive(Debug, PartialEq, Eq)]
pub struct ReceiptBuilderCtx {
    pub tx_type: OpTxType,
    pub success: bool,
    pub logs: Vec<Log>,
    pub cumulative_gas_used: u64,
    pub l1_block_info: Option<L1BlockInfo>,
}

/// The stored receipt of a non-deposit transaction.
#[derive(Debug, PartialEq, Eq)]
pub struct StoredReceipt {
    pub status: bool,
    pub cumulative_gas_used: u64,
    pub logs: Vec<Log>,
    pub l1_base_fee: Option<u128>,
    pub l1_fee_overhead: Option<u128>,
    pub l1_base_fee_scalar: Option<u128>,
    pub token_ratio: Option<u128>,
}

/// The receipt of a deposit transaction.
#[derive(Debug, PartialEq, Eq)]
pub struct DepositReceipt {
    pub status: bool,
    pub cumulative_gas_used: u64,
    pub logs: Vec<Log>,
    pub deposit_nonce: Option<u64>,
    pub deposit_receipt_version: Option<u64>,
}

/// A receipt, by kind of transaction.
#[derive(Debug, PartialEq, Eq)]
pub enum OpReceipt {
    Legacy(StoredReceipt),
    Eip2930(StoredReceipt),
    Eip1559(StoredReceipt),
    Eip7702(StoredReceipt),
    Deposit(DepositReceipt),
}

/// The value of a 256-bit integer when it fits in 128 bits.
pub open spec fn u128_of(v: U256) -> Option<u128> {
    if v.limbs[2] == 0 && v.limbs[3] == 0 {
        Some((v.limbs[1] as int * 0x1_0000_0000_0000_0000 + v.limbs[0] as int) as u128)
    } else {
        None
    }
}

/// The value of `v` when it fits in 128 bits.
pub fn narrow_u128(v: &U256) -> (r: Option<u128>)
    ensures
        r == u128_of(*v),
{
    if v.limbs[2] == 0 && v.limbs[3] == 0 {
        let hi = v.limbs[1] as u128;
        let lo = v.limbs[0] as u128;
        assert(hi * 0x1_0000_0000_0000_0000 + lo <= u128::MAX) by (nonlinear_arith)
            requires
                hi <= u64::MAX,
                lo <= u64::MAX,
        ;
        Some(hi * 0x1_0000_0000_0000_0000 + lo)
    } else {
        None
    }
}

/// An optional value, which must fit in 128 bits when present.
pub open spec fn fits_u128(v: Option<U256>) -> bool {
    v matches Some(x) ==> u128_of(x) is Some
}

pub open spec fn narrow_opt_spec(v: Option<U256>) -> Option<u128> {
    match v {
        Some(x) => u128_of(x),
        None => None,
    }
}

fn narrow_opt(v: Option<U256>) -> (r: Option<u128>)
    ensures
        r == narrow_opt_spec(v),
{
    match v {
        Some(x) => narrow_u128(&x),
        None => None,
    }
}

/// The receipt that a non-deposit transaction's context gives.
pub open spec fn receipt_spec(ctx: ReceiptBuilderCtx) -> OpReceipt {
    let info = ctx.l1_block_info.unwrap();
    let stored = StoredReceipt {
        status: ctx.success,
        cumulative_gas_used: ctx.cumulative_gas_used,
        logs: ctx.logs,
        l1_base_fee: u128_of(info.l1_base_fee),
        l1_fee_overhead: narrow_opt_spec(info.l1_fee_overhead),
        l1_base_fee_scalar: u128_of(info.l1_base_fee_scalar),
        token_ratio: narrow_opt_spec(info.token_ratio),
    };
    match ctx.tx_type {
        OpTxType::Legacy => OpReceipt::Legacy(stored),
        OpTxType::Eip2930 => OpReceipt::Eip2930(stored),
        OpTxType::Eip1559 => OpReceipt::Eip1559(stored),
        _ => OpReceipt::Eip7702(stored),
    }
}

/// Builds the receipts of transactions of every kind but deposits.
#[derive(Clone, Copy, Debug, Default)]
pub struct BasicOpReceiptBuilder;

impl BasicOpReceiptBuilder {
    /// The receipt of a non-deposit transaction; a deposit's context is handed back
    /// unchanged, for `build_deposit_receipt`. The L1 fee fields are kept where they
    /// fit in 128 bits; the overhead and the token ratio must fit.
    pub fn build_receipt(&self, ctx: ReceiptBuilderCtx) -> (r: Result<OpReceipt, ReceiptBuilderCtx>)
        requires
            ctx.tx_type != OpTxType::Deposit ==> ctx.l1_block_info is Some,
            ctx.tx_type != OpTxType::Deposit ==> fits_u128(ctx.l1_block_info.unwrap().l1_fee_overhead),
            ctx.tx_type != OpTxType::Deposit ==> fits_u128(ctx.l1_block_info.unwrap().token_ratio),
        ensures
            ctx.tx_type == OpTxType::Deposit ==> r == Err::<OpReceipt, ReceiptBuilderCtx>(ctx),
            ctx.tx_type != OpTxType::Deposit ==> r == Ok::<OpReceipt, ReceiptBuilderCtx>(
                receipt_spec(ctx),
            ),
    {
        match ctx.tx_type {
            OpTxType::Deposit => Err(ctx),
            ty => {
                let info = ctx.l1_block_info.unwrap();
                let receipt = StoredReceipt {
                    status: ctx.success,
                    cumulative_gas_used: ctx.cumulative_gas_used,
                    logs: ctx.logs,
                    l1_base_fee: narrow_u128(&info.l1_base_fee),
                    l1_fee_overhead: narrow_opt(info.l1_fee_overhead),
                    l1_base_fee_scalar: narrow_u128(&info.l1_base_fee_scalar),
                    token_ratio: narrow_opt(info.token_ratio),
                };
                Ok(
                    match ty {
                        OpTxType::Legacy => OpReceipt::Legacy(receipt),
                        OpTxType::Eip1559 => OpReceipt::Eip1559(receipt),
                        OpTxType::Eip2930 => OpReceipt::Eip2930(receipt),
                        _ => OpReceipt::Eip7702(receipt),
                    },
                )
            },
        }
    }

    /// The receipt of a deposit transaction.
    pub fn build_deposit_receipt(&self, inner: DepositReceipt) -> (r: OpReceipt)
        ensures
            r == OpReceipt::Deposit(inner),
    {
        OpReceipt::Deposit(inner)
    }
}

} // verus!
