//! Transactions as the command-line wallet builds them: an account
//! origin, version 1, a fee cap of 10,000 and a priority fee of 1 per gas,
//! and a gas limit by kind.

use vstd::prelude::*;
use crate::types::{Address, Origin, Transaction, TxKind};

verus! {

/// Fee cap per gas of wallet transactions.
pub const WALLET_MAX_FEE: u64 = 10_000;

/// Priority fee per gas of wallet transactions.
pub const WALLET_PRIORITY_FEE: u64 = 1;

/// The gas limit the wallet gives a transaction of this kind.
pub open spec fn spec_wallet_gas(kind: TxKind) -> u64 {
    match kind {
        TxKind::ShieldedShield { .. } => 500_000,
        TxKind::RollupRegister { .. } => 200_000,
        TxKind::RollupCommit { .. } => 800_000,
        _ => 100_000,
    }
}

/// The gas limit the wallet gives a transaction of this kind.
pub fn wallet_gas(kind: &TxKind) -> (g: u64)
    ensures
        g == spec_wallet_gas(*kind),
{
    match kind {
        TxKind::ShieldedShield { .. } => 500_000,
        TxKind::RollupRegister { .. } => 200_000,
        TxKind::RollupCommit { .. } => 800_000,
        _ => 100_000,
    }
}

/// An unsigned wallet transaction from `from` at `nonce`.
pub fn wallet_tx(from: Address, nonce: u64, kind: TxKind) -> (tx: Transaction)
    ensures
        tx.version == 1,
        tx.nonce == nonce,
        tx.origin == (Origin::Account { from }),
        tx.kind == kind,
        tx.gas_limit == spec_wallet_gas(kind),
        tx.max_fee_per_gas == WALLET_MAX_FEE,
        tx.max_priority_fee_per_gas == WALLET_PRIORITY_FEE,
        tx.signature@.len() == 0,
        tx.public_key@.len() == 0,
{
    let gas_limit = wallet_gas(&kind);
    Transaction {
        version: 1,
        nonce,
        origin: Origin::Account { from },
        kind,
        gas_limit,
        max_fee_per_gas: WALLET_MAX_FEE,
        max_priority_fee_per_gas: WALLET_PRIORITY_FEE,
        signature: Vec::new(),
        public_key: Vec::new(),
    }
}

} // verus!
