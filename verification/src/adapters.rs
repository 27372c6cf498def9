//! Extension points for adapting a deployment without forking consensus.

use vstd::prelude::*;
use vstd::string::*;
use crate::types::{Hash256, Transaction, TxKind};

verus! {

/// Custom transaction pre-validation (compliance filters, allowlists, fee
/// floors), implemented by operators.
pub trait TxFilter {
    /// What the filter says of `tx`: it passes, or is refused for the
    /// given reason.
    spec fn verdict(&self, tx: Transaction) -> Result<(), Seq<char>>;

    fn allow(&self, tx: &Transaction) -> (r: Result<(), String>)
        ensures
            match self.verdict(*tx) {
                Ok(()) => r is Ok,
                Err(m) => r matches Err(t) && t@ == m,
            },
    ;
}

/// Default: allow everything.
pub struct AllowAll;

impl TxFilter for AllowAll {
    open spec fn verdict(&self, tx: Transaction) -> Result<(), Seq<char>> {
        Ok(())
    }

    fn allow(&self, _tx: &Transaction) -> (r: Result<(), String>)
        ensures
            r is Ok,
    {
        Ok(())
    }
}

/// A filter that keeps the shielded pool closed: shield, shielded transfer
/// and unshield transactions are refused, everything else passes.
pub struct TransparentOnly;

/// Whether a transaction moves value into, within or out of the shielded pool.
pub open spec fn is_shielded_kind(k: TxKind) -> bool {
    ||| k is ShieldedShield
    ||| k is ShieldedTransfer
    ||| k is ShieldedUnshield
}

impl TxFilter for TransparentOnly {
    open spec fn verdict(&self, tx: Transaction) -> Result<(), Seq<char>> {
        if is_shielded_kind(tx.kind) {
            Err("shielded transactions disabled by policy"@)
        } else {
            Ok(())
        }
    }

    fn allow(&self, tx: &Transaction) -> (r: Result<(), String>)
        ensures
            is_shielded_kind(tx.kind) ==> (r matches Err(m) && m@ == "shielded transactions disabled by policy"@),
            !is_shielded_kind(tx.kind) ==> r is Ok,
    {
        match tx.kind {
            TxKind::ShieldedShield { .. } | TxKind::ShieldedTransfer { .. } | TxKind::ShieldedUnshield { .. } => Err(
                String::from_str("shielded transactions disabled by policy"),
            ),
            _ => Ok(()),
        }
    }
}

/// Hook after a block is committed (indexers, bridges, webhooks),
/// implemented by operators.
pub trait BlockHook {
    fn on_commit(&self, height: u64, hash: Hash256);
}

/// A hook that does nothing.
pub struct NoopHook;

impl BlockHook for NoopHook {
    fn on_commit(&self, _height: u64, _hash: Hash256) {
    }
}

/// A vendor rollup proof system registered under its own scheme id
/// (0x10 and above recommended), implemented by operators.
pub trait RollupVerifierAdapter {
    fn scheme_id(&self) -> u8;

    fn verify(
        &self,
        proof: &[u8],
        prev: &Hash256,
        post: &Hash256,
        da: &Hash256,
        batch_index: u64,
    ) -> Result<(), String>;
}

} // verus!
