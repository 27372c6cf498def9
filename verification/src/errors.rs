//! Errors of the ledger and the mempool.

use vstd::prelude::*;
use vstd::string::*;

verus! {

#[derive(Clone, Debug)]
pub enum StateError {
    Crypto(String),
    InvalidTx(String),
    InsufficientBalance,
    NonceMismatch,
    UtxoMissing,
    HybridDenied,
    Rollup(String),
    Zk(String),
}

/// An `InvalidTx` error whose message is `m`.
pub open spec fn is_invalid_tx(e: StateError, m: Seq<char>) -> bool {
    e matches StateError::InvalidTx(s) && s@ == m
}

/// A result that failed with an `InvalidTx` error whose message is `m`.
pub open spec fn fails_with<T>(r: Result<T, StateError>, m: Seq<char>) -> bool {
    r matches Err(StateError::InvalidTx(s)) && s@ == m
}

/// A result that failed with exactly `e`.
pub open spec fn fails_as<T>(r: Result<T, StateError>, e: StateError) -> bool {
    r matches Err(x) && x == e
}

/// A `Rollup` error whose message is `m`.
pub open spec fn is_state_rollup_error(e: StateError, m: Seq<char>) -> bool {
    e matches StateError::Rollup(s) && s@ == m
}

/// The text a ledger error is reported with.
pub open spec fn state_error_text(e: StateError) -> Seq<char> {
    match e {
        StateError::Crypto(s) => "crypto: "@ + s@,
        StateError::InvalidTx(s) => "invalid tx: "@ + s@,
        StateError::InsufficientBalance => "insufficient balance"@,
        StateError::NonceMismatch => "nonce mismatch"@,
        StateError::UtxoMissing => "utxo missing"@,
        StateError::HybridDenied => "not allowed in hybrid mode"@,
        StateError::Rollup(s) => "rollup error: "@ + s@,
        StateError::Zk(s) => "zk: "@ + s@,
    }
}

impl StateError {
    /// Human-readable description of the error.
    pub fn message(&self) -> (m: String)
        ensures
            m@ == state_error_text(*self),
    {
        match self {
            StateError::Crypto(s) => String::from_str("crypto: ").concat(s.as_str()),
            StateError::InvalidTx(s) => String::from_str("invalid tx: ").concat(s.as_str()),
            StateError::InsufficientBalance => String::from_str("insufficient balance"),
            StateError::NonceMismatch => String::from_str("nonce mismatch"),
            StateError::UtxoMissing => String::from_str("utxo missing"),
            StateError::HybridDenied => String::from_str("not allowed in hybrid mode"),
            StateError::Rollup(s) => String::from_str("rollup error: ").concat(s.as_str()),
            StateError::Zk(s) => String::from_str("zk: ").concat(s.as_str()),
        }
    }
}

} // verus!
