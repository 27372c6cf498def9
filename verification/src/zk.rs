//! Errors of the zero-knowledge layer.

use vstd::prelude::*;
use vstd::string::*;

verus! {

#[derive(Clone, Debug, PartialEq, Eq)]
pub enum ZkError {
    Synthesis(String),
    VerifyFailed,
    Serde(String),
    Witness(String),
    Rollup(String),
    NoopDisabled,
}

/// The text a zero-knowledge error is reported with.
pub open spec fn zk_error_text(e: ZkError) -> Seq<char> {
    match e {
        ZkError::Synthesis(s) => "synthesis: "@ + s@,
        ZkError::VerifyFailed => "proof verify failed"@,
        ZkError::Serde(s) => "serialization: "@ + s@,
        ZkError::Witness(s) => "invalid witness: "@ + s@,
        ZkError::Rollup(s) => "rollup: "@ + s@,
        ZkError::NoopDisabled => "noop scheme disabled (set AETHER_ALLOW_NOOP_ROLLUP=1 for dev only)"@,
    }
}

impl ZkError {
    /// Human-readable description of the error.
    pub fn message(&self) -> (m: String)
        ensures
            m@ == zk_error_text(*self),
    {
        match self {
            ZkError::Synthesis(s) => String::from_str("synthesis: ").concat(s.as_str()),
            ZkError::VerifyFailed => String::from_str("proof verify failed"),
            ZkError::Serde(s) => String::from_str("serialization: ").concat(s.as_str()),
            ZkError::Witness(s) => String::from_str("invalid witness: ").concat(s.as_str()),
            ZkError::Rollup(s) => String::from_str("rollup: ").concat(s.as_str()),
            ZkError::NoopDisabled => String::from_str(
                "noop scheme disabled (set AETHER_ALLOW_NOOP_ROLLUP=1 for dev only)",
            ),
        }
    }
}

/// A `Rollup` error whose message is `m`.
pub open spec fn is_rollup_error<T>(r: Result<T, ZkError>, m: Seq<char>) -> bool {
    r matches Err(ZkError::Rollup(s)) && s@ == m
}

/// Checks the values of a shielded transfer's witness: the input note must
/// cover the output and the fee, exactly.
pub fn check_transfer_values(value_in: u64, value_out: u64, fee: u64) -> (r: Result<(), ZkError>)
    requires
        value_out + fee <= u64::MAX || value_in < u64::MAX,
    ensures
        value_in < value_out + fee ==> (r matches Err(ZkError::Witness(m)) && m@ == "insufficient note value"@),
        value_in > value_out + fee ==> (r matches Err(ZkError::Witness(m)) && m@ == "value_in != value_out + fee"@),
        value_in == value_out + fee ==> r is Ok,
{
    let covered = value_out.saturating_add(fee);
    if value_in < covered {
        return Err(ZkError::Witness(String::from_str("insufficient note value")));
    }
    if value_in != value_out + fee {
        return Err(ZkError::Witness(String::from_str("value_in != value_out + fee")));
    }
    Ok(())
}

} // verus!
