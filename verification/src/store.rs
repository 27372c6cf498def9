//! What the chain store decides: its keys, the layout of stored heights,
//! and the checks on epoch snapshots. Reading and writing the database
//! happens around it.

use vstd::prelude::*;
use vstd::string::*;
use crate::crypto::{hash_bytes, spec_tagged_hash, tag};
use crate::hexcodec::{hex_encode, spec_hex_encode};
use crate::state::ChainState;
use crate::text::{decimal_string, spec_decimal, str_eq};
use crate::types::Hash256;

verus! {

/// Errors of the chain store.
#[derive(Clone, Debug)]
pub enum StoreError {
    Sled(String),
    Serde(String),
    Missing(String),
    Snapshot(String),
}

/// The text a store error is reported with.
pub open spec fn store_error_text(e: StoreError) -> Seq<char> {
    match e {
        StoreError::Sled(s) => "sled: "@ + s@,
        StoreError::Serde(s) => "serde: "@ + s@,
        StoreError::Missing(s) => "missing key "@ + s@,
        StoreError::Snapshot(s) => "snapshot: "@ + s@,
    }
}

impl StoreError {
    /// Human-readable description of the error.
    pub fn message(&self) -> (m: String)
        ensures
            m@ == store_error_text(*self),
    {
        match self {
            StoreError::Sled(s) => String::from_str("sled: ").concat(s.as_str()),
            StoreError::Serde(s) => String::from_str("serde: ").concat(s.as_str()),
            StoreError::Missing(s) => String::from_str("missing key ").concat(s.as_str()),
            StoreError::Snapshot(s) => String::from_str("snapshot: ").concat(s.as_str()),
        }
    }
}

/// The hash of a stored blob.
pub fn hash_blob(data: &[u8]) -> (h: Hash256)
    ensures
        h@ == spec_tagged_hash(tag("AETH/BLOB/V1"), data@),
{
    hash_bytes(data)
}

fn key_with(prefix: &str, n: u64) -> (k: String)
    ensures
        k@ == prefix@ + spec_decimal(n as nat),
{
    String::from_str(prefix).concat(decimal_string(n as u128).as_str())
}

/// Key of the block at a height: `block/{height}`.
pub fn block_key(height: u64) -> (k: String)
    ensures
        k@ == "block/"@ + spec_decimal(height as nat),
{
    key_with("block/", height)
}

/// Key of the commit certificate at a height: `commit/{height}`.
pub fn commit_key(height: u64) -> (k: String)
    ensures
        k@ == "commit/"@ + spec_decimal(height as nat),
{
    key_with("commit/", height)
}

/// Key of the snapshot at a height: `snap/{height}`.
pub fn snapshot_key(height: u64) -> (k: String)
    ensures
        k@ == "snap/"@ + spec_decimal(height as nat),
{
    key_with("snap/", height)
}

/// Key of a receipt: `receipt/{hex tx hash}`.
pub fn receipt_key(tx_hash: &Hash256) -> (k: String)
    ensures
        k@ == "receipt/"@ + spec_hex_encode(tx_hash@),
{
    String::from_str("receipt/").concat(hex_encode(tx_hash.as_slice()).as_str())
}

/// The height a stored 8-byte little-endian value holds; anything else
/// (absent, another length) reads as none.
pub open spec fn spec_stored_height(v: Option<Seq<u8>>) -> Option<u64> {
    match v {
        Some(b) => if b.len() == 8 {
            Some(vstd::bytes::spec_u64_from_le_bytes(b))
        } else {
            None
        },
        None => None,
    }
}

/// Reads a stored height.
pub fn stored_height(v: Option<&[u8]>) -> (h: Option<u64>)
    ensures
        h == spec_stored_height(match v {
            Some(b) => Some(b@),
            None => None,
        }),
{
    match v {
        Some(b) => {
            if b.len() == 8 {
                Some(vstd::bytes::u64_from_le_bytes(b))
            } else {
                None
            }
        },
        None => None,
    }
}

/// The tip height: the stored height, or 0.
pub fn tip_height(v: Option<&[u8]>) -> (h: u64)
    ensures
        h == match spec_stored_height(match v {
            Some(b) => Some(b@),
            None => None,
        }) {
            Some(x) => x,
            None => 0,
        },
{
    match stored_height(v) {
        Some(x) => x,
        None => 0,
    }
}

/// The snapshot format version.
pub const SNAPSHOT_VERSION: u32 = 1;

/// A versioned epoch snapshot: the state at a height with its root and a
/// checksum over the encoded snapshot (checksum zeroed).
pub struct EpochSnapshot {
    pub version: u32,
    pub chain_id: String,
    pub height: u64,
    pub epoch: u64,
    pub state_root: Hash256,
    pub state: ChainState,
    pub checksum: Hash256,
}

/// What checking a snapshot gives, given the checksum its encoding (with
/// the checksum zeroed) hashes to.
pub open spec fn spec_verify_snapshot(s: EpochSnapshot, expected_checksum: Seq<u8>) -> Result<(), Seq<char>> {
    if s.version != SNAPSHOT_VERSION {
        Err("unsupported version "@ + spec_decimal(s.version as nat))
    } else if expected_checksum != s.checksum@ {
        Err("checksum mismatch"@)
    } else if s.state.height != s.height {
        Err("height mismatch"@)
    } else if s.state.params.chain_id@ != s.chain_id@ {
        Err("chain_id mismatch"@)
    } else {
        Ok(())
    }
}

impl EpochSnapshot {
    /// A snapshot of `state` with its root; the checksum is set by `seal`.
    pub fn from_state(state: ChainState, state_root: Hash256) -> (s: EpochSnapshot)
        ensures
            s.version == SNAPSHOT_VERSION,
            s.chain_id@ == state.params.chain_id@,
            s.height == state.height,
            s.epoch == state.epoch,
            s.state_root == state_root,
            s.state == state,
            s.checksum@ == Seq::new(32, |_i: int| 0u8),
    {
        let chain_id = state.params.chain_id.clone();
        let height = state.height;
        let epoch = state.epoch;
        EpochSnapshot { version: SNAPSHOT_VERSION, chain_id, height, epoch, state_root, state, checksum: crate::types::zero_hash() }
    }

    /// The checksum of a snapshot's encoding (made with the checksum
    /// zeroed).
    pub fn compute_checksum(body: &[u8]) -> (h: Hash256)
        ensures
            h@ == spec_tagged_hash(tag("AETH/BLOB/V1"), body@),
    {
        hash_bytes(body)
    }

    /// Sets the checksum from the snapshot's encoding.
    pub fn seal(&mut self, body: &[u8])
        ensures
            *final(self) == (EpochSnapshot { checksum: final(self).checksum, ..*old(self) }),
            final(self).checksum@ == spec_tagged_hash(tag("AETH/BLOB/V1"), body@),
    {
        self.checksum = Self::compute_checksum(body);
    }

    /// Checks the version, the checksum against the encoding `body` (made
    /// with the checksum zeroed), and that the state agrees with the
    /// header's height and chain id.
    pub fn verify(&self, body: &[u8]) -> (r: Result<(), StoreError>)
        ensures
            match spec_verify_snapshot(*self, spec_tagged_hash(tag("AETH/BLOB/V1"), body@)) {
                Ok(()) => r is Ok,
                Err(m) => r matches Err(StoreError::Snapshot(x)) && x@ == m,
            },
    {
        if self.version != SNAPSHOT_VERSION {
            return Err(
                StoreError::Snapshot(String::from_str("unsupported version ").concat(decimal_string(self.version as u128).as_str())),
            );
        }
        let expect = Self::compute_checksum(body);
        if !crate::bytes::hash_eq(&expect, &self.checksum) {
            return Err(StoreError::Snapshot(String::from_str("checksum mismatch")));
        }
        if self.state.height != self.height {
            return Err(StoreError::Snapshot(String::from_str("height mismatch")));
        }
        if !str_eq(self.state.params.chain_id.as_str(), self.chain_id.as_str()) {
            return Err(StoreError::Snapshot(String::from_str("chain_id mismatch")));
        }
        Ok(())
    }
}

} // verus!
