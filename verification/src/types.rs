//! Wire types, genesis, chain parameters and protocol constants.

use vstd::prelude::*;
use std::collections::BTreeMap;

verus! {

pub const WEI_PER_AETH: u128 = 1_000_000_000;
pub const INTRINSIC_GAS: u64 = 21_000;
pub const DEFAULT_GAS_LIMIT: u64 = 30_000_000;
pub const DEFAULT_BASE_FEE: u64 = 1_000;
pub const EPOCH_LENGTH: u64 = 100;
pub const ADDRESS_LEN: usize = 20;
pub const HASH_LEN: usize = 32;
/// Wire + package SemVer for this release line.
pub const PROTOCOL_VERSION: &'static str = "1.3.0";
/// Monotonic header/tx wire version (breaking bumps only).
pub const WIRE_VERSION: u32 = 2;
/// Double-sign slash in basis points (5% = 500).
pub const SLASH_DOUBLE_SIGN_BPS: u16 = 500;
/// Downtime slash in basis points (0.01% = 1).
pub const SLASH_DOWNTIME_BPS: u16 = 1;

pub type Hash256 = [u8; 32];

pub type Address = [u8; 20];

/// Validator admission mode of the chain.
#[derive(Clone, Copy, Debug, PartialEq, Eq, Structural)]
pub enum HybridMode {
    Public,
    Allowlist,
    Mixed,
}

impl Default for HybridMode {
    fn default() -> (r: Self)
        ensures
            r == HybridMode::Public,
    {
        HybridMode::Public
    }
}

impl HybridMode {
    /// The lower-case name of the mode (`public`, `allowlist`, `mixed`).
    pub fn name(&self) -> (r: &'static str)
        ensures
            r@ == match *self {
                HybridMode::Public => "public"@,
                HybridMode::Allowlist => "allowlist"@,
                HybridMode::Mixed => "mixed"@,
            },
    {
        match self {
            HybridMode::Public => "public",
            HybridMode::Allowlist => "allowlist",
            HybridMode::Mixed => "mixed",
        }
    }
}

#[derive(Clone, Debug)]
pub struct ChainParams {
    pub chain_id: String,
    pub epoch_length: u64,
    pub min_validator_stake: u128,
    pub max_validators: usize,
    pub unbonding_period: u64,
    pub gas_limit: u64,
    pub hybrid_mode: HybridMode,
    pub block_time_ms: u64,
}

impl Default for ChainParams {
    fn default() -> (r: Self)
        ensures
            r.chain_id@ == "aether-devnet-1"@,
            r.epoch_length == EPOCH_LENGTH,
            r.min_validator_stake == 10_000 * WEI_PER_AETH,
            r.max_validators == 100,
            r.unbonding_period == 21,
            r.gas_limit == DEFAULT_GAS_LIMIT,
            r.hybrid_mode == HybridMode::Public,
            r.block_time_ms == 1_000,
    {
        ChainParams {
            chain_id: String::from_str("aether-devnet-1"),
            epoch_length: EPOCH_LENGTH,
            min_validator_stake: 10_000 * WEI_PER_AETH,
            max_validators: 100,
            unbonding_period: 21,
            gas_limit: DEFAULT_GAS_LIMIT,
            hybrid_mode: HybridMode::Public,
            block_time_ms: 1_000,
        }
    }
}

#[derive(Clone, Debug)]
pub struct Account {
    pub nonce: u64,
    pub balance: u128,
    pub code_hash: Option<Hash256>,
    pub bonded: u128,
    pub storage: BTreeMap<u64, u64>,
}

impl Account {
    /// An account with nothing in it.
    pub open spec fn is_empty_account(self) -> bool {
        &&& self.nonce == 0
        &&& self.balance == 0
        &&& self.code_hash is None
        &&& self.bonded == 0
        &&& self.storage@ == Map::<u64, u64>::empty()
    }
}

impl Default for Account {
    fn default() -> (r: Self)
        ensures
            r.is_empty_account(),
    {
        Account { nonce: 0, balance: 0, code_hash: None, bonded: 0, storage: BTreeMap::new() }
    }
}

#[derive(Clone, Copy, Debug)]
pub struct OutPoint {
    pub tx_hash: Hash256,
    pub index: u32,
}

#[derive(Clone, Copy, Debug)]
pub struct TxOutput {
    pub amount: u128,
    pub owner: Address,
}

#[derive(Clone, Debug)]
pub enum TxKind {
    Transfer { to: Address, amount: u128, data: Vec<u8> },
    Deploy { code: Vec<u8>, salt: Hash256 },
    UtxoSpend { outputs: Vec<TxOutput> },
    /// Transparent → shielded (Groth16 shield proof required).
    ShieldedShield { commitment: Hash256, value: u64, proof: Vec<u8> },
    /// Shielded → shielded transfer (Groth16 transfer proof).
    ShieldedTransfer {
        anchor: Hash256,
        commitments: Vec<Hash256>,
        nullifiers: Vec<Hash256>,
        fee: u64,
        proof: Vec<u8>,
        ciphertext: Vec<u8>,
    },
    /// Shielded → transparent (Groth16 unshield proof).
    ShieldedUnshield { anchor: Hash256, nullifier: Hash256, value: u64, proof: Vec<u8> },
    StakeBond { amount: u128, commission_bps: u16 },
    StakeUnbond { amount: u128 },
    /// Delegate liquid stake to a bonded validator (liquid staking).
    StakeDelegate { validator: Address, amount: u128 },
    /// Move delegation between validators (same epoch rules as unbond+bond).
    StakeRedelegate { src: Address, dst: Address, amount: u128 },
    /// Undelegate shares from a validator into the unbonding queue.
    StakeUndelegate { validator: Address, amount: u128 },
    /// Claim matured unbonding entries into liquid balance.
    StakeWithdraw {},
    RollupRegister {
        rollup_id: Hash256,
        sequencer: Address,
        scheme: u8,
        verifying_key: Vec<u8>,
        challenge_period: u64,
    },
    RollupCommit {
        rollup_id: Hash256,
        batch_index: u64,
        prev_state_root: Hash256,
        post_state_root: Hash256,
        da_hash: Hash256,
        proof: Vec<u8>,
    },
    /// Finalize an optimistic batch after challenge window (scheme 0x03).
    RollupFinalize { rollup_id: Hash256, batch_index: u64 },
    /// Submit fraud certificate against a pending optimistic batch.
    RollupFraud { rollup_id: Hash256, batch_index: u64, certificate: Vec<u8> },
    GovernancePropose { title: String, param_key: String, param_value: String, deposit: u128 },
    GovernanceVote { proposal_id: u64, option: u8 },
    GovernanceEnact { proposal_id: u64 },
    /// Direct contract call (same semantics as Transfer-with-data, amount optional).
    ContractCall { to: Address, amount: u128, data: Vec<u8> },
    /// Submit double-sign evidence (two conflicting signed votes).
    EvidenceDoubleSign { vote_a: Vec<u8>, vote_b: Vec<u8> },
    /// Submit downtime evidence (missed blocks threshold).
    EvidenceDowntime { validator: Address, missed: u64 },
    /// Open an IBC-lite channel to a counterparty chain.
    BridgeOpenChannel { channel_id: String, counterparty_chain: String, counterparty_channel: String },
    /// Send a packet on an open channel.
    BridgeSendPacket { channel_id: String, data: Vec<u8>, timeout_height: u64 },
    /// Receive + verify a packet from a counterparty (operator / relayer).
    BridgeRecvPacket { channel_id: String, sequence: u64, data: Vec<u8>, proof: Vec<u8> },
    /// Acknowledge a received packet.
    BridgeAck { channel_id: String, sequence: u64, acknowledgement: Vec<u8> },
    /// Governance-gated community pool spend (proposer must pass deposit rules).
    CommunityPoolSpend { to: Address, amount: u128, memo: String },
}

#[derive(Clone, Debug)]
pub enum Origin {
    Account { from: Address },
    Utxo { inputs: Vec<OutPoint> },
}

#[derive(Clone, Debug)]
pub struct Transaction {
    pub version: u8,
    pub nonce: u64,
    pub origin: Origin,
    pub kind: TxKind,
    pub gas_limit: u64,
    pub max_fee_per_gas: u64,
    pub max_priority_fee_per_gas: u64,
    pub signature: Vec<u8>,
    pub public_key: Vec<u8>,
}

#[derive(Clone, Debug)]
pub struct Receipt {
    pub tx_hash: Hash256,
    pub status: bool,
    pub gas_used: u64,
    pub logs: Vec<Log>,
    pub error: Option<String>,
}

#[derive(Clone, Debug)]
pub struct Log {
    pub address: Address,
    pub topics: Vec<u64>,
    pub data: Vec<u8>,
}

#[derive(Clone, Debug)]
pub struct Header {
    pub version: u32,
    pub chain_id: String,
    pub height: u64,
    pub time_unix_ms: u64,
    pub prev_hash: Hash256,
    pub tx_root: Hash256,
    pub state_root: Hash256,
    pub receipts_root: Hash256,
    pub proposer: Address,
    pub round: u32,
    pub epoch: u64,
    pub gas_used: u64,
    pub gas_limit: u64,
    pub base_fee: u64,
    pub signature: Vec<u8>,
}

#[derive(Clone, Debug)]
pub struct Block {
    pub header: Header,
    pub transactions: Vec<Transaction>,
}

#[derive(Clone, Debug)]
pub struct ValidatorInfo {
    pub address: Address,
    pub public_key: Vec<u8>,
    pub power: u128,
    pub commission_bps: u16,
    pub jailed: bool,
    /// Shares outstanding for liquid staking (1 share ≈ 1 wei at genesis rate).
    pub shares: u128,
    /// Tombstoned after double-sign; permanent.
    pub tombstoned: bool,
    pub jail_until_epoch: u64,
}

#[derive(Clone, Copy, Debug)]
pub struct Delegation {
    pub delegator: Address,
    pub validator: Address,
    pub shares: u128,
}

#[derive(Clone, Copy, Debug)]
pub struct UnbondingEntry {
    pub id: u64,
    pub owner: Address,
    pub validator: Address,
    pub amount: u128,
    pub unlock_epoch: u64,
}

#[derive(Clone, Debug)]
pub struct BridgeChannel {
    pub channel_id: String,
    pub counterparty_chain: String,
    pub counterparty_channel: String,
    pub next_send_seq: u64,
    pub next_recv_seq: u64,
    pub closed: bool,
}

/// Lifecycle of a bridge packet.
#[derive(Clone, Copy, Debug, PartialEq, Eq, Structural)]
pub enum PacketStatus {
    Sent,
    Received,
    Acked,
    TimedOut,
}

#[derive(Clone, Debug)]
pub struct BridgePacket {
    pub channel_id: String,
    pub sequence: u64,
    pub data: Vec<u8>,
    pub timeout_height: u64,
    pub status: PacketStatus,
}

#[derive(Clone, Debug)]
pub struct SlashEvent {
    pub height: u64,
    pub validator: Address,
    pub reason: String,
    pub slashed: u128,
    pub burned: u128,
    pub to_pool: u128,
}

#[derive(Clone, Debug)]
pub struct RollupInfo {
    pub rollup_id: Hash256,
    pub sequencer: Address,
    pub scheme: u8,
    pub last_batch: u64,
    pub state_root: Hash256,
    pub verifying_key: Vec<u8>,
    pub challenge_period: u64,
}

/// Challenge window (in blocks) used when a registration leaves it unset.
pub fn default_challenge_period() -> (r: u64)
    ensures
        r == 10,
{
    10
}

#[derive(Clone, Debug)]
pub struct Genesis {
    pub chain_id: String,
    pub alloc: Vec<GenesisAlloc>,
    pub validators: Vec<GenesisValidator>,
    pub params: ChainParams,
    pub timestamp: u64,
}

#[derive(Clone, Copy, Debug)]
pub struct GenesisAlloc {
    pub address: Address,
    pub balance: u128,
}

#[derive(Clone, Debug)]
pub struct GenesisValidator {
    pub address: Address,
    pub public_key: Vec<u8>,
    pub power: u128,
}

/// Lifecycle of a governance proposal.
#[derive(Clone, Copy, Debug, PartialEq, Eq, Structural)]
pub enum ProposalStatus {
    Deposit,
    Voting,
    Passed,
    Failed,
    Enacted,
}

#[derive(Clone, Debug)]
pub struct GovernanceProposal {
    pub id: u64,
    pub title: String,
    pub param_key: String,
    pub param_value: String,
    pub proposer: Address,
    pub deposit: u128,
    pub yes: u128,
    pub no: u128,
    pub abstain: u128,
    pub veto: u128,
    pub voting_end_height: u64,
    pub enact_height: Option<u64>,
    pub status: ProposalStatus,
    /// Voting power of the non-jailed validators when the vote opened.
    pub bonded_power: u128,
}

#[derive(Clone, Copy, Debug)]
pub struct LightHeader {
    pub height: u64,
    pub epoch: u64,
    pub hash: Hash256,
    pub prev_hash: Hash256,
    pub state_root: Hash256,
    pub validators_hash: Hash256,
    pub time_unix_ms: u64,
    pub gas_used: u64,
    pub base_fee: u64,
}

#[derive(Clone, Debug)]
pub struct AccountProof {
    pub address: Address,
    pub account: Account,
    pub state_root: Hash256,
    pub accounts_blob_hash: Hash256,
    pub valid: bool,
}

#[derive(Clone, Debug)]
pub struct ProtocolInfo {
    pub name: String,
    pub version: String,
    pub chain_id: String,
    pub hybrid_mode: HybridMode,
    pub height: u64,
    pub epoch: u64,
    pub base_fee: u64,
    pub validators: usize,
}

/// The all-zero hash.
pub fn zero_hash() -> (h: Hash256)
    ensures
        h@ == Seq::new(32, |_i: int| 0u8),
{
    let h = [0u8; 32];
    assert(h@ =~= Seq::new(32, |_i: int| 0u8));
    h
}

/// The all-zero address.
pub fn zero_address() -> (a: Address)
    ensures
        a@ == Seq::new(20, |_i: int| 0u8),
{
    let a = [0u8; 20];
    assert(a@ =~= Seq::new(20, |_i: int| 0u8));
    a
}

} // verus!
