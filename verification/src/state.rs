//! The ledger: accounts, UTXOs, staking, governance, slashing, bridges,
//! shielded value and rollups, and the transaction state machine.

use vstd::prelude::*;
use vstd::string::*;
use std::collections::BTreeMap;
use crate::bytes::to_vec;
use crate::errors::StateError;
use crate::kvmap::{nonneg, sum_by, KeyedVec};
use crate::text::{decimal_string, spec_decimal};
use crate::rollup::PendingBatch;
use crate::types::{
    Account, Address, BridgeChannel, BridgePacket, ChainParams, Delegation, Genesis, GenesisAlloc, GenesisValidator,
    GovernanceProposal, Hash256, ProposalStatus, RollupInfo, SlashEvent, TxOutput, UnbondingEntry,
    ValidatorInfo, DEFAULT_BASE_FEE,
};

verus! {

broadcast use vstd::std_specs::btree::group_btree_axioms;

/// The whole ledger state.
pub struct ChainState {
    pub params: ChainParams,
    pub height: u64,
    pub epoch: u64,
    pub base_fee: u64,
    pub accounts: KeyedVec<Address, Account>,
    pub utxos: KeyedVec<(Hash256, u32), TxOutput>,
    pub code: KeyedVec<Address, Vec<u8>>,
    /// Ordered shielded note commitments (Merkle leaves).
    pub note_leaves: Vec<Hash256>,
    pub notes: KeyedVec<Hash256, ()>,
    pub nullifiers: KeyedVec<Hash256, ()>,
    pub validators: KeyedVec<Address, ValidatorInfo>,
    /// Liquid staking: (delegator, validator) → delegation.
    pub delegations: KeyedVec<(Address, Address), Delegation>,
    pub unbonding: Vec<UnbondingEntry>,
    pub next_unbond_id: u64,
    pub allowlist: KeyedVec<Address, ()>,
    pub rollups: KeyedVec<Hash256, RollupInfo>,
    pub pending_rollups: KeyedVec<(Hash256, u64), PendingBatch>,
    pub proposals: KeyedVec<u64, GovernanceProposal>,
    pub next_proposal_id: u64,
    pub total_supply: u128,
    pub genesis_supply: u128,
    pub fee_burned: u128,
    pub shielded_value: u128,
    /// Community pool (slash half + optional deposits).
    pub community_pool: u128,
    pub bridges: KeyedVec<String, BridgeChannel>,
    /// Packets by `channel:seq` (sent) and `channel:recv:seq` (received).
    pub bridge_packets: KeyedVec<String, BridgePacket>,
    pub slash_log: Vec<SlashEvent>,
    /// Evidence hashes already processed (anti-replay).
    pub evidence_seen: KeyedVec<Hash256, ()>,
}

/// Every tombstoned validator is still there, still tombstoned.
pub open spec fn tombstones_kept(a: Map<Seq<u8>, ValidatorInfo>, b: Map<Seq<u8>, ValidatorInfo>) -> bool {
    forall|k: Seq<u8>| #[trigger] a.contains_key(k) && a[k].tombstoned ==> b.contains_key(k) && b[k].tombstoned
}

pub open spec fn balance_fn() -> spec_fn(Account) -> int {
    |a: Account| a.balance as int
}

pub open spec fn bonded_fn() -> spec_fn(Account) -> int {
    |a: Account| a.bonded as int
}

pub open spec fn utxo_fn() -> spec_fn(TxOutput) -> int {
    |o: TxOutput| o.amount as int
}

pub open spec fn shares_fn() -> spec_fn(Delegation) -> int {
    |d: Delegation| d.shares as int
}

/// A proposal's deposit while it is locked (voting or passed).
pub open spec fn locked_deposit(p: GovernanceProposal) -> int {
    if p.status == ProposalStatus::Voting || p.status == ProposalStatus::Passed {
        p.deposit as int
    } else {
        0
    }
}

pub open spec fn deposit_fn() -> spec_fn(GovernanceProposal) -> int {
    |p: GovernanceProposal| locked_deposit(p)
}

/// A validator's voting power: its power, or 0 while jailed.
pub open spec fn active_power_fn() -> spec_fn(ValidatorInfo) -> int {
    |v: ValidatorInfo| if v.jailed { 0int } else { v.power as int }
}

pub open spec fn unbonding_total(s: Seq<UnbondingEntry>) -> int
    decreases s.len(),
{
    if s.len() == 0 {
        0
    } else {
        unbonding_total(s.drop_last()) + s.last().amount
    }
}

/// Spendable balance at key `k` (0 for an unknown account).
pub open spec fn balance_of(m: Map<Seq<u8>, Account>, k: Seq<u8>) -> int {
    if m.contains_key(k) {
        m[k].balance as int
    } else {
        0
    }
}

/// Self-bonded stake at key `k` (0 for an unknown account).
pub open spec fn bonded_of(m: Map<Seq<u8>, Account>, k: Seq<u8>) -> int {
    if m.contains_key(k) {
        m[k].bonded as int
    } else {
        0
    }
}

/// Nonce at key `k` (0 for an unknown account).
pub open spec fn nonce_of(m: Map<Seq<u8>, Account>, k: Seq<u8>) -> int {
    if m.contains_key(k) {
        m[k].nonce as int
    } else {
        0
    }
}

pub open spec fn code_hash_of(m: Map<Seq<u8>, Account>, k: Seq<u8>) -> Option<Hash256> {
    if m.contains_key(k) {
        m[k].code_hash
    } else {
        None
    }
}

pub open spec fn storage_of(m: Map<Seq<u8>, Account>, k: Seq<u8>) -> Map<u64, u64> {
    if m.contains_key(k) {
        m[k].storage@
    } else {
        Map::empty()
    }
}

/// `m1` is `m0` with the account at `k` (created if missing) given the
/// listed fields; every other account is unchanged.
pub open spec fn acct_set(
    m0: Map<Seq<u8>, Account>,
    m1: Map<Seq<u8>, Account>,
    k: Seq<u8>,
    balance: int,
    bonded: int,
    nonce: int,
    code_hash: Option<Hash256>,
    storage: Map<u64, u64>,
) -> bool {
    &&& m1.dom() == m0.dom().insert(k)
    &&& forall|j: Seq<u8>| j != k && #[trigger] m0.contains_key(j) ==> m1[j] == m0[j]
    &&& m1[k].balance == balance
    &&& m1[k].bonded == bonded
    &&& m1[k].nonce == nonce
    &&& m1[k].code_hash == code_hash
    &&& m1[k].storage@ == storage
}

/// `m1` is `m0` with the balance and bond at `k` set; nonce, code and
/// storage of `k` and every other account unchanged.
pub open spec fn funds_set(m0: Map<Seq<u8>, Account>, m1: Map<Seq<u8>, Account>, k: Seq<u8>, balance: int, bonded: int) -> bool {
    acct_set(m0, m1, k, balance, bonded, nonce_of(m0, k), code_hash_of(m0, k), storage_of(m0, k))
}

/// Setting the funds of one account twice is setting them once, to the
/// second values.
pub proof fn lemma_funds_set_twice(
    m0: Map<Seq<u8>, Account>,
    m1: Map<Seq<u8>, Account>,
    m2: Map<Seq<u8>, Account>,
    k: Seq<u8>,
    b1: int,
    d1: int,
    b2: int,
    d2: int,
)
    requires
        funds_set(m0, m1, k, b1, d1),
        funds_set(m1, m2, k, b2, d2),
    ensures
        funds_set(m0, m2, k, b2, d2),
{
    assert(m2.dom() =~= m0.dom().insert(k));
    assert forall|j: Seq<u8>| j != k && #[trigger] m0.contains_key(j) implies m2[j] == m0[j] by {
        assert(m1.contains_key(j));
    }
}

/// No account's nonce changed.
pub open spec fn nonces_kept(m0: Map<Seq<u8>, Account>, m1: Map<Seq<u8>, Account>) -> bool {
    forall|k: Seq<u8>| #[trigger] nonce_of(m1, k) == nonce_of(m0, k)
}

/// Whether some genesis allocation goes to `a`.
pub open spec fn has_alloc(allocs: Seq<GenesisAlloc>, a: Seq<u8>) -> bool {
    exists|i: int| 0 <= i < allocs.len() && (#[trigger] allocs[i]).address@ == a
}

/// Sum of the genesis allocations to `a`.
pub open spec fn alloc_sum(allocs: Seq<GenesisAlloc>, a: Seq<u8>) -> int
    decreases allocs.len(),
{
    if allocs.len() == 0 {
        0
    } else {
        alloc_sum(allocs.drop_last(), a) + if allocs.last().address@ == a { allocs.last().balance as int } else { 0 }
    }
}

proof fn lemma_alloc_sum_absent(allocs: Seq<GenesisAlloc>, a: Seq<u8>)
    requires
        !has_alloc(allocs, a),
    ensures
        alloc_sum(allocs, a) == 0,
    decreases allocs.len(),
{
    if allocs.len() > 0 {
        let d = allocs.drop_last();
        assert(!has_alloc(d, a)) by {
            if has_alloc(d, a) {
                let k = choose|k: int| 0 <= k < d.len() && (#[trigger] d[k]).address@ == a;
                assert(allocs[k] == d[k]);
            }
        }
        assert(allocs[allocs.len() - 1] == allocs.last());
        lemma_alloc_sum_absent(d, a);
    }
}

/// The last genesis entry for validator `a`: position `i` holds `a` and no
/// later one does.
pub open spec fn last_validator_entry(vs: Seq<GenesisValidator>, i: int, a: Seq<u8>) -> bool {
    &&& 0 <= i < vs.len()
    &&& vs[i].address@ == a
    &&& forall|j: int| i < j < vs.len() ==> (#[trigger] vs[j]).address@ != a
}

/// A validator as a genesis entry declares it: active, untouched, with
/// shares equal to its power.
pub open spec fn from_genesis_entry(v: ValidatorInfo, e: GenesisValidator) -> bool {
    &&& v.address == e.address
    &&& v.public_key@ == e.public_key@
    &&& v.power == e.power
    &&& v.shares == e.power
    &&& v.commission_bps == 0
    &&& !v.jailed
    &&& !v.tombstoned
    &&& v.jail_until_epoch == 0
}

pub open spec fn alloc_total(allocs: Seq<GenesisAlloc>) -> int
    decreases allocs.len(),
{
    if allocs.len() == 0 {
        0
    } else {
        alloc_total(allocs.drop_last()) + allocs.last().balance
    }
}

/// Whether a genesis's allocations sum to at most `u128::MAX`, as building
/// its state needs.
pub fn alloc_total_fits(g: &Genesis) -> (b: bool)
    ensures
        b == (alloc_total(g.alloc@) <= u128::MAX),
{
    let n = g.alloc.len();
    let mut sum: u128 = 0;
    let mut i: usize = 0;
    while i < n
        invariant
            n == g.alloc@.len(),
            i <= n,
            sum == alloc_total(g.alloc@.subrange(0, i as int)),
        decreases n - i,
    {
        proof {
            assert(g.alloc@.subrange(0, i + 1).drop_last() =~= g.alloc@.subrange(0, i as int));
        }
        match sum.checked_add(g.alloc[i].balance) {
            Some(x) => {
                sum = x;
            },
            None => {
                proof {
                    lemma_alloc_total_prefix(g.alloc@, i + 1);
                }
                return false;
            },
        }
        i = i + 1;
    }
    proof {
        assert(g.alloc@.subrange(0, n as int) =~= g.alloc@);
    }
    true
}

impl ChainParams {
    /// A field-by-field copy.
    pub fn duplicate(&self) -> (r: ChainParams)
        ensures
            r.chain_id@ == self.chain_id@,
            r.epoch_length == self.epoch_length,
            r.min_validator_stake == self.min_validator_stake,
            r.max_validators == self.max_validators,
            r.unbonding_period == self.unbonding_period,
            r.gas_limit == self.gas_limit,
            r.hybrid_mode == self.hybrid_mode,
            r.block_time_ms == self.block_time_ms,
    {
        ChainParams {
            chain_id: self.chain_id.clone(),
            epoch_length: self.epoch_length,
            min_validator_stake: self.min_validator_stake,
            max_validators: self.max_validators,
            unbonding_period: self.unbonding_period,
            gas_limit: self.gas_limit,
            hybrid_mode: self.hybrid_mode,
            block_time_ms: self.block_time_ms,
        }
    }
}

impl Account {
    /// A field-by-field copy.
    pub fn duplicate(&self) -> (r: Account)
        ensures
            r.nonce == self.nonce,
            r.balance == self.balance,
            r.code_hash == self.code_hash,
            r.bonded == self.bonded,
            r.storage@ == self.storage@,
    {
        Account {
            nonce: self.nonce,
            balance: self.balance,
            code_hash: self.code_hash,
            bonded: self.bonded,
            storage: self.storage.clone(),
        }
    }
}

impl ChainState {
    /// The native value the ledger accounts for (invariant I1's left side):
    /// liquid and self-bonded balances, UTXOs, delegated shares, unbonding
    /// entries, locked governance deposits, shielded value, burned fees and
    /// the community pool.
    pub open spec fn supply(&self) -> int {
        self.accounts.total(balance_fn()) + self.accounts.total(bonded_fn()) + self.utxos.total(utxo_fn())
            + self.delegations.total(shares_fn()) + unbonding_total(self.unbonding@) + self.proposals.total(
            deposit_fn(),
        ) + self.shielded_value + self.fee_burned + self.community_pool
    }

    /// The initial state of a chain.
    pub fn from_genesis(g: &Genesis) -> (s: ChainState)
        requires
            alloc_total(g.alloc@) <= u128::MAX,
        ensures
            forall|a: Seq<u8>| #[trigger] s.accounts@.contains_key(a) <==> has_alloc(g.alloc@, a),
            forall|a: Seq<u8>|
                #[trigger] s.accounts@.contains_key(a) ==> {
                    &&& s.accounts@[a].balance == alloc_sum(g.alloc@, a)
                    &&& s.accounts@[a].nonce == 0
                    &&& s.accounts@[a].bonded == 0
                    &&& s.accounts@[a].code_hash is None
                    &&& s.accounts@[a].storage@ == Map::<u64, u64>::empty()
                },
            forall|i: int| 0 <= i < g.validators@.len() ==> #[trigger] s.validators@.contains_key(g.validators@[i].address@),
            forall|a: Seq<u8>|
                #[trigger] s.validators@.contains_key(a) ==> exists|i: int|
                    #[trigger] last_validator_entry(g.validators@, i, a) && from_genesis_entry(s.validators@[a], g.validators@[i]),
            // Invariant I1 holds at genesis.
            s.supply() == s.genesis_supply,
            s.total_supply == alloc_total(g.alloc@),
            s.genesis_supply == alloc_total(g.alloc@),
            s.height == 0,
            s.epoch == 0,
            s.base_fee == DEFAULT_BASE_FEE,
            s.params.chain_id@ == g.params.chain_id@,
            s.params.epoch_length == g.params.epoch_length,
            s.params.gas_limit == g.params.gas_limit,
            s.params.min_validator_stake == g.params.min_validator_stake,
            s.params.max_validators == g.params.max_validators,
            s.params.unbonding_period == g.params.unbonding_period,
            s.params.hybrid_mode == g.params.hybrid_mode,
            s.params.block_time_ms == g.params.block_time_ms,
            s.utxos@.dom().len() == 0,
            s.delegations@.dom().len() == 0,
            s.unbonding@.len() == 0,
            s.proposals@.dom().len() == 0,
            s.note_leaves@.len() == 0,
            s.next_unbond_id == 1,
            s.next_proposal_id == 1,
            s.fee_burned == 0,
            s.shielded_value == 0,
            s.community_pool == 0,
    {
        let mut accounts: KeyedVec<Address, Account> = KeyedVec::new();
        let mut total: u128 = 0;
        let n = g.alloc.len();
        let mut i: usize = 0;
        proof {
            lemma_sum_bounds(accounts.entries(), bonded_fn());
        }
        while i < n
            invariant
                n == g.alloc@.len(),
                i <= n,
                alloc_total(g.alloc@) <= u128::MAX,
                total == alloc_total(g.alloc@.subrange(0, i as int)),
                accounts.total(balance_fn()) == total,
                accounts.total(bonded_fn()) == 0,
                forall|a: Seq<u8>| #[trigger] accounts@.contains_key(a) <==> has_alloc(g.alloc@.subrange(0, i as int), a),
                forall|a: Seq<u8>|
                    #[trigger] accounts@.contains_key(a) ==> {
                        &&& accounts@[a].balance == alloc_sum(g.alloc@.subrange(0, i as int), a)
                        &&& accounts@[a].nonce == 0
                        &&& accounts@[a].bonded == 0
                        &&& accounts@[a].code_hash is None
                        &&& accounts@[a].storage@ == Map::<u64, u64>::empty()
                    },
            decreases n - i,
        {
            let ghost pre = g.alloc@.subrange(0, i as int);
            let ghost p = g.alloc@.subrange(0, i + 1);
            proof {
                assert(p.drop_last() =~= pre);
                lemma_alloc_total_prefix(g.alloc@, i + 1);
            }
            let a = g.alloc[i];
            let prev: u128 = match accounts.get(&a.address) {
                Some(acct) => {
                    proof {
                        assert(nonneg(balance_fn()));
                        accounts.lemma_value_le_total(a.address@, balance_fn());
                    }
                    acct.balance
                },
                None => 0,
            };
            accounts.insert(a.address, Account { nonce: 0, balance: prev + a.balance, code_hash: None, bonded: 0, storage: BTreeMap::new() });
            total = total + a.balance;
            proof {
                assert(p.last() == a);
                if !has_alloc(pre, a.address@) {
                    lemma_alloc_sum_absent(pre, a.address@);
                }
                assert forall|x: Seq<u8>| #[trigger] alloc_sum(p, x) == alloc_sum(pre, x) + if x == a.address@ { a.balance as int } else { 0 } by {}
                assert forall|x: Seq<u8>| #[trigger] accounts@.contains_key(x) <==> has_alloc(p, x) by {
                    if x == a.address@ {
                        assert(p[i as int] == a);
                    } else if has_alloc(p, x) {
                        let k = choose|k: int| 0 <= k < p.len() && (#[trigger] p[k]).address@ == x;
                        assert(k < i);
                        assert(pre[k] == p[k]);
                    } else if has_alloc(pre, x) {
                        let k = choose|k: int| 0 <= k < pre.len() && (#[trigger] pre[k]).address@ == x;
                        assert(p[k] == pre[k]);
                    }
                }
            }
            i = i + 1;
        }
        assert(g.alloc@.subrange(0, n as int) =~= g.alloc@);
        let mut validators: KeyedVec<Address, ValidatorInfo> = KeyedVec::new();
        let m = g.validators.len();
        let mut j: usize = 0;
        while j < m
            invariant
                m == g.validators@.len(),
                j <= m,
                forall|i: int| 0 <= i < j ==> #[trigger] validators@.contains_key(g.validators@[i].address@),
                forall|a: Seq<u8>|
                    #[trigger] validators@.contains_key(a) ==> exists|i: int|
                        #[trigger] last_validator_entry(g.validators@.subrange(0, j as int), i, a) && from_genesis_entry(
                            validators@[a],
                            g.validators@[i],
                        ),
            decreases m - j,
        {
            let v = &g.validators[j];
            let ghost pre = g.validators@.subrange(0, j as int);
            let ghost p = g.validators@.subrange(0, j + 1);
            let info = ValidatorInfo {
                address: v.address,
                public_key: to_vec(v.public_key.as_slice()),
                power: v.power,
                commission_bps: 0,
                jailed: false,
                shares: v.power,
                tombstoned: false,
                jail_until_epoch: 0,
            };
            let ghost old_vals = validators@;
            validators.insert(v.address, info);
            proof {
                assert(last_validator_entry(p, j as int, v.address@));
                assert forall|a: Seq<u8>| #[trigger] validators@.contains_key(a) implies exists|i: int|
                    #[trigger] last_validator_entry(p, i, a) && from_genesis_entry(validators@[a], g.validators@[i]) by {
                    if a == v.address@ {
                        assert(last_validator_entry(p, j as int, a));
                    } else {
                        assert(old_vals.contains_key(a));
                        let i = choose|i: int| #[trigger] last_validator_entry(pre, i, a) && from_genesis_entry(old_vals[a], g.validators@[i]);
                        assert(pre[i] == g.validators@[i]);
                        assert forall|k: int| i < k < p.len() implies (#[trigger] p[k]).address@ != a by {
                            if k < j {
                                assert(p[k] == pre[k]);
                            }
                        }
                        assert(last_validator_entry(p, i, a));
                    }
                }
            }
            j = j + 1;
        }
        proof {
            assert(g.validators@.subrange(0, m as int) =~= g.validators@);
        }
        ChainState {
            params: g.params.duplicate(),
            height: 0,
            epoch: 0,
            base_fee: DEFAULT_BASE_FEE,
            accounts,
            utxos: KeyedVec::new(),
            code: KeyedVec::new(),
            note_leaves: Vec::new(),
            notes: KeyedVec::new(),
            nullifiers: KeyedVec::new(),
            validators,
            delegations: KeyedVec::new(),
            unbonding: Vec::new(),
            next_unbond_id: 1,
            allowlist: KeyedVec::new(),
            rollups: KeyedVec::new(),
            pending_rollups: KeyedVec::new(),
            proposals: KeyedVec::new(),
            next_proposal_id: 1,
            total_supply: total,
            genesis_supply: total,
            fee_burned: 0,
            shielded_value: 0,
            community_pool: 0,
            bridges: KeyedVec::new(),
            bridge_packets: KeyedVec::new(),
            slash_log: Vec::new(),
            evidence_seen: KeyedVec::new(),
        }
    }

    pub fn get_balance(&self, addr: &Address) -> (b: u128)
        ensures
            b == balance_of(self.accounts@, addr@),
    {
        match self.accounts.get(addr) {
            Some(a) => a.balance,
            None => 0,
        }
    }

    /// The account of `addr`, or an empty account.
    pub fn get_account(&self, addr: &Address) -> (a: Account)
        ensures
            self.accounts@.contains_key(addr@) ==> {
                &&& a.balance == self.accounts@[addr@].balance
                &&& a.nonce == self.accounts@[addr@].nonce
                &&& a.bonded == self.accounts@[addr@].bonded
                &&& a.code_hash == self.accounts@[addr@].code_hash
                &&& a.storage@ == self.accounts@[addr@].storage@
            },
            !self.accounts@.contains_key(addr@) ==> a.is_empty_account(),
    {
        match self.accounts.get(addr) {
            Some(a) => a.duplicate(),
            None => Account::default(),
        }
    }
}

impl ChainState {
    /// Every part of the accounted supply is non-negative.
    pub proof fn lemma_supply_parts(&self)
        ensures
            self.accounts.total(balance_fn()) >= 0,
            self.accounts.total(bonded_fn()) >= 0,
            self.utxos.total(utxo_fn()) >= 0,
            self.delegations.total(shares_fn()) >= 0,
            unbonding_total(self.unbonding@) >= 0,
            self.proposals.total(deposit_fn()) >= 0,
    {
        assert(nonneg(balance_fn()));
        assert(nonneg(bonded_fn()));
        assert(nonneg(utxo_fn()));
        assert(nonneg(shares_fn()));
        assert(nonneg(deposit_fn()));
        self.accounts.lemma_total_nonneg(balance_fn());
        self.accounts.lemma_total_nonneg(bonded_fn());
        self.utxos.lemma_total_nonneg(utxo_fn());
        self.delegations.lemma_total_nonneg(shares_fn());
        self.proposals.lemma_total_nonneg(deposit_fn());
        lemma_unbonding_nonneg(self.unbonding@);
    }

    /// An account's balance and bond are each at most the table's totals.
    pub proof fn lemma_account_le_totals(&self, k: Seq<u8>)
        ensures
            0 <= balance_of(self.accounts@, k) <= self.accounts.total(balance_fn()),
            0 <= bonded_of(self.accounts@, k) <= self.accounts.total(bonded_fn()),
    {
        self.lemma_supply_parts();
        if self.accounts@.contains_key(k) {
            assert(nonneg(balance_fn()));
            assert(nonneg(bonded_fn()));
            self.accounts.lemma_value_le_total(k, balance_fn());
            self.accounts.lemma_value_le_total(k, bonded_fn());
        }
    }

    /// Two different accounts' balances together are at most the total.
    pub proof fn lemma_two_accounts_le_total(&self, a: Seq<u8>, b: Seq<u8>)
        requires
            a != b,
        ensures
            balance_of(self.accounts@, a) + balance_of(self.accounts@, b) <= self.accounts.total(balance_fn()),
    {
        self.lemma_account_le_totals(a);
        self.lemma_account_le_totals(b);
        if self.accounts@.contains_key(a) && self.accounts@.contains_key(b) {
            assert(nonneg(balance_fn()));
            self.accounts.lemma_two_values_le_total(a, b, balance_fn());
        }
    }

    /// Sets the balance and bond of `a`'s account, creating it if missing.
    pub(crate) fn set_funds(&mut self, a: &Address, balance: u128, bonded: u128)
        ensures
            funds_set(old(self).accounts@, final(self).accounts@, a@, balance as int, bonded as int),
            nonces_kept(old(self).accounts@, final(self).accounts@),
            final(self).accounts.total(balance_fn()) == old(self).accounts.total(balance_fn()) - balance_of(
                old(self).accounts@,
                a@,
            ) + balance,
            final(self).accounts.total(bonded_fn()) == old(self).accounts.total(bonded_fn()) - bonded_of(
                old(self).accounts@,
                a@,
            ) + bonded,
            final(self).supply() == old(self).supply() - balance_of(old(self).accounts@, a@) - bonded_of(
                old(self).accounts@,
                a@,
            ) + balance + bonded,
            *final(self) == (ChainState { accounts: final(self).accounts, ..*old(self) }),
    {
        let mut acct = self.get_account(a);
        acct.balance = balance;
        acct.bonded = bonded;
        self.accounts.insert(*a, acct);
        proof {
            let m0 = old(self).accounts@;
            let m1 = self.accounts@;
            assert(m1.dom() =~= m0.dom().insert(a@));
            assert forall|k: Seq<u8>| #[trigger] nonce_of(m1, k) == nonce_of(m0, k) by {
                if k != a@ {
                    assert(m1.contains_key(k) == m0.contains_key(k));
                }
            }
        }
    }

    /// Adds `amount` to the balance of `a`.
    pub(crate) fn credit(&mut self, a: &Address, amount: u128)
        requires
            balance_of(old(self).accounts@, a@) + amount <= u128::MAX,
        ensures
            funds_set(
                old(self).accounts@,
                final(self).accounts@,
                a@,
                balance_of(old(self).accounts@, a@) + amount,
                bonded_of(old(self).accounts@, a@),
            ),
            nonces_kept(old(self).accounts@, final(self).accounts@),
            final(self).supply() == old(self).supply() + amount,
            *final(self) == (ChainState { accounts: final(self).accounts, ..*old(self) }),
    {
        let acct = self.get_account(a);
        self.set_funds(a, acct.balance + amount, acct.bonded);
    }

    /// Takes `amount` from the balance of `a`.
    pub(crate) fn debit(&mut self, a: &Address, amount: u128)
        requires
            balance_of(old(self).accounts@, a@) >= amount,
        ensures
            funds_set(
                old(self).accounts@,
                final(self).accounts@,
                a@,
                balance_of(old(self).accounts@, a@) - amount,
                bonded_of(old(self).accounts@, a@),
            ),
            nonces_kept(old(self).accounts@, final(self).accounts@),
            final(self).supply() == old(self).supply() - amount,
            *final(self) == (ChainState { accounts: final(self).accounts, ..*old(self) }),
    {
        let acct = self.get_account(a);
        self.set_funds(a, acct.balance - amount, acct.bonded);
    }
}

/// `x` capped at `u128::MAX`.
pub open spec fn cap(x: int) -> int {
    if x > u128::MAX { u128::MAX as int } else { x }
}

proof fn lemma_sum_step<K, V>(s: Seq<(K, V)>, i: int, f: spec_fn(V) -> int)
    requires
        0 <= i < s.len(),
    ensures
        sum_by(s.subrange(0, i + 1), f) == sum_by(s.subrange(0, i), f) + f(s[i].1),
{
    assert(s.subrange(0, i + 1).drop_last() =~= s.subrange(0, i));
}

proof fn lemma_unbonding_nonneg(s: Seq<UnbondingEntry>)
    ensures
        unbonding_total(s) >= 0,
    decreases s.len(),
{
    if s.len() > 0 {
        lemma_unbonding_nonneg(s.drop_last());
    }
}

/// Adding a non-negative amount to a capped sum caps the whole.
proof fn lemma_cap_add(a: int, b: int)
    requires
        a >= 0,
        b >= 0,
    ensures
        cap(cap(a) + b) == cap(a + b),
{
}

proof fn lemma_sum_bounds<K, V>(s: Seq<(K, V)>, f: spec_fn(V) -> int)
    requires
        nonneg(f),
    ensures
        forall|i: int| 0 <= i <= s.len() ==> #[trigger] sum_by(s.subrange(0, i), f) >= 0,
{
    assert forall|i: int| 0 <= i <= s.len() implies #[trigger] sum_by(s.subrange(0, i), f) >= 0 by {
        crate::kvmap::lemma_sum_nonneg(s.subrange(0, i), f);
    }
}

/// Capped sum of `f` over a table's values, added value by value.
fn capped_total_accounts(m: &KeyedVec<Address, Account>, which: u8) -> (t: u128)
    requires
        which <= 1,
    ensures
        t == cap(if which == 0 { m.total(balance_fn()) } else { m.total(bonded_fn()) }),
{
    let ghost f = if which == 0 { balance_fn() } else { bonded_fn() };
    proof {
        assert(nonneg(f));
        lemma_sum_bounds(m.entries(), f);
    }
    let n = m.len();
    let mut acc: u128 = 0;
    let mut i: usize = 0;
    while i < n
        invariant
            n == m.entries().len(),
            i <= n,
            nonneg(f),
            f == if which == 0 { balance_fn() } else { bonded_fn() },
            forall|j: int| 0 <= j <= n ==> #[trigger] sum_by(m.entries().subrange(0, j), f) >= 0,
            acc == cap(sum_by(m.entries().subrange(0, i as int), f)),
        decreases n - i,
    {
        let e = m.entry(i);
        let v = if which == 0 { e.1.balance } else { e.1.bonded };
        proof {
            lemma_sum_step(m.entries(), i as int, f);
            lemma_cap_add(sum_by(m.entries().subrange(0, i as int), f), f(e.1));
        }
        acc = acc.saturating_add(v);
        i = i + 1;
    }
    proof {
        assert(m.entries().subrange(0, n as int) =~= m.entries());
    }
    acc
}

fn capped_total_utxos(m: &KeyedVec<(Hash256, u32), TxOutput>) -> (t: u128)
    ensures
        t == cap(m.total(utxo_fn())),
{
    let ghost f = utxo_fn();
    proof {
        assert(nonneg(f));
        lemma_sum_bounds(m.entries(), f);
    }
    let n = m.len();
    let mut acc: u128 = 0;
    let mut i: usize = 0;
    while i < n
        invariant
            n == m.entries().len(),
            i <= n,
            f == utxo_fn(),
            forall|j: int| 0 <= j <= n ==> #[trigger] sum_by(m.entries().subrange(0, j), f) >= 0,
            acc == cap(sum_by(m.entries().subrange(0, i as int), f)),
        decreases n - i,
    {
        let e = m.entry(i);
        proof {
            lemma_sum_step(m.entries(), i as int, f);
            lemma_cap_add(sum_by(m.entries().subrange(0, i as int), f), f(e.1));
        }
        acc = acc.saturating_add(e.1.amount);
        i = i + 1;
    }
    proof {
        assert(m.entries().subrange(0, n as int) =~= m.entries());
    }
    acc
}

fn capped_total_delegations(m: &KeyedVec<(Address, Address), Delegation>) -> (t: u128)
    ensures
        t == cap(m.total(shares_fn())),
{
    let ghost f = shares_fn();
    proof {
        assert(nonneg(f));
        lemma_sum_bounds(m.entries(), f);
    }
    let n = m.len();
    let mut acc: u128 = 0;
    let mut i: usize = 0;
    while i < n
        invariant
            n == m.entries().len(),
            i <= n,
            f == shares_fn(),
            forall|j: int| 0 <= j <= n ==> #[trigger] sum_by(m.entries().subrange(0, j), f) >= 0,
            acc == cap(sum_by(m.entries().subrange(0, i as int), f)),
        decreases n - i,
    {
        let e = m.entry(i);
        proof {
            lemma_sum_step(m.entries(), i as int, f);
            lemma_cap_add(sum_by(m.entries().subrange(0, i as int), f), f(e.1));
        }
        acc = acc.saturating_add(e.1.shares);
        i = i + 1;
    }
    proof {
        assert(m.entries().subrange(0, n as int) =~= m.entries());
    }
    acc
}

/// The voting power of the validators that are not jailed, capped at
/// `u128::MAX`.
pub fn capped_active_power(m: &KeyedVec<Address, ValidatorInfo>) -> (t: u128)
    ensures
        t == cap(m.total(active_power_fn())),
{
    let ghost f = active_power_fn();
    proof {
        assert(nonneg(f));
        lemma_sum_bounds(m.entries(), f);
    }
    let n = m.len();
    let mut acc: u128 = 0;
    let mut i: usize = 0;
    while i < n
        invariant
            n == m.entries().len(),
            i <= n,
            f == active_power_fn(),
            forall|j: int| 0 <= j <= n ==> #[trigger] sum_by(m.entries().subrange(0, j), f) >= 0,
            acc == cap(sum_by(m.entries().subrange(0, i as int), f)),
        decreases n - i,
    {
        let e = m.entry(i);
        proof {
            lemma_sum_step(m.entries(), i as int, f);
            lemma_cap_add(sum_by(m.entries().subrange(0, i as int), f), f(e.1));
        }
        let d = if e.1.jailed { 0 } else { e.1.power };
        acc = acc.saturating_add(d);
        i = i + 1;
    }
    proof {
        assert(m.entries().subrange(0, n as int) =~= m.entries());
    }
    acc
}

fn capped_total_deposits(m: &KeyedVec<u64, GovernanceProposal>) -> (t: u128)
    ensures
        t == cap(m.total(deposit_fn())),
{
    let ghost f = deposit_fn();
    proof {
        assert(nonneg(f));
        lemma_sum_bounds(m.entries(), f);
    }
    let n = m.len();
    let mut acc: u128 = 0;
    let mut i: usize = 0;
    while i < n
        invariant
            n == m.entries().len(),
            i <= n,
            f == deposit_fn(),
            forall|j: int| 0 <= j <= n ==> #[trigger] sum_by(m.entries().subrange(0, j), f) >= 0,
            acc == cap(sum_by(m.entries().subrange(0, i as int), f)),
        decreases n - i,
    {
        let e = m.entry(i);
        proof {
            lemma_sum_step(m.entries(), i as int, f);
            lemma_cap_add(sum_by(m.entries().subrange(0, i as int), f), f(e.1));
        }
        let d = if e.1.status == ProposalStatus::Voting || e.1.status == ProposalStatus::Passed { e.1.deposit } else { 0 };
        acc = acc.saturating_add(d);
        i = i + 1;
    }
    proof {
        assert(m.entries().subrange(0, n as int) =~= m.entries());
    }
    acc
}

fn capped_total_unbonding(s: &Vec<UnbondingEntry>) -> (t: u128)
    ensures
        t == cap(unbonding_total(s@)),
{
    let n = s.len();
    let mut acc: u128 = 0;
    let mut i: usize = 0;
    while i < n
        invariant
            n == s@.len(),
            i <= n,
            acc == cap(unbonding_total(s@.subrange(0, i as int))),
        decreases n - i,
    {
        proof {
            assert(s@.subrange(0, i + 1).drop_last() =~= s@.subrange(0, i as int));
            lemma_unbonding_nonneg(s@.subrange(0, i as int));
            lemma_cap_add(unbonding_total(s@.subrange(0, i as int)), s@[i as int].amount as int);
        }
        acc = acc.saturating_add(s[i].amount);
        i = i + 1;
    }
    proof {
        assert(s@.subrange(0, n as int) =~= s@);
    }
    acc
}

impl ChainState {
    /// The accounted value (invariant I1's left side), summed with
    /// saturation.
    pub fn capped_supply(&self) -> (t: u128)
        ensures
            t == cap(self.supply()),
    {
        proof {
            self.lemma_supply_parts();
        }
        let liquid = capped_total_accounts(&self.accounts, 0);
        let bonded = capped_total_accounts(&self.accounts, 1);
        let utxo_sum = capped_total_utxos(&self.utxos);
        let deposits = capped_total_deposits(&self.proposals);
        let unbonding_locked = capped_total_unbonding(&self.unbonding);
        let delegated = capped_total_delegations(&self.delegations);
        liquid.saturating_add(bonded).saturating_add(utxo_sum).saturating_add(self.shielded_value).saturating_add(self.fee_burned).saturating_add(
            deposits,
        ).saturating_add(unbonding_locked).saturating_add(delegated).saturating_add(self.community_pool)
    }

    /// Checks invariant I1: the accounted value (summed with saturation)
    /// equals the genesis supply.
    pub fn verify_supply_invariant(&self) -> (r: Result<(), StateError>)
        ensures
            r is Ok <==> cap(self.supply()) == self.genesis_supply,
            r is Err ==> crate::errors::fails_with(
                r,
                "supply invariant broken: lhs="@ + spec_decimal(cap(self.supply()) as nat) + " genesis="@ + spec_decimal(
                    self.genesis_supply as nat,
                ),
            ),
    {
        let lhs = self.capped_supply();
        if lhs != self.genesis_supply {
            let m = String::from_str("supply invariant broken: lhs=").concat(decimal_string(lhs).as_str()).concat(" genesis=").concat(
                decimal_string(self.genesis_supply).as_str(),
            );
            return Err(StateError::InvalidTx(m));
        }
        Ok(())
    }

    /// The accounted value outside governance deposits, summed with
    /// saturation.
    pub fn accounted_supply(&self) -> (n: u128)
        ensures
            n == cap(self.supply() - self.proposals.total(deposit_fn())),
    {
        proof {
            self.lemma_supply_parts();
        }
        let liquid = capped_total_accounts(&self.accounts, 0);
        let bonded = capped_total_accounts(&self.accounts, 1);
        let utxo_sum = capped_total_utxos(&self.utxos);
        let delegated = capped_total_delegations(&self.delegations);
        let unbonding_locked = capped_total_unbonding(&self.unbonding);
        let n = liquid.saturating_add(bonded).saturating_add(utxo_sum).saturating_add(delegated).saturating_add(unbonding_locked);
        n.saturating_add(self.shielded_value).saturating_add(self.fee_burned).saturating_add(self.community_pool)
    }
}

proof fn lemma_alloc_total_prefix(s: Seq<GenesisAlloc>, i: int)
    requires
        0 <= i <= s.len(),
    ensures
        0 <= alloc_total(s.subrange(0, i)) <= alloc_total(s),
    decreases s.len(),
{
    if s.len() > 0 {
        if i == s.len() {
            assert(s.subrange(0, i) =~= s);
            lemma_alloc_total_prefix(s.drop_last(), i - 1);
            assert(s.drop_last().subrange(0, i - 1) =~= s.drop_last());
        } else {
            lemma_alloc_total_prefix(s.drop_last(), i);
            assert(s.drop_last().subrange(0, i) =~= s.subrange(0, i));
        }
    }
}

} // verus!
