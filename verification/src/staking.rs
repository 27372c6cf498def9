//! Staking: self-bonding, delegation, the unbonding queue and withdrawals.

use vstd::prelude::*;
use vstd::string::*;
use crate::bytes::addr_eq;
use crate::errors::{fails_as, fails_with, StateError};
use crate::kvmap::nonneg;
use crate::state::{
    balance_fn, balance_of, bonded_fn, bonded_of, funds_set, nonces_kept, shares_fn, unbonding_total, ChainState,
};
use crate::types::{Address, Delegation, HybridMode, UnbondingEntry, ValidatorInfo};

use crate::state::tombstones_kept;

verus! {

/// `m1` is `m0` with the entry at `k` set (possibly new); others unchanged.
pub open spec fn same_except<V>(m0: Map<Seq<u8>, V>, m1: Map<Seq<u8>, V>, k: Seq<u8>) -> bool {
    &&& m1.dom() == m0.dom().insert(k)
    &&& forall|j: Seq<u8>| j != k && #[trigger] m0.contains_key(j) ==> m1[j] == m0[j]
}

/// A copy of a validator record with its stake figures replaced.
pub open spec fn with_stake(v: ValidatorInfo, power: u128, shares: u128) -> ValidatorInfo {
    ValidatorInfo { power, shares, ..v }
}

/// Delegated shares of `(delegator, validator)` (0 when none).
pub open spec fn shares_of(m: Map<(Seq<u8>, Seq<u8>), Delegation>, k: (Seq<u8>, Seq<u8>)) -> int {
    if m.contains_key(k) {
        m[k].shares as int
    } else {
        0
    }
}

/// Whether bonding is closed to `from` by the chain's allowlist.
pub open spec fn bond_denied(s: ChainState, from: Address) -> bool {
    s.params.hybrid_mode == HybridMode::Allowlist && s.allowlist@.dom().len() > 0 && !s.allowlist@.contains_key(from@)
}

/// Whether an unbonding entry is claimable by `owner` at `epoch`.
pub open spec fn claimable(e: UnbondingEntry, owner: Seq<u8>, epoch: u64) -> bool {
    e.owner@ == owner && e.unlock_epoch <= epoch
}

/// Total of the entries claimable by `owner` at `epoch`.
pub open spec fn claim_total(s: Seq<UnbondingEntry>, owner: Seq<u8>, epoch: u64) -> int
    decreases s.len(),
{
    if s.len() == 0 {
        0
    } else {
        claim_total(s.drop_last(), owner, epoch) + if claimable(s.last(), owner, epoch) {
            s.last().amount as int
        } else {
            0
        }
    }
}

/// The entries that stay queued after `owner` withdraws at `epoch`.
pub open spec fn kept_entries(s: Seq<UnbondingEntry>, owner: Seq<u8>, epoch: u64) -> Seq<UnbondingEntry>
    decreases s.len(),
{
    if s.len() == 0 {
        s
    } else if claimable(s.last(), owner, epoch) {
        kept_entries(s.drop_last(), owner, epoch)
    } else {
        kept_entries(s.drop_last(), owner, epoch).push(s.last())
    }
}

proof fn lemma_claim_prefix(s: Seq<UnbondingEntry>, owner: Seq<u8>, epoch: u64, i: int)
    requires
        0 <= i <= s.len(),
    ensures
        0 <= claim_total(s.subrange(0, i), owner, epoch) <= claim_total(s, owner, epoch),
    decreases s.len(),
{
    if s.len() > 0 {
        if i == s.len() {
            assert(s.subrange(0, i) =~= s);
            lemma_claim_prefix(s.drop_last(), owner, epoch, i - 1);
            assert(s.drop_last().subrange(0, i - 1) =~= s.drop_last());
        } else {
            lemma_claim_prefix(s.drop_last(), owner, epoch, i);
            assert(s.drop_last().subrange(0, i) =~= s.subrange(0, i));
        }
    }
}

proof fn lemma_claim_split(s: Seq<UnbondingEntry>, owner: Seq<u8>, epoch: u64)
    ensures
        unbonding_total(s) == claim_total(s, owner, epoch) + unbonding_total(kept_entries(s, owner, epoch)),
        claim_total(s, owner, epoch) >= 0,
        unbonding_total(kept_entries(s, owner, epoch)) >= 0,
    decreases s.len(),
{
    if s.len() > 0 {
        lemma_claim_split(s.drop_last(), owner, epoch);
        let k = kept_entries(s.drop_last(), owner, epoch);
        if !claimable(s.last(), owner, epoch) {
            assert(k.push(s.last()).drop_last() =~= k);
        }
    }
}

impl ChainState {
    /// On a chain with an allowlist (`allowlist` or `mixed` mode), admits
    /// `node` and every validator; otherwise changes nothing.
    pub fn seed_allowlist(&mut self, node: &Address)
        ensures
            old(self).params.hybrid_mode == HybridMode::Public ==> *final(self) == *old(self),
            old(self).params.hybrid_mode != HybridMode::Public ==> final(self).allowlist@.dom() == old(self).allowlist@.dom().union(
                old(self).validators@.dom(),
            ).insert(node@),
            *final(self) == (ChainState { allowlist: final(self).allowlist, ..*old(self) }),
    {
        if self.params.hybrid_mode == HybridMode::Public {
            return;
        }
        self.validators.reveal_entries();
        let ghost d0 = self.allowlist@.dom();
        let ghost vals = self.validators@;
        let n = self.validators.len();
        let mut i: usize = 0;
        while i < n
            invariant
                n == self.validators.entries().len(),
                i <= n,
                vals == self.validators@,
                forall|j: int| 0 <= j < n ==> #[trigger] vals.contains_key(self.validators.entries()[j].0@),
                forall|k: Seq<u8>| #[trigger] vals.contains_key(k) ==> exists|j: int| 0 <= j < n && (#[trigger] self.validators.entries()[j]).0@ == k,
                self.allowlist@.dom() == d0.union(Set::new(|k: Seq<u8>| exists|j: int| 0 <= j < i && (#[trigger] self.validators.entries()[j]).0@ == k)),
                *self == (ChainState { allowlist: self.allowlist, ..*old(self) }),
            decreases n - i,
        {
            let a = self.validators.entry(i).0;
            self.allowlist.insert(a, ());
            proof {
                assert(self.allowlist@.dom() =~= d0.union(Set::new(|k: Seq<u8>| exists|j: int| 0 <= j < i + 1 && (#[trigger] self.validators.entries()[j]).0@ == k))) by {
                    assert forall|k: Seq<u8>| #[trigger] self.allowlist@.dom().contains(k) == d0.union(Set::new(|k: Seq<u8>| exists|j: int| 0 <= j < i + 1 && (#[trigger] self.validators.entries()[j]).0@ == k)).contains(k) by {
                        if k == a@ {
                            assert(self.validators.entries()[i as int].0@ == k);
                        }
                    }
                }
            }
            i = i + 1;
        }
        self.allowlist.insert(*node, ());
        proof {
            assert(self.allowlist@.dom() =~= d0.union(vals.dom()).insert(node@));
        }
    }
}

/// What `apply_bond` does: the state it leaves, the gas it counts and its
/// result, from `s_in` and `gas_in`.
pub open spec fn bond_effect(s_in: ChainState, s_out: ChainState, from: Address, amount: u128, commission_bps: u16, gas_in: u64, gas_out: u64, r: Result<(), StateError>) -> bool {
    &&& tombstones_kept(s_in.validators@, s_out.validators@)
    &&& gas_out == gas_in + 40000
    &&& s_out.supply() == s_in.supply()
    &&& nonces_kept(s_in.accounts@, s_out.accounts@)
    &&& s_out == (ChainState { accounts: s_out.accounts, validators: s_out.validators, ..s_in })
    &&& ({
        let m0 = s_in.accounts@;
        let bal = balance_of(m0, from@);
        let bnd = bonded_of(m0, from@);
        let is_new = !s_in.validators@.contains_key(from@);
        &&& bond_denied(s_in, from) ==> fails_as(r, StateError::HybridDenied) && s_out == s_in
        &&& !bond_denied(s_in, from) && commission_bps > 10000 ==> fails_with(r, "commission_bps > 10000"@) && s_out == s_in
        &&& !bond_denied(s_in, from) && commission_bps <= 10000 ==> {
            &&& bal < amount ==> fails_as(r, StateError::InsufficientBalance) && s_out == s_in
            &&& bal >= amount && is_new && amount < s_in.params.min_validator_stake ==> fails_with(r, "below min_validator_stake"@) && s_out == s_in
            &&& bal >= amount && is_new && amount >= s_in.params.min_validator_stake && s_in.validators@.dom().len()
                >= s_in.params.max_validators ==> fails_with(r, "max validators reached"@) && s_out == s_in
            &&& bal >= amount && !is_new && s_in.validators@[from@].tombstoned ==> fails_with(r, "validator tombstoned"@) && s_out == s_in
            &&& bal >= amount && !is_new ==> {
                &&& !s_in.validators@[from@].tombstoned ==> funds_set(m0, s_out.accounts@, from@, bal - amount, bnd + amount)
                &&& !s_in.validators@[from@].tombstoned ==> r is Ok && same_except(
                    s_in.validators@,
                    s_out.validators@,
                    from@,
                ) && s_out.validators@[from@] == (ValidatorInfo {
                    power: (bnd + amount) as u128,
                    shares: if s_in.validators@[from@].shares + amount > u128::MAX {
                        u128::MAX
                    } else {
                        (s_in.validators@[from@].shares + amount) as u128
                    },
                    commission_bps,
                    ..s_in.validators@[from@]
                })
            }
            &&& bal >= amount && is_new && amount >= s_in.params.min_validator_stake
                && s_in.validators@.dom().len() < s_in.params.max_validators ==> {
                &&& r is Ok
                &&& funds_set(m0, s_out.accounts@, from@, bal - amount, bnd + amount)
                &&& same_except(s_in.validators@, s_out.validators@, from@)
                &&& s_out.validators@[from@].address == from
                &&& s_out.validators@[from@].public_key@.len() == 0
                &&& s_out.validators@[from@].power == bnd + amount
                &&& s_out.validators@[from@].shares == amount
                &&& s_out.validators@[from@].commission_bps == commission_bps
                &&& !s_out.validators@[from@].jailed
                &&& !s_out.validators@[from@].tombstoned
                &&& s_out.validators@[from@].jail_until_epoch == 0
            }
        }
    })
}

/// What `apply_unbond` does: the state it leaves, the gas it counts and its
/// result, from `s_in` and `gas_in`.
pub open spec fn unbond_effect(s_in: ChainState, s_out: ChainState, from: Address, amount: u128, gas_in: u64, gas_out: u64, r: Result<(), StateError>) -> bool {
    &&& tombstones_kept(s_in.validators@, s_out.validators@)
    &&& gas_out == gas_in + 40000
    &&& s_out.supply() == s_in.supply()
    &&& nonces_kept(s_in.accounts@, s_out.accounts@)
    &&& s_out == (ChainState {
        accounts: s_out.accounts,
        validators: s_out.validators,
        unbonding: s_out.unbonding,
        next_unbond_id: s_out.next_unbond_id,
        ..s_in
    })
    &&& ({
        let m0 = s_in.accounts@;
        let bal = balance_of(m0, from@);
        let bnd = bonded_of(m0, from@);
        &&& bnd < amount ==> fails_as(r, StateError::InsufficientBalance) && s_out == s_in
        &&& bnd >= amount ==> {
            &&& r is Ok
            &&& funds_set(m0, s_out.accounts@, from@, bal, bnd - amount)
            &&& s_in.validators@.contains_key(from@) ==> s_out.validators@ == s_in.validators@.insert(
                from@,
                with_stake(
                    s_in.validators@[from@],
                    (bnd - amount) as u128,
                    if s_in.validators@[from@].shares < amount { 0 } else { (s_in.validators@[from@].shares - amount) as u128 },
                ),
            )
            &&& !s_in.validators@.contains_key(from@) ==> s_out.validators@ == s_in.validators@
            &&& s_out.next_unbond_id == s_in.next_unbond_id + 1
            &&& s_out.unbonding@.len() == s_in.unbonding@.len() + 1
            &&& s_out.unbonding@.last().amount == amount
            &&& s_out.unbonding@.last().owner == from
            &&& s_out.unbonding@.last().validator == from
            &&& s_out.unbonding@.last().id == s_in.next_unbond_id
            &&& s_out.unbonding@.drop_last() =~= s_in.unbonding@
            &&& s_out.unbonding@.last().unlock_epoch == (if s_in.epoch + s_in.params.unbonding_period > u64::MAX {
                u64::MAX as int
            } else {
                s_in.epoch + s_in.params.unbonding_period
            })
        }
    })
}

/// What `apply_delegate` does: the state it leaves, the gas it counts and its
/// result, from `s_in` and `gas_in`.
pub open spec fn delegate_effect(s_in: ChainState, s_out: ChainState, from: Address, validator: Address, amount: u128, gas_in: u64, gas_out: u64, r: Result<(), StateError>) -> bool {
    &&& tombstones_kept(s_in.validators@, s_out.validators@)
    &&& gas_out == gas_in + 45000
    &&& s_out.supply() == s_in.supply()
    &&& nonces_kept(s_in.accounts@, s_out.accounts@)
    &&& s_out == (ChainState {
        accounts: s_out.accounts,
        validators: s_out.validators,
        delegations: s_out.delegations,
        ..s_in
    })
    &&& ({
        let m0 = s_in.accounts@;
        let bal = balance_of(m0, from@);
        let bnd = bonded_of(m0, from@);
        let vs = s_in.validators@;
        let dk = (from@, validator@);
        &&& amount == 0 ==> fails_with(r, "zero delegation"@) && s_out == s_in
        &&& amount > 0 && !vs.contains_key(validator@) ==> fails_with(r, "unknown validator"@) && s_out == s_in
        &&& amount > 0 && vs.contains_key(validator@) && vs[validator@].jailed ==> fails_with(r, "validator jailed"@)
            && s_out == s_in
        &&& amount > 0 && vs.contains_key(validator@) && !vs[validator@].jailed && bal < amount ==> fails_as(
            r,
            StateError::InsufficientBalance,
        ) && s_out == s_in
        &&& amount > 0 && vs.contains_key(validator@) && !vs[validator@].jailed && bal >= amount ==> {
            &&& r is Ok
            &&& funds_set(m0, s_out.accounts@, from@, bal - amount, bnd)
            &&& s_out.delegations@.dom() == s_in.delegations@.dom().insert(dk)
            &&& s_out.delegations@[dk].shares == shares_of(s_in.delegations@, dk) + amount
            &&& !s_in.delegations@.contains_key(dk) ==> s_out.delegations@[dk].delegator == from
                && s_out.delegations@[dk].validator == validator
            &&& forall|j: (Seq<u8>, Seq<u8>)| j != dk && #[trigger] s_in.delegations@.contains_key(j)
                ==> s_out.delegations@[j] == s_in.delegations@[j]
            &&& s_out.validators@ == vs.insert(
                validator@,
                with_stake(
                    vs[validator@],
                    if vs[validator@].power + amount > u128::MAX { u128::MAX } else { (vs[validator@].power + amount) as u128 },
                    if vs[validator@].shares + amount > u128::MAX { u128::MAX } else { (vs[validator@].shares + amount) as u128 },
                ),
            )
        }
    })
}

/// What `apply_redelegate` does: the state it leaves, the gas it counts and its
/// result, from `s_in` and `gas_in`.
pub open spec fn redelegate_effect(s_in: ChainState, s_out: ChainState, from: Address, src: Address, dst: Address, amount: u128, gas_in: u64, gas_out: u64, r: Result<(), StateError>) -> bool {
    &&& tombstones_kept(s_in.validators@, s_out.validators@)
    &&& gas_out == gas_in + 55000
    &&& s_out == (ChainState { validators: s_out.validators, delegations: s_out.delegations, ..s_in })
    &&& ({
        let ds = s_in.delegations@;
        let sk = (from@, src@);
        let dk = (from@, dst@);
        let vs = s_in.validators@;
        let taken = src@ != dst@ && amount > 0 && ds.contains_key(sk) && ds[sk].shares >= amount;
        &&& src@ == dst@ ==> fails_with(r, "src == dst"@) && s_out == s_in
        &&& src@ != dst@ && amount == 0 ==> fails_with(r, "zero redelegate"@) && s_out == s_in
        &&& src@ != dst@ && amount > 0 && !ds.contains_key(sk) ==> fails_with(r, "no delegation"@) && s_out == s_in
        &&& src@ != dst@ && amount > 0 && ds.contains_key(sk) && ds[sk].shares < amount ==> fails_as(
            r,
            StateError::InsufficientBalance,
        ) && s_out == s_in
        &&& taken && !vs.contains_key(dst@) ==> fails_with(r, "unknown dst validator"@) && s_out == s_in
        &&& taken && vs.contains_key(dst@) && vs[dst@].jailed ==> fails_with(r, "dst validator jailed"@) && s_out == s_in
        &&& taken && vs.contains_key(dst@) && !vs[dst@].jailed ==> {
            &&& r is Ok
            &&& s_out.supply() == s_in.supply()
            &&& shares_of(s_out.delegations@, sk) == ds[sk].shares - amount
            &&& shares_of(s_out.delegations@, dk) == shares_of(ds, dk) + amount
            &&& s_out.validators@[dst@].power == (if vs[dst@].power + amount > u128::MAX { u128::MAX } else { (vs[dst@].power + amount) as u128 })
        }
    })
}

/// What `apply_undelegate` does: the state it leaves, the gas it counts and its
/// result, from `s_in` and `gas_in`.
pub open spec fn undelegate_effect(s_in: ChainState, s_out: ChainState, from: Address, validator: Address, amount: u128, gas_in: u64, gas_out: u64, r: Result<(), StateError>) -> bool {
    &&& tombstones_kept(s_in.validators@, s_out.validators@)
    &&& gas_out == gas_in + 45000
    &&& s_out.supply() == s_in.supply()
    &&& s_out == (ChainState {
        validators: s_out.validators,
        delegations: s_out.delegations,
        unbonding: s_out.unbonding,
        next_unbond_id: s_out.next_unbond_id,
        ..s_in
    })
    &&& ({
        let ds = s_in.delegations@;
        let dk = (from@, validator@);
        &&& amount == 0 ==> fails_with(r, "zero undelegate"@) && s_out == s_in
        &&& amount > 0 && !ds.contains_key(dk) ==> fails_with(r, "no delegation"@) && s_out == s_in
        &&& amount > 0 && ds.contains_key(dk) && ds[dk].shares < amount ==> fails_as(r, StateError::InsufficientBalance)
            && s_out == s_in
        &&& amount > 0 && ds.contains_key(dk) && ds[dk].shares >= amount ==> {
            &&& r is Ok
            &&& shares_of(s_out.delegations@, dk) == ds[dk].shares - amount
            &&& s_out.unbonding@.drop_last() =~= s_in.unbonding@
            &&& s_out.unbonding@.last().amount == amount
            &&& s_out.unbonding@.last().owner == from
            &&& s_out.unbonding@.last().validator == validator
            &&& s_out.next_unbond_id == s_in.next_unbond_id + 1
            &&& s_out.unbonding@.last().unlock_epoch == (if s_in.epoch + s_in.params.unbonding_period > u64::MAX {
                u64::MAX as int
            } else {
                s_in.epoch + s_in.params.unbonding_period
            })
        }
    })
}

/// What `apply_withdraw` does: the state it leaves, the gas it counts and its
/// result, from `s_in` and `gas_in`.
pub open spec fn withdraw_effect(s_in: ChainState, s_out: ChainState, from: Address, gas_in: u64, gas_out: u64, r: Result<(), StateError>) -> bool {
    &&& tombstones_kept(s_in.validators@, s_out.validators@)
    &&& gas_out == gas_in + 30000
    &&& s_out.supply() == s_in.supply()
    &&& nonces_kept(s_in.accounts@, s_out.accounts@)
    &&& s_out == (ChainState { accounts: s_out.accounts, unbonding: s_out.unbonding, ..s_in })
    &&& ({
        let claim = claim_total(s_in.unbonding@, from@, s_in.epoch);
        let m0 = s_in.accounts@;
        &&& claim == 0 ==> fails_with(r, "nothing to withdraw"@) && s_out == s_in
        &&& claim != 0 ==> {
            &&& r is Ok
            &&& s_out.unbonding@ == kept_entries(s_in.unbonding@, from@, s_in.epoch)
            &&& funds_set(m0, s_out.accounts@, from@, balance_of(m0, from@) + claim, bonded_of(m0, from@))
        }
    })
}

impl ChainState {
    /// Moves `amount` of `from`'s balance into its self-bond and records it
    /// as (or adds it to) a validator with the given commission.
    pub(crate) fn apply_bond(&mut self, from: &Address, amount: u128, commission_bps: u16, gas_used: &mut u64) -> (r: Result<
        (),
        StateError,
    >)
        requires
            old(self).supply() <= u128::MAX,
            *old(gas_used) + 40000 <= u64::MAX,
        ensures
            bond_effect(*old(self), *final(self), *from, amount, commission_bps, *old(gas_used), *final(gas_used), r),
    {
        *gas_used = *gas_used + 40000;
        if self.params.hybrid_mode == HybridMode::Allowlist && self.allowlist.len() > 0 && !self.allowlist.contains_key(from) {
            return Err(StateError::HybridDenied);
        }
        if commission_bps > 10000 {
            return Err(StateError::InvalidTx(String::from_str("commission_bps > 10000")));
        }
        let acct = self.get_account(from);
        if acct.balance < amount {
            return Err(StateError::InsufficientBalance);
        }
        let is_new = !self.validators.contains_key(from);
        if is_new && amount < self.params.min_validator_stake {
            return Err(StateError::InvalidTx(String::from_str("below min_validator_stake")));
        }
        if is_new && self.validators.len() >= self.params.max_validators {
            return Err(StateError::InvalidTx(String::from_str("max validators reached")));
        }
        match self.validators.get(from) {
            Some(v) => {
                if v.tombstoned {
                    return Err(StateError::InvalidTx(String::from_str("validator tombstoned")));
                }
            },
            None => {},
        }
        proof {
            self.lemma_supply_parts();
            self.lemma_account_le_totals(from@);
        }
        self.set_funds(from, acct.balance - amount, acct.bonded + amount);
        let power = acct.bonded + amount;
        let mut v = match self.validators.remove(from) {
            Some(v) => v,
            None => ValidatorInfo {
                address: *from,
                public_key: Vec::new(),
                power: 0,
                commission_bps,
                jailed: false,
                shares: 0,
                tombstoned: false,
                jail_until_epoch: 0,
            },
        };
        if v.tombstoned {
            self.validators.insert(*from, v);
            proof {
                assert(self.validators@ =~= old(self).validators@);
            }
            return Err(StateError::InvalidTx(String::from_str("validator tombstoned")));
        }
        v.power = power;
        v.shares = v.shares.saturating_add(amount);
        v.commission_bps = commission_bps;
        self.validators.insert(*from, v);
        proof {
            assert(self.validators@.dom() =~= old(self).validators@.dom().insert(from@));
        }
        Ok(())
    }

    /// Sets the stake figures of validator `v`, if it exists.
    pub(crate) fn set_validator_stake(&mut self, v: &Address, power: u128, shares: u128)
        ensures
            *final(self) == (ChainState { validators: final(self).validators, ..*old(self) }),
            old(self).validators@.contains_key(v@) ==> final(self).validators@ == old(self).validators@.insert(
                v@,
                with_stake(old(self).validators@[v@], power, shares),
            ),
            !old(self).validators@.contains_key(v@) ==> final(self).validators@ == old(self).validators@,
    {
        match self.validators.remove(v) {
            Some(mut x) => {
                x.power = power;
                x.shares = shares;
                self.validators.insert(*v, x);
                proof {
                    assert(self.validators@ =~= old(self).validators@.insert(v@, with_stake(old(self).validators@[v@], power, shares)));
                }
            },
            None => {
                proof {
                    assert(self.validators@ =~= old(self).validators@);
                }
            },
        }
    }

    /// Queues `amount` for `owner`, unlocking after the unbonding period.
    pub(crate) fn queue_unbonding(&mut self, owner: &Address, validator: &Address, amount: u128)
        requires
            old(self).next_unbond_id < u64::MAX,
        ensures
            *final(self) == (ChainState {
                unbonding: final(self).unbonding,
                next_unbond_id: final(self).next_unbond_id,
                ..*old(self)
            }),
            final(self).next_unbond_id == old(self).next_unbond_id + 1,
            final(self).unbonding@ == old(self).unbonding@.push(
                UnbondingEntry {
                    id: old(self).next_unbond_id,
                    owner: *owner,
                    validator: *validator,
                    amount,
                    unlock_epoch: if old(self).epoch + old(self).params.unbonding_period > u64::MAX {
                        u64::MAX
                    } else {
                        (old(self).epoch + old(self).params.unbonding_period) as u64
                    },
                },
            ),
            unbonding_total(final(self).unbonding@) == unbonding_total(old(self).unbonding@) + amount,
    {
        let id = self.next_unbond_id;
        self.next_unbond_id = self.next_unbond_id + 1;
        let unlock = self.epoch.saturating_add(self.params.unbonding_period);
        self.unbonding.push(UnbondingEntry { id, owner: *owner, validator: *owner, amount, unlock_epoch: unlock });
        let ghost u = self.unbonding@;
        proof {
            assert(u.drop_last() =~= old(self).unbonding@);
        }
        let n = self.unbonding.len();
        let mut e = self.unbonding[n - 1];
        e.validator = *validator;
        self.unbonding.set(n - 1, e);
        proof {
            assert(self.unbonding@.drop_last() =~= old(self).unbonding@);
        }
    }

    /// Moves `amount` of `from`'s self-bond into the unbonding queue.
    pub(crate) fn apply_unbond(&mut self, from: &Address, amount: u128, gas_used: &mut u64) -> (r: Result<(), StateError>)
        requires
            old(self).supply() <= u128::MAX,
            *old(gas_used) + 40000 <= u64::MAX,
            old(self).next_unbond_id < u64::MAX,
        ensures
            unbond_effect(*old(self), *final(self), *from, amount, *old(gas_used), *final(gas_used), r),
    {
        *gas_used = *gas_used + 40000;
        let acct = self.get_account(from);
        if acct.bonded < amount {
            return Err(StateError::InsufficientBalance);
        }
        self.set_funds(from, acct.balance, acct.bonded - amount);
        let new_bonded = acct.bonded - amount;
        match self.validators.get(from) {
            Some(v) => {
                let sh = v.shares.saturating_sub(amount);
                self.set_validator_stake(from, new_bonded, sh);
            },
            None => {},
        }
        self.queue_unbonding(from, from, amount);
        Ok(())
    }

    /// Delegates `amount` of `from`'s balance to an unjailed validator,
    /// minting shares one for one.
    pub(crate) fn apply_delegate(&mut self, from: &Address, validator: &Address, amount: u128, gas_used: &mut u64) -> (r:
        Result<(), StateError>)
        requires
            old(self).supply() <= u128::MAX,
            *old(gas_used) + 45000 <= u64::MAX,
        ensures
            delegate_effect(*old(self), *final(self), *from, *validator, amount, *old(gas_used), *final(gas_used), r),
    {
        *gas_used = *gas_used + 45000;
        if amount == 0 {
            return Err(StateError::InvalidTx(String::from_str("zero delegation")));
        }
        let (vpower, vshares) = match self.validators.get(validator) {
            None => {
                return Err(StateError::InvalidTx(String::from_str("unknown validator")));
            },
            Some(v) => {
                if v.jailed {
                    return Err(StateError::InvalidTx(String::from_str("validator jailed")));
                }
                (v.power, v.shares)
            },
        };
        let acct = self.get_account(from);
        if acct.balance < amount {
            return Err(StateError::InsufficientBalance);
        }
        proof {
            self.lemma_supply_parts();
        }
        self.set_funds(from, acct.balance - amount, acct.bonded);
        let dk = (*from, *validator);
        let d = match self.delegations.get(&dk) {
            Some(d) => *d,
            None => Delegation { delegator: *from, validator: *validator, shares: 0 },
        };
        proof {
            self.lemma_supply_parts();
            assert(nonneg(shares_fn()));
            if self.delegations@.contains_key(dk@) {
                self.delegations.lemma_value_le_total(dk@, shares_fn());
            }
        }
        let nd = Delegation { delegator: d.delegator, validator: d.validator, shares: d.shares.saturating_add(amount) };
        self.delegations.insert(dk, nd);
        self.set_validator_stake(validator, vpower.saturating_add(amount), vshares.saturating_add(amount));
        proof {
            assert(self.delegations@.dom() =~= old(self).delegations@.dom().insert(dk@));
        }
        Ok(())
    }

    /// Takes `amount` of shares off the delegation `(from, validator)`,
    /// dropping it when none are left, and off the validator's figures.
    pub(crate) fn take_delegated(&mut self, from: &Address, validator: &Address, amount: u128) -> (r: Result<(), StateError>)
        requires
            amount > 0,
        ensures
            *final(self) == (ChainState { validators: final(self).validators, delegations: final(self).delegations, ..*old(self) }),
            ({
                let dk = (from@, validator@);
                let ds = old(self).delegations@;
                let vs = old(self).validators@;
                &&& !ds.contains_key(dk) ==> fails_with(r, "no delegation"@) && *final(self) == *old(self)
                &&& ds.contains_key(dk) && ds[dk].shares < amount ==> fails_as(r, StateError::InsufficientBalance)
                    && *final(self) == *old(self)
                &&& ds.contains_key(dk) && ds[dk].shares >= amount ==> {
                    &&& r is Ok
                    &&& ds[dk].shares == amount ==> final(self).delegations@ == ds.remove(dk)
                    &&& ds[dk].shares > amount ==> final(self).delegations@ == ds.insert(
                        dk,
                        Delegation { shares: (ds[dk].shares - amount) as u128, ..ds[dk] },
                    )
                    &&& final(self).delegations.total(shares_fn()) == old(self).delegations.total(shares_fn()) - amount
                    &&& vs.contains_key(validator@) ==> final(self).validators@ == vs.insert(
                        validator@,
                        with_stake(
                            vs[validator@],
                            if vs[validator@].power < amount { 0 } else { (vs[validator@].power - amount) as u128 },
                            if vs[validator@].shares < amount { 0 } else { (vs[validator@].shares - amount) as u128 },
                        ),
                    )
                    &&& !vs.contains_key(validator@) ==> final(self).validators@ == vs
                }
            }),
    {
        let dk = (*from, *validator);
        let d = match self.delegations.get(&dk) {
            None => {
                return Err(StateError::InvalidTx(String::from_str("no delegation")));
            },
            Some(d) => *d,
        };
        if d.shares < amount {
            return Err(StateError::InsufficientBalance);
        }
        if d.shares == amount {
            self.delegations.remove(&dk);
        } else {
            self.delegations.insert(dk, Delegation { delegator: d.delegator, validator: d.validator, shares: d.shares - amount });
        }
        match self.validators.get(validator) {
            Some(v) => {
                let p = v.power.saturating_sub(amount);
                let sh = v.shares.saturating_sub(amount);
                self.set_validator_stake(validator, p, sh);
            },
            None => {},
        }
        Ok(())
    }

    /// Adds `amount` of shares to the delegation `(from, validator)`.
    pub(crate) fn add_delegated(&mut self, from: &Address, validator: &Address, amount: u128)
        requires
            old(self).delegations.total(shares_fn()) + amount <= u128::MAX,
        ensures
            *final(self) == (ChainState { delegations: final(self).delegations, ..*old(self) }),
            final(self).delegations.total(shares_fn()) == old(self).delegations.total(shares_fn()) + amount,
            final(self).delegations@.dom() == old(self).delegations@.dom().insert((from@, validator@)),
            shares_of(final(self).delegations@, (from@, validator@)) == shares_of(old(self).delegations@, (from@, validator@))
                + amount,
            forall|j: (Seq<u8>, Seq<u8>)|
                j != (from@, validator@) && #[trigger] old(self).delegations@.contains_key(j) ==> final(self).delegations@[j]
                    == old(self).delegations@[j],
    {
        let dk = (*from, *validator);
        let d = match self.delegations.get(&dk) {
            Some(d) => *d,
            None => Delegation { delegator: *from, validator: *validator, shares: 0 },
        };
        proof {
            assert(nonneg(shares_fn()));
            if self.delegations@.contains_key(dk@) {
                self.delegations.lemma_value_le_total(dk@, shares_fn());
            }
        }
        self.delegations.insert(dk, Delegation { delegator: d.delegator, validator: d.validator, shares: d.shares + amount });
        proof {
            assert(self.delegations@.dom() =~= old(self).delegations@.dom().insert(dk@));
        }
    }

    /// Moves `amount` of delegated shares from `src` to the unjailed `dst`.
    /// The shares leave `src` before `dst` is checked.
    pub(crate) fn apply_redelegate(&mut self, from: &Address, src: &Address, dst: &Address, amount: u128, gas_used: &mut u64) -> (r:
        Result<(), StateError>)
        requires
            old(self).supply() <= u128::MAX,
            *old(gas_used) + 55000 <= u64::MAX,
        ensures
            redelegate_effect(*old(self), *final(self), *from, *src, *dst, amount, *old(gas_used), *final(gas_used), r),
    {
        *gas_used = *gas_used + 55000;
        if addr_eq(src, dst) {
            return Err(StateError::InvalidTx(String::from_str("src == dst")));
        }
        if amount == 0 {
            return Err(StateError::InvalidTx(String::from_str("zero redelegate")));
        }
        let ghost s0 = *self;
        match self.delegations.get(&(*from, *src)) {
            None => {
                return Err(StateError::InvalidTx(String::from_str("no delegation")));
            },
            Some(d) => {
                if d.shares < amount {
                    return Err(StateError::InsufficientBalance);
                }
            },
        }
        match self.validators.get(dst) {
            None => {
                return Err(StateError::InvalidTx(String::from_str("unknown dst validator")));
            },
            Some(v) => {
                if v.jailed {
                    return Err(StateError::InvalidTx(String::from_str("dst validator jailed")));
                }
            },
        }
        let t = self.take_delegated(from, src, amount);
        if t.is_err() {
            return t;
        }
        proof {
            if s0.delegations@[(from@, src@)].shares == amount {
                assert(!self.delegations@.contains_key((from@, src@)));
            }
        }
        let (dpower, dshares) = match self.validators.get(dst) {
            None => {
                return Err(StateError::InvalidTx(String::from_str("unknown dst validator")));
            },
            Some(v) => (v.power, v.shares),
        };
        proof {
            s0.lemma_supply_parts();
            self.lemma_supply_parts();
        }
        self.add_delegated(from, dst, amount);
        self.set_validator_stake(dst, dpower.saturating_add(amount), dshares.saturating_add(amount));
        Ok(())
    }

    /// Moves `amount` of delegated shares from `validator` into the
    /// unbonding queue.
    pub(crate) fn apply_undelegate(&mut self, from: &Address, validator: &Address, amount: u128, gas_used: &mut u64) -> (r:
        Result<(), StateError>)
        requires
            old(self).supply() <= u128::MAX,
            *old(gas_used) + 45000 <= u64::MAX,
            old(self).next_unbond_id < u64::MAX,
        ensures
            undelegate_effect(*old(self), *final(self), *from, *validator, amount, *old(gas_used), *final(gas_used), r),
    {
        *gas_used = *gas_used + 45000;
        if amount == 0 {
            return Err(StateError::InvalidTx(String::from_str("zero undelegate")));
        }
        let ghost s0 = *self;
        let t = self.take_delegated(from, validator, amount);
        if t.is_err() {
            return t;
        }
        proof {
            if s0.delegations@[(from@, validator@)].shares == amount {
                assert(!self.delegations@.contains_key((from@, validator@)));
            }
        }
        self.queue_unbonding(from, validator, amount);
        proof {
            assert(self.unbonding@.drop_last() =~= old(self).unbonding@);
        }
        Ok(())
    }

    /// Pays `from` every queued entry of its that has unlocked; fails when
    /// there is nothing to pay (after dropping its unlocked empty entries).
    pub(crate) fn apply_withdraw(&mut self, from: &Address, gas_used: &mut u64) -> (r: Result<(), StateError>)
        requires
            old(self).supply() <= u128::MAX,
            *old(gas_used) + 30000 <= u64::MAX,
        ensures
            withdraw_effect(*old(self), *final(self), *from, *old(gas_used), *final(gas_used), r),
    {
        *gas_used = *gas_used + 30000;
        let ghost u0 = self.unbonding@;
        proof {
            self.lemma_supply_parts();
            lemma_claim_split(u0, from@, self.epoch);
            assert forall|j: int| 0 <= j <= u0.len() implies #[trigger] claim_total(u0.subrange(0, j), from@, self.epoch) <= claim_total(u0, from@, self.epoch) by {
                lemma_claim_prefix(u0, from@, self.epoch, j);
            }
            assert(u0.subrange(0, 0) =~= Seq::<UnbondingEntry>::empty());
        }
        let mut claim: u128 = 0;
        let mut remain: Vec<UnbondingEntry> = Vec::new();
        let n = self.unbonding.len();
        let mut i: usize = 0;
        while i < n
            invariant
                n == u0.len(),
                i <= n,
                *self == *old(self),
                u0 == old(self).unbonding@,
                claim == claim_total(u0.subrange(0, i as int), from@, self.epoch),
                remain@ == kept_entries(u0.subrange(0, i as int), from@, self.epoch),
                claim_total(u0, from@, self.epoch) <= u128::MAX,
                forall|j: int| 0 <= j <= n ==> #[trigger] claim_total(u0.subrange(0, j), from@, self.epoch) <= claim_total(u0, from@, self.epoch),
            decreases n - i,
        {
            let e = self.unbonding[i];
            proof {
                assert(u0.subrange(0, i + 1).drop_last() =~= u0.subrange(0, i as int));
                assert(claim_total(u0.subrange(0, i + 1), from@, self.epoch) <= claim_total(u0, from@, self.epoch));
            }
            if addr_eq(&e.owner, from) && e.unlock_epoch <= self.epoch {
                claim = claim.saturating_add(e.amount);
            } else {
                remain.push(e);
            }
            i = i + 1;
        }
        proof {
            assert(u0.subrange(0, n as int) =~= u0);
        }
        if claim == 0 {
            return Err(StateError::InvalidTx(String::from_str("nothing to withdraw")));
        }
        self.unbonding = remain;
        proof {
            self.lemma_account_le_totals(from@);
            self.lemma_supply_parts();
        }
        let acct = self.get_account(from);
        self.set_funds(from, acct.balance.saturating_add(claim), acct.bonded);
        Ok(())
    }
}

/// The entries kept after `owner` withdraws at `epoch` are those `pred`
/// keeps, when `pred` keeps exactly the entries that are not `owner`'s
/// unlocked ones.
proof fn lemma_kept_is_filter(s: Seq<UnbondingEntry>, owner: Seq<u8>, epoch: u64, pred: spec_fn(UnbondingEntry) -> bool)
    requires
        forall|e: UnbondingEntry| #[trigger] pred(e) == !(e.owner@ == owner && e.unlock_epoch <= epoch),
    ensures
        kept_entries(s, owner, epoch) == s.filter(pred),
    decreases s.len(),
{
    reveal(Seq::filter);
    if s.len() > 0 {
        lemma_kept_is_filter(s.drop_last(), owner, epoch, pred);
        assert(pred(s.last()) == !claimable(s.last(), owner, epoch));
    }
}

/// What `owner` claims plus what stays queued is the whole queue.
proof fn lemma_claim_plus_kept(s: Seq<UnbondingEntry>, owner: Seq<u8>, epoch: u64)
    ensures
        claim_total(s, owner, epoch) + unbonding_total(kept_entries(s, owner, epoch)) == unbonding_total(s),
    decreases s.len(),
{
    if s.len() > 0 {
        lemma_claim_plus_kept(s.drop_last(), owner, epoch);
        let k = kept_entries(s.drop_last(), owner, epoch);
        if !claimable(s.last(), owner, epoch) {
            assert(k.push(s.last()).drop_last() =~= k);
        }
    }
}

/// Law: a withdrawal takes out of the unbonding queue exactly the sender's
/// entries whose unlock epoch has come, keeping every other entry (those of
/// other owners included) in order, and credits the sender with exactly the
/// amount taken out; nothing else of the sender's account moves.
pub proof fn law_withdraw_takes_own_unlocked_entries(
    s_in: ChainState,
    s_out: ChainState,
    from: Address,
    gas_in: u64,
    gas_out: u64,
    r: Result<(), StateError>,
)
    requires
        withdraw_effect(s_in, s_out, from, gas_in, gas_out, r),
        r is Ok,
    ensures
        s_out.unbonding@ == s_in.unbonding@.filter(|e: UnbondingEntry| !(e.owner@ == from@ && e.unlock_epoch <= s_in.epoch)),
        balance_of(s_out.accounts@, from@) == balance_of(s_in.accounts@, from@) + unbonding_total(s_in.unbonding@) - unbonding_total(
            s_out.unbonding@,
        ),
        bonded_of(s_out.accounts@, from@) == bonded_of(s_in.accounts@, from@),
        forall|k: Seq<u8>| k != from@ ==> #[trigger] balance_of(s_out.accounts@, k) == balance_of(s_in.accounts@, k),
{
    let pred = |e: UnbondingEntry| !(e.owner@ == from@ && e.unlock_epoch <= s_in.epoch);
    lemma_kept_is_filter(s_in.unbonding@, from@, s_in.epoch, pred);
    lemma_claim_plus_kept(s_in.unbonding@, from@, s_in.epoch);
    assert forall|k: Seq<u8>| k != from@ implies #[trigger] balance_of(s_out.accounts@, k) == balance_of(s_in.accounts@, k) by {
        if s_in.accounts@.contains_key(k) {
            assert(s_out.accounts@.contains_key(k));
        }
    }
}

} // verus!
