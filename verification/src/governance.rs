//! On-chain governance of chain parameters, and community pool spends.

use vstd::prelude::*;
use vstd::string::*;
use vstd::utf8::encode_utf8;
use crate::errors::{fails_as, fails_with, StateError};
use crate::kvmap::nonneg;
use crate::state::{active_power_fn, cap, capped_active_power, balance_of, bonded_of, deposit_fn, funds_set, locked_deposit, nonces_kept, ChainState};
use crate::text::{parse_u128, parse_u64, parse_usize, spec_parse_u128, spec_parse_u64, str_eq};
use crate::types::{Address, ChainParams, GovernanceProposal, HybridMode, ProposalStatus, WEI_PER_AETH};

use crate::state::tombstones_kept;

verus! {

/// Registry parameters this chain keeps no value for yet.
pub open spec fn spec_is_unsettable_param(key: Seq<char>) -> bool {
    key == "allowlist_root"@ || key == "base_fee_max_change"@ || key == "upgrade_height"@ || key == "note_tree_depth"@
}

/// The parameter registry: the keys a proposal may name.
pub open spec fn spec_is_known_param(key: Seq<char>) -> bool {
    key == "epoch_length"@ || key == "min_validator_stake"@ || key == "max_validators"@ || key == "unbonding_period"@
        || key == "gas_limit"@ || key == "hybrid_mode"@ || spec_is_unsettable_param(key)
}

/// Whether `key` is in the parameter registry.
pub fn is_known_param(key: &str) -> (b: bool)
    ensures
        b == spec_is_known_param(key@),
{
    str_eq(key, "epoch_length") || str_eq(key, "min_validator_stake") || str_eq(key, "max_validators") || str_eq(key, "unbonding_period")
        || str_eq(key, "gas_limit") || str_eq(key, "hybrid_mode") || str_eq(key, "allowlist_root") || str_eq(
        key,
        "base_fee_max_change",
    ) || str_eq(key, "upgrade_height") || str_eq(key, "note_tree_depth")
}

/// The hybrid mode a governance value names.
pub open spec fn spec_param_hybrid(v: Seq<char>) -> Option<HybridMode> {
    if v == "allowlist"@ {
        Some(HybridMode::Allowlist)
    } else if v == "mixed"@ {
        Some(HybridMode::Mixed)
    } else if v == "public"@ {
        Some(HybridMode::Public)
    } else {
        None
    }
}

/// The parameters after setting `key` to `value`, or the error text.
pub open spec fn spec_apply_param(p: ChainParams, key: Seq<char>, value: Seq<char>) -> Result<ChainParams, Seq<char>> {
    if key == "epoch_length"@ {
        match spec_parse_u64(value) {
            Some(v) => Ok(ChainParams { epoch_length: v, ..p }),
            None => Err("bad epoch_length"@),
        }
    } else if key == "max_validators"@ {
        match spec_parse_u64(value) {
            Some(v) => if v <= usize::MAX {
                Ok(ChainParams { max_validators: v as usize, ..p })
            } else {
                Err("bad max_validators"@)
            },
            None => Err("bad max_validators"@),
        }
    } else if key == "gas_limit"@ {
        match spec_parse_u64(value) {
            Some(v) => Ok(ChainParams { gas_limit: v, ..p }),
            None => Err("bad gas_limit"@),
        }
    } else if key == "unbonding_period"@ {
        match spec_parse_u64(value) {
            Some(v) => Ok(ChainParams { unbonding_period: v, ..p }),
            None => Err("bad unbonding_period"@),
        }
    } else if key == "hybrid_mode"@ {
        match spec_param_hybrid(value) {
            Some(m) => Ok(ChainParams { hybrid_mode: m, ..p }),
            None => Err("bad hybrid_mode"@),
        }
    } else if key == "min_validator_stake"@ {
        match spec_parse_u128(value) {
            Some(v) => Ok(ChainParams { min_validator_stake: v, ..p }),
            None => Err("bad min_validator_stake"@),
        }
    } else if spec_is_unsettable_param(key) {
        Err("param not settable"@)
    } else {
        Err("unknown param"@)
    }
}

/// Sum capped at `u128::MAX`.
pub open spec fn sat_add(a: int, b: int) -> int {
    if a + b > u128::MAX { u128::MAX as int } else { a + b }
}

/// All the power that voted.
pub open spec fn participating(p: GovernanceProposal) -> int {
    p.yes + p.no + p.abstain + p.veto
}

/// More than 33.4% of the participating power vetoed.
pub open spec fn vetoed(p: GovernanceProposal) -> bool {
    1000 * p.veto > 334 * participating(p)
}

/// Whether a closed vote carried: a quorum of 40% of the bonded power when
/// the vote opened, more yes than half of yes, no and veto, and no veto.
pub open spec fn proposal_passed(p: GovernanceProposal) -> bool {
    let decisive = p.yes + p.no + p.veto;
    &&& participating(p) > 0
    &&& 10 * participating(p) >= 4 * p.bonded_power
    &&& 2 * p.yes > decisive
    &&& !vetoed(p)
}

/// `c * t` split at 2^16 into `65536 * hi + lo`.
fn scaled(t: u128, c: u128) -> (r: (u128, u128))
    requires
        c <= 1000,
    ensures
        65536 * r.0 + r.1 == c * t,
        r.0 <= 1000 * (u128::MAX / 65536),
        r.1 <= 1000 * 65535,
{
    let q = t / 65536;
    let m = t % 65536;
    proof {
        assert(t == 65536 * q + m && m < 65536 && q <= u128::MAX / 65536) by (nonlinear_arith)
            requires
                q == t / 65536,
                m == t % 65536,
                t <= u128::MAX,
        ;
        assert(c * q <= 1000 * (u128::MAX / 65536) && c * m <= 1000 * 65535 && c * t == 65536 * (c * q) + c * m) by (nonlinear_arith)
            requires
                c <= 1000,
                q <= u128::MAX / 65536,
                m < 65536,
                t == 65536 * q + m,
        ;
    }
    (c * q, c * m)
}

/// `c0 * t0 + c1 * t1 + c2 * t2 + c3 * t3` as `65536 * hi + lo`.
fn weighted_sum(t0: u128, t1: u128, t2: u128, t3: u128, c0: u128, c1: u128, c2: u128, c3: u128) -> (r: (u128, u128))
    requires
        c0 <= 1000,
        c1 <= 1000,
        c2 <= 1000,
        c3 <= 1000,
    ensures
        65536 * r.0 + r.1 == c0 * t0 + c1 * t1 + c2 * t2 + c3 * t3,
        r.0 <= 4000 * (u128::MAX / 65536),
        r.1 <= 4000 * 65535,
{
    let a = scaled(t0, c0);
    let b = scaled(t1, c1);
    let c = scaled(t2, c2);
    let d = scaled(t3, c3);
    (a.0 + b.0 + c.0 + d.0, a.1 + b.1 + c.1 + d.1)
}

/// Whether `65536 * a.0 + a.1` exceeds `65536 * b.0 + b.1`.
fn split_gt(a: (u128, u128), b: (u128, u128)) -> (r: bool)
    requires
        a.0 <= 4000 * (u128::MAX / 65536),
        b.0 <= 4000 * (u128::MAX / 65536),
        a.1 <= 4000 * 65535,
        b.1 <= 4000 * 65535,
    ensures
        r == (65536 * a.0 + a.1 > 65536 * b.0 + b.1),
{
    let ah = a.0 + a.1 / 65536;
    let al = a.1 % 65536;
    let bh = b.0 + b.1 / 65536;
    let bl = b.1 % 65536;
    proof {
        assert(a.1 == 65536 * (a.1 / 65536) + al && 0 <= al < 65536) by (nonlinear_arith)
            requires
                al == a.1 % 65536,
        ;
        assert(b.1 == 65536 * (b.1 / 65536) + bl && 0 <= bl < 65536) by (nonlinear_arith)
            requires
                bl == b.1 % 65536,
        ;
    }
    ah > bh || (ah == bh && al > bl)
}


/// What `apply_gov_propose` does: the state it leaves, the gas it counts and its
/// result, from `s_in` and `gas_in`.
pub open spec fn gov_propose_effect(s_in: ChainState, s_out: ChainState, from: Address, title: Seq<char>, param_key: Seq<char>, param_value: Seq<char>, deposit: u128, gas_in: u64, gas_out: u64, r: Result<(), StateError>) -> bool {
    &&& tombstones_kept(s_in.validators@, s_out.validators@)
    &&& gas_out == gas_in + 60000
    &&& s_out.supply() == s_in.supply()
    &&& nonces_kept(s_in.accounts@, s_out.accounts@)
    &&& s_out == (ChainState {
        accounts: s_out.accounts,
        proposals: s_out.proposals,
        next_proposal_id: s_out.next_proposal_id,
        ..s_in
    })
    &&& ({
        let m0 = s_in.accounts@;
        let bal = balance_of(m0, from@);
        let bnd = bonded_of(m0, from@);
        let id = s_in.next_proposal_id;
        &&& deposit < 100 * WEI_PER_AETH ==> fails_with(r, "min deposit 100 AETH"@) && s_out == s_in
        &&& deposit >= 100 * WEI_PER_AETH && !spec_is_known_param(param_key) ==> fails_with(
            r,
            "unknown param "@ + param_key,
        ) && s_out == s_in
        &&& deposit >= 100 * WEI_PER_AETH && spec_is_known_param(param_key) && bal < deposit ==> fails_as(
            r,
            StateError::InsufficientBalance,
        ) && s_out == s_in
        &&& deposit >= 100 * WEI_PER_AETH && spec_is_known_param(param_key) && bal >= deposit ==> {
            &&& r is Ok
            &&& funds_set(m0, s_out.accounts@, from@, bal - deposit, bnd)
            &&& s_out.next_proposal_id == id + 1
            &&& s_out.proposals@.dom() == s_in.proposals@.dom().insert(id)
            &&& forall|k: u64| k != id && #[trigger] s_in.proposals@.contains_key(k) ==> s_out.proposals@[k]
                == s_in.proposals@[k]
            &&& s_out.proposals@[id].id == id
            &&& s_out.proposals@[id].title@ == title
            &&& s_out.proposals@[id].param_key@ == param_key
            &&& s_out.proposals@[id].param_value@ == param_value
            &&& s_out.proposals@[id].proposer == from
            &&& s_out.proposals@[id].deposit == deposit
            &&& s_out.proposals@[id].yes == 0 && s_out.proposals@[id].no == 0
            &&& s_out.proposals@[id].abstain == 0 && s_out.proposals@[id].veto == 0
            &&& s_out.proposals@[id].voting_end_height == (if s_in.height + 50 > u64::MAX {
                u64::MAX as int
            } else {
                s_in.height + 50
            })
            &&& s_out.proposals@[id].enact_height is None
            &&& s_out.proposals@[id].status == ProposalStatus::Voting
            &&& s_out.proposals@[id].bonded_power == cap(s_in.validators.total(active_power_fn()))
        }
    })
}

/// What `apply_gov_vote` does: the state it leaves, the gas it counts and its
/// result, from `s_in` and `gas_in`.
pub open spec fn gov_vote_effect(s_in: ChainState, s_out: ChainState, from: Address, proposal_id: u64, option: u8, gas_in: u64, gas_out: u64, r: Result<(), StateError>) -> bool {
    &&& tombstones_kept(s_in.validators@, s_out.validators@)
    &&& gas_out == gas_in + 25000
    &&& s_out == (ChainState { proposals: s_out.proposals, ..s_in })
    &&& s_out.proposals.total(deposit_fn()) == s_in.proposals.total(deposit_fn())
    &&& s_out.proposals@.dom() == s_in.proposals@.dom()
    &&& ({
        let vs = s_in.validators@;
        let power: int = if vs.contains_key(from@) { vs[from@].power as int } else { 0 };
        let ps = s_in.proposals@;
        let ok_so_far = power != 0 && ps.contains_key(proposal_id) && ps[proposal_id].status == ProposalStatus::Voting
            && s_in.height <= ps[proposal_id].voting_end_height;
        &&& power == 0 ==> fails_with(r, "voter not bonded"@) && s_out == s_in
        &&& power != 0 && !ps.contains_key(proposal_id) ==> fails_with(r, "unknown proposal"@) && s_out == s_in
        &&& power != 0 && ps.contains_key(proposal_id) && ps[proposal_id].status != ProposalStatus::Voting ==> fails_with(
            r,
            "not in voting"@,
        ) && s_out == s_in
        &&& power != 0 && ps.contains_key(proposal_id) && ps[proposal_id].status == ProposalStatus::Voting && s_in.height
            > ps[proposal_id].voting_end_height ==> fails_with(r, "voting ended"@) && s_out == s_in
        &&& ok_so_far && option > 3 ==> fails_with(r, "bad vote option"@) && s_out == s_in
        &&& ok_so_far && option <= 3 ==> {
            let p = ps[proposal_id];
            &&& r is Ok
            &&& s_out.proposals@ == ps.insert(
                proposal_id,
                if option == 0 {
                    GovernanceProposal { no: sat_add(p.no as int, power) as u128, ..p }
                } else if option == 1 {
                    GovernanceProposal { yes: sat_add(p.yes as int, power) as u128, ..p }
                } else if option == 2 {
                    GovernanceProposal { abstain: sat_add(p.abstain as int, power) as u128, ..p }
                } else {
                    GovernanceProposal { veto: sat_add(p.veto as int, power) as u128, ..p }
                },
            )
        }
    })
}

/// What `apply_gov_enact` does: the state it leaves, the gas it counts and its
/// result, from `s_in` and `gas_in`.
pub open spec fn gov_enact_effect(s_in: ChainState, s_out: ChainState, proposal_id: u64, gas_in: u64, gas_out: u64, r: Result<(), StateError>) -> bool {
    &&& tombstones_kept(s_in.validators@, s_out.validators@)
    &&& gas_out == gas_in + 40000
    &&& s_out.supply() == s_in.supply()
    &&& nonces_kept(s_in.accounts@, s_out.accounts@)
    &&& s_out == (ChainState {
        accounts: s_out.accounts,
        proposals: s_out.proposals,
        params: s_out.params,
        fee_burned: s_out.fee_burned,
        ..s_in
    })
    &&& s_out.proposals@.dom() == s_in.proposals@.dom()
    &&& forall|k: u64| #[trigger] s_out.proposals@.contains_key(k) ==> locked_deposit(s_out.proposals@[k]) == s_out.proposals@[k].deposit
    &&& forall|k: u64| k != proposal_id && #[trigger] s_in.proposals@.contains_key(k) ==> s_out.proposals@[k]
    == s_in.proposals@[k]
    &&& ({
        let ps = s_in.proposals@;
        let p = ps[proposal_id];
        let m0 = s_in.accounts@;
        &&& !ps.contains_key(proposal_id) ==> fails_with(r, "unknown proposal"@) && s_out == s_in
        &&& ps.contains_key(proposal_id) && s_in.height <= p.voting_end_height ==> fails_with(
            r,
            "voting still open"@,
        ) && s_out == s_in
        &&& ps.contains_key(proposal_id) && s_in.height > p.voting_end_height && !proposal_passed(p) ==> {
            &&& r is Ok
            &&& s_out.params == s_in.params
            &&& s_out.proposals@[proposal_id] == (GovernanceProposal { status: ProposalStatus::Failed, deposit: 0, ..p })
            &&& !vetoed(p) ==> {
                &&& funds_set(m0, s_out.accounts@, p.proposer@, balance_of(m0, p.proposer@) + p.deposit, bonded_of(m0, p.proposer@))
                &&& s_out.fee_burned == s_in.fee_burned
            }
            &&& vetoed(p) ==> {
                &&& funds_set(m0, s_out.accounts@, p.proposer@, balance_of(m0, p.proposer@) + (p.deposit - p.deposit / 2), bonded_of(m0, p.proposer@))
                &&& s_out.fee_burned == s_in.fee_burned + p.deposit / 2
            }
        }
        &&& ps.contains_key(proposal_id) && s_in.height > p.voting_end_height && proposal_passed(p) ==> match spec_apply_param(
            s_in.params,
            p.param_key@,
            p.param_value@,
        ) {
            Err(m) => fails_with(r, m) && s_out == s_in,
            Ok(np) => {
                &&& r is Ok
                &&& s_out.params == np
                &&& s_out.proposals@[proposal_id] == (GovernanceProposal {
                    status: ProposalStatus::Enacted,
                    enact_height: Some(s_in.height),
                    deposit: 0,
                    ..p
                })
                &&& funds_set(m0, s_out.accounts@, p.proposer@, balance_of(m0, p.proposer@) + p.deposit, bonded_of(m0, p.proposer@))
                &&& s_out.fee_burned == s_in.fee_burned
            },
        }
    })
}

/// What `apply_pool_spend` does: the state it leaves, the gas it counts and its
/// result, from `s_in` and `gas_in`.
pub open spec fn pool_spend_effect(s_in: ChainState, s_out: ChainState, from: Address, to: Address, amount: u128, memo: Seq<char>, gas_in: u64, gas_out: u64, r: Result<(), StateError>) -> bool {
    &&& tombstones_kept(s_in.validators@, s_out.validators@)
    &&& gas_out == gas_in + 35000
    &&& s_out.supply() == s_in.supply()
    &&& nonces_kept(s_in.accounts@, s_out.accounts@)
    &&& s_out == (ChainState { accounts: s_out.accounts, community_pool: s_out.community_pool, ..s_in })
    &&& ({
        let vs = s_in.validators@;
        let power: int = if vs.contains_key(from@) { vs[from@].power as int } else { 0 };
        let pool = s_in.community_pool;
        let cap: int = if pool / 100 > 1 { (pool / 100) as int } else { 1 };
        let m0 = s_in.accounts@;
        &&& power == 0 ==> fails_with(r, "only validators may spend pool"@) && s_out == s_in
        &&& power != 0 && (amount == 0 || (encode_utf8(memo).len() as usize) > 256) ==> fails_with(r, "bad spend params"@)
            && s_out == s_in
        &&& power != 0 && amount != 0 && (encode_utf8(memo).len() as usize) <= 256 && amount > cap ==> fails_with(
            r,
            "exceeds 1% pool cap"@,
        ) && s_out == s_in
        &&& power != 0 && amount != 0 && (encode_utf8(memo).len() as usize) <= 256 && amount <= cap && pool < amount ==> fails_as(
            r,
            StateError::InsufficientBalance,
        ) && s_out == s_in
        &&& power != 0 && amount != 0 && (encode_utf8(memo).len() as usize) <= 256 && amount <= cap && pool >= amount ==> {
            &&& r is Ok
            &&& s_out.community_pool == pool - amount
            &&& funds_set(m0, s_out.accounts@, to@, balance_of(m0, to@) + amount, bonded_of(m0, to@))
        }
    })
}

impl ChainState {
    /// Sets `params.key` to `value`.
    pub(crate) fn apply_param(&mut self, key: &str, value: &str) -> (r: Result<(), StateError>)
        ensures
            match spec_apply_param(old(self).params, key@, value@) {
                Ok(p) => r is Ok && *final(self) == (ChainState { params: p, ..*old(self) }),
                Err(m) => fails_with(r, m) && *final(self) == *old(self),
            },
    {
        if str_eq(key, "epoch_length") {
            match parse_u64(value) {
                Some(v) => {
                    self.params.epoch_length = v;
                },
                None => {
                    return Err(StateError::InvalidTx(String::from_str("bad epoch_length")));
                },
            }
        } else if str_eq(key, "max_validators") {
            match parse_usize(value) {
                Some(v) => {
                    self.params.max_validators = v;
                },
                None => {
                    return Err(StateError::InvalidTx(String::from_str("bad max_validators")));
                },
            }
        } else if str_eq(key, "gas_limit") {
            match parse_u64(value) {
                Some(v) => {
                    self.params.gas_limit = v;
                },
                None => {
                    return Err(StateError::InvalidTx(String::from_str("bad gas_limit")));
                },
            }
        } else if str_eq(key, "unbonding_period") {
            match parse_u64(value) {
                Some(v) => {
                    self.params.unbonding_period = v;
                },
                None => {
                    return Err(StateError::InvalidTx(String::from_str("bad unbonding_period")));
                },
            }
        } else if str_eq(key, "hybrid_mode") {
            if str_eq(value, "allowlist") {
                self.params.hybrid_mode = HybridMode::Allowlist;
            } else if str_eq(value, "mixed") {
                self.params.hybrid_mode = HybridMode::Mixed;
            } else if str_eq(value, "public") {
                self.params.hybrid_mode = HybridMode::Public;
            } else {
                return Err(StateError::InvalidTx(String::from_str("bad hybrid_mode")));
            }
        } else if str_eq(key, "min_validator_stake") {
            match parse_u128(value) {
                Some(v) => {
                    self.params.min_validator_stake = v;
                },
                None => {
                    return Err(StateError::InvalidTx(String::from_str("bad min_validator_stake")));
                },
            }
        } else if str_eq(key, "allowlist_root") || str_eq(key, "base_fee_max_change") || str_eq(key, "upgrade_height") || str_eq(
            key,
            "note_tree_depth",
        ) {
            return Err(StateError::InvalidTx(String::from_str("param not settable")));
        } else {
            return Err(StateError::InvalidTx(String::from_str("unknown param")));
        }
        Ok(())
    }

    /// Opens a proposal to set `param_key` to `param_value`, locking
    /// `deposit` (at least 100 AETH) from the proposer for a 50-block vote.
    pub(crate) fn apply_gov_propose(
        &mut self,
        from: &Address,
        title: &str,
        param_key: &str,
        param_value: &str,
        deposit: u128,
        gas_used: &mut u64,
    ) -> (r: Result<(), StateError>)
        requires
            old(self).supply() <= u128::MAX,
            *old(gas_used) + 60000 <= u64::MAX,
            old(self).next_proposal_id < u64::MAX,
            !old(self).proposals@.contains_key(old(self).next_proposal_id),
        ensures
            gov_propose_effect(*old(self), *final(self), *from, title@, param_key@, param_value@, deposit, *old(gas_used), *final(gas_used), r),
    {
        *gas_used = *gas_used + 60000;
        if deposit < 100 * WEI_PER_AETH {
            return Err(StateError::InvalidTx(String::from_str("min deposit 100 AETH")));
        }
        if !is_known_param(param_key) {
            return Err(StateError::InvalidTx(String::from_str("unknown param ").concat(param_key)));
        }
        let acct = self.get_account(from);
        if acct.balance < deposit {
            return Err(StateError::InsufficientBalance);
        }
        self.set_funds(from, acct.balance - deposit, acct.bonded);
        let id = self.next_proposal_id;
        self.next_proposal_id = self.next_proposal_id + 1;
        let voting_end = self.height.saturating_add(50);
        let bonded_power = capped_active_power(&self.validators);
        let p = GovernanceProposal {
            id,
            title: String::from_str(title),
            param_key: String::from_str(param_key),
            param_value: String::from_str(param_value),
            proposer: *from,
            deposit,
            yes: 0,
            no: 0,
            abstain: 0,
            veto: 0,
            voting_end_height: voting_end,
            enact_height: None,
            status: ProposalStatus::Voting,
            bonded_power,
        };
        proof {
            assert(locked_deposit(p) == deposit);
        }
        self.proposals.insert(id, p);
        proof {
            assert(self.proposals@.dom() =~= old(self).proposals@.dom().insert(id));
        }
        Ok(())
    }

    /// Adds the voting power of a bonded validator to one option of an open
    /// proposal: 0 no, 1 yes, 2 abstain, 3 veto.
    pub(crate) fn apply_gov_vote(&mut self, from: &Address, proposal_id: u64, option: u8, gas_used: &mut u64) -> (r: Result<
        (),
        StateError,
    >)
        requires
            *old(gas_used) + 25000 <= u64::MAX,
        ensures
            gov_vote_effect(*old(self), *final(self), *from, proposal_id, option, *old(gas_used), *final(gas_used), r),
    {
        *gas_used = *gas_used + 25000;
        let power = match self.validators.get(from) {
            Some(v) => v.power,
            None => 0,
        };
        if power == 0 {
            return Err(StateError::InvalidTx(String::from_str("voter not bonded")));
        }
        match self.proposals.get(&proposal_id) {
            None => {
                return Err(StateError::InvalidTx(String::from_str("unknown proposal")));
            },
            Some(p) => {
                if p.status != ProposalStatus::Voting {
                    return Err(StateError::InvalidTx(String::from_str("not in voting")));
                }
                if self.height > p.voting_end_height {
                    return Err(StateError::InvalidTx(String::from_str("voting ended")));
                }
                if option > 3 {
                    return Err(StateError::InvalidTx(String::from_str("bad vote option")));
                }
            },
        }
        let mut p = match self.proposals.remove(&proposal_id) {
            Some(p) => p,
            None => {
                return Err(StateError::InvalidTx(String::from_str("unknown proposal")));
            },
        };
        if option == 0 {
            p.no = p.no.saturating_add(power);
        } else if option == 1 {
            p.yes = p.yes.saturating_add(power);
        } else if option == 2 {
            p.abstain = p.abstain.saturating_add(power);
        } else {
            p.veto = p.veto.saturating_add(power);
        }
        self.proposals.insert(proposal_id, p);
        proof {
            assert(self.proposals@ =~= old(self).proposals@.insert(proposal_id, p));
        }
        Ok(())
    }

    /// Closes the vote on a proposal past its end. It passes with a quorum of
    /// 40% of the bonded power when the vote opened, more than half of the
    /// yes/no/veto power for yes, and vetoes at most 33.4% of the
    /// participation; a passed one sets its parameter and returns the
    /// deposit; a failed one returns it too, but half of a vetoed deposit is
    /// burned.
    pub(crate) fn apply_gov_enact(&mut self, proposal_id: u64, gas_used: &mut u64) -> (r: Result<(), StateError>)
        requires
            old(self).supply() <= u128::MAX,
            *old(gas_used) + 40000 <= u64::MAX,
            forall|k: u64| #[trigger] old(self).proposals@.contains_key(k) ==> locked_deposit(old(self).proposals@[k]) == old(self).proposals@[k].deposit,
        ensures
            gov_enact_effect(*old(self), *final(self), proposal_id, *old(gas_used), *final(gas_used), r),
    {
        *gas_used = *gas_used + 40000;
        let (voting_end, yes, no, abstain, veto, dep, proposer, key, value, bonded) = match self.proposals.get(&proposal_id) {
            None => {
                return Err(StateError::InvalidTx(String::from_str("unknown proposal")));
            },
            Some(p) => (
                p.voting_end_height,
                p.yes,
                p.no,
                p.abstain,
                p.veto,
                p.deposit,
                p.proposer,
                p.param_key.clone(),
                p.param_value.clone(),
                p.bonded_power,
            ),
        };
        if self.height <= voting_end {
            return Err(StateError::InvalidTx(String::from_str("voting still open")));
        }
        let is_vetoed = split_gt(weighted_sum(veto, 0, 0, 0, 1000, 0, 0, 0), weighted_sum(yes, no, abstain, veto, 334, 334, 334, 334));
        let short_of_quorum = split_gt(weighted_sum(bonded, 0, 0, 0, 4, 0, 0, 0), weighted_sum(yes, no, abstain, veto, 10, 10, 10, 10));
        let majority = split_gt(weighted_sum(yes, 0, 0, 0, 2, 0, 0, 0), weighted_sum(yes, no, veto, 0, 1, 1, 1, 0));
        let passed = (yes > 0 || no > 0 || abstain > 0 || veto > 0) && !short_of_quorum && majority && !is_vetoed;
        proof {
            self.lemma_supply_parts();
            assert(nonneg(deposit_fn()));
            self.proposals.lemma_value_le_total(proposal_id, deposit_fn());
            self.lemma_account_le_totals(proposer@);
        }
        if !passed {
            let mut p = match self.proposals.remove(&proposal_id) {
                Some(p) => p,
                None => {
                    return Err(StateError::InvalidTx(String::from_str("unknown proposal")));
                },
            };
            p.status = ProposalStatus::Failed;
            p.deposit = 0;
            self.proposals.insert(proposal_id, p);
            proof {
                assert(self.proposals@ =~= old(self).proposals@.insert(proposal_id, p));
            }
            let burn = if is_vetoed { dep / 2 } else { 0 };
            let acct = self.get_account(&proposer);
            self.set_funds(&proposer, acct.balance.saturating_add(dep - burn), acct.bonded);
            self.fee_burned = self.fee_burned + burn;
            return Ok(());
        }
        if self.height < voting_end.saturating_add(1) {
            return Err(StateError::InvalidTx(String::from_str("timelock")));
        }
        let pr = self.apply_param(key.as_str(), value.as_str());
        if pr.is_err() {
            return pr;
        }
        let ghost s1 = *self;
        let mut p = match self.proposals.remove(&proposal_id) {
            Some(p) => p,
            None => {
                return Err(StateError::InvalidTx(String::from_str("unknown proposal")));
            },
        };
        p.status = ProposalStatus::Enacted;
        p.enact_height = Some(self.height);
        p.deposit = 0;
        self.proposals.insert(proposal_id, p);
        proof {
            assert(self.proposals@ =~= s1.proposals@.insert(proposal_id, p));
        }
        let acct = self.get_account(&proposer);
        self.set_funds(&proposer, acct.balance.saturating_add(dep), acct.bonded);
        Ok(())
    }

    /// Lets a bonded validator pay up to 1% of the community pool (at least
    /// 1) to `to`, with a memo of at most 256 bytes.
    pub(crate) fn apply_pool_spend(&mut self, from: &Address, to: &Address, amount: u128, memo: &str, gas_used: &mut u64) -> (r:
        Result<(), StateError>)
        requires
            old(self).supply() <= u128::MAX,
            *old(gas_used) + 35000 <= u64::MAX,
        ensures
            pool_spend_effect(*old(self), *final(self), *from, *to, amount, memo@, *old(gas_used), *final(gas_used), r),
    {
        *gas_used = *gas_used + 35000;
        let power = match self.validators.get(from) {
            Some(v) => v.power,
            None => 0,
        };
        if power == 0 {
            return Err(StateError::InvalidTx(String::from_str("only validators may spend pool")));
        }
        if amount == 0 || memo.len() > 256 {
            return Err(StateError::InvalidTx(String::from_str("bad spend params")));
        }
        let cap = self.community_pool / 100;
        let limit = if cap > 1 { cap } else { 1 };
        if amount > limit {
            return Err(StateError::InvalidTx(String::from_str("exceeds 1% pool cap")));
        }
        if self.community_pool < amount {
            return Err(StateError::InsufficientBalance);
        }
        self.community_pool = self.community_pool - amount;
        proof {
            self.lemma_supply_parts();
            self.lemma_account_le_totals(to@);
        }
        self.credit(to, amount);
        Ok(())
    }

    /// Moves the base fee one eighth of the way (at most) towards the load
    /// of the last block, relative to half the gas limit; never below 1.
    pub fn adjust_base_fee(&mut self, gas_used: u64)
        requires
            (gas_used - old(self).params.gas_limit / 2) * old(self).base_fee <= i128::MAX,
            (gas_used - old(self).params.gas_limit / 2) * old(self).base_fee >= i128::MIN,
        ensures
            *final(self) == (ChainState { base_fee: final(self).base_fee, ..*old(self) }),
            old(self).params.gas_limit / 2 == 0 ==> final(self).base_fee == old(self).base_fee,
            old(self).params.gas_limit / 2 != 0 ==> final(self).base_fee == next_base_fee(
                old(self).base_fee,
                gas_used,
                old(self).params.gas_limit / 2,
            ),
    {
        let target = self.params.gas_limit / 2;
        if target == 0 {
            return;
        }
        let base = self.base_fee as i128;
        let num: i128 = (gas_used as i128 - target as i128) * base;
        let den: i128 = target as i128 * 8;
        proof {
            let g = gas_used - target;
            assert(target <= 0x7fff_ffff_ffff_ffff);
            assert(g >= -0x7fff_ffff_ffff_ffffint && g <= u64::MAX);
            assert(num == g * base);
            assert(-0x7fff_ffff_ffff_ffffint * (u64::MAX as int) <= g * base) by (nonlinear_arith)
                requires
                    g >= -0x7fff_ffff_ffff_ffffint,
                    0 <= base <= u64::MAX,
            ;
            assert(den >= 8);
        }
        let delta: i128 = if num >= 0 {
            proof {
                assert(0 <= num / den <= num / 8) by (nonlinear_arith)
                    requires
                        num >= 0,
                        den >= 8,
                ;
            }
            num / den
        } else {
            let pos: i128 = -num;
            proof {
                assert(0 <= pos / den <= pos / 8) by (nonlinear_arith)
                    requires
                        pos > 0,
                        den >= 8,
                ;
            }
            -(pos / den)
        };
        let sum: i128 = base + delta;
        let next: i128 = if sum < 1 { 1 } else { sum };
        self.base_fee = #[verifier::truncate] (next as u64);
    }
}

/// Division truncating towards zero, as integer division in Rust does.
pub open spec fn trunc_div(a: int, b: int) -> int {
    if a >= 0 { a / b } else { -((-a) / b) }
}

/// The base fee after a block that used `gas_used` against `target`.
pub open spec fn next_base_fee(base: u64, gas_used: u64, target: u64) -> u64 {
    let delta = trunc_div((gas_used - target) * base, target * 8);
    let next = if base + delta < 1 { 1 } else { base + delta };
    next as u64
}

/// Law: closing a vote enacts the proposal exactly when its tallies carry
/// it: some participation, at least 40% of the bonded power taking part,
/// yes above half of yes, no and veto together, and veto at most 33.4% of
/// the participation. Otherwise it fails with the parameters untouched,
/// and a vetoed one has half its deposit burned.
pub proof fn law_enact_follows_the_tally(
    s_in: ChainState,
    s_out: ChainState,
    proposal_id: u64,
    gas_in: u64,
    gas_out: u64,
    r: Result<(), StateError>,
)
    requires
        gov_enact_effect(s_in, s_out, proposal_id, gas_in, gas_out, r),
        r is Ok,
        s_in.proposals@.contains_key(proposal_id),
    ensures
        ({
            let p = s_in.proposals@[proposal_id];
            let part = p.yes + p.no + p.abstain + p.veto;
            let carried = part > 0 && 10 * part >= 4 * p.bonded_power && 2 * p.yes > p.yes + p.no + p.veto && 1000 * p.veto <= 334
                * part;
            &&& (s_out.proposals@[proposal_id].status == ProposalStatus::Enacted <==> carried)
            &&& !carried ==> s_out.params == s_in.params && s_out.proposals@[proposal_id].status == ProposalStatus::Failed
            &&& !carried && 1000 * p.veto > 334 * part ==> s_out.fee_burned == s_in.fee_burned + p.deposit / 2
            &&& !carried && 1000 * p.veto <= 334 * part ==> s_out.fee_burned == s_in.fee_burned
        }),
{
}

/// Law: after a block that used `gas` against the target `target`, the base
/// fee moves by an eighth of its relative deviation from the target: up by
/// `(gas - target) * base / (8 * target)` (rounded down) above the target,
/// down by `(target - gas) * base / (8 * target)` (rounded down, never below
/// 1) under it, and not at all at the target; for a block within twice the
/// target that is at most an eighth of the base fee either way.
pub proof fn law_base_fee_follows_the_load(base: u64, gas: u64, target: u64)
    requires
        target > 0,
        gas <= 2 * target,
        1 <= base <= u64::MAX / 2,
    ensures
        gas >= target ==> next_base_fee(base, gas, target) == base + ((gas - target) * base) / (8 * target),
        gas < target ==> next_base_fee(base, gas, target) == (if base - ((target - gas) * base) / (8 * target) < 1 {
            1
        } else {
            base - ((target - gas) * base) / (8 * target)
        }),
        gas == target ==> next_base_fee(base, gas, target) == base,
        next_base_fee(base, gas, target) <= base + base / 8 || next_base_fee(base, gas, target) == 1,
        next_base_fee(base, gas, target) + base / 8 >= base,
{
    let d = (gas - target) * base;
    if gas >= target {
        assert(0 <= d <= target * base) by (nonlinear_arith)
            requires
                d == (gas - target) * base,
                gas >= target,
                gas <= 2 * target,
                base >= 0,
        ;
        assert(d / (8 * target) <= base / 8) by (nonlinear_arith)
            requires
                0 <= d <= target * base,
                target > 0,
                base >= 0,
        ;
        assert(target * 8 == 8 * target);
        assert(trunc_div(d, target * 8) == d / (8 * target));
        if gas == target {
            assert(d == 0) by (nonlinear_arith)
                requires
                    d == (gas - target) * base,
                    gas == target,
            ;
        }
    } else {
        let e = (target - gas) * base;
        assert(-d == e) by (nonlinear_arith)
            requires
                d == (gas - target) * base,
                e == (target - gas) * base,
        ;
        assert(0 <= e <= target * base) by (nonlinear_arith)
            requires
                e == (target - gas) * base,
                gas < target,
                base >= 0,
        ;
        assert(e / (8 * target) <= base / 8) by (nonlinear_arith)
            requires
                0 <= e <= target * base,
                target > 0,
                base >= 0,
        ;
        assert(target * 8 == 8 * target);
        assert(trunc_div(d, target * 8) == -(e / (8 * target)));
    }
}

/// Law: an accepted vote adds the voter's validator power (capped at
/// `u128::MAX`) to exactly one tally: option 0 to no, 1 to yes, 2 to
/// abstain, 3 to veto; the other tallies stay as they were.
pub proof fn law_vote_adds_power_to_one_tally(
    s_in: ChainState,
    s_out: ChainState,
    from: Address,
    proposal_id: u64,
    option: u8,
    gas_in: u64,
    gas_out: u64,
    r: Result<(), StateError>,
)
    requires
        gov_vote_effect(s_in, s_out, from, proposal_id, option, gas_in, gas_out, r),
        r is Ok,
    ensures
        s_in.validators@.contains_key(from@),
        s_in.proposals@.contains_key(proposal_id),
        option <= 3,
        ({
            let w = s_in.validators@[from@].power;
            let p = s_in.proposals@[proposal_id];
            let q = s_out.proposals@[proposal_id];
            let plus = |x: u128| if x + w > u128::MAX { u128::MAX as int } else { x + w };
            &&& q.no == (if option == 0 { plus(p.no) } else { p.no as int })
            &&& q.yes == (if option == 1 { plus(p.yes) } else { p.yes as int })
            &&& q.abstain == (if option == 2 { plus(p.abstain) } else { p.abstain as int })
            &&& q.veto == (if option == 3 { plus(p.veto) } else { p.veto as int })
        }),
{
}

} // verus!
