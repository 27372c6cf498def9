//! Slashing and the evidence that triggers it.

use vstd::prelude::*;
use vstd::string::*;
use crate::bytes::{addr_eq, append_bytes, bytes_eq, hash_eq};
use crate::consensus::Vote;
use crate::crypto::{hash_bytes, le_u64, spec_tagged_hash, tag};
use crate::errors::{fails_with, StateError};
use crate::state::{balance_of, bonded_of, funds_set, nonces_kept, ChainState};
use crate::types::{Address, SlashEvent, SLASH_DOUBLE_SIGN_BPS, SLASH_DOWNTIME_BPS};

use crate::state::tombstones_kept;

verus! {

/// The stake a slash of `bps` basis points takes from `bonded`.
pub open spec fn slash_amount(bonded: u128, bps: u16) -> int {
    (if bonded * bps > u128::MAX { u128::MAX as int } else { bonded * bps }) / 10000
}

/// The hash under which double-sign evidence is remembered.
pub open spec fn double_sign_evidence(vote_a: Seq<u8>, vote_b: Seq<u8>) -> Seq<u8> {
    spec_tagged_hash(tag("AETH/BLOB/V1"), vote_a + vote_b)
}

/// The hash under which downtime evidence is remembered.
pub open spec fn downtime_evidence(validator: Seq<u8>, missed: u64, epoch: u64) -> Seq<u8> {
    spec_tagged_hash(tag("AETH/BLOB/V1"), validator + le_u64(missed) + le_u64(epoch))
}

proof fn lemma_slash_split(bonded: u128, bps: u16)
    requires
        bps <= 10000,
    ensures
        0 <= slash_amount(bonded, bps) <= bonded,
{
    let p = if bonded * bps > u128::MAX { u128::MAX as int } else { bonded * bps };
    assert(0 <= bonded * bps <= bonded * 10000) by (nonlinear_arith)
        requires
            bps <= 10000,
    ;
    if bonded * bps > u128::MAX {
        assert(u128::MAX / 10000 <= bonded) by (nonlinear_arith)
            requires
                bonded * bps > u128::MAX,
                bps <= 10000,
        ;
    }
    assert(p / 10000 <= bonded) by (nonlinear_arith)
        requires
            p <= bonded * 10000,
            0 <= p,
    ;
}

/// `s_out` is `s_in` with `bps` basis points of the self-bond of `k` cut:
/// half of the cut burned, the rest to the community pool.
pub open spec fn slashed(s_in: ChainState, s_out: ChainState, k: Seq<u8>, bps: u16) -> bool {
    let m0 = s_in.accounts@;
    let bnd = bonded_of(m0, k);
    let amt = slash_amount(bnd as u128, bps);
    &&& funds_set(m0, s_out.accounts@, k, balance_of(m0, k), bnd - amt)
    &&& s_out.fee_burned == s_in.fee_burned + amt / 2
    &&& s_out.community_pool == s_in.community_pool + (amt - amt / 2)
}

/// What `apply_evidence_double_sign` does: the state it leaves, the gas it counts and its
/// result, from `s_in` and `gas_in`.
pub open spec fn double_sign_effect(s_in: ChainState, s_out: ChainState, vote_a: Seq<u8>, vote_b: Seq<u8>, parsed_a: Result<Vote, String>, parsed_b: Result<Vote, String>, gas_in: u64, gas_out: u64, r: Result<(), StateError>) -> bool {
    &&& tombstones_kept(s_in.validators@, s_out.validators@)
    &&& gas_out == gas_in + 80000
    &&& s_out.supply() == s_in.supply()
    &&& nonces_kept(s_in.accounts@, s_out.accounts@)
    &&& s_out == (ChainState {
        accounts: s_out.accounts,
        validators: s_out.validators,
        fee_burned: s_out.fee_burned,
        community_pool: s_out.community_pool,
        slash_log: s_out.slash_log,
        evidence_seen: s_out.evidence_seen,
        ..s_in
    })
    &&& r is Err ==> s_out == s_in
    &&& vote_a == vote_b ==> fails_with(r, "identical votes"@) && s_out == s_in
    &&& vote_a != vote_b && s_in.evidence_seen@.contains_key(double_sign_evidence(vote_a, vote_b)) ==> fails_with(
        r,
        "evidence replay"@,
    ) && s_out == s_in
    &&& (vote_a != vote_b && !s_in.evidence_seen@.contains_key(double_sign_evidence(vote_a, vote_b)) ==> {
        &&& parsed_a matches Err(e) ==> fails_with(r, "vote_a: "@ + e@) && s_out == s_in
        &&& parsed_a is Ok ==> (parsed_b matches Err(e) ==> fails_with(r, "vote_b: "@ + e@) && s_out == s_in)
        &&& parsed_a matches Ok(a) ==> (parsed_b matches Ok(b) ==> {
            &&& a.validator@ != b.validator@ ==> fails_with(r, "validators differ"@) && s_out == s_in
            &&& a.validator@ == b.validator@ && (a.height != b.height || a.round != b.round) ==> fails_with(
                r,
                "height/round mismatch"@,
            ) && s_out == s_in
            &&& a.validator@ == b.validator@ && a.height == b.height && a.round == b.round && a.block_hash@ == b.block_hash@
                ==> fails_with(r, "same block hash"@) && s_out == s_in
            &&& a.validator@ == b.validator@ && a.height == b.height && a.round == b.round && a.block_hash@ != b.block_hash@
                && a.vote_type != b.vote_type ==> fails_with(r, "vote type mismatch"@) && s_out == s_in
            &&& a.validator@ == b.validator@ && a.height == b.height && a.round == b.round && a.block_hash@ != b.block_hash@
                && a.vote_type == b.vote_type ==> {
                &&& r is Ok ==> s_out.evidence_seen@ == s_in.evidence_seen@.insert(
                    double_sign_evidence(vote_a, vote_b),
                    (),
                ) && s_out.validators@[a.validator@].tombstoned
                &&& r is Ok ==> slashed(s_in, s_out, a.validator@, SLASH_DOUBLE_SIGN_BPS)
                &&& r is Ok <==> s_in.validators@.contains_key(a.validator@) && !s_in.validators@[a.validator@].tombstoned
            }
        })
    })
}

/// What `apply_evidence_downtime` does: the state it leaves, the gas it counts and its
/// result, from `s_in` and `gas_in`.
pub open spec fn downtime_effect(s_in: ChainState, s_out: ChainState, validator: Address, missed: u64, gas_in: u64, gas_out: u64, r: Result<(), StateError>) -> bool {
    &&& tombstones_kept(s_in.validators@, s_out.validators@)
    &&& gas_out == gas_in + 50000
    &&& s_out.supply() == s_in.supply()
    &&& nonces_kept(s_in.accounts@, s_out.accounts@)
    &&& s_out == (ChainState {
        accounts: s_out.accounts,
        validators: s_out.validators,
        fee_burned: s_out.fee_burned,
        community_pool: s_out.community_pool,
        slash_log: s_out.slash_log,
        evidence_seen: s_out.evidence_seen,
        ..s_in
    })
    &&& r is Err ==> s_out == s_in
    &&& missed < 50 ==> fails_with(r, "missed threshold 50"@) && s_out == s_in
    &&& missed >= 50 && s_in.evidence_seen@.contains_key(downtime_evidence(validator@, missed, s_in.epoch)) ==> fails_with(
        r,
        "evidence replay"@,
    ) && s_out == s_in
    &&& missed >= 50 && !s_in.evidence_seen@.contains_key(downtime_evidence(validator@, missed, s_in.epoch)) ==> {
        &&& r is Ok <==> s_in.validators@.contains_key(validator@) && !s_in.validators@[validator@].tombstoned
        &&& r is Ok ==> s_out.evidence_seen@ == s_in.evidence_seen@.insert(
            downtime_evidence(validator@, missed, s_in.epoch),
            (),
        ) && s_out.validators@[validator@].jailed
        &&& r is Ok ==> slashed(s_in, s_out, validator@, SLASH_DOWNTIME_BPS) && !s_out.validators@[validator@].tombstoned
    }
}

impl ChainState {
    /// Slashes `bps` basis points of the validator's self-bond (half burned,
    /// half to the community pool), logs it, and jails the validator:
    /// for two epochs, or for good (tombstoned) when `permanent`.
    pub(crate) fn slash_validator(&mut self, validator: &Address, bps: u16, reason: &str, permanent: bool) -> (r: Result<
        (),
        StateError,
    >)
        requires
            old(self).supply() <= u128::MAX,
            bps <= 10000,
        ensures
            final(self).supply() == old(self).supply(),
            nonces_kept(old(self).accounts@, final(self).accounts@),
            *final(self) == (ChainState {
                accounts: final(self).accounts,
                validators: final(self).validators,
                fee_burned: final(self).fee_burned,
                community_pool: final(self).community_pool,
                slash_log: final(self).slash_log,
                ..*old(self)
            }),
            ({
                let vs = old(self).validators@;
                let k = validator@;
                let m0 = old(self).accounts@;
                let bnd = bonded_of(m0, k);
                let amt = slash_amount(bnd as u128, bps);
                &&& !vs.contains_key(k) ==> fails_with(r, "unknown validator"@) && *final(self) == *old(self)
                &&& vs.contains_key(k) && vs[k].tombstoned ==> fails_with(r, "already tombstoned"@) && *final(self) == *old(self)
                &&& vs.contains_key(k) && !vs[k].tombstoned ==> {
                    &&& r is Ok
                    &&& funds_set(m0, final(self).accounts@, k, balance_of(m0, k), bnd - amt)
                    &&& final(self).fee_burned == old(self).fee_burned + amt / 2
                    &&& final(self).community_pool == old(self).community_pool + (amt - amt / 2)
                    &&& bnd == 0 ==> final(self).slash_log@ == old(self).slash_log@
                    &&& bnd != 0 ==> final(self).slash_log@.drop_last() == old(self).slash_log@ && final(self).slash_log@.last().slashed == amt
                        && final(self).slash_log@.last().burned == amt / 2 && final(self).slash_log@.last().to_pool == amt - amt / 2
                        && final(self).slash_log@.last().validator == *validator && final(self).slash_log@.last().reason@ == reason@
                        && final(self).slash_log@.last().height == old(self).height
                    &&& final(self).validators@.dom() == vs.dom()
                    &&& forall|j: Seq<u8>| j != k && #[trigger] vs.contains_key(j) ==> final(self).validators@[j] == vs[j]
                    &&& final(self).validators@[k].jailed
                    &&& final(self).validators@[k].tombstoned == permanent
                    &&& final(self).validators@[k].jail_until_epoch == if permanent {
                        u64::MAX as int
                    } else if old(self).epoch + 2 > u64::MAX {
                        u64::MAX as int
                    } else {
                        old(self).epoch + 2
                    }
                    &&& bnd != 0 ==> final(self).validators@[k].power == (if vs[k].power < amt { 0 } else { vs[k].power - amt })
                        && final(self).validators@[k].shares == (if vs[k].shares < amt { 0 } else { vs[k].shares - amt })
                    &&& bnd == 0 ==> final(self).validators@[k].power == vs[k].power && final(self).validators@[k].shares == vs[k].shares
                }
            }),
    {
        match self.validators.get(validator) {
            None => {
                return Err(StateError::InvalidTx(String::from_str("unknown validator")));
            },
            Some(v) => {
                if v.tombstoned {
                    return Err(StateError::InvalidTx(String::from_str("already tombstoned")));
                }
            },
        }
        let mut v = match self.validators.remove(validator) {
            Some(v) => v,
            None => {
                return Err(StateError::InvalidTx(String::from_str("unknown validator")));
            },
        };
        let acct = self.get_account(validator);
        let product = match acct.bonded.checked_mul(bps as u128) {
            Some(p) => p,
            None => u128::MAX,
        };
        let slash_amt = product / 10000;
        proof {
            lemma_slash_split(acct.bonded, bps);
            self.lemma_supply_parts();
        }
        if slash_amt == 0 && acct.bonded == 0 {
            self.set_funds(validator, acct.balance, acct.bonded);
        } else {
            let burned = slash_amt / 2;
            let to_pool = slash_amt.saturating_sub(burned);
            self.set_funds(validator, acct.balance, acct.bonded.saturating_sub(slash_amt));
            proof {
                self.lemma_supply_parts();
            }
            self.fee_burned = self.fee_burned.saturating_add(burned);
            self.community_pool = self.community_pool.saturating_add(to_pool);
            v.power = v.power.saturating_sub(slash_amt);
            v.shares = v.shares.saturating_sub(slash_amt);
            self.slash_log.push(
                SlashEvent {
                    height: self.height,
                    validator: *validator,
                    reason: String::from_str(reason),
                    slashed: slash_amt,
                    burned,
                    to_pool,
                },
            );
        }
        v.jailed = true;
        v.jail_until_epoch = if permanent { u64::MAX } else { self.epoch.saturating_add(2) };
        if permanent {
            v.tombstoned = true;
        }
        self.validators.insert(*validator, v);
        proof {
            assert(self.validators@.dom() =~= old(self).validators@.dom());
        }
        Ok(())
    }

    /// Slashes and tombstones the signer of two conflicting votes of the
    /// same height, round and type, once per pair of encoded votes.
    /// `parsed_a` and `parsed_b` are the two encodings decoded.
    pub(crate) fn apply_evidence_double_sign(
        &mut self,
        vote_a: &[u8],
        vote_b: &[u8],
        parsed_a: &Result<Vote, String>,
        parsed_b: &Result<Vote, String>,
        gas_used: &mut u64,
    ) -> (r: Result<(), StateError>)
        requires
            old(self).supply() <= u128::MAX,
            *old(gas_used) + 80000 <= u64::MAX,
        ensures
            double_sign_effect(*old(self), *final(self), vote_a@, vote_b@, *parsed_a, *parsed_b, *old(gas_used), *final(gas_used), r),
    {
        *gas_used = *gas_used + 80000;
        if bytes_eq(vote_a, vote_b) {
            return Err(StateError::InvalidTx(String::from_str("identical votes")));
        }
        let mut buf: Vec<u8> = Vec::new();
        append_bytes(&mut buf, vote_a);
        append_bytes(&mut buf, vote_b);
        let evid = hash_bytes(buf.as_slice());
        if self.evidence_seen.contains_key(&evid) {
            return Err(StateError::InvalidTx(String::from_str("evidence replay")));
        }
        let a = match parsed_a {
            Err(e) => {
                return Err(StateError::InvalidTx(String::from_str("vote_a: ").concat(e.as_str())));
            },
            Ok(a) => a,
        };
        let b = match parsed_b {
            Err(e) => {
                return Err(StateError::InvalidTx(String::from_str("vote_b: ").concat(e.as_str())));
            },
            Ok(b) => b,
        };
        if !addr_eq(&a.validator, &b.validator) {
            return Err(StateError::InvalidTx(String::from_str("validators differ")));
        }
        if a.height != b.height || a.round != b.round {
            return Err(StateError::InvalidTx(String::from_str("height/round mismatch")));
        }
        if hash_eq(&a.block_hash, &b.block_hash) {
            return Err(StateError::InvalidTx(String::from_str("same block hash")));
        }
        if a.vote_type != b.vote_type {
            return Err(StateError::InvalidTx(String::from_str("vote type mismatch")));
        }
        let s = self.slash_validator(&a.validator, SLASH_DOUBLE_SIGN_BPS, "double_sign", true);
        if s.is_err() {
            return s;
        }
        self.evidence_seen.insert(evid, ());
        Ok(())
    }

    /// Slashes and jails a validator reported to have missed at least 50
    /// blocks, once per validator, count and epoch.
    pub(crate) fn apply_evidence_downtime(&mut self, validator: &Address, missed: u64, gas_used: &mut u64) -> (r: Result<
        (),
        StateError,
    >)
        requires
            old(self).supply() <= u128::MAX,
            *old(gas_used) + 50000 <= u64::MAX,
        ensures
            downtime_effect(*old(self), *final(self), *validator, missed, *old(gas_used), *final(gas_used), r),
    {
        *gas_used = *gas_used + 50000;
        if missed < 50 {
            return Err(StateError::InvalidTx(String::from_str("missed threshold 50")));
        }
        let mut buf: Vec<u8> = Vec::new();
        append_bytes(&mut buf, validator.as_slice());
        let mb = vstd::bytes::u64_to_le_bytes(missed);
        append_bytes(&mut buf, mb.as_slice());
        let eb = vstd::bytes::u64_to_le_bytes(self.epoch);
        append_bytes(&mut buf, eb.as_slice());
        let evid = hash_bytes(buf.as_slice());
        proof {
            assert(buf@ =~= validator@ + le_u64(missed) + le_u64(self.epoch));
        }
        if self.evidence_seen.contains_key(&evid) {
            return Err(StateError::InvalidTx(String::from_str("evidence replay")));
        }
        let s = self.slash_validator(validator, SLASH_DOWNTIME_BPS, "downtime", false);
        if s.is_err() {
            return s;
        }
        self.evidence_seen.insert(evid, ());
        Ok(())
    }
}

/// Law: accepted double-sign evidence cuts 5% (rounded down) of the
/// offender's self-bond, burns half of the cut (rounded down) and sends the
/// rest to the community pool, leaves its liquid balance alone, and
/// tombstones it.
pub proof fn law_double_sign_cuts_five_percent(
    s_in: ChainState,
    s_out: ChainState,
    vote_a: Seq<u8>,
    vote_b: Seq<u8>,
    parsed_a: Result<Vote, String>,
    parsed_b: Result<Vote, String>,
    gas_in: u64,
    gas_out: u64,
    r: Result<(), StateError>,
)
    requires
        double_sign_effect(s_in, s_out, vote_a, vote_b, parsed_a, parsed_b, gas_in, gas_out, r),
        r is Ok,
    ensures
        parsed_a is Ok,
        ({
            let k = parsed_a->Ok_0.validator@;
            let b = bonded_of(s_in.accounts@, k);
            let cut = b / 20;
            &&& b * 500 <= u128::MAX ==> {
                &&& bonded_of(s_out.accounts@, k) == b - cut
                &&& s_out.fee_burned == s_in.fee_burned + cut / 2
                &&& s_out.community_pool == s_in.community_pool + (cut - cut / 2)
            }
            &&& balance_of(s_out.accounts@, k) == balance_of(s_in.accounts@, k)
            &&& s_out.validators@[k].tombstoned
        }),
{
    let k = parsed_a->Ok_0.validator@;
    let b = bonded_of(s_in.accounts@, k);
    if b * 500 <= u128::MAX {
        assert((b * 500) / 10000 == b / 20) by (nonlinear_arith)
            requires
                b >= 0,
        ;
    }
}

/// Law: accepted downtime evidence cuts 0.01% (rounded down) of the
/// validator's self-bond, burns half of the cut (rounded down) and sends
/// the rest to the community pool, and jails the validator without
/// tombstoning it.
pub proof fn law_downtime_cuts_a_hundredth_of_a_percent(
    s_in: ChainState,
    s_out: ChainState,
    validator: Address,
    missed: u64,
    gas_in: u64,
    gas_out: u64,
    r: Result<(), StateError>,
)
    requires
        downtime_effect(s_in, s_out, validator, missed, gas_in, gas_out, r),
        r is Ok,
    ensures
        ({
            let b = bonded_of(s_in.accounts@, validator@);
            let cut = b / 10000;
            &&& missed >= 50
            &&& bonded_of(s_out.accounts@, validator@) == b - cut
            &&& s_out.fee_burned == s_in.fee_burned + cut / 2
            &&& s_out.community_pool == s_in.community_pool + (cut - cut / 2)
            &&& s_out.validators@[validator@].jailed
            &&& !s_out.validators@[validator@].tombstoned
        }),
{
}

} // verus!
