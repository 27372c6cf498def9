//! Rollups on the ledger: registration, batch commits, optimistic
//! finalization and fraud challenges.

use vstd::prelude::*;
use vstd::string::*;
use crate::bytes::{addr_eq, hash_eq, to_vec};
use crate::errors::{is_state_rollup_error, StateError};
use crate::proofs::{decode_vk, groth16_verdict, rollup_inputs, spec_verify_plonk_lite, verify_rollup, vk_decode_error, DecodedProofs};
use crate::rollup::{honest_step, verify_fraud_certificate, window_closed, PendingBatch, RollupPublicInputs, RollupScheme, RollupVerifyOutcome};
use crate::state::ChainState;
use crate::text::{decimal_string, spec_decimal};
use crate::types::{default_challenge_period, zero_hash, Address, Hash256, RollupInfo};
use crate::zk::{zk_error_text, ZkError};

use crate::state::tombstones_kept;

verus! {

/// The scheme a registration names, by its id byte.
pub open spec fn scheme_of(id: u8) -> Option<RollupScheme> {
    if id == 0x01 {
        Some(RollupScheme::Groth16)
    } else if id == 0x02 {
        Some(RollupScheme::PlonkLite)
    } else if id == 0x03 {
        Some(RollupScheme::FraudProof)
    } else if id == 0xFF {
        Some(RollupScheme::Noop)
    } else {
        None
    }
}

/// The key of a pending batch.
pub open spec fn pending_key(rollup_id: Hash256, batch_index: u64) -> (Seq<u8>, u64) {
    (rollup_id@, batch_index)
}

/// The batch a rollup expects next.
pub open spec fn expected_batch(last: u64) -> int {
    if last == 0 { 1 } else { last + 1 }
}

/// What the check of `scheme` says of a commit with these inputs (no
/// batch pending yet): settled at once, held for its challenge window, a
/// proven fraud, or refused (`None`).
pub open spec fn commit_outcome(
    scheme: RollupScheme,
    vk: Option<Seq<u8>>,
    proof: Seq<u8>,
    inputs: RollupPublicInputs,
    decoded: DecodedProofs,
    allow_noop: bool,
) -> Option<RollupVerifyOutcome> {
    match scheme {
        RollupScheme::Groth16 => match vk {
            Some(k) => if groth16_verdict(k, proof, rollup_inputs(inputs)) is Ok {
                Some(RollupVerifyOutcome::Final)
            } else {
                None
            },
            None => None,
        },
        RollupScheme::PlonkLite => match decoded.plonk {
            Ok(p) => if spec_verify_plonk_lite(p, inputs.prev_state_root@, inputs.post_state_root@, inputs.da_hash@, inputs.batch_index) is Ok {
                Some(RollupVerifyOutcome::Final)
            } else {
                None
            },
            Err(_) => None,
        },
        RollupScheme::FraudProof => if proof.len() == 0 {
            Some(RollupVerifyOutcome::Pending)
        } else {
            match decoded.fraud {
                Ok(c) => if c.claim_post == inputs.post_state_root && honest_step(c) == c.post_state@ && honest_step(c) != c.claim_post@ {
                    Some(RollupVerifyOutcome::FraudProven)
                } else {
                    None
                },
                Err(_) => None,
            }
        },
        RollupScheme::Noop => if allow_noop {
            Some(RollupVerifyOutcome::Final)
        } else {
            None
        },
    }
}

fn rollup_error(e: ZkError) -> (r: StateError)
    ensures
        r matches StateError::Rollup(m) && m@ == zk_error_text(e),
{
    StateError::Rollup(e.message())
}

/// What `apply_rollup_register` does: the state it leaves, the gas it counts and its
/// result, from `s_in` and `gas_in`.
pub open spec fn rollup_register_effect(s_in: ChainState, s_out: ChainState, rollup_id: Hash256, sequencer: Address, scheme: u8, verifying_key: Seq<u8>, challenge_period: u64, allow_noop: bool, gas_in: u64, gas_out: u64, r: Result<(), StateError>) -> bool {
    &&& tombstones_kept(s_in.validators@, s_out.validators@)
    &&& gas_out == gas_in + 50000
    &&& s_out == (ChainState { rollups: s_out.rollups, ..s_in })
    &&& r is Err ==> s_out == s_in
    &&& (scheme_of(scheme) is None ==> r matches Err(StateError::Rollup(_)))
    &&& scheme_of(scheme) == Some(RollupScheme::Groth16) && verifying_key.len() == 0 ==> (r is Err && is_state_rollup_error(r->Err_0, "groth16 rollup requires verifying_key"@))
    &&& scheme_of(scheme) == Some(RollupScheme::Noop) && !allow_noop ==> (r is Err && is_state_rollup_error(r->Err_0, "noop scheme disabled; use 0x01/0x02/0x03"@))
    &&& r is Ok <==> scheme_of(scheme) is Some && !(scheme_of(scheme) == Some(RollupScheme::Groth16) && verifying_key.len() == 0)
    && !(scheme_of(scheme) == Some(RollupScheme::Noop) && !allow_noop) && !s_in.rollups@.contains_key(rollup_id@)
    &&& r is Ok ==> {
        &&& s_out.rollups@.dom() == s_in.rollups@.dom().insert(rollup_id@)
        &&& forall|k: Seq<u8>| k != rollup_id@ && #[trigger] s_in.rollups@.contains_key(k) ==> s_out.rollups@[k]
            == s_in.rollups@[k]
        &&& s_out.rollups@[rollup_id@].rollup_id == rollup_id
        &&& s_out.rollups@[rollup_id@].sequencer == sequencer
        &&& s_out.rollups@[rollup_id@].scheme == scheme
        &&& s_out.rollups@[rollup_id@].last_batch == 0
        &&& s_out.rollups@[rollup_id@].state_root@ == Seq::new(32, |_i: int| 0u8)
        &&& s_out.rollups@[rollup_id@].verifying_key@ == verifying_key
        &&& s_out.rollups@[rollup_id@].challenge_period == if challenge_period == 0 { 10 } else { challenge_period }
    }
}

/// What `apply_rollup_commit` does: the state it leaves, the gas it counts and its
/// result, from `s_in` and `gas_in`.
pub open spec fn rollup_commit_effect(s_in: ChainState, s_out: ChainState, sender: Address, rollup_id: Hash256, batch_index: u64, prev: Hash256, post: Hash256, da: Hash256, proof: Seq<u8>, decoded: DecodedProofs, global_vk: Option<Seq<u8>>, allow_noop: bool, gas_in: u64, gas_out: u64, r: Result<(), StateError>) -> bool {
    &&& tombstones_kept(s_in.validators@, s_out.validators@)
    &&& gas_out == gas_in + 150000
    &&& s_out == (ChainState { rollups: s_out.rollups, pending_rollups: s_out.pending_rollups, ..s_in })
    &&& r is Err ==> s_out == s_in
    &&& ({
        let rs = s_in.rollups@;
        let info = rs[rollup_id@];
        let ok_so_far = rs.contains_key(rollup_id@) && info.sequencer@ == sender@ && batch_index == expected_batch(info.last_batch) && (
        info.last_batch == 0 || prev@ == info.state_root@);
        let vk = if info.verifying_key@.len() > 0 { Some(info.verifying_key@) } else { global_vk };
        let inputs = RollupPublicInputs { prev_state_root: prev, post_state_root: post, da_hash: da, batch_index };
        &&& !rs.contains_key(rollup_id@) ==> r is Err && is_state_rollup_error(r->Err_0, "unknown rollup"@)
        &&& rs.contains_key(rollup_id@) && info.sequencer@ != sender@ ==> r is Err && is_state_rollup_error(
            r->Err_0,
            "unauthorized sequencer"@,
        )
        &&& rs.contains_key(rollup_id@) && info.sequencer@ == sender@ && batch_index != expected_batch(info.last_batch) ==> r is Err
            && is_state_rollup_error(
            r->Err_0,
            "bad batch index: got "@ + spec_decimal(batch_index as nat) + ", expected "@ + spec_decimal(
                expected_batch(info.last_batch) as nat,
            ),
        )
        &&& rs.contains_key(rollup_id@) && info.sequencer@ == sender@ && batch_index == expected_batch(info.last_batch)
            && info.last_batch > 0 && prev@ != info.state_root@ ==> r is Err && is_state_rollup_error(r->Err_0, "prev state mismatch"@)
        &&& ok_so_far && scheme_of(info.scheme) is None ==> r is Err
        &&& ok_so_far && scheme_of(info.scheme) is Some && info.verifying_key@.len() > 0 && vk_decode_error(info.verifying_key@) is Some
            ==> r is Err && is_state_rollup_error(r->Err_0, "bad vk: "@ + vk_decode_error(info.verifying_key@)->Some_0)
        &&& ok_so_far && scheme_of(info.scheme) is Some && (info.verifying_key@.len() == 0 || vk_decode_error(info.verifying_key@) is None)
            ==> match commit_outcome(scheme_of(info.scheme)->Some_0, vk, proof, inputs, decoded, allow_noop) {
            None => r is Err,
            Some(RollupVerifyOutcome::Final) => {
                &&& r is Ok
                &&& s_out.rollups@ == rs.insert(rollup_id@, RollupInfo { last_batch: batch_index, state_root: post, ..info })
                &&& s_out.pending_rollups == s_in.pending_rollups
            },
            Some(RollupVerifyOutcome::Pending) => {
                &&& r is Ok
                &&& s_out.rollups == s_in.rollups
                &&& s_out.pending_rollups@ == s_in.pending_rollups@.insert(
                    pending_key(rollup_id, batch_index),
                    PendingBatch {
                        rollup_id: rollup_id,
                        batch_index,
                        prev_state_root: prev,
                        post_state_root: post,
                        da_hash: da,
                        submitted_height: s_in.height,
                        challenge_period: info.challenge_period,
                        challenged: false,
                        finalized: false,
                    },
                )
            },
            Some(RollupVerifyOutcome::FraudProven) => r is Err && is_state_rollup_error(r->Err_0, "fraud proof not valid on commit path"@),
        }
    })
}

/// What `apply_rollup_finalize` does: the state it leaves, the gas it counts and its
/// result, from `s_in` and `gas_in`.
pub open spec fn rollup_finalize_effect(s_in: ChainState, s_out: ChainState, rollup_id: Hash256, batch_index: u64, gas_in: u64, gas_out: u64, r: Result<(), StateError>) -> bool {
    &&& tombstones_kept(s_in.validators@, s_out.validators@)
    &&& gas_out == gas_in + 30000
    &&& s_out == (ChainState { rollups: s_out.rollups, pending_rollups: s_out.pending_rollups, ..s_in })
    &&& ({
        let ps = s_in.pending_rollups@;
        let k = pending_key(rollup_id, batch_index);
        let p = ps[k];
        let live = ps.contains_key(k) && !p.finalized && !p.challenged && window_closed(p, s_in.height);
        let rs = s_in.rollups@;
        &&& !ps.contains_key(k) ==> r is Err && is_state_rollup_error(r->Err_0, "no pending batch"@) && s_out == s_in
        &&& ps.contains_key(k) && p.finalized ==> r is Err && is_state_rollup_error(r->Err_0, "already finalized"@) && s_out == s_in
        &&& ps.contains_key(k) && !p.finalized && p.challenged ==> r is Err && is_state_rollup_error(r->Err_0, "batch was challenged"@)
            && s_out == s_in
        &&& ps.contains_key(k) && !p.finalized && !p.challenged && !window_closed(p, s_in.height) ==> r is Err && is_state_rollup_error(
            r->Err_0,
            "challenge window still open"@,
        ) && s_out == s_in
        &&& live && !rs.contains_key(rollup_id@) ==> r is Err && is_state_rollup_error(r->Err_0, "unknown rollup"@) && s_out == s_in
        &&& live && rs.contains_key(rollup_id@) && batch_index != expected_batch(rs[rollup_id@].last_batch) ==> r is Err
            && is_state_rollup_error(r->Err_0, "batch not next"@) && s_out == s_in
        &&& live && rs.contains_key(rollup_id@) && batch_index == expected_batch(rs[rollup_id@].last_batch) ==> {
            &&& r is Ok
            &&& s_out.rollups@ == s_in.rollups@.insert(
                rollup_id@,
                RollupInfo { last_batch: batch_index, state_root: p.post_state_root, ..s_in.rollups@[rollup_id@] },
            )
            &&& s_out.pending_rollups@ == ps.insert(k, PendingBatch { finalized: true, ..p })
        }
    })
}

/// What `apply_rollup_fraud` does: the state it leaves, the gas it counts and its
/// result, from `s_in` and `gas_in`.
pub open spec fn rollup_fraud_effect(s_in: ChainState, s_out: ChainState, rollup_id: Hash256, batch_index: u64, certificate: Result<crate::rollup::FraudCertificate, String>, gas_in: u64, gas_out: u64, r: Result<(), StateError>) -> bool {
    &&& tombstones_kept(s_in.validators@, s_out.validators@)
    &&& gas_out == gas_in + 80000
    &&& s_out == (ChainState { pending_rollups: s_out.pending_rollups, ..s_in })
    &&& r is Err ==> s_out == s_in
    &&& ({
        let ps = s_in.pending_rollups@;
        let k = pending_key(rollup_id, batch_index);
        let p = ps[k];
        &&& !ps.contains_key(k) ==> r is Err && is_state_rollup_error(r->Err_0, "no pending batch"@)
        &&& ps.contains_key(k) && p.finalized ==> r is Err && is_state_rollup_error(r->Err_0, "already finalized"@)
        &&& ps.contains_key(k) && !p.finalized && window_closed(p, s_in.height) ==> r is Err && is_state_rollup_error(
            r->Err_0,
            "challenge window closed"@,
        )
        &&& ps.contains_key(k) && !p.finalized && !window_closed(p, s_in.height) ==> match certificate {
            Err(m) => r is Err && is_state_rollup_error(r->Err_0, "bad fraud cert: "@ + m@),
            Ok(c) => (r is Ok <==> (c.claim_post == p.post_state_root && honest_step(c) == c.post_state@ && honest_step(c)
                != c.claim_post@)) && (r is Ok ==> s_out.pending_rollups@ == ps.insert(k, PendingBatch { challenged: true, ..p })),
        }
    })
}

impl ChainState {
    /// Registers a rollup with its sequencer, scheme, verifying key and
    /// challenge window (10 blocks when 0).
    pub(crate) fn apply_rollup_register(
        &mut self,
        rollup_id: &Hash256,
        sequencer: &Address,
        scheme: u8,
        verifying_key: &[u8],
        challenge_period: u64,
        allow_noop: bool,
        gas_used: &mut u64,
    ) -> (r: Result<(), StateError>)
        requires
            *old(gas_used) + 50000 <= u64::MAX,
        ensures
            rollup_register_effect(*old(self), *final(self), *rollup_id, *sequencer, scheme, verifying_key@, challenge_period, allow_noop, *old(gas_used), *final(gas_used), r),
    {
        *gas_used = *gas_used + 50000;
        let sch = match RollupScheme::from_u8(scheme) {
            Ok(s) => s,
            Err(e) => {
                return Err(rollup_error(e));
            },
        };
        if sch == RollupScheme::Groth16 && verifying_key.len() == 0 {
            return Err(StateError::Rollup(String::from_str("groth16 rollup requires verifying_key")));
        }
        if sch == RollupScheme::Noop && !allow_noop {
            return Err(StateError::Rollup(String::from_str("noop scheme disabled; use 0x01/0x02/0x03")));
        }
        if self.rollups.contains_key(rollup_id) {
            return Err(StateError::Rollup(String::from_str("already registered")));
        }
        let cp = if challenge_period == 0 { default_challenge_period() } else { challenge_period };
        self.rollups.insert(
            *rollup_id,
            RollupInfo {
                rollup_id: *rollup_id,
                sequencer: *sequencer,
                scheme: sch.id(),
                last_batch: 0,
                state_root: zero_hash(),
                verifying_key: to_vec(verifying_key),
                challenge_period: cp,
            },
        );
        proof {
            assert(self.rollups@.dom() =~= old(self).rollups@.dom().insert(rollup_id@));
        }
        Ok(())
    }

    /// Sets the settled batch and state root of a registered rollup.
    fn settle_rollup(&mut self, rollup_id: &Hash256, batch_index: u64, root: &Hash256)
        requires
            old(self).rollups@.contains_key(rollup_id@),
        ensures
            *final(self) == (ChainState { rollups: final(self).rollups, ..*old(self) }),
            final(self).rollups@ == old(self).rollups@.insert(
                rollup_id@,
                RollupInfo { last_batch: batch_index, state_root: *root, ..old(self).rollups@[rollup_id@] },
            ),
    {
        match self.rollups.remove(rollup_id) {
            Some(mut info) => {
                info.last_batch = batch_index;
                info.state_root = *root;
                let ghost i2 = info;
                self.rollups.insert(*rollup_id, info);
                proof {
                    assert(self.rollups@ =~= old(self).rollups@.insert(rollup_id@, i2));
                }
            },
            None => {},
        }
    }

    /// Commits batch `batch_index` of a rollup from its sequencer: checked
    /// by the rollup's scheme (with the registered key, else `global_vk`),
    /// it is settled at once, or held for its challenge window when the
    /// scheme is optimistic.
    pub(crate) fn apply_rollup_commit(
        &mut self,
        sender: &Address,
        rollup_id: &Hash256,
        batch_index: u64,
        prev: &Hash256,
        post: &Hash256,
        da: &Hash256,
        proof: &[u8],
        decoded: &DecodedProofs,
        global_vk: Option<&[u8]>,
        allow_noop: bool,
        gas_used: &mut u64,
    ) -> (r: Result<(), StateError>)
        requires
            *old(gas_used) + 150000 <= u64::MAX,
            old(self).rollups@.contains_key(rollup_id@) ==> old(self).rollups@[rollup_id@].last_batch < u64::MAX,
        ensures
            rollup_commit_effect(*old(self), *final(self), *sender, *rollup_id, batch_index, *prev, *post, *da, proof@, *decoded, (match global_vk { Some(v) => Some(v@), None => None }), allow_noop, *old(gas_used), *final(gas_used), r),
    {
        *gas_used = *gas_used + 150000;
        let (seq_addr, last_batch, state_root, scheme_id, challenge_period, vk_bytes) = match self.rollups.get(rollup_id) {
            None => {
                return Err(StateError::Rollup(String::from_str("unknown rollup")));
            },
            Some(info) => (info.sequencer, info.last_batch, info.state_root, info.scheme, info.challenge_period, to_vec(
                info.verifying_key.as_slice(),
            )),
        };
        if !addr_eq(&seq_addr, sender) {
            return Err(StateError::Rollup(String::from_str("unauthorized sequencer")));
        }
        let expected: u64 = if last_batch == 0 { 1 } else { last_batch + 1 };
        if batch_index != expected {
            let m = String::from_str("bad batch index: got ").concat(decimal_string(batch_index as u128).as_str()).concat(
                ", expected ",
            ).concat(decimal_string(expected as u128).as_str());
            return Err(StateError::Rollup(m));
        }
        if last_batch > 0 && !hash_eq(prev, &state_root) {
            return Err(StateError::Rollup(String::from_str("prev state mismatch")));
        }
        let scheme = match RollupScheme::from_u8(scheme_id) {
            Ok(s) => s,
            Err(e) => {
                return Err(rollup_error(e));
            },
        };
        let inputs = RollupPublicInputs { prev_state_root: *prev, post_state_root: *post, da_hash: *da, batch_index };
        let registered = vk_bytes.len() > 0;
        if registered {
            match decode_vk(vk_bytes.as_slice()) {
                Ok(()) => {},
                Err(e) => {
                    return Err(StateError::Rollup(String::from_str("bad vk: ").concat(e.as_str())));
                },
            }
        }
        let effective: Option<&[u8]> = if registered { Some(vk_bytes.as_slice()) } else { global_vk };
        let outcome = match verify_rollup(scheme, effective, proof, &inputs, decoded, allow_noop, None, self.height) {
            Ok(o) => o,
            Err(e) => {
                return Err(rollup_error(e));
            },
        };
        match outcome {
            RollupVerifyOutcome::Final => {
                self.settle_rollup(rollup_id, batch_index, post);
            },
            RollupVerifyOutcome::Pending => {
                self.pending_rollups.insert(
                    (*rollup_id, batch_index),
                    PendingBatch {
                        rollup_id: *rollup_id,
                        batch_index,
                        prev_state_root: *prev,
                        post_state_root: *post,
                        da_hash: *da,
                        submitted_height: self.height,
                        challenge_period,
                        challenged: false,
                        finalized: false,
                    },
                );
            },
            RollupVerifyOutcome::FraudProven => {
                return Err(StateError::Rollup(String::from_str("fraud proof not valid on commit path")));
            },
        }
        Ok(())
    }

    /// Settles an unchallenged, unfinalized optimistic batch once its window
    /// has passed, if it is the rollup's next batch.
    pub(crate) fn apply_rollup_finalize(&mut self, rollup_id: &Hash256, batch_index: u64, gas_used: &mut u64) -> (r: Result<
        (),
        StateError,
    >)
        requires
            *old(gas_used) + 30000 <= u64::MAX,
        ensures
            rollup_finalize_effect(*old(self), *final(self), *rollup_id, batch_index, *old(gas_used), *final(gas_used), r),
    {
        *gas_used = *gas_used + 30000;
        let key = (*rollup_id, batch_index);
        let pending = match self.pending_rollups.get(&key) {
            None => {
                return Err(StateError::Rollup(String::from_str("no pending batch")));
            },
            Some(p) => *p,
        };
        if pending.finalized {
            return Err(StateError::Rollup(String::from_str("already finalized")));
        }
        if pending.challenged {
            return Err(StateError::Rollup(String::from_str("batch was challenged")));
        }
        let mature = self.height >= pending.submitted_height.saturating_add(pending.challenge_period);
        if !mature {
            return Err(StateError::Rollup(String::from_str("challenge window still open")));
        }
        let last = match self.rollups.get(rollup_id) {
            None => {
                return Err(StateError::Rollup(String::from_str("unknown rollup")));
            },
            Some(info) => info.last_batch,
        };
        let next_ok = if last == 0 { batch_index == 1 } else { last < u64::MAX && batch_index == last + 1 };
        if !next_ok {
            return Err(StateError::Rollup(String::from_str("batch not next")));
        }
        self.settle_rollup(rollup_id, batch_index, &pending.post_state_root);
        let mut p = pending;
        p.finalized = true;
        self.pending_rollups.insert(key, p);
        Ok(())
    }

    /// Marks an optimistic batch challenged when, inside its window, a
    /// certificate proves its claimed root wrong. `certificate` is the
    /// certificate as decoded by the caller, or the decoding error.
    pub(crate) fn apply_rollup_fraud(
        &mut self,
        rollup_id: &Hash256,
        batch_index: u64,
        certificate: &Result<crate::rollup::FraudCertificate, String>,
        gas_used: &mut u64,
    ) -> (r: Result<(), StateError>)
        requires
            *old(gas_used) + 80000 <= u64::MAX,
        ensures
            rollup_fraud_effect(*old(self), *final(self), *rollup_id, batch_index, *certificate, *old(gas_used), *final(gas_used), r),
    {
        *gas_used = *gas_used + 80000;
        let key = (*rollup_id, batch_index);
        let pending = match self.pending_rollups.get(&key) {
            None => {
                return Err(StateError::Rollup(String::from_str("no pending batch")));
            },
            Some(p) => *p,
        };
        if pending.finalized {
            return Err(StateError::Rollup(String::from_str("already finalized")));
        }
        let mature = self.height >= pending.submitted_height.saturating_add(pending.challenge_period);
        if mature {
            return Err(StateError::Rollup(String::from_str("challenge window closed")));
        }
        let cert = match certificate {
            Err(m) => {
                return Err(StateError::Rollup(String::from_str("bad fraud cert: ").concat(m.as_str())));
            },
            Ok(c) => c,
        };
        match verify_fraud_certificate(cert, &pending.post_state_root) {
            Ok(()) => {},
            Err(e) => {
                return Err(rollup_error(e));
            },
        }
        let mut p = pending;
        p.challenged = true;
        self.pending_rollups.insert(key, p);
        Ok(())
    }
}

/// The height at which a pending batch's challenge window ends: its
/// submission height plus its challenge period, capped at `u64::MAX`.
pub open spec fn window_end(p: PendingBatch) -> int {
    if p.submitted_height + p.challenge_period > u64::MAX {
        u64::MAX as int
    } else {
        p.submitted_height + p.challenge_period
    }
}

/// Law: a pending batch is finalized only once its challenge window, counted
/// from the height it was submitted at, has ended, only when unchallenged,
/// not yet finalized and next after the rollup's last batch; finalizing it
/// moves the rollup's last batch to it and its state root to the batch's
/// post-state root. Before the window ends finalizing fails and changes
/// nothing.
pub proof fn law_finalize_after_the_window(
    s_in: ChainState,
    s_out: ChainState,
    rollup_id: Hash256,
    batch_index: u64,
    gas_in: u64,
    gas_out: u64,
    r: Result<(), StateError>,
)
    requires
        rollup_finalize_effect(s_in, s_out, rollup_id, batch_index, gas_in, gas_out, r),
        s_in.pending_rollups@.contains_key((rollup_id@, batch_index)),
    ensures
        ({
            let p = s_in.pending_rollups@[(rollup_id@, batch_index)];
            &&& s_in.height < window_end(p) ==> r is Err && s_out == s_in
            &&& r is Ok ==> {
                &&& s_in.height >= window_end(p)
                &&& !p.finalized
                &&& !p.challenged
                &&& s_in.rollups@.contains_key(rollup_id@)
                &&& batch_index == s_in.rollups@[rollup_id@].last_batch + 1
                &&& s_out.rollups@[rollup_id@].last_batch == batch_index
                &&& s_out.rollups@[rollup_id@].state_root == p.post_state_root
                &&& s_out.pending_rollups@[(rollup_id@, batch_index)].finalized
            }
        }),
{
}

/// Law: a fraud certificate is taken against a pending batch only while its
/// challenge window, counted from the height it was submitted at, is open;
/// from the window's end on it is refused and nothing changes.
pub proof fn law_fraud_only_inside_the_window(
    s_in: ChainState,
    s_out: ChainState,
    rollup_id: Hash256,
    batch_index: u64,
    certificate: Result<crate::rollup::FraudCertificate, String>,
    gas_in: u64,
    gas_out: u64,
    r: Result<(), StateError>,
)
    requires
        rollup_fraud_effect(s_in, s_out, rollup_id, batch_index, certificate, gas_in, gas_out, r),
        s_in.pending_rollups@.contains_key((rollup_id@, batch_index)),
    ensures
        ({
            let p = s_in.pending_rollups@[(rollup_id@, batch_index)];
            &&& s_in.height >= window_end(p) ==> r is Err && s_out == s_in
            &&& r is Ok ==> s_in.height < window_end(p) && !p.finalized && s_out.pending_rollups@[(rollup_id@, batch_index)].challenged
        }),
{
}

/// Law (I8): a batch commit is accepted only from the rollup's sequencer,
/// only for the batch right after the rollup's last one (batch 1 first),
/// and, after the first, only on top of the rollup's current state root;
/// an accepted commit either settles at once, moving the last batch to it
/// and the state root to its post-state root, or waits as a pending batch
/// submitted at the current height.
pub proof fn law_commit_extends_the_sequence(
    s_in: ChainState,
    s_out: ChainState,
    sender: Address,
    rollup_id: Hash256,
    batch_index: u64,
    prev: Hash256,
    post: Hash256,
    da: Hash256,
    proof: Seq<u8>,
    decoded: DecodedProofs,
    global_vk: Option<Seq<u8>>,
    allow_noop: bool,
    gas_in: u64,
    gas_out: u64,
    r: Result<(), StateError>,
)
    requires
        rollup_commit_effect(s_in, s_out, sender, rollup_id, batch_index, prev, post, da, proof, decoded, global_vk, allow_noop, gas_in, gas_out, r),
        r is Ok,
    ensures
        s_in.rollups@.contains_key(rollup_id@),
        ({
            let info = s_in.rollups@[rollup_id@];
            &&& info.sequencer@ == sender@
            &&& batch_index == info.last_batch + 1
            &&& info.last_batch > 0 ==> prev == info.state_root
            &&& (s_out.rollups@[rollup_id@].last_batch == batch_index && s_out.rollups@[rollup_id@].state_root == post) || (
            s_out.rollups == s_in.rollups && s_out.pending_rollups@[(rollup_id@, batch_index)].submitted_height == s_in.height
                && !s_out.pending_rollups@[(rollup_id@, batch_index)].finalized)
        }),
{
}

} // verus!
