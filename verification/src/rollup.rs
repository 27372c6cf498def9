//! Rollup settlement: schemes, optimistic batches and fraud certificates.

use vstd::prelude::*;
use vstd::string::*;
use crate::bytes::{append_bytes, hash_eq};
use crate::crypto::{le_u64, spec_tagged_hash, tag, tagged_hash};
use crate::text::{hex_u8_string, spec_hex_u8};
use crate::field::{canonical, fadd, fe, fmul, fr_add, fr_from_bytes, fr_from_u64, fr_mul, fr_p, hash_fe, hash_to_fr, le_value, lemma_canonical_fe};
use crate::types::Hash256;
use crate::zk::{is_rollup_error, ZkError};

verus! {

#[derive(Clone, Copy, Debug, PartialEq, Eq, Structural)]
pub enum RollupScheme {
    Groth16,
    PlonkLite,
    FraudProof,
    Noop,
}

impl RollupScheme {
    /// The scheme's id byte.
    pub fn id(&self) -> (b: u8)
        ensures
            b == match *self {
                RollupScheme::Groth16 => 0x01u8,
                RollupScheme::PlonkLite => 0x02u8,
                RollupScheme::FraudProof => 0x03u8,
                RollupScheme::Noop => 0xFFu8,
            },
    {
        match self {
            RollupScheme::Groth16 => 0x01,
            RollupScheme::PlonkLite => 0x02,
            RollupScheme::FraudProof => 0x03,
            RollupScheme::Noop => 0xFF,
        }
    }

    pub fn from_u8(v: u8) -> (r: Result<Self, ZkError>)
        ensures
            v == 0x01 ==> r == Ok::<Self, ZkError>(RollupScheme::Groth16),
            v == 0x02 ==> r == Ok::<Self, ZkError>(RollupScheme::PlonkLite),
            v == 0x03 ==> r == Ok::<Self, ZkError>(RollupScheme::FraudProof),
            v == 0xFF ==> r == Ok::<Self, ZkError>(RollupScheme::Noop),
            !(v == 0x01 || v == 0x02 || v == 0x03 || v == 0xFF) ==> is_rollup_error(r, "unknown scheme 0x"@ + spec_hex_u8(v)),
    {
        if v == 0x01 {
            Ok(RollupScheme::Groth16)
        } else if v == 0x02 {
            Ok(RollupScheme::PlonkLite)
        } else if v == 0x03 {
            Ok(RollupScheme::FraudProof)
        } else if v == 0xFF {
            Ok(RollupScheme::Noop)
        } else {
            Err(ZkError::Rollup(String::from_str("unknown scheme 0x").concat(hex_u8_string(v).as_str())))
        }
    }
}

#[derive(Clone, Copy, Debug)]
pub struct RollupPublicInputs {
    pub prev_state_root: Hash256,
    pub post_state_root: Hash256,
    pub da_hash: Hash256,
    pub batch_index: u64,
}

/// Optimistic batch awaiting challenge window (scheme 0x03).
#[derive(Clone, Copy, Debug)]
pub struct PendingBatch {
    pub rollup_id: Hash256,
    pub batch_index: u64,
    pub prev_state_root: Hash256,
    pub post_state_root: Hash256,
    pub da_hash: Hash256,
    pub submitted_height: u64,
    pub challenge_period: u64,
    pub challenged: bool,
    pub finalized: bool,
}

#[derive(Clone, Debug)]
pub struct FraudCertificate {
    /// Index of the diverging step inside the batch.
    pub step: u64,
    pub pre_state: Hash256,
    pub post_state: Hash256,
    pub claim_post: Hash256,
    pub step_preimage: Vec<u8>,
}

#[derive(Clone, Copy, Debug, PartialEq, Eq, Structural)]
pub enum RollupVerifyOutcome {
    Final,
    Pending,
    FraudProven,
}

/// The honest result of one step: `H(pre || step || preimage)`.
pub open spec fn honest_step(cert: FraudCertificate) -> Seq<u8> {
    spec_tagged_hash(tag("AETH/FRAUD/STEP"), cert.pre_state@ + le_u64(cert.step) + cert.step_preimage@)
}

/// A certificate proves fraud against `claimed_post` when it is about that
/// claim, its step recomputes to its `post_state`, and that differs from the
/// claim.
pub fn verify_fraud_certificate(cert: &FraudCertificate, claimed_post: &Hash256) -> (r: Result<(), ZkError>)
    ensures
        cert.claim_post != *claimed_post ==> is_rollup_error(r, "fraud claim_post mismatch"@),
        cert.claim_post == *claimed_post && honest_step(*cert) != cert.post_state@ ==> is_rollup_error(r, "fraud certificate self-inconsistent"@),
        cert.claim_post == *claimed_post && honest_step(*cert) == cert.post_state@ && honest_step(*cert)
            == cert.claim_post@ ==> is_rollup_error(r, "fraud certificate does not show divergence"@),
        r is Ok <==> (cert.claim_post == *claimed_post && honest_step(*cert) == cert.post_state@ && honest_step(*cert)
            != cert.claim_post@),
{
    if !hash_eq(&cert.claim_post, claimed_post) {
        return Err(ZkError::Rollup(String::from_str("fraud claim_post mismatch")));
    }
    let mut buf: Vec<u8> = Vec::new();
    append_bytes(&mut buf, cert.pre_state.as_slice());
    let sb = vstd::bytes::u64_to_le_bytes(cert.step);
    append_bytes(&mut buf, sb.as_slice());
    append_bytes(&mut buf, cert.step_preimage.as_slice());
    assert(buf@ =~= cert.pre_state@ + le_u64(cert.step) + cert.step_preimage@);
    let honest = tagged_hash("AETH/FRAUD/STEP", buf.as_slice());
    if !hash_eq(&honest, &cert.post_state) {
        proof {
            if honest@ == cert.post_state@ {
                assert(honest =~= cert.post_state);
            }
        }
        return Err(ZkError::Rollup(String::from_str("fraud certificate self-inconsistent")));
    }
    if hash_eq(&honest, &cert.claim_post) {
        return Err(ZkError::Rollup(String::from_str("fraud certificate does not show divergence")));
    }
    Ok(())
}

/// Whether an optimistic batch's challenge window has passed at `height`.
pub open spec fn window_closed(p: PendingBatch, height: u64) -> bool {
    height >= p.submitted_height.saturating_add(p.challenge_period)
}

/// After a scheme's check: an unchallenged optimistic submission whose
/// window has passed is final; every other outcome stays as it is.
pub fn settle_outcome(
    scheme: RollupScheme,
    outcome: RollupVerifyOutcome,
    pending: Option<&PendingBatch>,
    current_height: u64,
) -> (r: RollupVerifyOutcome)
    ensures
        r == match pending {
            Some(p) => if scheme == RollupScheme::FraudProof && outcome == RollupVerifyOutcome::Pending
                && window_closed(*p, current_height) && !p.challenged {
                RollupVerifyOutcome::Final
            } else {
                outcome
            },
            None => outcome,
        },
{
    match pending {
        Some(p) => {
            if scheme == RollupScheme::FraudProof && outcome == RollupVerifyOutcome::Pending {
                let mature = current_height >= p.submitted_height.saturating_add(p.challenge_period);
                if mature && !p.challenged {
                    return RollupVerifyOutcome::Final;
                }
            }
            outcome
        },
        None => outcome,
    }
}

/// The witness binding a valid transition: `H_WIT(prev || da || batch ||
/// secret)` read as a field element.
pub open spec fn spec_transition_witness(prev: Seq<u8>, da: Seq<u8>, batch_index: u64, secret: Seq<u8>) -> nat {
    hash_fe(tag("AETH/ROLLUP/WIT"), prev + da + le_u64(batch_index) + secret)
}

/// The witness binding of a transition, as a field element.
pub fn transition_witness(prev: &Hash256, da: &Hash256, batch_index: u64, secret: &[u8; 32]) -> (w: [u8; 32])
    ensures
        le_value(w@) == spec_transition_witness(prev@, da@, batch_index, secret@),
        canonical(w),
{
    let mut buf: Vec<u8> = Vec::new();
    append_bytes(&mut buf, prev.as_slice());
    append_bytes(&mut buf, da.as_slice());
    let bb = vstd::bytes::u64_to_le_bytes(batch_index);
    append_bytes(&mut buf, bb.as_slice());
    append_bytes(&mut buf, secret.as_slice());
    proof {
        assert(buf@ =~= prev@ + da@ + le_u64(batch_index) + secret@);
    }
    hash_to_fr("AETH/ROLLUP/WIT", buf.as_slice())
}

/// One of the rollup circuit's fixed generators.
pub open spec fn rollup_generator(t: Seq<u8>) -> nat {
    hash_fe(t, Seq::empty())
}

/// The post-state root that a valid transition commits to:
/// `prev + da·G1 + batch·G2 + witness·G3` over the scalar field.
pub open spec fn spec_valid_post_root(prev: [u8; 32], da: [u8; 32], batch_index: u64, secret: [u8; 32]) -> nat {
    fadd(
        fadd(fadd(fe(prev), fmul(fe(da), rollup_generator(tag("AETH/ROLLUP/G1")))), fmul(batch_index as nat, rollup_generator(tag("AETH/ROLLUP/G2")))),
        fmul(spec_transition_witness(prev@, da@, batch_index, secret@), rollup_generator(tag("AETH/ROLLUP/G3"))),
    )
}

/// The post-state root of a valid transition from `prev` with data
/// `da` at `batch_index`, for the sequencer's `secret`.
pub fn compute_valid_post_root(prev: &Hash256, da: &Hash256, batch_index: u64, secret: &[u8; 32]) -> (r: Hash256)
    ensures
        le_value(r@) == spec_valid_post_root(*prev, *da, batch_index, *secret),
        canonical(r),
{
    let wit = transition_witness(prev, da, batch_index, secret);
    let empty: Vec<u8> = Vec::new();
    let g1 = hash_to_fr("AETH/ROLLUP/G1", empty.as_slice());
    let g2 = hash_to_fr("AETH/ROLLUP/G2", empty.as_slice());
    let g3 = hash_to_fr("AETH/ROLLUP/G3", empty.as_slice());
    let batch = fr_from_u64(batch_index);
    let prev_f = fr_from_bytes(prev);
    let da_f = fr_from_bytes(da);
    let t1 = fr_mul(&da_f, &g1);
    let s1 = fr_add(&prev_f, &t1);
    let t2 = fr_mul(&batch, &g2);
    let s2 = fr_add(&s1, &t2);
    let t3 = fr_mul(&wit, &g3);
    let s3 = fr_add(&s2, &t3);
    proof {
        assert(empty@ =~= Seq::<u8>::empty());
        lemma_canonical_fe(g1);
        lemma_canonical_fe(g2);
        lemma_canonical_fe(g3);
        lemma_canonical_fe(wit);
        lemma_canonical_fe(batch);
        lemma_canonical_fe(prev_f);
        lemma_canonical_fe(da_f);
        assert(fe(prev_f) == fe(*prev)) by {
            vstd::arithmetic::div_mod::lemma_mod_twice(le_value(prev@) as int, fr_p() as int);
        }
        assert(fe(da_f) == fe(*da)) by {
            vstd::arithmetic::div_mod::lemma_mod_twice(le_value(da@) as int, fr_p() as int);
        }
        assert(canonical(t1) && canonical(s1) && canonical(t2) && canonical(s2) && canonical(t3) && canonical(s3)) by {
            vstd::arithmetic::div_mod::lemma_mod_bound((fe(da_f) * fe(g1)) as int, fr_p() as int);
        }
        lemma_canonical_fe(t1);
        lemma_canonical_fe(s1);
        lemma_canonical_fe(t2);
        lemma_canonical_fe(s2);
        lemma_canonical_fe(t3);
    }
    s3
}

} // verus!
