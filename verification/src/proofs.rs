//! Checking zero-knowledge proofs: Groth16 statements of the shielded pool
//! and of rollups, plonk-lite openings, and the rollup scheme dispatch.

use vstd::prelude::*;
use vstd::string::*;
use ark_serialize::CanonicalDeserialize;
use ark_snark::SNARK;
use crate::bytes::{append_bytes, hash_eq};
use crate::field::{fr_from_u64, fr_reduce, fr_sub, hash_fe, hash_to_fr, le_u64_padded, le_value, fe, fr_p, fsub, fmul, canonical};
use crate::rollup::{
    settle_outcome, verify_fraud_certificate, window_closed, FraudCertificate, PendingBatch, RollupPublicInputs, RollupScheme,
    RollupVerifyOutcome, honest_step,
};
use crate::crypto::{le_u64, tag};
use crate::types::Hash256;
use crate::zk::{is_rollup_error, ZkError};

verus! {

/// What checking a Groth16 proof over BN254 gives: the verifying key and
/// the proof are decoded from their compressed encodings, the public inputs
/// read as field elements, and the pairing check run.
pub uninterp spec fn groth16_outcome(vk: Seq<u8>, proof: Seq<u8>, inputs: Seq<[u8; 32]>) -> Result<bool, ZkError>;

/// Runs `Groth16::<Bn254>::verify` on a compressed verifying key, a
/// compressed proof and public inputs read with `from_le_bytes_mod_order`.
/// A decoding failure is a `Serde` error and a failure of the check itself a
/// `Synthesis` error, each with the crate's message; the contract names the
/// outcome and says nothing more of it.
#[verifier::external_body]
fn groth16_verify(vk: &[u8], proof: &[u8], inputs: &[[u8; 32]]) -> (r: Result<bool, ZkError>)
    ensures
        r == groth16_outcome(vk@, proof@, inputs@),
{
    let vk = ark_groth16::VerifyingKey::<ark_bn254::Bn254>::deserialize_compressed(vk).map_err(|e| ZkError::Serde(e.to_string()))?;
    let proof = ark_groth16::Proof::<ark_bn254::Bn254>::deserialize_compressed(proof).map_err(|e| ZkError::Serde(e.to_string()))?;
    let public: Vec<ark_bn254::Fr> = inputs.iter().map(|b| <ark_bn254::Fr as ark_ff::PrimeField>::from_le_bytes_mod_order(b)).collect();
    ark_groth16::Groth16::<ark_bn254::Bn254>::verify(&vk, &public, &proof).map_err(|e| ZkError::Synthesis(e.to_string()))
}

/// The error text of decoding a compressed Groth16 verifying key, if it
/// does not decode.
pub uninterp spec fn vk_decode_error(vk: Seq<u8>) -> Option<Seq<char>>;

/// Decodes a compressed `VerifyingKey<Bn254>` and keeps only whether it
/// decoded (and the crate's message when not).
#[verifier::external_body]
fn check_vk(vk: &[u8]) -> (r: Result<(), String>)
    ensures
        match vk_decode_error(vk@) {
            None => r is Ok,
            Some(m) => r matches Err(e) && e@ == m,
        },
{
    ark_groth16::VerifyingKey::<ark_bn254::Bn254>::deserialize_compressed(vk).map(|_| ()).map_err(|e| e.to_string())
}

/// The result of a Groth16 verification: `Ok` when the proof holds.
pub open spec fn groth16_verdict(vk: Seq<u8>, proof: Seq<u8>, inputs: Seq<[u8; 32]>) -> Result<(), ZkError> {
    match groth16_outcome(vk, proof, inputs) {
        Ok(true) => Ok(()),
        Ok(false) => Err(ZkError::VerifyFailed),
        Err(e) => Err(e),
    }
}

fn groth16_check(vk: &[u8], proof: &[u8], inputs: &[[u8; 32]]) -> (r: Result<(), ZkError>)
    ensures
        r == groth16_verdict(vk@, proof@, inputs@),
{
    match groth16_verify(vk, proof, inputs) {
        Ok(true) => Ok(()),
        Ok(false) => Err(ZkError::VerifyFailed),
        Err(e) => Err(e),
    }
}

/// The shielded circuits' verifying keys, compressed.
pub struct ShieldedVerifyingKey {
    pub transfer: Vec<u8>,
    pub shield: Vec<u8>,
    pub unshield: Vec<u8>,
}

/// Verifying keys of the shielded pool and of rollups, compressed.
pub struct ZkVerifyingKeys {
    pub shielded: ShieldedVerifyingKey,
    pub rollup: Vec<u8>,
}

#[derive(Clone, Copy, Debug)]
pub struct ShieldPublicInputs {
    pub commitment: Hash256,
    pub value: u64,
}

#[derive(Clone, Copy, Debug)]
pub struct TransferPublicInputs {
    pub anchor: Hash256,
    pub nullifier: Hash256,
    pub cm_out: Hash256,
    pub fee: u64,
}

#[derive(Clone, Copy, Debug)]
pub struct UnshieldPublicInputs {
    pub anchor: Hash256,
    pub nullifier: Hash256,
    pub value: u64,
}

/// A `u64` public input as a field element encoding.
pub open spec fn u64_input(v: u64) -> [u8; 32] {
    choose|b: [u8; 32]| b@ == le_u64_padded(v)
}

proof fn lemma_u64_input(v: u64, b: [u8; 32])
    requires
        b@ == le_u64_padded(v),
    ensures
        u64_input(v) == b,
{
    let c = u64_input(v);
    assert(c@ == le_u64_padded(v));
    assert(c =~= b);
}

/// Public inputs of the shield statement: the commitment and the value.
pub open spec fn shield_inputs(p: ShieldPublicInputs) -> Seq<[u8; 32]> {
    seq![p.commitment, u64_input(p.value)]
}

pub open spec fn transfer_inputs(p: TransferPublicInputs) -> Seq<[u8; 32]> {
    seq![p.anchor, p.nullifier, p.cm_out, u64_input(p.fee)]
}

pub open spec fn unshield_inputs(p: UnshieldPublicInputs) -> Seq<[u8; 32]> {
    seq![p.anchor, p.nullifier, u64_input(p.value)]
}

pub open spec fn rollup_inputs(p: RollupPublicInputs) -> Seq<[u8; 32]> {
    seq![p.prev_state_root, p.post_state_root, p.da_hash, u64_input(p.batch_index)]
}

/// Checks a shield proof: a note of `value` committed to `commitment`.
pub fn verify_shield(vk: &ShieldedVerifyingKey, proof: &[u8], publics: &ShieldPublicInputs) -> (r: Result<(), ZkError>)
    ensures
        r == groth16_verdict(vk.shield@, proof@, shield_inputs(*publics)),
{
    let v = fr_from_u64(publics.value);
    proof {
        lemma_u64_input(publics.value, v);
    }
    let inputs = [publics.commitment, v];
    assert(inputs@ =~= shield_inputs(*publics));
    groth16_check(vk.shield.as_slice(), proof, inputs.as_slice())
}

/// Checks a 1-in 1-out transfer proof.
pub fn verify_transfer(vk: &ShieldedVerifyingKey, proof: &[u8], publics: &TransferPublicInputs) -> (r: Result<(), ZkError>)
    ensures
        r == groth16_verdict(vk.transfer@, proof@, transfer_inputs(*publics)),
{
    let f = fr_from_u64(publics.fee);
    proof {
        lemma_u64_input(publics.fee, f);
    }
    let inputs = [publics.anchor, publics.nullifier, publics.cm_out, f];
    assert(inputs@ =~= transfer_inputs(*publics));
    groth16_check(vk.transfer.as_slice(), proof, inputs.as_slice())
}

/// Checks an unshield proof.
pub fn verify_unshield(vk: &ShieldedVerifyingKey, proof: &[u8], publics: &UnshieldPublicInputs) -> (r: Result<(), ZkError>)
    ensures
        r == groth16_verdict(vk.unshield@, proof@, unshield_inputs(*publics)),
{
    let v = fr_from_u64(publics.value);
    proof {
        lemma_u64_input(publics.value, v);
    }
    let inputs = [publics.anchor, publics.nullifier, v];
    assert(inputs@ =~= unshield_inputs(*publics));
    groth16_check(vk.unshield.as_slice(), proof, inputs.as_slice())
}

/// Checks a rollup validity proof (scheme 0x01).
pub fn verify_rollup_groth16(vk: &[u8], proof: &[u8], inputs: &RollupPublicInputs) -> (r: Result<(), ZkError>)
    ensures
        r == groth16_verdict(vk@, proof@, rollup_inputs(*inputs)),
{
    let b = fr_from_u64(inputs.batch_index);
    proof {
        lemma_u64_input(inputs.batch_index, b);
    }
    let public = [inputs.prev_state_root, inputs.post_state_root, inputs.da_hash, b];
    assert(public@ =~= rollup_inputs(*inputs));
    groth16_check(vk, proof, public.as_slice())
}

/// Whether a compressed verifying key decodes; the crate's message if not.
pub fn decode_vk(vk: &[u8]) -> (r: Result<(), String>)
    ensures
        match vk_decode_error(vk@) {
            None => r is Ok,
            Some(m) => r matches Err(e) && e@ == m,
        },
{
    check_vk(vk)
}

/// A plonk-lite proof: a G1 commitment, the opening `y`, an opening
/// witness and the Fiat–Shamir challenge.
#[derive(Clone, Debug)]
pub struct PlonkLiteProof {
    pub commitment: Vec<u8>,
    pub opening: Vec<u8>,
    pub witness: Vec<u8>,
    pub challenge: Hash256,
}

/// What decoding the parts of a plonk-lite proof gives: the opening `y` as
/// a canonical field element, or the first decoding error (commitment,
/// then opening, then witness).
pub uninterp spec fn plonk_parts(commitment: Seq<u8>, opening: Seq<u8>, witness: Seq<u8>) -> Result<[u8; 32], ZkError>;

/// Decodes the commitment and the witness as compressed `G1Affine` points
/// and the opening as a compressed `Fr`, in that order, returning the
/// opening's canonical encoding; a failure is a `Serde` error with the
/// crate's message. The contract names the outcome.
#[verifier::external_body]
fn decode_plonk_parts(commitment: &[u8], opening: &[u8], witness: &[u8]) -> (r: Result<[u8; 32], ZkError>)
    ensures
        r == plonk_parts(commitment@, opening@, witness@),
{
    let _c = ark_bn254::G1Affine::deserialize_compressed(commitment).map_err(|e| ZkError::Serde(e.to_string()))?;
    let y = ark_bn254::Fr::deserialize_compressed(opening).map_err(|e| ZkError::Serde(e.to_string()))?;
    let _w = ark_bn254::G1Affine::deserialize_compressed(witness).map_err(|e| ZkError::Serde(e.to_string()))?;
    let v = ark_ff::BigInteger::to_bytes_le(&ark_ff::PrimeField::into_bigint(y));
    let mut out = [0u8; 32];
    out.copy_from_slice(&v);
    Ok(out)
}

/// Whether a compressed G1 point is `s` times the group generator.
pub uninterp spec fn is_generator_multiple(point: Seq<u8>, s: [u8; 32]) -> bool;

/// Decodes `point` (compressed `G1Affine`, already known to decode) and
/// compares it with `s · G` for the generator `G` of `G1Projective`; a
/// point that does not decode counts as no match. The contract names the
/// outcome.
#[verifier::external_body]
fn generator_multiple(point: &[u8], s: &[u8; 32]) -> (r: bool)
    ensures
        r == is_generator_multiple(point@, *s),
{
    let expect = ark_ec::CurveGroup::into_affine(
        <ark_bn254::G1Projective as ark_ec::Group>::generator() * <ark_bn254::Fr as ark_ff::PrimeField>::from_le_bytes_mod_order(s),
    );
    match ark_bn254::G1Affine::deserialize_compressed(point) {
        Ok(c) => c == expect,
        Err(_) => false,
    }
}

/// The transcript of a batch: `prev || post || da || index`.
pub open spec fn plonk_transcript(prev: Seq<u8>, post: Seq<u8>, da: Seq<u8>, batch_index: u64) -> Seq<u8> {
    prev + post + da + le_u64(batch_index)
}

/// What checking a plonk-lite proof for a batch gives.
pub open spec fn spec_verify_plonk_lite(p: PlonkLiteProof, prev: Seq<u8>, post: Seq<u8>, da: Seq<u8>, batch_index: u64) -> Result<
    (),
    ZkError,
> {
    let t = plonk_transcript(prev, post, da, batch_index);
    match plonk_parts(p.commitment@, p.opening@, p.witness@) {
        Err(e) => Err(e),
        Ok(y) => {
            let expected = hash_fe(tag("AETH/PLONK/FS"), p.commitment@ + p.opening@ + t);
            if le_value(p.challenge@) != expected {
                Err(ZkError::VerifyFailed)
            } else {
                let bind = hash_fe(tag("AETH/PLONK/BIND"), t);
                let challenge = hash_fe(tag("AETH/PLONK/CHALLENGE"), t);
                let claim = fsub(fe(y), fmul(challenge, bind));
                if exists|s: [u8; 32]| le_value(s@) == claim && is_generator_multiple(p.commitment@, s) {
                    Ok(())
                } else {
                    Err(ZkError::VerifyFailed)
                }
            }
        },
    }
}

/// Multiplication of canonical elements, exposed for the proof checker.
fn mul_fe(a: &[u8; 32], b: &[u8; 32]) -> (r: [u8; 32])
    requires
        canonical(*a),
        canonical(*b),
    ensures
        le_value(r@) == fmul(le_value(a@), le_value(b@)),
        canonical(r),
{
    let x = crate::field::fr_mul(a, b);
    proof {
        crate::field::lemma_canonical_fe(*a);
        crate::field::lemma_canonical_fe(*b);
    }
    x
}

/// Checks a plonk-lite opening against a batch's public inputs.
pub fn verify_plonk_lite(proof: &PlonkLiteProof, prev: &Hash256, post: &Hash256, da: &Hash256, batch_index: u64) -> (r: Result<
    (),
    ZkError,
>)
    ensures
        r == spec_verify_plonk_lite(*proof, prev@, post@, da@, batch_index),
{
    let y = match decode_plonk_parts(proof.commitment.as_slice(), proof.opening.as_slice(), proof.witness.as_slice()) {
        Err(e) => {
            return Err(e);
        },
        Ok(y) => y,
    };
    let mut transcript: Vec<u8> = Vec::new();
    append_bytes(&mut transcript, prev.as_slice());
    append_bytes(&mut transcript, post.as_slice());
    append_bytes(&mut transcript, da.as_slice());
    let ib = vstd::bytes::u64_to_le_bytes(batch_index);
    append_bytes(&mut transcript, ib.as_slice());
    let ghost t = plonk_transcript(prev@, post@, da@, batch_index);
    assert(transcript@ =~= t);
    let mut chal_buf: Vec<u8> = Vec::new();
    append_bytes(&mut chal_buf, proof.commitment.as_slice());
    append_bytes(&mut chal_buf, proof.opening.as_slice());
    append_bytes(&mut chal_buf, transcript.as_slice());
    let expected = hash_to_fr("AETH/PLONK/FS", chal_buf.as_slice());
    if !hash_eq(&expected, &proof.challenge) {
        proof {
            if le_value(proof.challenge@) == le_value(expected@) {
                crate::field::lemma_le_value_injective(proof.challenge@, expected@);
                assert(proof.challenge =~= expected);
            }
        }
        return Err(ZkError::VerifyFailed);
    }
    let bind = hash_to_fr("AETH/PLONK/BIND", transcript.as_slice());
    let challenge = hash_to_fr("AETH/PLONK/CHALLENGE", transcript.as_slice());
    let cb = mul_fe(&challenge, &bind);
    let claim = fr_sub(&y, &cb);
    proof {
        crate::field::lemma_canonical_fe(cb);
    }
    if !generator_multiple(proof.commitment.as_slice(), &claim) {
        proof {
            let claim_v = fsub(fe(y), fmul(le_value(challenge@), le_value(bind@)));
            if exists|s: [u8; 32]| le_value(s@) == claim_v && is_generator_multiple(proof.commitment@, s) {
                let s = choose|s: [u8; 32]| le_value(s@) == claim_v && is_generator_multiple(proof.commitment@, s);
                crate::field::lemma_le_value_injective(s@, claim@);
                assert(s =~= claim);
            }
        }
        return Err(ZkError::VerifyFailed);
    }
    Ok(())
}

/// Inputs that decoding a submitted proof needs, decoded by the caller from
/// the proof bytes: a plonk-lite proof and a fraud certificate.
pub struct DecodedProofs {
    pub plonk: Result<PlonkLiteProof, String>,
    pub fraud: Result<FraudCertificate, String>,
}

/// Runs the check of a rollup's scheme on a submitted batch, then settles
/// an unchallenged optimistic submission whose window has passed.
/// `allow_noop` says whether the insecure no-op scheme is enabled.
pub fn verify_rollup(
    scheme: RollupScheme,
    vk: Option<&[u8]>,
    proof: &[u8],
    inputs: &RollupPublicInputs,
    decoded: &DecodedProofs,
    allow_noop: bool,
    pending: Option<&PendingBatch>,
    current_height: u64,
) -> (r: Result<RollupVerifyOutcome, ZkError>)
    ensures
        scheme == RollupScheme::Groth16 ==> match vk {
            None => is_rollup_error(r, "missing groth16 vk"@),
            Some(k) => match groth16_verdict(k@, proof@, rollup_inputs(*inputs)) {
                Ok(()) => r == Ok::<RollupVerifyOutcome, ZkError>(RollupVerifyOutcome::Final),
                Err(e) => r == Err::<RollupVerifyOutcome, ZkError>(e),
            },
        },
        scheme == RollupScheme::PlonkLite ==> match decoded.plonk {
            Err(m) => r matches Err(ZkError::Serde(x)) && x@ == m@,
            Ok(p) => match spec_verify_plonk_lite(p, inputs.prev_state_root@, inputs.post_state_root@, inputs.da_hash@, inputs.batch_index) {
                Ok(()) => r == Ok::<RollupVerifyOutcome, ZkError>(RollupVerifyOutcome::Final),
                Err(e) => r == Err::<RollupVerifyOutcome, ZkError>(e),
            },
        },
        scheme == RollupScheme::FraudProof && proof@.len() == 0 ==> r == Ok::<RollupVerifyOutcome, ZkError>(
            match pending {
                Some(p) => if window_closed(*p, current_height) && !p.challenged {
                    RollupVerifyOutcome::Final
                } else {
                    RollupVerifyOutcome::Pending
                },
                None => RollupVerifyOutcome::Pending,
            },
        ),
        scheme == RollupScheme::FraudProof && proof@.len() > 0 ==> match decoded.fraud {
            Err(m) => r matches Err(ZkError::Serde(x)) && x@ == m@,
            Ok(c) => (r is Ok <==> (c.claim_post == inputs.post_state_root && honest_step(c) == c.post_state@ && honest_step(c)
                != c.claim_post@)) && (r is Ok ==> r == Ok::<RollupVerifyOutcome, ZkError>(RollupVerifyOutcome::FraudProven)),
        },
        scheme == RollupScheme::Noop ==> (allow_noop ==> r == Ok::<RollupVerifyOutcome, ZkError>(RollupVerifyOutcome::Final)),
        scheme == RollupScheme::Noop ==> (!allow_noop ==> r == Err::<RollupVerifyOutcome, ZkError>(ZkError::NoopDisabled)),
{
    let outcome = match scheme {
        RollupScheme::Groth16 => {
            match vk {
                None => {
                    return Err(ZkError::Rollup(String::from_str("missing groth16 vk")));
                },
                Some(k) => {
                    match verify_rollup_groth16(k, proof, inputs) {
                        Ok(()) => RollupVerifyOutcome::Final,
                        Err(e) => {
                            return Err(e);
                        },
                    }
                },
            }
        },
        RollupScheme::PlonkLite => {
            match &decoded.plonk {
                Err(m) => {
                    return Err(ZkError::Serde(m.clone()));
                },
                Ok(p) => {
                    match verify_plonk_lite(p, &inputs.prev_state_root, &inputs.post_state_root, &inputs.da_hash, inputs.batch_index) {
                        Ok(()) => RollupVerifyOutcome::Final,
                        Err(e) => {
                            return Err(e);
                        },
                    }
                },
            }
        },
        RollupScheme::FraudProof => {
            if proof.len() == 0 {
                RollupVerifyOutcome::Pending
            } else {
                match &decoded.fraud {
                    Err(m) => {
                        return Err(ZkError::Serde(m.clone()));
                    },
                    Ok(c) => {
                        match verify_fraud_certificate(c, &inputs.post_state_root) {
                            Ok(()) => RollupVerifyOutcome::FraudProven,
                            Err(e) => {
                                return Err(e);
                            },
                        }
                    },
                }
            }
        },
        RollupScheme::Noop => {
            if !allow_noop {
                return Err(ZkError::NoopDisabled);
            }
            RollupVerifyOutcome::Final
        },
    };
    Ok(settle_outcome(scheme, outcome, pending, current_height))
}

} // verus!
