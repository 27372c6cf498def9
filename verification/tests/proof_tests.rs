use aether::field::hash_to_fr;
use aether::proofs::{decode_vk, verify_plonk_lite, verify_rollup_groth16, PlonkLiteProof};
use aether::rollup::RollupPublicInputs;
use aether::zk::ZkError;
use ark_bn254::{Fr, G1Affine, G1Projective};
use ark_ec::{CurveGroup, Group};
use ark_ff::PrimeField;
use ark_serialize::CanonicalSerialize;

fn ser<T: CanonicalSerialize>(v: &T) -> Vec<u8> {
    let mut out = Vec::new();
    v.serialize_compressed(&mut out).unwrap();
    out
}

/// A plonk-lite opening of `secret` for a batch, built as a prover would.
fn plonk_proof(prev: &[u8; 32], post: &[u8; 32], da: &[u8; 32], batch_index: u64, secret: u64) -> PlonkLiteProof {
    let g = G1Projective::generator();
    let s = Fr::from(secret);
    let commitment: G1Affine = (g * s).into_affine();
    let transcript = [prev.as_slice(), post.as_slice(), da.as_slice(), &batch_index.to_le_bytes()].concat();
    let challenge = Fr::from_le_bytes_mod_order(&hash_to_fr("AETH/PLONK/CHALLENGE", &transcript));
    let bind = Fr::from_le_bytes_mod_order(&hash_to_fr("AETH/PLONK/BIND", &transcript));
    let y = s + challenge * bind;
    let witness: G1Affine = (g * Fr::from(77u64)).into_affine();
    let commitment_bytes = ser(&commitment);
    let opening_bytes = ser(&y);
    let fs = [commitment_bytes.as_slice(), opening_bytes.as_slice(), transcript.as_slice()].concat();
    PlonkLiteProof {
        commitment: commitment_bytes,
        opening: opening_bytes,
        witness: ser(&witness),
        challenge: hash_to_fr("AETH/PLONK/FS", &fs),
    }
}

#[test]
fn plonk_lite_opening_verifies_for_its_batch_only() {
    let (prev, post, da) = ([1u8; 32], [2u8; 32], [3u8; 32]);
    let p = plonk_proof(&prev, &post, &da, 4, 1234);
    assert!(verify_plonk_lite(&p, &prev, &post, &da, 4).is_ok());
    // another batch index changes the transcript, so the challenge no longer matches
    assert!(matches!(verify_plonk_lite(&p, &prev, &post, &da, 5), Err(ZkError::VerifyFailed)));
    // an opening for a different secret than the committed one
    let mut q = plonk_proof(&prev, &post, &da, 4, 1234);
    let other = plonk_proof(&prev, &post, &da, 4, 999);
    q.commitment = other.commitment;
    assert!(verify_plonk_lite(&q, &prev, &post, &da, 4).is_err());
}

#[test]
fn plonk_lite_parts_must_decode() {
    let (prev, post, da) = ([1u8; 32], [2u8; 32], [3u8; 32]);
    let mut p = plonk_proof(&prev, &post, &da, 4, 1234);
    p.commitment = vec![0xff; 32];
    assert!(matches!(verify_plonk_lite(&p, &prev, &post, &da, 4), Err(ZkError::Serde(_))));
    let mut p = plonk_proof(&prev, &post, &da, 4, 1234);
    p.opening = vec![1, 2, 3];
    assert!(matches!(verify_plonk_lite(&p, &prev, &post, &da, 4), Err(ZkError::Serde(_))));
}

#[test]
fn garbage_keys_and_proofs_are_refused() {
    assert!(decode_vk(&[0u8; 5]).is_err());
    let inputs = RollupPublicInputs { prev_state_root: [0u8; 32], post_state_root: [1u8; 32], da_hash: [2u8; 32], batch_index: 1 };
    assert!(verify_rollup_groth16(&[0u8; 5], &[0u8; 5], &inputs).is_err());
}
