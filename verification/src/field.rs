//! The BN254 scalar field and the Poseidon-style permutation over it.
//!
//! A field element travels as its canonical 32-byte little-endian encoding.
//! Round constants and the mixing matrix are derived from tagged BLAKE3
//! hashes, so the same permutation is used inside and outside circuits.

use vstd::prelude::*;
use vstd::string::*;
use ark_ff::{BigInteger, PrimeField};
use crate::crypto::{le_u64, spec_tagged_hash, tag, tagged_hash};
use crate::types::Hash256;

verus! {

/// The order of the BN254 scalar field.
pub open spec fn fr_p() -> nat {
    21888242871839275222246405745257275088548364400416034343698204186575808495617nat
}

/// The integer that little-endian bytes denote.
pub open spec fn le_value(b: Seq<u8>) -> nat
    decreases b.len(),
{
    if b.len() == 0 {
        0
    } else {
        b[0] as nat + 256 * le_value(b.subrange(1, b.len() as int))
    }
}

/// The field element that an encoding denotes (reduced).
pub open spec fn fe(b: [u8; 32]) -> nat {
    le_value(b@) % fr_p()
}

/// An encoding in canonical form.
pub open spec fn canonical(b: [u8; 32]) -> bool {
    le_value(b@) < fr_p()
}

pub open spec fn fadd(a: nat, b: nat) -> nat {
    (a + b) % fr_p()
}

pub open spec fn fmul(a: nat, b: nat) -> nat {
    (a * b) % fr_p()
}

pub open spec fn fsub(a: nat, b: nat) -> nat {
    ((a - b) % (fr_p() as int)) as nat
}

/// A tagged hash read as a field element.
pub open spec fn hash_fe(t: Seq<u8>, data: Seq<u8>) -> nat {
    le_value(spec_tagged_hash(t, data)) % fr_p()
}

/// Reads little-endian bytes as a field element, reducing modulo the
/// field order (`PrimeField::from_le_bytes_mod_order`), and writes it back
/// in canonical form.
#[verifier::external_body]
pub(crate) fn fr_reduce(bytes: &[u8]) -> (r: [u8; 32])
    ensures
        le_value(r@) == le_value(bytes@) % fr_p(),
{
    let v = ark_bn254::Fr::from_le_bytes_mod_order(bytes).into_bigint().to_bytes_le();
    let mut out = [0u8; 32];
    out.copy_from_slice(&v);
    out
}

/// Field addition (`Add` on `ark_bn254::Fr`).
#[verifier::external_body]
pub(crate) fn fr_add(a: &[u8; 32], b: &[u8; 32]) -> (r: [u8; 32])
    ensures
        le_value(r@) == fadd(fe(*a), fe(*b)),
{
    let s = ark_bn254::Fr::from_le_bytes_mod_order(a) + ark_bn254::Fr::from_le_bytes_mod_order(b);
    let v = s.into_bigint().to_bytes_le();
    let mut out = [0u8; 32];
    out.copy_from_slice(&v);
    out
}

/// Field multiplication (`Mul` on `ark_bn254::Fr`).
#[verifier::external_body]
pub(crate) fn fr_mul(a: &[u8; 32], b: &[u8; 32]) -> (r: [u8; 32])
    ensures
        le_value(r@) == fmul(fe(*a), fe(*b)),
{
    let s = ark_bn254::Fr::from_le_bytes_mod_order(a) * ark_bn254::Fr::from_le_bytes_mod_order(b);
    let v = s.into_bigint().to_bytes_le();
    let mut out = [0u8; 32];
    out.copy_from_slice(&v);
    out
}

/// Field subtraction (`Sub` on `ark_bn254::Fr`).
#[verifier::external_body]
pub(crate) fn fr_sub(a: &[u8; 32], b: &[u8; 32]) -> (r: [u8; 32])
    ensures
        le_value(r@) == fsub(fe(*a), fe(*b)),
{
    let s = ark_bn254::Fr::from_le_bytes_mod_order(a) - ark_bn254::Fr::from_le_bytes_mod_order(b);
    let v = s.into_bigint().to_bytes_le();
    let mut out = [0u8; 32];
    out.copy_from_slice(&v);
    out
}

pub proof fn lemma_canonical_fe(b: [u8; 32])
    requires
        canonical(b),
    ensures
        fe(b) == le_value(b@),
{
    vstd::arithmetic::div_mod::lemma_small_mod(le_value(b@), fr_p());
}

pub proof fn lemma_le_value_zero(b: Seq<u8>)
    requires
        forall|i: int| 0 <= i < b.len() ==> b[i] == 0,
    ensures
        le_value(b) == 0,
    decreases b.len(),
{
    if b.len() > 0 {
        lemma_le_value_zero(b.subrange(1, b.len() as int));
    }
}

/// Bytes whose first eight hold `v` and the rest zero: `v` as an element.
pub open spec fn le_u64_padded(v: u64) -> Seq<u8> {
    le_u64(v) + Seq::new(24, |_i: int| 0u8)
}

pub proof fn lemma_le_value_append_zeros(a: Seq<u8>, n: nat)
    ensures
        le_value(a + Seq::new(n, |_i: int| 0u8)) == le_value(a),
    decreases a.len(),
{
    let z = Seq::new(n, |_i: int| 0u8);
    if a.len() == 0 {
        assert(a + z =~= z);
        lemma_le_value_zero(z);
    } else {
        let rest = a.subrange(1, a.len() as int);
        lemma_le_value_append_zeros(rest, n);
        assert((a + z).subrange(1, (a + z).len() as int) =~= rest + z);
    }
}

/// `u64` values are below the field order.
pub proof fn lemma_le_u64_small(v: u64)
    ensures
        le_value(le_u64_padded(v)) == v,
        le_value(le_u64_padded(v)) < fr_p(),
{
    lemma_le_value_append_zeros(le_u64(v), 24);
    lemma_le_u64_value(v);
}

proof fn lemma_le_u64_value(v: u64)
    ensures
        le_value(le_u64(v)) == v,
{
    let b = le_u64(v);
    vstd::bytes::spec_u64_to_le_bytes_to_open(v);
    assert(b.len() == 8);
    assert(le_value(b) == b[0] as nat + 256 * (b[1] as nat + 256 * (b[2] as nat + 256 * (b[3] as nat + 256 * (b[4] as nat + 256 * (
    b[5] as nat + 256 * (b[6] as nat + 256 * (b[7] as nat)))))))) by {
        reveal_with_fuel(le_value, 9);
        assert(b.subrange(1, 8).subrange(1, 7) =~= b.subrange(2, 8));
        assert(b.subrange(2, 8).subrange(1, 6) =~= b.subrange(3, 8));
        assert(b.subrange(3, 8).subrange(1, 5) =~= b.subrange(4, 8));
        assert(b.subrange(4, 8).subrange(1, 4) =~= b.subrange(5, 8));
        assert(b.subrange(5, 8).subrange(1, 3) =~= b.subrange(6, 8));
        assert(b.subrange(6, 8).subrange(1, 2) =~= b.subrange(7, 8));
        assert(b.subrange(7, 8).subrange(1, 1) =~= Seq::<u8>::empty());
    }
    assert((v & 0xff) < 256 && ((v >> 8) & 0xff) < 256 && ((v >> 16) & 0xff) < 256 && ((v >> 24) & 0xff) < 256) by (bit_vector);
    assert(((v >> 32) & 0xff) < 256 && ((v >> 40) & 0xff) < 256 && ((v >> 48) & 0xff) < 256 && ((v >> 56) & 0xff) < 256) by (bit_vector);
    assert(b[0] as nat == (v & 0xff) && b[1] as nat == ((v >> 8) & 0xff) && b[2] as nat == ((v >> 16) & 0xff) && b[3] as nat == ((v >> 24) & 0xff));
    assert(b[4] as nat == ((v >> 32) & 0xff) && b[5] as nat == ((v >> 40) & 0xff) && b[6] as nat == ((v >> 48) & 0xff) && b[7] as nat == ((v >> 56) & 0xff));
    assert(v == (v & 0xff) + 256 * (((v >> 8) & 0xff) + 256 * (((v >> 16) & 0xff) + 256 * (((v >> 24) & 0xff) + 256 * (((v >> 32)
        & 0xff) + 256 * (((v >> 40) & 0xff) + 256 * (((v >> 48) & 0xff) + 256 * ((v >> 56) & 0xff)))))))) by (bit_vector);
}

/// `v` as a canonical field element encoding (`Fr::from(v)`).
pub fn fr_from_u64(v: u64) -> (r: [u8; 32])
    ensures
        r@ == le_u64_padded(v),
        le_value(r@) == v,
        canonical(r),
{
    let b = vstd::bytes::u64_to_le_bytes(v);
    let mut out = [0u8; 32];
    let mut i: usize = 0;
    while i < 8
        invariant
            b@.len() == 8,
            b@ == le_u64(v),
            0 <= i <= 8,
            forall|k: int| 0 <= k < i ==> out@[k] == b@[k],
            forall|k: int| 8 <= k < 32 ==> out@[k] == 0,
        decreases 8 - i,
    {
        out[i] = b[i];
        i = i + 1;
    }
    proof {
        assert(out@ =~= le_u64_padded(v));
        lemma_le_u64_small(v);
    }
    out
}

/// A tagged hash read as a field element (`hash_to_fr`).
pub fn hash_to_fr(t: &str, data: &[u8]) -> (r: [u8; 32])
    ensures
        le_value(r@) == hash_fe(t.spec_bytes(), data@),
        canonical(r),
{
    let h = tagged_hash(t, data);
    fr_reduce(h.as_slice())
}

pub open spec fn index_bytes(i: u64, j: u64) -> Seq<u8> {
    le_u64(i) + le_u64(j)
}

/// Round constant `(i, j)`.
pub open spec fn spec_round_constant(i: u64, j: u64) -> nat {
    hash_fe(tag("AETH/POSEIDON/RC"), index_bytes(i, j))
}

/// Entry `(i, j)` of the mixing matrix (diagonal raised by 2).
pub open spec fn spec_mds(i: u64, j: u64) -> nat {
    let v = hash_fe(tag("AETH/POSEIDON/MDS"), index_bytes(i, j));
    if i == j {
        fadd(v, 2)
    } else {
        v
    }
}

pub open spec fn spec_sbox(x: nat) -> nat {
    let x2 = fmul(x, x);
    let x4 = fmul(x2, x2);
    fmul(x4, x)
}

/// A Poseidon state.
pub type FeState = (nat, nat, nat);

pub open spec fn spec_mds_row(i: u64, s: FeState) -> nat {
    fadd(fadd(fadd(0, fmul(spec_mds(i, 0), s.0)), fmul(spec_mds(i, 1), s.1)), fmul(spec_mds(i, 2), s.2))
}

pub open spec fn spec_apply_mds(s: FeState) -> FeState {
    (spec_mds_row(0, s), spec_mds_row(1, s), spec_mds_row(2, s))
}

pub open spec fn full_round(r: u64) -> bool {
    r < 2 || r >= 10
}

pub open spec fn spec_round(s: FeState, r: u64) -> FeState {
    let a = (fadd(s.0, spec_round_constant(r, 0)), fadd(s.1, spec_round_constant(r, 1)), fadd(s.2, spec_round_constant(r, 2)));
    let b = if full_round(r) {
        (spec_sbox(a.0), spec_sbox(a.1), spec_sbox(a.2))
    } else {
        (spec_sbox(a.0), a.1, a.2)
    };
    spec_apply_mds(b)
}

/// The state after the first `n` rounds.
pub open spec fn spec_rounds(s: FeState, n: nat) -> FeState
    decreases n,
{
    if n == 0 {
        s
    } else {
        spec_round(spec_rounds(s, (n - 1) as nat), (n - 1) as u64)
    }
}

/// The Poseidon permutation: twelve rounds.
pub open spec fn spec_permute(s: FeState) -> FeState {
    spec_rounds(s, 12)
}

/// Two-to-one compression: the first word of the permuted `(0, l, r)`.
pub open spec fn spec_hash2(l: nat, r: nat) -> nat {
    spec_permute((0, l, r)).0
}

/// Three-to-one compression: the first word of the permuted `(a, b, c)`.
pub open spec fn spec_hash3(a: nat, b: nat, c: nat) -> nat {
    spec_permute((a, b, c)).0
}

/// The values of three encodings.
pub open spec fn state_value(s: ([u8; 32], [u8; 32], [u8; 32])) -> FeState {
    (le_value(s.0@), le_value(s.1@), le_value(s.2@))
}

pub open spec fn state_canonical(s: ([u8; 32], [u8; 32], [u8; 32])) -> bool {
    canonical(s.0) && canonical(s.1) && canonical(s.2)
}

fn index_buf(i: u64, j: u64) -> (b: Vec<u8>)
    ensures
        b@ == index_bytes(i, j),
{
    let mut buf: Vec<u8> = Vec::new();
    let a = vstd::bytes::u64_to_le_bytes(i);
    crate::bytes::append_bytes(&mut buf, a.as_slice());
    let c = vstd::bytes::u64_to_le_bytes(j);
    crate::bytes::append_bytes(&mut buf, c.as_slice());
    buf
}

/// Round constant `(i, j)`.
pub fn round_constant(i: u64, j: u64) -> (r: [u8; 32])
    ensures
        le_value(r@) == spec_round_constant(i, j),
        canonical(r),
{
    let buf = index_buf(i, j);
    hash_to_fr("AETH/POSEIDON/RC", buf.as_slice())
}

/// Entry `(i, j)` of the mixing matrix.
pub fn mds(i: u64, j: u64) -> (r: [u8; 32])
    ensures
        le_value(r@) == spec_mds(i, j),
        canonical(r),
{
    let buf = index_buf(i, j);
    let v = hash_to_fr("AETH/POSEIDON/MDS", buf.as_slice());
    if i == j {
        let two = fr_from_u64(2);
        proof {
            lemma_canonical_fe(v);
            lemma_canonical_fe(two);
        }
        fr_add(&v, &two)
    } else {
        v
    }
}

fn add_c(a: &[u8; 32], b: &[u8; 32]) -> (r: [u8; 32])
    requires
        canonical(*a),
        canonical(*b),
    ensures
        le_value(r@) == fadd(le_value(a@), le_value(b@)),
        canonical(r),
{
    proof {
        lemma_canonical_fe(*a);
        lemma_canonical_fe(*b);
    }
    fr_add(a, b)
}

fn mul_c(a: &[u8; 32], b: &[u8; 32]) -> (r: [u8; 32])
    requires
        canonical(*a),
        canonical(*b),
    ensures
        le_value(r@) == fmul(le_value(a@), le_value(b@)),
        canonical(r),
{
    proof {
        lemma_canonical_fe(*a);
        lemma_canonical_fe(*b);
    }
    fr_mul(a, b)
}

fn sbox(x: &[u8; 32]) -> (r: [u8; 32])
    requires
        canonical(*x),
    ensures
        le_value(r@) == spec_sbox(le_value(x@)),
        canonical(r),
{
    let x2 = mul_c(x, x);
    let x4 = mul_c(&x2, &x2);
    mul_c(&x4, x)
}

fn mds_row(i: u64, s: &([u8; 32], [u8; 32], [u8; 32])) -> (r: [u8; 32])
    requires
        state_canonical(*s),
    ensures
        le_value(r@) == spec_mds_row(i, state_value(*s)),
        canonical(r),
{
    let zero = fr_from_u64(0);
    let m0 = mds(i, 0);
    let m1 = mds(i, 1);
    let m2 = mds(i, 2);
    let t0 = mul_c(&m0, &s.0);
    let acc = add_c(&zero, &t0);
    let t1 = mul_c(&m1, &s.1);
    let acc = add_c(&acc, &t1);
    let t2 = mul_c(&m2, &s.2);
    add_c(&acc, &t2)
}

fn poseidon_round(s: ([u8; 32], [u8; 32], [u8; 32]), r: u64) -> (o: ([u8; 32], [u8; 32], [u8; 32]))
    requires
        state_canonical(s),
    ensures
        state_value(o) == spec_round(state_value(s), r),
        state_canonical(o),
{
    let c0 = round_constant(r, 0);
    let c1 = round_constant(r, 1);
    let c2 = round_constant(r, 2);
    let a = (add_c(&s.0, &c0), add_c(&s.1, &c1), add_c(&s.2, &c2));
    let b = if r < 2 || r >= 10 {
        (sbox(&a.0), sbox(&a.1), sbox(&a.2))
    } else {
        (sbox(&a.0), a.1, a.2)
    };
    (mds_row(0, &b), mds_row(1, &b), mds_row(2, &b))
}

/// The Poseidon permutation on a width-3 state.
pub fn poseidon_permute(state: ([u8; 32], [u8; 32], [u8; 32])) -> (r: ([u8; 32], [u8; 32], [u8; 32]))
    requires
        state_canonical(state),
    ensures
        state_value(r) == spec_permute(state_value(state)),
        state_canonical(r),
{
    let mut s = state;
    let mut r: u64 = 0;
    while r < 12
        invariant
            r <= 12,
            state_canonical(s),
            state_value(s) == spec_rounds(state_value(state), r as nat),
        decreases 12 - r,
    {
        s = poseidon_round(s, r);
        r = r + 1;
    }
    s
}

/// Two-to-one Poseidon compression (Merkle parent).
pub fn poseidon_hash2(left: &[u8; 32], right: &[u8; 32]) -> (r: [u8; 32])
    requires
        canonical(*left),
        canonical(*right),
    ensures
        le_value(r@) == spec_hash2(le_value(left@), le_value(right@)),
        canonical(r),
{
    let zero = fr_from_u64(0);
    let out = poseidon_permute((zero, *left, *right));
    out.0
}

/// Three-to-one Poseidon compression.
pub fn poseidon_hash3(a: &[u8; 32], b: &[u8; 32], c: &[u8; 32]) -> (r: [u8; 32])
    requires
        canonical(*a),
        canonical(*b),
        canonical(*c),
    ensures
        le_value(r@) == spec_hash3(le_value(a@), le_value(b@), le_value(c@)),
        canonical(r),
{
    let out = poseidon_permute((*a, *b, *c));
    out.0
}

/// A hash read as a field element (`fr_from_bytes`).
pub fn fr_from_bytes(bytes: &Hash256) -> (r: [u8; 32])
    ensures
        le_value(r@) == le_value(bytes@) % fr_p(),
        canonical(r),
{
    fr_reduce(bytes.as_slice())
}

/// Distinct 32-byte encodings denote distinct integers.
pub proof fn lemma_le_value_injective(a: Seq<u8>, b: Seq<u8>)
    requires
        a.len() == b.len(),
        le_value(a) == le_value(b),
    ensures
        a == b,
    decreases a.len(),
{
    if a.len() > 0 {
        let ra = a.subrange(1, a.len() as int);
        let rb = b.subrange(1, b.len() as int);
        assert(a[0] == b[0]) by {
            assert(le_value(a) % 256 == a[0] as nat) by (nonlinear_arith)
                requires
                    le_value(a) == a[0] as nat + 256 * le_value(ra),
                    a[0] < 256,
            ;
            assert(le_value(b) % 256 == b[0] as nat) by (nonlinear_arith)
                requires
                    le_value(b) == b[0] as nat + 256 * le_value(rb),
                    b[0] < 256,
            ;
        }
        assert(le_value(ra) == le_value(rb));
        lemma_le_value_injective(ra, rb);
        assert(a =~= seq![a[0]] + ra);
        assert(b =~= seq![b[0]] + rb);
    }
}

} // verus!
