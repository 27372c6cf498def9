//! Domain-separated BLAKE3 hashing, Merkle roots, Ed25519 keys and
//! transaction signatures.

use vstd::prelude::*;
use vstd::string::*;
use crate::bytes::{append_bytes, prefix20, to_vec};
use crate::types::{Address, Hash256, Header, Transaction};
use ed25519_dalek::{Signature, Signer, SigningKey, Verifier, VerifyingKey};

verus! {

/// What `blake3::hash` returns for a byte string: its 32-byte BLAKE3 digest.
pub uninterp spec fn blake3_digest(data: Seq<u8>) -> Seq<u8>;

/// Calls `blake3::hash`. Claimed: the result is the digest of `data`,
/// the same for the same bytes (`blake3_digest`). Nothing else is claimed.
#[verifier::external_body]
fn blake3_hash(data: &[u8]) -> (h: [u8; 32])
    ensures
        h@ == blake3_digest(data@),
{
    *blake3::hash(data).as_bytes()
}

/// The bytes of a domain-separation tag.
pub open spec fn tag(t: &str) -> Seq<u8> {
    t.spec_bytes()
}

/// The preimage hashed under a tag: `tag || 0xff || data`.
pub open spec fn tagged_preimage(tag: Seq<u8>, data: Seq<u8>) -> Seq<u8> {
    tag + seq![0xffu8] + data
}

/// BLAKE3 of `tag || 0xff || data`.
pub open spec fn spec_tagged_hash(tag: Seq<u8>, data: Seq<u8>) -> Seq<u8> {
    blake3_digest(tagged_preimage(tag, data))
}

/// BLAKE3 over `tag || 0xff || data`.
pub fn tagged_hash(tag: &str, data: &[u8]) -> (h: Hash256)
    ensures
        h@ == spec_tagged_hash(tag.spec_bytes(), data@),
{
    let mut buf: Vec<u8> = Vec::new();
    append_bytes(&mut buf, tag.as_bytes());
    buf.push(0xffu8);
    append_bytes(&mut buf, data);
    proof {
        assert(buf@ =~= tagged_preimage(tag.spec_bytes(), data@));
    }
    blake3_hash(buf.as_slice())
}

/// The address of a public key: the first 20 bytes of its tagged hash.
pub open spec fn spec_address_from_pubkey(pk: Seq<u8>) -> Seq<u8> {
    spec_tagged_hash(tag("AETH/ADDR/V1"), pk).subrange(0, 20)
}

pub fn address_from_pubkey(pk: &[u8]) -> (a: Address)
    ensures
        a@ == spec_address_from_pubkey(pk@),
{
    let h = tagged_hash("AETH/ADDR/V1", pk);
    prefix20(&h)
}

pub fn hash_bytes(data: &[u8]) -> (h: Hash256)
    ensures
        h@ == spec_tagged_hash(tag("AETH/BLOB/V1"), data@),
{
    tagged_hash("AETH/BLOB/V1", data)
}

/// The views of a sequence of hashes.
pub open spec fn hashes_view(s: Seq<Hash256>) -> Seq<Seq<u8>> {
    s.map_values(|h: Hash256| h@)
}

pub open spec fn merkle_leaf(l: Seq<u8>) -> Seq<u8> {
    spec_tagged_hash(tag("AETH/MERKLE/LEAF"), l)
}

pub open spec fn merkle_node(a: Seq<u8>, b: Seq<u8>) -> Seq<u8> {
    spec_tagged_hash(tag("AETH/MERKLE/NODE"), a + b)
}

pub open spec fn merkle_odd(a: Seq<u8>) -> Seq<u8> {
    spec_tagged_hash(tag("AETH/MERKLE/ODD"), a)
}

/// One level up the tree: adjacent pairs are hashed together, a trailing
/// odd node is hashed alone.
pub open spec fn merkle_level(layer: Seq<Seq<u8>>) -> Seq<Seq<u8>> {
    Seq::new(
        ((layer.len() + 1) / 2) as nat,
        |k: int|
            if 2 * k + 1 < layer.len() {
                merkle_node(layer[2 * k], layer[2 * k + 1])
            } else {
                merkle_odd(layer[2 * k])
            },
    )
}

/// Repeats `merkle_level` until at most one node is left.
pub open spec fn merkle_reduce(layer: Seq<Seq<u8>>) -> Seq<Seq<u8>>
    decreases layer.len(),
{
    if layer.len() <= 1 {
        layer
    } else {
        merkle_reduce(merkle_level(layer))
    }
}

/// The Merkle root of a list of leaves.
pub open spec fn spec_merkle_root(leaves: Seq<Seq<u8>>) -> Seq<u8> {
    if leaves.len() == 0 {
        spec_tagged_hash(tag("AETH/MERKLE/EMPTY"), Seq::empty())
    } else {
        merkle_reduce(leaves.map_values(|l: Seq<u8>| merkle_leaf(l)))[0]
    }
}

proof fn lemma_merkle_reduce_len(layer: Seq<Seq<u8>>)
    requires
        layer.len() >= 1,
    ensures
        merkle_reduce(layer).len() == 1,
    decreases layer.len(),
{
    if layer.len() > 1 {
        lemma_merkle_reduce_len(merkle_level(layer));
    }
}

fn merkle_next_level(layer: &Vec<Hash256>) -> (next: Vec<Hash256>)
    ensures
        hashes_view(next@) == merkle_level(hashes_view(layer@)),
        next@.len() == (layer@.len() + 1) / 2,
{
    let n = layer.len();
    let half = n / 2 + n % 2;
    let mut next: Vec<Hash256> = Vec::new();
    let mut k: usize = 0;
    let ghost lv = hashes_view(layer@);
    while k < half
        invariant
            n == layer@.len(),
            half == (n + 1) / 2,
            k <= half,
            lv == hashes_view(layer@),
            next@.len() == k,
            forall|j: int| 0 <= j < k ==> #[trigger] next@[j]@ == merkle_level(lv)[j],
        decreases half - k,
    {
        let i = 2 * k;
        if i + 1 < n {
            let mut buf: Vec<u8> = Vec::new();
            append_bytes(&mut buf, layer[i].as_slice());
            append_bytes(&mut buf, layer[i + 1].as_slice());
            let h = tagged_hash("AETH/MERKLE/NODE", buf.as_slice());
            next.push(h);
        } else {
            let h = tagged_hash("AETH/MERKLE/ODD", layer[i].as_slice());
            next.push(h);
        }
        k = k + 1;
    }
    assert(hashes_view(next@) =~= merkle_level(lv));
    next
}

pub fn merkle_root(leaves: &[Hash256]) -> (r: Hash256)
    ensures
        r@ == spec_merkle_root(hashes_view(leaves@)),
{
    if leaves.len() == 0 {
        let empty: Vec<u8> = Vec::new();
        let r = tagged_hash("AETH/MERKLE/EMPTY", empty.as_slice());
        assert(empty@ =~= Seq::<u8>::empty());
        return r;
    }
    let ghost lv = hashes_view(leaves@).map_values(|l: Seq<u8>| merkle_leaf(l));
    let mut layer: Vec<Hash256> = Vec::new();
    let n = leaves.len();
    let mut i: usize = 0;
    while i < n
        invariant
            n == leaves@.len(),
            i <= n,
            layer@.len() == i,
            lv == hashes_view(leaves@).map_values(|l: Seq<u8>| merkle_leaf(l)),
            forall|j: int| 0 <= j < i ==> #[trigger] layer@[j]@ == lv[j],
        decreases n - i,
    {
        let h = tagged_hash("AETH/MERKLE/LEAF", leaves[i].as_slice());
        layer.push(h);
        i = i + 1;
    }
    assert(hashes_view(layer@) =~= lv);
    while layer.len() > 1
        invariant
            layer@.len() >= 1,
            merkle_reduce(hashes_view(layer@)) == merkle_reduce(lv),
        decreases layer@.len(),
    {
        let next = merkle_next_level(&layer);
        layer = next;
    }
    proof {
        lemma_merkle_reduce_len(lv);
    }
    layer[0]
}

/// Little-endian bytes of a `u128`.
pub open spec fn le_u128(x: u128) -> Seq<u8> {
    vstd::bytes::spec_u128_to_le_bytes(x)
}

/// Little-endian bytes of a `u64`.
pub open spec fn le_u64(x: u64) -> Seq<u8> {
    vstd::bytes::spec_u64_to_le_bytes(x)
}

/// Little-endian bytes of a `u32`.
pub open spec fn le_u32(x: u32) -> Seq<u8> {
    vstd::bytes::spec_u32_to_le_bytes(x)
}

pub open spec fn spec_note_commitment(value: u128, recipient: Seq<u8>, rseed: Seq<u8>) -> Seq<u8> {
    spec_tagged_hash(tag("AETH/NOTE/V1"), le_u128(value) + recipient + rseed)
}

/// Transparent (BLAKE3) note commitment.
pub fn note_commitment(value: u128, recipient: &Address, rseed: &Hash256) -> (h: Hash256)
    ensures
        h@ == spec_note_commitment(value, recipient@, rseed@),
{
    let mut buf = vstd::bytes::u128_to_le_bytes(value);
    append_bytes(&mut buf, recipient.as_slice());
    append_bytes(&mut buf, rseed.as_slice());
    tagged_hash("AETH/NOTE/V1", buf.as_slice())
}

pub fn nullifier(sk: &[u8], commitment: &Hash256) -> (h: Hash256)
    ensures
        h@ == spec_tagged_hash(tag("AETH/NULLIFIER/V1"), sk@ + commitment@),
{
    let mut buf: Vec<u8> = Vec::new();
    append_bytes(&mut buf, sk);
    append_bytes(&mut buf, commitment.as_slice());
    tagged_hash("AETH/NULLIFIER/V1", buf.as_slice())
}

pub open spec fn spec_deploy_address(sender: Seq<u8>, nonce: u64, salt: Seq<u8>) -> Seq<u8> {
    spec_tagged_hash(tag("AETH/DEPLOY"), sender + le_u64(nonce) + salt).subrange(0, 20)
}

/// Address of a contract deployed by `sender` with `nonce` and `salt`.
pub fn deploy_address(sender: &Address, nonce: u64, salt: &Hash256) -> (a: Address)
    ensures
        a@ == spec_deploy_address(sender@, nonce, salt@),
{
    let mut buf: Vec<u8> = Vec::new();
    append_bytes(&mut buf, sender.as_slice());
    let nb = vstd::bytes::u64_to_le_bytes(nonce);
    append_bytes(&mut buf, nb.as_slice());
    append_bytes(&mut buf, salt.as_slice());
    let h = tagged_hash("AETH/DEPLOY", buf.as_slice());
    prefix20(&h)
}

/// Concatenation of a list of byte strings.
pub open spec fn concat_all(parts: Seq<Seq<u8>>) -> Seq<u8>
    decreases parts.len(),
{
    if parts.len() == 0 {
        Seq::empty()
    } else {
        concat_all(parts.drop_last()) + parts.last()
    }
}

/// Tagged hash over the concatenation of the sub-roots.
pub fn composite_state_root(parts: &[Hash256]) -> (h: Hash256)
    ensures
        h@ == spec_tagged_hash(tag("AETH/STATE/V1"), concat_all(hashes_view(parts@))),
{
    let mut buf: Vec<u8> = Vec::new();
    let n = parts.len();
    let mut i: usize = 0;
    while i < n
        invariant
            n == parts@.len(),
            i <= n,
            buf@ == concat_all(hashes_view(parts@.subrange(0, i as int))),
        decreases n - i,
    {
        append_bytes(&mut buf, parts[i].as_slice());
        proof {
            let s = hashes_view(parts@.subrange(0, i + 1));
            assert(s.drop_last() =~= hashes_view(parts@.subrange(0, i as int)));
        }
        i = i + 1;
    }
    assert(parts@.subrange(0, n as int) =~= parts@);
    tagged_hash("AETH/STATE/V1", buf.as_slice())
}

/// Hash that a transaction's signature covers; `encoded_body` is the
/// canonical encoding of its unsigned fields.
pub fn tx_sighash(encoded_body: &[u8]) -> (h: Hash256)
    ensures
        h@ == spec_tagged_hash(tag("AETH/TX/V1"), encoded_body@),
{
    tagged_hash("AETH/TX/V1", encoded_body)
}

/// Hash that a header's proposer seal covers; `encoded_unsigned` is the
/// canonical encoding of the header with an empty signature.
pub fn header_sighash(encoded_unsigned: &[u8]) -> (h: Hash256)
    ensures
        h@ == spec_tagged_hash(tag("AETH/BLOCK/V1"), encoded_unsigned@),
{
    tagged_hash("AETH/BLOCK/V1", encoded_unsigned)
}

/// Hash of a block, over the canonical encoding of its header.
pub fn block_hash(encoded_header: &[u8]) -> (h: Hash256)
    ensures
        h@ == spec_tagged_hash(tag("AETH/BLOCK/V1"), encoded_header@),
{
    tagged_hash("AETH/BLOCK/V1", encoded_header)
}

/// Hash identifying a transaction, over its canonical encoding.
pub fn tx_hash(encoded_tx: &[u8]) -> (h: Hash256)
    ensures
        h@ == spec_tagged_hash(tag("AETH/TXHASH/V1"), encoded_tx@),
{
    tagged_hash("AETH/TXHASH/V1", encoded_tx)
}

#[derive(Clone, Debug, PartialEq, Eq)]
pub enum CryptoError {
    InvalidSignature,
    InvalidPublicKey,
    Serde(String),
}

/// The text a signature error is reported with.
pub open spec fn crypto_error_text(e: CryptoError) -> Seq<char> {
    match e {
        CryptoError::InvalidSignature => "invalid signature"@,
        CryptoError::InvalidPublicKey => "invalid public key"@,
        CryptoError::Serde(s) => "serialization error: "@ + s@,
    }
}

impl CryptoError {
    /// Human-readable description of the error.
    pub fn message(&self) -> (m: String)
        ensures
            m@ == crypto_error_text(*self),
    {
        match self {
            CryptoError::InvalidSignature => String::from_str("invalid signature"),
            CryptoError::InvalidPublicKey => String::from_str("invalid public key"),
            CryptoError::Serde(s) => String::from_str("serialization error: ").concat(s.as_str()),
        }
    }
}

/// Ed25519 public key bytes derived from a 32-byte secret key
/// (`SigningKey::verifying_key`).
pub uninterp spec fn ed25519_public(secret: Seq<u8>) -> Seq<u8>;

/// Ed25519 signature bytes of `msg` under `secret` (`SigningKey::sign`,
/// deterministic per RFC 8032).
pub uninterp spec fn ed25519_signature(secret: Seq<u8>, msg: Seq<u8>) -> Seq<u8>;

/// Whether 32 bytes decode to a public key (`VerifyingKey::from_bytes`).
pub uninterp spec fn ed25519_key_decodes(public: Seq<u8>) -> bool;

/// Whether `sig` verifies for `msg` under `public` (`VerifyingKey::verify`).
pub uninterp spec fn ed25519_accepts(public: Seq<u8>, msg: Seq<u8>, sig: Seq<u8>) -> bool;

/// Calls `SigningKey::from_bytes(..).verifying_key().to_bytes()`.
/// Claimed: the public key is a function of the secret (`ed25519_public`),
/// and it decodes again as a verifying key.
#[verifier::external_body]
fn ed25519_public_key(secret: &[u8; 32]) -> (pk: [u8; 32])
    ensures
        pk@ == ed25519_public(secret@),
        ed25519_key_decodes(pk@),
{
    SigningKey::from_bytes(secret).verifying_key().to_bytes()
}

/// Calls `SigningKey::sign`. Claimed: the signature is a function of the
/// secret and the message (`ed25519_signature`), and it verifies under the
/// secret's own public key (Ed25519 completeness).
#[verifier::external_body]
fn ed25519_sign(secret: &[u8; 32], msg: &[u8]) -> (sig: [u8; 64])
    ensures
        sig@ == ed25519_signature(secret@, msg@),
        ed25519_accepts(ed25519_public(secret@), msg@, sig@),
{
    SigningKey::from_bytes(secret).sign(msg).to_bytes()
}

/// Calls `VerifyingKey::from_bytes`; true when it succeeds.
#[verifier::external_body]
fn ed25519_key_valid(pk: &[u8; 32]) -> (ok: bool)
    ensures
        ok == ed25519_key_decodes(pk@),
{
    VerifyingKey::from_bytes(pk).is_ok()
}

/// Calls `VerifyingKey::verify` on a decodable key; true when it accepts.
#[verifier::external_body]
fn ed25519_verify(pk: &[u8; 32], msg: &[u8], sig: &[u8; 64]) -> (ok: bool)
    requires
        ed25519_key_decodes(pk@),
    ensures
        ok == ed25519_accepts(pk@, msg@, sig@),
{
    match VerifyingKey::from_bytes(pk) {
        Ok(vk) => vk.verify(msg, &Signature::from_bytes(sig)).is_ok(),
        Err(_) => false,
    }
}

/// Calls `SigningKey::generate` with the operating system's random source
/// and returns the secret bytes. Nothing is claimed of them.
#[verifier::external_body]
fn random_secret() -> [u8; 32] {
    SigningKey::generate(&mut rand::rngs::OsRng).to_bytes()
}

fn to_array32(s: &[u8]) -> (a: [u8; 32])
    requires
        s@.len() == 32,
    ensures
        a@ == s@,
{
    let mut a = [0u8; 32];
    let mut i: usize = 0;
    while i < 32
        invariant
            i <= 32,
            s@.len() == 32,
            a@.len() == 32,
            forall|j: int| 0 <= j < i ==> a@[j] == s@[j],
        decreases 32 - i,
    {
        a[i] = s[i];
        i = i + 1;
    }
    assert(a@ =~= s@);
    a
}

fn to_array64(s: &[u8]) -> (a: [u8; 64])
    requires
        s@.len() == 64,
    ensures
        a@ == s@,
{
    let mut a = [0u8; 64];
    let mut i: usize = 0;
    while i < 64
        invariant
            i <= 64,
            s@.len() == 64,
            a@.len() == 64,
            forall|j: int| 0 <= j < i ==> a@[j] == s@[j],
        decreases 64 - i,
    {
        a[i] = s[i];
        i = i + 1;
    }
    assert(a@ =~= s@);
    a
}

/// An Ed25519 key pair; the public half is always the one derived from the
/// secret.
pub struct Keypair {
    signing: [u8; 32],
    verifying: [u8; 32],
}

impl Keypair {
    #[verifier::type_invariant]
    spec fn public_matches(self) -> bool {
        &&& self.verifying@ == ed25519_public(self.signing@)
        &&& ed25519_key_decodes(self.verifying@)
    }

    /// The secret key bytes.
    pub closed spec fn secret(self) -> Seq<u8> {
        self.signing@
    }

    /// A key pair with a fresh random secret.
    pub fn generate() -> (kp: Self)
        ensures
            kp.secret().len() == 32,
    {
        let secret = random_secret();
        Self::from_bytes(secret)
    }

    pub fn from_bytes(secret: [u8; 32]) -> (kp: Self)
        ensures
            kp.secret() == secret@,
    {
        let verifying = ed25519_public_key(&secret);
        Keypair { signing: secret, verifying }
    }

    /// The 32 secret bytes.
    pub fn secret_bytes(&self) -> (s: [u8; 32])
        ensures
            s@ == self.secret(),
    {
        self.signing
    }

    pub fn public_bytes(&self) -> (v: Vec<u8>)
        ensures
            v@ == ed25519_public(self.secret()),
            v@.len() == 32,
            ed25519_key_decodes(v@),
    {
        proof {
            use_type_invariant(self);
        }
        to_vec(self.verifying.as_slice())
    }

    pub fn address(&self) -> (a: Address)
        ensures
            a@ == spec_address_from_pubkey(ed25519_public(self.secret())),
    {
        proof {
            use_type_invariant(self);
        }
        address_from_pubkey(self.verifying.as_slice())
    }

    pub fn sign(&self, msg: &[u8]) -> (sig: Vec<u8>)
        ensures
            sig@ == ed25519_signature(self.secret(), msg@),
            sig@.len() == 64,
            ed25519_accepts(ed25519_public(self.secret()), msg@, sig@),
    {
        let s = ed25519_sign(&self.signing, msg);
        to_vec(s.as_slice())
    }
}

/// Result of checking a signature over `msg` with a claimed public key.
pub open spec fn spec_verify_sig(pk: Seq<u8>, sig: Seq<u8>, msg: Seq<u8>) -> Result<Seq<u8>, CryptoError> {
    if pk.len() != 32 || !ed25519_key_decodes(pk) {
        Err(CryptoError::InvalidPublicKey)
    } else if sig.len() != 64 || !ed25519_accepts(pk, msg, sig) {
        Err(CryptoError::InvalidSignature)
    } else {
        Ok(spec_address_from_pubkey(pk))
    }
}

/// Whether a transaction's public key and signature authenticate `sighash`
/// (the hash of its unsigned body), giving the signer's address.
pub open spec fn spec_verify_tx(tx: Transaction, sighash: Seq<u8>) -> Result<Seq<u8>, CryptoError> {
    spec_verify_sig(tx.public_key@, tx.signature@, sighash)
}

/// Signs a transaction: stores the signer's public key and its signature
/// over `sighash` (the hash of the unsigned body, `tx_sighash`).
pub fn sign_tx(tx: &mut Transaction, kp: &Keypair, sighash: &Hash256) -> (r: Result<(), CryptoError>)
    ensures
        r is Ok,
        final(tx).public_key@ == ed25519_public(kp.secret()),
        final(tx).signature@ == ed25519_signature(kp.secret(), sighash@),
        final(tx).version == old(tx).version,
        final(tx).nonce == old(tx).nonce,
        final(tx).origin == old(tx).origin,
        final(tx).kind == old(tx).kind,
        final(tx).gas_limit == old(tx).gas_limit,
        final(tx).max_fee_per_gas == old(tx).max_fee_per_gas,
        final(tx).max_priority_fee_per_gas == old(tx).max_priority_fee_per_gas,
        spec_verify_tx(*final(tx), sighash@) == Ok::<Seq<u8>, CryptoError>(
            spec_address_from_pubkey(ed25519_public(kp.secret())),
        ),
{
    proof {
        use_type_invariant(kp);
    }
    tx.public_key = kp.public_bytes();
    tx.signature = kp.sign(sighash.as_slice());
    proof {
        let pk = ed25519_public(kp.secret());
        assert(kp.verifying@ == pk);
    }
    Ok(())
}

/// Signs a header: stores the proposer's signature over `sighash` (the
/// hash of the unsigned header, `header_sighash`).
pub fn sign_header(header: &mut Header, kp: &Keypair, sighash: &Hash256) -> (r: Result<(), CryptoError>)
    ensures
        r is Ok,
        *final(header) == (Header { signature: final(header).signature, ..*old(header) }),
        final(header).signature@ == ed25519_signature(kp.secret(), sighash@),
        spec_verify_sig(ed25519_public(kp.secret()), final(header).signature@, sighash@) == Ok::<Seq<u8>, CryptoError>(
            spec_address_from_pubkey(ed25519_public(kp.secret())),
        ),
{
    proof {
        use_type_invariant(kp);
    }
    header.signature = kp.sign(sighash.as_slice());
    Ok(())
}

/// Checks a signature over `msg` and gives the signer's address.
pub fn verify_signature(public_key: &[u8], signature: &[u8], msg: &[u8]) -> (r: Result<Address, CryptoError>)
    ensures
        match (r, spec_verify_sig(public_key@, signature@, msg@)) {
            (Ok(a), Ok(b)) => a@ == b,
            (Err(e), Err(f)) => e == f,
            _ => false,
        },
{
    if public_key.len() != 32 {
        return Err(CryptoError::InvalidPublicKey);
    }
    let pk = to_array32(public_key);
    if !ed25519_key_valid(&pk) {
        return Err(CryptoError::InvalidPublicKey);
    }
    if signature.len() != 64 {
        return Err(CryptoError::InvalidSignature);
    }
    let sig = to_array64(signature);
    if !ed25519_verify(&pk, msg, &sig) {
        return Err(CryptoError::InvalidSignature);
    }
    Ok(address_from_pubkey(pk.as_slice()))
}

/// Authenticates a transaction against `sighash`, the hash of its unsigned
/// body, and gives the sender's address.
pub fn verify_tx(tx: &Transaction, sighash: &Hash256) -> (r: Result<Address, CryptoError>)
    ensures
        match (r, spec_verify_tx(*tx, sighash@)) {
            (Ok(a), Ok(b)) => a@ == b,
            (Err(e), Err(f)) => e == f,
            _ => false,
        },
{
    verify_signature(tx.public_key.as_slice(), tx.signature.as_slice(), sighash.as_slice())
}

} // verus!
