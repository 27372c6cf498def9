//! Shielded notes: Poseidon commitments and nullifiers, and the
//! depth-8 Merkle tree of note commitments.

use vstd::prelude::*;
use vstd::string::*;
use crate::crypto::note_commitment as crypto_note_commitment;
use crate::crypto::{spec_note_commitment, tag};
use crate::field::{
    canonical, fe, fr_from_bytes, fr_from_u64, fr_p, hash_fe, hash_to_fr, le_value, poseidon_hash2, poseidon_hash3,
    spec_hash2, spec_hash3,
};
use crate::types::{Address, Hash256};

verus! {

/// Depth of the note tree: 256 leaves.
pub const TREE_DEPTH: usize = 8;

/// Number of leaves of the note tree.
pub const TREE_LEAVES: usize = 256;

/// A field element kept as its 32-byte encoding.
#[derive(Clone, Copy, Debug)]
pub struct FrBytes(pub [u8; 32]);

impl FrBytes {
    /// The element an encoding denotes, in canonical form.
    pub fn to_fr(&self) -> (r: [u8; 32])
        ensures
            le_value(r@) == fe(self.0),
            canonical(r),
    {
        fr_from_bytes(&self.0)
    }

    pub fn from_fr(fr: &[u8; 32]) -> (r: FrBytes)
        ensures
            r.0 == *fr,
    {
        FrBytes(*fr)
    }
}

#[derive(Clone, Copy, Debug)]
pub struct Note {
    pub value: u64,
    pub recipient_pk: FrBytes,
    pub rseed: FrBytes,
}

/// Poseidon commitment `H(value, r, pk)` of a note.
pub open spec fn spec_note_cm(n: Note) -> nat {
    spec_hash3(n.value as nat, fe(n.rseed.0), fe(n.recipient_pk.0))
}

/// The Poseidon commitment of a note.
pub fn note_commitment(note: &Note) -> (r: [u8; 32])
    ensures
        le_value(r@) == spec_note_cm(*note),
        canonical(r),
{
    let v = fr_from_u64(note.value);
    let rs = note.rseed.to_fr();
    let pk = note.recipient_pk.to_fr();
    poseidon_hash3(&v, &rs, &pk)
}

/// The commitment of a note, encoded.
pub fn note_commitment_hash(note: &Note) -> (r: Hash256)
    ensures
        le_value(r@) == spec_note_cm(*note),
        canonical(r),
{
    note_commitment(note)
}

/// Domain of nullifiers.
pub open spec fn nf_domain() -> nat {
    hash_fe(tag("AETH/POSEIDON/NF"), Seq::empty())
}

/// Poseidon nullifier `H(domain, sk, cm)`.
pub fn nullifier(sk: &[u8; 32], cm: &[u8; 32]) -> (r: [u8; 32])
    requires
        canonical(*sk),
        canonical(*cm),
    ensures
        le_value(r@) == spec_hash3(nf_domain(), le_value(sk@), le_value(cm@)),
        canonical(r),
{
    let empty: Vec<u8> = Vec::new();
    let domain = hash_to_fr("AETH/POSEIDON/NF", empty.as_slice());
    assert(empty@ =~= Seq::<u8>::empty());
    poseidon_hash3(&domain, sk, cm)
}

/// The nullifier, encoded.
pub fn nullifier_hash(sk: &[u8; 32], cm: &[u8; 32]) -> (r: Hash256)
    requires
        canonical(*sk),
        canonical(*cm),
    ensures
        le_value(r@) == spec_hash3(nf_domain(), le_value(sk@), le_value(cm@)),
        canonical(r),
{
    nullifier(sk, cm)
}

/// The shielded public key of an address.
pub fn pk_from_address(addr: &Address) -> (r: [u8; 32])
    ensures
        le_value(r@) == hash_fe("AETH/ZK/ADDR_PK".spec_bytes(), addr@),
        canonical(r),
{
    hash_to_fr("AETH/ZK/ADDR_PK", addr.as_slice())
}

/// The shielded spending key of a secret.
pub fn sk_from_secret(secret: &[u8; 32]) -> (r: [u8; 32])
    ensures
        le_value(r@) == hash_fe("AETH/ZK/SK".spec_bytes(), secret@),
        canonical(r),
{
    hash_to_fr("AETH/ZK/SK", secret.as_slice())
}

/// Domain-separated BLAKE3 commitment used for display.
pub fn blake_note_commitment(value: u128, recipient: &Address, rseed: &Hash256) -> (h: Hash256)
    ensures
        h@ == spec_note_commitment(value, recipient@, rseed@),
{
    crypto_note_commitment(value, recipient, rseed)
}

/// The value of a leaf slot (0 when empty).
pub open spec fn slot_value(l: Option<[u8; 32]>) -> nat {
    match l {
        Some(x) => le_value(x@),
        None => 0,
    }
}

/// One level up: the parents of consecutive pairs (an odd last node is
/// paired with 0).
pub open spec fn spec_next_level(layer: Seq<nat>) -> Seq<nat> {
    Seq::new(
        ((layer.len() + 1) / 2) as nat,
        |i: int| spec_hash2(layer[2 * i], if 2 * i + 1 < layer.len() { layer[2 * i + 1] } else { 0 }),
    )
}

/// The layer `d` levels above `layer`.
pub open spec fn spec_level(layer: Seq<nat>, d: nat) -> Seq<nat>
    decreases d,
{
    if d == 0 {
        layer
    } else {
        spec_next_level(spec_level(layer, (d - 1) as nat))
    }
}

/// The root over a layer of 256 values.
pub open spec fn spec_tree_root(values: Seq<nat>) -> nat {
    spec_level(values, 8)[0]
}

/// The leaf values of a tree.
pub open spec fn slot_values(leaves: Seq<Option<[u8; 32]>>) -> Seq<nat> {
    leaves.map_values(|l: Option<[u8; 32]>| slot_value(l))
}

/// The leaf values of the tree built from a list of commitments: the first
/// 256 of them, reduced, then zeros.
pub open spec fn commitment_values(cms: Seq<Hash256>) -> Seq<nat> {
    Seq::new(256, |i: int| if i < cms.len() { fe(cms[i]) } else { 0 })
}

/// The number of nodes `d` levels above 256 leaves.
pub open spec fn level_size(d: nat) -> nat {
    if d == 0 {
        256
    } else if d == 1 {
        128
    } else if d == 2 {
        64
    } else if d == 3 {
        32
    } else if d == 4 {
        16
    } else if d == 5 {
        8
    } else if d == 6 {
        4
    } else if d == 7 {
        2
    } else {
        1
    }
}

proof fn lemma_level_len(layer: Seq<nat>, d: nat)
    requires
        layer.len() == 256,
        d <= 8,
    ensures
        spec_level(layer, d).len() == level_size(d),
    decreases d,
{
    if d > 0 {
        lemma_level_len(layer, (d - 1) as nat);
    }
}

/// The Merkle tree of note commitments.
pub struct NoteTree {
    leaves: Vec<Option<[u8; 32]>>,
    next_index: usize,
}

impl NoteTree {
    #[verifier::type_invariant]
    spec fn inv(self) -> bool {
        &&& self.leaves@.len() == 256
        &&& self.next_index <= 256
        &&& forall|i: int| 0 <= i < 256 ==> (#[trigger] self.leaves@[i] is Some <==> i < self.next_index)
        &&& forall|i: int| 0 <= i < 256 && #[trigger] self.leaves@[i] is Some ==> canonical(self.leaves@[i]->Some_0)
    }

    /// The leaf slots, in order.
    pub closed spec fn slots(self) -> Seq<Option<[u8; 32]>> {
        self.leaves@
    }

    /// The number of leaves filled so far.
    pub closed spec fn filled(self) -> nat {
        self.next_index as nat
    }

    /// The leaf values.
    pub open spec fn values(self) -> Seq<nat> {
        slot_values(self.slots())
    }

    /// The slots are filled from the front.
    pub fn check_shape(&self)
        ensures
            self.slots().len() == 256,
            self.filled() <= 256,
            forall|i: int| 0 <= i < 256 ==> (#[trigger] self.slots()[i] is Some <==> i < self.filled()),
    {
        proof {
            use_type_invariant(self);
        }
    }

    /// An empty tree.
    pub fn new() -> (t: NoteTree)
        ensures
            t.filled() == 0,
            t.slots() == Seq::new(256, |_i: int| None::<[u8; 32]>),
    {
        let mut leaves: Vec<Option<[u8; 32]>> = Vec::new();
        let mut i: usize = 0;
        while i < 256
            invariant
                i <= 256,
                leaves@ == Seq::new(i as nat, |_i: int| None::<[u8; 32]>),
            decreases 256 - i,
        {
            leaves.push(None);
            i = i + 1;
            proof {
                assert(leaves@ =~= Seq::new(i as nat, |_i: int| None::<[u8; 32]>));
            }
        }
        NoteTree { leaves, next_index: 0 }
    }

    /// Places `cm` in the next free slot and returns its index; fails when
    /// all 256 slots are taken.
    pub fn append(&mut self, cm: [u8; 32]) -> (r: Result<usize, String>)
        requires
            canonical(cm),
        ensures
            old(self).filled() >= 256 ==> (r matches Err(e) && e@ == "note tree full"@) && *final(self) == *old(self),
            old(self).filled() < 256 ==> {
                &&& r == Ok::<usize, String>(old(self).filled() as usize)
                &&& final(self).filled() == old(self).filled() + 1
                &&& final(self).slots() == old(self).slots().update(old(self).filled() as int, Some(cm))
            },
    {
        proof {
            use_type_invariant(&*self);
        }
        if self.next_index >= 256 {
            return Err(String::from_str("note tree full"));
        }
        let idx = self.next_index;
        let mut leaves: Vec<Option<[u8; 32]>> = Vec::new();
        let mut i: usize = 0;
        while i < 256
            invariant
                i <= 256,
                self.leaves@.len() == 256,
                idx < 256,
                leaves@ == self.leaves@.update(idx as int, Some(cm)).subrange(0, i as int),
            decreases 256 - i,
        {
            if i == idx {
                leaves.push(Some(cm));
            } else {
                leaves.push(self.leaves[i]);
            }
            i = i + 1;
            proof {
                assert(leaves@ =~= self.leaves@.update(idx as int, Some(cm)).subrange(0, i as int));
            }
        }
        proof {
            assert(leaves@ =~= self.leaves@.update(idx as int, Some(cm)));
        }
        let t = NoteTree { leaves, next_index: idx + 1 };
        *self = t;
        Ok(idx)
    }

    /// The leaf values, empty slots as 0.
    fn leaf_layer(&self) -> (layer: Vec<[u8; 32]>)
        ensures
            layer@.len() == 256,
            forall|i: int| 0 <= i < 256 ==> #[trigger] le_value(layer@[i]@) == self.values()[i] && canonical(layer@[i]),
    {
        proof {
            use_type_invariant(self);
        }
        let zero = fr_from_u64(0);
        let mut layer: Vec<[u8; 32]> = Vec::new();
        let mut i: usize = 0;
        while i < 256
            invariant
                i <= 256,
                self.leaves@.len() == 256,
                le_value(zero@) == 0,
                canonical(zero),
                layer@.len() == i,
                forall|i: int| 0 <= i < 256 && #[trigger] self.leaves@[i] is Some ==> canonical(self.leaves@[i]->Some_0),
                forall|k: int| 0 <= k < i ==> #[trigger] le_value(layer@[k]@) == slot_value(self.leaves@[k]) && canonical(layer@[k]),
            decreases 256 - i,
        {
            match self.leaves[i] {
                Some(x) => layer.push(x),
                None => layer.push(zero),
            }
            i = i + 1;
        }
        layer
    }

    /// The root over the leaf values.
    pub fn root(&self) -> (r: [u8; 32])
        ensures
            le_value(r@) == spec_tree_root(self.values()),
            canonical(r),
    {
        let mut layer = self.leaf_layer();
        let ghost vals = self.values();
        proof {
            use_type_invariant(self);
            assert(vals.len() == 256);
            assert(spec_level(vals, 0) == vals);
        }
        let mut d: usize = 0;
        while d < 8
            invariant
                d <= 8,
                vals.len() == 256,
                layer@.len() == spec_level(vals, d as nat).len(),
                forall|i: int| 0 <= i < layer@.len() ==> #[trigger] le_value(layer@[i]@) == spec_level(vals, d as nat)[i] && canonical(
                    layer@[i],
                ),
                spec_level(vals, d as nat).len() == level_size(d as nat),
            decreases 8 - d,
        {
            proof {
                lemma_level_len(vals, (d + 1) as nat);
            }
            layer = next_level(&layer, Ghost(spec_level(vals, d as nat)));
            d = d + 1;
        }
        layer[0]
    }

    /// The authentication path of a filled leaf: at each level the
    /// sibling's value and whether the node is a right child.
    pub fn authentication_path(&self, leaf_index: usize) -> (r: Result<Vec<([u8; 32], bool)>, String>)
        ensures
            !(leaf_index < 256 && self.slots()[leaf_index as int] is Some) ==> (r matches Err(e) && e@ == "missing leaf"@),
            leaf_index < 256 && self.slots()[leaf_index as int] is Some ==> (r matches Ok(p) && path_view(p@) == spec_auth_path(
                self.values(),
                leaf_index as nat,
            ) && path_canonical(p@)),
    {
        proof {
            use_type_invariant(self);
        }
        if leaf_index >= 256 {
            return Err(String::from_str("missing leaf"));
        }
        if self.leaves[leaf_index].is_none() {
            return Err(String::from_str("missing leaf"));
        }
        let mut layer = self.leaf_layer();
        let ghost vals = self.values();
        let zero = fr_from_u64(0);
        let mut path: Vec<([u8; 32], bool)> = Vec::new();
        let mut idx: usize = leaf_index;
        let mut d: usize = 0;
        proof {
            assert(vals.len() == 256);
            assert(spec_level(vals, 0) == vals);
        }
        while d < 8
            invariant
                d <= 8,
                vals.len() == 256,
                leaf_index < 256,
                le_value(zero@) == 0,
                canonical(zero),
                layer@.len() == spec_level(vals, d as nat).len(),
                spec_level(vals, d as nat).len() == level_size(d as nat),
                forall|i: int| 0 <= i < layer@.len() ==> #[trigger] le_value(layer@[i]@) == spec_level(vals, d as nat)[i] && canonical(
                    layer@[i],
                ),
                idx == (leaf_index as nat) / pow2(d as nat),
                path@.len() == d,
                path_canonical(path@),
                path_view(path@) == spec_auth_path(vals, leaf_index as nat).subrange(0, d as int),
            decreases 8 - d,
        {
            proof {
                lemma_level_len(vals, (d + 1) as nat);
                lemma_level_index(vals, leaf_index as nat, d as nat);
            }
            let is_right = idx % 2 == 1;
            let sibling = if is_right {
                layer[idx - 1]
            } else if idx + 1 < layer.len() {
                layer[idx + 1]
            } else {
                zero
            };
            let ghost before = path@;
            path.push((sibling, is_right));
            proof {
                assert(path_view(path@) =~= path_view(before).push((le_value(sibling@), is_right)));
                assert(spec_auth_path(vals, leaf_index as nat).subrange(0, d + 1) =~= spec_auth_path(vals, leaf_index as nat).subrange(
                    0,
                    d as int,
                ).push(spec_auth_path(vals, leaf_index as nat)[d as int]));
                assert(pow2((d + 1) as nat) == 2 * pow2(d as nat));
                vstd::arithmetic::div_mod::lemma_div_denominator(leaf_index as int, pow2(d as nat) as int, 2);
            }
            layer = next_level(&layer, Ghost(spec_level(vals, d as nat)));
            idx = idx / 2;
            d = d + 1;
        }
        proof {
            assert(spec_auth_path(vals, leaf_index as nat).subrange(0, 8) =~= spec_auth_path(vals, leaf_index as nat));
        }
        Ok(path)
    }

    /// The root, encoded.
    pub fn root_hash(&self) -> (r: Hash256)
        ensures
            le_value(r@) == spec_tree_root(self.values()),
            canonical(r),
    {
        self.root()
    }
}

fn next_level(layer: &Vec<[u8; 32]>, Ghost(vals): Ghost<Seq<nat>>) -> (r: Vec<[u8; 32]>)
    requires
        layer@.len() == vals.len(),
        layer@.len() % 2 == 0,
        forall|i: int| 0 <= i < layer@.len() ==> #[trigger] le_value(layer@[i]@) == vals[i] && canonical(layer@[i]),
    ensures
        r@.len() == spec_next_level(vals).len(),
        forall|i: int| 0 <= i < r@.len() ==> #[trigger] le_value(r@[i]@) == spec_next_level(vals)[i] && canonical(r@[i]),
{
    let n = layer.len();
    let mut out: Vec<[u8; 32]> = Vec::new();
    let mut i: usize = 0;
    while i < n / 2
        invariant
            n == layer@.len(),
            n == vals.len(),
            n % 2 == 0,
            i <= n / 2,
            out@.len() == i,
            forall|k: int| 0 <= k < n ==> #[trigger] le_value(layer@[k]@) == vals[k] && canonical(layer@[k]),
            forall|k: int| 0 <= k < i ==> #[trigger] le_value(out@[k]@) == spec_next_level(vals)[k] && canonical(out@[k]),
        decreases n / 2 - i,
    {
        let l = layer[2 * i];
        let r = layer[2 * i + 1];
        let p = poseidon_hash2(&l, &r);
        out.push(p);
        i = i + 1;
    }
    out
}

/// The root of the empty tree, encoded.
pub fn empty_root_hash() -> (r: Hash256)
    ensures
        le_value(r@) == spec_tree_root(Seq::new(256, |_i: int| 0nat)),
        canonical(r),
{
    let t = NoteTree::new();
    proof {
        assert(t.values() =~= Seq::new(256, |_i: int| 0nat));
    }
    t.root_hash()
}

/// The tree holding the first 256 of `cms` (reduced) in order.
pub fn tree_of(cms: &[Hash256]) -> (t: NoteTree)
    ensures
        t.values() == commitment_values(cms@),
{
    let mut tree = NoteTree::new();
    let n = cms.len();
    let mut i: usize = 0;
    while i < n
        invariant
            n == cms@.len(),
            i <= n,
            tree.filled() == if i < 256 { i as nat } else { 256 },
            forall|k: int| 0 <= k < 256 ==> #[trigger] slot_value(tree.slots()[k]) == if k < i && k < cms@.len() { fe(cms@[k]) } else { 0 },
            tree.slots().len() == 256,
        decreases n - i,
    {
        let leaf = fr_from_bytes(&cms[i]);
        tree.check_shape();
        let ghost before = tree;
        let _ = tree.append(leaf);
        tree.check_shape();
        proof {
            if before.filled() < 256 {
                assert forall|k: int| 0 <= k < 256 implies #[trigger] slot_value(tree.slots()[k]) == if k < i + 1 && k < cms@.len() {
                    fe(cms@[k])
                } else {
                    0
                } by {
                    if k == i {
                        assert(tree.slots()[k] == Some(leaf));
                    }
                }
            }
        }
        i = i + 1;
    }
    tree.check_shape();
    proof {
        assert(tree.values() =~= commitment_values(cms@));
    }
    tree
}

/// The values of a path.
pub open spec fn path_view(p: Seq<([u8; 32], bool)>) -> Seq<(nat, bool)> {
    p.map_values(|x: ([u8; 32], bool)| (le_value(x.0@), x.1))
}

pub open spec fn path_canonical(p: Seq<([u8; 32], bool)>) -> bool {
    forall|i: int| 0 <= i < p.len() ==> canonical(#[trigger] p[i].0)
}

/// The authentication path of leaf `index` over a layer of 256 values:
/// at each level, the sibling's value and whether the node is a right
/// child.
pub open spec fn spec_auth_path(values: Seq<nat>, index: nat) -> Seq<(nat, bool)> {
    Seq::new(
        8,
        |d: int| {
            let layer = spec_level(values, d as nat);
            let i = index / pow2(d as nat);
            let is_right = i % 2 == 1;
            let sib: int = if is_right { i - 1 } else { (i + 1) as int };
            (if 0 <= sib < layer.len() { layer[sib] } else { 0 }, is_right)
        },
    )
}

/// How many leaves a node `d` levels up spans.
pub open spec fn pow2(d: nat) -> nat {
    if d == 0 {
        1
    } else if d == 1 {
        2
    } else if d == 2 {
        4
    } else if d == 3 {
        8
    } else if d == 4 {
        16
    } else if d == 5 {
        32
    } else if d == 6 {
        64
    } else if d == 7 {
        128
    } else {
        256
    }
}

/// Walking a path up from `leaf` at `index`: the node value after `d`
/// levels, or `None` once a direction disagrees with the index.
pub open spec fn walk(leaf: nat, index: nat, path: Seq<(nat, bool)>, d: nat) -> Option<nat>
    decreases d,
{
    if d == 0 {
        Some(leaf)
    } else {
        match walk(leaf, index, path, (d - 1) as nat) {
            None => None,
            Some(cur) => {
                let i = index / pow2((d - 1) as nat);
                let (sib, is_right) = path[d - 1];
                if is_right != (i % 2 == 1) {
                    None
                } else if is_right {
                    Some(spec_hash2(sib, cur))
                } else {
                    Some(spec_hash2(cur, sib))
                }
            },
        }
    }
}

/// Whether a path of 8 steps leads from `leaf` at `index` to `root`.
pub open spec fn spec_verify_path(leaf: nat, index: nat, path: Seq<(nat, bool)>, root: nat) -> bool {
    path.len() == 8 && walk(leaf, index, path, 8) == Some(root)
}

proof fn lemma_level_index(values: Seq<nat>, index: nat, d: nat)
    requires
        values.len() == 256,
        index < 256,
        d <= 8,
    ensures
        index / pow2(d) < spec_level(values, d).len(),
{
    lemma_level_len(values, d);
    if d == 0 {
        assert(index / 1 < 256);
    } else if d == 1 {
        assert(index / 2 < 128);
    } else if d == 2 {
        assert(index / 4 < 64);
    } else if d == 3 {
        assert(index / 8 < 32);
    } else if d == 4 {
        assert(index / 16 < 16);
    } else if d == 5 {
        assert(index / 32 < 8);
    } else if d == 6 {
        assert(index / 64 < 4);
    } else if d == 7 {
        assert(index / 128 < 2);
    } else {
        assert(index / 256 < 1);
    }
}

/// One level of the walk up an authentication path.
#[verifier::spinoff_prover]
proof fn lemma_walk_step(values: Seq<nat>, index: nat, e: nat)
    requires
        values.len() == 256,
        index < 256,
        e < 8,
        walk(values[index as int], index, spec_auth_path(values, index), e) == Some(spec_level(values, e)[(index / pow2(e)) as int]),
    ensures
        walk(values[index as int], index, spec_auth_path(values, index), e + 1) == Some(
            spec_level(values, e + 1)[(index / pow2(e + 1)) as int],
        ),
{
    let d = e + 1;
    lemma_level_index(values, index, e);
    lemma_level_len(values, e);
    let layer = spec_level(values, e);
    let i = index / pow2(e);
    assert(pow2(d) == 2 * pow2(e));
    vstd::arithmetic::div_mod::lemma_div_denominator(index as int, pow2(e) as int, 2);
    let path = spec_auth_path(values, index);
    let is_right = i % 2 == 1;
    let sib: int = if is_right { i - 1 } else { (i + 1) as int };
    let sv = if 0 <= sib < layer.len() { layer[sib] } else { 0 };
    assert(path[e as int] == (sv, is_right));
    let cur = layer[i as int];
    let next = spec_next_level(layer);
    assert(spec_level(values, d) == next);
    let j = i / 2;
    assert(next[j as int] == spec_hash2(layer[2 * j as int], if 2 * j + 1 < layer.len() { layer[2 * j as int + 1] } else { 0 }));
    if is_right {
        assert(2 * j == i - 1);
    } else {
        assert(2 * j == i);
    }
}

proof fn lemma_walk(values: Seq<nat>, index: nat, d: nat)
    requires
        values.len() == 256,
        index < 256,
        d <= 8,
    ensures
        walk(values[index as int], index, spec_auth_path(values, index), d) == Some(spec_level(values, d)[(index / pow2(d)) as int]),
    decreases d,
{
    if d > 0 {
        lemma_walk(values, index, (d - 1) as nat);
        lemma_walk_step(values, index, (d - 1) as nat);
    }
}

/// The authentication path of every leaf of a tree leads to the tree's
/// root.
pub proof fn law_auth_path_verifies(values: Seq<nat>, index: nat)
    requires
        values.len() == 256,
        index < 256,
    ensures
        spec_verify_path(values[index as int], index, spec_auth_path(values, index), spec_tree_root(values)),
{
    lemma_walk(values, index, 8);
    assert(index / pow2(8) == 0);
}

/// Whether `path` leads from `leaf` at `leaf_index` to `root`.
pub fn verify_path(leaf: &[u8; 32], leaf_index: usize, path: &[([u8; 32], bool)], root: &[u8; 32]) -> (b: bool)
    requires
        canonical(*leaf),
        canonical(*root),
        path_canonical(path@),
    ensures
        b == spec_verify_path(le_value(leaf@), leaf_index as nat, path_view(path@), le_value(root@)),
{
    if path.len() != 8 {
        return false;
    }
    let ghost pv = path_view(path@);
    let mut cur = *leaf;
    let mut idx: usize = leaf_index;
    let mut d: usize = 0;
    while d < 8
        invariant
            d <= 8,
            path@.len() == 8,
            pv == path_view(path@),
            path_canonical(path@),
            canonical(cur),
            idx == (leaf_index as nat) / pow2(d as nat),
            walk(le_value(leaf@), leaf_index as nat, pv, d as nat) == Some(le_value(cur@)),
        decreases 8 - d,
    {
        let (sibling, is_right) = path[d];
        let expect_right = idx % 2 == 1;
        proof {
            assert(pv[d as int] == (le_value(sibling@), is_right));
            assert(canonical(path@[d as int].0));
        }
        if is_right != expect_right {
            proof {
                assert(walk(le_value(leaf@), leaf_index as nat, pv, (d + 1) as nat) is None);
                lemma_walk_stays_none(le_value(leaf@), leaf_index as nat, pv, (d + 1) as nat, 8);
            }
            return false;
        }
        cur = if is_right { poseidon_hash2(&sibling, &cur) } else { poseidon_hash2(&cur, &sibling) };
        proof {
            assert(pow2((d + 1) as nat) == 2 * pow2(d as nat));
            vstd::arithmetic::div_mod::lemma_div_denominator(leaf_index as int, pow2(d as nat) as int, 2);
        }
        idx = idx / 2;
        d = d + 1;
    }
    proof {
        if le_value(cur@) == le_value(root@) {
            crate::field::lemma_le_value_injective(cur@, root@);
            assert(cur =~= *root);
        }
    }
    crate::bytes::hash_eq(&cur, root)
}

proof fn lemma_walk_stays_none(leaf: nat, index: nat, path: Seq<(nat, bool)>, d: nat, e: nat)
    requires
        d <= e,
        walk(leaf, index, path, d) is None,
    ensures
        walk(leaf, index, path, e) is None,
    decreases e - d,
{
    if d < e {
        lemma_walk_stays_none(leaf, index, path, d, (e - 1) as nat);
    }
}

/// A field element's bytes: its canonical little-endian encoding, which is
/// how elements are held here.
pub fn fr_to_bytes(fr: &[u8; 32]) -> (r: [u8; 32])
    ensures
        r == *fr,
{
    *fr
}

/// A 32-byte hash read as a field element.
pub fn hash256_to_fr(h: &Hash256) -> (r: [u8; 32])
    ensures
        le_value(r@) == le_value(h@) % fr_p(),
        canonical(r),
{
    fr_from_bytes(h)
}

/// Poseidon note commitment `H(value, r, pk)`.
pub fn poseidon_commit(value: u64, r: &[u8; 32], pk: &[u8; 32]) -> (c: [u8; 32])
    requires
        canonical(*r),
        canonical(*pk),
    ensures
        le_value(c@) == spec_hash3(value as nat, le_value(r@), le_value(pk@)),
        canonical(c),
{
    let v = fr_from_u64(value);
    poseidon_hash3(&v, r, pk)
}

/// Poseidon nullifier `H(domain, sk, cm)`.
pub fn poseidon_nullifier(sk: &[u8; 32], cm: &[u8; 32]) -> (r: [u8; 32])
    requires
        canonical(*sk),
        canonical(*cm),
    ensures
        le_value(r@) == spec_hash3(nf_domain(), le_value(sk@), le_value(cm@)),
        canonical(r),
{
    nullifier(sk, cm)
}

/// Merkle parent of two nodes.
pub fn poseidon_parent(left: &[u8; 32], right: &[u8; 32]) -> (r: [u8; 32])
    requires
        canonical(*left),
        canonical(*right),
    ensures
        le_value(r@) == spec_hash2(le_value(left@), le_value(right@)),
        canonical(r),
{
    poseidon_hash2(left, right)
}

/// The note commitment under its older name.
pub fn algebraic_commit(value: u64, r: &[u8; 32], pk: &[u8; 32]) -> (c: [u8; 32])
    requires
        canonical(*r),
        canonical(*pk),
    ensures
        le_value(c@) == spec_hash3(value as nat, le_value(r@), le_value(pk@)),
        canonical(c),
{
    poseidon_commit(value, r, pk)
}

/// The nullifier under its older name.
pub fn algebraic_nullifier(sk: &[u8; 32], cm: &[u8; 32]) -> (r: [u8; 32])
    requires
        canonical(*sk),
        canonical(*cm),
    ensures
        le_value(r@) == spec_hash3(nf_domain(), le_value(sk@), le_value(cm@)),
        canonical(r),
{
    poseidon_nullifier(sk, cm)
}

/// The Merkle parent under its older name.
pub fn mimc_parent(left: &[u8; 32], right: &[u8; 32]) -> (r: [u8; 32])
    requires
        canonical(*left),
        canonical(*right),
    ensures
        le_value(r@) == spec_hash2(le_value(left@), le_value(right@)),
        canonical(r),
{
    poseidon_parent(left, right)
}

} // verus!
