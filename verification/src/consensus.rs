//! AetherBFT: votes, quorum, proposer choice, the per-height engine and
//! light-header linkage.

use vstd::prelude::*;
use vstd::string::*;
use crate::bytes::{addr_eq, append_bytes, hash_eq, to_vec};
use crate::crypto::{
    ed25519_public, ed25519_signature, le_u128, le_u32, le_u64, spec_address_from_pubkey,
    spec_tagged_hash, tag, tagged_hash, Keypair,
};
use crate::types::{Address, Block, Hash256, LightHeader, ValidatorInfo};
use crate::text::{decimal_string, spec_decimal};

verus! {

#[derive(Clone, Copy, Debug, PartialEq, Eq, Structural)]
pub enum VoteType {
    Prevote,
    Precommit,
}

impl Default for VoteType {
    fn default() -> (r: Self)
        ensures
            r == VoteType::Prevote,
    {
        VoteType::Prevote
    }
}

#[derive(Clone, Debug)]
pub struct Vote {
    pub height: u64,
    pub round: u32,
    pub block_hash: Hash256,
    pub validator: Address,
    pub signature: Vec<u8>,
    pub vote_type: VoteType,
}

/// Two votes with the same fields (the signature compared by its bytes).
pub open spec fn same_vote(a: Vote, b: Vote) -> bool {
    &&& a.height == b.height
    &&& a.round == b.round
    &&& a.block_hash == b.block_hash
    &&& a.validator == b.validator
    &&& a.signature@ == b.signature@
    &&& a.vote_type == b.vote_type
}

/// Two vote lists that hold the same votes in the same order.
pub open spec fn same_votes(a: Seq<Vote>, b: Seq<Vote>) -> bool {
    &&& a.len() == b.len()
    &&& forall|i: int| 0 <= i < a.len() ==> #[trigger] same_vote(a[i], b[i])
}

impl Vote {
    /// A field-by-field copy of the vote.
    pub fn duplicate(&self) -> (r: Vote)
        ensures
            same_vote(r, *self),
    {
        Vote {
            height: self.height,
            round: self.round,
            block_hash: self.block_hash,
            validator: self.validator,
            signature: to_vec(self.signature.as_slice()),
            vote_type: self.vote_type,
        }
    }
}

fn duplicate_votes(votes: &Vec<Vote>) -> (r: Vec<Vote>)
    ensures
        same_votes(r@, votes@),
{
    let mut r: Vec<Vote> = Vec::new();
    let n = votes.len();
    let mut i: usize = 0;
    while i < n
        invariant
            n == votes@.len(),
            i <= n,
            r@.len() == i,
            forall|j: int| 0 <= j < i ==> #[trigger] same_vote(r@[j], votes@[j]),
        decreases n - i,
    {
        r.push(votes[i].duplicate());
        i = i + 1;
    }
    r
}

#[derive(Clone, Debug)]
pub struct CommitCertificate {
    pub height: u64,
    pub round: u32,
    pub block_hash: Hash256,
    pub votes: Vec<Vote>,
}

#[derive(Clone, Copy, Debug, PartialEq, Eq, Structural)]
pub enum Step {
    NewRound,
    Propose,
    Prevote,
    Precommit,
    Commit,
}

/// The votes seen for one `(round, block_hash)`.
#[derive(Clone, Debug)]
pub struct VoteBucket {
    pub round: u32,
    pub block_hash: Hash256,
    pub votes: Vec<Vote>,
}

/// No two buckets share a `(round, block_hash)`.
pub open spec fn buckets_unique(b: Seq<VoteBucket>) -> bool {
    forall|i: int, j: int|
        0 <= i < j < b.len() ==> !(#[trigger] b[i].round == #[trigger] b[j].round && b[i].block_hash
            == b[j].block_hash)
}

/// Per-height AetherBFT engine state (Tendermint-inspired).
#[derive(Clone, Debug)]
pub struct ConsensusEngine {
    pub height: u64,
    pub round: u32,
    pub step: Step,
    pub locked_round: i64,
    pub locked_value: Option<Hash256>,
    pub valid_round: i64,
    pub valid_value: Option<Hash256>,
    pub prevotes: Vec<VoteBucket>,
    pub precommits: Vec<VoteBucket>,
}

// ---------------------------------------------------------------- quorum

/// Voting power of validators that are not jailed.
pub open spec fn active_total(vals: Seq<ValidatorInfo>) -> int
    decreases vals.len(),
{
    if vals.len() == 0 {
        0
    } else {
        active_total(vals.drop_last()) + if vals.last().jailed { 0int } else { vals.last().power as int }
    }
}

/// Voting power of the first validator listed with `addr`, if any: its
/// power, or 0 when it is jailed.
pub open spec fn first_power(vals: Seq<ValidatorInfo>, addr: Address) -> Option<u128>
    decreases vals.len(),
{
    if vals.len() == 0 {
        None
    } else if vals[0].address == addr {
        Some(if vals[0].jailed { 0 } else { vals[0].power })
    } else {
        first_power(vals.subrange(1, vals.len() as int), addr)
    }
}

/// No earlier vote in the list comes from the same validator.
pub open spec fn is_first_vote(votes: Seq<Vote>, i: int) -> bool {
    forall|j: int| 0 <= j < i ==> #[trigger] votes[j].validator != votes[i].validator
}

/// Power behind a list of votes: each voter counted once, by the power of
/// the first validator listed with its address; a jailed voter counts 0.
pub open spec fn vote_power(votes: Seq<Vote>, vals: Seq<ValidatorInfo>) -> int
    decreases votes.len(),
{
    if votes.len() == 0 {
        0
    } else {
        let i = votes.len() - 1;
        vote_power(votes.drop_last(), vals) + if is_first_vote(votes, i) {
            match first_power(vals, votes[i].validator) {
                Some(p) => p as int,
                None => 0int,
            }
        } else {
            0int
        }
    }
}

/// `x` capped at `u128::MAX`.
pub open spec fn sat128(x: int) -> int {
    if x > u128::MAX { u128::MAX as int } else { x }
}

/// More than two thirds of the active power voted (saturating arithmetic).
pub open spec fn spec_has_quorum(votes: Seq<Vote>, vals: Seq<ValidatorInfo>) -> bool {
    let total = active_total(vals);
    total != 0 && sat128(3 * sat128(vote_power(votes, vals))) > sat128(2 * total)
}

proof fn lemma_active_total_prefix(vals: Seq<ValidatorInfo>, i: int)
    requires
        0 <= i <= vals.len(),
    ensures
        active_total(vals.subrange(0, i)) <= active_total(vals),
        active_total(vals.subrange(0, i)) >= 0,
    decreases vals.len(),
{
    if vals.len() > 0 {
        if i == vals.len() {
            assert(vals.subrange(0, i) =~= vals);
            lemma_active_total_prefix(vals.drop_last(), i - 1);
            assert(vals.drop_last().subrange(0, i - 1) =~= vals.drop_last());
        } else {
            lemma_active_total_prefix(vals.drop_last(), i);
            assert(vals.drop_last().subrange(0, i) =~= vals.subrange(0, i));
        }
    }
}

fn sat_mul(x: u128, k: u128) -> (r: u128)
    ensures
        r == sat128(x * k),
{
    match x.checked_mul(k) {
        Some(v) => v,
        None => u128::MAX,
    }
}

/// Total power of the validators that are not jailed.
fn active_power(validators: &[ValidatorInfo]) -> (total: u128)
    requires
        active_total(validators@) <= u128::MAX,
    ensures
        total == active_total(validators@),
{
    let n = validators.len();
    let mut total: u128 = 0;
    let mut i: usize = 0;
    while i < n
        invariant
            n == validators@.len(),
            i <= n,
            active_total(validators@) <= u128::MAX,
            total == active_total(validators@.subrange(0, i as int)),
        decreases n - i,
    {
        proof {
            lemma_active_total_prefix(validators@, i + 1);
            assert(validators@.subrange(0, i + 1).drop_last() =~= validators@.subrange(0, i as int));
        }
        if !validators[i].jailed {
            total = total + validators[i].power;
        }
        i = i + 1;
    }
    assert(validators@.subrange(0, n as int) =~= validators@);
    total
}

/// Voting power of the first validator listed with `addr` (0 if jailed).
fn lookup_power(validators: &[ValidatorInfo], addr: &Address) -> (r: Option<u128>)
    ensures
        r == first_power(validators@, *addr),
{
    let n = validators.len();
    let mut i: usize = 0;
    assert(validators@.subrange(0, n as int) =~= validators@);
    while i < n
        invariant
            n == validators@.len(),
            i <= n,
            first_power(validators@, *addr) == first_power(validators@.subrange(i as int, n as int), *addr),
        decreases n - i,
    {
        let ghost rest = validators@.subrange(i as int, n as int);
        if addr_eq(&validators[i].address, addr) {
            assert(rest[0] == validators@[i as int]);
            if validators[i].jailed {
                return Some(0);
            }
            return Some(validators[i].power);
        }
        proof {
            assert(rest.subrange(1, rest.len() as int) =~= validators@.subrange(i + 1, n as int));
        }
        i = i + 1;
    }
    None
}

/// Whether an earlier vote in the list came from the same validator.
fn seen_before(votes: &[Vote], i: usize) -> (r: bool)
    requires
        i < votes@.len(),
    ensures
        r == !is_first_vote(votes@, i as int),
{
    let mut j: usize = 0;
    while j < i
        invariant
            i < votes@.len(),
            j <= i,
            forall|k: int| 0 <= k < j ==> #[trigger] votes@[k].validator != votes@[i as int].validator,
        decreases i - j,
    {
        if addr_eq(&votes[j].validator, &votes[i].validator) {
            assert(votes@[j as int].validator == votes@[i as int].validator);
            return true;
        }
        j = j + 1;
    }
    false
}

/// More than two thirds of the non-jailed voting power voted.
pub fn has_quorum(votes: &[Vote], validators: &[ValidatorInfo]) -> (r: bool)
    requires
        active_total(validators@) <= u128::MAX,
    ensures
        r == spec_has_quorum(votes@, validators@),
{
    let total = active_power(validators);
    if total == 0 {
        return false;
    }
    let n = votes.len();
    let mut power: u128 = 0;
    let mut i: usize = 0;
    while i < n
        invariant
            n == votes@.len(),
            i <= n,
            power == sat128(vote_power(votes@.subrange(0, i as int), validators@)),
            vote_power(votes@.subrange(0, i as int), validators@) >= 0,
        decreases n - i,
    {
        let ghost pre = votes@.subrange(0, i as int);
        let ghost next = votes@.subrange(0, i + 1);
        proof {
            assert(next.drop_last() =~= pre);
            assert forall|j: int| 0 <= j <= i implies #[trigger] next[j] == votes@[j] by {}
            if is_first_vote(votes@, i as int) {
                assert forall|j: int| 0 <= j < i implies #[trigger] next[j].validator != next[i as int].validator by {
                    assert(next[j] == votes@[j]);
                    assert(votes@[j].validator != votes@[i as int].validator);
                }
            }
            if is_first_vote(next, i as int) {
                assert forall|j: int| 0 <= j < i implies #[trigger] votes@[j].validator != votes@[i as int].validator by {
                    assert(next[j] == votes@[j]);
                    assert(next[j].validator != next[i as int].validator);
                }
            }
        }
        if !seen_before(votes, i) {
            match lookup_power(validators, &votes[i].validator) {
                Some(p) => {
                    power = power.saturating_add(p);
                },
                None => {},
            }
        }
        i = i + 1;
    }
    assert(votes@.subrange(0, n as int) =~= votes@);
    sat_mul(power, 3) > sat_mul(total, 2)
}

// ---------------------------------------------------------------- proposer

pub open spec fn is_active(v: ValidatorInfo) -> bool {
    !v.jailed && v.power > 0
}

/// `(address, power)` of the validators that are not jailed and have power,
/// in order.
pub open spec fn active_pairs(vals: Seq<ValidatorInfo>) -> Seq<(Address, u128)>
    decreases vals.len(),
{
    if vals.len() == 0 {
        Seq::empty()
    } else if is_active(vals.last()) {
        active_pairs(vals.drop_last()).push((vals.last().address, vals.last().power))
    } else {
        active_pairs(vals.drop_last())
    }
}

pub open spec fn pairs_power(s: Seq<(Address, u128)>) -> int
    decreases s.len(),
{
    if s.len() == 0 {
        0
    } else {
        pairs_power(s.drop_last()) + s.last().1 as int
    }
}

/// Walks the list subtracting powers until `pick` falls inside one.
pub open spec fn weighted_pick(s: Seq<(Address, u128)>, pick: int) -> Option<Address>
    decreases s.len(),
{
    if s.len() == 0 {
        None
    } else if pick < s[0].1 {
        Some(s[0].0)
    } else {
        weighted_pick(s.subrange(1, s.len() as int), pick - s[0].1)
    }
}

/// Proposer drawn from `seed`: the first 16 seed bytes (little endian)
/// modulo the active power pick a validator with probability proportional
/// to its power.
pub open spec fn spec_pick_proposer(vals: Seq<ValidatorInfo>, seed: Seq<u8>) -> Option<Address> {
    let act = active_pairs(vals);
    if act.len() == 0 {
        None
    } else {
        let total = pairs_power(act);
        let pick = vstd::bytes::spec_u128_from_le_bytes(seed.subrange(0, 16)) as int % total;
        match weighted_pick(act, pick) {
            Some(a) => Some(a),
            None => Some(act[0].0),
        }
    }
}

/// The bytes hashed into the proposer seed.
pub open spec fn proposer_seed_input(height: u64, round: u32, total: u128) -> Seq<u8> {
    le_u64(height) + le_u32(round) + le_u128(total)
}

proof fn lemma_active_pairs_facts(vals: Seq<ValidatorInfo>)
    ensures
        forall|i: int| 0 <= i < active_pairs(vals).len() ==> #[trigger] active_pairs(vals)[i].1 > 0,
        forall|i: int|
            #![trigger active_pairs(vals)[i]]
            0 <= i < active_pairs(vals).len() ==> exists|j: int|
                0 <= j < vals.len() && is_active(#[trigger] vals[j]) && vals[j].address
                    == active_pairs(vals)[i].0,
        (active_pairs(vals).len() == 0) == (forall|j: int| 0 <= j < vals.len() ==> !is_active(#[trigger] vals[j])),
    decreases vals.len(),
{
    if vals.len() > 0 {
        let d = vals.drop_last();
        lemma_active_pairs_facts(d);
        assert forall|i: int| #![trigger active_pairs(vals)[i]] 0 <= i < active_pairs(vals).len() implies exists|j: int|
            0 <= j < vals.len() && is_active(#[trigger] vals[j]) && vals[j].address
                == active_pairs(vals)[i].0 by {
            if i < active_pairs(d).len() {
                let j = choose|j: int| 0 <= j < d.len() && is_active(#[trigger] d[j]) && d[j].address == active_pairs(d)[i].0;
                assert(vals[j] == d[j]);
            } else {
                assert(vals[vals.len() - 1] == vals.last());
            }
        }
        if active_pairs(vals).len() == 0 {
            assert forall|j: int| 0 <= j < vals.len() implies !is_active(#[trigger] vals[j]) by {
                if j < d.len() {
                    assert(vals[j] == d[j]);
                }
            }
        } else {
            if active_pairs(d).len() != 0 {
                let j = choose|j: int| 0 <= j < d.len() && is_active(#[trigger] d[j]);
                assert(vals[j] == d[j]);
            }
        }
    }
}

proof fn lemma_weighted_pick_finds(s: Seq<(Address, u128)>, pick: int)
    requires
        0 <= pick < pairs_power(s),
        forall|i: int| 0 <= i < s.len() ==> #[trigger] s[i].1 > 0,
    ensures
        weighted_pick(s, pick) is Some,
        exists|i: int| 0 <= i < s.len() && weighted_pick(s, pick) == Some(#[trigger] s[i].0),
    decreases s.len(),
{
    lemma_pairs_power_front(s);
    if s.len() > 0 && pick >= s[0].1 {
        let t = s.subrange(1, s.len() as int);
        assert forall|i: int| 0 <= i < t.len() implies #[trigger] t[i].1 > 0 by {
            assert(t[i] == s[i + 1]);
        }
        lemma_weighted_pick_finds(t, pick - s[0].1);
        let i = choose|i: int| 0 <= i < t.len() && weighted_pick(t, pick - s[0].1) == Some(#[trigger] t[i].0);
        assert(t[i] == s[i + 1]);
    }
}

proof fn lemma_pairs_power_front(s: Seq<(Address, u128)>)
    ensures
        s.len() > 0 ==> pairs_power(s) == s[0].1 + pairs_power(s.subrange(1, s.len() as int)),
        pairs_power(s) >= 0,
    decreases s.len(),
{
    if s.len() > 0 {
        let d = s.drop_last();
        lemma_pairs_power_front(d);
        if s.len() > 1 {
            assert(s.subrange(1, s.len() as int).drop_last() =~= d.subrange(1, d.len() as int));
            assert(s.subrange(1, s.len() as int).last() == s.last());
        } else {
            assert(s.subrange(1, s.len() as int) =~= Seq::<(Address, u128)>::empty());
            assert(d =~= Seq::<(Address, u128)>::empty());
        }
    }
}

/// Law: the proposer, when there is one, is a validator that is not
/// jailed and has power; there is one exactly when such a validator exists.
pub proof fn law_proposer_is_active(vals: Seq<ValidatorInfo>, seed: Seq<u8>)
    requires
        seed.len() == 32,
    ensures
        (spec_pick_proposer(vals, seed) is Some) == (exists|j: int| 0 <= j < vals.len() && is_active(#[trigger] vals[j])),
        spec_pick_proposer(vals, seed) matches Some(a) ==> exists|j: int|
            0 <= j < vals.len() && is_active(#[trigger] vals[j]) && vals[j].address == a,
{
    lemma_active_pairs_facts(vals);
    let act = active_pairs(vals);
    if act.len() > 0 {
        lemma_pairs_power_front(act);
        lemma_pairs_power_front(act.subrange(1, act.len() as int));
        assert(act[0].1 > 0);
        let total = pairs_power(act);
        let pick = vstd::bytes::spec_u128_from_le_bytes(seed.subrange(0, 16)) as int % total;
        lemma_weighted_pick_finds(act, pick);
        let i = choose|i: int| 0 <= i < act.len() && weighted_pick(act, pick) == Some(#[trigger] act[i].0);
        assert(act[i].0 == act[i].0);
    }
}

fn collect_active(validators: &[ValidatorInfo]) -> (act: Vec<(Address, u128)>)
    ensures
        act@ == active_pairs(validators@),
{
    let n = validators.len();
    let mut act: Vec<(Address, u128)> = Vec::new();
    let mut i: usize = 0;
    while i < n
        invariant
            n == validators@.len(),
            i <= n,
            act@ == active_pairs(validators@.subrange(0, i as int)),
        decreases n - i,
    {
        proof {
            assert(validators@.subrange(0, i + 1).drop_last() =~= validators@.subrange(0, i as int));
        }
        if !validators[i].jailed && validators[i].power > 0 {
            act.push((validators[i].address, validators[i].power));
        }
        i = i + 1;
    }
    assert(validators@.subrange(0, n as int) =~= validators@);
    act
}

fn sum_pairs(act: &Vec<(Address, u128)>) -> (total: u128)
    requires
        pairs_power(act@) <= u128::MAX,
    ensures
        total == pairs_power(act@),
{
    let n = act.len();
    let mut total: u128 = 0;
    let mut i: usize = 0;
    while i < n
        invariant
            n == act@.len(),
            i <= n,
            pairs_power(act@) <= u128::MAX,
            total == pairs_power(act@.subrange(0, i as int)),
        decreases n - i,
    {
        proof {
            assert(act@.subrange(0, i + 1).drop_last() =~= act@.subrange(0, i as int));
            lemma_pairs_power_prefix(act@, i + 1);
        }
        total = total + act[i].1;
        i = i + 1;
    }
    assert(act@.subrange(0, n as int) =~= act@);
    total
}

proof fn lemma_pairs_power_prefix(s: Seq<(Address, u128)>, i: int)
    requires
        0 <= i <= s.len(),
    ensures
        pairs_power(s.subrange(0, i)) <= pairs_power(s),
    decreases s.len(),
{
    if s.len() > 0 {
        lemma_pairs_power_front(s.drop_last());
        if i == s.len() {
            assert(s.subrange(0, i) =~= s);
        } else {
            lemma_pairs_power_prefix(s.drop_last(), i);
            assert(s.drop_last().subrange(0, i) =~= s.subrange(0, i));
        }
    }
}

/// The proposer that `seed` selects (see `spec_pick_proposer`).
pub fn pick_proposer(validators: &[ValidatorInfo], seed: &Hash256) -> (r: Option<Address>)
    requires
        pairs_power(active_pairs(validators@)) <= u128::MAX,
    ensures
        r == spec_pick_proposer(validators@, seed@),
{
    let act = collect_active(validators);
    if act.len() == 0 {
        return None;
    }
    let total = sum_pairs(&act);
    proof {
        lemma_active_pairs_facts(validators@);
        lemma_pairs_power_front(act@);
        lemma_pairs_power_front(act@.subrange(1, act@.len() as int));
        assert(act@[0].1 > 0);
        assert(act@.subrange(0, act@.len() as int) =~= act@);
    }
    let word = vstd::bytes::u128_from_le_bytes(vstd::slice::slice_subrange(seed.as_slice(), 0, 16));
    assert(word == vstd::bytes::spec_u128_from_le_bytes(seed@.subrange(0, 16)));
    let mut pick = word % total;
    let n = act.len();
    let mut i: usize = 0;
    while i < n
        invariant
            n == act@.len(),
            i <= n,
            n > 0,
            act@ == active_pairs(validators@),
            total == pairs_power(act@),
            total > 0,
            word == vstd::bytes::spec_u128_from_le_bytes(seed@.subrange(0, 16)),
            0 <= pick,
            weighted_pick(act@, (word % total) as int) == weighted_pick(act@.subrange(i as int, n as int), pick as int),
        decreases n - i,
    {
        let ghost rest = act@.subrange(i as int, n as int);
        assert(rest[0] == act@[i as int]);
        if pick < act[i].1 {
            assert(weighted_pick(rest, pick as int) == Some(act@[i as int].0));
            return Some(act[i].0);
        }
        pick = pick - act[i].1;
        proof {
            assert(rest.subrange(1, rest.len() as int) =~= act@.subrange(i + 1, n as int));
        }
        i = i + 1;
    }
    proof {
        assert(act@.subrange(n as int, n as int) =~= Seq::<(Address, u128)>::empty());
    }
    Some(act[0].0)
}

/// Stake-weighted proposer for `(height, round)`.
pub fn select_proposer(validators: &[ValidatorInfo], height: u64, round: u32) -> (r: Option<Address>)
    requires
        pairs_power(active_pairs(validators@)) <= u128::MAX,
    ensures
        r == spec_pick_proposer(
            validators@,
            spec_tagged_hash(
                tag("AETH/PROPOSER"),
                proposer_seed_input(height, round, pairs_power(active_pairs(validators@)) as u128),
            ),
        ),
{
    let act = collect_active(validators);
    if act.len() == 0 {
        return None;
    }
    let total = sum_pairs(&act);
    let mut buf = vstd::bytes::u64_to_le_bytes(height);
    let rb = vstd::bytes::u32_to_le_bytes(round);
    append_bytes(&mut buf, rb.as_slice());
    let tb = vstd::bytes::u128_to_le_bytes(total);
    append_bytes(&mut buf, tb.as_slice());
    let seed = tagged_hash("AETH/PROPOSER", buf.as_slice());
    pick_proposer(validators, &seed)
}

// ---------------------------------------------------------------- engine

/// Whether a bucket is for `round` and its votes reach quorum.
pub open spec fn quorum_bucket(b: VoteBucket, round: u32, vals: Seq<ValidatorInfo>) -> bool {
    b.round == round && spec_has_quorum(b.votes@, vals)
}

/// Index of the first bucket, in insertion order, for `round` with quorum.
pub open spec fn first_quorum(b: Seq<VoteBucket>, round: u32, vals: Seq<ValidatorInfo>) -> Option<int>
    decreases b.len(),
{
    if b.len() == 0 {
        None
    } else if quorum_bucket(b[0], round, vals) {
        Some(0)
    } else {
        match first_quorum(b.subrange(1, b.len() as int), round, vals) {
            Some(i) => Some(i + 1),
            None => None,
        }
    }
}

proof fn lemma_first_quorum_facts(b: Seq<VoteBucket>, round: u32, vals: Seq<ValidatorInfo>)
    ensures
        first_quorum(b, round, vals) matches Some(i) ==> 0 <= i < b.len() && quorum_bucket(b[i], round, vals)
            && forall|j: int| 0 <= j < i ==> !quorum_bucket(#[trigger] b[j], round, vals),
        first_quorum(b, round, vals) is None ==> forall|j: int| 0 <= j < b.len() ==> !quorum_bucket(#[trigger] b[j], round, vals),
    decreases b.len(),
{
    if b.len() > 0 {
        let t = b.subrange(1, b.len() as int);
        lemma_first_quorum_facts(t, round, vals);
        assert forall|j: int| 1 <= j < b.len() implies #[trigger] b[j] == t[j - 1] by {}
        if !quorum_bucket(b[0], round, vals) {
            match first_quorum(t, round, vals) {
                Some(k) => {
                    assert(first_quorum(b, round, vals) == Some(k + 1));
                    assert(b[k + 1] == t[k]);
                    assert forall|j: int| 0 <= j < k + 1 implies !quorum_bucket(#[trigger] b[j], round, vals) by {
                        if j > 0 {
                            assert(b[j] == t[j - 1]);
                        }
                    }
                },
                None => {
                    assert forall|j: int| 0 <= j < b.len() implies !quorum_bucket(#[trigger] b[j], round, vals) by {
                        if j > 0 {
                            assert(b[j] == t[j - 1]);
                        }
                    }
                },
            }
        }
    }
}

/// Finds the first bucket for `round` whose votes reach quorum.
fn find_quorum(buckets: &Vec<VoteBucket>, round: u32, validators: &[ValidatorInfo]) -> (r: Option<usize>)
    requires
        active_total(validators@) <= u128::MAX,
    ensures
        match (r, first_quorum(buckets@, round, validators@)) {
            (Some(i), Some(j)) => i == j,
            (None, None) => true,
            _ => false,
        },
{
    let n = buckets.len();
    let mut i: usize = 0;
    assert(buckets@.subrange(0, n as int) =~= buckets@);
    while i < n
        invariant
            n == buckets@.len(),
            i <= n,
            active_total(validators@) <= u128::MAX,
            match first_quorum(buckets@, round, validators@) {
                Some(k) => match first_quorum(buckets@.subrange(i as int, n as int), round, validators@) {
                    Some(k2) => k == k2 + i,
                    None => false,
                },
                None => first_quorum(buckets@.subrange(i as int, n as int), round, validators@) is None,
            },
        decreases n - i,
    {
        let ghost rest = buckets@.subrange(i as int, n as int);
        if buckets[i].round == round && has_quorum(buckets[i].votes.as_slice(), validators) {
            assert(quorum_bucket(rest[0], round, validators@));
            return Some(i);
        }
        proof {
            assert(rest.subrange(1, rest.len() as int) =~= buckets@.subrange(i + 1, n as int));
        }
        i = i + 1;
    }
    None
}

/// `new` is `old` with `vote` added to the bucket of its
/// `(round, block_hash)`; a new bucket is opened at the end if there is none.
pub open spec fn recorded(old: Seq<VoteBucket>, new: Seq<VoteBucket>, vote: Vote) -> bool {
    let k = bucket_index(old, vote.round, vote.block_hash);
    if k < old.len() {
        &&& new.len() == old.len()
        &&& forall|j: int| 0 <= j < old.len() && j != k ==> #[trigger] new[j] == old[j]
        &&& new[k].round == vote.round
        &&& new[k].block_hash == vote.block_hash
        &&& new[k].votes@ == old[k].votes@.push(vote)
    } else {
        &&& new.len() == old.len() + 1
        &&& forall|j: int| 0 <= j < old.len() ==> #[trigger] new[j] == old[j]
        &&& new[old.len() as int].round == vote.round
        &&& new[old.len() as int].block_hash == vote.block_hash
        &&& new[old.len() as int].votes@ == seq![vote]
    }
}

/// Adds a vote to the bucket of its `(round, block_hash)`, opening the
/// bucket at the end if there is none.
fn record_in(buckets: &mut Vec<VoteBucket>, vote: Vote)
    ensures
        recorded(old(buckets)@, final(buckets)@, vote),
        buckets_unique(old(buckets)@) ==> buckets_unique(final(buckets)@),
{
    let n = buckets.len();
    let mut i: usize = 0;
    while i < n
        invariant
            n == buckets@.len(),
            buckets@ == old(buckets)@,
            i <= n,
            forall|j: int| 0 <= j < i ==> !(#[trigger] buckets@[j].round == vote.round && buckets@[j].block_hash == vote.block_hash),
        decreases n - i,
    {
        if buckets[i].round == vote.round && hash_eq(&buckets[i].block_hash, &vote.block_hash) {
            proof {
                lemma_bucket_index_found(buckets@, vote.round, vote.block_hash, i as int);
            }
            let mut b = buckets.remove(i);
            b.votes.push(vote);
            buckets.insert(i, b);
            return;
        }
        i = i + 1;
    }
    proof {
        lemma_bucket_index_missing(buckets@, vote.round, vote.block_hash);
    }
    let mut votes: Vec<Vote> = Vec::new();
    let round = vote.round;
    let block_hash = vote.block_hash;
    votes.push(vote);
    buckets.push(VoteBucket { round, block_hash, votes });
}

/// Index of the first bucket with key `(round, hash)`, or the length if
/// there is none.
pub open spec fn bucket_index(b: Seq<VoteBucket>, round: u32, hash: Hash256) -> int
    decreases b.len(),
{
    if b.len() == 0 {
        0
    } else if b[0].round == round && b[0].block_hash == hash {
        0
    } else {
        1 + bucket_index(b.subrange(1, b.len() as int), round, hash)
    }
}

proof fn lemma_bucket_index_found(b: Seq<VoteBucket>, round: u32, hash: Hash256, i: int)
    requires
        0 <= i < b.len(),
        b[i].round == round && b[i].block_hash == hash,
        forall|j: int| 0 <= j < i ==> !(#[trigger] b[j].round == round && b[j].block_hash == hash),
    ensures
        bucket_index(b, round, hash) == i,
    decreases b.len(),
{
    if i > 0 {
        let t = b.subrange(1, b.len() as int);
        assert forall|j: int| 0 <= j < i - 1 implies !(#[trigger] t[j].round == round && t[j].block_hash == hash) by {
            assert(t[j] == b[j + 1]);
        }
        lemma_bucket_index_found(t, round, hash, i - 1);
    }
}

proof fn lemma_bucket_index_missing(b: Seq<VoteBucket>, round: u32, hash: Hash256)
    requires
        forall|j: int| 0 <= j < b.len() ==> !(#[trigger] b[j].round == round && b[j].block_hash == hash),
    ensures
        bucket_index(b, round, hash) == b.len(),
    decreases b.len(),
{
    if b.len() > 0 {
        let t = b.subrange(1, b.len() as int);
        assert forall|j: int| 0 <= j < t.len() implies !(#[trigger] t[j].round == round && t[j].block_hash == hash) by {
            assert(t[j] == b[j + 1]);
        }
        lemma_bucket_index_missing(t, round, hash);
    }
}

impl ConsensusEngine {
    pub fn new(height: u64) -> (e: Self)
        ensures
            e.height == height,
            e.round == 0,
            e.step == Step::NewRound,
            e.locked_round == -1,
            e.locked_value is None,
            e.valid_round == -1,
            e.valid_value is None,
            e.prevotes@.len() == 0,
            e.precommits@.len() == 0,
    {
        ConsensusEngine {
            height,
            round: 0,
            step: Step::NewRound,
            locked_round: -1,
            locked_value: None,
            valid_round: -1,
            valid_value: None,
            prevotes: Vec::new(),
            precommits: Vec::new(),
        }
    }

    pub fn enter_new_round(&mut self, round: u32)
        ensures
            *final(self) == (ConsensusEngine { round, step: Step::NewRound, ..*old(self) }),
    {
        self.round = round;
        self.step = Step::NewRound;
    }

    /// Records a prevote under its `(round, block_hash)`.
    pub fn record_prevote(&mut self, vote: Vote)
        ensures
            recorded(old(self).prevotes@, final(self).prevotes@, vote),
            buckets_unique(old(self).prevotes@) ==> buckets_unique(final(self).prevotes@),
            *final(self) == (ConsensusEngine { prevotes: final(self).prevotes, ..*old(self) }),
    {
        proof {
            lemma_bucket_index_bound(self.prevotes@, vote.round, vote.block_hash);
        }
        record_in(&mut self.prevotes, vote);
    }

    /// Records a precommit under its `(round, block_hash)`.
    pub fn record_precommit(&mut self, vote: Vote)
        ensures
            recorded(old(self).precommits@, final(self).precommits@, vote),
            buckets_unique(old(self).precommits@) ==> buckets_unique(final(self).precommits@),
            *final(self) == (ConsensusEngine { precommits: final(self).precommits, ..*old(self) }),
    {
        proof {
            lemma_bucket_index_bound(self.precommits@, vote.round, vote.block_hash);
        }
        record_in(&mut self.precommits, vote);
    }

    /// On a prevote quorum for a block in the current round: lock on it,
    /// mark it valid, move to Precommit and return its hash.
    pub fn try_lock_on_prevote_quorum(&mut self, validators: &[ValidatorInfo]) -> (r: Option<Hash256>)
        requires
            active_total(validators@) <= u128::MAX,
        ensures
            match first_quorum(old(self).prevotes@, old(self).round, validators@) {
                Some(i) => {
                    let h = old(self).prevotes@[i].block_hash;
                    &&& r == Some(h)
                    &&& *final(self) == (ConsensusEngine {
                        locked_round: old(self).round as i64,
                        locked_value: Some(h),
                        valid_round: old(self).round as i64,
                        valid_value: Some(h),
                        step: Step::Precommit,
                        ..*old(self)
                    })
                },
                None => r is None && *final(self) == *old(self),
            },
    {
        proof {
            lemma_first_quorum_facts(self.prevotes@, self.round, validators@);
        }
        match find_quorum(&self.prevotes, self.round, validators) {
            Some(i) => {
                let h = self.prevotes[i].block_hash;
                self.locked_round = self.round as i64;
                self.locked_value = Some(h);
                self.valid_round = self.round as i64;
                self.valid_value = Some(h);
                self.step = Step::Precommit;
                Some(h)
            },
            None => None,
        }
    }

    /// On a precommit quorum for a block in the current round: move to
    /// Commit and return the certificate (a copy of the quorum's votes).
    pub fn try_commit(&mut self, validators: &[ValidatorInfo]) -> (r: Option<CommitCertificate>)
        requires
            active_total(validators@) <= u128::MAX,
        ensures
            match first_quorum(old(self).precommits@, old(self).round, validators@) {
                Some(i) => {
                    let b = old(self).precommits@[i];
                    &&& r is Some
                    &&& r->Some_0.height == old(self).height
                    &&& r->Some_0.round == old(self).round
                    &&& r->Some_0.block_hash == b.block_hash
                    &&& same_votes(r->Some_0.votes@, b.votes@)
                    &&& *final(self) == (ConsensusEngine { step: Step::Commit, ..*old(self) })
                },
                None => r is None && *final(self) == *old(self),
            },
    {
        proof {
            lemma_first_quorum_facts(self.precommits@, self.round, validators@);
        }
        match find_quorum(&self.precommits, self.round, validators) {
            Some(i) => {
                self.step = Step::Commit;
                let votes = duplicate_votes(&self.precommits[i].votes);
                Some(commit_from_votes(self.height, self.round, self.precommits[i].block_hash, votes))
            },
            None => None,
        }
    }
}

proof fn lemma_bucket_index_bound(b: Seq<VoteBucket>, round: u32, hash: Hash256)
    ensures
        0 <= bucket_index(b, round, hash) <= b.len(),
        bucket_index(b, round, hash) < b.len() ==> b[bucket_index(b, round, hash)].round == round
            && b[bucket_index(b, round, hash)].block_hash == hash,
    decreases b.len(),
{
    if b.len() > 0 {
        let t = b.subrange(1, b.len() as int);
        lemma_bucket_index_bound(t, round, hash);
    }
}

pub fn commit_from_votes(height: u64, round: u32, block_hash: Hash256, votes: Vec<Vote>) -> (c: CommitCertificate)
    ensures
        c == (CommitCertificate { height, round, block_hash, votes }),
{
    CommitCertificate { height, round, block_hash, votes }
}

/// The bytes a vote's signature covers (before tagging).
pub open spec fn vote_message(height: u64, round: u32, block_hash: Hash256, vote_type: VoteType) -> Seq<u8> {
    le_u64(height) + le_u32(round) + block_hash@ + seq![
        match vote_type {
            VoteType::Prevote => 0u8,
            VoteType::Precommit => 1u8,
        },
    ]
}

/// A vote signed by `kp` over the tagged hash of its message.
pub fn make_vote(kp: &Keypair, height: u64, round: u32, block_hash: Hash256, vote_type: VoteType) -> (v: Vote)
    ensures
        v.height == height,
        v.round == round,
        v.block_hash == block_hash,
        v.vote_type == vote_type,
        v.validator@ == spec_address_from_pubkey(ed25519_public(kp.secret())),
        v.signature@ == ed25519_signature(
            kp.secret(),
            spec_tagged_hash(tag("AETH/VOTE/V1"), vote_message(height, round, block_hash, vote_type)),
        ),
{
    let mut msg = vstd::bytes::u64_to_le_bytes(height);
    let rb = vstd::bytes::u32_to_le_bytes(round);
    append_bytes(&mut msg, rb.as_slice());
    append_bytes(&mut msg, block_hash.as_slice());
    let t: u8 = match vote_type {
        VoteType::Prevote => 0,
        VoteType::Precommit => 1,
    };
    msg.push(t);
    proof {
        assert(msg@ =~= vote_message(height, round, block_hash, vote_type));
    }
    let h = tagged_hash("AETH/VOTE/V1", msg.as_slice());
    let signature = kp.sign(h.as_slice());
    Vote { height, round, block_hash, validator: kp.address(), signature, vote_type }
}

/// Solo-validator convenience: a commit certificate holding one precommit.
pub fn solo_commit(kp: &Keypair, height: u64, round: u32, block_hash: Hash256) -> (c: CommitCertificate)
    ensures
        c.height == height,
        c.round == round,
        c.block_hash == block_hash,
        c.votes@.len() == 1,
        c.votes@[0].height == height,
        c.votes@[0].round == round,
        c.votes@[0].block_hash == block_hash,
        c.votes@[0].vote_type == VoteType::Precommit,
        c.votes@[0].validator@ == spec_address_from_pubkey(ed25519_public(kp.secret())),
        c.votes@[0].signature@ == ed25519_signature(
            kp.secret(),
            spec_tagged_hash(tag("AETH/VOTE/V1"), vote_message(height, round, block_hash, VoteType::Precommit)),
        ),
{
    let vote = make_vote(kp, height, round, block_hash, VoteType::Precommit);
    let mut votes: Vec<Vote> = Vec::new();
    votes.push(vote);
    commit_from_votes(height, round, block_hash, votes)
}

// ---------------------------------------------------------------- light client

/// The light header of `block`; its hash is taken over `encoded_header`,
/// the canonical encoding of `block.header`.
pub fn light_header_from_block(block: &Block, encoded_header: &[u8], validators_hash: Hash256) -> (l: LightHeader)
    ensures
        l.hash@ == spec_tagged_hash(tag("AETH/BLOCK/V1"), encoded_header@),
        l.height == block.header.height,
        l.epoch == block.header.epoch,
        l.prev_hash == block.header.prev_hash,
        l.state_root == block.header.state_root,
        l.validators_hash == validators_hash,
        l.time_unix_ms == block.header.time_unix_ms,
        l.gas_used == block.header.gas_used,
        l.base_fee == block.header.base_fee,
{
    let hash = crate::crypto::block_hash(encoded_header);
    LightHeader {
        height: block.header.height,
        epoch: block.header.epoch,
        hash,
        prev_hash: block.header.prev_hash,
        state_root: block.header.state_root,
        validators_hash,
        time_unix_ms: block.header.time_unix_ms,
        gas_used: block.header.gas_used,
        base_fee: block.header.base_fee,
    }
}

/// Why a light header does not follow its predecessor.
#[derive(Clone, Copy, Debug, PartialEq, Eq, Structural)]
pub enum LightError {
    HeightGap { prev: u64, next: u64 },
    PrevHashMismatch,
    TimeSkew,
}

/// The text of each light-client error.
pub open spec fn light_error_text(e: LightError) -> Seq<char> {
    match e {
        LightError::HeightGap { prev, next } => "height gap: "@ + spec_decimal(prev as nat) + " -> "@ + spec_decimal(next as nat),
        LightError::PrevHashMismatch => "prev_hash mismatch"@,
        LightError::TimeSkew => "time went backwards beyond skew"@,
    }
}

impl LightError {
    /// The error as text.
    pub fn message(&self) -> (m: String)
        ensures
            m@ == light_error_text(*self),
    {
        match self {
            LightError::HeightGap { prev, next } => {
                let a = decimal_string(*prev as u128);
                let b = decimal_string(*next as u128);
                String::from_str("height gap: ").concat(a.as_str()).concat(" -> ").concat(b.as_str())
            },
            LightError::PrevHashMismatch => String::from_str("prev_hash mismatch"),
            LightError::TimeSkew => String::from_str("time went backwards beyond skew"),
        }
    }
}

/// Maximum backwards clock skew between consecutive headers (ms).
pub const MAX_BACKWARD_SKEW_MS: u64 = 60_000;

/// Checks that `next` directly follows `prev`: the next height, a link to
/// `prev`'s hash, and time not more than a minute backwards.
pub fn verify_light_transition(prev: &LightHeader, next: &LightHeader) -> (r: Result<(), LightError>)
    requires
        prev.height < u64::MAX,
        next.time_unix_ms + MAX_BACKWARD_SKEW_MS <= u64::MAX,
    ensures
        r == if next.height != prev.height + 1 {
            Err(LightError::HeightGap { prev: prev.height, next: next.height })
        } else if next.prev_hash != prev.hash {
            Err(LightError::PrevHashMismatch)
        } else if next.time_unix_ms + MAX_BACKWARD_SKEW_MS < prev.time_unix_ms {
            Err(LightError::TimeSkew)
        } else {
            Ok(())
        },
{
    if next.height != prev.height + 1 {
        return Err(LightError::HeightGap { prev: prev.height, next: next.height });
    }
    if !hash_eq(&next.prev_hash, &prev.hash) {
        return Err(LightError::PrevHashMismatch);
    }
    if next.time_unix_ms + MAX_BACKWARD_SKEW_MS < prev.time_unix_ms {
        return Err(LightError::TimeSkew);
    }
    Ok(())
}

/// Hash of a validator set over its canonical encoding.
pub fn validators_hash(encoded_validators: &[u8]) -> (h: Hash256)
    ensures
        h@ == spec_tagged_hash(tag("AETH/VALSET/V1"), encoded_validators@),
{
    tagged_hash("AETH/VALSET/V1", encoded_validators)
}

pub fn timeout_propose_ms(round: u32) -> (t: u64)
    ensures
        t == 500 + round * 250,
{
    500 + (round as u64) * 250
}

pub fn timeout_prevote_ms(round: u32) -> (t: u64)
    ensures
        t == 500 + round * 250,
{
    500 + (round as u64) * 250
}

pub fn timeout_precommit_ms(round: u32) -> (t: u64)
    ensures
        t == 500 + round * 250,
{
    500 + (round as u64) * 250
}

/// Law: a set of votes reaches quorum exactly when the non-jailed power
/// behind them is more than two thirds of all non-jailed power (and there
/// is some), when these sums are far enough from `u128::MAX` to be exact.
pub proof fn law_quorum_is_over_two_thirds(votes: Seq<Vote>, vals: Seq<ValidatorInfo>)
    requires
        3 * vote_power(votes, vals) <= u128::MAX,
        2 * active_total(vals) <= u128::MAX,
        vote_power(votes, vals) >= 0,
    ensures
        spec_has_quorum(votes, vals) <==> (active_total(vals) > 0 && 3 * vote_power(votes, vals) > 2 * active_total(vals)),
{
    lemma_active_total_prefix(vals, vals.len() as int);
    assert(vals.subrange(0, vals.len() as int) =~= vals);
}

} // verus!
