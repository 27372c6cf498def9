use aether::consensus::{
    commit_from_votes, has_quorum, select_proposer, timeout_precommit_ms, timeout_prevote_ms, timeout_propose_ms,
    verify_light_transition, ConsensusEngine, LightError, Step, Vote, VoteType,
};
use aether::types::{zero_hash, LightHeader, ValidatorInfo};

fn validator(byte: u8, power: u128, jailed: bool) -> ValidatorInfo {
    ValidatorInfo {
        address: [byte; 20],
        public_key: vec![],
        power,
        commission_bps: 0,
        jailed,
        shares: 0,
        tombstoned: false,
        jail_until_epoch: 0,
    }
}

fn vote(byte: u8, round: u32, hash: [u8; 32], vote_type: VoteType) -> Vote {
    Vote { height: 1, round, block_hash: hash, validator: [byte; 20], signature: vec![], vote_type }
}

#[test]
fn quorum_two_thirds() {
    let vals = vec![validator(1, 70, false), validator(2, 30, false)];
    let votes = vec![Vote {
        height: 1,
        round: 0,
        block_hash: zero_hash(),
        validator: [1u8; 20],
        signature: vec![],
        vote_type: VoteType::Precommit,
    }];
    assert!(has_quorum(&votes, &vals));
}

#[test]
fn quorum_needs_more_than_two_thirds() {
    let vals = vec![validator(1, 2, false), validator(2, 1, false)];
    // 2 of 3 is exactly two thirds: not enough.
    let votes = vec![vote(1, 0, zero_hash(), VoteType::Prevote)];
    assert!(!has_quorum(&votes, &vals));
    let both = vec![vote(1, 0, zero_hash(), VoteType::Prevote), vote(2, 0, zero_hash(), VoteType::Prevote)];
    assert!(has_quorum(&both, &vals));
}

#[test]
fn quorum_counts_each_validator_once() {
    let vals = vec![validator(1, 40, false), validator(2, 60, false)];
    let votes = vec![
        vote(1, 0, zero_hash(), VoteType::Prevote),
        vote(1, 0, zero_hash(), VoteType::Prevote),
        vote(1, 0, zero_hash(), VoteType::Prevote),
    ];
    assert!(!has_quorum(&votes, &vals));
}

#[test]
fn quorum_ignores_unknown_and_empty_sets() {
    let vals = vec![validator(1, 10, false)];
    let votes = vec![vote(9, 0, zero_hash(), VoteType::Prevote)];
    assert!(!has_quorum(&votes, &vals));
    let jailed = vec![validator(1, 10, true)];
    let own = vec![vote(1, 0, zero_hash(), VoteType::Prevote)];
    assert!(!has_quorum(&own, &jailed));
}

#[test]
fn jailed_voters_do_not_count() {
    let vals = vec![validator(1, 10, false), validator(2, 10, false), validator(3, 100, true)];
    let votes = vec![vote(1, 0, zero_hash(), VoteType::Prevote), vote(3, 0, zero_hash(), VoteType::Prevote)];
    assert!(!has_quorum(&votes, &vals));
    let active = vec![vote(1, 0, zero_hash(), VoteType::Prevote), vote(2, 0, zero_hash(), VoteType::Prevote)];
    assert!(has_quorum(&active, &vals));
}

#[test]
fn proposer_is_an_active_validator() {
    let vals = vec![validator(1, 0, false), validator(2, 50, true), validator(3, 10, false)];
    for h in 0..20u64 {
        assert_eq!(select_proposer(&vals, h, 0), Some([3u8; 20]));
    }
    let none = vec![validator(1, 0, false), validator(2, 5, true)];
    assert_eq!(select_proposer(&none, 1, 0), None);
}

#[test]
fn proposer_is_deterministic() {
    let vals = vec![validator(1, 10, false), validator(2, 20, false), validator(3, 30, false)];
    let a = select_proposer(&vals, 42, 3);
    let b = select_proposer(&vals, 42, 3);
    assert_eq!(a, b);
    assert!(a.is_some());
}

#[test]
fn timeouts_grow_by_a_quarter_second_per_round() {
    assert_eq!(timeout_propose_ms(0), 500);
    assert_eq!(timeout_propose_ms(2), 1000);
    assert_eq!(timeout_prevote_ms(1), 750);
    assert_eq!(timeout_precommit_ms(4), 1500);
}

#[test]
fn engine_locks_and_commits_on_quorum() {
    let vals = vec![validator(1, 70, false), validator(2, 30, false)];
    let hash = [7u8; 32];
    let mut e = ConsensusEngine::new(5);
    assert_eq!(e.step, Step::NewRound);
    assert_eq!(e.locked_round, -1);
    assert_eq!(e.try_lock_on_prevote_quorum(&vals), None);
    e.record_prevote(vote(1, 0, hash, VoteType::Prevote));
    assert_eq!(e.try_lock_on_prevote_quorum(&vals), Some(hash));
    assert_eq!(e.step, Step::Precommit);
    assert_eq!(e.locked_round, 0);
    assert_eq!(e.locked_value, Some(hash));
    assert_eq!(e.valid_value, Some(hash));
    assert!(e.try_commit(&vals).is_none());
    e.record_precommit(vote(1, 0, hash, VoteType::Precommit));
    let c = e.try_commit(&vals).unwrap();
    assert_eq!(e.step, Step::Commit);
    assert_eq!(c.height, 5);
    assert_eq!(c.round, 0);
    assert_eq!(c.block_hash, hash);
    assert_eq!(c.votes.len(), 1);
}

#[test]
fn engine_only_counts_the_current_round() {
    let vals = vec![validator(1, 70, false), validator(2, 30, false)];
    let mut e = ConsensusEngine::new(1);
    e.record_prevote(vote(1, 3, [1u8; 32], VoteType::Prevote));
    assert_eq!(e.try_lock_on_prevote_quorum(&vals), None);
    e.enter_new_round(3);
    assert_eq!(e.round, 3);
    assert_eq!(e.step, Step::NewRound);
    assert_eq!(e.try_lock_on_prevote_quorum(&vals), Some([1u8; 32]));
    assert_eq!(e.locked_round, 3);
}

#[test]
fn commit_certificate_carries_its_fields() {
    let c = commit_from_votes(9, 2, [4u8; 32], vec![vote(1, 2, [4u8; 32], VoteType::Precommit)]);
    assert_eq!(c.height, 9);
    assert_eq!(c.round, 2);
    assert_eq!(c.block_hash, [4u8; 32]);
    assert_eq!(c.votes.len(), 1);
}

fn light(height: u64, hash: u8, prev: u8, time: u64) -> LightHeader {
    LightHeader {
        height,
        epoch: 0,
        hash: [hash; 32],
        prev_hash: [prev; 32],
        state_root: [0u8; 32],
        validators_hash: [0u8; 32],
        time_unix_ms: time,
        gas_used: 0,
        base_fee: 1000,
    }
}

#[test]
fn light_transition_rules() {
    let a = light(10, 1, 0, 100_000);
    assert!(verify_light_transition(&a, &light(11, 2, 1, 100_000)).is_ok());
    assert!(verify_light_transition(&a, &light(11, 2, 1, 40_000)).is_ok());
    let gap = verify_light_transition(&a, &light(12, 2, 1, 100_000)).unwrap_err();
    assert_eq!(gap, LightError::HeightGap { prev: 10, next: 12 });
    assert_eq!(gap.message(), "height gap: 10 -> 12");
    let link = verify_light_transition(&a, &light(11, 2, 9, 100_000)).unwrap_err();
    assert_eq!(link.message(), "prev_hash mismatch");
    let skew = verify_light_transition(&a, &light(11, 2, 1, 39_999)).unwrap_err();
    assert_eq!(skew, LightError::TimeSkew);
    assert_eq!(skew.message(), "time went backwards beyond skew");
}
