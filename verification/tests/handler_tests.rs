use aether::apply::TxContext;
use aether::config::{default_genesis, NodeConfig};
use aether::crypto::{sign_tx, tx_sighash, Keypair};
use aether::proofs::DecodedProofs;
use aether::state::ChainState;
use aether::types::{HybridMode, Origin, PacketStatus, ProposalStatus, Transaction, TxKind, WEI_PER_AETH};

fn ctx(sighash: [u8; 32], id: u8, allow_noop: bool) -> TxContext {
    TxContext {
        sighash,
        tx_id: [id; 32],
        keys: None,
        decoded: DecodedProofs { plonk: Err("none".to_string()), fraud: Err("none".to_string()) },
        vote_a: Err("none".to_string()),
        vote_b: Err("none".to_string()),
        allow_noop,
    }
}

fn setup() -> (Keypair, ChainState) {
    let kp = Keypair::from_bytes([11u8; 32]);
    let g = default_genesis(&NodeConfig::default(), kp.address(), kp.public_bytes(), HybridMode::Public);
    (kp, ChainState::from_genesis(&g))
}

/// Signs `kind` from the node's account with the given nonce and applies
/// it, tips to the community pool.
fn run(kp: &Keypair, s: &mut ChainState, kind: TxKind, nonce: u64, allow_noop: bool) -> aether::types::Receipt {
    let mut tx = Transaction {
        version: 1,
        nonce,
        origin: Origin::Account { from: kp.address() },
        kind,
        gas_limit: 1_000_000,
        max_fee_per_gas: 1_000,
        max_priority_fee_per_gas: 0,
        signature: vec![],
        public_key: vec![],
    };
    let body = [nonce as u8, 42u8];
    let sighash = tx_sighash(&body);
    sign_tx(&mut tx, kp, &sighash).unwrap();
    s.apply_tx(&tx, None, &ctx(sighash, nonce as u8, allow_noop)).unwrap()
}

#[test]
fn proposal_passes_and_changes_the_parameter() {
    let (kp, mut s) = setup();
    let me = kp.address();
    let start = s.get_balance(&me);
    let id = s.next_proposal_id;
    let propose = TxKind::GovernancePropose {
        title: "raise gas".to_string(),
        param_key: "gas_limit".to_string(),
        param_value: "40000000".to_string(),
        deposit: 100 * WEI_PER_AETH,
    };
    let r = run(&kp, &mut s, propose, 0, false);
    assert!(r.status);
    assert_eq!(r.gas_used, 81_000);
    assert_eq!(s.next_proposal_id, id + 1);
    assert_eq!(s.get_balance(&me), start - 100 * WEI_PER_AETH - 81_000 * 1_000);
    let p = s.proposals.get(&id).unwrap();
    assert_eq!(p.status, ProposalStatus::Voting);
    assert_eq!(p.voting_end_height, 50);
    assert_eq!(p.deposit, 100 * WEI_PER_AETH);

    let r = run(&kp, &mut s, TxKind::GovernanceVote { proposal_id: id, option: 1 }, 1, false);
    assert!(r.status);
    assert_eq!(s.proposals.get(&id).unwrap().yes, 10_000 * WEI_PER_AETH);

    let r = run(&kp, &mut s, TxKind::GovernanceEnact { proposal_id: id }, 2, false);
    assert!(!r.status);
    assert_eq!(r.error, Some("invalid tx: voting still open".to_string()));

    s.height = 51;
    let r = run(&kp, &mut s, TxKind::GovernanceEnact { proposal_id: id }, 2, false);
    assert!(r.status);
    assert_eq!(s.params.gas_limit, 40_000_000);
    let p = s.proposals.get(&id).unwrap();
    assert_eq!(p.status, ProposalStatus::Enacted);
    assert_eq!(p.enact_height, Some(51));
    assert_eq!(p.deposit, 0);
    assert!(s.verify_supply_invariant().is_ok());
}

#[test]
fn proposal_needs_the_minimum_deposit_and_a_known_key() {
    let (kp, mut s) = setup();
    let id = s.next_proposal_id;
    let small = TxKind::GovernancePropose {
        title: "t".to_string(),
        param_key: "gas_limit".to_string(),
        param_value: "1".to_string(),
        deposit: 99 * WEI_PER_AETH,
    };
    let r = run(&kp, &mut s, small, 0, false);
    assert_eq!(r.error, Some("invalid tx: min deposit 100 AETH".to_string()));
    let unknown = TxKind::GovernancePropose {
        title: "t".to_string(),
        param_key: "color".to_string(),
        param_value: "1".to_string(),
        deposit: 100 * WEI_PER_AETH,
    };
    let r = run(&kp, &mut s, unknown, 0, false);
    assert_eq!(r.error, Some("invalid tx: unknown param color".to_string()));
    assert_eq!(s.next_proposal_id, id);
    assert!(s.proposals.get(&id).is_none());
}

#[test]
fn channel_packets_are_numbered_and_acknowledged() {
    let (kp, mut s) = setup();
    let open = TxKind::BridgeOpenChannel {
        channel_id: "ch-0".to_string(),
        counterparty_chain: "other".to_string(),
        counterparty_channel: "ch-9".to_string(),
    };
    assert!(run(&kp, &mut s, open.clone(), 0, false).status);
    let again = run(&kp, &mut s, open, 1, false);
    assert_eq!(again.error, Some("invalid tx: channel exists".to_string()));

    let send = TxKind::BridgeSendPacket { channel_id: "ch-0".to_string(), data: vec![1, 2, 3], timeout_height: 77 };
    let r = run(&kp, &mut s, send, 1, false);
    assert!(r.status);
    assert_eq!(r.gas_used, 21_000 + 40_000 + 24);
    let c = s.bridges.get(&"ch-0".to_string()).unwrap();
    assert_eq!(c.next_send_seq, 2);
    let p = s.bridge_packets.get(&"ch-0:1".to_string()).unwrap();
    assert_eq!(p.status, PacketStatus::Sent);
    assert_eq!(p.timeout_height, 77);
    assert_eq!(p.data, vec![1, 2, 3]);

    let ack = TxKind::BridgeAck { channel_id: "ch-0".to_string(), sequence: 1, acknowledgement: vec![9] };
    assert!(run(&kp, &mut s, ack.clone(), 2, false).status);
    let p = s.bridge_packets.get(&"ch-0:1".to_string()).unwrap();
    assert_eq!(p.status, PacketStatus::Acked);
    assert_eq!(p.data, vec![9]);
    let r = run(&kp, &mut s, ack, 3, false);
    assert_eq!(r.error, Some("invalid tx: packet not awaiting ack".to_string()));

    let unknown = TxKind::BridgeSendPacket { channel_id: "nope".to_string(), data: vec![], timeout_height: 0 };
    let r = run(&kp, &mut s, unknown, 3, false);
    assert_eq!(r.error, Some("invalid tx: unknown channel".to_string()));
}

#[test]
fn rollup_batches_are_contiguous() {
    let (kp, mut s) = setup();
    let id = [4u8; 32];
    let register = TxKind::RollupRegister {
        rollup_id: id,
        sequencer: kp.address(),
        scheme: 0xFF,
        verifying_key: vec![],
        challenge_period: 0,
    };
    let r = run(&kp, &mut s, register.clone(), 0, false);
    assert_eq!(r.error, Some("rollup error: noop scheme disabled; use 0x01/0x02/0x03".to_string()));
    assert!(run(&kp, &mut s, register, 0, true).status);
    let info = s.rollups.get(&id).unwrap();
    assert_eq!(info.last_batch, 0);
    assert_eq!(info.challenge_period, 10);

    let commit = |batch_index: u64, prev: [u8; 32], post: [u8; 32]| TxKind::RollupCommit {
        rollup_id: id,
        batch_index,
        prev_state_root: prev,
        post_state_root: post,
        da_hash: [0u8; 32],
        proof: vec![],
    };
    let r = run(&kp, &mut s, commit(2, [0u8; 32], [1u8; 32]), 1, true);
    assert_eq!(r.error, Some("rollup error: bad batch index: got 2, expected 1".to_string()));
    assert!(run(&kp, &mut s, commit(1, [0u8; 32], [1u8; 32]), 1, true).status);
    let info = s.rollups.get(&id).unwrap();
    assert_eq!(info.last_batch, 1);
    assert_eq!(info.state_root, [1u8; 32]);
    let r = run(&kp, &mut s, commit(2, [5u8; 32], [2u8; 32]), 2, true);
    assert_eq!(r.error, Some("rollup error: prev state mismatch".to_string()));
    assert!(run(&kp, &mut s, commit(2, [1u8; 32], [2u8; 32]), 2, true).status);
    assert_eq!(s.rollups.get(&id).unwrap().last_batch, 2);
}

#[test]
fn delegation_moves_into_the_unbonding_queue() {
    let (kp, mut s) = setup();
    let me = kp.address();
    let start = s.get_balance(&me);
    let power = s.validators.get(&me).unwrap().power;
    let r = run(&kp, &mut s, TxKind::StakeDelegate { validator: me, amount: 5_000 }, 0, false);
    assert!(r.status);
    assert_eq!(s.validators.get(&me).unwrap().power, power + 5_000);
    assert_eq!(s.delegations.get(&(me, me)).unwrap().shares, 5_000);
    assert_eq!(s.get_balance(&me), start - 5_000 - (r.gas_used as u128) * 1_000);

    let r = run(&kp, &mut s, TxKind::StakeUndelegate { validator: me, amount: 2_000 }, 1, false);
    assert!(r.status);
    assert_eq!(s.delegations.get(&(me, me)).unwrap().shares, 3_000);
    assert_eq!(s.unbonding.len(), 1);
    assert_eq!(s.unbonding[0].amount, 2_000);

    let r = run(&kp, &mut s, TxKind::StakeWithdraw {}, 2, false);
    assert_eq!(r.error, Some("invalid tx: nothing to withdraw".to_string()));
    let r = run(&kp, &mut s, TxKind::StakeDelegate { validator: [8u8; 20], amount: 1 }, 2, false);
    assert_eq!(r.error, Some("invalid tx: unknown validator".to_string()));
    assert!(s.verify_supply_invariant().is_ok());
}

#[test]
fn validators_spend_at_most_a_hundredth_of_the_pool() {
    let (kp, mut s) = setup();
    s.community_pool = 1_000;
    let spend = |amount: u128| TxKind::CommunityPoolSpend { to: [6u8; 20], amount, memo: "grant".to_string() };
    let r = run(&kp, &mut s, spend(11), 0, false);
    assert_eq!(r.error, Some("invalid tx: exceeds 1% pool cap".to_string()));
    let r = run(&kp, &mut s, spend(10), 0, false);
    assert!(r.status);
    assert_eq!(s.community_pool, 990);
    assert_eq!(s.get_balance(&[6u8; 20]), 10);
}
