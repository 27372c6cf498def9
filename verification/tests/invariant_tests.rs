use aether::apply::TxContext;
use aether::block::{BlockTx, TxOutcome};
use aether::config::{default_genesis, NodeConfig};
use aether::crypto::{sign_tx, tx_sighash, Keypair};
use aether::errors::StateError;
use aether::proofs::DecodedProofs;
use aether::state::ChainState;
use aether::types::{GenesisAlloc, HybridMode, Origin, OutPoint, ProposalStatus, Transaction, TxKind, TxOutput, WEI_PER_AETH};

fn ctx(sighash: [u8; 32], id: u8, allow_noop: bool) -> TxContext {
    TxContext {
        sighash,
        tx_id: [id; 32],
        keys: None,
        decoded: DecodedProofs { plonk: Err("none".to_string()), fraud: Err("none".to_string()) },
        vote_a: Err("none".to_string()),
        vote_b: Err("none".to_string()),
        allow_noop,
    }
}

fn setup(seed: u8) -> (Keypair, ChainState) {
    let kp = Keypair::from_bytes([seed; 32]);
    let g = default_genesis(&NodeConfig::default(), kp.address(), kp.public_bytes(), HybridMode::Public);
    (kp, ChainState::from_genesis(&g))
}

fn signed(kp: &Keypair, kind: TxKind, nonce: u64, gas_limit: u64, body: &[u8]) -> ([u8; 32], Transaction) {
    let mut tx = Transaction {
        version: 1,
        nonce,
        origin: Origin::Account { from: kp.address() },
        kind,
        gas_limit,
        max_fee_per_gas: 1_000,
        max_priority_fee_per_gas: 0,
        signature: vec![],
        public_key: vec![],
    };
    let sighash = tx_sighash(body);
    sign_tx(&mut tx, kp, &sighash).unwrap();
    (sighash, tx)
}

fn pay(to: [u8; 20], amount: u128) -> TxKind {
    TxKind::Transfer { to, amount, data: vec![] }
}

/// Applies `kind` from the node's account, tips to the community pool.
fn run(kp: &Keypair, s: &mut ChainState, kind: TxKind, nonce: u64, allow_noop: bool) -> aether::types::Receipt {
    let body = [nonce as u8, 77u8];
    let (sh, tx) = signed(kp, kind, nonce, 1_000_000, &body);
    s.apply_tx(&tx, None, &ctx(sh, nonce as u8, allow_noop)).unwrap()
}

#[test]
fn failed_transaction_pays_its_intrinsic_gas() {
    let (kp, mut s) = setup(41);
    let me = kp.address();
    let start = s.get_balance(&me);
    let supply = s.accounted_supply();
    let (sh, tx) = signed(&kp, pay([9u8; 20], start), 0, 100_000, b"all");
    let r = s.apply_tx(&tx, None, &ctx(sh, 1, false)).unwrap();
    assert!(!r.status);
    assert_eq!(r.gas_used, 21_000);
    assert_eq!(r.error, Some("insufficient balance".to_string()));
    assert_eq!(s.get_balance(&me), start - 21_000 * 1_000);
    assert_eq!(s.fee_burned, 21_000_000);
    assert_eq!(s.get_account(&me).nonce, 0);
    assert_eq!(s.get_balance(&[9u8; 20]), 0);
    assert_eq!(s.accounted_supply(), supply);
    assert!(s.verify_supply_invariant().is_ok());
}

#[test]
fn gas_limit_below_the_upfront_gas_is_refused() {
    let (kp, mut s) = setup(42);
    let me = kp.address();
    let start = s.get_balance(&me);
    let (sh, tx) = signed(&kp, pay([9u8; 20], 1), 0, 29_999, b"tight");
    let e = s.apply_tx(&tx, None, &ctx(sh, 1, false)).unwrap_err();
    assert_eq!(e.message(), "invalid tx: gas exceeds limit");
    assert_eq!(s.get_balance(&me), start);
    assert_eq!(s.get_account(&me).nonce, 0);
    assert_eq!(s.fee_burned, 0);
    let (sh, tx) = signed(&kp, pay([9u8; 20], 1), 0, 30_000, b"exact");
    let r = s.apply_tx(&tx, None, &ctx(sh, 2, false)).unwrap();
    assert!(r.status);
    assert_eq!(r.gas_used, 30_000);
}

#[test]
fn sender_that_cannot_reserve_the_gas_is_refused() {
    let (_, mut s) = setup(43);
    let poor = Keypair::from_bytes([44u8; 32]);
    let (sh, tx) = signed(&poor, pay([9u8; 20], 0), 0, 100_000, b"poor");
    let e = s.apply_tx(&tx, None, &ctx(sh, 1, false)).unwrap_err();
    assert!(matches!(e, StateError::InsufficientBalance));
    assert_eq!(e.message(), "insufficient balance");
    assert_eq!(s.get_account(&poor.address()).nonce, 0);
    assert_eq!(s.fee_burned, 0);
}

#[test]
fn unused_gas_is_handed_back() {
    let (kp, mut s) = setup(45);
    let me = kp.address();
    let start = s.get_balance(&me);
    let (sh, tx) = signed(&kp, pay([9u8; 20], 5), 0, 5_000_000, b"roomy");
    let r = s.apply_tx(&tx, None, &ctx(sh, 1, false)).unwrap();
    assert!(r.status);
    assert_eq!(r.gas_used, 30_000);
    assert_eq!(s.get_balance(&me), start - 5 - 30_000 * 1_000);
    assert_eq!(s.fee_burned, 30_000_000);
}

#[test]
fn repeated_genesis_address_adds_up() {
    let kp = Keypair::from_bytes([46u8; 32]);
    let mut g = default_genesis(&NodeConfig::default(), kp.address(), kp.public_bytes(), HybridMode::Public);
    g.alloc.push(GenesisAlloc { address: [8u8; 20], balance: 1 });
    g.alloc.push(GenesisAlloc { address: [8u8; 20], balance: 2 });
    let s = ChainState::from_genesis(&g);
    assert_eq!(s.get_balance(&[8u8; 20]), 3);
    assert_eq!(s.genesis_supply, 1_000_000 * WEI_PER_AETH + 3);
    assert!(s.verify_supply_invariant().is_ok());
}

#[test]
fn genesis_validator_is_active_with_its_power() {
    let (kp, s) = setup(47);
    let v = s.validators.get(&kp.address()).unwrap();
    assert_eq!(v.address, kp.address());
    assert_eq!(v.public_key, kp.public_bytes());
    assert_eq!(v.power, v.shares);
    assert!(v.power > 0);
    assert!(!v.jailed);
    assert!(!v.tombstoned);
    assert_eq!(v.commission_bps, 0);
}

#[test]
fn vetoed_proposal_burns_half_its_deposit() {
    let (kp, mut s) = setup(48);
    let me = kp.address();
    let id = s.next_proposal_id;
    let propose = TxKind::GovernancePropose {
        title: "t".to_string(),
        param_key: "gas_limit".to_string(),
        param_value: "40000000".to_string(),
        deposit: 100 * WEI_PER_AETH,
    };
    assert!(run(&kp, &mut s, propose, 0, false).status);
    assert!(run(&kp, &mut s, TxKind::GovernanceVote { proposal_id: id, option: 3 }, 1, false).status);
    s.height = 51;
    let before = s.get_balance(&me);
    let burned = s.fee_burned;
    let r = run(&kp, &mut s, TxKind::GovernanceEnact { proposal_id: id }, 2, false);
    assert!(r.status);
    let p = s.proposals.get(&id).unwrap();
    assert_eq!(p.status, ProposalStatus::Failed);
    assert_eq!(p.deposit, 0);
    assert_eq!(s.params.gas_limit, 30_000_000);
    assert_eq!(s.get_balance(&me), before + 50 * WEI_PER_AETH - 61_000 * 1_000);
    assert_eq!(s.fee_burned, burned + 50 * WEI_PER_AETH + 61_000 * 1_000);
    assert!(s.verify_supply_invariant().is_ok());
}

#[test]
fn block_is_refused_when_the_supply_invariant_is_broken() {
    let (kp, mut s) = setup(49);
    s.fee_burned = 1;
    let (sh, tx) = signed(&kp, pay([9u8; 20], 1), 0, 100_000, b"blk");
    let txs = vec![BlockTx { tx, ctx: ctx(sh, 1, false) }];
    let (x, check) = s.execute_block(&txs, &kp.address(), 1);
    assert!(check.is_err());
    assert_eq!(x.outcomes, vec![TxOutcome::Requeued]);
    assert!(x.receipts.is_empty());
    assert_eq!(x.gas_used, 0);
    assert_eq!(s.height, 0);
    assert_eq!(s.get_account(&kp.address()).nonce, 0);
}

#[test]
fn block_runs_its_candidates_in_order() {
    let (kp, mut s) = setup(50);
    let (s0, t0) = signed(&kp, pay([9u8; 20], 1), 0, 100_000, b"b0");
    let (s1, t1) = signed(&kp, pay([9u8; 20], 2), 1, 100_000, b"b1");
    let (s2, t2) = signed(&kp, pay([9u8; 20], 3), 5, 100_000, b"b2");
    let txs = vec![
        BlockTx { tx: t0, ctx: ctx(s0, 1, false) },
        BlockTx { tx: t1, ctx: ctx(s1, 2, false) },
        BlockTx { tx: t2, ctx: ctx(s2, 3, false) },
    ];
    let (x, check) = s.execute_block(&txs, &kp.address(), 1);
    assert!(check.is_ok());
    assert_eq!(x.outcomes, vec![TxOutcome::Included, TxOutcome::Included, TxOutcome::Dropped]);
    assert_eq!(x.receipts.len(), 2);
    assert_eq!(x.gas_used, 60_000);
    assert_eq!(s.get_balance(&[9u8; 20]), 3);
    assert_eq!(s.get_account(&kp.address()).nonce, 2);
    assert_eq!(s.height, 1);
    assert!(s.verify_supply_invariant().is_ok());
}

#[test]
fn finalized_batch_cannot_be_finalized_again() {
    let (kp, mut s) = setup(51);
    let id = [6u8; 32];
    let register = TxKind::RollupRegister {
        rollup_id: id,
        sequencer: kp.address(),
        scheme: 0x03,
        verifying_key: vec![],
        challenge_period: 1,
    };
    assert!(run(&kp, &mut s, register, 0, false).status);
    let commit = TxKind::RollupCommit {
        rollup_id: id,
        batch_index: 1,
        prev_state_root: [0u8; 32],
        post_state_root: [3u8; 32],
        da_hash: [0u8; 32],
        proof: vec![],
    };
    assert!(run(&kp, &mut s, commit, 1, false).status);
    assert_eq!(s.rollups.get(&id).unwrap().last_batch, 0);
    let finalize = TxKind::RollupFinalize { rollup_id: id, batch_index: 1 };
    let r = run(&kp, &mut s, finalize.clone(), 2, false);
    assert_eq!(r.error, Some("rollup error: challenge window still open".to_string()));
    s.height = s.height + 1;
    assert!(run(&kp, &mut s, finalize.clone(), 2, false).status);
    let info = s.rollups.get(&id).unwrap();
    assert_eq!(info.last_batch, 1);
    assert_eq!(info.state_root, [3u8; 32]);
    let r = run(&kp, &mut s, finalize, 3, false);
    assert!(!r.status);
    assert_eq!(r.error, Some("rollup error: already finalized".to_string()));
    assert_eq!(s.rollups.get(&id).unwrap().last_batch, 1);
}

#[test]
fn spent_output_cannot_be_spent_again() {
    let (kp, mut s) = setup(52);
    let source = [12u8; 32];
    s.utxos.insert((source, 0), TxOutput { amount: 1_000, owner: kp.address() });
    s.genesis_supply = s.genesis_supply + 1_000;
    assert!(s.verify_supply_invariant().is_ok());
    let mut tx = Transaction {
        version: 1,
        nonce: 0,
        origin: Origin::Utxo { inputs: vec![OutPoint { tx_hash: source, index: 0 }] },
        kind: TxKind::UtxoSpend { outputs: vec![TxOutput { amount: 900, owner: [9u8; 20] }] },
        gas_limit: 100_000,
        max_fee_per_gas: 1_000,
        max_priority_fee_per_gas: 0,
        signature: vec![],
        public_key: vec![],
    };
    let sighash = tx_sighash(b"spend");
    sign_tx(&mut tx, &kp, &sighash).unwrap();
    let r = s.apply_tx(&tx, None, &ctx(sighash, 20, false)).unwrap();
    assert!(r.status);
    assert_eq!(r.gas_used, 41_000);
    assert!(s.utxos.get(&(source, 0)).is_none());
    assert_eq!(s.utxos.get(&([20u8; 32], 0)).unwrap().amount, 900);
    assert!(s.verify_supply_invariant().is_ok());
    let again = s.apply_tx(&tx, None, &ctx(sighash, 21, false)).unwrap();
    assert!(!again.status);
    assert!(s.utxos.get(&([21u8; 32], 0)).is_none());
    assert!(s.verify_supply_invariant().is_ok());
}

fn funded_payer(seed: u8, balance: u128) -> (Keypair, ChainState) {
    let kp = Keypair::from_bytes([seed; 32]);
    let payer = Keypair::from_bytes([seed + 1; 32]);
    let mut g = default_genesis(&NodeConfig::default(), kp.address(), kp.public_bytes(), HybridMode::Public);
    g.alloc.push(GenesisAlloc { address: payer.address(), balance });
    (payer, ChainState::from_genesis(&g))
}

fn tipped_transfer(payer: &Keypair, amount: u128, body: &[u8]) -> ([u8; 32], Transaction) {
    let mut tx = Transaction {
        version: 1,
        nonce: 0,
        origin: Origin::Account { from: payer.address() },
        kind: pay([9u8; 20], amount),
        gas_limit: 1_000_000,
        max_fee_per_gas: 2_000,
        max_priority_fee_per_gas: 10,
        signature: vec![],
        public_key: vec![],
    };
    let sighash = tx_sighash(body);
    sign_tx(&mut tx, payer, &sighash).unwrap();
    (sighash, tx)
}

#[test]
fn transfer_needs_only_the_gas_it_uses() {
    let amount = 5_000u128;
    let (payer, mut s) = funded_payer(60, amount + 30_000 * 1_010);
    let (sh, tx) = tipped_transfer(&payer, amount, b"exact-funds");
    let r = s.apply_tx(&tx, Some(&[5u8; 20]), &ctx(sh, 1, false)).unwrap();
    assert!(r.status);
    assert_eq!(r.gas_used, 30_000);
    assert_eq!(s.get_balance(&payer.address()), 0);
    assert_eq!(s.get_balance(&[9u8; 20]), amount);
    assert_eq!(s.get_balance(&[5u8; 20]), 300_000);
    assert_eq!(s.fee_burned, 30_000_000);
    assert_eq!(s.get_account(&payer.address()).nonce, 1);
    assert!(s.verify_supply_invariant().is_ok());
}

#[test]
fn transfer_short_of_amount_and_gas_fails_and_pays_intrinsic_gas() {
    let amount = 5_000u128;
    let start = amount + 30_000 * 1_010 - 1;
    let (payer, mut s) = funded_payer(62, start);
    let (sh, tx) = tipped_transfer(&payer, amount, b"short-funds");
    let r = s.apply_tx(&tx, Some(&[5u8; 20]), &ctx(sh, 1, false)).unwrap();
    assert!(!r.status);
    assert_eq!(r.gas_used, 21_000);
    assert_eq!(r.error, Some("insufficient balance".to_string()));
    assert_eq!(s.get_balance(&payer.address()), start - 21_000 * 1_000);
    assert_eq!(s.get_balance(&[9u8; 20]), 0);
    assert_eq!(s.get_balance(&[5u8; 20]), 0);
    assert_eq!(s.get_account(&payer.address()).nonce, 0);
    assert!(s.verify_supply_invariant().is_ok());
}

#[test]
fn filter_refusal_carries_the_filter_reason() {
    let kp = Keypair::from_bytes([64u8; 32]);
    let mut pool = aether::mempool::Mempool::new(4, aether::adapters::TransparentOnly);
    let shield = TxKind::ShieldedShield { commitment: [0u8; 32], value: 1, proof: vec![] };
    let (sh, tx) = signed(&kp, shield, 0, 200_000, b"shield");
    let e = pool.insert(tx, &sh, &[1u8; 32]).unwrap_err();
    assert!(matches!(e, StateError::InvalidTx(_)));
    assert_eq!(e.message(), "invalid tx: shielded transactions disabled by policy");
    assert_eq!(pool.len(), 0);
    let (_, bad) = signed(&kp, pay([9u8; 20], 1), 0, 100_000, b"bad");
    let e = pool.insert(bad, &tx_sighash(b"other"), &[2u8; 32]).unwrap_err();
    assert!(matches!(e, StateError::Crypto(_)));
    let (sh, ok) = signed(&kp, pay([9u8; 20], 1), 0, 100_000, b"good");
    assert_eq!(pool.insert(ok, &sh, &[3u8; 32]).unwrap(), [3u8; 32]);
    assert_eq!(pool.len(), 1);
}
