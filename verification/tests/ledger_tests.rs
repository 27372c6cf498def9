use aether::adapters::AllowAll;
use aether::apply::TxContext;
use aether::config::{default_genesis, NodeConfig};
use aether::crypto::{sign_tx, tx_sighash, verify_tx, Keypair};
use aether::errors::StateError;
use aether::mempool::Mempool;
use aether::proofs::DecodedProofs;
use aether::state::ChainState;
use aether::types::{Address, HybridMode, Origin, Transaction, TxKind, WEI_PER_AETH};

fn ctx(sighash: [u8; 32], id: u8) -> TxContext {
    TxContext {
        sighash,
        tx_id: [id; 32],
        keys: None,
        decoded: DecodedProofs { plonk: Err("none".to_string()), fraud: Err("none".to_string()) },
        vote_a: Err("none".to_string()),
        vote_b: Err("none".to_string()),
        allow_noop: false,
    }
}

fn transfer(from: Address, to: Address, amount: u128, nonce: u64, prio: u64) -> Transaction {
    Transaction {
        version: 1,
        nonce,
        origin: Origin::Account { from },
        kind: TxKind::Transfer { to, amount, data: vec![] },
        gas_limit: 100_000,
        max_fee_per_gas: 2_000,
        max_priority_fee_per_gas: prio,
        signature: vec![],
        public_key: vec![],
    }
}

fn setup() -> (Keypair, ChainState) {
    let kp = Keypair::from_bytes([7u8; 32]);
    let g = default_genesis(&NodeConfig::default(), kp.address(), kp.public_bytes(), HybridMode::Public);
    (kp, ChainState::from_genesis(&g))
}

fn signed(kp: &Keypair, mut tx: Transaction, body: &[u8]) -> ([u8; 32], Transaction) {
    let sighash = tx_sighash(body);
    sign_tx(&mut tx, kp, &sighash).unwrap();
    (sighash, tx)
}

#[test]
fn genesis_funds_the_node() {
    let (kp, s) = setup();
    assert_eq!(s.get_balance(&kp.address()), 1_000_000 * WEI_PER_AETH);
    assert_eq!(s.get_balance(&[9u8; 20]), 0);
    assert_eq!(s.height, 0);
    assert_eq!(s.base_fee, 1000);
    assert!(s.verify_supply_invariant().is_ok());
    assert_eq!(s.accounted_supply(), 1_000_000 * WEI_PER_AETH);
}

#[test]
fn transfer_moves_value_and_charges_fees() {
    let (kp, mut s) = setup();
    let me = kp.address();
    let (sh, tx) = signed(&kp, transfer(me, [9u8; 20], 1000, 0, 10), b"body-0");
    let start = s.get_balance(&me);
    let r = s.apply_tx(&tx, Some(&[5u8; 20]), &ctx(sh, 1)).unwrap();
    assert!(r.status);
    assert_eq!(r.gas_used, 30_000);
    assert_eq!(r.tx_hash, [1u8; 32]);
    assert!(r.error.is_none());
    assert_eq!(s.get_balance(&[9u8; 20]), 1000);
    // 30000 gas at the 1000 base fee, burned, plus a tip of 10 per gas
    assert_eq!(s.get_balance(&[5u8; 20]), 300_000);
    assert_eq!(s.get_balance(&me), start - 1000 - 30_000_000 - 300_000);
    assert_eq!(s.get_account(&me).nonce, 1);
    assert_eq!(s.fee_burned, 30_000_000);
    assert!(s.verify_supply_invariant().is_ok());
}

#[test]
fn tip_goes_to_the_pool_without_a_proposer() {
    let (kp, mut s) = setup();
    let me = kp.address();
    let (sh, tx) = signed(&kp, transfer(me, [9u8; 20], 1, 0, 10), b"body-pool");
    assert!(s.apply_tx(&tx, None, &ctx(sh, 2)).unwrap().status);
    assert_eq!(s.community_pool, 300_000);
}

#[test]
fn replayed_nonce_is_refused() {
    let (kp, mut s) = setup();
    let me = kp.address();
    let (sh, tx) = signed(&kp, transfer(me, [9u8; 20], 1, 0, 0), b"body-a");
    assert!(s.apply_tx(&tx, None, &ctx(sh, 3)).is_ok());
    let e = s.apply_tx(&tx, None, &ctx(sh, 3)).unwrap_err();
    assert!(matches!(e, StateError::NonceMismatch));
    assert_eq!(e.message(), "nonce mismatch");
    assert_eq!(s.get_account(&me).nonce, 1);
}

#[test]
fn bad_signature_and_low_fee_are_refused() {
    let (kp, mut s) = setup();
    let me = kp.address();
    let (_, tx) = signed(&kp, transfer(me, [9u8; 20], 1, 0, 0), b"body-b");
    let other = tx_sighash(b"another body");
    let e = s.apply_tx(&tx, None, &ctx(other, 4)).unwrap_err();
    assert!(matches!(e, StateError::Crypto(_)));
    assert_eq!(e.message(), "crypto: invalid signature");
    let mut cheap = transfer(me, [9u8; 20], 1, 0, 0);
    cheap.max_fee_per_gas = 999;
    let (sh, cheap) = signed(&kp, cheap, b"body-c");
    let e = s.apply_tx(&cheap, None, &ctx(sh, 5)).unwrap_err();
    assert_eq!(e.message(), "invalid tx: max fee below base fee");
    assert_eq!(s.get_account(&me).nonce, 0);
}

#[test]
fn origin_must_be_the_signer() {
    let (kp, mut s) = setup();
    let (sh, tx) = signed(&kp, transfer([3u8; 20], [9u8; 20], 1, 0, 0), b"body-d");
    let e = s.apply_tx(&tx, None, &ctx(sh, 6)).unwrap_err();
    assert_eq!(e.message(), "invalid tx: origin/pubkey mismatch");
}

#[test]
fn overspending_gives_a_failed_receipt() {
    let (kp, mut s) = setup();
    let me = kp.address();
    let (sh, tx) = signed(&kp, transfer(me, [9u8; 20], u128::MAX / 2, 0, 0), b"body-e");
    let r = s.apply_tx(&tx, None, &ctx(sh, 7)).unwrap();
    assert!(!r.status);
    assert_eq!(r.gas_used, 21_000);
    assert_eq!(r.error, Some("insufficient balance".to_string()));
    assert_eq!(s.get_account(&me).nonce, 0);
    assert_eq!(s.get_balance(&[9u8; 20]), 0);
    assert!(s.verify_supply_invariant().is_ok());
}

#[test]
fn signed_transaction_verifies_to_its_signer() {
    let kp = Keypair::from_bytes([11u8; 32]);
    let (sh, tx) = signed(&kp, transfer(kp.address(), [1u8; 20], 1, 0, 0), b"x");
    assert_eq!(verify_tx(&tx, &sh).unwrap(), kp.address());
}

#[test]
fn mempool_orders_by_tip_then_nonce() {
    let mut pool = Mempool::new(10, AllowAll);
    let a = transfer([1u8; 20], [2u8; 20], 1, 5, 1);
    let b = transfer([1u8; 20], [2u8; 20], 1, 3, 7);
    let c = transfer([1u8; 20], [2u8; 20], 1, 2, 1);
    pool.enqueue(a, &[1u8; 32]).unwrap();
    pool.enqueue(b, &[2u8; 32]).unwrap();
    pool.enqueue(c, &[3u8; 32]).unwrap();
    assert_eq!(pool.len(), 3);
    let out = pool.drain_prioritized();
    let order: Vec<(u64, u64)> = out.iter().map(|t| (t.max_priority_fee_per_gas, t.nonce)).collect();
    assert_eq!(order, vec![(7, 3), (1, 2), (1, 5)]);
    assert!(pool.is_empty());
}

#[test]
fn mempool_refuses_duplicates_and_overflow() {
    let mut pool = Mempool::new(1, AllowAll);
    let t = transfer([1u8; 20], [2u8; 20], 1, 0, 0);
    assert_eq!(pool.enqueue(t.clone(), &[1u8; 32]).unwrap(), [1u8; 32]);
    let e = pool.enqueue(t.clone(), &[1u8; 32]).unwrap_err();
    assert_eq!(e.message(), "invalid tx: duplicate tx");
    let e = pool.enqueue(t, &[2u8; 32]).unwrap_err();
    assert_eq!(e.message(), "invalid tx: mempool full");
    assert_eq!(pool.len(), 1);
}

#[test]
fn mempool_insert_checks_the_signature() {
    let kp = Keypair::from_bytes([12u8; 32]);
    let mut pool = Mempool::new(4, AllowAll);
    let (sh, tx) = signed(&kp, transfer(kp.address(), [2u8; 20], 1, 0, 0), b"m");
    assert!(pool.insert(tx.clone(), &tx_sighash(b"n"), &[1u8; 32]).is_err());
    assert!(pool.is_empty());
    assert_eq!(pool.insert(tx, &sh, &[1u8; 32]).unwrap(), [1u8; 32]);
    assert_eq!(pool.len(), 1);
}
