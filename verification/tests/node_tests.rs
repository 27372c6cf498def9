use aether::adapters::AllowAll;
use aether::apply::TxContext;
use aether::block::{BlockTx, TxOutcome};
use aether::config::{default_genesis, prepare_genesis, FeaturesToml, LimitsToml, NodeConfig, NodeToml};
use aether::consensus::{has_quorum, Vote, VoteType};
use aether::crypto::{merkle_root, sign_tx, tx_sighash, Keypair};
use aether::mempool::Mempool;
use aether::node::NodeLedger;
use aether::notes::{
    algebraic_commit, algebraic_nullifier, fr_to_bytes, hash256_to_fr, mimc_parent, note_commitment, nullifier,
    poseidon_commit, poseidon_nullifier, poseidon_parent, FrBytes, Note,
};
use aether::field::{fr_from_u64, poseidon_hash2};
use aether::proofs::DecodedProofs;
use aether::rollup::compute_valid_post_root;
use aether::shielded::StateEncodings;
use aether::state::ChainState;
use aether::types::{Genesis, HybridMode, Origin, Transaction, TxKind, ValidatorInfo};
use aether::wallet::{wallet_tx, WALLET_MAX_FEE};
use ark_ff::{BigInteger, PrimeField};

fn ctx(sighash: [u8; 32], id: u8) -> TxContext {
    TxContext {
        sighash,
        tx_id: [id; 32],
        keys: None,
        decoded: DecodedProofs { plonk: Err("none".to_string()), fraud: Err("none".to_string()) },
        vote_a: Err("none".to_string()),
        vote_b: Err("none".to_string()),
        allow_noop: false,
    }
}

fn encodings() -> StateEncodings {
    StateEncodings {
        accounts: b"accounts".to_vec(),
        utxos: vec![],
        code: vec![],
        nullifiers: vec![],
        rollups: vec![],
        validators: b"validators".to_vec(),
    }
}

fn transfer(kp: &Keypair, nonce: u64, body: &[u8]) -> ([u8; 32], Transaction) {
    let mut tx = wallet_tx(kp.address(), nonce, TxKind::Transfer { to: [9u8; 20], amount: 5, data: vec![] });
    let sh = tx_sighash(body);
    sign_tx(&mut tx, kp, &sh).unwrap();
    (sh, tx)
}

#[test]
fn produce_a_block() {
    let kp = Keypair::from_bytes([31u8; 32]);
    let g = default_genesis(&NodeConfig::default(), kp.address(), kp.public_bytes(), HybridMode::Public);
    let mut l = NodeLedger::new(&g, &encodings(), Mempool::new(10, AllowAll));
    assert_eq!(l.blocks.len(), 1);
    assert_eq!(l.blocks[0].header.height, 0);
    let (sh, tx) = transfer(&kp, 0, b"t0");
    assert_eq!(l.submit_tx(tx, &sh, &[1u8; 32]).unwrap(), [1u8; 32]);
    let (_, bad) = transfer(&kp, 1, b"t1");
    assert!(l.submit_tx(bad, &tx_sighash(b"other"), &[2u8; 32]).is_err());
    let cands = l.take_candidates();
    assert_eq!(cands.len(), 1);
    assert_eq!(l.mempool.len(), 0);
    let txs: Vec<BlockTx> = cands.into_iter().map(|tx| BlockTx { tx, ctx: ctx(sh, 1) }).collect();
    let run = l.run_block(txs, &kp.address());
    assert!(run.check.is_ok());
    assert_eq!(run.outcomes, vec![TxOutcome::Included]);
    assert_eq!(run.gas_used, 30_000);
    assert_eq!(run.receipt_ids, vec![[1u8; 32]]);
    assert_eq!(l.state.height, 1);
    assert_eq!(l.state.get_balance(&[9u8; 20]), 5);
    assert!(l.receipts.contains_key(&"01".repeat(32)));
    let h = l.next_header(&run, &kp.address(), &[7u8; 32], &[8u8; 32], 123);
    assert_eq!(h.height, 1);
    assert_eq!(h.tx_root, merkle_root(&[[1u8; 32]]));
    assert_eq!(h.receipts_root, merkle_root(&[[1u8; 32]]));
    assert_eq!(h.gas_used, 30_000);
    assert_eq!(h.prev_hash, [7u8; 32]);
    assert_eq!(h.time_unix_ms, 123);
    l.push_block(h, &kp, &[6u8; 32], run.included);
    assert_eq!(l.blocks.len(), 2);
    assert_eq!(l.blocks[1].transactions.len(), 1);
    assert_eq!(l.blocks[1].header.signature, kp.sign(&[6u8; 32]));
    l.record_commit(1, b"commit".to_vec());
    assert_eq!(l.commits.get(&1), Some(&b"commit".to_vec()));
}

#[test]
fn candidates_past_the_gas_limit_are_requeued() {
    let kp = Keypair::from_bytes([32u8; 32]);
    let mut g = default_genesis(&NodeConfig::default(), kp.address(), kp.public_bytes(), HybridMode::Public);
    g.params.gas_limit = 30_000;
    let mut l = NodeLedger::new(&g, &encodings(), Mempool::new(10, AllowAll));
    let (s0, t0) = transfer(&kp, 0, b"a");
    let (s1, t1) = transfer(&kp, 1, b"b");
    let txs = vec![BlockTx { tx: t0, ctx: ctx(s0, 1) }, BlockTx { tx: t1, ctx: ctx(s1, 2) }];
    let run = l.run_block(txs, &kp.address());
    assert_eq!(run.outcomes, vec![TxOutcome::Included, TxOutcome::Requeued]);
    assert_eq!(l.mempool.len(), 1);
    assert_eq!(run.included.len(), 1);
}

#[test]
fn genesis_is_completed_for_the_node() {
    let cfg = NodeConfig::default();
    let empty = Genesis {
        chain_id: "from-file".to_string(),
        alloc: vec![],
        validators: vec![],
        params: Default::default(),
        timestamp: 77,
    };
    let g = prepare_genesis(empty, &cfg, [4u8; 20], vec![5u8; 32], HybridMode::Mixed);
    assert_eq!(g.validators.len(), 1);
    assert_eq!(g.validators[0].address, [4u8; 20]);
    assert_eq!(g.validators[0].power, 10_000 * 1_000_000_000);
    assert_eq!(g.alloc.len(), 1);
    assert_eq!(g.alloc[0].balance, 1_000_000 * 1_000_000_000);
    assert_eq!(g.chain_id, "aether-devnet-1");
    assert_eq!(g.params.chain_id, "aether-devnet-1");
    assert_eq!(g.params.hybrid_mode, HybridMode::Mixed);
    assert_eq!(g.params.block_time_ms, 1000);
    assert_eq!(g.timestamp, 77);
    let mut cfg2 = NodeConfig::default();
    cfg2.chain_id = String::new();
    let g2 = prepare_genesis(g.clone(), &cfg2, [6u8; 20], vec![], HybridMode::Public);
    assert_eq!(g2.chain_id, "aether-devnet-1");
    assert_eq!(g2.validators[0].address, [4u8; 20]);
}

#[test]
fn allowlist_is_seeded_outside_public_mode() {
    let kp = Keypair::from_bytes([33u8; 32]);
    let g = default_genesis(&NodeConfig::default(), kp.address(), kp.public_bytes(), HybridMode::Allowlist);
    let mut s = ChainState::from_genesis(&g);
    s.seed_allowlist(&[8u8; 20]);
    assert_eq!(s.allowlist.len(), 2);
    assert!(s.allowlist.contains_key(&kp.address()));
    assert!(s.allowlist.contains_key(&[8u8; 20]));
    let gp = default_genesis(&NodeConfig::default(), kp.address(), kp.public_bytes(), HybridMode::Public);
    let mut p = ChainState::from_genesis(&gp);
    p.seed_allowlist(&[8u8; 20]);
    assert_eq!(p.allowlist.len(), 0);
}

#[test]
fn toml_settings_override_defaults() {
    let t = NodeToml {
        chain_id: Some("x".to_string()),
        rpc: None,
        hybrid: None,
        block_time_ms: Some(250),
        faucet_aeth: None,
        genesis: None,
        zk_keys: None,
        key_file: Some("k.hex".to_string()),
        p2p_listen: None,
        bootnodes: Some(vec!["a:1".to_string()]),
        limits: Some(LimitsToml { mempool_max_txs: Some(9), rpc_max_body_bytes: None }),
        features: Some(FeaturesToml { enable_shielded: Some(false), enable_rollups: None, allow_noop_rollup: Some(true) }),
    };
    let c = NodeConfig::from_toml(t);
    assert_eq!(c.chain_id, "x");
    assert_eq!(c.rpc, "127.0.0.1:8545");
    assert_eq!(c.block_time_ms, 250);
    assert_eq!(c.key_file, Some("k.hex".to_string()));
    assert_eq!(c.bootnodes, vec!["a:1".to_string()]);
    assert_eq!(c.mempool_max_txs, 9);
    assert!(!c.enable_shielded);
    assert!(c.enable_rollups);
    assert!(c.allow_noop_rollup);
    assert_eq!(c.genesis_path, Some("config/genesis.public.json".to_string()));
}

fn fr_bytes(f: ark_bn254::Fr) -> [u8; 32] {
    let v = f.into_bigint().to_bytes_le();
    let mut out = [0u8; 32];
    out.copy_from_slice(&v);
    out
}

fn fr_of(b: &[u8]) -> ark_bn254::Fr {
    ark_bn254::Fr::from_le_bytes_mod_order(b)
}

fn tagged(tag: &str, data: &[u8]) -> [u8; 32] {
    let mut h = blake3::Hasher::new();
    h.update(tag.as_bytes());
    h.update(&[0xff]);
    h.update(data);
    *h.finalize().as_bytes()
}

#[test]
fn valid_post_root_formula() {
    let prev = [3u8; 32];
    let da = [4u8; 32];
    let secret = fr_from_u64(99);
    let mut buf = prev.to_vec();
    buf.extend_from_slice(&da);
    buf.extend_from_slice(&5u64.to_le_bytes());
    buf.extend_from_slice(&secret);
    let wit = fr_of(&tagged("AETH/ROLLUP/WIT", &buf));
    let g1 = fr_of(&tagged("AETH/ROLLUP/G1", &[]));
    let g2 = fr_of(&tagged("AETH/ROLLUP/G2", &[]));
    let g3 = fr_of(&tagged("AETH/ROLLUP/G3", &[]));
    let expect = fr_of(&prev) + fr_of(&da) * g1 + ark_bn254::Fr::from(5u64) * g2 + wit * g3;
    assert_eq!(compute_valid_post_root(&prev, &da, 5, &secret), fr_bytes(expect));
    assert_ne!(compute_valid_post_root(&prev, &da, 6, &secret), fr_bytes(expect));
}

#[test]
fn poseidon_names_agree() {
    let r = fr_from_u64(11);
    let pk = fr_from_u64(12);
    let note = Note { value: 40, recipient_pk: FrBytes(pk), rseed: FrBytes(r) };
    assert_eq!(poseidon_commit(40, &r, &pk), note_commitment(&note));
    assert_eq!(algebraic_commit(40, &r, &pk), note_commitment(&note));
    let cm = note_commitment(&note);
    assert_eq!(poseidon_nullifier(&r, &cm), nullifier(&r, &cm));
    assert_eq!(algebraic_nullifier(&r, &cm), nullifier(&r, &cm));
    assert_eq!(poseidon_parent(&r, &pk), poseidon_hash2(&r, &pk));
    assert_eq!(mimc_parent(&r, &pk), poseidon_hash2(&r, &pk));
    assert_eq!(fr_to_bytes(&r), r);
    let big = [0xffu8; 32];
    assert_eq!(hash256_to_fr(&big), fr_bytes(fr_of(&big)));
}

#[test]
fn wallet_transactions() {
    let t = wallet_tx([1u8; 20], 3, TxKind::StakeWithdraw {});
    assert_eq!(t.gas_limit, 100_000);
    assert_eq!(t.max_fee_per_gas, WALLET_MAX_FEE);
    assert_eq!(t.max_priority_fee_per_gas, 1);
    assert_eq!(t.version, 1);
    assert_eq!(t.nonce, 3);
    assert!(matches!(t.origin, Origin::Account { from } if from == [1u8; 20]));
    let s = wallet_tx([1u8; 20], 0, TxKind::ShieldedShield { commitment: [0u8; 32], value: 1, proof: vec![] });
    assert_eq!(s.gas_limit, 500_000);
    let c = wallet_tx(
        [1u8; 20],
        0,
        TxKind::RollupCommit {
            rollup_id: [0u8; 32],
            batch_index: 1,
            prev_state_root: [0u8; 32],
            post_state_root: [0u8; 32],
            da_hash: [0u8; 32],
            proof: vec![],
        },
    );
    assert_eq!(c.gas_limit, 800_000);
}

fn validator(byte: u8, power: u128) -> ValidatorInfo {
    ValidatorInfo {
        address: [byte; 20],
        public_key: vec![],
        power,
        commission_bps: 0,
        jailed: false,
        shares: 0,
        tombstoned: false,
        jail_until_epoch: 0,
    }
}

fn vote(byte: u8, hash: u8) -> Vote {
    Vote { height: 1, round: 0, block_hash: [hash; 32], validator: [byte; 20], signature: vec![], vote_type: VoteType::Precommit }
}

#[test]
fn two_quorums_share_a_voter() {
    let vals = vec![validator(1, 1), validator(2, 1), validator(3, 1), validator(4, 1)];
    let a = vec![vote(1, 1), vote(2, 1), vote(3, 1)];
    let b = vec![vote(2, 2), vote(3, 2), vote(4, 2)];
    assert!(has_quorum(&a, &vals) && has_quorum(&b, &vals));
    assert!(a.iter().any(|x| b.iter().any(|y| x.validator == y.validator)));
    let c = vec![vote(3, 2), vote(4, 2)];
    assert!(!has_quorum(&c, &vals));
}

#[test]
fn tombstoned_validator_cannot_bond_again() {
    let kp = Keypair::from_bytes([34u8; 32]);
    let g = default_genesis(&NodeConfig::default(), kp.address(), kp.public_bytes(), HybridMode::Public);
    let mut s = ChainState::from_genesis(&g);
    let mut ev = wallet_tx(kp.address(), 0, TxKind::EvidenceDoubleSign { vote_a: b"a".to_vec(), vote_b: b"b".to_vec() });
    ev.gas_limit = 200_000;
    let sh = tx_sighash(b"evidence");
    sign_tx(&mut ev, &kp, &sh).unwrap();
    let mut c = ctx(sh, 1);
    let mut va = vote(0, 1);
    va.validator = kp.address();
    let mut vb = vote(0, 2);
    vb.validator = kp.address();
    c.vote_a = Ok(va);
    c.vote_b = Ok(vb);
    let r = s.apply_tx(&ev, None, &c).unwrap();
    assert!(r.status);
    let v = s.validators.get(&kp.address()).unwrap();
    assert!(v.tombstoned && v.jailed);
    let mut bond = wallet_tx(kp.address(), 1, TxKind::StakeBond { amount: 1000, commission_bps: 0 });
    let sh2 = tx_sighash(b"bond");
    sign_tx(&mut bond, &kp, &sh2).unwrap();
    let r2 = s.apply_tx(&bond, None, &ctx(sh2, 2)).unwrap();
    assert!(!r2.status);
    assert_eq!(r2.error, Some("invalid tx: validator tombstoned".to_string()));
    assert!(s.validators.get(&kp.address()).unwrap().tombstoned);
}

#[test]
fn produce_block_seals_the_next_block() {
    let kp = Keypair::from_bytes([33u8; 32]);
    let g = default_genesis(&NodeConfig::default(), kp.address(), kp.public_bytes(), HybridMode::Public);
    let mut l = NodeLedger::new(&g, &encodings(), Mempool::new(10, AllowAll));
    let (sh, tx) = transfer(&kp, 0, b"p0");
    let txs = vec![BlockTx { tx, ctx: ctx(sh, 1) }];
    l.produce_block(txs, &kp, &[7u8; 32], 456, |_s: &ChainState| encodings(), |_h: &aether::types::Header| [6u8; 32]).unwrap();
    assert_eq!(l.blocks.len(), 2);
    let b = &l.blocks[1];
    assert_eq!(b.header.height, 1);
    assert_eq!(b.header.prev_hash, [7u8; 32]);
    assert_eq!(b.header.time_unix_ms, 456);
    assert_eq!(b.header.proposer, kp.address());
    assert_eq!(b.header.tx_root, merkle_root(&[[1u8; 32]]));
    assert_eq!(b.header.state_root, l.state.compute_state_root(&encodings()));
    assert_eq!(b.header.signature, kp.sign(&[6u8; 32]));
    assert_eq!(b.transactions.len(), 1);
    assert_eq!(l.state.height, 1);
    assert!(l.state.verify_supply_invariant().is_ok());
}

#[test]
fn produce_block_refuses_a_state_that_breaks_the_supply_invariant() {
    let kp = Keypair::from_bytes([34u8; 32]);
    let g = default_genesis(&NodeConfig::default(), kp.address(), kp.public_bytes(), HybridMode::Public);
    let mut l = NodeLedger::new(&g, &encodings(), Mempool::new(10, AllowAll));
    l.state.fee_burned = 1;
    let (sh, tx) = transfer(&kp, 0, b"p1");
    let txs = vec![BlockTx { tx, ctx: ctx(sh, 1) }];
    let e = l.produce_block(txs, &kp, &[7u8; 32], 456, |_s: &ChainState| encodings(), |_h: &aether::types::Header| [6u8; 32]).unwrap_err();
    assert!(e.message().contains("supply invariant broken"));
    assert_eq!(l.blocks.len(), 1);
    assert_eq!(l.state.height, 0);
    assert_eq!(l.mempool.len(), 1);
}
