use aether::block::genesis_block;
use aether::config::{default_genesis, parse_amount, parse_bootnodes, parse_hybrid, JsonAmount, NodeConfig};
use aether::crypto::merkle_root;
use aether::governance::is_known_param;
use aether::notes::{empty_root_hash, tree_of, verify_path, NoteTree};
use aether::state::ChainState;
use aether::store::{block_key, commit_key, receipt_key, snapshot_key, stored_height, tip_height, EpochSnapshot};
use aether::types::{default_challenge_period, zero_address, zero_hash, HybridMode, DEFAULT_BASE_FEE};

fn devnet() -> ChainState {
    let g = default_genesis(&NodeConfig::default(), [1u8; 20], vec![2u8; 32], HybridMode::Public);
    ChainState::from_genesis(&g)
}

#[test]
fn base_fee_moves_an_eighth_of_the_deviation() {
    let mut s = devnet();
    assert_eq!(s.params.gas_limit, 30_000_000);
    s.adjust_base_fee(30_000_000);
    assert_eq!(s.base_fee, 1125);
    let mut s = devnet();
    s.adjust_base_fee(0);
    assert_eq!(s.base_fee, 875);
    let mut s = devnet();
    s.adjust_base_fee(15_000_000);
    assert_eq!(s.base_fee, 1000);
    let mut s = devnet();
    s.base_fee = 1;
    s.adjust_base_fee(0);
    assert_eq!(s.base_fee, 1);
}

#[test]
fn governable_parameters() {
    for k in [
        "epoch_length",
        "min_validator_stake",
        "max_validators",
        "unbonding_period",
        "gas_limit",
        "hybrid_mode",
        "allowlist_root",
        "base_fee_max_change",
        "upgrade_height",
        "note_tree_depth",
    ] {
        assert!(is_known_param(k));
    }
    assert!(!is_known_param("base_fee"));
    assert!(!is_known_param("block_time_ms"));
    assert!(!is_known_param(""));
}

#[test]
fn config_parsing() {
    assert_eq!(parse_hybrid("allowlist"), HybridMode::Allowlist);
    assert_eq!(parse_hybrid("mixed"), HybridMode::Mixed);
    assert_eq!(parse_hybrid("public"), HybridMode::Public);
    assert_eq!(parse_hybrid("Mixed"), HybridMode::Public);
    assert_eq!(parse_bootnodes(" a:1, ,b:2 ,"), vec!["a:1".to_string(), "b:2".to_string()]);
    assert!(parse_bootnodes("").is_empty());
    assert_eq!(parse_amount(&JsonAmount::Text("123".to_string())), Ok(123));
    assert_eq!(parse_amount(&JsonAmount::Small(7)), Ok(7));
    assert_eq!(parse_amount(&JsonAmount::BigNumber("340282366920938463463374607431768211455".to_string())), Ok(u128::MAX));
    assert_eq!(parse_amount(&JsonAmount::Text("x".to_string())), Err("parse u128 string".to_string()));
    assert_eq!(parse_amount(&JsonAmount::BigNumber("1e40".to_string())), Err("parse u128 number".to_string()));
    assert_eq!(parse_amount(&JsonAmount::Null), Err("expected string or number for u128".to_string()));
    let c = NodeConfig::default();
    assert_eq!(c.chain_id, "aether-devnet-1");
    assert_eq!(c.mempool_max_txs, 5000);
}

#[test]
fn genesis_block_header() {
    let g = default_genesis(&NodeConfig::default(), [1u8; 20], vec![2u8; 32], HybridMode::Public);
    let b = genesis_block(&g, &[8u8; 32]);
    assert_eq!(b.header.height, 0);
    assert_eq!(b.header.prev_hash, zero_hash());
    assert_eq!(b.header.proposer, zero_address());
    assert_eq!(b.header.tx_root, merkle_root(&[]));
    assert_eq!(b.header.receipts_root, merkle_root(&[]));
    assert_eq!(b.header.state_root, [8u8; 32]);
    assert_eq!(b.header.gas_limit, 30_000_000);
    assert_eq!(b.header.base_fee, DEFAULT_BASE_FEE);
    assert_eq!(b.header.chain_id, "aether-devnet-1");
    assert!(b.transactions.is_empty());
    assert!(b.header.signature.is_empty());
}

#[test]
fn store_keys_and_heights() {
    assert_eq!(block_key(12), "block/12");
    assert_eq!(commit_key(0), "commit/0");
    assert_eq!(snapshot_key(300), "snap/300");
    assert_eq!(receipt_key(&[0xabu8; 32]), format!("receipt/{}", "ab".repeat(32)));
    assert_eq!(stored_height(Some(&9u64.to_le_bytes())), Some(9));
    assert_eq!(stored_height(Some(&[1, 2])), None);
    assert_eq!(tip_height(None), 0);
    assert_eq!(tip_height(Some(&77u64.to_le_bytes())), 77);
    assert_eq!(default_challenge_period(), 10);
}

#[test]
fn snapshot_seal_and_verify() {
    let s = devnet();
    let mut snap = EpochSnapshot::from_state(s, [3u8; 32]);
    assert_eq!(snap.version, 1);
    assert_eq!(snap.height, 0);
    snap.seal(b"encoded snapshot");
    assert!(snap.verify(b"encoded snapshot").is_ok());
    let e = snap.verify(b"tampered").unwrap_err();
    assert_eq!(e.message(), "snapshot: checksum mismatch");
    snap.version = 9;
    assert_eq!(snap.verify(b"encoded snapshot").unwrap_err().message(), "snapshot: unsupported version 9");
}

#[test]
fn note_tree_paths_verify() {
    let mut t = NoteTree::new();
    let empty = t.root();
    let leaves: Vec<[u8; 32]> = (1u8..=5).map(|i| {
        let mut b = [0u8; 32];
        b[0] = i;
        b
    }).collect();
    for (i, l) in leaves.iter().enumerate() {
        assert_eq!(t.append(*l).unwrap(), i);
    }
    assert_ne!(t.root(), empty);
    let root = t.root();
    for (i, l) in leaves.iter().enumerate() {
        let path = t.authentication_path(i).unwrap();
        assert_eq!(path.len(), 8);
        assert!(verify_path(l, i, &path, &root));
        assert!(!verify_path(l, i, &path, &empty));
    }
    assert!(t.authentication_path(5).is_err());
    let _ = empty_root_hash();
    let same = tree_of(&[]);
    assert_eq!(same.root(), empty);
}
