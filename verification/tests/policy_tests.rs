use aether::adapters::{AllowAll, TransparentOnly, TxFilter};
use aether::config::{default_genesis, NodeConfig};
use aether::hexcodec::{hex_addr, hex_hash, parse_addr, parse_hash};
use aether::mempool::Mempool;
use aether::node::NodeLedger;
use aether::shielded::StateEncodings;
use aether::state::alloc_total_fits;
use aether::types::{GenesisAlloc, HybridMode, TxKind};
use aether::wallet::wallet_tx;
use aether::zk::{check_transfer_values, ZkError};

#[test]
fn hex_text_reads_back() {
    for a in [[0u8; 20], [0xffu8; 20], [0x0au8; 20]] {
        assert_eq!(parse_addr(&hex_addr(&a)).unwrap(), a);
    }
    let h = [0x7fu8; 32];
    assert_eq!(parse_hash(&hex_hash(&h)).unwrap(), h);
    assert_eq!(parse_hash(&hex_hash(&h)[2..]).unwrap(), h);
}

#[test]
fn transparent_only_refuses_shielded_kinds() {
    let f = TransparentOnly;
    let shield = wallet_tx([1u8; 20], 0, TxKind::ShieldedShield { commitment: [0u8; 32], value: 1, proof: vec![] });
    assert_eq!(f.allow(&shield), Err("shielded transactions disabled by policy".to_string()));
    let unshield = wallet_tx(
        [1u8; 20],
        0,
        TxKind::ShieldedUnshield { anchor: [0u8; 32], nullifier: [0u8; 32], value: 1, proof: vec![] },
    );
    assert!(f.allow(&unshield).is_err());
    let plain = wallet_tx([1u8; 20], 0, TxKind::StakeWithdraw {});
    assert_eq!(f.allow(&plain), Ok(()));
    let mut pool = Mempool::new(4, TransparentOnly);
    assert!(pool.enqueue(shield, &[1u8; 32]).is_ok());
}

#[test]
fn replacing_the_filter_empties_the_mempool() {
    let g = default_genesis(&NodeConfig::default(), [1u8; 20], vec![2u8; 32], HybridMode::Public);
    let enc = StateEncodings { accounts: vec![], utxos: vec![], code: vec![], nullifiers: vec![], rollups: vec![], validators: vec![] };
    let mut l = NodeLedger::new(&g, &enc, Mempool::new(10, AllowAll));
    l.mempool.enqueue(wallet_tx([1u8; 20], 0, TxKind::StakeWithdraw {}), &[1u8; 32]).unwrap();
    let l2 = l.with_filter(TransparentOnly);
    assert_eq!(l2.mempool.len(), 0);
    assert_eq!(l2.blocks.len(), 1);
}

#[test]
fn genesis_allocations_must_fit() {
    let mut g = default_genesis(&NodeConfig::default(), [1u8; 20], vec![2u8; 32], HybridMode::Public);
    assert!(alloc_total_fits(&g));
    g.alloc.push(GenesisAlloc { address: [3u8; 20], balance: u128::MAX });
    assert!(!alloc_total_fits(&g));
}

#[test]
fn transfer_witness_values() {
    assert_eq!(check_transfer_values(100, 90, 10), Ok(()));
    assert_eq!(check_transfer_values(99, 90, 10), Err(ZkError::Witness("insufficient note value".to_string())));
    assert_eq!(check_transfer_values(101, 90, 10), Err(ZkError::Witness("value_in != value_out + fee".to_string())));
}
