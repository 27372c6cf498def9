use aether::block::genesis_block;
use aether::config::{default_genesis, NodeConfig};
use aether::types::HybridMode;
use aether::p2p::{encode_frame, frame_body_len, HandshakeVerdict, PeerBook, MAX_FRAME};
use aether::rpc::{
    all_methods, block_at_height, method_name, param_addr, param_first_str, param_hash, param_height, route_method,
    snapshot_source, RpcMethod, RpcParam, SnapshotSource, INVALID_PARAMS, METHOD_NOT_FOUND,
};

#[test]
fn registered_peer_is_counted_once() {
    let mut b = PeerBook::new();
    assert!(b.register_peer("a".to_string()));
    assert!(b.register_peer("a".to_string()));
    assert!(b.register_peer("b".to_string()));
    assert_eq!(b.peer_count(), 2);
    let s = b.score_of("a").unwrap();
    assert_eq!((s.useful, s.invalid), (0, 0));
}

#[test]
fn banned_peer_goes_offline_and_cannot_return() {
    let mut b = PeerBook::new();
    b.register_peer("x".to_string());
    b.ban_peer("x");
    assert!(b.is_banned("x"));
    assert_eq!(b.peer_count(), 0);
    assert!(!b.register_peer("x".to_string()));
    assert_eq!(b.peer_count(), 0);
}

#[test]
fn ban_after_32_invalid_without_useful() {
    let mut b = PeerBook::new();
    b.register_peer("p".to_string());
    for _ in 0..31 {
        assert!(!b.bump_invalid("p"));
    }
    assert!(!b.is_banned("p"));
    assert!(b.bump_invalid("p"));
    assert!(b.is_banned("p"));
    assert_eq!(b.peer_count(), 0);
    assert_eq!(b.score_of("p").unwrap().invalid, 32);
}

#[test]
fn useful_messages_delay_the_ban() {
    let mut b = PeerBook::new();
    b.register_peer("q".to_string());
    for _ in 0..20 {
        b.bump_useful("q");
    }
    for _ in 0..40 {
        assert!(!b.bump_invalid("q"));
    }
    // 41 invalid > 2 * 20 useful
    assert!(b.bump_invalid("q"));
    assert!(b.is_banned("q"));
}

#[test]
fn useful_is_only_counted_for_scored_peers() {
    let mut b = PeerBook::new();
    b.bump_useful("ghost");
    assert!(b.score_of("ghost").is_none());
    assert!(!b.bump_invalid("ghost"));
    assert_eq!(b.score_of("ghost").unwrap().invalid, 1);
    let scores = b.peer_scores();
    assert_eq!(scores, vec![("ghost".to_string(), 0, 1)]);
}

#[test]
fn handshake_outcomes() {
    let mut b = PeerBook::new();
    assert_eq!(b.on_handshake("n1", "aether-devnet", "aether-devnet"), HandshakeVerdict::Accept);
    assert_eq!(b.peer_count(), 1);
    assert_eq!(b.on_handshake("n2", "other", "aether-devnet"), HandshakeVerdict::RejectChain);
    assert_eq!(b.peer_count(), 1);
    assert_eq!(b.score_of("n2").unwrap().invalid, 1);
    b.ban_peer("n3");
    assert_eq!(b.on_handshake("n3", "aether-devnet", "aether-devnet"), HandshakeVerdict::RejectBanned);
    assert_eq!(b.peer_count(), 1);
}

#[test]
fn frame_roundtrip() {
    let body = b"{\"type\":\"status\"}".to_vec();
    let f = encode_frame(&body);
    assert_eq!(&f[..4], &(body.len() as u32).to_le_bytes());
    assert_eq!(&f[4..], body.as_slice());
    assert_eq!(frame_body_len(&f[..4]), Ok(body.len()));
}

#[test]
fn frame_length_limits() {
    assert_eq!(frame_body_len(&0u32.to_le_bytes()), Err("invalid frame len 0".to_string()));
    assert_eq!(frame_body_len(&(MAX_FRAME as u32).to_le_bytes()), Ok(MAX_FRAME));
    assert_eq!(
        frame_body_len(&(MAX_FRAME as u32 + 1).to_le_bytes()),
        Err("invalid frame len 4194305".to_string())
    );
}

#[test]
fn routes_every_method_by_name() {
    let all = all_methods();
    assert_eq!(all.len(), 31);
    for m in all {
        assert_eq!(route_method(method_name(m)).unwrap(), m);
    }
    assert_eq!(route_method("aeth_chainId").unwrap(), RpcMethod::ChainId);
    assert_eq!(route_method("aeth_getBalance").unwrap(), RpcMethod::GetBalance);
}

#[test]
fn unknown_method_is_refused() {
    let e = route_method("eth_call").unwrap_err();
    assert_eq!(e.code, METHOD_NOT_FOUND);
    assert_eq!(e.code, -32601);
    assert_eq!(e.message, "method not found: eth_call");
}

#[test]
fn height_parameter() {
    assert_eq!(param_height(&Some(vec![RpcParam::U64(12)])).unwrap(), 12);
    let e = param_height(&Some(vec![RpcParam::Str("12".to_string())])).unwrap_err();
    assert_eq!(e.code, INVALID_PARAMS);
    assert_eq!(e.message, "height required");
    assert_eq!(param_height(&None).unwrap_err().message, "height required");
    assert_eq!(param_height(&Some(vec![])).unwrap_err().code, -32602);
}

#[test]
fn address_and_hash_parameters() {
    let addr = format!("0x{}", "ab".repeat(20));
    let p = Some(vec![RpcParam::Str(addr)]);
    assert_eq!(param_addr(&p, 0).unwrap(), [0xabu8; 20]);
    assert_eq!(param_addr(&p, 1).unwrap_err().message, "address required");
    let short = Some(vec![RpcParam::Str("0xabcd".to_string())]);
    let e = param_addr(&short, 0).unwrap_err();
    assert_eq!(e.code, -32602);
    assert_eq!(e.message, "address must be 20 bytes");
    let h = Some(vec![RpcParam::Other, RpcParam::Str("11".repeat(32))]);
    assert_eq!(param_hash(&h, 1).unwrap(), [0x11u8; 32]);
    assert_eq!(param_hash(&h, 0).unwrap_err().message, "hash required");
    assert_eq!(param_first_str(&h), None);
    assert_eq!(param_first_str(&Some(vec![RpcParam::Str("x".to_string())])), Some("x".to_string()));
}

#[test]
fn snapshot_argument_kinds() {
    let p = |s: &str| Some(vec![RpcParam::Str(s.to_string())]);
    assert!(matches!(snapshot_source(&p("/tmp/epoch.snap")).unwrap(), SnapshotSource::Path(s) if s == "/tmp/epoch.snap"));
    assert!(matches!(snapshot_source(&p("snap.json")).unwrap(), SnapshotSource::Path(_)));
    assert!(matches!(snapshot_source(&p("a\\b")).unwrap(), SnapshotSource::Path(_)));
    assert!(matches!(snapshot_source(&p("0x0102")).unwrap(), SnapshotSource::Bytes(v) if v == vec![1, 2]));
    assert!(matches!(snapshot_source(&p("ff00")).unwrap(), SnapshotSource::Bytes(v) if v == vec![0xff, 0]));
    let e = snapshot_source(&p("0xzz")).unwrap_err();
    assert_eq!(e.code, -32602);
    assert!(e.message.starts_with("hex: "));
    let e = snapshot_source(&Some(vec![RpcParam::U64(3)])).unwrap_err();
    assert_eq!(e.message, "path or hex bytes required");
    assert_eq!(snapshot_source(&None).unwrap_err().message, "path or hex bytes required");
}

#[test]
fn finds_first_block_at_height() {
    let g = default_genesis(&NodeConfig::default(), [1u8; 20], vec![2u8; 32], HybridMode::Public);
    let b0 = genesis_block(&g, &[0u8; 32]);
    let mut b1 = b0.clone();
    b1.header.height = 1;
    let blocks = vec![b0, b1];
    assert_eq!(block_at_height(&blocks, 1), Some(1));
    assert_eq!(block_at_height(&blocks, 0), Some(0));
    assert_eq!(block_at_height(&blocks, 2), None);
}
