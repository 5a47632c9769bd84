use aetherless::cluster::{ClusterManager, GossipMessage, SignedMessage};
use aetherless::storage::Storage;

#[test]
fn test_signed_message() {
    let payload = GossipMessage::Hello { node_id: "test".into(), rpc_addr: "1.1.1.1".into() };
    let payload_bytes = br#"{"Hello":{"node_id":"test","rpc_addr":"1.1.1.1"}}"#;
    let secret = b"super-secret";

    let signed = SignedMessage::new(payload.clone(), payload_bytes, secret);
    assert!(signed.verify(payload_bytes, secret));
    assert!(!signed.verify(payload_bytes, b"wrong-secret"));
}

#[test]
fn signature_is_lowercase_hex_of_hmac_sha256() {
    let payload = GossipMessage::Goodbye { node_id: "n".into(), timestamp: 1 };
    let signed = SignedMessage::new(payload, b"The quick brown fox jumps over the lazy dog", b"key");
    assert_eq!(signed.sig, "f7bc83f430538424b13298e6aa6fb143ef4d59a14946175997479dbc2d1a3cd8");
    assert!(!signed.verify(b"The quick brown fox jumps over the lazy cog", b"key"));
}

fn manager() -> ClusterManager {
    ClusterManager::new("127.0.0.1:7946", "node-a", Storage::new(), Some("s3cret".to_string()))
}

#[test]
fn gossip_updates_the_peer_table() {
    let mut m = manager();
    m.handle_message(GossipMessage::Hello { node_id: "b".into(), rpc_addr: "10.0.0.2:7946".into() }, 100);
    m.handle_message(GossipMessage::Hello { node_id: "c".into(), rpc_addr: "10.0.0.3:7946".into() }, 101);
    assert_eq!(m.peer_addresses(), vec!["10.0.0.2:7946".to_string(), "10.0.0.3:7946".to_string()]);
    m.handle_message(GossipMessage::Hello { node_id: "b".into(), rpc_addr: "10.0.0.9:7946".into() }, 102);
    assert_eq!(m.peer_addresses(), vec!["10.0.0.9:7946".to_string(), "10.0.0.3:7946".to_string()]);
    m.handle_message(GossipMessage::Heartbeat { node_id: "zzz".into(), timestamp: 5 }, 103);
    assert_eq!(m.peer_addresses().len(), 2);
    m.handle_message(GossipMessage::Goodbye { node_id: "b".into(), timestamp: 5 }, 104);
    assert_eq!(m.peer_addresses(), vec!["10.0.0.3:7946".to_string()]);
    m.handle_message(GossipMessage::StorageUpdate { key: "k".into(), value: vec![1, 2], timestamp: 5 }, 105);
    assert_eq!(m.storage().get("k"), Some(vec![1, 2]));
}

#[test]
fn outgoing_messages_carry_this_node() {
    let m = manager();
    match m.hello_message() {
        GossipMessage::Hello { node_id, rpc_addr } => {
            assert_eq!(node_id, "node-a");
            assert_eq!(rpc_addr, "127.0.0.1:7946");
        }
        _ => panic!("expected a hello"),
    }
    match m.heartbeat_message(9) {
        GossipMessage::Heartbeat { node_id, timestamp } => {
            assert_eq!(node_id, "node-a");
            assert_eq!(timestamp, 9);
        }
        _ => panic!("expected a heartbeat"),
    }
    let signed = m.sign(m.heartbeat_message(9), b"{}");
    assert!(m.accepts(&signed, b"{}"));
    let other = ClusterManager::new("x", "y", Storage::new(), None);
    assert!(!other.accepts(&signed, b"{}"));
}
