use eth2_libp2p::client::{Client, ClientKind};
use eth2_libp2p::registry::PeerRegistry;

#[test]
fn record_replace_remove() {
    let mut reg = PeerRegistry::new();
    assert!(reg.get(7).is_none());
    let r1 = Client::from_identify_info("Lighthouse/v0.3.1/linux", "ipfs/0.1.0");
    reg.record_identification(7, r1);
    let got = reg.get(7).unwrap();
    assert_eq!(got.kind, ClientKind::Lighthouse);
    assert_eq!(got.version, "v0.3.1");
    let r2 = Client::from_identify_info("teku/v1.0.0", "ipfs/0.2.0");
    reg.record_identification(7, r2);
    let got = reg.get(7).unwrap();
    assert_eq!(got.kind, ClientKind::Teku);
    assert_eq!(got.version, "v1.0.0");
    assert_eq!(got.os_version, "unknown");
    assert_eq!(got.protocol_version, "ipfs/0.2.0");
    assert_eq!(reg.len(), 1);
    let removed = reg.remove(7).unwrap();
    assert_eq!(removed.kind, ClientKind::Teku);
    assert!(reg.get(7).is_none());
    assert!(reg.remove(7).is_none());
    assert_eq!(reg.len(), 0);
}

#[test]
fn identify_leaves_other_peers() {
    let mut reg = PeerRegistry::new();
    reg.identify(1, "nim-libp2p/0.1/linux", "ipfs/0.1.0");
    reg.identify(2, "gobbledygook", "ipfs/0.1.0");
    assert_eq!(reg.get(1).unwrap().kind, ClientKind::Nimbus);
    assert_eq!(reg.get(2).unwrap().kind, ClientKind::Unknown);
    assert_eq!(reg.get(2).unwrap().agent_string.as_deref(), Some("gobbledygook"));
    reg.remove(2);
    assert_eq!(reg.get(1).unwrap().kind, ClientKind::Nimbus);
    assert_eq!(reg.len(), 1);
}
