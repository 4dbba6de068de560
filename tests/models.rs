use eth2_libp2p::models::{BeaconBlockHeaderAllOf, DepositData, TestingAttesterSlashingBuilder};

#[test]
fn new_models_are_empty() {
    let h = BeaconBlockHeaderAllOf::new();
    assert!(h.body_root.is_none());
    let d = DepositData::new();
    assert!(d.pubkey.is_none());
    assert!(d.withdrawal_credentials.is_none());
    assert!(d.amount.is_none());
    assert!(d.signature.is_none());
    let _builder = TestingAttesterSlashingBuilder();
}
