use eth2_libp2p::topic::{fork_digest, parse_topic, topic_string, GossipEncoding, GossipKind, GossipTopic};

const KINDS: [GossipKind; 5] = [
    GossipKind::BeaconBlock,
    GossipKind::BeaconAggregateAndProof,
    GossipKind::VoluntaryExit,
    GossipKind::ProposerSlashing,
    GossipKind::AttesterSlashing,
];
const ENCODINGS: [GossipEncoding; 2] = [GossipEncoding::SSZ, GossipEncoding::SSZSnappy];

#[test]
fn topic_text_is_canonical() {
    let s = topic_string(GossipKind::BeaconBlock, GossipEncoding::SSZSnappy, [0xb5, 0x30, 0x3f, 0x2a]);
    assert_eq!(s, "/eth2/b5303f2a/beacon_block/ssz_snappy");
    let s = topic_string(GossipKind::VoluntaryExit, GossipEncoding::SSZ, [0, 1, 0xab, 0xff]);
    assert_eq!(s, "/eth2/0001abff/voluntary_exit/ssz");
}

#[test]
fn topic_round_trip_all() {
    let digests = [[0u8, 0, 0, 0], [0xff, 0xff, 0xff, 0xff], [0x12, 0x34, 0xab, 0xcd]];
    for k in KINDS.iter() {
        for e in ENCODINGS.iter() {
            for d in digests.iter() {
                let s = topic_string(*k, *e, *d);
                let t = parse_topic(&s);
                assert_eq!(t, Some(GossipTopic { kind: *k, encoding: *e, fork_digest: *d }));
            }
        }
    }
}

#[test]
fn topics_differ_across_forks() {
    let a = topic_string(GossipKind::BeaconBlock, GossipEncoding::SSZ, [1, 2, 3, 4]);
    let b = topic_string(GossipKind::BeaconBlock, GossipEncoding::SSZ, [1, 2, 3, 5]);
    assert_ne!(a, b);
    assert_ne!(parse_topic(&a), parse_topic(&b));
}

#[test]
fn parse_rejects_other_text() {
    let bad = [
        "",
        "/eth2/b5303f2a/beacon_block",
        "/eth2/B5303F2A/beacon_block/ssz",
        "/eth2/b5303f2a/beacon_block/ssz/",
        "/eth2/b5303f2/beacon_block/ssz",
        "/eth2/b5303f2a0/beacon_block/ssz",
        "/eth1/b5303f2a/beacon_block/ssz",
        "eth2/b5303f2a/beacon_block/ssz",
        "/eth2/b5303f2a/beacon_blocks/ssz",
        "/eth2/b5303f2a/beacon_block/snappy",
        "/eth2/b5303f2g/beacon_block/ssz",
        "/eth2/b5303f2a/beacon_block//ssz",
        "/eth2/b5303f2a/beacon_block/ssz_snappyy",
        "/eth2/b5303f2a/bëacon_block/ssz",
        "/eth2/b5303f2a/beacon_attestation_1/ssz",
    ];
    for s in bad.iter() {
        assert_eq!(parse_topic(s), None, "{}", s);
    }
}

#[test]
fn fork_digest_of_zero_data() {
    let d = fork_digest([0; 4], [0; 32]);
    assert_eq!(d, [0xf5, 0xa5, 0xfd, 0x42]);
    assert_eq!(fork_digest([0; 4], [0; 32]), d);
}

#[test]
fn fork_digest_mainnet_genesis() {
    let mut root = [0u8; 32];
    let hex = "4b363db94e286120d76eb905340fdd4e54bfe9f06bf33ff6cf5ad27f511bfe95";
    for i in 0..32 {
        root[i] = u8::from_str_radix(&hex[2 * i..2 * i + 2], 16).unwrap();
    }
    assert_eq!(fork_digest([0, 0, 0, 0], root), [0xb5, 0x30, 0x3f, 0x2a]);
    assert_ne!(fork_digest([1, 0, 0, 0], root), [0xb5, 0x30, 0x3f, 0x2a]);
}
