use eth2_libp2p::codec::{decode, decode_payload, DecodeError, EncodeError, PubsubMessage};
use eth2_libp2p::topic::{topic_string, GossipEncoding, GossipKind};

const KINDS: [GossipKind; 5] = [
    GossipKind::BeaconBlock,
    GossipKind::BeaconAggregateAndProof,
    GossipKind::VoluntaryExit,
    GossipKind::ProposerSlashing,
    GossipKind::AttesterSlashing,
];
const ENCODINGS: [GossipEncoding; 2] = [GossipEncoding::SSZ, GossipEncoding::SSZSnappy];
const DIGEST: [u8; 4] = [0xb5, 0x30, 0x3f, 0x2a];

fn payload(n: usize) -> Vec<u8> {
    (0..n).map(|i| (i * 7 % 251) as u8).collect()
}

fn topics(kind: GossipKind, enc: GossipEncoding) -> Vec<String> {
    vec![topic_string(kind, enc, DIGEST)]
}

#[test]
fn round_trip_every_category_and_encoding() {
    for k in KINDS.iter() {
        for e in ENCODINGS.iter() {
            for n in [k.min_len(), k.max_len()].iter() {
                let m = PubsubMessage { kind: *k, data: payload(*n) };
                let wire = m.encode(*e).unwrap();
                let back = decode(&topics(*k, *e), &wire).unwrap();
                assert_eq!(back.kind, *k);
                assert_eq!(back.data, m.data);
            }
        }
    }
}

#[test]
fn size_windows() {
    assert_eq!(GossipKind::VoluntaryExit.min_len(), 112);
    assert_eq!(GossipKind::VoluntaryExit.max_len(), 112);
    assert_eq!(GossipKind::ProposerSlashing.max_len(), 416);
    assert_eq!(GossipKind::BeaconAggregateAndProof.max_len(), 693);
    assert_eq!(GossipKind::AttesterSlashing.max_len(), 33232);
    assert_eq!(GossipKind::BeaconBlock.max_len(), 1048576);
    assert_eq!(GossipKind::BeaconBlock.min_len(), 404);
}

#[test]
fn snappy_output_is_compressed() {
    let m = PubsubMessage { kind: GossipKind::AttesterSlashing, data: vec![0; 20000] };
    let wire = m.encode(GossipEncoding::SSZSnappy).unwrap();
    assert!(wire.len() < 2000);
    assert_ne!(wire, m.data);
    let plain = m.encode(GossipEncoding::SSZ).unwrap();
    assert_eq!(plain, m.data);
}

#[test]
fn encode_too_large() {
    for e in ENCODINGS.iter() {
        let m = PubsubMessage { kind: GossipKind::VoluntaryExit, data: payload(113) };
        assert_eq!(m.encode(*e), Err(EncodeError::MessageTooLarge));
        let m = PubsubMessage { kind: GossipKind::BeaconBlock, data: payload(1048577) };
        assert_eq!(m.encode(*e), Err(EncodeError::MessageTooLarge));
    }
}

#[test]
fn decode_too_large_plain() {
    let r = decode(&topics(GossipKind::ProposerSlashing, GossipEncoding::SSZ), &payload(417));
    assert_eq!(r.err(), Some(DecodeError::PayloadTooLarge));
}

#[test]
fn decode_false_size_header_refused_before_decompressing() {
    // A varint header claiming 2^21 - 1 bytes, followed by one literal byte.
    let wire = vec![0xff, 0xff, 0x7f, 0x00, 0x41];
    let r = decode(&topics(GossipKind::BeaconBlock, GossipEncoding::SSZSnappy), &wire);
    assert_eq!(r.err(), Some(DecodeError::PayloadTooLarge));
    let big = PubsubMessage { kind: GossipKind::AttesterSlashing, data: vec![1; 20000] };
    let wire = big.encode(GossipEncoding::SSZSnappy).unwrap();
    let r = decode(&topics(GossipKind::VoluntaryExit, GossipEncoding::SSZSnappy), &wire);
    assert_eq!(r.err(), Some(DecodeError::PayloadTooLarge));
}

#[test]
fn decode_corrupt_snappy() {
    let r = decode(&topics(GossipKind::VoluntaryExit, GossipEncoding::SSZSnappy), &vec![0x70, 0xff, 0xff]);
    assert_eq!(r.err(), Some(DecodeError::DecompressionFailed));
    let r = decode(&topics(GossipKind::VoluntaryExit, GossipEncoding::SSZSnappy), &vec![0xff, 0xff, 0xff, 0xff, 0xff, 0xff]);
    assert_eq!(r.err(), Some(DecodeError::DecompressionFailed));
}

#[test]
fn decode_short_payload_is_invalid() {
    let r = decode(&topics(GossipKind::VoluntaryExit, GossipEncoding::SSZ), &vec![]);
    assert_eq!(r.err(), Some(DecodeError::InvalidPayload));
    let r = decode(&topics(GossipKind::BeaconBlock, GossipEncoding::SSZ), &payload(403));
    assert_eq!(r.err(), Some(DecodeError::InvalidPayload));
    let r = decode_payload(GossipKind::AttesterSlashing, payload(463));
    assert_eq!(r.err(), Some(DecodeError::InvalidPayload));
    let r = decode_payload(GossipKind::AttesterSlashing, payload(464)).unwrap();
    assert_eq!(r.data, payload(464));
}

#[test]
fn decode_unknown_topic() {
    let r = decode(&vec![], &payload(112));
    assert_eq!(r.err(), Some(DecodeError::UnknownTopic));
    let r = decode(&vec!["/eth2/b5303f2a/blobs/ssz".to_string(), "garbage".to_string()], &payload(112));
    assert_eq!(r.err(), Some(DecodeError::UnknownTopic));
}

#[test]
fn decode_uses_first_known_topic() {
    let ts = vec![
        "nonsense".to_string(),
        topic_string(GossipKind::VoluntaryExit, GossipEncoding::SSZ, DIGEST),
        topic_string(GossipKind::BeaconBlock, GossipEncoding::SSZ, DIGEST),
    ];
    let m = decode(&ts, &payload(112)).unwrap();
    assert_eq!(m.kind, GossipKind::VoluntaryExit);
}

#[test]
fn decode_arbitrary_input_returns() {
    let mut x: u64 = 0x1234_5678_9abc_def0;
    let candidate_topics = [
        topic_string(GossipKind::BeaconBlock, GossipEncoding::SSZSnappy, DIGEST),
        topic_string(GossipKind::VoluntaryExit, GossipEncoding::SSZ, DIGEST),
        "/eth2/zzzzzzzz/beacon_block/ssz".to_string(),
        "".to_string(),
    ];
    for round in 0..400 {
        x = x.wrapping_mul(6364136223846793005).wrapping_add(1442695040888963407);
        let len = (x >> 33) as usize % 600;
        let mut bytes = Vec::with_capacity(len);
        for _ in 0..len {
            x = x.wrapping_mul(6364136223846793005).wrapping_add(1442695040888963407);
            bytes.push((x >> 56) as u8);
        }
        let ts: Vec<String> = candidate_topics.iter().skip(round % 4).cloned().collect();
        let r = decode(&ts, &bytes);
        if let Ok(m) = r {
            assert!(m.data.len() <= m.kind.max_len());
            assert!(m.data.len() >= m.kind.min_len());
        }
    }
}
