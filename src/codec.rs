//! The gossip message codec: a serialized payload, optionally Snappy
//! compressed, with a size window for each payload category.
//!
//! The library frames and checks the serialized bytes of a payload; turning
//! those bytes into typed values is left to the caller.
use crate::topic::{
    GossipEncoding, GossipKind, GossipTopic, parse_topic, topic_of_text, topic_text,
    lemma_topic_round_trip,
};
use vstd::prelude::*;

verus! {

/// Why a message could not be encoded.
#[derive(Clone, Copy, Debug, PartialEq, Eq, Structural)]
pub enum EncodeError {
    /// The serialized payload is longer than its category allows.
    MessageTooLarge,
}

/// Why wire bytes could not be decoded into a message.
#[derive(Clone, Copy, Debug, PartialEq, Eq, Structural)]
pub enum DecodeError {
    /// None of the topics names a known topic.
    UnknownTopic,
    /// The Snappy block is corrupt.
    DecompressionFailed,
    /// The payload is, or claims to be, longer than its category allows.
    PayloadTooLarge,
    /// The payload is shorter than any payload of its category.
    InvalidPayload,
}

/// A gossiped message: its category and its serialized payload.
pub struct PubsubMessage {
    pub kind: GossipKind,
    pub data: Vec<u8>,
}

/// Whether Snappy compresses an input of `n` bytes: its worst-case output,
/// `32 + n + n / 6` bytes, must fit in 32 bits.
pub open spec fn snappy_accepts(n: nat) -> bool {
    32 + n + n / 6 <= 0xFFFF_FFFF
}

/// The most bytes any gossiped payload may have.
pub const GOSSIP_MAX_SIZE: usize = 1048576;

/// The fewest bytes a serialized payload of the category can have.
pub open spec fn min_len(kind: GossipKind) -> nat {
    match kind {
        GossipKind::BeaconBlock => 404,
        GossipKind::BeaconAggregateAndProof => 437,
        GossipKind::VoluntaryExit => 112,
        GossipKind::ProposerSlashing => 416,
        GossipKind::AttesterSlashing => 464,
    }
}

/// The most bytes a serialized payload of the category may have.
pub open spec fn max_len(kind: GossipKind) -> nat {
    match kind {
        GossipKind::BeaconBlock => 1048576,
        GossipKind::BeaconAggregateAndProof => 693,
        GossipKind::VoluntaryExit => 112,
        GossipKind::ProposerSlashing => 416,
        GossipKind::AttesterSlashing => 33232,
    }
}

impl GossipKind {
    /// The fewest bytes a serialized payload of this category can have.
    pub fn min_len(&self) -> (r: usize)
        ensures
            r == min_len(*self),
    {
        match self {
            GossipKind::BeaconBlock => 404,
            GossipKind::BeaconAggregateAndProof => 437,
            GossipKind::VoluntaryExit => 112,
            GossipKind::ProposerSlashing => 416,
            GossipKind::AttesterSlashing => 464,
        }
    }

    /// The most bytes a serialized payload of this category may have.
    pub fn max_len(&self) -> (r: usize)
        ensures
            r == max_len(*self),
            r <= GOSSIP_MAX_SIZE,
    {
        match self {
            GossipKind::BeaconBlock => GOSSIP_MAX_SIZE,
            GossipKind::BeaconAggregateAndProof => 693,
            GossipKind::VoluntaryExit => 112,
            GossipKind::ProposerSlashing => 416,
            GossipKind::AttesterSlashing => 33232,
        }
    }
}

pub uninterp spec fn snappy_block_of(b: Seq<u8>) -> Seq<u8>;

pub uninterp spec fn snappy_claimed_len(b: Seq<u8>) -> Option<usize>;

pub uninterp spec fn snappy_decoded(b: Seq<u8>) -> Option<Seq<u8>>;

/// Relies on `snap::raw::Encoder::compress_vec`: a Snappy block of `b`, a
/// function of `b` alone, which fails only where `max_compress_len` gives 0,
/// that is where the worst-case output would not fit in 32 bits.
#[verifier::external_body]
fn snappy_compress(b: &[u8]) -> (r: Option<Vec<u8>>)
    requires
        snappy_accepts(b@.len()),
    ensures
        r is Some,
        r->0@ == snappy_block_of(b@),
{
    snap::raw::Encoder::new().compress_vec(b).ok()
}

/// Relies on `snap::raw::decompress_len`: the decompressed length that the
/// block header states, read without decompressing; for a block that
/// `compress_vec` made, the length of its input.
#[verifier::external_body]
fn snappy_decompress_len(b: &[u8]) -> (r: Option<usize>)
    ensures
        r == snappy_claimed_len(b@),
        forall|x: Seq<u8>|
            snappy_accepts(x.len()) && b@ == #[trigger] snappy_block_of(x) ==> r == Some(
                x.len() as usize,
            ),
{
    snap::raw::decompress_len(b).ok()
}

/// Relies on `snap::raw::Decoder::decompress_vec`: the bytes that the block
/// `b` holds, or nothing when it is corrupt; a block that `compress_vec` made
/// gives back its input.
#[verifier::external_body]
fn snappy_decompress(b: &[u8]) -> (r: Option<Vec<u8>>)
    ensures
        match r {
            Some(v) => snappy_decoded(b@) == Some(v@),
            None => snappy_decoded(b@) is None,
        },
        forall|x: Seq<u8>|
            snappy_accepts(x.len()) && b@ == #[trigger] snappy_block_of(x) ==> r is Some
                && r->0@ == x,
{
    snap::raw::Decoder::new().decompress_vec(b).ok()
}

/// The bytes that carry `data` on the wire in `encoding`.
pub open spec fn wire_bytes(data: Seq<u8>, encoding: GossipEncoding) -> Seq<u8> {
    match encoding {
        GossipEncoding::SSZ => data,
        GossipEncoding::SSZSnappy => snappy_block_of(data),
    }
}

/// What encoding a message of category `kind` with payload `data` gives.
pub open spec fn encode_spec(kind: GossipKind, data: Seq<u8>, encoding: GossipEncoding) -> Result<
    Seq<u8>,
    EncodeError,
> {
    if data.len() > max_len(kind) {
        Err(EncodeError::MessageTooLarge)
    } else {
        Ok(wire_bytes(data, encoding))
    }
}

/// What a decompressed payload of category `kind` decodes to.
pub open spec fn payload_spec(kind: GossipKind, payload: Seq<u8>) -> Result<
    (GossipKind, Seq<u8>),
    DecodeError,
> {
    if payload.len() > max_len(kind) {
        Err(DecodeError::PayloadTooLarge)
    } else if payload.len() < min_len(kind) {
        Err(DecodeError::InvalidPayload)
    } else {
        Ok((kind, payload))
    }
}

/// The topic named by the first of `topics` that names one.
pub open spec fn first_topic(topics: Seq<Seq<char>>) -> Option<GossipTopic>
    decreases topics.len(),
{
    if topics.len() == 0 {
        None
    } else if topic_of_text(topics[0]) is Some {
        topic_of_text(topics[0])
    } else {
        first_topic(topics.drop_first())
    }
}

/// What the wire bytes `data` decode to in category `kind` and `encoding`.
pub open spec fn wire_spec(kind: GossipKind, encoding: GossipEncoding, data: Seq<u8>) -> Result<
    (GossipKind, Seq<u8>),
    DecodeError,
> {
    match encoding {
        GossipEncoding::SSZ => payload_spec(kind, data),
        GossipEncoding::SSZSnappy => match snappy_claimed_len(data) {
            None => Err(DecodeError::DecompressionFailed),
            Some(n) => if n > max_len(kind) {
                Err(DecodeError::PayloadTooLarge)
            } else {
                match snappy_decoded(data) {
                    None => Err(DecodeError::DecompressionFailed),
                    Some(d) => payload_spec(kind, d),
                }
            },
        },
    }
}

/// What the wire bytes `data` that arrived on `topics` decode to.
pub open spec fn decode_spec(topics: Seq<Seq<char>>, data: Seq<u8>) -> Result<
    (GossipKind, Seq<u8>),
    DecodeError,
> {
    match first_topic(topics) {
        None => Err(DecodeError::UnknownTopic),
        Some(t) => wire_spec(t.kind, t.encoding, data),
    }
}

/// The texts of a list of topic strings.
pub open spec fn topics_view(topics: Seq<String>) -> Seq<Seq<char>> {
    topics.map_values(|t: String| t@)
}

/// Whether `data` arrived on `topics` as the wire bytes of the payload `x`,
/// in the category and encoding of the topic that decoding goes by.
pub open spec fn carries(topics: Seq<Seq<char>>, data: Seq<u8>, x: Seq<u8>) -> bool {
    &&& first_topic(topics) is Some
    &&& x.len() <= max_len(first_topic(topics)->0.kind)
    &&& data == wire_bytes(x, first_topic(topics)->0.encoding)
}

/// Whether a decoding result matches its specification.
pub open spec fn decoded_as(
    r: Result<PubsubMessage, DecodeError>,
    s: Result<(GossipKind, Seq<u8>), DecodeError>,
) -> bool {
    match r {
        Ok(m) => s == Ok::<(GossipKind, Seq<u8>), DecodeError>((m.kind, m.data@)),
        Err(e) => s == Err::<(GossipKind, Seq<u8>), DecodeError>(e),
    }
}

impl PubsubMessage {
    /// The bytes that carry the message on the wire in `encoding`; a payload
    /// over its category's limit is refused.
    pub fn encode(&self, encoding: GossipEncoding) -> (r: Result<Vec<u8>, EncodeError>)
        ensures
            match r {
                Ok(v) => encode_spec(self.kind, self.data@, encoding) == Ok::<
                    Seq<u8>,
                    EncodeError,
                >(v@),
                Err(e) => encode_spec(self.kind, self.data@, encoding) == Err::<
                    Seq<u8>,
                    EncodeError,
                >(e),
            },
    {
        if self.data.len() > self.kind.max_len() {
            return Err(EncodeError::MessageTooLarge);
        }
        match encoding {
            GossipEncoding::SSZ => {
                let mut out: Vec<u8> = Vec::new();
                let mut i: usize = 0;
                while i < self.data.len()
                    invariant
                        i <= self.data@.len(),
                        out@ == self.data@.subrange(0, i as int),
                    decreases self.data.len() - i,
                {
                    out.push(self.data[i]);
                    assert(self.data@.subrange(0, i + 1) == self.data@.subrange(0, i as int).push(
                        self.data@[i as int],
                    ));
                    i = i + 1;
                }
                assert(out@ == self.data@);
                Ok(out)
            },
            GossipEncoding::SSZSnappy => match snappy_compress(self.data.as_slice()) {
                Some(v) => Ok(v),
                None => Err(EncodeError::MessageTooLarge),
            },
        }
    }
}

/// Checks a decompressed payload of category `kind` against its size window
/// and makes it a message.
pub fn decode_payload(kind: GossipKind, payload: Vec<u8>) -> (r: Result<PubsubMessage, DecodeError>)
    ensures
        decoded_as(r, payload_spec(kind, payload@)),
{
    if payload.len() > kind.max_len() {
        Err(DecodeError::PayloadTooLarge)
    } else if payload.len() < kind.min_len() {
        Err(DecodeError::InvalidPayload)
    } else {
        Ok(PubsubMessage { kind, data: payload })
    }
}

/// Decodes wire bytes that arrived in category `kind` and `encoding`. A
/// Snappy block whose header claims more than the category allows is refused
/// before it is decompressed.
pub fn decode_wire(kind: GossipKind, encoding: GossipEncoding, data: &Vec<u8>) -> (r: Result<
    PubsubMessage,
    DecodeError,
>)
    ensures
        decoded_as(r, wire_spec(kind, encoding, data@)),
        forall|x: Seq<u8>|
            x.len() <= max_len(kind) && data@ == #[trigger] wire_bytes(x, encoding) ==> decoded_as(
                r,
                payload_spec(kind, x),
            ),
{
    match encoding {
        GossipEncoding::SSZ => {
            let mut out: Vec<u8> = Vec::new();
            let mut i: usize = 0;
            while i < data.len()
                invariant
                    i <= data@.len(),
                    out@ == data@.subrange(0, i as int),
                decreases data.len() - i,
            {
                out.push(data[i]);
                assert(data@.subrange(0, i + 1) == data@.subrange(0, i as int).push(data@[i as int]));
                i = i + 1;
            }
            assert(out@ == data@);
            decode_payload(kind, out)
        },
        GossipEncoding::SSZSnappy => match snappy_decompress_len(data.as_slice()) {
            None => Err(DecodeError::DecompressionFailed),
            Some(n) => {
                if n > kind.max_len() {
                    return Err(DecodeError::PayloadTooLarge);
                }
                match snappy_decompress(data.as_slice()) {
                    None => Err(DecodeError::DecompressionFailed),
                    Some(d) => decode_payload(kind, d),
                }
            },
        },
    }
}

/// Decodes wire bytes that arrived on `topics`: the first topic that names a
/// known topic gives the category and encoding.
pub fn decode(topics: &Vec<String>, data: &Vec<u8>) -> (r: Result<PubsubMessage, DecodeError>)
    ensures
        decoded_as(r, decode_spec(topics_view(topics@), data@)),
        forall|x: Seq<u8>|
            #[trigger] carries(topics_view(topics@), data@, x) ==> decoded_as(
                r,
                payload_spec(first_topic(topics_view(topics@))->0.kind, x),
            ),
{
    let ghost tv = topics_view(topics@);
    let n = topics.len();
    let mut i: usize = 0;
    assert(tv.subrange(0, n as int) == tv);
    while i < n
        invariant
            i <= n == topics@.len() == tv.len(),
            tv == topics_view(topics@),
            first_topic(tv) == first_topic(tv.subrange(i as int, n as int)),
        decreases n - i,
    {
        let ghost rest = tv.subrange(i as int, n as int);
        assert(rest[0] == tv[i as int]);
        assert(rest.drop_first() == tv.subrange(i + 1, n as int));
        match parse_topic(topics[i].as_str()) {
            Some(t) => {
                assert(first_topic(tv) == Some(t));
                return decode_wire(t.kind, t.encoding, data);
            },
            None => {},
        }
        i = i + 1;
    }
    Err(DecodeError::UnknownTopic)
}

/// A single known topic is the topic that decoding goes by.
pub proof fn lemma_first_topic_single(t: GossipTopic)
    ensures
        first_topic(seq![topic_text(t)]) == Some(t),
{
    let topics = seq![topic_text(t)];
    assert(topics[0] == topic_text(t));
    lemma_topic_round_trip(t);
}

/// A payload within its category's size window encodes without error, to
/// the wire bytes of its encoding, and is accepted back as the same message;
/// `decode` states that the wire bytes of a payload decode to it.
pub proof fn lemma_round_trip(t: GossipTopic, data: Seq<u8>)
    requires
        min_len(t.kind) <= data.len() <= max_len(t.kind),
    ensures
        encode_spec(t.kind, data, t.encoding) == Ok::<Seq<u8>, EncodeError>(
            wire_bytes(data, t.encoding),
        ),
        first_topic(seq![topic_text(t)]) == Some(t),
        payload_spec(t.kind, data) == Ok::<(GossipKind, Seq<u8>), DecodeError>((t.kind, data)),
{
    lemma_first_topic_single(t);
}

} // verus!
