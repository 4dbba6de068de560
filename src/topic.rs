//! Gossip topics: the fork digest that separates traffic across protocol
//! upgrades, and the canonical topic string `/eth2/<digest>/<kind>/<encoding>`.
use crate::text::{chars_eq, chars_of, copy_range};
use vstd::prelude::*;
use vstd::string::*;

verus! {

/// The payload categories that are gossiped.
#[derive(Clone, Copy, Debug, PartialEq, Eq, Structural)]
pub enum GossipKind {
    BeaconBlock,
    BeaconAggregateAndProof,
    VoluntaryExit,
    ProposerSlashing,
    AttesterSlashing,
}

/// How a payload is put on the wire.
#[derive(Clone, Copy, Debug, PartialEq, Eq, Structural)]
pub enum GossipEncoding {
    /// The serialized payload as it is.
    SSZ,
    /// The serialized payload compressed with Snappy.
    SSZSnappy,
}

/// A gossip topic: a payload category and encoding within one fork.
#[derive(Clone, Copy, Debug, PartialEq, Eq)]
pub struct GossipTopic {
    pub kind: GossipKind,
    pub encoding: GossipEncoding,
    pub fork_digest: [u8; 4],
}

pub open spec fn kind_text(k: GossipKind) -> Seq<char> {
    match k {
        GossipKind::BeaconBlock => "beacon_block"@,
        GossipKind::BeaconAggregateAndProof => "beacon_aggregate_and_proof"@,
        GossipKind::VoluntaryExit => "voluntary_exit"@,
        GossipKind::ProposerSlashing => "proposer_slashing"@,
        GossipKind::AttesterSlashing => "attester_slashing"@,
    }
}

pub open spec fn encoding_text(e: GossipEncoding) -> Seq<char> {
    match e {
        GossipEncoding::SSZ => "ssz"@,
        GossipEncoding::SSZSnappy => "ssz_snappy"@,
    }
}

/// The lowercase hexadecimal digit for `n < 16`.
pub open spec fn hex_char(n: int) -> char {
    seq!['0', '1', '2', '3', '4', '5', '6', '7', '8', '9', 'a', 'b', 'c', 'd', 'e', 'f'][n]
}

/// `b` written as two lowercase hexadecimal digits per byte, high nibble first.
pub open spec fn hex_lower(b: Seq<u8>) -> Seq<char> {
    Seq::new(
        2 * b.len(),
        |i: int|
            if i % 2 == 0 {
                hex_char(b[i / 2] as int / 16)
            } else {
                hex_char(b[i / 2] as int % 16)
            },
    )
}

pub open spec fn is_hex_char(c: char) -> bool {
    ('0' <= c && c <= '9') || ('a' <= c && c <= 'f') || ('A' <= c && c <= 'F')
}

pub open spec fn is_lower_hex_char(c: char) -> bool {
    ('0' <= c && c <= '9') || ('a' <= c && c <= 'f')
}

pub open spec fn hex_value(c: char) -> int {
    if '0' <= c && c <= '9' {
        c as int - '0' as int
    } else if 'a' <= c && c <= 'f' {
        c as int - 'a' as int + 10
    } else {
        c as int - 'A' as int + 10
    }
}

/// The bytes that the hexadecimal text `s` denotes, two digits per byte.
pub open spec fn hex_bytes(s: Seq<char>) -> Seq<u8> {
    Seq::new(s.len() / 2, |i: int| (16 * hex_value(s[2 * i]) + hex_value(s[2 * i + 1])) as u8)
}

/// The canonical text of a topic.
pub open spec fn topic_text(t: GossipTopic) -> Seq<char> {
    "/eth2/"@ + hex_lower(t.fork_digest@) + "/"@ + kind_text(t.kind) + "/"@ + encoding_text(
        t.encoding,
    )
}

pub uninterp spec fn merkle_root_of(b: Seq<u8>) -> Seq<u8>;

/// Relies on `tree_hash::merkle_root`: the 32-byte root of `b` packed into
/// 32-byte leaves, a function of `b` alone.
#[verifier::external_body]
fn merkle_root(b: &[u8]) -> (r: Vec<u8>)
    ensures
        r@ == merkle_root_of(b@),
        r@.len() == 32,
{
    tree_hash::merkle_root(b, 0).0.to_vec()
}

/// Relies on `hex::encode`: two lowercase hexadecimal digits for each byte.
#[verifier::external_body]
fn hex_encode(b: &[u8]) -> (r: String)
    ensures
        r@ == hex_lower(b@),
{
    hex::encode(b)
}

/// Relies on `hex::decode`: text of an even number of hexadecimal digits,
/// of either case, decodes to one byte per two digits.
#[verifier::external_body]
fn hex_decode(s: &str) -> (r: Option<Vec<u8>>)
    ensures
        (forall|i: int| 0 <= i < s@.len() ==> is_hex_char(#[trigger] s@[i])) && s@.len() % 2 == 0
            ==> r is Some && r->0@ == hex_bytes(s@),
{
    match hex::decode(s) {
        Ok(v) => Some(v),
        Err(_) => None,
    }
}

/// The fork data that the digest is taken of: the fork version padded with
/// zeros to 32 bytes, then the genesis validators root.
pub open spec fn fork_data(fork_version: Seq<u8>, genesis_root: Seq<u8>) -> Seq<u8> {
    fork_version + Seq::new(28, |i: int| 0u8) + genesis_root
}

/// The fork digest: the first four bytes of the root of the fork data.
pub fn fork_digest(fork_version: [u8; 4], genesis_validators_root: [u8; 32]) -> (r: [u8; 4])
    ensures
        r@ == merkle_root_of(fork_data(fork_version@, genesis_validators_root@)).subrange(0, 4),
{
    let mut data: Vec<u8> = Vec::new();
    let mut i: usize = 0;
    while i < 4
        invariant
            i <= 4,
            data@ == fork_version@.subrange(0, i as int),
        decreases 4 - i,
    {
        data.push(fork_version[i]);
        assert(fork_version@.subrange(0, i + 1) == fork_version@.subrange(0, i as int).push(fork_version@[i as int]));
        i = i + 1;
    }
    while i < 32
        invariant
            4 <= i <= 32,
            data@ == fork_version@ + Seq::new((i - 4) as nat, |j: int| 0u8),
        decreases 32 - i,
    {
        data.push(0);
        assert(fork_version@ + Seq::new((i + 1 - 4) as nat, |j: int| 0u8) =~= (fork_version@ + Seq::new((i - 4) as nat, |j: int| 0u8)).push(0u8));
        i = i + 1;
    }
    let mut k: usize = 0;
    while k < 32
        invariant
            k <= 32,
            data@ == fork_version@ + Seq::new(28, |j: int| 0u8) + genesis_validators_root@.subrange(0, k as int),
        decreases 32 - k,
    {
        data.push(genesis_validators_root[k]);
        assert(genesis_validators_root@.subrange(0, k + 1) == genesis_validators_root@.subrange(0, k as int).push(genesis_validators_root@[k as int]));
        k = k + 1;
    }
    assert(genesis_validators_root@.subrange(0, 32) == genesis_validators_root@);
    let root = merkle_root(data.as_slice());
    let r: [u8; 4] = [root[0], root[1], root[2], root[3]];
    assert(r@ =~= root@.subrange(0, 4));
    r
}

impl GossipKind {
    /// The topic segment that names the kind.
    pub fn as_str(&self) -> (r: &'static str)
        ensures
            r@ == kind_text(*self),
    {
        match self {
            GossipKind::BeaconBlock => "beacon_block",
            GossipKind::BeaconAggregateAndProof => "beacon_aggregate_and_proof",
            GossipKind::VoluntaryExit => "voluntary_exit",
            GossipKind::ProposerSlashing => "proposer_slashing",
            GossipKind::AttesterSlashing => "attester_slashing",
        }
    }
}

impl GossipEncoding {
    /// The topic segment that names the encoding.
    pub fn as_str(&self) -> (r: &'static str)
        ensures
            r@ == encoding_text(*self),
    {
        match self {
            GossipEncoding::SSZ => "ssz",
            GossipEncoding::SSZSnappy => "ssz_snappy",
        }
    }
}

/// The canonical text of the topic for `kind` and `encoding` in the fork
/// with digest `fork_digest`.
pub fn topic_string(kind: GossipKind, encoding: GossipEncoding, fork_digest: [u8; 4]) -> (r: String)
    ensures
        r@ == topic_text(GossipTopic { kind, encoding, fork_digest }),
{
    let mut s = "/eth2/".to_owned();
    let h = hex_encode(fork_digest.as_slice());
    s.append(h.as_str());
    s.append("/");
    s.append(kind.as_str());
    s.append("/");
    s.append(encoding.as_str());
    s
}

pub open spec fn all_kinds() -> Seq<GossipKind> {
    seq![
        GossipKind::BeaconBlock,
        GossipKind::BeaconAggregateAndProof,
        GossipKind::VoluntaryExit,
        GossipKind::ProposerSlashing,
        GossipKind::AttesterSlashing,
    ]
}

pub open spec fn all_encodings() -> Seq<GossipEncoding> {
    seq![GossipEncoding::SSZ, GossipEncoding::SSZSnappy]
}

/// The text that follows the digest segment: `<kind>/<encoding>`.
pub open spec fn tail_text(k: GossipKind, e: GossipEncoding) -> Seq<char> {
    kind_text(k) + "/"@ + encoding_text(e)
}

proof fn lemma_hex_char_is_lower(n: int)
    requires
        0 <= n < 16,
    ensures
        is_lower_hex_char(hex_char(n)),
        hex_value(hex_char(n)) == n,
{
}

proof fn lemma_hex_lower_chars(b: Seq<u8>)
    ensures
        hex_lower(b).len() == 2 * b.len(),
        forall|i: int| 0 <= i < 2 * b.len() ==> is_lower_hex_char(#[trigger] hex_lower(b)[i]),
{
    assert forall|i: int| 0 <= i < 2 * b.len() implies is_lower_hex_char(#[trigger] hex_lower(b)[i]) by {
        if i % 2 == 0 {
            lemma_hex_char_is_lower(b[i / 2] as int / 16);
        } else {
            lemma_hex_char_is_lower(b[i / 2] as int % 16);
        }
    }
}

proof fn lemma_hex_round_trip(b: Seq<u8>)
    ensures
        hex_bytes(hex_lower(b)) == b,
{
    let h = hex_lower(b);
    assert forall|i: int| 0 <= i < b.len() implies #[trigger] hex_bytes(h)[i] == b[i] by {
        assert((2 * i) % 2 == 0);
        assert((2 * i + 1) % 2 == 1);
        assert((2 * i) / 2 == i);
        assert((2 * i + 1) / 2 == i);
        lemma_hex_char_is_lower(b[i] as int / 16);
        lemma_hex_char_is_lower(b[i] as int % 16);
    }
    assert(hex_bytes(h) =~= b);
}

proof fn lemma_hex_lower_of_bytes(h: Seq<char>)
    requires
        h.len() % 2 == 0,
        forall|i: int| 0 <= i < h.len() ==> is_lower_hex_char(#[trigger] h[i]),
    ensures
        hex_lower(hex_bytes(h)) == h,
{
    let b = hex_bytes(h);
    assert forall|i: int| 0 <= i < h.len() implies #[trigger] hex_lower(b)[i] == h[i] by {
        let j = i / 2;
        assert(is_lower_hex_char(h[2 * j]));
        assert(is_lower_hex_char(h[2 * j + 1]));
        let hi = hex_value(h[2 * j]);
        let lo = hex_value(h[2 * j + 1]);
        assert(0 <= hi < 16 && 0 <= lo < 16);
        assert(b[j] as int == 16 * hi + lo);
        assert((16 * hi + lo) / 16 == hi) by (nonlinear_arith)
            requires 0 <= hi < 16 && 0 <= lo < 16;
        assert((16 * hi + lo) % 16 == lo) by (nonlinear_arith)
            requires 0 <= hi < 16 && 0 <= lo < 16;
        if i % 2 == 0 {
            assert(i == 2 * j);
        } else {
            assert(i == 2 * j + 1);
        }
    }
    assert(hex_lower(b) =~= h);
}

#[verifier::rlimit(30)]
proof fn lemma_tail_text_injective(k1: GossipKind, e1: GossipEncoding, k2: GossipKind, e2: GossipEncoding)
    requires
        tail_text(k1, e1) == tail_text(k2, e2),
    ensures
        k1 == k2,
        e1 == e2,
{
    reveal_strlit("beacon_block");
    reveal_strlit("beacon_aggregate_and_proof");
    reveal_strlit("voluntary_exit");
    reveal_strlit("proposer_slashing");
    reveal_strlit("attester_slashing");
    reveal_strlit("ssz");
    reveal_strlit("ssz_snappy");
    reveal_strlit("/");
    let t = tail_text(k1, e1);
    let n = t.len();
    if e1 != e2 {
        assert(t[n - 1] == tail_text(k2, e2)[n - 1]);
        assert(false);
    }
    assert(encoding_text(e1).len() == encoding_text(e2).len());
    assert(kind_text(k1).len() == kind_text(k2).len());
    if k1 != k2 {
        assert(t[0] == tail_text(k2, e2)[0]);
        assert(t[1] == tail_text(k2, e2)[1]);
        assert(false);
    }
}

/// Two topics with the same text are the same topic.
pub proof fn lemma_topic_text_injective(t1: GossipTopic, t2: GossipTopic)
    requires
        topic_text(t1) == topic_text(t2),
    ensures
        t1 == t2,
{
    reveal_strlit("/eth2/");
    reveal_strlit("/");
    let s = topic_text(t1);
    let h1 = hex_lower(t1.fork_digest@);
    let h2 = hex_lower(t2.fork_digest@);
    assert(s.subrange(6, 14) == h1);
    assert(topic_text(t2).subrange(6, 14) == h2);
    lemma_hex_round_trip(t1.fork_digest@);
    lemma_hex_round_trip(t2.fork_digest@);
    assert(t1.fork_digest@ == t2.fork_digest@);
    assert(t1.fork_digest =~= t2.fork_digest);
    assert(s.subrange(15, s.len() as int) == tail_text(t1.kind, t1.encoding));
    assert(topic_text(t2).subrange(15, s.len() as int) == tail_text(t2.kind, t2.encoding));
    lemma_tail_text_injective(t1.kind, t1.encoding, t2.kind, t2.encoding);
}

/// The text of a topic, cut at its fixed positions.
proof fn lemma_topic_text_parts(t: GossipTopic)
    ensures
        topic_text(t).len() >= 15,
        topic_text(t).subrange(0, 6) == "/eth2/"@,
        topic_text(t).subrange(6, 14) == hex_lower(t.fork_digest@),
        topic_text(t)[14] == '/',
        topic_text(t).subrange(15, topic_text(t).len() as int) == tail_text(t.kind, t.encoding),
{
    reveal_strlit("/eth2/");
    reveal_strlit("/");
    let s = topic_text(t);
    assert(s.subrange(0, 6) =~= "/eth2/"@);
    assert(s.subrange(6, 14) =~= hex_lower(t.fork_digest@));
    assert(s.subrange(15, s.len() as int) =~= tail_text(t.kind, t.encoding));
}

/// The characters of `<kind>/<encoding>`.
fn tail_chars(k: GossipKind, e: GossipEncoding) -> (r: Vec<char>)
    ensures
        r@ == tail_text(k, e),
{
    let mut r = chars_of(k.as_str());
    let mut slash = chars_of("/");
    let mut enc = chars_of(e.as_str());
    r.append(&mut slash);
    r.append(&mut enc);
    r
}

/// The topic whose canonical text is `s`, if there is one.
pub open spec fn topic_of_text(s: Seq<char>) -> Option<GossipTopic> {
    if exists|t: GossipTopic| s == topic_text(t) {
        Some(choose|t: GossipTopic| s == topic_text(t))
    } else {
        None
    }
}

/// Reads a topic from its canonical text; any other text gives `None`.
pub fn parse_topic(s: &str) -> (r: Option<GossipTopic>)
    ensures
        r == topic_of_text(s@),
{
    let r = parse_topic_inner(s);
    proof {
        if r is Some {
            let c = choose|t: GossipTopic| s@ == topic_text(t);
            lemma_topic_text_injective(r->0, c);
        }
    }
    r
}

/// The kind and encoding whose `<kind>/<encoding>` text is `rest`, if any.
#[verifier::rlimit(30)]
fn find_tail(rest: &Vec<char>) -> (r: Option<(GossipKind, GossipEncoding)>)
    ensures
        match r {
            Some((k, e)) => rest@ == tail_text(k, e),
            None => forall|k: GossipKind, e: GossipEncoding| rest@ != tail_text(k, e),
        },
{
    let kinds: [GossipKind; 5] = [
        GossipKind::BeaconBlock,
        GossipKind::BeaconAggregateAndProof,
        GossipKind::VoluntaryExit,
        GossipKind::ProposerSlashing,
        GossipKind::AttesterSlashing,
    ];
    let encodings: [GossipEncoding; 2] = [GossipEncoding::SSZ, GossipEncoding::SSZSnappy];
    assert(kinds@ =~= all_kinds());
    assert(encodings@ =~= all_encodings());
    let mut a: usize = 0;
    while a < 5
        invariant
            a <= 5,
            kinds@ == all_kinds(),
            encodings@ == all_encodings(),
            forall|x: int, y: int|
                0 <= x < a && 0 <= y < 2 ==> rest@ != tail_text(
                    #[trigger] all_kinds()[x],
                    #[trigger] all_encodings()[y],
                ),
        decreases 5 - a,
    {
        let mut b: usize = 0;
        while b < 2
            invariant
                a < 5,
                b <= 2,
                kinds@ == all_kinds(),
                encodings@ == all_encodings(),
                forall|x: int, y: int|
                    0 <= x < a && 0 <= y < 2 ==> rest@ != tail_text(
                        #[trigger] all_kinds()[x],
                        #[trigger] all_encodings()[y],
                    ),
                forall|y: int|
                    0 <= y < b ==> rest@ != tail_text(all_kinds()[a as int], #[trigger] all_encodings()[y]),
            decreases 2 - b,
        {
            let cand = tail_chars(kinds[a], encodings[b]);
            if chars_eq(rest, &cand) {
                return Some((kinds[a], encodings[b]));
            }
            b = b + 1;
        }
        a = a + 1;
    }
    proof {
        assert forall|k: GossipKind, e: GossipEncoding| rest@ != tail_text(k, e) by {
            let x: int = match k {
                GossipKind::BeaconBlock => 0,
                GossipKind::BeaconAggregateAndProof => 1,
                GossipKind::VoluntaryExit => 2,
                GossipKind::ProposerSlashing => 3,
                GossipKind::AttesterSlashing => 4,
            };
            let y: int = match e {
                GossipEncoding::SSZ => 0,
                GossipEncoding::SSZSnappy => 1,
            };
            assert(all_kinds()[x] == k);
            assert(all_encodings()[y] == e);
        }
    }
    None
}

/// Whether every character of `c` from `from` up to `to` is a lowercase hex digit.
fn all_lower_hex(c: &Vec<char>, from: usize, to: usize) -> (r: bool)
    requires
        from <= to <= c@.len(),
    ensures
        r == forall|j: int| from <= j < to ==> is_lower_hex_char(#[trigger] c@[j]),
{
    let mut i: usize = from;
    while i < to
        invariant
            from <= i <= to <= c@.len(),
            forall|j: int| from <= j < i ==> is_lower_hex_char(#[trigger] c@[j]),
        decreases to - i,
    {
        let ch = c[i];
        if !(('0' <= ch && ch <= '9') || ('a' <= ch && ch <= 'f')) {
            return false;
        }
        i = i + 1;
    }
    true
}

/// No text of fewer than 15 characters, or whose fixed parts are wrong, is a topic.
proof fn lemma_not_topic(c: Seq<char>)
    requires
        c.len() < 15 || c.subrange(0, 6) != "/eth2/"@ || c[14] != '/' || !(forall|j: int|
            6 <= j < 14 ==> is_lower_hex_char(#[trigger] c[j])),
    ensures
        forall|t: GossipTopic| c != topic_text(t),
{
    assert forall|t: GossipTopic| c != topic_text(t) by {
        lemma_topic_text_parts(t);
        lemma_hex_lower_chars(t.fork_digest@);
        if c == topic_text(t) {
            assert forall|j: int| 6 <= j < 14 implies is_lower_hex_char(#[trigger] c[j]) by {
                assert(c[j] == topic_text(t).subrange(6, 14)[j - 6]);
            }
        }
    }
}

/// The digits at the digest's place, when all lowercase, are the text of
/// the bytes they denote.
proof fn lemma_lower_hex_range(c: Seq<char>)
    requires
        c.len() >= 14,
        forall|j: int| 6 <= j < 14 ==> is_lower_hex_char(#[trigger] c[j]),
    ensures
        forall|j: int| 0 <= j < 8 ==> is_hex_char(#[trigger] c.subrange(6, 14)[j]),
        hex_lower(hex_bytes(c.subrange(6, 14))) == c.subrange(6, 14),
{
    let h = c.subrange(6, 14);
    assert forall|j: int| 0 <= j < h.len() implies is_lower_hex_char(#[trigger] h[j]) by {
        assert(h[j] == c[6 + j]);
    }
    assert forall|j: int| 0 <= j < 8 implies is_hex_char(#[trigger] h[j]) by {
        assert(is_lower_hex_char(h[j]));
    }
    lemma_hex_lower_of_bytes(h);
}

/// Text whose fixed parts are right and whose digest and tail are those of
/// `t` is the text of `t`.
proof fn lemma_topic_from_parts(c: Seq<char>, t: GossipTopic)
    requires
        c.len() >= 15,
        c.subrange(0, 6) == "/eth2/"@,
        c.subrange(6, 14) == hex_lower(t.fork_digest@),
        c[14] == '/',
        c.subrange(15, c.len() as int) == tail_text(t.kind, t.encoding),
    ensures
        c == topic_text(t),
{
    reveal_strlit("/");
    assert(c =~= c.subrange(0, 6) + c.subrange(6, 14) + "/"@ + c.subrange(15, c.len() as int));
    assert(topic_text(t) =~= "/eth2/"@ + hex_lower(t.fork_digest@) + "/"@ + tail_text(t.kind, t.encoding));
}

#[verifier::rlimit(40)]
fn parse_topic_inner(s: &str) -> (r: Option<GossipTopic>)
    ensures
        r is Some ==> s@ == topic_text(r->0),
        (exists|t: GossipTopic| s@ == topic_text(t)) ==> r is Some,
{
    let c = chars_of(s);
    let n = c.len();
    if n < 15 {
        proof {
            lemma_not_topic(c@);
        }
        return None;
    }
    let prefix = copy_range(&c, 0, 6);
    let eth2 = chars_of("/eth2/");
    if !chars_eq(&prefix, &eth2) || c[14] != '/' || !all_lower_hex(&c, 6, 14) {
        proof {
            lemma_not_topic(c@);
        }
        return None;
    }
    let hex_part = s.substring_char(6, 14);
    proof {
        lemma_lower_hex_range(c@);
    }
    let bytes = match hex_decode(hex_part) {
        Some(b) => b,
        None => {
            return None;
        },
    };
    let fork_digest: [u8; 4] = [bytes[0], bytes[1], bytes[2], bytes[3]];
    assert(fork_digest@ =~= bytes@);
    let rest = copy_range(&c, 15, n);
    match find_tail(&rest) {
        Some((kind, encoding)) => {
            let t = GossipTopic { kind, encoding, fork_digest };
            proof {
                lemma_topic_from_parts(c@, t);
            }
            Some(t)
        },
        None => {
            proof {
                assert forall|t: GossipTopic| s@ != topic_text(t) by {
                    lemma_topic_text_parts(t);
                }
            }
            None
        },
    }
}

/// A topic's text reads back as the same topic.
pub proof fn lemma_topic_round_trip(t: GossipTopic)
    ensures
        topic_of_text(topic_text(t)) == Some(t),
{
    let c = choose|u: GossipTopic| topic_text(t) == topic_text(u);
    lemma_topic_text_injective(c, t);
}

} // verus!
