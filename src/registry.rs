//! The per-peer record of which client each connected peer runs.
use crate::client::{Client, classify_spec, known_families_spec};
use std::collections::HashMap;
use vstd::prelude::*;

verus! {

broadcast use vstd::std_specs::hash::group_hash_axioms;

/// One current `Client` record per identified peer, keyed by the peer
/// identity that the transport assigns.
pub struct PeerRegistry {
    peers: HashMap<u64, Client>,
}

impl View for PeerRegistry {
    type V = Map<u64, Client>;

    closed spec fn view(&self) -> Map<u64, Client> {
        self.peers@
    }
}

impl PeerRegistry {
    /// A registry that knows no peer.
    pub fn new() -> (r: PeerRegistry)
        ensures
            r@ == Map::<u64, Client>::empty(),
    {
        PeerRegistry { peers: HashMap::new() }
    }

    /// Stores `client` as the record of `peer`, replacing whole any record
    /// that was there.
    pub fn record_identification(&mut self, peer: u64, client: Client)
        ensures
            final(self)@ == old(self)@.insert(peer, client),
    {
        self.peers.insert(peer, client);
    }

    /// Classifies what the identify protocol reported for `peer` and stores
    /// the result as its record.
    pub fn identify(&mut self, peer: u64, agent_version: &str, protocol_version: &str)
        ensures
            final(self)@.dom() == old(self)@.dom().insert(peer),
            forall|q: u64| q != peer && old(self)@.contains_key(q) ==> #[trigger] final(self)@[q] == old(self)@[q],
            ({
                let c = final(self)@[peer];
                &&& (c.kind, c.version@, c.os_version@) == classify_spec(known_families_spec(), agent_version@)
                &&& c.protocol_version@ == protocol_version@
                &&& c.agent_string is Some
                &&& c.agent_string->0@ == agent_version@
            }),
    {
        let client = Client::from_identify_info(agent_version, protocol_version);
        self.record_identification(peer, client);
    }

    /// The current record of `peer`, if it has been identified.
    pub fn get(&self, peer: u64) -> (r: Option<&Client>)
        ensures
            match r {
                Some(c) => self@.contains_key(peer) && self@[peer] == *c,
                None => !self@.contains_key(peer),
            },
    {
        self.peers.get(&peer)
    }

    /// Forgets `peer`, returning the record it had.
    pub fn remove(&mut self, peer: u64) -> (r: Option<Client>)
        ensures
            final(self)@ == old(self)@.remove(peer),
            match r {
                Some(c) => old(self)@.contains_key(peer) && old(self)@[peer] == c,
                None => !old(self)@.contains_key(peer),
            },
    {
        self.peers.remove(&peer)
    }

    /// The number of identified peers.
    pub fn len(&self) -> (r: usize)
        ensures
            r == self@.len(),
    {
        self.peers.len()
    }
}

/// After a peer is recorded its record is what was recorded; a second record
/// replaces the first whole; after removal the peer has no record.
pub proof fn lemma_record_replace_remove(m: Map<u64, Client>, p: u64, r1: Client, r2: Client)
    ensures
        m.insert(p, r1).contains_key(p),
        m.insert(p, r1)[p] == r1,
        m.insert(p, r1).insert(p, r2)[p] == r2,
        !m.insert(p, r1).insert(p, r2).remove(p).contains_key(p),
{
}

/// Recording or removing one peer leaves every other peer's record as it was.
pub proof fn lemma_other_peers_untouched(m: Map<u64, Client>, p: u64, q: u64, r: Client)
    requires
        p != q,
    ensures
        m.insert(p, r).contains_key(q) == m.contains_key(q),
        m.remove(p).contains_key(q) == m.contains_key(q),
        m.contains_key(q) ==> m.insert(p, r)[q] == m[q] && m.remove(p)[q] == m[q],
{
}

} // verus!
