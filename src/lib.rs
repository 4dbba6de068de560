//! Gossip networking layer of a beacon node: topic identifiers, the message
//! codec, client identification from agent strings, and a registry of peers,
//! with the plain records of the validator API and the static names of enum
//! variants.
pub mod text;
pub mod client;
pub mod registry;
pub mod topic;
pub mod codec;
pub mod models;
pub mod static_str;
