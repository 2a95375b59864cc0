//! Peer-to-peer overlay client core: an insertion-ordered peer registry with
//! incremental change notifications, a single-call session state machine, the
//! dispatch logic that turns gossip messages and local commands into state
//! transitions and outbound actions, and the wire codec for the envelope
//! messages exchanged on the shared gossip topic.
pub mod envelope;
pub mod index_map;
pub mod peer;
pub mod peer_list;
pub mod call;
pub mod client;
pub mod codec;
pub mod place_finder;
