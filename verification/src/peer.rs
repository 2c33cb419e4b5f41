//! Per-session configuration of a peer.

use vstd::prelude::*;

verus! {

/// How a peer sizes its connections: the capacity of each connection's
/// bounded send and receive queues, and how many concurrent sessions it
/// serves. Immutable for the life of a session.
#[derive(Debug, Clone)]
pub struct PeerConfig {
    /// Capacity of each connection's outbound and inbound queue.
    pub buffer_size: usize,
    /// Bound on concurrently served sessions.
    pub max_connections: usize,
}

impl Default for PeerConfig {
    /// A queue of 40 messages and a single served session.
    fn default() -> (c: PeerConfig)
        ensures
            c.buffer_size == 40,
            c.max_connections == 1,
    {
        PeerConfig { buffer_size: 40, max_connections: 1 }
    }
}

} // verus!
