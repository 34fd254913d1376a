//! The status of the client's connection.

use vstd::prelude::*;

verus! {

/// Where the client stands with its server. Exactly one status holds at a
/// time.
#[derive(Debug, PartialEq, Eq, Clone, Copy, Structural)]
pub enum ClientState {
    /// No connection: nothing may be sent or received.
    Disconnected,
    /// The handshake is in flight: only a `Request` may be sent.
    Connecting,
    /// The server has accepted: every kind of packet may be sent.
    Connected,
}

} // verus!
