//! Why a server operation failed.

use crate::packet::error::PacketError;
use vstd::prelude::*;

verus! {

/// The failures of the server's operations.
#[derive(Debug, PartialEq, Eq, Clone, Copy, Structural)]
pub enum ServerError {
    /// A datagram is not a packet.
    InvalidData(PacketError),
    /// A packet that only an admitted client may send came from an address
    /// that is not registered.
    UnknownPeer,
    /// No client is registered under the identity given.
    NotFound,
}

} // verus!
