//! Why a client operation failed.

use crate::packet::error::PacketError;
use vstd::prelude::*;

verus! {

/// The failures of the client's operations.
#[derive(Debug, PartialEq, Eq, Clone, Copy, Structural)]
pub enum ClientError {
    /// The operation is not allowed in the present status.
    NotConnected,
    /// A datagram from the server is not a packet.
    InvalidData(PacketError),
    /// A handshake was asked for while a connection exists or is being
    /// made.
    AlreadyExists,
    /// The handshake ran out of time.
    TimedOut,
}

} // verus!
