//! Why a buffer is not a packet.

use vstd::prelude::*;

verus! {

/// The reason a received buffer was rejected by the decoder.
#[derive(Debug, PartialEq, Eq, Clone, Copy, Structural)]
pub enum PacketError {
    /// The buffer is shorter than the packet header.
    TooShort,
    /// The first byte, carried here, is not the tag of any packet kind.
    InvalidKind(u8),
}

} // verus!
