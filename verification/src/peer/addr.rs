//! Network addresses as plain values.

use vstd::prelude::*;

verus! {

/// The address of a remote endpoint: an IP address and a port, and for
/// IPv6 the flow information and scope that belong to the socket address.
///
/// Two addresses are the same endpoint exactly when they are equal.
#[derive(Debug, PartialEq, Eq, Clone, Copy, Hash, Structural)]
pub enum PeerAddr {
    /// An IPv4 address, as its four bytes read as one big-endian number,
    /// with a port.
    V4 { ipv4: u32, port: u16 },
    /// An IPv6 address, as its sixteen bytes read as one big-endian number,
    /// with a port, flow information and scope.
    V6 { ipv6: u128, port: u16, flowinfo: u32, scope_id: u32 },
}

} // verus!
