//! The remote end of a logical connection.

pub mod addr;
pub mod datagram;
pub mod peer;

pub use addr::PeerAddr;
pub use datagram::{Datagram, DatagramView};
pub use peer::{Peer, PeerView};
