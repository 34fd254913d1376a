//! A minimal connection-oriented overlay on unordered, unreliable datagrams.
//!
//! The crate holds the protocol itself: the wire format of a packet, the
//! sequencing of a peer session, the client's connection state machine and
//! the server's session registry. Sockets, clocks and threads stay with the
//! caller: every function here takes the datagram that was received, or the
//! time that has passed, as a plain value and hands back the datagrams to
//! transmit.

pub mod buffer;
pub mod client;
pub mod constants;
pub mod exchange;
pub mod packet;
pub mod peer;
pub mod server;
