//! The packet and its wire format.

pub mod error;
pub mod kind;
pub mod packet;

pub use error::PacketError;
pub use kind::PacketKind;
pub use packet::{Packet, PacketView};
