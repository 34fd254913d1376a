//! What the server reports to the application.

use crate::packet::packet::{Packet, PacketView};
use crate::server::peer_id::PeerId;
use vstd::prelude::*;

verus! {

/// An event of the server's registry.
#[derive(Debug)]
pub enum ServerEvent {
    /// A client was admitted under this identity.
    NewClient(PeerId),
    /// The client of this identity left and was removed.
    DisconnectClient(PeerId),
    /// A packet arrived from the client of this identity.
    Data(PeerId, Packet),
}

/// A server event as a mathematical value.
pub enum ServerEventView {
    NewClient(PeerId),
    DisconnectClient(PeerId),
    Data(PeerId, PacketView),
}

impl View for ServerEvent {
    type V = ServerEventView;

    open spec fn view(&self) -> ServerEventView {
        match self {
            ServerEvent::NewClient(id) => ServerEventView::NewClient(*id),
            ServerEvent::DisconnectClient(id) => ServerEventView::DisconnectClient(*id),
            ServerEvent::Data(id, packet) => ServerEventView::Data(*id, packet@),
        }
    }
}

} // verus!
