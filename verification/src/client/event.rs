//! What the client reports to the application.

use crate::packet::packet::{Packet, PacketView};
use vstd::prelude::*;

verus! {

/// An event of the client's connection.
#[derive(Debug)]
pub enum ClientEvent {
    /// The server accepted the connection.
    Connected,
    /// The server ended the connection.
    Disconnected,
    /// A packet arrived that the connection itself does not consume.
    Data(Packet),
}

/// A client event as a mathematical value.
pub enum ClientEventView {
    Connected,
    Disconnected,
    Data(PacketView),
}

impl View for ClientEvent {
    type V = ClientEventView;

    open spec fn view(&self) -> ClientEventView {
        match self {
            ClientEvent::Connected => ClientEventView::Connected,
            ClientEvent::Disconnected => ClientEventView::Disconnected,
            ClientEvent::Data(packet) => ClientEventView::Data(packet@),
        }
    }
}

} // verus!
