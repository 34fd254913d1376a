//! What is handed to the transport.

use crate::buffer::bytes_contents;
use crate::peer::addr::PeerAddr;
use bytes::Bytes;
use vstd::prelude::*;

verus! {

/// Bytes to transmit, and the endpoint to transmit them to.
#[derive(Debug)]
pub struct Datagram {
    pub addr: PeerAddr,
    pub data: Bytes,
}

/// A datagram as a mathematical value.
pub struct DatagramView {
    pub addr: PeerAddr,
    pub data: Seq<u8>,
}

impl View for Datagram {
    type V = DatagramView;

    open spec fn view(&self) -> DatagramView {
        DatagramView { addr: self.addr, data: bytes_contents(self.data) }
    }
}

/// What one receive attempt produced: nothing, or the address a datagram
/// came from and its bytes as a sequence.
pub open spec fn incoming_view(incoming: Option<(PeerAddr, &[u8])>) -> Option<(PeerAddr, Seq<u8>)> {
    match incoming {
        Some((addr, data)) => Some((addr, data@)),
        None => None,
    }
}

} // verus!
