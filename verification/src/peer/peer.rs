//! A peer session: the address of the other side and the counter that
//! numbers the packets sent to it.

use crate::buffer::bytes_contents;
use crate::packet::kind::PacketKind;
use crate::packet::packet::{Packet, PacketView};
use crate::peer::addr::PeerAddr;
use bytes::Bytes;
use vstd::prelude::*;

verus! {

/// The state kept for one remote endpoint.
#[derive(Debug, Clone, Copy)]
pub struct Peer {
    addr: PeerAddr,
    next_sequence: u16,
}

/// A peer session as a mathematical value.
pub struct PeerView {
    pub addr: PeerAddr,
    /// The number that the next packet stamped will carry.
    pub next_sequence: u16,
}

/// The sequence number that follows `sequence`: one more, and 0 after 65535.
pub open spec fn following(sequence: u16) -> u16 {
    if sequence == u16::MAX {
        0
    } else {
        (sequence + 1) as u16
    }
}

impl PeerView {
    /// A session with `addr` that has stamped nothing yet.
    pub open spec fn fresh(addr: PeerAddr) -> PeerView {
        PeerView { addr, next_sequence: 0 }
    }

    /// The session after one more packet was stamped.
    pub open spec fn advanced(self) -> PeerView {
        PeerView { addr: self.addr, next_sequence: following(self.next_sequence) }
    }

    /// The session after `count` more packets were stamped.
    pub open spec fn advanced_by(self, count: nat) -> PeerView
        decreases count,
    {
        if count == 0 {
            self
        } else {
            self.advanced_by((count - 1) as nat).advanced()
        }
    }

    /// The packet that the session stamps next, for a kind and a payload.
    pub open spec fn stamped(self, kind: PacketKind, payload: Seq<u8>) -> PacketView {
        PacketView { kind, sequence: self.next_sequence, payload }
    }

    /// Stamping never changes the address, and the packet stamped after
    /// `count` others carries the starting number plus `count`, modulo 2^16.
    pub proof fn lemma_advanced_by(self, count: nat)
        ensures
            self.advanced_by(count).addr == self.addr,
            self.advanced_by(count).next_sequence == (self.next_sequence + count) % 0x1_0000,
        decreases count,
    {
        if count > 0 {
            self.lemma_advanced_by((count - 1) as nat);
        }
    }

    /// A fresh session numbers its packets 0, 1, 2, ... and starts again at 0
    /// after 65535: the packet stamped after `count` others carries
    /// `count` modulo 2^16.
    pub proof fn lemma_fresh_session_counts_from_zero(addr: PeerAddr, count: nat)
        ensures
            PeerView::fresh(addr).advanced_by(count).next_sequence == count % 0x1_0000,
            PeerView::fresh(addr).advanced_by(0xffff).advanced().next_sequence == 0,
    {
        PeerView::fresh(addr).lemma_advanced_by(count);
        PeerView::fresh(addr).lemma_advanced_by(0xffff);
    }
}

impl View for Peer {
    type V = PeerView;

    closed spec fn view(&self) -> PeerView {
        PeerView { addr: self.addr, next_sequence: self.next_sequence }
    }
}

impl Peer {
    /// A session with `addr`, whose first packet will carry the number 0.
    pub fn new(addr: PeerAddr) -> (peer: Peer)
        ensures
            peer@ == PeerView::fresh(addr),
    {
        Peer { addr, next_sequence: 0 }
    }

    /// The address of the other side.
    pub fn addr(&self) -> (addr: PeerAddr)
        ensures
            addr == self@.addr,
    {
        self.addr
    }

    /// Hands out the current sequence number and moves the counter on,
    /// from 65535 back to 0.
    pub fn next_sequence(&mut self) -> (sequence: u16)
        ensures
            sequence == old(self)@.next_sequence,
            final(self)@ == old(self)@.advanced(),
    {
        let sequence: u16 = self.next_sequence;
        self.next_sequence = self.next_sequence.wrapping_add(1);
        sequence
    }

    /// Stamps a packet with the session's sequence number and moves the
    /// counter on. Nothing is sent.
    pub fn make_packet(&mut self, kind: PacketKind, payload: Bytes) -> (packet: Packet)
        ensures
            packet@ == old(self)@.stamped(kind, bytes_contents(payload)),
            final(self)@ == old(self)@.advanced(),
    {
        let sequence: u16 = self.next_sequence();
        Packet::new(kind, sequence, payload)
    }
}

} // verus!
