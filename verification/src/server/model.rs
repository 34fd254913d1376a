//! The registry as a mathematical value, and what each operation does to
//! it.
//!
//! The registry is two maps: from the address of a client to its identity,
//! and from the identity to the session. They are kept in lock step: an
//! address is registered exactly when a handshake request from it was
//! accepted and no disconnect from it was processed since.

use crate::packet::error::PacketError;
use crate::packet::kind::PacketKind;
use crate::packet::packet::PacketView;
use crate::peer::addr::PeerAddr;
use crate::peer::datagram::DatagramView;
use crate::peer::peer::PeerView;
use crate::server::error::ServerError;
use crate::server::event::ServerEventView;
use crate::server::peer_id::PeerId;
use vstd::prelude::*;

verus! {

/// The registry as a mathematical value.
pub struct ServerView {
    /// The identity registered for each address.
    pub by_addr: Map<PeerAddr, PeerId>,
    /// The session held for each identity.
    pub by_id: Map<PeerId, PeerView>,
    /// The identity that the next client admitted will get.
    pub next_id: PeerId,
}

/// The outcome of a `poll` as a mathematical value.
pub struct ServerPollView {
    pub event: Option<ServerEventView>,
    pub reply: Option<DatagramView>,
}

impl ServerView {
    /// A registry with no client, whose first client will be number 0.
    pub open spec fn empty() -> ServerView {
        ServerView { by_addr: Map::empty(), by_id: Map::empty(), next_id: PeerId(0) }
    }

    /// The two maps agree, and every identity in use was given out before
    /// the one that comes next.
    pub open spec fn lock_step(self) -> bool {
        &&& forall|addr: PeerAddr| #[trigger]
            self.by_addr.contains_key(addr) ==> self.by_id.contains_key(self.by_addr[addr])
                && self.by_id[self.by_addr[addr]].addr == addr
        &&& forall|id: PeerId| #[trigger]
            self.by_id.contains_key(id) ==> self.by_addr.contains_key(self.by_id[id].addr)
                && self.by_addr[self.by_id[id].addr] == id
        &&& forall|id: PeerId| #[trigger] self.by_id.contains_key(id) ==> id.0 < self.next_id.0
    }

    /// Whether another identity can still be given out.
    pub open spec fn can_admit(self) -> bool {
        self.next_id.0 < u128::MAX
    }

    /// The datagram that carries the next packet to the client `id`.
    pub open spec fn outgoing(self, id: PeerId, kind: PacketKind, payload: Seq<u8>) -> DatagramView {
        DatagramView {
            addr: self.by_id[id].addr,
            data: self.by_id[id].stamped(kind, payload).encoded(),
        }
    }

    /// The registry after a packet was stamped for the client `id`.
    pub open spec fn after_stamp(self, id: PeerId) -> ServerView {
        ServerView {
            by_addr: self.by_addr,
            by_id: self.by_id.insert(id, self.by_id[id].advanced()),
            next_id: self.next_id,
        }
    }

    /// The identity registered for `addr`, or the unknown-peer error.
    pub open spec fn resolved(self, addr: PeerAddr) -> Result<PeerId, ServerError> {
        if self.by_addr.contains_key(addr) {
            Ok(self.by_addr[addr])
        } else {
            Err(ServerError::UnknownPeer)
        }
    }

    /// What registering `addr` does: the registry afterwards, and the new
    /// identity unless the address was registered already.
    pub open spec fn registered(self, addr: PeerAddr) -> (ServerView, Option<PeerId>) {
        if self.by_addr.contains_key(addr) {
            (self, None)
        } else {
            (
                ServerView {
                    by_addr: self.by_addr.insert(addr, self.next_id),
                    by_id: self.by_id.insert(self.next_id, PeerView::fresh(addr)),
                    next_id: PeerId((self.next_id.0 + 1) as u128),
                },
                Some(self.next_id),
            )
        }
    }

    /// The registry without the client `id` at `addr`, in either map.
    pub open spec fn without(self, addr: PeerAddr, id: PeerId) -> ServerView {
        ServerView {
            by_addr: self.by_addr.remove(addr),
            by_id: self.by_id.remove(id),
            next_id: self.next_id,
        }
    }

    /// What `send_to` does: the registry afterwards and the result.
    pub open spec fn sent_to(self, id: PeerId, kind: PacketKind, payload: Seq<u8>) -> (
        ServerView,
        Result<DatagramView, ServerError>,
    ) {
        if self.by_id.contains_key(id) {
            (self.after_stamp(id), Ok(self.outgoing(id, kind, payload)))
        } else {
            (self, Err(ServerError::NotFound))
        }
    }

    /// The registry after one packet was stamped for every client.
    pub open spec fn after_broadcast(self) -> ServerView {
        ServerView {
            by_addr: self.by_addr,
            by_id: Map::new(
                |id: PeerId| self.by_id.contains_key(id),
                |id: PeerId| self.by_id[id].advanced(),
            ),
            next_id: self.next_id,
        }
    }

    /// The datagrams of a broadcast that reaches the clients in the order
    /// `ids`.
    pub open spec fn broadcast(self, ids: Seq<PeerId>, kind: PacketKind, payload: Seq<u8>) -> Seq<
        DatagramView,
    > {
        Seq::new(ids.len(), |i: int| self.outgoing(ids[i], kind, payload))
    }

    /// Whether `ids` names every client once.
    pub open spec fn lists_clients(self, ids: Seq<PeerId>) -> bool {
        &&& ids.no_duplicates()
        &&& forall|id: PeerId| ids.contains(id) <==> self.by_id.contains_key(id)
    }

    /// What the registry does with a packet from `addr`: the registry
    /// afterwards and the result.
    pub open spec fn dispatched(self, addr: PeerAddr, packet: PacketView) -> (
        ServerView,
        Result<ServerPollView, ServerError>,
    ) {
        match packet.kind {
            PacketKind::Request => match self.registered(addr).1 {
                Some(id) => (
                    self.registered(addr).0.after_stamp(id),
                    Ok(
                        ServerPollView {
                            event: Some(ServerEventView::NewClient(id)),
                            reply: Some(
                                self.registered(addr).0.outgoing(
                                    id,
                                    PacketKind::Accept,
                                    Seq::empty(),
                                ),
                            ),
                        },
                    ),
                ),
                None => (self, Ok(ServerPollView { event: None, reply: None })),
            },
            PacketKind::Disconnect => match self.resolved(addr) {
                Ok(id) => (
                    self.without(addr, id),
                    Ok(
                        ServerPollView {
                            event: Some(ServerEventView::DisconnectClient(id)),
                            reply: Some(self.outgoing(id, PacketKind::Disconnect, Seq::empty())),
                        },
                    ),
                ),
                Err(_) => (self, Ok(ServerPollView { event: None, reply: None })),
            },
            PacketKind::Ping => match self.resolved(addr) {
                Ok(id) => (
                    self.after_stamp(id),
                    Ok(
                        ServerPollView {
                            event: Some(ServerEventView::Data(id, packet)),
                            reply: Some(self.outgoing(id, PacketKind::Pong, Seq::empty())),
                        },
                    ),
                ),
                Err(error) => (self, Err(error)),
            },
            _ => match self.resolved(addr) {
                Ok(id) => (
                    self,
                    Ok(
                        ServerPollView {
                            event: Some(ServerEventView::Data(id, packet)),
                            reply: None,
                        },
                    ),
                ),
                Err(error) => (self, Err(error)),
            },
        }
    }

    /// What a receive attempt amounts to: an error, nothing, or a packet
    /// and the address it came from.
    pub open spec fn received(incoming: Option<(PeerAddr, Seq<u8>)>) -> Result<
        Option<(PeerAddr, PacketView)>,
        ServerError,
    > {
        match incoming {
            None => Ok(None),
            Some((addr, data)) => match PacketView::decoded(data) {
                Ok(packet) => Ok(Some((addr, packet))),
                Err(error) => Err(ServerError::InvalidData(error)),
            },
        }
    }

    /// What `poll` does: the registry afterwards and the result.
    pub open spec fn polled(self, incoming: Option<(PeerAddr, Seq<u8>)>) -> (
        ServerView,
        Result<ServerPollView, ServerError>,
    ) {
        match ServerView::received(incoming) {
            Err(error) => (self, Err(error)),
            Ok(None) => (self, Ok(ServerPollView { event: None, reply: None })),
            Ok(Some((addr, packet))) => self.dispatched(addr, packet),
        }
    }

    /// The empty registry is in lock step.
    pub proof fn lemma_empty_lock_step()
        ensures
            ServerView::empty().lock_step(),
    {
    }

    /// Whatever arrives, `poll` leaves a registry in lock step in lock
    /// step.
    pub proof fn lemma_polled_keeps_lock_step(self, incoming: Option<(PeerAddr, Seq<u8>)>)
        requires
            self.lock_step(),
            self.can_admit(),
        ensures
            self.polled(incoming).0.lock_step(),
    {
        let after = self.polled(incoming).0;
        match ServerView::received(incoming) {
            Ok(Some((addr, packet))) => {
                match packet.kind {
                    PacketKind::Request => {
                        if !self.by_addr.contains_key(addr) {
                            let id = self.next_id;
                            assert(!self.by_id.contains_key(id));
                            assert forall|a: PeerAddr| #[trigger]
                                after.by_addr.contains_key(a) implies after.by_id.contains_key(
                                after.by_addr[a],
                            ) && after.by_id[after.by_addr[a]].addr == a by {
                                if a != addr {
                                    assert(self.by_addr.contains_key(a));
                                    assert(self.by_id.contains_key(self.by_addr[a]));
                                }
                            }
                            assert forall|i: PeerId| #[trigger]
                                after.by_id.contains_key(i) implies after.by_addr.contains_key(
                                after.by_id[i].addr,
                            ) && after.by_addr[after.by_id[i].addr] == i && i.0
                                < after.next_id.0 by {
                                if i != id {
                                    assert(self.by_id.contains_key(i));
                                    assert(self.by_addr.contains_key(self.by_id[i].addr));
                                }
                            }
                        }
                    },
                    PacketKind::Disconnect => {
                        if self.by_addr.contains_key(addr) {
                            let id = self.by_addr[addr];
                            assert forall|a: PeerAddr| #[trigger]
                                after.by_addr.contains_key(a) implies after.by_id.contains_key(
                                after.by_addr[a],
                            ) && after.by_id[after.by_addr[a]].addr == a by {
                                assert(self.by_addr.contains_key(a));
                                assert(self.by_id.contains_key(self.by_addr[a]));
                            }
                            assert forall|i: PeerId| #[trigger]
                                after.by_id.contains_key(i) implies after.by_addr.contains_key(
                                after.by_id[i].addr,
                            ) && after.by_addr[after.by_id[i].addr] == i && i.0
                                < after.next_id.0 by {
                                assert(self.by_id.contains_key(i));
                                assert(self.by_addr.contains_key(self.by_id[i].addr));
                            }
                        }
                    },
                    PacketKind::Ping => {
                        if self.by_addr.contains_key(addr) {
                            self.lemma_after_stamp_keeps_lock_step(self.by_addr[addr]);
                        }
                    },
                    _ => {},
                }
            },
            _ => {},
        }
    }

    /// Stamping a packet for a client leaves a registry in lock step in
    /// lock step.
    pub proof fn lemma_after_stamp_keeps_lock_step(self, id: PeerId)
        requires
            self.lock_step(),
            self.by_id.contains_key(id),
        ensures
            self.after_stamp(id).lock_step(),
    {
        let after = self.after_stamp(id);
        assert forall|a: PeerAddr| #[trigger] after.by_addr.contains_key(a) implies (
        after.by_id.contains_key(after.by_addr[a]) && after.by_id[after.by_addr[a]].addr == a) by {
            assert(self.by_addr.contains_key(a));
            assert(self.by_id.contains_key(self.by_addr[a]));
        }
        assert forall|i: PeerId| #[trigger] after.by_id.contains_key(i) implies (
        after.by_addr.contains_key(after.by_id[i].addr) && after.by_addr[after.by_id[i].addr] == i
            && i.0 < after.next_id.0) by {
            assert(self.by_id.contains_key(i));
            assert(self.by_addr.contains_key(self.by_id[i].addr));
        }
    }

    /// A broadcast leaves a registry in lock step in lock step.
    pub proof fn lemma_after_broadcast_keeps_lock_step(self)
        requires
            self.lock_step(),
        ensures
            self.after_broadcast().lock_step(),
    {
        let after = self.after_broadcast();
        assert forall|a: PeerAddr| #[trigger] after.by_addr.contains_key(a) implies (
        after.by_id.contains_key(after.by_addr[a]) && after.by_id[after.by_addr[a]].addr == a) by {
            assert(self.by_addr.contains_key(a));
            assert(self.by_id.contains_key(self.by_addr[a]));
        }
        assert forall|i: PeerId| #[trigger] after.by_id.contains_key(i) implies (
        after.by_addr.contains_key(after.by_id[i].addr) && after.by_addr[after.by_id[i].addr] == i
            && i.0 < after.next_id.0) by {
            assert(self.by_id.contains_key(i));
            assert(self.by_addr.contains_key(self.by_id[i].addr));
        }
    }

    /// A handshake request from an address that is not registered admits
    /// the sender under the next identity, which no client holds: both maps
    /// gain the client, one `Accept` numbered 0 goes back to that address,
    /// one `NewClient` is reported, and the next identity is one higher.
    pub proof fn lemma_request_admits(self, addr: PeerAddr, data: Seq<u8>)
        requires
            self.lock_step(),
            self.can_admit(),
            PacketView::decoded(data) matches Ok(packet) && packet.kind == PacketKind::Request,
            !self.by_addr.contains_key(addr),
        ensures
            !self.by_id.contains_key(self.next_id),
            self.polled(Some((addr, data))).1 == Ok::<ServerPollView, ServerError>(
                ServerPollView {
                    event: Some(ServerEventView::NewClient(self.next_id)),
                    reply: Some(
                        DatagramView {
                            addr,
                            data: (PacketView {
                                kind: PacketKind::Accept,
                                sequence: 0,
                                payload: Seq::empty(),
                            }).encoded(),
                        },
                    ),
                },
            ),
            self.polled(Some((addr, data))).0.next_id.0 == self.next_id.0 + 1,
            self.polled(Some((addr, data))).0.by_addr == self.by_addr.insert(addr, self.next_id),
            self.polled(Some((addr, data))).0.by_id == self.by_id.insert(
                self.next_id,
                PeerView::fresh(addr).advanced(),
            ),
    {
        let after = self.polled(Some((addr, data))).0;
        assert(after.by_id =~= self.by_id.insert(self.next_id, PeerView::fresh(addr).advanced()));
    }

    /// The identities given out only grow: no `poll` lowers the next
    /// identity, whatever arrives and whoever has left in between.
    pub proof fn lemma_next_id_never_decreases(self, incoming: Option<(PeerAddr, Seq<u8>)>)
        requires
            self.can_admit(),
        ensures
            self.polled(incoming).0.next_id.0 >= self.next_id.0,
    {
    }

    /// A handshake request from a registered address changes nothing,
    /// reports nothing and is not answered.
    pub proof fn lemma_request_is_idempotent(self, addr: PeerAddr, data: Seq<u8>)
        requires
            PacketView::decoded(data) matches Ok(packet) && packet.kind == PacketKind::Request,
            self.by_addr.contains_key(addr),
        ensures
            self.polled(Some((addr, data))) == (
                self,
                Ok::<ServerPollView, ServerError>(ServerPollView { event: None, reply: None }),
            ),
    {
    }

    /// A disconnect from a registered address takes the client out of both
    /// maps and reports one `DisconnectClient`; whatever that address sends
    /// next, other than a new request or another disconnect, is refused as
    /// coming from an unknown peer.
    pub proof fn lemma_disconnect_forgets(self, addr: PeerAddr, data: Seq<u8>, later: Seq<u8>)
        requires
            PacketView::decoded(data) matches Ok(packet) && packet.kind == PacketKind::Disconnect,
            self.by_addr.contains_key(addr),
            PacketView::decoded(later) matches Ok(packet) && packet.kind != PacketKind::Request
                && packet.kind != PacketKind::Disconnect,
        ensures
            !self.polled(Some((addr, data))).0.by_addr.contains_key(addr),
            !self.polled(Some((addr, data))).0.by_id.contains_key(self.by_addr[addr]),
            self.polled(Some((addr, data))).1 matches Ok(outcome) && outcome.event == Some(
                ServerEventView::DisconnectClient(self.by_addr[addr]),
            ),
            self.polled(Some((addr, data))).0.polled(Some((addr, later))) == (
                self.polled(Some((addr, data))).0,
                Err::<ServerPollView, ServerError>(ServerError::UnknownPeer),
            ),
    {
    }

    /// A disconnect from an address that is not registered changes nothing,
    /// reports nothing and is not answered.
    pub proof fn lemma_disconnect_of_stranger(self, addr: PeerAddr, data: Seq<u8>)
        requires
            PacketView::decoded(data) matches Ok(packet) && packet.kind == PacketKind::Disconnect,
            !self.by_addr.contains_key(addr),
        ensures
            self.polled(Some((addr, data))) == (
                self,
                Ok::<ServerPollView, ServerError>(ServerPollView { event: None, reply: None }),
            ),
    {
    }

    /// A datagram that is no packet, and a packet refused as coming from an
    /// unknown peer, leave the registry as it was.
    pub proof fn lemma_failed_poll_changes_nothing(self, incoming: Option<(PeerAddr, Seq<u8>)>)
        requires
            self.polled(incoming).1 is Err,
        ensures
            self.polled(incoming).0 == self,
    {
    }
}

} // verus!
