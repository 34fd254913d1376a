//! The server's session registry.
//!
//! The registry holds the sessions of the admitted clients under their
//! identities, and an index from address to identity by which incoming
//! datagrams find their session. It neither reads nor writes a socket:
//! `poll` is given what one receive attempt produced and answers with the
//! event to report and the datagram to send back, and the sending
//! operations answer with the datagrams to transmit.

use crate::buffer::{bytes_clone, bytes_contents, bytes_new};
use crate::constants::PROTOCOL_HEADER_SIZE;
use crate::packet::kind::PacketKind;
use crate::packet::packet::{Packet, PacketView};
use crate::peer::addr::PeerAddr;
use crate::peer::datagram::{incoming_view, Datagram, DatagramView};
use crate::peer::peer::{Peer, PeerView};
use crate::server::error::ServerError;
use crate::server::event::ServerEvent;
use crate::server::model::{ServerPollView, ServerView};
use crate::server::peer_id::PeerId;
use bytes::Bytes;
use std::collections::HashMap;
use vstd::prelude::*;

verus! {

broadcast use vstd::std_specs::hash::group_hash_axioms;

/// The registry of admitted clients.
#[derive(Debug)]
pub struct ServerPeer {
    /// Address and identity of every client; no address stands twice.
    clients_by_addr: Vec<(PeerAddr, PeerId)>,
    /// The session of every client, under the number of its identity.
    clients_by_id: HashMap<u128, Peer>,
    /// The identity that the next client admitted will get.
    client_id_sequence: PeerId,
}

/// What one `poll` asks of the caller.
#[derive(Debug)]
pub struct ServerPoll {
    /// The event to report to the application, if any.
    pub event: Option<ServerEvent>,
    /// The datagram to transmit in answer, if any.
    pub reply: Option<Datagram>,
}

impl View for ServerPoll {
    type V = ServerPollView;

    open spec fn view(&self) -> ServerPollView {
        ServerPollView {
            event: match self.event {
                Some(event) => Some(event@),
                None => None,
            },
            reply: match self.reply {
                Some(reply) => Some(reply@),
                None => None,
            },
        }
    }
}

/// The result of a receive, with the packet as a mathematical value.
pub open spec fn received_view(result: Result<Option<(PeerAddr, Packet)>, ServerError>) -> Result<
    Option<(PeerAddr, PacketView)>,
    ServerError,
> {
    match result {
        Ok(Some((addr, packet))) => Ok(Some((addr, packet@))),
        Ok(None) => Ok(None),
        Err(error) => Err(error),
    }
}

/// The result of a send, with the datagram as a mathematical value.
pub open spec fn sent_view(result: Result<Datagram, ServerError>) -> Result<
    DatagramView,
    ServerError,
> {
    match result {
        Ok(datagram) => Ok(datagram@),
        Err(error) => Err(error),
    }
}

/// The result of a poll as a mathematical value.
pub open spec fn polled_view(result: Result<ServerPoll, ServerError>) -> Result<
    ServerPollView,
    ServerError,
> {
    match result {
        Ok(outcome) => Ok(outcome@),
        Err(error) => Err(error),
    }
}

/// The datagrams of a broadcast as mathematical values.
pub open spec fn datagrams_view(datagrams: Seq<Datagram>) -> Seq<DatagramView> {
    Seq::new(datagrams.len(), |i: int| datagrams[i]@)
}

/// No address stands twice in the index.
spec fn distinct_addrs(entries: Seq<(PeerAddr, PeerId)>) -> bool {
    forall|i: int, j: int|
        0 <= i < j < entries.len() ==> (#[trigger] entries[i]).0 != (#[trigger] entries[j]).0
}

/// Whether the index has an entry for `addr`.
spec fn has_addr(entries: Seq<(PeerAddr, PeerId)>, addr: PeerAddr) -> bool {
    exists|i: int| 0 <= i < entries.len() && (#[trigger] entries[i]).0 == addr
}

/// The place of the entry for `addr` in the index.
spec fn place_of(entries: Seq<(PeerAddr, PeerId)>, addr: PeerAddr) -> int {
    choose|i: int| 0 <= i < entries.len() && (#[trigger] entries[i]).0 == addr
}

/// The index as a map from address to identity.
spec fn addr_map(entries: Seq<(PeerAddr, PeerId)>) -> Map<PeerAddr, PeerId> {
    Map::new(
        |addr: PeerAddr| has_addr(entries, addr),
        |addr: PeerAddr| entries[place_of(entries, addr)].1,
    )
}

/// The sessions as a map from identity to session.
spec fn session_map(sessions: Map<u128, Peer>) -> Map<PeerId, PeerView> {
    Map::new(|id: PeerId| sessions.contains_key(id.0), |id: PeerId| sessions[id.0]@)
}

/// The identities of the index, in its order.
spec fn ids_of(entries: Seq<(PeerAddr, PeerId)>) -> Seq<PeerId> {
    Seq::new(entries.len(), |i: int| entries[i].1)
}

/// In an index without repeated addresses, each entry is what the map
/// gives for its address.
proof fn lemma_addr_map_at(entries: Seq<(PeerAddr, PeerId)>, i: int)
    requires
        distinct_addrs(entries),
        0 <= i < entries.len(),
    ensures
        addr_map(entries).contains_key(entries[i].0),
        addr_map(entries)[entries[i].0] == entries[i].1,
        place_of(entries, entries[i].0) == i,
{
    let addr = entries[i].0;
    assert(has_addr(entries, addr));
    let j = place_of(entries, addr);
    assert(0 <= j < entries.len() && entries[j].0 == addr);
    if j < i {
        assert(entries[j].0 != entries[i].0);
    } else if i < j {
        assert(entries[i].0 != entries[j].0);
    }
}

/// Appending an entry for a new address inserts it into the map.
proof fn lemma_addr_map_push(entries: Seq<(PeerAddr, PeerId)>, addr: PeerAddr, id: PeerId)
    requires
        distinct_addrs(entries),
        !has_addr(entries, addr),
    ensures
        distinct_addrs(entries.push((addr, id))),
        addr_map(entries.push((addr, id))) == addr_map(entries).insert(addr, id),
{
    let grown = entries.push((addr, id));
    assert forall|i: int, j: int| 0 <= i < j < grown.len() implies (#[trigger] grown[i]).0 != (
    #[trigger] grown[j]).0 by {
        if j == entries.len() {
            assert(entries[i].0 != addr);
        } else {
            assert(entries[i].0 != entries[j].0);
        }
    }
    assert forall|a: PeerAddr| #[trigger]
        addr_map(grown).contains_key(a) == addr_map(entries).insert(addr, id).contains_key(a) by {
        if has_addr(grown, a) {
            let i = place_of(grown, a);
            if i < entries.len() {
                assert(entries[i].0 == a);
            }
        }
        if has_addr(entries, a) {
            let i = place_of(entries, a);
            assert(grown[i].0 == a);
        }
        if a == addr {
            assert(grown[entries.len() as int].0 == a);
        }
    }
    assert forall|a: PeerAddr| #[trigger] addr_map(grown).contains_key(a) implies addr_map(
        grown,
    )[a] == addr_map(entries).insert(addr, id)[a] by {
        let i = place_of(grown, a);
        lemma_addr_map_at(grown, i);
        if i < entries.len() {
            assert(entries[i] == grown[i]);
            lemma_addr_map_at(entries, i);
        }
    }
    assert(addr_map(grown) =~= addr_map(entries).insert(addr, id));
}

/// Taking an entry out removes its address from the map.
proof fn lemma_addr_map_remove(entries: Seq<(PeerAddr, PeerId)>, at: int)
    requires
        distinct_addrs(entries),
        0 <= at < entries.len(),
    ensures
        distinct_addrs(entries.remove(at)),
        addr_map(entries.remove(at)) == addr_map(entries).remove(entries[at].0),
{
    let rest = entries.remove(at);
    let addr = entries[at].0;
    assert forall|i: int| 0 <= i < rest.len() implies #[trigger] rest[i] == entries[if i < at {
        i
    } else {
        i + 1
    }] by {}
    assert forall|i: int, j: int| 0 <= i < j < rest.len() implies (#[trigger] rest[i]).0 != (
    #[trigger] rest[j]).0 by {
        let i0 = if i < at { i } else { i + 1 };
        let j0 = if j < at { j } else { j + 1 };
        assert(entries[i0].0 != entries[j0].0);
    }
    assert forall|a: PeerAddr| #[trigger]
        addr_map(rest).contains_key(a) == addr_map(entries).remove(addr).contains_key(a) by {
        if has_addr(rest, a) {
            let i = place_of(rest, a);
            let i0 = if i < at { i } else { i + 1 };
            assert(entries[i0].0 == a);
            if i0 < at {
                assert(entries[i0].0 != entries[at].0);
            } else {
                assert(entries[at].0 != entries[i0].0);
            }
        }
        if has_addr(entries, a) && a != addr {
            let i = place_of(entries, a);
            let i1 = if i < at { i } else { i - 1 };
            assert(rest[i1].0 == a);
        }
    }
    assert forall|a: PeerAddr| #[trigger] addr_map(rest).contains_key(a) implies addr_map(
        rest,
    )[a] == addr_map(entries).remove(addr)[a] by {
        let i = place_of(rest, a);
        lemma_addr_map_at(rest, i);
        let i0 = if i < at { i } else { i + 1 };
        lemma_addr_map_at(entries, i0);
    }
    assert(addr_map(rest) =~= addr_map(entries).remove(addr));
}

impl View for ServerPeer {
    type V = ServerView;

    closed spec fn view(&self) -> ServerView {
        ServerView {
            by_addr: addr_map(self.clients_by_addr@),
            by_id: session_map(self.clients_by_id@),
            next_id: self.client_id_sequence,
        }
    }
}

impl ServerPeer {
    /// The index and the sessions agree: no address stands twice, every
    /// entry of the index has its session, every session has its entry, and
    /// every identity in use is below the next one.
    pub closed spec fn wf(&self) -> bool {
        let entries = self.clients_by_addr@;
        let sessions = self.clients_by_id@;
        &&& distinct_addrs(entries)
        &&& forall|i: int|
            0 <= i < entries.len() ==> sessions.contains_key((#[trigger] entries[i]).1.0)
                && sessions[entries[i].1.0]@.addr == entries[i].0
        &&& forall|k: u128| #[trigger]
            sessions.contains_key(k) ==> k < self.client_id_sequence.0 && exists|i: int|
                0 <= i < entries.len() && (#[trigger] entries[i]).1.0 == k
    }

    /// The identities of the clients, in the order in which a broadcast
    /// reaches them.
    pub closed spec fn order(&self) -> Seq<PeerId> {
        ids_of(self.clients_by_addr@)
    }

    /// A well-formed registry keeps its two maps in lock step.
    pub proof fn lemma_lock_step(&self)
        requires
            self.wf(),
        ensures
            self@.lock_step(),
    {
        let entries = self.clients_by_addr@;
        let sessions = self.clients_by_id@;
        let view = self@;
        assert forall|addr: PeerAddr| #[trigger] view.by_addr.contains_key(addr) implies (
        view.by_id.contains_key(view.by_addr[addr]) && view.by_id[view.by_addr[addr]].addr
            == addr) by {
            let i = place_of(entries, addr);
            lemma_addr_map_at(entries, i);
            assert(sessions.contains_key(entries[i].1.0));
        }
        assert forall|id: PeerId| #[trigger] view.by_id.contains_key(id) implies (
        view.by_addr.contains_key(view.by_id[id].addr) && view.by_addr[view.by_id[id].addr] == id
            && id.0 < view.next_id.0) by {
            assert(sessions.contains_key(id.0));
            let i = choose|i: int| 0 <= i < entries.len() && (#[trigger] entries[i]).1.0 == id.0;
            lemma_addr_map_at(entries, i);
            assert(sessions[entries[i].1.0]@.addr == entries[i].0);
        }
    }

    /// The order of a well-formed registry names every client once.
    pub proof fn lemma_order_lists_clients(&self)
        requires
            self.wf(),
        ensures
            self@.lists_clients(self.order()),
    {
        let entries = self.clients_by_addr@;
        let sessions = self.clients_by_id@;
        let ids = ids_of(entries);
        assert forall|i: int, j: int| 0 <= i < ids.len() && 0 <= j < ids.len() && i != j implies
            ids[i] != ids[j] by {
            assert(sessions[entries[i].1.0]@.addr == entries[i].0);
            assert(sessions[entries[j].1.0]@.addr == entries[j].0);
            if i < j {
                assert(entries[i].0 != entries[j].0);
            } else {
                assert(entries[j].0 != entries[i].0);
            }
        }
        assert forall|id: PeerId| ids.contains(id) <==> self@.by_id.contains_key(id) by {
            if ids.contains(id) {
                let i = choose|i: int| 0 <= i < ids.len() && ids[i] == id;
                assert(sessions.contains_key(entries[i].1.0));
            }
            if self@.by_id.contains_key(id) {
                assert(sessions.contains_key(id.0));
                let i = choose|i: int|
                    0 <= i < entries.len() && (#[trigger] entries[i]).1.0 == id.0;
                assert(ids[i] == id);
            }
        }
    }

    /// Two well-formed registries with the same order, whose sessions sit
    /// at the same addresses, hold the same index.
    proof fn lemma_same_index(&self, other: &ServerPeer)
        requires
            self.wf(),
            other.wf(),
            self.order() == other.order(),
            forall|id: PeerId| #[trigger]
                self@.by_id.contains_key(id) ==> other@.by_id.contains_key(id)
                    && other@.by_id[id].addr == self@.by_id[id].addr,
        ensures
            self.clients_by_addr@ == other.clients_by_addr@,
    {
        let mine = self.clients_by_addr@;
        let theirs = other.clients_by_addr@;
        assert(ids_of(mine).len() == ids_of(theirs).len());
        assert forall|i: int| 0 <= i < mine.len() implies mine[i] == theirs[i] by {
            assert(ids_of(mine)[i] == ids_of(theirs)[i]);
            let id = mine[i].1;
            assert(self.clients_by_id@.contains_key(mine[i].1.0));
            assert(self@.by_id.contains_key(id));
            assert(other.clients_by_id@.contains_key(theirs[i].1.0));
        }
        assert(mine =~= theirs);
    }

    /// A registry with no client, whose first client will be number 0.
    pub fn new() -> (server: ServerPeer)
        ensures
            server.wf(),
            server@ == ServerView::empty(),
    {
        let server = ServerPeer {
            clients_by_addr: Vec::new(),
            clients_by_id: HashMap::new(),
            client_id_sequence: PeerId(0),
        };
        assert(server@.by_addr =~= Map::<PeerAddr, PeerId>::empty());
        assert(server@.by_id =~= Map::<PeerId, PeerView>::empty());
        server
    }

    /// The identity that the next client admitted will get.
    pub fn next_identity(&self) -> (id: PeerId)
        ensures
            id == self@.next_id,
    {
        self.client_id_sequence
    }

    /// The place of `addr` in the index, if it has one.
    fn find(&self, addr: PeerAddr) -> (place: Option<usize>)
        ensures
            match place {
                Some(i) => i < self.clients_by_addr@.len() && self.clients_by_addr@[i as int].0
                    == addr,
                None => !has_addr(self.clients_by_addr@, addr),
            },
    {
        let mut i: usize = 0;
        while i < self.clients_by_addr.len()
            invariant
                i <= self.clients_by_addr@.len(),
                forall|j: int| 0 <= j < i ==> (#[trigger] self.clients_by_addr@[j]).0 != addr,
            decreases self.clients_by_addr@.len() - i,
        {
            if self.clients_by_addr[i].0 == addr {
                return Some(i);
            }
            i += 1;
        }
        None
    }

    /// The identity registered for `addr`, or `UnknownPeer`.
    pub fn get_peer_id(&self, addr: PeerAddr) -> (result: Result<PeerId, ServerError>)
        requires
            self.wf(),
        ensures
            result == self@.resolved(addr),
    {
        match self.find(addr) {
            Some(i) => {
                proof {
                    lemma_addr_map_at(self.clients_by_addr@, i as int);
                }
                Ok(self.clients_by_addr[i].1)
            },
            None => Err(ServerError::UnknownPeer),
        }
    }

    /// Hands out the next identity and moves the counter on.
    fn next_id(&mut self) -> (id: PeerId)
        requires
            old(self).wf(),
            old(self)@.can_admit(),
        ensures
            final(self).wf(),
            id == old(self)@.next_id,
            final(self)@ == (ServerView {
                by_addr: old(self)@.by_addr,
                by_id: old(self)@.by_id,
                next_id: PeerId((old(self)@.next_id.0 + 1) as u128),
            }),
            final(self).clients_by_addr == old(self).clients_by_addr,
            final(self).clients_by_id == old(self).clients_by_id,
    {
        let id = self.client_id_sequence;
        self.client_id_sequence = self.client_id_sequence.next();
        id
    }

    /// Registers `addr` under the next identity, with a session that has
    /// stamped nothing yet, unless the address is registered already.
    pub fn register_client(&mut self, addr: PeerAddr) -> (id: Option<PeerId>)
        requires
            old(self).wf(),
            old(self)@.can_admit(),
        ensures
            final(self).wf(),
            final(self)@ == old(self)@.registered(addr).0,
            id == old(self)@.registered(addr).1,
    {
        if self.find(addr).is_none() {
            let id = self.next_id();
            self.clients_by_addr.push((addr, id));
            self.clients_by_id.insert(id.0, Peer::new(addr));
            proof {
                let entries = old(self).clients_by_addr@;
                let sessions = old(self).clients_by_id@;
                lemma_addr_map_push(entries, addr, id);
                assert(!sessions.contains_key(id.0));
                assert(self@.by_id =~= old(self)@.by_id.insert(id, PeerView::fresh(addr)));
                let grown = self.clients_by_addr@;
                assert forall|i: int| 0 <= i < grown.len() implies self.clients_by_id@.contains_key(
                    (#[trigger] grown[i]).1.0,
                ) && self.clients_by_id@[grown[i].1.0]@.addr == grown[i].0 by {
                    if i < entries.len() {
                        assert(grown[i] == entries[i]);
                        assert(sessions.contains_key(entries[i].1.0));
                    }
                }
                assert forall|k: u128| #[trigger] self.clients_by_id@.contains_key(k) implies k
                    < self.client_id_sequence.0 && exists|i: int|
                    0 <= i < grown.len() && (#[trigger] grown[i]).1.0 == k by {
                    if k == id.0 {
                        assert(grown[entries.len() as int].1.0 == k);
                    } else {
                        assert(sessions.contains_key(k));
                        let i = choose|i: int|
                            0 <= i < entries.len() && (#[trigger] entries[i]).1.0 == k;
                        assert(grown[i].1.0 == k);
                    }
                }
            }
            Some(id)
        } else {
            None
        }
    }

    /// Takes the client at `place` of the index out of both maps.
    fn unregister(&mut self, place: usize)
        requires
            old(self).wf(),
            place < old(self).clients_by_addr@.len(),
        ensures
            final(self).wf(),
            final(self)@ == old(self)@.without(
                old(self).clients_by_addr@[place as int].0,
                old(self).clients_by_addr@[place as int].1,
            ),
    {
        let (addr, id) = self.clients_by_addr.remove(place);
        self.clients_by_id.remove(&id.0);
        proof {
            let entries = old(self).clients_by_addr@;
            let sessions = old(self).clients_by_id@;
            let rest = self.clients_by_addr@;
            let at = place as int;
            lemma_addr_map_remove(entries, at);
            assert(self@.by_id =~= old(self)@.by_id.remove(id));
            assert forall|i: int| 0 <= i < rest.len() implies #[trigger] rest[i] == entries[if i
                < at {
                i
            } else {
                i + 1
            }] by {}
            assert forall|i: int| 0 <= i < rest.len() implies self.clients_by_id@.contains_key(
                (#[trigger] rest[i]).1.0,
            ) && self.clients_by_id@[rest[i].1.0]@.addr == rest[i].0 by {
                let i0 = if i < at { i } else { i + 1 };
                assert(sessions.contains_key(entries[i0].1.0));
                assert(sessions[entries[at].1.0]@.addr == entries[at].0);
                if i0 < at {
                    assert(entries[i0].0 != entries[at].0);
                } else {
                    assert(entries[at].0 != entries[i0].0);
                }
            }
            assert forall|k: u128| #[trigger] self.clients_by_id@.contains_key(k) implies k
                < self.client_id_sequence.0 && exists|i: int|
                0 <= i < rest.len() && (#[trigger] rest[i]).1.0 == k by {
                assert(sessions.contains_key(k));
                let i = choose|i: int| 0 <= i < entries.len() && (#[trigger] entries[i]).1.0 == k;
                let i1 = if i < at { i } else { i - 1 };
                assert(rest[i1].1.0 == k);
            }
        }
    }

    /// Turns what a receive attempt produced into a packet and the address
    /// it came from.
    ///
    /// No datagram is nothing; a datagram is its packet, or `InvalidData`
    /// with the decoder's reason.
    pub fn recv(&self, incoming: Option<(PeerAddr, &[u8])>) -> (result: Result<
        Option<(PeerAddr, Packet)>,
        ServerError,
    >)
        ensures
            received_view(result) == ServerView::received(incoming_view(incoming)),
    {
        let (addr, data) = match incoming {
            Some(datagram) => datagram,
            None => return Ok(None),
        };
        match Packet::decode(data) {
            Ok(packet) => Ok(Some((addr, packet))),
            Err(error) => Err(ServerError::InvalidData(error)),
        }
    }

    /// Stamps a packet through the session of the client `id` and hands
    /// back the datagram to transmit.
    ///
    /// This fails with `NotFound`, and changes nothing, when no client is
    /// registered under `id`.
    pub fn send_to(&mut self, id: PeerId, kind: PacketKind, payload: Bytes) -> (result: Result<
        Datagram,
        ServerError,
    >)
        requires
            old(self).wf(),
            PROTOCOL_HEADER_SIZE + bytes_contents(payload).len() <= isize::MAX,
        ensures
            final(self).wf(),
            final(self)@ == old(self)@.sent_to(id, kind, bytes_contents(payload)).0,
            sent_view(result) == old(self)@.sent_to(id, kind, bytes_contents(payload)).1,
            final(self).order() == old(self).order(),
    {
        let mut peer: Peer = match self.clients_by_id.get(&id.0) {
            Some(peer) => *peer,
            None => return Err(ServerError::NotFound),
        };
        let packet = peer.make_packet(kind, payload);
        let addr = peer.addr();
        self.clients_by_id.insert(id.0, peer);
        proof {
            let entries = self.clients_by_addr@;
            let sessions = old(self).clients_by_id@;
            assert(self@.by_id =~= old(self)@.by_id.insert(id, old(self)@.by_id[id].advanced()));
            assert forall|i: int| 0 <= i < entries.len() implies self.clients_by_id@.contains_key(
                (#[trigger] entries[i]).1.0,
            ) && self.clients_by_id@[entries[i].1.0]@.addr == entries[i].0 by {
                assert(sessions.contains_key(entries[i].1.0));
            }
            assert forall|k: u128| #[trigger] self.clients_by_id@.contains_key(k) implies k
                < self.client_id_sequence.0 && exists|i: int|
                0 <= i < entries.len() && (#[trigger] entries[i]).1.0 == k by {
                assert(sessions.contains_key(k));
            }
        }
        Ok(Datagram { addr, data: packet.encode() })
    }

    /// `send_to` with no payload.
    pub fn send_empty_to(&mut self, id: PeerId, kind: PacketKind) -> (result: Result<
        Datagram,
        ServerError,
    >)
        requires
            old(self).wf(),
        ensures
            final(self).wf(),
            final(self)@ == old(self)@.sent_to(id, kind, Seq::empty()).0,
            sent_view(result) == old(self)@.sent_to(id, kind, Seq::empty()).1,
            final(self).order() == old(self).order(),
    {
        self.send_to(id, kind, bytes_new())
    }

    /// The answer that admits the client `id`.
    fn send_accept_to(&mut self, id: PeerId) -> (result: Result<Datagram, ServerError>)
        requires
            old(self).wf(),
        ensures
            final(self).wf(),
            final(self)@ == old(self)@.sent_to(id, PacketKind::Accept, Seq::empty()).0,
            sent_view(result) == old(self)@.sent_to(id, PacketKind::Accept, Seq::empty()).1,
    {
        self.send_empty_to(id, PacketKind::Accept)
    }

    /// Stamps the same message once for every client, each through its own
    /// session, and hands back the datagrams to transmit, in the order of
    /// `order`.
    pub fn send(&mut self, kind: PacketKind, payload: Bytes) -> (datagrams: Vec<Datagram>)
        requires
            old(self).wf(),
            PROTOCOL_HEADER_SIZE + bytes_contents(payload).len() <= isize::MAX,
        ensures
            final(self).wf(),
            final(self)@ == old(self)@.after_broadcast(),
            final(self).order() == old(self).order(),
            old(self)@.lists_clients(old(self).order()),
            datagrams_view(datagrams@) == old(self)@.broadcast(
                old(self).order(),
                kind,
                bytes_contents(payload),
            ),
    {
        let mut datagrams: Vec<Datagram> = Vec::new();
        let count: usize = self.clients_by_addr.len();
        let ghost ids = self.order();
        let ghost before = self@;
        let ghost bytes = bytes_contents(payload);
        proof {
            self.lemma_order_lists_clients();
        }
        let mut i: usize = 0;
        while i < count
            invariant
                self.wf(),
                i <= count,
                count == ids.len(),
                self.order() == ids,
                ids == ids_of(self.clients_by_addr@),
                before.lists_clients(ids),
                bytes == bytes_contents(payload),
                PROTOCOL_HEADER_SIZE + bytes.len() <= isize::MAX,
                self@.by_addr == before.by_addr,
                self@.next_id == before.next_id,
                self@.by_id.dom() == before.by_id.dom(),
                forall|j: int|
                    0 <= j < i ==> self@.by_id[#[trigger] ids[j]] == before.by_id[ids[j]].advanced(),
                forall|j: int| i <= j < count ==> self@.by_id[#[trigger] ids[j]] == before.by_id[ids[j]],
                datagrams@.len() == i,
                forall|j: int|
                    0 <= j < i ==> (#[trigger] datagrams@[j])@ == before.outgoing(
                        ids[j],
                        kind,
                        bytes,
                    ),
            decreases count - i,
        {
            let id = self.clients_by_addr[i].1;
            let ghost prior = self@;
            assert(ids[i as int] == id);
            assert(ids.contains(id));
            assert(prior.by_id.dom().contains(id));
            match self.send_to(id, kind, bytes_clone(&payload)) {
                Ok(datagram) => {
                    datagrams.push(datagram);
                },
                Err(_) => {},
            }
            proof {
                assert(self@.by_id.dom() =~= before.by_id.dom());
                assert forall|j: int| 0 <= j < i + 1 implies self@.by_id[#[trigger] ids[j]]
                    == before.by_id[ids[j]].advanced() by {
                    if j < i {
                        assert(ids[j] != ids[i as int]);
                    }
                }
                assert forall|j: int| i + 1 <= j < count implies self@.by_id[#[trigger] ids[j]]
                    == before.by_id[ids[j]] by {
                    assert(ids[j] != ids[i as int]);
                }
            }
            i += 1;
        }
        proof {
            assert(self@.by_id =~= before.after_broadcast().by_id) by {
                assert forall|id: PeerId| self@.by_id.contains_key(id) implies self@.by_id[id]
                    == before.by_id[id].advanced() by {
                    assert(ids.contains(id));
                    let j = choose|j: int| 0 <= j < ids.len() && ids[j] == id;
                    assert(self@.by_id[ids[j]] == before.by_id[ids[j]].advanced());
                }
            }
            assert(datagrams_view(datagrams@) =~= before.broadcast(ids, kind, bytes));
        }
        datagrams
    }

    /// `send` with no payload.
    pub fn send_empty(&mut self, kind: PacketKind) -> (datagrams: Vec<Datagram>)
        requires
            old(self).wf(),
        ensures
            final(self).wf(),
            final(self)@ == old(self)@.after_broadcast(),
            final(self).order() == old(self).order(),
            old(self)@.lists_clients(old(self).order()),
            datagrams_view(datagrams@) == old(self)@.broadcast(
                old(self).order(),
                kind,
                Seq::empty(),
            ),
    {
        self.send(kind, bytes_new())
    }

    /// Takes what one receive attempt produced and moves the registry on.
    ///
    /// A `Request` from a new address admits the client: it is registered
    /// under the next identity, answered with an empty `Accept` and
    /// reported as `NewClient`; from a registered address it does nothing.
    /// A `Disconnect` from a registered address is answered with an empty
    /// `Disconnect`, the client leaves both maps and is reported as
    /// `DisconnectClient`; from any other address it does nothing. A `Ping`
    /// from a registered address is answered with an empty `Pong` and
    /// reported as `Data`. Every other packet from a registered address is
    /// reported as `Data`. A `Ping` or any other packet from an address
    /// that is not registered is `UnknownPeer`, and a datagram that is no
    /// packet is `InvalidData`; neither changes anything.
    pub fn poll(&mut self, incoming: Option<(PeerAddr, &[u8])>) -> (result: Result<
        ServerPoll,
        ServerError,
    >)
        requires
            old(self).wf(),
            old(self)@.can_admit(),
        ensures
            final(self).wf(),
            final(self)@ == old(self)@.polled(incoming_view(incoming)).0,
            polled_view(result) == old(self)@.polled(incoming_view(incoming)).1,
    {
        let (addr, packet) = match self.recv(incoming)? {
            Some(received) => received,
            None => return Ok(ServerPoll { event: None, reply: None }),
        };
        match packet.kind() {
            PacketKind::Request => {
                if let Some(id) = self.register_client(addr) {
                    let accept = self.send_accept_to(id)?;
                    Ok(ServerPoll { event: Some(ServerEvent::NewClient(id)), reply: Some(accept) })
                } else {
                    Ok(ServerPoll { event: None, reply: None })
                }
            },
            PacketKind::Disconnect => {
                if let Some(place) = self.find(addr) {
                    let id = self.clients_by_addr[place].1;
                    proof {
                        lemma_addr_map_at(self.clients_by_addr@, place as int);
                        self.lemma_lock_step();
                    }
                    let farewell = self.send_empty_to(id, PacketKind::Disconnect)?;
                    proof {
                        old(self).lemma_same_index(self);
                    }
                    self.unregister(place);
                    proof {
                        assert(self@.by_id =~= old(self)@.by_id.remove(id));
                    }
                    Ok(
                        ServerPoll {
                            event: Some(ServerEvent::DisconnectClient(id)),
                            reply: Some(farewell),
                        },
                    )
                } else {
                    Ok(ServerPoll { event: None, reply: None })
                }
            },
            PacketKind::Ping => {
                let id = self.get_peer_id(addr)?;
                proof {
                    self.lemma_lock_step();
                }
                let pong = self.send_empty_to(id, PacketKind::Pong)?;
                Ok(ServerPoll { event: Some(ServerEvent::Data(id, packet)), reply: Some(pong) })
            },
            _ => {
                let id = self.get_peer_id(addr)?;
                Ok(ServerPoll { event: Some(ServerEvent::Data(id, packet)), reply: None })
            },
        }
    }
}

} // verus!
