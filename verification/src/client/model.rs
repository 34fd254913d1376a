//! The client as a mathematical value, and what each operation does to
//! it.
//!
//! The status moves from disconnected to connecting when a handshake
//! begins, from connecting to connected when the server accepts, and from
//! connected to disconnected when the server disconnects; a handshake that
//! runs out of time falls back to disconnected.

use crate::client::error::ClientError;
use crate::client::event::ClientEventView;
use crate::client::handshake::ConnectAttempt;
use crate::client::state::ClientState;
use crate::packet::kind::PacketKind;
use crate::packet::packet::PacketView;
use crate::peer::addr::PeerAddr;
use crate::peer::datagram::DatagramView;
use crate::peer::peer::PeerView;
use vstd::prelude::*;

verus! {

/// A client as a mathematical value.
pub struct ClientView {
    pub state: ClientState,
    pub server: PeerView,
}

/// The outcome of a `poll` as a mathematical value.
pub struct ClientPollView {
    pub event: Option<ClientEventView>,
    pub reply: Option<DatagramView>,
}

impl ClientView {
    /// A client of the server at `server_addr` that has not connected yet.
    pub open spec fn fresh(server_addr: PeerAddr) -> ClientView {
        ClientView { state: ClientState::Disconnected, server: PeerView::fresh(server_addr) }
    }

    /// Whether a datagram may be received in the present status.
    pub open spec fn can_recv(self) -> bool {
        self.state != ClientState::Disconnected
    }

    /// Whether a packet of `kind` may be sent in the present status.
    pub open spec fn can_send(self, kind: PacketKind) -> bool {
        self.state == ClientState::Connected || (self.state == ClientState::Connecting && kind
            == PacketKind::Request)
    }

    /// The client in another status.
    pub open spec fn with_state(self, state: ClientState) -> ClientView {
        ClientView { state, server: self.server }
    }

    /// The datagram that carries the next packet to the server.
    pub open spec fn outgoing(self, kind: PacketKind, payload: Seq<u8>) -> DatagramView {
        DatagramView { addr: self.server.addr, data: self.server.stamped(kind, payload).encoded() }
    }

    /// The client after a packet was stamped for the server.
    pub open spec fn after_stamp(self) -> ClientView {
        ClientView { state: self.state, server: self.server.advanced() }
    }

    /// What `send` does: the client afterwards and the result.
    pub open spec fn sent(self, kind: PacketKind, payload: Seq<u8>) -> (
        ClientView,
        Result<DatagramView, ClientError>,
    ) {
        if self.can_send(kind) {
            (self.after_stamp(), Ok(self.outgoing(kind, payload)))
        } else {
            (self, Err(ClientError::NotConnected))
        }
    }

    /// What a receive attempt amounts to: an error, nothing, or a packet
    /// from the server.
    pub open spec fn received(self, incoming: Option<(PeerAddr, Seq<u8>)>) -> Result<
        Option<PacketView>,
        ClientError,
    > {
        if !self.can_recv() {
            Err(ClientError::NotConnected)
        } else {
            match incoming {
                None => Ok(None),
                Some((addr, data)) => if addr != self.server.addr {
                    Ok(None)
                } else {
                    match PacketView::decoded(data) {
                        Ok(packet) => Ok(Some(packet)),
                        Err(error) => Err(ClientError::InvalidData(error)),
                    }
                },
            }
        }
    }

    /// What the client does with a packet from its server: the client
    /// afterwards and what it asks of the caller.
    pub open spec fn dispatched(self, packet: PacketView) -> (ClientView, ClientPollView) {
        if self.state == ClientState::Connecting && packet.kind == PacketKind::Accept {
            (
                self.with_state(ClientState::Connected),
                ClientPollView { event: Some(ClientEventView::Connected), reply: None },
            )
        } else if self.state == ClientState::Connected && packet.kind == PacketKind::Disconnect {
            (
                self.with_state(ClientState::Disconnected),
                ClientPollView { event: Some(ClientEventView::Disconnected), reply: None },
            )
        } else if packet.kind == PacketKind::Ping {
            (
                self.after_stamp(),
                ClientPollView {
                    event: None,
                    reply: Some(self.outgoing(PacketKind::Pong, Seq::empty())),
                },
            )
        } else {
            (self, ClientPollView { event: Some(ClientEventView::Data(packet)), reply: None })
        }
    }

    /// What `poll` does: the client afterwards and the result.
    pub open spec fn polled(self, incoming: Option<(PeerAddr, Seq<u8>)>) -> (
        ClientView,
        Result<ClientPollView, ClientError>,
    ) {
        match self.received(incoming) {
            Err(error) => (self, Err(error)),
            Ok(None) => (self, Ok(ClientPollView { event: None, reply: None })),
            Ok(Some(packet)) => (self.dispatched(packet).0, Ok(self.dispatched(packet).1)),
        }
    }

    /// What `connect` does: the client afterwards and the result.
    pub open spec fn connecting(self, timeout: u128, interval: u128) -> (
        ClientView,
        Result<ConnectAttempt, ClientError>,
    ) {
        if self.state != ClientState::Disconnected {
            (self, Err(ClientError::AlreadyExists))
        } else {
            (
                self.with_state(ClientState::Connecting),
                Ok(ConnectAttempt::begun(timeout, interval)),
            )
        }
    }

    /// What `connect_step` does: the client and the schedule afterwards,
    /// and the result.
    pub open spec fn stepped(self, attempt: ConnectAttempt, elapsed: u128) -> (
        ClientView,
        ConnectAttempt,
        Result<Option<DatagramView>, ClientError>,
    ) {
        if attempt.expired(elapsed) {
            (self.with_state(ClientState::Disconnected), attempt, Err(ClientError::TimedOut))
        } else if attempt.due(elapsed) {
            match self.sent(PacketKind::Request, Seq::empty()).1 {
                Ok(datagram) => (self.after_stamp(), attempt.rescheduled(), Ok(Some(datagram))),
                Err(error) => (self, attempt, Err(error)),
            }
        } else {
            (self, attempt, Ok(None))
        }
    }
}

impl ClientView {
    /// While disconnected no packet of any kind can be sent: `send` fails
    /// with `NotConnected` and changes nothing.
    pub proof fn lemma_disconnected_sends_nothing(self, kind: PacketKind, payload: Seq<u8>)
        requires
            self.state == ClientState::Disconnected,
        ensures
            self.sent(kind, payload) == (
                self,
                Err::<DatagramView, ClientError>(ClientError::NotConnected),
            ),
    {
    }

    /// While connecting a `Request` is sent and nothing else: `send`
    /// succeeds exactly for that kind, and fails with `NotConnected`,
    /// changing nothing, for every other.
    pub proof fn lemma_connecting_sends_only_request(self, kind: PacketKind, payload: Seq<u8>)
        requires
            self.state == ClientState::Connecting,
        ensures
            self.sent(kind, payload).1 is Ok <==> kind == PacketKind::Request,
            kind != PacketKind::Request ==> self.sent(kind, payload) == (
                self,
                Err::<DatagramView, ClientError>(ClientError::NotConnected),
            ),
    {
    }

    /// While connected a packet of every kind is sent.
    pub proof fn lemma_connected_sends_everything(self, kind: PacketKind, payload: Seq<u8>)
        requires
            self.state == ClientState::Connected,
        ensures
            self.sent(kind, payload) == (
                self.after_stamp(),
                Ok::<DatagramView, ClientError>(self.outgoing(kind, payload)),
            ),
    {
    }

    /// An `Accept` from the server, received while connecting, connects the
    /// client and is reported as one `Connected` event; nothing is sent
    /// back and the session is untouched.
    pub proof fn lemma_accept_connects(self, data: Seq<u8>)
        requires
            self.state == ClientState::Connecting,
            PacketView::decoded(data) matches Ok(packet) && packet.kind == PacketKind::Accept,
        ensures
            self.polled(Some((self.server.addr, data))) == (
                self.with_state(ClientState::Connected),
                Ok::<ClientPollView, ClientError>(
                    ClientPollView { event: Some(ClientEventView::Connected), reply: None },
                ),
            ),
    {
    }

    /// The status changes in two ways only: from connecting to connected,
    /// on an `Accept` from the server, and from connected to disconnected,
    /// on a `Disconnect` from the server.
    pub proof fn lemma_poll_changes_status_on_handshake_only(
        self,
        incoming: Option<(PeerAddr, Seq<u8>)>,
    )
        requires
            self.polled(incoming).0.state != self.state,
        ensures
            incoming matches Some((addr, data)) && addr == self.server.addr && (PacketView::decoded(
                data,
            ) matches Ok(packet) && ((self.state == ClientState::Connecting && packet.kind
                == PacketKind::Accept && self.polled(incoming).0.state == ClientState::Connected)
                || (self.state == ClientState::Connected && packet.kind == PacketKind::Disconnect
                && self.polled(incoming).0.state == ClientState::Disconnected))),
    {
    }

    /// Traffic from any address but the server's disturbs nothing: it is
    /// neither an event nor an error, and the client stays as it was.
    pub proof fn lemma_strangers_are_ignored(self, addr: PeerAddr, data: Seq<u8>)
        requires
            self.can_recv(),
            addr != self.server.addr,
        ensures
            self.polled(Some((addr, data))) == (
                self,
                Ok::<ClientPollView, ClientError>(ClientPollView { event: None, reply: None }),
            ),
    {
    }

    /// A poll that fails leaves the client as it was.
    pub proof fn lemma_failed_poll_changes_nothing(self, incoming: Option<(PeerAddr, Seq<u8>)>)
        requires
            self.polled(incoming).1 is Err,
        ensures
            self.polled(incoming).0 == self,
    {
    }

    /// A handshake that has run out of time leaves the client
    /// disconnected, so that a new handshake can begin.
    pub proof fn lemma_timeout_allows_retry(
        self,
        attempt: ConnectAttempt,
        elapsed: u128,
        timeout: u128,
        interval: u128,
    )
        requires
            attempt.expired(elapsed),
        ensures
            self.stepped(attempt, elapsed).2 == Err::<Option<DatagramView>, ClientError>(
                ClientError::TimedOut,
            ),
            self.stepped(attempt, elapsed).0.state == ClientState::Disconnected,
            self.stepped(attempt, elapsed).0.connecting(timeout, interval).1 is Ok,
    {
    }
}

} // verus!
