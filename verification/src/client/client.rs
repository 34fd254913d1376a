//! The client's connection state machine.
//!
//! The client owns the session with its server and a connection status.
//! It neither reads nor writes a socket: `poll` is given what one receive
//! attempt produced and answers with the event to report and the datagram
//! to send back, and the sending operations answer with the datagram to
//! transmit.

use crate::buffer::{bytes_contents, bytes_new};
use crate::client::error::ClientError;
use crate::client::event::ClientEvent;
use crate::client::handshake::ConnectAttempt;
use crate::client::model::{ClientPollView, ClientView};
use crate::client::state::ClientState;
use crate::constants::PROTOCOL_HEADER_SIZE;
use crate::packet::kind::PacketKind;
use crate::packet::packet::{Packet, PacketView};
use crate::peer::addr::PeerAddr;
use crate::peer::datagram::{incoming_view, Datagram, DatagramView};
use crate::peer::peer::Peer;
use bytes::Bytes;
use vstd::prelude::*;

verus! {

/// A client: its connection status and its session with the server.
#[derive(Debug)]
pub struct ClientPeer {
    state: ClientState,
    server: Peer,
}

/// What one `poll` asks of the caller.
#[derive(Debug)]
pub struct ClientPoll {
    /// The event to report to the application, if any.
    pub event: Option<ClientEvent>,
    /// The datagram to transmit in answer, if any.
    pub reply: Option<Datagram>,
}

impl View for ClientPoll {
    type V = ClientPollView;

    open spec fn view(&self) -> ClientPollView {
        ClientPollView {
            event: match self.event {
                Some(event) => Some(event@),
                None => None,
            },
            reply: match self.reply {
                Some(reply) => Some(reply@),
                None => None,
            },
        }
    }
}

/// The result of a receive, with the packet as a mathematical value.
pub open spec fn received_view(result: Result<Option<Packet>, ClientError>) -> Result<
    Option<PacketView>,
    ClientError,
> {
    match result {
        Ok(Some(packet)) => Ok(Some(packet@)),
        Ok(None) => Ok(None),
        Err(error) => Err(error),
    }
}

/// The result of a send, with the datagram as a mathematical value.
pub open spec fn sent_view(result: Result<Datagram, ClientError>) -> Result<
    DatagramView,
    ClientError,
> {
    match result {
        Ok(datagram) => Ok(datagram@),
        Err(error) => Err(error),
    }
}

/// The result of a poll as a mathematical value.
pub open spec fn polled_view(result: Result<ClientPoll, ClientError>) -> Result<
    ClientPollView,
    ClientError,
> {
    match result {
        Ok(outcome) => Ok(outcome@),
        Err(error) => Err(error),
    }
}

/// The result of a handshake step as a mathematical value.
pub open spec fn stepped_view(result: Result<Option<Datagram>, ClientError>) -> Result<
    Option<DatagramView>,
    ClientError,
> {
    match result {
        Ok(Some(datagram)) => Ok(Some(datagram@)),
        Ok(None) => Ok(None),
        Err(error) => Err(error),
    }
}

impl View for ClientPeer {
    type V = ClientView;

    closed spec fn view(&self) -> ClientView {
        ClientView { state: self.state, server: self.server@ }
    }
}

impl ClientPeer {
    /// A client of the server at `server_addr`, not connected.
    pub fn new(server_addr: PeerAddr) -> (client: ClientPeer)
        ensures
            client@ == ClientView::fresh(server_addr),
    {
        ClientPeer { state: ClientState::Disconnected, server: Peer::new(server_addr) }
    }

    /// The present status.
    pub fn state(&self) -> (state: ClientState)
        ensures
            state == self@.state,
    {
        self.state
    }

    /// The address of the server.
    pub fn server_addr(&self) -> (addr: PeerAddr)
        ensures
            addr == self@.server.addr,
    {
        self.server.addr()
    }

    /// Fails with `NotConnected` while disconnected, and only then.
    pub fn verify_can_recv(&self) -> (result: Result<(), ClientError>)
        ensures
            result == if self@.can_recv() {
                Ok::<(), ClientError>(())
            } else {
                Err::<(), ClientError>(ClientError::NotConnected)
            },
    {
        match self.state {
            ClientState::Connecting | ClientState::Connected => Ok(()),
            ClientState::Disconnected => Err(ClientError::NotConnected),
        }
    }

    /// Fails with `NotConnected` unless the client is connected, or is
    /// connecting and `kind` is `Request`.
    pub fn verify_can_send(&self, kind: &PacketKind) -> (result: Result<(), ClientError>)
        ensures
            result == if self@.can_send(*kind) {
                Ok::<(), ClientError>(())
            } else {
                Err::<(), ClientError>(ClientError::NotConnected)
            },
    {
        match (self.state, kind) {
            (ClientState::Connected, _) => Ok(()),
            (ClientState::Connecting, PacketKind::Request) => Ok(()),
            (ClientState::Connecting, _) | (ClientState::Disconnected, _) => Err(
                ClientError::NotConnected,
            ),
        }
    }

    /// Turns what a receive attempt produced into a packet from the server.
    ///
    /// While disconnected this fails with `NotConnected`. Otherwise no
    /// datagram, or one from another address, is nothing; a datagram from
    /// the server is its packet, or `InvalidData` with the decoder's reason.
    pub fn recv(&self, incoming: Option<(PeerAddr, &[u8])>) -> (result: Result<
        Option<Packet>,
        ClientError,
    >)
        ensures
            received_view(result) == self@.received(incoming_view(incoming)),
    {
        self.verify_can_recv()?;
        let (addr, data) = match incoming {
            Some(datagram) => datagram,
            None => return Ok(None),
        };
        if addr != self.server.addr() {
            return Ok(None);
        }
        match Packet::decode(data) {
            Ok(packet) => Ok(Some(packet)),
            Err(error) => Err(ClientError::InvalidData(error)),
        }
    }

    /// Stamps a packet for the server and writes it as a datagram.
    fn stamp(&mut self, kind: PacketKind, payload: Bytes) -> (datagram: Datagram)
        requires
            PROTOCOL_HEADER_SIZE + bytes_contents(payload).len() <= isize::MAX,
        ensures
            datagram@ == old(self)@.outgoing(kind, bytes_contents(payload)),
            final(self)@ == old(self)@.after_stamp(),
    {
        let packet = self.server.make_packet(kind, payload);
        Datagram { addr: self.server.addr(), data: packet.encode() }
    }

    /// Stamps a packet for the server and hands back the datagram to
    /// transmit.
    ///
    /// This fails with `NotConnected`, and changes nothing, unless the
    /// client is connected, or is connecting and `kind` is `Request`.
    pub fn send(&mut self, kind: PacketKind, payload: Bytes) -> (result: Result<
        Datagram,
        ClientError,
    >)
        requires
            PROTOCOL_HEADER_SIZE + bytes_contents(payload).len() <= isize::MAX,
        ensures
            final(self)@ == old(self)@.sent(kind, bytes_contents(payload)).0,
            sent_view(result) == old(self)@.sent(kind, bytes_contents(payload)).1,
    {
        self.verify_can_send(&kind)?;
        Ok(self.stamp(kind, payload))
    }

    /// `send` with no payload.
    pub fn send_empty(&mut self, kind: PacketKind) -> (result: Result<Datagram, ClientError>)
        ensures
            final(self)@ == old(self)@.sent(kind, Seq::empty()).0,
            sent_view(result) == old(self)@.sent(kind, Seq::empty()).1,
    {
        self.send(kind, bytes_new())
    }

    /// The handshake request, ready to transmit.
    pub fn send_request(&mut self) -> (result: Result<Datagram, ClientError>)
        ensures
            final(self)@ == old(self)@.sent(PacketKind::Request, Seq::empty()).0,
            sent_view(result) == old(self)@.sent(PacketKind::Request, Seq::empty()).1,
    {
        self.send_empty(PacketKind::Request)
    }

    /// Takes what one receive attempt produced and moves the connection on.
    ///
    /// An `Accept` while connecting connects and reports `Connected`. A
    /// `Disconnect` while connected disconnects and reports `Disconnected`.
    /// A `Ping` is answered with an empty `Pong` and reported to nobody.
    /// Every other packet from the server is reported as `Data`, and the
    /// status stays. Errors are those of `recv`, and change nothing.
    pub fn poll(&mut self, incoming: Option<(PeerAddr, &[u8])>) -> (result: Result<
        ClientPoll,
        ClientError,
    >)
        ensures
            final(self)@ == old(self)@.polled(incoming_view(incoming)).0,
            polled_view(result) == old(self)@.polled(incoming_view(incoming)).1,
    {
        let packet = match self.recv(incoming)? {
            Some(packet) => packet,
            None => return Ok(ClientPoll { event: None, reply: None }),
        };
        match (self.state, packet.kind()) {
            (ClientState::Connecting, PacketKind::Accept) => {
                self.state = ClientState::Connected;
                Ok(ClientPoll { event: Some(ClientEvent::Connected), reply: None })
            },
            (ClientState::Connected, PacketKind::Disconnect) => {
                self.state = ClientState::Disconnected;
                Ok(ClientPoll { event: Some(ClientEvent::Disconnected), reply: None })
            },
            (_, PacketKind::Ping) => {
                let pong = self.stamp(PacketKind::Pong, bytes_new());
                Ok(ClientPoll { event: None, reply: Some(pong) })
            },
            _ => Ok(ClientPoll { event: Some(ClientEvent::Data(packet)), reply: None }),
        }
    }

    /// Begins a handshake that gives up after `timeout` nanoseconds and
    /// asks again every `interval` nanoseconds.
    ///
    /// This fails with `AlreadyExists`, and changes nothing, unless the
    /// client is disconnected. Otherwise the client is connecting, and the
    /// schedule handed back is to be driven with `connect_step`.
    pub fn connect(&mut self, timeout: u128, interval: u128) -> (result: Result<
        ConnectAttempt,
        ClientError,
    >)
        ensures
            final(self)@ == old(self)@.connecting(timeout, interval).0,
            result == old(self)@.connecting(timeout, interval).1,
    {
        if self.state != ClientState::Disconnected {
            return Err(ClientError::AlreadyExists);
        }
        self.state = ClientState::Connecting;
        Ok(ConnectAttempt { deadline: timeout, next_retry: 0, interval })
    }

    /// One turn of a handshake, `elapsed` nanoseconds after it began.
    ///
    /// Once the deadline is reached the client is disconnected and the
    /// result is `TimedOut`. Before that, when a `Request` is due, it is
    /// stamped and handed back, and the next one is due an interval later.
    /// Otherwise there is nothing to transmit. The caller then polls, and
    /// the handshake is over when the poll reports `Connected`.
    pub fn connect_step(&mut self, attempt: &mut ConnectAttempt, elapsed: u128) -> (result: Result<
        Option<Datagram>,
        ClientError,
    >)
        ensures
            final(self)@ == old(self)@.stepped(*old(attempt), elapsed).0,
            *final(attempt) == old(self)@.stepped(*old(attempt), elapsed).1,
            stepped_view(result) == old(self)@.stepped(*old(attempt), elapsed).2,
    {
        if elapsed >= attempt.deadline {
            self.state = ClientState::Disconnected;
            return Err(ClientError::TimedOut);
        }
        if elapsed >= attempt.next_retry {
            let request = self.send_request()?;
            attempt.next_retry = attempt.next_retry.saturating_add(attempt.interval);
            return Ok(Some(request));
        }
        Ok(None)
    }
}

} // verus!
