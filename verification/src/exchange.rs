//! What the two sides do to each other.
//!
//! Each law here takes a datagram that one side hands to the transport and
//! gives it to the other side as received, unchanged: it states what the
//! protocol achieves when the transport delivers.

use crate::client::error::ClientError;
use crate::client::event::ClientEventView;
use crate::client::model::{ClientPollView, ClientView};
use crate::client::state::ClientState;
use crate::packet::kind::PacketKind;
use crate::peer::addr::PeerAddr;
use crate::server::error::ServerError;
use crate::server::event::ServerEventView;
use crate::server::model::{ServerPollView, ServerView};
use vstd::prelude::*;

verus! {

/// The handshake completes. The request of a connecting client, delivered
/// to a server that does not know the client's address, admits the client
/// under the server's next identity; the server's answer, delivered to the
/// client, connects it.
pub proof fn lemma_handshake_completes(client: ClientView, server: ServerView, from: PeerAddr)
    requires
        client.state == ClientState::Connecting,
        server.can_admit(),
        !server.by_addr.contains_key(from),
    ensures
        ({
            let asked = client.sent(PacketKind::Request, Seq::empty());
            let admitted = server.polled(Some((from, asked.1->Ok_0.data)));
            let accept = admitted.1->Ok_0.reply->Some_0;
            &&& asked.1 is Ok
            &&& admitted.1 is Ok
            &&& admitted.0.by_addr.contains_key(from)
            &&& admitted.0.by_addr[from] == server.next_id
            &&& admitted.1->Ok_0.event == Some(ServerEventView::NewClient(server.next_id))
            &&& admitted.1->Ok_0.reply is Some
            &&& accept.addr == from
            &&& asked.0.polled(Some((client.server.addr, accept.data))) == (
                asked.0.with_state(ClientState::Connected),
                Ok::<ClientPollView, ClientError>(
                    ClientPollView { event: Some(ClientEventView::Connected), reply: None },
                ),
            )
        }),
{
    client.server.stamped(PacketKind::Request, Seq::empty()).lemma_decode_encode();
    let registered = server.registered(from).0;
    registered.by_id[server.next_id].stamped(
        PacketKind::Accept,
        Seq::empty(),
    ).lemma_decode_encode();
}

/// Data arrives. What a connected client sends as `Data`, delivered to the
/// server that has the client registered, is reported there under the
/// client's identity with the payload unchanged, and changes nothing.
pub proof fn lemma_data_arrives(
    client: ClientView,
    server: ServerView,
    from: PeerAddr,
    payload: Seq<u8>,
)
    requires
        client.state == ClientState::Connected,
        server.by_addr.contains_key(from),
    ensures
        ({
            let sent = client.sent(PacketKind::Data, payload);
            &&& sent.1 is Ok
            &&& server.polled(Some((from, sent.1->Ok_0.data))) == (
                server,
                Ok::<ServerPollView, ServerError>(
                    ServerPollView {
                        event: Some(
                            ServerEventView::Data(
                                server.by_addr[from],
                                client.server.stamped(PacketKind::Data, payload),
                            ),
                        ),
                        reply: None,
                    },
                ),
            )
        }),
{
    client.server.stamped(PacketKind::Data, payload).lemma_decode_encode();
}

/// Leaving is acknowledged. The `Disconnect` of a connected client,
/// delivered to the server that has the client registered, removes the
/// client there and is reported; the server's answer, delivered to the
/// client, disconnects it.
pub proof fn lemma_disconnect_completes(client: ClientView, server: ServerView, from: PeerAddr)
    requires
        client.state == ClientState::Connected,
        server.lock_step(),
        server.by_addr.contains_key(from),
    ensures
        ({
            let leaving = client.sent(PacketKind::Disconnect, Seq::empty());
            let left = server.polled(Some((from, leaving.1->Ok_0.data)));
            let farewell = left.1->Ok_0.reply->Some_0;
            &&& leaving.1 is Ok
            &&& left.1 is Ok
            &&& left.1->Ok_0.event == Some(
                ServerEventView::DisconnectClient(server.by_addr[from]),
            )
            &&& !left.0.by_addr.contains_key(from)
            &&& !left.0.by_id.contains_key(server.by_addr[from])
            &&& left.1->Ok_0.reply is Some
            &&& farewell.addr == from
            &&& leaving.0.polled(Some((client.server.addr, farewell.data))) == (
                leaving.0.with_state(ClientState::Disconnected),
                Ok::<ClientPollView, ClientError>(
                    ClientPollView { event: Some(ClientEventView::Disconnected), reply: None },
                ),
            )
        }),
{
    client.server.stamped(PacketKind::Disconnect, Seq::empty()).lemma_decode_encode();
    let id = server.by_addr[from];
    assert(server.by_id.contains_key(id));
    server.by_id[id].stamped(PacketKind::Disconnect, Seq::empty()).lemma_decode_encode();
}

/// A probe is answered. The `Ping` that a server stamps for a registered
/// client, delivered to that client while it may receive, is answered with
/// a `Pong` and reported to nobody; the `Pong`, delivered to the server, is
/// reported there as data of that client.
pub proof fn lemma_ping_is_answered(client: ClientView, server: ServerView, from: PeerAddr)
    requires
        client.can_recv(),
        server.lock_step(),
        server.by_addr.contains_key(from),
    ensures
        ({
            let probing = server.sent_to(server.by_addr[from], PacketKind::Ping, Seq::empty());
            let answered = client.polled(Some((client.server.addr, probing.1->Ok_0.data)));
            let pong = answered.1->Ok_0.reply->Some_0;
            let reported = probing.0.polled(Some((from, pong.data)));
            &&& probing.1 is Ok
            &&& probing.1->Ok_0.addr == from
            &&& answered.1 is Ok
            &&& answered.1->Ok_0.event is None
            &&& answered.1->Ok_0.reply is Some
            &&& pong.addr == client.server.addr
            &&& reported.1 is Ok
            &&& reported.1->Ok_0.event == Some(
                ServerEventView::Data(
                    server.by_addr[from],
                    client.server.stamped(PacketKind::Pong, Seq::empty()),
                ),
            )
            &&& reported.1->Ok_0.reply is None
        }),
{
    let id = server.by_addr[from];
    assert(server.by_id.contains_key(id));
    server.by_id[id].stamped(PacketKind::Ping, Seq::empty()).lemma_decode_encode();
    client.server.stamped(PacketKind::Pong, Seq::empty()).lemma_decode_encode();
    let probing = server.sent_to(id, PacketKind::Ping, Seq::empty());
    assert(probing.0.by_addr.contains_key(from));
}

} // verus!
