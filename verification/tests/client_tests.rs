use bytes::Bytes;
use netcode::client::{ClientError, ClientEvent, ClientPeer, ClientState};
use netcode::packet::{PacketError, PacketKind};
use netcode::peer::PeerAddr;

const KINDS: [PacketKind; 6] = [
    PacketKind::Request,
    PacketKind::Accept,
    PacketKind::Disconnect,
    PacketKind::Ping,
    PacketKind::Pong,
    PacketKind::Data,
];

const SECOND: u128 = 1_000_000_000;

fn server() -> PeerAddr {
    PeerAddr::V4 { ipv4: 0x7f00_0001, port: 5000 }
}

fn stranger() -> PeerAddr {
    PeerAddr::V4 { ipv4: 0x7f00_0001, port: 5001 }
}

fn connecting() -> ClientPeer {
    let mut client = ClientPeer::new(server());
    client.connect(5 * SECOND, SECOND).unwrap();
    client
}

fn connected() -> ClientPeer {
    let mut client = connecting();
    client.poll(Some((server(), &[2, 0, 0]))).unwrap();
    assert_eq!(client.state(), ClientState::Connected);
    client
}

#[test]
fn new_client_is_disconnected() {
    let client = ClientPeer::new(server());
    assert_eq!(client.state(), ClientState::Disconnected);
    assert_eq!(client.server_addr(), server());
}

#[test]
fn send_while_disconnected_fails_for_every_kind() {
    for kind in KINDS {
        let mut client = ClientPeer::new(server());
        assert_eq!(
            client.send(kind, Bytes::from(vec![1, 2])).unwrap_err(),
            ClientError::NotConnected
        );
        assert_eq!(client.send_empty(kind).unwrap_err(), ClientError::NotConnected);
        assert_eq!(client.verify_can_send(&kind), Err(ClientError::NotConnected));
        assert_eq!(client.state(), ClientState::Disconnected);
    }
    let mut client = ClientPeer::new(server());
    assert_eq!(client.send_request().unwrap_err(), ClientError::NotConnected);
}

#[test]
fn failed_send_uses_no_sequence_number() {
    let mut client = connecting();
    assert!(client.send_empty(PacketKind::Data).is_err());
    assert!(client.send_empty(PacketKind::Ping).is_err());
    let request = client.send_request().unwrap();
    assert_eq!(&request.data[..], &[1, 0, 0]);
}

#[test]
fn only_request_is_sent_while_connecting() {
    for kind in KINDS {
        let mut client = connecting();
        let result = client.send(kind, Bytes::new());
        if kind == PacketKind::Request {
            let datagram = result.unwrap();
            assert_eq!(datagram.addr, server());
            assert_eq!(&datagram.data[..], &[1, 0, 0]);
        } else {
            assert_eq!(result.unwrap_err(), ClientError::NotConnected);
        }
        assert_eq!(client.state(), ClientState::Connecting);
    }
}

#[test]
fn every_kind_is_sent_while_connected() {
    for kind in KINDS {
        let mut client = connected();
        let datagram = client.send(kind, Bytes::from(vec![7])).unwrap();
        assert_eq!(datagram.addr, server());
        assert_eq!(&datagram.data[..], &[kind.tag(), 0, 0, 7]);
        assert_eq!(client.verify_can_send(&kind), Ok(()));
    }
}

#[test]
fn sends_are_numbered_in_order() {
    let mut client = connected();
    assert_eq!(&client.send_empty(PacketKind::Data).unwrap().data[..], &[6, 0, 0]);
    assert_eq!(&client.send_empty(PacketKind::Ping).unwrap().data[..], &[4, 0, 1]);
    assert_eq!(
        &client.send(PacketKind::Data, Bytes::from(vec![1, 2, 3])).unwrap().data[..],
        &[6, 0, 2, 1, 2, 3]
    );
}

#[test]
fn poll_while_disconnected_fails() {
    let mut client = ClientPeer::new(server());
    assert_eq!(client.verify_can_recv(), Err(ClientError::NotConnected));
    assert_eq!(client.poll(None).unwrap_err(), ClientError::NotConnected);
    assert_eq!(
        client.poll(Some((server(), &[2, 0, 0]))).unwrap_err(),
        ClientError::NotConnected
    );
    assert_eq!(client.recv(Some((server(), &[2, 0, 0]))).unwrap_err(), ClientError::NotConnected);
    assert_eq!(client.state(), ClientState::Disconnected);
}

#[test]
fn poll_without_datagram_is_no_event() {
    let mut client = connecting();
    let outcome = client.poll(None).unwrap();
    assert!(outcome.event.is_none());
    assert!(outcome.reply.is_none());
    assert_eq!(client.verify_can_recv(), Ok(()));
}

#[test]
fn datagrams_from_strangers_are_ignored() {
    let mut client = connecting();
    let outcome = client.poll(Some((stranger(), &[2, 0, 0]))).unwrap();
    assert!(outcome.event.is_none());
    assert!(outcome.reply.is_none());
    assert_eq!(client.state(), ClientState::Connecting);
    let outcome = client.poll(Some((stranger(), &[]))).unwrap();
    assert!(outcome.event.is_none());
    assert!(outcome.reply.is_none());
}

#[test]
fn malformed_datagrams_from_the_server_are_errors() {
    let mut client = connected();
    assert_eq!(
        client.poll(Some((server(), &[2, 0]))).unwrap_err(),
        ClientError::InvalidData(PacketError::TooShort)
    );
    assert_eq!(
        client.poll(Some((server(), &[9, 0, 0]))).unwrap_err(),
        ClientError::InvalidData(PacketError::InvalidKind(9))
    );
    assert_eq!(client.state(), ClientState::Connected);
    assert_eq!(&client.send_empty(PacketKind::Data).unwrap().data[..], &[6, 0, 0]);
}

#[test]
fn accept_while_connecting_connects() {
    let mut client = connecting();
    let outcome = client.poll(Some((server(), &[2, 0, 0]))).unwrap();
    assert!(matches!(outcome.event, Some(ClientEvent::Connected)));
    assert!(outcome.reply.is_none());
    assert_eq!(client.state(), ClientState::Connected);
    let next = client.poll(None).unwrap();
    assert!(next.event.is_none());
}

#[test]
fn disconnect_while_connected_disconnects() {
    let mut client = connected();
    let outcome = client.poll(Some((server(), &[3, 0, 5]))).unwrap();
    assert!(matches!(outcome.event, Some(ClientEvent::Disconnected)));
    assert!(outcome.reply.is_none());
    assert_eq!(client.state(), ClientState::Disconnected);
    assert_eq!(client.send_empty(PacketKind::Data).unwrap_err(), ClientError::NotConnected);
}

#[test]
fn disconnect_while_connecting_is_data() {
    let mut client = connecting();
    let outcome = client.poll(Some((server(), &[3, 0, 5]))).unwrap();
    match outcome.event {
        Some(ClientEvent::Data(packet)) => {
            assert_eq!(*packet.kind(), PacketKind::Disconnect);
            assert_eq!(packet.sequence(), 5);
        }
        other => panic!("unexpected event {:?}", other),
    }
    assert_eq!(client.state(), ClientState::Connecting);
}

#[test]
fn ping_is_answered_and_not_reported() {
    let mut client = connected();
    let outcome = client.poll(Some((server(), &[4, 0, 9, 1, 2]))).unwrap();
    assert!(outcome.event.is_none());
    let pong = outcome.reply.unwrap();
    assert_eq!(pong.addr, server());
    assert_eq!(&pong.data[..], &[5, 0, 0]);
    let outcome = client.poll(Some((server(), &[4, 0, 10]))).unwrap();
    assert_eq!(&outcome.reply.unwrap().data[..], &[5, 0, 1]);
    assert_eq!(client.state(), ClientState::Connected);
}

#[test]
fn ping_while_connecting_is_answered() {
    let mut client = connecting();
    let outcome = client.poll(Some((server(), &[4, 0, 0]))).unwrap();
    assert!(outcome.event.is_none());
    assert_eq!(&outcome.reply.unwrap().data[..], &[5, 0, 0]);
    assert_eq!(client.state(), ClientState::Connecting);
}

#[test]
fn client_data_is_reported_with_its_payload() {
    let mut client = connected();
    let outcome = client.poll(Some((server(), &[6, 1, 0, 1, 2, 3]))).unwrap();
    assert!(outcome.reply.is_none());
    match outcome.event {
        Some(ClientEvent::Data(packet)) => {
            assert_eq!(*packet.kind(), PacketKind::Data);
            assert_eq!(packet.sequence(), 256);
            assert_eq!(packet.payload(), &[1, 2, 3]);
        }
        other => panic!("unexpected event {:?}", other),
    }
    assert_eq!(client.state(), ClientState::Connected);
}

#[test]
fn other_kinds_are_reported_as_data() {
    for (tag, kind) in [(1u8, PacketKind::Request), (2, PacketKind::Accept), (5, PacketKind::Pong)] {
        let mut client = connected();
        let outcome = client.poll(Some((server(), &[tag, 0, 0]))).unwrap();
        match outcome.event {
            Some(ClientEvent::Data(packet)) => assert_eq!(*packet.kind(), kind),
            other => panic!("unexpected event {:?}", other),
        }
        assert_eq!(client.state(), ClientState::Connected);
    }
}

#[test]
fn recv_hands_out_the_packet() {
    let client = connected();
    let packet = client.recv(Some((server(), &[6, 0, 1, 8]))).unwrap().unwrap();
    assert_eq!(packet.payload(), &[8]);
    assert!(client.recv(None).unwrap().is_none());
    assert!(client.recv(Some((stranger(), &[6, 0, 1]))).unwrap().is_none());
}

#[test]
fn connect_begins_the_schedule() {
    let mut client = ClientPeer::new(server());
    let attempt = client.connect(5 * SECOND, SECOND).unwrap();
    assert_eq!(attempt.deadline, 5 * SECOND);
    assert_eq!(attempt.next_retry, 0);
    assert_eq!(attempt.interval, SECOND);
    assert_eq!(client.state(), ClientState::Connecting);
}

#[test]
fn connect_fails_unless_disconnected() {
    let mut client = connecting();
    assert_eq!(client.connect(SECOND, SECOND).unwrap_err(), ClientError::AlreadyExists);
    assert_eq!(client.state(), ClientState::Connecting);
    let mut client = connected();
    assert_eq!(client.connect(SECOND, SECOND).unwrap_err(), ClientError::AlreadyExists);
    assert_eq!(client.state(), ClientState::Connected);
}

#[test]
fn unanswered_connect_sends_five_requests_and_times_out() {
    let mut client = ClientPeer::new(server());
    let mut attempt = client.connect(5 * SECOND, SECOND).unwrap();
    let mut sent_at: Vec<u128> = Vec::new();
    let step = SECOND / 4;
    let mut elapsed: u128 = 0;
    let error = loop {
        match client.connect_step(&mut attempt, elapsed) {
            Ok(Some(request)) => {
                assert_eq!(request.addr, server());
                assert_eq!(request.data[0], 1);
                assert_eq!(request.data.len(), 3);
                sent_at.push(elapsed);
            }
            Ok(None) => {}
            Err(error) => break error,
        }
        let outcome = client.poll(None).unwrap();
        assert!(outcome.event.is_none());
        elapsed += step;
    };
    assert_eq!(error, ClientError::TimedOut);
    assert_eq!(elapsed, 5 * SECOND);
    assert_eq!(sent_at, vec![0, SECOND, 2 * SECOND, 3 * SECOND, 4 * SECOND]);
    assert_eq!(client.state(), ClientState::Disconnected);
    assert!(client.connect(5 * SECOND, SECOND).is_ok());
}

#[test]
fn requests_of_one_attempt_are_numbered_in_order() {
    let mut client = ClientPeer::new(server());
    let mut attempt = client.connect(5 * SECOND, SECOND).unwrap();
    let first = client.connect_step(&mut attempt, 0).unwrap().unwrap();
    assert_eq!(&first.data[..], &[1, 0, 0]);
    assert_eq!(attempt.next_retry, SECOND);
    assert!(client.connect_step(&mut attempt, SECOND - 1).unwrap().is_none());
    let second = client.connect_step(&mut attempt, SECOND).unwrap().unwrap();
    assert_eq!(&second.data[..], &[1, 0, 1]);
    assert_eq!(attempt.next_retry, 2 * SECOND);
}

#[test]
fn late_step_sends_one_request_per_step() {
    let mut client = ClientPeer::new(server());
    let mut attempt = client.connect(10 * SECOND, SECOND).unwrap();
    assert!(client.connect_step(&mut attempt, 3 * SECOND).unwrap().is_some());
    assert_eq!(attempt.next_retry, SECOND);
    assert!(client.connect_step(&mut attempt, 3 * SECOND).unwrap().is_some());
    assert_eq!(attempt.next_retry, 2 * SECOND);
}

#[test]
fn connect_with_no_time_sends_nothing() {
    let mut client = ClientPeer::new(server());
    let mut attempt = client.connect(0, SECOND).unwrap();
    assert_eq!(client.connect_step(&mut attempt, 0).unwrap_err(), ClientError::TimedOut);
    assert_eq!(client.state(), ClientState::Disconnected);
}

#[test]
fn retry_moment_past_the_largest_number_is_never_due() {
    let mut client = connecting();
    let mut attempt = netcode::client::ConnectAttempt {
        deadline: u128::MAX,
        next_retry: 10,
        interval: u128::MAX,
    };
    assert!(client.connect_step(&mut attempt, 9).unwrap().is_none());
    assert!(client.connect_step(&mut attempt, 10).unwrap().is_some());
    assert_eq!(attempt.next_retry, u128::MAX);
    assert_eq!(attempt.deadline, u128::MAX);
    assert_eq!(attempt.interval, u128::MAX);
    assert!(client.connect_step(&mut attempt, 11).unwrap().is_none());
    assert!(client.connect_step(&mut attempt, u128::MAX - 1).unwrap().is_none());
    assert_eq!(
        client.connect_step(&mut attempt, u128::MAX).unwrap_err(),
        ClientError::TimedOut
    );
}

#[test]
fn accept_ends_the_handshake() {
    let mut client = ClientPeer::new(server());
    let mut attempt = client.connect(5 * SECOND, SECOND).unwrap();
    assert!(client.connect_step(&mut attempt, 0).unwrap().is_some());
    let outcome = client.poll(Some((server(), &[2, 0, 0]))).unwrap();
    assert!(matches!(outcome.event, Some(ClientEvent::Connected)));
    assert_eq!(client.state(), ClientState::Connected);
}

#[test]
fn step_on_a_disconnected_client_fails_when_a_request_is_due() {
    let mut client = connected();
    client.poll(Some((server(), &[3, 0, 0]))).unwrap();
    let mut attempt = netcode::client::ConnectAttempt {
        deadline: SECOND,
        next_retry: 0,
        interval: SECOND,
    };
    assert_eq!(client.connect_step(&mut attempt, 1).unwrap_err(), ClientError::NotConnected);
    assert_eq!(attempt.next_retry, 0);
}
