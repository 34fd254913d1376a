use bytes::Bytes;
use netcode::packet::PacketKind;
use netcode::peer::{Peer, PeerAddr};

fn addr() -> PeerAddr {
    PeerAddr::V4 { ipv4: 0x7f00_0001, port: 5000 }
}

#[test]
fn peer_keeps_its_address() {
    assert_eq!(Peer::new(addr()).addr(), addr());
    let v6 = PeerAddr::V6 { ipv6: 1, port: 9, flowinfo: 2, scope_id: 3 };
    assert_eq!(Peer::new(v6).addr(), v6);
}

#[test]
fn addresses_differ_in_any_part() {
    let base = PeerAddr::V6 { ipv6: 1, port: 9, flowinfo: 2, scope_id: 3 };
    assert_ne!(base, PeerAddr::V6 { ipv6: 2, port: 9, flowinfo: 2, scope_id: 3 });
    assert_ne!(base, PeerAddr::V6 { ipv6: 1, port: 8, flowinfo: 2, scope_id: 3 });
    assert_ne!(base, PeerAddr::V6 { ipv6: 1, port: 9, flowinfo: 0, scope_id: 3 });
    assert_ne!(base, PeerAddr::V6 { ipv6: 1, port: 9, flowinfo: 2, scope_id: 0 });
    assert_ne!(PeerAddr::V4 { ipv4: 1, port: 9 }, PeerAddr::V4 { ipv4: 1, port: 10 });
    assert_ne!(PeerAddr::V4 { ipv4: 1, port: 9 }, base);
}

#[test]
fn sequence_starts_at_zero_and_grows_by_one() {
    let mut peer = Peer::new(addr());
    for expected in 0..1000u16 {
        let packet = peer.make_packet(PacketKind::Data, Bytes::new());
        assert_eq!(packet.sequence(), expected);
    }
}

#[test]
fn sequence_wraps_from_65535_to_zero() {
    let mut peer = Peer::new(addr());
    for _ in 0..65535u32 {
        peer.next_sequence();
    }
    assert_eq!(peer.make_packet(PacketKind::Ping, Bytes::new()).sequence(), 65535);
    assert_eq!(peer.make_packet(PacketKind::Ping, Bytes::new()).sequence(), 0);
    assert_eq!(peer.make_packet(PacketKind::Ping, Bytes::new()).sequence(), 1);
}

#[test]
fn next_sequence_hands_out_the_present_number() {
    let mut peer = Peer::new(addr());
    assert_eq!(peer.next_sequence(), 0);
    assert_eq!(peer.next_sequence(), 1);
    assert_eq!(peer.make_packet(PacketKind::Data, Bytes::new()).sequence(), 2);
}

#[test]
fn make_packet_keeps_kind_and_payload() {
    let mut peer = Peer::new(addr());
    let packet = peer.make_packet(PacketKind::Data, Bytes::from(vec![1, 2, 3]));
    assert_eq!(*packet.kind(), PacketKind::Data);
    assert_eq!(packet.payload(), &[1, 2, 3]);
    assert_eq!(peer.addr(), addr());
}

#[test]
fn sessions_count_independently() {
    let mut first = Peer::new(addr());
    let mut second = Peer::new(PeerAddr::V4 { ipv4: 0x7f00_0001, port: 5001 });
    first.next_sequence();
    first.next_sequence();
    assert_eq!(second.next_sequence(), 0);
    assert_eq!(first.next_sequence(), 2);
}
