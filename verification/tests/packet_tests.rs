use bytes::Bytes;
use netcode::constants::PROTOCOL_HEADER_SIZE;
use netcode::packet::{Packet, PacketError, PacketKind};

const KINDS: [PacketKind; 6] = [
    PacketKind::Request,
    PacketKind::Accept,
    PacketKind::Disconnect,
    PacketKind::Ping,
    PacketKind::Pong,
    PacketKind::Data,
];

#[test]
fn header_is_three_bytes() {
    assert_eq!(PROTOCOL_HEADER_SIZE, 3);
}

#[test]
fn tags_are_one_to_six() {
    let tags: Vec<u8> = KINDS.iter().map(|kind| kind.tag()).collect();
    assert_eq!(tags, vec![1, 2, 3, 4, 5, 6]);
}

#[test]
fn try_from_accepts_every_tag() {
    for kind in KINDS {
        assert_eq!(PacketKind::try_from(kind.tag()), Ok(kind));
    }
}

#[test]
fn try_from_rejects_every_other_byte() {
    for byte in 0..=255u8 {
        if !(1..=6).contains(&byte) {
            assert_eq!(PacketKind::try_from(byte), Err(PacketError::InvalidKind(byte)));
        }
    }
}

#[test]
fn encode_writes_tag_sequence_and_payload() {
    let packet = Packet::new(PacketKind::Data, 0x0102, Bytes::from(vec![9, 8, 7]));
    assert_eq!(&packet.encode()[..], &[6, 1, 2, 9, 8, 7]);
}

#[test]
fn encode_writes_sequence_big_endian() {
    let low = Packet::new(PacketKind::Ping, 1, Bytes::new());
    assert_eq!(&low.encode()[..], &[4, 0, 1]);
    let high = Packet::new(PacketKind::Ping, 256, Bytes::new());
    assert_eq!(&high.encode()[..], &[4, 1, 0]);
    let top = Packet::new(PacketKind::Pong, u16::MAX, Bytes::new());
    assert_eq!(&top.encode()[..], &[5, 255, 255]);
}

#[test]
fn encode_length_is_header_plus_payload() {
    for len in [0usize, 1, 2, 3, 100, 1200] {
        let packet = Packet::new(PacketKind::Data, 7, Bytes::from(vec![0xab; len]));
        assert_eq!(packet.encode().len(), 3 + len);
    }
}

#[test]
fn decode_reads_tag_sequence_and_payload() {
    let packet = Packet::decode(&[6, 1, 2, 9, 8, 7]).unwrap();
    assert_eq!(*packet.kind(), PacketKind::Data);
    assert_eq!(packet.sequence(), 0x0102);
    assert_eq!(packet.payload(), &[9, 8, 7]);
}

#[test]
fn decode_accepts_empty_payload() {
    let packet = Packet::decode(&[1, 0, 0]).unwrap();
    assert_eq!(*packet.kind(), PacketKind::Request);
    assert_eq!(packet.sequence(), 0);
    assert!(packet.payload().is_empty());
}

#[test]
fn decode_rejects_short_buffers() {
    for buffer in [&[][..], &[1][..], &[1, 0][..], &[9][..], &[0, 0][..]] {
        assert_eq!(Packet::decode(buffer).unwrap_err(), PacketError::TooShort);
    }
}

#[test]
fn decode_rejects_unknown_tags_with_the_byte() {
    for byte in 0..=255u8 {
        let result = Packet::decode(&[byte, 0, 0, 1, 2]);
        if (1..=6).contains(&byte) {
            assert!(result.is_ok());
        } else {
            assert_eq!(result.unwrap_err(), PacketError::InvalidKind(byte));
        }
    }
}

#[test]
fn short_buffer_wins_over_unknown_tag() {
    assert_eq!(Packet::decode(&[0, 0]).unwrap_err(), PacketError::TooShort);
    assert_eq!(Packet::decode(&[200]).unwrap_err(), PacketError::TooShort);
}

#[test]
fn round_trip_gives_the_packet_back() {
    let payloads: [Vec<u8>; 4] = [vec![], vec![0], vec![1, 2, 3], (0..=255u8).collect()];
    for kind in KINDS {
        for sequence in [0u16, 1, 255, 256, 0x1234, 65534, 65535] {
            for payload in &payloads {
                let packet = Packet::new(kind, sequence, Bytes::from(payload.clone()));
                let decoded = Packet::decode(&packet.encode()).unwrap();
                assert_eq!(*decoded.kind(), kind);
                assert_eq!(decoded.sequence(), sequence);
                assert_eq!(decoded.payload(), &payload[..]);
            }
        }
    }
}

#[test]
fn decoding_then_encoding_gives_the_bytes_back() {
    let bytes = [3u8, 0xfe, 0xdc, 1, 2, 3, 4];
    let packet = Packet::decode(&bytes).unwrap();
    assert_eq!(&packet.encode()[..], &bytes);
}

#[test]
fn getters_return_what_the_packet_was_made_of() {
    let packet = Packet::new(PacketKind::Accept, 42, Bytes::from_static(b"hello"));
    assert_eq!(*packet.kind(), PacketKind::Accept);
    assert_eq!(packet.sequence(), 42);
    assert_eq!(packet.payload(), b"hello");
}

#[test]
fn ordinary_payloads_fit() {
    assert!(Packet::fits(&Bytes::new()));
    assert!(Packet::fits(&Bytes::from(vec![0u8; 65_507])));
}
