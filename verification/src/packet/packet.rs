//! A packet, and the bytes that carry it.
//!
//! On the wire a packet is its kind tag, its sequence number in two bytes,
//! most significant first, and then the payload up to the end of the
//! datagram. No length is written: whatever follows the header is payload.

use crate::buffer::{
    be_bytes, bytes_as_slice, bytes_contents, bytes_len, bytes_mut_with_capacity, copy_to_bytes,
    extend_from_slice, freeze, from_be_bytes, get_u16, get_u8, put_u16, put_u8, remaining,
};
use crate::constants::PROTOCOL_HEADER_SIZE;
use crate::packet::error::PacketError;
use crate::packet::kind::PacketKind;
use bytes::Bytes;
use vstd::prelude::*;

verus! {

/// One protocol message: what it is for, the number its sender gave it, and
/// the bytes it carries.
#[derive(Debug)]
pub struct Packet {
    pub(crate) kind: PacketKind,
    pub(crate) sequence: u16,
    pub(crate) payload: Bytes,
}

/// A packet as a mathematical value.
pub struct PacketView {
    pub kind: PacketKind,
    pub sequence: u16,
    pub payload: Seq<u8>,
}

impl PacketView {
    /// The datagram that carries this packet.
    pub open spec fn encoded(self) -> Seq<u8> {
        seq![self.kind.tag_spec()] + be_bytes(self.sequence) + self.payload
    }

    /// The packet that a datagram carries, or the reason it carries none.
    pub open spec fn decoded(bytes: Seq<u8>) -> Result<PacketView, PacketError> {
        if bytes.len() < PROTOCOL_HEADER_SIZE {
            Err(PacketError::TooShort)
        } else {
            match PacketKind::of_tag(bytes[0]) {
                None => Err(PacketError::InvalidKind(bytes[0])),
                Some(kind) => Ok(
                    PacketView {
                        kind,
                        sequence: from_be_bytes(bytes[1], bytes[2]),
                        payload: bytes.skip(PROTOCOL_HEADER_SIZE as int),
                    },
                ),
            }
        }
    }

    /// Decoding what was encoded gives the packet back, whatever its kind,
    /// sequence number and payload.
    pub proof fn lemma_decode_encode(self)
        ensures
            PacketView::decoded(self.encoded()) == Ok::<PacketView, PacketError>(self),
    {
        let bytes = self.encoded();
        let n = self.sequence;
        assert(bytes.len() == 3 + self.payload.len());
        assert(bytes[0] == self.kind.tag_spec());
        assert(bytes[1] == (n / 256) as u8);
        assert(bytes[2] == (n % 256) as u8);
        assert(from_be_bytes(bytes[1], bytes[2]) == n);
        assert(bytes.skip(3) =~= self.payload);
        PacketKind::lemma_of_tag_inverts_tag(self.kind);
    }

    /// Encoding what was decoded gives the datagram back: no two datagrams
    /// carry the same packet.
    pub proof fn lemma_encode_decode(bytes: Seq<u8>)
        requires
            PacketView::decoded(bytes) is Ok,
        ensures
            PacketView::decoded(bytes)->Ok_0.encoded() == bytes,
    {
        let p = PacketView::decoded(bytes)->Ok_0;
        PacketKind::lemma_tags_are_one_to_six(bytes[0]);
        assert(be_bytes(p.sequence) =~= seq![bytes[1], bytes[2]]);
        assert(p.encoded() =~= bytes);
    }

    /// A datagram is three bytes longer than the payload it carries.
    pub proof fn lemma_encoded_len(self)
        ensures
            self.encoded().len() == PROTOCOL_HEADER_SIZE + self.payload.len(),
    {
    }
}

impl View for Packet {
    type V = PacketView;

    closed spec fn view(&self) -> PacketView {
        PacketView {
            kind: self.kind,
            sequence: self.sequence,
            payload: bytes_contents(self.payload),
        }
    }
}

impl Packet {
    /// A packet of the given kind, sequence number and payload.
    pub fn new(kind: PacketKind, sequence: u16, payload: Bytes) -> (packet: Packet)
        ensures
            packet@ == (PacketView { kind, sequence, payload: bytes_contents(payload) }),
    {
        Packet { kind, sequence, payload }
    }

    /// What the packet is for.
    pub fn kind(&self) -> (kind: &PacketKind)
        ensures
            *kind == self@.kind,
    {
        &self.kind
    }

    /// The number the sender's session gave to the packet.
    pub fn sequence(&self) -> (sequence: u16)
        ensures
            sequence == self@.sequence,
    {
        self.sequence
    }

    /// The bytes the packet carries.
    pub fn payload(&self) -> (payload: &[u8])
        ensures
            payload@ == self@.payload,
    {
        bytes_as_slice(&self.payload)
    }

    /// Whether a payload is short enough to be carried: with the header it
    /// must be no longer than an allocation can be.
    pub fn fits(payload: &Bytes) -> (fits: bool)
        ensures
            fits == (PROTOCOL_HEADER_SIZE + bytes_contents(*payload).len() <= isize::MAX),
    {
        bytes_len(payload) <= (isize::MAX as usize) - PROTOCOL_HEADER_SIZE
    }

    /// Writes the packet as a datagram: tag, sequence number, payload.
    ///
    /// The datagram must be no longer than an allocation can be.
    pub fn encode(&self) -> (datagram: Bytes)
        requires
            PROTOCOL_HEADER_SIZE + self@.payload.len() <= isize::MAX,
        ensures
            bytes_contents(datagram) == self@.encoded(),
            PacketView::decoded(bytes_contents(datagram)) == Ok::<PacketView, PacketError>(self@),
    {
        proof {
            self@.lemma_decode_encode();
        }
        let mut buffer = bytes_mut_with_capacity(PROTOCOL_HEADER_SIZE + bytes_len(&self.payload));
        put_u8(&mut buffer, self.kind.tag());
        put_u16(&mut buffer, self.sequence);
        extend_from_slice(&mut buffer, bytes_as_slice(&self.payload));
        freeze(buffer)
    }

    /// Reads a datagram as a packet.
    ///
    /// A buffer of fewer than three bytes is `TooShort`; a first byte that
    /// is no kind tag is `InvalidKind` with that byte; every other buffer is
    /// a packet, whose payload is all that follows the header.
    pub fn decode(buf: &[u8]) -> (result: Result<Packet, PacketError>)
        ensures
            buf@.len() < PROTOCOL_HEADER_SIZE ==> result == Err::<Packet, PacketError>(
                PacketError::TooShort,
            ),
            buf@.len() >= PROTOCOL_HEADER_SIZE && !(1 <= buf@[0] <= 6) ==> result == Err::<
                Packet,
                PacketError,
            >(PacketError::InvalidKind(buf@[0])),
            buf@.len() >= PROTOCOL_HEADER_SIZE && 1 <= buf@[0] <= 6 ==> result is Ok,
            match result {
                Ok(packet) => PacketView::decoded(buf@) == Ok::<PacketView, PacketError>(packet@),
                Err(error) => PacketView::decoded(buf@) == Err::<PacketView, PacketError>(error),
            },
    {
        let mut rest = buf;
        if rest.len() < PROTOCOL_HEADER_SIZE {
            return Err(PacketError::TooShort);
        }
        let kind = PacketKind::try_from(get_u8(&mut rest))?;
        let sequence: u16 = get_u16(&mut rest);
        let len: usize = remaining(rest);
        let payload = copy_to_bytes(&mut rest, len);
        proof {
            PacketKind::lemma_tags_are_one_to_six(buf@[0]);
            assert(buf@.skip(1).skip(2).take(len as int) =~= buf@.skip(3));
        }
        Ok(Packet { kind, sequence, payload })
    }
}

} // verus!
