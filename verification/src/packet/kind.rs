//! The closed set of packet kinds and their one-byte tags.

use crate::packet::error::PacketError;
use vstd::prelude::*;
use vstd::std_specs::convert::TryFromSpecImpl;

verus! {

/// What a packet is for.
#[derive(Debug, PartialEq, Eq, Clone, Copy, Structural)]
pub enum PacketKind {
    /// Asks the server to admit the sender.
    Request,
    /// Tells a client that it was admitted.
    Accept,
    /// Ends the connection.
    Disconnect,
    /// Keep-alive probe.
    Ping,
    /// Answer to a probe.
    Pong,
    /// Application payload.
    Data,
}

impl PacketKind {
    /// The byte that stands for this kind on the wire.
    pub open spec fn tag_spec(self) -> u8 {
        match self {
            PacketKind::Request => 1,
            PacketKind::Accept => 2,
            PacketKind::Disconnect => 3,
            PacketKind::Ping => 4,
            PacketKind::Pong => 5,
            PacketKind::Data => 6,
        }
    }

    /// The kind that a tag byte stands for, if it stands for one.
    pub open spec fn of_tag(tag: u8) -> Option<PacketKind> {
        if tag == 1 {
            Some(PacketKind::Request)
        } else if tag == 2 {
            Some(PacketKind::Accept)
        } else if tag == 3 {
            Some(PacketKind::Disconnect)
        } else if tag == 4 {
            Some(PacketKind::Ping)
        } else if tag == 5 {
            Some(PacketKind::Pong)
        } else if tag == 6 {
            Some(PacketKind::Data)
        } else {
            None
        }
    }

    /// The byte that stands for this kind on the wire.
    #[verifier::when_used_as_spec(tag_spec)]
    pub fn tag(self) -> (t: u8)
        ensures
            t == self.tag_spec(),
    {
        match self {
            PacketKind::Request => 1,
            PacketKind::Accept => 2,
            PacketKind::Disconnect => 3,
            PacketKind::Ping => 4,
            PacketKind::Pong => 5,
            PacketKind::Data => 6,
        }
    }

    /// Every kind is recovered from its own tag.
    pub proof fn lemma_of_tag_inverts_tag(kind: PacketKind)
        ensures
            PacketKind::of_tag(kind.tag_spec()) == Some(kind),
    {
    }

    /// A byte is a tag exactly when it lies between 1 and 6, and the kind it
    /// stands for has that byte as its tag.
    pub proof fn lemma_tags_are_one_to_six(tag: u8)
        ensures
            PacketKind::of_tag(tag) is Some <==> 1 <= tag <= 6,
            PacketKind::of_tag(tag) matches Some(kind) ==> kind.tag_spec() == tag,
    {
    }
}

impl TryFrom<u8> for PacketKind {
    type Error = PacketError;

    /// Validates a tag byte: a known tag gives its kind, any other byte is
    /// rejected and carried in the error.
    fn try_from(value: u8) -> (r: Result<Self, Self::Error>) {
        match value {
            1 => Ok(PacketKind::Request),
            2 => Ok(PacketKind::Accept),
            3 => Ok(PacketKind::Disconnect),
            4 => Ok(PacketKind::Ping),
            5 => Ok(PacketKind::Pong),
            6 => Ok(PacketKind::Data),
            _ => Err(PacketError::InvalidKind(value)),
        }
    }
}

impl TryFromSpecImpl<u8> for PacketKind {
    open spec fn obeys_try_from_spec() -> bool {
        true
    }

    open spec fn try_from_spec(value: u8) -> Result<Self, PacketError> {
        match PacketKind::of_tag(value) {
            Some(kind) => Ok(kind),
            None => Err(PacketError::InvalidKind(value)),
        }
    }
}

} // verus!
