//! Sizes fixed by the wire format.

use vstd::prelude::*;

verus! {

/// Length of the packet header: one kind tag and a two-byte sequence number.
pub const PROTOCOL_HEADER_SIZE: usize = 3;

} // verus!
