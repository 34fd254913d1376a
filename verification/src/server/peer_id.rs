//! The identity of an admitted client.

use vstd::prelude::*;

verus! {

/// The handle by which the application knows a client. The server gives
/// them out in increasing order and never gives one out twice.
#[derive(Debug, Hash, PartialEq, Eq, Clone, Copy, Structural)]
pub struct PeerId(pub u128);

impl PeerId {
    /// The identity given out after this one.
    pub fn next(&self) -> (next: PeerId)
        requires
            self.0 < u128::MAX,
        ensures
            next.0 == self.0 + 1,
    {
        PeerId(self.0 + 1)
    }
}

} // verus!
