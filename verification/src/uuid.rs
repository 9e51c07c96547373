//! Identifiers of players.

use vstd::prelude::*;

verus! {

/// A player's identifier: one number of 128 bits.
#[derive(Clone, Copy, Debug, PartialEq, Eq, Structural)]
pub struct UUID4 {
    pub raw: u128,
}

impl UUID4 {
    /// The identifier with this number.
    pub fn from_u128(raw: u128) -> (r: Self)
        ensures
            r.raw == raw,
    {
        UUID4 { raw }
    }

    /// The number of the identifier.
    pub fn to_u128(&self) -> (r: u128)
        ensures
            r == self.raw,
    {
        self.raw
    }
}

} // verus!
