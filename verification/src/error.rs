//! The one error type that every fallible operation of the protocol returns.

use vstd::prelude::*;

verus! {

/// Why bytes could not be turned into a value, or a value could not be handed to the host.
#[derive(Clone, Copy, Debug, PartialEq, Eq, Structural)]
pub enum DecodeError {
    /// The bytes are truncated or are not a valid representation of the type asked for.
    InvalidEncoding,
    /// The value refers to data that the store does not hold.
    NotFound,
    /// The encoded payload is larger than the scratch buffer of one call.
    BufferOverflow,
}

} // verus!
