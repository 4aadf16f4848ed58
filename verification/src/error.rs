//! The error surface shared by every fallible operation.

use vstd::prelude::*;

verus! {

/// Why an operation failed.
#[derive(Clone, Copy, Debug, PartialEq, Eq, Structural)]
pub enum Error {
    /// The caller's input is malformed.
    InvalidInput,
    /// No backend that is built in serves the address.
    NoBackend,
    /// The backend could not talk to the hardware.
    Backend,
    /// The value or format is not supported.
    Unsupported,
    /// The device enumerates no stream.
    NoStreams,
}

} // verus!
