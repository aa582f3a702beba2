//! When a socket wants to be polled.

use vstd::prelude::*;

verus! {

/// Gives an indication on the next time the socket should be polled.
#[derive(Debug, PartialEq, Eq, Clone, Copy, Structural)]
pub enum PollAt {
    /// The socket needs to be polled immediately.
    Now,
    /// The socket does not need to be polled unless there are external changes.
    Ingress,
}

} // verus!
