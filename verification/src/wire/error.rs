//! The error of the parsers.

use vstd::prelude::*;

verus! {

/// Error returned for octets that are not a packet of the expected kind.
#[derive(Debug, PartialEq, Eq, Clone, Copy, Structural)]
pub struct Error;

} // verus!
