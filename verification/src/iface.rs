//! The network interface that a socket works on.

use vstd::prelude::*;

use crate::phy::ChecksumCapabilities;

verus! {

/// What a socket has to know of the network interface.
#[derive(Debug, PartialEq, Eq, Clone, Copy, Structural)]
pub struct Context {
    /// Which checksums are handled in software.
    pub checksum_caps: ChecksumCapabilities,
}

impl Context {
    /// Create a context with the given checksum handling.
    pub fn new(checksum_caps: ChecksumCapabilities) -> (cx: Context)
        ensures
            cx == (Context { checksum_caps }),
    {
        Context { checksum_caps }
    }

    /// Return which checksums are handled in software.
    pub fn checksum_caps(&self) -> (caps: ChecksumCapabilities)
        ensures
            caps == self.checksum_caps,
    {
        self.checksum_caps
    }
}

} // verus!
