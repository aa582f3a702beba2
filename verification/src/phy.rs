//! What a network device does on its own.

use vstd::prelude::*;

verus! {

/// In which direction a checksum is computed in software.
#[derive(Debug, PartialEq, Eq, Clone, Copy, Structural)]
pub enum Checksum {
    /// Verify the checksum when receiving and compute it when sending.
    Both,
    /// Verify the checksum when receiving.
    Rx,
    /// Compute the checksum when sending.
    Tx,
    /// Ignore the checksum completely.
    Ignored,
}

impl Checksum {
    /// Whether the checksum is verified when receiving.
    pub open spec fn verifies(self) -> bool {
        self is Both || self is Rx
    }

    /// Whether the checksum is computed when sending.
    pub open spec fn computes(self) -> bool {
        self is Both || self is Tx
    }

    /// Returns whether the checksum should be verified when receiving.
    pub fn rx(&self) -> (verify: bool)
        ensures
            verify == self.verifies(),
    {
        match *self {
            Checksum::Both | Checksum::Rx => true,
            Checksum::Tx | Checksum::Ignored => false,
        }
    }

    /// Returns whether the checksum should be computed when sending.
    pub fn tx(&self) -> (compute: bool)
        ensures
            compute == self.computes(),
    {
        match *self {
            Checksum::Both | Checksum::Tx => true,
            Checksum::Rx | Checksum::Ignored => false,
        }
    }
}

/// Which checksums are handled in software.
#[derive(Debug, PartialEq, Eq, Clone, Copy, Structural)]
pub struct ChecksumCapabilities {
    /// The checksum of the IPv4 header.
    pub ipv4: Checksum,
}

} // verus!
