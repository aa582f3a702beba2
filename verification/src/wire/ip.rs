//! What IPv4 and IPv6 have in common.

use vstd::prelude::*;

use crate::phy::ChecksumCapabilities;
use crate::wire::{ipv4, ipv6};
use crate::wire::{Error, IpProtocol, Ipv4Repr, Ipv6Repr};

verus! {

/// A version of the Internet protocol.
#[derive(Debug, PartialEq, Eq, Clone, Copy, Structural)]
pub enum IpVersion {
    Ipv4,
    Ipv6,
}

/// The version that a packet states in its first octet, if it is one of the two.
pub open spec fn version(packet: Seq<u8>) -> Option<IpVersion> {
    if packet.len() == 0 {
        None
    } else if packet[0] / 16 == 4 {
        Some(IpVersion::Ipv4)
    } else if packet[0] / 16 == 6 {
        Some(IpVersion::Ipv6)
    } else {
        None
    }
}

impl IpVersion {
    /// Return the version of an IP packet stored in the provided buffer.
    pub fn of_packet(packet: &[u8]) -> (res: Result<IpVersion, Error>)
        ensures
            res == (match version(packet@) {
                Some(version) => Ok::<IpVersion, Error>(version),
                None => Err(Error),
            }),
    {
        if packet.len() == 0 {
            return Err(Error);
        }
        match packet[0] / 16 {
            4 => Ok(IpVersion::Ipv4),
            6 => Ok(IpVersion::Ipv6),
            _ => Err(Error),
        }
    }
}

/// An IP packet representation.
#[derive(Debug, PartialEq, Eq, Clone, Copy)]
pub enum IpRepr {
    Ipv4(Ipv4Repr),
    Ipv6(Ipv6Repr),
}

impl IpRepr {
    /// The protocol version.
    pub open spec fn version_spec(self) -> IpVersion {
        match self {
            IpRepr::Ipv4(_) => IpVersion::Ipv4,
            IpRepr::Ipv6(_) => IpVersion::Ipv6,
        }
    }

    /// The protocol of the payload.
    pub open spec fn next_header_spec(self) -> IpProtocol {
        match self {
            IpRepr::Ipv4(repr) => repr.next_header,
            IpRepr::Ipv6(repr) => repr.next_header,
        }
    }

    /// The length of the payload.
    pub open spec fn payload_len_spec(self) -> nat {
        match self {
            IpRepr::Ipv4(repr) => repr.payload_len as nat,
            IpRepr::Ipv6(repr) => repr.payload_len as nat,
        }
    }

    /// The length of the header that stands for this.
    pub open spec fn header_len_spec(self) -> nat {
        match self {
            IpRepr::Ipv4(_) => ipv4::HEADER_LEN as nat,
            IpRepr::Ipv6(_) => ipv6::HEADER_LEN as nat,
        }
    }

    /// The header that stands for this.
    pub open spec fn header(self, caps: ChecksumCapabilities) -> Seq<u8> {
        match self {
            IpRepr::Ipv4(repr) => repr.header(caps),
            IpRepr::Ipv6(repr) => repr.header(),
        }
    }

    /// Return the protocol version.
    pub fn version(&self) -> (version: IpVersion)
        ensures
            version == self.version_spec(),
    {
        match self {
            IpRepr::Ipv4(_) => IpVersion::Ipv4,
            IpRepr::Ipv6(_) => IpVersion::Ipv6,
        }
    }

    /// Return the next header (protocol).
    pub fn next_header(&self) -> (protocol: IpProtocol)
        ensures
            protocol == self.next_header_spec(),
    {
        match self {
            IpRepr::Ipv4(repr) => repr.next_header,
            IpRepr::Ipv6(repr) => repr.next_header,
        }
    }

    /// Return the length of the header that will be emitted.
    pub fn header_len(&self) -> (length: usize)
        ensures
            length == self.header_len_spec(),
    {
        match self {
            IpRepr::Ipv4(_) => ipv4::HEADER_LEN,
            IpRepr::Ipv6(_) => ipv6::HEADER_LEN,
        }
    }

    /// Write the header.
    pub fn emit(&self, packet: &mut [u8], caps: &ChecksumCapabilities)
        requires
            old(packet)@.len() == self.header_len_spec(),
        ensures
            final(packet)@ == self.header(*caps),
    {
        match self {
            IpRepr::Ipv4(repr) => repr.emit(packet, caps),
            IpRepr::Ipv6(repr) => repr.emit(packet),
        }
    }
}

} // verus!
