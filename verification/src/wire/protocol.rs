//! IP protocol numbers.

use vstd::prelude::*;

verus! {

/// The protocol of an IP payload.
#[derive(Debug, PartialEq, Eq, Clone, Copy, Structural)]
pub enum IpProtocol {
    HopByHop,
    Icmp,
    Igmp,
    Tcp,
    Udp,
    Ipv6Route,
    Ipv6Frag,
    IpSecEsp,
    IpSecAh,
    Icmpv6,
    Ipv6NoNxt,
    Ipv6Opts,
    Unknown(u8),
}

impl IpProtocol {
    /// The number of the protocol.
    pub open spec fn number(self) -> u8 {
        match self {
            IpProtocol::HopByHop => 0x00,
            IpProtocol::Icmp => 0x01,
            IpProtocol::Igmp => 0x02,
            IpProtocol::Tcp => 0x06,
            IpProtocol::Udp => 0x11,
            IpProtocol::Ipv6Route => 0x2b,
            IpProtocol::Ipv6Frag => 0x2c,
            IpProtocol::IpSecEsp => 0x32,
            IpProtocol::IpSecAh => 0x33,
            IpProtocol::Icmpv6 => 0x3a,
            IpProtocol::Ipv6NoNxt => 0x3b,
            IpProtocol::Ipv6Opts => 0x3c,
            IpProtocol::Unknown(number) => number,
        }
    }

    /// The protocol with the given number: one with a name where there is one.
    pub open spec fn numbered(number: u8) -> IpProtocol {
        match number {
            0x00 => IpProtocol::HopByHop,
            0x01 => IpProtocol::Icmp,
            0x02 => IpProtocol::Igmp,
            0x06 => IpProtocol::Tcp,
            0x11 => IpProtocol::Udp,
            0x2b => IpProtocol::Ipv6Route,
            0x2c => IpProtocol::Ipv6Frag,
            0x32 => IpProtocol::IpSecEsp,
            0x33 => IpProtocol::IpSecAh,
            0x3a => IpProtocol::Icmpv6,
            0x3b => IpProtocol::Ipv6NoNxt,
            0x3c => IpProtocol::Ipv6Opts,
            _ => IpProtocol::Unknown(number),
        }
    }

    /// Whether the protocol is called by its name where it has one, so that its number
    /// stands for it and for no other.
    pub open spec fn canonical(self) -> bool {
        self == IpProtocol::numbered(self.number())
    }
}

impl vstd::std_specs::convert::FromSpecImpl<u8> for IpProtocol {
    open spec fn obeys_from_spec() -> bool {
        true
    }

    open spec fn from_spec(number: u8) -> IpProtocol {
        IpProtocol::numbered(number)
    }
}

impl From<u8> for IpProtocol {
    fn from(number: u8) -> (protocol: IpProtocol) {
        match number {
            0x00 => IpProtocol::HopByHop,
            0x01 => IpProtocol::Icmp,
            0x02 => IpProtocol::Igmp,
            0x06 => IpProtocol::Tcp,
            0x11 => IpProtocol::Udp,
            0x2b => IpProtocol::Ipv6Route,
            0x2c => IpProtocol::Ipv6Frag,
            0x32 => IpProtocol::IpSecEsp,
            0x33 => IpProtocol::IpSecAh,
            0x3a => IpProtocol::Icmpv6,
            0x3b => IpProtocol::Ipv6NoNxt,
            0x3c => IpProtocol::Ipv6Opts,
            _ => IpProtocol::Unknown(number),
        }
    }
}

impl vstd::std_specs::convert::FromSpecImpl<IpProtocol> for u8 {
    open spec fn obeys_from_spec() -> bool {
        true
    }

    open spec fn from_spec(protocol: IpProtocol) -> u8 {
        protocol.number()
    }
}

impl From<IpProtocol> for u8 {
    fn from(protocol: IpProtocol) -> (number: u8) {
        match protocol {
            IpProtocol::HopByHop => 0x00,
            IpProtocol::Icmp => 0x01,
            IpProtocol::Igmp => 0x02,
            IpProtocol::Tcp => 0x06,
            IpProtocol::Udp => 0x11,
            IpProtocol::Ipv6Route => 0x2b,
            IpProtocol::Ipv6Frag => 0x2c,
            IpProtocol::IpSecEsp => 0x32,
            IpProtocol::IpSecAh => 0x33,
            IpProtocol::Icmpv6 => 0x3a,
            IpProtocol::Ipv6NoNxt => 0x3b,
            IpProtocol::Ipv6Opts => 0x3c,
            IpProtocol::Unknown(number) => number,
        }
    }
}

/// Every number stands for a protocol that has this number.
pub proof fn law_number_round_trip(number: u8)
    ensures
        IpProtocol::numbered(number).number() == number,
        IpProtocol::numbered(number).canonical(),
{
}

} // verus!
