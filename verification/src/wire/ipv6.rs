//! IPv6 packets.

use vstd::prelude::*;

use crate::octets;
use crate::wire::{Error, IpProtocol};

verus! {

/// The length of the header.
pub const HEADER_LEN: usize = 40;

/// An IPv6 address.
#[derive(Debug, PartialEq, Eq, Clone, Copy)]
pub struct Ipv6Address {
    /// The octets, in the order in which they are sent.
    pub octets: [u8; 16],
}

impl Ipv6Address {
    /// Create an address from its groups of 16 bits.
    pub fn new(a: u16, b: u16, c: u16, d: u16, e: u16, f: u16, g: u16, h: u16) -> (address:
        Ipv6Address)
        ensures
            address.octets@ == seq![
                (a / 256) as u8,
                (a % 256) as u8,
                (b / 256) as u8,
                (b % 256) as u8,
                (c / 256) as u8,
                (c % 256) as u8,
                (d / 256) as u8,
                (d % 256) as u8,
                (e / 256) as u8,
                (e % 256) as u8,
                (f / 256) as u8,
                (f % 256) as u8,
                (g / 256) as u8,
                (g % 256) as u8,
                (h / 256) as u8,
                (h % 256) as u8,
            ],
    {
        Ipv6Address {
            octets: [
                (a / 256) as u8,
                (a % 256) as u8,
                (b / 256) as u8,
                (b % 256) as u8,
                (c / 256) as u8,
                (c % 256) as u8,
                (d / 256) as u8,
                (d % 256) as u8,
                (e / 256) as u8,
                (e % 256) as u8,
                (f / 256) as u8,
                (f % 256) as u8,
                (g / 256) as u8,
                (g % 256) as u8,
                (h / 256) as u8,
                (h % 256) as u8,
            ],
        }
    }
}

/// A high-level representation of an IPv6 packet header.
#[derive(Debug, PartialEq, Eq, Clone, Copy)]
pub struct Ipv6Repr {
    /// Where the packet comes from.
    pub src_addr: Ipv6Address,
    /// Where the packet goes to.
    pub dst_addr: Ipv6Address,
    /// The protocol of the payload.
    pub next_header: IpProtocol,
    /// The length of the payload.
    pub payload_len: usize,
    /// How many more hops the packet may make.
    pub hop_limit: u8,
}

/// The length of the payload, as the packet states it.
pub open spec fn payload_len(packet: Seq<u8>) -> nat {
    (packet[4] * 256 + packet[5]) as nat
}

/// Whether the octets hold all that the header says they do.
pub open spec fn complete(packet: Seq<u8>) -> bool {
    &&& HEADER_LEN <= packet.len()
    &&& HEADER_LEN + payload_len(packet) <= packet.len()
}

/// The protocol of the payload.
pub open spec fn next_header(packet: Seq<u8>) -> IpProtocol {
    IpProtocol::numbered(packet[6])
}

/// The payload.
pub open spec fn payload(packet: Seq<u8>) -> Seq<u8> {
    packet.subrange(HEADER_LEN as int, HEADER_LEN + payload_len(packet))
}

/// Whether the octets are an IPv6 packet.
pub open spec fn valid(packet: Seq<u8>) -> bool {
    &&& complete(packet)
    &&& packet[0] / 16 == 6
}

/// What the header of a packet says.
pub open spec fn described(packet: Seq<u8>) -> Ipv6Repr {
    Ipv6Repr {
        src_addr: Ipv6Address {
            octets: [
                    packet[8],
                    packet[9],
                    packet[10],
                    packet[11],
                    packet[12],
                    packet[13],
                    packet[14],
                    packet[15],
                    packet[16],
                    packet[17],
                    packet[18],
                    packet[19],
                    packet[20],
                    packet[21],
                    packet[22],
                    packet[23],
            ],
        },
        dst_addr: Ipv6Address {
            octets: [
                    packet[24],
                    packet[25],
                    packet[26],
                    packet[27],
                    packet[28],
                    packet[29],
                    packet[30],
                    packet[31],
                    packet[32],
                    packet[33],
                    packet[34],
                    packet[35],
                    packet[36],
                    packet[37],
                    packet[38],
                    packet[39],
            ],
        },
        next_header: next_header(packet),
        payload_len: payload_len(packet) as usize,
        hop_limit: packet[7],
    }
}

/// Query whether the octets hold all that the header says they do.
pub fn check_len(packet: &[u8]) -> (ok: bool)
    ensures
        ok == complete(packet@),
{
    if packet.len() < HEADER_LEN {
        return false;
    }
    let payload_len: usize = packet[4] as usize * 256 + packet[5] as usize;
    payload_len <= packet.len() - HEADER_LEN
}

impl Ipv6Repr {
    /// The header: no traffic class, no flow label, and only the low 16 bits of the payload
    /// length, which is all that there is room for.
    pub open spec fn header(self) -> Seq<u8> {
        let payload_len = self.payload_len % 0x10000;
        seq![
            0x60u8,
            0u8,
            0u8,
            0u8,
            (payload_len / 256) as u8,
            (payload_len % 256) as u8,
            self.next_header.number(),
            self.hop_limit,
        ] + self.src_addr.octets@ + self.dst_addr.octets@
    }

    /// Parse the octets of an IPv6 packet.
    pub fn parse(packet: &[u8]) -> (res: Result<Ipv6Repr, Error>)
        ensures
            res == (if valid(packet@) {
                Ok::<Ipv6Repr, Error>(described(packet@))
            } else {
                Err(Error)
            }),
    {
        if !check_len(packet) {
            return Err(Error);
        }
        if packet[0] / 16 != 6 {
            return Err(Error);
        }
        let payload_len: usize = packet[4] as usize * 256 + packet[5] as usize;
        Ok(
            Ipv6Repr {
                src_addr: Ipv6Address {
                    octets: [
                    packet[8],
                    packet[9],
                    packet[10],
                    packet[11],
                    packet[12],
                    packet[13],
                    packet[14],
                    packet[15],
                    packet[16],
                    packet[17],
                    packet[18],
                    packet[19],
                    packet[20],
                    packet[21],
                    packet[22],
                    packet[23],
                    ],
                },
                dst_addr: Ipv6Address {
                    octets: [
                    packet[24],
                    packet[25],
                    packet[26],
                    packet[27],
                    packet[28],
                    packet[29],
                    packet[30],
                    packet[31],
                    packet[32],
                    packet[33],
                    packet[34],
                    packet[35],
                    packet[36],
                    packet[37],
                    packet[38],
                    packet[39],
                    ],
                },
                next_header: IpProtocol::from(packet[6]),
                payload_len,
                hop_limit: packet[7],
            },
        )
    }

    /// Write the header.
    pub fn emit(&self, packet: &mut [u8])
        requires
            old(packet)@.len() == HEADER_LEN,
        ensures
            final(packet)@ == self.header(),
    {
        let payload_len: usize = self.payload_len % 0x10000;
        let src: [u8; 16] = self.src_addr.octets;
        let dst: [u8; 16] = self.dst_addr.octets;
        let header: [u8; 40] = [
            0x60,
            0,
            0,
            0,
            (payload_len / 256) as u8,
            (payload_len % 256) as u8,
            u8::from(self.next_header),
            self.hop_limit,
            src[0],
            src[1],
            src[2],
            src[3],
            src[4],
            src[5],
            src[6],
            src[7],
            src[8],
            src[9],
            src[10],
            src[11],
            src[12],
            src[13],
            src[14],
            src[15],
            dst[0],
            dst[1],
            dst[2],
            dst[3],
            dst[4],
            dst[5],
            dst[6],
            dst[7],
            dst[8],
            dst[9],
            dst[10],
            dst[11],
            dst[12],
            dst[13],
            dst[14],
            dst[15],
        ];
        assert(header@ =~= self.header());
        octets::copy(packet, header.as_slice());
    }
}

/// A header that is written and the payload behind it are read as what was written. The
/// protocol must have one name only, and the payload must not be longer than a header can
/// say.
pub proof fn law_header_round_trip(repr: Ipv6Repr, payload_octets: Seq<u8>)
    requires
        repr.next_header.canonical(),
        repr.payload_len == payload_octets.len(),
        repr.payload_len <= 0xffff,
    ensures
        ({
            let packet = repr.header() + payload_octets;
            &&& valid(packet)
            &&& described(packet) == repr
            &&& payload(packet) == payload_octets
        }),
{
    let packet = repr.header() + payload_octets;
    assert(packet[0] == 0x60);
    assert(packet[4] * 256 + packet[5] == repr.payload_len);
    assert(described(packet).src_addr.octets@ =~= repr.src_addr.octets@);
    assert(described(packet).dst_addr.octets@ =~= repr.dst_addr.octets@);
    assert(described(packet).src_addr.octets =~= repr.src_addr.octets);
    assert(described(packet).dst_addr.octets =~= repr.dst_addr.octets);
    assert(payload(packet) =~= payload_octets);
}

} // verus!
