//! Where in the octets of a packet everything is found.

use vstd::prelude::*;

use crate::phy::{Checksum, ChecksumCapabilities};
use crate::wire::{checksum, ip, ipv4, ipv6};
use crate::wire::{IpProtocol, IpRepr, IpVersion, Ipv4Repr, Ipv6Repr};

verus! {

/// The upper half of the first octet is the version.
pub proof fn law_version_by_position(packet: Seq<u8>)
    ensures
        ip::version(packet) == Some(IpVersion::Ipv4) <==> packet.len() > 0 && 0x40 <= packet[0]
            <= 0x4f,
        ip::version(packet) == Some(IpVersion::Ipv6) <==> packet.len() > 0 && 0x60 <= packet[0]
            <= 0x6f,
{
}

/// Each named protocol has the number that is assigned to it, and every other number stands
/// for a protocol without a name.
pub proof fn law_assigned_numbers(number: u8)
    ensures
        ({
            let protocol = IpProtocol::numbered(number);
            &&& protocol is HopByHop <==> number == 0
            &&& protocol is Icmp <==> number == 1
            &&& protocol is Igmp <==> number == 2
            &&& protocol is Tcp <==> number == 6
            &&& protocol is Udp <==> number == 17
            &&& protocol is Ipv6Route <==> number == 43
            &&& protocol is Ipv6Frag <==> number == 44
            &&& protocol is IpSecEsp <==> number == 50
            &&& protocol is IpSecAh <==> number == 51
            &&& protocol is Icmpv6 <==> number == 58
            &&& protocol is Ipv6NoNxt <==> number == 59
            &&& protocol is Ipv6Opts <==> number == 60
            &&& protocol is Unknown ==> protocol == IpProtocol::Unknown(number)
            &&& protocol.number() == number
            &&& IpProtocol::Unknown(number).number() == number
            &&& IpProtocol::Unknown(number).canonical() <==> protocol is Unknown
        }),
{
}

/// A protocol with a name has only that one name, and its number leads back to it.
pub proof fn law_named_protocols(protocol: IpProtocol)
    requires
        !(protocol is Unknown),
    ensures
        protocol.canonical(),
        IpProtocol::numbered(protocol.number()) == protocol,
{
}

/// A checksum is verified when packets are received in software, and computed when they are
/// sent in software.
pub proof fn law_checksum_directions(checksum: Checksum)
    ensures
        checksum.verifies() <==> checksum == Checksum::Both || checksum == Checksum::Rx,
        checksum.computes() <==> checksum == Checksum::Both || checksum == Checksum::Tx,
{
}

/// Where the fields of an IPv4 header are found. The lower half of octet 0 is the length of
/// the header in words of four octets, octets 2 and 3 are the length of the packet, octet 8
/// is the hop limit, octet 9 is the protocol, octets 12 to 15 are the source address and
/// octets 16 to 19 are the destination address. The payload starts where the header ends,
/// and what lies behind the packet is no part of it.
pub proof fn law_ipv4_fields_by_position(packet: Seq<u8>)
    ensures
        ipv4::complete(packet) <==> packet.len() >= 20 && 4 * (packet[0] % 16) <= 256 * packet[2]
            + packet[3] <= packet.len(),
        ipv4::complete(packet) ==> {
            let repr = ipv4::described(packet);
            let payload = ipv4::payload(packet);
            let start = 4 * (packet[0] % 16);
            let end = 256 * packet[2] + packet[3];
            &&& ipv4::header_len(packet) == start
            &&& ipv4::total_len(packet) == end
            &&& ipv4::next_header(packet) == IpProtocol::numbered(packet[9])
            &&& repr.hop_limit == packet[8]
            &&& repr.next_header == IpProtocol::numbered(packet[9])
            &&& repr.src_addr.octets@ == packet.subrange(12, 16)
            &&& repr.dst_addr.octets@ == packet.subrange(16, 20)
            &&& repr.payload_len == end - start
            &&& payload.len() == end - start
            &&& packet.take(start) + payload + packet.skip(end) == packet
        },
{
    if ipv4::complete(packet) {
        let repr = ipv4::described(packet);
        let start = 4 * (packet[0] % 16);
        let end = 256 * packet[2] + packet[3];
        assert(repr.src_addr.octets@ =~= packet.subrange(12, 16));
        assert(repr.dst_addr.octets@ =~= packet.subrange(16, 20));
        assert(packet.take(start) + ipv4::payload(packet) + packet.skip(end) =~= packet);
    }
}

/// Octets are an IPv4 packet exactly if they hold all that the header says, the version is
/// that of IPv4 and, where that is verified, the header with its checksum sums up to 0xffff.
pub proof fn law_ipv4_validity(packet: Seq<u8>, caps: ChecksumCapabilities)
    ensures
        ipv4::valid(packet, caps) <==> {
            &&& packet.len() >= 20
            &&& 4 * (packet[0] % 16) <= 256 * packet[2] + packet[3] <= packet.len()
            &&& 0x40 <= packet[0] <= 0x4f
            &&& caps.ipv4 == Checksum::Both || caps.ipv4 == Checksum::Rx ==> checksum::data_spec(
                packet.take(4 * (packet[0] % 16)),
            ) == 0xffff
        },
        packet.len() >= 20 ==> (ipv4::verified(packet) <==> checksum::data_spec(
            packet.take(4 * (packet[0] % 16)),
        ) == 0xffff),
{
}

/// Where the fields of an IPv4 header are written: those of the representation go where
/// they are read, the header has no options and forbids fragmentation, and its checksum
/// complements the sum of all its other octets, or is zero if none is computed.
pub proof fn law_ipv4_header_by_position(repr: Ipv4Repr, caps: ChecksumCapabilities)
    ensures
        ({
            let header = repr.header(caps);
            let sum = checksum::data_spec(header.update(10, 0).update(11, 0));
            &&& header.len() == 20
            &&& header[0] == 0x45
            &&& header[1] == 0
            &&& 256 * header[2] + header[3] == (20 + repr.payload_len) % 0x10000
            &&& header[4] == 0 && header[5] == 0
            &&& header[6] == 0x40 && header[7] == 0
            &&& header[8] == repr.hop_limit
            &&& header[9] == repr.next_header.number()
            &&& 256 * header[10] + header[11] == if caps.ipv4 == Checksum::Both || caps.ipv4
                == Checksum::Tx {
                0xffff - sum
            } else {
                0
            }
            &&& header.subrange(12, 16) == repr.src_addr.octets@
            &&& header.subrange(16, 20) == repr.dst_addr.octets@
        }),
{
    let header = repr.header(caps);
    let blank = repr.blank_header();
    assert(header.update(10, 0).update(11, 0) =~= blank);
    assert(header.subrange(12, 16) =~= repr.src_addr.octets@);
    assert(header.subrange(16, 20) =~= repr.dst_addr.octets@);
}

/// Of a packet that is sent only the checksum, octets 10 and 11, is written anew. It
/// complements the sum of the header without it, or is zero if none is computed.
pub proof fn law_ipv4_checksum_by_position(packet: Seq<u8>, caps: ChecksumCapabilities)
    requires
        packet.len() >= 20,
    ensures
        ({
            let stamped = ipv4::stamped(packet, caps);
            let filled = ipv4::filled(packet);
            let sum = checksum::data_spec(
                packet.update(10, 0).update(11, 0).take(4 * (packet[0] % 16)),
            );
            &&& stamped.len() == packet.len()
            &&& filled.len() == packet.len()
            &&& forall|i: int|
                #![trigger stamped[i]]
                #![trigger filled[i]]
                0 <= i < packet.len() && i != 10 && i != 11 ==> stamped[i] == packet[i] && filled[i]
                    == packet[i]
            &&& 256 * filled[10] + filled[11] == 0xffff - sum
            &&& 256 * stamped[10] + stamped[11] == if caps.ipv4 == Checksum::Both || caps.ipv4
                == Checksum::Tx {
                0xffff - sum
            } else {
                0
            }
        }),
{
    let blank = packet.update(10, 0).update(11, 0);
    assert(ipv4::with_checksum(packet, 0) =~= blank);
}

/// Where the fields of an IPv6 header are found. Octets 4 and 5 are the length of the
/// payload, octet 6 is the protocol, octet 7 is the hop limit, octets 8 to 23 are the source
/// address and octets 24 to 39 are the destination address. The payload starts at octet 40,
/// and what lies behind it is no part of the packet.
pub proof fn law_ipv6_fields_by_position(packet: Seq<u8>)
    ensures
        ipv6::complete(packet) <==> packet.len() >= 40 && 40 + 256 * packet[4] + packet[5]
            <= packet.len(),
        ipv6::valid(packet) <==> ipv6::complete(packet) && 0x60 <= packet[0] <= 0x6f,
        ipv6::complete(packet) ==> {
            let repr = ipv6::described(packet);
            let payload = ipv6::payload(packet);
            let length = 256 * packet[4] + packet[5];
            &&& ipv6::next_header(packet) == IpProtocol::numbered(packet[6])
            &&& repr.hop_limit == packet[7]
            &&& repr.next_header == IpProtocol::numbered(packet[6])
            &&& repr.src_addr.octets@ == packet.subrange(8, 24)
            &&& repr.dst_addr.octets@ == packet.subrange(24, 40)
            &&& repr.payload_len == length
            &&& payload.len() == length
            &&& packet.take(40) + payload + packet.skip(40 + length) == packet
        },
{
    if ipv6::complete(packet) {
        let repr = ipv6::described(packet);
        let end = 40 + 256 * packet[4] + packet[5];
        assert(repr.src_addr.octets@ =~= packet.subrange(8, 24));
        assert(repr.dst_addr.octets@ =~= packet.subrange(24, 40));
        assert(packet.take(40) + ipv6::payload(packet) + packet.skip(end) =~= packet);
    }
}

/// Where the fields of an IPv6 header are written: those of the representation go where
/// they are read, and the traffic class and the flow label are zero.
pub proof fn law_ipv6_header_by_position(repr: Ipv6Repr)
    ensures
        ({
            let header = repr.header();
            &&& header.len() == 40
            &&& header[0] == 0x60
            &&& header[1] == 0 && header[2] == 0 && header[3] == 0
            &&& 256 * header[4] + header[5] == repr.payload_len % 0x10000
            &&& header[6] == repr.next_header.number()
            &&& header[7] == repr.hop_limit
            &&& header.subrange(8, 24) == repr.src_addr.octets@
            &&& header.subrange(24, 40) == repr.dst_addr.octets@
        }),
{
    let header = repr.header();
    assert(header.subrange(8, 24) =~= repr.src_addr.octets@);
    assert(header.subrange(24, 40) =~= repr.dst_addr.octets@);
}

/// A representation of either version says what the one for that version says.
pub proof fn law_representations(
    ipv4_repr: Ipv4Repr,
    ipv6_repr: Ipv6Repr,
    caps: ChecksumCapabilities,
)
    ensures
        ({
            let repr = IpRepr::Ipv4(ipv4_repr);
            &&& repr.version_spec() == IpVersion::Ipv4
            &&& repr.next_header_spec() == ipv4_repr.next_header
            &&& repr.payload_len_spec() == ipv4_repr.payload_len
            &&& repr.header_len_spec() == 20
            &&& repr.header(caps) == ipv4_repr.header(caps)
        }),
        ({
            let repr = IpRepr::Ipv6(ipv6_repr);
            &&& repr.version_spec() == IpVersion::Ipv6
            &&& repr.next_header_spec() == ipv6_repr.next_header
            &&& repr.payload_len_spec() == ipv6_repr.payload_len
            &&& repr.header_len_spec() == 40
            &&& repr.header(caps) == ipv6_repr.header()
        }),
{
}

} // verus!
