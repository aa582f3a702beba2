//! IPv4 packets.

use vstd::prelude::*;

use crate::octets;
use crate::phy::ChecksumCapabilities;
use crate::wire::checksum;
use crate::wire::{Error, IpProtocol};

verus! {

/// The length of a header without options.
pub const HEADER_LEN: usize = 20;

/// An IPv4 address.
#[derive(Debug, PartialEq, Eq, Clone, Copy)]
pub struct Ipv4Address {
    /// The octets, in the order in which they are sent.
    pub octets: [u8; 4],
}

impl Ipv4Address {
    /// Create an address from its octets.
    pub fn new(a: u8, b: u8, c: u8, d: u8) -> (address: Ipv4Address)
        ensures
            address.octets@ == seq![a, b, c, d],
    {
        Ipv4Address { octets: [a, b, c, d] }
    }
}

/// A high-level representation of an IPv4 packet header.
#[derive(Debug, PartialEq, Eq, Clone, Copy)]
pub struct Ipv4Repr {
    /// Where the packet comes from.
    pub src_addr: Ipv4Address,
    /// Where the packet goes to.
    pub dst_addr: Ipv4Address,
    /// The protocol of the payload.
    pub next_header: IpProtocol,
    /// The length of the payload.
    pub payload_len: usize,
    /// How many more hops the packet may make.
    pub hop_limit: u8,
}

/// The length of the header, as the packet states it.
pub open spec fn header_len(packet: Seq<u8>) -> nat {
    ((packet[0] % 16) * 4) as nat
}

/// The length of header and payload, as the packet states it.
pub open spec fn total_len(packet: Seq<u8>) -> nat {
    (packet[2] * 256 + packet[3]) as nat
}

/// Whether the octets hold all that the header says they do.
pub open spec fn complete(packet: Seq<u8>) -> bool {
    &&& HEADER_LEN <= packet.len()
    &&& header_len(packet) <= total_len(packet) <= packet.len()
}

/// The protocol of the payload.
pub open spec fn next_header(packet: Seq<u8>) -> IpProtocol {
    IpProtocol::numbered(packet[9])
}

/// The payload.
pub open spec fn payload(packet: Seq<u8>) -> Seq<u8> {
    packet.subrange(header_len(packet) as int, total_len(packet) as int)
}

/// The packet with the given checksum in its header.
pub open spec fn with_checksum(packet: Seq<u8>, checksum: nat) -> Seq<u8> {
    packet.update(10, (checksum / 256) as u8).update(11, (checksum % 256) as u8)
}

/// The packet with the checksum that its header calls for: the complement of the sum of the
/// header in which the checksum is zero.
pub open spec fn filled(packet: Seq<u8>) -> Seq<u8> {
    let header = with_checksum(packet, 0).take(header_len(packet) as int);
    with_checksum(packet, (0xffff - checksum::data_spec(header)) as nat)
}

/// The packet with the checksum with which it is sent: none if the device adds it.
pub open spec fn stamped(packet: Seq<u8>, caps: ChecksumCapabilities) -> Seq<u8> {
    if caps.ipv4.computes() {
        filled(packet)
    } else {
        with_checksum(packet, 0)
    }
}

/// Whether the checksum in the header is right.
pub open spec fn verified(packet: Seq<u8>) -> bool {
    checksum::data_spec(packet.take(header_len(packet) as int)) == 0xffff
}

/// Whether the octets are an IPv4 packet.
pub open spec fn valid(packet: Seq<u8>, caps: ChecksumCapabilities) -> bool {
    &&& complete(packet)
    &&& packet[0] / 16 == 4
    &&& caps.ipv4.verifies() ==> verified(packet)
}

/// What the header of a packet says.
pub open spec fn described(packet: Seq<u8>) -> Ipv4Repr {
    Ipv4Repr {
        src_addr: Ipv4Address { octets: [packet[12], packet[13], packet[14], packet[15]] },
        dst_addr: Ipv4Address { octets: [packet[16], packet[17], packet[18], packet[19]] },
        next_header: next_header(packet),
        payload_len: (total_len(packet) - header_len(packet)) as usize,
        hop_limit: packet[8],
    }
}

/// Query whether the octets hold all that the header says they do.
pub fn check_len(packet: &[u8]) -> (ok: bool)
    ensures
        ok == complete(packet@),
{
    if packet.len() < HEADER_LEN {
        return false;
    }
    let header_len: usize = (packet[0] % 16) as usize * 4;
    let total_len: usize = packet[2] as usize * 256 + packet[3] as usize;
    header_len <= total_len && total_len <= packet.len()
}

/// Set the checksum in the header.
fn set_checksum(packet: &mut [u8], checksum: u16)
    requires
        old(packet)@.len() >= HEADER_LEN,
    ensures
        final(packet)@ == with_checksum(old(packet)@, checksum as nat),
{
    packet[10] = (checksum / 256) as u8;
    packet[11] = (checksum % 256) as u8;
}

/// Compute the checksum of the header and set it there.
pub fn fill_checksum(packet: &mut [u8])
    requires
        complete(old(packet)@),
    ensures
        final(packet)@ == filled(old(packet)@),
{
    set_checksum(packet, 0);
    let header_len: usize = (packet[0] % 16) as usize * 4;
    let (header, _) = packet.split_at(header_len);
    assert(header@ == with_checksum(old(packet)@, 0).take(header_len as int));
    let checksum: u16 = 0xffff - checksum::data(header);
    set_checksum(packet, checksum);
}

/// Give the packet the checksum with which it is sent.
pub fn stamp(packet: &mut [u8], caps: &ChecksumCapabilities)
    requires
        complete(old(packet)@),
    ensures
        final(packet)@ == stamped(old(packet)@, *caps),
{
    if caps.ipv4.tx() {
        fill_checksum(packet);
    } else {
        // make sure we get a consistently zeroed checksum,
        // since implementations might rely on it
        set_checksum(packet, 0);
    }
}

/// Query whether the checksum in the header is right.
pub fn verify_checksum(packet: &[u8]) -> (ok: bool)
    requires
        complete(packet@),
    ensures
        ok == verified(packet@),
{
    let header_len: usize = (packet[0] % 16) as usize * 4;
    let (header, _) = packet.split_at(header_len);
    checksum::data(header) == 0xffff
}

impl Ipv4Repr {
    /// The header without its checksum.
    pub open spec fn blank_header(self) -> Seq<u8> {
        let total_len = (HEADER_LEN + self.payload_len) % 0x10000;
        seq![
            0x45u8,
            0u8,
            (total_len / 256) as u8,
            (total_len % 256) as u8,
            0u8,
            0u8,
            0x40u8,
            0u8,
            self.hop_limit,
            self.next_header.number(),
            0u8,
            0u8,
        ] + self.src_addr.octets@ + self.dst_addr.octets@
    }

    /// The header: no options, fragmentation forbidden, and only the low 16 bits of the
    /// total length, which is all that there is room for.
    pub open spec fn header(self, caps: ChecksumCapabilities) -> Seq<u8> {
        if caps.ipv4.computes() {
            let sum = checksum::data_spec(self.blank_header());
            with_checksum(self.blank_header(), (0xffff - sum) as nat)
        } else {
            self.blank_header()
        }
    }

    /// Parse the octets of an IPv4 packet.
    pub fn parse(packet: &[u8], caps: &ChecksumCapabilities) -> (res: Result<Ipv4Repr, Error>)
        ensures
            res == (if valid(packet@, *caps) {
                Ok::<Ipv4Repr, Error>(described(packet@))
            } else {
                Err(Error)
            }),
    {
        if !check_len(packet) {
            return Err(Error);
        }
        if packet[0] / 16 != 4 {
            return Err(Error);
        }
        if caps.ipv4.rx() && !verify_checksum(packet) {
            return Err(Error);
        }
        let header_len: usize = (packet[0] % 16) as usize * 4;
        let total_len: usize = packet[2] as usize * 256 + packet[3] as usize;
        Ok(
            Ipv4Repr {
                src_addr: Ipv4Address { octets: [packet[12], packet[13], packet[14], packet[15]] },
                dst_addr: Ipv4Address { octets: [packet[16], packet[17], packet[18], packet[19]] },
                next_header: IpProtocol::from(packet[9]),
                payload_len: total_len - header_len,
                hop_limit: packet[8],
            },
        )
    }

    /// Write the header.
    pub fn emit(&self, packet: &mut [u8], caps: &ChecksumCapabilities)
        requires
            old(packet)@.len() == HEADER_LEN,
        ensures
            final(packet)@ == self.header(*caps),
    {
        let total_len: usize = (HEADER_LEN + self.payload_len % 0x10000) % 0x10000;
        let src: [u8; 4] = self.src_addr.octets;
        let dst: [u8; 4] = self.dst_addr.octets;
        let header: [u8; 20] = [
            0x45,
            0,
            (total_len / 256) as u8,
            (total_len % 256) as u8,
            0,
            0,
            0x40,
            0,
            self.hop_limit,
            u8::from(self.next_header),
            0,
            0,
            src[0],
            src[1],
            src[2],
            src[3],
            dst[0],
            dst[1],
            dst[2],
            dst[3],
        ];
        assert(header@ =~= self.blank_header());
        octets::copy(packet, header.as_slice());
        if caps.ipv4.tx() {
            let checksum: u16 = 0xffff - checksum::data(packet);
            set_checksum(packet, checksum);
        }
    }
}

/// A checksum changes nothing but itself.
pub proof fn lemma_with_checksum(packet: Seq<u8>, checksum: nat)
    requires
        packet.len() >= HEADER_LEN,
    ensures
        with_checksum(packet, checksum).len() == packet.len(),
        header_len(with_checksum(packet, checksum)) == header_len(packet),
        total_len(with_checksum(packet, checksum)) == total_len(packet),
        next_header(with_checksum(packet, checksum)) == next_header(packet),
        forall|other: nat| #[trigger]
            with_checksum(with_checksum(packet, checksum), other) == with_checksum(packet, other),
{
    assert forall|other: nat| #[trigger]
        with_checksum(with_checksum(packet, checksum), other) == with_checksum(packet, other) by {
        assert(with_checksum(with_checksum(packet, checksum), other) =~= with_checksum(
            packet,
            other,
        ));
    }
}

/// The checksum with which a packet is sent changes nothing but itself.
pub proof fn lemma_stamped(packet: Seq<u8>, caps: ChecksumCapabilities)
    requires
        packet.len() >= HEADER_LEN,
    ensures
        stamped(packet, caps).len() == packet.len(),
        header_len(stamped(packet, caps)) == header_len(packet),
        total_len(stamped(packet, caps)) == total_len(packet),
        next_header(stamped(packet, caps)) == next_header(packet),
        forall|i: int|
            0 <= i < packet.len() && i != 10 && i != 11 ==> #[trigger] stamped(packet, caps)[i]
                == packet[i],
{
    let header = with_checksum(packet, 0).take(header_len(packet) as int);
    lemma_with_checksum(packet, (0xffff - checksum::data_spec(header)) as nat);
    lemma_with_checksum(packet, 0);
}

/// A checksum that was filled in is right, in every header that is long enough to hold it.
pub proof fn law_filled_is_verified(packet: Seq<u8>)
    requires
        complete(packet),
        header_len(packet) >= 12,
    ensures
        verified(filled(packet)),
{
    let length = header_len(packet) as int;
    let blank = with_checksum(packet, 0).take(length);
    let checksum = (0xffff - checksum::data_spec(blank)) as nat;
    let header = filled(packet).take(length);
    let high = (checksum / 256) as u8;
    let low = (checksum % 256) as u8;
    lemma_with_checksum(packet, checksum);
    assert(header =~= blank.update(10, high).update(11, low));
    checksum::lemma_word_sum_update(blank, 10, high);
    checksum::lemma_word_sum_update(blank.update(10, high), 11, low);
    let sum = checksum::word_sum(blank);
    assert(checksum::word_sum(header) == sum + checksum);
    if sum > 0 {
        let rest = (sum - 1) / 0xffff;
        assert(sum + checksum == (rest + 1) * 0xffff);
        vstd::arithmetic::div_mod::lemma_mod_multiples_vanish(rest, 0xfffe, 0xffff);
        assert(sum + checksum - 1 == 0xffff * rest + 0xfffe);
    }
}

/// Filling a checksum in once more changes nothing.
pub proof fn law_stamped_twice(packet: Seq<u8>, caps: ChecksumCapabilities)
    requires
        packet.len() >= HEADER_LEN,
    ensures
        stamped(stamped(packet, caps), caps) == stamped(packet, caps),
{
    let header = with_checksum(packet, 0).take(header_len(packet) as int);
    lemma_with_checksum(packet, (0xffff - checksum::data_spec(header)) as nat);
    lemma_with_checksum(packet, 0);
}

/// A header that is written and the payload behind it are read as what was written. A
/// checksum that is verified must be computed, unless zero is right; the protocol must have
/// one name only; and header and payload must not be longer than a header can say.
pub proof fn law_header_round_trip(
    repr: Ipv4Repr,
    payload_octets: Seq<u8>,
    caps: ChecksumCapabilities,
)
    requires
        repr.next_header.canonical(),
        repr.payload_len == payload_octets.len(),
        HEADER_LEN + repr.payload_len <= 0xffff,
        caps.ipv4.verifies() ==> caps.ipv4.computes() || verified(repr.blank_header()),
    ensures
        ({
            let packet = repr.header(caps) + payload_octets;
            &&& valid(packet, caps)
            &&& stamped(packet, caps) == packet
            &&& described(packet) == repr
            &&& payload(packet) == payload_octets
        }),
{
    let blank = repr.blank_header() + payload_octets;
    let packet = repr.header(caps) + payload_octets;
    assert(blank[0] == 0x45);
    assert(header_len(blank) == 20);
    assert(blank[2] * 256 + blank[3] == HEADER_LEN + repr.payload_len);
    assert(complete(blank));
    assert(with_checksum(blank, 0) =~= blank);
    assert(blank.take(20) =~= repr.blank_header());
    let checksum = (0xffff - checksum::data_spec(repr.blank_header())) as nat;
    if caps.ipv4.computes() {
        assert(packet =~= with_checksum(blank, checksum));
        assert(packet == filled(blank));
        law_filled_is_verified(blank);
    } else {
        assert(packet == blank);
        assert(repr.blank_header().take(20) =~= repr.blank_header());
    }
    assert(packet == stamped(blank, caps));
    law_stamped_twice(blank, caps);
    lemma_with_checksum(blank, checksum);
    assert(packet[0] == 0x45);
    assert(described(packet).src_addr.octets@ =~= repr.src_addr.octets@);
    assert(described(packet).dst_addr.octets@ =~= repr.dst_addr.octets@);
    assert(described(packet).src_addr.octets =~= repr.src_addr.octets);
    assert(described(packet).dst_addr.octets =~= repr.dst_addr.octets);
    assert(payload(packet) =~= payload_octets);
}

} // verus!
