//! What holds of raw sockets as a whole.

use core::task::Waker;

use vstd::prelude::*;

use crate::phy::{Checksum, ChecksumCapabilities};
use crate::socket::raw;
use crate::socket::raw::SocketState;
use crate::storage::packet_queue;
use crate::storage::packet_queue::PacketQueue;
use crate::wire;
use crate::wire::{checksum, ip, ipv4, ipv6};
use crate::wire::{IpProtocol, IpRepr, IpVersion};

verus! {

/// A socket is bound to no version, or to one of the two.
proof fn lemma_versions(ip_version: Option<IpVersion>)
    ensures
        ip_version is None || ip_version == Some(IpVersion::Ipv4) || ip_version == Some(
            IpVersion::Ipv6,
        ),
{
    match ip_version {
        None => {},
        Some(IpVersion::Ipv4) => {},
        Some(IpVersion::Ipv6) => {},
    }
}

/// What is sent for a packet is always something that the socket is bound to: a packet of
/// another version or another protocol is dropped.
pub proof fn law_sends_only_what_it_is_bound_to(
    socket: SocketState,
    packet: Seq<u8>,
    caps: ChecksumCapabilities,
)
    ensures
        raw::outgoing(socket.ip_version, socket.ip_protocol, packet, caps) matches Some((repr, _))
            ==> socket.accepts(repr),
{
    if ip::version(packet) == Some(IpVersion::Ipv4) && ipv4::complete(packet) {
        ipv4::lemma_stamped(packet, caps);
    }
}

/// A socket that is bound to a version accepts no header of the other one, whatever protocol
/// it is bound to; a socket that is bound to a protocol accepts no header with another one,
/// whatever version it is bound to; and there is nothing else that it does not accept.
pub proof fn law_accepts_what_it_is_bound_to(socket: SocketState, ip_repr: IpRepr)
    ensures
        socket.ip_version == Some(IpVersion::Ipv4) && ip_repr is Ipv6 ==> !socket.accepts(ip_repr),
        socket.ip_version == Some(IpVersion::Ipv6) && ip_repr is Ipv4 ==> !socket.accepts(ip_repr),
        ip_repr matches IpRepr::Ipv4(repr) ==> {
            &&& socket.ip_protocol is Some && socket.ip_protocol != Some(repr.next_header)
                ==> !socket.accepts(ip_repr)
            &&& socket.ip_version != Some(IpVersion::Ipv6) && (socket.ip_protocol is None
                || socket.ip_protocol == Some(repr.next_header)) ==> socket.accepts(ip_repr)
        },
        ip_repr matches IpRepr::Ipv6(repr) ==> {
            &&& socket.ip_protocol is Some && socket.ip_protocol != Some(repr.next_header)
                ==> !socket.accepts(ip_repr)
            &&& socket.ip_version != Some(IpVersion::Ipv4) && (socket.ip_protocol is None
                || socket.ip_protocol == Some(repr.next_header)) ==> socket.accepts(ip_repr)
        },
{
    lemma_versions(socket.ip_version);
}

/// What a socket is bound to decides whether a packet is sent, and nothing of what is sent:
/// a packet whose version, in octet 0, and whose protocol, in octet 9 for IPv4 and in octet 6
/// for IPv6, are those that the socket is bound to is sent as by a socket that is bound to
/// nothing, and every other packet is dropped.
pub proof fn law_binding_only_filters(
    ip_version: Option<IpVersion>,
    ip_protocol: Option<IpProtocol>,
    packet: Seq<u8>,
    caps: ChecksumCapabilities,
)
    ensures
        ({
            let unfiltered = raw::outgoing(None, None, packet, caps);
            let is_ipv4 = 0x40 <= packet[0] <= 0x4f;
            let is_ipv6 = 0x60 <= packet[0] <= 0x6f;
            let number = if is_ipv4 { packet[9] } else { packet[6] };
            let bound_to = {
                &&& ip_version == Some(IpVersion::Ipv4) ==> is_ipv4
                &&& ip_version == Some(IpVersion::Ipv6) ==> is_ipv6
                &&& ip_protocol matches Some(protocol) ==> protocol == IpProtocol::numbered(number)
            };
            raw::outgoing(ip_version, ip_protocol, packet, caps) == if bound_to {
                unfiltered
            } else {
                None
            }
        }),
{
    lemma_versions(ip_version);
}

/// When an IPv4 packet is sent, and what is sent for it, by the positions of its octets. It
/// is sent exactly if the socket is bound to nothing else, the octets hold the whole packet
/// and, where the checksum is verified, the header sums up to 0xffff once its checksum is
/// written anew.
pub proof fn law_ipv4_is_sent(
    ip_version: Option<IpVersion>,
    ip_protocol: Option<IpProtocol>,
    packet: Seq<u8>,
    caps: ChecksumCapabilities,
)
    requires
        packet.len() > 0,
        0x40 <= packet[0] <= 0x4f,
    ensures
        ({
            let start = 4 * (packet[0] - 0x40);
            let end = 256 * packet[2] + packet[3];
            let stamped = ipv4::stamped(packet, caps);
            let outgoing = raw::outgoing(ip_version, ip_protocol, packet, caps);
            &&& outgoing is Some <==> {
                &&& ip_version != Some(IpVersion::Ipv6)
                &&& packet.len() >= 20
                &&& start <= end <= packet.len()
                &&& ip_protocol is None || ip_protocol == Some(IpProtocol::numbered(packet[9]))
                &&& caps.ipv4 == Checksum::Both || caps.ipv4 == Checksum::Rx
                    ==> checksum::data_spec(stamped.take(start)) == 0xffff
            }
            &&& outgoing matches Some((ip_repr, payload)) ==> {
                &&& ip_repr matches IpRepr::Ipv4(repr) && {
                    &&& repr.src_addr.octets@ == packet.subrange(12, 16)
                    &&& repr.dst_addr.octets@ == packet.subrange(16, 20)
                    &&& repr.next_header == IpProtocol::numbered(packet[9])
                    &&& repr.payload_len == end - start
                    &&& repr.hop_limit == packet[8]
                }
                &&& payload == stamped.subrange(start, end)
                &&& start >= 12 ==> payload == packet.subrange(start, end)
            }
        }),
{
    lemma_versions(ip_version);
    if packet.len() >= 20 {
        let start = 4 * (packet[0] - 0x40);
        let end = 256 * packet[2] + packet[3];
        let stamped = ipv4::stamped(packet, caps);
        ipv4::lemma_stamped(packet, caps);
        wire::laws::law_ipv4_fields_by_position(packet);
        wire::laws::law_ipv4_fields_by_position(stamped);
        wire::laws::law_ipv4_validity(stamped, caps);
        assert(stamped.subrange(12, 16) =~= packet.subrange(12, 16));
        assert(stamped.subrange(16, 20) =~= packet.subrange(16, 20));
        if 12 <= start <= end <= packet.len() {
            assert(stamped.subrange(start, end) =~= packet.subrange(start, end));
        }
    }
}

/// When an IPv6 packet is sent, and what is sent for it, by the positions of its octets. It
/// is sent exactly if the socket is bound to nothing else and the octets hold the whole
/// packet.
pub proof fn law_ipv6_is_sent(
    ip_version: Option<IpVersion>,
    ip_protocol: Option<IpProtocol>,
    packet: Seq<u8>,
    caps: ChecksumCapabilities,
)
    requires
        packet.len() > 0,
        0x60 <= packet[0] <= 0x6f,
    ensures
        ({
            let end = 40 + 256 * packet[4] + packet[5];
            let outgoing = raw::outgoing(ip_version, ip_protocol, packet, caps);
            &&& outgoing is Some <==> {
                &&& ip_version != Some(IpVersion::Ipv4)
                &&& 40 <= packet.len()
                &&& end <= packet.len()
                &&& ip_protocol is None || ip_protocol == Some(IpProtocol::numbered(packet[6]))
            }
            &&& outgoing matches Some((ip_repr, payload)) ==> {
                &&& ip_repr matches IpRepr::Ipv6(repr) && {
                    &&& repr.src_addr.octets@ == packet.subrange(8, 24)
                    &&& repr.dst_addr.octets@ == packet.subrange(24, 40)
                    &&& repr.next_header == IpProtocol::numbered(packet[6])
                    &&& repr.payload_len == end - 40
                    &&& repr.hop_limit == packet[7]
                }
                &&& payload == packet.subrange(40, end)
            }
        }),
{
    lemma_versions(ip_version);
    wire::laws::law_ipv6_fields_by_position(packet);
    if ipv6::complete(packet) {
        let end = 40 + 256 * packet[4] + packet[5];
        assert(ipv6::payload(packet) =~= packet.subrange(40, end));
    }
}

/// Nothing is sent for octets that are neither an IPv4 nor an IPv6 packet.
pub proof fn law_nothing_else_is_sent(
    ip_version: Option<IpVersion>,
    ip_protocol: Option<IpProtocol>,
    packet: Seq<u8>,
    caps: ChecksumCapabilities,
)
    requires
        packet.len() == 0 || !(0x40 <= packet[0] <= 0x4f || 0x60 <= packet[0] <= 0x6f),
    ensures
        raw::outgoing(ip_version, ip_protocol, packet, caps) is None,
{
}

/// A packet that stays in the queue because it could not be sent keeps all its octets but
/// the checksum of an IPv4 header, octets 10 and 11, which is the one that is sent.
pub proof fn law_kept_packet_keeps_octets(packet: Seq<u8>, caps: ChecksumCapabilities)
    requires
        packet.len() >= 20,
    ensures
        ({
            let kept = raw::rewritten(packet, caps);
            let sum = checksum::data_spec(
                packet.update(10, 0).update(11, 0).take(4 * (packet[0] % 16)),
            );
            &&& kept.len() == packet.len()
            &&& forall|i: int|
                0 <= i < packet.len() && i != 10 && i != 11 ==> #[trigger] kept[i] == packet[i]
            &&& !(0x40 <= packet[0] <= 0x4f) ==> kept == packet
            &&& 0x40 <= packet[0] <= 0x4f ==> 256 * kept[10] + kept[11] == if caps.ipv4
                == Checksum::Both || caps.ipv4 == Checksum::Tx {
                0xffff - sum
            } else {
                0
            }
        }),
{
    wire::laws::law_ipv4_checksum_by_position(packet, caps);
}

/// A packet that arrives changes the receive buffer and the waker for receive operations,
/// and nothing else: it is queued if and only if it finds room, and whether it does or not,
/// the waker is woken and is there no more.
pub proof fn law_receive_changes_no_more(socket: SocketState, packet: Seq<u8>)
    ensures
        ({
            let received = socket.receive(packet);
            &&& received.ip_version == socket.ip_version
            &&& received.ip_protocol == socket.ip_protocol
            &&& received.tx == socket.tx
            &&& received.tx_waker == socket.tx_waker
            &&& received.tx_woken == socket.tx_woken
            &&& received.rx_waker is None
            &&& socket.rx_waker is None ==> received.rx_woken == socket.rx_woken
            &&& socket.rx_waker matches Some(waker) ==> received.rx_woken
                == socket.rx_woken.push(waker)
            &&& socket.rx.accommodates(packet.len()) ==> received.rx == socket.rx.enqueue(
                packet.len(),
                packet,
            )
            &&& !socket.rx.accommodates(packet.len()) ==> received.rx == socket.rx
        }),
{
}

/// A packet that goes, sent or dropped, changes the transmit buffer and the waker for send
/// operations, and nothing else: the oldest packet is taken out, and the waker is woken and
/// is there no more.
pub proof fn law_sent_changes_no_more(socket: SocketState)
    ensures
        ({
            let sent = socket.sent();
            &&& sent.ip_version == socket.ip_version
            &&& sent.ip_protocol == socket.ip_protocol
            &&& sent.rx == socket.rx
            &&& sent.rx_waker == socket.rx_waker
            &&& sent.rx_woken == socket.rx_woken
            &&& sent.tx_waker is None
            &&& socket.tx_waker is None ==> sent.tx_woken == socket.tx_woken
            &&& socket.tx_waker matches Some(waker) ==> sent.tx_woken == socket.tx_woken.push(waker)
            &&& sent.tx == socket.tx.dequeue()
        }),
{
}

/// A socket that is bound to nothing accepts every packet.
pub proof fn law_unbound_accepts_all(socket: SocketState, ip_repr: IpRepr)
    requires
        socket.ip_version is None,
        socket.ip_protocol is None,
    ensures
        socket.accepts(ip_repr),
{
}

/// A socket that is bound to nothing sends every IPv6 packet and every IPv4 packet, whatever
/// their protocol. Where the IPv4 checksum is verified, it must be right once it is written
/// anew; it always is if it is computed and the header is long enough to hold it.
pub proof fn law_unbound_sends_all(packet: Seq<u8>, caps: ChecksumCapabilities)
    ensures
        raw::outgoing(None, None, packet, caps) is Some <==> {
            ||| ipv6::valid(packet)
            ||| {
                &&& ip::version(packet) == Some(IpVersion::Ipv4)
                &&& ipv4::complete(packet)
                &&& caps.ipv4.verifies() ==> ipv4::verified(ipv4::stamped(packet, caps))
            }
        },
        ({
            &&& ip::version(packet) == Some(IpVersion::Ipv4)
            &&& ipv4::complete(packet)
            &&& caps.ipv4.verifies() ==> caps.ipv4.computes() && ipv4::header_len(packet) >= 12
        }) ==> raw::outgoing(None, None, packet, caps) is Some,
{
    if ip::version(packet) == Some(IpVersion::Ipv4) && ipv4::complete(packet) {
        ipv4::lemma_stamped(packet, caps);
        if ipv4::header_len(packet) >= 12 {
            ipv4::law_filled_is_verified(packet);
        }
    }
}

/// The payload that is sent is made of the octets that were queued: those behind the header,
/// up to the length that the header states. Only the IPv4 checksum is written anew, and it is
/// not part of the payload unless the header is too short to hold it.
pub proof fn law_payload_is_sent_as_queued(
    socket: SocketState,
    packet: Seq<u8>,
    caps: ChecksumCapabilities,
)
    ensures
        raw::outgoing(socket.ip_version, socket.ip_protocol, packet, caps) matches Some(
            (repr, sent),
        ) ==> match repr {
            IpRepr::Ipv4(_) => {
                let start = ipv4::header_len(packet);
                let queued = ipv4::payload(packet);
                &&& sent.len() == queued.len()
                &&& forall|i: int|
                    0 <= i < sent.len() && start + i != 10 && start + i != 11 ==> #[trigger] sent[i]
                        == queued[i]
                &&& start >= 12 || ipv4::total_len(packet) <= 10 ==> sent == queued
            },
            IpRepr::Ipv6(_) => sent == ipv6::payload(packet),
        },
{
    if ip::version(packet) == Some(IpVersion::Ipv4) && ipv4::complete(packet) {
        ipv4::lemma_stamped(packet, caps);
        if ipv4::header_len(packet) >= 12 || ipv4::total_len(packet) <= 10 {
            assert(ipv4::payload(ipv4::stamped(packet, caps)) =~= ipv4::payload(packet));
        }
    }
}

/// What a socket received can be sent as it is: when a packet that a socket queued for its
/// user is queued for sending, the header and the payload that are sent are those that came
/// in. The protocol must have one name only, the header must state the length that the
/// payload has, and be able to; and a checksum that is verified must also be computed,
/// unless zero is right.
pub proof fn law_received_is_sent_unchanged(
    socket: SocketState,
    ip_repr: IpRepr,
    payload: Seq<u8>,
    caps: ChecksumCapabilities,
)
    requires
        socket.accepts(ip_repr),
        ip_repr.next_header_spec().canonical(),
        ip_repr.payload_len_spec() == payload.len(),
        match ip_repr {
            IpRepr::Ipv4(repr) => {
                &&& ipv4::HEADER_LEN + payload.len() <= 0xffff
                &&& caps.ipv4.verifies() ==> caps.ipv4.computes() || ipv4::verified(
                    repr.blank_header(),
                )
            },
            IpRepr::Ipv6(_) => payload.len() <= 0xffff,
        },
    ensures
        ({
            let packet = ip_repr.header(caps) + payload;
            raw::outgoing(socket.ip_version, socket.ip_protocol, packet, caps) == Some(
                (ip_repr, payload),
            )
        }),
{
    match ip_repr {
        IpRepr::Ipv4(repr) => {
            ipv4::law_header_round_trip(repr, payload, caps);
        },
        IpRepr::Ipv6(repr) => {
            ipv6::law_header_round_trip(repr, payload);
        },
    }
}

/// A packet that could not be sent stays the oldest one, and what is sent for it the next
/// time is what was to be sent for it the first time.
pub proof fn law_retry_sends_the_same(socket: SocketState, caps: ChecksumCapabilities)
    requires
        socket.tx.wf(),
        socket.tx.packets().len() > 0,
        raw::outgoing(socket.ip_version, socket.ip_protocol, socket.tx.front(), caps) is Some,
    ensures
        ({
            let packet = raw::rewritten(socket.tx.front(), caps);
            let retry = socket.tx.with_front(packet);
            &&& retry.wf()
            &&& retry.packets() == socket.tx.packets().update(0, packet)
            &&& retry.dequeue() == socket.tx.dequeue()
            &&& raw::outgoing(socket.ip_version, socket.ip_protocol, retry.front(), caps)
                == raw::outgoing(socket.ip_version, socket.ip_protocol, socket.tx.front(), caps)
            &&& raw::rewritten(retry.front(), caps) == retry.front()
        }),
{
    let front = socket.tx.front();
    let packet = raw::rewritten(front, caps);
    if ip::version(front) == Some(IpVersion::Ipv4) {
        ipv4::lemma_stamped(front, caps);
        ipv4::law_stamped_twice(front, caps);
    }
    packet_queue::law_entries_iff_packets(socket.tx);
    packet_queue::law_with_front(socket.tx, packet);
}

/// A packet that arrives is queued behind those that arrived before, if it finds room;
/// otherwise those stay as they are. Nothing that is to be sent changes.
pub proof fn law_receive_appends(socket: SocketState, packet: Seq<u8>)
    requires
        socket.rx.wf(),
    ensures
        ({
            let received = socket.receive(packet);
            &&& received.rx.wf()
            &&& socket.rx.accommodates(packet.len()) ==> received.rx.packets()
                == socket.rx.packets().push(packet)
            &&& !socket.rx.accommodates(packet.len()) ==> received.rx == socket.rx
            &&& received.tx == socket.tx
        }),
{
    if socket.rx.accommodates(packet.len()) {
        packet_queue::law_enqueue_appends(socket.rx, packet.len(), packet);
    }
}

/// A packet that arrives at a socket whose receive buffer is empty and large enough is what
/// is received next, and then the buffer is empty again.
pub proof fn law_receive_then_recv(socket: SocketState, packet: Seq<u8>)
    requires
        socket.rx.wf(),
        socket.rx.packets().len() == 0,
        socket.rx.packet_capacity > 0,
        packet.len() <= socket.rx.payload_capacity,
    ensures
        socket.receive(packet).rx.packets() == seq![packet],
        socket.receive(packet).rx.front() == packet,
        socket.receive(packet).rx.dequeue().packets() == Seq::<Seq<u8>>::empty(),
{
    packet_queue::law_entries_iff_packets(socket.rx);
    packet_queue::law_empty_accommodates(socket.rx, packet.len());
    law_receive_appends(socket, packet);
    let received = socket.receive(packet).rx;
    assert(received.packets() =~= seq![packet]);
    packet_queue::law_entries_iff_packets(received);
    packet_queue::law_dequeue_takes_first(received);
    assert(received.dequeue().packets() =~= Seq::<Seq<u8>>::empty());
}

/// Looking at the oldest packet takes nothing away: it can be looked at again, it is still
/// received, and what stays then is the same.
pub proof fn law_peek_then_recv(queue: PacketQueue)
    requires
        queue.wf(),
    ensures
        queue.trimmed().wf(),
        queue.trimmed().packets() == queue.packets(),
        queue.trimmed().front() == queue.front(),
        queue.trimmed().trimmed() == queue.trimmed(),
        queue.trimmed().dequeue() == queue.dequeue(),
{
    packet_queue::law_trimmed_keeps_packets(queue);
}

/// Sending goes on until nothing is left: every packet that is sent or dropped leaves one
/// packet less, and the others in their order.
pub proof fn law_sent_makes_progress(socket: SocketState)
    requires
        socket.tx.wf(),
        socket.tx.packets().len() > 0,
    ensures
        socket.sent().tx.wf(),
        socket.sent().tx.packets() == socket.tx.packets().drop_first(),
        socket.sent().tx.packets().len() == socket.tx.packets().len() - 1,
        socket.sent().rx == socket.rx,
{
    packet_queue::law_entries_iff_packets(socket.tx);
    packet_queue::law_dequeue_takes_first(socket.tx);
}

/// The octets that are queued grow by those of a packet that is queued.
pub proof fn law_queued_octets_grow(queue: PacketQueue, size: nat, data: Seq<u8>)
    requires
        queue.wf(),
        queue.accommodates(size),
        data.len() <= size,
    ensures
        packet_queue::octets(queue.enqueue(size, data).packets()) == packet_queue::octets(
            queue.packets(),
        ) + data.len(),
{
    packet_queue::law_enqueue_appends(queue, size, data);
    packet_queue::lemma_octets_push(queue.packets(), data);
}

/// The octets that are queued shrink by those of a packet that leaves.
pub proof fn law_queued_octets_shrink(queue: PacketQueue)
    requires
        queue.wf(),
        queue.packets().len() > 0,
    ensures
        packet_queue::octets(queue.dequeue().packets()) == packet_queue::octets(queue.packets())
            - queue.front().len(),
{
    packet_queue::law_entries_iff_packets(queue);
    packet_queue::law_dequeue_takes_first(queue);
    packet_queue::lemma_octets_first(queue.packets());
}

/// No operation changes what a buffer can hold.
pub proof fn law_capacities_stay(queue: PacketQueue, size: nat, data: Seq<u8>)
    ensures
        queue.enqueue(size, data).packet_capacity == queue.packet_capacity,
        queue.enqueue(size, data).payload_capacity == queue.payload_capacity,
        queue.dequeue().packet_capacity == queue.packet_capacity,
        queue.dequeue().payload_capacity == queue.payload_capacity,
        queue.trimmed().packet_capacity == queue.packet_capacity,
        queue.trimmed().payload_capacity == queue.payload_capacity,
        queue.with_front(data).packet_capacity == queue.packet_capacity,
        queue.with_front(data).payload_capacity == queue.payload_capacity,
{
}

/// A waker is woken once: it has to be registered again to be woken again.
pub proof fn law_wakers_are_woken_once(socket: SocketState)
    ensures
        socket.wake_rx().wake_rx() == socket.wake_rx(),
        socket.wake_tx().wake_tx() == socket.wake_tx(),
{
    assert(socket.wake_rx().wake_rx() =~= socket.wake_rx());
    assert(socket.wake_tx().wake_tx() =~= socket.wake_tx());
}

/// Of two wakers that are registered, only the later is woken.
pub proof fn law_later_waker_replaces_earlier(socket: SocketState, earlier: Waker, later: Waker)
    ensures
        ({
            let first = SocketState { rx_waker: Some(earlier), ..socket };
            let second = SocketState { rx_waker: Some(later), ..first };
            &&& second.wake_rx().rx_woken == socket.rx_woken.push(later)
            &&& second.wake_rx().rx_waker is None
        }),
        ({
            let first = SocketState { tx_waker: Some(earlier), ..socket };
            let second = SocketState { tx_waker: Some(later), ..first };
            &&& second.wake_tx().tx_woken == socket.tx_woken.push(later)
            &&& second.wake_tx().tx_waker is None
        }),
{
}

/// Whoever waits for a packet is woken when one arrives, and whoever waits for room is woken
/// when a packet goes.
pub proof fn law_waiting_tasks_are_woken(socket: SocketState, packet: Seq<u8>, waker: Waker)
    ensures
        socket.rx_waker == Some(waker) ==> {
            &&& socket.receive(packet).rx_woken == socket.rx_woken.push(waker)
            &&& socket.receive(packet).rx_waker is None
        },
        socket.tx_waker == Some(waker) ==> {
            &&& socket.sent().tx_woken == socket.tx_woken.push(waker)
            &&& socket.sent().tx_waker is None
        },
{
}

} // verus!
