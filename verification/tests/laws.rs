use std::sync::atomic::{AtomicUsize, Ordering};
use std::sync::Arc;
use std::task::{Wake, Waker};

use raw_socket::iface::Context;
use raw_socket::phy::{Checksum, ChecksumCapabilities};
use raw_socket::socket::raw::{BindError, RecvError, SendError, Socket};
use raw_socket::socket::PollAt;
use raw_socket::storage::{Empty, Full, PacketBuffer, PacketMetadata, Storage};
use raw_socket::wire::{
    checksum, ipv4, ipv6, Error, IpProtocol, IpRepr, IpVersion, Ipv4Address, Ipv4Repr, Ipv6Address,
    Ipv6Repr,
};

fn buffer(packets: usize, octets: usize) -> PacketBuffer<'static> {
    PacketBuffer::new(
        Storage::Owned(vec![PacketMetadata::empty(); packets]),
        Storage::Owned(vec![0; octets]),
    )
}

fn unbound(octets: usize) -> Socket<'static> {
    Socket::new(None, None, buffer(4, octets), buffer(4, octets))
}

fn context(ipv4: Checksum) -> Context {
    Context::new(ChecksumCapabilities { ipv4 })
}

fn ipv4_repr(payload_len: usize) -> Ipv4Repr {
    Ipv4Repr {
        src_addr: Ipv4Address::new(192, 168, 0, 1),
        dst_addr: Ipv4Address::new(192, 168, 0, 199),
        next_header: IpProtocol::Udp,
        payload_len,
        hop_limit: 64,
    }
}

fn ipv6_repr(payload_len: usize) -> Ipv6Repr {
    Ipv6Repr {
        src_addr: Ipv6Address::new(0xfe80, 0, 0, 0, 0x1234, 0, 0, 1),
        dst_addr: Ipv6Address::new(0xff02, 0, 0, 0, 0, 0, 0, 0xfb),
        next_header: IpProtocol::Icmpv6,
        payload_len,
        hop_limit: 255,
    }
}

struct Count(AtomicUsize);

impl Wake for Count {
    fn wake(self: Arc<Self>) {
        self.0.fetch_add(1, Ordering::SeqCst);
    }
}

impl Count {
    fn new() -> (Arc<Count>, Waker) {
        let count = Arc::new(Count(AtomicUsize::new(0)));
        (count.clone(), Waker::from(count))
    }

    fn get(&self) -> usize {
        self.0.load(Ordering::SeqCst)
    }
}

#[test]
fn packets_leave_in_order() {
    let mut queue = buffer(3, 12);
    for packet in [&[1u8, 2, 3][..], &[4][..], &[5, 6][..]] {
        queue.enqueue(packet.len()).unwrap().copy_from_slice(packet);
    }
    assert!(queue.is_full());
    assert_eq!(queue.payload_bytes_count(), 6);
    assert_eq!(queue.enqueue(1), Err(Full));
    assert_eq!(queue.dequeue(), Ok(&[1, 2, 3][..]));
    assert_eq!(queue.dequeue(), Ok(&[4][..]));
    assert_eq!(queue.payload_bytes_count(), 2);
    assert_eq!(queue.dequeue(), Ok(&[5, 6][..]));
    assert_eq!(queue.dequeue(), Err(Empty));
    assert!(queue.is_empty());
}

#[test]
fn packet_is_padded_to_lie_in_one_piece() {
    let mut queue = buffer(4, 10);
    queue.enqueue(4).unwrap().copy_from_slice(&[1, 1, 1, 1]);
    queue.enqueue(4).unwrap().copy_from_slice(&[2, 2, 2, 2]);
    // Two octets are free at the end, none at the start.
    assert_eq!(queue.enqueue(3), Err(Full));
    assert_eq!(queue.dequeue(), Ok(&[1, 1, 1, 1][..]));
    // Six octets are free, but no five of them in one piece.
    assert_eq!(queue.enqueue(5), Err(Full));
    queue.enqueue(4).unwrap().copy_from_slice(&[3, 3, 3, 3]);
    assert_eq!(queue.payload_bytes_count(), 8);
    assert_eq!(queue.enqueue(1), Err(Full));
    assert!(!queue.is_full());
    assert_eq!(queue.dequeue(), Ok(&[2, 2, 2, 2][..]));
    assert_eq!(queue.payload_bytes_count(), 4);
    assert_eq!(queue.peek(), Ok(&[3, 3, 3, 3][..]));
    assert_eq!(queue.dequeue(), Ok(&[3, 3, 3, 3][..]));
    assert!(queue.is_empty());
    assert_eq!(queue.dequeue(), Err(Empty));
}

#[test]
fn padding_needs_a_free_entry() {
    let mut queue = buffer(2, 10);
    queue.enqueue(4).unwrap();
    queue.enqueue(4).unwrap();
    queue.dequeue().unwrap();
    // There is room at the start, but one entry is not enough for padding and packet.
    assert_eq!(queue.enqueue(4), Err(Full));
    assert!(!queue.is_full());
    assert_eq!(queue.enqueue(2).map(|payload| payload.len()), Ok(2));
    assert!(queue.is_full());
}

#[test]
fn empty_buffer_takes_all_it_can_hold() {
    let mut queue = buffer(2, 10);
    for _ in 0..3 {
        queue.enqueue(7).unwrap();
        assert_eq!(queue.dequeue().unwrap().len(), 7);
        assert_eq!(queue.enqueue(11), Err(Full));
        assert_eq!(queue.enqueue(10).map(|payload| payload.len()), Ok(10));
        assert_eq!(queue.dequeue().unwrap().len(), 10);
    }
}

#[test]
fn empty_packets_take_entries() {
    let mut queue = buffer(2, 0);
    assert!(queue.enqueue(0).is_ok());
    assert!(queue.enqueue(0).is_ok());
    assert_eq!(queue.enqueue(0), Err(Full));
    assert_eq!(queue.dequeue(), Ok(&[][..]));
    assert_eq!(queue.peek(), Ok(&[][..]));
    assert_eq!(queue.dequeue(), Ok(&[][..]));
    assert_eq!(queue.peek(), Err(Empty));
}

#[test]
fn shrunk_packet_keeps_what_was_written() {
    let mut queue = buffer(2, 10);
    let res = queue.enqueue_with_infallible(6, |payload| {
        assert_eq!(payload.len(), 6);
        payload[0] = 7;
        payload[1] = 8;
        2
    });
    assert_eq!(res, Ok(2));
    assert_eq!(queue.payload_bytes_count(), 2);
    let res = queue.enqueue_with_infallible(9, |_| unreachable!());
    assert_eq!(res, Err(Full));
    assert_eq!(queue.enqueue(8).map(|payload| payload.len()), Ok(8));
    assert_eq!(queue.dequeue(), Ok(&[7, 8][..]));
}

#[test]
fn front_can_be_changed() {
    let mut queue = buffer(2, 10);
    assert!(queue.peek_mut().is_err());
    queue.enqueue(2).unwrap().copy_from_slice(&[1, 2]);
    queue.enqueue(1).unwrap().copy_from_slice(&[3]);
    queue.peek_mut().unwrap()[1] = 9;
    assert_eq!(queue.dequeue(), Ok(&[1, 9][..]));
    assert_eq!(queue.dequeue(), Ok(&[3][..]));
}

#[test]
fn buffers_can_be_borrowed() {
    let mut rx_metadata = [PacketMetadata::empty(); 1];
    let mut rx_payload = [0; 16];
    let mut tx_metadata = [PacketMetadata::empty(); 2];
    let mut tx_payload = [0; 24];
    let rx_buffer = PacketBuffer::new(
        Storage::Borrowed(&mut rx_metadata),
        Storage::Borrowed(&mut rx_payload),
    );
    let tx_buffer = PacketBuffer::new(
        Storage::Borrowed(&mut tx_metadata),
        Storage::Borrowed(&mut tx_payload),
    );
    let mut socket = Socket::new(
        Some(IpVersion::Ipv6),
        Some(IpProtocol::Udp),
        rx_buffer,
        tx_buffer,
    );
    assert_eq!(socket.ip_version(), Some(IpVersion::Ipv6));
    assert_eq!(socket.ip_protocol(), Some(IpProtocol::Udp));
    assert_eq!(socket.packet_recv_capacity(), 1);
    assert_eq!(socket.payload_recv_capacity(), 16);
    assert_eq!(socket.packet_send_capacity(), 2);
    assert_eq!(socket.payload_send_capacity(), 24);
    assert_eq!(socket.send_slice(&[1, 2, 3]), Ok(()));
    drop(socket);
    assert_eq!(tx_payload[..4], [1, 2, 3, 0]);
}

#[test]
fn refused_send_changes_nothing() {
    let mut socket = unbound(10);
    assert_eq!(socket.send_slice(&[1; 6]), Ok(()));
    assert_eq!(socket.send_slice(&[2; 5]), Err(SendError::BufferFull));
    assert_eq!(
        socket.send_with(5, |_| unreachable!()),
        Err(SendError::BufferFull)
    );
    assert!(socket.send(5).is_err());
    assert_eq!(socket.send_queue(), 6);
    assert!(socket.can_send());
    assert_eq!(socket.send_slice(&[3; 4]), Ok(()));
    assert_eq!(socket.send_queue(), 10);
}

#[test]
fn send_lends_the_packet() {
    let packet = [
        0x45, 0, 0, 21, 0, 0, 0, 0, 1, 2, 0, 0, 127, 0, 0, 1, 127, 0, 0, 2, 0x99,
    ];
    let mut socket = unbound(64);
    socket.send(21).unwrap().copy_from_slice(&packet);
    let res = socket.send_with(40, |buf| {
        buf[..21].copy_from_slice(&packet);
        21
    });
    assert_eq!(res, Ok(21));
    assert_eq!(socket.send_queue(), 42);
    let mut cx = context(Checksum::Both);
    for left in [21, 0] {
        let res = socket.dispatch(&mut cx, |_, (ip_repr, payload)| {
            assert_eq!(ip_repr.version(), IpVersion::Ipv4);
            assert_eq!(ip_repr.next_header(), IpProtocol::Igmp);
            assert_eq!(payload, &[0x99]);
            Ok::<_, ()>(())
        });
        assert_eq!(res, Ok(()));
        assert_eq!(socket.send_queue(), left);
    }
}

#[test]
fn recv_slice_fills_the_start() {
    let mut socket = unbound(100);
    let mut cx = context(Checksum::Both);
    socket.process(&mut cx, &IpRepr::Ipv6(ipv6_repr(2)), &[0xab, 0xcd]);
    assert_eq!(socket.recv_queue(), 42);
    let mut data = [0x55; 50];
    assert_eq!(socket.peek_slice(&mut data), Ok(42));
    assert_eq!(data[..4], [0x60, 0, 0, 0]);
    assert_eq!(data[40..44], [0xab, 0xcd, 0x55, 0x55]);
    let mut exact = [0; 42];
    assert_eq!(socket.recv_slice(&mut exact), Ok(42));
    assert_eq!(exact, data[..42]);
    assert_eq!(socket.recv_slice(&mut data), Err(RecvError::Exhausted));
    assert_eq!(socket.recv_queue(), 0);
}

#[test]
fn bound_socket_sends_no_other_version() {
    let mut packet = vec![0; 42];
    ipv6_repr(2).emit(&mut packet[..40]);
    let mut socket = Socket::new(Some(IpVersion::Ipv4), None, buffer(1, 64), buffer(1, 64));
    let mut cx = context(Checksum::Both);
    assert_eq!(socket.send_slice(&packet), Ok(()));
    assert_eq!(
        socket.dispatch(&mut cx, |_, _| unreachable!()),
        Ok::<_, ()>(())
    );
    assert!(socket.can_send());
    assert!(!socket.accepts(&IpRepr::Ipv6(ipv6_repr(2))));
    assert!(socket.accepts(&IpRepr::Ipv4(ipv4_repr(2))));
}

#[test]
fn unbound_socket_sends_every_protocol() {
    let mut cx = context(Checksum::Both);
    let mut socket = unbound(64);
    for protocol in [IpProtocol::Udp, IpProtocol::Tcp, IpProtocol::Unknown(63)] {
        let mut ipv4_packet = vec![0; 20];
        ipv4_repr(0).emit(&mut ipv4_packet, &cx.checksum_caps());
        ipv4_packet[9] = u8::from(protocol);
        let mut ipv6_packet = vec![0; 40];
        ipv6_repr(0).emit(&mut ipv6_packet);
        ipv6_packet[6] = u8::from(protocol);
        for packet in [ipv4_packet, ipv6_packet] {
            assert_eq!(socket.send_slice(&packet), Ok(()));
            let mut sent = None;
            let res = socket.dispatch(&mut cx, |_, (ip_repr, _)| {
                sent = Some(ip_repr.next_header());
                Ok::<_, ()>(())
            });
            assert_eq!(res, Ok(()));
            assert_eq!(sent, Some(protocol));
        }
    }
}

#[test]
fn short_ipv4_header_is_sent_unless_it_is_verified() {
    let mut packet: Vec<u8> = (0..20).collect();
    packet[0] = 0x42;
    packet[2] = 0;
    packet[3] = 16;
    let mut socket = unbound(64);
    let mut sent = vec![];

    let mut cx = context(Checksum::Ignored);
    assert_eq!(socket.send_slice(&packet), Ok(()));
    let res = socket.dispatch(&mut cx, |_, (_, payload)| {
        sent.extend_from_slice(payload);
        Ok::<_, ()>(())
    });
    assert_eq!(res, Ok(()));
    assert_eq!(sent, [8, 9, 0, 0, 12, 13, 14, 15]);

    // the checksum goes where the header does not reach
    let mut cx = context(Checksum::Tx);
    assert_eq!(socket.send_slice(&packet), Ok(()));
    sent.clear();
    let res = socket.dispatch(&mut cx, |_, (_, payload)| {
        sent.extend_from_slice(payload);
        Ok::<_, ()>(())
    });
    assert_eq!(res, Ok(()));
    assert_eq!(sent, [8, 9, 0xb3, 0xe2, 12, 13, 14, 15]);

    let mut cx = context(Checksum::Both);
    assert_eq!(socket.send_slice(&packet), Ok(()));
    assert_eq!(
        socket.dispatch(&mut cx, |_, _| unreachable!()),
        Ok::<_, ()>(())
    );
    assert_eq!(socket.send_queue(), 0);

    // a short packet ends before the checksum
    packet[3] = 10;
    let mut cx = context(Checksum::Tx);
    assert_eq!(socket.send_slice(&packet), Ok(()));
    sent.clear();
    let res = socket.dispatch(&mut cx, |_, (_, payload)| {
        sent.extend_from_slice(payload);
        Ok::<_, ()>(())
    });
    assert_eq!(res, Ok(()));
    assert_eq!(sent, [8, 9]);
}

#[test]
fn short_ipv4_header_may_be_right_by_itself() {
    let mut packet = vec![0; 20];
    packet[..8].copy_from_slice(&[0x42, 0, 0, 16, 0xbd, 0xef, 0, 0]);
    let mut socket = unbound(64);
    let mut cx = context(Checksum::Both);
    assert_eq!(socket.send_slice(&packet), Ok(()));
    let mut sent = vec![];
    let res = socket.dispatch(&mut cx, |_, (_, payload)| {
        sent.extend_from_slice(payload);
        Ok::<_, ()>(())
    });
    assert_eq!(res, Ok(()));
    assert_eq!(sent, [0; 8]);
}

#[test]
fn malformed_packets_are_dropped() {
    let mut socket = unbound(128);
    let mut cx = context(Checksum::Both);
    let mut short_header = vec![0x45; 19];
    short_header[3] = 19;
    let mut beyond_end = vec![0; 20];
    beyond_end[0] = 0x45;
    beyond_end[3] = 21;
    let mut before_header = vec![0; 24];
    before_header[0] = 0x46;
    before_header[3] = 23;
    let mut ipv6_beyond_end = vec![0; 41];
    ipv6_beyond_end[0] = 0x60;
    ipv6_beyond_end[5] = 2;
    let packets = [
        vec![],
        vec![0x70; 40],
        short_header,
        beyond_end,
        before_header,
        vec![0x60; 39],
        ipv6_beyond_end,
    ];
    for packet in packets {
        assert_eq!(socket.send_slice(&packet), Ok(()));
        assert_eq!(socket.poll_at(&mut cx), PollAt::Now);
        assert_eq!(
            socket.dispatch(&mut cx, |_, _| unreachable!()),
            Ok::<_, ()>(())
        );
        assert_eq!(socket.poll_at(&mut cx), PollAt::Ingress);
    }
}

#[test]
fn octets_behind_the_packet_are_not_sent() {
    let mut packet = vec![0; 25];
    let caps = ChecksumCapabilities {
        ipv4: Checksum::Both,
    };
    ipv4_repr(2).emit(&mut packet[..20], &caps);
    let mut socket = unbound(64);
    let mut cx = context(Checksum::Both);
    assert_eq!(socket.send_slice(&packet), Ok(()));
    let mut sent = vec![];
    let res = socket.dispatch(&mut cx, |_, (ip_repr, payload)| {
        assert_eq!(ip_repr, IpRepr::Ipv4(ipv4_repr(2)));
        sent.extend_from_slice(payload);
        Ok::<_, ()>(())
    });
    assert_eq!(res, Ok(()));
    assert_eq!(sent, [0, 0]);
}

#[test]
fn received_is_sent_unchanged() {
    for (ip_repr, payload) in [
        (IpRepr::Ipv4(ipv4_repr(3)), vec![1, 2, 3]),
        (IpRepr::Ipv6(ipv6_repr(5)), vec![9, 8, 7, 6, 5]),
        (IpRepr::Ipv4(ipv4_repr(0)), vec![]),
    ] {
        for checksum in [Checksum::Both, Checksum::Tx, Checksum::Ignored] {
            let mut cx = context(checksum);
            let mut socket = unbound(64);
            socket.process(&mut cx, &ip_repr, &payload);
            let packet = socket.recv().unwrap().to_vec();
            assert_eq!(socket.send_slice(&packet), Ok(()));
            let mut sent = false;
            let res = socket.dispatch(&mut cx, |_, (sent_repr, sent_payload)| {
                assert_eq!(sent_repr, ip_repr);
                assert_eq!(sent_payload, payload);
                sent = true;
                Ok::<_, ()>(())
            });
            assert_eq!(res, Ok(()));
            assert!(sent);
        }
    }
}

#[test]
fn checksum_that_is_verified_but_not_computed_stops_ipv4() {
    let mut cx = context(Checksum::Rx);
    let mut socket = unbound(64);
    socket.process(&mut cx, &IpRepr::Ipv4(ipv4_repr(0)), &[]);
    let packet = socket.recv().unwrap().to_vec();
    assert_eq!(packet[10..12], [0, 0]);
    assert_eq!(socket.send_slice(&packet), Ok(()));
    assert_eq!(
        socket.dispatch(&mut cx, |_, _| unreachable!()),
        Ok::<_, ()>(())
    );
    assert_eq!(socket.send_queue(), 0);
}

#[test]
fn checksum_of_zero_may_be_right() {
    let ip_repr = IpRepr::Ipv4(Ipv4Repr {
        src_addr: Ipv4Address::new(0x3a, 0xda, 0, 0),
        dst_addr: Ipv4Address::new(0, 0, 0, 0),
        ..ipv4_repr(0)
    });
    let mut cx = context(Checksum::Rx);
    let mut socket = unbound(64);
    socket.process(&mut cx, &ip_repr, &[]);
    let packet = socket.recv().unwrap().to_vec();
    assert_eq!(packet[10..12], [0, 0]);
    assert_eq!(socket.send_slice(&packet), Ok(()));
    let mut sent = None;
    let res = socket.dispatch(&mut cx, |_, (sent_repr, _)| {
        sent = Some(sent_repr);
        Ok::<_, ()>(())
    });
    assert_eq!(res, Ok(()));
    assert_eq!(sent, Some(ip_repr));
}

#[test]
fn retry_sends_the_same() {
    let mut socket = unbound(64);
    let mut cx = context(Checksum::Both);
    let mut packet = vec![0; 22];
    let caps = ChecksumCapabilities {
        ipv4: Checksum::Ignored,
    };
    ipv4_repr(2).emit(&mut packet[..20], &caps);
    assert_eq!(packet[10..12], [0, 0]);
    assert_eq!(socket.send_slice(&packet), Ok(()));
    for error in [1, 2] {
        let res = socket.dispatch(&mut cx, |_, (ip_repr, payload)| {
            assert_eq!(ip_repr, IpRepr::Ipv4(ipv4_repr(2)));
            assert_eq!(payload, &[0, 0]);
            Err(error)
        });
        assert_eq!(res, Err(error));
        assert_eq!(socket.send_queue(), 22);
    }
}

#[test]
fn emit_may_change_the_context() {
    let mut socket = unbound(64);
    let mut cx = context(Checksum::Both);
    let mut packet = vec![0; 40];
    ipv6_repr(0).emit(&mut packet);
    assert_eq!(socket.send_slice(&packet), Ok(()));
    let res = socket.dispatch(&mut cx, |cx, _| {
        cx.checksum_caps.ipv4 = Checksum::Tx;
        Ok::<_, ()>(())
    });
    assert_eq!(res, Ok(()));
    assert_eq!(cx, context(Checksum::Tx));
}

#[test]
fn header_states_low_bits_of_length() {
    let caps = ChecksumCapabilities {
        ipv4: Checksum::Ignored,
    };
    let mut header = [0xff; 20];
    ipv4_repr(0x10000 - 20 + 5).emit(&mut header, &caps);
    assert_eq!(header[2..4], [0, 5]);
    let mut header = [0xff; 40];
    ipv6_repr(0x10203).emit(&mut header);
    assert_eq!(header[4..6], [2, 3]);
}

#[test]
fn checksum_has_known_values() {
    assert_eq!(checksum::data(&[]), 0);
    assert_eq!(checksum::data(&[0, 0, 0, 0]), 0);
    assert_eq!(checksum::data(&[0x12]), 0x1200);
    assert_eq!(checksum::data(&[0xff, 0xff, 0x00, 0x01]), 1);
    assert_eq!(checksum::data(&[0xff, 0xff, 0xff, 0xff]), 0xffff);
    let mut header = [
        0x45, 0x00, 0x00, 0x73, 0x00, 0x00, 0x40, 0x00, 0x40, 0x11, 0x00, 0x00, 0xc0, 0xa8, 0x00,
        0x01, 0xc0, 0xa8, 0x00, 0xc7,
    ];
    assert_eq!(checksum::data(&header), 0x479e);
    let mut packet = vec![0; 0x73];
    packet[..20].copy_from_slice(&header);
    assert!(!ipv4::verify_checksum(&packet));
    ipv4::fill_checksum(&mut packet);
    assert_eq!(packet[10..12], [0xb8, 0x61]);
    assert!(ipv4::verify_checksum(&packet));
    let filled = packet.clone();
    ipv4::fill_checksum(&mut packet);
    assert_eq!(packet, filled);
    header[10..12].copy_from_slice(&[0xb8, 0x61]);
    let mut emitted = [0; 20];
    let caps = ChecksumCapabilities {
        ipv4: Checksum::Tx,
    };
    ipv4_repr(0x73 - 20).emit(&mut emitted, &caps);
    assert_eq!(emitted, header);
    ipv4::stamp(&mut packet, &context(Checksum::Rx).checksum_caps());
    assert_eq!(packet[10..12], [0, 0]);
}

#[test]
fn headers_are_parsed() {
    let caps = ChecksumCapabilities {
        ipv4: Checksum::Both,
    };
    let mut packet = vec![0; 24];
    ipv4_repr(4).emit(&mut packet[..20], &caps);
    assert_eq!(Ipv4Repr::parse(&packet, &caps), Ok(ipv4_repr(4)));
    packet[11] ^= 1;
    assert_eq!(Ipv4Repr::parse(&packet, &caps), Err(Error));
    let mut packet = vec![0; 44];
    ipv6_repr(4).emit(&mut packet[..40]);
    assert_eq!(Ipv6Repr::parse(&packet), Ok(ipv6_repr(4)));
    assert!(ipv6::check_len(&packet));
    assert!(!ipv6::check_len(&packet[..43]));
    assert_eq!(Ipv6Repr::parse(&packet[..43]), Err(Error));
    packet[0] = 0x50;
    assert_eq!(Ipv6Repr::parse(&packet), Err(Error));
    assert_eq!(IpVersion::of_packet(&packet), Err(Error));
    assert_eq!(IpVersion::of_packet(&[]), Err(Error));
    assert_eq!(IpVersion::of_packet(&[0x4f]), Ok(IpVersion::Ipv4));
    assert_eq!(IpVersion::of_packet(&[0x60]), Ok(IpVersion::Ipv6));
}

#[test]
fn protocol_numbers_round_trip() {
    for number in 0..=255 {
        assert_eq!(u8::from(IpProtocol::from(number)), number);
    }
    assert_eq!(IpProtocol::from(0x3a), IpProtocol::Icmpv6);
    assert_eq!(IpProtocol::from(0x3f), IpProtocol::Unknown(0x3f));
    assert_ne!(IpProtocol::Unknown(6), IpProtocol::Tcp);
}

#[test]
fn receiver_is_woken_once() {
    let mut socket = unbound(64);
    let mut cx = context(Checksum::Both);
    let (earlier, earlier_waker) = Count::new();
    let (later, later_waker) = Count::new();
    socket.register_recv_waker(&earlier_waker);
    socket.register_recv_waker(&later_waker);
    assert_eq!((earlier.get(), later.get()), (0, 0));
    socket.process(&mut cx, &IpRepr::Ipv4(ipv4_repr(0)), &[]);
    assert_eq!((earlier.get(), later.get()), (0, 1));
    socket.process(&mut cx, &IpRepr::Ipv4(ipv4_repr(0)), &[]);
    assert_eq!((earlier.get(), later.get()), (0, 1));
    // A packet that finds no room wakes as well.
    socket.register_recv_waker(&later_waker);
    socket.process(&mut cx, &IpRepr::Ipv4(ipv4_repr(0)), &[0; 65]);
    assert_eq!((earlier.get(), later.get()), (0, 2));
    assert_eq!(socket.recv_queue(), 40);
}

#[test]
fn sender_is_woken_when_a_packet_goes() {
    let mut socket = unbound(64);
    let mut cx = context(Checksum::Both);
    let (count, waker) = Count::new();
    socket.register_send_waker(&waker);
    let nothing = socket.dispatch(&mut cx, |_, _| unreachable!());
    assert_eq!(nothing, Ok::<_, ()>(()));
    assert_eq!(count.get(), 0);
    let mut packet = vec![0; 40];
    ipv6_repr(0).emit(&mut packet);
    assert_eq!(socket.send_slice(&packet), Ok(()));
    assert_eq!(socket.dispatch(&mut cx, |_, _| Err(())), Err(()));
    assert_eq!(count.get(), 0);
    assert_eq!(socket.dispatch(&mut cx, |_, _| Ok::<_, ()>(())), Ok(()));
    assert_eq!(count.get(), 1);
    socket.register_send_waker(&waker);
    assert_eq!(socket.send_slice(&[0]), Ok(()));
    let dropped = socket.dispatch(&mut cx, |_, _| unreachable!());
    assert_eq!(dropped, Ok::<_, ()>(()));
    assert_eq!(count.get(), 2);
}

#[test]
fn errors_have_messages() {
    assert_eq!(BindError::InvalidState.to_string(), "invalid state");
    assert_eq!(BindError::Unaddressable.to_string(), "unaddressable");
    assert_eq!(SendError::BufferFull.to_string(), "buffer full");
    assert_eq!(RecvError::Exhausted.to_string(), "exhausted");
    assert_eq!(RecvError::Truncated.to_string(), "truncated");
}
