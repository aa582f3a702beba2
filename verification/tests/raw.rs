use raw_socket::iface::Context;
use raw_socket::phy::{Checksum, ChecksumCapabilities};
use raw_socket::socket::raw::{RecvError, SendError, Socket};
use raw_socket::storage::{PacketBuffer, PacketMetadata, Storage};
use raw_socket::wire::{
    ipv4, IpProtocol, IpRepr, IpVersion, Ipv4Address, Ipv4Repr, Ipv6Address, Ipv6Repr,
};

const IP_PROTO: u8 = 63;

const IPV4_PACKET_BYTES: [u8; 24] = [
    0x45, 0x00, 0x00, 0x18, 0x00, 0x00, 0x40, 0x00, 0x40, 0x3f, 0x00, 0x00, 0x0a, 0x00, 0x00, 0x01,
    0x0a, 0x00, 0x00, 0x02, 0xaa, 0x00, 0x00, 0xff,
];

const IPV6_PACKET_BYTES: [u8; 44] = [
    0x60, 0x00, 0x00, 0x00, 0x00, 0x04, 0x3f, 0x40, 0xfe, 0x80, 0x00, 0x00, 0x00, 0x00, 0x00, 0x00,
    0x00, 0x00, 0x00, 0x00, 0x00, 0x00, 0x00, 0x01, 0xfe, 0x80, 0x00, 0x00, 0x00, 0x00, 0x00, 0x00,
    0x00, 0x00, 0x00, 0x00, 0x00, 0x00, 0x00, 0x02, 0xaa, 0x00, 0x00, 0xff,
];

const PACKET_PAYLOAD: [u8; 4] = [0xaa, 0x00, 0x00, 0xff];

fn context() -> Context {
    Context::new(ChecksumCapabilities {
        ipv4: Checksum::Both,
    })
}

fn buffer(packets: usize) -> PacketBuffer<'static> {
    PacketBuffer::new(
        Storage::Owned(vec![PacketMetadata::empty(); packets]),
        Storage::Owned(vec![0; 48 * packets]),
    )
}

fn ipv4_socket(
    rx_buffer: PacketBuffer<'static>,
    tx_buffer: PacketBuffer<'static>,
) -> Socket<'static> {
    Socket::new(
        Some(IpVersion::Ipv4),
        Some(IpProtocol::Unknown(IP_PROTO)),
        rx_buffer,
        tx_buffer,
    )
}

fn ipv6_socket(
    rx_buffer: PacketBuffer<'static>,
    tx_buffer: PacketBuffer<'static>,
) -> Socket<'static> {
    Socket::new(
        Some(IpVersion::Ipv6),
        Some(IpProtocol::Unknown(IP_PROTO)),
        rx_buffer,
        tx_buffer,
    )
}

fn ipv4_header(next_header: IpProtocol) -> IpRepr {
    IpRepr::Ipv4(Ipv4Repr {
        src_addr: Ipv4Address::new(10, 0, 0, 1),
        dst_addr: Ipv4Address::new(10, 0, 0, 2),
        next_header,
        payload_len: 4,
        hop_limit: 64,
    })
}

fn ipv6_header(next_header: IpProtocol) -> IpRepr {
    IpRepr::Ipv6(Ipv6Repr {
        src_addr: Ipv6Address::new(0xfe80, 0, 0, 0, 0, 0, 0, 1),
        dst_addr: Ipv6Address::new(0xfe80, 0, 0, 0, 0, 0, 0, 2),
        next_header,
        payload_len: 4,
        hop_limit: 64,
    })
}

fn ipv4_header_repr() -> IpRepr {
    ipv4_header(IpProtocol::Unknown(IP_PROTO))
}

fn ipv6_header_repr() -> IpRepr {
    ipv6_header(IpProtocol::Unknown(IP_PROTO))
}

fn check_send_truncated(mut socket: Socket<'static>) {
    assert_eq!(socket.send_slice(&[0; 56][..]), Err(SendError::BufferFull));
}

#[test]
fn test_send_truncated_ipv4() {
    check_send_truncated(ipv4_socket(buffer(0), buffer(1)));
}

#[test]
fn test_send_truncated_ipv6() {
    check_send_truncated(ipv6_socket(buffer(0), buffer(1)));
}

fn check_send_dispatch(mut socket: Socket<'static>, header: IpRepr, packet: &[u8]) {
    let mut cx = context();

    assert!(socket.can_send());
    assert_eq!(
        socket.dispatch(&mut cx, |_, _| unreachable!()),
        Ok::<_, ()>(())
    );

    assert_eq!(socket.send_slice(packet), Ok(()));
    assert_eq!(socket.send_slice(b""), Err(SendError::BufferFull));
    assert!(!socket.can_send());

    assert_eq!(
        socket.dispatch(&mut cx, |_, (ip_repr, ip_payload)| {
            assert_eq!(ip_repr, header);
            assert_eq!(ip_payload, &PACKET_PAYLOAD);
            Err(())
        }),
        Err(())
    );
    assert!(!socket.can_send());

    assert_eq!(
        socket.dispatch(&mut cx, |_, (ip_repr, ip_payload)| {
            assert_eq!(ip_repr, header);
            assert_eq!(ip_payload, &PACKET_PAYLOAD);
            Ok::<_, ()>(())
        }),
        Ok(())
    );
    assert!(socket.can_send());
}

#[test]
fn test_send_dispatch_ipv4() {
    check_send_dispatch(
        ipv4_socket(buffer(0), buffer(1)),
        ipv4_header_repr(),
        &IPV4_PACKET_BYTES,
    );
}

#[test]
fn test_send_dispatch_ipv6() {
    check_send_dispatch(
        ipv6_socket(buffer(0), buffer(1)),
        ipv6_header_repr(),
        &IPV6_PACKET_BYTES,
    );
}

fn check_recv_truncated_slice(mut socket: Socket<'static>, header: IpRepr) {
    let mut cx = context();

    assert!(socket.accepts(&header));
    socket.process(&mut cx, &header, &PACKET_PAYLOAD);

    let mut slice = [0; 4];
    assert_eq!(
        socket.recv_slice(&mut slice[..]),
        Err(RecvError::Truncated)
    );
    assert_eq!(slice, [0; 4]);
    assert_eq!(
        socket.recv_slice(&mut slice[..]),
        Err(RecvError::Exhausted)
    );
}

#[test]
fn test_recv_truncated_slice_ipv4() {
    check_recv_truncated_slice(ipv4_socket(buffer(1), buffer(0)), ipv4_header_repr());
}

#[test]
fn test_recv_truncated_slice_ipv6() {
    check_recv_truncated_slice(ipv6_socket(buffer(1), buffer(0)), ipv6_header_repr());
}

fn check_recv_truncated_packet(mut socket: Socket<'static>, header: IpRepr, packet: &[u8]) {
    let mut cx = context();

    let mut buffer = vec![0; 128];
    buffer[..packet.len()].copy_from_slice(packet);

    assert!(socket.accepts(&header));
    socket.process(&mut cx, &header, &buffer);
    assert!(!socket.can_recv());
}

#[test]
fn test_recv_truncated_packet_ipv4() {
    check_recv_truncated_packet(
        ipv4_socket(buffer(1), buffer(0)),
        ipv4_header_repr(),
        &IPV4_PACKET_BYTES,
    );
}

#[test]
fn test_recv_truncated_packet_ipv6() {
    check_recv_truncated_packet(
        ipv6_socket(buffer(1), buffer(0)),
        ipv6_header_repr(),
        &IPV6_PACKET_BYTES,
    );
}

fn check_peek_truncated_slice(mut socket: Socket<'static>, header: IpRepr) {
    let mut cx = context();

    assert!(socket.accepts(&header));
    socket.process(&mut cx, &header, &PACKET_PAYLOAD);

    let mut slice = [0; 4];
    assert_eq!(
        socket.peek_slice(&mut slice[..]),
        Err(RecvError::Truncated)
    );
    assert_eq!(
        socket.recv_slice(&mut slice[..]),
        Err(RecvError::Truncated)
    );
    assert_eq!(
        socket.peek_slice(&mut slice[..]),
        Err(RecvError::Exhausted)
    );
}

#[test]
fn test_peek_truncated_slice_ipv4() {
    check_peek_truncated_slice(ipv4_socket(buffer(1), buffer(0)), ipv4_header_repr());
}

#[test]
fn test_peek_truncated_slice_ipv6() {
    check_peek_truncated_slice(ipv6_socket(buffer(1), buffer(0)), ipv6_header_repr());
}

#[test]
fn test_send_illegal() {
    let mut cx = context();
    {
        let mut socket = ipv4_socket(buffer(0), buffer(2));

        let mut wrong_version = IPV4_PACKET_BYTES;
        wrong_version[0] = 0x65;

        assert_eq!(socket.send_slice(&wrong_version[..]), Ok(()));
        assert_eq!(
            socket.dispatch(&mut cx, |_, _| unreachable!()),
            Ok::<_, ()>(())
        );

        let mut wrong_protocol = IPV4_PACKET_BYTES;
        wrong_protocol[9] = u8::from(IpProtocol::Tcp);

        assert_eq!(socket.send_slice(&wrong_protocol[..]), Ok(()));
        assert_eq!(
            socket.dispatch(&mut cx, |_, _| unreachable!()),
            Ok::<_, ()>(())
        );
        assert_eq!(socket.send_queue(), 0);
    }
    {
        let mut socket = ipv6_socket(buffer(0), buffer(2));

        let mut wrong_version = IPV6_PACKET_BYTES;
        wrong_version[0] = 0x40;

        assert_eq!(socket.send_slice(&wrong_version[..]), Ok(()));
        assert_eq!(
            socket.dispatch(&mut cx, |_, _| unreachable!()),
            Ok::<_, ()>(())
        );

        let mut wrong_protocol = IPV6_PACKET_BYTES;
        wrong_protocol[6] = u8::from(IpProtocol::Tcp);

        assert_eq!(socket.send_slice(&wrong_protocol[..]), Ok(()));
        assert_eq!(
            socket.dispatch(&mut cx, |_, _| unreachable!()),
            Ok::<_, ()>(())
        );
        assert_eq!(socket.send_queue(), 0);
    }
}

#[test]
fn test_recv_process() {
    let mut cx = context();
    {
        let mut socket = ipv4_socket(buffer(1), buffer(0));
        assert!(!socket.can_recv());

        let mut cksumd_packet = IPV4_PACKET_BYTES;
        ipv4::fill_checksum(&mut cksumd_packet);

        assert_eq!(socket.recv(), Err(RecvError::Exhausted));
        assert!(socket.accepts(&ipv4_header_repr()));
        socket.process(&mut cx, &ipv4_header_repr(), &PACKET_PAYLOAD);
        assert!(socket.can_recv());

        assert!(socket.accepts(&ipv4_header_repr()));
        socket.process(&mut cx, &ipv4_header_repr(), &PACKET_PAYLOAD);
        assert_eq!(socket.recv(), Ok(&cksumd_packet[..]));
        assert!(!socket.can_recv());
    }
    {
        let mut socket = ipv6_socket(buffer(1), buffer(0));
        assert!(!socket.can_recv());

        assert_eq!(socket.recv(), Err(RecvError::Exhausted));
        assert!(socket.accepts(&ipv6_header_repr()));
        socket.process(&mut cx, &ipv6_header_repr(), &PACKET_PAYLOAD);
        assert!(socket.can_recv());

        assert!(socket.accepts(&ipv6_header_repr()));
        socket.process(&mut cx, &ipv6_header_repr(), &PACKET_PAYLOAD);
        assert_eq!(socket.recv(), Ok(&IPV6_PACKET_BYTES[..]));
        assert!(!socket.can_recv());
    }
}

#[test]
fn test_peek_process() {
    let mut cx = context();
    {
        let mut socket = ipv4_socket(buffer(1), buffer(0));

        let mut cksumd_packet = IPV4_PACKET_BYTES;
        ipv4::fill_checksum(&mut cksumd_packet);

        assert_eq!(socket.peek(), Err(RecvError::Exhausted));
        assert!(socket.accepts(&ipv4_header_repr()));
        socket.process(&mut cx, &ipv4_header_repr(), &PACKET_PAYLOAD);

        assert!(socket.accepts(&ipv4_header_repr()));
        socket.process(&mut cx, &ipv4_header_repr(), &PACKET_PAYLOAD);
        assert_eq!(socket.peek(), Ok(&cksumd_packet[..]));
        assert_eq!(socket.recv(), Ok(&cksumd_packet[..]));
        assert_eq!(socket.peek(), Err(RecvError::Exhausted));
    }
    {
        let mut socket = ipv6_socket(buffer(1), buffer(0));

        assert_eq!(socket.peek(), Err(RecvError::Exhausted));
        assert!(socket.accepts(&ipv6_header_repr()));
        socket.process(&mut cx, &ipv6_header_repr(), &PACKET_PAYLOAD);

        assert!(socket.accepts(&ipv6_header_repr()));
        socket.process(&mut cx, &ipv6_header_repr(), &PACKET_PAYLOAD);
        assert_eq!(socket.peek(), Ok(&IPV6_PACKET_BYTES[..]));
        assert_eq!(socket.recv(), Ok(&IPV6_PACKET_BYTES[..]));
        assert_eq!(socket.peek(), Err(RecvError::Exhausted));
    }
}

#[test]
fn test_doesnt_accept_wrong_proto() {
    {
        let socket = Socket::new(
            Some(IpVersion::Ipv4),
            Some(IpProtocol::Unknown(IP_PROTO + 1)),
            buffer(1),
            buffer(1),
        );
        assert!(!socket.accepts(&ipv4_header_repr()));
        assert!(!socket.accepts(&ipv6_header_repr()));
    }
    {
        let socket = Socket::new(
            Some(IpVersion::Ipv6),
            Some(IpProtocol::Unknown(IP_PROTO + 1)),
            buffer(1),
            buffer(1),
        );
        assert!(!socket.accepts(&ipv6_header_repr()));
        assert!(!socket.accepts(&ipv4_header_repr()));
    }
}

fn check_dispatch(socket: &mut Socket<'_>, cx: &mut Context) {
    // Check dispatch returns Ok(()) and calls the emit closure
    let mut emitted = false;
    assert_eq!(
        socket.dispatch(cx, |_, _| {
            emitted = true;
            Ok(())
        }),
        Ok::<_, ()>(())
    );
    assert!(emitted);
}

#[test]
fn test_unfiltered_sends_all() {
    // Test a single unfiltered socket can send packets with different IP versions and next
    // headers
    let mut socket = Socket::new(None, None, buffer(0), buffer(2));
    let mut cx = context();
    {
        let mut udp_packet = IPV4_PACKET_BYTES;
        udp_packet[9] = u8::from(IpProtocol::Udp);

        assert_eq!(socket.send_slice(&udp_packet), Ok(()));
        check_dispatch(&mut socket, &mut cx);

        let mut tcp_packet = IPV4_PACKET_BYTES;
        tcp_packet[9] = u8::from(IpProtocol::Tcp);

        assert_eq!(socket.send_slice(&tcp_packet[..]), Ok(()));
        check_dispatch(&mut socket, &mut cx);
    }
    {
        assert_eq!(socket.send_slice(&IPV6_PACKET_BYTES), Ok(()));
        check_dispatch(&mut socket, &mut cx);

        let mut tcp_packet = IPV6_PACKET_BYTES;
        tcp_packet[6] = u8::from(IpProtocol::Tcp);

        assert_eq!(socket.send_slice(&tcp_packet[..]), Ok(()));
        check_dispatch(&mut socket, &mut cx);
    }
}

fn check_unfiltered_accepts(proto: IpProtocol) {
    // Test an unfiltered socket can accept packets with different IP versions and next headers
    let socket = Socket::new(None, None, buffer(0), buffer(0));
    assert!(socket.accepts(&ipv4_header(proto)));
    assert!(socket.accepts(&ipv6_header(proto)));
}

#[test]
fn test_unfiltered_accepts_all_icmp() {
    check_unfiltered_accepts(IpProtocol::Icmp);
}

#[test]
fn test_unfiltered_accepts_all_tcp() {
    check_unfiltered_accepts(IpProtocol::Tcp);
}

#[test]
fn test_unfiltered_accepts_all_udp() {
    check_unfiltered_accepts(IpProtocol::Udp);
}
