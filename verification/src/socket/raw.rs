//! Raw IP sockets.

use core::task::Waker;

use vstd::prelude::*;

use crate::iface::Context;
use crate::octets;
use crate::phy::ChecksumCapabilities;
use crate::socket::{PollAt, WakerRegistration};
use crate::storage::packet_queue;
use crate::storage::packet_queue::PacketQueue;
use crate::storage::{Empty, Full};
use crate::wire::{ip, ipv4, ipv6};
use crate::wire::{IpProtocol, IpRepr, IpVersion, Ipv4Repr, Ipv6Repr};

pub use crate::storage::{PacketBuffer, PacketMetadata};

verus! {

/// Error returned when a socket cannot be bound.
#[derive(Debug, PartialEq, Eq, Clone, Copy, Structural)]
pub enum BindError {
    InvalidState,
    Unaddressable,
}

impl BindError {
    /// What the error says.
    pub open spec fn message(self) -> Seq<char> {
        match self {
            BindError::InvalidState => "invalid state"@,
            BindError::Unaddressable => "unaddressable"@,
        }
    }

    /// Return what the error says.
    pub fn to_string(&self) -> (text: String)
        ensures
            text@ == self.message(),
    {
        match self {
            BindError::InvalidState => "invalid state".to_owned(),
            BindError::Unaddressable => "unaddressable".to_owned(),
        }
    }
}

/// Error returned by [`Socket::send`]
#[derive(Debug, PartialEq, Eq, Clone, Copy, Structural)]
pub enum SendError {
    BufferFull,
}

impl SendError {
    /// What the error says.
    pub open spec fn message(self) -> Seq<char> {
        match self {
            SendError::BufferFull => "buffer full"@,
        }
    }

    /// Return what the error says.
    pub fn to_string(&self) -> (text: String)
        ensures
            text@ == self.message(),
    {
        match self {
            SendError::BufferFull => "buffer full".to_owned(),
        }
    }
}

/// Error returned by [`Socket::recv`]
#[derive(Debug, PartialEq, Eq, Clone, Copy, Structural)]
pub enum RecvError {
    Exhausted,
    Truncated,
}

impl RecvError {
    /// What the error says.
    pub open spec fn message(self) -> Seq<char> {
        match self {
            RecvError::Exhausted => "exhausted"@,
            RecvError::Truncated => "truncated"@,
        }
    }

    /// Return what the error says.
    pub fn to_string(&self) -> (text: String)
        ensures
            text@ == self.message(),
    {
        match self {
            RecvError::Exhausted => "exhausted".to_owned(),
            RecvError::Truncated => "truncated".to_owned(),
        }
    }
}

/// Whether a filter lets a value through: one that is not set lets every value through.
pub open spec fn lets_through<T>(filter: Option<T>, value: T) -> bool {
    filter is Some ==> filter == Some(value)
}

/// What is sent for a packet that was queued: the representation of its header and its
/// payload. There is nothing to send for octets that are no IP packet, and for a packet
/// that the filters do not let through.
pub open spec fn outgoing(
    ip_version: Option<IpVersion>,
    ip_protocol: Option<IpProtocol>,
    packet: Seq<u8>,
    caps: ChecksumCapabilities,
) -> Option<(IpRepr, Seq<u8>)> {
    match ip::version(packet) {
        Some(IpVersion::Ipv4) if {
            &&& lets_through(ip_version, IpVersion::Ipv4)
            &&& ipv4::complete(packet)
            &&& lets_through(ip_protocol, ipv4::next_header(packet))
            &&& ipv4::valid(ipv4::stamped(packet, caps), caps)
        } => Some(
            (
                IpRepr::Ipv4(ipv4::described(ipv4::stamped(packet, caps))),
                ipv4::payload(ipv4::stamped(packet, caps)),
            ),
        ),
        Some(IpVersion::Ipv6) if {
            &&& lets_through(ip_version, IpVersion::Ipv6)
            &&& ipv6::complete(packet)
            &&& lets_through(ip_protocol, ipv6::next_header(packet))
        } => Some((IpRepr::Ipv6(ipv6::described(packet)), ipv6::payload(packet))),
        _ => None,
    }
}

/// The octets of a packet as they are sent.
pub open spec fn rewritten(packet: Seq<u8>, caps: ChecksumCapabilities) -> Seq<u8> {
    if ip::version(packet) == Some(IpVersion::Ipv4) {
        ipv4::stamped(packet, caps)
    } else {
        packet
    }
}

/// Bring a packet that was queued into the form in which it is sent, and find out what is
/// sent for it: the representation of its header, and where its payload starts and ends.
fn prepare(
    ip_version: Option<IpVersion>,
    ip_protocol: Option<IpProtocol>,
    packet: &mut [u8],
    caps: &ChecksumCapabilities,
) -> (res: Option<(IpRepr, usize, usize)>)
    ensures
        final(packet)@.len() == old(packet)@.len(),
        match outgoing(ip_version, ip_protocol, old(packet)@, *caps) {
            None => res is None,
            Some((repr, payload)) => {
                &&& res matches Some((ip_repr, start, end)) && {
                    &&& ip_repr == repr
                    &&& start <= end <= final(packet)@.len()
                    &&& final(packet)@.subrange(start as int, end as int) == payload
                }
                &&& final(packet)@ == rewritten(old(packet)@, *caps)
            },
        },
{
    match IpVersion::of_packet(packet) {
        Ok(IpVersion::Ipv4) => {
            if let Some(version) = ip_version {
                if version != IpVersion::Ipv4 {
                    return None;
                }
            }
            if !ipv4::check_len(packet) {
                return None;
            }
            if let Some(next_header) = ip_protocol {
                if next_header != IpProtocol::from(packet[9]) {
                    return None;
                }
            }
            ipv4::stamp(packet, caps);
            match Ipv4Repr::parse(packet, caps) {
                Ok(ipv4_repr) => {
                    let start: usize = (packet[0] % 16) as usize * 4;
                    let end: usize = packet[2] as usize * 256 + packet[3] as usize;
                    Some((IpRepr::Ipv4(ipv4_repr), start, end))
                },
                Err(_) => None,
            }
        },
        Ok(IpVersion::Ipv6) => {
            if let Some(version) = ip_version {
                if version != IpVersion::Ipv6 {
                    return None;
                }
            }
            if !ipv6::check_len(packet) {
                return None;
            }
            if let Some(next_header) = ip_protocol {
                if next_header != IpProtocol::from(packet[6]) {
                    return None;
                }
            }
            match Ipv6Repr::parse(packet) {
                Ok(ipv6_repr) => {
                    let end: usize = ipv6::HEADER_LEN + ipv6_repr.payload_len;
                    Some((IpRepr::Ipv6(ipv6_repr), ipv6::HEADER_LEN, end))
                },
                Err(_) => None,
            }
        },
        Err(_) => None,
    }
}

/// The state of a socket.
#[verifier::ext_equal]
pub struct SocketState {
    /// The version that the socket is bound to.
    pub ip_version: Option<IpVersion>,
    /// The protocol that the socket is bound to.
    pub ip_protocol: Option<IpProtocol>,
    /// The packets that were received.
    pub rx: PacketQueue,
    /// The packets that are to be sent.
    pub tx: PacketQueue,
    /// The waker for receive operations.
    pub rx_waker: Option<Waker>,
    /// The waker for send operations.
    pub tx_waker: Option<Waker>,
    /// The wakers that were woken because of receive operations.
    pub rx_woken: Seq<Waker>,
    /// The wakers that were woken because of send operations.
    pub tx_woken: Seq<Waker>,
}

impl SocketState {
    /// Whether the socket is bound to what the packet is.
    pub open spec fn accepts(self, ip_repr: IpRepr) -> bool {
        &&& lets_through(self.ip_version, ip_repr.version_spec())
        &&& lets_through(self.ip_protocol, ip_repr.next_header_spec())
    }

    /// The waker for receive operations is woken, if there is one, and is there no more.
    pub open spec fn wake_rx(self) -> SocketState {
        SocketState {
            rx_waker: None,
            rx_woken: match self.rx_waker {
                Some(waker) => self.rx_woken.push(waker),
                None => self.rx_woken,
            },
            ..self
        }
    }

    /// The waker for send operations is woken, if there is one, and is there no more.
    pub open spec fn wake_tx(self) -> SocketState {
        SocketState {
            tx_waker: None,
            tx_woken: match self.tx_waker {
                Some(waker) => self.tx_woken.push(waker),
                None => self.tx_woken,
            },
            ..self
        }
    }

    /// A packet arrives: it is queued if it finds room, and dropped otherwise.
    pub open spec fn receive(self, packet: Seq<u8>) -> SocketState {
        let rx = if self.rx.accommodates(packet.len()) {
            self.rx.enqueue(packet.len(), packet)
        } else {
            self.rx
        };
        SocketState { rx, ..self }.wake_rx()
    }

    /// The oldest packet that is to be sent goes, sent or dropped.
    pub open spec fn sent(self) -> SocketState {
        SocketState { tx: self.tx.dequeue(), ..self }.wake_tx()
    }
}

/// A raw IP socket.
///
/// A raw socket may be bound to a specific IP protocol, and owns
/// transmit and receive packet buffers.
pub struct Socket<'a> {
    ip_version: Option<IpVersion>,
    ip_protocol: Option<IpProtocol>,
    rx_buffer: PacketBuffer<'a>,
    tx_buffer: PacketBuffer<'a>,
    rx_waker: WakerRegistration,
    tx_waker: WakerRegistration,
}

impl<'a> View for Socket<'a> {
    type V = SocketState;

    closed spec fn view(&self) -> SocketState {
        SocketState {
            ip_version: self.ip_version,
            ip_protocol: self.ip_protocol,
            rx: self.rx_buffer@,
            tx: self.tx_buffer@,
            rx_waker: self.rx_waker.registered(),
            tx_waker: self.tx_waker.registered(),
            rx_woken: self.rx_waker.woken(),
            tx_woken: self.tx_waker.woken(),
        }
    }
}

impl<'a> Socket<'a> {
    /// The buffers of the socket are well formed.
    pub closed spec fn wf(&self) -> bool {
        &&& self.rx_buffer.wf()
        &&& self.tx_buffer.wf()
    }

    /// What a well-formed socket holds is well formed.
    pub proof fn lemma_wf(&self)
        requires
            self.wf(),
        ensures
            self@.rx.wf(),
            self@.tx.wf(),
    {
        self.rx_buffer.lemma_wf();
        self.tx_buffer.lemma_wf();
    }

    /// Create a raw IP socket bound to the given IP version and datagram protocol,
    /// with the given buffers.
    pub fn new(
        ip_version: Option<IpVersion>,
        ip_protocol: Option<IpProtocol>,
        rx_buffer: PacketBuffer<'a>,
        tx_buffer: PacketBuffer<'a>,
    ) -> (socket: Socket<'a>)
        requires
            rx_buffer.wf(),
            tx_buffer.wf(),
        ensures
            socket.wf(),
            socket@ == (SocketState {
                ip_version,
                ip_protocol,
                rx: rx_buffer@,
                tx: tx_buffer@,
                rx_waker: None,
                tx_waker: None,
                rx_woken: Seq::empty(),
                tx_woken: Seq::empty(),
            }),
    {
        Socket {
            ip_version,
            ip_protocol,
            rx_buffer,
            tx_buffer,
            rx_waker: WakerRegistration::new(),
            tx_waker: WakerRegistration::new(),
        }
    }

    /// Register a waker for receive operations.
    ///
    /// The waker is woken on state changes that might affect the return value
    /// of `recv` method calls, such as receiving data, or the socket closing.
    ///
    /// Notes:
    ///
    /// - Only one waker can be registered at a time. If another waker was previously registered,
    ///   it is overwritten and will no longer be woken.
    /// - The Waker is woken only once. Once woken, you must register it again to receive more
    ///   wakes.
    /// - "Spurious wakes" are allowed: a wake doesn't guarantee the result of `recv` has
    ///   necessarily changed.
    pub fn register_recv_waker(&mut self, waker: &Waker)
        requires
            old(self).wf(),
        ensures
            final(self).wf(),
            final(self)@ == (SocketState { rx_waker: Some(*waker), ..old(self)@ }),
    {
        self.rx_waker.register(waker);
    }

    /// Register a waker for send operations.
    ///
    /// The waker is woken on state changes that might affect the return value
    /// of `send` method calls, such as space becoming available in the transmit
    /// buffer, or the socket closing.
    ///
    /// Notes:
    ///
    /// - Only one waker can be registered at a time. If another waker was previously registered,
    ///   it is overwritten and will no longer be woken.
    /// - The Waker is woken only once. Once woken, you must register it again to receive more
    ///   wakes.
    /// - "Spurious wakes" are allowed: a wake doesn't guarantee the result of `send` has
    ///   necessarily changed.
    pub fn register_send_waker(&mut self, waker: &Waker)
        requires
            old(self).wf(),
        ensures
            final(self).wf(),
            final(self)@ == (SocketState { tx_waker: Some(*waker), ..old(self)@ }),
    {
        self.tx_waker.register(waker);
    }

    /// Return the IP version the socket is bound to.
    pub fn ip_version(&self) -> (ip_version: Option<IpVersion>)
        ensures
            ip_version == self@.ip_version,
    {
        self.ip_version
    }

    /// Return the IP protocol the socket is bound to.
    pub fn ip_protocol(&self) -> (ip_protocol: Option<IpProtocol>)
        ensures
            ip_protocol == self@.ip_protocol,
    {
        self.ip_protocol
    }

    /// Check whether the transmit buffer is not full.
    pub fn can_send(&self) -> (can_send: bool)
        requires
            self.wf(),
        ensures
            can_send == (self@.tx.entries.len() < self@.tx.packet_capacity),
    {
        proof {
            self.lemma_wf();
        }
        !self.tx_buffer.is_full()
    }

    /// Check whether the receive buffer is not empty.
    pub fn can_recv(&self) -> (can_recv: bool)
        requires
            self.wf(),
        ensures
            can_recv == (self@.rx.packets().len() > 0),
    {
        !self.rx_buffer.is_empty()
    }

    /// Return the maximum number packets the socket can receive.
    pub fn packet_recv_capacity(&self) -> (capacity: usize)
        ensures
            capacity == self@.rx.packet_capacity,
    {
        self.rx_buffer.packet_capacity()
    }

    /// Return the maximum number packets the socket can transmit.
    pub fn packet_send_capacity(&self) -> (capacity: usize)
        ensures
            capacity == self@.tx.packet_capacity,
    {
        self.tx_buffer.packet_capacity()
    }

    /// Return the maximum number of bytes inside the recv buffer.
    pub fn payload_recv_capacity(&self) -> (capacity: usize)
        ensures
            capacity == self@.rx.payload_capacity,
    {
        self.rx_buffer.payload_capacity()
    }

    /// Return the maximum number of bytes inside the transmit buffer.
    pub fn payload_send_capacity(&self) -> (capacity: usize)
        ensures
            capacity == self@.tx.payload_capacity,
    {
        self.tx_buffer.payload_capacity()
    }

    /// Enqueue a packet to send, and return a pointer to its payload.
    ///
    /// This function returns `Err(SendError::BufferFull)` if the transmit buffer is full,
    /// or if there is not enough transmit buffer capacity to ever send this packet.
    ///
    /// If the buffer is filled in a way that does not match the socket's
    /// IP version or protocol, the packet will be silently dropped.
    ///
    /// **Note:** The IP header is parsed and re-serialized, and may not match
    /// the header actually transmitted bit for bit.
    ///
    /// The packet is what the payload holds when it is given back. Like every slice it then
    /// has the length that it had.
    pub fn send(&mut self, size: usize) -> (res: Result<&mut [u8], SendError>)
        requires
            old(self).wf(),
        ensures
            old(self)@.tx.accommodates(size as nat) ==> (res matches Ok(packet_buf) && {
                &&& packet_buf@.len() == size
                &&& final(packet_buf)@.len() == size ==> {
                    &&& final(self).wf()
                    &&& final(self)@ == (SocketState {
                        tx: old(self)@.tx.enqueue(size as nat, final(packet_buf)@),
                        ..old(self)@
                    })
                }
            }),
            !old(self)@.tx.accommodates(size as nat) ==> {
                &&& res == Err::<&mut [u8], SendError>(SendError::BufferFull)
                &&& final(self).wf()
                &&& final(self)@ == old(self)@
            },
    {
        match self.tx_buffer.enqueue(size) {
            Ok(packet_buf) => Ok(packet_buf),
            Err(Full) => Err(SendError::BufferFull),
        }
    }

    /// Enqueue a packet to be send and pass the buffer to the provided closure.
    /// The closure then returns the size of the data written into the buffer, which is not
    /// more than the buffer holds. It is called only if the packet finds room.
    ///
    /// Also see [send](#method.send).
    pub fn send_with<F>(&mut self, max_size: usize, f: F) -> (res: Result<usize, SendError>) where
        F: FnOnce(&mut [u8]) -> usize,

        requires
            old(self).wf(),
            old(self)@.tx.accommodates(max_size as nat) ==> {
                &&& forall|packet_buf: &mut [u8]|
                    packet_buf@.len() == max_size ==> #[trigger] call_requires(f, (packet_buf,))
                &&& forall|packet_buf: &mut [u8], size: usize|
                    packet_buf@.len() == max_size && #[trigger] call_ensures(f, (packet_buf,), size)
                        ==> size <= max_size && final(packet_buf)@.len() == max_size
            },
        ensures
            final(self).wf(),
            old(self)@.tx.accommodates(max_size as nat) ==> (res matches Ok(size) && size
                <= max_size && exists|packet_buf: &mut [u8]|
                {
                    &&& #[trigger] call_ensures(f, (packet_buf,), size)
                    &&& packet_buf@.len() == max_size
                    &&& final(packet_buf)@.len() == max_size
                    &&& final(self)@ == (SocketState {
                        tx: old(self)@.tx.enqueue(
                            max_size as nat,
                            final(packet_buf)@.take(size as int),
                        ),
                        ..old(self)@
                    })
                }),
            !old(self)@.tx.accommodates(max_size as nat) ==> {
                &&& res == Err::<usize, SendError>(SendError::BufferFull)
                &&& final(self)@ == old(self)@
            },
    {
        match self.tx_buffer.enqueue_with_infallible(max_size, f) {
            Ok(size) => Ok(size),
            Err(Full) => Err(SendError::BufferFull),
        }
    }

    /// Enqueue a packet to send, and fill it from a slice.
    ///
    /// See also [send](#method.send).
    pub fn send_slice(&mut self, data: &[u8]) -> (res: Result<(), SendError>)
        requires
            old(self).wf(),
        ensures
            final(self).wf(),
            old(self)@.tx.accommodates(data@.len()) ==> {
                &&& res == Ok::<(), SendError>(())
                &&& final(self)@ == (SocketState {
                    tx: old(self)@.tx.enqueue(data@.len(), data@),
                    ..old(self)@
                })
            },
            !old(self)@.tx.accommodates(data@.len()) ==> {
                &&& res == Err::<(), SendError>(SendError::BufferFull)
                &&& final(self)@ == old(self)@
            },
    {
        match self.send(data.len()) {
            Ok(packet_buf) => {
                octets::copy(packet_buf, data);
                Ok(())
            },
            Err(error) => Err(error),
        }
    }

    /// Dequeue a packet, and return a pointer to the payload.
    ///
    /// This function returns `Err(RecvError::Exhausted)` if the receive buffer is empty.
    ///
    /// **Note:** The IP header is parsed and re-serialized, and may not match
    /// the header actually received bit for bit.
    pub fn recv(&mut self) -> (res: Result<&[u8], RecvError>)
        requires
            old(self).wf(),
        ensures
            final(self).wf(),
            old(self)@.rx.packets().len() == 0 ==> {
                &&& res == Err::<&[u8], RecvError>(RecvError::Exhausted)
                &&& final(self)@ == old(self)@
            },
            old(self)@.rx.packets().len() > 0 ==> {
                &&& res matches Ok(packet_buf) && packet_buf@ == old(self)@.rx.front()
                &&& final(self)@ == (SocketState { rx: old(self)@.rx.dequeue(), ..old(self)@ })
            },
    {
        match self.rx_buffer.dequeue() {
            Ok(packet_buf) => Ok(packet_buf),
            Err(Empty) => Err(RecvError::Exhausted),
        }
    }

    /// Dequeue a packet, and copy the payload into the given slice.
    ///
    /// **Note**: when the size of the provided buffer is smaller than the size of the payload,
    /// the packet is dropped and a `RecvError::Truncated` error is returned.
    ///
    /// See also [recv](#method.recv).
    pub fn recv_slice(&mut self, data: &mut [u8]) -> (res: Result<usize, RecvError>)
        requires
            old(self).wf(),
        ensures
            final(self).wf(),
            old(self)@.rx.packets().len() == 0 ==> {
                &&& res == Err::<usize, RecvError>(RecvError::Exhausted)
                &&& final(self)@ == old(self)@
                &&& final(data)@ == old(data)@
            },
            old(self)@.rx.packets().len() > 0 ==> {
                let packet = old(self)@.rx.front();
                &&& final(self)@ == (SocketState { rx: old(self)@.rx.dequeue(), ..old(self)@ })
                &&& packet.len() > old(data)@.len() ==> {
                    &&& res == Err::<usize, RecvError>(RecvError::Truncated)
                    &&& final(data)@ == old(data)@
                }
                &&& packet.len() <= old(data)@.len() ==> {
                    &&& res matches Ok(length) && length == packet.len()
                    &&& final(data)@ == packet + old(data)@.skip(packet.len() as int)
                }
            },
    {
        let buffer = match self.recv() {
            Ok(buffer) => buffer,
            Err(error) => {
                return Err(error);
            },
        };
        if data.len() < buffer.len() {
            return Err(RecvError::Truncated);
        }
        let length: usize = buffer.len();
        let (start, _) = data.split_at_mut(length);
        octets::copy(start, buffer);
        Ok(length)
    }

    /// Peek at a packet in the receive buffer and return a pointer to the
    /// payload without removing the packet from the receive buffer.
    /// This function otherwise behaves identically to [recv](#method.recv).
    ///
    /// It returns `Err(RecvError::Exhausted)` if the receive buffer is empty.
    pub fn peek(&mut self) -> (res: Result<&[u8], RecvError>)
        requires
            old(self).wf(),
        ensures
            final(self).wf(),
            final(self)@ == (SocketState { rx: old(self)@.rx.trimmed(), ..old(self)@ }),
            final(self)@.rx.packets() == old(self)@.rx.packets(),
            old(self)@.rx.packets().len() == 0 ==> res == Err::<&[u8], RecvError>(
                RecvError::Exhausted,
            ),
            old(self)@.rx.packets().len() > 0 ==> (res matches Ok(packet_buf) && packet_buf@ == old(
                self,
            )@.rx.front()),
    {
        match self.rx_buffer.peek() {
            Ok(packet_buf) => Ok(packet_buf),
            Err(Empty) => Err(RecvError::Exhausted),
        }
    }

    /// Peek at a packet in the receive buffer, copy the payload into the given slice,
    /// and return the amount of octets copied without removing the packet from the receive buffer.
    /// This function otherwise behaves identically to [recv_slice](#method.recv_slice).
    ///
    /// **Note**: when the size of the provided buffer is smaller than the size of the payload,
    /// no data is copied into the provided buffer and a `RecvError::Truncated` error is returned.
    ///
    /// See also [peek](#method.peek).
    pub fn peek_slice(&mut self, data: &mut [u8]) -> (res: Result<usize, RecvError>)
        requires
            old(self).wf(),
        ensures
            final(self).wf(),
            final(self)@ == (SocketState { rx: old(self)@.rx.trimmed(), ..old(self)@ }),
            final(self)@.rx.packets() == old(self)@.rx.packets(),
            old(self)@.rx.packets().len() == 0 ==> {
                &&& res == Err::<usize, RecvError>(RecvError::Exhausted)
                &&& final(data)@ == old(data)@
            },
            old(self)@.rx.packets().len() > 0 ==> {
                let packet = old(self)@.rx.front();
                &&& packet.len() > old(data)@.len() ==> {
                    &&& res == Err::<usize, RecvError>(RecvError::Truncated)
                    &&& final(data)@ == old(data)@
                }
                &&& packet.len() <= old(data)@.len() ==> {
                    &&& res matches Ok(length) && length == packet.len()
                    &&& final(data)@ == packet + old(data)@.skip(packet.len() as int)
                }
            },
    {
        let buffer = match self.peek() {
            Ok(buffer) => buffer,
            Err(error) => {
                return Err(error);
            },
        };
        if data.len() < buffer.len() {
            return Err(RecvError::Truncated);
        }
        let length: usize = buffer.len();
        let (start, _) = data.split_at_mut(length);
        octets::copy(start, buffer);
        Ok(length)
    }

    /// Return the amount of octets queued in the transmit buffer.
    pub fn send_queue(&self) -> (octets: usize)
        requires
            self.wf(),
        ensures
            octets == packet_queue::octets(self@.tx.packets()),
    {
        self.tx_buffer.payload_bytes_count()
    }

    /// Return the amount of octets queued in the receive buffer.
    pub fn recv_queue(&self) -> (octets: usize)
        requires
            self.wf(),
        ensures
            octets == packet_queue::octets(self@.rx.packets()),
    {
        self.rx_buffer.payload_bytes_count()
    }

    /// Query whether a packet is one that the socket is bound to.
    pub fn accepts(&self, ip_repr: &IpRepr) -> (accepts: bool)
        ensures
            accepts == self@.accepts(*ip_repr),
    {
        if let Some(version) = self.ip_version {
            if version != ip_repr.version() {
                return false;
            }
        }
        if let Some(next_header) = self.ip_protocol {
            if next_header != ip_repr.next_header() {
                return false;
            }
        }
        true
    }

    /// Take in a packet that the socket accepts: queue its header, written anew, and its
    /// payload. A packet that finds no room is dropped.
    pub fn process(&mut self, cx: &mut Context, ip_repr: &IpRepr, payload: &[u8])
        requires
            old(self).wf(),
            old(self)@.accepts(*ip_repr),
        ensures
            final(self).wf(),
            final(self)@ == old(self)@.receive(ip_repr.header(old(cx).checksum_caps) + payload@),
            *final(cx) == *old(cx),
    {
        let caps = cx.checksum_caps();
        let header_len: usize = ip_repr.header_len();
        proof {
            self.rx_buffer.lemma_wf();
        }
        if payload.len() <= usize::MAX - header_len {
            match self.rx_buffer.enqueue(header_len + payload.len()) {
                Ok(buf) => {
                    let (header, body) = buf.split_at_mut(header_len);
                    ip_repr.emit(header, &caps);
                    octets::copy(body, payload);
                },
                Err(Full) => {},
            }
        }
        self.rx_waker.wake();
    }

    /// Hand the oldest packet that is to be sent to `emit`, and take it out of the buffer if
    /// `emit` returns successfully. A packet for which there is nothing to send is dropped.
    pub fn dispatch<F, E>(&mut self, cx: &mut Context, emit: F) -> (res: Result<(), E>) where
        F: FnOnce(&mut Context, (IpRepr, &[u8])) -> Result<(), E>,

        requires
            old(self).wf(),
            old(self)@.tx.packets().len() > 0 ==> (outgoing(
                old(self)@.ip_version,
                old(self)@.ip_protocol,
                old(self)@.tx.front(),
                old(cx).checksum_caps,
            ) matches Some((repr, data)) ==> forall|lent: &mut Context, payload: &[u8]|
                *lent == *old(cx) && payload@ == data ==> #[trigger] call_requires(
                    emit,
                    (lent, (repr, payload)),
                )),
        ensures
            final(self).wf(),
            old(self)@.tx.packets().len() == 0 ==> {
                &&& res == Ok::<(), E>(())
                &&& final(self)@ == old(self)@
                &&& *final(cx) == *old(cx)
            },
            old(self)@.tx.packets().len() > 0 ==> match outgoing(
                old(self)@.ip_version,
                old(self)@.ip_protocol,
                old(self)@.tx.front(),
                old(cx).checksum_caps,
            ) {
                None => {
                    &&& res == Ok::<(), E>(())
                    &&& final(self)@ == old(self)@.sent()
                    &&& *final(cx) == *old(cx)
                },
                Some((repr, data)) => {
                    &&& exists|lent: &mut Context, payload: &[u8]|
                        {
                            &&& #[trigger] call_ensures(emit, (lent, (repr, payload)), res)
                            &&& *lent == *old(cx)
                            &&& *final(lent) == *final(cx)
                            &&& payload@ == data
                        }
                    &&& res is Ok ==> final(self)@ == old(self)@.sent()
                    &&& res is Err ==> final(self)@ == (SocketState {
                        tx: old(self)@.tx.with_front(
                            rewritten(old(self)@.tx.front(), old(cx).checksum_caps),
                        ),
                        ..old(self)@
                    })
                },
            },
    {
        let caps = cx.checksum_caps();
        proof {
            self.lemma_wf();
        }
        let prepared = match self.tx_buffer.peek_mut() {
            Ok(buffer) => prepare(self.ip_version, self.ip_protocol, buffer, &caps),
            Err(Empty) => {
                return Ok(());
            },
        };
        let ghost packet = self@.tx.entries.first()->Packet_0;
        proof {
            packet_queue::law_trimmed_keeps_packets(old(self)@.tx);
        }
        match prepared {
            Some((ip_repr, start, end)) => {
                let buffer = match self.tx_buffer.peek() {
                    Ok(buffer) => buffer,
                    Err(Empty) => {
                        return Ok(());
                    },
                };
                let (_, rest) = buffer.split_at(start);
                let (payload, _) = rest.split_at(end - start);
                assert(payload@ =~= packet.subrange(start as int, end as int));
                let res = emit(cx, (ip_repr, payload));
                if res.is_ok() {
                    let _ = self.tx_buffer.dequeue();
                    self.tx_waker.wake();
                }
                res
            },
            None => {
                let _ = self.tx_buffer.dequeue();
                self.tx_waker.wake();
                Ok(())
            },
        }
    }

    /// Return when the socket should be polled: at once if there is a packet to send.
    pub fn poll_at(&self, _cx: &mut Context) -> (poll_at: PollAt)
        requires
            self.wf(),
        ensures
            poll_at == (if self@.tx.packets().len() == 0 {
                PollAt::Ingress
            } else {
                PollAt::Now
            }),
            *final(_cx) == *old(_cx),
    {
        if self.tx_buffer.is_empty() {
            PollAt::Ingress
        } else {
            PollAt::Now
        }
    }
}

} // verus!
