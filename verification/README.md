# raw_socket

A raw IP socket: a pair of bounded packet buffers between a user, who sends and
receives whole IP packets, and a network interface, which takes packets out and
puts packets in. Written and verified in Verus.

- `src/storage/`: the ring buffer and the packet buffer. `packet_queue.rs` says
  what a packet buffer holds and what each operation does to it.
- `src/wire/`: IPv4 and IPv6 headers and the Internet checksum.
- `src/socket/raw.rs`: the socket. `laws.rs` states what holds of it as a whole.
- `src/socket/waker/wake.rs`: the calls into `core::task::Waker`, whose contracts are
  not proved.
- `app/`: the error types with the traits of the standard library.
- `tests/`: the tests.
