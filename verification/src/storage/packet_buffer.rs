//! A ring buffer of packets.

use vstd::prelude::*;

use super::managed::Storage;
use super::packet_queue;
use super::packet_queue::{Entry, PacketQueue};
use super::ring_buffer::RingBuffer;

verus! {

/// Error returned when a packet finds no room.
#[derive(Debug, PartialEq, Eq, Clone, Copy, Structural)]
pub struct Full;

/// Error returned when there is no packet.
#[derive(Debug, PartialEq, Eq, Clone, Copy, Structural)]
pub struct Empty;

/// The size of a packet, or of the padding before one.
#[derive(Debug, Clone, Copy)]
pub struct PacketMetadata {
    size: usize,
    padding: bool,
}

impl PacketMetadata {
    /// Empty packet description, to fill metadata storage with.
    pub fn empty() -> (metadata: PacketMetadata)
        ensures
            metadata.size_spec() == 0,
            metadata.entry(Seq::empty()) == Entry::Padding(0),
    {
        PacketMetadata { size: 0, padding: true }
    }

    /// The entry that this describes, where `data` are the octets in the storage.
    pub closed spec fn entry(self, data: Seq<u8>) -> Entry {
        if self.padding {
            Entry::Padding(self.size as nat)
        } else {
            Entry::Packet(data)
        }
    }

    /// How many octets the entry takes.
    pub closed spec fn size_spec(self) -> nat {
        self.size as nat
    }
}

/// How many octets each entry takes.
spec fn sizes(metadata: Seq<PacketMetadata>) -> Seq<nat> {
    metadata.map_values(|entry: PacketMetadata| entry.size_spec())
}

/// The entries that some metadata and octets stand for.
spec fn entries(metadata: Seq<PacketMetadata>, payload: Seq<u8>) -> Seq<Entry> {
    Seq::new(
        metadata.len(),
        |i: int|
            {
                let start = packet_queue::total(sizes(metadata).take(i)) as int;
                metadata[i].entry(payload.subrange(start, start + metadata[i].size_spec()))
            },
    )
}

/// The entries take as many octets as the metadata say.
proof fn lemma_sizes(metadata: Seq<PacketMetadata>, payload: Seq<u8>)
    requires
        packet_queue::total(sizes(metadata)) == payload.len(),
    ensures
        packet_queue::sizes_of(entries(metadata, payload)) == sizes(metadata),
{
    assert forall|i: int| 0 <= i < metadata.len() implies (#[trigger] entries(
        metadata,
        payload,
    )[i]).size() == sizes(metadata)[i] by {
        packet_queue::lemma_total_take(sizes(metadata), i);
        packet_queue::lemma_total_prefix(sizes(metadata), i + 1);
    }
    assert(packet_queue::sizes_of(entries(metadata, payload)) =~= sizes(metadata));
}

/// An entry that is added behind the others leaves them as they are.
proof fn lemma_push(
    metadata: Seq<PacketMetadata>,
    payload: Seq<u8>,
    added: PacketMetadata,
    data: Seq<u8>,
)
    requires
        packet_queue::total(sizes(metadata)) == payload.len(),
        added.size_spec() == data.len(),
    ensures
        entries(metadata.push(added), payload + data) == entries(metadata, payload).push(
            added.entry(data),
        ),
        packet_queue::total(sizes(metadata.push(added))) == (payload + data).len(),
{
    let before = sizes(metadata);
    assert(sizes(metadata.push(added)) =~= before.push(added.size_spec()));
    packet_queue::lemma_total_push(before, added.size_spec());
    let result = entries(metadata.push(added), payload + data);
    assert forall|i: int| 0 <= i < result.len() implies #[trigger] result[i] == entries(
        metadata,
        payload,
    ).push(added.entry(data))[i] by {
        assert(before.push(added.size_spec()).take(i) =~= before.take(i));
        let start = packet_queue::total(before.take(i)) as int;
        if i < metadata.len() {
            packet_queue::lemma_total_take(before, i);
            packet_queue::lemma_total_prefix(before, i + 1);
            let end = start + metadata[i].size_spec();
            assert((payload + data).subrange(start, end) =~= payload.subrange(start, end));
        } else {
            assert(before.take(i) =~= before);
            assert((payload + data).subrange(start, start + data.len()) =~= data);
        }
    }
    assert(result =~= entries(metadata, payload).push(added.entry(data)));
}

/// Taking the first entry out leaves the others as they are.
proof fn lemma_pop(metadata: Seq<PacketMetadata>, payload: Seq<u8>)
    requires
        packet_queue::total(sizes(metadata)) == payload.len(),
        metadata.len() > 0,
    ensures
        metadata[0].size_spec() <= payload.len(),
        entries(metadata, payload).first() == metadata[0].entry(
            payload.take(metadata[0].size_spec() as int),
        ),
        entries(metadata.drop_first(), payload.skip(metadata[0].size_spec() as int)) == entries(
            metadata,
            payload,
        ).drop_first(),
        packet_queue::total(sizes(metadata.drop_first())) == payload.len()
            - metadata[0].size_spec(),
{
    let before = sizes(metadata);
    let size = metadata[0].size_spec() as int;
    assert(sizes(metadata.drop_first()) =~= before.drop_first());
    packet_queue::lemma_total_prefix(before, 0);
    assert(packet_queue::total(before.take(0)) == 0);
    assert(payload.take(size) =~= payload.subrange(0, size));
    let rest = entries(metadata.drop_first(), payload.skip(size));
    assert forall|i: int| 0 <= i < rest.len() implies #[trigger] rest[i] == entries(
        metadata,
        payload,
    ).drop_first()[i] by {
        packet_queue::lemma_total_rest(before, i);
        packet_queue::lemma_total_take(before, i + 1);
        packet_queue::lemma_total_prefix(before, i + 2);
        let start = packet_queue::total(before.drop_first().take(i)) as int;
        let end = start + metadata[i + 1].size_spec();
        assert(payload.skip(size).subrange(start, end) =~= payload.subrange(
            start + size,
            end + size,
        ));
    }
    assert(rest =~= entries(metadata, payload).drop_first());
}

/// Other octets in the first packet leave the other entries as they are.
proof fn lemma_change_first(metadata: Seq<PacketMetadata>, payload: Seq<u8>, data: Seq<u8>)
    requires
        packet_queue::total(sizes(metadata)) == payload.len(),
        metadata.len() > 0,
        metadata[0].size_spec() == data.len(),
    ensures
        data.len() <= payload.len(),
        entries(metadata, data + payload.skip(data.len() as int)) == entries(
            metadata,
            payload,
        ).update(0, metadata[0].entry(data)),
{
    let before = sizes(metadata);
    lemma_pop(metadata, payload);
    let changed = data + payload.skip(data.len() as int);
    let result = entries(metadata, changed);
    assert forall|i: int| 0 <= i < result.len() implies #[trigger] result[i] == entries(
        metadata,
        payload,
    ).update(0, metadata[0].entry(data))[i] by {
        let start = packet_queue::total(before.take(i)) as int;
        let end = start + metadata[i].size_spec();
        packet_queue::lemma_total_take(before, i);
        packet_queue::lemma_total_prefix(before, i + 1);
        if i == 0 {
            assert(changed.subrange(start, end) =~= data);
        } else {
            packet_queue::lemma_total_rest(before, i - 1);
            assert(changed.subrange(start, end) =~= payload.subrange(start, end));
        }
    }
    assert(result =~= entries(metadata, payload).update(0, metadata[0].entry(data)));
}

/// A packet buffer: a queue of packets, each of which lies in one piece in the payload
/// storage.
///
/// Metadata storage limits the number of packets in the buffer and payload storage limits
/// their total size.
#[derive(Debug)]
pub struct PacketBuffer<'a> {
    metadata_ring: RingBuffer<'a, PacketMetadata>,
    payload_ring: RingBuffer<'a, u8>,
    queued: usize,
}

impl<'a> View for PacketBuffer<'a> {
    type V = PacketQueue;

    closed spec fn view(&self) -> PacketQueue {
        PacketQueue {
            entries: entries(self.metadata_ring@, self.payload_ring@),
            head: self.payload_ring.head(),
            packet_capacity: self.metadata_ring.capacity_spec(),
            payload_capacity: self.payload_ring.capacity_spec(),
        }
    }
}

impl<'a> PacketBuffer<'a> {
    /// The two rings fit together.
    closed spec fn coherent(&self) -> bool {
        &&& self.metadata_ring.wf()
        &&& self.payload_ring.wf()
        &&& packet_queue::total(sizes(self.metadata_ring@)) == self.payload_ring@.len()
        &&& self.queued == packet_queue::octets(self@.packets())
    }

    /// The two rings fit together, and what they hold is well formed.
    pub closed spec fn wf(&self) -> bool {
        &&& self.coherent()
        &&& self@.wf()
    }

    /// What a well-formed buffer holds is well formed.
    pub proof fn lemma_wf(&self)
        requires
            self.wf(),
        ensures
            self@.wf(),
            self@.payload_capacity <= usize::MAX,
    {
        self.payload_ring.lemma_bounds();
    }

    /// How the rings show in the view.
    proof fn lemma_view(&self)
        requires
            self.coherent(),
        ensures
            self@.entries.len() == self.metadata_ring@.len(),
            self@.occupied() == self.payload_ring@.len(),
            self@.tail() == self.payload_ring.tail(),
            self@.contiguous_window() == self.payload_ring.contiguous_window_spec(),
            self.metadata_ring@.len() <= self.metadata_ring.capacity_spec() <= usize::MAX,
            self.payload_ring@.len() <= self.payload_ring.capacity_spec() <= usize::MAX,
            packet_queue::octets(self@.packets()) <= self.payload_ring@.len(),
    {
        lemma_sizes(self.metadata_ring@, self.payload_ring@);
        packet_queue::lemma_octets_bound(self@.entries);
        self.metadata_ring.lemma_bounds();
        self.payload_ring.lemma_bounds();
    }

    /// Create a new packet buffer with the provided metadata and payload storage.
    pub fn new(
        metadata_storage: Storage<'a, PacketMetadata>,
        payload_storage: Storage<'a, u8>,
    ) -> (buffer: PacketBuffer<'a>)
        ensures
            buffer.wf(),
            buffer@ == (PacketQueue {
                entries: Seq::empty(),
                head: 0,
                packet_capacity: metadata_storage@.len(),
                payload_capacity: payload_storage@.len(),
            }),
    {
        let buffer = PacketBuffer {
            metadata_ring: RingBuffer::new(metadata_storage),
            payload_ring: RingBuffer::new(payload_storage),
            queued: 0,
        };
        buffer
    }

    /// Query whether the buffer is empty.
    pub fn is_empty(&self) -> (empty: bool)
        requires
            self.wf(),
        ensures
            empty == (self@.packets().len() == 0),
    {
        proof {
            packet_queue::law_entries_iff_packets(self@);
        }
        self.metadata_ring.is_empty()
    }

    /// Query whether the buffer is full.
    pub fn is_full(&self) -> (full: bool)
        requires
            self.wf(),
        ensures
            full == (self@.entries.len() == self@.packet_capacity),
    {
        self.metadata_ring.is_full()
    }

    /// Make room for a packet of `size` octets, by padding where that is needed.
    fn reserve(&mut self, size: usize) -> (res: Result<(), Full>)
        requires
            old(self).wf(),
        ensures
            res is Ok <==> old(self)@.accommodates(size as nat),
            res is Ok ==> {
                &&& final(self).coherent()
                &&& final(self)@ == old(self)@.padded(size as nat)
            },
            res is Err ==> final(self).wf() && final(self)@ == old(self)@,
    {
        proof {
            self.lemma_view();
        }
        if self.metadata_ring.is_full() || self.payload_ring.capacity() < size {
            return Err(Full);
        }
        if self.payload_ring.is_empty() {
            self.payload_ring.clear();
        }
        assert(self.payload_ring@ =~= old(self).payload_ring@);
        proof {
            self.lemma_view();
        }
        let contiguous_window: usize = self.payload_ring.contiguous_window();
        if size <= contiguous_window {
            return Ok(());
        }
        let other_window: usize = self.payload_ring.window() - contiguous_window;
        if other_window < size || self.metadata_ring.window() < 2 {
            return Err(Full);
        }
        let padding = PacketMetadata { size: contiguous_window, padding: true };
        let ghost before = *self;
        self.metadata_ring.enqueue_one(padding);
        let passed_over = self.payload_ring.enqueue_many(contiguous_window);
        let ghost data = passed_over@;
        proof {
            lemma_push(before.metadata_ring@, before.payload_ring@, padding, data);
            packet_queue::lemma_packets_push(before@.entries, padding.entry(data));
        }
        Ok(())
    }

    /// Enqueue a single packet into the buffer, and return a reference to its payload, or
    /// return `Err(Full)` if it finds no room.
    ///
    /// The packet is what the payload holds when it is given back. Like every slice it then
    /// has the length that it had.
    pub fn enqueue(&mut self, size: usize) -> (res: Result<&mut [u8], Full>)
        requires
            old(self).wf(),
        ensures
            old(self)@.accommodates(size as nat) ==> (res matches Ok(payload) && {
                &&& payload@.len() == size
                &&& final(payload)@.len() == size ==> {
                    &&& final(self).wf()
                    &&& final(self)@ == old(self)@.enqueue(size as nat, final(payload)@)
                }
            }),
            !old(self)@.accommodates(size as nat) ==> {
                &&& res == Err::<&mut [u8], Full>(Full)
                &&& final(self).wf()
                &&& final(self)@ == old(self)@
            },
    {
        match self.reserve(size) {
            Ok(()) => {},
            Err(Full) => {
                return Err(Full);
            },
        }
        proof {
            packet_queue::lemma_padded(old(self)@, size as nat);
            self.lemma_view();
        }
        let packet = PacketMetadata { size, padding: false };
        let ghost before = *self;
        self.queued = self.queued + size;
        self.metadata_ring.enqueue_one(packet);
        assert forall|data: Seq<u8>|
            #![trigger before.payload_ring@ + data]
            data.len() == size implies {
            let metadata = before.metadata_ring@.push(packet);
            let payload = before.payload_ring@ + data;
            let queue = old(self)@.enqueue(size as nat, data);
            &&& packet_queue::total(sizes(metadata)) == payload.len()
            &&& entries(metadata, payload) == queue.entries
            &&& packet_queue::octets(packet_queue::packets_of(entries(metadata, payload)))
                == before.queued + size
            &&& queue.wf()
        } by {
            lemma_push(before.metadata_ring@, before.payload_ring@, packet, data);
            packet_queue::lemma_packets_push(before@.entries, packet.entry(data));
            packet_queue::lemma_octets_push(before@.packets(), data);
            packet_queue::law_enqueue_appends(old(self)@, size as nat, data);
        }
        let payload = self.payload_ring.enqueue_many(size);
        Ok(payload)
    }

    /// Make a packet of the last `size` octets of the payload ring.
    fn add_metadata(
        &mut self,
        size: usize,
        Ghost(before): Ghost<PacketBuffer<'a>>,
        Ghost(data): Ghost<Seq<u8>>,
    )
        requires
            before.coherent(),
            before.metadata_ring@.len() < before.metadata_ring.capacity_spec(),
            old(self).metadata_ring == before.metadata_ring,
            old(self).queued == before.queued,
            old(self).payload_ring.wf(),
            old(self).payload_ring@ == before.payload_ring@ + data,
            old(self).payload_ring.head() == before.payload_ring.head(),
            old(self).payload_ring.capacity_spec() == before.payload_ring.capacity_spec(),
            data.len() == size,
        ensures
            final(self).coherent(),
            final(self)@ == (PacketQueue {
                entries: before@.entries.push(Entry::Packet(data)),
                ..before@
            }),
    {
        let packet = PacketMetadata { size, padding: false };
        proof {
            before.lemma_view();
            self.payload_ring.lemma_bounds();
            lemma_push(before.metadata_ring@, before.payload_ring@, packet, data);
            packet_queue::lemma_packets_push(before@.entries, packet.entry(data));
            packet_queue::lemma_octets_push(before@.packets(), data);
        }
        self.metadata_ring.enqueue_one(packet);
        self.queued = self.queued + size;
    }

    /// Call `f` with room for a packet of `max_size` octets. The packet is shrunk to the size
    /// returned from `f` and enqueued into the buffer.
    pub fn enqueue_with_infallible<F>(&mut self, max_size: usize, f: F) -> (res: Result<
        usize,
        Full,
    >) where F: FnOnce(&mut [u8]) -> usize
        requires
            old(self).wf(),
            old(self)@.accommodates(max_size as nat) ==> {
                &&& forall|payload: &mut [u8]|
                    payload@.len() == max_size ==> #[trigger] call_requires(f, (payload,))
                &&& forall|payload: &mut [u8], size: usize|
                    payload@.len() == max_size && #[trigger] call_ensures(f, (payload,), size)
                        ==> size <= max_size && final(payload)@.len() == max_size
            },
        ensures
            final(self).wf(),
            old(self)@.accommodates(max_size as nat) ==> (res matches Ok(size) && size <= max_size
                && exists|payload: &mut [u8]|
                {
                    &&& #[trigger] call_ensures(f, (payload,), size)
                    &&& payload@.len() == max_size
                    &&& final(payload)@.len() == max_size
                    &&& final(self)@ == old(self)@.enqueue(
                        max_size as nat,
                        final(payload)@.take(size as int),
                    )
                }),
            !old(self)@.accommodates(max_size as nat) ==> {
                &&& res == Err::<usize, Full>(Full)
                &&& final(self)@ == old(self)@
            },
    {
        match self.reserve(max_size) {
            Ok(()) => {},
            Err(Full) => {
                return Err(Full);
            },
        }
        let ghost before = *self;
        assert({
            &&& max_size <= self.payload_ring.contiguous_window_spec()
            &&& self.metadata_ring@.len() < self.metadata_ring.capacity_spec()
        }) by {
            packet_queue::lemma_padded(old(self)@, max_size as nat);
            self.lemma_view();
        }
        let size: usize = self.payload_ring.enqueue_many_with(max_size, f);
        let res: Result<usize, Full> = Ok(size);
        assert(res->Ok_0 == size);
        let ghost data = self.payload_ring@.skip(before.payload_ring@.len() as int);
        assert(exists|lent: &mut [u8]|
            {
                &&& #[trigger] call_ensures(f, (lent,), size)
                &&& lent@.len() == max_size
                &&& final(lent)@.len() == max_size
                &&& final(lent)@.take(size as int) =~= data
            });
        assert(self.payload_ring@ =~= before.payload_ring@ + data);
        self.add_metadata(size, Ghost(before), Ghost(data));
        proof {
            packet_queue::law_enqueue_appends(old(self)@, max_size as nat, data);
        }
        assert(exists|lent: &mut [u8]|
            {
                &&& #[trigger] call_ensures(f, (lent,), res->Ok_0)
                &&& lent@.len() == max_size
                &&& final(lent)@.len() == max_size
                &&& final(lent)@.take(res->Ok_0 as int) == data
            });
        res
    }

    /// Take the padding in front of the oldest packet out, if there is any.
    pub fn dequeue_padding(&mut self)
        requires
            old(self).wf(),
        ensures
            final(self).wf(),
            final(self)@ == old(self)@.trimmed(),
    {
        if self.metadata_ring.is_empty() {
            return;
        }
        proof {
            lemma_pop(self.metadata_ring@, self.payload_ring@);
            packet_queue::law_trimmed_keeps_packets(self@);
        }
        let metadata: PacketMetadata = *self.metadata_ring.front();
        if metadata.padding {
            self.metadata_ring.dequeue_one();
            self.payload_ring.skip(metadata.size);
        }
    }

    /// The size of the oldest packet, when there is no padding in front of it.
    fn front_size(&self) -> (size: usize)
        requires
            self.wf(),
            self@.entries.len() > 0,
            self@.entries.first() is Packet,
        ensures
            size == self.metadata_ring@[0].size_spec(),
            !self.metadata_ring@[0].padding,
            size == self@.front().len(),
            self@.front() == self.payload_ring@.take(size as int),
            size <= self.payload_ring@.len(),
            self.payload_ring.head() + size <= self.payload_ring.capacity_spec(),
    {
        self.metadata_ring.front().size
    }

    /// Dequeue a single packet from the buffer, and return a reference to its payload, or
    /// return `Err(Empty)` if the buffer is empty.
    pub fn dequeue(&mut self) -> (res: Result<&[u8], Empty>)
        requires
            old(self).wf(),
        ensures
            final(self).wf(),
            old(self)@.packets().len() == 0 ==> {
                &&& res == Err::<&[u8], Empty>(Empty)
                &&& final(self)@ == old(self)@
            },
            old(self)@.packets().len() > 0 ==> {
                &&& res matches Ok(payload) && payload@ == old(self)@.front()
                &&& final(self)@ == old(self)@.dequeue()
            },
    {
        if self.metadata_ring.is_empty() {
            return Err(Empty);
        }
        proof {
            packet_queue::law_dequeue_takes_first(self@);
        }
        self.dequeue_padding();
        let size: usize = self.front_size();
        proof {
            lemma_pop(self.metadata_ring@, self.payload_ring@);
            packet_queue::lemma_octets_first(self@.packets());
        }
        self.queued = self.queued - size;
        self.metadata_ring.dequeue_one();
        Ok(self.payload_ring.dequeue_many(size))
    }

    /// Peek at a single packet from the buffer without removing it, and return a reference to
    /// its payload, or return `Err(Empty)` if the buffer is empty.
    pub fn peek(&mut self) -> (res: Result<&[u8], Empty>)
        requires
            old(self).wf(),
        ensures
            final(self).wf(),
            final(self)@ == old(self)@.trimmed(),
            old(self)@.packets().len() == 0 ==> res == Err::<&[u8], Empty>(Empty),
            old(self)@.packets().len() > 0 ==> (res matches Ok(payload) && payload@ == old(
                self,
            )@.front()),
    {
        self.dequeue_padding();
        if self.metadata_ring.is_empty() {
            return Err(Empty);
        }
        let size: usize = self.front_size();
        Ok(self.payload_ring.front_many(size))
    }

    /// Lend out the oldest packet, to be changed, or return `Err(Empty)` if the buffer is
    /// empty.
    pub fn peek_mut(&mut self) -> (res: Result<&mut [u8], Empty>)
        requires
            old(self).wf(),
        ensures
            old(self)@.packets().len() == 0 ==> {
                &&& res == Err::<&mut [u8], Empty>(Empty)
                &&& final(self).wf()
                &&& final(self)@ == old(self)@
            },
            old(self)@.packets().len() > 0 ==> (res matches Ok(payload) && {
                &&& payload@ == old(self)@.front()
                &&& final(payload)@.len() == payload@.len() ==> {
                    &&& final(self).wf()
                    &&& final(self)@ == old(self)@.with_front(final(payload)@)
                }
            }),
    {
        if self.metadata_ring.is_empty() {
            return Err(Empty);
        }
        self.dequeue_padding();
        let size: usize = self.front_size();
        let ghost before = *self;
        assert forall|data: Seq<u8>|
            #![trigger data + before.payload_ring@.skip(size as int)]
            data.len() == size implies {
            let payload = data + before.payload_ring@.skip(size as int);
            let queue = old(self)@.with_front(data);
            &&& payload.len() == before.payload_ring@.len()
            &&& entries(before.metadata_ring@, payload) == queue.entries
            &&& packet_queue::octets(
                packet_queue::packets_of(entries(before.metadata_ring@, payload)),
            ) == before.queued
            &&& queue.wf()
        } by {
            lemma_change_first(before.metadata_ring@, before.payload_ring@, data);
            packet_queue::law_with_front(old(self)@, data);
            let packets = before@.packets();
            packet_queue::lemma_octets_first(packets);
            packet_queue::lemma_octets_first(packets.update(0, data));
            assert(packets.update(0, data).drop_first() =~= packets.drop_first());
        }
        Ok(self.payload_ring.front_many_mut(size))
    }

    /// Return the maximum number packets that can be stored.
    pub fn packet_capacity(&self) -> (capacity: usize)
        ensures
            capacity == self@.packet_capacity,
    {
        self.metadata_ring.capacity()
    }

    /// Return the maximum number of bytes in the payload ring buffer.
    pub fn payload_capacity(&self) -> (capacity: usize)
        ensures
            capacity == self@.payload_capacity,
    {
        self.payload_ring.capacity()
    }

    /// Return the number of octets in the packets of the buffer.
    pub fn payload_bytes_count(&self) -> (count: usize)
        requires
            self.wf(),
        ensures
            count == packet_queue::octets(self@.packets()),
    {
        self.queued
    }
}

} // verus!
