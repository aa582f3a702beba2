//! When a packet finds room, and what becomes of the room.

use vstd::prelude::*;

use super::packet_queue;
use super::packet_queue::{Entry, PacketQueue};
use super::ring_buffer;
use super::ring_buffer::RingBuffer;

verus! {

/// What the entries take of the storage: nothing where there are none, and each that is
/// added takes what it has, be it a packet or padding.
pub proof fn law_entries_add_up(entries: Seq<Entry>, data: Seq<u8>, size: nat)
    ensures
        packet_queue::total(packet_queue::sizes_of(Seq::empty())) == 0,
        packet_queue::total(packet_queue::sizes_of(entries.push(Entry::Packet(data))))
            == packet_queue::total(packet_queue::sizes_of(entries)) + data.len(),
        packet_queue::total(packet_queue::sizes_of(entries.push(Entry::Padding(size))))
            == packet_queue::total(packet_queue::sizes_of(entries)) + size,
{
    let sizes = packet_queue::sizes_of(entries);
    assert(packet_queue::sizes_of(entries.push(Entry::Packet(data))) =~= sizes.push(data.len()));
    assert(packet_queue::sizes_of(entries.push(Entry::Padding(size))) =~= sizes.push(size));
    packet_queue::lemma_total_push(sizes, data.len());
    packet_queue::lemma_total_push(sizes, size);
}

/// The packets among the entries are all of them, in their order, and nothing else.
pub proof fn law_packets_among_entries(entries: Seq<Entry>, data: Seq<u8>, size: nat)
    ensures
        packet_queue::packets_of(Seq::empty()) == Seq::<Seq<u8>>::empty(),
        packet_queue::packets_of(entries.push(Entry::Packet(data))) == packet_queue::packets_of(
            entries,
        ).push(data),
        packet_queue::packets_of(entries.push(Entry::Padding(size))) == packet_queue::packets_of(
            entries,
        ),
{
    packet_queue::lemma_packets_push(entries, Entry::Packet(data));
    packet_queue::lemma_packets_push(entries, Entry::Padding(size));
}

/// The octets of some packets are counted one by one: none where there are no packets, and
/// those of each packet that is added.
pub proof fn law_octets_add_up(packets: Seq<Seq<u8>>, data: Seq<u8>)
    ensures
        packet_queue::octets(Seq::empty()) == 0,
        packet_queue::octets(packets.push(data)) == packet_queue::octets(packets) + data.len(),
{
    packet_queue::lemma_octets_push(packets, data);
}

/// What a queue shows of its entries.
pub proof fn law_queue_shows_entries(queue: PacketQueue)
    ensures
        queue.packets() == packet_queue::packets_of(queue.entries),
        queue.occupied() == packet_queue::total(packet_queue::sizes_of(queue.entries)),
        queue.packets().len() > 0 ==> queue.front() == queue.packets()[0],
{
}

/// In every queue with a free entry, whatever it holds, a packet finds room whenever it is
/// not larger than the octets that are free in one piece behind the last entry: all of them
/// if none is in use, those up to the end of the storage if what is in use does not reach
/// it, and else those up to the oldest entry. The packet is then added behind the last
/// entry, and nothing else changes but that an unused storage is used from its start.
pub proof fn law_room_behind_last(queue: PacketQueue, size: nat, data: Seq<u8>)
    requires
        queue.head < queue.payload_capacity || queue.head == 0,
        packet_queue::total(packet_queue::sizes_of(queue.entries)) <= queue.payload_capacity,
        queue.entries.len() < queue.packet_capacity,
        ({
            let used = packet_queue::total(packet_queue::sizes_of(queue.entries));
            ||| used == 0 && size <= queue.payload_capacity
            ||| queue.head + used < queue.payload_capacity && queue.head + used + size
                <= queue.payload_capacity
            ||| queue.head + used >= queue.payload_capacity && used + size
                <= queue.payload_capacity
        }),
    ensures
        queue.accommodates(size),
        ({
            let used = packet_queue::total(packet_queue::sizes_of(queue.entries));
            let queued = queue.enqueue(size, data);
            &&& queued.entries == queue.entries.push(Entry::Packet(data))
            &&& queued.head == if used == 0 { 0 } else { queue.head }
            &&& queued.packet_capacity == queue.packet_capacity
            &&& queued.payload_capacity == queue.payload_capacity
        }),
{
}

/// In every queue with two free entries, whatever it holds, a packet that is too large for
/// the octets behind the last entry finds room whenever it is not larger than the octets in
/// front of the oldest one. The octets up to the end of the storage are then passed over.
pub proof fn law_room_at_start(queue: PacketQueue, size: nat, data: Seq<u8>)
    requires
        queue.entries.len() + 1 < queue.packet_capacity,
        ({
            let used = packet_queue::total(packet_queue::sizes_of(queue.entries));
            &&& used > 0
            &&& queue.head + used < queue.payload_capacity
            &&& queue.head + used + size > queue.payload_capacity
            &&& size <= queue.head
        }),
    ensures
        queue.accommodates(size),
        ({
            let used = packet_queue::total(packet_queue::sizes_of(queue.entries));
            let passed_over = (queue.payload_capacity - queue.head - used) as nat;
            let queued = queue.enqueue(size, data);
            &&& queued.entries == queue.entries.push(Entry::Padding(passed_over)).push(
                Entry::Packet(data),
            )
            &&& queued.head == queue.head
            &&& queued.packet_capacity == queue.packet_capacity
            &&& queued.payload_capacity == queue.payload_capacity
        }),
{
}

/// A packet that finds room has it: an entry is free, and octets are free for it in one
/// piece, behind the last entry or in front of the oldest one.
pub proof fn law_room_is_there(queue: PacketQueue, size: nat)
    requires
        queue.head < queue.payload_capacity || queue.head == 0,
        packet_queue::total(packet_queue::sizes_of(queue.entries)) <= queue.payload_capacity,
        queue.accommodates(size),
    ensures
        queue.entries.len() < queue.packet_capacity,
        packet_queue::total(packet_queue::sizes_of(queue.entries)) + size
            <= queue.payload_capacity,
        ({
            let used = packet_queue::total(packet_queue::sizes_of(queue.entries));
            ||| used == 0
            ||| queue.head + used >= queue.payload_capacity
            ||| queue.head + used + size <= queue.payload_capacity
            ||| queue.entries.len() + 1 < queue.packet_capacity && size <= queue.head
        }),
{
}

/// What leaves is the oldest packet and the padding in front of it, and no more; the octets
/// that they took are free again, and the others stay where they are.
pub proof fn law_leaving_frees_room(queue: PacketQueue)
    requires
        queue.wf(),
        queue.entries.len() > 0,
    ensures
        ({
            let gone: int = if queue.entries[0] is Padding { 2 } else { 1 };
            let left = queue.dequeue();
            let freed = packet_queue::total(packet_queue::sizes_of(queue.entries.take(gone)));
            &&& gone <= queue.entries.len()
            &&& queue.entries[gone - 1] == Entry::Packet(queue.front())
            &&& left.entries == queue.entries.skip(gone)
            &&& left.head == queue.head + freed || left.head + queue.payload_capacity == queue.head
                + freed
            &&& left.head < queue.payload_capacity || left.head == 0
            &&& packet_queue::total(packet_queue::sizes_of(left.entries)) + freed
                == packet_queue::total(packet_queue::sizes_of(queue.entries))
        }),
{
    law_trimmed_frees_padding(queue);
    packet_queue::law_dequeue_takes_first(queue);
    packet_queue::law_trimmed_keeps_packets(queue);
    let trimmed = queue.trimmed();
    packet_queue::lemma_pop(trimmed);
    let sizes = packet_queue::sizes_of(queue.entries);
    let gone: int = if queue.entries[0] is Padding { 2 } else { 1 };
    packet_queue::lemma_total_take(sizes, 0);
    packet_queue::lemma_total_prefix(sizes, 1);
    assert(packet_queue::total(sizes.take(0)) == 0);
    assert(packet_queue::sizes_of(queue.entries.take(gone)) =~= sizes.take(gone));
    if gone == 2 {
        packet_queue::lemma_pop(queue);
        packet_queue::lemma_total_take(sizes, 1);
        packet_queue::lemma_total_prefix(sizes, 2);
        assert(trimmed.entries[0] == queue.entries[1]);
    }
    assert(queue.dequeue().entries =~= queue.entries.skip(gone));
}

/// Looking at the oldest packet takes the padding in front of it out, and nothing else.
pub proof fn law_trimmed_frees_padding(queue: PacketQueue)
    requires
        queue.wf(),
    ensures
        ({
            let trimmed = queue.trimmed();
            &&& trimmed.packet_capacity == queue.packet_capacity
            &&& trimmed.payload_capacity == queue.payload_capacity
            &&& queue.entries.len() == 0 || queue.entries[0] is Packet ==> trimmed == queue
            &&& queue.entries.len() > 0 ==> (queue.entries[0] matches Entry::Padding(size) ==> {
                &&& trimmed.entries == queue.entries.skip(1)
                &&& trimmed.head == queue.head + size || trimmed.head + queue.payload_capacity
                    == queue.head + size
                &&& trimmed.head < queue.payload_capacity || trimmed.head == 0
            })
        }),
{
    if queue.entries.len() > 0 && queue.entries[0] is Padding {
        packet_queue::lemma_pop(queue);
        assert(queue.entries.first() == queue.entries[0]);
        assert(queue.trimmed().entries =~= queue.entries.skip(1));
    }
}

/// Other octets in the oldest packet go where the old ones were: no other entry changes, and
/// only the padding in front goes.
pub proof fn law_front_is_changed_in_place(queue: PacketQueue, data: Seq<u8>)
    requires
        queue.wf(),
        queue.entries.len() > 0,
        data.len() == queue.front().len(),
    ensures
        ({
            let gone: int = if queue.entries[0] is Padding { 1 } else { 0 };
            let changed = queue.with_front(data);
            &&& changed.entries.len() == queue.entries.len() - gone
            &&& changed.entries[0] == Entry::Packet(data)
            &&& changed.entries.skip(1) == queue.entries.skip(gone + 1)
            &&& changed.head == queue.trimmed().head
            &&& changed.packet_capacity == queue.packet_capacity
            &&& changed.payload_capacity == queue.payload_capacity
            &&& packet_queue::total(packet_queue::sizes_of(changed.entries))
                == packet_queue::total(packet_queue::sizes_of(queue.trimmed().entries))
        }),
{
    law_trimmed_frees_padding(queue);
    packet_queue::law_trimmed_keeps_packets(queue);
    packet_queue::law_with_front(queue, data);
    let gone: int = if queue.entries[0] is Padding { 1 } else { 0 };
    let changed = queue.with_front(data);
    assert(changed.entries.skip(1) =~= queue.entries.skip(gone + 1));
    assert(packet_queue::sizes_of(changed.entries) =~= packet_queue::sizes_of(
        queue.trimmed().entries,
    ));
}

/// Going around in the storage: behind its end comes its start.
pub proof fn law_wrap(position: nat, distance: nat, capacity: nat)
    requires
        position < capacity,
        distance <= capacity,
    ensures
        ring_buffer::wrap(position, distance, capacity) < capacity,
        ring_buffer::wrap(position, distance, capacity) == (position + distance) % capacity,
{
    if position + distance < capacity {
        vstd::arithmetic::div_mod::lemma_small_mod(position + distance, capacity);
    } else {
        let rest = (position + distance - capacity) as nat;
        vstd::arithmetic::div_mod::lemma_mod_add_multiples_vanish(rest as int, capacity as int);
        vstd::arithmetic::div_mod::lemma_small_mod(rest, capacity);
    }
}

/// What can be added to a ring in one piece: up to the end of the storage if the elements do
/// not reach it, and else up to the oldest element.
pub proof fn law_ring_room<'a, T>(ring: RingBuffer<'a, T>)
    requires
        ring.wf(),
    ensures
        ring.head() + ring@.len() < ring.capacity_spec() ==> ring.contiguous_window_spec()
            == ring.capacity_spec() - ring.head() - ring@.len(),
        ring.head() + ring@.len() >= ring.capacity_spec() ==> ring.contiguous_window_spec()
            == ring.capacity_spec() - ring@.len(),
{
    ring.lemma_bounds();
}

} // verus!
