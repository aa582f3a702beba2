//! What a packet buffer holds, as a mathematical value.

use vstd::prelude::*;

use super::ring_buffer;

verus! {

/// The sum of some sizes.
pub open spec fn total(sizes: Seq<nat>) -> nat
    decreases sizes.len(),
{
    if sizes.len() == 0 {
        0
    } else {
        sizes.first() + total(sizes.drop_first())
    }
}

/// How many octets some packets have, taken together.
pub open spec fn octets(packets: Seq<Seq<u8>>) -> nat {
    total(packets.map_values(|packet: Seq<u8>| packet.len()))
}

/// A stretch of the payload storage that is in use.
pub enum Entry {
    /// The octets of a packet.
    Packet(Seq<u8>),
    /// Octets at the end of the storage that were passed over, because the packet behind
    /// them has to lie in one piece.
    Padding(nat),
}

impl Entry {
    /// How many octets of the storage the entry takes.
    pub open spec fn size(self) -> nat {
        match self {
            Entry::Packet(data) => data.len(),
            Entry::Padding(size) => size,
        }
    }
}

/// The packets among some entries, in their order.
pub open spec fn packets_of(entries: Seq<Entry>) -> Seq<Seq<u8>>
    decreases entries.len(),
{
    if entries.len() == 0 {
        Seq::empty()
    } else {
        let rest = packets_of(entries.drop_first());
        match entries.first() {
            Entry::Packet(data) => seq![data] + rest,
            Entry::Padding(_) => rest,
        }
    }
}

/// No two paddings lie next to each other.
pub open spec fn separated(entries: Seq<Entry>) -> bool {
    forall|i: int, j: int|
        #![trigger entries[i], entries[j]]
        0 <= i && j == i + 1 && j < entries.len() && entries[i] is Padding ==> entries[j] is Packet
}

/// How many octets each entry takes.
pub open spec fn sizes_of(entries: Seq<Entry>) -> Seq<nat> {
    entries.map_values(|entry: Entry| entry.size())
}

/// The state of a packet buffer.
///
/// The entries lie one behind the other in the payload storage, starting at `head` and
/// going on at its start when its end is reached.
#[verifier::ext_equal]
pub struct PacketQueue {
    /// The packets and the padding, oldest first.
    pub entries: Seq<Entry>,
    /// Where the oldest entry lies in the payload storage.
    pub head: nat,
    /// How many entries there is room for.
    pub packet_capacity: nat,
    /// How many octets there is room for.
    pub payload_capacity: nat,
}

impl PacketQueue {
    /// The packets, oldest first.
    pub open spec fn packets(self) -> Seq<Seq<u8>> {
        packets_of(self.entries)
    }

    /// How many octets of the payload storage are in use.
    pub open spec fn occupied(self) -> nat {
        total(sizes_of(self.entries))
    }

    /// How many octets of the payload storage the entries before the `i`th take.
    pub open spec fn offset(self, i: int) -> nat {
        total(sizes_of(self.entries).take(i))
    }

    /// Where the next entry goes.
    pub open spec fn tail(self) -> nat {
        ring_buffer::wrap(self.head, self.occupied(), self.payload_capacity)
    }

    /// How many octets are free.
    pub open spec fn window(self) -> nat {
        (self.payload_capacity - self.occupied()) as nat
    }

    /// How many octets are free in one piece behind the last entry.
    pub open spec fn contiguous_window(self) -> nat {
        let run = (self.payload_capacity - self.tail()) as nat;
        if self.window() < run { self.window() } else { run }
    }

    /// Whether the `i`th entry lies in one piece, if it is a packet.
    pub open spec fn unbroken_at(self, i: int) -> bool {
        self.entries[i] is Packet ==> ring_buffer::wrap(
            self.head,
            self.offset(i),
            self.payload_capacity,
        ) + self.entries[i].size() <= self.payload_capacity
    }

    /// Every packet lies in one piece.
    pub open spec fn unbroken(self) -> bool {
        forall|i: int|
            #![trigger self.entries[i]]
            #![trigger self.unbroken_at(i)]
            0 <= i < self.entries.len() ==> self.unbroken_at(i)
    }

    /// What every packet buffer keeps: the entries fit, every packet lies in one piece, and
    /// padding always has a packet behind it.
    pub open spec fn wf(self) -> bool {
        &&& self.head < self.payload_capacity || self.head == 0
        &&& self.entries.len() <= self.packet_capacity
        &&& self.occupied() <= self.payload_capacity
        &&& self.unbroken()
        &&& separated(self.entries)
        &&& self.entries.len() > 0 ==> self.entries.last() is Packet
    }

    /// The same entries, with the whole storage in one piece if none of it is in use.
    pub open spec fn rewound(self) -> PacketQueue {
        PacketQueue { head: if self.occupied() == 0 { 0 } else { self.head }, ..self }
    }

    /// Whether a packet of `size` octets finds room: an entry must be free and the octets
    /// must be free in one piece, behind the last entry or else, at the price of one more
    /// entry for the padding, at the start of the storage.
    pub open spec fn accommodates(self, size: nat) -> bool {
        let queue = self.rewound();
        &&& queue.entries.len() < queue.packet_capacity
        &&& {
            ||| size <= queue.contiguous_window()
            ||| {
                &&& queue.entries.len() + 1 < queue.packet_capacity
                &&& size <= queue.window() - queue.contiguous_window()
            }
        }
    }

    /// The room for a packet of `size` octets is made, by padding where that is needed.
    pub open spec fn padded(self, size: nat) -> PacketQueue {
        let queue = self.rewound();
        if size <= queue.contiguous_window() {
            queue
        } else {
            PacketQueue {
                entries: queue.entries.push(Entry::Padding(queue.contiguous_window())),
                ..queue
            }
        }
    }

    /// Room is made for `size` octets, and a packet that needs no more is added there.
    pub open spec fn enqueue(self, size: nat, data: Seq<u8>) -> PacketQueue {
        let queue = self.padded(size);
        PacketQueue { entries: queue.entries.push(Entry::Packet(data)), ..queue }
    }

    /// The oldest entry is taken out.
    pub open spec fn pop(self) -> PacketQueue {
        PacketQueue {
            entries: self.entries.drop_first(),
            head: ring_buffer::wrap(self.head, self.entries.first().size(), self.payload_capacity),
            ..self
        }
    }

    /// The padding in front of the oldest packet is taken out, if there is any.
    pub open spec fn trimmed(self) -> PacketQueue {
        if self.entries.len() > 0 && self.entries.first() is Padding {
            self.pop()
        } else {
            self
        }
    }

    /// The oldest packet.
    pub open spec fn front(self) -> Seq<u8>
        recommends
            self.packets().len() > 0,
    {
        self.packets().first()
    }

    /// The oldest packet is taken out.
    pub open spec fn dequeue(self) -> PacketQueue {
        self.trimmed().pop()
    }

    /// The oldest packet gets other octets, as many as it had.
    pub open spec fn with_front(self, data: Seq<u8>) -> PacketQueue {
        let queue = self.trimmed();
        PacketQueue { entries: queue.entries.update(0, Entry::Packet(data)), ..queue }
    }
}

/// A sum grows by what is added behind.
pub proof fn lemma_total_push(sizes: Seq<nat>, size: nat)
    ensures
        total(sizes.push(size)) == total(sizes) + size,
    decreases sizes.len(),
{
    if sizes.len() == 0 {
        assert(sizes.push(size).drop_first() =~= sizes);
    } else {
        assert(sizes.push(size).drop_first() =~= sizes.drop_first().push(size));
        lemma_total_push(sizes.drop_first(), size);
    }
}

/// A sum over a prefix is the sum over the next shorter prefix and one size more.
pub proof fn lemma_total_take(sizes: Seq<nat>, i: int)
    requires
        0 <= i < sizes.len(),
    ensures
        total(sizes.take(i + 1)) == total(sizes.take(i)) + sizes[i],
{
    assert(sizes.take(i + 1) =~= sizes.take(i).push(sizes[i]));
    lemma_total_push(sizes.take(i), sizes[i]);
}

/// A sum over a prefix is no larger than the whole sum.
pub proof fn lemma_total_prefix(sizes: Seq<nat>, i: int)
    requires
        0 <= i <= sizes.len(),
    ensures
        total(sizes.take(i)) <= total(sizes),
    decreases sizes.len() - i,
{
    if i == sizes.len() {
        assert(sizes.take(i) =~= sizes);
    } else {
        lemma_total_take(sizes, i);
        lemma_total_prefix(sizes, i + 1);
    }
}

/// A sum over a prefix that starts one later is less by the first size.
pub proof fn lemma_total_rest(sizes: Seq<nat>, i: int)
    requires
        0 <= i < sizes.len(),
    ensures
        total(sizes.take(i + 1)) == sizes.first() + total(sizes.drop_first().take(i)),
{
    assert(sizes.take(i + 1).drop_first() =~= sizes.drop_first().take(i));
}

/// A packet that is added behind some entries is their last packet; padding is none.
pub proof fn lemma_packets_push(entries: Seq<Entry>, entry: Entry)
    ensures
        packets_of(entries.push(entry)) == (match entry {
            Entry::Packet(data) => packets_of(entries).push(data),
            Entry::Padding(_) => packets_of(entries),
        }),
    decreases entries.len(),
{
    if entries.len() == 0 {
        assert(entries.push(entry).drop_first() =~= entries);
    } else {
        assert(entries.push(entry).drop_first() =~= entries.drop_first().push(entry));
        lemma_packets_push(entries.drop_first(), entry);
    }
}

/// Some packets take no more octets than the entries that they are among.
pub proof fn lemma_octets_bound(entries: Seq<Entry>)
    ensures
        octets(packets_of(entries)) <= total(sizes_of(entries)),
    decreases entries.len(),
{
    if entries.len() > 0 {
        let rest = entries.drop_first();
        lemma_octets_bound(rest);
        assert(sizes_of(entries).drop_first() =~= sizes_of(rest));
        match entries.first() {
            Entry::Packet(data) => {
                lemma_octets_first(packets_of(entries));
                assert(packets_of(entries).drop_first() =~= packets_of(rest));
            },
            Entry::Padding(_) => {},
        }
    }
}

/// The octets of some packets are those of the first and those of the rest.
pub proof fn lemma_octets_first(packets: Seq<Seq<u8>>)
    requires
        packets.len() > 0,
    ensures
        octets(packets) == packets.first().len() + octets(packets.drop_first()),
{
    let lengths = packets.map_values(|packet: Seq<u8>| packet.len());
    assert(lengths.drop_first() =~= packets.drop_first().map_values(
        |packet: Seq<u8>| packet.len(),
    ));
}

/// A packet that is added behind some packets adds its octets.
pub proof fn lemma_octets_push(packets: Seq<Seq<u8>>, data: Seq<u8>)
    ensures
        octets(packets.push(data)) == octets(packets) + data.len(),
{
    let lengths = packets.map_values(|packet: Seq<u8>| packet.len());
    assert(packets.push(data).map_values(|packet: Seq<u8>| packet.len()) =~= lengths.push(
        data.len(),
    ));
    lemma_total_push(lengths, data.len());
}

/// What adding an entry behind the others does to the places of the entries.
pub proof fn lemma_push_offsets(queue: PacketQueue, entry: Entry)
    ensures
        ({
            let pushed = PacketQueue { entries: queue.entries.push(entry), ..queue };
            &&& pushed.occupied() == queue.occupied() + entry.size()
            &&& forall|i: int|
                0 <= i <= queue.entries.len() ==> #[trigger] pushed.offset(i) == queue.offset(i)
            &&& pushed.offset(queue.entries.len() as int) == queue.occupied()
        }),
{
    let pushed = PacketQueue { entries: queue.entries.push(entry), ..queue };
    let sizes = sizes_of(queue.entries);
    assert(sizes_of(pushed.entries) =~= sizes.push(entry.size()));
    lemma_total_push(sizes, entry.size());
    assert forall|i: int| 0 <= i <= queue.entries.len() implies #[trigger] pushed.offset(i)
        == queue.offset(i) by {
        assert(sizes.push(entry.size()).take(i) =~= sizes.take(i));
    }
    assert(sizes.take(sizes.len() as int) =~= sizes);
    assert(queue.offset(queue.entries.len() as int) == queue.occupied());
}

/// Entries lie inside the part of the storage that is in use.
pub proof fn lemma_offset_bound(queue: PacketQueue, i: int)
    requires
        0 <= i < queue.entries.len(),
    ensures
        queue.offset(i) + queue.entries[i].size() == queue.offset(i + 1) <= queue.occupied(),
{
    lemma_total_take(sizes_of(queue.entries), i);
    lemma_total_prefix(sizes_of(queue.entries), i + 1);
}

/// Taking the oldest entry out keeps the others where they are.
pub proof fn lemma_pop(queue: PacketQueue)
    requires
        queue.wf(),
        queue.entries.len() > 0,
    ensures
        queue.pop().wf(),
        queue.pop().occupied() == queue.occupied() - queue.entries.first().size(),
        queue.pop().packets() == (match queue.entries.first() {
            Entry::Packet(_) => queue.packets().drop_first(),
            Entry::Padding(_) => queue.packets(),
        }),
{
    let popped = queue.pop();
    let size = queue.entries.first().size();
    let sizes = sizes_of(queue.entries);
    assert(sizes_of(popped.entries) =~= sizes.drop_first());
    assert forall|i: int| 0 <= i < popped.entries.len() implies #[trigger] popped.unbroken_at(
        i,
    ) by {
        assert(popped.entries[i] == queue.entries[i + 1]);
        lemma_total_rest(sizes, i);
        assert(queue.offset(i + 1) == size + popped.offset(i));
        lemma_offset_bound(queue, i + 1);
    }
    assert(separated(popped.entries));
    match queue.entries.first() {
        Entry::Packet(_) => {
            assert(queue.packets().drop_first() =~= popped.packets());
        },
        Entry::Padding(_) => {},
    }
}

/// A queue has entries exactly where it has packets.
pub proof fn law_entries_iff_packets(queue: PacketQueue)
    requires
        queue.wf(),
    ensures
        queue.entries.len() == 0 <==> queue.packets().len() == 0,
{
    if queue.entries.len() > 0 {
        assert(queue.entries.first() == queue.entries[0]);
        if queue.entries.first() is Padding {
            assert(queue.entries.drop_first().first() == queue.entries[1]);
            assert(packets_of(queue.entries.drop_first()).len() > 0);
        }
    }
}

/// Passing over the padding changes no packet, and leaves the oldest packet in front.
pub proof fn law_trimmed_keeps_packets(queue: PacketQueue)
    requires
        queue.wf(),
    ensures
        queue.trimmed().wf(),
        queue.trimmed().packets() == queue.packets(),
        queue.trimmed().trimmed() == queue.trimmed(),
        queue.entries.len() == 0 ==> queue.trimmed() == queue,
        queue.entries.len() > 0 ==> {
            &&& queue.trimmed().entries.len() > 0
            &&& queue.trimmed().entries.first() == Entry::Packet(queue.front())
        },
{
    if queue.entries.len() > 0 {
        assert(queue.entries.first() == queue.entries[0]);
        if queue.entries.first() is Padding {
            lemma_pop(queue);
            assert(queue.trimmed().entries.first() == queue.entries[1]);
        }
    }
}

/// Packets leave in the order in which they came: the oldest goes, the others stay.
pub proof fn law_dequeue_takes_first(queue: PacketQueue)
    requires
        queue.wf(),
        queue.entries.len() > 0,
    ensures
        queue.packets().len() > 0,
        queue.dequeue().wf(),
        queue.dequeue().packets() == queue.packets().drop_first(),
        queue.front() == queue.packets().first(),
{
    law_entries_iff_packets(queue);
    law_trimmed_keeps_packets(queue);
    lemma_pop(queue.trimmed());
}

/// A packet that finds room is queued behind the others, none of which changes.
pub proof fn law_enqueue_appends(queue: PacketQueue, size: nat, data: Seq<u8>)
    requires
        queue.wf(),
        queue.accommodates(size),
        data.len() <= size,
    ensures
        queue.enqueue(size, data).wf(),
        queue.enqueue(size, data).packets() == queue.packets().push(data),
{
    lemma_padded(queue, size);
    let padded = queue.padded(size);
    let queued = queue.enqueue(size, data);
    lemma_push_offsets(padded, Entry::Packet(data));
    lemma_packets_push(padded.entries, Entry::Packet(data));
    assert forall|i: int| 0 <= i < queued.entries.len() implies #[trigger] queued.unbroken_at(
        i,
    ) by {
        if i < padded.entries.len() {
            assert(queued.entries[i] == padded.entries[i]);
            assert(queued.offset(i) == padded.offset(i));
        } else {
            assert(queued.offset(i) == padded.occupied());
        }
    }
    assert(separated(queued.entries));
}

/// Packets leave in the order in which they came: a packet that is queued behind others
/// changes neither which one leaves next nor what stays in front of it.
pub proof fn law_first_in_first_out(queue: PacketQueue, size: nat, data: Seq<u8>)
    requires
        queue.wf(),
        queue.accommodates(size),
        data.len() <= size,
    ensures
        queue.packets().len() == 0 ==> {
            &&& queue.enqueue(size, data).front() == data
            &&& queue.enqueue(size, data).dequeue().packets() == Seq::<Seq<u8>>::empty()
        },
        queue.packets().len() > 0 ==> {
            &&& queue.enqueue(size, data).front() == queue.front()
            &&& queue.enqueue(size, data).dequeue().packets() == queue.dequeue().packets().push(
                data,
            )
        },
{
    law_enqueue_appends(queue, size, data);
    let queued = queue.enqueue(size, data);
    law_dequeue_takes_first(queued);
    if queue.packets().len() > 0 {
        law_entries_iff_packets(queue);
        law_dequeue_takes_first(queue);
        assert(queue.packets().push(data).drop_first() =~= queue.packets().drop_first().push(data));
    } else {
        assert(queue.packets().push(data).drop_first() =~= Seq::<Seq<u8>>::empty());
    }
}

/// Making room leaves the packets where they are, and the room is behind the last entry.
pub proof fn lemma_padded(queue: PacketQueue, size: nat)
    requires
        queue.wf(),
        queue.accommodates(size),
    ensures
        queue.padded(size).packets() == queue.packets(),
        ({
            let padded = queue.padded(size);
            &&& padded.head < padded.payload_capacity || padded.head == 0
            &&& padded.entries.len() < padded.packet_capacity
            &&& padded.occupied() + size <= padded.payload_capacity
            &&& size <= padded.contiguous_window()
            &&& padded.unbroken()
            &&& separated(padded.entries)
        }),
{
    let rewound = queue.rewound();
    let padded = queue.padded(size);
    assert forall|i: int| 0 <= i < rewound.entries.len() implies #[trigger] rewound.unbroken_at(
        i,
    ) by {
        assert(rewound.entries[i] == queue.entries[i]);
        assert(rewound.offset(i) == queue.offset(i));
        lemma_offset_bound(queue, i);
    }
    if size > rewound.contiguous_window() {
        let padding = Entry::Padding(rewound.contiguous_window());
        lemma_push_offsets(rewound, padding);
        lemma_packets_push(rewound.entries, padding);
        assert forall|i: int| 0 <= i < padded.entries.len() implies #[trigger] padded.unbroken_at(
            i,
        ) by {
            if i < rewound.entries.len() {
                assert(rewound.unbroken_at(i));
                assert(padded.offset(i) == rewound.offset(i));
            }
        }
        assert(separated(padded.entries));
    }
}

/// An empty queue takes every packet up to its capacity, wherever the last one lay.
pub proof fn law_empty_accommodates(queue: PacketQueue, size: nat)
    requires
        queue.wf(),
        queue.entries.len() == 0,
        queue.packet_capacity > 0,
    ensures
        queue.accommodates(size) <==> size <= queue.payload_capacity,
{
}

/// A packet that is larger than the payload storage never finds room.
pub proof fn law_oversized_never_fits(queue: PacketQueue, size: nat)
    requires
        queue.wf(),
        size > queue.payload_capacity,
    ensures
        !queue.accommodates(size),
{
}

/// A queue without a free entry takes no packet, not even an empty one.
pub proof fn law_full_refuses(queue: PacketQueue, size: nat)
    requires
        queue.entries.len() == queue.packet_capacity,
    ensures
        !queue.accommodates(size),
{
}

/// A smaller packet finds room wherever a larger one does.
pub proof fn law_smaller_fits(queue: PacketQueue, size: nat, smaller: nat)
    requires
        queue.accommodates(size),
        smaller <= size,
    ensures
        queue.accommodates(smaller),
{
}

/// Packets never take more octets than the storage has, and padding is not counted.
pub proof fn law_octets_bound(queue: PacketQueue)
    requires
        queue.wf(),
    ensures
        octets(queue.packets()) <= queue.occupied() <= queue.payload_capacity,
{
    lemma_octets_bound(queue.entries);
}

/// Other octets in the oldest packet leave everything else as it is.
pub proof fn law_with_front(queue: PacketQueue, data: Seq<u8>)
    requires
        queue.wf(),
        queue.entries.len() > 0,
        data.len() == queue.front().len(),
    ensures
        queue.with_front(data).wf(),
        queue.with_front(data).packets() == queue.packets().update(0, data),
        queue.with_front(data).dequeue() == queue.dequeue(),
        queue.with_front(data).with_front(data) == queue.with_front(data),
{
    law_entries_iff_packets(queue);
    law_trimmed_keeps_packets(queue);
    let trimmed = queue.trimmed();
    let changed = queue.with_front(data);
    assert(sizes_of(changed.entries) =~= sizes_of(trimmed.entries));
    assert forall|i: int| 0 <= i < changed.entries.len() implies #[trigger] changed.unbroken_at(
        i,
    ) by {
        assert(trimmed.unbroken_at(i));
        assert(changed.offset(i) == trimmed.offset(i));
    }
    assert(separated(changed.entries));
    assert(changed.entries.drop_first() =~= trimmed.entries.drop_first());
    assert(changed.packets() =~= trimmed.packets().update(0, data));
    assert(changed.dequeue() =~= queue.dequeue());
    assert(changed.with_front(data) =~= changed);
}

} // verus!
