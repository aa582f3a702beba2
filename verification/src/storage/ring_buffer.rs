//! A ring buffer.

use vstd::prelude::*;

use super::managed::Storage;

verus! {

/// The position that lies `distance` behind `position` on a circle of `capacity` places.
pub open spec fn wrap(position: nat, distance: nat, capacity: nat) -> nat {
    if position + distance >= capacity {
        (position + distance - capacity) as nat
    } else {
        position + distance
    }
}

/// A ring buffer: a queue whose elements lie in a fixed storage, one behind the other,
/// going on at the start of the storage when its end is reached.
///
/// Its view is the queue itself, oldest element first. Where the oldest element lies in
/// the storage is [`head`](RingBuffer::head).
#[derive(Debug)]
pub struct RingBuffer<'a, T> {
    storage: Storage<'a, T>,
    read_at: usize,
    length: usize,
}

impl<'a, T> View for RingBuffer<'a, T> {
    type V = Seq<T>;

    closed spec fn view(&self) -> Seq<T> {
        Seq::new(
            self.length as nat,
            |i: int| self.storage@[wrap(self.head(), i as nat, self.storage@.len()) as int],
        )
    }
}

impl<'a, T> RingBuffer<'a, T> {
    /// How many elements the buffer can hold.
    pub closed spec fn capacity_spec(&self) -> nat {
        self.storage@.len()
    }

    /// Where the oldest element lies.
    pub closed spec fn head(&self) -> nat {
        self.read_at as nat
    }

    /// Where the next element goes.
    pub open spec fn tail(&self) -> nat {
        wrap(self.head(), self@.len(), self.capacity_spec())
    }

    /// How many elements can be added without going on at the start of the storage.
    pub open spec fn contiguous_window_spec(&self) -> nat {
        let window = (self.capacity_spec() - self@.len()) as nat;
        let run = (self.capacity_spec() - self.tail()) as nat;
        if window < run { window } else { run }
    }

    /// The positions lie inside the storage.
    pub closed spec fn wf(&self) -> bool {
        &&& self.length <= self.storage@.len()
        &&& self.storage@.len() <= usize::MAX
        &&& self.read_at < self.storage@.len() || self.read_at == 0
    }

    /// The bounds that every well-formed buffer keeps.
    pub proof fn lemma_bounds(&self)
        requires
            self.wf(),
        ensures
            self@.len() <= self.capacity_spec() <= usize::MAX,
            self.head() < self.capacity_spec() || self.head() == 0,
    {
    }

    /// Create an empty buffer over the given storage.
    pub fn new(storage: Storage<'a, T>) -> (buffer: RingBuffer<'a, T>)
        ensures
            buffer.wf(),
            buffer@ == Seq::<T>::empty(),
            buffer.head() == 0,
            buffer.capacity_spec() == storage@.len(),
    {
        proof {
            storage.lemma_len();
        }
        RingBuffer { storage, read_at: 0, length: 0 }
    }

    /// Drop all elements, and go back to the start of the storage.
    pub fn clear(&mut self)
        requires
            old(self).wf(),
        ensures
            final(self).wf(),
            final(self)@ == Seq::<T>::empty(),
            final(self).head() == 0,
            final(self).capacity_spec() == old(self).capacity_spec(),
    {
        self.read_at = 0;
        self.length = 0;
    }

    /// Return the maximum number of elements in the buffer.
    pub fn capacity(&self) -> (capacity: usize)
        ensures
            capacity == self.capacity_spec(),
    {
        self.storage.as_slice().len()
    }

    /// Return the number of elements in the buffer.
    pub fn len(&self) -> (length: usize)
        ensures
            length == self@.len(),
    {
        self.length
    }

    /// Query whether the buffer is empty.
    pub fn is_empty(&self) -> (empty: bool)
        ensures
            empty == (self@.len() == 0),
    {
        self.length == 0
    }

    /// Return the number of elements that can be added to the buffer.
    pub fn window(&self) -> (window: usize)
        requires
            self.wf(),
        ensures
            window == self.capacity_spec() - self@.len(),
    {
        self.capacity() - self.length
    }

    /// Query whether the buffer is full.
    pub fn is_full(&self) -> (full: bool)
        requires
            self.wf(),
        ensures
            full == (self@.len() == self.capacity_spec()),
    {
        self.window() == 0
    }

    /// Where the place `distance` behind the oldest element lies.
    fn position(&self, distance: usize) -> (position: usize)
        requires
            self.wf(),
            distance <= self.capacity_spec(),
        ensures
            position == wrap(self.head(), distance as nat, self.capacity_spec()),
    {
        let capacity: usize = self.capacity();
        if self.read_at >= capacity - distance {
            self.read_at - (capacity - distance)
        } else {
            self.read_at + distance
        }
    }

    /// Return the largest number of elements that can be added to the buffer
    /// without wrapping around.
    pub fn contiguous_window(&self) -> (window: usize)
        requires
            self.wf(),
        ensures
            window == self.contiguous_window_spec(),
    {
        let window: usize = self.window();
        let run: usize = self.capacity() - self.position(self.length);
        if window < run {
            window
        } else {
            run
        }
    }

    /// Add one element behind the others.
    pub fn enqueue_one(&mut self, element: T)
        requires
            old(self).wf(),
            old(self)@.len() < old(self).capacity_spec(),
        ensures
            final(self).wf(),
            final(self)@ == old(self)@.push(element),
            final(self).head() == old(self).head(),
            final(self).capacity_spec() == old(self).capacity_spec(),
    {
        let index: usize = self.position(self.length);
        self.storage.as_mut_slice()[index] = element;
        self.length = self.length + 1;
    }

    /// Take the oldest element out.
    pub fn dequeue_one(&mut self)
        requires
            old(self).wf(),
            old(self)@.len() > 0,
        ensures
            final(self).wf(),
            final(self)@ == old(self)@.drop_first(),
            final(self).head() == wrap(old(self).head(), 1, old(self).capacity_spec()),
            final(self).capacity_spec() == old(self).capacity_spec(),
    {
        self.skip(1);
    }

    /// Look at the oldest element.
    pub fn front(&self) -> (element: &T)
        requires
            self.wf(),
            self@.len() > 0,
        ensures
            *element == self@[0],
    {
        &self.storage.as_slice()[self.read_at]
    }

    /// Add `size` elements behind the others, and lend them out to be written. Like every
    /// slice they are as many when they are given back.
    pub fn enqueue_many(&mut self, size: usize) -> (elements: &mut [T])
        requires
            old(self).wf(),
            size <= old(self).contiguous_window_spec(),
        ensures
            elements@.len() == size,
            final(elements)@.len() == size ==> {
                &&& final(self).wf()
                &&& final(self)@ == old(self)@ + final(elements)@
                &&& final(self).head() == old(self).head()
                &&& final(self).capacity_spec() == old(self).capacity_spec()
            },
    {
        let start: usize = self.position(self.length);
        self.length = self.length + size;
        let (_, rest) = self.storage.as_mut_slice().split_at_mut(start);
        let (elements, _) = rest.split_at_mut(size);
        elements
    }

    /// Call `f` with `max_size` places behind the elements, and add as many elements as it
    /// says.
    pub fn enqueue_many_with<F>(&mut self, max_size: usize, f: F) -> (size: usize) where
        F: FnOnce(&mut [T]) -> usize,

        requires
            old(self).wf(),
            max_size <= old(self).contiguous_window_spec(),
            forall|elements: &mut [T]|
                elements@.len() == max_size ==> #[trigger] call_requires(f, (elements,)),
            forall|elements: &mut [T], size: usize|
                elements@.len() == max_size && #[trigger] call_ensures(f, (elements,), size)
                    ==> size <= max_size && final(elements)@.len() == max_size,
        ensures
            final(self).wf(),
            final(self).head() == old(self).head(),
            final(self).capacity_spec() == old(self).capacity_spec(),
            size <= max_size,
            exists|elements: &mut [T]|
                {
                    &&& #[trigger] call_ensures(f, (elements,), size)
                    &&& elements@.len() == max_size
                    &&& final(elements)@.len() == max_size
                    &&& final(self)@ == old(self)@ + final(elements)@.take(size as int)
                },
    {
        let length: usize = self.length;
        let elements = self.enqueue_many(max_size);
        let size: usize = f(elements);
        assert(exists|lent: &mut [T]|
            {
                &&& #[trigger] call_ensures(f, (lent,), size)
                &&& lent@.len() == max_size
                &&& self@ == old(self)@ + final(lent)@
            });
        let ghost filled = self@;
        self.length = length + size;
        assert(self@ =~= filled.take(length + size));
        size
    }

    /// Take the oldest `size` elements out.
    pub fn skip(&mut self, size: usize)
        requires
            old(self).wf(),
            size <= old(self)@.len(),
        ensures
            final(self).wf(),
            final(self)@ == old(self)@.skip(size as int),
            final(self).head() == wrap(old(self).head(), size as nat, old(self).capacity_spec()),
            final(self).capacity_spec() == old(self).capacity_spec(),
    {
        let next: usize = self.position(size);
        self.length = self.length - size;
        self.read_at = next;
    }

    /// Look at the oldest `size` elements, which must lie in one piece.
    pub fn front_many(&self, size: usize) -> (elements: &[T])
        requires
            self.wf(),
            size <= self@.len(),
            self.head() + size <= self.capacity_spec(),
        ensures
            elements@ == self@.take(size as int),
    {
        let (_, rest) = self.storage.as_slice().split_at(self.read_at);
        let (elements, _) = rest.split_at(size);
        elements
    }

    /// Lend out the oldest `size` elements, which must lie in one piece, to be changed.
    pub fn front_many_mut(&mut self, size: usize) -> (elements: &mut [T])
        requires
            old(self).wf(),
            size <= old(self)@.len(),
            old(self).head() + size <= old(self).capacity_spec(),
        ensures
            elements@ == old(self)@.take(size as int),
            final(elements)@.len() == size ==> {
                &&& final(self).wf()
                &&& final(self)@ == final(elements)@ + old(self)@.skip(size as int)
                &&& final(self).head() == old(self).head()
                &&& final(self).capacity_spec() == old(self).capacity_spec()
            },
    {
        let (_, rest) = self.storage.as_mut_slice().split_at_mut(self.read_at);
        let (elements, _) = rest.split_at_mut(size);
        elements
    }

    /// Take the oldest `size` elements, which must lie in one piece, out, and lend them out.
    pub fn dequeue_many(&mut self, size: usize) -> (elements: &[T])
        requires
            old(self).wf(),
            size <= old(self)@.len(),
            old(self).head() + size <= old(self).capacity_spec(),
        ensures
            elements@ == old(self)@.take(size as int),
            final(self).wf(),
            final(self)@ == old(self)@.skip(size as int),
            final(self).head() == wrap(old(self).head(), size as nat, old(self).capacity_spec()),
            final(self).capacity_spec() == old(self).capacity_spec(),
    {
        let start: usize = self.read_at;
        self.read_at = self.position(size);
        self.length = self.length - size;
        let (_, rest) = self.storage.as_slice().split_at(start);
        let (elements, _) = rest.split_at(size);
        elements
    }
}

} // verus!
