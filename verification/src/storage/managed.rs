//! Storage that is either owned or borrowed.

use vstd::prelude::*;

verus! {

/// A fixed run of elements, owned or borrowed for the lifetime `'a`.
#[derive(Debug)]
pub enum Storage<'a, T> {
    /// Elements that live on the heap.
    Owned(Vec<T>),
    /// Elements that somebody else owns.
    Borrowed(&'a mut [T]),
}

impl<'a, T> View for Storage<'a, T> {
    type V = Seq<T>;

    open spec fn view(&self) -> Seq<T> {
        match *self {
            Storage::Owned(elements) => elements@,
            Storage::Borrowed(elements) => elements@,
        }
    }
}

impl<'a, T> Storage<'a, T> {
    /// There are no more elements than can be counted.
    pub proof fn lemma_len(&self)
        ensures
            self@.len() <= usize::MAX,
    {
        match *self {
            Storage::Owned(elements) => assert(elements@.len() == elements.len()),
            Storage::Borrowed(elements) => assert(elements@.len() == elements.len()),
        }
    }

    /// The elements, to read.
    pub fn as_slice(&self) -> (elements: &[T])
        ensures
            elements@ == self@,
    {
        match self {
            Storage::Owned(elements) => elements.as_slice(),
            Storage::Borrowed(elements) => &**elements,
        }
    }

    /// The elements, to read and write.
    pub fn as_mut_slice(&mut self) -> (elements: &mut [T])
        ensures
            elements@ == old(self)@,
            final(self)@ == final(elements)@,
    {
        match self {
            Storage::Owned(elements) => elements.as_mut_slice(),
            Storage::Borrowed(elements) => &mut **elements,
        }
    }
}

} // verus!
