//! A fast fixed-size vector. It has a preallocated buffer and an
//! active-prefix length. Removal swaps the last active element into the
//! freed slot, so it is O(1) and keeps the active elements contiguous at the
//! front. To iterate, walk the indexes `0..size()`; the position of an
//! element may change when another one is deleted.
use vstd::prelude::*;

verus! {

/// Fixed-size vector with an active prefix.
pub struct Vector<T: Copy> {
    /// The whole preallocated buffer. The first [`Vector::size`] elements
    /// are the active ones.
    pub data: Vec<T>,
    /// Index of the first inactive element, i.e. the amount of active ones.
    idx: usize,
    /// Amount of all (active + removed) elements the buffer can hold.
    size: usize,
}

impl<T: Copy> Vector<T> {
    /// The amount of active elements, for specifications.
    pub closed spec fn spec_size(&self) -> int {
        self.idx as int
    }

    /// The capacity, for specifications.
    pub closed spec fn spec_cap(&self) -> int {
        self.size as int
    }

    /// The whole buffer, for specifications.
    pub closed spec fn spec_data(&self) -> Seq<T> {
        self.data@
    }

    /// The buffer holds exactly the capacity and the active prefix fits in
    /// it.
    pub open spec fn wf(&self) -> bool {
        &&& self.spec_data().len() == self.spec_cap()
        &&& 0 <= self.spec_size() <= self.spec_cap()
    }

    /// The active elements, in order.
    pub open spec fn spec_active(&self) -> Seq<T> {
        self.spec_data().take(self.spec_size())
    }

    /// Returns a new vector with `size` preallocated slots and no active
    /// element.
    pub fn new(size: usize) -> (v: Vector<T>) where T: core::default::Default
        ensures
            v.wf(),
            v.spec_size() == 0,
            v.spec_cap() == size,
    {
        let mut data: Vec<T> = Vec::new();
        let mut i: usize = 0;
        while i < size
            invariant
                i <= size,
                data@.len() == i,
            decreases size - i,
        {
            data.push(T::default());
            i += 1;
        }
        Vector { data, idx: 0, size }
    }

    /// Appends an element after the active prefix. A full vector stays
    /// unchanged and the call reports failure.
    pub fn add(&mut self, data: T) -> (r: bool)
        requires
            old(self).wf(),
        ensures
            final(self).wf(),
            final(self).spec_cap() == old(self).spec_cap(),
            old(self).spec_size() == old(self).spec_cap() ==> !r && *final(self) == *old(self),
            old(self).spec_size() < old(self).spec_cap() ==> r && final(self).spec_size() == old(
                self,
            ).spec_size() + 1 && final(self).spec_data() == old(self).spec_data().update(
                old(self).spec_size(),
                data,
            ),
    {
        if self.idx == self.size {
            return false;
        }
        self.data.set(self.idx, data);
        self.idx += 1;
        true
    }

    /// Deletes the element at `index` by swapping the last active element
    /// into its place. Reports failure when the index is not active.
    pub fn del(&mut self, index: usize) -> (r: bool)
        requires
            old(self).wf(),
        ensures
            final(self).wf(),
            final(self).spec_cap() == old(self).spec_cap(),
            !(0 <= index < old(self).spec_size()) ==> !r && *final(self) == *old(self),
            0 <= index < old(self).spec_size() ==> r && final(self).spec_size() == old(
                self,
            ).spec_size() - 1 && final(self).spec_data() == old(self).spec_data().update(
                index as int,
                old(self).spec_data()[old(self).spec_size() - 1],
            ),
    {
        if self.idx < 1 || index >= self.idx {
            return false;
        }
        self.idx -= 1;
        let last = self.data[self.idx];
        self.data.set(index, last);
        true
    }

    /// Reads the element at a position of the buffer.
    pub fn get(&self, index: usize) -> (r: T)
        requires
            self.wf(),
            index < self.spec_cap(),
        ensures
            r == self.spec_data()[index as int],
    {
        self.data[index]
    }

    /// Overwrites the element at a position of the buffer; the active
    /// prefix length stays as it is.
    pub fn set(&mut self, index: usize, value: T)
        requires
            old(self).wf(),
            index < old(self).spec_cap(),
        ensures
            final(self).wf(),
            final(self).spec_cap() == old(self).spec_cap(),
            final(self).spec_size() == old(self).spec_size(),
            final(self).spec_data() == old(self).spec_data().update(index as int, value),
    {
        self.data.set(index, value);
    }

    /// The amount of active elements.
    pub fn size(&self) -> (r: usize)
        ensures
            r == self.spec_size(),
    {
        self.idx
    }

    /// Whether no further element can be added.
    pub fn full(&self) -> (r: bool)
        ensures
            r == (self.spec_size() >= self.spec_cap()),
    {
        self.idx >= self.size
    }
}

} // verus!
