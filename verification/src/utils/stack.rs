//! A fixed-capacity stack of copyable elements. Pushing onto a full stack
//! reports failure and changes nothing.
use vstd::prelude::*;

verus! {

/// Fixed capacity LIFO stack.
pub struct Stack<T> {
    data: Vec<T>,
    size: usize,
}

impl<T> View for Stack<T> {
    type V = Seq<T>;

    closed spec fn view(&self) -> Seq<T> {
        self.data@
    }
}

impl<T: Copy> Stack<T> {
    /// The capacity the stack was created with.
    pub closed spec fn spec_cap(&self) -> int {
        self.size as int
    }

    /// The capacity is an amount, so it is never below zero.
    pub proof fn lemma_cap_nonneg(&self)
        ensures
            self.spec_cap() >= 0,
    {
    }

    /// Creates an empty stack that can hold up to `size` elements.
    pub fn new(size: usize) -> (s: Stack<T>)
        ensures
            s@ == Seq::<T>::empty(),
            s.spec_cap() == size,
    {
        Stack { data: Vec::new(), size }
    }

    /// Puts an element on the stack's tail. A full stack stays unchanged
    /// and the push reports failure.
    pub fn push(&mut self, data: T) -> (r: bool)
        ensures
            old(self)@.len() < old(self).spec_cap() ==> r && final(self)@ == old(self)@.push(data),
            old(self)@.len() >= old(self).spec_cap() ==> !r && final(self)@ == old(self)@,
            final(self).spec_cap() == old(self).spec_cap(),
    {
        if self.data.len() >= self.size {
            return false;
        }
        self.data.push(data);
        true
    }

    /// Returns the element from the stack's tail and removes it, or nothing
    /// when the stack is empty.
    pub fn pop(&mut self) -> (r: Option<T>)
        ensures
            old(self)@.len() > 0 ==> r == Some(old(self)@.last()) && final(self)@ == old(
                self,
            )@.drop_last(),
            old(self)@.len() == 0 ==> r == Option::<T>::None && final(self)@ == old(self)@,
            final(self).spec_cap() == old(self).spec_cap(),
    {
        self.data.pop()
    }

    /// Removes the tail element without returning it; an empty stack stays
    /// empty.
    pub fn shrink(&mut self)
        ensures
            old(self)@.len() > 0 ==> final(self)@ == old(self)@.drop_last(),
            old(self)@.len() == 0 ==> final(self)@ == old(self)@,
            final(self).spec_cap() == old(self).spec_cap(),
    {
        self.data.pop();
    }

    /// Returns the tail element without changing the stack, or nothing when
    /// the stack is empty.
    pub fn last(&self) -> (r: Option<T>)
        ensures
            self@.len() > 0 ==> r == Some(self@.last()),
            self@.len() == 0 ==> r == Option::<T>::None,
    {
        let n = self.data.len();
        if n == 0 {
            return None;
        }
        Some(self.data[n - 1])
    }

    /// Fast reset of the stack.
    pub fn clear(&mut self)
        ensures
            final(self)@ == Seq::<T>::empty(),
            final(self).spec_cap() == old(self).spec_cap(),
    {
        self.data.clear();
    }

    /// Returns true if the stack holds no element.
    pub fn empty(&self) -> (r: bool)
        ensures
            r == (self@.len() == 0),
    {
        self.data.len() == 0
    }
}

} // verus!
