//! A two-slot lagged buffer: the current value of a quantity and the value it
//! held one step earlier.
use crate::scalar::{exact, zero, Scalar};
use vstd::prelude::*;

verus! {

/// The last two values of a quantity. There is no history beyond one step.
pub struct LastTwo<T> {
    pub prev: T,
    pub curr: T,
}

impl<T> LastTwo<T> {
    pub fn new(prev: T, curr: T) -> (r: Self)
        ensures
            r.prev == prev,
            r.curr == curr,
    {
        Self { prev, curr }
    }

    pub fn prev(&self) -> (r: &T)
        ensures
            *r == self.prev,
    {
        &self.prev
    }

    pub fn set_prev(&mut self, prev: T)
        ensures
            final(self).prev == prev,
            final(self).curr == old(self).curr,
    {
        self.prev = prev;
    }

    pub fn curr(&self) -> (r: &T)
        ensures
            *r == self.curr,
    {
        &self.curr
    }

    pub fn set_curr(&mut self, curr: T)
        ensures
            final(self).curr == curr,
            final(self).prev == old(self).prev,
    {
        self.curr = curr;
    }

    /// Shifts the buffer by one step: `item` becomes the current value, the
    /// old current value becomes the previous one, and the old previous value
    /// is handed back.
    pub fn append(&mut self, item: T) -> (evicted: T)
        ensures
            evicted == old(self).prev,
            final(self).prev == old(self).curr,
            final(self).curr == item,
    {
        let mut slot = item;
        core::mem::swap(&mut self.curr, &mut slot);
        core::mem::swap(&mut self.prev, &mut slot);
        slot
    }
}

impl<T: Scalar> Default for LastTwo<T> {
    /// Both slots at zero.
    fn default() -> (r: Self)
        ensures
            exact::<T>() ==> r.prev == zero::<T>() && r.curr == zero::<T>(),
    {
        LastTwo { prev: T::from(0u8), curr: T::from(0u8) }
    }
}

} // verus!
