//! The array of slots underlying a circular buffer.
//!
//! Each slot holds an element together with the index it was written for. The `i`-th slot can
//! only hold elements whose index is `i + N * cap` for an integer `N`, so comparing the stored
//! index with a queried one tells whether the slot holds the element for that index.
use vstd::prelude::*;
use crate::ring::{is_capacity, lemma_capacity, lemma_mask_is_mod, lemma_wrap_mod};

verus! {

/// A slot of the array: an index and the element written for it, if any.
#[derive(Debug)]
pub struct Slot<T> {
    /// The index the slot was last written for.
    pub index: usize,
    /// The element written for `index`, until it is read.
    pub data: Option<T>,
}

/// An array of slots whose size is a power of two.
#[derive(Debug)]
pub struct Array<T> {
    slots: Vec<Slot<T>>,
}

impl<T> View for Array<T> {
    type V = Seq<Slot<T>>;

    closed spec fn view(&self) -> Seq<Slot<T>> {
        self.slots@
    }
}

/// The slot that a fresh array holds at position `i`: marked with the index `i + 1`, which the
/// slot cannot hold, and empty.
pub open spec fn fresh_slot<T>(i: int) -> Slot<T> {
    Slot { index: (i + 1) as usize, data: None }
}

impl<T> Array<T> {
    /// The position of `index` in an array of `size` slots.
    pub open spec fn position(index: usize, size: nat) -> int {
        index as int % size as int
    }

    /// Returns a new array of `cap` slots, each marked with an index it cannot hold.
    pub fn new(cap: usize) -> (a: Self)
        requires
            is_capacity(cap as int),
        ensures
            a@.len() == cap,
            forall|i: int| 0 <= i < cap ==> #[trigger] a@[i] == fresh_slot::<T>(i),
    {
        proof {
            lemma_capacity(cap as int);
        }
        let mut slots: Vec<Slot<T>> = Vec::new();
        let mut i: usize = 0;
        while i < cap
            invariant
                i <= cap,
                cap <= usize::MAX,
                slots@.len() == i,
                forall|j: int| 0 <= j < i ==> #[trigger] slots@[j] == fresh_slot::<T>(j),
            decreases cap - i,
        {
            slots.push(Slot { index: i + 1, data: None });
            i = i + 1;
        }
        Array { slots }
    }

    /// Returns the number of slots.
    pub fn size(&self) -> (n: usize)
        ensures
            n == self@.len(),
    {
        self.slots.len()
    }

    /// Returns the position of the slot for the specified `index`.
    pub fn at(&self, index: usize) -> (p: usize)
        requires
            is_capacity(self@.len() as int),
        ensures
            p == Self::position(index, self@.len()),
            p < self@.len(),
    {
        let size = self.slots.len();
        proof {
            lemma_capacity(size as int);
            lemma_mask_is_mod(index, size);
        }
        index & (size - 1)
    }

    /// Reads a value from the specified `index`.
    ///
    /// Returns `Some(v)` if `v` is at `index`, and `None` if there is no valid value for
    /// `index`. A value that is read leaves its slot.
    pub fn read(&mut self, index: usize) -> (r: Option<T>)
        requires
            is_capacity(old(self)@.len() as int),
        ensures
            ({
                let p = Self::position(index, old(self)@.len());
                let s = old(self)@[p];
                if s.index == index {
                    &&& r == s.data
                    &&& final(self)@ == old(self)@.update(p, Slot { index, data: None })
                } else {
                    &&& r is None
                    &&& final(self)@ == old(self)@
                }
            }),
    {
        let p = self.at(index);
        if self.slots[p].index != index {
            return None;
        }
        self.slots[p].data.take()
    }

    /// Writes `value` into the specified `index`.
    pub fn write(&mut self, index: usize, value: T)
        requires
            is_capacity(old(self)@.len() as int),
        ensures
            final(self)@ == old(self)@.update(
                Self::position(index, old(self)@.len()),
                Slot { index, data: Some(value) },
            ),
    {
        let p = self.at(index);
        self.slots.set(p, Slot { index, data: Some(value) });
    }
}

/// A value written at an index is read back from that index, and is then gone.
pub proof fn law_read_after_write<T>(before: Seq<Slot<T>>, index: usize, value: T)
    requires
        is_capacity(before.len() as int),
    ensures
        ({
            let p = Array::<T>::position(index, before.len());
            let written = before.update(p, Slot { index, data: Some(value) });
            &&& written[p].index == index
            &&& written[p].data == Some(value)
            &&& written.update(p, Slot { index, data: None })[p].data is None
        }),
{
    lemma_capacity(before.len() as int);
}

/// Writing at an index leaves every slot of another position as it was.
pub proof fn law_write_is_local<T>(before: Seq<Slot<T>>, index: usize, value: T, other: usize)
    requires
        is_capacity(before.len() as int),
        Array::<T>::position(index, before.len()) != Array::<T>::position(other, before.len()),
    ensures
        before.update(Array::<T>::position(index, before.len()), Slot { index, data: Some(value) })[
            Array::<T>::position(other, before.len())] == before[Array::<T>::position(other, before.len())],
{
    lemma_capacity(before.len() as int);
}

/// The slots of consecutive indices are consecutive, also where the index wraps around past
/// `usize::MAX`.
pub proof fn law_next_position(index: usize, size: nat)
    requires
        is_capacity(size as int),
    ensures
        Array::<()>::position(index.wrapping_add(1), size) == (Array::<()>::position(index, size)
            + 1) % (size as int),
{
    lemma_capacity(size as int);
    lemma_wrap_mod(index, 1, size as int);
    vstd::arithmetic::div_mod::lemma_add_mod_noop(index as int, 1, size as int);
    if size == 1 {
        assert(1int % 1 == 0);
    } else {
        vstd::arithmetic::div_mod::lemma_small_mod(1, size);
    }
}

} // verus!
