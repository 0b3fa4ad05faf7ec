//! An unbounded SPMC channel based on a dynamically growable and shrinkable circular buffer.
//!
//! The channel owns the buffer; its receivers receive from the channel they are handed.
//!
//! # Examples
//!
//! ```
//! use concurrent_circbuf::unbounded::spmc::{Channel, Receiver, TryRecv};
//!
//! let mut c = Channel::<char>::new();
//! let r = c.receiver();
//!
//! c.send('a');
//! c.send('b');
//! c.send('c');
//!
//! assert_eq!(c.try_recv(), TryRecv::Data('a'));
//! assert_eq!(r.try_recv(&mut c), TryRecv::Data('b'));
//! assert_eq!(r.try_recv_half(&mut c), TryRecv::Data(vec!['c']));
//! ```
use vstd::prelude::*;
use crate::base;
use crate::base::{after_recv, recv_result, capacity_after_send, capacity_after_recv, half_of};
use crate::ring::{max_capacity, capacity_for, is_capacity};
pub use crate::TryRecv;

verus! {

/// An unbounded SPMC channel.
#[derive(Debug)]
pub struct Channel<T>(base::DynamicCircBuf<T>);

/// The receiver of an unbounded SPMC channel.
#[derive(Debug)]
pub struct Receiver<T>(base::Receiver<T>);

impl<T> View for Channel<T> {
    type V = Seq<T>;

    /// The elements sent and not yet received, oldest first.
    closed spec fn view(&self) -> Seq<T> {
        self.0@
    }
}

impl<T> Channel<T> {
    /// The channel is well formed.
    pub closed spec fn wf(&self) -> bool {
        self.0.wf()
    }

    /// The capacity of the underlying buffer.
    pub closed spec fn capacity(&self) -> nat {
        self.0.capacity()
    }

    /// A well-formed channel has a capacity that is a power of two, no smaller than its minimum
    /// capacity, which is a power of two too, and it never holds more elements than its
    /// capacity.
    pub proof fn lemma_wf(&self)
        requires
            self.wf(),
        ensures
            is_capacity(self.capacity() as int),
            is_capacity(self.min_capacity() as int),
            self.min_capacity() <= self.capacity(),
            self@.len() <= self.capacity(),
    {
        self.0.lemma_wf();
    }

    /// The capacity below which the underlying buffer never shrinks.
    pub closed spec fn min_capacity(&self) -> nat {
        self.0.min_capacity()
    }

    /// Creates an unbounded SPMC channel.
    pub fn new() -> (c: Self)
        ensures
            c.wf(),
            c@ == Seq::<T>::empty(),
            c.capacity() == base::DEFAULT_MIN_CAP,
            c.min_capacity() == base::DEFAULT_MIN_CAP,
    {
        Channel(base::DynamicCircBuf::new())
    }

    /// Creates an unbounded SPMC channel with the specified minimal capacity.
    ///
    /// If the capacity is not a power of two, it will be rounded up to the next one.
    pub fn with_min_capacity(min_cap: usize) -> (c: Self)
        requires
            min_cap <= max_capacity(),
        ensures
            c.wf(),
            c@ == Seq::<T>::empty(),
            c.capacity() == capacity_for(min_cap as int),
            c.min_capacity() == capacity_for(min_cap as int),
    {
        Channel(base::DynamicCircBuf::with_min_capacity(min_cap))
    }

    /// Sends an element to the channel.
    pub fn send(&mut self, value: T)
        requires
            old(self).wf(),
            old(self)@.len() < max_capacity(),
        ensures
            final(self).wf(),
            final(self)@ == old(self)@.push(value),
            final(self).capacity() == capacity_after_send(old(self)@.len(), old(self).capacity()),
            final(self).min_capacity() == old(self).min_capacity(),
    {
        self.0.send(value)
    }

    /// Receives an element from the channel.
    ///
    /// It returns `TryRecv::Data(v)` if a value `v` is received, and `TryRecv::Empty` if the
    /// channel is empty.
    pub fn try_recv(&mut self) -> (r: TryRecv<T>)
        requires
            old(self).wf(),
        ensures
            final(self).wf(),
            r == recv_result(old(self)@),
            old(self)@.len() > 0 ==> r == TryRecv::Data(old(self)@[0]),
            old(self)@.len() == 0 ==> r is Empty,
            final(self)@ == after_recv(old(self)@),
            final(self).capacity() == capacity_after_recv(
                old(self)@.len(),
                old(self).capacity(),
                old(self).min_capacity(),
            ),
            final(self).min_capacity() == old(self).min_capacity(),
    {
        self.0.try_recv()
    }

    /// Creates a receiver for the channel.
    pub fn receiver(&self) -> (r: Receiver<T>) {
        Receiver(self.0.receiver())
    }
}

impl<T> Default for Channel<T> {
    /// Creates an unbounded SPMC channel.
    fn default() -> (c: Self)
        ensures
            c.wf(),
            c@ == Seq::<T>::empty(),
            c.capacity() == base::DEFAULT_MIN_CAP,
            c.min_capacity() == base::DEFAULT_MIN_CAP,
    {
        Self::new()
    }
}

impl<T> Receiver<T> {
    /// Receives an element from the channel `chan`.
    ///
    /// It returns `TryRecv::Data(v)` if a value `v` is received, and `TryRecv::Empty` if the
    /// channel is empty.
    pub fn try_recv(&self, chan: &mut Channel<T>) -> (r: TryRecv<T>)
        requires
            old(chan).wf(),
        ensures
            final(chan).wf(),
            r == recv_result(old(chan)@),
            old(chan)@.len() > 0 ==> r == TryRecv::Data(old(chan)@[0]),
            old(chan)@.len() == 0 ==> r is Empty,
            final(chan)@ == after_recv(old(chan)@),
            final(chan).capacity() == old(chan).capacity(),
            final(chan).min_capacity() == old(chan).min_capacity(),
    {
        self.0.try_recv(chan.0.circ_buf_mut())
    }

    /// Receives half the elements from the channel `chan`: `(n + 1) / 2` of the `n` elements
    /// it holds, oldest first.
    ///
    /// It returns `TryRecv::Data(v)` if the elements `v` are received, and `TryRecv::Empty` if
    /// the channel is empty.
    pub fn try_recv_half(&self, chan: &mut Channel<T>) -> (r: TryRecv<Vec<T>>)
        requires
            old(chan).wf(),
        ensures
            final(chan).wf(),
            final(chan).capacity() == old(chan).capacity(),
            final(chan).min_capacity() == old(chan).min_capacity(),
            old(chan)@.len() == 0 ==> r is Empty && final(chan)@ == old(chan)@,
            old(chan)@.len() > 0 ==> (r matches TryRecv::Data(v) && v@ == old(chan)@.take(
                half_of(old(chan)@.len()),
            ) && final(chan)@ == old(chan)@.skip(half_of(old(chan)@.len()))),
            old(chan)@.len() > 0 ==> (r matches TryRecv::Data(v) && v@.len() == (old(chan)@.len()
                + 1) / 2 && final(chan)@.len() == old(chan)@.len() / 2),
    {
        self.0.try_recv_half(chan.0.circ_buf_mut())
    }
}

impl<T> Clone for Receiver<T> {
    /// Creates another receiver.
    fn clone(&self) -> (r: Receiver<T>) {
        Receiver(self.0.clone())
    }
}

} // verus!
