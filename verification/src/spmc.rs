//! An SPMC channel based on a dynamically growable and shrinkable circular buffer.
//!
//! The channel owns the buffer; its receivers receive from the channel they are handed.
//!
//! # Examples
//!
//! ```
//! use concurrent_circbuf::spmc::{Channel, Receiver};
//!
//! let mut c = Channel::<char>::new();
//! let r = c.receiver();
//!
//! c.send('a');
//! c.send('b');
//! c.send('c');
//!
//! assert_eq!(c.recv(), Some('a'));
//! assert_eq!(r.recv(&mut c), Some('b'));
//! assert_eq!(r.try_recv(&mut c), Ok(Some('c')));
//! ```
use vstd::prelude::*;
use crate::base;
use crate::base::{after_recv, recv_option, capacity_after_send, capacity_after_recv, RecvError};
use crate::ring::{max_capacity, capacity_for, is_capacity};
use crate::TryRecv;

verus! {

/// An SPMC channel.
#[derive(Debug)]
pub struct Channel<T>(base::DynamicCircBuf<T>);

/// The receiver of an SPMC channel.
#[derive(Debug)]
pub struct Receiver<T>(base::Receiver<T>);

impl<T> View for Channel<T> {
    type V = Seq<T>;

    /// The elements sent and not yet received, oldest first.
    closed spec fn view(&self) -> Seq<T> {
        self.0@
    }
}

/// The result of a receive that gives back `r` of the underlying buffer, as `try_recv` of a
/// channel returns it.
pub open spec fn as_result<T>(r: TryRecv<T>) -> Result<Option<T>, RecvError> {
    match r {
        TryRecv::Data(v) => Ok(Some(v)),
        TryRecv::Empty => Ok(None),
        TryRecv::Retry => Err(RecvError::Retry),
    }
}

/// Converts the result of a receive from the underlying buffer.
fn to_result<T>(r: TryRecv<T>) -> (res: Result<Option<T>, RecvError>)
    ensures
        res == as_result(r),
{
    match r {
        TryRecv::Data(v) => Ok(Some(v)),
        TryRecv::Empty => Ok(None),
        TryRecv::Retry => Err(RecvError::Retry),
    }
}

impl<T> Channel<T> {
    /// The channel is well formed.
    pub closed spec fn wf(&self) -> bool {
        self.0.wf()
    }

    /// The capacity of the underlying buffer.
    pub closed spec fn capacity(&self) -> nat {
        self.0.capacity()
    }

    /// A well-formed channel has a capacity that is a power of two, no smaller than its minimum
    /// capacity, which is a power of two too, and it never holds more elements than its
    /// capacity.
    pub proof fn lemma_wf(&self)
        requires
            self.wf(),
        ensures
            is_capacity(self.capacity() as int),
            is_capacity(self.min_capacity() as int),
            self.min_capacity() <= self.capacity(),
            self@.len() <= self.capacity(),
    {
        self.0.lemma_wf();
    }

    /// The capacity below which the underlying buffer never shrinks.
    pub closed spec fn min_capacity(&self) -> nat {
        self.0.min_capacity()
    }

    /// Creates an SPMC channel.
    pub fn new() -> (c: Self)
        ensures
            c.wf(),
            c@ == Seq::<T>::empty(),
            c.capacity() == base::DEFAULT_MIN_CAP,
            c.min_capacity() == base::DEFAULT_MIN_CAP,
    {
        Channel(base::DynamicCircBuf::new())
    }

    /// Creates an SPMC channel with the specified minimal capacity.
    ///
    /// If the capacity is not a power of two, it will be rounded up to the next one.
    pub fn with_min_capacity(min_cap: usize) -> (c: Self)
        requires
            min_cap <= max_capacity(),
        ensures
            c.wf(),
            c@ == Seq::<T>::empty(),
            c.capacity() == capacity_for(min_cap as int),
            c.min_capacity() == capacity_for(min_cap as int),
    {
        Channel(base::DynamicCircBuf::with_min_capacity(min_cap))
    }

    /// Sends an element to the channel.
    pub fn send(&mut self, value: T)
        requires
            old(self).wf(),
            old(self)@.len() < max_capacity(),
        ensures
            final(self).wf(),
            final(self)@ == old(self)@.push(value),
            final(self).capacity() == capacity_after_send(old(self)@.len(), old(self).capacity()),
            final(self).min_capacity() == old(self).min_capacity(),
    {
        self.0.send(value)
    }

    /// Receives an element from the channel.
    ///
    /// It returns `Ok(Some(v))` if a value `v` is received, and `Ok(None)` if the channel is
    /// empty.
    pub fn try_recv(&mut self) -> (r: Result<Option<T>, RecvError>)
        requires
            old(self).wf(),
        ensures
            final(self).wf(),
            r == Ok::<Option<T>, RecvError>(recv_option(old(self)@)),
            old(self)@.len() > 0 ==> r == Ok::<Option<T>, RecvError>(Some(old(self)@[0])),
            old(self)@.len() == 0 ==> r == Ok::<Option<T>, RecvError>(None),
            final(self)@ == after_recv(old(self)@),
            final(self).capacity() == capacity_after_recv(
                old(self)@.len(),
                old(self).capacity(),
                old(self).min_capacity(),
            ),
            final(self).min_capacity() == old(self).min_capacity(),
    {
        to_result(self.0.try_recv())
    }

    /// Receives an element from the channel.
    ///
    /// It returns `Some(v)` if a value `v` is received, and `None` if the channel is empty.
    pub fn recv(&mut self) -> (r: Option<T>)
        requires
            old(self).wf(),
        ensures
            final(self).wf(),
            r == recv_option(old(self)@),
            old(self)@.len() > 0 ==> r == Some(old(self)@[0]),
            old(self)@.len() == 0 ==> r is None,
            final(self)@ == after_recv(old(self)@),
            final(self).capacity() == capacity_after_recv(
                old(self)@.len(),
                old(self).capacity(),
                old(self).min_capacity(),
            ),
            final(self).min_capacity() == old(self).min_capacity(),
    {
        match self.0.try_recv() {
            TryRecv::Data(v) => Some(v),
            TryRecv::Empty => None,
            TryRecv::Retry => None,
        }
    }

    /// Creates a receiver for the channel.
    pub fn receiver(&self) -> (r: Receiver<T>) {
        Receiver(self.0.receiver())
    }
}

impl<T> Receiver<T> {
    /// Receives an element from the channel `chan`.
    ///
    /// It returns `Ok(Some(v))` if a value `v` is received, and `Ok(None)` if the channel is
    /// empty.
    pub fn try_recv(&self, chan: &mut Channel<T>) -> (r: Result<Option<T>, RecvError>)
        requires
            old(chan).wf(),
        ensures
            final(chan).wf(),
            r == Ok::<Option<T>, RecvError>(recv_option(old(chan)@)),
            old(chan)@.len() > 0 ==> r == Ok::<Option<T>, RecvError>(Some(old(chan)@[0])),
            old(chan)@.len() == 0 ==> r == Ok::<Option<T>, RecvError>(None),
            final(chan)@ == after_recv(old(chan)@),
            final(chan).capacity() == old(chan).capacity(),
            final(chan).min_capacity() == old(chan).min_capacity(),
    {
        to_result(self.0.try_recv(chan.0.circ_buf_mut()))
    }

    /// Receives an element from the channel `chan`.
    ///
    /// It returns `Some(v)` if a value `v` is received, and `None` if the channel is empty.
    pub fn recv(&self, chan: &mut Channel<T>) -> (r: Option<T>)
        requires
            old(chan).wf(),
        ensures
            final(chan).wf(),
            r == recv_option(old(chan)@),
            old(chan)@.len() > 0 ==> r == Some(old(chan)@[0]),
            old(chan)@.len() == 0 ==> r is None,
            final(chan)@ == after_recv(old(chan)@),
            final(chan).capacity() == old(chan).capacity(),
            final(chan).min_capacity() == old(chan).min_capacity(),
    {
        self.0.recv_exclusive(chan.0.circ_buf_mut())
    }
}

impl<T> Clone for Receiver<T> {
    /// Creates another receiver.
    fn clone(&self) -> (r: Receiver<T>) {
        Receiver(self.0.clone())
    }
}

} // verus!
