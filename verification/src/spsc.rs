//! An SPSC channel based on a dynamically growable and shrinkable circular buffer.
//!
//! The sender owns the buffer; the receiver receives from the buffer of the sender it is
//! handed.
//!
//! # Examples
//!
//! ```
//! use concurrent_circbuf::spsc;
//!
//! let (mut tx, rx) = spsc::new::<char>();
//!
//! tx.send('a');
//! tx.send('b');
//! tx.send('c');
//!
//! assert_eq!(rx.recv(&mut tx), Some('a'));
//! assert_eq!(rx.recv(&mut tx), Some('b'));
//! assert_eq!(rx.recv(&mut tx), Some('c'));
//! ```
use vstd::prelude::*;
use crate::base;
use crate::base::{after_recv, recv_option, capacity_after_send};
use crate::ring::{max_capacity, capacity_for, is_capacity};

verus! {

/// The sender of an SPSC channel.
#[derive(Debug)]
pub struct Sender<T>(base::DynamicCircBuf<T>);

/// The receiver of an SPSC channel.
#[derive(Debug)]
pub struct Receiver<T> {
    receiver: base::Receiver<T>,
}

impl<T> View for Sender<T> {
    type V = Seq<T>;

    /// The elements sent and not yet received, oldest first.
    closed spec fn view(&self) -> Seq<T> {
        self.0@
    }
}

impl<T> Sender<T> {
    /// The channel is well formed.
    pub closed spec fn wf(&self) -> bool {
        self.0.wf()
    }

    /// The capacity of the underlying buffer.
    pub closed spec fn capacity(&self) -> nat {
        self.0.capacity()
    }

    /// The capacity below which the underlying buffer never shrinks.
    pub closed spec fn min_capacity(&self) -> nat {
        self.0.min_capacity()
    }

    /// A well-formed channel has a capacity that is a power of two, no smaller than its minimum
    /// capacity, which is a power of two too, and it never holds more elements than its
    /// capacity.
    pub proof fn lemma_wf(&self)
        requires
            self.wf(),
        ensures
            is_capacity(self.capacity() as int),
            is_capacity(self.min_capacity() as int),
            self.min_capacity() <= self.capacity(),
            self@.len() <= self.capacity(),
    {
        self.0.lemma_wf();
    }

    /// Sends an element to the channel.
    pub fn send(&mut self, value: T)
        requires
            old(self).wf(),
            old(self)@.len() < max_capacity(),
        ensures
            final(self).wf(),
            final(self)@ == old(self)@.push(value),
            final(self).capacity() == capacity_after_send(old(self)@.len(), old(self).capacity()),
            final(self).min_capacity() == old(self).min_capacity(),
    {
        self.0.send(value)
    }
}

/// Creates an SPSC channel, and returns its sender and receiver.
pub fn new<T>() -> (r: (Sender<T>, Receiver<T>))
    ensures
        r.0.wf(),
        r.0@ == Seq::<T>::empty(),
        r.0.capacity() == base::DEFAULT_MIN_CAP,
        r.0.min_capacity() == base::DEFAULT_MIN_CAP,
{
    let circbuf = base::DynamicCircBuf::new();
    let receiver = circbuf.receiver();
    let sender = Sender(circbuf);
    let receiver = Receiver { receiver };
    (sender, receiver)
}

/// Creates an SPSC channel with the specified minimal capacity, and returns its sender and
/// receiver.
///
/// If the capacity is not a power of two, it will be rounded up to the next one.
pub fn with_min_capacity<T>(min_cap: usize) -> (r: (Sender<T>, Receiver<T>))
    requires
        min_cap <= max_capacity(),
    ensures
        r.0.wf(),
        r.0@ == Seq::<T>::empty(),
        r.0.capacity() == capacity_for(min_cap as int),
        r.0.min_capacity() == capacity_for(min_cap as int),
{
    let circbuf = base::DynamicCircBuf::with_min_capacity(min_cap);
    let receiver = circbuf.receiver();
    let sender = Sender(circbuf);
    let receiver = Receiver { receiver };
    (sender, receiver)
}

impl<T> Receiver<T> {
    /// Receives an element from the channel of `sender`.
    ///
    /// It returns `Some(v)` if `v` is received, and `None` if the channel is empty.
    pub fn recv(&self, sender: &mut Sender<T>) -> (r: Option<T>)
        requires
            old(sender).wf(),
        ensures
            final(sender).wf(),
            final(sender).capacity() == old(sender).capacity(),
            final(sender).min_capacity() == old(sender).min_capacity(),
            r == recv_option(old(sender)@),
            old(sender)@.len() > 0 ==> r == Some(old(sender)@[0]),
            old(sender)@.len() == 0 ==> r is None,
            final(sender)@ == after_recv(old(sender)@),
    {
        // The receiver is the only one that receives, and it never resizes the buffer.
        self.receiver.recv_exclusive(sender.0.circ_buf_mut())
    }
}

} // verus!
