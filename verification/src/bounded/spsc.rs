//! A bounded SPSC channel based on a fixed-sized circular buffer.
//!
//! The sender owns the buffer; the receiver receives from the buffer of the sender it is
//! handed.
//!
//! # Examples
//!
//! ```
//! use concurrent_circbuf::bounded::spsc;
//!
//! let (mut tx, rx) = spsc::new::<char>(16);
//!
//! tx.send('a').unwrap();
//! tx.send('b').unwrap();
//! tx.send('c').unwrap();
//!
//! assert_eq!(rx.recv(&mut tx), Some('a'));
//! assert_eq!(rx.recv(&mut tx), Some('b'));
//! assert_eq!(rx.recv(&mut tx), Some('c'));
//! ```
use vstd::prelude::*;
use crate::base;
use crate::base::{after_recv, recv_option};
use crate::ring::{max_capacity, capacity_for, is_capacity};

verus! {

/// The sender of a bounded SPSC channel.
#[derive(Debug)]
pub struct Sender<T>(base::CircBuf<T>);

/// The receiver of a bounded SPSC channel.
#[derive(Debug)]
pub struct Receiver<T>(base::Receiver<T>);

impl<T> View for Sender<T> {
    type V = Seq<T>;

    /// The elements sent and not yet received, oldest first.
    closed spec fn view(&self) -> Seq<T> {
        self.0@
    }
}

impl<T> Sender<T> {
    /// The channel is well formed.
    pub closed spec fn wf(&self) -> bool {
        self.0.wf()
    }

    /// The number of elements the channel can hold.
    pub closed spec fn capacity(&self) -> nat {
        self.0.capacity()
    }

    /// A well-formed channel has a capacity that is a power of two, and it never holds more
    /// elements than its capacity.
    pub proof fn lemma_wf(&self)
        requires
            self.wf(),
        ensures
            is_capacity(self.capacity() as int),
            self@.len() <= self.capacity(),
    {
        self.0.lemma_len();
    }

    /// Sends an element to the channel.
    ///
    /// Returns `Err(value)` if the channel is full.
    pub fn send(&mut self, value: T) -> (r: Result<(), T>)
        requires
            old(self).wf(),
        ensures
            final(self).wf(),
            final(self).capacity() == old(self).capacity(),
            old(self)@.len() < old(self).capacity() ==> r is Ok && final(self)@ == old(self)@.push(
                value,
            ),
            old(self)@.len() >= old(self).capacity() ==> r == Err::<(), T>(value) && final(self)@
                == old(self)@,
    {
        proof {
            self.0.lemma_len();
        }
        self.0.send(value)
    }
}

/// Creates a bounded SPSC channel with the specified capacity, and returns its sender and
/// receiver.
///
/// If the capacity is not a power of two, it will be rounded up to the next one.
pub fn new<T>(cap: usize) -> (r: (Sender<T>, Receiver<T>))
    requires
        cap <= max_capacity(),
    ensures
        r.0.wf(),
        r.0@ == Seq::<T>::empty(),
        r.0.capacity() == capacity_for(cap as int),
{
    let circbuf = base::CircBuf::new(cap);
    let receiver = circbuf.receiver();
    let sender = Sender(circbuf);
    let receiver = Receiver(receiver);
    (sender, receiver)
}

impl<T> Receiver<T> {
    /// Receives an element from the channel of `sender`.
    ///
    /// It returns `Some(v)` if `v` is received, and `None` if the channel is empty.
    pub fn recv(&self, sender: &mut Sender<T>) -> (r: Option<T>)
        requires
            old(sender).wf(),
        ensures
            final(sender).wf(),
            final(sender).capacity() == old(sender).capacity(),
            r == recv_option(old(sender)@),
            old(sender)@.len() > 0 ==> r == Some(old(sender)@[0]),
            old(sender)@.len() == 0 ==> r is None,
            final(sender)@ == after_recv(old(sender)@),
    {
        // The receiver is the only one that receives.
        self.0.recv_exclusive(&mut sender.0)
    }
}

} // verus!
