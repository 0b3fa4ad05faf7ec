//! A circular buffer.
//!
//! The data structure can be thought of as a buffer that has two ends: tx and rx. A [`CircBuf`]
//! can `send` elements into the tx end and `try_recv` elements from the rx end. It can also
//! create [`Receiver`]s, which can only `try_recv` elements from the rx end.
//!
//! ```text
//!                         rx
//!                          _
//!    CircBuf::try_recv -> | | <- Receiver::try_recv
//!                         | |
//!                         | |
//!                         | |
//!        CircBuf::send -> |_|
//!
//!                         tx
//! ```
//!
//! The rx and tx ends are counters that wrap around. The element with index `i` lives in the
//! slot `i % cap` of the underlying array, together with `i` itself, so that a receiver can tell
//! from the slot alone whether the element it asks for is there.
//!
//! A buffer is described by the sequence of the elements between its rx and tx ends (its view
//! `@`): `send` appends to the sequence and `try_recv` removes its first element, so elements are
//! received in the order in which they were sent.
use vstd::prelude::*;
pub use crate::TryRecv;
use crate::sp::array::{Array, Slot, fresh_slot};
use crate::ring::{
    is_capacity, max_capacity, wrap_add, dist, capacity_for, next_capacity, lemma_capacity,
    lemma_capacity_order, lemma_wrap_mod, lemma_wrap_add_add, lemma_dist_wrap_add,
    lemma_wrap_add_dist, lemma_mod_distinct, lemma_fresh_mark,
};
use std::marker::PhantomData;

verus! {

/// Minimum capacity for a circular buffer.
pub const DEFAULT_MIN_CAP: usize = 16;

/// The error of a receive operation that lost a race against another one.
#[derive(Debug, Clone, Copy, PartialEq, Eq)]
pub enum RecvError {
    /// Lost the race for receiving data to another concurrent operation. Try again.
    Retry,
}

/// What receiving from a buffer holding `q` returns: its first element, or `Empty`.
pub open spec fn recv_result<T>(q: Seq<T>) -> TryRecv<T> {
    if q.len() == 0 {
        TryRecv::Empty
    } else {
        TryRecv::Data(q[0])
    }
}

/// What a buffer holding `q` holds after a receive: `q` without its first element.
pub open spec fn after_recv<T>(q: Seq<T>) -> Seq<T> {
    if q.len() == 0 {
        q
    } else {
        q.drop_first()
    }
}

/// What receiving from a buffer holding `q` returns, as an `Option`.
pub open spec fn recv_option<T>(q: Seq<T>) -> Option<T> {
    if q.len() == 0 {
        None
    } else {
        Some(q[0])
    }
}

/// The buffer holding `q` after the elements of `s` are sent into it one after the other.
pub open spec fn after_sends<T>(q: Seq<T>, s: Seq<T>) -> Seq<T>
    decreases s.len(),
{
    if s.len() == 0 {
        q
    } else {
        after_sends(q.push(s[0]), s.drop_first())
    }
}

/// The elements that receives from a buffer holding `q` return, one receive after the other,
/// until a receive finds the buffer empty.
pub open spec fn drain<T>(q: Seq<T>) -> Seq<T>
    decreases q.len(),
{
    if q.len() == 0 {
        Seq::empty()
    } else {
        match recv_result(q) {
            TryRecv::Data(v) => seq![v].add(drain(after_recv(q))),
            _ => Seq::empty(),
        }
    }
}

/// First in, first out: when the elements of `s` are sent into a buffer holding `q`, receiving
/// until the buffer is empty gives back the elements of `q` and then those of `s`, each once and
/// in the order in which they were sent.
pub proof fn law_fifo<T>(q: Seq<T>, s: Seq<T>)
    ensures
        drain(after_sends(q, s)) == q + s,
    decreases s.len(),
{
    if s.len() == 0 {
        assert(q + s =~= q);
        lemma_drain_is_identity(q);
    } else {
        law_fifo(q.push(s[0]), s.drop_first());
        assert(q.push(s[0]) + s.drop_first() =~= q + s);
    }
}

/// Receiving until empty gives back the elements of the buffer in order.
proof fn lemma_drain_is_identity<T>(q: Seq<T>)
    ensures
        drain(q) == q,
    decreases q.len(),
{
    if q.len() > 0 {
        lemma_drain_is_identity(q.drop_first());
        assert(seq![q[0]].add(q.drop_first()) =~= q);
    }
}

/// A receive from a non-empty buffer is not affected by a send that came after it: sending
/// and then receiving returns the same element, and leaves the same buffer, as receiving and
/// then sending.
pub proof fn law_send_recv_commute<T>(q: Seq<T>, v: T)
    requires
        q.len() > 0,
    ensures
        recv_result(q.push(v)) == recv_result(q),
        after_recv(q.push(v)) == after_recv(q).push(v),
{
    assert(q.push(v).drop_first() =~= q.drop_first().push(v));
}

/// A receive from a buffer holding only the element just sent into an empty buffer returns
/// that element and leaves the buffer empty.
pub proof fn law_recv_of_send<T>(v: T)
    ensures
        recv_result(Seq::<T>::empty().push(v)) == TryRecv::Data(v),
        after_recv(Seq::<T>::empty().push(v)) == Seq::<T>::empty(),
{
    assert(Seq::<T>::empty().push(v).drop_first() =~= Seq::<T>::empty());
}

/// The resizing policy of a dynamic buffer keeps its capacity a power of two that holds its
/// elements and is no smaller than its minimum capacity. A shrink leaves the array at most half
/// full, so that the next sends do not grow it back at once.
pub proof fn law_capacity_policy(len: nat, cap: nat, min_cap: nat)
    requires
        is_capacity(cap as int),
        is_capacity(min_cap as int),
        min_cap <= cap,
        len <= cap,
    ensures
        len < max_capacity() ==> {
            let c = capacity_after_send(len, cap);
            &&& is_capacity(c as int)
            &&& len + 1 <= c
            &&& min_cap <= c
        },
        ({
            let c = capacity_after_recv(len, cap, min_cap);
            &&& is_capacity(c as int)
            &&& len - 1 <= c
            &&& min_cap <= c
            &&& c < cap ==> 2 * (len - 1) <= c
        }),
{
    lemma_capacity(cap as int);
    if len == cap && len < max_capacity() {
        lemma_capacity(2 * cap as int);
    }
    if 0 < len <= cap / 4 && cap > min_cap {
        lemma_capacity_order(min_cap as int, cap as int);
    }
}

/// Receiving from a buffer returns its oldest element when there is one, and reports an empty
/// buffer otherwise; the element leaves the buffer and the others stay in order.
pub proof fn law_recv<T>(q: Seq<T>)
    ensures
        q.len() > 0 ==> recv_result(q) == TryRecv::Data(q[0]),
        q.len() > 0 ==> recv_option(q) == Some(q[0]),
        q.len() > 0 ==> after_recv(q).len() == q.len() - 1,
        q.len() > 0 ==> forall|i: int| 0 <= i < q.len() - 1 ==> #[trigger] after_recv(q)[i] == q[i + 1],
        q.len() == 0 ==> recv_result(q) == TryRecv::<T>::Empty,
        q.len() == 0 ==> recv_option(q) == None::<T>,
        q.len() == 0 ==> after_recv(q) == q,
        forall|v: T| recv_result(q) == TryRecv::Data(v) <==> recv_option(q) == Some(v),
        recv_result(q) is Empty <==> recv_option(q) is None,
{
}

/// Sending the elements of `s` one after the other appends them to the buffer in order.
pub proof fn law_after_sends<T>(q: Seq<T>, s: Seq<T>)
    ensures
        after_sends(q, s) == q + s,
    decreases s.len(),
{
    if s.len() == 0 {
        assert(q + s =~= q);
    } else {
        law_after_sends(q.push(s[0]), s.drop_first());
        assert(q.push(s[0]) + s.drop_first() =~= q + s);
    }
}

/// `try_recv_half` takes half of the `n` elements, rounded up: `(n + 1) / 2` of them, and
/// leaves the other `n / 2`; it takes at least one element from a non-empty buffer and all of
/// a buffer holding one element.
pub proof fn law_half_of(n: nat)
    ensures
        half_of(n) == (n + 1) / 2,
        half_of(n) + n / 2 == n,
        2 * half_of(n) == n || 2 * half_of(n) == n + 1,
        n > 0 ==> 1 <= half_of(n) <= n,
{
}

/// A fixed-sized circular buffer.
///
/// A circular buffer has two ends: rx and tx. Elements can be sent into the tx end and received
/// from the rx end. Receivers created with `receiver` can also receive from the rx end.
///
/// # Capacity
///
/// The capacity is fixed when the buffer is created: it is the requested capacity rounded up to
/// a power of two. Sending into a full buffer fails and hands the element back.
#[derive(Debug)]
pub struct CircBuf<T> {
    /// The rx index.
    rx: usize,
    /// The tx index.
    tx: usize,
    /// The lower bound of the rx end that the owner of the buffer last observed.
    rx_lb: usize,
    /// The underlying array.
    array: Array<T>,
}

impl<T> CircBuf<T> {
    /// The number of slots of the buffer.
    pub closed spec fn capacity(&self) -> nat {
        self.array@.len()
    }

    /// The number of elements between the rx and tx ends.
    pub closed spec fn len(&self) -> nat {
        dist(self.tx, self.rx) as nat
    }

    /// The number of elements between the observed lower bound of rx and the tx end.
    pub closed spec fn lb_len(&self) -> nat {
        dist(self.tx, self.rx_lb) as nat
    }

    /// The index of the `k`-th element from the rx end.
    closed spec fn index_of(&self, k: int) -> usize {
        wrap_add(self.rx, k) as usize
    }

    /// The slot of the `k`-th element from the rx end.
    closed spec fn slot(&self, k: int) -> Slot<T> {
        self.array@[Array::<T>::position(self.index_of(k), self.capacity())]
    }

    /// The buffer is well formed: its capacity is a power of two, the elements between rx and
    /// tx sit in their slots marked with their indices, and every other slot is empty and not
    /// marked with the index that the next element to reach it will have. So the buffer owns
    /// exactly the elements between rx and tx, and dropping it drops them.
    pub closed spec fn wf(&self) -> bool {
        &&& is_capacity(self.capacity() as int)
        &&& self.len() <= self.lb_len() <= self.capacity()
        &&& forall|k: int|
            0 <= k < self.len() ==> {
                &&& (#[trigger] self.slot(k)).index == self.index_of(k)
                &&& self.slot(k).data is Some
            }
        &&& forall|k: int|
            self.len() <= k < self.capacity() ==> {
                &&& (#[trigger] self.slot(k)).index != self.index_of(k)
                &&& self.slot(k).data is None
            }
    }
}

impl<T> View for CircBuf<T> {
    type V = Seq<T>;

    /// The elements between the rx and tx ends, from rx to tx.
    closed spec fn view(&self) -> Seq<T> {
        Seq::new(self.len(), |k: int| self.slot(k).data.unwrap())
    }
}

/// The `k`-th and `j`-th elements from a counter sit in distinct slots.
proof fn lemma_slots_distinct(rx: usize, k: int, j: int, cap: int)
    requires
        is_capacity(cap),
        0 <= k < cap,
        0 <= j < cap,
        k != j,
    ensures
        wrap_add(rx, k) % cap != wrap_add(rx, j) % cap,
{
    lemma_capacity(cap);
    lemma_wrap_mod(rx, k, cap);
    lemma_wrap_mod(rx, j, cap);
    lemma_mod_distinct(rx as int, k, j, cap);
}

/// A buffer with the same ends and slots as a well-formed one, and a valid lower bound of rx, is
/// well formed and holds the same elements.
proof fn lemma_same_slots<T>(b: CircBuf<T>, c: CircBuf<T>)
    requires
        b.wf(),
        c.rx == b.rx,
        c.tx == b.tx,
        c.array@ == b.array@,
        c.len() <= c.lb_len() <= c.capacity(),
    ensures
        c.wf(),
        c@ == b@,
{
    assert forall|k: int| #![trigger c.slot(k)] 0 <= k < b.capacity() implies c.slot(k) == b.slot(k) by {}
    assert(c@ =~= b@);
}

/// Writing the element `v` at the tx end and advancing tx appends `v` to the buffer.
proof fn lemma_push<T>(b: CircBuf<T>, c: CircBuf<T>, v: T)
    requires
        b.wf(),
        b.len() < b.capacity(),
        c.rx == b.rx,
        c.tx == wrap_add(b.tx, 1),
        c.array@ == b.array@.update(
            Array::<T>::position(b.tx, b.capacity()),
            Slot { index: b.tx, data: Some(v) },
        ),
        b.len() < c.lb_len() <= b.capacity(),
    ensures
        c.wf(),
        c@ == b@.push(v),
        c.capacity() == b.capacity(),
        c.len() == b.len() + 1,
{
    let cap = b.capacity() as int;
    let len = b.len() as int;
    lemma_capacity(cap);
    lemma_wrap_add_dist(b.tx, b.rx);
    lemma_dist_wrap_add(b.rx, len + 1);
    lemma_wrap_add_add(b.rx, len, 1);
    assert(c.len() == len + 1);
    assert(b.index_of(len) == b.tx);
    assert forall|k: int| 0 <= k < cap && k != len implies c.slot(k) == b.slot(k) by {
        lemma_slots_distinct(b.rx, k, len, cap);
    }
    assert(c.slot(len) == Slot { index: b.tx, data: Some(v) });
    assert(c@ =~= b@.push(v));
}

/// Reading the element at the rx end and advancing rx removes the first element.
proof fn lemma_pop<T>(b: CircBuf<T>, c: CircBuf<T>)
    requires
        b.wf(),
        b.len() > 0,
        c.rx == wrap_add(b.rx, 1),
        c.tx == b.tx,
        c.array@ == b.array@.update(
            Array::<T>::position(b.rx, b.capacity()),
            Slot { index: b.rx, data: None },
        ),
        c.len() <= c.lb_len() <= b.capacity(),
    ensures
        c.wf(),
        c@ == b@.drop_first(),
        c.capacity() == b.capacity(),
        c.len() == b.len() - 1,
{
    let cap = b.capacity() as int;
    let len = b.len() as int;
    lemma_capacity(cap);
    lemma_wrap_add_dist(b.tx, b.rx);
    assert(c.len() == len - 1);
    assert(b.index_of(0) == b.rx);
    assert forall|k: int| 0 <= k < cap implies c.index_of(k) == b.index_of(k + 1) by {
        lemma_wrap_add_add(b.rx, 1, k);
    }
    assert forall|k: int| 0 <= k < cap - 1 implies c.slot(k) == b.slot(k + 1) by {
        lemma_wrap_add_add(b.rx, 1, k);
        lemma_slots_distinct(b.rx, k + 1, 0, cap);
    }
    assert(c.slot(cap - 1).index != c.index_of(cap - 1) && c.slot(cap - 1).data is None) by {
        lemma_wrap_add_add(b.rx, 1, cap - 1);
        lemma_wrap_mod(b.rx, cap, cap);
        lemma_wrap_mod(b.rx, 0, cap);
        vstd::arithmetic::div_mod::lemma_mod_add_multiples_vanish(b.rx as int, cap);
    }
    assert(c@ =~= b@.drop_first());
}

impl<T> CircBuf<T> {
    /// A well-formed buffer never holds more elements than its capacity, which is a power of
    /// two.
    pub proof fn lemma_len(&self)
        requires
            self.wf(),
        ensures
            self@.len() == self.len(),
            self@.len() <= self.capacity(),
            is_capacity(self.capacity() as int),
    {
    }

    /// Returns a new circular buffer with the specified capacity.
    ///
    /// If the capacity is not a power of two, it will be rounded up to the next one.
    pub fn new(cap: usize) -> (cb: CircBuf<T>)
        requires
            cap <= max_capacity(),
        ensures
            cb.wf(),
            cb@ == Seq::<T>::empty(),
            cb.capacity() == capacity_for(cap as int),
    {
        let power = next_capacity(cap);
        let array = Array::new(power);
        let cb = CircBuf { rx: 0, tx: 0, rx_lb: 0, array };
        proof {
            lemma_capacity(power as int);
            assert forall|k: int| 0 <= k < power implies #[trigger] cb.slot(k).index
                != cb.index_of(k) by {
                vstd::arithmetic::div_mod::lemma_small_mod(k as nat, power as nat);
            }
            assert(cb@ =~= Seq::<T>::empty());
        }
        cb
    }

    /// Sends an element into the tx end of the circular buffer.
    ///
    /// Returns `Err(value)` if the buffer is full.
    pub fn send(&mut self, value: T) -> (r: Result<(), T>)
        requires
            old(self).wf(),
        ensures
            final(self).wf(),
            final(self).capacity() == old(self).capacity(),
            old(self)@.len() < old(self).capacity() ==> r is Ok && final(self)@ == old(self)@.push(
                value,
            ),
            old(self)@.len() >= old(self).capacity() ==> r == Err::<(), T>(value) && final(self)@
                == old(self)@,
    {
        proof {
            old(self).lemma_len();
        }
        match self.send_inner(value) {
            Ok(()) => Ok(()),
            Err((value, _tx, _cap)) => Err(value),
        }
    }

    /// Receives an element from the rx end of the circular buffer.
    ///
    /// It returns `TryRecv::Data(v)` if a value `v` is received, and `TryRecv::Empty` if the
    /// circular buffer is empty.
    pub fn try_recv(&mut self) -> (r: TryRecv<T>)
        requires
            old(self).wf(),
        ensures
            final(self).wf(),
            final(self).capacity() == old(self).capacity(),
            r == recv_result(old(self)@),
            old(self)@.len() > 0 ==> r == TryRecv::Data(old(self)@[0]),
            old(self)@.len() == 0 ==> r is Empty,
            final(self)@ == after_recv(old(self)@),
    {
        self.try_recv_inner().0
    }

    /// Helper for send. Returns `Err((value, tx, cap))` if the circular buffer is full, where
    /// `value` is the sent value, `tx` is the current index of the tx end, and `cap` is the
    /// capacity of the array.
    fn send_inner(&mut self, value: T) -> (r: Result<(), (T, usize, usize)>)
        requires
            old(self).wf(),
        ensures
            final(self).wf(),
            final(self).capacity() == old(self).capacity(),
            final(self).rx == old(self).rx,
            old(self).len() < old(self).capacity() ==> r is Ok && final(self)@ == old(self)@.push(
                value,
            ),
            old(self).len() == old(self).capacity() ==> {
                &&& r == Err::<(), (T, usize, usize)>((value, old(self).tx, old(self).capacity() as usize))
                &&& final(self)@ == old(self)@
                &&& final(self).tx == old(self).tx
                &&& final(self).array == old(self).array
                &&& final(self).lb_len() == final(self).len()
            },
    {
        let tx = self.tx;
        let rx_lb = self.rx_lb;

        // Calculate the length and the capacity of the circular buffer.
        let len = tx.wrapping_sub(rx_lb);
        let cap = self.array.size();

        // If the circular buffer seems full, load the rx end itself.
        if len >= cap {
            let rx = self.rx;
            self.rx_lb = rx;
            let len = tx.wrapping_sub(rx);
            proof {
                lemma_same_slots(*old(self), *self);
            }
            if len >= cap {
                return Err((value, tx, cap));
            }
        }
        // Write `value` into the right slot and increment `tx`.

        let ghost b = *self;
        self.array.write(tx, value);
        self.tx = tx.wrapping_add(1);
        proof {
            lemma_push(b, *self, value);
        }
        Ok(())
    }

    /// Helper for try_recv. Returns `(r, Some(cap))` if `r` is the result of `try_recv()`, `cap`
    /// is the capacity of the array, and it's worth shrinking the array; and `(r, None)` if `r`
    /// is the result of `try_recv()` and it's not worth shrinking the array.
    ///
    /// It is worth shrinking when the buffer held at most a quarter of its capacity.
    pub fn try_recv_inner(&mut self) -> (r: (TryRecv<T>, Option<usize>))
        requires
            old(self).wf(),
        ensures
            final(self).wf(),
            final(self).capacity() == old(self).capacity(),
            r.0 == recv_result(old(self)@),
            old(self)@.len() > 0 ==> r.0 == TryRecv::Data(old(self)@[0]),
            old(self)@.len() == 0 ==> r.0 is Empty,
            final(self)@ == after_recv(old(self)@),
            r.1 == (if 0 < old(self)@.len() <= old(self).capacity() / 4 {
                Some(old(self).capacity() as usize)
            } else {
                None::<usize>
            }),
            final(self).lb_len() == final(self).len(),
    {
        // Load tx and rx.
        let tx = self.tx;
        let rx = self.rx;
        let len = tx.wrapping_sub(rx);

        // Is the circular buffer empty?
        if len == 0 {
            self.rx_lb = rx;
            proof {
                lemma_same_slots(*old(self), *self);
            }
            return (TryRecv::Empty, None);
        }
        // Increment rx to receive a value, and set the lower bound of rx.

        let ghost b = *self;
        let rx_new = rx.wrapping_add(1);
        self.rx = rx_new;
        self.rx_lb = rx_new;

        // Load the value at the rx end of the array. Because len > 0, it is a valid value.
        proof {
            assert(b.slot(0).index == rx);
        }
        let value = self.array.read(rx);
        proof {
            lemma_pop(b, *self);
        }
        let value = value.unwrap();

        // Shrink the array if `len` is at most one fourth of the capacity.
        let cap = self.array.size();
        let resize = if len <= cap / 4 {
            Some(cap)
        } else {
            None
        };

        (TryRecv::Data(value), resize)
    }

    /// Creates a receiver for this buffer.
    pub fn receiver(&self) -> (r: Receiver<T>) {
        Receiver { _marker: PhantomData }
    }
}

/// A receiver that receives elements from the rx end of a circular buffer.
///
/// You can receive an element from the rx end of the buffer it is handed using `try_recv`, or
/// `recv_exclusive`. A receiver never resizes the buffer. It holds no state of its own, so it can
/// be cloned freely.
#[derive(Debug)]
pub struct Receiver<T> {
    _marker: PhantomData<T>,
}

impl<T> Receiver<T> {
    /// Receives an element from the rx end of the circular buffer `buf`.
    ///
    /// It returns `TryRecv::Data(v)` if a value `v` is received, and `TryRecv::Empty` if the
    /// circular buffer is empty. Whether the buffer is empty is told by the slot at the rx end
    /// alone: whether it is marked with the rx index.
    pub fn try_recv(&self, buf: &mut CircBuf<T>) -> (r: TryRecv<T>)
        requires
            old(buf).wf(),
        ensures
            final(buf).wf(),
            final(buf).capacity() == old(buf).capacity(),
            r == recv_result(old(buf)@),
            old(buf)@.len() > 0 ==> r == TryRecv::Data(old(buf)@[0]),
            old(buf)@.len() == 0 ==> r is Empty,
            final(buf)@ == after_recv(old(buf)@),
    {
        match Self::take_front(buf) {
            None => TryRecv::Empty,
            Some(value) => TryRecv::Data(value),
        }
    }

    /// Receives an element from the rx end of the circular buffer `buf`.
    ///
    /// It returns `Some(v)` if a value `v` is received, and `None` if the circular buffer is
    /// empty.
    pub fn recv_exclusive(&self, buf: &mut CircBuf<T>) -> (r: Option<T>)
        requires
            old(buf).wf(),
        ensures
            final(buf).wf(),
            final(buf).capacity() == old(buf).capacity(),
            r == recv_option(old(buf)@),
            old(buf)@.len() > 0 ==> r == Some(old(buf)@[0]),
            old(buf)@.len() == 0 ==> r is None,
            final(buf)@ == after_recv(old(buf)@),
    {
        Self::take_front(buf)
    }

    /// Receives the first half of the elements from the rx end of the circular buffer `buf`:
    /// `(n + 1) / 2` of the `n` elements it holds.
    ///
    /// It returns `TryRecv::Data(v)` if the elements `v` are received, and `TryRecv::Empty` if
    /// the circular buffer is empty.
    pub fn try_recv_half(&self, buf: &mut CircBuf<T>) -> (r: TryRecv<Vec<T>>)
        requires
            old(buf).wf(),
        ensures
            final(buf).wf(),
            final(buf).capacity() == old(buf).capacity(),
            old(buf)@.len() == 0 ==> r is Empty && final(buf)@ == old(buf)@,
            old(buf)@.len() > 0 ==> (r matches TryRecv::Data(v) && v@ == old(buf)@.take(
                half_of(old(buf)@.len()),
            ) && final(buf)@ == old(buf)@.skip(half_of(old(buf)@.len()))),
            old(buf)@.len() > 0 ==> (r matches TryRecv::Data(v) && v@.len() == (old(buf)@.len() + 1)
                / 2 && final(buf)@.len() == old(buf)@.len() / 2),
    {
        let len = buf.tx.wrapping_sub(buf.rx);
        proof {
            assert(old(buf)@.len() == len);
        }
        if len == 0 {
            return TryRecv::Empty;
        }
        let n = len - len / 2;
        let mut values: Vec<T> = Vec::new();
        let mut j: usize = 0;
        while j < n
            invariant
                n == half_of(old(buf)@.len()),
                n <= old(buf)@.len(),
                j <= n,
                buf.wf(),
                buf.capacity() == old(buf).capacity(),
                values@ == old(buf)@.take(j as int),
                buf@ == old(buf)@.skip(j as int),
            decreases n - j,
        {
            let value = Self::take_front(buf);
            proof {
                assert(old(buf)@.skip(j as int)[0] == old(buf)@[j as int]);
                assert(old(buf)@.skip(j as int).drop_first() =~= old(buf)@.skip(j + 1));
            }
            values.push(value.unwrap());
            proof {
                assert(values@ =~= old(buf)@.take(j + 1));
            }
            j = j + 1;
        }
        TryRecv::Data(values)
    }

    /// Reads the element at the rx end, if its slot is marked with the rx index, and advances
    /// the rx end past it.
    fn take_front(buf: &mut CircBuf<T>) -> (r: Option<T>)
        requires
            old(buf).wf(),
        ensures
            final(buf).wf(),
            final(buf).capacity() == old(buf).capacity(),
            r == recv_option(old(buf)@),
            old(buf)@.len() > 0 ==> r == Some(old(buf)@[0]),
            old(buf)@.len() == 0 ==> r is None,
            final(buf)@ == after_recv(old(buf)@),
    {
        // Load rx.
        let rx = buf.rx;
        let ghost b = *buf;
        proof {
            lemma_capacity(b.capacity() as int);
            assert(b.index_of(0) == rx);
            if b.len() == 0 {
                assert(b.slot(0).index != rx);
            }
        }
        // Load the value at the rx end of the array.
        match buf.array.read(rx) {
            None => {
                proof {
                    lemma_same_slots(b, *buf);
                }
                None
            },
            Some(value) => {
                // Increment rx to receive the value.
                buf.rx = rx.wrapping_add(1);
                proof {
                    lemma_pop(b, *buf);
                }
                Some(value)
            },
        }
    }
}

impl<T> Clone for Receiver<T> {
    /// Creates another receiver.
    fn clone(&self) -> (r: Receiver<T>) {
        Receiver { _marker: PhantomData }
    }
}

/// The number of elements that `try_recv_half` receives from a buffer holding `n` elements.
pub open spec fn half_of(n: nat) -> int {
    n - n / 2
}

/// A dynamically sized circular buffer.
///
/// A circular buffer has two ends: rx and tx. Elements can be sent into the tx end and received
/// from the rx end. Receivers created with `receiver` can also receive from the rx end.
///
/// # Capacity
///
/// The data structure dynamically grows and shrinks as elements are inserted and removed from
/// it. If the internal array gets full, a new one twice its size is allocated. Similarly, if it
/// is at most a quarter full, a new array half its size is allocated.
///
/// In order to prevent frequent resizing, it is possible to specify a large minimum capacity for
/// the circular buffer by calling `with_min_capacity`. This constructor will make sure that the
/// internal array never shrinks below that size.
#[derive(Debug)]
pub struct DynamicCircBuf<T> {
    /// The underlying circular buffer.
    inner: CircBuf<T>,
    /// Minimum capacity of the array. Always a power of two.
    min_cap: usize,
}

impl<T> DynamicCircBuf<T> {
    /// The number of slots of the underlying array.
    pub closed spec fn capacity(&self) -> nat {
        self.inner.capacity()
    }

    /// The capacity below which the array never shrinks.
    pub closed spec fn min_capacity(&self) -> nat {
        self.min_cap as nat
    }

    /// The underlying buffer, as receivers see it.
    pub closed spec fn circ_buf(&self) -> CircBuf<T> {
        self.inner
    }

    /// The buffer is well formed, and its capacity is a power of two no smaller than the
    /// minimum capacity.
    pub closed spec fn wf(&self) -> bool {
        &&& self.inner.wf()
        &&& is_capacity(self.min_cap as int)
        &&& self.min_cap <= self.inner.capacity()
    }
}

impl<T> DynamicCircBuf<T> {
    /// A well-formed dynamic buffer has a capacity that is a power of two, no smaller than its
    /// minimum capacity, which is a power of two too, and it never holds more elements than its
    /// capacity.
    pub proof fn lemma_wf(&self)
        requires
            self.wf(),
        ensures
            is_capacity(self.capacity() as int),
            is_capacity(self.min_capacity() as int),
            self.min_capacity() <= self.capacity(),
            self@.len() <= self.capacity(),
    {
        self.inner.lemma_len();
    }
}

impl<T> View for DynamicCircBuf<T> {
    type V = Seq<T>;

    /// The elements between the rx and tx ends, from rx to tx.
    closed spec fn view(&self) -> Seq<T> {
        self.inner@
    }
}

/// The capacity of a dynamic buffer after a receive from a buffer holding `len` elements in an
/// array of `cap` slots that never shrinks below `min_cap`.
pub open spec fn capacity_after_recv(len: nat, cap: nat, min_cap: nat) -> nat {
    if 0 < len <= cap / 4 && cap > min_cap {
        cap / 2
    } else {
        cap
    }
}

/// The capacity of a dynamic buffer after a send into a buffer holding `len` elements in an
/// array of `cap` slots.
pub open spec fn capacity_after_send(len: nat, cap: nat) -> nat {
    if len < cap {
        cap
    } else {
        2 * cap
    }
}

impl<T> DynamicCircBuf<T> {
    /// Returns a new circular buffer with the default minimum capacity.
    pub fn new() -> (cb: DynamicCircBuf<T>)
        ensures
            cb.wf(),
            cb@ == Seq::<T>::empty(),
            cb.capacity() == DEFAULT_MIN_CAP,
            cb.min_capacity() == DEFAULT_MIN_CAP,
    {
        proof {
            assert(is_capacity(16)) by {
                vstd::arithmetic::power2::lemma2_to64();
                crate::ring::lemma_range();
                assert(vstd::arithmetic::power2::pow2(4) == 16);
            }
            lemma_capacity(16);
            assert(capacity_for(16) == 16) by {
                crate::ring::lemma_capacity_for(16);
            }
        }
        Self::with_min_capacity(DEFAULT_MIN_CAP)
    }

    /// Returns a new circular buffer with the specified minimum capacity.
    ///
    /// If the capacity is not a power of two, it will be rounded up to the next one.
    pub fn with_min_capacity(cap: usize) -> (cb: DynamicCircBuf<T>)
        requires
            cap <= max_capacity(),
        ensures
            cb.wf(),
            cb@ == Seq::<T>::empty(),
            cb.capacity() == capacity_for(cap as int),
            cb.min_capacity() == capacity_for(cap as int),
    {
        let power = next_capacity(cap);
        proof {
            lemma_capacity(power as int);
        }
        let inner = CircBuf::new(power);
        proof {
            crate::ring::lemma_capacity_for(power as int);
        }
        DynamicCircBuf { inner, min_cap: power }
    }

    /// Sends an element into the tx end of the circular buffer.
    ///
    /// If the internal array is full, a new one twice the capacity of the current one is
    /// allocated first.
    pub fn send(&mut self, value: T)
        requires
            old(self).wf(),
            old(self)@.len() < max_capacity(),
        ensures
            final(self).wf(),
            final(self)@ == old(self)@.push(value),
            final(self).capacity() == capacity_after_send(old(self)@.len(), old(self).capacity()),
            final(self).min_capacity() == old(self).min_capacity(),
    {
        match self.inner.send_inner(value) {
            Ok(()) => {},
            Err((value, tx, cap)) => {
                // The circular buffer is full. Grow the array.
                proof {
                    lemma_capacity(cap as int);
                    lemma_capacity(2 * cap as int);
                }
                self.resize(2 * cap);

                // Write `value` into the right slot and increment `tx`.
                let ghost b = self.inner;
                self.inner.array.write(tx, value);
                self.inner.tx = tx.wrapping_add(1);
                proof {
                    lemma_push(b, self.inner, value);
                }
            },
        }
    }

    /// Receives an element from the rx end of the circular buffer.
    ///
    /// It returns `TryRecv::Data(v)` if a value `v` is received, and `TryRecv::Empty` if the
    /// circular buffer is empty.
    ///
    /// If the internal array was at most a quarter full, a new array half the capacity of the
    /// current one is allocated, unless that would go below the minimum capacity.
    pub fn try_recv(&mut self) -> (r: TryRecv<T>)
        requires
            old(self).wf(),
        ensures
            final(self).wf(),
            r == recv_result(old(self)@),
            old(self)@.len() > 0 ==> r == TryRecv::Data(old(self)@[0]),
            old(self)@.len() == 0 ==> r is Empty,
            final(self)@ == after_recv(old(self)@),
            final(self).capacity() == capacity_after_recv(
                old(self)@.len(),
                old(self).capacity(),
                old(self).min_capacity(),
            ),
            final(self).min_capacity() == old(self).min_capacity(),
    {
        let (r, resize) = self.inner.try_recv_inner();
        proof {
            assert(self.inner@.len() == self.inner.len());
            assert(old(self).inner@.len() == old(self).inner.len());
            assert(old(self)@.len() == old(self).inner.len());
            lemma_capacity(self.inner.capacity() as int);
        }

        // Shrink the array if it's worth.
        if let Some(cap) = resize {
            if cap > self.min_cap {
                proof {
                    lemma_capacity(self.inner.capacity() as int);
                    assert(cap == self.inner.capacity());
                    lemma_capacity(cap as int);
                    lemma_capacity_order(self.min_cap as int, cap as int);
                }
                self.resize(cap / 2);
            }
        }
        r
    }

    /// Creates a receiver for this buffer.
    pub fn receiver(&self) -> (r: Receiver<T>) {
        self.inner.receiver()
    }

    /// Returns the number of elements in the buffer.
    pub fn len(&self) -> (n: usize)
        requires
            self.wf(),
        ensures
            n == self@.len(),
    {
        self.inner.tx.wrapping_sub(self.inner.rx)
    }

    /// Lends out the underlying buffer, for receivers to receive from.
    ///
    /// Receivers only advance the rx end and keep the capacity, so the buffer stays well formed
    /// after they are done with it.
    pub fn circ_buf_mut(&mut self) -> (r: &mut CircBuf<T>)
        ensures
            *r == old(self).circ_buf(),
            final(self).circ_buf() == *final(r),
            old(self)@ == r@,
            final(self)@ == final(r)@,
            old(self).capacity() == r.capacity(),
            final(self).capacity() == final(r).capacity(),
            old(self).wf() ==> r.wf(),
            final(self).min_capacity() == old(self).min_capacity(),
            old(self).wf() && final(r).wf() && final(r).capacity() == old(self).capacity()
                ==> final(self).wf(),
    {
        &mut self.inner
    }

    /// Resizes the internal array to the new capacity of `new_cap`.
    fn resize(&mut self, new_cap: usize)
        requires
            old(self).wf(),
            is_capacity(new_cap as int),
            2 <= new_cap,
            old(self).min_cap <= new_cap,
            old(self).inner.len() <= new_cap,
            old(self).inner.lb_len() <= new_cap,
        ensures
            final(self).wf(),
            final(self)@ == old(self)@,
            final(self).capacity() == new_cap,
            final(self).min_cap == old(self).min_cap,
            final(self).inner.rx == old(self).inner.rx,
            final(self).inner.tx == old(self).inner.tx,
            final(self).inner.rx_lb == old(self).inner.rx_lb,
    {
        // Load rx and tx.
        let rx = self.inner.rx;
        let tx = self.inner.tx;
        let ghost b = self.inner;
        let ghost len = b.len() as int;
        let ghost cap = b.capacity() as int;

        // Allocate a new array.
        let mut new: Array<T> = Array::new(new_cap);

        proof {
            lemma_capacity(cap);
            lemma_capacity(new_cap as int);
            lemma_wrap_add_dist(tx, rx);
        }

        // Move the elements from the old array to the new one.
        let mut i = rx;
        let ghost mut m: int = 0;
        while i != tx
            invariant
                0 <= m <= len,
                len == b.len(),
                cap == b.capacity(),
                b.wf(),
                len <= new_cap,
                is_capacity(new_cap as int),
                is_capacity(cap),
                i == wrap_add(rx, m),
                tx == wrap_add(rx, len),
                rx == b.rx,
                self.inner.rx == b.rx,
                self.inner.tx == b.tx,
                self.inner.rx_lb == b.rx_lb,
                self.min_cap == old(self).min_cap,
                b == old(self).inner,
                self.inner.array@.len() == cap,
                new@.len() == new_cap,
                forall|k: int|
                    m <= k < len ==> #[trigger] self.inner.slot(k) == b.slot(k),
                forall|k: int|
                    0 <= k < m ==> #[trigger] new@[Array::<T>::position(b.index_of(k), new_cap as nat)]
                        == (Slot { index: b.index_of(k), data: b.slot(k).data }),
                forall|k: int|
                    m <= k < new_cap ==> #[trigger] new@[Array::<T>::position(b.index_of(k), new_cap as nat)]
                        == fresh_slot::<T>(Array::<T>::position(b.index_of(k), new_cap as nat)),
            decreases len - m,
        {
            proof {
                if m == len {
                    assert(i == tx);
                }
                assert(m < len);
                assert(self.inner.slot(m).index == i);
            }
            let ghost before = self.inner;
            let ghost new_before = new;
            let value = self.inner.array.read(i);
            let value = value.unwrap();
            new.write(i, value);
            i = i.wrapping_add(1);
            proof {
                lemma_wrap_add_add(rx, m, 1);
                assert forall|k: int| m + 1 <= k < len implies #[trigger] self.inner.slot(k) == b.slot(k) by {
                    lemma_slots_distinct(rx, k, m, cap);
                    assert(self.inner.slot(k) == before.slot(k));
                }
                assert forall|k: int| 0 <= k < new_cap && k != m implies
                    #[trigger] new@[Array::<T>::position(b.index_of(k), new_cap as nat)]
                    == new_before@[Array::<T>::position(b.index_of(k), new_cap as nat)] by {
                    lemma_slots_distinct(rx, k, m, new_cap as int);
                }
                m = m + 1;
                if m < len {
                    assert(i != tx) by {
                        lemma_wrap_add_dist(tx, rx);
                    }
                }
            }
        }

        // Replace the array.
        self.inner.array = new;
        proof {
            let c = self.inner;
            assert(c.capacity() == new_cap);
            assert forall|k: int| 0 <= k < new_cap implies #[trigger] c.index_of(k) == b.index_of(k) by {}
            assert forall|k: int| len <= k < new_cap implies #[trigger] c.slot(k).index != c.index_of(k) by {
                lemma_wrap_mod(rx, k, new_cap as int);
                lemma_fresh_mark(wrap_add(rx, k), new_cap as int);
            }
            assert(c.wf());
            assert(c@ =~= b@);
        }
    }
}

} // verus!
