//! Channels built on a circular buffer.
//!
//! The library provides the following flavors of channels:
//!
//! - bounded/unbounded SPSC (single-producer single-consumer)
//! - unbounded SPMC (single-producer multiple-consumer)
//!
//! Every channel is a circular buffer with two ends, rx and tx. Elements are sent into the tx
//! end and received from the rx end, first in, first out. The buffer and every operation on it
//! are verified: the contracts describe each buffer as the sequence of elements it holds.
//!
//! The buffer is owned by one value. A receiver handle performs receive operations on the buffer
//! it is given, so that the receive side of a channel can be kept apart from the send side.
use vstd::prelude::*;

pub mod array;
pub mod base;
pub mod bounded;
pub mod ring;
pub mod sp;
pub mod spmc;
pub mod spsc;
pub mod unbounded;

verus! {

/// The return type of the `try_recv` methods of the circular buffers and their receivers.
#[derive(Debug, Clone, Copy, PartialEq, Eq)]
pub enum TryRecv<T> {
    /// `try_recv` received an element.
    Data(T),
    /// The circular buffer is empty.
    Empty,
    /// Lost the race for receiving data to another concurrent operation. Try again.
    Retry,
}

impl<T> TryRecv<T> {
    /// The result of applying the function `f` to the content of `TryRecv::Data`.
    pub open spec fn mapped<U>(self, f: spec_fn(T) -> U) -> TryRecv<U> {
        match self {
            TryRecv::Data(v) => TryRecv::Data(f(v)),
            TryRecv::Empty => TryRecv::Empty,
            TryRecv::Retry => TryRecv::Retry,
        }
    }

    /// Apply a function to the content of `TryRecv::Data`.
    pub fn map<U, F: FnOnce(T) -> U>(self, f: F) -> (r: TryRecv<U>)
        requires
            self matches TryRecv::Data(v) ==> call_requires(f, (v,)),
        ensures
            mapped_by(self, f, r),
    {
        match self {
            TryRecv::Data(v) => TryRecv::Data(f(v)),
            TryRecv::Empty => TryRecv::Empty,
            TryRecv::Retry => TryRecv::Retry,
        }
    }
}

/// `r` is what `map` returns for `x` and the closure `f`: `f`'s result on the content of
/// `TryRecv::Data`, and `x` itself for the other variants.
pub open spec fn mapped_by<T, U, F: FnOnce(T) -> U>(x: TryRecv<T>, f: F, r: TryRecv<U>) -> bool {
    match x {
        TryRecv::Data(v) => r matches TryRecv::Data(u) && call_ensures(f, (v,), u),
        TryRecv::Empty => r is Empty,
        TryRecv::Retry => r is Retry,
    }
}

/// `map` with a closure whose result is the spec function `sf` of its argument returns
/// `x.mapped(sf)`.
pub proof fn law_map_is_mapped<T, U, F: FnOnce(T) -> U>(
    x: TryRecv<T>,
    f: F,
    r: TryRecv<U>,
    sf: spec_fn(T) -> U,
)
    requires
        mapped_by(x, f, r),
        forall|v: T, u: U| call_ensures(f, (v,), u) ==> u == sf(v),
    ensures
        r == x.mapped(sf),
{
}

/// Mapping with the identity leaves a `TryRecv` as it is.
pub proof fn law_map_identity<T>(x: TryRecv<T>)
    ensures
        x.mapped(|v: T| v) == x,
{
}

/// Mapping with `f` and then with `g` is mapping with `g` after `f`.
pub proof fn law_map_composition<T, U, V>(
    x: TryRecv<T>,
    f: spec_fn(T) -> U,
    g: spec_fn(U) -> V,
)
    ensures
        x.mapped(f).mapped(g) == x.mapped(|v: T| g(f(v))),
{
}

} // verus!
