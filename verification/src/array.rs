//! A pair of values laid out in order, as the slots of a circular buffer are.
use vstd::prelude::*;

verus! {

/// C++'s `std::pair<T, U>`.
pub struct CPair<T, U> {
    /// The first value.
    pub first: T,
    /// The second value.
    pub second: U,
}

impl<T, U> CPair<T, U> {
    /// Returns the pair of `first` and `second`.
    pub fn new(first: T, second: U) -> (p: Self)
        ensures
            p.first == first,
            p.second == second,
    {
        Self { first, second }
    }
}

} // verus!
