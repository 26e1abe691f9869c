//! Traits for heterogeneous cons-cell lists built from nested tuples.
//!
//! `()` is the empty list and `(H, T)` a cell holding a head and the rest of
//! the list. The traits cover what the runtime's callers need: length,
//! pushing a new head, and reversal — the layout transformation that turns
//! an argument tuple into its initial stack order.

use vstd::prelude::*;

verus! {

/// A heterogeneous list: `()` or a `(head, tail)` cell.
pub trait List: Sized {
    /// The type of this list reversed.
    type Reverse;

    /// The number of cells.
    spec fn spec_len() -> nat;

    /// The list with its elements in opposite order.
    spec fn spec_reverse(self) -> Self::Reverse;

    /// Returns the number of cells.
    fn length() -> (n: usize)
        ensures
            n == Self::spec_len(),
    ;

    /// Reverses the list.
    fn reverse(self) -> (r: Self::Reverse)
        ensures
            r == self.spec_reverse(),
    ;

    /// Pushes a new value onto the front of the list.
    fn push<U>(self, item: U) -> (r: (U, Self))
        ensures
            r == (item, self),
    {
        (item, self)
    }
}

/// The empty list, as the starting point for building lists.
pub trait EmptyList: Sized {
    /// Returns the empty list.
    fn empty() -> (r: Self);

    /// Pushes the first value onto an empty list.
    fn push_first<U>(self, item: U) -> (r: (U, Self))
        ensures
            r == (item, self),
    {
        (item, self)
    }
}

impl EmptyList for () {
    fn empty() -> (r: Self) {
    }
}

} // verus!
