//! [`List`] for nested tuples, and conversion from flat tuples.
//!
//! `()` is the empty list and `(H, T)` a cell; a flat tuple such as
//! `(1, 2, 3)` converts to the nested form `(1, (2, (3, ())))` with
//! [`IntoTupleList::into_tuple_list`].

use crate::list_traits::List;
use vstd::prelude::*;

verus! {

/// Conversion from a flat tuple to its nested-cell list.
pub trait IntoTupleList: Sized {
    /// The nested-cell form.
    type Output;

    /// The nested-cell list this tuple converts to.
    spec fn spec_into(self) -> Self::Output;

    /// Converts the tuple into its nested-cell list.
    fn into_tuple_list(self) -> (r: Self::Output)
        ensures
            r == self.spec_into(),
    ;
}

impl IntoTupleList for () {
    type Output = ();

    open spec fn spec_into(self) -> Self::Output {
        ()
    }

    fn into_tuple_list(self) -> (r: Self::Output) {
    }
}

impl<A> IntoTupleList for (A,) {
    type Output = (A, ());

    open spec fn spec_into(self) -> Self::Output {
        (self.0, ())
    }

    fn into_tuple_list(self) -> (r: Self::Output) {
        (self.0, ())
    }
}

impl<A, B> IntoTupleList for (A, B) {
    type Output = (A, (B, ()));

    open spec fn spec_into(self) -> Self::Output {
        (self.0, (self.1, ()))
    }

    fn into_tuple_list(self) -> (r: Self::Output) {
        (self.0, (self.1, ()))
    }
}

impl<A, B, C> IntoTupleList for (A, B, C) {
    type Output = (A, (B, (C, ())));

    open spec fn spec_into(self) -> Self::Output {
        (self.0, (self.1, (self.2, ())))
    }

    fn into_tuple_list(self) -> (r: Self::Output) {
        (self.0, (self.1, (self.2, ())))
    }
}

impl<A, B, C, D> IntoTupleList for (A, B, C, D) {
    type Output = (A, (B, (C, (D, ()))));

    open spec fn spec_into(self) -> Self::Output {
        (self.0, (self.1, (self.2, (self.3, ()))))
    }

    fn into_tuple_list(self) -> (r: Self::Output) {
        (self.0, (self.1, (self.2, (self.3, ()))))
    }
}

impl List for () {
    type Reverse = ();

    open spec fn spec_len() -> nat {
        0
    }

    open spec fn spec_reverse(self) -> Self::Reverse {
        ()
    }

    fn length() -> (n: usize) {
        0
    }

    fn reverse(self) -> (r: Self::Reverse) {
    }
}

impl<A> List for (A, ()) {
    type Reverse = (A, ());

    open spec fn spec_len() -> nat {
        1
    }

    open spec fn spec_reverse(self) -> Self::Reverse {
        (self.0, ())
    }

    fn length() -> (n: usize) {
        1
    }

    fn reverse(self) -> (r: Self::Reverse) {
        (self.0, ())
    }
}

impl<A, B> List for (A, (B, ())) {
    type Reverse = (B, (A, ()));

    open spec fn spec_len() -> nat {
        2
    }

    open spec fn spec_reverse(self) -> Self::Reverse {
        (self.1.0, (self.0, ()))
    }

    fn reverse(self) -> (r: Self::Reverse) {
        let (a, (b, ())) = self;
        (b, (a, ()))
    }

    fn length() -> (n: usize) {
        2
    }
}

impl<A, B, C> List for (A, (B, (C, ()))) {
    type Reverse = (C, (B, (A, ())));

    open spec fn spec_len() -> nat {
        3
    }

    open spec fn spec_reverse(self) -> Self::Reverse {
        (self.1.1.0, (self.1.0, (self.0, ())))
    }

    fn reverse(self) -> (r: Self::Reverse) {
        let (a, (b, (c, ()))) = self;
        (c, (b, (a, ())))
    }

    fn length() -> (n: usize) {
        3
    }
}

impl<A, B, C, D> List for (A, (B, (C, (D, ())))) {
    type Reverse = (D, (C, (B, (A, ()))));

    open spec fn spec_len() -> nat {
        4
    }

    open spec fn spec_reverse(self) -> Self::Reverse {
        (self.1.1.1.0, (self.1.1.0, (self.1.0, (self.0, ()))))
    }

    fn reverse(self) -> (r: Self::Reverse) {
        let (a, (b, (c, (d, ())))) = self;
        (d, (c, (b, (a, ()))))
    }

    fn length() -> (n: usize) {
        4
    }
}

} // verus!
