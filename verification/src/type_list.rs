//! Conversion from flat tuples into nested-cell lists.
//!
//! This is the companion of [`crate::tuple_list`]: where that module names
//! the conversion after the nested-tuple representation, this one offers it
//! under the generic name [`IntoList::into_list`], which is the form the
//! argument-layout machinery consumes.

use vstd::prelude::*;

verus! {

/// Conversion from a flat tuple to its nested-cell list.
pub trait IntoList: Sized {
    /// The nested-cell form.
    type Output;

    /// The nested-cell list this tuple converts to.
    spec fn spec_into_list(self) -> Self::Output;

    /// Converts the tuple into its nested-cell list.
    fn into_list(self) -> (r: Self::Output)
        ensures
            r == self.spec_into_list(),
    ;
}

impl IntoList for () {
    type Output = ();

    open spec fn spec_into_list(self) -> Self::Output {
        ()
    }

    fn into_list(self) -> (r: Self::Output) {
    }
}

impl<A> IntoList for (A,) {
    type Output = (A, ());

    open spec fn spec_into_list(self) -> Self::Output {
        (self.0, ())
    }

    fn into_list(self) -> (r: Self::Output) {
        (self.0, ())
    }
}

impl<A, B> IntoList for (A, B) {
    type Output = (A, (B, ()));

    open spec fn spec_into_list(self) -> Self::Output {
        (self.0, (self.1, ()))
    }

    fn into_list(self) -> (r: Self::Output) {
        (self.0, (self.1, ()))
    }
}

impl<A, B, C> IntoList for (A, B, C) {
    type Output = (A, (B, (C, ())));

    open spec fn spec_into_list(self) -> Self::Output {
        (self.0, (self.1, (self.2, ())))
    }

    fn into_list(self) -> (r: Self::Output) {
        (self.0, (self.1, (self.2, ())))
    }
}

impl<A, B, C, D> IntoList for (A, B, C, D) {
    type Output = (A, (B, (C, (D, ()))));

    open spec fn spec_into_list(self) -> Self::Output {
        (self.0, (self.1, (self.2, (self.3, ()))))
    }

    fn into_list(self) -> (r: Self::Output) {
        (self.0, (self.1, (self.2, (self.3, ()))))
    }
}

} // verus!
