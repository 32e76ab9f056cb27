//! Small helpers shared with host-side visitors.

use vstd::prelude::*;

verus! {

/// A fold result that can end a traversal early: host-side expression
/// visitors stop descending once the accumulated result has concluded.
pub trait Conclusive {
    /// Whether this value counts as concluded.
    spec fn concluded_spec(&self) -> bool;

    /// Executable form of [`Conclusive::concluded_spec`].
    fn concluded(&self) -> (r: bool)
        ensures
            r == self.concluded_spec(),
    ;
}

impl<T> Conclusive for Option<T> {
    open spec fn concluded_spec(&self) -> bool {
        self is Some
    }

    fn concluded(&self) -> (r: bool) {
        self.is_some()
    }
}

impl Conclusive for bool {
    open spec fn concluded_spec(&self) -> bool {
        *self
    }

    fn concluded(&self) -> (r: bool) {
        *self
    }
}

} // verus!
