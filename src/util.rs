//! Small helpers shared by the geometry.
use vstd::prelude::*;

use crate::scalar::Real;

verus! {

/// Membership of the half-open interval `[lower_bound, upper_bound)`.
pub trait Between<T> {
    spec fn between_spec(&self, lower_bound: &T, upper_bound: &T) -> bool;

    fn between(&self, lower_bound: &T, upper_bound: &T) -> (r: bool)
        ensures
            r == self.between_spec(lower_bound, upper_bound),
    ;
}

impl Between<Real> for Real {
    open spec fn between_spec(&self, lower_bound: &Real, upper_bound: &Real) -> bool {
        lower_bound@ <= self@ && self@ < upper_bound@
    }

    fn between(&self, lower_bound: &Real, upper_bound: &Real) -> (r: bool) {
        lower_bound.le(*self) && self.lt(*upper_bound)
    }
}

} // verus!
