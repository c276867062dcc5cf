//! Points of the plane in which trajectories run.
use crate::scalar::Scalar;
use vstd::prelude::*;
use vstd::std_specs::convert::FromSpecImpl;

verus! {

/// A point `(x, y)`: the state of an integration at one step.
#[derive(Clone, Copy, Debug, PartialEq, Eq, Structural)]
pub struct Point {
    pub x: Scalar,
    pub y: Scalar,
}

impl Point {
    /// Whether both coordinates are finite numbers.
    pub open spec fn is_finite(self) -> bool {
        self.x.is_finite() && self.y.is_finite()
    }
}

impl Default for Point {
    /// The origin, with both coordinates positive zero.
    fn default() -> (p: Point)
        ensures
            p.x.bits == 0,
            p.y.bits == 0,
    {
        Point { x: Scalar { bits: 0 }, y: Scalar { bits: 0 } }
    }
}

impl From<(Scalar, Scalar)> for Point {
    /// The point with the pair's first member as `x` and its second as `y`.
    fn from(pair: (Scalar, Scalar)) -> (p: Point) {
        Point { x: pair.0, y: pair.1 }
    }
}

impl FromSpecImpl<(Scalar, Scalar)> for Point {
    open spec fn obeys_from_spec() -> bool {
        true
    }

    open spec fn from_spec(pair: (Scalar, Scalar)) -> Point {
        Point { x: pair.0, y: pair.1 }
    }
}

} // verus!
