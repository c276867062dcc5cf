//! When an integration stops.
use crate::point::Point;
use crate::scalar::is_degenerate;
use crate::scalar::Scalar;
use vstd::prelude::*;

verus! {

/// The stopping rule of one trajectory.
///
/// The two bounds are optional and independent; an absent bound never stops
/// anything. `max_points` is always present and caps the length of a
/// trajectory, so that an integration ends even where neither bound is ever
/// crossed.
#[derive(Clone, Copy, Debug)]
pub struct EndCondition {
    /// Stop once `x` is greater than this.
    pub max_x: Option<Scalar>,
    /// Stop once `|y|` is greater than this.
    pub max_abs_y: Option<Scalar>,
    /// The most points that a trajectory may hold.
    pub max_points: usize,
}

impl EndCondition {
    /// Whether `current` lies beyond a configured bound.
    pub open spec fn reached(self, current: Point) -> bool {
        ||| (self.max_x matches Some(max_x) && current.x.greater(max_x))
        ||| (self.max_abs_y matches Some(max_y) && current.y.magnitude_scalar().greater(max_y))
    }

    /// Whether `current` may be recorded: it lies within the bounds and both
    /// of its coordinates are finite.
    pub open spec fn admits(self, current: Point) -> bool {
        !self.reached(current) && current.is_finite()
    }

    /// Whether the integration has to stop before `current` is recorded
    /// because `current` lies beyond a configured bound.
    pub fn has_reached(&self, current: &Point) -> (r: bool)
        ensures
            r == self.reached(*current),
            self.max_x is None && self.max_abs_y is None ==> !r,
    {
        let beyond_x: bool = match self.max_x {
            Some(max_x) => current.x.gt(max_x),
            None => false,
        };
        if beyond_x {
            true
        } else {
            match self.max_abs_y {
                Some(max_y) => current.y.abs().gt(max_y),
                None => false,
            }
        }
    }

    /// Whether `current` may be recorded.
    pub fn accepts(&self, current: &Point) -> (r: bool)
        ensures
            r == self.admits(*current),
    {
        !self.has_reached(current) && !is_degenerate(current.x) && !is_degenerate(current.y)
    }
}

} // verus!
