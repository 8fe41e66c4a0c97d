//! Positions in the plane.
use crate::arithmetic::sum;
use crate::scalar::Scalar;
use crate::vector::Vector;
use vstd::prelude::*;
use vstd::std_specs::cmp::PartialEqSpecImpl;

verus! {

/// A position. It is no vector: positions are not added to each other.
#[derive(Clone, Copy, Debug)]
pub struct Coordinate {
    pub x: Scalar,
    pub y: Scalar,
}

impl Coordinate {
    /// The position moved by `vec`.
    pub open spec fn spec_add(self, vec: Vector) -> Coordinate {
        Coordinate { x: sum(self.x, vec.x), y: sum(self.y, vec.y) }
    }

    /// The pair of integers nearest to the position.
    pub open spec fn spec_rounded_as_ints(&self) -> (i32, i32) {
        (self.x.round_to_i32(), self.y.round_to_i32())
    }

    /// Whether the components are equal in value.
    pub open spec fn same_value(self, other: Coordinate) -> bool {
        self.x.same_value(other.x) && self.y.same_value(other.y)
    }

    /// The position rounded to the nearest integers, halves away from
    /// zero, each kept within the range of `i32`.
    #[verifier::when_used_as_spec(spec_rounded_as_ints)]
    pub fn rounded_as_ints(&self) -> (r: (i32, i32))
        ensures
            r == self.spec_rounded_as_ints(),
    {
        (self.x.round_to_i32(), self.y.round_to_i32())
    }

    /// The position moved by `vec`.
    #[verifier::when_used_as_spec(spec_add)]
    pub fn add(self, vec: Vector) -> (r: Coordinate)
        ensures
            r == self.spec_add(vec),
    {
        Coordinate { x: self.x + vec.x, y: self.y + vec.y }
    }
}

impl PartialEq for Coordinate {
    /// Whether the components are equal in value.
    fn eq(&self, other: &Coordinate) -> (r: bool) {
        self.x == other.x && self.y == other.y
    }
}

impl PartialEqSpecImpl for Coordinate {
    open spec fn obeys_eq_spec() -> bool {
        true
    }

    open spec fn eq_spec(&self, other: &Coordinate) -> bool {
        self.same_value(*other)
    }
}

} // verus!
