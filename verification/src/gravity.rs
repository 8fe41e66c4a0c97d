//! Gravity: a force that pulls downwards.
use crate::arithmetic::sum;
use crate::point::Point;
use crate::scalar::Scalar;
use crate::traits::Force;
use crate::vector::Vector;
use vstd::prelude::*;

verus! {

/// A force that adds a constant to the vertical velocity; the vertical axis
/// points downwards.
pub struct Gravity {
    grav_constant: Scalar,
}

impl Gravity {
    /// What is added to the vertical velocity in one tick.
    pub closed spec fn spec_grav_constant(&self) -> Scalar {
        self.grav_constant
    }

    /// What is added to the vertical velocity in one tick.
    #[verifier::when_used_as_spec(spec_grav_constant)]
    pub fn grav_constant(&self) -> (r: Scalar)
        ensures
            r == self.spec_grav_constant(),
    {
        self.grav_constant
    }

    /// A gravity that adds `g` in one tick.
    pub fn new(g: Scalar) -> (r: Gravity)
        ensures
            r.grav_constant() == g,
    {
        Gravity { grav_constant: g }
    }
}

impl Default for Gravity {
    /// The gravity that adds one in one tick.
    fn default() -> (r: Gravity)
        ensures
            r.grav_constant() == Scalar::one(),
    {
        Gravity { grav_constant: Scalar::one() }
    }
}

impl Force for Gravity {
    open spec fn accelerated(&self, velocity: Vector) -> Vector {
        Vector { x: velocity.x, y: sum(velocity.y, self.grav_constant()) }
    }

    fn apply(&self, point: &mut Point) {
        point.velocity.y = point.velocity.y + self.grav_constant;
    }
}

} // verus!
