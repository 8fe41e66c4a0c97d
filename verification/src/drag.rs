//! Drag: a force that scales the velocity down.
use crate::arithmetic::{product, sum};
use crate::gravity::Gravity;
use crate::point::Point;
use crate::scalar::Scalar;
use crate::traits::Force;
use crate::vector::Vector;
use vstd::prelude::*;

verus! {

/// A force that multiplies the velocity by a coefficient between zero
/// (full stop) and one (no effect).
pub struct Drag {
    coefficient: Scalar,
}

impl Drag {
    /// The coefficient is within `[0, 1]`, unless it is a NaN.
    #[verifier::type_invariant]
    spec fn within_bounds(self) -> bool {
        !self.coefficient.less_than(Scalar::zero()) && !Scalar::one().less_than(self.coefficient)
    }

    /// The factor by which the velocity is multiplied.
    pub closed spec fn spec_coefficient(&self) -> Scalar {
        self.coefficient
    }

    /// A drag with the coefficient brought into `[0, 1]`.
    pub fn new(coefficient: Scalar) -> (r: Drag)
        ensures
            r.coefficient() == coefficient.clamp(Scalar::zero(), Scalar::one()),
    {
        Drag { coefficient: coefficient.clamp(Scalar::zero(), Scalar::one()) }
    }

    /// The factor by which the velocity is multiplied: within `[0, 1]`,
    /// unless it is a NaN.
    #[verifier::when_used_as_spec(spec_coefficient)]
    pub fn coefficient(&self) -> (r: Scalar)
        ensures
            r == self.spec_coefficient(),
            r.is_nan() || (Scalar::zero().at_most(r) && r.at_most(Scalar::one())),
    {
        proof {
            use_type_invariant(self);
        }
        self.coefficient
    }
}

impl Force for Drag {
    open spec fn accelerated(&self, velocity: Vector) -> Vector {
        velocity.spec_scale(self.coefficient())
    }

    fn apply(&self, point: &mut Point) {
        point.velocity = point.velocity * self.coefficient;
    }
}

/// Drag before gravity scales the velocity and then adds the pull, which
/// is not scaled. In the other order the pull is scaled too.
pub proof fn lemma_drag_then_gravity(drag: Drag, gravity: Gravity, velocity: Vector)
    ensures
        gravity.accelerated(drag.accelerated(velocity)) == (Vector {
            x: product(velocity.x, drag.coefficient()),
            y: sum(product(velocity.y, drag.coefficient()), gravity.grav_constant()),
        }),
        drag.accelerated(gravity.accelerated(velocity)) == (Vector {
            x: product(velocity.x, drag.coefficient()),
            y: product(sum(velocity.y, gravity.grav_constant()), drag.coefficient()),
        }),
{
}

} // verus!
