//! Forces: what changes the velocity of a point.
use crate::point::Point;
use crate::vector::Vector;
use vstd::prelude::*;

verus! {

/// Something that changes the velocity of a point, and nothing else of it.
/// The new velocity depends on the force and on the old velocity alone.
pub trait Force {
    /// The velocity that the force turns `velocity` into. A force that
    /// does not say leaves it open.
    open spec fn accelerated(&self, velocity: Vector) -> Vector {
        arbitrary()
    }

    /// Lets the force act on the point. The position stays as it is.
    fn apply(&self, point: &mut Point)
        ensures
            final(point).position == old(point).position,
            final(point).velocity == self.accelerated(old(point).velocity),
    ;
}

/// A force that adds a given vector to the velocity.
pub struct GenericForce {
    pub vec: Vector,
}

impl Default for GenericForce {
    /// The force that adds nothing.
    fn default() -> (r: GenericForce)
        ensures
            r.vec == Vector::zero(),
    {
        GenericForce { vec: Vector::zero() }
    }
}

impl Force for GenericForce {
    open spec fn accelerated(&self, velocity: Vector) -> Vector {
        velocity.spec_add(self.vec)
    }

    fn apply(&self, point: &mut Point) {
        point.velocity = point.velocity + self.vec;
    }
}

/// The velocity after each of the forces has acted on it, the first one
/// first.
pub open spec fn accelerate_all(forces: Seq<Box<dyn Force>>, velocity: Vector) -> Vector
    decreases forces.len(),
{
    if forces.len() == 0 {
        velocity
    } else {
        forces.last().accelerated(accelerate_all(forces.drop_last(), velocity))
    }
}

/// Two forces in a list act in the order of the list.
pub proof fn lemma_accelerate_all_pair(forces: Seq<Box<dyn Force>>, velocity: Vector)
    requires
        forces.len() == 2,
    ensures
        accelerate_all(forces, velocity) == forces[1].accelerated(
            forces[0].accelerated(velocity),
        ),
{
    let one: Seq<Box<dyn Force>> = forces.drop_last();
    assert(one.len() == 1 && one.last() == forces[0]);
    assert(one.drop_last().len() == 0);
    assert(accelerate_all(one.drop_last(), velocity) == velocity);
    assert(accelerate_all(one, velocity) == forces[0].accelerated(velocity));
}

} // verus!
