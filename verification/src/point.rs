//! The simulated body.
use crate::bounding_box::{BoundingBox, BoundingBoxError};
use crate::coordinate::Coordinate;
use crate::scalar::Scalar;
use crate::traits::{accelerate_all, Force};
use crate::vector::Vector;
use vstd::prelude::*;
use vstd::std_specs::cmp::PartialEqSpecImpl;

verus! {

/// A point mass: where it is and how far it moves in one tick.
#[derive(Copy, Clone, Debug)]
pub struct Point {
    pub position: Coordinate,
    pub velocity: Vector,
}

impl Point {
    /// Whether position and velocity are equal in value.
    pub open spec fn same_value(self, other: Point) -> bool {
        self.position.same_value(other.position) && self.velocity.same_value(other.velocity)
    }

    /// The point after the forces have acted on its velocity in turn, then
    /// the extra force if there is one.
    pub open spec fn accelerated(
        self,
        forces: Seq<Box<dyn Force>>,
        extra: Option<&dyn Force>,
    ) -> Point {
        Point {
            position: self.position,
            velocity: match extra {
                Some(force) => force.accelerated(accelerate_all(forces, self.velocity)),
                None => accelerate_all(forces, self.velocity),
            },
        }
    }

    /// One tick: the forces act in turn on the velocity, then the extra
    /// force if there is one, then the point moves within the box.
    pub fn travel(
        self,
        bounding_box: &BoundingBox,
        forces: &Vec<Box<dyn Force>>,
        extra: Option<&dyn Force>,
    ) -> (r: Result<Point, BoundingBoxError>)
        ensures
            r == bounding_box.spec_bounce(self.accelerated(forces@, extra)),
            r matches Ok(q) ==> bounding_box.spec_contains(q.position),
    {
        let mut point = self;
        let mut i: usize = 0;
        while i < forces.len()
            invariant
                i <= forces.len(),
                point.position == self.position,
                point.velocity == accelerate_all(forces@.take(i as int), self.velocity),
            decreases forces.len() - i,
        {
            forces[i].apply(&mut point);
            proof {
                assert(forces@.take(i + 1).drop_last() =~= forces@.take(i as int));
            }
            i = i + 1;
        }
        proof {
            assert(forces@.take(forces.len() as int) =~= forces@);
        }
        if let Some(force) = extra {
            force.apply(&mut point);
        }
        bounding_box.bounce(point)
    }

    /// The two axes of the point, each as its coordinate and its velocity,
    /// open to change: first the horizontal axis, then the vertical one.
    pub fn components_mut(&mut self) -> (r: ((&mut Scalar, &mut Scalar), (&mut Scalar, &mut Scalar)))
        ensures
            *r.0.0 == old(self).position.x,
            *r.0.1 == old(self).velocity.x,
            *r.1.0 == old(self).position.y,
            *r.1.1 == old(self).velocity.y,
            final(self).position.x == *final(r.0.0),
            final(self).velocity.x == *final(r.0.1),
            final(self).position.y == *final(r.1.0),
            final(self).velocity.y == *final(r.1.1),
    {
        (
            (&mut self.position.x, &mut self.velocity.x),
            (&mut self.position.y, &mut self.velocity.y),
        )
    }
}

impl PartialEq for Point {
    /// Whether position and velocity are equal in value.
    fn eq(&self, other: &Point) -> (r: bool) {
        self.position == other.position && self.velocity == other.velocity
    }
}

impl PartialEqSpecImpl for Point {
    open spec fn obeys_eq_spec() -> bool {
        true
    }

    open spec fn eq_spec(&self, other: &Point) -> bool {
        self.same_value(*other)
    }
}

} // verus!
