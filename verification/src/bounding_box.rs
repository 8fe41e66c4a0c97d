//! The rectangle that confines the point, and the reflection at its edges.
use crate::arithmetic::{difference, lemma_sum_with_zero, product};
use crate::coordinate::Coordinate;
use crate::point::Point;
use crate::scalar::Scalar;
use crate::vector::Vector;
use core::ops::Neg;
use vstd::prelude::*;

verus! {

/// The rectangle with corners at the origin and at `(width, height)`,
/// edges included. Both dimensions are greater than zero.
pub struct BoundingBox {
    width: Scalar,
    height: Scalar,
}

/// Why a box was not made, or a point not moved.
#[derive(Debug)]
pub enum BoundingBoxError {
    /// A dimension is not greater than zero.
    DimensionError,
    /// One reflection left the point outside the box; this is where.
    BounceError(Point),
}

/// Whether a coordinate lies beyond one of the two edges of its axis.
pub open spec fn beyond_edge(pos: Scalar, limit: Scalar) -> bool {
    pos.less_than(Scalar::zero()) || limit.less_than(pos)
}

/// How far a coordinate lies beyond the edge of its axis: the coordinate
/// itself where it is negative, else its distance from the upper limit.
pub open spec fn overshoot(pos: Scalar, limit: Scalar) -> Scalar {
    if pos.less_than(Scalar::zero()) {
        pos
    } else {
        difference(pos, limit)
    }
}

/// A coordinate beyond an edge mirrored at that edge: twice the overshoot
/// is taken off. A coordinate within the limits stays.
pub open spec fn mirrored(pos: Scalar, limit: Scalar) -> Scalar {
    if beyond_edge(pos, limit) {
        difference(pos, product(Scalar::two(), overshoot(pos, limit)))
    } else {
        pos
    }
}

/// The velocity on an axis after the reflection: turned round where the
/// coordinate lies beyond an edge.
pub open spec fn turned(pos: Scalar, vel: Scalar, limit: Scalar) -> Scalar {
    if beyond_edge(pos, limit) {
        vel.spec_neg()
    } else {
        vel
    }
}

impl BoundingBox {
    /// What holds of every box: both dimensions are greater than zero.
    #[verifier::type_invariant]
    pub closed spec fn well_formed(self) -> bool {
        Scalar::zero().less_than(self.width) && Scalar::zero().less_than(self.height)
    }

    /// The upper limit of the horizontal axis.
    pub closed spec fn spec_width(&self) -> Scalar {
        self.width
    }

    /// The upper limit of the vertical axis.
    pub closed spec fn spec_height(&self) -> Scalar {
        self.height
    }

    /// The upper limit of the horizontal axis; it is greater than zero.
    #[verifier::when_used_as_spec(spec_width)]
    pub fn width(&self) -> (r: Scalar)
        ensures
            r == self.spec_width(),
            Scalar::zero().less_than(r),
    {
        proof {
            use_type_invariant(self);
        }
        self.width
    }

    /// The upper limit of the vertical axis; it is greater than zero.
    #[verifier::when_used_as_spec(spec_height)]
    pub fn height(&self) -> (r: Scalar)
        ensures
            r == self.spec_height(),
            Scalar::zero().less_than(r),
    {
        proof {
            use_type_invariant(self);
        }
        self.height
    }

    /// Whether the coordinate lies in the box, edges included.
    pub open spec fn spec_contains(&self, coordinate: Coordinate) -> bool {
        &&& Scalar::zero().at_most(coordinate.x)
        &&& coordinate.x.at_most(self.width())
        &&& Scalar::zero().at_most(coordinate.y)
        &&& coordinate.y.at_most(self.height())
    }

    /// How far beyond the edges the coordinate lies, axis by axis.
    pub open spec fn spec_distance_beyond_edge(&self, pos: Coordinate) -> Vector {
        Vector { x: overshoot(pos.x, self.width()), y: overshoot(pos.y, self.height()) }
    }

    /// How far the edge lies that the vector heads for, axis by axis: the
    /// upper limit where the vector is positive, else zero.
    pub open spec fn spec_distance_to_edge(&self, pos: Coordinate, vec: Vector) -> Vector {
        Vector {
            x: difference(
                if Scalar::zero().less_than(vec.x) {
                    self.width()
                } else {
                    Scalar::zero()
                },
                pos.x,
            ),
            y: difference(
                if Scalar::zero().less_than(vec.y) {
                    self.height()
                } else {
                    Scalar::zero()
                },
                pos.y,
            ),
        }
    }

    /// The point after it has moved by its velocity.
    pub open spec fn moved(point: Point) -> Point {
        Point { position: point.position.spec_add(point.velocity), velocity: point.velocity }
    }

    /// The point mirrored at every edge that it lies beyond, each axis by
    /// itself, with the velocity turned round on those axes.
    pub open spec fn reflected(&self, point: Point) -> Point {
        Point {
            position: Coordinate {
                x: mirrored(point.position.x, self.width()),
                y: mirrored(point.position.y, self.height()),
            },
            velocity: Vector {
                x: turned(point.position.x, point.velocity.x, self.width()),
                y: turned(point.position.y, point.velocity.y, self.height()),
            },
        }
    }

    /// One tick of movement: the point moved by its velocity where that
    /// stays in the box; else the moved point reflected once, where that
    /// lies in the box; else the failure, with the reflected point.
    pub open spec fn spec_bounce(&self, point: Point) -> Result<Point, BoundingBoxError> {
        let moved: Point = BoundingBox::moved(point);
        if self.spec_contains(moved.position) {
            Ok(moved)
        } else if self.spec_contains(self.reflected(moved).position) {
            Ok(self.reflected(moved))
        } else {
            Err(BoundingBoxError::BounceError(self.reflected(moved)))
        }
    }

    /// The box of the given dimensions, if both are greater than zero.
    pub fn new(width: Scalar, height: Scalar) -> (r: Result<BoundingBox, BoundingBoxError>)
        ensures
            Scalar::zero().less_than(width) && Scalar::zero().less_than(height) ==> r is Ok
                && r->Ok_0.width() == width && r->Ok_0.height() == height
                && r->Ok_0.well_formed(),
            !(Scalar::zero().less_than(width) && Scalar::zero().less_than(height)) ==> r
                == Err::<BoundingBox, BoundingBoxError>(BoundingBoxError::DimensionError),
    {
        if width > Scalar::zero() && height > Scalar::zero() {
            Ok(BoundingBox { width, height })
        } else {
            Err(BoundingBoxError::DimensionError)
        }
    }

    /// Whether the coordinate lies in the box, edges included.
    #[verifier::when_used_as_spec(spec_contains)]
    pub fn contains(&self, coordinate: Coordinate) -> (r: bool)
        ensures
            r == self.spec_contains(coordinate),
    {
        coordinate.x >= Scalar::zero() && coordinate.x <= self.width && coordinate.y
            >= Scalar::zero() && coordinate.y <= self.height
    }

    /// Moves the point by its velocity and, where that leaves the box,
    /// reflects it once at the edges that it has passed.
    #[verifier::when_used_as_spec(spec_bounce)]
    pub fn bounce(&self, point: Point) -> (r: Result<Point, BoundingBoxError>)
        ensures
            r == self.spec_bounce(point),
            r matches Ok(q) ==> self.spec_contains(q.position),
            r matches Err(e) ==> e matches BoundingBoxError::BounceError(q)
                && !self.spec_contains(q.position),
    {
        let new_pos = point.position.add(point.velocity);
        let mut new_point = Point { position: new_pos, velocity: point.velocity };
        if self.contains(new_pos) {
            return Ok(new_point);
        }
        let dist_beyond_edge = self.distance_beyond_edge(new_pos);
        if new_pos.x < Scalar::zero() || new_pos.x > self.width {
            new_point.position.x = new_pos.x - Scalar::two() * dist_beyond_edge.x;
            new_point.velocity.x = point.velocity.x.neg();
        }
        if new_pos.y < Scalar::zero() || new_pos.y > self.height {
            new_point.position.y = new_pos.y - Scalar::two() * dist_beyond_edge.y;
            new_point.velocity.y = point.velocity.y.neg();
        }
        if self.contains(new_point.position) {
            Ok(new_point)
        } else {
            Err(BoundingBoxError::BounceError(new_point))
        }
    }

    /// How far beyond the edges the coordinate lies, axis by axis.
    #[verifier::when_used_as_spec(spec_distance_beyond_edge)]
    pub fn distance_beyond_edge(&self, pos: Coordinate) -> (r: Vector)
        ensures
            r == self.spec_distance_beyond_edge(pos),
    {
        Vector {
            x: if pos.x < Scalar::zero() {
                pos.x
            } else {
                pos.x - self.width
            },
            y: if pos.y < Scalar::zero() {
                pos.y
            } else {
                pos.y - self.height
            },
        }
    }

    /// How far the edge lies that the vector heads for, axis by axis.
    #[verifier::when_used_as_spec(spec_distance_to_edge)]
    pub fn distance_to_edge(&self, pos: Coordinate, vec: Vector) -> (r: Vector)
        ensures
            r == self.spec_distance_to_edge(pos, vec),
    {
        let x_edge = if vec.x > Scalar::zero() {
            self.width
        } else {
            Scalar::zero()
        };
        let y_edge = if vec.y > Scalar::zero() {
            self.height
        } else {
            Scalar::zero()
        };
        Vector { x: x_edge - pos.x, y: y_edge - pos.y }
    }
}

/// Every point on an edge of the box is in the box.
pub proof fn lemma_edges_contained(b: BoundingBox, c: Coordinate)
    requires
        b.well_formed(),
        ({
            &&& c.x.same_value(Scalar::zero()) || c.x.same_value(b.width())
            &&& Scalar::zero().at_most(c.y)
            &&& c.y.at_most(b.height())
        }) || ({
            &&& c.y.same_value(Scalar::zero()) || c.y.same_value(b.height())
            &&& Scalar::zero().at_most(c.x)
            &&& c.x.at_most(b.width())
        }),
    ensures
        b.spec_contains(c),
{
}

/// No point beyond an edge is in the box, however near the edge it is.
pub proof fn lemma_beyond_edge_outside(b: BoundingBox, c: Coordinate)
    requires
        beyond_edge(c.x, b.width()) || beyond_edge(c.y, b.height()),
    ensures
        !b.spec_contains(c),
{
}

/// The numbers next to an edge on its outer side are beyond it: the least
/// negative number, and the number that follows the upper limit.
pub proof fn lemma_next_to_edge_outside(limit: Scalar)
    requires
        Scalar::zero().less_than(limit),
    ensures
        beyond_edge(Scalar { bits: 0x8000_0000_0000_0001 }, limit),
        limit.is_finite() ==> beyond_edge(Scalar { bits: (limit.bits + 1) as u64 }, limit),
{
}

/// A point beyond the edges of one axis only is reflected on that axis
/// only: the velocity turns round there, and on the other axis position
/// and velocity stay.
pub proof fn lemma_single_axis_reflection(b: BoundingBox, p: Point)
    ensures
        beyond_edge(p.position.x, b.width()) && !beyond_edge(p.position.y, b.height())
            ==> b.reflected(p).velocity == (Vector {
            x: p.velocity.x.spec_neg(),
            y: p.velocity.y,
        }) && b.reflected(p).position.y == p.position.y,
        !beyond_edge(p.position.x, b.width()) && beyond_edge(p.position.y, b.height())
            ==> b.reflected(p).velocity == (Vector {
            x: p.velocity.x,
            y: p.velocity.y.spec_neg(),
        }) && b.reflected(p).position.x == p.position.x,
{
}

/// A point beyond a corner is reflected on both axes in one pass: the
/// whole velocity turns round.
pub proof fn lemma_corner_reflection(b: BoundingBox, p: Point)
    requires
        beyond_edge(p.position.x, b.width()),
        beyond_edge(p.position.y, b.height()),
    ensures
        b.reflected(p).velocity == p.velocity.spec_neg(),
        b.reflected(p).position.x == difference(
            p.position.x,
            product(Scalar::two(), overshoot(p.position.x, b.width())),
        ),
        b.reflected(p).position.y == difference(
            p.position.y,
            product(Scalar::two(), overshoot(p.position.y, b.height())),
        ),
{
}

/// A point at rest in the box stays where it is: with a velocity of zero,
/// one tick gives a point of the same position and velocity.
pub proof fn lemma_bounce_at_rest(b: BoundingBox, p: Point)
    requires
        b.spec_contains(p.position),
        p.velocity.x.is_zero(),
        p.velocity.y.is_zero(),
    ensures
        b.spec_bounce(p) is Ok,
        b.spec_bounce(p)->Ok_0.same_value(p),
        b.spec_bounce(p)->Ok_0.velocity == p.velocity,
{
    lemma_sum_with_zero(p.position.x, p.velocity.x);
    lemma_sum_with_zero(p.position.y, p.velocity.y);
}

} // verus!
