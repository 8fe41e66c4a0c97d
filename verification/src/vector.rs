//! Displacements and velocities in the plane.
use crate::arithmetic::{difference, product, sum};
use crate::keyboard::{
    Scancode, KEY_A, KEY_D, KEY_DOWN, KEY_LEFT, KEY_RIGHT, KEY_S, KEY_UP, KEY_W,
};
use crate::scalar::Scalar;
use core::ops::Neg;
use vstd::prelude::*;
use vstd::std_specs::cmp::PartialEqSpecImpl;
use vstd::std_specs::convert::TryFromSpecImpl;
use vstd::std_specs::ops::{AddSpecImpl, MulSpecImpl, NegSpecImpl, SubSpecImpl};

verus! {

/// A displacement or a velocity.
#[derive(Clone, Copy, Debug)]
pub struct Vector {
    pub x: Scalar,
    pub y: Scalar,
}

/// What a vector cannot be asked for or made from.
#[derive(Debug)]
pub enum Error {
    /// A component other than the first two was asked for.
    InvalidAxis(usize),
    /// The key does not steer.
    InvalidScancode(Scancode),
}

impl Vector {
    pub open spec fn spec_zero() -> Vector {
        Vector { x: Scalar::zero(), y: Scalar::zero() }
    }

    /// The component on the given axis, if there is such an axis.
    pub open spec fn spec_at(&self, i: usize) -> Result<Scalar, Error> {
        if i == 0 {
            Ok(self.x)
        } else if i == 1 {
            Ok(self.y)
        } else {
            Err(Error::InvalidAxis(i))
        }
    }

    /// The sum, component by component.
    pub open spec fn spec_add(self, rhs: Vector) -> Vector {
        Vector { x: sum(self.x, rhs.x), y: sum(self.y, rhs.y) }
    }

    /// The difference, component by component.
    pub open spec fn spec_sub(self, rhs: Vector) -> Vector {
        Vector { x: difference(self.x, rhs.x), y: difference(self.y, rhs.y) }
    }

    /// The product, component by component.
    pub open spec fn spec_mul(self, rhs: Vector) -> Vector {
        Vector { x: product(self.x, rhs.x), y: product(self.y, rhs.y) }
    }

    /// The vector of the same length that points the other way.
    pub open spec fn spec_neg(self) -> Vector {
        Vector { x: self.x.spec_neg(), y: self.y.spec_neg() }
    }

    pub open spec fn spec_scale(self, factor: Scalar) -> Vector {
        Vector { x: product(self.x, factor), y: product(self.y, factor) }
    }

    pub open spec fn spec_max(self, limit: Scalar) -> Vector {
        Vector { x: self.x.max(limit), y: self.y.max(limit) }
    }

    pub open spec fn spec_min(self, limit: Scalar) -> Vector {
        Vector { x: self.x.min(limit), y: self.y.min(limit) }
    }

    /// Whether the components are equal in value.
    pub open spec fn same_value(self, other: Vector) -> bool {
        self.x.same_value(other.x) && self.y.same_value(other.y)
    }

    /// The unit vector that a steering key stands for; the vertical axis
    /// points downwards.
    pub open spec fn spec_from_key(k: Scancode) -> Result<Vector, Error> {
        if k.steers_left() {
            Ok(Vector { x: Scalar::one().spec_neg(), y: Scalar::zero() })
        } else if k.steers_right() {
            Ok(Vector { x: Scalar::one(), y: Scalar::zero() })
        } else if k.steers_down() {
            Ok(Vector { x: Scalar::zero(), y: Scalar::one() })
        } else if k.steers_up() {
            Ok(Vector { x: Scalar::zero(), y: Scalar::one().spec_neg() })
        } else {
            Err(Error::InvalidScancode(k))
        }
    }

    /// The vector without length.
    #[verifier::when_used_as_spec(spec_zero)]
    pub fn zero() -> (r: Vector)
        ensures
            r == Vector::spec_zero(),
    {
        Vector { x: Scalar::zero(), y: Scalar::zero() }
    }

    /// Makes the vector the zero vector.
    pub fn zero_out(&mut self)
        ensures
            *final(self) == Vector::zero(),
    {
        self.x = Scalar::zero();
        self.y = Scalar::zero();
    }

    /// The component on axis `i`: `x` for 0, `y` for 1; no other axis
    /// exists.
    #[verifier::when_used_as_spec(spec_at)]
    pub fn at(&self, i: usize) -> (r: Result<Scalar, Error>)
        ensures
            r == self.spec_at(i),
            r is Ok <==> i < 2,
    {
        match i {
            0 => Ok(self.x),
            1 => Ok(self.y),
            _ => Err(Error::InvalidAxis(i)),
        }
    }

    /// Both components multiplied by `factor`.
    #[verifier::when_used_as_spec(spec_scale)]
    pub fn scale(self, factor: Scalar) -> (r: Vector)
        ensures
            r == self.spec_scale(factor),
    {
        Vector { x: self.x * factor, y: self.y * factor }
    }

    /// Each component raised to `limit` where it is less.
    #[verifier::when_used_as_spec(spec_max)]
    pub fn max(self, limit: Scalar) -> (r: Vector)
        ensures
            r == self.spec_max(limit),
    {
        Vector { x: self.x.max(limit), y: self.y.max(limit) }
    }

    /// Each component lowered to `limit` where it is greater.
    #[verifier::when_used_as_spec(spec_min)]
    pub fn min(self, limit: Scalar) -> (r: Vector)
        ensures
            r == self.spec_min(limit),
    {
        Vector { x: self.x.min(limit), y: self.y.min(limit) }
    }

    /// The vector whose components are `func` of the components of the two
    /// vectors, axis by axis.
    pub fn map<F: Fn(&Scalar, &Scalar) -> Scalar>(self, rhs: &Vector, func: F) -> (r: Vector)
        requires
            call_requires(func, (&self.x, &rhs.x)),
            call_requires(func, (&self.y, &rhs.y)),
        ensures
            call_ensures(func, (&self.x, &rhs.x), r.x),
            call_ensures(func, (&self.y, &rhs.y), r.y),
    {
        Vector { x: func(&self.x, &rhs.x), y: func(&self.y, &rhs.y) }
    }
}

impl PartialEq for Vector {
    /// Whether the components are equal in value.
    fn eq(&self, other: &Vector) -> (r: bool) {
        self.x == other.x && self.y == other.y
    }
}

impl PartialEqSpecImpl for Vector {
    open spec fn obeys_eq_spec() -> bool {
        true
    }

    open spec fn eq_spec(&self, other: &Vector) -> bool {
        self.same_value(*other)
    }
}

impl Default for Vector {
    fn default() -> (r: Vector)
        ensures
            r == Vector::zero(),
    {
        Vector::zero()
    }
}

impl core::ops::Mul for Vector {
    type Output = Vector;

    fn mul(self, rhs: Vector) -> (r: Vector) {
        Vector { x: self.x * rhs.x, y: self.y * rhs.y }
    }
}

impl MulSpecImpl for Vector {
    open spec fn obeys_mul_spec() -> bool {
        true
    }

    open spec fn mul_req(self, rhs: Vector) -> bool {
        true
    }

    open spec fn mul_spec(self, rhs: Vector) -> Vector {
        self.spec_mul(rhs)
    }
}

impl core::ops::Mul<Scalar> for Vector {
    type Output = Vector;

    fn mul(self, rhs: Scalar) -> (r: Vector) {
        Vector { x: self.x * rhs, y: self.y * rhs }
    }
}

impl MulSpecImpl<Scalar> for Vector {
    open spec fn obeys_mul_spec() -> bool {
        true
    }

    open spec fn mul_req(self, rhs: Scalar) -> bool {
        true
    }

    open spec fn mul_spec(self, rhs: Scalar) -> Vector {
        self.spec_scale(rhs)
    }
}

impl core::ops::Neg for Vector {
    type Output = Vector;

    fn neg(self) -> (r: Vector) {
        Vector { x: self.x.neg(), y: self.y.neg() }
    }
}

impl NegSpecImpl for Vector {
    open spec fn obeys_neg_spec() -> bool {
        true
    }

    open spec fn neg_req(self) -> bool {
        true
    }

    open spec fn neg_spec(self) -> Vector {
        self.spec_neg()
    }
}

impl core::ops::Sub for Vector {
    type Output = Vector;

    fn sub(self, rhs: Vector) -> (r: Vector) {
        Vector { x: self.x - rhs.x, y: self.y - rhs.y }
    }
}

impl SubSpecImpl for Vector {
    open spec fn obeys_sub_spec() -> bool {
        true
    }

    open spec fn sub_req(self, rhs: Vector) -> bool {
        true
    }

    open spec fn sub_spec(self, rhs: Vector) -> Vector {
        self.spec_sub(rhs)
    }
}

impl core::ops::Add for Vector {
    type Output = Vector;

    fn add(self, rhs: Vector) -> (r: Vector) {
        Vector { x: self.x + rhs.x, y: self.y + rhs.y }
    }
}

impl AddSpecImpl for Vector {
    open spec fn obeys_add_spec() -> bool {
        true
    }

    open spec fn add_req(self, rhs: Vector) -> bool {
        true
    }

    open spec fn add_spec(self, rhs: Vector) -> Vector {
        self.spec_add(rhs)
    }
}

impl TryFrom<Scancode> for Vector {
    type Error = Error;

    /// The unit vector of a steering key.
    fn try_from(k: Scancode) -> (r: Result<Vector, Error>) {
        let mut v = Vector::zero();
        let code: i32 = k.code;
        if code == KEY_A || code == KEY_LEFT {
            v.x = Scalar::one().neg();
        } else if code == KEY_D || code == KEY_RIGHT {
            v.x = Scalar::one();
        } else if code == KEY_S || code == KEY_DOWN {
            v.y = Scalar::one();
        } else if code == KEY_W || code == KEY_UP {
            v.y = Scalar::one().neg();
        } else {
            return Err(Error::InvalidScancode(k));
        }
        Ok(v)
    }
}

impl TryFromSpecImpl<Scancode> for Vector {
    open spec fn obeys_try_from_spec() -> bool {
        true
    }

    open spec fn try_from_spec(k: Scancode) -> Result<Vector, Error> {
        Vector::spec_from_key(k)
    }
}

} // verus!
