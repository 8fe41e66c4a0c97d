//! What a frame loop needs besides the simulation itself: the force that
//! the pressed keys exert, and the square that marks the point on screen.
use crate::keyboard::{
    Scancode, KEY_A, KEY_D, KEY_DOWN, KEY_LEFT, KEY_RIGHT, KEY_S, KEY_UP, KEY_W,
};
use crate::point::Point;
use crate::scalar::Scalar;
use crate::traits::GenericForce;
use crate::vector::Vector;
use vstd::prelude::*;
use vstd::std_specs::convert::FromSpecImpl;

verus! {

/// The pattern of three tenths, the velocity that one steering key adds in
/// one tick.
pub const STEERING_BITS: u64 = 0x3fd3_3333_3333_3333;

/// The side of the square that marks the point.
pub const MARKER_SIDE: u32 = 6;

/// A failure that the windowing layer reports as plain text.
#[derive(Debug)]
pub enum Sdl2Error {
    GenericError(String),
}

impl From<String> for Sdl2Error {
    fn from(err: String) -> (r: Sdl2Error) {
        Sdl2Error::GenericError(err)
    }
}

impl FromSpecImpl<String> for Sdl2Error {
    open spec fn obeys_from_spec() -> bool {
        true
    }

    open spec fn from_spec(err: String) -> Sdl2Error {
        Sdl2Error::GenericError(err)
    }
}

/// A square on screen, by its upper left corner and its sides.
#[derive(Clone, Copy, Debug, PartialEq, Eq, Structural)]
pub struct Marker {
    pub x: i32,
    pub y: i32,
    pub width: u32,
    pub height: u32,
}

/// The velocity that one steering key adds in one tick.
pub open spec fn steering_step() -> Scalar {
    Scalar { bits: STEERING_BITS }
}

/// The sum of what the steering keys among `keys` add, taken in their
/// order; other keys add nothing.
pub open spec fn steering_sum(keys: Seq<Scancode>) -> Vector
    decreases keys.len(),
{
    if keys.len() == 0 {
        Vector::zero()
    } else {
        match Vector::spec_from_key(keys.last()) {
            Ok(unit) => steering_sum(keys.drop_last()).spec_add(unit.spec_scale(steering_step())),
            Err(_) => steering_sum(keys.drop_last()),
        }
    }
}

/// Whether the key is one of the eight that steer: `W`, `A`, `S`, `D` and
/// the four arrows.
pub fn is_direction_press(code: Scancode) -> (r: bool)
    ensures
        r == code.steers(),
        r == (Vector::spec_from_key(code) is Ok),
{
    let c: i32 = code.code;
    c == KEY_W || c == KEY_A || c == KEY_S || c == KEY_D || c == KEY_UP || c == KEY_LEFT || c
        == KEY_DOWN || c == KEY_RIGHT
}

/// The force that the pressed keys exert in one tick: three tenths for
/// each steering key in its direction, summed in the order of `keys`, and
/// no component greater than one.
pub fn user_impulse(keys: &Vec<Scancode>) -> (r: GenericForce)
    ensures
        r.vec == steering_sum(keys@).spec_min(Scalar::one()),
{
    let mut total = Vector::zero();
    let mut i: usize = 0;
    while i < keys.len()
        invariant
            i <= keys.len(),
            total == steering_sum(keys@.take(i as int)),
        decreases keys.len() - i,
    {
        proof {
            assert(keys@.take(i + 1).drop_last() =~= keys@.take(i as int));
        }
        if is_direction_press(keys[i]) {
            match Vector::try_from(keys[i]) {
                Ok(unit) => {
                    total = total + unit.scale(Scalar::from_bits(STEERING_BITS));
                },
                Err(_) => {},
            }
        }
        i = i + 1;
    }
    proof {
        assert(keys@.take(keys.len() as int) =~= keys@);
    }
    GenericForce { vec: total.min(Scalar::one()) }
}

impl Point {
    /// The square that marks the point.
    pub open spec fn spec_marker(self) -> Marker {
        Marker {
            x: (self.position.rounded_as_ints().0 + 3) as i32,
            y: (self.position.rounded_as_ints().1 + 3) as i32,
            width: MARKER_SIDE,
            height: MARKER_SIDE,
        }
    }

    /// The square that marks the point on screen: six wide and high, with
    /// its corner half a side beyond the rounded position.
    #[verifier::when_used_as_spec(spec_marker)]
    pub fn marker(self) -> (r: Marker)
        requires
            self.position.rounded_as_ints().0 + 3 <= i32::MAX,
            self.position.rounded_as_ints().1 + 3 <= i32::MAX,
        ensures
            r == self.spec_marker(),
            r.x == self.position.rounded_as_ints().0 + 3,
            r.y == self.position.rounded_as_ints().1 + 3,
    {
        let point_width: u32 = MARKER_SIDE;
        let midpt: i32 = (point_width / 2) as i32;
        let (x, y) = self.position.rounded_as_ints();
        Marker { x: x + midpt, y: y + midpt, width: point_width, height: point_width }
    }
}

} // verus!
