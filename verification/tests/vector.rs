use fixed_point_physics::coordinate::Coordinate;
use fixed_point_physics::keyboard::{
    Scancode, KEY_A, KEY_D, KEY_DOWN, KEY_LEFT, KEY_RIGHT, KEY_S, KEY_UP, KEY_W,
};
use fixed_point_physics::point::Point;
use fixed_point_physics::scalar::Scalar;
use fixed_point_physics::vector::{Error, Vector};

fn s(x: f64) -> Scalar {
    Scalar::from_bits(x.to_bits())
}

fn by(x: f64, y: f64) -> Vector {
    Vector { x: s(x), y: s(y) }
}

fn bits(v: Vector) -> (u64, u64) {
    (v.x.to_bits(), v.y.to_bits())
}

#[test]
fn zero_and_zero_out() {
    assert_eq!(bits(Vector::zero()), (0, 0));
    assert_eq!(bits(Vector::default()), (0, 0));
    let mut v = by(3.0, -4.0);
    v.zero_out();
    assert_eq!(bits(v), (0, 0));
}

#[test]
fn at_gives_the_two_components() {
    let v = by(1.5, -2.5);
    assert_eq!(v.at(0).unwrap(), s(1.5));
    assert_eq!(v.at(1).unwrap(), s(-2.5));
}

#[test]
fn at_fails_for_every_other_axis() {
    let v = by(1.5, -2.5);
    for i in [2usize, 3, 7, 1000, usize::MAX] {
        match v.at(i) {
            Err(Error::InvalidAxis(j)) => assert_eq!(j, i),
            other => panic!("axis {i}: {other:?}"),
        }
    }
}

#[test]
fn arithmetic_is_component_wise() {
    let (a, b) = (by(1.5, -2.0), by(0.25, 8.0));
    assert_eq!(bits(a + b), bits(by(1.75, 6.0)));
    assert_eq!(bits(a - b), bits(by(1.25, -10.0)));
    assert_eq!(bits(a * b), bits(by(0.375, -16.0)));
    assert_eq!(bits(a * s(2.0)), bits(by(3.0, -4.0)));
    assert_eq!(bits(a.scale(s(0.5))), bits(by(0.75, -1.0)));
    assert_eq!(bits(-a), bits(by(-1.5, 2.0)));
    assert_eq!(bits(-Vector::zero()), bits(by(-0.0, -0.0)));
    assert_eq!(bits(by(0.1, 0.2) + by(0.2, 0.1)), bits(by(0.1 + 0.2, 0.2 + 0.1)));
    assert_eq!(bits(by(0.1, 0.7).scale(s(0.98))), bits(by(0.1 * 0.98, 0.7 * 0.98)));
}

#[test]
fn max_and_min_limit_each_component() {
    let v = by(0.5, 2.0);
    assert_eq!(bits(v.max(s(1.0))), bits(by(1.0, 2.0)));
    assert_eq!(bits(v.min(s(1.0))), bits(by(0.5, 1.0)));
    let n = by(f64::NAN, -3.0);
    assert_eq!(bits(n.max(s(1.0))), bits(by(1.0, 1.0)));
    assert_eq!(bits(n.min(s(1.0))), bits(by(1.0, -3.0)));
}

#[test]
fn map_applies_the_function_axis_by_axis() {
    let v1 = by(1.0, 1.0);
    let v2 = v1.map(&v1, |l, r| *l + *r);
    assert_eq!(v2, v1 + v1);
    let v3 = by(3.0, 5.0).map(&by(2.0, 7.0), |l, r| l.max(*r));
    assert_eq!(bits(v3), bits(by(3.0, 7.0)));
}

#[test]
fn steering_keys_give_unit_vectors() {
    for (code, x, y) in [
        (KEY_A, -1.0, 0.0),
        (KEY_LEFT, -1.0, 0.0),
        (KEY_D, 1.0, 0.0),
        (KEY_RIGHT, 1.0, 0.0),
        (KEY_S, 0.0, 1.0),
        (KEY_DOWN, 0.0, 1.0),
        (KEY_W, 0.0, -1.0),
        (KEY_UP, 0.0, -1.0),
    ] {
        let v = Vector::try_from(Scancode { code }).unwrap();
        assert_eq!(bits(v), bits(by(x, y)), "key {code}");
    }
}

#[test]
fn other_keys_give_no_vector() {
    for code in [0, 5, 6, 41, 44, 78, 83, -1, i32::MAX] {
        match Vector::try_from(Scancode { code }) {
            Err(Error::InvalidScancode(k)) => assert_eq!(k.code, code),
            other => panic!("key {code}: {other:?}"),
        }
    }
}

#[test]
fn equality_is_that_of_the_values() {
    assert_eq!(by(0.0, 1.0), by(-0.0, 1.0));
    assert_ne!(by(f64::NAN, 1.0), by(f64::NAN, 1.0));
    assert_ne!(by(1.0, 2.0), by(2.0, 1.0));
}

#[test]
fn coordinate_moves_by_a_vector() {
    let c = Coordinate { x: s(1.5), y: s(-2.0) };
    let moved = c.add(by(0.25, 0.5));
    assert_eq!((moved.x.to_bits(), moved.y.to_bits()), (1.75f64.to_bits(), (-1.5f64).to_bits()));
    let moved = Coordinate { x: s(0.1), y: s(0.3) }.add(by(0.2, 0.6));
    assert_eq!((moved.x.to_bits(), moved.y.to_bits()), ((0.1f64 + 0.2).to_bits(), (0.3f64 + 0.6).to_bits()));
}

#[test]
fn coordinate_rounds_halves_away_from_zero() {
    for (x, y, want) in [
        (0.5, -0.5, (1, -1)),
        (1.5, 2.5, (2, 3)),
        (-1.5, -2.5, (-2, -3)),
        (0.49999999999999994, -0.49999999999999994, (0, 0)),
        (399.4, 300.6, (399, 301)),
        (1e10, -1e10, (i32::MAX, i32::MIN)),
        (f64::NAN, f64::INFINITY, (0, i32::MAX)),
        (2147483647.0, -2147483648.0, (i32::MAX, i32::MIN)),
        (2147483646.5, -2147483647.5, (2147483647, -2147483648)),
    ] {
        assert_eq!(Coordinate { x: s(x), y: s(y) }.rounded_as_ints(), want, "({x}, {y})");
    }
}

#[test]
fn components_mut_reaches_every_component() {
    let mut p = Point {
        position: Coordinate { x: s(1.0), y: s(2.0) },
        velocity: by(3.0, 4.0),
    };
    {
        let ((px, vx), (py, vy)) = p.components_mut();
        assert_eq!((px.to_bits(), vx.to_bits()), (1.0f64.to_bits(), 3.0f64.to_bits()));
        assert_eq!((py.to_bits(), vy.to_bits()), (2.0f64.to_bits(), 4.0f64.to_bits()));
        *px = s(10.0);
        *vx = s(30.0);
        *py = s(20.0);
        *vy = s(40.0);
    }
    assert_eq!(
        p,
        Point { position: Coordinate { x: s(10.0), y: s(20.0) }, velocity: by(30.0, 40.0) }
    );
}
