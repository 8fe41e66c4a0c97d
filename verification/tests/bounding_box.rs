use fixed_point_physics::bounding_box::{BoundingBox, BoundingBoxError};
use fixed_point_physics::coordinate::Coordinate;
use fixed_point_physics::point::Point;
use fixed_point_physics::scalar::Scalar;
use fixed_point_physics::vector::Vector;

fn s(x: f64) -> Scalar {
    Scalar::from_bits(x.to_bits())
}

fn f(x: Scalar) -> f64 {
    f64::from_bits(x.to_bits())
}

fn at(x: f64, y: f64) -> Coordinate {
    Coordinate { x: s(x), y: s(y) }
}

fn by(x: f64, y: f64) -> Vector {
    Vector { x: s(x), y: s(y) }
}

fn point(px: f64, py: f64, vx: f64, vy: f64) -> Point {
    Point { position: at(px, py), velocity: by(vx, vy) }
}

#[test]
pub fn test_bounce() {
    let bb = BoundingBox::new(s(10.0), s(10.0)).unwrap();

    // Do not bounce
    let point = Point {
        position: Coordinate { x: s(5.0), y: s(5.0) },
        velocity: Vector::zero(),
    };
    assert_eq!(bb.bounce(point).unwrap(), point);

    // Bounce off of x
    let point = Point {
        position: Coordinate { x: s(9.0), y: s(9.0) },
        velocity: Vector { x: s(3.0), y: s(0.0) },
    };
    assert_eq!(
        bb.bounce(point).unwrap(),
        Point {
            position: Coordinate { x: s(8.0), y: s(9.0) },
            velocity: Vector { x: s(-3.0), y: s(0.0) }
        }
    );

    // Bounce off of y
    let point = Point {
        position: Coordinate { x: s(9.0), y: s(9.0) },
        velocity: Vector { x: s(0.0), y: s(3.0) },
    };
    assert_eq!(
        bb.bounce(point).unwrap(),
        Point {
            position: Coordinate { x: s(9.0), y: s(8.0) },
            velocity: Vector { x: s(0.0), y: s(-3.0) }
        }
    );

    // Bounce off of a corner
    let point = Point {
        position: Coordinate { x: s(9.0), y: s(9.0) },
        velocity: Vector { x: s(2.5), y: s(3.0) },
    };
    assert_eq!(
        bb.bounce(point).unwrap(),
        Point {
            position: Coordinate { x: s(8.5), y: s(8.0) },
            velocity: -point.velocity
        }
    );

    // Heading x and y negative, bounce off of y
    let point = Point {
        position: Coordinate { x: s(5.0), y: s(1.0) },
        velocity: Vector { x: s(-2.0), y: s(-3.0) },
    };
    assert_eq!(
        bb.bounce(point).unwrap(),
        Point {
            position: Coordinate { x: s(3.0), y: s(2.0) },
            velocity: Vector { x: s(-2.0), y: s(3.0) },
        }
    );
}

#[test]
fn new_takes_positive_dimensions_only() {
    assert!(BoundingBox::new(s(10.0), s(10.0)).is_ok());
    assert!(BoundingBox::new(s(5e-324), s(f64::MAX)).is_ok());
    assert!(BoundingBox::new(s(f64::INFINITY), s(1.0)).is_ok());
    for (w, h) in [
        (0.0, 10.0),
        (10.0, 0.0),
        (-0.0, 10.0),
        (-1.0, 10.0),
        (10.0, -1.0),
        (-1.0, -1.0),
        (0.0, 0.0),
        (f64::NAN, 1.0),
        (1.0, f64::NAN),
        (f64::NEG_INFINITY, 1.0),
    ] {
        assert!(
            matches!(BoundingBox::new(s(w), s(h)), Err(BoundingBoxError::DimensionError)),
            "{w} x {h}"
        );
    }
}

#[test]
fn box_keeps_its_dimensions() {
    let bb = BoundingBox::new(s(800.0), s(600.0)).unwrap();
    assert_eq!(f(bb.width()), 800.0);
    assert_eq!(f(bb.height()), 600.0);
}

#[test]
fn contains_includes_the_edges() {
    let bb = BoundingBox::new(s(10.0), s(4.0)).unwrap();
    for c in [
        at(0.0, 0.0),
        at(10.0, 0.0),
        at(0.0, 4.0),
        at(10.0, 4.0),
        at(0.0, 2.0),
        at(10.0, 2.0),
        at(5.0, 0.0),
        at(5.0, 4.0),
        at(-0.0, -0.0),
        at(5.0, 2.0),
    ] {
        assert!(bb.contains(c), "{c:?}");
    }
}

#[test]
fn contains_excludes_what_is_next_to_an_edge() {
    let bb = BoundingBox::new(s(10.0), s(4.0)).unwrap();
    let above_width = f64::from_bits(10.0f64.to_bits() + 1);
    let above_height = f64::from_bits(4.0f64.to_bits() + 1);
    for c in [
        at(-5e-324, 2.0),
        at(above_width, 2.0),
        at(5.0, -5e-324),
        at(5.0, above_height),
        at(f64::NAN, 2.0),
        at(5.0, f64::NAN),
        at(f64::INFINITY, 2.0),
        at(11.0, 5.0),
    ] {
        assert!(!bb.contains(c), "{c:?}");
    }
}

#[test]
fn bounce_moves_without_reflection_inside() {
    let bb = BoundingBox::new(s(10.0), s(10.0)).unwrap();
    let got = bb.bounce(point(1.0, 2.0, 0.5, -0.25)).unwrap();
    assert_eq!(got, point(1.5, 1.75, 0.5, -0.25));
    // Landing exactly on an edge is no overshoot.
    let got = bb.bounce(point(9.0, 1.0, 1.0, -1.0)).unwrap();
    assert_eq!(got, point(10.0, 0.0, 1.0, -1.0));
}

#[test]
fn bounce_at_rest_is_idempotent() {
    let bb = BoundingBox::new(s(10.0), s(10.0)).unwrap();
    for (x, y) in [(0.0, 0.0), (10.0, 10.0), (3.25, 7.5), (-0.0, 1e-300), (0.1, 9.9)] {
        let p = Point { position: at(x, y), velocity: Vector::zero() };
        let once = bb.bounce(p).unwrap();
        assert_eq!(once, p);
        assert_eq!(bb.bounce(once).unwrap(), p);
    }
}

#[test]
fn bounce_single_axis_overshoot() {
    let bb = BoundingBox::new(s(10.0), s(10.0)).unwrap();
    let got = bb.bounce(point(9.0, 9.0, 3.0, 0.0)).unwrap();
    assert_eq!(got.position.x.to_bits(), 8.0f64.to_bits());
    assert_eq!(got.position.y.to_bits(), 9.0f64.to_bits());
    assert_eq!(got.velocity.x.to_bits(), (-3.0f64).to_bits());
    assert_eq!(got.velocity.y.to_bits(), 0.0f64.to_bits());
}

#[test]
fn bounce_corner_overshoot() {
    let bb = BoundingBox::new(s(10.0), s(10.0)).unwrap();
    let got = bb.bounce(point(9.0, 9.0, 2.5, 3.0)).unwrap();
    assert_eq!(got, point(8.5, 8.0, -2.5, -3.0));
}

#[test]
fn bounce_negative_direction_overshoot() {
    let bb = BoundingBox::new(s(10.0), s(10.0)).unwrap();
    let got = bb.bounce(point(5.0, 1.0, -2.0, -3.0)).unwrap();
    assert_eq!(got, point(3.0, 2.0, -2.0, 3.0));
}

#[test]
fn bounce_fails_where_one_reflection_is_not_enough() {
    let bb = BoundingBox::new(s(10.0), s(10.0)).unwrap();
    match bb.bounce(point(5.0, 5.0, 30.0, 0.0)) {
        Err(BoundingBoxError::BounceError(q)) => {
            // 35 lies 25 beyond the edge; mirrored it is at -15.
            assert_eq!(q, point(-15.0, 5.0, -30.0, 0.0));
            assert!(!bb.contains(q.position));
        }
        other => panic!("expected a failed bounce, got {other:?}"),
    }
    match bb.bounce(point(5.0, 5.0, 0.0, -40.0)) {
        Err(BoundingBoxError::BounceError(q)) => {
            assert_eq!(q, point(5.0, 35.0, 0.0, 40.0));
        }
        other => panic!("expected a failed bounce, got {other:?}"),
    }
    assert!(matches!(
        bb.bounce(point(f64::NAN, 5.0, 0.0, 0.0)),
        Err(BoundingBoxError::BounceError(_))
    ));
}

#[test]
fn bounce_matches_the_formula_in_hardware_arithmetic() {
    let bb = BoundingBox::new(s(800.0), s(600.0)).unwrap();
    let mut state: u64 = 0x2545_f491_4f6c_dd1d;
    let mut next = move || {
        state ^= state << 13;
        state ^= state >> 7;
        state ^= state << 17;
        (state >> 11) as f64 / (1u64 << 53) as f64
    };
    for _ in 0..2000 {
        let (px, py) = (next() * 800.0, next() * 600.0);
        let (vx, vy) = ((next() - 0.5) * 900.0, (next() - 0.5) * 700.0);
        let axis = |p: f64, v: f64, limit: f64| {
            let t = p + v;
            if t < 0.0 {
                (t - 2.0 * t, -v)
            } else if t > limit {
                (t - 2.0 * (t - limit), -v)
            } else {
                (t, v)
            }
        };
        let (x, wx) = axis(px, vx, 800.0);
        let (y, wy) = axis(py, vy, 600.0);
        let want = point(x, y, wx, wy);
        let inside = (0.0..=800.0).contains(&x) && (0.0..=600.0).contains(&y);
        match bb.bounce(point(px, py, vx, vy)) {
            Ok(q) => {
                assert!(inside);
                assert_eq!(q, want);
                assert!(bb.contains(q.position));
            }
            Err(BoundingBoxError::BounceError(q)) => {
                assert!(!inside);
                assert_eq!(q, want);
            }
            Err(other) => panic!("{other:?}"),
        }
    }
}

#[test]
fn distances_to_and_beyond_the_edges() {
    let bb = BoundingBox::new(s(10.0), s(4.0)).unwrap();
    assert_eq!(bb.distance_beyond_edge(at(12.5, -1.5)), by(2.5, -1.5));
    assert_eq!(bb.distance_beyond_edge(at(3.0, 1.0)), by(-7.0, -3.0));
    assert_eq!(bb.distance_to_edge(at(3.0, 1.0), by(1.0, -1.0)), by(7.0, -1.0));
    assert_eq!(bb.distance_to_edge(at(3.0, 1.0), by(-1.0, 1.0)), by(-3.0, 3.0));
    assert_eq!(bb.distance_to_edge(at(3.0, 1.0), by(0.0, 0.0)), by(-3.0, -1.0));
}
