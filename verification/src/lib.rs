//! A point mass moving inside an axis-aligned rectangle.
//!
//! Numbers are IEEE 754 binary64 values held as their bit patterns
//! ([`scalar::Scalar`]); their arithmetic is carried out on integers and
//! proved to round exact results to nearest, ties to even.
pub mod arithmetic;
pub mod bounding_box;
pub mod compare;
pub mod coordinate;
pub mod drag;
pub mod driver;
pub mod gravity;
pub mod integer;
pub mod keyboard;
pub mod point;
pub mod powers;
pub mod rounding;
pub mod scalar;
pub mod traits;
pub mod vector;
