//! Binary64 numbers held as bit patterns.
use crate::rounding::{HIDDEN_BIT, INFINITY_BITS};
use vstd::prelude::*;

verus! {

/// The sign bit of a pattern.
pub const SIGN_BIT: u64 = 0x8000_0000_0000_0000;

/// The pattern of the NaN that arithmetic produces.
pub const NAN_BITS: u64 = 0x7ff8_0000_0000_0000;

/// The pattern of the number one.
pub const ONE_BITS: u64 = 0x3ff0_0000_0000_0000;

/// The pattern of the number two.
pub const TWO_BITS: u64 = 0x4000_0000_0000_0000;

/// An IEEE 754 binary64 number, held as its bit pattern: one sign bit,
/// eleven exponent bits, fifty-two fraction bits.
///
/// A finite number is `mantissa() * 2^exponent()`, negated where
/// `negative()` holds.
#[derive(Clone, Copy, Debug)]
pub struct Scalar {
    pub bits: u64,
}

impl Scalar {
    /// Whether the sign bit is set.
    pub open spec fn negative(self) -> bool {
        self.bits >= SIGN_BIT
    }

    /// The pattern without its sign bit.
    pub open spec fn magnitude(self) -> u64 {
        if self.bits >= SIGN_BIT {
            (self.bits - SIGN_BIT) as u64
        } else {
            self.bits
        }
    }

    pub open spec fn spec_is_nan(self) -> bool {
        self.magnitude() > INFINITY_BITS
    }

    pub open spec fn spec_is_infinite(self) -> bool {
        self.magnitude() == INFINITY_BITS
    }

    pub open spec fn spec_is_finite(self) -> bool {
        self.magnitude() < INFINITY_BITS
    }

    pub open spec fn spec_is_zero(self) -> bool {
        self.magnitude() == 0
    }

    /// The integer that a finite number is a multiple of `2^exponent()` by;
    /// subnormal numbers have no hidden bit.
    pub open spec fn mantissa(self) -> nat {
        if self.magnitude() < HIDDEN_BIT {
            self.magnitude() as nat
        } else {
            (HIDDEN_BIT + self.magnitude() % HIDDEN_BIT) as nat
        }
    }

    /// The exponent of the last digit of a finite number.
    pub open spec fn exponent(self) -> int {
        if self.magnitude() < HIDDEN_BIT {
            -1074
        } else {
            self.magnitude() / HIDDEN_BIT - 1075
        }
    }

    /// The mantissa with the number's sign.
    pub open spec fn signed_mantissa(self) -> int {
        if self.negative() {
            -(self.mantissa() as int)
        } else {
            self.mantissa() as int
        }
    }

    /// A number by which every number but NaN is ordered: the magnitude,
    /// negated for negative numbers. Both zeros have rank zero.
    pub open spec fn rank(self) -> int {
        if self.negative() {
            -(self.magnitude() as int)
        } else {
            self.magnitude() as int
        }
    }

    /// The number with the given sign and magnitude.
    pub open spec fn spec_from_parts(negative: bool, magnitude: u64) -> Scalar
        recommends
            magnitude < SIGN_BIT,
    {
        if negative {
            Scalar { bits: (magnitude + SIGN_BIT) as u64 }
        } else {
            Scalar { bits: magnitude }
        }
    }

    pub open spec fn spec_zero() -> Scalar {
        Scalar { bits: 0 }
    }

    pub open spec fn spec_one() -> Scalar {
        Scalar { bits: ONE_BITS }
    }

    pub open spec fn spec_two() -> Scalar {
        Scalar { bits: TWO_BITS }
    }

    pub open spec fn spec_nan() -> Scalar {
        Scalar { bits: NAN_BITS }
    }

    pub open spec fn spec_neg(self) -> Scalar {
        Scalar::spec_from_parts(!self.negative(), self.magnitude())
    }

    /// Positive zero.
    #[verifier::when_used_as_spec(spec_zero)]
    pub fn zero() -> (r: Scalar)
        ensures
            r == Scalar::spec_zero(),
    {
        Scalar { bits: 0 }
    }

    /// The number one.
    #[verifier::when_used_as_spec(spec_one)]
    pub fn one() -> (r: Scalar)
        ensures
            r == Scalar::spec_one(),
    {
        Scalar { bits: ONE_BITS }
    }

    /// The number two.
    #[verifier::when_used_as_spec(spec_two)]
    pub fn two() -> (r: Scalar)
        ensures
            r == Scalar::spec_two(),
    {
        Scalar { bits: TWO_BITS }
    }

    /// The NaN that arithmetic produces.
    #[verifier::when_used_as_spec(spec_nan)]
    pub fn nan() -> (r: Scalar)
        ensures
            r == Scalar::spec_nan(),
    {
        Scalar { bits: NAN_BITS }
    }

    /// The number with the given bit pattern.
    pub fn from_bits(bits: u64) -> (r: Scalar)
        ensures
            r.bits == bits,
    {
        Scalar { bits }
    }

    /// The bit pattern of the number.
    pub fn to_bits(self) -> (r: u64)
        ensures
            r == self.bits,
    {
        self.bits
    }

    /// The number with the given sign and magnitude.
    #[verifier::when_used_as_spec(spec_from_parts)]
    pub fn from_parts(negative: bool, magnitude: u64) -> (r: Scalar)
        requires
            magnitude < SIGN_BIT,
        ensures
            r == Scalar::spec_from_parts(negative, magnitude),
            r.negative() == negative,
            r.magnitude() == magnitude,
    {
        if negative {
            Scalar { bits: magnitude + SIGN_BIT }
        } else {
            Scalar { bits: magnitude }
        }
    }

    /// Whether the sign bit is set; true of negative zero too.
    pub fn is_sign_negative(self) -> (r: bool)
        ensures
            r == self.negative(),
    {
        self.bits >= SIGN_BIT
    }

    /// The pattern without its sign bit.
    pub fn abs_bits(self) -> (r: u64)
        ensures
            r == self.magnitude(),
            r < SIGN_BIT,
    {
        if self.bits >= SIGN_BIT {
            self.bits - SIGN_BIT
        } else {
            self.bits
        }
    }

    #[verifier::when_used_as_spec(spec_is_nan)]
    pub fn is_nan(self) -> (r: bool)
        ensures
            r == self.spec_is_nan(),
    {
        self.abs_bits() > INFINITY_BITS
    }

    #[verifier::when_used_as_spec(spec_is_infinite)]
    pub fn is_infinite(self) -> (r: bool)
        ensures
            r == self.spec_is_infinite(),
    {
        self.abs_bits() == INFINITY_BITS
    }

    #[verifier::when_used_as_spec(spec_is_finite)]
    pub fn is_finite(self) -> (r: bool)
        ensures
            r == self.spec_is_finite(),
    {
        self.abs_bits() < INFINITY_BITS
    }

    #[verifier::when_used_as_spec(spec_is_zero)]
    pub fn is_zero(self) -> (r: bool)
        ensures
            r == self.spec_is_zero(),
    {
        self.abs_bits() == 0
    }

    /// Whether both are numbers and the first is the lesser one.
    pub open spec fn less_than(self, other: Scalar) -> bool {
        !self.is_nan() && !other.is_nan() && self.rank() < other.rank()
    }

    /// Whether both are numbers and the first is not the greater one.
    pub open spec fn at_most(self, other: Scalar) -> bool {
        !self.is_nan() && !other.is_nan() && self.rank() <= other.rank()
    }

    /// Whether both are numbers and of equal value; the two zeros are.
    pub open spec fn same_value(self, other: Scalar) -> bool {
        !self.is_nan() && !other.is_nan() && self.rank() == other.rank()
    }

    /// The rank of the number.
    pub fn order_key(self) -> (k: i128)
        ensures
            k == self.rank(),
    {
        if self.bits >= SIGN_BIT {
            -((self.bits - SIGN_BIT) as i128)
        } else {
            self.bits as i128
        }
    }

    /// Mantissa and exponent of a finite number.
    pub fn decompose(self) -> (r: (u64, i32))
        requires
            self.is_finite(),
        ensures
            r.0 == self.mantissa(),
            r.1 == self.exponent(),
            r.0 < 0x20_0000_0000_0000,
            -1074 <= r.1 <= 971,
            r.1 > -1074 ==> r.0 >= HIDDEN_BIT,
    {
        let magnitude: u64 = self.abs_bits();
        if magnitude < HIDDEN_BIT {
            (magnitude, -1074)
        } else {
            (HIDDEN_BIT + magnitude % HIDDEN_BIT, (magnitude / HIDDEN_BIT) as i32 - 1075)
        }
    }
}

impl Default for Scalar {
    fn default() -> (r: Scalar)
        ensures
            r == Scalar::zero(),
    {
        Scalar::zero()
    }
}

impl core::ops::Neg for Scalar {
    type Output = Scalar;

    /// The number with its sign bit flipped; a NaN stays a NaN.
    fn neg(self) -> (r: Scalar) {
        let magnitude: u64 = self.abs_bits();
        Scalar::from_parts(!self.is_sign_negative(), magnitude)
    }
}

impl vstd::std_specs::ops::NegSpecImpl for Scalar {
    open spec fn obeys_neg_spec() -> bool {
        true
    }

    open spec fn neg_req(self) -> bool {
        true
    }

    open spec fn neg_spec(self) -> Scalar {
        self.spec_neg()
    }
}

} // verus!
