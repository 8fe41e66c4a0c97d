//! The integer nearest to a binary64 number.
use crate::powers::{lemma_pow2_monotonic, lemma_pow2_values, lemma_scaled_below, pow2_u128};
use crate::scalar::Scalar;
use vstd::arithmetic::div_mod::*;
use vstd::arithmetic::mul::*;
use vstd::arithmetic::power2::*;
use vstd::prelude::*;

verus! {

impl Scalar {
    /// The integer nearest to the magnitude of a finite number, halves
    /// rounded up.
    pub open spec fn nearest_magnitude(self) -> nat {
        if self.exponent() >= 0 {
            self.mantissa() * pow2(self.exponent() as nat)
        } else {
            (self.mantissa() + pow2((-self.exponent() - 1) as nat)) / pow2(
                (-self.exponent()) as nat,
            )
        }
    }

    /// The integer nearest to a finite number, halves rounded away from
    /// zero.
    pub open spec fn nearest_integer(self) -> int {
        if self.negative() {
            -(self.nearest_magnitude() as int)
        } else {
            self.nearest_magnitude() as int
        }
    }

    /// The nearest integer as far as an `i32` holds it: the nearest bound
    /// beyond, and zero for a NaN.
    pub open spec fn spec_round_to_i32(self) -> i32 {
        if self.is_nan() {
            0i32
        } else if self.is_infinite() {
            if self.negative() {
                i32::MIN
            } else {
                i32::MAX
            }
        } else if self.nearest_integer() < i32::MIN {
            i32::MIN
        } else if self.nearest_integer() > i32::MAX {
            i32::MAX
        } else {
            self.nearest_integer() as i32
        }
    }

    /// Rounds to the nearest integer, halves away from zero, and keeps the
    /// result within the range of `i32`.
    #[verifier::when_used_as_spec(spec_round_to_i32)]
    pub fn round_to_i32(self) -> (r: i32)
        ensures
            r == self.spec_round_to_i32(),
    {
        if self.is_nan() {
            return 0;
        }
        let negative: bool = self.is_sign_negative();
        if self.is_infinite() {
            return if negative {
                i32::MIN
            } else {
                i32::MAX
            };
        }
        let (m, e) = self.decompose();
        proof {
            lemma_pow2_values();
        }
        let magnitude: u128;
        if e > 31 {
            proof {
                lemma_pow2_monotonic(32, e as nat);
                lemma_mul_inequality(1, m as int, pow2(e as nat) as int);
            }
            magnitude = 0x1_0000_0000;
        } else if e >= 0 {
            let p: u128 = pow2_u128(e as u32);
            proof {
                lemma_scaled_below(m as nat, 53, e as nat);
                lemma_pow2_monotonic((53 + e) as nat, 127);
            }
            magnitude = (m as u128) * p;
        } else if e < -54 {
            proof {
                let k: nat = (-e) as nat;
                lemma_pow2_monotonic(53, (k - 1) as nat);
                lemma_pow2_unfold(k);
                lemma_basic_div((m + pow2((k - 1) as nat)) as int, pow2(k) as int);
            }
            magnitude = 0;
        } else {
            let k: u32 = (-e) as u32;
            let p: u128 = pow2_u128(k);
            let half: u128 = pow2_u128(k - 1);
            proof {
                lemma_pow2_monotonic(k as nat, 54);
                lemma_pow2_monotonic((k - 1) as nat, 53);
                lemma_pow2_pos(k as nat);
            }
            magnitude = (m as u128 + half) / p;
        }
        assert(magnitude >= 0x1_0000_0000 || magnitude == self.nearest_magnitude());
        assert(magnitude >= 0x1_0000_0000 ==> self.nearest_magnitude() >= 0x1_0000_0000);
        if negative {
            if magnitude >= 0x8000_0000 {
                i32::MIN
            } else {
                -(magnitude as i32)
            }
        } else {
            if magnitude > 0x7fff_ffff {
                i32::MAX
            } else {
                magnitude as i32
            }
        }
    }
}

} // verus!
