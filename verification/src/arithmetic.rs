//! Sums, differences and products of binary64 numbers, correctly rounded.
use crate::powers::{
    lemma_bit_length_unique, lemma_pow2_monotonic, lemma_pow2_values, lemma_scaled_at_least,
    lemma_scaled_below, pow2_u128,
};
use crate::rounding::{
    lemma_round_exact, lemma_round_exact_short, round_magnitude, round_mantissa, round_to_magnitude, ulp_exponent,
    INFINITY_BITS,
};
use crate::scalar::Scalar;
use vstd::arithmetic::div_mod::*;
use vstd::arithmetic::mul::*;
use vstd::arithmetic::power2::*;
use core::ops::Neg;
use vstd::prelude::*;

verus! {

/// The lesser of the exponents of two finite numbers.
pub open spec fn common_exponent(a: Scalar, b: Scalar) -> int {
    if a.exponent() <= b.exponent() {
        a.exponent()
    } else {
        b.exponent()
    }
}

/// A finite number counted in units of `2^e`, for an `e` that is at most
/// its exponent.
pub open spec fn scaled(a: Scalar, e: int) -> int {
    a.signed_mantissa() * pow2((a.exponent() - e) as nat)
}

/// The exact sum of two finite numbers, counted in units of
/// `2^common_exponent(a, b)`.
pub open spec fn exact_sum(a: Scalar, b: Scalar) -> int {
    scaled(a, common_exponent(a, b)) + scaled(b, common_exponent(a, b))
}

/// The sum of two numbers: the exact sum rounded to nearest, ties to even.
///
/// A NaN operand, or infinities of opposite signs, give NaN. An exact sum of
/// zero is positive zero, unless both operands are negative.
#[verifier::opaque]
pub open spec fn sum(a: Scalar, b: Scalar) -> Scalar {
    if a.is_nan() || b.is_nan() {
        Scalar::nan()
    } else if a.is_infinite() {
        if b.is_infinite() && a.negative() != b.negative() {
            Scalar::nan()
        } else {
            a
        }
    } else if b.is_infinite() {
        b
    } else {
        let x: int = exact_sum(a, b);
        if x == 0 {
            Scalar::from_parts(a.negative() && b.negative(), 0)
        } else if x < 0 {
            Scalar::from_parts(true, round_magnitude((-x) as nat, common_exponent(a, b)))
        } else {
            Scalar::from_parts(false, round_magnitude(x as nat, common_exponent(a, b)))
        }
    }
}

/// The difference of two numbers: the sum with the second negated.
pub open spec fn difference(a: Scalar, b: Scalar) -> Scalar {
    sum(a, b.spec_neg())
}

/// The product of two numbers: the exact product rounded to nearest, ties
/// to even, with the sign that the signs of the operands give.
///
/// A NaN operand, or zero times infinity, gives NaN.
#[verifier::opaque]
pub open spec fn product(a: Scalar, b: Scalar) -> Scalar {
    if a.is_nan() || b.is_nan() {
        Scalar::nan()
    } else if a.is_infinite() || b.is_infinite() {
        if a.is_zero() || b.is_zero() {
            Scalar::nan()
        } else {
            Scalar::from_parts(a.negative() != b.negative(), INFINITY_BITS)
        }
    } else if a.mantissa() == 0 || b.mantissa() == 0 {
        Scalar::from_parts(a.negative() != b.negative(), 0)
    } else {
        Scalar::from_parts(
            a.negative() != b.negative(),
            round_magnitude(a.mantissa() * b.mantissa(), a.exponent() + b.exponent()),
        )
    }
}

/// The order of finite numbers is that of their values: numbers compare as
/// their counts of a common unit do.
pub proof fn lemma_order_is_that_of_values(a: Scalar, b: Scalar)
    requires
        a.is_finite(),
        b.is_finite(),
    ensures
        a.less_than(b) <==> scaled(a, common_exponent(a, b)) < scaled(b, common_exponent(a, b)),
        a.same_value(b) <==> scaled(a, common_exponent(a, b)) == scaled(
            b,
            common_exponent(a, b),
        ),
{
    lemma_pow2_values();
    let e: int = common_exponent(a, b);
    let (ma, mb) = (a.mantissa() as int, b.mantissa() as int);
    let pa: int = pow2((a.exponent() - e) as nat) as int;
    let pb: int = pow2((b.exponent() - e) as nat) as int;
    assert(a.magnitude() == (a.exponent() + 1074) * 0x10_0000_0000_0000 + ma);
    assert(b.magnitude() == (b.exponent() + 1074) * 0x10_0000_0000_0000 + mb);
    if a.exponent() < b.exponent() {
        lemma_pow2_monotonic(1, (b.exponent() - e) as nat);
        assert(mb * pb >= mb * 2) by (nonlinear_arith)
            requires
                pb >= 2,
                mb >= 0,
        ;
        assert(ma * pa == ma) by (nonlinear_arith)
            requires
                pa == 1,
        ;
        assert(a.magnitude() < b.magnitude());
        assert(ma < mb * pb);
    } else if b.exponent() < a.exponent() {
        lemma_pow2_monotonic(1, (a.exponent() - e) as nat);
        assert(ma * pa >= ma * 2) by (nonlinear_arith)
            requires
                pa >= 2,
                ma >= 0,
        ;
        assert(mb * pb == mb) by (nonlinear_arith)
            requires
                pb == 1,
        ;
        assert(b.magnitude() < a.magnitude());
        assert(mb < ma * pa);
    } else {
        assert(ma * pa == ma && mb * pb == mb) by (nonlinear_arith)
            requires
                pa == 1,
                pb == 1,
        ;
    }
    assert((-ma) * pa == -(ma * pa)) by (nonlinear_arith);
    assert((-mb) * pb == -(mb * pb)) by (nonlinear_arith);
    assert(ma * pa >= 0 && mb * pb >= 0) by (nonlinear_arith)
        requires
            ma >= 0,
            mb >= 0,
            pa >= 0,
            pb >= 0,
    ;
    assert(ma * pa == 0 <==> ma == 0) by (nonlinear_arith)
        requires
            pa >= 1,
            ma >= 0,
    ;
    assert(mb * pb == 0 <==> mb == 0) by (nonlinear_arith)
        requires
            pb >= 1,
            mb >= 0,
    ;
}

/// The sum does not depend on the order of its operands.
pub proof fn lemma_sum_commutative(a: Scalar, b: Scalar)
    ensures
        sum(a, b) == sum(b, a),
{
    reveal(sum);
}

/// The product does not depend on the order of its operands.
pub proof fn lemma_product_commutative(a: Scalar, b: Scalar)
    ensures
        product(a, b) == product(b, a),
{
    reveal(product);
    lemma_mul_is_commutative(a.mantissa() as int, b.mantissa() as int);
}

/// Where two addends lie far apart, the lesser one is rounded away:
/// `mh * 2^d + ml` and `mh * 2^d - ml` both round to `mh` at the exponent
/// `el + d`.
pub proof fn lemma_round_far(mh: nat, ml: nat, d: nat, el: int, plus: bool)
    requires
        pow2(52) <= mh < pow2(53),
        ml < pow2(53),
        d >= 55,
        el >= -1074,
        (el + d + 1074) * 0x10_0000_0000_0000 + mh < 0x7ff0_0000_0000_0000,
    ensures
        mh * pow2(d) > ml,
        round_magnitude(
            if plus {
                mh * pow2(d) + ml
            } else {
                (mh * pow2(d) - ml) as nat
            },
            el,
        ) == (el + d + 1074) * 0x10_0000_0000_0000 + mh,
{
    lemma_pow2_values();
    let p: nat = pow2(d);
    let half: nat = pow2((d - 1) as nat);
    let quarter: nat = pow2((d - 2) as nat);
    lemma_pow2_unfold(d);
    lemma_pow2_unfold((d - 1) as nat);
    lemma_pow2_pos((d - 2) as nat);
    lemma_pow2_monotonic(53, (d - 2) as nat);
    assert(ml < quarter);
    assert(p == 2 * half && half == 2 * quarter);
    lemma_scaled_at_least(mh, 52, d);
    lemma_scaled_below(mh, 53, d);
    assert(pow2(52 + d) <= mh * p < pow2(53 + d));
    assert(mh * p >= p) by (nonlinear_arith)
        requires
            mh >= 1,
            p >= 0,
    ;
    if plus || ml == 0 {
        let x: nat = mh * p + ml;
        assert(x < pow2(53 + d)) by {
            assert((mh + 1) * p == mh * p + p) by (nonlinear_arith);
            assert((mh + 1) * p <= pow2(53) * p) by (nonlinear_arith)
                requires
                    mh + 1 <= pow2(53),
                    p >= 0,
            ;
            lemma_pow2_adds(53, d);
        }
        lemma_bit_length_unique(x, 53 + d);
        assert(ulp_exponent(x, el) == el + d);
        lemma_fundamental_div_mod_converse(x as int, p as int, mh as int, ml as int);
        assert(round_mantissa(x, d as int) == mh);
    } else if mh > pow2(52) {
        let x: nat = (mh * p - ml) as nat;
        let rest: nat = (p - ml) as nat;
        assert((mh - 1) * p == mh * p - p) by (nonlinear_arith);
        assert(x == (mh - 1) * p + rest);
        lemma_scaled_at_least((mh - 1) as nat, 52, d);
        lemma_bit_length_unique(x, 53 + d);
        assert(ulp_exponent(x, el) == el + d);
        lemma_fundamental_div_mod_converse(x as int, p as int, mh - 1, rest as int);
        assert(rest > half);
        assert(round_mantissa(x, d as int) == mh);
    } else {
        let x: nat = (mh * p - ml) as nat;
        let rest: nat = (half - ml) as nat;
        let top: nat = (pow2(53) - 1) as nat;
        assert(mh * p == pow2(53) * half) by (nonlinear_arith)
            requires
                mh == 0x10_0000_0000_0000,
                pow2(53) == 0x20_0000_0000_0000,
                p == 2 * half,
        ;
        assert(top * half == pow2(53) * half - half) by (nonlinear_arith)
            requires
                top == pow2(53) - 1,
        ;
        assert(x == top * half + rest);
        lemma_scaled_at_least(top, 52, (d - 1) as nat);
        assert(pow2(52 + d) == pow2(53) * half) by {
            lemma_pow2_adds(53, (d - 1) as nat);
        }
        lemma_pow2_pos(d);
        lemma_bit_length_unique(x, 52 + d);
        assert(ulp_exponent(x, el) == el + d - 1);
        lemma_fundamental_div_mod_converse(x as int, half as int, top as int, rest as int);
        assert(rest > quarter);
        assert(round_mantissa(x, d - 1) == pow2(53));
    }
}

/// A finite number far above another swallows it in a sum.
pub proof fn lemma_sum_far(hi: Scalar, lo: Scalar)
    requires
        hi.is_finite(),
        lo.is_finite(),
        hi.exponent() - lo.exponent() >= 55,
    ensures
        sum(hi, lo) == hi,
{
    reveal(sum);
    lemma_pow2_values();
    let mh: nat = hi.mantissa();
    let ml: nat = lo.mantissa();
    let d: nat = (hi.exponent() - lo.exponent()) as nat;
    let el: int = lo.exponent();
    assert(hi.magnitude() == (hi.exponent() + 1074) * 0x10_0000_0000_0000 + mh);
    lemma_round_far(mh, ml, d, el, hi.negative() == lo.negative());
    assert(pow2(0) == 1);
    let p: nat = pow2(d);
    assert(common_exponent(hi, lo) == el);
    assert(lo.signed_mantissa() * 1 == lo.signed_mantissa());
    if hi.negative() {
        assert(hi.signed_mantissa() * p == -(mh * p)) by (nonlinear_arith)
            requires
                hi.signed_mantissa() == -(mh as int),
        ;
    }
}

/// Adding a zero changes no number: the sum is the other operand, but for
/// the sign of a zero.
pub proof fn lemma_sum_with_zero(a: Scalar, zero: Scalar)
    requires
        zero.is_zero(),
        !a.is_nan(),
    ensures
        sum(a, zero).same_value(a),
        !a.is_zero() ==> sum(a, zero) == a,
{
    reveal(sum);
    lemma_pow2_values();
    if a.is_finite() && !a.is_zero() {
        let m: nat = a.mantissa();
        let e: int = a.exponent();
        let j: nat = (e + 1074) as nat;
        assert(common_exponent(a, zero) == -1074);
        assert(a.magnitude() == (e + 1074) * 0x10_0000_0000_0000 + m);
        lemma_round_exact(m, e, j);
        lemma_pow2_pos(j);
        assert(m * pow2(j) > 0) by (nonlinear_arith)
            requires
                m > 0,
                pow2(j) > 0,
        ;
        if a.negative() {
            assert(a.signed_mantissa() * pow2(j) == -(m * pow2(j))) by (nonlinear_arith)
                requires
                    a.signed_mantissa() == -(m as int),
            ;
        }
        assert(zero.signed_mantissa() * pow2(0) == 0);
    }
}

/// Whether `c` is the finite number `x * 2^e`.
pub open spec fn is_value(c: Scalar, x: int, e: int) -> bool {
    c.is_finite() && if c.exponent() >= e {
        c.signed_mantissa() * pow2((c.exponent() - e) as nat) == x
    } else {
        c.signed_mantissa() == x * pow2((e - c.exponent()) as nat)
    }
}

/// Rounding leaves alone what a binary64 number can hold: where `c` is
/// the number `x * 2^e` and not zero, `x * 2^e` rounds to the magnitude of
/// `c`, and `x` has the sign of `c`.
pub proof fn lemma_round_value(c: Scalar, x: int, e: int)
    requires
        is_value(c, x, e),
        !c.is_zero(),
    ensures
        x != 0,
        c.negative() == (x < 0),
        round_magnitude(
            (if x < 0 {
                -x
            } else {
                x
            }) as nat,
            e,
        ) == c.magnitude(),
{
    lemma_pow2_values();
    let m: nat = c.mantissa();
    let q: int = c.exponent();
    let size: nat = (if x < 0 {
        -x
    } else {
        x
    }) as nat;
    assert(c.magnitude() == (q + 1074) * 0x10_0000_0000_0000 + m);
    if q >= e {
        let j: nat = (q - e) as nat;
        lemma_pow2_pos(j);
        assert(m * pow2(j) > 0) by (nonlinear_arith)
            requires
                m > 0,
                pow2(j) > 0,
        ;
        assert((-(m as int)) * pow2(j) == -(m * pow2(j))) by (nonlinear_arith);
        assert(size == m * pow2(j));
        lemma_round_exact(m, q, j);
    } else {
        let j: nat = (e - q) as nat;
        lemma_pow2_pos(j);
        assert((-x) * pow2(j) == -(x * pow2(j))) by (nonlinear_arith);
        assert(size * pow2(j) == m);
        assert(x != 0) by (nonlinear_arith)
            requires
                size * pow2(j) == m,
                m > 0,
                size == x || size == -x,
        ;
        assert(c.negative() == (x < 0)) by (nonlinear_arith)
            requires
                c.signed_mantissa() == x * pow2(j),
                pow2(j) > 0,
                c.negative() == (c.signed_mantissa() < 0),
                c.signed_mantissa() != 0,
        ;
        lemma_round_exact_short(size, e, j);
    }
}

/// A sum that a binary64 number can hold is exact: where `c` is the exact
/// sum of `a` and `b` and not zero, it is their sum.
pub proof fn lemma_sum_exact(a: Scalar, b: Scalar, c: Scalar)
    requires
        a.is_finite(),
        b.is_finite(),
        is_value(c, exact_sum(a, b), common_exponent(a, b)),
        !c.is_zero(),
    ensures
        sum(a, b) == c,
{
    reveal(sum);
    lemma_round_value(c, exact_sum(a, b), common_exponent(a, b));
}

/// A product that a binary64 number can hold is exact: where `c` is the
/// exact product of `a` and `b` and not zero, it is their product.
pub proof fn lemma_product_exact(a: Scalar, b: Scalar, c: Scalar)
    requires
        a.is_finite(),
        b.is_finite(),
        is_value(c, a.signed_mantissa() * b.signed_mantissa(), a.exponent() + b.exponent()),
        !c.is_zero(),
    ensures
        product(a, b) == c,
{
    reveal(product);
    let (ma, mb) = (a.mantissa() as int, b.mantissa() as int);
    let x: int = a.signed_mantissa() * b.signed_mantissa();
    lemma_round_value(c, x, a.exponent() + b.exponent());
    assert(x == if a.negative() != b.negative() { -(ma * mb) } else { ma * mb })
        by (nonlinear_arith)
        requires
            x == a.signed_mantissa() * b.signed_mantissa(),
            a.signed_mantissa() == if a.negative() { -ma } else { ma },
            b.signed_mantissa() == if b.negative() { -mb } else { mb },
    ;
    assert(ma * mb >= 0) by (nonlinear_arith)
        requires
            ma >= 0,
            mb >= 0,
    ;
    assert(ma != 0 && mb != 0) by (nonlinear_arith)
        requires
            ma * mb != 0,
    ;
}

impl core::ops::Add for Scalar {
    type Output = Scalar;

    /// The sum, rounded to nearest, ties to even.
    fn add(self, rhs: Scalar) -> (r: Scalar) {
        proof {
            reveal(sum);
        }
        if self.is_nan() || rhs.is_nan() {
            return Scalar::nan();
        }
        if self.is_infinite() {
            if rhs.is_infinite() && self.is_sign_negative() != rhs.is_sign_negative() {
                return Scalar::nan();
            }
            return self;
        }
        if rhs.is_infinite() {
            return rhs;
        }
        let (_, ea) = self.decompose();
        let (_, eb) = rhs.decompose();
        if ea >= eb {
            add_finite(self, rhs)
        } else {
            proof {
                lemma_sum_commutative(self, rhs);
            }
            add_finite(rhs, self)
        }
    }
}

impl vstd::std_specs::ops::AddSpecImpl for Scalar {
    open spec fn obeys_add_spec() -> bool {
        true
    }

    open spec fn add_req(self, rhs: Scalar) -> bool {
        true
    }

    open spec fn add_spec(self, rhs: Scalar) -> Scalar {
        sum(self, rhs)
    }
}

/// The sum of two finite numbers, the first with the greater exponent.
fn add_finite(hi: Scalar, lo: Scalar) -> (r: Scalar)
    requires
        hi.is_finite(),
        lo.is_finite(),
        hi.exponent() >= lo.exponent(),
    ensures
        r == sum(hi, lo),
{
    proof {
        reveal(sum);
    }
    let (mh, eh) = hi.decompose();
    let (ml, el) = lo.decompose();
    let d: i32 = eh - el;
    if d > 64 {
        proof {
            lemma_sum_far(hi, lo);
        }
        return hi;
    }
    let p: u128 = pow2_u128(d as u32);
    proof {
        lemma_pow2_values();
        lemma_scaled_below(mh as nat, 53, d as nat);
        lemma_pow2_monotonic((53 + d) as nat, 117);
        lemma_pow2_monotonic(53, 117);
        lemma_pow2_monotonic(117, 127);
        lemma_pow2_monotonic(118, 120);
        lemma_pow2_unfold(118);
        lemma_pow2_pos(117);
        assert(lo.signed_mantissa() * 1 == lo.signed_mantissa());
        assert(common_exponent(hi, lo) == el);
    }
    let wide: u128 = (mh as u128) * p;
    let ghost x: int = exact_sum(hi, lo);
    proof {
        if hi.negative() {
            assert(hi.signed_mantissa() * p == -(mh * p)) by (nonlinear_arith)
                requires
                    hi.signed_mantissa() == -(mh as int),
            ;
        }
    }
    let negative: bool;
    let total: u128;
    if hi.is_sign_negative() == lo.is_sign_negative() {
        negative = hi.is_sign_negative();
        total = wide + ml as u128;
    } else if wide >= ml as u128 {
        negative = hi.is_sign_negative();
        total = wide - ml as u128;
    } else {
        negative = lo.is_sign_negative();
        total = ml as u128 - wide;
    }
    if total == 0 {
        return Scalar::from_parts(hi.is_sign_negative() && lo.is_sign_negative(), 0);
    }
    assert(total == if x < 0 { -x } else { x });
    assert(negative == (x < 0));
    let magnitude: u64 = round_to_magnitude(total, el);
    Scalar::from_parts(negative, magnitude)
}

impl core::ops::Sub for Scalar {
    type Output = Scalar;

    /// The difference, rounded to nearest, ties to even.
    fn sub(self, rhs: Scalar) -> (r: Scalar) {
        self + rhs.neg()
    }
}

impl vstd::std_specs::ops::SubSpecImpl for Scalar {
    open spec fn obeys_sub_spec() -> bool {
        true
    }

    open spec fn sub_req(self, rhs: Scalar) -> bool {
        true
    }

    open spec fn sub_spec(self, rhs: Scalar) -> Scalar {
        difference(self, rhs)
    }
}

impl core::ops::Mul for Scalar {
    type Output = Scalar;

    /// The product, rounded to nearest, ties to even.
    fn mul(self, rhs: Scalar) -> (r: Scalar) {
        proof {
            reveal(product);
        }
        if self.is_nan() || rhs.is_nan() {
            return Scalar::nan();
        }
        let negative: bool = self.is_sign_negative() != rhs.is_sign_negative();
        if self.is_infinite() || rhs.is_infinite() {
            if self.is_zero() || rhs.is_zero() {
                return Scalar::nan();
            }
            return Scalar::from_parts(negative, INFINITY_BITS);
        }
        let (ma, ea) = self.decompose();
        let (mb, eb) = rhs.decompose();
        if ma == 0 || mb == 0 {
            return Scalar::from_parts(negative, 0);
        }
        proof {
            lemma_pow2_values();
            lemma_mul_strict_upper_bound(
                ma as int,
                0x20_0000_0000_0000,
                mb as int,
                0x20_0000_0000_0000,
            );
            lemma_pow2_adds(53, 53);
            lemma_pow2_monotonic(106, 120);
            lemma_mul_strictly_positive(ma as int, mb as int);
        }
        let total: u128 = (ma as u128) * (mb as u128);
        let magnitude: u64 = round_to_magnitude(total, ea + eb);
        Scalar::from_parts(negative, magnitude)
    }
}

impl vstd::std_specs::ops::MulSpecImpl for Scalar {
    open spec fn obeys_mul_spec() -> bool {
        true
    }

    open spec fn mul_req(self, rhs: Scalar) -> bool {
        true
    }

    open spec fn mul_spec(self, rhs: Scalar) -> Scalar {
        product(self, rhs)
    }
}

} // verus!
