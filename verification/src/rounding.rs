//! Rounding an exact binary fraction `m * 2^e` to the nearest binary64
//! magnitude, ties to even.
use crate::powers::{
    bit_length, bit_length_u128, lemma_bit_length_at_most, lemma_bit_length_bounds,
    lemma_bit_length_scaled, lemma_bit_length_unique, lemma_pow2_monotonic, lemma_pow2_values,
    lemma_scaled_below, pow2_u128,
};
use vstd::arithmetic::div_mod::*;
use vstd::arithmetic::mul::*;
use vstd::arithmetic::power2::*;
use vstd::prelude::*;

verus! {

/// The magnitude bits of infinity; every larger magnitude is a NaN.
pub const INFINITY_BITS: u64 = 0x7ff0_0000_0000_0000;

/// `2^52`: the weight of the exponent field in a magnitude.
pub const HIDDEN_BIT: u64 = 0x10_0000_0000_0000;

/// The exponent of the last kept digit when `m * 2^e` is cut to 53 digits,
/// but never below that of the subnormal numbers.
pub open spec fn ulp_exponent(m: nat, e: int) -> int {
    let cut: int = e + bit_length(m) - 53;
    if cut >= -1074 {
        cut
    } else {
        -1074
    }
}

/// `m` with its `k` lowest digits dropped, rounded to nearest, ties to
/// even; with `-k` zero digits appended where `k` is not positive.
pub open spec fn round_mantissa(m: nat, k: int) -> nat {
    if k <= 0 {
        m * pow2((-k) as nat)
    } else {
        let quotient: nat = m / pow2(k as nat);
        let rest: nat = m % pow2(k as nat);
        let half: nat = pow2((k - 1) as nat);
        if rest > half || (rest == half && quotient % 2 == 1) {
            quotient + 1
        } else {
            quotient
        }
    }
}

/// The binary64 magnitude nearest to `m * 2^e`, ties to even; infinity
/// where the rounded value is out of range. A magnitude counts ulps: the
/// mantissa added to the exponent field makes a carry move to the next
/// binade by itself.
pub open spec fn round_magnitude(m: nat, e: int) -> u64
    recommends
        m > 0,
{
    let q: int = ulp_exponent(m, e);
    let packed: int = (q + 1074) * 0x10_0000_0000_0000 + round_mantissa(m, q - e);
    if packed >= 0x7ff0_0000_0000_0000 {
        0x7ff0_0000_0000_0000u64
    } else {
        packed as u64
    }
}

/// The rounded mantissa has at most 53 digits, or is `2^53` itself.
pub proof fn lemma_round_mantissa_bound(m: nat, e: int)
    requires
        m > 0,
    ensures
        round_mantissa(m, ulp_exponent(m, e) - e) <= pow2(53),
{
    let n: nat = bit_length(m);
    let k: int = ulp_exponent(m, e) - e;
    lemma_bit_length_bounds(m);
    assert(k >= n - 53);
    if k <= 0 {
        lemma_scaled_below(m, n, (-k) as nat);
        lemma_pow2_monotonic((n + (-k)) as nat, 53);
    } else if k > n {
        lemma_pow2_monotonic(n, k as nat);
        lemma_basic_div(m as int, pow2(k as nat) as int);
        lemma_pow2_pos(53);
    } else {
        let p: nat = pow2(k as nat);
        lemma_pow2_pos(k as nat);
        lemma_pow2_adds(k as nat, (n - k) as nat);
        lemma_multiply_divide_lt(m as int, p as int, pow2((n - k) as nat) as int);
        lemma_pow2_monotonic((n - k) as nat, 53);
    }
}

/// The distance between two integers.
pub open spec fn distance(a: int, b: int) -> int {
    if a >= b {
        a - b
    } else {
        b - a
    }
}

/// The rounded mantissa is the nearest one: no multiple of `2^k` lies
/// nearer to `m` than the rounded mantissa times `2^k`, and where another
/// lies as near, the rounded mantissa is even.
pub proof fn lemma_round_mantissa_nearest(m: nat, k: nat, t: int)
    requires
        k > 0,
    ensures
        distance((round_mantissa(m, k as int) * pow2(k)) as int, m as int) <= distance(
            t * pow2(k),
            m as int,
        ),
        t != round_mantissa(m, k as int) && distance(
            (round_mantissa(m, k as int) * pow2(k)) as int,
            m as int,
        ) == distance(t * pow2(k), m as int) ==> round_mantissa(m, k as int) % 2 == 0,
{
    let p: int = pow2(k) as int;
    let half: int = pow2((k - 1) as nat) as int;
    let quotient: int = m as int / p;
    let rest: int = m as int % p;
    let r: int = round_mantissa(m, k as int) as int;
    lemma_pow2_pos(k);
    lemma_pow2_unfold(k);
    lemma_fundamental_div_mod(m as int, p);
    lemma_mod_bound(m as int, p);
    assert(m == quotient * p + rest) by {
        lemma_mul_is_commutative(p, quotient);
    }
    assert(r * p == quotient * p + (r - quotient) * p) by (nonlinear_arith);
    assert((r - quotient) * p == if r == quotient { 0 } else { p }) by (nonlinear_arith)
        requires
            r == quotient || r == quotient + 1,
    ;
    if t <= quotient - 1 {
        assert(t * p <= quotient * p - p) by (nonlinear_arith)
            requires
                t <= quotient - 1,
                p > 0,
        ;
    } else if t >= quotient + 2 {
        assert(t * p >= quotient * p + 2 * p) by (nonlinear_arith)
            requires
                t >= quotient + 2,
                p > 0,
        ;
    } else if t == quotient {
        assert(t * p == quotient * p);
    } else {
        assert(t * p == quotient * p + p) by (nonlinear_arith)
            requires
                t == quotient + 1,
        ;
    }
}

/// Rounding leaves alone what a binary64 number can hold: where `m` and
/// `e` are the mantissa and the exponent of such a number, `m * 2^e`
/// written with `j` more digits rounds to the magnitude of that number.
pub proof fn lemma_round_exact(m: nat, e: int, j: nat)
    requires
        0 < m < pow2(53),
        e >= -1074,
        e > -1074 ==> m >= pow2(52),
        (e + 1074) * 0x10_0000_0000_0000 + m < 0x7ff0_0000_0000_0000,
    ensures
        round_magnitude(m * pow2(j), e - j) == (e + 1074) * 0x10_0000_0000_0000 + m,
{
    lemma_pow2_values();
    lemma_pow2_pos(j);
    lemma_bit_length_scaled(m, j);
    lemma_bit_length_at_most(m, 53);
    lemma_bit_length_bounds(m);
    let n: nat = bit_length(m);
    let x: nat = m * pow2(j);
    if m >= pow2(52) {
        lemma_bit_length_unique(m, 53);
    }
    assert(ulp_exponent(x, e - j) == e);
    if j == 0 {
        assert(x * pow2(0) == m) by (nonlinear_arith)
            requires
                x == m * pow2(0),
                pow2(0) == 1,
        ;
    } else {
        lemma_fundamental_div_mod_converse(x as int, pow2(j) as int, m as int, 0);
        lemma_pow2_pos((j - 1) as nat);
    }
    assert(round_mantissa(x, j as int) == m);
}

/// The same where the number is written with fewer digits than its
/// mantissa has: `x * 2^e` with `x * 2^j` the mantissa and `e - j` the
/// exponent of a binary64 number rounds to the magnitude of that number.
pub proof fn lemma_round_exact_short(x: nat, e: int, j: nat)
    requires
        0 < x,
        x * pow2(j) < pow2(53),
        e - j >= -1074,
        e - j > -1074 ==> x * pow2(j) >= pow2(52),
        (e - j + 1074) * 0x10_0000_0000_0000 + x * pow2(j) < 0x7ff0_0000_0000_0000,
    ensures
        round_magnitude(x, e) == (e - j + 1074) * 0x10_0000_0000_0000 + x * pow2(j),
{
    lemma_pow2_values();
    lemma_pow2_pos(j);
    let m: nat = x * pow2(j);
    lemma_bit_length_scaled(x, j);
    lemma_bit_length_at_most(m, 53);
    if m >= pow2(52) {
        lemma_bit_length_unique(m, 53);
    }
    assert(ulp_exponent(x, e) == e - j);
}

/// Rounds `m * 2^e` to the nearest binary64 magnitude.
pub fn round_to_magnitude(m: u128, e: i32) -> (r: u64)
    requires
        0 < m < pow2(120),
        -2200 <= e <= 2200,
    ensures
        r == round_magnitude(m as nat, e as int),
{
    let n: u32 = bit_length_u128(m);
    proof {
        lemma_bit_length_bounds(m as nat);
        lemma_bit_length_at_most(m as nat, 120);
        lemma_round_mantissa_bound(m as nat, e as int);
        lemma_pow2_values();
    }
    let cut: i32 = e + n as i32 - 53;
    let q: i32 = if cut >= -1074 {
        cut
    } else {
        -1074
    };
    let k: i32 = q - e;
    assert(q == ulp_exponent(m as nat, e as int));
    let mantissa: u128;
    if k <= 0 {
        let s: u32 = (-k) as u32;
        let p: u128 = pow2_u128(s);
        proof {
            lemma_scaled_below(m as nat, n as nat, s as nat);
            lemma_pow2_monotonic((n + s) as nat, 53);
        }
        mantissa = m * p;
    } else if k as u32 > n {
        proof {
            lemma_pow2_monotonic(n as nat, (k - 1) as nat);
            lemma_pow2_monotonic(n as nat, k as nat);
            lemma_basic_div(m as int, pow2(k as nat) as int);
            lemma_small_mod(m as nat, pow2(k as nat));
        }
        mantissa = 0;
    } else {
        let p: u128 = pow2_u128(k as u32);
        proof {
            lemma_pow2_pos(k as nat);
            lemma_pow2_unfold(k as nat);
        }
        let quotient: u128 = m / p;
        let rest: u128 = m % p;
        let half: u128 = p / 2;
        mantissa = if rest > half || (rest == half && quotient % 2 == 1) {
            quotient + 1
        } else {
            quotient
        };
    }
    assert(mantissa == round_mantissa(m as nat, k as int));
    let steps: u128 = (q + 1074) as u128;
    assert(steps * 0x10_0000_0000_0000 <= 4096 * 0x10_0000_0000_0000) by (nonlinear_arith)
        requires
            steps <= 4096,
    ;
    let packed: u128 = steps * (HIDDEN_BIT as u128) + mantissa;
    if packed >= INFINITY_BITS as u128 {
        INFINITY_BITS
    } else {
        packed as u64
    }
}

} // verus!
