//! Powers of two and binary digit counts.
use vstd::arithmetic::div_mod::*;
use vstd::arithmetic::mul::*;
use vstd::arithmetic::power2::*;
use vstd::prelude::*;

verus! {

/// The number of binary digits of `m`: the least `n` with `m < 2^n`.
pub open spec fn bit_length(m: nat) -> nat
    decreases m,
{
    if m == 0 {
        0
    } else {
        1 + bit_length(m / 2)
    }
}

/// Powers of two grow with the exponent.
pub proof fn lemma_pow2_monotonic(a: nat, b: nat)
    requires
        a <= b,
    ensures
        pow2(a) <= pow2(b),
{
    if a < b {
        lemma_pow2_strictly_increases(a, b);
    }
}

/// The powers of two that delimit the fields of a binary64 number.
pub proof fn lemma_pow2_values()
    ensures
        pow2(0) == 1,
        pow2(1) == 2,
        pow2(11) == 0x800,
        pow2(31) == 0x8000_0000,
        pow2(32) == 0x1_0000_0000,
        pow2(52) == 0x10_0000_0000_0000,
        pow2(53) == 0x20_0000_0000_0000,
        pow2(54) == 0x40_0000_0000_0000,
        pow2(63) == 0x8000_0000_0000_0000,
        pow2(64) == 0x1_0000_0000_0000_0000,
        pow2(127) == 0x8000_0000_0000_0000_0000_0000_0000_0000,
{
    lemma2_to64();
    lemma2_to64_rest();
    lemma_pow2_adds(63, 64);
}

/// A number below `2^a` times `2^b` stays below `2^(a + b)`.
pub proof fn lemma_scaled_below(m: nat, a: nat, b: nat)
    requires
        m < pow2(a),
    ensures
        m * pow2(b) < pow2(a + b),
{
    lemma_pow2_pos(b);
    lemma_pow2_adds(a, b);
    lemma_mul_strict_inequality(m as int, pow2(a) as int, pow2(b) as int);
}

/// A number of at least `2^a` times `2^b` is at least `2^(a + b)`.
pub proof fn lemma_scaled_at_least(m: nat, a: nat, b: nat)
    requires
        pow2(a) <= m,
    ensures
        pow2(a + b) <= m * pow2(b),
{
    lemma_pow2_pos(b);
    lemma_pow2_adds(a, b);
    lemma_mul_inequality(pow2(a) as int, m as int, pow2(b) as int);
}

/// A positive number lies between the two powers of two that its digit
/// count names.
pub proof fn lemma_bit_length_bounds(m: nat)
    requires
        m > 0,
    ensures
        bit_length(m) >= 1,
        pow2((bit_length(m) - 1) as nat) <= m < pow2(bit_length(m)),
    decreases m,
{
    lemma_pow2_values();
    if m == 1 {
        assert(bit_length(1) == 1 + bit_length(0));
    } else {
        let h = m / 2;
        lemma_bit_length_bounds(h);
        let n = bit_length(h);
        assert(bit_length(m) == n + 1);
        lemma_pow2_unfold(n);
        lemma_pow2_unfold(n + 1);
    }
}

/// The digit count is the only `n` with `2^(n-1) <= m < 2^n`.
pub proof fn lemma_bit_length_unique(m: nat, n: nat)
    requires
        n >= 1,
        pow2((n - 1) as nat) <= m < pow2(n),
    ensures
        bit_length(m) == n,
{
    lemma_pow2_pos((n - 1) as nat);
    lemma_bit_length_bounds(m);
    let b = bit_length(m);
    if b < n {
        lemma_pow2_monotonic(b, (n - 1) as nat);
    } else if b > n {
        lemma_pow2_monotonic(n, (b - 1) as nat);
    }
}

/// Appending `j` zero digits adds `j` to the digit count.
pub proof fn lemma_bit_length_scaled(m: nat, j: nat)
    requires
        m > 0,
    ensures
        bit_length(m * pow2(j)) == bit_length(m) + j,
{
    lemma_bit_length_bounds(m);
    let n = bit_length(m);
    lemma_scaled_below(m, n, j);
    lemma_scaled_at_least(m, (n - 1) as nat, j);
    lemma_bit_length_unique(m * pow2(j), n + j);
}

/// A number below `2^n` has at most `n` digits.
pub proof fn lemma_bit_length_at_most(m: nat, n: nat)
    requires
        m < pow2(n),
    ensures
        bit_length(m) <= n,
{
    if m > 0 {
        lemma_bit_length_bounds(m);
        let b = bit_length(m);
        if b > n {
            lemma_pow2_monotonic(n, (b - 1) as nat);
        }
    }
}

/// Computes `2^k`.
pub fn pow2_u128(k: u32) -> (p: u128)
    requires
        k <= 127,
    ensures
        p == pow2(k as nat),
{
    let mut p: u128 = 1;
    let mut i: u32 = 0;
    proof {
        lemma_pow2_values();
    }
    while i < k
        invariant
            i <= k <= 127,
            p == pow2(i as nat),
        decreases k - i,
    {
        proof {
            lemma_pow2_unfold((i + 1) as nat);
            lemma_pow2_monotonic((i + 1) as nat, 127);
            lemma_pow2_values();
        }
        p = p * 2;
        i = i + 1;
    }
    p
}

/// Counts the binary digits of `m`.
pub fn bit_length_u128(m: u128) -> (n: u32)
    ensures
        n == bit_length(m as nat),
        n <= 128,
{
    let mut n: u32 = 0;
    let mut rest: u128 = m;
    proof {
        lemma_pow2_adds(64, 64);
        lemma_pow2_values();
        lemma_bit_length_at_most(m as nat, 128);
    }
    while rest > 0
        invariant
            n + bit_length(rest as nat) == bit_length(m as nat),
            bit_length(m as nat) <= 128,
        decreases rest,
    {
        rest = rest / 2;
        n = n + 1;
    }
    n
}

} // verus!
