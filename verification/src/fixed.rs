//! Saturating fixed-point arithmetic on `u64` quantities.
//!
//! A stored value `q` stands for the rational number `q / SCALE`. Addition
//! saturates at `u64::MAX`, subtraction clamps at zero, and the scaled
//! multiplication, division and square root round toward zero. Each
//! executable operation is proved equal to its spec-level twin, so the
//! simulation's transition function can be stated exactly over these twins.

use vstd::prelude::*;

verus! {

/// Number of fixed-point quanta per whole unit: a stored `q: u64` stands for
/// the rational number `q / SCALE`.
pub const SCALE: u64 = 1_000_000;

/// Clamp an unbounded result into the `u64` range from above.
pub open spec fn spec_cap(v: int) -> int {
    if v > u64::MAX {
        u64::MAX as int
    } else {
        v
    }
}

/// `a + b`, saturating at `u64::MAX`.
pub open spec fn spec_sat_add(a: int, b: int) -> int {
    if a + b > u64::MAX {
        u64::MAX as int
    } else {
        a + b
    }
}

/// `a - b`, clamped at zero.
pub open spec fn spec_sat_sub(a: int, b: int) -> int {
    if a >= b {
        a - b
    } else {
        0
    }
}

/// Fixed-point product `a * b / SCALE`, rounded toward zero and saturating
/// at `u64::MAX`.
pub open spec fn spec_mul_fp(a: int, b: int) -> int {
    if a * b / (SCALE as int) > u64::MAX {
        u64::MAX as int
    } else {
        a * b / (SCALE as int)
    }
}

/// Fixed-point quotient `a * SCALE / b`, rounded toward zero and saturating
/// at `u64::MAX`; zero when the divisor is zero (the caller guards that
/// case and treats it as "no transfer").
pub open spec fn spec_div_fp(a: int, b: int) -> int {
    if b == 0 {
        0
    } else if a * (SCALE as int) / b > u64::MAX {
        u64::MAX as int
    } else {
        a * (SCALE as int) / b
    }
}

/// Integer square root: the greatest `r` with `r * r <= x`.
pub open spec fn spec_isqrt(x: nat) -> nat
    decreases x,
{
    if x == 0 {
        0
    } else {
        let r = spec_isqrt((x - 1) as nat);
        if (r + 1) * (r + 1) <= x {
            r + 1
        } else {
            r
        }
    }
}

/// Fixed-point square root: with `a` standing for `a / SCALE`, the result
/// stands for the integer square root of `a * SCALE` quanta, which is
/// `sqrt(a / SCALE)` in whole units, rounded toward zero.
pub open spec fn spec_sqrt_fp(a: int) -> int {
    spec_isqrt((a * SCALE) as nat) as int
}

/// `spec_isqrt(x)` is the greatest natural number whose square is at most `x`.
pub proof fn lemma_isqrt_bounds(x: nat)
    ensures
        spec_isqrt(x) * spec_isqrt(x) <= x,
        x < (spec_isqrt(x) + 1) * (spec_isqrt(x) + 1),
    decreases x,
{
    if x == 0 {
        assert(spec_isqrt(x) == 0);
        assert(spec_isqrt(x) * spec_isqrt(x) <= x) by (nonlinear_arith)
            requires
                spec_isqrt(x) == 0,
                x == 0,
        ;
        assert(x < (spec_isqrt(x) + 1) * (spec_isqrt(x) + 1)) by (nonlinear_arith)
            requires
                spec_isqrt(x) == 0,
                x == 0,
        ;
    } else {
        lemma_isqrt_bounds((x - 1) as nat);
        let r = spec_isqrt((x - 1) as nat);
        if (r + 1) * (r + 1) <= x {
            assert(spec_isqrt(x) == r + 1);
            assert(spec_isqrt(x) * spec_isqrt(x) <= x) by (nonlinear_arith)
                requires
                    spec_isqrt(x) == r + 1,
                    (r + 1) * (r + 1) <= x,
            ;
            assert(x < (spec_isqrt(x) + 1) * (spec_isqrt(x) + 1)) by (nonlinear_arith)
                requires
                    spec_isqrt(x) == r + 1,
                    x <= (r + 1) * (r + 1),
            ;
        } else {
            assert(spec_isqrt(x) == r);
            assert(spec_isqrt(x) * spec_isqrt(x) <= x) by (nonlinear_arith)
                requires
                    spec_isqrt(x) == r,
                    r * r <= x - 1,
                    x >= 1,
            ;
            assert(x < (spec_isqrt(x) + 1) * (spec_isqrt(x) + 1)) by (nonlinear_arith)
                requires
                    spec_isqrt(x) == r,
                    x < (r + 1) * (r + 1),
            ;
        }
    }
}

/// Any `r` bracketing `x` between consecutive squares is `spec_isqrt(x)`.
pub proof fn lemma_isqrt_unique(x: nat, r: nat)
    requires
        r * r <= x,
        x < (r + 1) * (r + 1),
    ensures
        r == spec_isqrt(x),
{
    lemma_isqrt_bounds(x);
    let s = spec_isqrt(x);
    if r < s {
        assert((r + 1) * (r + 1) <= s * s) by (nonlinear_arith)
            requires
                r + 1 <= s,
        ;
    }
    if s < r {
        assert((s + 1) * (s + 1) <= r * r) by (nonlinear_arith)
            requires
                s + 1 <= r,
        ;
    }
}

/// The fixed-point product of nonnegative values stays in the `u64` range.
pub proof fn lemma_mul_fp_bounds(a: int, b: int)
    requires
        a >= 0,
        b >= 0,
    ensures
        0 <= spec_mul_fp(a, b) <= u64::MAX,
{
    vstd::arithmetic::mul::lemma_mul_nonnegative(a, b);
    vstd::arithmetic::div_mod::lemma_div_pos_is_pos(a * b, SCALE as int);
}

/// A fixed-point product with a zero factor is zero.
pub proof fn lemma_mul_fp_zero(a: int)
    ensures
        spec_mul_fp(a, 0) == 0,
        spec_mul_fp(0, a) == 0,
{
    vstd::arithmetic::mul::lemma_mul_basics(a);
}

/// The fixed-point quotient of nonnegative values stays in the `u64` range.
pub proof fn lemma_div_fp_bounds(a: int, b: int)
    requires
        a >= 0,
        b >= 0,
    ensures
        0 <= spec_div_fp(a, b) <= u64::MAX,
{
    if b != 0 {
        vstd::arithmetic::mul::lemma_mul_nonnegative(a, SCALE as int);
        vstd::arithmetic::div_mod::lemma_div_pos_is_pos(a * (SCALE as int), b);
    }
}

/// The fixed-point square root of a `u64`-ranged value stays in the `u64`
/// range.
pub proof fn lemma_sqrt_fp_bounds(a: int)
    requires
        0 <= a <= u64::MAX,
    ensures
        0 <= spec_sqrt_fp(a) <= u64::MAX,
{
    let x = (a * SCALE) as nat;
    vstd::arithmetic::mul::lemma_mul_nonnegative(a, SCALE as int);
    vstd::arithmetic::mul::lemma_mul_inequality(a, u64::MAX as int, SCALE as int);
    lemma_isqrt_bounds(x);
    assert(spec_isqrt(x) <= u64::MAX) by (nonlinear_arith)
        requires
            spec_isqrt(x) * spec_isqrt(x) <= x,
            x <= (u64::MAX as int) * (SCALE as int),
            SCALE <= u64::MAX,
    ;
}

/// Saturating addition.
pub fn sat_add(a: u64, b: u64) -> (r: u64)
    ensures
        r == spec_sat_add(a as int, b as int),
{
    let s: u128 = a as u128 + b as u128;
    if s > u64::MAX as u128 {
        u64::MAX
    } else {
        s as u64
    }
}

/// Subtraction clamped at zero.
pub fn sat_sub(a: u64, b: u64) -> (r: u64)
    ensures
        r == spec_sat_sub(a as int, b as int),
{
    if a >= b {
        a - b
    } else {
        0
    }
}

/// Fixed-point multiplication.
pub fn mul_fp(a: u64, b: u64) -> (r: u64)
    ensures
        r == spec_mul_fp(a as int, b as int),
{
    proof {
        vstd::arithmetic::mul::lemma_mul_upper_bound(
            a as int,
            u64::MAX as int,
            b as int,
            u64::MAX as int,
        );
    }
    let p: u128 = (a as u128) * (b as u128);
    let q: u128 = p / (SCALE as u128);
    if q > u64::MAX as u128 {
        u64::MAX
    } else {
        q as u64
    }
}

/// Fixed-point division; zero when the divisor is zero.
pub fn div_fp(a: u64, b: u64) -> (r: u64)
    ensures
        r == spec_div_fp(a as int, b as int),
{
    if b == 0 {
        return 0;
    }
    proof {
        vstd::arithmetic::mul::lemma_mul_upper_bound(
            a as int,
            u64::MAX as int,
            SCALE as int,
            u64::MAX as int,
        );
    }
    let p: u128 = (a as u128) * (SCALE as u128);
    let q: u128 = p / (b as u128);
    if q > u64::MAX as u128 {
        u64::MAX
    } else {
        q as u64
    }
}

/// Integer square root of a `u128`, by binary search.
pub fn isqrt(x: u128) -> (r: u64)
    ensures
        r == spec_isqrt(x as nat),
{
    let mut lo: u128 = 0;
    let mut hi: u128 = if x < 0xFFFF_FFFF_FFFF_FFFF {
        x + 1
    } else {
        0x1_0000_0000_0000_0000
    };
    proof {
        if x < 0xFFFF_FFFF_FFFF_FFFF {
            assert((x + 1) * (x + 1) > x) by (nonlinear_arith);
        } else {
            assert(0x1_0000_0000_0000_0000int * 0x1_0000_0000_0000_0000int > u128::MAX)
                by (nonlinear_arith);
        }
    }
    while lo + 1 < hi
        invariant
            (lo as int) * (lo as int) <= x as int,
            (x as int) < (hi as int) * (hi as int),
            lo < hi,
            hi <= 0x1_0000_0000_0000_0000,
        decreases hi - lo,
    {
        let mid: u128 = lo + (hi - lo) / 2;
        proof {
            assert((mid as int) * (mid as int) < u128::MAX) by (nonlinear_arith)
                requires
                    0 <= mid < 0x1_0000_0000_0000_0000int,
            ;
        }
        if mid * mid <= x {
            lo = mid;
        } else {
            hi = mid;
        }
    }
    proof {
        lemma_isqrt_unique(x as nat, lo as nat);
    }
    lo as u64
}

/// Fixed-point square root.
pub fn sqrt_fp(a: u64) -> (r: u64)
    ensures
        r == spec_sqrt_fp(a as int),
{
    proof {
        vstd::arithmetic::mul::lemma_mul_upper_bound(
            a as int,
            u64::MAX as int,
            SCALE as int,
            SCALE as int,
        );
    }
    isqrt((a as u128) * (SCALE as u128))
}

} // verus!
