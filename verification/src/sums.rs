//! Finite sums of integer-valued functions over index ranges, and the
//! reindexing facts the conservation arguments lean on: splitting a sum,
//! shifting its window, and walking a cyclic shift around a ring.

use vstd::prelude::*;

verus! {

/// Sum of `g` over `[a, a + n)`.
pub open spec fn sum_range(g: spec_fn(int) -> int, a: int, n: nat) -> int
    decreases n,
{
    if n == 0 {
        0
    } else {
        sum_range(g, a, (n - 1) as nat) + g(a + n - 1)
    }
}

/// Sum of `g` over `[0, n)`.
pub open spec fn sum_upto(g: spec_fn(int) -> int, n: nat) -> int {
    sum_range(g, 0, n)
}

/// Sum of `q` over the grid `[0, w) x [0, h)`.
pub open spec fn grid_sum(q: spec_fn(int, int) -> int, w: nat, h: nat) -> int {
    sum_upto(|y: int| sum_upto(|x: int| q(x, y), w), h)
}

/// Functions equal across the window have equal sums.
pub proof fn lemma_sum_range_congruence(g1: spec_fn(int) -> int, g2: spec_fn(int) -> int, a: int, n: nat)
    requires
        forall|x: int| a <= x < a + n ==> #[trigger] g1(x) == g2(x),
    ensures
        sum_range(g1, a, n) == sum_range(g2, a, n),
    decreases n,
{
    if n > 0 {
        lemma_sum_range_congruence(g1, g2, a, (n - 1) as nat);
    }
}

/// A sum over `[a, a + m + n)` splits at `a + m`.
pub proof fn lemma_sum_range_concat(g: spec_fn(int) -> int, a: int, m: nat, n: nat)
    ensures
        sum_range(g, a, (m + n) as nat) == sum_range(g, a, m) + sum_range(g, a + m, n),
    decreases n,
{
    if n > 0 {
        lemma_sum_range_concat(g, a, m, (n - 1) as nat);
    }
}

/// Shifting the argument slides the window.
pub proof fn lemma_sum_range_offset(g: spec_fn(int) -> int, shifted: spec_fn(int) -> int, a: int, d: int, n: nat)
    requires
        forall|x: int| a <= x < a + n ==> #[trigger] shifted(x) == g(x + d),
    ensures
        sum_range(shifted, a, n) == sum_range(g, a + d, n),
    decreases n,
{
    if n > 0 {
        lemma_sum_range_offset(g, shifted, a, d, (n - 1) as nat);
    }
}

/// Walking a ring of length `w` starting `c` places in covers the same
/// values: the sum of `g((x + c) % w)` over one full turn is the sum of `g`.
pub proof fn lemma_sum_cyclic_shift(g: spec_fn(int) -> int, turned: spec_fn(int) -> int, w: nat, c: int)
    requires
        w >= 1,
        0 <= c <= w,
        forall|x: int| 0 <= x < w ==> #[trigger] turned(x) == g((x + c) % (w as int)),
    ensures
        sum_upto(turned, w) == sum_upto(g, w),
{
    let m = (w - c) as nat;
    lemma_sum_range_concat(turned, 0, m, (c) as nat);
    assert forall|x: int| 0 <= x < m implies #[trigger] turned(x) == g(x + c) by {
        vstd::arithmetic::div_mod::lemma_small_mod((x + c) as nat, w);
    }
    lemma_sum_range_offset(g, turned, 0, c, m);
    assert forall|x: int| m <= x < m + c implies #[trigger] turned(x) == g(x + c - w) by {
        vstd::arithmetic::div_mod::lemma_fundamental_div_mod_converse(
            x + c,
            w as int,
            1,
            x + c - w,
        );
    }
    lemma_sum_range_offset(g, turned, m as int, c - w, c as nat);
    lemma_sum_range_concat(g, 0, c as nat, m);
}

/// Sums distribute over pointwise addition.
pub proof fn lemma_sum_range_add(g1: spec_fn(int) -> int, g2: spec_fn(int) -> int, both: spec_fn(int) -> int, a: int, n: nat)
    requires
        forall|x: int| a <= x < a + n ==> #[trigger] both(x) == g1(x) + g2(x),
    ensures
        sum_range(both, a, n) == sum_range(g1, a, n) + sum_range(g2, a, n),
    decreases n,
{
    if n > 0 {
        lemma_sum_range_add(g1, g2, both, a, (n - 1) as nat);
    }
}

/// The sum of a constant is the count times the constant.
pub proof fn lemma_sum_range_const(g: spec_fn(int) -> int, c: int, a: int, n: nat)
    requires
        forall|x: int| a <= x < a + n ==> #[trigger] g(x) == c,
    ensures
        sum_range(g, a, n) == n * c,
    decreases n,
{
    if n == 0 {
        assert(n * c == 0) by (nonlinear_arith)
            requires
                n == 0,
        ;
    } else {
        lemma_sum_range_const(g, c, a, (n - 1) as nat);
        assert((n - 1) * c + c == n * c) by (nonlinear_arith);
    }
}

/// Grid functions equal across the grid have equal grid sums.
pub proof fn lemma_grid_sum_congruence(q1: spec_fn(int, int) -> int, q2: spec_fn(int, int) -> int, w: nat, h: nat)
    requires
        forall|x: int, y: int| 0 <= x < w && 0 <= y < h ==> #[trigger] q1(x, y) == q2(x, y),
    ensures
        grid_sum(q1, w, h) == grid_sum(q2, w, h),
{
    let r1 = |y: int| sum_upto(|x: int| q1(x, y), w);
    let r2 = |y: int| sum_upto(|x: int| q2(x, y), w);
    assert forall|y: int| 0 <= y < h implies #[trigger] r1(y) == r2(y) by {
        lemma_sum_range_congruence(|x: int| q1(x, y), |x: int| q2(x, y), 0, w);
    }
    lemma_sum_range_congruence(r1, r2, 0, h);
}

/// Grid sums distribute over pointwise addition.
pub proof fn lemma_grid_sum_add(q1: spec_fn(int, int) -> int, q2: spec_fn(int, int) -> int, both: spec_fn(int, int) -> int, w: nat, h: nat)
    requires
        forall|x: int, y: int|
            0 <= x < w && 0 <= y < h ==> #[trigger] both(x, y) == q1(x, y) + q2(x, y),
    ensures
        grid_sum(both, w, h) == grid_sum(q1, w, h) + grid_sum(q2, w, h),
{
    let r1 = |y: int| sum_upto(|x: int| q1(x, y), w);
    let r2 = |y: int| sum_upto(|x: int| q2(x, y), w);
    let rb = |y: int| sum_upto(|x: int| both(x, y), w);
    assert forall|y: int| 0 <= y < h implies #[trigger] rb(y) == r1(y) + r2(y) by {
        lemma_sum_range_add(|x: int| q1(x, y), |x: int| q2(x, y), |x: int| both(x, y), 0, w);
    }
    lemma_sum_range_add(r1, r2, rb, 0, h);
}

/// The grid sum of a constant is the cell count times the constant.
pub proof fn lemma_grid_sum_const(q: spec_fn(int, int) -> int, c: int, w: nat, h: nat)
    requires
        forall|x: int, y: int| 0 <= x < w && 0 <= y < h ==> #[trigger] q(x, y) == c,
    ensures
        grid_sum(q, w, h) == w * h * c,
{
    let r = |y: int| sum_upto(|x: int| q(x, y), w);
    assert forall|y: int| 0 <= y < h implies #[trigger] r(y) == (w as int) * c by {
        lemma_sum_range_const(|x: int| q(x, y), c, 0, w);
    }
    lemma_sum_range_const(r, (w as int) * c, 0, h);
    assert(h * (w * c) == w * h * c) by (nonlinear_arith);
}

/// A sum over `w * h` flat indices, read row-major, is the grid sum of the
/// corresponding coordinate function.
pub proof fn lemma_flat_sum_is_grid_sum(flat: spec_fn(int) -> int, q: spec_fn(int, int) -> int, w: nat, h: nat)
    requires
        w >= 1,
        forall|i: int|
            0 <= i < w * h ==> #[trigger] flat(i) == q(i % (w as int), i / (w as int)),
    ensures
        sum_upto(flat, (w * h) as nat) == grid_sum(q, w, h),
    decreases h,
{
    vstd::arithmetic::mul::lemma_mul_nonnegative(w as int, h as int);
    if h == 0 {
        assert(w * h == 0) by (nonlinear_arith)
            requires
                h == 0,
        ;
    } else {
        let hh = (h - 1) as nat;
        assert(w * hh + w == w * h && w * hh >= 0) by (nonlinear_arith)
            requires
                hh == h - 1,
                w >= 1,
        ;
        assert forall|i: int| 0 <= i < w * hh implies #[trigger] flat(i) == q(
            i % (w as int),
            i / (w as int),
        ) by {}
        lemma_flat_sum_is_grid_sum(flat, q, w, hh);
        lemma_sum_range_concat(flat, 0, (w * hh) as nat, w);
        let last = |x: int| q(x, hh as int);
        assert forall|x: int| 0 <= x < w implies #[trigger] flat(x + w * hh) == last(x) by {
            assert(w * hh == hh * w) by (nonlinear_arith);
            vstd::arithmetic::div_mod::lemma_fundamental_div_mod_converse(
                x + w * hh,
                w as int,
                hh as int,
                x,
            );
        }
        let tailf = |x: int| flat(x + w * hh);
        assert(sum_range(flat, (w * hh) as int, w) == sum_upto(last, w)) by {
            lemma_sum_range_offset(flat, tailf, 0, (w * hh) as int, w);
            lemma_sum_range_congruence(tailf, last, 0, w);
        }
        let rows = |y: int| sum_upto(|x: int| q(x, y), w);
        assert(sum_upto(|x: int| q(x, hh as int), w) == sum_upto(last, w)) by {
            lemma_sum_range_congruence(|x: int| q(x, hh as int), last, 0, w);
        }
        assert(sum_range(rows, 0, h) == sum_range(rows, 0, hh) + rows(hh as int));
    }
}

} // verus!
