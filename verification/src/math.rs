//! Integer square root and a fixed-point exponential, the two nonlinear
//! building blocks of the flight model.
use vstd::prelude::*;

verus! {

use crate::fixed::Fix;
use crate::fixed::SCALE;
use crate::fixed::absv;
use crate::fixed::s_mul;
use crate::fixed::s_div;
use crate::fixed::s_idiv;
use crate::fixed::fix_mul;
use crate::fixed::fix_div;
use crate::fixed::int_div;
use crate::fixed::lemma_smul_bound;
use crate::fixed::lemma_smul_mono2;
use crate::fixed::lemma_smul_nonneg;
use crate::fixed::lemma_smul_sq_ge_scale;
use crate::fixed::lemma_sidiv_mono;
use crate::fixed::lemma_sidiv_shrink;
use crate::fixed::lemma_sdiv_nonneg;
use crate::fixed::lemma_sdiv_antitone_den;
use vstd::arithmetic::div_mod::lemma_div_is_ordered;
use vstd::arithmetic::div_mod::lemma_div_pos_is_pos;
use vstd::arithmetic::mul::lemma_mul_nonnegative;

/// The integer square root: the largest `r` with `r * r <= n`.
pub open spec fn isqrt_s(n: int) -> int
    decreases n,
{
    if n <= 0 {
        0
    } else {
        let p = isqrt_s(n - 1);
        if (p + 1) * (p + 1) <= n {
            p + 1
        } else {
            p
        }
    }
}

/// `isqrt_s(n)` squares to at most `n`, and is the largest such value.
pub proof fn lemma_isqrt_props(n: int)
    requires
        n >= 0,
    ensures
        isqrt_s(n) >= 0,
        isqrt_s(n) * isqrt_s(n) <= n,
        n < (isqrt_s(n) + 1) * (isqrt_s(n) + 1),
    decreases n,
{
    if n == 0 {
    } else {
        lemma_isqrt_props(n - 1);
        let p = isqrt_s(n - 1);
        if (p + 1) * (p + 1) <= n {
            assert((p + 2) * (p + 2) > (p + 1) * (p + 1)) by (nonlinear_arith)
                requires
                    p >= 0,
            ;
        }
    }
}

/// Any `r` whose square brackets `n` is the integer square root of `n`.
pub proof fn lemma_isqrt_unique(n: int, r: int)
    requires
        n >= 0,
        r >= 0,
        r * r <= n,
        n < (r + 1) * (r + 1),
    ensures
        r == isqrt_s(n),
{
    lemma_isqrt_props(n);
    let q = isqrt_s(n);
    if r < q {
        assert((r + 1) * (r + 1) <= q * q) by (nonlinear_arith)
            requires
                0 <= r,
                r + 1 <= q,
        ;
        assert(false);
    }
    if q < r {
        assert((q + 1) * (q + 1) <= r * r) by (nonlinear_arith)
            requires
                0 <= q,
                q + 1 <= r,
        ;
        assert(false);
    }
}

/// The integer square root is monotone.
pub proof fn lemma_isqrt_mono(n1: int, n2: int)
    requires
        0 <= n1 <= n2,
    ensures
        isqrt_s(n1) <= isqrt_s(n2),
{
    lemma_isqrt_props(n1);
    lemma_isqrt_props(n2);
    let q1 = isqrt_s(n1);
    let q2 = isqrt_s(n2);
    if q2 < q1 {
        assert((q2 + 1) * (q2 + 1) <= q1 * q1) by (nonlinear_arith)
            requires
                0 <= q2,
                q2 + 1 <= q1,
        ;
        assert(false);
    }
}

/// The integer square root of a perfect square.
pub proof fn lemma_isqrt_square(a: int)
    requires
        a >= 0,
    ensures
        isqrt_s(a * a) == a,
{
    lemma_mul_nonnegative(a, a);
    assert(a * a < (a + 1) * (a + 1)) by (nonlinear_arith)
        requires
            a >= 0,
    ;
    lemma_isqrt_unique(a * a, a);
}

/// Integer square root by bisection.
pub fn isqrt_u(n: u128) -> (r: u128)
    requires
        n <= 100_000_000_000_000_000_000_000_000_000_000,
    ensures
        r * r <= n,
        n < (r + 1) * (r + 1),
        r <= 10_000_000_000_000_000,
{
    let mut lo: u128 = 0;
    let mut hi: u128 = 10_000_000_000_000_001;
    proof {
        assert(10_000_000_000_000_001int * 10_000_000_000_000_001int
            > 100_000_000_000_000_000_000_000_000_000_000int) by (nonlinear_arith);
    }
    while lo + 1 < hi
        invariant
            lo < hi <= 10_000_000_000_000_001,
            lo * lo <= n,
            n < hi * hi,
        decreases hi - lo,
    {
        let mid: u128 = lo + (hi - lo) / 2;
        proof {
            assert(mid as int * mid as int <= 10_000_000_000_000_001int
                * 10_000_000_000_000_001int) by (nonlinear_arith)
                requires
                    0 <= mid as int <= 10_000_000_000_000_001int,
            ;
        }
        if mid * mid <= n {
            lo = mid;
        } else {
            hi = mid;
        }
    }
    proof {
        if lo > 10_000_000_000_000_000 {
            assert(lo * lo > n) by (nonlinear_arith)
                requires
                    lo as int > 10_000_000_000_000_000int,
                    n as int <= 100_000_000_000_000_000_000_000_000_000_000int,
            ;
        }
    }
    lo
}

/// Magnitude of a three-component scaled vector: the integer square root of
/// the sum of the squared components, itself again a scaled value.
pub open spec fn s_mag3(x: int, y: int, z: int) -> int {
    isqrt_s(x * x + y * y + z * z)
}

/// Components may be up to one million units in magnitude.
pub const MAG_MAX: i128 = 1_000_000_000_000_000;

pub fn fix_mag3(x: Fix, y: Fix, z: Fix) -> (r: Fix)
    requires
        -MAG_MAX <= x <= MAG_MAX,
        -MAG_MAX <= y <= MAG_MAX,
        -MAG_MAX <= z <= MAG_MAX,
    ensures
        r == s_mag3(x as int, y as int, z as int),
        0 <= r <= 2_000_000_000_000_000,
{
    let xu: u128 = if x < 0 {
        (-x) as u128
    } else {
        x as u128
    };
    let yu: u128 = if y < 0 {
        (-y) as u128
    } else {
        y as u128
    };
    let zu: u128 = if z < 0 {
        (-z) as u128
    } else {
        z as u128
    };
    proof {
        assert(xu as int * xu as int <= MAG_MAX as int * MAG_MAX as int) by (nonlinear_arith)
            requires
                0 <= xu as int <= MAG_MAX as int,
        ;
        assert(yu as int * yu as int <= MAG_MAX as int * MAG_MAX as int) by (nonlinear_arith)
            requires
                0 <= yu as int <= MAG_MAX as int,
        ;
        assert(zu as int * zu as int <= MAG_MAX as int * MAG_MAX as int) by (nonlinear_arith)
            requires
                0 <= zu as int <= MAG_MAX as int,
        ;
        assert(xu as int * xu as int == x as int * x as int) by (nonlinear_arith)
            requires
                xu as int == absv(x as int),
        ;
        assert(yu as int * yu as int == y as int * y as int) by (nonlinear_arith)
            requires
                yu as int == absv(y as int),
        ;
        assert(zu as int * zu as int == z as int * z as int) by (nonlinear_arith)
            requires
                zu as int == absv(z as int),
        ;
    }
    let sum: u128 = xu * xu + yu * yu + zu * zu;
    let r: u128 = isqrt_u(sum);
    proof {
        lemma_isqrt_unique(sum as int, r as int);
        if r > 2_000_000_000_000_000 {
            assert(r as int * r as int > 3 * (MAG_MAX as int * MAG_MAX as int)) by (nonlinear_arith)
                requires
                    r as int > 2_000_000_000_000_000int,
            ;
        }
    }
    r as i128
}

/// No component of a vector exceeds the vector's magnitude.
pub proof fn lemma_mag3_component(x: int, y: int, z: int)
    ensures
        s_mag3(x, y, z) >= 0,
        absv(x) <= s_mag3(x, y, z),
        absv(y) <= s_mag3(x, y, z),
        absv(z) <= s_mag3(x, y, z),
{
    assert(x * x == absv(x) * absv(x)) by (nonlinear_arith);
    assert(y * y == absv(y) * absv(y)) by (nonlinear_arith);
    assert(z * z == absv(z) * absv(z)) by (nonlinear_arith);
    lemma_mul_nonnegative(absv(x), absv(x));
    lemma_mul_nonnegative(absv(y), absv(y));
    lemma_mul_nonnegative(absv(z), absv(z));
    lemma_isqrt_square(absv(x));
    lemma_isqrt_mono(absv(x) * absv(x), x * x + y * y + z * z);
    lemma_isqrt_square(absv(y));
    lemma_isqrt_mono(absv(y) * absv(y), x * x + y * y + z * z);
    lemma_isqrt_square(absv(z));
    lemma_isqrt_mono(absv(z) * absv(z), x * x + y * y + z * z);
    lemma_isqrt_props(x * x + y * y + z * z);
}

/// A vector whose components are bounded by `m` has magnitude below `2 m`.
pub proof fn lemma_mag3_upper(x: int, y: int, z: int, m: int)
    requires
        -m <= x <= m,
        -m <= y <= m,
        -m <= z <= m,
        0 <= m,
    ensures
        0 <= s_mag3(x, y, z) <= 2 * m,
{
    assert(0 <= x * x <= m * m) by (nonlinear_arith)
        requires
            -m <= x <= m,
    ;
    assert(0 <= y * y <= m * m) by (nonlinear_arith)
        requires
            -m <= y <= m,
    ;
    assert(0 <= z * z <= m * m) by (nonlinear_arith)
        requires
            -m <= z <= m,
    ;
    lemma_isqrt_props(x * x + y * y + z * z);
    let q = s_mag3(x, y, z);
    if q > 2 * m {
        assert(q * q > 3 * (m * m)) by (nonlinear_arith)
            requires
                q > 2 * m,
                m >= 0,
        ;
        assert(false);
    }
}

/// Truncated Taylor polynomial for `e` to a small nonnegative power `f`.
pub open spec fn exp_taylor_s(f: int) -> int {
    let t1 = f;
    let t2 = s_idiv(s_mul(t1, f), 2);
    let t3 = s_idiv(s_mul(t2, f), 3);
    let t4 = s_idiv(s_mul(t3, f), 4);
    let t5 = s_idiv(s_mul(t4, f), 5);
    let t6 = s_idiv(s_mul(t5, f), 6);
    let t7 = s_idiv(s_mul(t6, f), 7);
    let t8 = s_idiv(s_mul(t7, f), 8);
    let t9 = s_idiv(s_mul(t8, f), 9);
    (SCALE as int) + t1 + t2 + t3 + t4 + t5 + t6 + t7 + t8 + t9
}

/// `e` to a nonnegative power `x`: the Taylor polynomial at `x / 128`,
/// squared seven times.
pub open spec fn exp_pos_s(x: int) -> int {
    let f = s_idiv(x, 128);
    let a0 = exp_taylor_s(f);
    let a1 = s_mul(a0, a0);
    let a2 = s_mul(a1, a1);
    let a3 = s_mul(a2, a2);
    let a4 = s_mul(a3, a3);
    let a5 = s_mul(a4, a4);
    let a6 = s_mul(a5, a5);
    s_mul(a6, a6)
}

/// `e` to any power in the supported window: reciprocal for negative
/// arguments, zero once the true value falls below the scale's resolution.
pub open spec fn s_exp(x: int) -> int {
    if x >= 0 {
        exp_pos_s(x)
    } else if x >= -21 * (SCALE as int) {
        s_div(SCALE as int, exp_pos_s(-x))
    } else {
        0
    }
}

/// Bounds on the Taylor polynomial over the reduced argument range.
pub proof fn lemma_exp_taylor_bounds(f: int)
    requires
        0 <= f <= 170_000_000,
    ensures
        (SCALE as int) + f <= exp_taylor_s(f) <= 1_200_000_000,
        f <= 70_312_500 ==> exp_taylor_s(f) <= 1_073_000_000,
{
    let t1 = f;
    let t2 = s_idiv(s_mul(t1, f), 2);
    let t3 = s_idiv(s_mul(t2, f), 3);
    let t4 = s_idiv(s_mul(t3, f), 4);
    let t5 = s_idiv(s_mul(t4, f), 5);
    let t6 = s_idiv(s_mul(t5, f), 6);
    let t7 = s_idiv(s_mul(t6, f), 7);
    let t8 = s_idiv(s_mul(t7, f), 8);
    let t9 = s_idiv(s_mul(t8, f), 9);
    lemma_smul_bound(t1, f, 170_000_000, 170_000_000);
    lemma_smul_nonneg(t1, f);
    lemma_sidiv_shrink(s_mul(t1, f), 2);
    lemma_div_is_ordered(s_mul(t1, f), 28_900_000, 2);
    lemma_smul_bound(t2, f, 14_450_000, 170_000_000);
    lemma_smul_nonneg(t2, f);
    lemma_sidiv_shrink(s_mul(t2, f), 3);
    lemma_div_is_ordered(s_mul(t2, f), 2_456_500, 3);
    lemma_smul_bound(t3, f, 818_833, 170_000_000);
    lemma_smul_nonneg(t3, f);
    lemma_sidiv_shrink(s_mul(t3, f), 4);
    lemma_div_is_ordered(s_mul(t3, f), 139_201, 4);
    lemma_smul_bound(t4, f, 34_800, 170_000_000);
    lemma_smul_nonneg(t4, f);
    lemma_sidiv_shrink(s_mul(t4, f), 5);
    lemma_div_is_ordered(s_mul(t4, f), 5_916, 5);
    lemma_smul_bound(t5, f, 1_183, 170_000_000);
    lemma_smul_nonneg(t5, f);
    lemma_sidiv_shrink(s_mul(t5, f), 6);
    lemma_div_is_ordered(s_mul(t5, f), 201, 6);
    lemma_smul_bound(t6, f, 33, 170_000_000);
    lemma_smul_nonneg(t6, f);
    lemma_sidiv_shrink(s_mul(t6, f), 7);
    lemma_div_is_ordered(s_mul(t6, f), 5, 7);
    lemma_smul_bound(t7, f, 0, 170_000_000);
    lemma_smul_nonneg(t7, f);
    lemma_sidiv_shrink(s_mul(t7, f), 8);
    lemma_smul_bound(t8, f, 0, 170_000_000);
    lemma_smul_nonneg(t8, f);
    lemma_sidiv_shrink(s_mul(t8, f), 9);
    if f <= 70_312_500 {
        lemma_smul_bound(t1, f, 70_312_500, 70_312_500);
        lemma_div_is_ordered(s_mul(t1, f), 4_943_847, 2);
        lemma_smul_bound(t2, f, 2_471_923, 70_312_500);
        lemma_div_is_ordered(s_mul(t2, f), 173_807, 3);
        lemma_smul_bound(t3, f, 57_935, 70_312_500);
        lemma_div_is_ordered(s_mul(t3, f), 4_073, 4);
        lemma_smul_bound(t4, f, 1_018, 70_312_500);
        lemma_div_is_ordered(s_mul(t4, f), 71, 5);
        lemma_smul_bound(t5, f, 14, 70_312_500);
        lemma_div_is_ordered(s_mul(t5, f), 0, 6);
    }
}

/// The Taylor polynomial is monotone on the reduced argument range.
pub proof fn lemma_exp_taylor_mono(f1: int, f2: int)
    requires
        0 <= f1 <= f2 <= 170_000_000,
    ensures
        exp_taylor_s(f1) <= exp_taylor_s(f2),
{
    lemma_exp_taylor_bounds(f1);
    lemma_exp_taylor_bounds(f2);
    let a2 = s_idiv(s_mul(f1, f1), 2);
    let b2 = s_idiv(s_mul(f2, f2), 2);
    lemma_smul_mono2(f1, f2, f1, f2);
    lemma_sidiv_mono(s_mul(f1, f1), s_mul(f2, f2), 2);
    lemma_smul_nonneg(f1, f1);
    lemma_sidiv_shrink(s_mul(f1, f1), 2);
    let a3 = s_idiv(s_mul(a2, f1), 3);
    let b3 = s_idiv(s_mul(b2, f2), 3);
    lemma_smul_mono2(a2, b2, f1, f2);
    lemma_sidiv_mono(s_mul(a2, f1), s_mul(b2, f2), 3);
    lemma_sidiv_shrink(s_mul(a2, f1), 3);
    let a4 = s_idiv(s_mul(a3, f1), 4);
    let b4 = s_idiv(s_mul(b3, f2), 4);
    lemma_smul_mono2(a3, b3, f1, f2);
    lemma_sidiv_mono(s_mul(a3, f1), s_mul(b3, f2), 4);
    lemma_sidiv_shrink(s_mul(a3, f1), 4);
    let a5 = s_idiv(s_mul(a4, f1), 5);
    let b5 = s_idiv(s_mul(b4, f2), 5);
    lemma_smul_mono2(a4, b4, f1, f2);
    lemma_sidiv_mono(s_mul(a4, f1), s_mul(b4, f2), 5);
    lemma_sidiv_shrink(s_mul(a4, f1), 5);
    let a6 = s_idiv(s_mul(a5, f1), 6);
    let b6 = s_idiv(s_mul(b5, f2), 6);
    lemma_smul_mono2(a5, b5, f1, f2);
    lemma_sidiv_mono(s_mul(a5, f1), s_mul(b5, f2), 6);
    lemma_sidiv_shrink(s_mul(a5, f1), 6);
    let a7 = s_idiv(s_mul(a6, f1), 7);
    let b7 = s_idiv(s_mul(b6, f2), 7);
    lemma_smul_mono2(a6, b6, f1, f2);
    lemma_sidiv_mono(s_mul(a6, f1), s_mul(b6, f2), 7);
    lemma_sidiv_shrink(s_mul(a6, f1), 7);
    let a8 = s_idiv(s_mul(a7, f1), 8);
    let b8 = s_idiv(s_mul(b7, f2), 8);
    lemma_smul_mono2(a7, b7, f1, f2);
    lemma_sidiv_mono(s_mul(a7, f1), s_mul(b7, f2), 8);
    lemma_sidiv_shrink(s_mul(a7, f1), 8);
    lemma_smul_mono2(a8, b8, f1, f2);
    lemma_sidiv_mono(s_mul(a8, f1), s_mul(b8, f2), 9);
    lemma_sidiv_shrink(s_mul(a8, f1), 9);
}

/// Lower bound: raising `e` to a nonnegative power never drops below one.
pub proof fn lemma_exp_pos_lb(x: int)
    requires
        0 <= x,
    ensures
        exp_pos_s(x) >= SCALE,
{
    let f = s_idiv(x, 128);
    lemma_div_pos_is_pos(x, 128);
    let t1 = f;
    let t2 = s_idiv(s_mul(t1, f), 2);
    let t3 = s_idiv(s_mul(t2, f), 3);
    let t4 = s_idiv(s_mul(t3, f), 4);
    let t5 = s_idiv(s_mul(t4, f), 5);
    let t6 = s_idiv(s_mul(t5, f), 6);
    let t7 = s_idiv(s_mul(t6, f), 7);
    let t8 = s_idiv(s_mul(t7, f), 8);
    lemma_smul_nonneg(t1, f);
    lemma_sidiv_shrink(s_mul(t1, f), 2);
    lemma_smul_nonneg(t2, f);
    lemma_sidiv_shrink(s_mul(t2, f), 3);
    lemma_smul_nonneg(t3, f);
    lemma_sidiv_shrink(s_mul(t3, f), 4);
    lemma_smul_nonneg(t4, f);
    lemma_sidiv_shrink(s_mul(t4, f), 5);
    lemma_smul_nonneg(t5, f);
    lemma_sidiv_shrink(s_mul(t5, f), 6);
    lemma_smul_nonneg(t6, f);
    lemma_sidiv_shrink(s_mul(t6, f), 7);
    lemma_smul_nonneg(t7, f);
    lemma_sidiv_shrink(s_mul(t7, f), 8);
    lemma_smul_nonneg(t8, f);
    lemma_sidiv_shrink(s_mul(t8, f), 9);
    let a0 = exp_taylor_s(f);
    let a1 = s_mul(a0, a0);
    let a2 = s_mul(a1, a1);
    let a3 = s_mul(a2, a2);
    let a4 = s_mul(a3, a3);
    let a5 = s_mul(a4, a4);
    let a6 = s_mul(a5, a5);
    lemma_smul_sq_ge_scale(a0);
    lemma_smul_sq_ge_scale(a1);
    lemma_smul_sq_ge_scale(a2);
    lemma_smul_sq_ge_scale(a3);
    lemma_smul_sq_ge_scale(a4);
    lemma_smul_sq_ge_scale(a5);
    lemma_smul_sq_ge_scale(a6);
}

/// Upper bounds for raising `e` to a nonnegative power.
pub proof fn lemma_exp_pos_ub(x: int)
    requires
        0 <= x <= 21_000_000_000,
    ensures
        exp_pos_s(x) <= 13_700_000_000_000_000_000,
        x <= 9_000_000_000 ==> exp_pos_s(x) <= 8_300_000_000_000,
{
    let f = s_idiv(x, 128);
    lemma_div_pos_is_pos(x, 128);
    lemma_div_is_ordered(x, 21_000_000_000, 128);
    lemma_exp_taylor_bounds(f);
    let a0 = exp_taylor_s(f);
    let a1 = s_mul(a0, a0);
    let a2 = s_mul(a1, a1);
    let a3 = s_mul(a2, a2);
    let a4 = s_mul(a3, a3);
    let a5 = s_mul(a4, a4);
    let a6 = s_mul(a5, a5);
    lemma_smul_bound(a0, a0, 1_200_000_000, 1_200_000_000);
    lemma_smul_bound(a1, a1, 1_440_000_000, 1_440_000_000);
    lemma_smul_bound(a2, a2, 2_073_600_000, 2_073_600_000);
    lemma_smul_bound(a3, a3, 4_299_816_960, 4_299_816_960);
    lemma_smul_bound(a4, a4, 18_488_430_000, 18_488_430_000);
    lemma_smul_bound(a5, a5, 341_823_000_000, 341_823_000_000);
    lemma_smul_bound(a6, a6, 116_844_000_000_000, 116_844_000_000_000);
    lemma_exp_pos_lb(x);
    if x <= 9_000_000_000 {
        lemma_div_is_ordered(x, 9_000_000_000, 128);
        lemma_smul_bound(a0, a0, 1_073_000_000, 1_073_000_000);
        lemma_smul_bound(a1, a1, 1_151_329_000, 1_151_329_000);
        lemma_smul_bound(a2, a2, 1_325_559_000, 1_325_559_000);
        lemma_smul_bound(a3, a3, 1_757_107_000, 1_757_107_000);
        lemma_smul_bound(a4, a4, 3_087_426_000, 3_087_426_000);
        lemma_smul_bound(a5, a5, 9_532_200_000, 9_532_200_000);
        lemma_smul_bound(a6, a6, 90_863_000_000, 90_863_000_000);
    }
}

/// Raising `e` to a nonnegative power is monotone.
pub proof fn lemma_exp_pos_mono(x1: int, x2: int)
    requires
        0 <= x1 <= x2 <= 21_000_000_000,
    ensures
        exp_pos_s(x1) <= exp_pos_s(x2),
{
    let f1 = s_idiv(x1, 128);
    let f2 = s_idiv(x2, 128);
    lemma_sidiv_mono(x1, x2, 128);
    lemma_div_pos_is_pos(x1, 128);
    lemma_div_is_ordered(x2, 21_000_000_000, 128);
    lemma_exp_taylor_mono(f1, f2);
    lemma_exp_taylor_bounds(f1);
    let a0 = exp_taylor_s(f1);
    let b0 = exp_taylor_s(f2);
    let a1 = s_mul(a0, a0);
    let b1 = s_mul(b0, b0);
    let a2 = s_mul(a1, a1);
    let b2 = s_mul(b1, b1);
    let a3 = s_mul(a2, a2);
    let b3 = s_mul(b2, b2);
    let a4 = s_mul(a3, a3);
    let b4 = s_mul(b3, b3);
    let a5 = s_mul(a4, a4);
    let b5 = s_mul(b4, b4);
    let a6 = s_mul(a5, a5);
    let b6 = s_mul(b5, b5);
    lemma_smul_mono2(a0, b0, a0, b0);
    lemma_smul_mono2(a1, b1, a1, b1);
    lemma_smul_mono2(a2, b2, a2, b2);
    lemma_smul_mono2(a3, b3, a3, b3);
    lemma_smul_mono2(a4, b4, a4, b4);
    lemma_smul_mono2(a5, b5, a5, b5);
    lemma_smul_mono2(a6, b6, a6, b6);
}

/// The fixed-point exponential is never negative.
pub proof fn lemma_exp_nonneg(x: int)
    ensures
        s_exp(x) >= 0,
{
    if x >= 0 {
        lemma_exp_pos_lb(x);
    } else if x >= -21 * (SCALE as int) {
        lemma_exp_pos_lb(-x);
        lemma_sdiv_nonneg(SCALE as int, exp_pos_s(-x));
    }
}

/// The fixed-point exponential is monotone over its whole domain.
pub proof fn lemma_exp_mono(x1: int, x2: int)
    requires
        x1 <= x2 <= 9_000_000_000,
    ensures
        s_exp(x1) <= s_exp(x2),
{
    let s = SCALE as int;
    if x1 >= 0 {
        lemma_exp_pos_mono(x1, x2);
    } else if x2 >= 0 {
        if x1 >= -21 * s {
            lemma_exp_pos_lb(-x1);
            lemma_sdiv_antitone_den(s, s, exp_pos_s(-x1));
            lemma_sdiv_nonneg(s, exp_pos_s(-x1));
            vstd::arithmetic::div_mod::lemma_div_by_multiple(s, s);
        }
        lemma_exp_pos_lb(x2);
    } else {
        if x1 >= -21 * s {
            lemma_exp_pos_mono(-x2, -x1);
            lemma_exp_pos_lb(-x2);
            lemma_sdiv_antitone_den(s, exp_pos_s(-x2), exp_pos_s(-x1));
        } else if x2 >= -21 * s {
            lemma_exp_pos_lb(-x2);
            lemma_sdiv_nonneg(s, exp_pos_s(-x2));
        }
    }
}

/// The Taylor polynomial for `e` to a small power, in executable form.
fn exp_taylor(f: Fix) -> (r: Fix)
    requires
        0 <= f <= 170_000_000,
    ensures
        r == exp_taylor_s(f as int),
        SCALE <= r <= 1_200_000_000,
{
    proof {
        lemma_exp_taylor_bounds(f as int);
        let t1 = f as int;
        let t2 = s_idiv(s_mul(t1, f as int), 2);
        let t3 = s_idiv(s_mul(t2, f as int), 3);
        let t4 = s_idiv(s_mul(t3, f as int), 4);
        let t5 = s_idiv(s_mul(t4, f as int), 5);
        let t6 = s_idiv(s_mul(t5, f as int), 6);
        let t7 = s_idiv(s_mul(t6, f as int), 7);
        let t8 = s_idiv(s_mul(t7, f as int), 8);
        lemma_smul_bound(t1, f as int, 170_000_000, 170_000_000);
        lemma_smul_nonneg(t1, f as int);
        lemma_sidiv_shrink(s_mul(t1, f as int), 2);
        lemma_smul_bound(t2, f as int, 28_900_000, 170_000_000);
        lemma_smul_nonneg(t2, f as int);
        lemma_sidiv_shrink(s_mul(t2, f as int), 3);
        lemma_smul_bound(t3, f as int, 28_900_000, 170_000_000);
        lemma_smul_nonneg(t3, f as int);
        lemma_sidiv_shrink(s_mul(t3, f as int), 4);
        lemma_smul_bound(t4, f as int, 28_900_000, 170_000_000);
        lemma_smul_nonneg(t4, f as int);
        lemma_sidiv_shrink(s_mul(t4, f as int), 5);
        lemma_smul_bound(t5, f as int, 28_900_000, 170_000_000);
        lemma_smul_nonneg(t5, f as int);
        lemma_sidiv_shrink(s_mul(t5, f as int), 6);
        lemma_smul_bound(t6, f as int, 28_900_000, 170_000_000);
        lemma_smul_nonneg(t6, f as int);
        lemma_sidiv_shrink(s_mul(t6, f as int), 7);
        lemma_smul_bound(t7, f as int, 28_900_000, 170_000_000);
        lemma_smul_nonneg(t7, f as int);
        lemma_sidiv_shrink(s_mul(t7, f as int), 8);
        lemma_smul_bound(t8, f as int, 28_900_000, 170_000_000);
        lemma_smul_nonneg(t8, f as int);
        lemma_sidiv_shrink(s_mul(t8, f as int), 9);
    }
    let t1: i128 = f;
    let t2: i128 = int_div(fix_mul(t1, f), 2);
    let t3: i128 = int_div(fix_mul(t2, f), 3);
    let t4: i128 = int_div(fix_mul(t3, f), 4);
    let t5: i128 = int_div(fix_mul(t4, f), 5);
    let t6: i128 = int_div(fix_mul(t5, f), 6);
    let t7: i128 = int_div(fix_mul(t6, f), 7);
    let t8: i128 = int_div(fix_mul(t7, f), 8);
    let t9: i128 = int_div(fix_mul(t8, f), 9);
    SCALE + t1 + t2 + t3 + t4 + t5 + t6 + t7 + t8 + t9
}

/// `e` to a nonnegative power, executable form.
fn exp_pos(x: Fix) -> (r: Fix)
    requires
        0 <= x <= 21_000_000_000,
    ensures
        r == exp_pos_s(x as int),
        SCALE <= r <= 13_700_000_000_000_000_000,
{
    proof {
        lemma_exp_pos_lb(x as int);
        lemma_exp_pos_ub(x as int);
        let f = s_idiv(x as int, 128);
        lemma_div_pos_is_pos(x as int, 128);
        lemma_div_is_ordered(x as int, 21_000_000_000, 128);
        lemma_exp_taylor_bounds(f);
        let a0 = exp_taylor_s(f);
        let a1 = s_mul(a0, a0);
        let a2 = s_mul(a1, a1);
        let a3 = s_mul(a2, a2);
        let a4 = s_mul(a3, a3);
        let a5 = s_mul(a4, a4);
        lemma_smul_bound(a0, a0, 1_200_000_000, 1_200_000_000);
        lemma_smul_bound(a1, a1, 1_440_000_000, 1_440_000_000);
        lemma_smul_bound(a2, a2, 2_073_600_000, 2_073_600_000);
        lemma_smul_bound(a3, a3, 4_299_816_960, 4_299_816_960);
        lemma_smul_bound(a4, a4, 18_488_430_000, 18_488_430_000);
        lemma_smul_bound(a5, a5, 341_823_000_000, 341_823_000_000);
        lemma_smul_nonneg(a0, a0);
        lemma_smul_nonneg(a1, a1);
        lemma_smul_nonneg(a2, a2);
        lemma_smul_nonneg(a3, a3);
        lemma_smul_nonneg(a4, a4);
        lemma_smul_nonneg(a5, a5);
    }
    let f: i128 = int_div(x, 128);
    let a0: i128 = exp_taylor(f);
    let a1: i128 = fix_mul(a0, a0);
    let a2: i128 = fix_mul(a1, a1);
    let a3: i128 = fix_mul(a2, a2);
    let a4: i128 = fix_mul(a3, a3);
    let a5: i128 = fix_mul(a4, a4);
    let a6: i128 = fix_mul(a5, a5);
    fix_mul(a6, a6)
}

/// Raising `e` to the zeroth power gives exactly one.
pub proof fn lemma_exp_pos_zero()
    ensures
        exp_pos_s(0) == SCALE as int,
{
    assert(s_idiv(0, 128) == 0);
    crate::fixed::lemma_smul_zero(0);
    assert(s_idiv(0, 2) == 0);
    assert(s_idiv(0, 3) == 0);
    assert(s_idiv(0, 4) == 0);
    assert(s_idiv(0, 5) == 0);
    assert(s_idiv(0, 6) == 0);
    assert(s_idiv(0, 7) == 0);
    assert(s_idiv(0, 8) == 0);
    assert(s_idiv(0, 9) == 0);
    assert(exp_taylor_s(0) == SCALE as int);
    crate::fixed::lemma_smul_scale(SCALE as int);
}

/// The fixed-point exponential.
pub fn exp_fix(x: Fix) -> (r: Fix)
    requires
        -1_000_000_000_000_000_000_000_000 <= x <= 9_000_000_000,
    ensures
        r == s_exp(x as int),
        x >= 0 ==> SCALE <= r <= 8_300_000_000_000,
        x <= 0 ==> 0 <= r <= SCALE,
{
    if x >= 0 {
        proof {
            lemma_exp_pos_ub(x as int);
            if x == 0 {
                lemma_exp_pos_zero();
            }
        }
        exp_pos(x)
    } else if x >= -21_000_000_000 {
        let y: i128 = exp_pos(-x);
        proof {
            lemma_sdiv_nonneg(SCALE as int, y as int);
            lemma_sdiv_antitone_den(SCALE as int, SCALE as int, y as int);
            vstd::arithmetic::div_mod::lemma_div_by_multiple(SCALE as int, SCALE as int);
        }
        fix_div(SCALE, y)
    } else {
        0
    }
}

} // verus!
