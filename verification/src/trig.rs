//! Sine and cosine of angles given in degrees, over scaled integers.
//! An angle is reduced to a quadrant exactly, so the cardinal angles keep
//! exact values; within a quadrant a truncated Taylor polynomial is used.
use vstd::prelude::*;

verus! {

use crate::fixed::Fix;
use crate::fixed::SCALE;
use crate::fixed::s_mul;
use crate::fixed::s_idiv;
use crate::fixed::fix_mul;
use crate::fixed::int_div;
use crate::fixed::lemma_smul_bound;
use crate::fixed::lemma_smul_nonneg;
use crate::fixed::lemma_smul_le_one;
use crate::fixed::lemma_sidiv_shrink;
use vstd::arithmetic::div_mod::lemma_div_is_ordered;
use vstd::arithmetic::div_mod::lemma_mod_division_less_than_divisor;
use vstd::arithmetic::div_mod::lemma_mod_multiples_basic;
use vstd::arithmetic::div_mod::lemma_fundamental_div_mod;
use vstd::arithmetic::div_mod::lemma_fundamental_div_mod_converse_mod;

/// The circle constant, scaled.
pub const PI_N: i128 = 3_141_592_654;

/// A full turn, a half turn, a quarter turn and an eighth of a turn, in
/// scaled degrees.
pub const DEG_360: i128 = 360_000_000_000;

pub const DEG_270: i128 = 270_000_000_000;

pub const DEG_180: i128 = 180_000_000_000;

pub const DEG_90: i128 = 90_000_000_000;

pub const DEG_45: i128 = 45_000_000_000;

/// An angle reduced to one turn, in scaled degrees.
pub open spec fn s_norm_deg(d: int) -> int {
    d % (DEG_360 as int)
}

/// Scaled degrees to scaled radians.
pub open spec fn s_rad(a: int) -> int {
    s_idiv(s_mul(a, PI_N as int), 180)
}

/// Truncated Taylor polynomial for the sine of an angle within the first
/// eighth of a turn, in scaled radians.
pub open spec fn sin_t_s(r: int) -> int {
    let x2 = s_mul(r, r);
    let t3 = s_idiv(s_mul(r, x2), 6);
    let t5 = s_idiv(s_mul(t3, x2), 20);
    let t7 = s_idiv(s_mul(t5, x2), 42);
    let t9 = s_idiv(s_mul(t7, x2), 72);
    let t11 = s_idiv(s_mul(t9, x2), 110);
    r - t3 + t5 - t7 + t9 - t11
}

/// Truncated Taylor polynomial for the cosine of such an angle.
pub open spec fn cos_t_s(r: int) -> int {
    let x2 = s_mul(r, r);
    let u2 = s_idiv(x2, 2);
    let u4 = s_idiv(s_mul(u2, x2), 12);
    let u6 = s_idiv(s_mul(u4, x2), 30);
    let u8 = s_idiv(s_mul(u6, x2), 56);
    let u10 = s_idiv(s_mul(u8, x2), 90);
    (SCALE as int) - u2 + u4 - u6 + u8 - u10
}

/// Sine over the first quarter turn, folded onto the first eighth.
pub open spec fn s_sin_q(a: int) -> int {
    if a <= DEG_45 as int {
        sin_t_s(s_rad(a))
    } else {
        cos_t_s(s_rad(DEG_90 as int - a))
    }
}

/// Cosine over the first quarter turn, folded onto the first eighth.
pub open spec fn s_cos_q(a: int) -> int {
    if a <= DEG_45 as int {
        cos_t_s(s_rad(a))
    } else {
        sin_t_s(s_rad(DEG_90 as int - a))
    }
}

/// Sine of an angle in scaled degrees.
pub open spec fn s_sind(d: int) -> int {
    let m = s_norm_deg(d);
    if m <= DEG_90 as int {
        s_sin_q(m)
    } else if m <= DEG_180 as int {
        s_sin_q(DEG_180 as int - m)
    } else if m <= DEG_270 as int {
        -s_sin_q(m - DEG_180 as int)
    } else {
        -s_sin_q(DEG_360 as int - m)
    }
}

/// Cosine of an angle in scaled degrees.
pub open spec fn s_cosd(d: int) -> int {
    let m = s_norm_deg(d);
    if m <= DEG_90 as int {
        s_cos_q(m)
    } else if m <= DEG_180 as int {
        -s_cos_q(DEG_180 as int - m)
    } else if m <= DEG_270 as int {
        -s_cos_q(m - DEG_180 as int)
    } else {
        s_cos_q(DEG_360 as int - m)
    }
}

/// Reduce an angle to one turn.
fn norm_deg(d: Fix) -> (r: Fix)
    requires
        -1_000_000_000_000_000_000_000_000 <= d <= 1_000_000_000_000_000_000_000_000,
    ensures
        r == s_norm_deg(d as int),
        0 <= r < DEG_360,
{
    if d >= 0 {
        let m: u128 = (d as u128) % (DEG_360 as u128);
        proof {
            lemma_mod_division_less_than_divisor(d as int, DEG_360 as int);
        }
        m as i128
    } else {
        let k: u128 = ((-d) as u128) % (DEG_360 as u128);
        proof {
            lemma_mod_division_less_than_divisor(-(d as int), DEG_360 as int);
            lemma_fundamental_div_mod(-(d as int), DEG_360 as int);
            let q0 = -(d as int) / (DEG_360 as int);
            if k == 0 {
                lemma_mod_multiples_basic(-q0, DEG_360 as int);
                assert(d as int == (-q0) * (DEG_360 as int));
            } else {
                assert(d as int == (-q0 - 1) * (DEG_360 as int) + (DEG_360 as int - k)) by {
                    assert(-(d as int) == (DEG_360 as int) * q0 + k);
                    assert((-q0 - 1) * (DEG_360 as int) == -(q0 * (DEG_360 as int))
                        - (DEG_360 as int)) by (nonlinear_arith);
                    assert((DEG_360 as int) * q0 == q0 * (DEG_360 as int)) by (nonlinear_arith);
                }
                lemma_fundamental_div_mod_converse_mod(
                    d as int,
                    DEG_360 as int,
                    -q0 - 1,
                    DEG_360 as int - k,
                );
            }
        }
        if k == 0 {
            0
        } else {
            (DEG_360 as u128 - k) as i128
        }
    }
}

/// Scaled degrees to scaled radians.
fn rad_of(a: Fix) -> (r: Fix)
    requires
        0 <= a <= DEG_45,
    ensures
        r == s_rad(a as int),
        0 <= r <= 786_000_000,
{
    proof {
        lemma_smul_bound(a as int, PI_N as int, DEG_45 as int, PI_N as int);
        lemma_smul_nonneg(a as int, PI_N as int);
        lemma_sidiv_shrink(s_mul(a as int, PI_N as int), 180);
        lemma_div_is_ordered(s_mul(a as int, PI_N as int), 141_371_669_430, 180);
    }
    int_div(fix_mul(a, PI_N), 180)
}

/// Bounds for the sine polynomial.
proof fn lemma_sin_t_bounds(r: int)
    requires
        0 <= r <= 786_000_000,
    ensures
        0 <= sin_t_s(r) <= SCALE as int,
{
    let x2 = s_mul(r, r);
    let t3 = s_idiv(s_mul(r, x2), 6);
    let t5 = s_idiv(s_mul(t3, x2), 20);
    let t7 = s_idiv(s_mul(t5, x2), 42);
    let t9 = s_idiv(s_mul(t7, x2), 72);
    let t11 = s_idiv(s_mul(t9, x2), 110);
    lemma_smul_bound(r, r, 786_000_000, 786_000_000);
    lemma_smul_nonneg(r, r);
    lemma_smul_le_one(r, x2);
    lemma_sidiv_shrink(s_mul(r, x2), 6);
    lemma_smul_bound(r, x2, 786_000_000, 618_000_000);
    lemma_div_is_ordered(s_mul(r, x2), 485_748_000, 6);
    lemma_smul_le_one(t3, x2);
    lemma_sidiv_shrink(s_mul(t3, x2), 20);
    lemma_smul_bound(t3, x2, 80_958_000, 618_000_000);
    lemma_div_is_ordered(s_mul(t3, x2), 50_032_044, 20);
    lemma_smul_le_one(t5, x2);
    lemma_sidiv_shrink(s_mul(t5, x2), 42);
    lemma_smul_le_one(t7, x2);
    lemma_sidiv_shrink(s_mul(t7, x2), 72);
    lemma_smul_le_one(t9, x2);
    lemma_sidiv_shrink(s_mul(t9, x2), 110);
}

/// Bounds for the cosine polynomial.
proof fn lemma_cos_t_bounds(r: int)
    requires
        0 <= r <= 786_000_000,
    ensures
        0 <= cos_t_s(r) <= SCALE as int,
{
    let x2 = s_mul(r, r);
    let u2 = s_idiv(x2, 2);
    let u4 = s_idiv(s_mul(u2, x2), 12);
    let u6 = s_idiv(s_mul(u4, x2), 30);
    let u8 = s_idiv(s_mul(u6, x2), 56);
    let u10 = s_idiv(s_mul(u8, x2), 90);
    lemma_smul_bound(r, r, 786_000_000, 786_000_000);
    lemma_smul_nonneg(r, r);
    lemma_sidiv_shrink(x2, 2);
    lemma_div_is_ordered(x2, 618_000_000, 2);
    lemma_smul_le_one(u2, x2);
    lemma_sidiv_shrink(s_mul(u2, x2), 12);
    lemma_smul_bound(u2, x2, 309_000_000, 618_000_000);
    lemma_div_is_ordered(s_mul(u2, x2), 190_962_000, 12);
    lemma_smul_le_one(u4, x2);
    lemma_sidiv_shrink(s_mul(u4, x2), 30);
    lemma_smul_bound(u4, x2, 15_913_500, 618_000_000);
    lemma_div_is_ordered(s_mul(u4, x2), 9_834_543, 30);
    lemma_smul_le_one(u6, x2);
    lemma_sidiv_shrink(s_mul(u6, x2), 56);
    lemma_smul_le_one(u8, x2);
    lemma_sidiv_shrink(s_mul(u8, x2), 90);
}

/// The sine polynomial, executable form.
fn sin_t(r: Fix) -> (v: Fix)
    requires
        0 <= r <= 786_000_000,
    ensures
        v == sin_t_s(r as int),
        0 <= v <= SCALE,
{
    proof {
        lemma_sin_t_bounds(r as int);
        let x2 = s_mul(r as int, r as int);
        let t3 = s_idiv(s_mul(r as int, x2), 6);
        let t5 = s_idiv(s_mul(t3, x2), 20);
        let t7 = s_idiv(s_mul(t5, x2), 42);
        let t9 = s_idiv(s_mul(t7, x2), 72);
        lemma_smul_bound(r as int, r as int, 786_000_000, 786_000_000);
        lemma_smul_nonneg(r as int, r as int);
        lemma_smul_le_one(r as int, x2);
        lemma_sidiv_shrink(s_mul(r as int, x2), 6);
        lemma_smul_le_one(t3, x2);
        lemma_sidiv_shrink(s_mul(t3, x2), 20);
        lemma_smul_le_one(t5, x2);
        lemma_sidiv_shrink(s_mul(t5, x2), 42);
        lemma_smul_le_one(t7, x2);
        lemma_sidiv_shrink(s_mul(t7, x2), 72);
        lemma_smul_le_one(t9, x2);
        lemma_sidiv_shrink(s_mul(t9, x2), 110);
    }
    let x2: i128 = fix_mul(r, r);
    let t3: i128 = int_div(fix_mul(r, x2), 6);
    let t5: i128 = int_div(fix_mul(t3, x2), 20);
    let t7: i128 = int_div(fix_mul(t5, x2), 42);
    let t9: i128 = int_div(fix_mul(t7, x2), 72);
    let t11: i128 = int_div(fix_mul(t9, x2), 110);
    r - t3 + t5 - t7 + t9 - t11
}

/// The cosine polynomial, executable form.
fn cos_t(r: Fix) -> (v: Fix)
    requires
        0 <= r <= 786_000_000,
    ensures
        v == cos_t_s(r as int),
        0 <= v <= SCALE,
{
    proof {
        lemma_cos_t_bounds(r as int);
        let x2 = s_mul(r as int, r as int);
        let u2 = s_idiv(x2, 2);
        let u4 = s_idiv(s_mul(u2, x2), 12);
        let u6 = s_idiv(s_mul(u4, x2), 30);
        let u8 = s_idiv(s_mul(u6, x2), 56);
        lemma_smul_bound(r as int, r as int, 786_000_000, 786_000_000);
        lemma_smul_nonneg(r as int, r as int);
        lemma_sidiv_shrink(x2, 2);
        lemma_smul_le_one(u2, x2);
        lemma_sidiv_shrink(s_mul(u2, x2), 12);
        lemma_smul_le_one(u4, x2);
        lemma_sidiv_shrink(s_mul(u4, x2), 30);
        lemma_smul_le_one(u6, x2);
        lemma_sidiv_shrink(s_mul(u6, x2), 56);
        lemma_smul_le_one(u8, x2);
        lemma_sidiv_shrink(s_mul(u8, x2), 90);
    }
    let x2: i128 = fix_mul(r, r);
    let u2: i128 = int_div(x2, 2);
    let u4: i128 = int_div(fix_mul(u2, x2), 12);
    let u6: i128 = int_div(fix_mul(u4, x2), 30);
    let u8: i128 = int_div(fix_mul(u6, x2), 56);
    let u10: i128 = int_div(fix_mul(u8, x2), 90);
    SCALE - u2 + u4 - u6 + u8 - u10
}

/// Sine over the first quarter turn.
fn sin_q(a: Fix) -> (v: Fix)
    requires
        0 <= a <= DEG_90,
    ensures
        v == s_sin_q(a as int),
        0 <= v <= SCALE,
{
    if a <= DEG_45 {
        sin_t(rad_of(a))
    } else {
        cos_t(rad_of(DEG_90 - a))
    }
}

/// Cosine over the first quarter turn.
fn cos_q(a: Fix) -> (v: Fix)
    requires
        0 <= a <= DEG_90,
    ensures
        v == s_cos_q(a as int),
        0 <= v <= SCALE,
{
    if a <= DEG_45 {
        cos_t(rad_of(a))
    } else {
        sin_t(rad_of(DEG_90 - a))
    }
}

/// Sine of an angle in scaled degrees.
pub fn sind(d: Fix) -> (v: Fix)
    requires
        -1_000_000_000_000_000_000_000_000 <= d <= 1_000_000_000_000_000_000_000_000,
    ensures
        v == s_sind(d as int),
        -SCALE <= v <= SCALE,
{
    let m: i128 = norm_deg(d);
    if m <= DEG_90 {
        sin_q(m)
    } else if m <= DEG_180 {
        sin_q(DEG_180 - m)
    } else if m <= DEG_270 {
        -sin_q(m - DEG_180)
    } else {
        -sin_q(DEG_360 - m)
    }
}

/// Cosine of an angle in scaled degrees.
pub fn cosd(d: Fix) -> (v: Fix)
    requires
        -1_000_000_000_000_000_000_000_000 <= d <= 1_000_000_000_000_000_000_000_000,
    ensures
        v == s_cosd(d as int),
        -SCALE <= v <= SCALE,
{
    let m: i128 = norm_deg(d);
    if m <= DEG_90 {
        cos_q(m)
    } else if m <= DEG_180 {
        -cos_q(DEG_180 - m)
    } else if m <= DEG_270 {
        -cos_q(m - DEG_180)
    } else {
        cos_q(DEG_360 - m)
    }
}

/// At the cardinal angles the quadrant reduction is exact: the sine of zero
/// degrees is exactly zero and of ninety degrees exactly one, and the other
/// way round for the cosine.
pub proof fn lemma_trig_exact()
    ensures
        s_sind(0) == 0,
        s_cosd(0) == SCALE as int,
        s_sind(DEG_90 as int) == SCALE as int,
        s_cosd(DEG_90 as int) == 0,
{
    assert(s_norm_deg(0) == 0);
    assert(s_norm_deg(DEG_90 as int) == DEG_90 as int);
    crate::fixed::lemma_smul_zero(PI_N as int);
    assert(s_idiv(0, 180) == 0);
    assert(s_rad(0) == 0);
    crate::fixed::lemma_smul_zero(0);
    assert(s_idiv(0, 2) == 0);
    assert(s_idiv(0, 6) == 0);
    assert(s_idiv(0, 12) == 0);
    assert(s_idiv(0, 20) == 0);
    assert(s_idiv(0, 30) == 0);
    assert(s_idiv(0, 42) == 0);
    assert(s_idiv(0, 56) == 0);
    assert(s_idiv(0, 72) == 0);
    assert(s_idiv(0, 90) == 0);
    assert(s_idiv(0, 110) == 0);
    assert(sin_t_s(0) == 0);
    assert(cos_t_s(0) == SCALE as int);
}

} // verus!
