//! Scalar unit conversions.
use vstd::prelude::*;

verus! {

use crate::fixed::Fix;
use crate::fixed::absv;
use crate::fixed::s_mul;
use crate::fixed::s_div;
use crate::fixed::fix_mul;
use crate::fixed::fix_div;
use crate::fixed::lemma_smul_bound;
use crate::fixed::lemma_sdiv_bound;

/// Five ninths, scaled and rounded to nearest.
pub const FIVE_NINTHS: i128 = 555_555_556;

/// Millimetres of mercury per thousand inches of mercury: the divisor in
/// the inches-to-millimetres conversion.
pub const IN_PER_M: i128 = 39_370_000_000;

/// Degrees Fahrenheit to degrees Celsius.
pub open spec fn s_f_to_c(f: int) -> int {
    s_mul(FIVE_NINTHS as int, f - 32 * 1_000_000_000)
}

/// Inches of mercury to millimetres of mercury.
pub open spec fn s_in_hg_to_mm_hg(p: int) -> int {
    s_div(s_mul(p, 1_000_000_000_000), IN_PER_M as int)
}

pub fn f_to_c(fahrenheit: Fix) -> (r: Fix)
    requires
        -1_000_000_000_000_000 <= fahrenheit <= 1_000_000_000_000_000,
    ensures
        r == s_f_to_c(fahrenheit as int),
        absv(r as int) <= 600_000_000_000_000,
{
    proof {
        lemma_smul_bound(
            FIVE_NINTHS as int,
            fahrenheit as int - 32_000_000_000,
            FIVE_NINTHS as int,
            1_000_032_000_000_000,
        );
    }
    fix_mul(FIVE_NINTHS, fahrenheit - 32_000_000_000)
}

pub fn in_hg_to_mm_hg(in_hg: Fix) -> (r: Fix)
    requires
        -1_000_000_000_000_000 <= in_hg <= 1_000_000_000_000_000,
    ensures
        r == s_in_hg_to_mm_hg(in_hg as int),
        absv(r as int) <= 26_000_000_000_000_000,
{
    let a: i128 = fix_mul(in_hg, 1_000_000_000_000);
    proof {
        lemma_smul_bound(in_hg as int, 1_000_000_000_000, 1_000_000_000_000_000, 1_000_000_000_000);
        lemma_sdiv_bound(a as int, IN_PER_M as int, 1_000_000_000_000_000_000, IN_PER_M as int);
    }
    fix_div(a, IN_PER_M)
}

} // verus!
