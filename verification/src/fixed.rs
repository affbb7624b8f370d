//! Scaled-integer arithmetic: every physical quantity in this crate is an
//! `i128` holding the quantity times `SCALE` (nine decimal places).
//! Multiplication and division of two scaled values truncate toward zero,
//! like the hardware arithmetic they stand in for.
use vstd::prelude::*;

verus! {

use vstd::arithmetic::div_mod::lemma_div_is_ordered;
use vstd::arithmetic::div_mod::lemma_div_is_ordered_by_denominator;
use vstd::arithmetic::div_mod::lemma_div_pos_is_pos;
use vstd::arithmetic::div_mod::lemma_div_multiples_vanish;
use vstd::arithmetic::mul::lemma_mul_inequality;
use vstd::arithmetic::mul::lemma_mul_upper_bound;
use vstd::arithmetic::mul::lemma_mul_nonnegative;

/// A fixed-point number: the real value times `SCALE`.
pub type Fix = i128;

/// One unit, i.e. the real number 1.0.
pub const SCALE: i128 = 1_000_000_000;

/// Largest magnitude an operand of `fix_mul` may have; the square of this
/// bound still fits in a `u128`.
pub const FIX_MAX: i128 = 15_000_000_000_000_000_000;

/// Largest magnitude a divisor handed to `fix_div` or `int_div` may have.
pub const DIV_MAX: i128 = 100_000_000_000_000_000_000_000_000_000;

/// Magnitude of an integer.
pub open spec fn absv(x: int) -> int {
    if x < 0 {
        -x
    } else {
        x
    }
}

/// Truncated-toward-zero product of two scaled values: `a * b / SCALE`.
pub open spec fn s_mul(a: int, b: int) -> int {
    if (a < 0) != (b < 0) {
        -((absv(a) * absv(b)) / (SCALE as int))
    } else {
        (absv(a) * absv(b)) / (SCALE as int)
    }
}

/// Truncated-toward-zero quotient of two scaled values: `a * SCALE / b`.
pub open spec fn s_div(a: int, b: int) -> int {
    if (a < 0) != (b < 0) {
        -((absv(a) * (SCALE as int)) / absv(b))
    } else {
        (absv(a) * (SCALE as int)) / absv(b)
    }
}

/// Truncated-toward-zero quotient of a scaled value by a plain integer.
pub open spec fn s_idiv(a: int, d: int) -> int {
    if a < 0 {
        -((-a) / d)
    } else {
        a / d
    }
}

/// Product of two scaled values, truncated toward zero.
pub fn fix_mul(a: Fix, b: Fix) -> (r: Fix)
    requires
        -FIX_MAX <= a <= FIX_MAX,
        -FIX_MAX <= b <= FIX_MAX,
    ensures
        r == s_mul(a as int, b as int),
{
    let neg: bool = (a < 0) != (b < 0);
    let au: u128 = if a < 0 {
        (-a) as u128
    } else {
        a as u128
    };
    let bu: u128 = if b < 0 {
        (-b) as u128
    } else {
        b as u128
    };
    proof {
        assert(au as int == absv(a as int));
        assert(bu as int == absv(b as int));
        assert(au as int * bu as int <= FIX_MAX as int * FIX_MAX as int) by (nonlinear_arith)
            requires
                0 <= au as int <= FIX_MAX as int,
                0 <= bu as int <= FIX_MAX as int,
        ;
    }
    let p: u128 = (au * bu) / (SCALE as u128);
    proof {
        lemma_div_is_ordered(
            au as int * bu as int,
            FIX_MAX as int * FIX_MAX as int,
            SCALE as int,
        );
        lemma_mul_nonnegative(au as int, bu as int);
        lemma_div_pos_is_pos(au as int * bu as int, SCALE as int);
    }
    if neg {
        -(p as i128)
    } else {
        p as i128
    }
}

/// Quotient of two scaled values, truncated toward zero.
pub fn fix_div(a: Fix, b: Fix) -> (r: Fix)
    requires
        -FIX_MAX <= a <= FIX_MAX,
        -DIV_MAX <= b <= DIV_MAX,
        b != 0,
    ensures
        r == s_div(a as int, b as int),
{
    let neg: bool = (a < 0) != (b < 0);
    let au: u128 = if a < 0 {
        (-a) as u128
    } else {
        a as u128
    };
    let bu: u128 = if b < 0 {
        (-b) as u128
    } else {
        b as u128
    };
    proof {
        assert(au as int == absv(a as int));
        assert(bu as int == absv(b as int));
        assert(au as int * SCALE as int <= FIX_MAX as int * SCALE as int) by (nonlinear_arith)
            requires
                0 <= au as int <= FIX_MAX as int,
        ;
    }
    let p: u128 = (au * (SCALE as u128)) / bu;
    proof {
        lemma_div_is_ordered(
            au as int * SCALE as int,
            FIX_MAX as int * SCALE as int,
            bu as int,
        );
        lemma_div_is_ordered_by_denominator(FIX_MAX as int * SCALE as int, 1, bu as int);
        lemma_mul_nonnegative(au as int, SCALE as int);
        lemma_div_pos_is_pos(au as int * SCALE as int, bu as int);
    }
    if neg {
        -(p as i128)
    } else {
        p as i128
    }
}

/// Quotient of a scaled value by a plain (unscaled) positive integer,
/// truncated toward zero.
pub fn int_div(a: Fix, d: i128) -> (r: Fix)
    requires
        -DIV_MAX <= a <= DIV_MAX,
        0 < d <= DIV_MAX,
    ensures
        r == s_idiv(a as int, d as int),
{
    let neg: bool = a < 0;
    let au: u128 = if a < 0 {
        (-a) as u128
    } else {
        a as u128
    };
    let p: u128 = au / (d as u128);
    proof {
        lemma_div_is_ordered(au as int, DIV_MAX as int, d as int);
        lemma_div_is_ordered_by_denominator(DIV_MAX as int, 1, d as int);
        lemma_div_pos_is_pos(au as int, d as int);
    }
    if neg {
        -(p as i128)
    } else {
        p as i128
    }
}

/// The product of two scaled values is bounded by the product of bounds on
/// the magnitudes of the operands.
pub proof fn lemma_smul_bound(a: int, b: int, ma: int, mb: int)
    requires
        absv(a) <= ma,
        absv(b) <= mb,
    ensures
        absv(s_mul(a, b)) <= ma * mb / (SCALE as int),
        -(ma * mb / (SCALE as int)) <= s_mul(a, b) <= ma * mb / (SCALE as int),
{
    let p = (absv(a) * absv(b)) / (SCALE as int);
    lemma_mul_nonnegative(absv(a), absv(b));
    lemma_div_pos_is_pos(absv(a) * absv(b), SCALE as int);
    lemma_mul_upper_bound(absv(a), ma, absv(b), mb);
    lemma_div_is_ordered(absv(a) * absv(b), ma * mb, SCALE as int);
    assert(absv(s_mul(a, b)) == p);
}

/// The quotient of two scaled values is bounded when the numerator is
/// bounded above and the divisor is bounded away from zero.
pub proof fn lemma_sdiv_bound(a: int, b: int, ma: int, db: int)
    requires
        absv(a) <= ma,
        absv(b) >= db,
        db > 0,
    ensures
        absv(s_div(a, b)) <= ma * (SCALE as int) / db,
        -(ma * (SCALE as int) / db) <= s_div(a, b) <= ma * (SCALE as int) / db,
{
    let p = (absv(a) * (SCALE as int)) / absv(b);
    lemma_mul_nonnegative(absv(a), SCALE as int);
    lemma_div_pos_is_pos(absv(a) * (SCALE as int), absv(b));
    lemma_mul_inequality(absv(a), ma, SCALE as int);
    lemma_div_is_ordered(absv(a) * (SCALE as int), ma * (SCALE as int), absv(b));
    lemma_div_is_ordered_by_denominator(ma * (SCALE as int), db, absv(b));
    assert(absv(s_div(a, b)) == p);
}

/// Multiplication by a nonnegative value keeps order.
pub proof fn lemma_smul_mono(a1: int, a2: int, c: int)
    requires
        a1 <= a2,
        c >= 0,
    ensures
        s_mul(a1, c) <= s_mul(a2, c),
{
    lemma_mul_nonnegative(absv(a1), c);
    lemma_mul_nonnegative(absv(a2), c);
    lemma_div_pos_is_pos(absv(a1) * c, SCALE as int);
    lemma_div_pos_is_pos(absv(a2) * c, SCALE as int);
    if a1 >= 0 {
        lemma_mul_inequality(a1, a2, c);
        lemma_div_is_ordered(a1 * c, a2 * c, SCALE as int);
    } else if a2 < 0 {
        lemma_mul_inequality(-a2, -a1, c);
        lemma_div_is_ordered((-a2) * c, (-a1) * c, SCALE as int);
    }
}

/// Division by a positive value keeps the order of numerators.
pub proof fn lemma_sdiv_mono_num(a1: int, a2: int, b: int)
    requires
        a1 <= a2,
        b > 0,
    ensures
        s_div(a1, b) <= s_div(a2, b),
{
    lemma_mul_nonnegative(absv(a1), SCALE as int);
    lemma_mul_nonnegative(absv(a2), SCALE as int);
    lemma_div_pos_is_pos(absv(a1) * (SCALE as int), b);
    lemma_div_pos_is_pos(absv(a2) * (SCALE as int), b);
    if a1 >= 0 {
        lemma_mul_inequality(a1, a2, SCALE as int);
        lemma_div_is_ordered(a1 * (SCALE as int), a2 * (SCALE as int), b);
    } else if a2 < 0 {
        lemma_mul_inequality(-a2, -a1, SCALE as int);
        lemma_div_is_ordered((-a2) * (SCALE as int), (-a1) * (SCALE as int), b);
    }
}

/// A nonnegative quotient shrinks as its divisor grows.
pub proof fn lemma_sdiv_antitone_den(a: int, b1: int, b2: int)
    requires
        a >= 0,
        0 < b1 <= b2,
    ensures
        s_div(a, b1) >= s_div(a, b2),
{
    lemma_mul_nonnegative(a, SCALE as int);
    lemma_div_is_ordered_by_denominator(a * (SCALE as int), b1, b2);
}

/// Division by a positive plain integer keeps order.
pub proof fn lemma_sidiv_mono(a1: int, a2: int, d: int)
    requires
        a1 <= a2,
        d > 0,
    ensures
        s_idiv(a1, d) <= s_idiv(a2, d),
{
    lemma_div_pos_is_pos(absv(a1), d);
    lemma_div_pos_is_pos(absv(a2), d);
    if a1 >= 0 {
        lemma_div_is_ordered(a1, a2, d);
    } else if a2 < 0 {
        lemma_div_is_ordered(-a2, -a1, d);
    }
}

/// A product of nonnegative values is nonnegative.
pub proof fn lemma_smul_nonneg(a: int, b: int)
    requires
        a >= 0,
        b >= 0,
    ensures
        s_mul(a, b) >= 0,
{
    lemma_mul_nonnegative(a, b);
    lemma_div_pos_is_pos(a * b, SCALE as int);
}

/// Scaled multiplication is commutative.
pub proof fn lemma_smul_comm(a: int, b: int)
    ensures
        s_mul(a, b) == s_mul(b, a),
{
    vstd::arithmetic::mul::lemma_mul_is_commutative(absv(a), absv(b));
}

/// Scaled multiplication is monotone in both (nonnegative) operands.
pub proof fn lemma_smul_mono2(a1: int, a2: int, b1: int, b2: int)
    requires
        0 <= a1 <= a2,
        0 <= b1 <= b2,
    ensures
        0 <= s_mul(a1, b1) <= s_mul(a2, b2),
{
    lemma_smul_nonneg(a1, b1);
    lemma_smul_mono(a1, a2, b1);
    lemma_smul_comm(a2, b1);
    lemma_smul_comm(a2, b2);
    lemma_smul_mono(b1, b2, a2);
}

/// Dividing a nonnegative value by a positive plain integer keeps it
/// nonnegative and does not enlarge it.
pub proof fn lemma_sidiv_shrink(a: int, d: int)
    requires
        a >= 0,
        d >= 1,
    ensures
        0 <= s_idiv(a, d) <= a,
{
    lemma_div_pos_is_pos(a, d);
    vstd::arithmetic::div_mod::lemma_div_nonincreasing(a, d);
}

/// A quotient of nonnegative values is nonnegative.
pub proof fn lemma_sdiv_nonneg(a: int, b: int)
    requires
        a >= 0,
        b > 0,
    ensures
        s_div(a, b) >= 0,
{
    lemma_mul_nonnegative(a, SCALE as int);
    lemma_div_pos_is_pos(a * (SCALE as int), b);
}

/// Squaring keeps a value at or above one unit.
pub proof fn lemma_smul_sq_ge_scale(a: int)
    requires
        a >= SCALE,
    ensures
        s_mul(a, a) >= SCALE,
{
    lemma_mul_inequality(SCALE as int, a, SCALE as int);
    vstd::arithmetic::mul::lemma_mul_is_commutative(a, SCALE as int);
    lemma_mul_inequality(SCALE as int, a, a);
    lemma_div_is_ordered((SCALE as int) * (SCALE as int), a * a, SCALE as int);
    vstd::arithmetic::div_mod::lemma_div_by_multiple(SCALE as int, SCALE as int);
}

/// Multiplying a value no larger than one unit by a nonnegative value does
/// not enlarge the latter.
pub proof fn lemma_smul_le_one(a: int, b: int)
    requires
        a >= 0,
        0 <= b <= SCALE,
    ensures
        0 <= s_mul(a, b) <= a,
{
    lemma_smul_nonneg(a, b);
    lemma_mul_inequality(b, SCALE as int, a);
    vstd::arithmetic::mul::lemma_mul_is_commutative(b, a);
    vstd::arithmetic::mul::lemma_mul_is_commutative(SCALE as int, a);
    lemma_div_is_ordered(a * b, a * (SCALE as int), SCALE as int);
    vstd::arithmetic::div_mod::lemma_div_by_multiple(a, SCALE as int);
}

/// Multiplying by the scale itself is the identity: `SCALE` stands for 1.0.
pub proof fn lemma_smul_scale(a: int)
    ensures
        s_mul(a, SCALE as int) == a,
{
    lemma_div_multiples_vanish(absv(a), SCALE as int);
    assert(absv(a) * (SCALE as int) == (SCALE as int) * absv(a));
}

/// Negating one operand negates the product.
pub proof fn lemma_smul_neg_left(a: int, b: int)
    ensures
        s_mul(-a, b) == -s_mul(a, b),
{
    assert(absv(-a) == absv(a));
    let p = (absv(a) * absv(b)) / (SCALE as int);
    assert(s_mul(-a, b) == if ((-a) < 0) != (b < 0) {
        -p
    } else {
        p
    });
    assert(s_mul(a, b) == if (a < 0) != (b < 0) {
        -p
    } else {
        p
    });
    if a == 0 {
        vstd::arithmetic::mul::lemma_mul_basics(absv(b));
        assert(absv(a) * absv(b) == 0);
        assert(0int / (SCALE as int) == 0);
    }
}

/// Negating the numerator negates the quotient.
pub proof fn lemma_sdiv_neg_left(a: int, b: int)
    requires
        b != 0,
    ensures
        s_div(-a, b) == -s_div(a, b),
{
    assert(absv(-a) == absv(a));
    let q = (absv(a) * (SCALE as int)) / absv(b);
    assert(s_div(-a, b) == if ((-a) < 0) != (b < 0) {
        -q
    } else {
        q
    });
    assert(s_div(a, b) == if (a < 0) != (b < 0) {
        -q
    } else {
        q
    });
    if a == 0 {
        vstd::arithmetic::mul::lemma_mul_basics(SCALE as int);
        assert(absv(a) * (SCALE as int) == 0);
        vstd::arithmetic::div_mod::lemma_div_of0(absv(b));
    }
}

/// Scaling a value by a ratio of at most one: multiplying `a` by `v` and
/// dividing by `m` with `|v| <= m` cannot grow past `a` in magnitude.
pub proof fn lemma_sdiv_ratio(a: int, v: int, m: int)
    requires
        absv(v) <= m,
        m > 0,
    ensures
        absv(s_div(s_mul(a, v), m)) <= absv(a),
        -absv(a) <= s_div(s_mul(a, v), m) <= absv(a),
{
    let p = (absv(a) * absv(v)) / (SCALE as int);
    lemma_mul_nonnegative(absv(a), absv(v));
    lemma_div_pos_is_pos(absv(a) * absv(v), SCALE as int);
    assert(absv(s_mul(a, v)) == p);
    let q = (p * (SCALE as int)) / m;
    lemma_mul_nonnegative(p, SCALE as int);
    lemma_div_pos_is_pos(p * (SCALE as int), m);
    assert(absv(s_div(s_mul(a, v), m)) == q);
    vstd::arithmetic::div_mod::lemma_fundamental_div_mod(absv(a) * absv(v), SCALE as int);
    vstd::arithmetic::div_mod::lemma_mod_division_less_than_divisor(
        absv(a) * absv(v),
        SCALE as int,
    );
    assert(p * (SCALE as int) <= absv(a) * absv(v)) by {
        assert(absv(a) * absv(v) == (SCALE as int) * p + (absv(a) * absv(v)) % (
        SCALE as int));
        vstd::arithmetic::mul::lemma_mul_is_commutative(SCALE as int, p);
    }
    lemma_div_is_ordered(p * (SCALE as int), absv(a) * absv(v), m);
    lemma_mul_inequality(absv(v), m, absv(a));
    vstd::arithmetic::mul::lemma_mul_is_commutative(absv(v), absv(a));
    vstd::arithmetic::mul::lemma_mul_is_commutative(m, absv(a));
    lemma_div_is_ordered(absv(a) * absv(v), absv(a) * m, m);
    vstd::arithmetic::div_mod::lemma_div_by_multiple(absv(a), m);
}

/// Multiplying by zero gives zero.
pub proof fn lemma_smul_zero(a: int)
    ensures
        s_mul(a, 0) == 0,
        s_mul(0, a) == 0,
{
    assert(absv(a) * 0 == 0);
    assert(0 * absv(a) == 0);
    assert(0int / (SCALE as int) == 0);
}

} // verus!
