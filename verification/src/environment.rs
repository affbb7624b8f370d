//! Atmospheric and wind conditions, and the air-density model derived from
//! them.
use vstd::prelude::*;

verus! {

use crate::fixed::Fix;
use crate::fixed::SCALE;
use crate::fixed::absv;
use crate::fixed::s_mul;
use crate::fixed::s_div;
use crate::fixed::fix_mul;
use crate::fixed::fix_div;
use crate::fixed::lemma_smul_bound;
use crate::fixed::lemma_smul_mono;
use crate::fixed::lemma_smul_comm;
use crate::fixed::lemma_smul_nonneg;
use crate::fixed::lemma_smul_neg_left;
use crate::fixed::lemma_smul_zero;
use crate::fixed::lemma_smul_scale;
use crate::fixed::lemma_sdiv_bound;
use crate::fixed::lemma_sdiv_nonneg;
use crate::fixed::lemma_sdiv_mono_num;
use crate::math::s_exp;
use crate::math::exp_fix;
use crate::math::lemma_exp_mono;
use crate::trig::s_sind;
use crate::trig::s_cosd;
use crate::trig::sind;
use crate::trig::cosd;
use crate::trig::lemma_trig_exact;
use crate::trig::DEG_90;
use crate::util::s_f_to_c;
use crate::util::s_in_hg_to_mm_hg;
use crate::util::f_to_c;
use crate::util::in_hg_to_mm_hg;
use crate::util::FIVE_NINTHS;
use crate::vector::Vec2;
use vstd::arithmetic::div_mod::lemma_div_is_ordered;
use vstd::arithmetic::div_mod::lemma_div_pos_is_pos;
use vstd::arithmetic::div_mod::lemma_div_by_multiple;
use vstd::arithmetic::div_mod::lemma_fundamental_div_mod;
use vstd::arithmetic::div_mod::lemma_mod_division_less_than_divisor;
use vstd::arithmetic::mul::lemma_mul_basics;
use vstd::arithmetic::mul::lemma_mul_nonnegative;
use vstd::arithmetic::mul::lemma_mul_is_commutative;

/// Barometric decay constant per foot of elevation, scaled.
pub const BETA_N: i128 = 121_700;

/// Feet per second in one mile per hour, scaled.
pub const MPH_TO_FPS: i128 = 1_467_000_000;

/// The constant in front of the density formula, scaled: the product of the
/// two leading factors of the reference formula.
pub const RHO_K: i128 = 80_948_469;

/// Atmospheric record: temperature in degrees Fahrenheit, elevation in feet,
/// barometric pressure in inches of mercury, relative humidity in percent,
/// wind speed in miles per hour, wind direction in degrees clockwise from
/// the downrange axis, and the height above which wind applies, in feet;
/// all scaled.
#[derive(Clone, Copy, PartialEq, Eq, Structural, Debug)]
pub struct Environment {
    pub temperature: Fix,
    pub elevation: Fix,
    pub pressure: Fix,
    pub relative_humidity: Fix,
    pub wind_speed: Fix,
    pub wind_direction: Fix,
    pub wind_height: Fix,
}

impl Environment {
    /// The working envelope of the scaled arithmetic.
    pub open spec fn wf(self) -> bool {
        &&& -300_000_000_000 <= self.temperature <= 500_000_000_000
        &&& -30_000_000_000_000 <= self.elevation <= 30_000_000_000_000
        &&& 0 <= self.pressure <= 100_000_000_000
        &&& 0 <= self.relative_humidity <= 100_000_000_000
        &&& -1_000_000_000_000 <= self.wind_speed <= 1_000_000_000_000
        &&& -1_000_000_000_000_000 <= self.wind_direction <= 1_000_000_000_000_000
        &&& -100_000_000_000_000 <= self.wind_height <= 100_000_000_000_000
    }
}

impl Default for Environment {
    /// Sea level on a mild day, no wind.
    fn default() -> (e: Environment)
        ensures
            e.temperature == 70_000_000_000,
            e.elevation == 15_000_000_000,
            e.pressure == 29_920_000_000,
            e.relative_humidity == 50_000_000_000,
            e.wind_speed == 0,
            e.wind_direction == 0,
            e.wind_height == 0,
            e.wf(),
    {
        Environment {
            temperature: 70_000_000_000,
            elevation: 15_000_000_000,
            pressure: 29_920_000_000,
            relative_humidity: 50_000_000_000,
            wind_speed: 0,
            wind_direction: 0,
            wind_height: 0,
        }
    }
}

/// The exponent of the saturation-vapor-pressure formula, as a function of
/// the temperature in scaled degrees Celsius.
pub open spec fn s_svp_exponent(t: int) -> int {
    s_div(s_mul(18_687_000_000 - s_div(t, 234_500_000_000), t), 257_140_000_000 + t)
}

/// Saturation vapor pressure.
pub open spec fn s_svp(env: Environment) -> int {
    s_mul(4_584_100_000, s_exp(s_svp_exponent(s_f_to_c(env.temperature as int))))
}

/// Air density.
pub open spec fn s_rho(env: Environment) -> int {
    let t = s_f_to_c(env.temperature as int);
    let press = s_mul(
        s_in_hg_to_mm_hg(env.pressure as int),
        s_exp(s_mul(-(BETA_N as int), env.elevation as int)),
    );
    let hum = s_div(
        s_mul(s_mul(378_300_000, env.relative_humidity as int), s_svp(env)),
        100_000_000_000,
    );
    let ratio = s_div(273_000_000_000, t + 273_000_000_000);
    s_mul(RHO_K as int, s_div(s_mul(ratio, press - hum), 760_000_000_000))
}

/// Wind as a horizontal velocity vector, feet per second, scaled.
pub open spec fn s_wind_velocity(env: Environment) -> Vec2 {
    (Vec2 {
        x: s_mul(
            s_mul(env.wind_speed as int, MPH_TO_FPS as int),
            s_sind(env.wind_direction as int),
        ) as i128,
        y: s_mul(
            s_mul(env.wind_speed as int, MPH_TO_FPS as int),
            s_cosd(env.wind_direction as int),
        ) as i128,
    })
}

/// Within the working temperature window the saturation-vapor-pressure
/// exponent never exceeds nine units, so it stays inside the exponential's
/// domain.
proof fn lemma_svp_exponent_ub(t: int)
    requires
        -185_000_000_000 <= t <= 260_100_000_000,
    ensures
        s_svp_exponent(t) <= 9_000_000_000,
{
    let s = SCALE as int;
    let dd: int = 234_500_000_000;
    let d = s_div(t, dd);
    let a = 18_687_000_000 - d;
    let b = s_mul(a, t);
    let den = 257_140_000_000 + t;
    lemma_sdiv_bound(t, dd, 260_100_000_000, dd);
    assert(absv(d) <= 1_109_168_443);
    assert(a > 0);
    if t <= 0 {
        if t == 0 {
            lemma_mul_basics(absv(a));
            assert(absv(a) * 0 == 0);
            assert(b == 0);
            lemma_mul_basics(den);
            assert(s_div(0, den) == (0 * s) / den);
            lemma_mul_basics(s);
            assert(0int / den == 0) by {
                vstd::arithmetic::div_mod::lemma_div_of0(den);
            }
        } else {
            lemma_mul_nonnegative(absv(a), absv(t));
            lemma_div_pos_is_pos(absv(a) * absv(t), s);
            assert(b <= 0);
            if b == 0 {
                lemma_mul_basics(s);
                assert(s_div(0, den) == (0 * s) / den);
                vstd::arithmetic::div_mod::lemma_div_of0(den);
            } else {
                lemma_mul_nonnegative(absv(b), s);
                lemma_div_pos_is_pos(absv(b) * s, den);
            }
        }
    } else {
        // d is the floor of t/234.5, so a is at most the exact coefficient
        // plus one resolution step.
        assert(d == (t * s) / dd);
        lemma_mul_nonnegative(t, s);
        lemma_fundamental_div_mod(t * s, dd);
        lemma_mod_division_less_than_divisor(t * s, dd);
        lemma_mul_is_commutative(dd, d);
        assert(d * dd >= t * s - dd);
        assert(b == (a * t) / s);
        lemma_mul_nonnegative(a, t);
        lemma_fundamental_div_mod(a * t, s);
        lemma_mod_division_less_than_divisor(a * t, s);
        lemma_mul_is_commutative(s, b);
        assert(b * s <= a * t);
        assert(s_svp_exponent(t) == (b * s) / den);
        lemma_div_is_ordered(b * s, a * t, den);
        assert(a * t <= 9_000_000_000 * den) by (nonlinear_arith)
            requires
                0 < t <= 260_100_000_000,
                den == 257_140_000_000 + t,
                a == 18_687_000_000 - d,
                d * 234_500_000_000int >= t * 1_000_000_000int - 234_500_000_000int,
        ;
        lemma_div_is_ordered(a * t, 9_000_000_000 * den, den);
        lemma_div_by_multiple(9_000_000_000, den);
    }
}

/// Interval bounds for the saturation-vapor-pressure exponent.
proof fn lemma_svp_exponent_abs(t: int)
    requires
        -185_000_000_000 <= t <= 260_100_000_000,
    ensures
        absv(s_svp_exponent(t)) <= 74_000_000_000,
{
    let dd: int = 234_500_000_000;
    let d = s_div(t, dd);
    let a = 18_687_000_000 - d;
    let b = s_mul(a, t);
    let den = 257_140_000_000 + t;
    lemma_sdiv_bound(t, dd, 260_100_000_000, dd);
    lemma_smul_bound(a, t, 19_797_000_000, 260_100_000_000);
    lemma_sdiv_bound(b, den, 5_150_000_000_000, 72_140_000_000);
}

impl Environment {
    /// Derived air density, in the reference formula's units.
    pub fn calculate_rho(&self) -> (r: Fix)
        requires
            self.wf(),
        ensures
            r == s_rho(*self),
            absv(r as int) <= 8_000_000_000_000,
    {
        let t: i128 = f_to_c(self.temperature);
        proof {
            lemma_smul_mono(
                -332_000_000_000,
                self.temperature as int - 32_000_000_000,
                FIVE_NINTHS as int,
            );
            lemma_smul_comm(FIVE_NINTHS as int, self.temperature as int - 32_000_000_000);
            lemma_smul_comm(FIVE_NINTHS as int, -332_000_000_000);
            lemma_smul_bound(
                FIVE_NINTHS as int,
                self.temperature as int - 32_000_000_000,
                FIVE_NINTHS as int,
                468_000_000_000,
            );
        }
        let mm: i128 = in_hg_to_mm_hg(self.pressure);
        proof {
            lemma_smul_bound(self.pressure as int, 1_000_000_000_000, 100_000_000_000,
                1_000_000_000_000);
            lemma_sdiv_bound(
                s_mul(self.pressure as int, 1_000_000_000_000),
                crate::util::IN_PER_M as int,
                100_000_000_000_000,
                crate::util::IN_PER_M as int,
            );
            lemma_smul_bound(-(BETA_N as int), self.elevation as int, BETA_N as int,
                30_000_000_000_000);
        }
        let e_arg: i128 = fix_mul(-BETA_N, self.elevation);
        let e_fac: i128 = exp_fix(e_arg);
        let press: i128 = fix_mul(mm, e_fac);
        proof {
            lemma_smul_bound(mm as int, e_fac as int, 2_541_000_000_000, 8_300_000_000_000);
        }
        let svp: i128 = self.calculate_svp();
        let u1: i128 = fix_mul(378_300_000, self.relative_humidity);
        proof {
            lemma_smul_bound(378_300_000, self.relative_humidity as int, 378_300_000,
                100_000_000_000);
            lemma_smul_bound(u1 as int, svp as int, 37_830_000_000, 39_000_000_000_000);
        }
        let u2: i128 = fix_mul(u1, svp);
        let hum: i128 = fix_div(u2, 100_000_000_000);
        proof {
            lemma_sdiv_bound(u2 as int, 100_000_000_000, 1_475_370_000_000_000, 100_000_000_000);
        }
        let inner: i128 = press - hum;
        let ratio: i128 = fix_div(273_000_000_000, t + 273_000_000_000);
        proof {
            lemma_sdiv_bound(273_000_000_000, t as int + 273_000_000_000, 273_000_000_000,
                88_000_000_000);
            lemma_sdiv_nonneg(273_000_000_000, t as int + 273_000_000_000);
            lemma_smul_bound(ratio as int, inner as int, 3_102_272_727, 22_000_000_000_000_000);
        }
        let u: i128 = fix_mul(ratio, inner);
        let v: i128 = fix_div(u, 760_000_000_000);
        proof {
            lemma_sdiv_bound(u as int, 760_000_000_000, 68_250_000_000_000_000, 760_000_000_000);
            lemma_smul_bound(RHO_K as int, v as int, RHO_K as int, 89_802_632_000_000);
        }
        fix_mul(RHO_K, v)
    }

    /// Saturation vapor pressure from the fitted exponential form.
    fn calculate_svp(&self) -> (r: Fix)
        requires
            self.wf(),
        ensures
            r == s_svp(*self),
            0 <= r <= 39_000_000_000_000,
    {
        let t: i128 = f_to_c(self.temperature);
        proof {
            lemma_smul_mono(
                -332_000_000_000,
                self.temperature as int - 32_000_000_000,
                FIVE_NINTHS as int,
            );
            lemma_smul_comm(FIVE_NINTHS as int, self.temperature as int - 32_000_000_000);
            lemma_smul_comm(FIVE_NINTHS as int, -332_000_000_000);
            lemma_smul_bound(
                FIVE_NINTHS as int,
                self.temperature as int - 32_000_000_000,
                FIVE_NINTHS as int,
                468_000_000_000,
            );
            lemma_sdiv_bound(t as int, 234_500_000_000, 260_100_000_000, 234_500_000_000);
        }
        let d: i128 = fix_div(t, 234_500_000_000);
        let a: i128 = 18_687_000_000 - d;
        proof {
            lemma_smul_bound(a as int, t as int, 19_797_000_000, 260_100_000_000);
        }
        let b: i128 = fix_mul(a, t);
        let den: i128 = 257_140_000_000 + t;
        let c: i128 = fix_div(b, den);
        proof {
            lemma_svp_exponent_ub(t as int);
            lemma_svp_exponent_abs(t as int);
        }
        let e: i128 = exp_fix(c);
        proof {
            lemma_smul_bound(4_584_100_000, e as int, 4_584_100_000, 8_300_000_000_000);
            lemma_smul_nonneg(4_584_100_000, e as int);
        }
        fix_mul(4_584_100_000, e)
    }

    /// Wind speed and compass-style direction as a horizontal velocity
    /// vector in feet per second.
    pub fn calculate_wind_velocity(&self) -> (r: Vec2)
        requires
            self.wf(),
        ensures
            r == s_wind_velocity(*self),
            r.bounded(1_500_000_000_000),
    {
        let m: i128 = fix_mul(self.wind_speed, MPH_TO_FPS);
        proof {
            lemma_smul_bound(self.wind_speed as int, MPH_TO_FPS as int, 1_000_000_000_000,
                MPH_TO_FPS as int);
        }
        let sv: i128 = sind(self.wind_direction);
        let cv: i128 = cosd(self.wind_direction);
        proof {
            lemma_smul_bound(m as int, sv as int, 1_467_000_000_000, SCALE as int);
            lemma_smul_bound(m as int, cv as int, 1_467_000_000_000, SCALE as int);
        }
        let x: i128 = fix_mul(m, sv);
        let y: i128 = fix_mul(m, cv);
        Vec2 { x, y }
    }
}

/// Holding everything else fixed, air density does not increase with
/// elevation: lower air is denser.
pub proof fn lemma_rho_antitone_in_elevation(env1: Environment, env2: Environment)
    requires
        env1.wf(),
        env2.wf(),
        env1.temperature == env2.temperature,
        env1.pressure == env2.pressure,
        env1.relative_humidity == env2.relative_humidity,
        env1.elevation <= env2.elevation,
    ensures
        s_rho(env1) >= s_rho(env2),
{
    let t = s_f_to_c(env1.temperature as int);
    let mm = s_in_hg_to_mm_hg(env1.pressure as int);
    let b = BETA_N as int;
    let m1 = s_mul(b, env1.elevation as int);
    let m2 = s_mul(b, env2.elevation as int);
    lemma_smul_mono(env1.elevation as int, env2.elevation as int, b);
    lemma_smul_comm(b, env1.elevation as int);
    lemma_smul_comm(b, env2.elevation as int);
    lemma_smul_neg_left(b, env1.elevation as int);
    lemma_smul_neg_left(b, env2.elevation as int);
    lemma_smul_bound(b, env1.elevation as int, b, 30_000_000_000_000);
    lemma_smul_bound(b, env2.elevation as int, b, 30_000_000_000_000);
    lemma_exp_mono(-m2, -m1);
    assert(s_exp(-m1) >= s_exp(-m2));
    // The pressure term is monotone in the exponential factor.
    lemma_smul_nonneg(env1.pressure as int, 1_000_000_000_000);
    lemma_sdiv_nonneg(
        s_mul(env1.pressure as int, 1_000_000_000_000),
        crate::util::IN_PER_M as int,
    );
    lemma_smul_comm(mm, s_exp(-m1));
    lemma_smul_comm(mm, s_exp(-m2));
    lemma_smul_mono(s_exp(-m2), s_exp(-m1), mm);
    let press1 = s_mul(mm, s_exp(-m1));
    let press2 = s_mul(mm, s_exp(-m2));
    assert(press1 >= press2);
    let hum = s_div(
        s_mul(s_mul(378_300_000, env1.relative_humidity as int), s_svp(env1)),
        100_000_000_000,
    );
    assert(s_svp(env1) == s_svp(env2));
    let ratio = s_div(273_000_000_000, t + 273_000_000_000);
    assert(t + 273_000_000_000 > 0) by {
        lemma_smul_mono(
            -332_000_000_000,
            env1.temperature as int - 32_000_000_000,
            FIVE_NINTHS as int,
        );
        lemma_smul_comm(FIVE_NINTHS as int, env1.temperature as int - 32_000_000_000);
        lemma_smul_comm(FIVE_NINTHS as int, -332_000_000_000);
    }
    lemma_sdiv_nonneg(273_000_000_000, t + 273_000_000_000);
    lemma_smul_comm(ratio, press1 - hum);
    lemma_smul_comm(ratio, press2 - hum);
    lemma_smul_mono(press2 - hum, press1 - hum, ratio);
    lemma_sdiv_mono_num(
        s_mul(ratio, press2 - hum),
        s_mul(ratio, press1 - hum),
        760_000_000_000,
    );
    lemma_smul_comm(RHO_K as int, s_div(s_mul(ratio, press1 - hum), 760_000_000_000));
    lemma_smul_comm(RHO_K as int, s_div(s_mul(ratio, press2 - hum), 760_000_000_000));
    lemma_smul_mono(
        s_div(s_mul(ratio, press2 - hum), 760_000_000_000),
        s_div(s_mul(ratio, press1 - hum), 760_000_000_000),
        RHO_K as int,
    );
}

/// Holding elevation and pressure fixed, dry air gets thinner as it gets
/// warmer: with no humidity the density is antitone in the temperature.
/// (With humidity the same direction holds through the growth of the vapor
/// pressure, which this lemma does not cover.)
pub proof fn lemma_rho_antitone_in_temperature_dry(env1: Environment, env2: Environment)
    requires
        env1.wf(),
        env2.wf(),
        env1.elevation == env2.elevation,
        env1.pressure == env2.pressure,
        env1.relative_humidity == 0,
        env2.relative_humidity == 0,
        env1.temperature <= env2.temperature,
    ensures
        s_rho(env1) >= s_rho(env2),
{
    let s = SCALE as int;
    let t1 = s_f_to_c(env1.temperature as int);
    let t2 = s_f_to_c(env2.temperature as int);
    lemma_smul_mono(
        env1.temperature as int - 32_000_000_000,
        env2.temperature as int - 32_000_000_000,
        FIVE_NINTHS as int,
    );
    lemma_smul_comm(FIVE_NINTHS as int, env1.temperature as int - 32_000_000_000);
    lemma_smul_comm(FIVE_NINTHS as int, env2.temperature as int - 32_000_000_000);
    assert(t1 <= t2);
    assert(t1 + 273_000_000_000 > 0) by {
        lemma_smul_mono(
            -332_000_000_000,
            env1.temperature as int - 32_000_000_000,
            FIVE_NINTHS as int,
        );
        lemma_smul_comm(FIVE_NINTHS as int, -332_000_000_000);
    }
    // The pressure term is shared, and it is nonnegative.
    let mm = s_in_hg_to_mm_hg(env1.pressure as int);
    let e = s_exp(s_mul(-(BETA_N as int), env1.elevation as int));
    lemma_smul_nonneg(env1.pressure as int, 1_000_000_000_000);
    lemma_sdiv_nonneg(
        s_mul(env1.pressure as int, 1_000_000_000_000),
        crate::util::IN_PER_M as int,
    );
    crate::math::lemma_exp_nonneg(s_mul(-(BETA_N as int), env1.elevation as int));
    lemma_smul_nonneg(mm, e);
    let press = s_mul(mm, e);
    // Dry air: the humidity term vanishes for both records.
    lemma_smul_zero(378_300_000);
    lemma_smul_zero(s_svp(env1));
    lemma_smul_zero(s_svp(env2));
    lemma_mul_basics(s);
    vstd::arithmetic::div_mod::lemma_div_of0(100_000_000_000);
    assert(s_div(0, 100_000_000_000) == 0);
    // Colder air concentrates more of the reference density.
    let ratio1 = s_div(273_000_000_000, t1 + 273_000_000_000);
    let ratio2 = s_div(273_000_000_000, t2 + 273_000_000_000);
    crate::fixed::lemma_sdiv_antitone_den(
        273_000_000_000,
        t1 + 273_000_000_000,
        t2 + 273_000_000_000,
    );
    lemma_sdiv_nonneg(273_000_000_000, t2 + 273_000_000_000);
    lemma_smul_comm(ratio1, press);
    lemma_smul_comm(ratio2, press);
    lemma_smul_mono(ratio2, ratio1, press);
    lemma_sdiv_mono_num(s_mul(ratio2, press), s_mul(ratio1, press), 760_000_000_000);
    lemma_smul_comm(RHO_K as int, s_div(s_mul(ratio1, press), 760_000_000_000));
    lemma_smul_comm(RHO_K as int, s_div(s_mul(ratio2, press), 760_000_000_000));
    lemma_smul_mono(
        s_div(s_mul(ratio2, press), 760_000_000_000),
        s_div(s_mul(ratio1, press), 760_000_000_000),
        RHO_K as int,
    );
}

/// The compass-style wind decomposition: with the wind dead downrange the
/// cross component vanishes and the downrange component carries the whole
/// converted speed; a quarter turn swaps the roles.
pub proof fn lemma_wind_decomposition(env: Environment)
    requires
        env.wf(),
    ensures
        env.wind_direction == 0 ==> s_wind_velocity(env).x == 0 && s_wind_velocity(env).y
            == s_mul(env.wind_speed as int, MPH_TO_FPS as int),
        env.wind_direction == DEG_90 ==> s_wind_velocity(env).y == 0 && s_wind_velocity(env).x
            == s_mul(env.wind_speed as int, MPH_TO_FPS as int),
{
    lemma_trig_exact();
    let m = s_mul(env.wind_speed as int, MPH_TO_FPS as int);
    lemma_smul_bound(env.wind_speed as int, MPH_TO_FPS as int, 1_000_000_000_000,
        MPH_TO_FPS as int);
    lemma_smul_zero(m);
    lemma_smul_scale(m);
}

} // verus!
