//! The trajectory engine: constants derived once from ball, atmosphere and
//! launch conditions; the per-step acceleration model combining drag,
//! Magnus lift and gravity; and the explicit time-stepping state machine.
use vstd::prelude::*;

verus! {

use crate::ball::Ball;
use crate::environment::Environment;
use crate::environment::s_rho;
use crate::environment::s_wind_velocity;
use crate::impact::Impact;
use crate::impact::s_velocity;
use crate::impact::s_cartesian_spin;
use crate::fixed::Fix;
use crate::fixed::SCALE;
use crate::fixed::absv;
use crate::fixed::s_mul;
use crate::fixed::s_div;
use crate::fixed::fix_mul;
use crate::fixed::fix_div;
use crate::fixed::lemma_smul_bound;
use crate::fixed::lemma_smul_nonneg;
use crate::fixed::lemma_sdiv_bound;
use crate::fixed::lemma_sdiv_nonneg;
use crate::math::s_mag3;
use crate::math::s_exp;
use crate::math::exp_fix;
use crate::math::lemma_mag3_component;
use crate::trig::PI_N;
use crate::vector::Vec3;
use crate::vector::Vec2;
use vstd::arithmetic::div_mod::lemma_div_is_ordered;
use vstd::arithmetic::div_mod::lemma_div_is_ordered_by_denominator;
use vstd::arithmetic::div_mod::lemma_div_pos_is_pos;
use vstd::arithmetic::div_mod::lemma_div_by_multiple;
use vstd::arithmetic::div_mod::lemma_fundamental_div_mod;
use vstd::arithmetic::div_mod::lemma_mod_division_less_than_divisor;
use vstd::arithmetic::mul::lemma_mul_inequality;
use vstd::arithmetic::mul::lemma_mul_upper_bound;
use vstd::arithmetic::mul::lemma_mul_nonnegative;
use vstd::arithmetic::mul::lemma_mul_is_commutative;
use vstd::arithmetic::mul::lemma_mul_is_associative;

/// Spin-decay time parameter in seconds, already multiplied by the fitted
/// reference speed: twenty-five seconds times 146.7.
pub const TAU_SPEED: i128 = 3_667_500_000_000;

/// Fitted drag coefficients.
pub const STATIC_DRAG_COEFFICIENT: i128 = 300_800_000;

pub const SPIN_DRAG_COEFFICIENT: i128 = 29_200_000;

/// Acceleration of gravity in feet per second squared, scaled.
pub const GRAVITY: i128 = 32_174_048_556;

/// Quantities that never change during one flight.
#[derive(Clone, Copy, PartialEq, Eq, Structural, Debug)]
pub struct Constants {
    pub c_0: Fix,
    pub initial_position: Vec3,
    pub initial_velocity: Vec3,
    pub initial_spin: Vec3,
    pub cartesian_spin: Vec3,
    pub omega: Fix,
    pub omega_r: Fix,
    pub wind_height: Fix,
    pub wind_velocity: Vec2,
}

impl Constants {
    /// The working envelope of the scaled arithmetic during integration,
    /// and the ties between the stored spin quantities.
    pub open spec fn wf(self) -> bool {
        &&& -1_000_000_000 <= self.c_0 <= 1_000_000_000
        &&& self.initial_position.bounded(100_000_000_000_000)
        &&& self.initial_velocity.bounded(1_000_000_000_000)
        &&& self.initial_spin.bounded(10_000_000_000_000)
        &&& self.omega == self.cartesian_spin.s_magnitude()
        &&& 1_000_000 <= self.omega <= 20_000_000_000_000
        &&& 0 <= self.omega_r <= 100_000_000_000_000
        &&& self.wind_velocity.bounded(1_500_000_000_000)
        &&& -100_000_000_000_000 <= self.wind_height <= 100_000_000_000_000
    }
}

/// The flight state: position in feet, velocity in feet per second, the
/// launch spin carried along unchanged, and the seconds since launch.
#[derive(Clone, Copy, PartialEq, Eq, Structural, Debug)]
pub struct State {
    pub position: Vec3,
    pub velocity: Vec3,
    pub spin: Vec3,
    pub hang_time: Fix,
}

impl State {
    /// The working envelope of the scaled arithmetic for one more step.
    pub open spec fn wf(self) -> bool {
        &&& self.position.bounded(1_000_000_000_000_000)
        &&& self.velocity.bounded(1_000_000_000_000)
        &&& self.spin.bounded(10_000_000_000_000)
        &&& 0 <= self.hang_time <= 1_000_000_000_000
    }
}

/// A trajectory owns the conditions it was built from and the constants
/// derived from them once.
#[derive(Clone, Copy, PartialEq, Eq, Structural, Debug)]
pub struct Trajectory {
    pub ball: Ball,
    pub environment: Environment,
    pub impact: Impact,
    pub constants: Constants,
}

impl Trajectory {
    pub open spec fn wf(self) -> bool {
        self.constants.wf()
    }
}

/// The force-scale coefficient: a reference ball's empirical coefficient
/// rescaled by air density and by the actual ball's mass and size.
pub open spec fn s_c_0(mass: int, circumference: int, rho: int) -> int {
    s_mul(
        s_mul(s_mul(71_820_000, rho), s_div(5_125_000_000, mass)),
        s_mul(s_div(circumference, 9_125_000_000), s_div(circumference, 9_125_000_000)),
    )
}

/// Total angular speed rescaled by the ball's radius in feet.
pub open spec fn s_omega_r(circumference: int, omega: int) -> int {
    s_div(
        s_mul(s_div(s_div(circumference, 2_000_000_000), PI_N as int), omega),
        12_000_000_000,
    )
}

/// All derived constants.
pub open spec fn s_constants(ball: Ball, environment: Environment, impact: Impact) -> Constants {
    let velocity = s_velocity(
        impact.exit_speed as int,
        impact.launch_angle as int,
        impact.direction as int,
    );
    let cartesian_spin = s_cartesian_spin(impact, velocity);
    let omega = s_mag3(cartesian_spin.x as int, cartesian_spin.y as int, cartesian_spin.z as int);
    (Constants {
        c_0: s_c_0(ball.mass as int, ball.circumference as int, s_rho(environment)) as i128,
        initial_position: (Vec3 { x: impact.x, y: impact.y, z: impact.z }),
        initial_velocity: velocity,
        initial_spin: (Vec3 {
            x: impact.back_spin,
            y: impact.side_spin,
            z: impact.gyro_spin,
        }),
        cartesian_spin: cartesian_spin,
        omega: omega as i128,
        omega_r: s_omega_r(ball.circumference as int, omega) as i128,
        wind_height: environment.wind_height,
        wind_velocity: s_wind_velocity(environment),
    })
}

/// The state a flight starts from.
pub open spec fn s_initial_state(c: Constants) -> State {
    (State {
        position: c.initial_position,
        velocity: c.initial_velocity,
        spin: c.initial_spin,
        hang_time: 0,
    })
}

/// A value clamped from below by zero.
pub open spec fn s_max0(a: int) -> int {
    if a > 0 {
        a
    } else {
        0
    }
}

/// The wind speed the ball feels: above the wind height, the magnitude of
/// the velocity relative to the horizontal wind; below it, plain speed.
pub open spec fn s_rel_wind(wind_velocity: Vec2, wind_height: int, velocity: Vec3, z: int) -> int {
    if z >= wind_height {
        s_mag3(
            velocity.x - wind_velocity.x,
            velocity.y - wind_velocity.y,
            velocity.z as int,
        )
    } else {
        s_mag3(velocity.x as int, velocity.y as int, velocity.z as int)
    }
}

/// Exponential decay of the spin's aerodynamic effect with flight time;
/// the time constant shortens as the ball flies faster.
pub open spec fn s_decay(c: Constants, st: State) -> int {
    let mag = st.velocity.s_magnitude();
    s_exp(s_div(-(st.hang_time as int), s_div(TAU_SPEED as int, mag)))
}

/// The dimensionless spin parameter.
pub open spec fn s_s_param(c: Constants, st: State) -> int {
    let w = s_rel_wind(c.wind_velocity, c.wind_height as int, st.velocity, st.position.z as int);
    s_mul(s_div(c.omega_r as int, w), s_decay(c, st))
}

/// Drag coefficient: a fixed part plus a spin-dependent part that decays.
pub open spec fn s_drag_coefficient(spin: Vec3, decay: int) -> int {
    (STATIC_DRAG_COEFFICIENT as int) + s_mul(
        s_mul(
            SPIN_DRAG_COEFFICIENT as int,
            s_div(s_mag3(spin.x as int, spin.y as int, spin.z as int), 1_000_000_000_000),
        ),
        decay,
    )
}

/// Acceleration from drag. The horizontal axes subtract the clamped wind
/// offset exactly as the reference formula writes it; the vertical axis
/// never sees wind.
pub open spec fn s_drag_acc(
    c_0: int,
    wind_velocity: Vec2,
    wind_height: int,
    velocity: Vec3,
    w: int,
    cd: int,
) -> Vec3 {
    (Vec3 {
        x: s_mul(
            s_mul(s_mul(-c_0, cd), w),
            velocity.x - s_max0(wind_velocity.x - wind_height),
        ) as i128,
        y: s_mul(
            s_mul(s_mul(-c_0, cd), w),
            velocity.y - s_max0(wind_velocity.y - wind_height),
        ) as i128,
        z: s_mul(s_mul(s_mul(-c_0, cd), w), velocity.z as int) as i128,
    })
}

/// The lift coefficient as a function of the spin parameter.
pub open spec fn s_lift(s: int) -> int {
    s_div(SCALE as int, 2_320_000_000 + s_div(400_000_000, s))
}

/// Acceleration from Magnus lift. The cross-range axis carries no lift by
/// construction: its component is written as zero.
pub open spec fn s_magnus_acc(
    c_0: int,
    omega: int,
    cartesian_spin: Vec3,
    wind_velocity: Vec2,
    wind_height: int,
    s: int,
    velocity: Vec3,
    w: int,
) -> Vec3 {
    let base = s_mul(s_mul(c_0, s_div(s_lift(s), omega)), w);
    (Vec3 {
        x: 0,
        y: s_mul(
            base,
            s_mul(cartesian_spin.z as int, velocity.x as int) - s_mul(
                cartesian_spin.x as int,
                velocity.z as int,
            ),
        ) as i128,
        z: s_mul(
            base,
            s_mul(
                cartesian_spin.x as int,
                velocity.y - s_max0(wind_velocity.y - wind_height),
            ) - s_mul(cartesian_spin.y as int, velocity.x as int),
        ) as i128,
    })
}

/// Total acceleration: drag plus Magnus lift, minus gravity on the
/// vertical axis.
pub open spec fn s_acceleration(c: Constants, st: State) -> Vec3 {
    let w = s_rel_wind(c.wind_velocity, c.wind_height as int, st.velocity, st.position.z as int);
    let decay = s_decay(c, st);
    let s = s_s_param(c, st);
    let cd = s_drag_coefficient(st.spin, decay);
    let drag = s_drag_acc(c.c_0 as int, c.wind_velocity, c.wind_height as int, st.velocity, w, cd);
    let magnus = s_magnus_acc(
        c.c_0 as int,
        c.omega as int,
        c.cartesian_spin,
        c.wind_velocity,
        c.wind_height as int,
        s,
        st.velocity,
        w,
    );
    (Vec3 {
        x: (drag.x + magnus.x) as i128,
        y: (drag.y + magnus.y) as i128,
        z: (drag.z + magnus.z - GRAVITY) as i128,
    })
}

/// One explicit time step: acceleration evaluated once at the pre-step
/// state, a second-order position update, a first-order velocity update,
/// spin carried unchanged, and the clock advanced by exactly `delta`.
pub open spec fn s_step(c: Constants, st: State, delta: int) -> State {
    let a = s_acceleration(c, st);
    let d2 = s_mul(delta, delta);
    (State {
        position: (Vec3 {
            x: (st.position.x + s_mul(st.velocity.x as int, delta) + s_div(
                s_mul(a.x as int, d2),
                2_000_000_000,
            )) as i128,
            y: (st.position.y + s_mul(st.velocity.y as int, delta) + s_div(
                s_mul(a.y as int, d2),
                2_000_000_000,
            )) as i128,
            z: (st.position.z + s_mul(st.velocity.z as int, delta) + s_div(
                s_mul(a.z as int, d2),
                2_000_000_000,
            )) as i128,
        }),
        velocity: (Vec3 {
            x: (st.velocity.x + s_mul(a.x as int, delta)) as i128,
            y: (st.velocity.y + s_mul(a.y as int, delta)) as i128,
            z: (st.velocity.z + s_mul(a.z as int, delta)) as i128,
        }),
        spin: st.spin,
        hang_time: (st.hang_time + delta) as i128,
    })
}

/// The force-scale coefficient, executable form.
fn calculate_c_0(mass: Fix, circumference: Fix, rho: Fix) -> (r: Fix)
    requires
        100_000_000 <= mass <= 10_000_000_000_000,
        100_000_000 <= circumference <= 1_000_000_000_000,
        -8_000_000_000_000 <= rho <= 8_000_000_000_000,
    ensures
        r == s_c_0(mass as int, circumference as int, rho as int),
        absv(r as int) <= 400_000_000_000_000_000,
{
    proof {
        lemma_smul_bound(71_820_000, rho as int, 71_820_000, 8_000_000_000_000);
        lemma_sdiv_bound(5_125_000_000, mass as int, 5_125_000_000, 100_000_000);
        lemma_sdiv_bound(circumference as int, 9_125_000_000, 1_000_000_000_000, 9_125_000_000);
    }
    let a: i128 = fix_mul(71_820_000, rho);
    let b: i128 = fix_div(5_125_000_000, mass);
    proof {
        lemma_smul_bound(a as int, b as int, 574_560_000_000, 51_250_000_000);
    }
    let ab: i128 = fix_mul(a, b);
    let d: i128 = fix_div(circumference, 9_125_000_000);
    proof {
        lemma_smul_bound(d as int, d as int, 109_589_041_095, 109_589_041_095);
        lemma_smul_bound(d as int, d as int, 109_589_041_095, 109_589_041_095);
        lemma_smul_bound(ab as int, s_mul(d as int, d as int), 29_446_200_000_000,
            12_010_000_000_000);
    }
    let dd: i128 = fix_mul(d, d);
    fix_mul(ab, dd)
}

/// The spin factor: angular speed scaled by the ball's radius in feet.
fn omega_to_omega_r(circumference: Fix, omega: Fix) -> (r: Fix)
    requires
        100_000_000 <= circumference <= 1_000_000_000_000,
        0 <= omega <= 2_000_000_000_000_000,
    ensures
        r == s_omega_r(circumference as int, omega as int),
        0 <= r <= 30_000_000_000_000_000,
{
    proof {
        lemma_sdiv_bound(circumference as int, 2_000_000_000, 1_000_000_000_000, 2_000_000_000);
        lemma_sdiv_nonneg(circumference as int, 2_000_000_000);
    }
    let c1: i128 = fix_div(circumference, 2_000_000_000);
    proof {
        lemma_sdiv_bound(c1 as int, PI_N as int, 500_000_000_000, PI_N as int);
        lemma_sdiv_nonneg(c1 as int, PI_N as int);
    }
    let c2: i128 = fix_div(c1, PI_N);
    proof {
        lemma_smul_bound(c2 as int, omega as int, 159_154_943_092, 2_000_000_000_000_000);
        lemma_smul_nonneg(c2 as int, omega as int);
    }
    let c3: i128 = fix_mul(c2, omega);
    proof {
        lemma_sdiv_bound(c3 as int, 12_000_000_000, 318_309_887_000_000_000, 12_000_000_000);
        lemma_sdiv_nonneg(c3 as int, 12_000_000_000);
    }
    fix_div(c3, 12_000_000_000)
}

/// The spin-dependent drag coefficient.
fn calculate_drag_coefficient(spin: Vec3, drag_decay: Fix) -> (r: Fix)
    requires
        spin.bounded(10_000_000_000_000),
        0 <= drag_decay <= SCALE,
    ensures
        r == s_drag_coefficient(spin, drag_decay as int),
        STATIC_DRAG_COEFFICIENT <= r <= 1_000_000_000,
{
    let mag: i128 = spin.magnitude();
    proof {
        crate::math::lemma_mag3_upper(spin.x as int, spin.y as int, spin.z as int,
            10_000_000_000_000);
        lemma_sdiv_bound(mag as int, 1_000_000_000_000, 20_000_000_000_000, 1_000_000_000_000);
        lemma_sdiv_nonneg(mag as int, 1_000_000_000_000);
    }
    let x: i128 = fix_div(mag, 1_000_000_000_000);
    proof {
        lemma_smul_bound(SPIN_DRAG_COEFFICIENT as int, x as int, SPIN_DRAG_COEFFICIENT as int,
            20_000_000_000);
        lemma_smul_nonneg(SPIN_DRAG_COEFFICIENT as int, x as int);
    }
    let y: i128 = fix_mul(SPIN_DRAG_COEFFICIENT, x);
    proof {
        lemma_smul_bound(y as int, drag_decay as int, 584_000_000, SCALE as int);
        lemma_smul_nonneg(y as int, drag_decay as int);
    }
    STATIC_DRAG_COEFFICIENT + fix_mul(y, drag_decay)
}

/// The wind speed the ball feels at its current height.
pub fn calculate_relative_wind_speed(
    wind_velocity: Vec2,
    wind_height: Fix,
    velocity: Vec3,
    z: Fix,
) -> (r: Fix)
    requires
        velocity.bounded(1_000_000_000_000),
        wind_velocity.bounded(1_500_000_000_000),
    ensures
        r == s_rel_wind(wind_velocity, wind_height as int, velocity, z as int),
        0 <= r <= 5_000_000_000_000,
{
    let r: i128 = if z >= wind_height {
        crate::math::fix_mag3(velocity.x - wind_velocity.x, velocity.y - wind_velocity.y,
            velocity.z)
    } else {
        crate::math::fix_mag3(velocity.x, velocity.y, velocity.z)
    };
    proof {
        if z as int >= wind_height as int {
            crate::math::lemma_mag3_upper(
                velocity.x as int - wind_velocity.x as int,
                velocity.y as int - wind_velocity.y as int,
                velocity.z as int,
                2_500_000_000_000,
            );
        } else {
            crate::math::lemma_mag3_upper(velocity.x as int, velocity.y as int, velocity.z as int,
                2_500_000_000_000);
        }
    }
    r
}

impl Constants {
    /// Derive every per-flight constant from the three condition records.
    /// The launch must not be degenerate: the spin decomposition divides by
    /// the initial speed.
    pub fn from_conditions(ball: &Ball, environment: &Environment, impact: &Impact) -> (r:
        Constants)
        requires
            ball.wf(),
            environment.wf(),
            impact.wf(),
            s_velocity(
                impact.exit_speed as int,
                impact.launch_angle as int,
                impact.direction as int,
            ).s_magnitude() >= 1,
        ensures
            r == s_constants(*ball, *environment, *impact),
    {
        let rho: i128 = environment.calculate_rho();
        let c_0: i128 = calculate_c_0(ball.mass, ball.circumference, rho);
        let initial_position = Vec3 { x: impact.x, y: impact.y, z: impact.z };
        let v = Impact::calculate_velocity(impact.exit_speed, impact.launch_angle,
            impact.direction);
        let initial_velocity = Vec3 { x: v.0, y: v.1, z: v.2 };
        let initial_spin = Vec3 { x: impact.back_spin, y: impact.side_spin, z: impact.gyro_spin };
        let cartesian_spin = impact.calculate_cartesian_spin(&initial_velocity);
        let omega: i128 = cartesian_spin.magnitude();
        let omega_r: i128 = omega_to_omega_r(ball.circumference, omega);
        let wind_velocity = environment.calculate_wind_velocity();
        Constants {
            c_0,
            initial_position,
            initial_velocity,
            initial_spin,
            cartesian_spin,
            omega,
            omega_r,
            wind_velocity,
            wind_height: environment.wind_height,
        }
    }

    /// The state a flight starts from: everything copied, the clock at zero.
    fn get_initial_state(&self) -> (r: State)
        ensures
            r == s_initial_state(*self),
    {
        let position = self.initial_position;
        let velocity = self.initial_velocity;
        let spin = self.initial_spin;
        State { position, velocity, spin, hang_time: 0 }
    }
}

impl Trajectory {
    /// Derive the constants once and keep the condition records beside
    /// them. The derived constants must lie within the integrator's
    /// working envelope, and the launch must not be degenerate.
    pub fn new(ball: Ball, environment: Environment, impact: Impact) -> (r: Trajectory)
        requires
            ball.wf(),
            environment.wf(),
            impact.wf(),
            s_velocity(
                impact.exit_speed as int,
                impact.launch_angle as int,
                impact.direction as int,
            ).s_magnitude() >= 1,
            s_constants(ball, environment, impact).wf(),
        ensures
            r.ball == ball,
            r.environment == environment,
            r.impact == impact,
            r.constants == s_constants(ball, environment, impact),
            r.wf(),
    {
        let constants = Constants::from_conditions(&ball, &environment, &impact);
        Trajectory { ball, environment, impact, constants }
    }

    /// The state a flight starts from.
    pub fn get_initial_state(&self) -> (r: State)
        requires
            self.wf(),
        ensures
            r == s_initial_state(self.constants),
            r.wf(),
    {
        self.constants.get_initial_state()
    }
}

/// The product under the lift term is bounded although the cross term can
/// be large: the total angular speed under the lift coefficient cancels
/// against the spin components of the cross term, which it dominates.
proof fn lemma_magnus_term_bound(
    c0: int,
    lift: int,
    omega: int,
    lo: int,
    w: int,
    a1: int,
    base: int,
    c1: int,
    c2: int,
    v1: int,
    v2: int,
)
    requires
        -1_000_000_000 <= c0 <= 1_000_000_000,
        0 <= lift <= 431_034_482,
        1_000_000 <= omega,
        lo == s_div(lift, omega),
        a1 == s_mul(c0, lo),
        0 <= w <= 5_000_000_000_000,
        base == s_mul(a1, w),
        absv(c1) <= omega,
        absv(c2) <= omega,
        absv(v1) <= 103_000_000_000_000,
        absv(v2) <= 103_000_000_000_000,
    ensures
        absv(s_mul(base, s_mul(c1, v1) - s_mul(c2, v2))) <= 1_000_000_000_000_000_000,
{
    let s = SCALE as int;
    assert(lo == (lift * s) / omega);
    lemma_mul_nonnegative(lift, s);
    lemma_div_pos_is_pos(lift * s, omega);
    lemma_fundamental_div_mod(lift * s, omega);
    lemma_mod_division_less_than_divisor(lift * s, omega);
    lemma_mul_is_commutative(omega, lo);
    assert(lo * omega <= lift * s);
    lemma_mul_nonnegative(absv(c0), lo);
    lemma_div_pos_is_pos(absv(c0) * lo, s);
    assert(absv(a1) == (absv(c0) * lo) / s);
    lemma_mul_inequality(absv(c0), 1_000_000_000, lo);
    lemma_div_is_ordered(absv(c0) * lo, 1_000_000_000 * lo, s);
    lemma_mul_is_commutative(1_000_000_000, lo);
    lemma_div_by_multiple(lo, 1_000_000_000);
    assert(absv(a1) <= lo);
    lemma_mul_nonnegative(absv(a1), w);
    lemma_div_pos_is_pos(absv(a1) * w, s);
    assert(absv(base) == (absv(a1) * w) / s);
    lemma_mul_inequality(absv(a1), lo, w);
    lemma_div_is_ordered(absv(a1) * w, lo * w, s);
    let bb = (lo * w) / s;
    lemma_mul_nonnegative(lo, w);
    lemma_div_pos_is_pos(lo * w, s);
    lemma_fundamental_div_mod(lo * w, s);
    lemma_mod_division_less_than_divisor(lo * w, s);
    lemma_mul_is_commutative(s, bb);
    assert(bb * s <= lo * w);
    assert(absv(base) <= bb);
    lemma_mul_nonnegative(absv(c1), absv(v1));
    lemma_div_pos_is_pos(absv(c1) * absv(v1), s);
    lemma_mul_upper_bound(absv(c1), omega, absv(v1), 103_000_000_000_000);
    lemma_div_is_ordered(absv(c1) * absv(v1), omega * 103_000_000_000_000, s);
    assert((omega * 103_000_000_000_000) / s == omega * 103_000) by {
        lemma_mul_is_associative(omega, 103_000, 1_000_000_000);
        lemma_mul_nonnegative(omega, 103_000);
        lemma_div_by_multiple(omega * 103_000, 1_000_000_000);
    }
    assert(absv(s_mul(c1, v1)) <= omega * 103_000);
    lemma_mul_nonnegative(absv(c2), absv(v2));
    lemma_div_pos_is_pos(absv(c2) * absv(v2), s);
    lemma_mul_upper_bound(absv(c2), omega, absv(v2), 103_000_000_000_000);
    lemma_div_is_ordered(absv(c2) * absv(v2), omega * 103_000_000_000_000, s);
    assert(absv(s_mul(c2, v2)) <= omega * 103_000);
    let cross = s_mul(c1, v1) - s_mul(c2, v2);
    assert(absv(cross) <= 206_000 * omega) by {
        lemma_mul_is_associative(2, 103_000, omega);
        lemma_mul_is_commutative(omega, 103_000);
        assert(206_000 * omega == 2 * (103_000 * omega));
    }
    let r = absv(s_mul(base, cross));
    lemma_mul_nonnegative(absv(base), absv(cross));
    lemma_div_pos_is_pos(absv(base) * absv(cross), s);
    assert(r == (absv(base) * absv(cross)) / s);
    lemma_mul_nonnegative(206_000, omega);
    lemma_mul_upper_bound(absv(base), bb, absv(cross), 206_000 * omega);
    lemma_div_is_ordered(absv(base) * absv(cross), bb * (206_000 * omega), s);
    assert(bb * (206_000 * omega) <= 88_793_103_292_000 * w) by (nonlinear_arith)
        requires
            bb * s <= lo * w,
            lo * omega <= lift * s,
            0 <= lift <= 431_034_482,
            omega >= 1_000_000,
            0 <= w,
            bb >= 0,
            lo >= 0,
            s == 1_000_000_000,
    ;
    lemma_div_is_ordered(bb * (206_000 * omega), 88_793_103_292_000 * w, s);
    lemma_mul_inequality(w, 5_000_000_000_000, 88_793_103_292_000);
    lemma_mul_is_commutative(w, 88_793_103_292_000);
    lemma_mul_is_commutative(5_000_000_000_000, 88_793_103_292_000);
    lemma_div_is_ordered(
        88_793_103_292_000 * w,
        88_793_103_292_000int * 5_000_000_000_000int,
        s,
    );
}

impl Trajectory {
    /// Acceleration from drag at the given velocity and felt wind speed.
    pub fn calculate_drag_acceleration(
        &self,
        velocity: Vec3,
        wind_velocity: Vec2,
        relative_wind_speed: Fix,
        drag_coefficient: Fix,
    ) -> (r: Vec3)
        requires
            self.wf(),
            velocity.bounded(1_000_000_000_000),
            wind_velocity.bounded(1_500_000_000_000),
            0 <= relative_wind_speed <= 5_000_000_000_000,
            0 <= drag_coefficient <= 1_000_000_000,
        ensures
            r == s_drag_acc(
                self.constants.c_0 as int,
                wind_velocity,
                self.constants.wind_height as int,
                velocity,
                relative_wind_speed as int,
                drag_coefficient as int,
            ),
            r.bounded(600_000_000_000_000_000),
    {
        let c_0: i128 = self.constants.c_0;
        let wind_height: i128 = self.constants.wind_height;
        proof {
            lemma_smul_bound(-(c_0 as int), drag_coefficient as int, 1_000_000_000,
                1_000_000_000);
        }
        let a: i128 = fix_mul(-c_0, drag_coefficient);
        proof {
            lemma_smul_bound(a as int, relative_wind_speed as int, 1_000_000_000,
                5_000_000_000_000);
        }
        let base: i128 = fix_mul(a, relative_wind_speed);
        let ox: i128 = if wind_velocity.x - wind_height > 0 {
            wind_velocity.x - wind_height
        } else {
            0
        };
        let oy: i128 = if wind_velocity.y - wind_height > 0 {
            wind_velocity.y - wind_height
        } else {
            0
        };
        proof {
            lemma_smul_bound(base as int, velocity.x as int - ox as int, 5_000_000_000_000,
                103_000_000_000_000);
            lemma_smul_bound(base as int, velocity.y as int - oy as int, 5_000_000_000_000,
                103_000_000_000_000);
            lemma_smul_bound(base as int, velocity.z as int, 5_000_000_000_000,
                1_000_000_000_000);
        }
        Vec3 {
            x: fix_mul(base, velocity.x - ox),
            y: fix_mul(base, velocity.y - oy),
            z: fix_mul(base, velocity.z),
        }
    }

    /// Acceleration from Magnus lift at the given spin parameter. The
    /// cross-range component is zero for every input: the model assigns
    /// lift only to the downrange and vertical axes.
    pub fn calculate_magnus_acceleration(&self, s: Fix, velocity: Vec3, relative_wind_speed: Fix)
        -> (r: Vec3)
        requires
            self.wf(),
            1 <= s <= 100_000_000_000_000_000,
            velocity.bounded(1_000_000_000_000),
            0 <= relative_wind_speed <= 5_000_000_000_000,
        ensures
            r == s_magnus_acc(
                self.constants.c_0 as int,
                self.constants.omega as int,
                self.constants.cartesian_spin,
                self.constants.wind_velocity,
                self.constants.wind_height as int,
                s as int,
                velocity,
                relative_wind_speed as int,
            ),
            r.x == 0,
            r.bounded(1_000_000_000_000_000_000),
    {
        let c_0: i128 = self.constants.c_0;
        let omega: i128 = self.constants.omega;
        let cs: Vec3 = self.constants.cartesian_spin;
        let wv: Vec2 = self.constants.wind_velocity;
        let wh: i128 = self.constants.wind_height;
        proof {
            lemma_sdiv_bound(400_000_000, s as int, 400_000_000, 1);
            lemma_sdiv_nonneg(400_000_000, s as int);
        }
        let q: i128 = fix_div(400_000_000, s);
        let denom: i128 = 2_320_000_000 + q;
        proof {
            lemma_sdiv_bound(SCALE as int, denom as int, SCALE as int, 2_320_000_000);
            lemma_sdiv_nonneg(SCALE as int, denom as int);
        }
        let lift: i128 = fix_div(SCALE, denom);
        proof {
            lemma_sdiv_bound(lift as int, omega as int, 431_034_482, 1_000_000);
            lemma_sdiv_nonneg(lift as int, omega as int);
        }
        let lo: i128 = fix_div(lift, omega);
        proof {
            lemma_smul_bound(c_0 as int, lo as int, 1_000_000_000, 431_034_482_000);
        }
        let a1: i128 = fix_mul(c_0, lo);
        proof {
            lemma_smul_bound(a1 as int, relative_wind_speed as int, 431_034_482_000,
                5_000_000_000_000);
        }
        let base: i128 = fix_mul(a1, relative_wind_speed);
        proof {
            lemma_mag3_component(cs.x as int, cs.y as int, cs.z as int);
            lemma_smul_bound(cs.z as int, velocity.x as int, 20_000_000_000_000,
                1_000_000_000_000);
            lemma_smul_bound(cs.x as int, velocity.z as int, 20_000_000_000_000,
                1_000_000_000_000);
        }
        let cy: i128 = fix_mul(cs.z, velocity.x) - fix_mul(cs.x, velocity.z);
        let oy: i128 = if wv.y - wh > 0 {
            wv.y - wh
        } else {
            0
        };
        proof {
            lemma_smul_bound(cs.x as int, velocity.y as int - oy as int, 20_000_000_000_000,
                103_000_000_000_000);
            lemma_smul_bound(cs.y as int, velocity.x as int, 20_000_000_000_000,
                1_000_000_000_000);
        }
        let cz: i128 = fix_mul(cs.x, velocity.y - oy) - fix_mul(cs.y, velocity.x);
        proof {
            lemma_magnus_term_bound(
                c_0 as int,
                lift as int,
                omega as int,
                lo as int,
                relative_wind_speed as int,
                a1 as int,
                base as int,
                cs.z as int,
                cs.x as int,
                velocity.x as int,
                velocity.z as int,
            );
            lemma_magnus_term_bound(
                c_0 as int,
                lift as int,
                omega as int,
                lo as int,
                relative_wind_speed as int,
                a1 as int,
                base as int,
                cs.x as int,
                cs.y as int,
                velocity.y as int - oy as int,
                velocity.x as int,
            );
        }
        Vec3 { x: 0, y: fix_mul(base, cy), z: fix_mul(base, cz) }
    }

    /// Total instantaneous acceleration at the given state: drag plus
    /// Magnus lift, with gravity taken off the vertical axis. The state
    /// must not be degenerate: the model divides by the speed, by the felt
    /// wind speed and by the spin parameter.
    pub fn calculate_acceleration(&self, state: &State) -> (r: Vec3)
        requires
            self.wf(),
            state.wf(),
            state.velocity.s_magnitude() >= 1_000_000,
            s_rel_wind(
                self.constants.wind_velocity,
                self.constants.wind_height as int,
                state.velocity,
                state.position.z as int,
            ) >= 1_000_000,
            s_s_param(self.constants, *state) >= 1,
        ensures
            r == s_acceleration(self.constants, *state),
            r.bounded(1_700_000_000_000_000_000),
    {
        let wind_velocity: Vec2 = self.constants.wind_velocity;
        let wind_height: i128 = self.constants.wind_height;
        let omega_r: i128 = self.constants.omega_r;
        let velocity: Vec3 = state.velocity;
        let w: i128 = calculate_relative_wind_speed(wind_velocity, wind_height, velocity,
            state.position.z);
        let mag: i128 = velocity.magnitude();
        proof {
            crate::math::lemma_mag3_upper(velocity.x as int, velocity.y as int, velocity.z as int,
                1_000_000_000_000);
            lemma_sdiv_bound(TAU_SPEED as int, mag as int, TAU_SPEED as int, 1_000_000);
            lemma_mul_nonnegative(TAU_SPEED as int, SCALE as int);
            assert(s_div(TAU_SPEED as int, mag as int) == (TAU_SPEED as int * SCALE as int)
                / mag as int);
            lemma_div_is_ordered_by_denominator(TAU_SPEED as int * SCALE as int, mag as int,
                2_000_000_000_000);
        }
        let inner: i128 = fix_div(TAU_SPEED, mag);
        proof {
            crate::fixed::lemma_sdiv_neg_left(state.hang_time as int, inner as int);
            lemma_sdiv_nonneg(state.hang_time as int, inner as int);
            lemma_sdiv_bound(state.hang_time as int, inner as int, 1_000_000_000_000, 1_833_750);
        }
        let d_arg: i128 = fix_div(-state.hang_time, inner);
        let drag_decay: i128 = exp_fix(d_arg);
        proof {
            lemma_sdiv_bound(omega_r as int, w as int, 100_000_000_000_000, 1_000_000);
            lemma_sdiv_nonneg(omega_r as int, w as int);
        }
        let ratio: i128 = fix_div(omega_r, w);
        proof {
            lemma_smul_bound(ratio as int, drag_decay as int, 100_000_000_000_000_000,
                SCALE as int);
            lemma_smul_nonneg(ratio as int, drag_decay as int);
        }
        let s: i128 = fix_mul(ratio, drag_decay);
        let drag_coefficient: i128 = calculate_drag_coefficient(state.spin, drag_decay);
        let drag_acceleration: Vec3 = self.calculate_drag_acceleration(velocity, wind_velocity, w,
            drag_coefficient);
        let magnus_acceleration: Vec3 = self.calculate_magnus_acceleration(s, velocity, w);
        Vec3 {
            x: drag_acceleration.x + magnus_acceleration.x,
            y: drag_acceleration.y + magnus_acceleration.y,
            z: drag_acceleration.z + magnus_acceleration.z - GRAVITY,
        }
    }
}

impl State {
    /// One explicit time step: a fresh state, the previous one untouched.
    /// The clock advances by exactly `delta`; the spin is carried over
    /// unchanged.
    pub fn step(&self, trajectory: &Trajectory, delta: Fix) -> (r: State)
        requires
            trajectory.wf(),
            self.wf(),
            0 <= delta <= 2_000_000_000,
            self.velocity.s_magnitude() >= 1_000_000,
            s_rel_wind(
                trajectory.constants.wind_velocity,
                trajectory.constants.wind_height as int,
                self.velocity,
                self.position.z as int,
            ) >= 1_000_000,
            s_s_param(trajectory.constants, *self) >= 1,
        ensures
            r == s_step(trajectory.constants, *self, delta as int),
            r.hang_time == self.hang_time + delta,
            r.spin == self.spin,
    {
        let acceleration: Vec3 = trajectory.calculate_acceleration(self);
        proof {
            lemma_smul_bound(delta as int, delta as int, 2_000_000_000, 2_000_000_000);
            lemma_smul_nonneg(delta as int, delta as int);
        }
        let d2: i128 = fix_mul(delta, delta);
        proof {
            lemma_smul_bound(acceleration.x as int, d2 as int, 1_700_000_000_000_000_000,
                4_000_000_000);
            lemma_smul_bound(acceleration.y as int, d2 as int, 1_700_000_000_000_000_000,
                4_000_000_000);
            lemma_smul_bound(acceleration.z as int, d2 as int, 1_700_000_000_000_000_000,
                4_000_000_000);
            lemma_sdiv_bound(s_mul(acceleration.x as int, d2 as int), 2_000_000_000,
                6_800_000_000_000_000_000, 2_000_000_000);
            lemma_sdiv_bound(s_mul(acceleration.y as int, d2 as int), 2_000_000_000,
                6_800_000_000_000_000_000, 2_000_000_000);
            lemma_sdiv_bound(s_mul(acceleration.z as int, d2 as int), 2_000_000_000,
                6_800_000_000_000_000_000, 2_000_000_000);
            lemma_smul_bound(self.velocity.x as int, delta as int, 1_000_000_000_000,
                2_000_000_000);
            lemma_smul_bound(self.velocity.y as int, delta as int, 1_000_000_000_000,
                2_000_000_000);
            lemma_smul_bound(self.velocity.z as int, delta as int, 1_000_000_000_000,
                2_000_000_000);
            lemma_smul_bound(acceleration.x as int, delta as int, 1_700_000_000_000_000_000,
                2_000_000_000);
            lemma_smul_bound(acceleration.y as int, delta as int, 1_700_000_000_000_000_000,
                2_000_000_000);
            lemma_smul_bound(acceleration.z as int, delta as int, 1_700_000_000_000_000_000,
                2_000_000_000);
        }
        let position = Vec3 {
            x: self.position.x + fix_mul(self.velocity.x, delta) + fix_div(
                fix_mul(acceleration.x, d2),
                2_000_000_000,
            ),
            y: self.position.y + fix_mul(self.velocity.y, delta) + fix_div(
                fix_mul(acceleration.y, d2),
                2_000_000_000,
            ),
            z: self.position.z + fix_mul(self.velocity.z, delta) + fix_div(
                fix_mul(acceleration.z, d2),
                2_000_000_000,
            ),
        };
        let velocity = Vec3 {
            x: self.velocity.x + fix_mul(acceleration.x, delta),
            y: self.velocity.y + fix_mul(acceleration.y, delta),
            z: self.velocity.z + fix_mul(acceleration.z, delta),
        };
        State { position, velocity, spin: self.spin, hang_time: self.hang_time + delta }
    }
}

/// The clock is exact: one step advances `hang_time` by precisely the time
/// increment, so with a positive increment it strictly increases.
pub proof fn lemma_hang_time_strictly_increases(c: Constants, st: State, delta: int)
    requires
        st.wf(),
        0 < delta <= 2_000_000_000,
    ensures
        s_step(c, st, delta).hang_time == st.hang_time + delta,
        s_step(c, st, delta).hang_time > st.hang_time,
{
}

/// Stepping is a pure function of its inputs: identical constants, state
/// and increment give an identical successor state.
pub proof fn lemma_step_deterministic(
    c1: Constants,
    c2: Constants,
    s1: State,
    s2: State,
    d1: int,
    d2: int,
)
    requires
        c1 == c2,
        s1 == s2,
        d1 == d2,
    ensures
        s_step(c1, s1, d1) == s_step(c2, s2, d2),
{
}

/// The Magnus model never accelerates the ball along the cross-range axis:
/// that component is zero for every input, not merely for default
/// conditions.
pub proof fn lemma_magnus_cross_range_zero(
    c_0: int,
    omega: int,
    cartesian_spin: Vec3,
    wind_velocity: Vec2,
    wind_height: int,
    s: int,
    velocity: Vec3,
    w: int,
)
    ensures
        s_magnus_acc(c_0, omega, cartesian_spin, wind_velocity, wind_height, s, velocity, w).x
            == 0,
{
}

impl State {
    /// The position as a plain triple.
    pub fn get_position(&self) -> (r: (Fix, Fix, Fix))
        ensures
            r.0 == self.position.x,
            r.1 == self.position.y,
            r.2 == self.position.z,
    {
        (self.position.x, self.position.y, self.position.z)
    }
}

} // verus!
