//! Launch conditions of the struck ball and the kinematics derived from
//! them.
use vstd::prelude::*;

verus! {

use crate::fixed::Fix;
use crate::fixed::SCALE;
use crate::fixed::absv;
use crate::fixed::s_mul;
use crate::fixed::s_div;
use crate::fixed::fix_mul;
use crate::fixed::fix_div;
use crate::fixed::lemma_smul_bound;
use crate::fixed::lemma_sdiv_ratio;
use crate::math::s_mag3;
use crate::math::lemma_mag3_component;
use crate::trig::s_sind;
use crate::trig::s_cosd;
use crate::trig::sind;
use crate::trig::cosd;
use crate::vector::Vec3;
use crate::environment::MPH_TO_FPS;

/// Revolutions per minute to radians per second, scaled: pi over thirty.
pub const RPM_TO_RAD: i128 = 104_719_755;

/// Launch record: exit speed in miles per hour, launch angle in degrees up
/// from the ground, direction in degrees clockwise from the downrange axis,
/// three spin components in revolutions per minute, and the impact point in
/// feet; all scaled.
#[derive(Clone, Copy, PartialEq, Eq, Structural, Debug)]
pub struct Impact {
    pub exit_speed: Fix,
    pub launch_angle: Fix,
    pub direction: Fix,
    pub back_spin: Fix,
    pub side_spin: Fix,
    pub gyro_spin: Fix,
    pub x: Fix,
    pub y: Fix,
    pub z: Fix,
}

impl Impact {
    /// The working envelope of the scaled arithmetic.
    pub open spec fn wf(self) -> bool {
        &&& -10_000_000_000_000 <= self.exit_speed <= 10_000_000_000_000
        &&& -1_000_000_000_000_000 <= self.launch_angle <= 1_000_000_000_000_000
        &&& -1_000_000_000_000_000 <= self.direction <= 1_000_000_000_000_000
        &&& -10_000_000_000_000 <= self.back_spin <= 10_000_000_000_000
        &&& -10_000_000_000_000 <= self.side_spin <= 10_000_000_000_000
        &&& -10_000_000_000_000 <= self.gyro_spin <= 10_000_000_000_000
        &&& -100_000_000_000_000 <= self.x <= 100_000_000_000_000
        &&& -100_000_000_000_000 <= self.y <= 100_000_000_000_000
        &&& -100_000_000_000_000 <= self.z <= 100_000_000_000_000
    }
}

impl Default for Impact {
    /// A typical well-struck ball: pure back spin, hit straight downrange.
    fn default() -> (i: Impact)
        ensures
            i.exit_speed == 103_000_000_000,
            i.launch_angle == 27_500_000_000,
            i.direction == 0,
            i.back_spin == 2_500_000_000_000,
            i.side_spin == 0,
            i.gyro_spin == 0,
            i.x == 0,
            i.y == 2_000_000_000,
            i.z == 3_000_000_000,
            i.wf(),
    {
        Impact {
            exit_speed: 103_000_000_000,
            launch_angle: 27_500_000_000,
            direction: 0,
            back_spin: 2_500_000_000_000,
            side_spin: 0,
            gyro_spin: 0,
            x: 0,
            y: 2_000_000_000,
            z: 3_000_000_000,
        }
    }
}

/// Initial velocity from speed and the two launch angles: a unit vector
/// from the angles, scaled by the speed converted to feet per second.
pub open spec fn s_velocity(exit_speed: int, launch_angle: int, direction: int) -> Vec3 {
    let ux = s_mul(s_cosd(launch_angle), s_sind(direction));
    let uy = s_mul(s_cosd(launch_angle), s_cosd(direction));
    let uz = s_sind(launch_angle);
    let m = s_mul(MPH_TO_FPS as int, exit_speed);
    (Vec3 { x: s_mul(ux, m) as i128, y: s_mul(uy, m) as i128, z: s_mul(uz, m) as i128 })
}

/// The launch spins restated in the cartesian frame of the given velocity:
/// back and side spin through the launch trigonometry, gyro spin along the
/// velocity's own direction, all converted to radians per second.
pub open spec fn s_cartesian_spin(imp: Impact, v: Vec3) -> Vec3 {
    let mag = s_mag3(v.x as int, v.y as int, v.z as int);
    let tx = s_mul(imp.back_spin as int, s_cosd(imp.direction as int)) - s_mul(
        s_mul(imp.side_spin as int, s_sind(imp.launch_angle as int)),
        s_sind(imp.direction as int),
    ) + s_div(s_mul(imp.gyro_spin as int, v.x as int), mag);
    let ty = s_mul(imp.back_spin as int, s_sind(imp.direction as int)) - s_mul(
        s_mul(imp.side_spin as int, s_sind(imp.launch_angle as int)),
        s_cosd(imp.direction as int),
    ) + s_div(s_mul(imp.gyro_spin as int, v.y as int), mag);
    let tz = s_mul(imp.side_spin as int, s_cosd(imp.launch_angle as int)) + s_div(
        s_mul(imp.gyro_spin as int, v.z as int),
        mag,
    );
    (Vec3 {
        x: s_mul(tx, RPM_TO_RAD as int) as i128,
        y: s_mul(ty, RPM_TO_RAD as int) as i128,
        z: s_mul(tz, RPM_TO_RAD as int) as i128,
    })
}

impl Impact {
    /// Initial velocity vector in feet per second.
    pub fn calculate_velocity(exit_speed: Fix, launch_angle: Fix, direction: Fix) -> (r: (
        Fix,
        Fix,
        Fix,
    ))
        requires
            -10_000_000_000_000 <= exit_speed <= 10_000_000_000_000,
            -1_000_000_000_000_000 <= launch_angle <= 1_000_000_000_000_000,
            -1_000_000_000_000_000 <= direction <= 1_000_000_000_000_000,
        ensures
            r.0 == s_velocity(exit_speed as int, launch_angle as int, direction as int).x,
            r.1 == s_velocity(exit_speed as int, launch_angle as int, direction as int).y,
            r.2 == s_velocity(exit_speed as int, launch_angle as int, direction as int).z,
            absv(r.0 as int) <= 15_000_000_000_000,
            absv(r.1 as int) <= 15_000_000_000_000,
            absv(r.2 as int) <= 15_000_000_000_000,
    {
        let cl: i128 = cosd(launch_angle);
        let sl: i128 = sind(launch_angle);
        let cdir: i128 = cosd(direction);
        let sdir: i128 = sind(direction);
        proof {
            lemma_smul_bound(cl as int, sdir as int, SCALE as int, SCALE as int);
            lemma_smul_bound(cl as int, cdir as int, SCALE as int, SCALE as int);
            lemma_smul_bound(MPH_TO_FPS as int, exit_speed as int, MPH_TO_FPS as int,
                10_000_000_000_000);
        }
        let ux: i128 = fix_mul(cl, sdir);
        let uy: i128 = fix_mul(cl, cdir);
        let m: i128 = fix_mul(MPH_TO_FPS, exit_speed);
        proof {
            lemma_smul_bound(ux as int, m as int, SCALE as int, 14_670_000_000_000);
            lemma_smul_bound(uy as int, m as int, SCALE as int, 14_670_000_000_000);
            lemma_smul_bound(sl as int, m as int, SCALE as int, 14_670_000_000_000);
        }
        (fix_mul(ux, m), fix_mul(uy, m), fix_mul(sl, m))
    }

    /// The spin components restated in the velocity's cartesian frame, in
    /// radians per second. The velocity must not vanish: the gyro component
    /// lies along the velocity's direction.
    pub fn calculate_cartesian_spin(&self, velocity: &Vec3) -> (r: Vec3)
        requires
            self.wf(),
            velocity.bounded(15_000_000_000_000),
            velocity.s_magnitude() >= 1,
        ensures
            r == s_cartesian_spin(*self, *velocity),
            r.bounded(5_000_000_000_000),
    {
        let mag: i128 = velocity.magnitude();
        let cl: i128 = cosd(self.launch_angle);
        let sl: i128 = sind(self.launch_angle);
        let cdir: i128 = cosd(self.direction);
        let sdir: i128 = sind(self.direction);
        proof {
            lemma_mag3_component(velocity.x as int, velocity.y as int, velocity.z as int);
            lemma_smul_bound(self.back_spin as int, cdir as int, 10_000_000_000_000, SCALE as int);
            lemma_smul_bound(self.back_spin as int, sdir as int, 10_000_000_000_000, SCALE as int);
            lemma_smul_bound(self.side_spin as int, sl as int, 10_000_000_000_000, SCALE as int);
            lemma_smul_bound(
                s_mul(self.side_spin as int, sl as int),
                sdir as int,
                10_000_000_000_000,
                SCALE as int,
            );
            lemma_smul_bound(
                s_mul(self.side_spin as int, sl as int),
                cdir as int,
                10_000_000_000_000,
                SCALE as int,
            );
            lemma_smul_bound(self.side_spin as int, cl as int, 10_000_000_000_000, SCALE as int);
            lemma_smul_bound(self.gyro_spin as int, velocity.x as int, 10_000_000_000_000,
                15_000_000_000_000);
            lemma_smul_bound(self.gyro_spin as int, velocity.y as int, 10_000_000_000_000,
                15_000_000_000_000);
            lemma_smul_bound(self.gyro_spin as int, velocity.z as int, 10_000_000_000_000,
                15_000_000_000_000);
            lemma_sdiv_ratio(self.gyro_spin as int, velocity.x as int, mag as int);
            lemma_sdiv_ratio(self.gyro_spin as int, velocity.y as int, mag as int);
            lemma_sdiv_ratio(self.gyro_spin as int, velocity.z as int, mag as int);
        }
        let gx: i128 = fix_div(fix_mul(self.gyro_spin, velocity.x), mag);
        let gy: i128 = fix_div(fix_mul(self.gyro_spin, velocity.y), mag);
        let gz: i128 = fix_div(fix_mul(self.gyro_spin, velocity.z), mag);
        let tx: i128 = fix_mul(self.back_spin, cdir) - fix_mul(fix_mul(self.side_spin, sl), sdir)
            + gx;
        let ty: i128 = fix_mul(self.back_spin, sdir) - fix_mul(fix_mul(self.side_spin, sl), cdir)
            + gy;
        let tz: i128 = fix_mul(self.side_spin, cl) + gz;
        proof {
            lemma_smul_bound(tx as int, RPM_TO_RAD as int, 30_000_000_000_000, RPM_TO_RAD as int);
            lemma_smul_bound(ty as int, RPM_TO_RAD as int, 30_000_000_000_000, RPM_TO_RAD as int);
            lemma_smul_bound(tz as int, RPM_TO_RAD as int, 20_000_000_000_000, RPM_TO_RAD as int);
        }
        Vec3 { x: fix_mul(tx, RPM_TO_RAD), y: fix_mul(ty, RPM_TO_RAD), z: fix_mul(tz, RPM_TO_RAD) }
    }
}

} // verus!
