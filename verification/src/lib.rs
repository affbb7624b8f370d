//! Three-dimensional flight of a struck ball under gravity, drag and Magnus
//! lift, integrated by explicit time stepping over scaled-integer arithmetic.
mod fixed;
mod math;
mod trig;
mod vector;
mod util;
mod ball;
mod environment;
mod impact;
mod trajectory;

pub use crate::fixed::Fix;
pub use crate::fixed::SCALE;
pub use crate::vector::Vec3;
pub use crate::vector::Vec2;
pub use crate::util::f_to_c;
pub use crate::util::in_hg_to_mm_hg;
pub use crate::ball::Ball;
pub use crate::environment::Environment;
pub use crate::impact::Impact;
pub use crate::trajectory::Trajectory;
pub use crate::trajectory::State;
pub use crate::trajectory::Constants;
pub use crate::trajectory::calculate_relative_wind_speed;
