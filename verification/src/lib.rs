//! A verified core for an interactive ray-casting viewer.
//!
//! All geometry is carried out in fixed-point arithmetic: a real number x is
//! represented by the integer round(x * FP), where FP = 65536.

use vstd::prelude::*;

mod camera;
mod fixed;
mod math;
mod pacing;
mod render;
mod pose;
mod world;

pub use fixed::FP;
pub use math::{Vec3, Quat};
pub use pacing::{TickPlan, plan_tick, dt_fixed};
pub use pose::Transform;
pub use camera::{Camera, Action, PS_MIN, MOVE_SPEED};
pub use render::{render_px, fill_frame};
pub use world::{Color, Sphere, World, VMAX, DIR_MAX};

verus! {

} // verus!
