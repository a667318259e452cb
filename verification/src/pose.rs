//! The camera pose: position plus unit orientation, with the two local-frame
//! mutation operations that input handling drives.
//!
//! Movement directions are expressed relative to the current facing: a
//! translation delta is rotated into the pose's orientation before being
//! scaled by elapsed time. Incremental rotations are composed onto the
//! current orientation and renormalized, so the orientation stays a unit
//! orientation within the drift tolerance after every update.

use vstd::prelude::*;
use crate::fixed::{FP, iabs, lemma_tdiv_double};
use crate::math::{
    Vec3, Quat, VecI, QuatI, v_add, v_in, v_scale_fp, v_scale_exact, q_in, q_mul_fp, q_near_unit,
    q_renorm, rot_fp, lemma_q_mul_fp_cap,
};
use crate::world::VMAX;

verus! {

/// Position and orientation of the camera in world space.
#[derive(Clone, Copy, PartialEq, Eq, Structural, Debug)]
pub struct Transform {
    pub position: Vec3,
    pub rotation: Quat,
}

/// The pose invariant: position within the world geometry band, orientation
/// a unit orientation within the drift tolerance.
pub open spec fn transform_wf(t: Transform) -> bool {
    &&& v_in(t.position@, VMAX as int)
    &&& q_near_unit(t.rotation@)
}

/// A unit orientation's components are bounded by a little over `FP`.
pub proof fn lemma_near_unit_in(a: QuatI)
    by (nonlinear_arith)
    requires
        q_near_unit(a),
    ensures
        q_in(a, 65568),
        q_in(a, 0x2_0000),
{
}

/// Where `translate_local` moves a position: the delta is rotated into the
/// orientation, scaled by the elapsed time, and added; a step that would
/// leave the representable band is skipped.
pub open spec fn translate_model(pos: VecI, rot: QuatI, delta: VecI, dt: int) -> VecI {
    let d = rot_fp(delta, rot);
    if v_in(d, 0x4000_0000) {
        let moved = v_add(pos, v_scale_fp(dt, d));
        if v_in(moved, VMAX as int) {
            moved
        } else {
            pos
        }
    } else {
        pos
    }
}

/// `translate_model` of a pose's own fields.
pub open spec fn translate_spec(t: Transform, delta: VecI, dt: int) -> VecI {
    translate_model(t.position@, t.rotation@, delta, dt)
}

impl Transform {
    /// Move by `delta`, expressed in the local frame, scaled by elapsed time
    /// `dt` (fixed-point seconds): the movement component of one input tick.
    pub fn translate_local(&mut self, delta: Vec3, dt: i64)
        requires
            transform_wf(*old(self)),
            v_in(delta@, 0x8_0000_0000),
            0 <= dt <= 0x4000_0000,
        ensures
            final(self).position@ == translate_spec(*old(self), delta@, dt as int),
            final(self).rotation == old(self).rotation,
            transform_wf(*final(self)),
    {
        proof {
            lemma_near_unit_in(self.rotation@);
        }
        let d = delta.rotate(self.rotation);
        if -0x4000_0000 <= d.x && d.x <= 0x4000_0000 && -0x4000_0000 <= d.y && d.y <= 0x4000_0000
            && -0x4000_0000 <= d.z && d.z <= 0x4000_0000 {
            let step = d.scale_fp(dt);
            let moved = self.position.add(step);
            if -VMAX <= moved.x && moved.x <= VMAX && -VMAX <= moved.y && moved.y <= VMAX
                && -VMAX <= moved.z && moved.z <= VMAX {
                self.position = moved;
            }
        }
    }

    /// Compose an incremental orientation onto the current one, about the
    /// camera's own local axes, then renormalize: the rotation component of
    /// one input tick. The orientation is a unit orientation afterwards,
    /// whatever it was drifting towards before.
    pub fn rotate_local(&mut self, delta: Quat)
        requires
            transform_wf(*old(self)),
            q_near_unit(delta@),
        ensures
            final(self).rotation@ == q_renorm(q_mul_fp(old(self).rotation@, delta@)),
            final(self).position == old(self).position,
            transform_wf(*final(self)),
    {
        proof {
            lemma_near_unit_in(self.rotation@);
            lemma_near_unit_in(delta@);
            lemma_q_mul_fp_cap(self.rotation@, delta@, 0x2_0000, 0x2_0000, 0x10_0000);
        }
        let composed = self.rotation.mul(delta);
        self.rotation = composed.renormalize();
    }
}

/// Movement scales linearly in elapsed time at the exact level: a step taken
/// with twice the elapsed time is twice the step.
pub proof fn lemma_translate_linear(d: VecI, dt: int)
    by (nonlinear_arith)
    ensures
        v_scale_exact(2 * dt, d) == v_add(v_scale_exact(dt, d), v_scale_exact(dt, d)),
{
}

/// Movement scales linearly in the computed fixed-point step too, to within
/// one representation unit per component: doubling the elapsed time doubles
/// each displacement component up to the truncation of one division.
pub proof fn lemma_translate_linear_fp(d: VecI, dt: int)
    ensures
        iabs(v_scale_fp(2 * dt, d).x - 2 * v_scale_fp(dt, d).x) <= 1,
        iabs(v_scale_fp(2 * dt, d).y - 2 * v_scale_fp(dt, d).y) <= 1,
        iabs(v_scale_fp(2 * dt, d).z - 2 * v_scale_fp(dt, d).z) <= 1,
{
    assert((2 * dt) * d.x == 2 * (dt * d.x) && (2 * dt) * d.y == 2 * (dt * d.y) && (2 * dt) * d.z
        == 2 * (dt * d.z)) by (nonlinear_arith);
    lemma_tdiv_double(dt * d.x, FP as int);
    lemma_tdiv_double(dt * d.y, FP as int);
    lemma_tdiv_double(dt * d.z, FP as int);
}

} // verus!
