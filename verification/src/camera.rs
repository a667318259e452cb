//! The camera: a pose, a pixel scale and a focal length; screen-coordinate
//! to world-ray mapping and color resolution against a scene; and the
//! pose-mutation surface that input drives, as a declarative action table.
//!
//! Ray resolution is a pure function of the camera, the scene and the screen
//! coordinate: its contract pins the color to the scene's nearest-hit answer
//! for the ray derived from the coordinate, so concurrent per-pixel queries
//! against one camera and scene are deterministic by construction.

use vstd::prelude::*;
use crate::fixed::{FP, tdiv, div_t, lemma_tdiv_cap};
use crate::math::{
    Vec3, Quat, VecI, QuatI, q_mul_fp, q_near_unit, q_renorm, rot_fp, v_in,
    lemma_q_mul_fp_cap,
};
use crate::pose::{Transform, transform_wf, translate_spec, translate_model, lemma_near_unit_in};
use crate::world::{World, Color, VMAX, world_wf, intersect_spec};

verus! {

/// Smallest representable pixel scale: an eighth of a pixel per world unit.
pub const PS_MIN: i64 = 8192;

/// Per-action speed, world units per second in fixed point (3.0).
pub const MOVE_SPEED: i64 = 196608;

/// The camera: pose, pixels per world unit, and focal length. The focal
/// length may become small or negative through input (a lens flip); the
/// pixel scale stays at or above `PS_MIN`.
#[derive(Clone, Copy, PartialEq, Eq, Structural, Debug)]
pub struct Camera {
    pub transform: Transform,
    pub px_per_unit: i64,
    pub focal_length: i64,
}

pub open spec fn camera_wf(c: Camera) -> bool {
    &&& transform_wf(c.transform)
    &&& PS_MIN <= c.px_per_unit
    &&& -VMAX <= c.focal_length <= VMAX
}

/// The camera-local image-plane vector of a centered screen coordinate:
/// the focal length along the first axis — the camera's forward, the same
/// axis the movement surface calls forward — and the screen offsets
/// `xs / px_per_unit` and `ys / px_per_unit` spanning the image plane on
/// the other two. Screen right is the camera's right (`-j`) and screen
/// down is the camera's down (`-k`), so what lies toward the `MoveLeft`
/// direction appears on the left half of the image.
pub open spec fn local_dir_spec(c: Camera, xs: int, ys: int) -> VecI {
    VecI {
        x: c.focal_length as int,
        y: tdiv(-xs * (FP as int * FP as int), c.px_per_unit as int),
        z: tdiv(-ys * (FP as int * FP as int), c.px_per_unit as int),
    }
}

/// The world-space ray direction of a centered screen coordinate: the local
/// image-plane vector rotated by the pose's orientation.
pub open spec fn ray_dir_spec(c: Camera, xs: int, ys: int) -> VecI {
    rot_fp(local_dir_spec(c, xs, ys), c.transform.rotation@)
}

/// The model of a camera, for stating what a tick of input does to one.
pub ghost struct CameraI {
    pub position: VecI,
    pub rotation: QuatI,
    pub px_per_unit: int,
    pub focal_length: int,
}

impl View for Camera {
    type V = CameraI;

    open spec fn view(&self) -> CameraI {
        CameraI {
            position: self.transform.position@,
            rotation: self.transform.rotation@,
            px_per_unit: self.px_per_unit as int,
            focal_length: self.focal_length as int,
        }
    }
}

/// One logical input action of a tick: six directional moves, two combined
/// move-and-focal adjustments, two focal-only adjustments, and an
/// incremental local rotation whose near-unit delta orientation the input
/// layer supplies.
#[derive(Clone, Copy, Debug)]
pub enum Action {
    MoveForward,
    MoveBack,
    MoveLeft,
    MoveRight,
    MoveUp,
    MoveDown,
    ForwardNarrow,
    BackWiden,
    Widen,
    Narrow,
    Rotate(Quat),
}

pub open spec fn action_wf(a: Action) -> bool {
    match a {
        Action::Rotate(q) => q_near_unit(q@),
        _ => true,
    }
}

/// The local movement delta of an action: the speed constant along the
/// action's principal axis, zero for actions that do not translate.
pub open spec fn move_delta(a: Action) -> VecI {
    match a {
        Action::MoveForward => VecI { x: MOVE_SPEED as int, y: 0, z: 0 },
        Action::MoveBack => VecI { x: -MOVE_SPEED as int, y: 0, z: 0 },
        Action::MoveLeft => VecI { x: 0, y: MOVE_SPEED as int, z: 0 },
        Action::MoveRight => VecI { x: 0, y: -MOVE_SPEED as int, z: 0 },
        Action::MoveUp => VecI { x: 0, y: 0, z: MOVE_SPEED as int },
        Action::MoveDown => VecI { x: 0, y: 0, z: -MOVE_SPEED as int },
        Action::ForwardNarrow => VecI { x: MOVE_SPEED as int, y: 0, z: 0 },
        Action::BackWiden => VecI { x: -MOVE_SPEED as int, y: 0, z: 0 },
        _ => VecI { x: 0, y: 0, z: 0 },
    }
}

/// The focal-length rate of an action: the speed constant, signed, for the
/// actions that adjust the focal length, zero otherwise.
pub open spec fn focal_delta(a: Action) -> int {
    match a {
        Action::ForwardNarrow => -MOVE_SPEED as int,
        Action::BackWiden => MOVE_SPEED as int,
        Action::Widen => MOVE_SPEED as int,
        Action::Narrow => -MOVE_SPEED as int,
        _ => 0,
    }
}

/// Where a focal-length step lands: the step is added unless that would
/// leave the representable band, in which case the focal length is kept.
pub open spec fn focal_step_spec(fl: int, step: int) -> int {
    if -VMAX <= fl + step <= VMAX {
        fl + step
    } else {
        fl
    }
}

/// The sign of an integer: `-1`, `0` or `1`.
pub open spec fn sign_of(a: int) -> int {
    if a > 0 {
        1
    } else if a < 0 {
        -1
    } else {
        0
    }
}

/// What one action, applied for `dt` fixed-point seconds, does to a camera:
/// the position moves by the action's local delta (rotated into the current
/// facing and scaled by `dt`), the orientation composes the action's
/// incremental rotation and renormalizes, and the focal length steps by the
/// action's rate times `dt`, each within its representable band.
pub open spec fn apply_action_spec(c: CameraI, a: Action, dt: int) -> CameraI {
    CameraI {
        position: translate_model(c.position, c.rotation, move_delta(a), dt),
        rotation: match a {
            Action::Rotate(q) => q_renorm(q_mul_fp(c.rotation, q@)),
            _ => c.rotation,
        },
        px_per_unit: c.px_per_unit,
        focal_length: focal_step_spec(
            c.focal_length,
            tdiv(MOVE_SPEED as int * dt, FP as int) * sign_of(focal_delta(a)),
        ),
    }
}

/// A sequence of actions applied in order, each for the same `dt`.
pub open spec fn apply_actions_spec(c: CameraI, s: Seq<Action>, dt: int) -> CameraI
    decreases s.len(),
{
    if s.len() == 0 {
        c
    } else {
        apply_actions_spec(apply_action_spec(c, s[0], dt), s.drop_first(), dt)
    }
}

/// Folding one more action onto the end of a sequence is applying it after
/// the fold of the sequence.
pub proof fn lemma_actions_snoc(c: CameraI, s: Seq<Action>, a: Action, dt: int)
    ensures
        apply_actions_spec(c, s.push(a), dt) == apply_action_spec(apply_actions_spec(c, s, dt), a, dt),
    decreases s.len(),
{
    reveal_with_fuel(apply_actions_spec, 3);
    if s.len() == 0 {
        assert(s.push(a).drop_first() =~= s);
        assert(s.push(a)[0] == a);
    } else {
        assert(s.push(a).drop_first() =~= s.drop_first().push(a));
        assert(s.push(a)[0] == s[0]);
        lemma_actions_snoc(apply_action_spec(c, s[0], dt), s.drop_first(), a, dt);
    }
}

impl Camera {
    /// Build a camera, checking the pixel scale and focal length against
    /// their bands; the pose must already be well-formed.
    pub fn new(transform: Transform, px_per_unit: i64, focal_length: i64) -> (r: Option<Camera>)
        requires
            transform_wf(transform),
        ensures
            (PS_MIN <= px_per_unit && -VMAX <= focal_length <= VMAX) <==> r is Some,
            r is Some ==> r.unwrap().transform == transform && r.unwrap().px_per_unit
                == px_per_unit && r.unwrap().focal_length == focal_length && camera_wf(r.unwrap()),
    {
        if PS_MIN <= px_per_unit && -VMAX <= focal_length && focal_length <= VMAX {
            Some(Camera { transform, px_per_unit, focal_length })
        } else {
            None
        }
    }

    /// Resolve one centered screen coordinate to a color: map it to the
    /// camera-local image plane, rotate into world space, and ask the scene
    /// for the nearest hit along that ray from the camera's position.
    pub fn get_px(&self, w: &World, xs: i64, ys: i64) -> (r: Color)
        requires
            camera_wf(*self),
            world_wf(*w),
            -1024 <= xs <= 1024,
            -1024 <= ys <= 1024,
        ensures
            r == intersect_spec(*w, self.transform.position@, ray_dir_spec(*self, xs as int, ys as int)),
    {
        proof {
            lemma_near_unit_in(self.transform.rotation@);
            lemma_tdiv_cap(
                -xs as int * (FP as int * FP as int),
                self.px_per_unit as int,
                0x2000_0000,
            );
            lemma_tdiv_cap(
                -ys as int * (FP as int * FP as int),
                self.px_per_unit as int,
                0x2000_0000,
            );
        }
        let px = div_t(-xs as i128 * (FP as i128 * FP as i128), self.px_per_unit as i128) as i64;
        let py = div_t(-ys as i128 * (FP as i128 * FP as i128), self.px_per_unit as i128) as i64;
        let local = Vec3 { x: self.focal_length, y: px, z: py };
        proof {
            lemma_q_mul_fp_cap(
                self.transform.rotation@,
                crate::math::q_of_v(local@),
                0x2_0000,
                0x2000_0000,
                0x1_0000_0000,
            );
            lemma_q_mul_fp_cap(
                q_mul_fp(self.transform.rotation@, crate::math::q_of_v(local@)),
                crate::math::q_conj(self.transform.rotation@),
                0x1_0000_0000,
                0x2_0000,
                0x8_0000_0000,
            );
        }
        let d = local.rotate(self.transform.rotation);
        w.intersect(self.transform.position, d)
    }

    /// Apply one input action for `dt` fixed-point seconds.
    pub fn apply_action(&mut self, a: Action, dt: i64)
        requires
            camera_wf(*old(self)),
            action_wf(a),
            0 <= dt <= 0x4000_0000,
        ensures
            final(self)@ == apply_action_spec(old(self)@, a, dt as int),
            camera_wf(*final(self)),
    {
        let delta: Vec3 = match a {
            Action::MoveForward => Vec3 { x: MOVE_SPEED, y: 0, z: 0 },
            Action::MoveBack => Vec3 { x: -MOVE_SPEED, y: 0, z: 0 },
            Action::MoveLeft => Vec3 { x: 0, y: MOVE_SPEED, z: 0 },
            Action::MoveRight => Vec3 { x: 0, y: -MOVE_SPEED, z: 0 },
            Action::MoveUp => Vec3 { x: 0, y: 0, z: MOVE_SPEED },
            Action::MoveDown => Vec3 { x: 0, y: 0, z: -MOVE_SPEED },
            Action::ForwardNarrow => Vec3 { x: MOVE_SPEED, y: 0, z: 0 },
            Action::BackWiden => Vec3 { x: -MOVE_SPEED, y: 0, z: 0 },
            _ => Vec3 { x: 0, y: 0, z: 0 },
        };
        self.transform.translate_local(delta, dt);
        if let Action::Rotate(q) = a {
            self.transform.rotate_local(q);
        }
        let sgn: i64 = match a {
            Action::ForwardNarrow => -1,
            Action::BackWiden => 1,
            Action::Widen => 1,
            Action::Narrow => -1,
            _ => 0,
        };
        proof {
            lemma_tdiv_cap(MOVE_SPEED as int * dt, FP as int, 0x10_0000_0000);
        }
        let t = div_t(MOVE_SPEED as i128 * dt as i128, FP as i128) as i64;
        let step: i64 = if sgn > 0 {
            t
        } else if sgn < 0 {
            -t
        } else {
            0
        };
        let nf = self.focal_length + step;
        if -VMAX <= nf && nf <= VMAX {
            self.focal_length = nf;
        }
        proof {
            assert(sgn as int == sign_of(focal_delta(a)));
            assert(tdiv(MOVE_SPEED as int * dt, FP as int) * 0 == 0) by (nonlinear_arith);
            assert(tdiv(MOVE_SPEED as int * dt, FP as int) * 1 == tdiv(
                MOVE_SPEED as int * dt,
                FP as int,
            )) by (nonlinear_arith);
            assert(tdiv(MOVE_SPEED as int * dt, FP as int) * -1 == -tdiv(
                MOVE_SPEED as int * dt,
                FP as int,
            )) by (nonlinear_arith);
        }
    }

    /// Apply every active action of one tick in order; reports whether any
    /// action ran, which is what makes the tick redraw.
    pub fn apply_actions(&mut self, actions: &Vec<Action>, dt: i64) -> (moved: bool)
        requires
            camera_wf(*old(self)),
            forall|i: int| 0 <= i < actions@.len() ==> action_wf(#[trigger] actions@[i]),
            0 <= dt <= 0x4000_0000,
        ensures
            final(self)@ == apply_actions_spec(old(self)@, actions@, dt as int),
            camera_wf(*final(self)),
            moved == (actions@.len() > 0),
    {
        let n = actions.len();
        let mut i: usize = 0;
        while i < n
            invariant
                i <= n,
                n == actions@.len(),
                camera_wf(*self),
                forall|j: int| 0 <= j < actions@.len() ==> action_wf(#[trigger] actions@[j]),
                0 <= dt <= 0x4000_0000,
                self@ == apply_actions_spec(old(self)@, actions@.take(i as int), dt as int),
            decreases n - i,
        {
            let a = actions[i];
            self.apply_action(a, dt);
            proof {
                assert(actions@.take(i as int + 1) =~= actions@.take(i as int).push(actions@[
                    i as int]));
                lemma_actions_snoc(old(self)@, actions@.take(i as int), actions@[i as int],
                    dt as int);
            }
            i += 1;
        }
        proof {
            assert(actions@.take(n as int) =~= actions@);
        }
        n > 0
    }
}

} // verus!
