//! 3D vector and quaternion algebra in fixed-point arithmetic.
//!
//! Every executable value carries its mathematical model: a `Vec3` models a
//! triple of integers (`VecI`), a `Quat` a quadruple (`QuatI`). The
//! executable operations have exact contracts relating them to the models,
//! truncating fixed-point division included. The algebraic laws are proved
//! over the models: the Hamilton product multiplies squared magnitudes
//! (`lemma_q_mul_mag`), rotation by an orientation scales a vector's squared
//! magnitude by the square of the orientation's squared magnitude — so a
//! unit orientation preserves it (`lemma_rot_mag`) — and the identity
//! orientation leaves every vector unchanged (`lemma_rot_ident`). The
//! computed rotation tracks the exact one to within the truncation error of
//! its two divisions (`lemma_rot_fp_error`), which is the tolerance within
//! which it preserves magnitude.

use vstd::prelude::*;
use crate::fixed::{FP, iabs, tdiv, isqrt_s, lemma_tdiv_cap, lemma_tdiv_rem, lemma_isqrt_bracket, div_t, isqrt};

verus! {

/// Mathematical model of a vector: unbounded integer components, each
/// representing a real multiplied by `FP`.
pub ghost struct VecI {
    pub x: int,
    pub y: int,
    pub z: int,
}

/// Mathematical model of a quaternion.
pub ghost struct QuatI {
    pub w: int,
    pub x: int,
    pub y: int,
    pub z: int,
}

pub open spec fn v_add(a: VecI, b: VecI) -> VecI {
    VecI { x: a.x + b.x, y: a.y + b.y, z: a.z + b.z }
}

pub open spec fn v_sub(a: VecI, b: VecI) -> VecI {
    VecI { x: a.x - b.x, y: a.y - b.y, z: a.z - b.z }
}

pub open spec fn v_dot(a: VecI, b: VecI) -> int {
    a.x * b.x + a.y * b.y + a.z * b.z
}

pub open spec fn v_mag_sq(a: VecI) -> int {
    v_dot(a, a)
}

/// Fixed-point scaling: each component is multiplied by `k` and divided,
/// truncating, by `FP`.
pub open spec fn v_scale_fp(k: int, a: VecI) -> VecI {
    VecI { x: tdiv(k * a.x, FP as int), y: tdiv(k * a.y, FP as int), z: tdiv(k * a.z, FP as int) }
}

/// All components within `[-b, b]`.
pub open spec fn v_in(a: VecI, b: int) -> bool {
    &&& -b <= a.x <= b
    &&& -b <= a.y <= b
    &&& -b <= a.z <= b
}

/// The exact Hamilton product of the models.
pub open spec fn q_mul(a: QuatI, b: QuatI) -> QuatI {
    QuatI {
        w: a.w * b.w - a.x * b.x - a.y * b.y - a.z * b.z,
        x: a.w * b.x + a.x * b.w + a.y * b.z - a.z * b.y,
        y: a.w * b.y - a.x * b.z + a.y * b.w + a.z * b.x,
        z: a.w * b.z + a.x * b.y - a.y * b.x + a.z * b.w,
    }
}

pub open spec fn q_conj(a: QuatI) -> QuatI {
    QuatI { w: a.w, x: -a.x, y: -a.y, z: -a.z }
}

pub open spec fn q_mag_sq(a: QuatI) -> int {
    a.w * a.w + a.x * a.x + a.y * a.y + a.z * a.z
}

/// A vector as a pure quaternion.
pub open spec fn q_of_v(v: VecI) -> QuatI {
    QuatI { w: 0, x: v.x, y: v.y, z: v.z }
}

pub open spec fn v_of_q(a: QuatI) -> VecI {
    VecI { x: a.x, y: a.y, z: a.z }
}

pub open spec fn q_in(a: QuatI, b: int) -> bool {
    &&& -b <= a.w <= b
    &&& -b <= a.x <= b
    &&& -b <= a.y <= b
    &&& -b <= a.z <= b
}

/// The identity orientation, at fixed-point scale `s`.
pub open spec fn q_ident(s: int) -> QuatI {
    QuatI { w: s, x: 0, y: 0, z: 0 }
}

/// Fixed-point Hamilton product: the exact product, each component divided,
/// truncating, by `FP`.
pub open spec fn q_mul_fp(a: QuatI, b: QuatI) -> QuatI {
    let m = q_mul(a, b);
    QuatI {
        w: tdiv(m.w, FP as int),
        x: tdiv(m.x, FP as int),
        y: tdiv(m.y, FP as int),
        z: tdiv(m.z, FP as int),
    }
}

/// The exact (unscaled) rotation of `v` by `q`: conjugation of the pure
/// quaternion `v` by `q`.
pub open spec fn rot_exact(v: VecI, q: QuatI) -> VecI {
    v_of_q(q_mul(q_mul(q, q_of_v(v)), q_conj(q)))
}

/// The fixed-point rotation actually computed: two fixed-point products.
pub open spec fn rot_fp(v: VecI, q: QuatI) -> VecI {
    v_of_q(q_mul_fp(q_mul_fp(q, q_of_v(v)), q_conj(q)))
}

/// Orientation drift tolerance: a quaternion counts as a unit orientation
/// while its squared magnitude is within `64 * FP` of `FP * FP`.
pub open spec fn q_near_unit(a: QuatI) -> bool {
    FP as int * FP as int - 64 * FP as int <= q_mag_sq(a) <= FP as int * FP as int + 64 * FP as int
}


/// The two-square identity: the product of two sums of two squares is a sum
/// of two squares of bilinear forms.
proof fn lemma_two_square(p: int, q: int, r: int, s: int)
    ensures
        (p * r - q * s) * (p * r - q * s) + (p * s + q * r) * (p * s + q * r) == (p * p + q * q)
            * (r * r + s * s),
{
    assert((p * r - q * s) * (p * r - q * s) == (p * r) * (p * r) - 2 * ((p * r) * (q * s)) + (q
        * s) * (q * s)) by (nonlinear_arith);
    assert((p * s + q * r) * (p * s + q * r) == (p * s) * (p * s) + 2 * ((p * s) * (q * r)) + (q
        * r) * (q * r)) by (nonlinear_arith);
    assert((p * p + q * q) * (r * r + s * s) == (p * p) * (r * r) + (p * p) * (s * s) + (q * q)
        * (r * r) + (q * q) * (s * s)) by (nonlinear_arith);
    assert((p * r) * (p * r) == (p * p) * (r * r)) by (nonlinear_arith);
    assert((q * s) * (q * s) == (q * q) * (s * s)) by (nonlinear_arith);
    assert((p * s) * (p * s) == (p * p) * (s * s)) by (nonlinear_arith);
    assert((q * r) * (q * r) == (q * q) * (r * r)) by (nonlinear_arith);
    assert((p * r) * (q * s) == (p * s) * (q * r)) by (nonlinear_arith);
}

/// The cross terms of the four-square expansion cancel: each of the sixteen
/// degree-four monomials appears twice with opposite signs.
proof fn lemma_cross_cancel(aw: int, ax: int, ay: int, az: int, bw: int, bx: int, by: int, bz: int)
    ensures
        (aw * bx + ax * bw) * (ay * bz - az * by) - (aw * bw - ax * bx) * (ay * by + az * bz) + (
        aw * by - ax * bz) * (ay * bw + az * bx) + (aw * bz + ax * by) * (az * bw - ay * bx) == 0,
{
    assert((aw * bx + ax * bw) * (ay * bz - az * by) == (aw * bx) * (ay * bz) - (aw * bx) * (az
        * by) + (ax * bw) * (ay * bz) - (ax * bw) * (az * by)) by (nonlinear_arith);
    assert((aw * bw - ax * bx) * (ay * by + az * bz) == (aw * bw) * (ay * by) + (aw * bw) * (az
        * bz) - (ax * bx) * (ay * by) - (ax * bx) * (az * bz)) by (nonlinear_arith);
    assert((aw * by - ax * bz) * (ay * bw + az * bx) == (aw * by) * (ay * bw) + (aw * by) * (az
        * bx) - (ax * bz) * (ay * bw) - (ax * bz) * (az * bx)) by (nonlinear_arith);
    assert((aw * bz + ax * by) * (az * bw - ay * bx) == (aw * bz) * (az * bw) - (aw * bz) * (ay
        * bx) + (ax * by) * (az * bw) - (ax * by) * (ay * bx)) by (nonlinear_arith);
    assert((aw * bx) * (ay * bz) == (aw * bz) * (ay * bx)) by (nonlinear_arith);
    assert((aw * bx) * (az * by) == (aw * by) * (az * bx)) by (nonlinear_arith);
    assert((ax * bw) * (ay * bz) == (ax * bz) * (ay * bw)) by (nonlinear_arith);
    assert((ax * bw) * (az * by) == (ax * by) * (az * bw)) by (nonlinear_arith);
    assert((aw * bw) * (ay * by) == (aw * by) * (ay * bw)) by (nonlinear_arith);
    assert((aw * bw) * (az * bz) == (aw * bz) * (az * bw)) by (nonlinear_arith);
    assert((ax * bx) * (ay * by) == (ax * by) * (ay * bx)) by (nonlinear_arith);
    assert((ax * bx) * (az * bz) == (ax * bz) * (az * bx)) by (nonlinear_arith);
}

/// Euler's four-square identity, assembled from the two-square identity on
/// each complex pair and the cancellation of the cross terms: the Hamilton
/// product multiplies squared magnitudes.
pub proof fn lemma_four_square(aw: int, ax: int, ay: int, az: int, bw: int, bx: int, by: int, bz: int)
    ensures
        (aw * bw - ax * bx - ay * by - az * bz) * (aw * bw - ax * bx - ay * by - az * bz) + (aw
            * bx + ax * bw + ay * bz - az * by) * (aw * bx + ax * bw + ay * bz - az * by) + (aw
            * by - ax * bz + ay * bw + az * bx) * (aw * by - ax * bz + ay * bw + az * bx) + (aw
            * bz + ax * by - ay * bx + az * bw) * (aw * bz + ax * by - ay * bx + az * bw) == (aw
            * aw + ax * ax + ay * ay + az * az) * (bw * bw + bx * bx + by * by + bz * bz),
{
    let p1 = aw * bw - ax * bx;
    let p2 = ay * by + az * bz;
    let q1 = aw * bx + ax * bw;
    let q2 = ay * bz - az * by;
    let r1 = aw * by - ax * bz;
    let r2 = ay * bw + az * bx;
    let s1 = aw * bz + ax * by;
    let s2 = az * bw - ay * bx;
    lemma_two_square(aw, ax, bw, bx);
    lemma_two_square(ay, -az, by, bz);
    lemma_two_square(aw, ax, by, bz);
    lemma_two_square(az, ay, bw, bx);
    lemma_cross_cancel(aw, ax, ay, az, bw, bx, by, bz);
    assert((-az) * (-az) == az * az && (-az) * bz == -(az * bz) && (-az) * by == -(az * by))
        by (nonlinear_arith);
    assert((p1 - p2) * (p1 - p2) == p1 * p1 - 2 * (p1 * p2) + p2 * p2) by (nonlinear_arith);
    assert((q1 + q2) * (q1 + q2) == q1 * q1 + 2 * (q1 * q2) + q2 * q2) by (nonlinear_arith);
    assert((r1 + r2) * (r1 + r2) == r1 * r1 + 2 * (r1 * r2) + r2 * r2) by (nonlinear_arith);
    assert((s1 + s2) * (s1 + s2) == s1 * s1 + 2 * (s1 * s2) + s2 * s2) by (nonlinear_arith);
    let ha = aw * aw + ax * ax;
    let ta = ay * ay + az * az;
    let hb = bw * bw + bx * bx;
    let tb = by * by + bz * bz;
    assert(ha * hb + ta * tb + ha * tb + ta * hb == (ha + ta) * (hb + tb)) by (nonlinear_arith);
}

/// The Hamilton product is norm-multiplicative.
pub proof fn lemma_q_mul_mag(a: QuatI, b: QuatI)
    ensures
        q_mag_sq(q_mul(a, b)) == q_mag_sq(a) * q_mag_sq(b),
{
    lemma_four_square(a.w, a.x, a.y, a.z, b.w, b.x, b.y, b.z);
}

/// Conjugation keeps the squared magnitude.
pub proof fn lemma_q_conj_mag(a: QuatI)
    ensures
        q_mag_sq(q_conj(a)) == q_mag_sq(a),
{
    assert((-a.x) * (-a.x) == a.x * a.x && (-a.y) * (-a.y) == a.y * a.y && (-a.z) * (-a.z) == a.z
        * a.z) by (nonlinear_arith);
}

/// Conjugating a pure quaternion by any quaternion gives a pure quaternion:
/// the scalar part of `q * v * conj(q)` is zero.
pub proof fn lemma_conj_pure(v: VecI, q: QuatI)
    ensures
        q_mul(q_mul(q, q_of_v(v)), q_conj(q)).w == 0,
{
    let b = q_of_v(v);
    let p = q_mul(q, b);
    let c = q_conj(q);
    let r = q_mul(p, c);
    assert(r.w == p.w * c.w - p.x * c.x - p.y * c.y - p.z * c.z);
    assert(p.x * c.x == -(p.x * q.x)) by (nonlinear_arith)
        requires
            c.x == -q.x,
    ;
    assert(p.y * c.y == -(p.y * q.y)) by (nonlinear_arith)
        requires
            c.y == -q.y,
    ;
    assert(p.z * c.z == -(p.z * q.z)) by (nonlinear_arith)
        requires
            c.z == -q.z,
    ;
    assert(r.w == p.w * q.w + p.x * q.x + p.y * q.y + p.z * q.z);
    assert(p.w * q.w + (q.x * v.x) * q.w + (q.y * v.y) * q.w + (q.z * v.z) * q.w == 0)
        by (nonlinear_arith)
        requires
            p.w == q.w * 0 - q.x * v.x - q.y * v.y - q.z * v.z,
    ;
    assert(p.x * q.x == (q.w * v.x) * q.x + (q.y * v.z) * q.x - (q.z * v.y) * q.x)
        by (nonlinear_arith)
        requires
            p.x == q.w * v.x + q.x * 0 + q.y * v.z - q.z * v.y,
    ;
    assert(p.y * q.y == (q.w * v.y) * q.y - (q.x * v.z) * q.y + (q.z * v.x) * q.y)
        by (nonlinear_arith)
        requires
            p.y == q.w * v.y - q.x * v.z + q.y * 0 + q.z * v.x,
    ;
    assert(p.z * q.z == (q.w * v.z) * q.z + (q.x * v.y) * q.z - (q.y * v.x) * q.z)
        by (nonlinear_arith)
        requires
            p.z == q.w * v.z + q.x * v.y - q.y * v.x + q.z * 0,
    ;
    assert((q.w * v.x) * q.x == (q.x * v.x) * q.w && (q.w * v.y) * q.y == (q.y * v.y) * q.w && (
        q.w * v.z) * q.z == (q.z * v.z) * q.w && (q.y * v.z) * q.x == (q.x * v.z) * q.y && (q.x
        * v.y) * q.z == (q.z * v.y) * q.x && (q.z * v.x) * q.y == (q.y * v.x) * q.z)
        by (nonlinear_arith);
    assert(r.w == 0);
}

/// Rotation scales the squared magnitude of a vector by the square of the
/// orientation's squared magnitude; a unit orientation preserves it exactly.
pub proof fn lemma_rot_mag(v: VecI, q: QuatI)
    ensures
        v_mag_sq(rot_exact(v, q)) == q_mag_sq(q) * q_mag_sq(q) * v_mag_sq(v),
{
    let p = q_mul(q, q_of_v(v));
    let r = q_mul(p, q_conj(q));
    lemma_q_mul_mag(q, q_of_v(v));
    lemma_q_mul_mag(p, q_conj(q));
    lemma_q_conj_mag(q);
    lemma_conj_pure(v, q);
    assert(q_mag_sq(q_of_v(v)) == 0 * 0 + v.x * v.x + v.y * v.y + v.z * v.z);
    assert(0 * 0 == 0) by (nonlinear_arith);
    assert(r.w * r.w == 0) by (nonlinear_arith)
        requires
            r.w == 0,
    ;
    assert(v_mag_sq(v_of_q(r)) == q_mag_sq(r) - r.w * r.w);
    assert(q_mag_sq(r) == (q_mag_sq(q) * v_mag_sq(v)) * q_mag_sq(q));
    assert((q_mag_sq(q) * v_mag_sq(v)) * q_mag_sq(q) == q_mag_sq(q) * q_mag_sq(q) * v_mag_sq(v))
        by (nonlinear_arith);
}

/// Multiplying out one split factor: distributivity of a single product.
proof fn lemma_mul_split(f: int, p: int, e: int, c: int)
    by (nonlinear_arith)
    ensures
        (f * p + e) * c == f * (p * c) + e * c,
{
}

/// The computed fixed-point rotation tracks the exact conjugation: for a
/// unit orientation, each component of `rot_fp` rescaled by `FP * FP`
/// differs from the exact rotation by at most six units of `FP * FP` — the
/// truncation error of the two fixed-point divisions. Together with
/// `lemma_rot_mag`, which says the exact rotation preserves magnitude, this
/// is the sense in which the computed rotation preserves a vector's
/// magnitude within tolerance.
pub proof fn lemma_rot_fp_error(v: VecI, q: QuatI)
    requires
        q_near_unit(q),
    ensures
        iabs(FP as int * FP as int * rot_fp(v, q).x - rot_exact(v, q).x) <= 6 * (FP as int
            * FP as int),
        iabs(FP as int * FP as int * rot_fp(v, q).y - rot_exact(v, q).y) <= 6 * (FP as int
            * FP as int),
        iabs(FP as int * FP as int * rot_fp(v, q).z - rot_exact(v, q).z) <= 6 * (FP as int
            * FP as int),
{
    let fp = FP as int;
    let vq = q_of_v(v);
    let pe = q_mul(q, vq);
    let pf = q_mul_fp(q, vq);
    let cq = q_conj(q);
    let me = q_mul(pe, cq);
    let mf = q_mul(pf, cq);
    assert(q_in(q, 65568)) by (nonlinear_arith)
        requires
            q_near_unit(q),
    ;
    assert(q_in(cq, 65568));
    lemma_tdiv_rem(pe.w, fp);
    lemma_tdiv_rem(pe.x, fp);
    lemma_tdiv_rem(pe.y, fp);
    lemma_tdiv_rem(pe.z, fp);
    let e = QuatI {
        w: pe.w - fp * pf.w,
        x: pe.x - fp * pf.x,
        y: pe.y - fp * pf.y,
        z: pe.z - fp * pf.z,
    };
    assert(q_in(e, fp - 1));
    assert(pe.w == fp * pf.w + e.w && pe.x == fp * pf.x + e.x && pe.y == fp * pf.y + e.y
        && pe.z == fp * pf.z + e.z);
    lemma_mul_split(fp, pf.w, e.w, cq.x);
    lemma_mul_split(fp, pf.x, e.x, cq.w);
    lemma_mul_split(fp, pf.y, e.y, cq.z);
    lemma_mul_split(fp, pf.z, e.z, cq.y);
    lemma_mul_split(fp, pf.w, e.w, cq.y);
    lemma_mul_split(fp, pf.x, e.x, cq.z);
    lemma_mul_split(fp, pf.y, e.y, cq.w);
    lemma_mul_split(fp, pf.z, e.z, cq.x);
    lemma_mul_split(fp, pf.w, e.w, cq.z);
    lemma_mul_split(fp, pf.x, e.x, cq.y);
    lemma_mul_split(fp, pf.y, e.y, cq.x);
    lemma_mul_split(fp, pf.z, e.z, cq.w);
    assert(me.x == fp * mf.x + (e.w * cq.x + e.x * cq.w + e.y * cq.z - e.z * cq.y));
    assert(me.y == fp * mf.y + (e.w * cq.y - e.x * cq.z + e.y * cq.w + e.z * cq.x));
    assert(me.z == fp * mf.z + (e.w * cq.z + e.x * cq.y - e.y * cq.x + e.z * cq.w));
    lemma_q_prod_bounds(e, cq, fp - 1, 65568);
    lemma_tdiv_rem(mf.x, fp);
    lemma_tdiv_rem(mf.y, fp);
    lemma_tdiv_rem(mf.z, fp);
    assert(rot_fp(v, q).x == tdiv(mf.x, fp));
    assert(rot_exact(v, q).x == me.x);
}

/// The identity orientation at scale `s` rotates any vector to `s * s` times
/// itself; at unit scale the vector is exactly unchanged.
#[verifier::rlimit(100)]
pub proof fn lemma_rot_ident(v: VecI, s: int)
    ensures
        rot_exact(v, q_ident(s)) == v_scale_exact(s * s, v),
{
    let q = q_ident(s);
    let b = q_of_v(v);
    let p = q_mul(q, b);
    let c = q_conj(q);
    let r = q_mul(p, c);
    assert(r.x == s * s * v.x && r.y == s * s * v.y && r.z == s * s * v.z) by (nonlinear_arith)
        requires
            p.w == q.w * b.w - q.x * b.x - q.y * b.y - q.z * b.z,
            p.x == q.w * b.x + q.x * b.w + q.y * b.z - q.z * b.y,
            p.y == q.w * b.y - q.x * b.z + q.y * b.w + q.z * b.x,
            p.z == q.w * b.z + q.x * b.y - q.y * b.x + q.z * b.w,
            r.x == p.w * c.x + p.x * c.w + p.y * c.z - p.z * c.y,
            r.y == p.w * c.y - p.x * c.z + p.y * c.w + p.z * c.x,
            r.z == p.w * c.z + p.x * c.y - p.y * c.x + p.z * c.w,
            c.w == s,
            c.x == 0,
            c.y == 0,
            c.z == 0,
            q.w == s,
            q.x == 0,
            q.y == 0,
            q.z == 0,
            b.w == 0,
            b.x == v.x,
            b.y == v.y,
            b.z == v.z,
    ;
    assert(rot_exact(v, q) == (VecI { x: r.x, y: r.y, z: r.z }));
}

/// Exact scaling of the model (no fixed-point division).
pub open spec fn v_scale_exact(k: int, a: VecI) -> VecI {
    VecI { x: k * a.x, y: k * a.y, z: k * a.z }
}

/// Bound on a product from bounds on its factors.
pub proof fn lemma_mul_abs(a: int, b: int, ab: int, bb: int)
    by (nonlinear_arith)
    requires
        iabs(a) <= ab,
        iabs(b) <= bb,
    ensures
        iabs(a * b) <= ab * bb,
{
}

/// Bound on a dot product from bounds on the vectors.
pub proof fn lemma_dot_bound(a: VecI, b: VecI, ab: int, bb: int)
    by (nonlinear_arith)
    requires
        v_in(a, ab),
        v_in(b, bb),
        0 <= ab,
        0 <= bb,
    ensures
        iabs(v_dot(a, b)) <= 3 * (ab * bb),
{
}

/// Bounds every product of a component of `a` with a component of `b`.
proof fn lemma_q_prod_bounds(a: QuatI, b: QuatI, ab: int, bb: int)
    requires
        q_in(a, ab),
        q_in(b, bb),
        0 <= ab,
        0 <= bb,
    ensures
        iabs(a.w * b.w) <= ab * bb,
        iabs(a.w * b.x) <= ab * bb,
        iabs(a.w * b.y) <= ab * bb,
        iabs(a.w * b.z) <= ab * bb,
        iabs(a.x * b.w) <= ab * bb,
        iabs(a.x * b.x) <= ab * bb,
        iabs(a.x * b.y) <= ab * bb,
        iabs(a.x * b.z) <= ab * bb,
        iabs(a.y * b.w) <= ab * bb,
        iabs(a.y * b.x) <= ab * bb,
        iabs(a.y * b.y) <= ab * bb,
        iabs(a.y * b.z) <= ab * bb,
        iabs(a.z * b.w) <= ab * bb,
        iabs(a.z * b.x) <= ab * bb,
        iabs(a.z * b.y) <= ab * bb,
        iabs(a.z * b.z) <= ab * bb,
{
    lemma_mul_abs(a.w, b.w, ab, bb);
    lemma_mul_abs(a.w, b.x, ab, bb);
    lemma_mul_abs(a.w, b.y, ab, bb);
    lemma_mul_abs(a.w, b.z, ab, bb);
    lemma_mul_abs(a.x, b.w, ab, bb);
    lemma_mul_abs(a.x, b.x, ab, bb);
    lemma_mul_abs(a.x, b.y, ab, bb);
    lemma_mul_abs(a.x, b.z, ab, bb);
    lemma_mul_abs(a.y, b.w, ab, bb);
    lemma_mul_abs(a.y, b.x, ab, bb);
    lemma_mul_abs(a.y, b.y, ab, bb);
    lemma_mul_abs(a.y, b.z, ab, bb);
    lemma_mul_abs(a.z, b.w, ab, bb);
    lemma_mul_abs(a.z, b.x, ab, bb);
    lemma_mul_abs(a.z, b.y, ab, bb);
    lemma_mul_abs(a.z, b.z, ab, bb);
}

/// From bounds on the factors, a bound on every component of the fixed-point
/// Hamilton product: `4 * ab * bb <= cap * FP` caps the quotient at `cap`.
#[verifier::rlimit(100)]
pub proof fn lemma_q_mul_fp_cap(a: QuatI, b: QuatI, ab: int, bb: int, cap: int)
    requires
        q_in(a, ab),
        q_in(b, bb),
        0 <= ab,
        0 <= bb,
        0 <= cap,
        4 * (ab * bb) <= cap * (FP as int),
    ensures
        q_in(q_mul(a, b), 4 * (ab * bb)),
        q_in(q_mul_fp(a, b), cap),
{
    lemma_q_prod_bounds(a, b, ab, bb);
    let m = q_mul(a, b);
    lemma_tdiv_cap(m.w, FP as int, cap);
    lemma_tdiv_cap(m.x, FP as int, cap);
    lemma_tdiv_cap(m.y, FP as int, cap);
    lemma_tdiv_cap(m.z, FP as int, cap);
}

/// An executable 3-component vector; components are reals scaled by `FP`.
#[derive(Clone, Copy, PartialEq, Eq, Structural, Debug)]
pub struct Vec3 {
    pub x: i64,
    pub y: i64,
    pub z: i64,
}

/// An executable quaternion; components are reals scaled by `FP`.
#[derive(Clone, Copy, PartialEq, Eq, Structural, Debug)]
pub struct Quat {
    pub w: i64,
    pub x: i64,
    pub y: i64,
    pub z: i64,
}

impl View for Vec3 {
    type V = VecI;

    open spec fn view(&self) -> VecI {
        VecI { x: self.x as int, y: self.y as int, z: self.z as int }
    }
}

impl View for Quat {
    type V = QuatI;

    open spec fn view(&self) -> QuatI {
        QuatI { w: self.w as int, x: self.x as int, y: self.y as int, z: self.z as int }
    }
}

impl Vec3 {
    pub fn new(x: i64, y: i64, z: i64) -> (r: Vec3)
        ensures
            r@ == (VecI { x: x as int, y: y as int, z: z as int }),
    {
        Vec3 { x, y, z }
    }

    /// The zero vector.
    pub fn zero() -> (r: Vec3)
        ensures
            r@ == (VecI { x: 0, y: 0, z: 0 }),
    {
        Vec3 { x: 0, y: 0, z: 0 }
    }

    /// Unit vector along the first principal axis (the camera's forward).
    pub fn i() -> (r: Vec3)
        ensures
            r@ == (VecI { x: FP as int, y: 0, z: 0 }),
    {
        Vec3 { x: FP, y: 0, z: 0 }
    }

    /// Unit vector along the second principal axis (the camera's left).
    pub fn j() -> (r: Vec3)
        ensures
            r@ == (VecI { x: 0, y: FP as int, z: 0 }),
    {
        Vec3 { x: 0, y: FP, z: 0 }
    }

    /// Unit vector along the third principal axis (the camera's up).
    pub fn k() -> (r: Vec3)
        ensures
            r@ == (VecI { x: 0, y: 0, z: FP as int }),
    {
        Vec3 { x: 0, y: 0, z: FP }
    }

    /// Component-wise addition.
    pub fn add(self, o: Vec3) -> (r: Vec3)
        requires
            v_in(self@, 0x2000_0000_0000_0000),
            v_in(o@, 0x2000_0000_0000_0000),
        ensures
            r@ == v_add(self@, o@),
    {
        Vec3 { x: self.x + o.x, y: self.y + o.y, z: self.z + o.z }
    }

    /// Component-wise subtraction.
    pub fn sub(self, o: Vec3) -> (r: Vec3)
        requires
            v_in(self@, 0x2000_0000_0000_0000),
            v_in(o@, 0x2000_0000_0000_0000),
        ensures
            r@ == v_sub(self@, o@),
    {
        Vec3 { x: self.x - o.x, y: self.y - o.y, z: self.z - o.z }
    }

    /// Fixed-point scaling by `k` (a real scaled by `FP`).
    pub fn scale_fp(self, k: i64) -> (r: Vec3)
        requires
            v_in(self@, 0x4000_0000),
            iabs(k as int) <= 0x4000_0000,
        ensures
            r@ == v_scale_fp(k as int, self@),
            v_in(r@, 0x1000_0000_0000),
    {
        proof {
            lemma_mul_abs(k as int, self@.x, 0x4000_0000, 0x4000_0000);
            lemma_mul_abs(k as int, self@.y, 0x4000_0000, 0x4000_0000);
            lemma_mul_abs(k as int, self@.z, 0x4000_0000, 0x4000_0000);
            lemma_tdiv_cap(k as int * self@.x, FP as int, 0x1000_0000_0000);
            lemma_tdiv_cap(k as int * self@.y, FP as int, 0x1000_0000_0000);
            lemma_tdiv_cap(k as int * self@.z, FP as int, 0x1000_0000_0000);
        }
        let x = div_t(k as i128 * self.x as i128, FP as i128) as i64;
        let y = div_t(k as i128 * self.y as i128, FP as i128) as i64;
        let z = div_t(k as i128 * self.z as i128, FP as i128) as i64;
        Vec3 { x, y, z }
    }

    /// Dot product, exact, in 128-bit arithmetic.
    pub fn dot(self, o: Vec3) -> (r: i128)
        requires
            v_in(self@, 0x8_0000_0000),
            v_in(o@, 0x8_0000_0000),
        ensures
            r as int == v_dot(self@, o@),
    {
        proof {
            lemma_mul_abs(self@.x, o@.x, 0x8_0000_0000, 0x8_0000_0000);
            lemma_mul_abs(self@.y, o@.y, 0x8_0000_0000, 0x8_0000_0000);
            lemma_mul_abs(self@.z, o@.z, 0x8_0000_0000, 0x8_0000_0000);
        }
        self.x as i128 * o.x as i128 + self.y as i128 * o.y as i128 + self.z as i128 * o.z as i128
    }

    /// Rotation by a unit orientation, via conjugation in two fixed-point
    /// Hamilton products.
    pub fn rotate(self, q: Quat) -> (r: Vec3)
        requires
            v_in(self@, 0x8_0000_0000),
            q_in(q@, 0x10_0000),
        ensures
            r@ == rot_fp(self@, q@),
            v_in(r@, 0x8000_0000_0000),
    {
        let vq = Quat { w: 0, x: self.x, y: self.y, z: self.z };
        proof {
            lemma_q_mul_fp_cap(q@, vq@, 0x10_0000, 0x8_0000_0000, 0x200_0000_0000);
        }
        let p = qmul_fp_raw(q, vq);
        let c = Quat { w: q.w, x: -q.x, y: -q.y, z: -q.z };
        proof {
            lemma_q_mul_fp_cap(p@, c@, 0x200_0000_0000, 0x10_0000, 0x8000_0000_0000);
        }
        let r = qmul_fp_raw(p, c);
        Vec3 { x: r.x, y: r.y, z: r.z }
    }
}

/// One fixed-point Hamilton product step. Both factors must be moderate, and
/// one of the two must be small (a near-unit orientation), in either order.
fn qmul_fp_raw(a: Quat, b: Quat) -> (r: Quat)
    requires
        q_in(a@, 0x4000_0000_0000),
        q_in(b@, 0x4000_0000_0000),
        q_in(a@, 0x10_0000) || q_in(b@, 0x10_0000),
    ensures
        r@ == q_mul_fp(a@, b@),
        q_in(r@, 0x10_0000_0000_0000),
{
    proof {
        lemma_q_prod_bounds(a@, b@, 0x4000_0000_0000, 0x4000_0000_0000);
        if q_in(b@, 0x10_0000) {
            lemma_q_mul_fp_cap(a@, b@, 0x4000_0000_0000, 0x10_0000, 0x10_0000_0000_0000);
        } else {
            lemma_q_mul_fp_cap(a@, b@, 0x10_0000, 0x4000_0000_0000, 0x10_0000_0000_0000);
        }
    }
    let aw = a.w as i128;
    let ax = a.x as i128;
    let ay = a.y as i128;
    let az = a.z as i128;
    let bw = b.w as i128;
    let bx = b.x as i128;
    let by = b.y as i128;
    let bz = b.z as i128;
    let w = div_t(aw * bw - ax * bx - ay * by - az * bz, FP as i128) as i64;
    let x = div_t(aw * bx + ax * bw + ay * bz - az * by, FP as i128) as i64;
    let y = div_t(aw * by - ax * bz + ay * bw + az * bx, FP as i128) as i64;
    let z = div_t(aw * bz + ax * by - ay * bx + az * bw, FP as i128) as i64;
    Quat { w, x, y, z }
}

/// Renormalization of an orientation after an incremental update: divide by
/// the integer square root of the squared magnitude. If the input is
/// degenerate, or the quotient does not land within the drift tolerance, the
/// identity orientation is returned instead, so the result is always a unit
/// orientation within tolerance.
pub open spec fn q_renorm(a: QuatI) -> QuatI {
    let s = q_mag_sq(a);
    if s >= 1 {
        let m = isqrt_s(s as nat) as int;
        let c = QuatI {
            w: tdiv(a.w * FP as int, m),
            x: tdiv(a.x * FP as int, m),
            y: tdiv(a.y * FP as int, m),
            z: tdiv(a.z * FP as int, m),
        };
        if q_near_unit(c) {
            c
        } else {
            q_ident(FP as int)
        }
    } else {
        q_ident(FP as int)
    }
}

impl Quat {
    /// The identity orientation.
    pub fn one() -> (r: Quat)
        ensures
            r@ == q_ident(FP as int),
            q_near_unit(r@),
    {
        proof {
            lemma_mul_abs(FP as int, FP as int, FP as int, FP as int);
            assert(FP as int * FP as int == 4294967296) by (nonlinear_arith);
            assert(0 * 0 == 0) by (nonlinear_arith);
        }
        Quat { w: FP, x: 0, y: 0, z: 0 }
    }

    /// Conjugate.
    pub fn conj(self) -> (r: Quat)
        requires
            q_in(self@, 0x4000_0000_0000_0000),
        ensures
            r@ == q_conj(self@),
    {
        Quat { w: self.w, x: -self.x, y: -self.y, z: -self.z }
    }

    /// Fixed-point Hamilton product with a near-unit orientation.
    pub fn mul(self, o: Quat) -> (r: Quat)
        requires
            q_in(self@, 0x4000_0000_0000),
            q_in(o@, 0x4000_0000_0000),
            q_in(self@, 0x10_0000) || q_in(o@, 0x10_0000),
        ensures
            r@ == q_mul_fp(self@, o@),
            q_in(r@, 0x10_0000_0000_0000),
    {
        qmul_fp_raw(self, o)
    }

    /// Squared magnitude, exact, in 128-bit arithmetic.
    pub fn mag_sq(self) -> (r: i128)
        requires
            q_in(self@, 0x4000_0000_0000),
        ensures
            r as int == q_mag_sq(self@),
    {
        proof {
            lemma_mul_abs(self@.w, self@.w, 0x4000_0000_0000, 0x4000_0000_0000);
            lemma_mul_abs(self@.x, self@.x, 0x4000_0000_0000, 0x4000_0000_0000);
            lemma_mul_abs(self@.y, self@.y, 0x4000_0000_0000, 0x4000_0000_0000);
            lemma_mul_abs(self@.z, self@.z, 0x4000_0000_0000, 0x4000_0000_0000);
        }
        self.w as i128 * self.w as i128 + self.x as i128 * self.x as i128 + self.y as i128
            * self.y as i128 + self.z as i128 * self.z as i128
    }

    /// Renormalize to counter fixed-point drift; see `q_renorm`.
    pub fn renormalize(self) -> (r: Quat)
        requires
            q_in(self@, 0x4000_0000_0000),
        ensures
            r@ == q_renorm(self@),
            q_near_unit(r@),
    {
        let s = self.mag_sq();
        if s >= 1 {
            let ghost n: nat = (s as u128) as nat;
            proof {
                lemma_isqrt_bracket(n);
            }
            let m = isqrt(s as u128);
            proof {
                assert(n == s as int);
                assert(m as int >= 1) by (nonlinear_arith)
                    requires
                        s as int >= 1,
                        (m as int + 1) * (m as int + 1) > s as int,
                        m as int >= 0,
                ;
                assert(iabs(self@.w) <= m as int && iabs(self@.x) <= m as int && iabs(self@.y)
                    <= m as int && iabs(self@.z) <= m as int) by (nonlinear_arith)
                    requires
                        s as int == self@.w * self@.w + self@.x * self@.x + self@.y * self@.y
                            + self@.z * self@.z,
                        (m as int + 1) * (m as int + 1) > s as int,
                        m as int >= 0,
                ;
                lemma_mul_abs(self@.w, FP as int, m as int, FP as int);
                lemma_mul_abs(self@.x, FP as int, m as int, FP as int);
                lemma_mul_abs(self@.y, FP as int, m as int, FP as int);
                lemma_mul_abs(self@.z, FP as int, m as int, FP as int);
                lemma_tdiv_cap(self@.w * FP as int, m as int, FP as int);
                lemma_tdiv_cap(self@.x * FP as int, m as int, FP as int);
                lemma_tdiv_cap(self@.y * FP as int, m as int, FP as int);
                lemma_tdiv_cap(self@.z * FP as int, m as int, FP as int);
            }
            let mi = m as i128;
            let w = div_t(self.w as i128 * FP as i128, mi) as i64;
            let x = div_t(self.x as i128 * FP as i128, mi) as i64;
            let y = div_t(self.y as i128 * FP as i128, mi) as i64;
            let z = div_t(self.z as i128 * FP as i128, mi) as i64;
            let c = Quat { w, x, y, z };
            let cm = c.mag_sq();
            if 4294967296 - 64 * 65536 <= cm && cm <= 4294967296 + 64 * 65536 {
                c
            } else {
                Quat::one()
            }
        } else {
            Quat::one()
        }
    }
}

} // verus!
