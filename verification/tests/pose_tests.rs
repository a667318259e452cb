use raycast::{Quat, Transform, Vec3, FP};

// With the identity orientation, a local move is a straight world move.
#[test]
fn translate_local_identity_orientation() {
    let mut t = Transform { position: Vec3::zero(), rotation: Quat::one() };
    t.translate_local(Vec3::new(3 * FP, 0, 0), 100);
    assert_eq!(t.position, Vec3::new(300, 0, 0));
    assert_eq!(t.rotation, Quat::one());
}

// Movement displacement scales linearly in elapsed time: doubling the
// elapsed time doubles the displacement, beyond one second too.
#[test]
fn translate_local_scales_linearly_long() {
    let mut a = Transform { position: Vec3::zero(), rotation: Quat::one() };
    let mut b = Transform { position: Vec3::zero(), rotation: Quat::one() };
    a.translate_local(Vec3::new(3 * FP, 0, 0), 2 * FP);
    b.translate_local(Vec3::new(3 * FP, 0, 0), 4 * FP);
    assert_eq!(a.position, Vec3::new(6 * FP, 0, 0));
    assert_eq!(b.position, Vec3::new(12 * FP, 0, 0));
}

// Movement displacement scales linearly in elapsed time: doubling the
// elapsed time doubles the displacement.
#[test]
fn translate_local_scales_linearly() {
    let mut a = Transform { position: Vec3::zero(), rotation: Quat::one() };
    let mut b = Transform { position: Vec3::zero(), rotation: Quat::one() };
    a.translate_local(Vec3::new(3 * FP, -2 * FP, FP), 128);
    b.translate_local(Vec3::new(3 * FP, -2 * FP, FP), 256);
    assert_eq!(b.position.x, 2 * a.position.x);
    assert_eq!(b.position.y, 2 * a.position.y);
    assert_eq!(b.position.z, 2 * a.position.z);
}

// An incremental local rotation leaves the position alone and keeps the
// orientation a unit orientation within the drift tolerance.
#[test]
fn rotate_local_keeps_unit_orientation() {
    let mut t = Transform { position: Vec3::new(FP, FP, FP), rotation: Quat::one() };
    let delta = Quat { w: 65535, x: 0, y: 655, z: 0 };
    for _ in 0..100 {
        t.rotate_local(delta);
        let q = t.rotation;
        let m = q.w * q.w + q.x * q.x + q.y * q.y + q.z * q.z;
        assert!(FP * FP - 64 * FP <= m && m <= FP * FP + 64 * FP);
    }
    assert_eq!(t.position, Vec3::new(FP, FP, FP));
}
