use raycast::{Quat, Vec3, FP};

// The identity orientation leaves a vector exactly unchanged.
#[test]
fn rotate_by_identity_is_identity() {
    let v = Vec3::new(100000, -2345, 777);
    let r = v.rotate(Quat::one());
    assert_eq!(r, v);
    let z = Vec3::zero().rotate(Quat::one());
    assert_eq!(z, Vec3::zero());
}

// Rotating by a near-unit orientation keeps the magnitude within tolerance.
#[test]
fn rotate_preserves_magnitude_within_tolerance() {
    let q = Quat { w: 65535, x: 655, y: 0, z: 0 }.renormalize();
    let v = Vec3::new(FP, 3 * FP, -2 * FP);
    let r = v.rotate(q);
    let mag = |a: Vec3| -> i128 {
        a.x as i128 * a.x as i128 + a.y as i128 * a.y as i128 + a.z as i128 * a.z as i128
    };
    let m0 = mag(v);
    let m1 = mag(r);
    let diff = if m1 > m0 { m1 - m0 } else { m0 - m1 };
    // within 1% of the squared magnitude
    assert!(diff * 100 < m0);
}

// Renormalizing the identity gives back the identity.
#[test]
fn renormalize_identity() {
    assert_eq!(Quat::one().renormalize(), Quat::one());
}

// Ten thousand incremental local rotations keep the orientation magnitude
// within the drift tolerance of one.
#[test]
fn repeated_rotation_drift_is_bounded() {
    let delta = Quat { w: 65535, x: 655, y: 0, z: 0 };
    let mut q = Quat::one();
    for _ in 0..10000 {
        q = q.mul(delta).renormalize();
        let m = q.w as i64 * q.w as i64 + q.x as i64 * q.x as i64 + q.y as i64 * q.y as i64
            + q.z as i64 * q.z as i64;
        let unit = FP * FP;
        assert!(unit - 64 * FP <= m && m <= unit + 64 * FP);
    }
}

// Axis constructors are unit vectors at fixed-point scale.
#[test]
fn axis_vectors() {
    assert_eq!(Vec3::i(), Vec3::new(FP, 0, 0));
    assert_eq!(Vec3::j(), Vec3::new(0, FP, 0));
    assert_eq!(Vec3::k(), Vec3::new(0, 0, FP));
}

// Vector addition, subtraction and fixed-point scaling are exact.
#[test]
fn vector_arithmetic() {
    let a = Vec3::new(FP, 2 * FP, -FP);
    let b = Vec3::new(3, -3, 3);
    assert_eq!(a.add(b), Vec3::new(FP + 3, 2 * FP - 3, -FP + 3));
    assert_eq!(a.sub(b), Vec3::new(FP - 3, 2 * FP + 3, -FP - 3));
    // scaling by 0.5 in fixed point halves each component
    let h = a.scale_fp(FP / 2);
    assert_eq!(h, Vec3::new(FP / 2, FP, -FP / 2));
}
