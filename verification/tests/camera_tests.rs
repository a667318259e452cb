use raycast::{Action, Camera, Color, Quat, Sphere, Transform, Vec3, World, FP};

fn bg() -> Color {
    Color { r: 10, g: 20, b: 30 }
}

fn red() -> Color {
    Color { r: 255, g: 0, b: 0 }
}

fn base_camera() -> Camera {
    Camera::new(
        Transform { position: Vec3::zero(), rotation: Quat::one() },
        60 * FP,
        2 * FP,
    )
    .unwrap()
}

// A sphere dead ahead on the camera's forward axis: the center screen
// coordinate resolves to its color, a coordinate far outside its angular
// footprint resolves to the background.
#[test]
fn center_pixel_hits_on_axis_sphere() {
    let s = Sphere { center: Vec3::new(10 * FP, 0, 0), radius: FP, color: red() };
    let w = World::new(vec![s], bg()).unwrap();
    let cam = base_camera();
    assert_eq!(cam.get_px(&w, 0, 0), red());
    assert_eq!(cam.get_px(&w, 1000, 0), bg());
    assert_eq!(cam.get_px(&w, 0, -1000), bg());
}

// A sphere toward the camera's left appears on the left half of the screen
// and not on the right half: the image-plane mapping and the movement
// names agree about the axes.
#[test]
fn left_sphere_appears_on_left_half() {
    let s = Sphere { center: Vec3::new(10 * FP, FP, 0), radius: FP, color: red() };
    let w = World::new(vec![s], bg()).unwrap();
    let cam = base_camera();
    assert_eq!(cam.get_px(&w, -12, 0), red());
    assert_eq!(cam.get_px(&w, 12, 0), bg());
}

// An empty scene resolves every screen coordinate to the background.
#[test]
fn get_px_empty_scene() {
    let w = World::new(Vec::new(), bg()).unwrap();
    let cam = base_camera();
    assert_eq!(cam.get_px(&w, 0, 0), bg());
    assert_eq!(cam.get_px(&w, -1024, 1024), bg());
}

// One directional move with the identity orientation displaces by the speed
// constant times the elapsed time, straight along the axis.
#[test]
fn apply_action_moves_forward() {
    let mut cam = base_camera();
    let moved = cam.apply_actions(&vec![Action::MoveForward], FP);
    assert!(moved);
    assert_eq!(cam.transform.position, Vec3::new(3 * FP, 0, 0));
    assert_eq!(cam.focal_length, 2 * FP);
}

// The focal-only actions adjust the focal length by the speed times the
// elapsed time, without translating; it may go negative.
#[test]
fn apply_action_focal_only() {
    let mut cam = base_camera();
    cam.apply_actions(&vec![Action::Widen], FP);
    assert_eq!(cam.focal_length, 5 * FP);
    assert_eq!(cam.transform.position, Vec3::zero());
    cam.apply_actions(&vec![Action::Narrow, Action::Narrow, Action::Narrow], FP);
    assert_eq!(cam.focal_length, -4 * FP);
}

// The combined action moves and adjusts the focal length in one tick.
#[test]
fn apply_action_combined() {
    let mut cam = base_camera();
    cam.apply_actions(&vec![Action::ForwardNarrow], FP);
    assert_eq!(cam.transform.position, Vec3::new(3 * FP, 0, 0));
    assert_eq!(cam.focal_length, -FP);
}

// A rotation action leaves position and focal length alone and keeps the
// orientation a unit orientation.
#[test]
fn apply_action_rotate() {
    let mut cam = base_camera();
    let delta = Quat { w: 65535, x: 655, y: 0, z: 0 };
    let moved = cam.apply_actions(&vec![Action::Rotate(delta)], FP);
    assert!(moved);
    assert_eq!(cam.transform.position, Vec3::zero());
    assert_eq!(cam.focal_length, 2 * FP);
    let q = cam.transform.rotation;
    let m = q.w * q.w + q.x * q.x + q.y * q.y + q.z * q.z;
    assert!(FP * FP - 64 * FP <= m && m <= FP * FP + 64 * FP);
}

// An empty action list does nothing and does not request a redraw.
#[test]
fn no_actions_no_movement() {
    let mut cam = base_camera();
    let moved = cam.apply_actions(&Vec::new(), FP);
    assert!(!moved);
    assert_eq!(cam.transform.position, Vec3::zero());
}

// Camera construction rejects an out-of-band pixel scale.
#[test]
fn camera_construction_checks_bounds() {
    let t = Transform { position: Vec3::zero(), rotation: Quat::one() };
    assert!(Camera::new(t, 0, 2 * FP).is_none());
    assert!(Camera::new(t, 60 * FP, i64::MAX / 2).is_none());
    assert!(Camera::new(t, 60 * FP, 2 * FP).is_some());
}
