use raycast::{Color, Sphere, Vec3, World, FP};

fn red() -> Color {
    Color { r: 255, g: 0, b: 0 }
}

fn blue() -> Color {
    Color { r: 0, g: 0, b: 255 }
}

fn bg() -> Color {
    Color { r: 10, g: 20, b: 30 }
}

// An empty scene resolves every ray to the background color.
#[test]
fn empty_scene_is_background() {
    let w = World::new(Vec::new(), bg()).unwrap();
    assert_eq!(w.intersect(Vec3::zero(), Vec3::i()), bg());
    assert_eq!(w.intersect(Vec3::new(FP, -FP, 3), Vec3::new(17, -4, 99)), bg());
}

// A sphere dead ahead on the ray axis is hit; a ray pointed well away from
// it resolves to the background.
#[test]
fn single_sphere_ahead() {
    let s = Sphere { center: Vec3::new(10 * FP, 0, 0), radius: FP, color: red() };
    let w = World::new(vec![s], bg()).unwrap();
    assert_eq!(w.intersect(Vec3::zero(), Vec3::i()), red());
    assert_eq!(w.intersect(Vec3::zero(), Vec3::j()), bg());
    assert_eq!(w.intersect(Vec3::zero(), Vec3::new(-FP, 0, 0)), bg());
}

// Of two spheres on the same ray the nearer one wins, whatever the order
// they are listed in.
#[test]
fn nearest_sphere_wins() {
    let far = Sphere { center: Vec3::new(10 * FP, 0, 0), radius: FP, color: red() };
    let near = Sphere { center: Vec3::new(5 * FP, 0, 0), radius: FP, color: blue() };
    let w1 = World::new(vec![far, near], bg()).unwrap();
    assert_eq!(w1.intersect(Vec3::zero(), Vec3::i()), blue());
    let w2 = World::new(vec![near, far], bg()).unwrap();
    assert_eq!(w2.intersect(Vec3::zero(), Vec3::i()), blue());
}

// A zero direction vector is a degenerate ray: only a sphere whose surface
// or interior contains the origin point is hit, and the nearest (here the
// only) such sphere's color is returned, not a distant sphere's.
#[test]
fn zero_direction_hits_only_enclosing_sphere() {
    let far = Sphere { center: Vec3::new(10 * FP, 0, 0), radius: FP, color: red() };
    let enclosing = Sphere { center: Vec3::zero(), radius: FP, color: blue() };
    let w = World::new(vec![far, enclosing], bg()).unwrap();
    assert_eq!(w.intersect(Vec3::zero(), Vec3::zero()), blue());
    let w2 = World::new(vec![far], bg()).unwrap();
    assert_eq!(w2.intersect(Vec3::zero(), Vec3::zero()), bg());
}

// Intersections behind the ray origin are ignored.
#[test]
fn behind_origin_is_ignored() {
    let behind = Sphere { center: Vec3::new(-10 * FP, 0, 0), radius: FP, color: red() };
    let w = World::new(vec![behind], bg()).unwrap();
    assert_eq!(w.intersect(Vec3::zero(), Vec3::i()), bg());
}

// Scene construction rejects out-of-band geometry and keeps what was given.
#[test]
fn scene_construction_checks_bounds() {
    let huge = Sphere { center: Vec3::new(i64::MAX / 2, 0, 0), radius: FP, color: red() };
    assert!(World::new(vec![huge], bg()).is_none());
    let ok = Sphere { center: Vec3::new(2 * FP, 0, 0), radius: FP, color: red() };
    let w = World::new(vec![ok], bg()).unwrap();
    assert_eq!(w.spheres.len(), 1);
    assert_eq!(w.background, bg());
}
