use rayon::iter::{IndexedParallelIterator, ParallelIterator};
use rayon::slice::ParallelSliceMut;
use raycast::{fill_frame, render_px, Camera, Color, Quat, Sphere, Transform, Vec3, World, FP};

fn bg() -> Color {
    Color { r: 7, g: 8, b: 9 }
}

fn scene() -> World {
    let s = Sphere { center: Vec3::new(10 * FP, 0, 0), radius: 2 * FP, color: Color { r: 200, g: 100, b: 50 } };
    World::new(vec![s], bg()).unwrap()
}

fn camera() -> Camera {
    Camera::new(
        Transform { position: Vec3::zero(), rotation: Quat::one() },
        60 * FP,
        2 * FP,
    )
    .unwrap()
}

// Every slot of an empty-scene frame is the background color with full
// opacity.
#[test]
fn fill_empty_scene_is_background() {
    let w = World::new(Vec::new(), bg()).unwrap();
    let cam = camera();
    let mut frame = vec![0u8; 4 * 8 * 8];
    fill_frame(&mut frame, &cam, &w, 8, 8);
    for slot in frame.chunks_exact(4) {
        assert_eq!(slot, &[7, 8, 9, 255]);
    }
}

// The parallel fill is bit-identical to the sequential fill: each slot is a
// pure function of the camera, the scene and its index, so the degree of
// parallelism cannot change a pixel.
#[test]
fn parallel_fill_matches_sequential() {
    let w = scene();
    let cam = camera();
    let width = 32usize;
    let height = 24usize;
    let mut sequential = vec![0u8; 4 * width * height];
    fill_frame(&mut sequential, &cam, &w, width, height);
    let mut parallel = vec![0u8; 4 * width * height];
    parallel
        .par_chunks_exact_mut(4)
        .enumerate()
        .for_each(|(i, slot)| {
            let px = render_px(&cam, &w, width, height, i);
            slot.copy_from_slice(&px);
        });
    assert_eq!(sequential, parallel);
}

// The center slot of the frame sees the on-axis sphere.
#[test]
fn center_slot_sees_sphere() {
    let w = scene();
    let cam = camera();
    let width = 16usize;
    let height = 16usize;
    let i = 8 * width + 8;
    let px = render_px(&cam, &w, width, height, i);
    assert_eq!(px, [200, 100, 50, 255]);
}
