//! Per-pixel frame fill. Each 4-byte slot of a row-major RGBA frame buffer
//! is a pure function of the camera, the scene, the frame dimensions and the
//! slot's linear index alone, so slots can be computed in any order and
//! concurrently — varying the degree of parallelism cannot change a pixel.
//! A sequential whole-frame fill is provided and proved against the same
//! per-slot description that `render_px` carries.

use vstd::prelude::*;
use vstd::arithmetic::div_mod::{lemma_fundamental_div_mod_converse, lemma_multiply_divide_lt, lemma_fundamental_div_mod};
use crate::camera::{Camera, camera_wf, ray_dir_spec};
use crate::world::{World, Color, world_wf, intersect_spec};

verus! {

/// The color of the pixel at linear index `i` of a `width` by `height`
/// frame: its centered screen coordinate resolved through the camera.
pub open spec fn px_color_spec(c: Camera, w: World, width: int, height: int, i: int) -> Color {
    let xs = i % width - width / 2;
    let ys = i / width - height / 2;
    intersect_spec(w, c.transform.position@, ray_dir_spec(c, xs, ys))
}

/// The byte at offset `j` of the frame: the pixel's channel, `j % 4`
/// selecting red, green, blue or the fixed full-opacity alpha.
pub open spec fn frame_byte_spec(c: Camera, w: World, width: int, height: int, j: int) -> u8 {
    let col = px_color_spec(c, w, width, height, j / 4);
    if j % 4 == 0 {
        col.r
    } else if j % 4 == 1 {
        col.g
    } else if j % 4 == 2 {
        col.b
    } else {
        255u8
    }
}

/// The whole frame as a byte sequence.
pub open spec fn frame_spec(c: Camera, w: World, width: int, height: int) -> Seq<u8> {
    Seq::new((4 * width * height) as nat, |j: int| frame_byte_spec(c, w, width, height, j))
}

/// Render one pixel slot: the four RGBA bytes of linear index `i`.
pub fn render_px(c: &Camera, w: &World, width: usize, height: usize, i: usize) -> (px: [u8; 4])
    requires
        camera_wf(*c),
        world_wf(*w),
        0 < width <= 2048,
        0 < height <= 2048,
        i < width * height,
    ensures
        px@ == seq![
            frame_byte_spec(*c, *w, width as int, height as int, 4 * i as int),
            frame_byte_spec(*c, *w, width as int, height as int, 4 * i as int + 1),
            frame_byte_spec(*c, *w, width as int, height as int, 4 * i as int + 2),
            frame_byte_spec(*c, *w, width as int, height as int, 4 * i as int + 3),
        ],
{
    proof {
        lemma_multiply_divide_lt(i as int, width as int, height as int);
        lemma_fundamental_div_mod(i as int, width as int);
        lemma_fundamental_div_mod_converse(4 * i as int, 4, i as int, 0);
        lemma_fundamental_div_mod_converse(4 * i as int + 1, 4, i as int, 1);
        lemma_fundamental_div_mod_converse(4 * i as int + 2, 4, i as int, 2);
        lemma_fundamental_div_mod_converse(4 * i as int + 3, 4, i as int, 3);
    }
    let x = i % width;
    let y = i / width;
    let xs = x as i64 - (width / 2) as i64;
    let ys = y as i64 - (height / 2) as i64;
    let col = c.get_px(w, xs, ys);
    let px: [u8; 4] = [col.r, col.g, col.b, 255];
    proof {
        assert(px@ =~= seq![col.r, col.g, col.b, 255u8]);
    }
    px
}

/// Fill a whole frame sequentially, slot by slot. The contract makes the
/// result equal to `frame_spec`, byte for byte: any schedule that writes
/// each slot from `render_px` — one worker or many — produces this frame.
pub fn fill_frame(frame: &mut Vec<u8>, c: &Camera, w: &World, width: usize, height: usize)
    requires
        camera_wf(*c),
        world_wf(*w),
        0 < width <= 2048,
        0 < height <= 2048,
        old(frame)@.len() == 4 * width * height,
    ensures
        final(frame)@ == frame_spec(*c, *w, width as int, height as int),
{
    proof {
        assert(width * height <= 2048 * 2048) by (nonlinear_arith)
            requires
                0 < width <= 2048,
                0 < height <= 2048,
        ;
        assert(4 * (width * height) == 4 * width * height) by (nonlinear_arith);
    }
    let n = width * height;
    let mut i: usize = 0;
    while i < n
        invariant
            i <= n,
            n == width * height,
            n <= 2048 * 2048,
            4 * n == 4 * width * height,
            camera_wf(*c),
            world_wf(*w),
            0 < width <= 2048,
            0 < height <= 2048,
            frame@.len() == 4 * n,
            forall|j: int| 0 <= j < 4 * i ==> frame@[j] == frame_byte_spec(
                *c,
                *w,
                width as int,
                height as int,
                j,
            ),
        decreases n - i,
    {
        let px = render_px(c, w, width, height, i);
        frame.set(4 * i, px[0]);
        frame.set(4 * i + 1, px[1]);
        frame.set(4 * i + 2, px[2]);
        frame.set(4 * i + 3, px[3]);
        i += 1;
    }
    proof {
        assert(frame@ =~= frame_spec(*c, *w, width as int, height as int));
    }

}

/// Parallel-determinism of the fill: two frames that both satisfy the
/// per-slot description — however their slots were scheduled — are
/// bit-identical.
pub proof fn lemma_fill_deterministic(a: Seq<u8>, b: Seq<u8>, c: Camera, w: World, width: int, height: int)
    requires
        a == frame_spec(c, w, width, height),
        b == frame_spec(c, w, width, height),
    ensures
        a == b,
{
}

} // verus!
