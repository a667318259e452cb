//! The scene: an immutable, ordered collection of flat-colored spheres with
//! one background color, answering nearest-hit ray queries.
//!
//! A ray hit is compared by a scaled distance numerator (the same positive
//! denominator for every sphere on one ray), so the nearest hit can be chosen
//! by exact integer comparison. Intersections behind the ray origin are
//! ignored; if no sphere qualifies the background color is returned.

use vstd::prelude::*;
use crate::fixed::{isqrt_s, lemma_isqrt_bracket, isqrt};
use crate::math::{Vec3, VecI, v_sub, v_dot, v_in, lemma_mul_abs, lemma_dot_bound};

verus! {

/// Largest representable position/radius component (world geometry band).
pub const VMAX: i64 = 16777216;

/// Largest representable ray-direction component.
pub const DIR_MAX: i64 = 34359738368;

/// A flat color, three 8-bit channels.
#[derive(Clone, Copy, PartialEq, Eq, Structural, Debug)]
pub struct Color {
    pub r: u8,
    pub g: u8,
    pub b: u8,
}

/// A sphere with a flat color.
#[derive(Clone, Copy, PartialEq, Eq, Structural, Debug)]
pub struct Sphere {
    pub center: Vec3,
    pub radius: i64,
    pub color: Color,
}

/// The scene: spheres in order, and the background color.
pub struct World {
    pub spheres: Vec<Sphere>,
    pub background: Color,
}

pub open spec fn sphere_wf(s: Sphere) -> bool {
    &&& v_in(s.center@, VMAX as int)
    &&& 0 <= s.radius <= VMAX
}

pub open spec fn world_wf(w: World) -> bool {
    forall|i: int| 0 <= i < w.spheres@.len() ==> sphere_wf(#[trigger] w.spheres@[i])
}

/// The scaled distance numerator at which a ray from `o` along `d` first
/// meets the sphere `(c, rad)`, if it does: the smaller non-negative root of
/// the ray-sphere quadratic, scaled by the positive constant `2 * |d|^2`,
/// with the square root taken as the integer square root. A zero direction
/// is degenerate: the ray is the single point `o`, so it hits exactly the
/// spheres whose surface or interior contains `o`, at distance zero.
pub open spec fn hit_num(o: VecI, d: VecI, c: VecI, rad: int) -> Option<int> {
    let oc = v_sub(o, c);
    let a = v_dot(d, d);
    let b = 2 * v_dot(d, oc);
    let k = v_dot(oc, oc) - rad * rad;
    let disc = b * b - 4 * (a * k);
    if a == 0 {
        if k <= 0 {
            Option::Some(0)
        } else {
            Option::None
        }
    } else if disc < 0 {
        Option::None
    } else {
        let sq = isqrt_s(disc as nat) as int;
        if -b - sq >= 0 {
            Option::Some(-b - sq)
        } else if -b + sq >= 0 {
            Option::Some(-b + sq)
        } else {
            Option::None
        }
    }
}

/// The nearest hit among a sequence of spheres: its color and numerator.
/// On equal numerators the earlier sphere wins.
pub open spec fn best_hit(s: Seq<Sphere>, o: VecI, d: VecI) -> Option<(Color, int)>
    decreases s.len(),
{
    if s.len() == 0 {
        Option::None
    } else {
        let pre = best_hit(s.drop_last(), o, d);
        match hit_num(o, d, s.last().center@, s.last().radius as int) {
            Option::None => pre,
            Option::Some(nl) => match pre {
                Option::None => Option::Some((s.last().color, nl)),
                Option::Some(p) => if nl < p.1 {
                    Option::Some((s.last().color, nl))
                } else {
                    pre
                },
            },
        }
    }
}

/// The color a ray resolves to: the nearest hit's color, or the background.
pub open spec fn intersect_spec(w: World, o: VecI, d: VecI) -> Color {
    match best_hit(w.spheres@, o, d) {
        Option::None => w.background,
        Option::Some(p) => p.0,
    }
}

/// `r` carries the same hit numerator as the model `n`.
pub open spec fn opt_matches(r: Option<i128>, n: Option<int>) -> bool {
    match r {
        Option::None => n is None,
        Option::Some(a) => n == Option::Some(a as int),
    }
}

/// `r` carries the same color and hit numerator as the model `n`.
pub open spec fn best_matches(r: Option<(Color, i128)>, n: Option<(Color, int)>) -> bool {
    match r {
        Option::None => n is None,
        Option::Some(p) => n == Option::Some((p.0, p.1 as int)),
    }
}

/// The ray-sphere test, exact in 128-bit arithmetic.
fn sphere_hit(o: Vec3, d: Vec3, s: &Sphere) -> (r: Option<i128>)
    requires
        v_in(o@, VMAX as int),
        v_in(d@, DIR_MAX as int),
        sphere_wf(*s),
    ensures
        opt_matches(r, hit_num(o@, d@, s.center@, s.radius as int)),
{
    let oc = o.sub(s.center);
    proof {
        lemma_dot_bound(d@, d@, DIR_MAX as int, DIR_MAX as int);
        lemma_dot_bound(d@, v_sub(o@, s.center@), DIR_MAX as int, (0x2_000_000 as int));
        lemma_dot_bound(
            v_sub(o@, s.center@),
            v_sub(o@, s.center@),
            (0x2_000_000 as int),
            (0x2_000_000 as int),
        );
        lemma_mul_abs(s.radius as int, s.radius as int, VMAX as int, VMAX as int);
    }
    let a = d.dot(d);
    let b2 = d.dot(oc);
    let b = 2 * b2;
    let rr = s.radius as i128 * s.radius as i128;
    let k = oc.dot(oc) - rr;
    proof {
        lemma_mul_abs(b as int, b as int, 0x6000_0000_0000_0000, 0x6000_0000_0000_0000);
        lemma_mul_abs(a as int, k as int, 0xC0_0000_0000_0000_0000, 0xD_0000_0000_0000);
    }
    let disc = b * b - 4 * (a * k);
    if a == 0 {
        if k <= 0 {
            Some(0)
        } else {
            None
        }
    } else if disc < 0 {
        None
    } else {
        proof {
            lemma_isqrt_bracket((disc as u128) as nat);
        }
        let sq = isqrt(disc as u128) as i128;
        if -b - sq >= 0 {
            Some(-b - sq)
        } else if -b + sq >= 0 {
            Some(-b + sq)
        } else {
            None
        }
    }
}

impl World {
    /// Build a scene, checking every sphere against the geometry band.
    /// Returns the scene exactly as given when all spheres are in range,
    /// nothing otherwise.
    pub fn new(spheres: Vec<Sphere>, background: Color) -> (r: Option<World>)
        ensures
            (forall|i: int| 0 <= i < spheres@.len() ==> sphere_wf(#[trigger] spheres@[i]))
                <==> r is Some,
            r is Some ==> r.unwrap().spheres@ == spheres@ && r.unwrap().background == background
                && world_wf(r.unwrap()),
    {
        let n = spheres.len();
        let mut i: usize = 0;
        while i < n
            invariant
                i <= n,
                n == spheres@.len(),
                forall|j: int| 0 <= j < i ==> sphere_wf(#[trigger] spheres@[j]),
            decreases n - i,
        {
            let s = spheres[i];
            if !(-VMAX <= s.center.x && s.center.x <= VMAX && -VMAX <= s.center.y && s.center.y
                <= VMAX && -VMAX <= s.center.z && s.center.z <= VMAX && 0 <= s.radius && s.radius
                <= VMAX) {
                return None;
            }
            i += 1;
        }
        Some(World { spheres, background })
    }

    /// Resolve a ray against the scene: the color of the nearest sphere hit
    /// at non-negative distance, else the background color. In particular an
    /// empty scene resolves every ray to the background color.
    pub fn intersect(&self, o: Vec3, d: Vec3) -> (r: Color)
        requires
            world_wf(*self),
            v_in(o@, VMAX as int),
            v_in(d@, DIR_MAX as int),
        ensures
            r == intersect_spec(*self, o@, d@),
            self.spheres@.len() == 0 ==> r == self.background,
    {
        let n = self.spheres.len();
        let mut best: Option<(Color, i128)> = None;
        let mut i: usize = 0;
        while i < n
            invariant
                i <= n,
                n == self.spheres@.len(),
                world_wf(*self),
                v_in(o@, VMAX as int),
                v_in(d@, DIR_MAX as int),
                best_matches(best, best_hit(self.spheres@.take(i as int), o@, d@)),
            decreases n - i,
        {
            let s = &self.spheres[i];
            let h = sphere_hit(o, d, s);
            match h {
                Some(num) => {
                    match best {
                        None => {
                            best = Some((s.color, num));
                        },
                        Some(p) => {
                            if num < p.1 {
                                best = Some((s.color, num));
                            }
                        },
                    }
                },
                None => {},
            }
            proof {
                assert(self.spheres@.take(i as int + 1).drop_last() =~= self.spheres@.take(
                    i as int,
                ));
                assert(self.spheres@.take(i as int + 1).last() == self.spheres@[i as int]);
            }
            i += 1;
        }
        proof {
            assert(self.spheres@.take(n as int) =~= self.spheres@);
        }
        match best {
            None => self.background,
            Some(p) => p.0,
        }
    }
}

} // verus!
