//! The recursive integrator and the per-pixel sampling loop.

use vstd::prelude::*;
use crate::camera::{camera_ray_spec, Camera};
use crate::data::{v_add, v_magsq, v_mul_elem, v_scale, Color, Vec3};
use crate::fixed::{
    fp_add, fp_add_spec, fp_div, fp_div_count, fp_div_spec, fp_mul, fp_mul_spec, fp_sqrt,
    fp_sqrt_spec, fp_sub, fp_sub_spec, sat, tdiv, HALF, ONE, SCALE,
};
use crate::math::{clamp, clamp_spec};
use vstd::arithmetic::div_mod::{lemma_div_is_ordered, lemma_div_pos_is_pos};
use crate::math::{rng_next, rng_unit, Rng};
use crate::world::{list_hit_from, Hittable, Intersection, ObjectList, Ray, Sphere};

verus! {

/// The `t` lower bound of secondary rays: a small positive epsilon that
/// excludes self-intersection at the scattering point (about `0.001`).
pub const T_EPSILON: i64 = 66;

/// The `t` upper bound of primary visibility: effectively infinity, the
/// saturation bound of the fixed-point range.
pub const T_INFINITY: i64 = 0x7fff_ffff_ffff_ffff;

/// Black: the color of an exhausted or absorbed ray.
pub open spec fn black() -> Color {
    Color(Vec3 { x: 0i64, y: 0i64, z: 0i64 })
}

/// The sky's zenith color, a light blue.
pub open spec fn sky_blue() -> Color {
    Color(Vec3 { x: 32768i64, y: 45875i64, z: 65536i64 })
}

/// The background gradient: white at the horizon blended toward sky blue
/// with the ray's vertical component.
pub open spec fn background_spec(ray: Ray) -> Color {
    let unit_dir = crate::data::v_norm(ray.dir);
    let t = fp_mul_spec(HALF as int, fp_add_spec(unit_dir.y as int, ONE as int));
    Color(
        v_add(
            v_scale(fp_sub_spec(ONE as int, t), crate::material::white().0),
            v_scale(t, sky_blue().0),
        ),
    )
}

/// The background gradient a missed ray picks up.
pub fn background(ray: &Ray) -> (c: Color)
    requires
        v_magsq(ray.dir) > 0,
    ensures
        c == background_spec(*ray),
{
    let unit_dir: Vec3 = ray.dir.normalize();
    let t: i64 = fp_mul(HALF, fp_add(unit_dir.y, ONE));
    let white = Color(Vec3 { x: ONE, y: ONE, z: ONE });
    let blue = Color(Vec3 { x: 32768, y: 45875, z: 65536 });
    white.mul(fp_sub(ONE, t)).add(blue.mul(t))
}

/// A hit returned by the scene scan carries the material of one of the
/// scene's spheres, so it is well formed whenever every sphere is.
pub proof fn lemma_list_hit_wf(
    objs: Seq<Sphere>,
    i: int,
    ray: Ray,
    t_min: i64,
    best: Option<Intersection>,
    closest: i64,
)
    requires
        forall|k: int| 0 <= k < objs.len() ==> objs[k].wf(),
        (match best {
            Option::Some(b) => b.material.wf(),
            Option::None => true,
        }),
    ensures
        (match list_hit_from(objs, i, ray, t_min, best, closest) {
            Option::Some(h) => h.material.wf(),
            Option::None => true,
        }),
    decreases objs.len() - i,
{
    if 0 <= i < objs.len() {
        match objs[i].hit_spec(ray, t_min, closest) {
            Option::Some(h) => {
                assert(h.material == objs[i].material);
                lemma_list_hit_wf(objs, i + 1, ray, t_min, Option::Some(h), h.t);
            },
            Option::None => {
                lemma_list_hit_wf(objs, i + 1, ray, t_min, best, closest);
            },
        }
    }
}

/// The light a ray gathers, and the generator state afterwards: black when
/// the bounce budget is exhausted; on a hit, the scatter's attenuation times
/// the light of the scattered ray (black when the scatter absorbs, or when
/// rounding degenerates the surface normal or the scattered direction); on a
/// miss, the background gradient.
pub open spec fn ray_color_spec(ray: Ray, objs: Seq<Sphere>, depth: i32, s: u64) -> (Color, u64)
    decreases depth,
{
    if depth <= 0 {
        (black(), s)
    } else {
        match list_hit_from(objs, 0, ray, T_EPSILON, Option::None, T_INFINITY) {
            Option::Some(h) => {
                if v_magsq(h.normal) > 0 {
                    let (sc, s2) = h.material.scatter_spec(ray, h, s);
                    match sc {
                        Option::Some(pair) => {
                            if v_magsq(pair.1.dir) > 0 {
                                let (c, s3) = ray_color_spec(pair.1, objs, (depth - 1) as i32, s2);
                                (Color(v_mul_elem(pair.0.0, c.0)), s3)
                            } else {
                                (black(), s2)
                            }
                        },
                        Option::None => (black(), s2),
                    }
                } else {
                    (black(), s)
                }
            },
            Option::None => (background_spec(ray), s),
        }
    }
}

/// The recursive integrator: walk ray, hit, scatter, and recurse until the
/// ray misses, is absorbed, or the bounce budget runs out.
pub fn ray_color(ray: &Ray, world: &ObjectList<Sphere>, depth: i32, rng: &mut Rng) -> (c: Color)
    requires
        v_magsq(ray.dir) > 0,
        forall|k: int| 0 <= k < world.objects@.len() ==> world.objects@[k].wf(),
    ensures
        c == ray_color_spec(*ray, world.objects@, depth, old(rng).state).0,
        final(rng).state == ray_color_spec(*ray, world.objects@, depth, old(rng).state).1,
        depth <= 0 ==> c == black(),
    decreases depth,
{
    if depth <= 0 {
        return Color(Vec3 { x: 0, y: 0, z: 0 });
    }

    proof {
        assert forall|k: int| 0 <= k < world.objects@.len() implies world.objects@[k].radius
            > 0 by {
            assert(world.objects@[k].wf());
        }
    }
    let found: Option<Intersection> = world.hit(ray, T_EPSILON, T_INFINITY);

    match found {
        Option::Some(intersection) => {
            proof {
                lemma_list_hit_wf(
                    world.objects@,
                    0,
                    *ray,
                    T_EPSILON,
                    Option::None,
                    T_INFINITY,
                );
            }
            if intersection.normal.magnitude_squared() > 0 {
                let scat: Option<(Color, Ray)> = intersection.material.scatter(
                    ray,
                    &intersection,
                    rng,
                );
                match scat {
                    Option::Some(pair) => {
                        let (attenuation, scattered): (Color, Ray) = pair;
                        if scattered.dir.magnitude_squared() > 0 {
                            let c: Color = ray_color(&scattered, world, depth - 1, rng);
                            attenuation.mul_elementwise(c)
                        } else {
                            Color(Vec3 { x: 0, y: 0, z: 0 })
                        }
                    },
                    Option::None => Color(Vec3 { x: 0, y: 0, z: 0 }),
                }
            } else {
                Color(Vec3 { x: 0, y: 0, z: 0 })
            }
        },
        Option::None => background(ray),
    }
}

/// An exhausted bounce budget yields black for any ray and scene, before
/// any scatter is evaluated: the generator state is untouched.
pub proof fn lemma_ray_color_exhausted(ray: Ray, objs: Seq<Sphere>, depth: i32, s: u64)
    requires
        depth <= 0,
    ensures
        ray_color_spec(ray, objs, depth, s) == (black(), s),
{
}

/// One output pixel: three gamma-corrected channels in `0..=255`.
#[derive(Copy, Clone, PartialEq, Eq, Structural, Debug)]
pub struct Pixel {
    pub r: u8,
    pub g: u8,
    pub b: u8,
}

/// The largest channel value gamma correction may keep: just under one.
pub const GAMMA_CLAMP: i64 = 65470;

/// One channel's journey from accumulated radiance to display value:
/// average over the sample count, treat a negative average (possible only
/// through rounding of degenerate directions) as zero, gamma-correct by
/// square root, clamp to just under one, and scale to `0..=255`.
pub open spec fn quantize_channel_spec(c: int, samples: int) -> int {
    let avg = sat(tdiv(c, samples));
    let lit = if avg < 0 {
        0
    } else {
        avg
    };
    let corrected = clamp_spec(fp_sqrt_spec(lit), 0, GAMMA_CLAMP as int);
    tdiv(corrected * 256, SCALE as int)
}

/// The pixel an accumulated color quantizes to.
pub open spec fn quantize_color_spec(c: Color, samples: int) -> Pixel {
    Pixel {
        r: quantize_channel_spec(c.0.x as int, samples) as u8,
        g: quantize_channel_spec(c.0.y as int, samples) as u8,
        b: quantize_channel_spec(c.0.z as int, samples) as u8,
    }
}

/// Average, gamma-correct and scale one channel.
pub fn quantize_channel(c: i64, samples: i64) -> (r: u8)
    requires
        samples > 0,
    ensures
        r as int == quantize_channel_spec(c as int, samples as int),
{
    let avg: i64 = fp_div_count(c, samples);
    let lit: i64 = if avg < 0 {
        0
    } else {
        avg
    };
    let corrected: i64 = clamp(fp_sqrt(lit), 0, GAMMA_CLAMP);
    proof {
        lemma_div_pos_is_pos(corrected as int * 256, SCALE as int);
        lemma_div_is_ordered(corrected as int * 256, 65470int * 256, SCALE as int);
    }
    let q: i64 = fp_div_count(corrected * 256, SCALE);
    q as u8
}

/// Average, gamma-correct and scale an accumulated color to a pixel.
pub fn quantize_color(color: Color, samples_per_pix: i64) -> (p: Pixel)
    requires
        samples_per_pix > 0,
    ensures
        p == quantize_color_spec(color, samples_per_pix as int),
{
    Pixel {
        r: quantize_channel(color.0.x, samples_per_pix),
        g: quantize_channel(color.0.y, samples_per_pix),
        b: quantize_channel(color.0.z, samples_per_pix),
    }
}

/// The jittered viewport coordinate of pixel index `idx` out of `extent`:
/// `(idx + draw) / (extent - 1)`.
pub open spec fn sample_frac(idx: int, extent: int, draw: int) -> int {
    fp_div_spec(idx * (SCALE as int) + draw, (extent - 1) * (SCALE as int))
}

/// The accumulated radiance of `k` further samples of pixel `(i, j)`,
/// starting from the accumulator `acc` and generator state `s`: each sample
/// draws a jitter for each axis, casts the camera ray, and adds what the
/// integrator gathers (black for a degenerate camera ray).
#[verifier::opaque]
pub open spec fn pixel_samples_spec(
    cam: Camera,
    objs: Seq<Sphere>,
    i: int,
    j: int,
    w: int,
    h: int,
    depth: i32,
    k: nat,
    acc: Color,
    s: u64,
) -> (Color, u64)
    decreases k,
{
    if k == 0 {
        (acc, s)
    } else {
        let su = rng_next(s);
        let sv = rng_next(su);
        let u = sample_frac(i, w, rng_unit(su));
        let v = sample_frac(j, h, rng_unit(sv));
        let ray = camera_ray_spec(cam, u, v);
        let (c, s3) = if v_magsq(ray.dir) > 0 {
            ray_color_spec(ray, objs, depth, sv)
        } else {
            (black(), sv)
        };
        pixel_samples_spec(
            cam,
            objs,
            i,
            j,
            w,
            h,
            depth,
            (k - 1) as nat,
            Color(v_add(acc.0, c.0)),
            s3,
        )
    }
}

/// One unfolding step of `pixel_samples_spec`.
proof fn lemma_pixel_samples_unfold(
    cam: Camera,
    objs: Seq<Sphere>,
    i: int,
    j: int,
    w: int,
    h: int,
    depth: i32,
    k: nat,
    acc: Color,
    s: u64,
)
    requires
        k > 0,
    ensures
        ({
            let su = rng_next(s);
            let sv = rng_next(su);
            let u = sample_frac(i, w, rng_unit(su));
            let v = sample_frac(j, h, rng_unit(sv));
            let ray = camera_ray_spec(cam, u, v);
            let (c, s3) = if v_magsq(ray.dir) > 0 {
                ray_color_spec(ray, objs, depth, sv)
            } else {
                (black(), sv)
            };
            pixel_samples_spec(cam, objs, i, j, w, h, depth, k, acc, s)
                == pixel_samples_spec(
                cam,
                objs,
                i,
                j,
                w,
                h,
                depth,
                (k - 1) as nat,
                Color(v_add(acc.0, c.0)),
                s3,
            )
        }),
{
    reveal(pixel_samples_spec);
}

/// Accumulate `samples_per_pixel` jittered evaluations of pixel `(i, j)`.
#[verifier::loop_isolation(false)]
pub fn sample_pixel(
    camera: &Camera,
    world: &ObjectList<Sphere>,
    i: usize,
    j: usize,
    image_width: usize,
    image_height: usize,
    samples_per_pixel: u32,
    max_depth: i32,
    rng: &mut Rng,
) -> (c: Color)
    requires
        2 <= image_width <= 30000,
        2 <= image_height <= 30000,
        i < image_width,
        j < image_height,
        forall|k: int| 0 <= k < world.objects@.len() ==> world.objects@[k].wf(),
    ensures
        c == pixel_samples_spec(
            *camera,
            world.objects@,
            i as int,
            j as int,
            image_width as int,
            image_height as int,
            max_depth,
            samples_per_pixel as nat,
            black(),
            old(rng).state,
        ).0,
        final(rng).state == pixel_samples_spec(
            *camera,
            world.objects@,
            i as int,
            j as int,
            image_width as int,
            image_height as int,
            max_depth,
            samples_per_pixel as nat,
            black(),
            old(rng).state,
        ).1,
{
    let ghost s0: u64 = rng.state;
    let mut color = Color(Vec3 { x: 0, y: 0, z: 0 });
    let mut k: u32 = samples_per_pixel;
    while k > 0
        invariant
            pixel_samples_spec(
                *camera,
                world.objects@,
                i as int,
                j as int,
                image_width as int,
                image_height as int,
                max_depth,
                samples_per_pixel as nat,
                black(),
                s0,
            ) == pixel_samples_spec(
                *camera,
                world.objects@,
                i as int,
                j as int,
                image_width as int,
                image_height as int,
                max_depth,
                k as nat,
                color,
                rng.state,
            ),
        decreases k,
    {
        let ghost s_pre: u64 = rng.state;
        let xi_u: i64 = rng.next_fp();
        let xi_v: i64 = rng.next_fp();
        let nu: i64 = (i as i64) * SCALE + xi_u;
        let nv: i64 = (j as i64) * SCALE + xi_v;
        let u: i64 = fp_div(nu, ((image_width as i64) - 1) * SCALE);
        let v: i64 = fp_div(nv, ((image_height as i64) - 1) * SCALE);

        let ray: Ray = camera.get_ray(u, v);
        let sample: Color = if ray.dir.magnitude_squared() > 0 {
            ray_color(&ray, world, max_depth, rng)
        } else {
            Color(Vec3 { x: 0, y: 0, z: 0 })
        };
        proof {
            lemma_pixel_samples_unfold(
                *camera,
                world.objects@,
                i as int,
                j as int,
                image_width as int,
                image_height as int,
                max_depth,
                k as nat,
                color,
                s_pre,
            );
        }
        color = color.add(sample);
        k = k - 1;
    }
    proof {
        reveal(pixel_samples_spec);
    }
    color
}

/// The pixels of row `j` from column `i` rightward, appended to `acc`, and
/// the generator state afterwards.
#[verifier::opaque]
pub open spec fn render_row_spec(
    cam: Camera,
    objs: Seq<Sphere>,
    j: int,
    i: int,
    w: int,
    h: int,
    samples: nat,
    depth: i32,
    acc: Seq<Pixel>,
    s: u64,
) -> (Seq<Pixel>, u64)
    decreases w - i,
{
    if i < 0 || i >= w {
        (acc, s)
    } else {
        let (c, s2) = pixel_samples_spec(cam, objs, i, j, w, h, depth, samples, black(), s);
        render_row_spec(
            cam,
            objs,
            j,
            i + 1,
            w,
            h,
            samples,
            depth,
            acc.push(quantize_color_spec(c, samples as int)),
            s2,
        )
    }
}

/// The pixels of rows `j` down to `0` (top row first), appended to `acc`,
/// and the generator state afterwards.
#[verifier::opaque]
pub open spec fn render_rows_spec(
    cam: Camera,
    objs: Seq<Sphere>,
    j: int,
    w: int,
    h: int,
    samples: nat,
    depth: i32,
    acc: Seq<Pixel>,
    s: u64,
) -> (Seq<Pixel>, u64)
    decreases j + 1,
{
    if j < 0 {
        (acc, s)
    } else {
        let (acc2, s2) = render_row_spec(cam, objs, j, 0, w, h, samples, depth, acc, s);
        render_rows_spec(cam, objs, j - 1, w, h, samples, depth, acc2, s2)
    }
}

/// What the whole render returns: rows from the top of the image down.
pub open spec fn render_spec(
    cam: Camera,
    objs: Seq<Sphere>,
    w: int,
    h: int,
    samples: nat,
    depth: i32,
    s: u64,
) -> (Seq<Pixel>, u64) {
    render_rows_spec(cam, objs, h - 1, w, h, samples, depth, Seq::empty(), s)
}

/// A row scan only appends: it adds one pixel per remaining column.
proof fn lemma_render_row_len(
    cam: Camera,
    objs: Seq<Sphere>,
    j: int,
    i: int,
    w: int,
    h: int,
    samples: nat,
    depth: i32,
    acc: Seq<Pixel>,
    s: u64,
)
    requires
        0 <= i <= w,
    ensures
        render_row_spec(cam, objs, j, i, w, h, samples, depth, acc, s).0.len() == acc.len() + (w
            - i),
    decreases w - i,
{
    reveal(render_row_spec);
    if i < w {
        let (c, s2) = pixel_samples_spec(cam, objs, i, j, w, h, depth, samples, black(), s);
        lemma_render_row_len(
            cam,
            objs,
            j,
            i + 1,
            w,
            h,
            samples,
            depth,
            acc.push(quantize_color_spec(c, samples as int)),
            s2,
        );
    }
}

/// An image scan adds one row of pixels per remaining row.
proof fn lemma_render_rows_len(
    cam: Camera,
    objs: Seq<Sphere>,
    j: int,
    w: int,
    h: int,
    samples: nat,
    depth: i32,
    acc: Seq<Pixel>,
    s: u64,
)
    requires
        w >= 0,
        -1 <= j < h,
    ensures
        render_rows_spec(cam, objs, j, w, h, samples, depth, acc, s).0.len() == acc.len() + (j
            + 1) * w,
    decreases j + 1,
{
    reveal(render_rows_spec);
    if j < 0 {
        assert((j + 1) * w == 0) by (nonlinear_arith)
            requires
                j == -1,
        ;
    } else {
        let (acc2, s2) = render_row_spec(cam, objs, j, 0, w, h, samples, depth, acc, s);
        lemma_render_row_len(cam, objs, j, 0, w, h, samples, depth, acc, s);
        lemma_render_rows_len(cam, objs, j - 1, w, h, samples, depth, acc2, s2);
        assert(j * w + w == (j + 1) * w) by (nonlinear_arith);
    }
}

/// Render the scene: for every pixel, top row first, average the given
/// number of jittered integrator samples, gamma-correct and quantize.
#[verifier::loop_isolation(false)]
pub fn render(
    camera: &Camera,
    world: &ObjectList<Sphere>,
    image_width: usize,
    image_height: usize,
    samples_per_pixel: u32,
    max_depth: i32,
    rng: &mut Rng,
) -> (pixels: Vec<Pixel>)
    requires
        2 <= image_width <= 30000,
        2 <= image_height <= 30000,
        samples_per_pixel >= 1,
        forall|k: int| 0 <= k < world.objects@.len() ==> world.objects@[k].wf(),
    ensures
        pixels@ == render_spec(
            *camera,
            world.objects@,
            image_width as int,
            image_height as int,
            samples_per_pixel as nat,
            max_depth,
            old(rng).state,
        ).0,
        final(rng).state == render_spec(
            *camera,
            world.objects@,
            image_width as int,
            image_height as int,
            samples_per_pixel as nat,
            max_depth,
            old(rng).state,
        ).1,
        pixels@.len() == image_width * image_height,
{
    let ghost s0: u64 = rng.state;
    let ghost w: int = image_width as int;
    let ghost h: int = image_height as int;
    let ghost samples: nat = samples_per_pixel as nat;

    let mut pixels: Vec<Pixel> = Vec::new();
    let mut row: usize = image_height;
    while row > 0
        invariant
            row <= image_height,
            render_rows_spec(
                *camera,
                world.objects@,
                h - 1,
                w,
                h,
                samples,
                max_depth,
                Seq::empty(),
                s0,
            ) == render_rows_spec(
                *camera,
                world.objects@,
                (row as int) - 1,
                w,
                h,
                samples,
                max_depth,
                pixels@,
                rng.state,
            ),
        decreases row,
    {
        let j: usize = row - 1;
        let ghost row_acc: Seq<Pixel> = pixels@;
        let ghost row_s: u64 = rng.state;

        let mut i: usize = 0;
        while i < image_width
            invariant
                i <= image_width,
                render_row_spec(
                    *camera,
                    world.objects@,
                    j as int,
                    i as int,
                    w,
                    h,
                    samples,
                    max_depth,
                    pixels@,
                    rng.state,
                ) == render_row_spec(
                    *camera,
                    world.objects@,
                    j as int,
                    0,
                    w,
                    h,
                    samples,
                    max_depth,
                    row_acc,
                    row_s,
                ),
            decreases image_width - i,
        {
            let ghost s_pre: u64 = rng.state;
            let color: Color = sample_pixel(
                camera,
                world,
                i,
                j,
                image_width,
                image_height,
                samples_per_pixel,
                max_depth,
                rng,
            );
            let pix: Pixel = quantize_color(color, samples_per_pixel as i64);
            proof {
                reveal(render_row_spec);
            }
            pixels.push(pix);
            i = i + 1;
        }
        proof {
            reveal(render_row_spec);
            reveal(render_rows_spec);
        }
        row = row - 1;
    }
    proof {
        reveal(render_rows_spec);
        lemma_render_rows_len(
            *camera,
            world.objects@,
            h - 1,
            w,
            h,
            samples,
            max_depth,
            Seq::empty(),
            s0,
        );
        assert(h * w == w * h) by (nonlinear_arith);
    }
    pixels
}

} // verus!
