//! The four material models and their scattering behaviour.
//!
//! A scatter consumes a ray and an intersection and produces either
//! absorption (`None`) or an attenuation color and an outgoing ray.  The
//! random draws it makes come from the explicit generator, so each model's
//! result is an exact function of its inputs and the generator state.

use vstd::prelude::*;
use crate::data::{v_add, v_dot, v_magsq, v_neg, v_norm, v_scale, Color, Vec3};
use crate::fixed::{
    fp_add, fp_add_spec, fp_div, fp_div_spec, fp_mul, fp_mul_spec, fp_sqrt, fp_sqrt_spec, fp_sub,
    fp_sub_spec, ONE,
};
use crate::math::{
    clamp, clamp_spec, near_zero, near_zero_spec, rand, random_unit_sphere, random_unit_vec,
    random_unit_vec_spec, reflect, reflect_spec, refract, refract_spec, rng_next, rng_unit,
    unit_sphere_spec, Rng, SPHERE_ATTEMPTS,
};
use crate::world::{Intersection, Ray};
use vstd::arithmetic::div_mod::lemma_div_is_ordered;

verus! {

/// Whether every channel of a color is nonnegative, as an albedo must be.
pub open spec fn color_nonneg(c: Color) -> bool {
    c.0.x >= 0 && c.0.y >= 0 && c.0.z >= 0
}

/// Diffuse material: scatters around the surface normal.
#[derive(Copy, Clone, PartialEq, Eq, Structural, Debug)]
pub struct Lambertian {
    pub albedo: Color,
}

/// Perfect mirror.
#[derive(Copy, Clone, PartialEq, Eq, Structural, Debug)]
pub struct Metal {
    pub albedo: Color,
}

/// Mirror with a perturbed reflection cone of width `fuzz`.
#[derive(Copy, Clone, PartialEq, Eq, Structural, Debug)]
pub struct FuzzyMetal {
    pub albedo: Color,
    pub fuzz: i64,
}

/// Clear material that refracts or reflects at its boundary.
#[derive(Copy, Clone, PartialEq, Eq, Structural, Debug)]
pub struct Dielectric {
    pub ref_index: i64,
}

/// The closed set of material behaviours a surface can have.
#[derive(Copy, Clone, PartialEq, Eq, Structural, Debug)]
pub enum MaterialType {
    Lambertian(Lambertian),
    Metal(Metal),
    FuzzyMetal(FuzzyMetal),
    Dielectric(Dielectric),
}

impl MaterialType {
    /// Albedos do not have negative channels, and a refractive index is
    /// positive.
    pub open spec fn wf(self) -> bool {
        match self {
            MaterialType::Lambertian(m) => color_nonneg(m.albedo),
            MaterialType::Metal(m) => color_nonneg(m.albedo),
            MaterialType::FuzzyMetal(m) => color_nonneg(m.albedo),
            MaterialType::Dielectric(m) => m.ref_index > 0,
        }
    }

    /// Dispatch: what scattering returns, and the generator state after it.
    pub open spec fn scatter_spec(self, ray_in: Ray, intersection: Intersection, s: u64) -> (
        Option<(Color, Ray)>,
        u64,
    ) {
        match self {
            MaterialType::Lambertian(m) => lambertian_scatter_spec(m, intersection, s),
            MaterialType::Metal(m) => metal_scatter_spec(m, ray_in, intersection, s),
            MaterialType::FuzzyMetal(m) => fuzzy_metal_scatter_spec(m, ray_in, intersection, s),
            MaterialType::Dielectric(m) => dielectric_scatter_spec(m, ray_in, intersection, s),
        }
    }

    /// Scatter the incoming ray at the given intersection with this
    /// material's behaviour.
    pub fn scatter(&self, ray_in: &Ray, intersection: &Intersection, rng: &mut Rng) -> (r: Option<
        (Color, Ray),
    >)
        requires
            self.wf(),
            v_magsq(ray_in.dir) > 0,
            v_magsq(intersection.normal) > 0,
        ensures
            r == self.scatter_spec(*ray_in, *intersection, old(rng).state).0,
            final(rng).state == self.scatter_spec(*ray_in, *intersection, old(rng).state).1,
            (match r {
                Option::Some(p) => color_nonneg(p.0) && p.1.origin == intersection.point,
                Option::None => true,
            }),
    {
        match *self {
            MaterialType::Lambertian(m) => m.scatter(ray_in, intersection, rng),
            MaterialType::Metal(m) => m.scatter(ray_in, intersection, rng),
            MaterialType::FuzzyMetal(m) => m.scatter(ray_in, intersection, rng),
            MaterialType::Dielectric(m) => m.scatter(ray_in, intersection, rng),
        }
    }
}

/// A scattering behaviour: either absorption or an attenuated outgoing ray.
pub trait Material: Sized {
    /// What this model asks of the incoming ray and intersection.
    spec fn scatter_req(&self, ray_in: Ray, intersection: Intersection) -> bool;

    /// What scattering returns, and the generator state after it.
    spec fn scatter_spec(&self, ray_in: Ray, intersection: Intersection, s: u64) -> (
        Option<(Color, Ray)>,
        u64,
    );

    /// Scatter the incoming ray at the given intersection.
    fn scatter(&self, ray_in: &Ray, intersection: &Intersection, rng: &mut Rng) -> (r: Option<
        (Color, Ray),
    >)
        requires
            self.scatter_req(*ray_in, *intersection),
        ensures
            r == self.scatter_spec(*ray_in, *intersection, old(rng).state).0,
            final(rng).state == self.scatter_spec(*ray_in, *intersection, old(rng).state).1,
    ;
}

/// A diffuse bounce never absorbs: the outgoing direction is the normal
/// plus a random unit vector, with the normal alone as fallback when that
/// sum is near zero.
pub open spec fn lambertian_scatter_spec(m: Lambertian, intersection: Intersection, s: u64) -> (
    Option<(Color, Ray)>,
    u64,
) {
    let (u, s2) = random_unit_vec_spec(s);
    let d = v_add(intersection.normal, u);
    let dir = if near_zero_spec(d) {
        intersection.normal
    } else {
        d
    };
    (
        Option::Some(
            (m.albedo, Ray { origin: intersection.point, dir }),
        ),
        s2,
    )
}

impl Material for Lambertian {
    open spec fn scatter_req(&self, ray_in: Ray, intersection: Intersection) -> bool {
        v_magsq(intersection.normal) > 0
    }

    open spec fn scatter_spec(&self, ray_in: Ray, intersection: Intersection, s: u64) -> (
        Option<(Color, Ray)>,
        u64,
    ) {
        lambertian_scatter_spec(*self, intersection, s)
    }

    fn scatter(&self, _ray_in: &Ray, intersection: &Intersection, rng: &mut Rng) -> (r: Option<
        (Color, Ray),
    >) {
        let mut scatter_dir: Vec3 = intersection.normal.add(random_unit_vec(rng));

        if near_zero(&scatter_dir) {
            scatter_dir = intersection.normal;
        }

        let attenuation: Color = self.albedo;
        let ray_scattered = Ray { origin: intersection.point, dir: scatter_dir };

        Option::Some((attenuation, ray_scattered))
    }
}

/// A mirror bounce reflects the incoming direction and absorbs exactly
/// when the reflected direction does not leave the surface.  No random draw
/// is made: the generator state is unchanged.
pub open spec fn metal_scatter_spec(m: Metal, ray_in: Ray, intersection: Intersection, s: u64) -> (
    Option<(Color, Ray)>,
    u64,
) {
    let dir = reflect_spec(ray_in.dir, intersection.normal);
    if v_dot(dir, intersection.normal) > 0 {
        (
            Option::Some(
                (m.albedo, Ray { origin: intersection.point, dir }),
            ),
            s,
        )
    } else {
        (Option::None, s)
    }
}

impl Material for Metal {
    open spec fn scatter_req(&self, ray_in: Ray, intersection: Intersection) -> bool {
        v_magsq(ray_in.dir) > 0
    }

    open spec fn scatter_spec(&self, ray_in: Ray, intersection: Intersection, s: u64) -> (
        Option<(Color, Ray)>,
        u64,
    ) {
        metal_scatter_spec(*self, ray_in, intersection, s)
    }

    fn scatter(&self, ray_in: &Ray, intersection: &Intersection, rng: &mut Rng) -> (r: Option<
        (Color, Ray),
    >) {
        let reflect_dir: Vec3 = reflect(&ray_in.dir, &intersection.normal);

        let attenuation: Color = self.albedo;
        let ray_scattered = Ray { origin: intersection.point, dir: reflect_dir };

        let dir: i64 = ray_scattered.dir.dot(intersection.normal);

        if dir > 0 {
            Option::Some((attenuation, ray_scattered))
        } else {
            Option::None
        }
    }
}

/// As `Metal`, but the reflected direction is perturbed by `fuzz` times a
/// random point in the unit sphere before the validity check.  The draw is
/// made whether or not the bounce is absorbed.
pub open spec fn fuzzy_metal_scatter_spec(
    m: FuzzyMetal,
    ray_in: Ray,
    intersection: Intersection,
    s: u64,
) -> (Option<(Color, Ray)>, u64) {
    let (p, s2) = unit_sphere_spec(s, SPHERE_ATTEMPTS as nat);
    let dir = v_add(
        reflect_spec(ray_in.dir, intersection.normal),
        v_scale(m.fuzz as int, p),
    );
    if v_dot(dir, intersection.normal) > 0 {
        (
            Option::Some(
                (m.albedo, Ray { origin: intersection.point, dir }),
            ),
            s2,
        )
    } else {
        (Option::None, s2)
    }
}

impl Material for FuzzyMetal {
    open spec fn scatter_req(&self, ray_in: Ray, intersection: Intersection) -> bool {
        v_magsq(ray_in.dir) > 0
    }

    open spec fn scatter_spec(&self, ray_in: Ray, intersection: Intersection, s: u64) -> (
        Option<(Color, Ray)>,
        u64,
    ) {
        fuzzy_metal_scatter_spec(*self, ray_in, intersection, s)
    }

    fn scatter(&self, ray_in: &Ray, intersection: &Intersection, rng: &mut Rng) -> (r: Option<
        (Color, Ray),
    >) {
        let reflect_dir: Vec3 = reflect(&ray_in.dir, &intersection.normal);

        let attenuation: Color = self.albedo;
        let ray_scattered = Ray {
            origin: intersection.point,
            dir: reflect_dir.add(random_unit_sphere(rng).scale(self.fuzz)),
        };

        let dir: i64 = ray_scattered.dir.dot(intersection.normal);

        if dir > 0 {
            Option::Some((attenuation, ray_scattered))
        } else {
            Option::None
        }
    }
}

/// Schlick's approximation of the reflection probability at a dielectric
/// boundary.
pub open spec fn reflectance_spec(cos: int, reflection_index: int) -> int {
    let r0 = fp_div_spec(fp_sub_spec(ONE as int, reflection_index), fp_add_spec(ONE as int, reflection_index));
    let r0sq = fp_mul_spec(r0, r0);
    let p = fp_sub_spec(ONE as int, cos);
    let p2 = fp_mul_spec(p, p);
    let p4 = fp_mul_spec(p2, p2);
    let p5 = fp_mul_spec(p4, p);
    fp_add_spec(r0sq, fp_mul_spec(fp_sub_spec(ONE as int, r0sq), p5))
}

/// A clear boundary never absorbs.  The refraction ratio depends on the
/// side the ray came from; the ray reflects on total internal reflection or
/// when a random draw falls below the Schlick reflectance, and refracts
/// otherwise.  The draw is made only when total internal reflection does
/// not already decide.
pub open spec fn dielectric_scatter_spec(
    m: Dielectric,
    ray_in: Ray,
    intersection: Intersection,
    s: u64,
) -> (Option<(Color, Ray)>, u64) {
    let ratio = if intersection.front_face {
        fp_div_spec(ONE as int, m.ref_index as int)
    } else {
        m.ref_index as int
    };
    let uv = v_norm(ray_in.dir);
    let cos_theta = clamp_spec(
        v_dot(v_neg(uv), intersection.normal),
        -(ONE as int),
        ONE as int,
    );
    let sin_theta = fp_sqrt_spec(fp_sub_spec(ONE as int, fp_mul_spec(cos_theta, cos_theta)));
    if fp_mul_spec(ratio, sin_theta) > ONE as int {
        let dir = reflect_spec(ray_in.dir, intersection.normal);
        (
            Option::Some(
                (white(), Ray { origin: intersection.point, dir }),
            ),
            s,
        )
    } else {
        let s2 = rng_next(s);
        let dir = if reflectance_spec(cos_theta, ratio) > rng_unit(s2) {
            reflect_spec(ray_in.dir, intersection.normal)
        } else {
            refract_spec(ray_in.dir, intersection.normal, ratio)
        };
        (
            Option::Some(
                (white(), Ray { origin: intersection.point, dir }),
            ),
            s2,
        )
    }
}

impl Dielectric {
    /// Schlick's reflectance approximation.
    pub fn reflectance(cos: i64, reflection_index: i64) -> (r: i64)
        requires
            fp_add_spec(ONE as int, reflection_index as int) > 0,
        ensures
            r as int == reflectance_spec(cos as int, reflection_index as int),
    {
        let mut r0: i64 = fp_div(fp_sub(ONE, reflection_index), fp_add(ONE, reflection_index));
        r0 = fp_mul(r0, r0);
        let p: i64 = fp_sub(ONE, cos);
        let p2: i64 = fp_mul(p, p);
        let p4: i64 = fp_mul(p2, p2);
        let p5: i64 = fp_mul(p4, p);
        fp_add(r0, fp_mul(fp_sub(ONE, r0), p5))
    }
}

impl Material for Dielectric {
    open spec fn scatter_req(&self, ray_in: Ray, intersection: Intersection) -> bool {
        v_magsq(ray_in.dir) > 0 && self.ref_index > 0
    }

    open spec fn scatter_spec(&self, ray_in: Ray, intersection: Intersection, s: u64) -> (
        Option<(Color, Ray)>,
        u64,
    ) {
        dielectric_scatter_spec(*self, ray_in, intersection, s)
    }

    fn scatter(&self, ray_in: &Ray, intersection: &Intersection, rng: &mut Rng) -> (r: Option<
        (Color, Ray),
    >) {
        let attenuation: Color = Color(Vec3 { x: ONE, y: ONE, z: ONE });
        let refraction_ratio: i64 = if intersection.front_face {
            fp_div(ONE, self.ref_index)
        } else {
            self.ref_index
        };

        let uv: Vec3 = ray_in.dir.normalize();
        let d: i64 = uv.neg().dot(intersection.normal);
        let cos_theta: i64 = clamp(d, -ONE, ONE);
        let cc: i64 = fp_mul(cos_theta, cos_theta);
        proof {
            assert((cos_theta as int) * (cos_theta as int) >= 0) by (nonlinear_arith);
            assert((cos_theta as int) * (cos_theta as int) <= 65536 * 65536)
                by (nonlinear_arith)
                requires
                    -65536 <= (cos_theta as int) <= 65536,
            ;
            lemma_div_is_ordered(
                (cos_theta as int) * (cos_theta as int),
                65536int * 65536int,
                65536,
            );
        }
        let sin2: i64 = fp_sub(ONE, cc);
        let sin_theta: i64 = fp_sqrt(sin2);

        proof {
            if intersection.front_face {
                vstd::arithmetic::div_mod::lemma_div_pos_is_pos(
                    65536int * 65536int,
                    self.ref_index as int,
                );
            }
        }
        let reflects: bool = if fp_mul(refraction_ratio, sin_theta) > ONE {
            true
        } else {
            Dielectric::reflectance(cos_theta, refraction_ratio) > rand(rng)
        };
        let direction: Vec3 = if reflects {
            reflect(&ray_in.dir, &intersection.normal)
        } else {
            refract(&ray_in.dir, &intersection.normal, refraction_ratio)
        };

        let scattered_ray = Ray { origin: intersection.point, dir: direction };

        Option::Some((attenuation, scattered_ray))
    }
}

/// The constant white attenuation of a clear material.
pub open spec fn white() -> Color {
    Color(Vec3 { x: 65536i64, y: 65536i64, z: 65536i64 })
}

/// A diffuse bounce is never absorbed, whatever the draw.
pub proof fn lemma_lambertian_never_absorbs(m: Lambertian, intersection: Intersection, s: u64)
    ensures
        lambertian_scatter_spec(m, intersection, s).0 is Some,
{
}

/// A mirror bounce is absorbed exactly when the reflected direction does
/// not point away from the surface: its dot product with the normal is not
/// positive.
pub proof fn lemma_metal_absorbs_iff(m: Metal, ray_in: Ray, intersection: Intersection, s: u64)
    ensures
        metal_scatter_spec(m, ray_in, intersection, s).0 is None <==> v_dot(
            reflect_spec(ray_in.dir, intersection.normal),
            intersection.normal,
        ) <= 0,
{
}

/// A fuzzy mirror bounce is absorbed exactly when the perturbed reflected
/// direction does not point away from the surface.
pub proof fn lemma_fuzzy_metal_absorbs_iff(
    m: FuzzyMetal,
    ray_in: Ray,
    intersection: Intersection,
    s: u64,
)
    ensures
        ({
            let (p, s2) = unit_sphere_spec(s, SPHERE_ATTEMPTS as nat);
            let dir = v_add(
                reflect_spec(ray_in.dir, intersection.normal),
                v_scale(m.fuzz as int, p),
            );
            fuzzy_metal_scatter_spec(m, ray_in, intersection, s).0 is None <==> v_dot(
                dir,
                intersection.normal,
            ) <= 0
        }),
{
}

/// The head-on slice of the matched-boundary law: a dielectric whose
/// refractive index is one, struck head on from the front (the unit
/// incoming direction exactly opposes a normal of unit squared magnitude),
/// refracts without bending.  The outgoing direction is the unit incoming
/// direction, whatever the generator state.  At oblique incidence rounding
/// leaves the two directions a step apart, and a sufficiently low draw
/// reflects instead, so the head-on case is the exact one.
pub proof fn lemma_matched_dielectric_head_on(
    m: Dielectric,
    ray_in: Ray,
    intersection: Intersection,
    s: u64,
)
    requires
        m.ref_index == ONE,
        intersection.front_face,
        v_magsq(intersection.normal) == ONE as int,
        v_add(v_norm(ray_in.dir), intersection.normal) == (Vec3 { x: 0i64, y: 0i64, z: 0i64 }),
    ensures
        dielectric_scatter_spec(m, ray_in, intersection, s).0 == Option::Some(
            (white(), Ray { origin: intersection.point, dir: v_norm(ray_in.dir) }),
        ),
{
    let n = intersection.normal;
    let uv = v_norm(ray_in.dir);
    assert(uv.x as int == -(n.x as int) && uv.y as int == -(n.y as int) && uv.z as int == -(
    n.z as int));

    crate::fixed::lemma_fp_div_by_one(ONE as int);
    let ratio = fp_div_spec(ONE as int, m.ref_index as int);
    assert(ratio == ONE as int);

    assert(v_neg(uv) == n);
    assert(v_dot(v_neg(uv), n) == ONE as int);
    let cos_theta = clamp_spec(v_dot(v_neg(uv), n), -(ONE as int), ONE as int);
    assert(cos_theta == ONE as int);

    crate::fixed::lemma_fp_mul_by_one(ONE as int);
    assert(fp_mul_spec(cos_theta, cos_theta) == ONE as int);
    assert(fp_sub_spec(ONE as int, fp_mul_spec(cos_theta, cos_theta)) == 0);
    let sin_theta = fp_sqrt_spec(0);
    assert(sin_theta == 0) by {
        assert(crate::fixed::sqrt_floor(0) == 0);
    }
    crate::fixed::lemma_fp_mul_by_one(0);
    assert(fp_mul_spec(ratio, sin_theta) == 0);

    // The Schlick reflectance of a matched boundary at zero incidence
    // angle is exactly zero, and no draw falls below it.
    assert(fp_sub_spec(ONE as int, ratio) == 0);
    assert(reflectance_spec(cos_theta, ratio) == 0) by {
        crate::fixed::lemma_fp_mul_by_one(0);
        assert(fp_div_spec(0, fp_add_spec(ONE as int, ratio)) == 0);
        assert(fp_mul_spec(0, 0) == 0);
        assert(fp_sub_spec(ONE as int, cos_theta) == 0);
    }
    let s2 = rng_next(s);
    vstd::arithmetic::div_mod::lemma_div_pos_is_pos(s2 as int, 0x1_0000_0000_0000);
    assert(rng_unit(s2) >= 0);

    // The refracted direction: the perpendicular part vanishes and the
    // parallel part restores the unit incoming direction.
    assert(refract_spec(ray_in.dir, n, ratio) == uv) by {
        crate::fixed::lemma_fp_mul_by_one(n.x as int);
        crate::fixed::lemma_fp_mul_by_one(n.y as int);
        crate::fixed::lemma_fp_mul_by_one(n.z as int);
        assert(v_scale(ONE as int, n) == n);
        assert(v_add(uv, v_scale(ONE as int, n)) == (Vec3 { x: 0i64, y: 0i64, z: 0i64 }));
        crate::fixed::lemma_fp_mul_by_one(0);
        let zero_v = Vec3 { x: 0i64, y: 0i64, z: 0i64 };
        assert(v_scale(ratio, zero_v) == zero_v);
        assert(v_magsq(zero_v) == 0);
        assert(fp_sub_spec(ONE as int, 0) == ONE as int);
        assert(fp_sqrt_spec(ONE as int) == ONE as int) by {
            crate::fixed::lemma_sqrt_floor_unique(65536int * 65536, 65536int);
        }
        assert(crate::fixed::fp_neg_spec(ONE as int) == -(ONE as int));
        crate::fixed::lemma_fp_mul_by_minus_one(n.x as int);
        crate::fixed::lemma_fp_mul_by_minus_one(n.y as int);
        crate::fixed::lemma_fp_mul_by_minus_one(n.z as int);
        assert(v_scale(-(ONE as int), n) == uv);
        assert(v_add(zero_v, uv) == uv);
    }
}

/// A clear boundary never absorbs: it reflects or refracts, whatever the
/// draw.
pub proof fn lemma_dielectric_never_absorbs(
    m: Dielectric,
    ray_in: Ray,
    intersection: Intersection,
    s: u64,
)
    ensures
        dielectric_scatter_spec(m, ray_in, intersection, s).0 is Some,
        dielectric_scatter_spec(m, ray_in, intersection, s).0 == Option::Some(
            (white(), dielectric_scatter_spec(m, ray_in, intersection, s).0.unwrap().1),
        ),
{
}

} // verus!
