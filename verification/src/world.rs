//! Rays, intersections, spheres and the scene that owns them.

use vstd::prelude::*;
use crate::data::{
    v_add, v_div_scalar, v_dot, v_magsq, v_neg, v_scale, v_sub, Point, Vec3,
};
use crate::fixed::{
    fp_add, fp_add_spec, fp_div, fp_div_spec, fp_mul, fp_mul_spec, fp_neg, fp_neg_spec, fp_sqrt,
    fp_sqrt_spec, fp_sub, fp_sub_spec, tdiv,
};
use crate::material::{Lambertian, MaterialType, Metal};
use crate::data::Color;

verus! {

/// A ray: origin plus direction; the direction need not be unit length.
#[derive(Copy, Clone, PartialEq, Eq, Structural, Debug)]
pub struct Ray {
    pub origin: Point,
    pub dir: Vec3,
}

/// The point reached after travelling `t` along the ray.
pub open spec fn ray_at_spec(r: Ray, t: int) -> Point {
    Point { 0: v_add(r.origin.0, v_scale(t, r.dir)) }
}

impl Default for Ray {
    /// The degenerate ray at the origin.
    fn default() -> (r: Ray)
        ensures
            r.origin == (Point { 0: Vec3 { x: 0i64, y: 0i64, z: 0i64 } }),
            r.dir == (Vec3 { x: 0i64, y: 0i64, z: 0i64 }),
    {
        Ray {
            origin: Point(Vec3 { x: 0, y: 0, z: 0 }),
            dir: Vec3 { x: 0, y: 0, z: 0 },
        }
    }
}

impl Ray {
    /// The point reached after travelling `t` along the ray.
    pub fn at(&self, t: i64) -> (p: Point)
        ensures
            p == ray_at_spec(*self, t as int),
    {
        self.origin.translate(self.dir.scale(t))
    }
}

/// A surface hit: where, how far along the ray, the surface normal flipped
/// to oppose the ray, and the material that was struck.
#[derive(Copy, Clone, PartialEq, Eq, Structural, Debug)]
pub struct Intersection {
    pub point: Point,
    pub normal: Vec3,
    pub t: i64,
    pub front_face: bool,
    pub material: MaterialType,
}

impl Default for Intersection {
    /// A placeholder hit at the origin with a black diffuse material.
    fn default() -> (r: Intersection)
        ensures
            r.point == (Point { 0: Vec3 { x: 0i64, y: 0i64, z: 0i64 } }),
            r.normal == (Vec3 { x: 0i64, y: 0i64, z: 0i64 }),
            r.t == 0i64,
            r.front_face == false,
            r.material == MaterialType::Lambertian(Lambertian {
                albedo: Color(Vec3 { x: 0i64, y: 0i64, z: 0i64 }),
            }),
    {
        Intersection {
            point: Point(Vec3 { x: 0, y: 0, z: 0 }),
            normal: Vec3 { x: 0, y: 0, z: 0 },
            t: 0,
            front_face: false,
            material: MaterialType::Lambertian(Lambertian {
                albedo: Color(Vec3 { x: 0, y: 0, z: 0 }),
            }),
        }
    }
}

impl Intersection {
    /// Record whether the ray came from the outward side.
    pub fn set_front_face(&mut self, ray: &Ray, outward_normal: &Vec3)
        ensures
            *final(self) == (Intersection {
                front_face: v_dot(ray.dir, *outward_normal) < 0,
                ..*old(self)
            }),
    {
        self.front_face = ray.dir.dot(*outward_normal) < 0;
    }

    /// Store the outward normal, flipped to oppose the ray when the hit was
    /// from the inside; `front_face` must be set first.
    pub fn set_normal(&mut self, outward_normal: &Vec3)
        ensures
            *final(self) == (Intersection {
                normal: if old(self).front_face {
                    *outward_normal
                } else {
                    v_neg(*outward_normal)
                },
                ..*old(self)
            }),
    {
        self.normal = if self.front_face {
            *outward_normal
        } else {
            outward_normal.neg()
        };
    }

    /// Set `front_face` and the opposing normal in one step.
    pub fn set_face_normal(&mut self, ray: &Ray, outward_normal: &Vec3)
        ensures
            *final(self) == (Intersection {
                front_face: v_dot(ray.dir, *outward_normal) < 0,
                normal: if v_dot(ray.dir, *outward_normal) < 0 {
                    *outward_normal
                } else {
                    v_neg(*outward_normal)
                },
                ..*old(self)
            }),
    {
        self.set_front_face(ray, outward_normal);
        self.set_normal(outward_normal);
    }
}

/// A sphere with positive radius, owned by the scene.
#[derive(Copy, Clone, PartialEq, Eq, Structural, Debug)]
pub struct Sphere {
    pub center: Point,
    pub radius: i64,
    pub material: MaterialType,
}

impl Sphere {
    /// The radius is positive and the material well formed.
    pub open spec fn wf(self) -> bool {
        self.radius > 0 && self.material.wf()
    }
}

/// `a` coefficient of the quadratic: squared magnitude of the direction.
pub open spec fn sphere_a(s: Sphere, r: Ray) -> int {
    v_magsq(r.dir)
}

/// `b` coefficient: `(origin - center) . dir`.
pub open spec fn sphere_b(s: Sphere, r: Ray) -> int {
    v_dot(v_sub(r.origin.0, s.center.0), r.dir)
}

/// `c` coefficient: `|origin - center|^2 - radius^2`.
pub open spec fn sphere_c(s: Sphere, r: Ray) -> int {
    fp_sub_spec(v_magsq(v_sub(r.origin.0, s.center.0)), fp_mul_spec(s.radius as int, s.radius as int))
}

/// Discriminant `b^2 - a c` of the sphere-ray quadratic.
pub open spec fn sphere_disc(s: Sphere, r: Ray) -> int {
    fp_sub_spec(
        fp_mul_spec(sphere_b(s, r), sphere_b(s, r)),
        fp_mul_spec(sphere_a(s, r), sphere_c(s, r)),
    )
}

/// The smaller root `(-b - sqrt(disc)) / a`.
pub open spec fn sphere_root_near(s: Sphere, r: Ray) -> int {
    fp_div_spec(
        fp_sub_spec(fp_neg_spec(sphere_b(s, r)), fp_sqrt_spec(sphere_disc(s, r))),
        sphere_a(s, r),
    )
}

/// The larger root `(-b + sqrt(disc)) / a`.
pub open spec fn sphere_root_far(s: Sphere, r: Ray) -> int {
    fp_div_spec(
        fp_add_spec(fp_neg_spec(sphere_b(s, r)), fp_sqrt_spec(sphere_disc(s, r))),
        sphere_a(s, r),
    )
}

/// The intersection record a sphere produces for parameter `t`.
pub open spec fn sphere_isect_at(s: Sphere, r: Ray, t: int) -> Intersection {
    let point = ray_at_spec(r, t);
    let outward = v_div_scalar(v_sub(point.0, s.center.0), s.radius as int);
    let front = v_dot(r.dir, outward) < 0;
    Intersection {
        point,
        normal: if front {
            outward
        } else {
            v_neg(outward)
        },
        t: t as i64,
        front_face: front,
        material: s.material,
    }
}

/// Anything a ray can strike within a parameter interval.
pub trait Hittable: Sized {
    /// What the receiver asks of a hit test.
    spec fn hit_req(&self, ray: Ray, t_min: i64, t_max: i64) -> bool;

    /// What the hit test returns.
    spec fn hit_spec(&self, ray: Ray, t_min: i64, t_max: i64) -> Option<Intersection>;

    /// The nearest intersection with `t` strictly inside `(t_min, t_max)`,
    /// if any.
    fn hit(&self, ray: &Ray, t_min: i64, t_max: i64) -> (r: Option<Intersection>)
        requires
            self.hit_req(*ray, t_min, t_max),
        ensures
            r == self.hit_spec(*ray, t_min, t_max),
            (match r {
                Option::Some(h) => t_min < h.t && h.t < t_max,
                Option::None => true,
            }),
    ;

    /// Whether a candidate root lies strictly inside the interval; exact
    /// boundary values are rejected to avoid self-intersection.
    fn root_in_bounds(root: &i64, t_min: i64, t_max: i64) -> (r: bool)
        ensures
            r == (t_min < *root && *root < t_max),
    {
        t_min < *root && *root < t_max
    }
}

impl Hittable for Sphere {
    /// The ray is not degenerate and the radius is positive.
    open spec fn hit_req(&self, ray: Ray, t_min: i64, t_max: i64) -> bool {
        v_magsq(ray.dir) > 0 && self.radius > 0
    }

    /// No hit when the discriminant is negative; otherwise the first of the
    /// two quadratic roots (nearer first) strictly inside the interval.
    open spec fn hit_spec(&self, ray: Ray, t_min: i64, t_max: i64) -> Option<Intersection> {
        if sphere_disc(*self, ray) < 0 {
            Option::None
        } else {
            let near = sphere_root_near(*self, ray);
            let far = sphere_root_far(*self, ray);
            if t_min < near && near < t_max {
                Option::Some(sphere_isect_at(*self, ray, near))
            } else if t_min < far && far < t_max {
                Option::Some(sphere_isect_at(*self, ray, far))
            } else {
                Option::None
            }
        }
    }

    fn hit(&self, ray: &Ray, t_min: i64, t_max: i64) -> (r: Option<Intersection>) {
        let vec_oc: Vec3 = ray.origin.sub(self.center);

        let a: i64 = ray.dir.magnitude_squared();
        let b: i64 = vec_oc.dot(ray.dir);
        let c: i64 = fp_sub(vec_oc.magnitude_squared(), fp_mul(self.radius, self.radius));
        let discriminant: i64 = fp_sub(fp_mul(b, b), fp_mul(a, c));

        if discriminant < 0 {
            return Option::None;
        }
        let sq: i64 = fp_sqrt(discriminant);
        let root_near: i64 = fp_div(fp_sub(fp_neg(b), sq), a);
        let root_far: i64 = fp_div(fp_add(fp_neg(b), sq), a);

        let root: i64 = if Self::root_in_bounds(&root_near, t_min, t_max) {
            root_near
        } else if Self::root_in_bounds(&root_far, t_min, t_max) {
            root_far
        } else {
            return Option::None;
        };

        let mut intersection = Intersection::default();
        intersection.t = root;
        intersection.point = ray.at(root);
        let outward_normal: Vec3 = intersection.point.sub(self.center).div_scalar(self.radius);
        intersection.set_front_face(ray, &outward_normal);
        intersection.set_normal(&outward_normal);
        intersection.material = self.material;

        Option::Some(intersection)
    }
}

/// The nearer root never exceeds the farther root.
pub proof fn lemma_sphere_roots_ordered(s: Sphere, r: Ray)
    requires
        v_magsq(r.dir) > 0,
        sphere_disc(s, r) >= 0,
    ensures
        sphere_root_near(s, r) <= sphere_root_far(s, r),
{
    crate::fixed::lemma_sqrt_floor_bounds(sphere_disc(s, r) * (crate::fixed::SCALE as int));
    let b = sphere_b(s, r);
    let sq = fp_sqrt_spec(sphere_disc(s, r));
    let a = sphere_a(s, r);
    crate::fixed::lemma_tdiv_monotone(
        fp_sub_spec(fp_neg_spec(b), sq) * (crate::fixed::SCALE as int),
        fp_add_spec(fp_neg_spec(b), sq) * (crate::fixed::SCALE as int),
        a,
    );
}

/// A sphere hit's `t` lies strictly inside the requested interval.
pub proof fn lemma_sphere_hit_bounds(s: Sphere, ray: Ray, t_min: i64, t_max: i64)
    ensures
        (match s.hit_spec(ray, t_min, t_max) {
            Option::Some(h) => t_min < h.t && h.t < t_max,
            Option::None => true,
        }),
{
}

/// Shrinking the upper bound of a sphere's hit test either keeps the same
/// intersection (when its `t` still fits) or loses it; it can never produce
/// a different one.  This is what lets the scene's scan use the closest `t`
/// found so far as the bound for the remaining spheres.
pub proof fn lemma_sphere_hit_shrink(s: Sphere, ray: Ray, t_min: i64, tm1: i64, tm2: i64)
    requires
        v_magsq(ray.dir) > 0,
        tm1 <= tm2,
    ensures
        (match s.hit_spec(ray, t_min, tm2) {
            Option::Some(h) => s.hit_spec(ray, t_min, tm1) == (if h.t < tm1 {
                Option::Some(h)
            } else {
                Option::None
            }),
            Option::None => s.hit_spec(ray, t_min, tm1) is None,
        }),
{
    if sphere_disc(s, ray) >= 0 {
        lemma_sphere_roots_ordered(s, ray);
    }
}

/// The scene: an ordered collection of objects.
pub struct ObjectList<T> {
    pub objects: Vec<T>,
}

/// The demonstration scene's ground sphere: a large diffuse sphere below
/// the camera.  Coordinates are the nearest fixed-point approximations.
pub open spec fn demo_ground() -> Sphere {
    Sphere {
        center: Point { 0: Vec3 { x: 0i64, y: -6586368i64, z: -65536i64 } },
        radius: 6553600i64,
        material: MaterialType::Lambertian(Lambertian {
            albedo: Color(Vec3 { x: 52429i64, y: 52429i64, z: 0i64 }),
        }),
    }
}

/// The demonstration scene's central diffuse sphere.
pub open spec fn demo_center() -> Sphere {
    Sphere {
        center: Point { 0: Vec3 { x: 0i64, y: 0i64, z: -65536i64 } },
        radius: 32768i64,
        material: MaterialType::Lambertian(Lambertian {
            albedo: Color(Vec3 { x: 45875i64, y: 19661i64, z: 19661i64 }),
        }),
    }
}

/// The demonstration scene's left metal sphere.
pub open spec fn demo_left() -> Sphere {
    Sphere {
        center: Point { 0: Vec3 { x: -65536i64, y: 0i64, z: -65536i64 } },
        radius: 32768i64,
        material: MaterialType::Metal(Metal {
            albedo: Color(Vec3 { x: 52429i64, y: 52429i64, z: 52429i64 }),
        }),
    }
}

/// The demonstration scene's right metal sphere.
pub open spec fn demo_right() -> Sphere {
    Sphere {
        center: Point { 0: Vec3 { x: 65536i64, y: 0i64, z: -65536i64 } },
        radius: 32768i64,
        material: MaterialType::Metal(Metal {
            albedo: Color(Vec3 { x: 52429i64, y: 39322i64, z: 13107i64 }),
        }),
    }
}

impl Default for ObjectList<Sphere> {
    /// The demonstration scene: a ground sphere, a central diffuse sphere
    /// and two metal spheres.
    fn default() -> (r: ObjectList<Sphere>)
        ensures
            r.objects@ == seq![demo_ground(), demo_center(), demo_left(), demo_right()],
            forall|i: int| 0 <= i < r.objects@.len() ==> r.objects@[i].wf(),
    {
        let mut world: ObjectList<Sphere> = ObjectList { objects: Vec::new() };

        world.objects.push(Sphere {
            center: Point(Vec3 { x: 0, y: -6586368, z: -65536 }),
            radius: 6553600,
            material: MaterialType::Lambertian(Lambertian {
                albedo: Color(Vec3 { x: 52429, y: 52429, z: 0 }),
            }),
        });

        world.objects.push(Sphere {
            center: Point(Vec3 { x: 0, y: 0, z: -65536 }),
            radius: 32768,
            material: MaterialType::Lambertian(Lambertian {
                albedo: Color(Vec3 { x: 45875, y: 19661, z: 19661 }),
            }),
        });

        world.objects.push(Sphere {
            center: Point(Vec3 { x: -65536, y: 0, z: -65536 }),
            radius: 32768,
            material: MaterialType::Metal(Metal {
                albedo: Color(Vec3 { x: 52429, y: 52429, z: 52429 }),
            }),
        });

        world.objects.push(Sphere {
            center: Point(Vec3 { x: 65536, y: 0, z: -65536 }),
            radius: 32768,
            material: MaterialType::Metal(Metal {
                albedo: Color(Vec3 { x: 52429, y: 39322, z: 13107 }),
            }),
        });

        proof {
            assert(world.objects@ =~= seq![
                demo_ground(),
                demo_center(),
                demo_left(),
                demo_right(),
            ]);
        }
        world
    }
}

/// The fold the scene's linear scan computes: objects from index `i` on are
/// tested against the current upper bound `closest`, which shrinks to each
/// accepted hit's `t`.
pub open spec fn list_hit_from(
    objs: Seq<Sphere>,
    i: int,
    ray: Ray,
    t_min: i64,
    best: Option<Intersection>,
    closest: i64,
) -> Option<Intersection>
    decreases objs.len() - i,
{
    if i < 0 || i >= objs.len() {
        best
    } else {
        match objs[i].hit_spec(ray, t_min, closest) {
            Option::Some(h) => list_hit_from(objs, i + 1, ray, t_min, Option::Some(h), h.t),
            Option::None => list_hit_from(objs, i + 1, ray, t_min, best, closest),
        }
    }
}

/// A ray cast from a point exactly on the sphere's surface (`c == 0` in
/// fixed point) and pointing inward (`b < 0`) hits at once: the reported
/// `t` is nonnegative, and `t * a * |b| <= (1 + |b|)` in real terms -- a
/// few rounding steps away from zero.  The bound on `b`'s square keeps the
/// discriminant below saturation.
pub proof fn lemma_surface_launch_hits_at_once(s: Sphere, r: Ray, t_min: i64, t_max: i64)
    requires
        v_magsq(r.dir) > 0,
        sphere_c(s, r) == 0,
        sphere_b(s, r) < 0,
        fp_mul_spec(sphere_b(s, r), sphere_b(s, r)) < crate::fixed::MAX_FP as int,
        t_min < 0,
        sphere_root_near(s, r) < t_max,
    ensures
        sphere_disc(s, r) >= 0,
        0 <= sphere_root_near(s, r),
        sphere_root_near(s, r) * v_magsq(r.dir) * (-sphere_b(s, r)) <= ((crate::fixed::SCALE
            as int) + (-sphere_b(s, r))) * (crate::fixed::SCALE as int),
        s.hit_spec(r, t_min, t_max) == Option::Some(
            sphere_isect_at(s, r, sphere_root_near(s, r)),
        ),
{
    let scale = crate::fixed::SCALE as int;
    let b = sphere_b(s, r);
    let a = sphere_a(s, r);
    let bb = b * b;
    assert(bb > 0) by (nonlinear_arith)
        requires
            b < 0,
            bb == b * b,
    ;
    assert(fp_mul_spec(a, sphere_c(s, r)) == 0);
    let q = tdiv(bb, scale);
    vstd::arithmetic::div_mod::lemma_div_pos_is_pos(bb, scale);
    assert(q == bb / scale);
    assert(fp_mul_spec(b, b) == q);
    assert(sphere_disc(s, r) == q);
    vstd::arithmetic::div_mod::lemma_fundamental_div_mod(bb, scale);
    vstd::arithmetic::div_mod::lemma_mod_division_less_than_divisor(bb, scale);
    assert(q * scale <= bb) by (nonlinear_arith)
        requires
            bb == scale * q + bb % scale,
            bb % scale >= 0,
    ;
    assert(bb < (q + 1) * scale) by (nonlinear_arith)
        requires
            bb == scale * q + bb % scale,
            bb % scale < scale,
    ;

    let sq = fp_sqrt_spec(sphere_disc(s, r));
    crate::fixed::lemma_sqrt_floor_bounds(q * scale);
    assert(sq >= 0);
    assert(sq * sq <= q * scale);
    assert(q * scale < (sq + 1) * (sq + 1));
    assert(sq * sq <= bb) by (nonlinear_arith)
        requires
            sq * sq <= q * scale,
            q * scale <= bb,
    ;
    assert(sq <= -b) by (nonlinear_arith)
        requires
            sq >= 0,
            -b > 0,
            sq * sq <= bb,
            bb == b * b,
    ;

    // The numerator of the near root is pinched between zero and a few
    // rounding steps.
    assert(fp_neg_spec(b) == -b);
    let num = fp_sub_spec(fp_neg_spec(b), sq);
    assert(num == -b - sq);
    assert(num >= 0);
    let m = sq + 1;
    assert(m * m > bb - scale) by (nonlinear_arith)
        requires
            m * m > q * scale,
            q * scale > bb - scale,
    ;
    if num >= 1 {
        assert((-b - m) * (-b) <= (-b - m) * (-b + m)) by (nonlinear_arith)
            requires
                -b - m >= 0,
                m >= 0,
                -b > 0,
        ;
        assert((-b - m) * (-b + m) == bb - m * m) by (nonlinear_arith)
            requires
                bb == b * b,
        ;
        assert(num * (-b) == (-b - m) * (-b) + (-b)) by (nonlinear_arith)
            requires
                num == -b - m + 1,
        ;
        assert(num * (-b) <= scale + (-b));
    } else {
        assert(num * (-b) == 0) by (nonlinear_arith)
            requires
                num == 0,
        ;
    }

    // The near root itself: nonnegative and within the pinched bound.
    let nd = num * scale;
    assert(nd >= 0) by (nonlinear_arith)
        requires
            num >= 0,
            scale > 0,
            nd == num * scale,
    ;
    vstd::arithmetic::div_mod::lemma_div_pos_is_pos(nd, a);
    assert(tdiv(nd, a) == nd / a);
    let root = sphere_root_near(s, r);
    assert(root == crate::fixed::sat(nd / a));
    assert(root >= 0);
    assert(root <= nd / a);
    vstd::arithmetic::div_mod::lemma_fundamental_div_mod(nd, a);
    vstd::arithmetic::div_mod::lemma_mod_division_less_than_divisor(nd, a);
    assert((nd / a) * a <= nd) by (nonlinear_arith)
        requires
            nd == a * (nd / a) + nd % a,
            nd % a >= 0,
    ;
    assert(root * a <= nd) by (nonlinear_arith)
        requires
            0 <= root <= nd / a,
            a > 0,
            (nd / a) * a <= nd,
    ;
    assert(root * a * (-b) <= nd * (-b)) by (nonlinear_arith)
        requires
            root * a <= nd,
            -b > 0,
    ;
    assert(nd * (-b) == (num * (-b)) * scale) by (nonlinear_arith)
        requires
            nd == num * scale,
    ;
    assert((num * (-b)) * scale <= (scale + (-b)) * scale) by (nonlinear_arith)
        requires
            num * (-b) <= scale + (-b),
            scale > 0,
    ;
}

/// One scan step: what a sphere's hit test against the shrunken upper
/// bound says about its standalone hit test against the caller's bound.
proof fn lemma_scan_step(sp: Sphere, ray: Ray, t_min: i64, closest: i64, t_max: i64)
    requires
        v_magsq(ray.dir) > 0,
        closest <= t_max,
    ensures
        (match sp.hit_spec(ray, t_min, closest) {
            Option::Some(h) => sp.hit_spec(ray, t_min, t_max) == Option::Some(h) && t_min < h.t
                && h.t < closest,
            Option::None => (match sp.hit_spec(ray, t_min, t_max) {
                Option::Some(g) => g.t >= closest,
                Option::None => true,
            }),
        }),
{
    lemma_sphere_hit_shrink(sp, ray, t_min, closest, t_max);
    lemma_sphere_hit_bounds(sp, ray, t_min, closest);
}

/// Generalisation of the closest-hit law over the scan's accumulator: if
/// the fold's current best is the nearest standalone hit among the spheres
/// already scanned, the fold's result is the nearest standalone hit among
/// them all.
#[verifier::rlimit(100)]
proof fn lemma_list_hit_from_closest(
    objs: Seq<Sphere>,
    i: int,
    ray: Ray,
    t_min: i64,
    t_max: i64,
    best: Option<Intersection>,
    closest: i64,
)
    requires
        v_magsq(ray.dir) > 0,
        0 <= i <= objs.len(),
        closest <= t_max,
        (match best {
            Option::Some(b) => b.t == closest && (exists|k: int|
                0 <= k < i && objs[k].hit_spec(ray, t_min, t_max) == Option::Some(b)) && (forall|
                k: int,
            |
                0 <= k < i ==> (match #[trigger] objs[k].hit_spec(ray, t_min, t_max) {
                    Option::Some(g) => g.t >= closest,
                    Option::None => true,
                })),
            Option::None => closest == t_max && (forall|k: int|
                0 <= k < i ==> objs[k].hit_spec(ray, t_min, t_max) is None),
        }),
    ensures
        (match list_hit_from(objs, i, ray, t_min, best, closest) {
            Option::Some(h) => (exists|k: int|
                0 <= k < objs.len() && objs[k].hit_spec(ray, t_min, t_max) == Option::Some(h))
                && (forall|k: int|
                0 <= k < objs.len() ==> (match #[trigger] objs[k].hit_spec(ray, t_min, t_max) {
                    Option::Some(g) => g.t >= h.t,
                    Option::None => true,
                })),
            Option::None => forall|k: int|
                0 <= k < objs.len() ==> objs[k].hit_spec(ray, t_min, t_max) is None,
        }),
    decreases objs.len() - i,
{
    if i == objs.len() {
        match best {
            Option::Some(b) => {
                assert(list_hit_from(objs, i, ray, t_min, best, closest) == best);
            },
            Option::None => {},
        }
    } else {
        lemma_scan_step(objs[i], ray, t_min, closest, t_max);
        let shrunk = objs[i].hit_spec(ray, t_min, closest);
        let standalone = objs[i].hit_spec(ray, t_min, t_max);
        assert(list_hit_from(objs, i, ray, t_min, best, closest) == (match shrunk {
            Option::Some(h) => list_hit_from(objs, i + 1, ray, t_min, Option::Some(h), h.t),
            Option::None => list_hit_from(objs, i + 1, ray, t_min, best, closest),
        }));
        match shrunk {
            Option::Some(h) => {
                assert(standalone == Option::Some(h));
                assert(h.t < closest);
                assert forall|k: int| 0 <= k < i + 1 implies (
                match #[trigger] objs[k].hit_spec(ray, t_min, t_max) {
                    Option::Some(g) => g.t >= h.t,
                    Option::None => true,
                }) by {
                    if k < i {
                        match best {
                            Option::Some(b) => {},
                            Option::None => {},
                        }
                    }
                }
                assert(0 <= i < i + 1 && objs[i].hit_spec(ray, t_min, t_max)
                    == Option::Some(h));
                lemma_list_hit_from_closest(
                    objs,
                    i + 1,
                    ray,
                    t_min,
                    t_max,
                    Option::Some(h),
                    h.t,
                );
            },
            Option::None => {
                assert((match best {
                    Option::Some(b) => b.t == closest && (exists|k: int|
                        0 <= k < i + 1 && objs[k].hit_spec(ray, t_min, t_max)
                            == Option::Some(b)) && (forall|k: int|
                        0 <= k < i + 1 ==> (match #[trigger] objs[k].hit_spec(
                            ray,
                            t_min,
                            t_max,
                        ) {
                            Option::Some(g) => g.t >= closest,
                            Option::None => true,
                        })),
                    Option::None => closest == t_max && (forall|k: int|
                        0 <= k < i + 1 ==> objs[k].hit_spec(ray, t_min, t_max) is None),
                }));
                lemma_list_hit_from_closest(objs, i + 1, ray, t_min, t_max, best, closest);
            },
        }
    }
}

/// The closest-hit law: when the scene's scan returns an intersection, it
/// is the standalone hit of one of the spheres, and no sphere's standalone
/// hit is strictly nearer; when it returns nothing, no sphere hits at all.
pub proof fn lemma_scene_hit_closest(objs: Seq<Sphere>, ray: Ray, t_min: i64, t_max: i64)
    requires
        v_magsq(ray.dir) > 0,
    ensures
        (match list_hit_from(objs, 0, ray, t_min, Option::None, t_max) {
            Option::Some(h) => (exists|k: int|
                0 <= k < objs.len() && objs[k].hit_spec(ray, t_min, t_max) == Option::Some(h))
                && (forall|k: int|
                0 <= k < objs.len() ==> (match #[trigger] objs[k].hit_spec(ray, t_min, t_max) {
                    Option::Some(g) => g.t >= h.t,
                    Option::None => true,
                })),
            Option::None => forall|k: int|
                0 <= k < objs.len() ==> objs[k].hit_spec(ray, t_min, t_max) is None,
        }),
{
    lemma_list_hit_from_closest(objs, 0, ray, t_min, t_max, Option::None, t_max);
}

impl Hittable for ObjectList<Sphere> {
    /// The ray is not degenerate and every sphere has positive radius.
    open spec fn hit_req(&self, ray: Ray, t_min: i64, t_max: i64) -> bool {
        v_magsq(ray.dir) > 0 && (forall|i: int|
            0 <= i < self.objects@.len() ==> self.objects@[i].radius > 0)
    }

    /// The scan over all spheres, starting from the caller's upper bound.
    open spec fn hit_spec(&self, ray: Ray, t_min: i64, t_max: i64) -> Option<Intersection> {
        list_hit_from(self.objects@, 0, ray, t_min, Option::None, t_max)
    }

    fn hit(&self, ray: &Ray, t_min: i64, t_max: i64) -> (r: Option<Intersection>) {
        let mut best: Option<Intersection> = Option::None;
        let mut closest: i64 = t_max;
        let ghost objs: Seq<Sphere> = self.objects@;

        let mut idx: usize = 0;
        while idx < self.objects.len()
            invariant
                idx <= self.objects.len(),
                self.objects@ == objs,
                self.hit_req(*ray, t_min, t_max),
                list_hit_from(objs, idx as int, *ray, t_min, best, closest)
                    == list_hit_from(objs, 0, *ray, t_min, Option::None, t_max),
                (match best {
                    Option::Some(h) => t_min < h.t && h.t < t_max && h.t == closest,
                    Option::None => closest == t_max,
                }),
            decreases self.objects.len() - idx,
        {
            let object: &Sphere = &self.objects[idx];
            let found: Option<Intersection> = object.hit(ray, t_min, closest);
            match found {
                Option::Some(intersection) => {
                    best = Option::Some(intersection);
                    closest = intersection.t;
                },
                Option::None => {},
            }
            idx = idx + 1;
        }
        best
    }
}

} // verus!
