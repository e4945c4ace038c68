//! Scalar helpers, the random source, and the reflection and refraction
//! formulas.
//!
//! Randomness is drawn from an explicit, seeded linear congruential generator
//! that is threaded through sampling and scattering, so a render is a
//! deterministic function of the seed and every routine here has an exact
//! contract.

use vstd::prelude::*;
use crate::data::{v_add, v_dot, v_magsq, v_neg, v_norm, v_scale, v_sub, Vec3};
use crate::fixed::{
    fp_add, fp_add_spec, fp_div, fp_div_spec, fp_min_spec, fp_mul, fp_mul_spec, fp_neg,
    fp_neg_spec, fp_sqrt, fp_sqrt_spec, fp_sub, fp_sub_spec, HALF, ONE,
};

verus! {

/// The fixed-point value of pi.
pub const PI_FP: i64 = 205887;

/// The fixed-point value of 180 degrees.
pub const HALF_TURN_DEG_FP: i64 = 180 * 65536;

/// Multiplier of the linear congruential random generator.
pub const RNG_MUL: u64 = 6364136223846793005;

/// Increment of the linear congruential random generator.
pub const RNG_INC: u64 = 1442695040888963407;

/// Divisor that keeps the top 16 bits of a generator state as a unit draw.
pub const RNG_TOP: u64 = 0x1_0000_0000_0000;

/// How many rejection-sampling attempts are made before falling back to a
/// fixed in-sphere vector.
pub const SPHERE_ATTEMPTS: u64 = 64;

/// Components smaller than this threshold (one fixed-point step) count as
/// near zero.  The test is signed and per component: a vector with large
/// negative components passes it too.
pub const NEAR_ZERO_EPS: i64 = 1;

/// The generator state after one step.
pub open spec fn rng_next(s: u64) -> u64 {
    (((RNG_MUL as int) * (s as int) + RNG_INC as int) % 0x1_0000_0000_0000_0000) as u64
}

/// The unit draw in `[0, 1)` read off a generator state: its top 16 bits.
pub open spec fn rng_unit(s: u64) -> int {
    (s as int) / (RNG_TOP as int)
}

/// A draw in `[min, max)` built from a unit draw.
pub open spec fn range_of(min: int, max: int, u: int) -> int {
    fp_add_spec(min, fp_mul_spec(u, fp_sub_spec(max, min)))
}

/// An explicit random source: state of a linear congruential generator.
#[derive(Copy, Clone, PartialEq, Eq, Structural, Debug)]
pub struct Rng {
    pub state: u64,
}

impl Rng {
    /// A generator starting from the given seed.
    pub fn new(seed: u64) -> (r: Rng)
        ensures
            r.state == seed,
    {
        Rng { state: seed }
    }

    /// Step the generator and return a fixed-point draw in `[0, 1)`.
    pub fn next_fp(&mut self) -> (r: i64)
        ensures
            final(self).state == rng_next(old(self).state),
            r as int == rng_unit(rng_next(old(self).state)),
            0 <= r < ONE,
    {
        let s: u64 = self.state;
        proof {
            assert((RNG_MUL as int) * (s as int) + (RNG_INC as int) <= u128::MAX as int)
                by (nonlinear_arith)
                requires
                    0 <= (s as int) < 0x1_0000_0000_0000_0000,
            ;
        }
        let wide: u128 = (RNG_MUL as u128) * (s as u128) + (RNG_INC as u128);
        let next: u64 = (wide % 0x1_0000_0000_0000_0000u128) as u64;
        self.state = next;
        (next / RNG_TOP) as i64
    }
}

/// Degrees to radians: `deg * pi / 180`.
pub fn deg_to_rad(deg: i64) -> (r: i64)
    ensures
        r as int == fp_div_spec(
            fp_mul_spec(deg as int, PI_FP as int),
            HALF_TURN_DEG_FP as int,
        ),
{
    fp_div(fp_mul(deg, PI_FP), HALF_TURN_DEG_FP)
}

/// Clamp a scalar into `[min, max]`.
pub fn clamp(x: i64, min: i64, max: i64) -> (r: i64)
    ensures
        r as int == clamp_spec(x as int, min as int, max as int),
{
    if x < min {
        min
    } else if x > max {
        max
    } else {
        x
    }
}

/// What `clamp` returns.
pub open spec fn clamp_spec(x: int, min: int, max: int) -> int {
    if x < min {
        min
    } else if x > max {
        max
    } else {
        x
    }
}

/// A uniform fixed-point draw in `[0, 1)`.
pub fn rand(rng: &mut Rng) -> (r: i64)
    ensures
        final(rng).state == rng_next(old(rng).state),
        r as int == rng_unit(rng_next(old(rng).state)),
        0 <= r < ONE,
{
    rng.next_fp()
}

/// A uniform fixed-point draw in `[min, max)`.
pub fn random_range(min: i64, max: i64, rng: &mut Rng) -> (r: i64)
    ensures
        final(rng).state == rng_next(old(rng).state),
        r as int == range_of(min as int, max as int, rng_unit(rng_next(old(rng).state))),
{
    let u: i64 = rng.next_fp();
    fp_add(min, fp_mul(u, fp_sub(max, min)))
}

/// The vector drawn by three unit draws, with the state that follows.
pub open spec fn random_vec_spec(s: u64) -> (Vec3, u64) {
    let s1 = rng_next(s);
    let s2 = rng_next(s1);
    let s3 = rng_next(s2);
    (
        Vec3 {
            x: rng_unit(s1) as i64,
            y: rng_unit(s2) as i64,
            z: rng_unit(s3) as i64,
        },
        s3,
    )
}

/// A vector whose components are uniform draws in `[0, 1)`.
pub fn random_vec(rng: &mut Rng) -> (r: Vec3)
    ensures
        r == random_vec_spec(old(rng).state).0,
        final(rng).state == random_vec_spec(old(rng).state).1,
{
    let x: i64 = rng.next_fp();
    let y: i64 = rng.next_fp();
    let z: i64 = rng.next_fp();
    Vec3 { x, y, z }
}

/// The vector drawn by three range draws, with the state that follows.
#[verifier::opaque]
pub open spec fn random_range_vec_spec(min: int, max: int, s: u64) -> (Vec3, u64) {
    let s1 = rng_next(s);
    let s2 = rng_next(s1);
    let s3 = rng_next(s2);
    (
        Vec3 {
            x: range_of(min, max, rng_unit(s1)) as i64,
            y: range_of(min, max, rng_unit(s2)) as i64,
            z: range_of(min, max, rng_unit(s3)) as i64,
        },
        s3,
    )
}

/// A vector whose components are uniform draws in `[min, max)`.
pub fn random_range_vec(min: i64, max: i64, rng: &mut Rng) -> (r: Vec3)
    ensures
        r == random_range_vec_spec(min as int, max as int, old(rng).state).0,
        final(rng).state == random_range_vec_spec(min as int, max as int, old(rng).state).1,
{
    proof {
        reveal(random_range_vec_spec);
    }
    let x: i64 = random_range(min, max, rng);
    let y: i64 = random_range(min, max, rng);
    let z: i64 = random_range(min, max, rng);
    Vec3 { x, y, z }
}

/// The fallback direction used when rejection sampling runs out of attempts:
/// strictly inside the unit sphere and not degenerate.
pub open spec fn sphere_fallback() -> Vec3 {
    Vec3 { x: HALF, y: 0i64, z: 0i64 }
}

/// Rejection sampling for a point in the unit sphere: draw a vector in
/// `[-1, 1)^3`, keep it when its squared magnitude is strictly between zero
/// and one, and otherwise burn one unit of fuel and try again.
#[verifier::opaque]
pub open spec fn unit_sphere_spec(s: u64, fuel: nat) -> (Vec3, u64)
    decreases fuel,
{
    if fuel == 0 {
        (sphere_fallback(), s)
    } else {
        let (p, s2) = random_range_vec_spec(-(ONE as int), ONE as int, s);
        if 0 < v_magsq(p) < ONE {
            (p, s2)
        } else {
            unit_sphere_spec(s2, (fuel - 1) as nat)
        }
    }
}

/// Whatever the state and fuel, the sampled point is strictly inside the
/// unit sphere and not degenerate.
pub proof fn lemma_unit_sphere_in_sphere(s: u64, fuel: nat)
    ensures
        0 < v_magsq(unit_sphere_spec(s, fuel).0) < ONE,
    decreases fuel,
{
    reveal(unit_sphere_spec);
    if fuel == 0 {
        assert(v_magsq(sphere_fallback()) == 16384);
    } else {
        let (p, s2) = random_range_vec_spec(-(ONE as int), ONE as int, s);
        if !(0 < v_magsq(p) < ONE) {
            lemma_unit_sphere_in_sphere(s2, (fuel - 1) as nat);
        }
    }
}

/// One unfolding step of `unit_sphere_spec`.
proof fn lemma_unit_sphere_unfold(s: u64, fuel: nat)
    requires
        fuel > 0,
    ensures
        ({
            let (p, s2) = random_range_vec_spec(-(ONE as int), ONE as int, s);
            if 0 < v_magsq(p) < ONE {
                unit_sphere_spec(s, fuel) == (p, s2)
            } else {
                unit_sphere_spec(s, fuel) == unit_sphere_spec(s2, (fuel - 1) as nat)
            }
        }),
{
    reveal(unit_sphere_spec);
    reveal(random_range_vec_spec);
}

/// A point strictly inside the unit sphere, by rejection sampling.  A draw
/// whose squared magnitude rounds to zero is degenerate and rejected as
/// well.
#[verifier::rlimit(50)]
#[verifier::loop_isolation(false)]
pub fn random_unit_sphere(rng: &mut Rng) -> (r: Vec3)
    ensures
        r == unit_sphere_spec(old(rng).state, SPHERE_ATTEMPTS as nat).0,
        final(rng).state == unit_sphere_spec(old(rng).state, SPHERE_ATTEMPTS as nat).1,
        0 < v_magsq(r) < ONE,
{
    proof {
        lemma_unit_sphere_in_sphere(old(rng).state, SPHERE_ATTEMPTS as nat);
    }
    let ghost s0: u64 = rng.state;
    let mut fuel: u64 = SPHERE_ATTEMPTS;
    while fuel > 0
        invariant
            fuel <= SPHERE_ATTEMPTS,
            unit_sphere_spec(s0, SPHERE_ATTEMPTS as nat) == unit_sphere_spec(
                rng.state,
                fuel as nat,
            ),
        decreases fuel,
    {
        let ghost s_pre: u64 = rng.state;
        let p: Vec3 = random_range_vec(-ONE, ONE, rng);
        let m: i64 = p.magnitude_squared();
        proof {
            lemma_unit_sphere_unfold(s_pre, fuel as nat);
        }
        if 0 < m && m < ONE {
            return p;
        }
        fuel = fuel - 1;
    }
    proof {
        reveal(unit_sphere_spec);
    }
    Vec3 { x: HALF, y: 0, z: 0 }
}

/// The unit vector drawn by rejection sampling, with the state that follows.
pub open spec fn random_unit_vec_spec(s: u64) -> (Vec3, u64) {
    let (p, s2) = unit_sphere_spec(s, SPHERE_ATTEMPTS as nat);
    (v_norm(p), s2)
}

/// A random direction of (approximately) unit length.
pub fn random_unit_vec(rng: &mut Rng) -> (r: Vec3)
    ensures
        r == random_unit_vec_spec(old(rng).state).0,
        final(rng).state == random_unit_vec_spec(old(rng).state).1,
{
    let p: Vec3 = random_unit_sphere(rng);
    p.normalize()
}

/// Whether every component lies below the near-zero threshold.
pub open spec fn near_zero_spec(v: Vec3) -> bool {
    v.x < NEAR_ZERO_EPS && v.y < NEAR_ZERO_EPS && v.z < NEAR_ZERO_EPS
}

/// Whether every component lies below the near-zero threshold.
pub fn near_zero(v: &Vec3) -> (r: bool)
    ensures
        r == near_zero_spec(*v),
{
    v.x < NEAR_ZERO_EPS && v.y < NEAR_ZERO_EPS && v.z < NEAR_ZERO_EPS
}

/// The mirror reflection of (the unit vector along) `v` about `normal`.
pub open spec fn reflect_spec(v: Vec3, normal: Vec3) -> Vec3 {
    let uv = v_norm(v);
    let d = v_dot(uv, normal);
    v_sub(uv, v_scale(fp_add_spec(d, d), normal))
}

/// Mirror reflection: `unit(v) - 2 (unit(v) . n) n`.
pub fn reflect(v: &Vec3, normal: &Vec3) -> (r: Vec3)
    requires
        v_magsq(*v) > 0,
    ensures
        r == reflect_spec(*v, *normal),
{
    let uv: Vec3 = v.normalize();
    let d: i64 = uv.dot(*normal);
    uv.sub(normal.scale(fp_add(d, d)))
}

/// Snell refraction of (the unit vector along) `v` through a surface with
/// normal `n` and refraction ratio `ratio`, split into components
/// perpendicular and parallel to the normal.
pub open spec fn refract_spec(v: Vec3, normal: Vec3, ratio: int) -> Vec3 {
    let uv = v_norm(v);
    let cos_theta = fp_min_spec(v_dot(v_neg(uv), normal), ONE as int);
    let r_out_perp = v_scale(ratio, v_add(uv, v_scale(cos_theta, normal)));
    let inner = fp_sub_spec(ONE as int, v_magsq(r_out_perp));
    let inner_abs = if inner < 0 { fp_neg_spec(inner) } else { inner };
    let r_out_parallel = v_scale(fp_neg_spec(fp_sqrt_spec(inner_abs)), normal);
    v_add(r_out_perp, r_out_parallel)
}

/// Snell refraction.
pub fn refract(v: &Vec3, normal: &Vec3, ratio: i64) -> (r: Vec3)
    requires
        v_magsq(*v) > 0,
    ensures
        r == refract_spec(*v, *normal, ratio as int),
{
    let uv: Vec3 = v.normalize();
    let d: i64 = uv.neg().dot(*normal);
    let cos_theta: i64 = if d > ONE {
        ONE
    } else {
        d
    };
    let r_out_perp: Vec3 = uv.add(normal.scale(cos_theta)).scale(ratio);
    let inner: i64 = fp_sub(ONE, r_out_perp.magnitude_squared());
    let inner_abs: i64 = if inner < 0 {
        fp_neg(inner)
    } else {
        inner
    };
    let r_out_parallel: Vec3 = normal.scale(fp_neg(fp_sqrt(inner_abs)));
    r_out_perp.add(r_out_parallel)
}

} // verus!
