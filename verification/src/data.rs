//! Three-component fixed-point algebra: vectors, points and colors.

use vstd::prelude::*;
use crate::fixed::{
    fp_add, fp_add_spec, fp_div, fp_div_spec, fp_mul, fp_mul_spec, fp_neg, fp_neg_spec, fp_sqrt,
    fp_sqrt_spec, fp_sub, fp_sub_spec, lemma_sqrt_floor_bounds, SCALE,
};
use vstd::arithmetic::div_mod::lemma_div_pos_is_pos;

verus! {

/// A direction or displacement: three fixed-point components.
#[derive(Copy, Clone, PartialEq, Eq, Structural, Debug)]
pub struct Vec3 {
    pub x: i64,
    pub y: i64,
    pub z: i64,
}

/// Build a vector from saturated mathematical components.
pub open spec fn v3(x: int, y: int, z: int) -> Vec3 {
    Vec3 { x: x as i64, y: y as i64, z: z as i64 }
}

/// Componentwise sum.
pub open spec fn v_add(a: Vec3, b: Vec3) -> Vec3 {
    v3(
        fp_add_spec(a.x as int, b.x as int),
        fp_add_spec(a.y as int, b.y as int),
        fp_add_spec(a.z as int, b.z as int),
    )
}

/// Componentwise difference.
pub open spec fn v_sub(a: Vec3, b: Vec3) -> Vec3 {
    v3(
        fp_sub_spec(a.x as int, b.x as int),
        fp_sub_spec(a.y as int, b.y as int),
        fp_sub_spec(a.z as int, b.z as int),
    )
}

/// Componentwise negation.
pub open spec fn v_neg(a: Vec3) -> Vec3 {
    v3(
        fp_neg_spec(a.x as int),
        fp_neg_spec(a.y as int),
        fp_neg_spec(a.z as int),
    )
}

/// Scaling by a fixed-point factor.
pub open spec fn v_scale(k: int, a: Vec3) -> Vec3 {
    v3(
        fp_mul_spec(k, a.x as int),
        fp_mul_spec(k, a.y as int),
        fp_mul_spec(k, a.z as int),
    )
}

/// Componentwise product; on colors this is light attenuation.
pub open spec fn v_mul_elem(a: Vec3, b: Vec3) -> Vec3 {
    v3(
        fp_mul_spec(a.x as int, b.x as int),
        fp_mul_spec(a.y as int, b.y as int),
        fp_mul_spec(a.z as int, b.z as int),
    )
}

/// Dot product.
pub open spec fn v_dot(a: Vec3, b: Vec3) -> int {
    fp_add_spec(
        fp_add_spec(
            fp_mul_spec(a.x as int, b.x as int),
            fp_mul_spec(a.y as int, b.y as int),
        ),
        fp_mul_spec(a.z as int, b.z as int),
    )
}

/// Squared magnitude.
pub open spec fn v_magsq(a: Vec3) -> int {
    v_dot(a, a)
}

/// Division of every component by a positive fixed-point scalar.
pub open spec fn v_div_scalar(a: Vec3, d: int) -> Vec3 {
    v3(
        fp_div_spec(a.x as int, d),
        fp_div_spec(a.y as int, d),
        fp_div_spec(a.z as int, d),
    )
}

/// The magnitude (length) of a vector.
pub open spec fn v_len(a: Vec3) -> int {
    fp_sqrt_spec(v_magsq(a))
}

/// Normalization: division by the magnitude.
pub open spec fn v_norm(a: Vec3) -> Vec3 {
    v_div_scalar(a, v_len(a))
}

/// A fixed-point square is nonnegative.
pub proof fn lemma_fp_square_nonneg(a: int)
    ensures
        fp_mul_spec(a, a) >= 0,
{
    assert(a * a >= 0) by (nonlinear_arith);
    if a * a > 0 {
        lemma_div_pos_is_pos(a * a, SCALE as int);
    }
}

/// A squared magnitude is nonnegative.
pub proof fn lemma_v_magsq_nonneg(a: Vec3)
    ensures
        v_magsq(a) >= 0,
{
    lemma_fp_square_nonneg(a.x as int);
    lemma_fp_square_nonneg(a.y as int);
    lemma_fp_square_nonneg(a.z as int);
}

impl Vec3 {
    /// Construct a vector from its fixed-point components.
    pub fn new(x: i64, y: i64, z: i64) -> (r: Vec3)
        ensures
            r == (Vec3 { x, y, z }),
    {
        Vec3 { x, y, z }
    }

    /// The zero vector.
    pub fn zeros() -> (r: Vec3)
        ensures
            r == (Vec3 { x: 0i64, y: 0i64, z: 0i64 }),
    {
        Vec3 { x: 0, y: 0, z: 0 }
    }

    /// Vector addition.
    pub fn add(self, other: Vec3) -> (r: Vec3)
        ensures
            r == v_add(self, other),
    {
        Vec3 {
            x: fp_add(self.x, other.x),
            y: fp_add(self.y, other.y),
            z: fp_add(self.z, other.z),
        }
    }

    /// Vector subtraction.
    pub fn sub(self, other: Vec3) -> (r: Vec3)
        ensures
            r == v_sub(self, other),
    {
        Vec3 {
            x: fp_sub(self.x, other.x),
            y: fp_sub(self.y, other.y),
            z: fp_sub(self.z, other.z),
        }
    }

    /// Vector negation.
    pub fn neg(self) -> (r: Vec3)
        ensures
            r == v_neg(self),
    {
        Vec3 { x: fp_neg(self.x), y: fp_neg(self.y), z: fp_neg(self.z) }
    }

    /// Scaling by a fixed-point factor.
    pub fn scale(self, k: i64) -> (r: Vec3)
        ensures
            r == v_scale(k as int, self),
    {
        Vec3 {
            x: fp_mul(k, self.x),
            y: fp_mul(k, self.y),
            z: fp_mul(k, self.z),
        }
    }

    /// Componentwise product.
    pub fn mul_elem(self, other: Vec3) -> (r: Vec3)
        ensures
            r == v_mul_elem(self, other),
    {
        Vec3 {
            x: fp_mul(self.x, other.x),
            y: fp_mul(self.y, other.y),
            z: fp_mul(self.z, other.z),
        }
    }

    /// Dot product.
    pub fn dot(self, other: Vec3) -> (r: i64)
        ensures
            r as int == v_dot(self, other),
    {
        fp_add(
            fp_add(fp_mul(self.x, other.x), fp_mul(self.y, other.y)),
            fp_mul(self.z, other.z),
        )
    }

    /// Squared magnitude; always nonnegative.
    pub fn magnitude_squared(self) -> (r: i64)
        ensures
            r as int == v_magsq(self),
            r >= 0,
    {
        proof {
            lemma_v_magsq_nonneg(self);
        }
        self.dot(self)
    }

    /// Division of every component by a positive scalar.
    pub fn div_scalar(self, d: i64) -> (r: Vec3)
        requires
            d > 0,
        ensures
            r == v_div_scalar(self, d as int),
    {
        Vec3 {
            x: fp_div(self.x, d),
            y: fp_div(self.y, d),
            z: fp_div(self.z, d),
        }
    }

    /// Normalization.  A vector whose squared magnitude rounds to zero is
    /// degenerate and must be ruled out by the caller.
    pub fn normalize(self) -> (r: Vec3)
        requires
            v_magsq(self) > 0,
        ensures
            r == v_norm(self),
    {
        let m: i64 = self.magnitude_squared();
        let len: i64 = fp_sqrt(m);
        proof {
            lemma_sqrt_floor_bounds((m as int) * (SCALE as int));
            if len == 0 {
                assert((m as int) * (SCALE as int) < 1) by (nonlinear_arith)
                    requires
                        (m as int) * (SCALE as int) < (0 + 1) * (0 + 1),
                ;
                assert((m as int) * (SCALE as int) >= SCALE as int) by (nonlinear_arith)
                    requires
                        m >= 1,
                ;
            }
        }
        self.div_scalar(len)
    }
}

/// A position in space, algebraically a vector under translation.
#[derive(Copy, Clone, PartialEq, Eq, Structural, Debug)]
pub struct Point(pub Vec3);

impl Point {
    /// The displacement from `other` to `self`.
    pub fn sub(self, other: Point) -> (r: Vec3)
        ensures
            r == v_sub(self.0, other.0),
    {
        self.0.sub(other.0)
    }

    /// The point reached by following a displacement.
    pub fn translate(self, v: Vec3) -> (r: Point)
        ensures
            r == (Point { 0: v_add(self.0, v) }),
    {
        Point(self.0.add(v))
    }
}

/// A radiance triple; channels may exceed one during accumulation.
#[derive(Copy, Clone, PartialEq, Eq, Structural, Debug)]
pub struct Color(pub Vec3);

impl Default for Color {
    /// Black.
    fn default() -> (r: Color)
        ensures
            r == (Color { 0: Vec3 { x: 0i64, y: 0i64, z: 0i64 } }),
    {
        Color(Vec3 { x: 0, y: 0, z: 0 })
    }
}

impl Color {
    /// Scaling of every channel by a fixed-point factor.
    pub fn mul(self, k: i64) -> (r: Color)
        ensures
            r == (Color { 0: v_scale(k as int, self.0) }),
    {
        Color(self.0.scale(k))
    }

    /// Channel sum, used to accumulate samples.
    pub fn add(self, other: Color) -> (r: Color)
        ensures
            r == (Color { 0: v_add(self.0, other.0) }),
    {
        Color(self.0.add(other.0))
    }

    /// Channelwise product: light attenuation.
    pub fn mul_elementwise(self, other: Color) -> (r: Color)
        ensures
            r == (Color { 0: v_mul_elem(self.0, other.0) }),
    {
        Color(self.0.mul_elem(other.0))
    }
}

} // verus!
