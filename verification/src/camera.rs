//! The pinhole camera: a fixed eye point and a virtual viewport one focal
//! length away.

use vstd::prelude::*;
use crate::data::{v_add, v_scale, v_sub, Point, Vec3};
use crate::world::Ray;

verus! {

/// The width-to-height ratio of the image, 16:9 in fixed point.
pub const ASPECT_RATIO: i64 = 116508;

/// The viewport height, two world units in fixed point.
pub const VIEWPORT_HEIGHT: i64 = 131072;

/// The viewport width: aspect ratio times viewport height.
pub const VIEWPORT_WIDTH: i64 = 2 * 116508;

/// The distance from the eye to the viewport, one world unit.
pub const FOCAL_LENGTH: i64 = 65536;

/// A camera at the origin looking along the negative `z` axis.
#[derive(Copy, Clone, PartialEq, Eq, Structural, Debug)]
pub struct Camera {
    pub origin: Point,
    pub lower_left: Point,
    pub horizontal: Vec3,
    pub vertical: Vec3,
}

/// The ray a camera casts toward viewport coordinates `(u, v)`.
pub open spec fn camera_ray_spec(c: Camera, u: int, v: int) -> Ray {
    Ray {
        origin: c.origin,
        dir: v_sub(
            v_add(
                v_add(c.lower_left.0, v_scale(u, c.horizontal)),
                v_scale(v, c.vertical),
            ),
            c.origin.0,
        ),
    }
}

impl Default for Camera {
    /// The eye at the origin; the viewport spans the given extents, one
    /// focal length away along negative `z`.
    fn default() -> (r: Camera)
        ensures
            r.origin == (Point { 0: Vec3 { x: 0i64, y: 0i64, z: 0i64 } }),
            r.horizontal == (Vec3 { x: VIEWPORT_WIDTH, y: 0i64, z: 0i64 }),
            r.vertical == (Vec3 { x: 0i64, y: VIEWPORT_HEIGHT, z: 0i64 }),
            r.lower_left == (Point {
                0: Vec3 { x: -116508i64, y: -65536i64, z: -65536i64 },
            }),
    {
        let origin = Point(Vec3 { x: 0, y: 0, z: 0 });
        let horizontal = Vec3 { x: VIEWPORT_WIDTH, y: 0, z: 0 };
        let vertical = Vec3 { x: 0, y: VIEWPORT_HEIGHT, z: 0 };
        let half_h: Vec3 = horizontal.div_scalar(131072);
        let half_v: Vec3 = vertical.div_scalar(131072);
        let lower_left = Point(
            origin.0.sub(half_h).sub(half_v).sub(Vec3 { x: 0, y: 0, z: FOCAL_LENGTH }),
        );

        Camera { origin, lower_left, horizontal, vertical }
    }
}

impl Camera {
    /// The ray from the eye toward viewport coordinates `(u, v)`, each in
    /// `[0, 1]` in fixed point.
    pub fn get_ray(&self, u: i64, v: i64) -> (r: Ray)
        ensures
            r == camera_ray_spec(*self, u as int, v as int),
    {
        Ray {
            origin: self.origin,
            dir: self.lower_left.0.add(self.horizontal.scale(u)).add(
                self.vertical.scale(v),
            ).sub(self.origin.0),
        }
    }
}

} // verus!
