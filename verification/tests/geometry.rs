use pathtracer::data::{Color, Point, Vec3};
use pathtracer::fixed::ONE;
use pathtracer::material::{Lambertian, MaterialType, Metal};
use pathtracer::world::{Hittable, Intersection, ObjectList, Ray, Sphere};

fn gray() -> MaterialType {
    MaterialType::Lambertian(Lambertian { albedo: Color(Vec3 { x: 32768, y: 32768, z: 32768 }) })
}

#[test]
fn ray_at_walks_along_the_direction() {
    let ray = Ray {
        origin: Point(Vec3 { x: ONE, y: 0, z: 0 }),
        dir: Vec3 { x: 0, y: 2 * ONE, z: 0 },
    };
    let p = ray.at(HALF_T);
    assert_eq!(p, Point(Vec3 { x: ONE, y: ONE, z: 0 }));
}

const HALF_T: i64 = 32768;

#[test]
fn surface_launch_toward_center_hits_at_zero() {
    // A ray starting exactly on the sphere's surface, aimed at the center,
    // hits at t == 0 with the normal opposing the incoming direction.
    let sphere = Sphere {
        center: Point(Vec3 { x: 0, y: 0, z: -2 * ONE }),
        radius: ONE,
        material: gray(),
    };
    let ray = Ray {
        origin: Point(Vec3 { x: 0, y: 0, z: -ONE }),
        dir: Vec3 { x: 0, y: 0, z: -ONE },
    };
    let hit = sphere.hit(&ray, -ONE, 10 * ONE).unwrap();
    assert_eq!(hit.t, 0);
    assert_eq!(hit.normal, Vec3 { x: 0, y: 0, z: ONE });
    assert!(hit.front_face);
    assert_eq!(hit.point, Point(Vec3 { x: 0, y: 0, z: -ONE }));
}

#[test]
fn hit_t_stays_inside_the_interval() {
    let sphere = Sphere {
        center: Point(Vec3 { x: 0, y: 0, z: -2 * ONE }),
        radius: ONE,
        material: gray(),
    };
    let ray = Ray {
        origin: Point(Vec3 { x: 0, y: 0, z: 0 }),
        dir: Vec3 { x: 0, y: 0, z: -ONE },
    };
    // Both roots are t = 1 and t = 3.
    let near = sphere.hit(&ray, 66, i64::MAX).unwrap();
    assert_eq!(near.t, ONE);
    assert!(66 < near.t && near.t < i64::MAX);

    // An upper bound below the near root rejects everything.
    assert!(sphere.hit(&ray, 66, ONE - 1).is_none());

    // Boundary values are rejected: with t_min exactly at the near root the
    // far root is returned instead.
    let far = sphere.hit(&ray, ONE, i64::MAX).unwrap();
    assert_eq!(far.t, 3 * ONE);
    assert!(!far.front_face);
    // The stored normal is flipped to oppose the ray on an inside hit.
    assert_eq!(far.normal, Vec3 { x: 0, y: 0, z: ONE });
}

#[test]
fn ray_pointing_away_misses() {
    let sphere = Sphere {
        center: Point(Vec3 { x: 0, y: 0, z: -2 * ONE }),
        radius: ONE,
        material: gray(),
    };
    let away = Ray {
        origin: Point(Vec3 { x: 0, y: 0, z: 0 }),
        dir: Vec3 { x: 0, y: 0, z: ONE },
    };
    assert!(sphere.hit(&away, 66, i64::MAX).is_none());

    let sideways = Ray {
        origin: Point(Vec3 { x: 0, y: 0, z: 0 }),
        dir: Vec3 { x: 0, y: ONE, z: 0 },
    };
    assert!(sphere.hit(&sideways, 66, i64::MAX).is_none());
}

#[test]
fn scene_returns_the_nearer_of_two_overlapping_spheres() {
    let near_sphere = Sphere {
        center: Point(Vec3 { x: 0, y: 0, z: -2 * ONE }),
        radius: 32768,
        material: MaterialType::Metal(Metal {
            albedo: Color(Vec3 { x: 52429, y: 52429, z: 52429 }),
        }),
    };
    let far_sphere = Sphere {
        center: Point(Vec3 { x: 0, y: 0, z: -4 * ONE }),
        radius: ONE,
        material: gray(),
    };
    let ray = Ray {
        origin: Point(Vec3 { x: 0, y: 0, z: 0 }),
        dir: Vec3 { x: 0, y: 0, z: -ONE },
    };

    let scene = ObjectList { objects: vec![near_sphere, far_sphere] };
    let hit = scene.hit(&ray, 66, i64::MAX).unwrap();
    assert_eq!(hit.t, 98304);  // t = 1.5, the near sphere's front surface
    assert!(matches!(hit.material, MaterialType::Metal(_)));

    // The insertion order does not change the winner.
    let swapped = ObjectList { objects: vec![far_sphere, near_sphere] };
    let hit2 = swapped.hit(&ray, 66, i64::MAX).unwrap();
    assert_eq!(hit2, hit);
}

#[test]
fn empty_scene_never_hits() {
    let scene: ObjectList<Sphere> = ObjectList { objects: Vec::new() };
    let ray = Ray {
        origin: Point(Vec3 { x: 0, y: 0, z: 0 }),
        dir: Vec3 { x: 0, y: 0, z: -ONE },
    };
    assert!(scene.hit(&ray, 66, i64::MAX).is_none());
}

#[test]
fn default_scene_holds_four_spheres() {
    let scene: ObjectList<Sphere> = Default::default();
    assert_eq!(scene.objects.len(), 4);
    assert_eq!(scene.objects[0].radius, 6553600);
    assert_eq!(scene.objects[1].center, Point(Vec3 { x: 0, y: 0, z: -ONE }));
    assert!(matches!(scene.objects[2].material, MaterialType::Metal(_)));
    assert!(matches!(scene.objects[3].material, MaterialType::Metal(_)));
}

#[test]
fn default_camera_center_ray_looks_straight_ahead() {
    let camera: pathtracer::camera::Camera = Default::default();
    let ray = camera.get_ray(32768, 32768);
    assert_eq!(ray.origin, Point(Vec3 { x: 0, y: 0, z: 0 }));
    assert_eq!(ray.dir, Vec3 { x: 0, y: 0, z: -ONE });
}

#[test]
fn reflection_mirrors_about_the_normal() {
    // A 45-degree incoming direction bounces off a horizontal surface.
    let incoming = Vec3 { x: ONE, y: -ONE, z: 0 };
    let normal = Vec3 { x: 0, y: ONE, z: 0 };
    let reflected = pathtracer::math::reflect(&incoming, &normal);
    assert_eq!(reflected, Vec3 { x: 46341, y: 46341, z: 0 });
}

#[test]
fn face_normal_flips_against_the_ray() {
    let ray = Ray {
        origin: Point(Vec3 { x: 0, y: 0, z: 0 }),
        dir: Vec3 { x: 0, y: 0, z: -ONE },
    };
    let outward = Vec3 { x: 0, y: 0, z: -ONE };
    let mut isect = Intersection::default();
    isect.set_face_normal(&ray, &outward);
    // The ray travels with the outward normal, so the hit is from inside
    // and the stored normal is flipped.
    assert!(!isect.front_face);
    assert_eq!(isect.normal, Vec3 { x: 0, y: 0, z: ONE });
}
