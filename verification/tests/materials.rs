use pathtracer::data::{Color, Point, Vec3};
use pathtracer::fixed::ONE;
use pathtracer::material::{Dielectric, FuzzyMetal, Lambertian, Material, MaterialType, Metal};
use pathtracer::math::{near_zero, Rng};
use pathtracer::world::{Intersection, Ray};

fn dot(a: Vec3, b: Vec3) -> i64 {
    a.dot(b)
}

fn head_on_intersection(material: MaterialType) -> (Ray, Intersection) {
    let ray = Ray {
        origin: Point(Vec3 { x: 0, y: 0, z: 0 }),
        dir: Vec3 { x: 0, y: 0, z: -ONE },
    };
    let mut isect = Intersection::default();
    isect.point = Point(Vec3 { x: 0, y: 0, z: -ONE });
    isect.normal = Vec3 { x: 0, y: 0, z: ONE };
    isect.front_face = true;
    isect.material = material;
    (ray, isect)
}

#[test]
fn lambertian_never_absorbs_and_leaves_the_surface() {
    let albedo = Color(Vec3 { x: 45875, y: 19661, z: 19661 });
    let lam = Lambertian { albedo };
    let normal = Vec3 { x: 0, y: ONE, z: 0 };
    let mut isect = Intersection::default();
    isect.point = Point(Vec3 { x: 0, y: ONE, z: 0 });
    isect.normal = normal;
    isect.front_face = true;
    isect.material = MaterialType::Lambertian(lam);
    let ray = Ray {
        origin: Point(Vec3 { x: 0, y: 2 * ONE, z: 0 }),
        dir: Vec3 { x: 0, y: -ONE, z: 0 },
    };

    let mut rng = Rng::new(42);
    let mut trials: u32 = 0;
    while trials < 200 {
        let (attenuation, scattered) = lam.scatter(&ray, &isect, &mut rng).unwrap();
        assert_eq!(attenuation, albedo);
        assert_eq!(scattered.origin, isect.point);
        // The outgoing direction points away from the surface (up to the
        // near-zero fallback's tolerance).
        assert!(dot(scattered.dir, normal) >= 0);
        trials += 1;
    }
}

#[test]
fn metal_reflects_head_on() {
    let albedo = Color(Vec3 { x: 52429, y: 52429, z: 52429 });
    let metal = Metal { albedo };
    let (ray, isect) = head_on_intersection(MaterialType::Metal(metal));

    let mut rng = Rng::new(1);
    let before = rng;
    let (attenuation, scattered) = metal.scatter(&ray, &isect, &mut rng).unwrap();
    assert_eq!(attenuation, albedo);
    assert_eq!(scattered.dir, Vec3 { x: 0, y: 0, z: ONE });
    // A perfect mirror makes no random draw.
    assert_eq!(rng, before);
}

#[test]
fn metal_absorbs_when_the_reflection_stays_inside() {
    // The incoming ray travels with the normal (a hit from behind): the
    // reflected direction points into the surface and the bounce is
    // absorbed.
    let metal = Metal { albedo: Color(Vec3 { x: 52429, y: 52429, z: 52429 }) };
    let mut isect = Intersection::default();
    isect.normal = Vec3 { x: 0, y: 0, z: ONE };
    isect.material = MaterialType::Metal(metal);
    let ray = Ray {
        origin: Point(Vec3 { x: 0, y: 0, z: 0 }),
        dir: Vec3 { x: 0, y: 0, z: ONE },
    };

    let mut rng = Rng::new(1);
    assert!(metal.scatter(&ray, &isect, &mut rng).is_none());
}

#[test]
fn fuzzy_metal_with_zero_fuzz_reflects_like_metal() {
    let albedo = Color(Vec3 { x: 52429, y: 39322, z: 13107 });
    let fuzzy = FuzzyMetal { albedo, fuzz: 0 };
    let (ray, isect) = head_on_intersection(MaterialType::FuzzyMetal(fuzzy));

    let mut rng = Rng::new(5);
    let before = rng;
    let (attenuation, scattered) = fuzzy.scatter(&ray, &isect, &mut rng).unwrap();
    assert_eq!(attenuation, albedo);
    assert_eq!(scattered.dir, Vec3 { x: 0, y: 0, z: ONE });
    // The perturbation draw is made even when it is scaled away.
    assert_ne!(rng, before);
}

#[test]
fn fuzzy_metal_draws_even_when_absorbed() {
    let fuzzy = FuzzyMetal { albedo: Color(Vec3 { x: 52429, y: 52429, z: 52429 }), fuzz: 0 };
    let mut isect = Intersection::default();
    isect.normal = Vec3 { x: 0, y: 0, z: ONE };
    isect.material = MaterialType::FuzzyMetal(fuzzy);
    let ray = Ray {
        origin: Point(Vec3 { x: 0, y: 0, z: 0 }),
        dir: Vec3 { x: 0, y: 0, z: ONE },
    };

    let mut rng = Rng::new(5);
    let before = rng;
    assert!(fuzzy.scatter(&ray, &isect, &mut rng).is_none());
    assert_ne!(rng, before);
}

#[test]
fn matched_dielectric_does_not_bend_head_on() {
    // With a refractive index of one, both media match and a head-on ray
    // passes straight through.
    let glass = Dielectric { ref_index: ONE };
    let (ray, isect) = head_on_intersection(MaterialType::Dielectric(glass));

    let mut rng = Rng::new(7);
    let (attenuation, scattered) = glass.scatter(&ray, &isect, &mut rng).unwrap();
    assert_eq!(attenuation, Color(Vec3 { x: ONE, y: ONE, z: ONE }));
    assert_eq!(scattered.dir, Vec3 { x: 0, y: 0, z: -ONE });
}

#[test]
fn matched_dielectric_is_collinear_oblique() {
    // An oblique ray through a matched boundary stays collinear with the
    // incoming direction up to fixed-point rounding.
    let glass = Dielectric { ref_index: ONE };
    let mut isect = Intersection::default();
    isect.point = Point(Vec3 { x: 0, y: 0, z: -ONE });
    isect.normal = Vec3 { x: 0, y: 0, z: ONE };
    isect.front_face = true;
    isect.material = MaterialType::Dielectric(glass);
    let ray = Ray {
        origin: Point(Vec3 { x: -ONE, y: 0, z: 0 }),
        dir: Vec3 { x: ONE, y: 0, z: -ONE },
    };

    // With seed 7 the reflectance draw is 32323, far above the Schlick
    // value, so the ray refracts.
    let mut rng = Rng::new(7);
    let (_, scattered) = glass.scatter(&ray, &isect, &mut rng).unwrap();
    let unit_in = ray.dir.normalize();
    assert!((scattered.dir.x - unit_in.x).abs() <= 2);
    assert!((scattered.dir.y - unit_in.y).abs() <= 2);
    assert!((scattered.dir.z - unit_in.z).abs() <= 2);
}

#[test]
fn dielectric_reflects_totally_inside_the_denser_medium() {
    // Leaving a dense medium at a grazing angle: total internal reflection,
    // decided without consuming a random draw.
    let glass = Dielectric { ref_index: 2 * ONE };
    let mut isect = Intersection::default();
    isect.point = Point(Vec3 { x: 0, y: 0, z: -ONE });
    isect.normal = Vec3 { x: 0, y: 0, z: ONE };
    isect.front_face = false;
    isect.material = MaterialType::Dielectric(glass);
    let ray = Ray {
        origin: Point(Vec3 { x: -ONE, y: 0, z: 0 }),
        dir: Vec3 { x: ONE, y: 0, z: -ONE },
    };

    let mut rng = Rng::new(3);
    let before = rng;
    let (_, scattered) = glass.scatter(&ray, &isect, &mut rng).unwrap();
    assert_eq!(scattered.dir, Vec3 { x: 46341, y: 0, z: 46341 });
    assert_eq!(rng, before);
}

#[test]
fn near_zero_is_a_signed_componentwise_test() {
    assert!(near_zero(&Vec3 { x: 0, y: 0, z: 0 }));
    // Large negative components also pass the per-component comparison.
    assert!(near_zero(&Vec3 { x: -ONE, y: -ONE, z: -ONE }));
    assert!(!near_zero(&Vec3 { x: 1, y: 0, z: 0 }));
}

#[test]
fn dispatch_agrees_with_the_material() {
    let albedo = Color(Vec3 { x: 52429, y: 52429, z: 52429 });
    let metal = Metal { albedo };
    let (ray, isect) = head_on_intersection(MaterialType::Metal(metal));

    let mut rng_direct = Rng::new(11);
    let mut rng_dispatch = Rng::new(11);
    let direct = metal.scatter(&ray, &isect, &mut rng_direct);
    let dispatched = isect.material.scatter(&ray, &isect, &mut rng_dispatch);
    assert_eq!(direct, dispatched);
    assert_eq!(rng_direct, rng_dispatch);
}
