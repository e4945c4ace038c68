use pathtracer::camera::Camera;
use pathtracer::data::{Color, Point, Vec3};
use pathtracer::fixed::{fp_div, ONE};
use pathtracer::material::{Lambertian, MaterialType};
use pathtracer::math::Rng;
use pathtracer::render::{background, quantize_color, ray_color, render, Pixel};
use pathtracer::world::{Hittable, ObjectList, Ray, Sphere};

fn gray_half() -> Color {
    Color(Vec3 { x: 32768, y: 32768, z: 32768 })
}

#[test]
fn zero_depth_is_black_for_any_ray_and_scene() {
    let scene: ObjectList<Sphere> = Default::default();
    let rays = [
        Ray { origin: Point(Vec3 { x: 0, y: 0, z: 0 }), dir: Vec3 { x: 0, y: 0, z: -ONE } },
        Ray { origin: Point(Vec3 { x: ONE, y: -ONE, z: 0 }), dir: Vec3 { x: 0, y: ONE, z: 0 } },
        Ray { origin: Point(Vec3 { x: 0, y: 0, z: 0 }), dir: Vec3 { x: ONE, y: ONE, z: ONE } },
    ];
    for ray in rays.iter() {
        let mut rng = Rng::new(99);
        let before = rng;
        let c = ray_color(ray, &scene, 0, &mut rng);
        assert_eq!(c, Color(Vec3 { x: 0, y: 0, z: 0 }));
        // Exhaustion is decided before any scatter: no draw is consumed.
        assert_eq!(rng, before);

        let mut rng2 = Rng::new(99);
        let c2 = ray_color(ray, &scene, -3, &mut rng2);
        assert_eq!(c2, Color(Vec3 { x: 0, y: 0, z: 0 }));
    }
}

#[test]
fn a_missed_ray_returns_the_background_gradient() {
    let scene: ObjectList<Sphere> = ObjectList { objects: Vec::new() };
    let ray = Ray {
        origin: Point(Vec3 { x: 0, y: 0, z: 0 }),
        dir: Vec3 { x: 0, y: 0, z: -ONE },
    };
    let mut rng = Rng::new(4);
    let c = ray_color(&ray, &scene, 5, &mut rng);
    // Straight ahead: halfway between white and sky blue.
    assert_eq!(c, Color(Vec3 { x: 49152, y: 55705, z: 65536 }));
    assert_eq!(c, background(&ray));
}

#[test]
fn unit_white_over_one_sample_quantizes_to_full_brightness() {
    let p = quantize_color(Color(Vec3 { x: ONE, y: ONE, z: ONE }), 1);
    assert_eq!(p, Pixel { r: 255, g: 255, b: 255 });
}

#[test]
fn black_quantizes_to_zero() {
    let p = quantize_color(Color(Vec3 { x: 0, y: 0, z: 0 }), 1);
    assert_eq!(p, Pixel { r: 0, g: 0, b: 0 });
}

#[test]
fn gamma_takes_a_quarter_to_half_brightness() {
    // 0.25 averaged over one sample, square-rooted, is 0.5: channel 128.
    let p = quantize_color(Color(Vec3 { x: 16384, y: 16384, z: 16384 }), 1);
    assert_eq!(p, Pixel { r: 128, g: 128, b: 128 });
}

#[test]
fn averaging_divides_by_the_sample_count() {
    // Four accumulated samples of full white average back to one.
    let p = quantize_color(Color(Vec3 { x: 4 * ONE, y: 4 * ONE, z: 4 * ONE }), 4);
    assert_eq!(p, Pixel { r: 255, g: 255, b: 255 });
}

#[test]
fn render_emits_width_times_height_pixels() {
    let scene: ObjectList<Sphere> = Default::default();
    let camera: Camera = Default::default();
    let mut rng = Rng::new(2024);
    let pixels = render(&camera, &scene, 5, 3, 1, 2, &mut rng);
    assert_eq!(pixels.len(), 15);
}

#[test]
fn renders_with_the_same_seed_agree() {
    let scene: ObjectList<Sphere> = Default::default();
    let camera: Camera = Default::default();
    let mut rng_a = Rng::new(77);
    let mut rng_b = Rng::new(77);
    let a = render(&camera, &scene, 4, 4, 2, 3, &mut rng_a);
    let b = render(&camera, &scene, 4, 4, 2, 3, &mut rng_b);
    assert_eq!(a, b);
    assert_eq!(rng_a, rng_b);
}

#[test]
fn one_bounce_off_a_frame_filling_sphere_halves_the_background() {
    // A single diffuse sphere large enough to cover every camera ray, with
    // albedo one half.  With one sample per pixel and a bounce budget of
    // two, every pixel is half the background gradient seen along its
    // scattered ray.
    let sphere = Sphere {
        center: Point(Vec3 { x: 0, y: 0, z: -31 * ONE }),
        radius: 30 * ONE,
        material: MaterialType::Lambertian(Lambertian { albedo: gray_half() }),
    };
    let scene = ObjectList { objects: vec![sphere] };
    let camera: Camera = Default::default();

    let width: usize = 4;
    let height: usize = 4;
    let seed: u64 = 123;

    let mut rng = Rng::new(seed);
    let pixels = render(&camera, &scene, width, height, 1, 2, &mut rng);
    assert_eq!(pixels.len(), width * height);

    // Replay the render pixel by pixel through the public pieces.
    let mut replay = Rng::new(seed);
    let mut idx: usize = 0;
    let mut j: usize = height;
    while j > 0 {
        j -= 1;
        for i in 0..width {
            let xi_u = replay.next_fp();
            let xi_v = replay.next_fp();
            let u = fp_div((i as i64) * ONE + xi_u, ((width as i64) - 1) * ONE);
            let v = fp_div((j as i64) * ONE + xi_v, ((height as i64) - 1) * ONE);
            let ray = camera.get_ray(u, v);
            assert!(ray.dir.magnitude_squared() > 0);

            let hit = scene.hit(&ray, 66, i64::MAX).expect("the sphere fills the frame");
            assert!(hit.normal.magnitude_squared() > 0);

            let (attenuation, scattered) =
                hit.material.scatter(&ray, &hit, &mut replay).expect("diffuse never absorbs");
            assert_eq!(attenuation, gray_half());
            assert!(scattered.dir.magnitude_squared() > 0);
            assert!(
                scene.hit(&scattered, 66, i64::MAX).is_none(),
                "the bounced ray escapes to the sky"
            );

            let bounce_background = background(&scattered);
            let expected_color = attenuation.mul_elementwise(bounce_background);
            // Attenuation by one half is exactly a halved background.
            assert_eq!(expected_color, bounce_background.mul(32768));

            assert_eq!(pixels[idx], quantize_color(expected_color, 1));
            idx += 1;
        }
    }
    assert_eq!(rng, replay);
}
