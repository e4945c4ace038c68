use pathtracer::data::Vec3;
use pathtracer::fixed::ONE;
use pathtracer::math::{rand, random_range, random_range_vec, random_unit_sphere, random_unit_vec, random_vec, Rng};

#[test]
fn unit_draws_stay_in_the_unit_interval() {
    let mut rng = Rng::new(1);
    for _ in 0..1000 {
        let u = rand(&mut rng);
        assert!(0 <= u && u < ONE);
    }
}

#[test]
fn range_draws_stay_in_range() {
    let mut rng = Rng::new(2);
    for _ in 0..1000 {
        let x = random_range(-ONE, ONE, &mut rng);
        assert!(-ONE <= x && x < ONE);
    }
}

#[test]
fn vector_draws_fill_componentwise() {
    let mut a = Rng::new(9);
    let mut b = Rng::new(9);
    let v = random_vec(&mut a);
    let expected = Vec3 { x: rand(&mut b), y: rand(&mut b), z: rand(&mut b) };
    assert_eq!(v, expected);
    assert_eq!(a, b);

    let mut c = Rng::new(9);
    let w = random_range_vec(0, ONE, &mut c);
    // Over [0, 1) a range draw and a unit draw agree.
    assert_eq!(w, v);
}

#[test]
fn sphere_samples_stay_strictly_inside() {
    let mut rng = Rng::new(3);
    for _ in 0..500 {
        let p = random_unit_sphere(&mut rng);
        let m = p.magnitude_squared();
        assert!(0 < m && m < ONE);
    }
}

#[test]
fn unit_vectors_are_close_to_unit_length() {
    let mut rng = Rng::new(4);
    for _ in 0..200 {
        let u = random_unit_vec(&mut rng);
        let m = u.magnitude_squared();
        // Normalisation of a coarse in-sphere sample is approximate; the
        // squared magnitude still lands near one.
        assert!(m > 0);
        assert!((m - ONE).abs() < ONE / 2, "magnitude squared {m}");
    }
}

#[test]
fn the_generator_is_deterministic() {
    let mut a = Rng::new(12345);
    let mut b = Rng::new(12345);
    for _ in 0..100 {
        assert_eq!(rand(&mut a), rand(&mut b));
    }
    let mut c = Rng::new(54321);
    let first_a = rand(&mut Rng::new(12345));
    let first_c = rand(&mut c);
    assert!(first_a != first_c);
}
