//! Scalars, vectors, rays, intervals and boxes.

use ray_tracing::fixed::{fx_div, fx_floor, fx_mul, fx_sqrt, FX_ONE};
use ray_tracing::object::aabb::AABB;
use ray_tracing::ray::{Interval, Ray, FX_INF};
use ray_tracing::rng::Prng;
use ray_tracing::vec3d::{cross, distance, dot, Point3d, Vec3d};

const S: i128 = 65536;

#[test]
fn test_fx_mul_exact() {
    assert_eq!(fx_mul(3 * S, 4 * S), 12 * S);
    assert_eq!(fx_mul(-3 * S, 4 * S), -12 * S);
    assert_eq!(fx_mul(S / 2, S / 2), S / 4);
    assert_eq!(fx_mul(0, 123456), 0);
}

#[test]
fn test_fx_div_exact() {
    assert_eq!(fx_div(12 * S, 4 * S), 3 * S);
    assert_eq!(fx_div(-12 * S, 4 * S), -3 * S);
    assert_eq!(fx_div(S, 2 * S), S / 2);
}

#[test]
fn test_fx_sqrt_exact() {
    assert_eq!(fx_sqrt(4 * S), 2 * S);
    assert_eq!(fx_sqrt(25 * S), 5 * S);
    assert_eq!(fx_sqrt(0), 0);
}

#[test]
fn test_fx_floor() {
    assert_eq!(fx_floor(3 * S + 1234), 3);
    assert_eq!(fx_floor(-3 * S - 1), -4);
    assert_eq!(fx_floor(-3 * S), -3);
}

#[test]
fn test_vec3d_new() {
    let vec = Vec3d::new(S, 2 * S, 3 * S);
    assert_eq!(vec.x(), S);
    assert_eq!(vec.y(), 2 * S);
    assert_eq!(vec.z(), 3 * S);
}

#[test]
fn test_vec3d_length_squared() {
    let vec = Vec3d::new(S, 2 * S, 3 * S);
    assert_eq!(vec.length_squared(), 14 * S);
}

#[test]
fn test_vec3d_length() {
    // The length of (1, 2, 3) is the square root of 14, truncated to
    // fixed-point resolution.
    let vec = Vec3d::new(S, 2 * S, 3 * S);
    assert_eq!(vec.length(), 245213);
}

#[test]
fn test_vec3d_mul_f64() {
    let vec = Vec3d::new(S, 2 * S, 3 * S);
    assert_eq!(vec.scale(2 * S), Vec3d::new(2 * S, 4 * S, 6 * S));
}

#[test]
fn test_vec3d_div_f64() {
    let vec = Vec3d::new(S, 2 * S, 3 * S);
    assert_eq!(vec.div_scalar(2 * S), Vec3d::new(S / 2, S, 3 * S / 2));
}

#[test]
fn test_vec3d_gen_range_0_1() {
    let mut rng = Prng::from_seed(19);
    let vec = Vec3d::gen_range(&mut rng, 0, S);
    assert!(vec.x() >= 0 && vec.x() < S);
    assert!(vec.y() >= 0 && vec.y() < S);
    assert!(vec.z() >= 0 && vec.z() < S);
}

#[test]
fn test_vec3d_unit_vector() {
    let vec = Vec3d::new(10 * S, 0, 0);
    assert_eq!(vec.unit_vector(), Vec3d::new(S, 0, 0));
    let vec = Vec3d::new(0, 10 * S, 0);
    assert_eq!(vec.unit_vector(), Vec3d::new(0, S, 0));
    let vec = Vec3d::new(0, 0, 10 * S);
    assert_eq!(vec.unit_vector(), Vec3d::new(0, 0, S));
}

#[test]
fn test_vec3d_dot() {
    let vec = Vec3d::new(S, 2 * S, 3 * S);
    let vec2 = Vec3d::new(4 * S, 5 * S, 6 * S);
    assert_eq!(dot(&vec, &vec2), 32 * S);
}

#[test]
fn test_vec3d_distance() {
    let vec = Vec3d::new(S, 2 * S, 3 * S);
    let vec2 = Vec3d::new(4 * S, 6 * S, 3 * S);
    assert_eq!(distance(&vec, &vec2), 5 * S);
}

#[test]
fn test_vec3d_cross() {
    let vec = Vec3d::new(S, 0, 0);
    let vec2 = Vec3d::new(0, S, 0);
    assert_eq!(cross(&vec, &vec2), Vec3d::new(0, 0, S));
}

#[test]
fn test_vec3d_neg() {
    let vec = Vec3d::new(S, 2 * S, 3 * S);
    assert_eq!(vec.neg(), Vec3d::new(-S, -2 * S, -3 * S));
}

#[test]
fn test_vec3d_add_vec3d() {
    let vec = Vec3d::new(S, 2 * S, 3 * S);
    let vec2 = Vec3d::new(4 * S, 5 * S, 6 * S);
    assert_eq!(vec.add(&vec2), Vec3d::new(5 * S, 7 * S, 9 * S));
}

#[test]
fn test_vec3d_sub_vec3d() {
    let vec = Vec3d::new(S, 2 * S, 3 * S);
    let vec2 = Vec3d::new(4 * S, 5 * S, 6 * S);
    assert_eq!(vec.sub(&vec2), Vec3d::new(-3 * S, -3 * S, -3 * S));
}

#[test]
fn test_vec3d_mul_vec3d() {
    let vec = Vec3d::new(S, 2 * S, 3 * S);
    let vec2 = Vec3d::new(4 * S, 5 * S, 6 * S);
    assert_eq!(vec.mul(&vec2), Vec3d::new(4 * S, 10 * S, 18 * S));
}

#[test]
fn test_vec3d_random_fn() {
    let mut rng = Prng::from_seed(7);
    let vec = Vec3d::random(&mut rng);
    assert!(vec.x() >= 0 && vec.x() < S);
    assert!(vec.y() >= 0 && vec.y() < S);
    assert!(vec.z() >= 0 && vec.z() < S);
}

#[test]
fn test_vec3d_gen_range_5_10() {
    let mut rng = Prng::from_seed(11);
    let vec = Vec3d::gen_range(&mut rng, 5 * S, 10 * S);
    assert!(vec.x() >= 5 * S && vec.x() < 10 * S);
    assert!(vec.y() >= 5 * S && vec.y() < 10 * S);
    assert!(vec.z() >= 5 * S && vec.z() < 10 * S);
}

#[test]
fn test_random_in_unit_sphere_stays_inside() {
    let mut rng = Prng::from_seed(3);
    for _ in 0..32 {
        let p = Vec3d::random_in_unit_sphere(&mut rng);
        assert!(p.length_squared() < S);
    }
}

#[test]
fn test_ray_new() {
    let ray = Ray::new(
        Point3d::new(S, 2 * S, 3 * S),
        Vec3d::new(4 * S, 5 * S, 6 * S),
        0,
    );
    assert_eq!(ray.origin, Point3d::new(S, 2 * S, 3 * S));
    assert_eq!(ray.direction, Vec3d::new(4 * S, 5 * S, 6 * S));
}

#[test]
fn test_ray_at() {
    let ray = Ray::new(
        Point3d::new(S, 2 * S, 3 * S),
        Vec3d::new(4 * S, 5 * S, 6 * S),
        0,
    );
    assert_eq!(ray.at(S / 2), Point3d::new(3 * S, 4 * S + S / 2, 6 * S));
    assert_eq!(ray.at(2 * S), Point3d::new(9 * S, 12 * S, 15 * S));
    assert_eq!(ray.at(3 * S), Point3d::new(13 * S, 17 * S, 21 * S));
}

#[test]
fn test_interval_contains() {
    let interval = Interval { min: S, max: 2 * S };
    assert_eq!(interval.contains(S - 100), false);
    assert_eq!(interval.contains(S), true);
    assert_eq!(interval.contains(S + S / 2), true);
    assert_eq!(interval.contains(2 * S), true);
    assert_eq!(interval.contains(2 * S + 100), false);
}

#[test]
fn test_interval_surrounds() {
    let interval = Interval { min: S, max: 2 * S };
    assert_eq!(interval.surrounds(S - 100), false);
    assert_eq!(interval.surrounds(S), false);
    assert_eq!(interval.surrounds(S + S / 2), true);
    assert_eq!(interval.surrounds(2 * S), false);
    assert_eq!(interval.surrounds(2 * S + 100), false);
}

#[test]
fn test_interval_clamp() {
    let interval = Interval { min: S, max: 2 * S };
    assert_eq!(interval.clamp(S - 100), S);
    assert_eq!(interval.clamp(S), S);
    assert_eq!(interval.clamp(S + S / 2), S + S / 2);
    assert_eq!(interval.clamp(2 * S), 2 * S);
    assert_eq!(interval.clamp(2 * S + 100), 2 * S);
}

#[test]
fn test_interval_size() {
    let interval = Interval { min: S, max: 2 * S };
    assert_eq!(interval.size(), S);
}

#[test]
fn test_interval_empty() {
    assert_eq!(Interval::empty().min, FX_INF);
    assert_eq!(Interval::empty().max, -FX_INF);
}

#[test]
fn test_interval_universe() {
    assert_eq!(Interval::universe().min, -FX_INF);
    assert_eq!(Interval::universe().max, FX_INF);
}

#[test]
fn test_interval_expand() {
    let interval = Interval { min: S, max: 2 * S };
    let result = interval.expand(S / 2);
    assert_eq!(result.min, 3 * S / 4);
    assert_eq!(result.max, 2 * S + S / 4);
}

#[test]
fn ray_test_interval_expand() {
    let interval = Interval { min: 0, max: 2 * S + 4 * S / 5 };
    let result = interval.expand(S + S / 5);
    assert_eq!(result.min, -(S + S / 5) / 2);
    assert_eq!(result.max, 2 * S + 4 * S / 5 + (S + S / 5) / 2);
}

#[test]
fn test_interval_interval() {
    let interval_1 = Interval { min: S, max: 2 * S };
    let interval_2 = Interval { min: 3 * S, max: 4 * S };
    let result = Interval::interval(&interval_1, &interval_2);
    assert_eq!(result.min, S);
    assert_eq!(result.max, 4 * S);
}

#[test]
fn test_aabb_new() {
    let aabb = AABB::new(
        Interval { min: S, max: 2 * S },
        Interval { min: 3 * S, max: 4 * S },
        Interval { min: 5 * S, max: 6 * S },
    );
    assert_eq!(aabb.interval_x, Interval { min: S, max: 2 * S });
    assert_eq!(aabb.interval_y, Interval { min: 3 * S, max: 4 * S });
    assert_eq!(aabb.interval_z, Interval { min: 5 * S, max: 6 * S });
}

#[test]
fn test_aabb_empty() {
    assert_eq!(AABB::empty().interval_x, Interval::empty());
    assert_eq!(AABB::empty().interval_y, Interval::empty());
    assert_eq!(AABB::empty().interval_z, Interval::empty());
}

#[test]
fn test_aabb_from_points_1() {
    let aabb = AABB::from_points(
        &Vec3d::new(S, 2 * S, 3 * S),
        &Vec3d::new(4 * S, 5 * S, 6 * S),
    );
    assert_eq!(aabb.interval_x, Interval { min: S, max: 4 * S });
    assert_eq!(aabb.interval_y, Interval { min: 2 * S, max: 5 * S });
    assert_eq!(aabb.interval_z, Interval { min: 3 * S, max: 6 * S });
}

#[test]
fn test_aabb_from_points_2() {
    let aabb = AABB::from_points(
        &Vec3d::new(4 * S, 5 * S, 6 * S),
        &Vec3d::new(S, 2 * S, 3 * S),
    );
    assert_eq!(aabb.interval_x, Interval { min: S, max: 4 * S });
    assert_eq!(aabb.interval_y, Interval { min: 2 * S, max: 5 * S });
    assert_eq!(aabb.interval_z, Interval { min: 3 * S, max: 6 * S });
}

#[test]
fn test_aabb_surrounding_box_1() {
    let box1 = AABB::from_points(
        &Vec3d::new(S, 2 * S, 3 * S),
        &Vec3d::new(4 * S, 5 * S, 6 * S),
    );
    let box2 = AABB::from_points(
        &Vec3d::new(0, S, 2 * S),
        &Vec3d::new(5 * S, 6 * S, 7 * S),
    );
    let aabb = AABB::surrounding_box(&box1, &box2);
    assert_eq!(aabb.interval_x, Interval { min: 0, max: 5 * S });
    assert_eq!(aabb.interval_y, Interval { min: S, max: 6 * S });
    assert_eq!(aabb.interval_z, Interval { min: 2 * S, max: 7 * S });
}

#[test]
fn test_aabb_surrounding_box_2() {
    let box1 = AABB::from_points(
        &Vec3d::new(11 * S, 2 * S, 3 * S),
        &Vec3d::new(17 * S, 15 * S, 6 * S),
    );
    let box2 = AABB::from_points(
        &Vec3d::new(S / 2, 17 * S + 2 * S / 5, 21 * S),
        &Vec3d::new(15 * S + 3 * S / 10, 46 * S, 7 * S),
    );
    let aabb = AABB::surrounding_box(&box2, &box1);
    assert_eq!(aabb.interval_x, Interval { min: S / 2, max: 17 * S });
    assert_eq!(aabb.interval_y, Interval { min: 2 * S, max: 46 * S });
    assert_eq!(aabb.interval_z, Interval { min: 3 * S, max: 21 * S });
}

#[test]
fn test_aabb_axis_interval() {
    let aabb = AABB::new(
        Interval { min: S, max: 2 * S },
        Interval { min: 3 * S, max: 4 * S },
        Interval { min: 5 * S, max: 6 * S },
    );
    assert_eq!(aabb.axis_interval(0), Interval { min: S, max: 2 * S });
    assert_eq!(aabb.axis_interval(1), Interval { min: 3 * S, max: 4 * S });
    assert_eq!(aabb.axis_interval(2), Interval { min: 5 * S, max: 6 * S });
}

#[test]
fn test_aabb_longest_axis_x() {
    let aabb = AABB::new(
        Interval { min: S, max: 3 * S },
        Interval { min: 3 * S, max: 4 * S },
        Interval { min: 5 * S, max: 6 * S },
    );
    assert_eq!(aabb.longest_axis(), 0);
}

#[test]
fn test_aabb_longest_axis_y() {
    let aabb = AABB::new(
        Interval { min: S, max: 2 * S },
        Interval { min: 3 * S, max: 5 * S },
        Interval { min: 5 * S, max: 6 * S },
    );
    assert_eq!(aabb.longest_axis(), 1);
}

#[test]
fn test_aabb_longest_axis_z() {
    let aabb = AABB::new(
        Interval { min: S, max: 2 * S },
        Interval { min: 3 * S, max: 4 * S },
        Interval { min: 5 * S, max: 7 * S },
    );
    assert_eq!(aabb.longest_axis(), 2);
}

#[test]
fn test_aabb_pad_to_minimum() {
    let aabb = AABB::new(
        Interval { min: 0, max: 0 },
        Interval { min: 0, max: 0 },
        Interval { min: 0, max: 0 },
    );
    assert!(aabb.interval_x.size() != 0);
    assert!(aabb.interval_y.size() != 0);
    assert!(aabb.interval_z.size() != 0);
}

#[test]
fn test_aabb_hit_1() {
    let aabb = AABB::new(
        Interval { min: -S, max: S },
        Interval { min: -S, max: S },
        Interval { min: -S, max: S },
    );
    let ray = Ray::new(Vec3d::new(0, -5 * S, 0), Vec3d::new(0, S, 0), 0);
    assert!(aabb.hit(&ray, &Interval { min: 0, max: 10 * S }));
    assert!(!aabb.hit(&ray, &Interval { min: 10 * S, max: 20 * S }));
}

#[test]
fn test_aabb_hit_2() {
    let aabb = AABB::new(
        Interval { min: -S, max: S },
        Interval { min: -S, max: S },
        Interval { min: -S, max: S },
    );
    let ray = Ray::new(Vec3d::new(2 * S, 0, 0), Vec3d::new(0, S, 0), 0);
    assert!(!aabb.hit(&ray, &Interval { min: 0, max: 10 * S }));
}

#[test]
fn test_aabb_add_vec3d() {
    let aabb = AABB::new(
        Interval { min: S, max: 2 * S },
        Interval { min: 3 * S, max: 4 * S },
        Interval { min: 5 * S, max: 6 * S },
    );
    let result = aabb.shift(&Vec3d::new(S, 2 * S, 3 * S));
    assert_eq!(result.interval_x, Interval { min: 2 * S, max: 3 * S });
    assert_eq!(result.interval_y, Interval { min: 5 * S, max: 6 * S });
    assert_eq!(result.interval_z, Interval { min: 8 * S, max: 9 * S });
}

#[test]
fn test_union_contains_both_boxes() {
    let a = AABB::from_points(&Vec3d::new(-S, 0, 3 * S), &Vec3d::new(2 * S, S, 5 * S));
    let b = AABB::from_points(&Vec3d::new(0, -4 * S, 0), &Vec3d::new(S, S, 9 * S));
    let u = AABB::surrounding_box(&a, &b);
    assert!(u.interval_x.min <= a.interval_x.min && a.interval_x.max <= u.interval_x.max);
    assert!(u.interval_y.min <= a.interval_y.min && a.interval_y.max <= u.interval_y.max);
    assert!(u.interval_z.min <= a.interval_z.min && a.interval_z.max <= u.interval_z.max);
    assert!(u.interval_x.min <= b.interval_x.min && b.interval_x.max <= u.interval_x.max);
    assert!(u.interval_y.min <= b.interval_y.min && b.interval_y.max <= u.interval_y.max);
    assert!(u.interval_z.min <= b.interval_z.min && b.interval_z.max <= u.interval_z.max);
    // The union is tight: each end touches one of the two boxes.
    assert!(u.interval_x.min == a.interval_x.min || u.interval_x.min == b.interval_x.min);
    assert!(u.interval_x.max == a.interval_x.max || u.interval_x.max == b.interval_x.max);
}

#[test]
fn test_parallel_ray_outside_slab_misses() {
    let aabb = AABB::new(
        Interval { min: -S, max: S },
        Interval { min: -S, max: S },
        Interval { min: -S, max: S },
    );
    // Direction parallel to the y axis, origin outside the x slab.
    let ray = Ray::new(Vec3d::new(3 * S, 0, 0), Vec3d::new(0, S, 0), 0);
    assert!(!aabb.hit(&ray, &Interval { min: -FX_INF, max: FX_INF }));
}
