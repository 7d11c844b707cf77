//! Primitives, composites, transforms, materials and textures.

use ray_tracing::object::aabb::AABB;
use ray_tracing::object::boxes::bbox;
use ray_tracing::object::hit::{BVHNode, HitRecord, Hittable, HittableVec};
use ray_tracing::object::material::{
    reflect, refract, Dielectric, Empty, Lambertian, Material,
};
use ray_tracing::object::quad::Quad;
use ray_tracing::object::sphere::Sphere;
use ray_tracing::object::texture::{Checker, SolidColor, Texture};
use ray_tracing::ray::{Interval, Ray, FX_INF};
use ray_tracing::rng::Prng;
use ray_tracing::vec3d::{Color, Point3d, Vec3d};

const S: i128 = 65536;

fn lambertian() -> Material {
    Material::Lambertian(Lambertian::new(Vec3d::new(S / 10, S / 5, S / 2)))
}

#[test]
fn test_sphere_outside_hit() {
    let sphere = Sphere::static_sphere(Point3d::new(0, 0, 0), 2 * S, lambertian());
    let ray = Ray::new(Vec3d::new(0, 0, -5 * S), Vec3d::new(0, 0, S), 0);
    let interval = Interval { min: 0, max: FX_INF };
    let hit_record = sphere.hit(&ray, &interval).unwrap();
    assert_eq!(hit_record.t, 3 * S);
    assert_eq!(hit_record.point, Vec3d::new(0, 0, -2 * S));
    assert_eq!(hit_record.normal, Vec3d::new(0, 0, -S));
    assert_eq!(hit_record.front_face, true);
}

#[test]
fn test_sphere_inside_hit() {
    let sphere = Sphere::static_sphere(Vec3d::new(0, 0, 0), 2 * S, lambertian());
    let ray = Ray::new(Vec3d::new(0, 0, 0), Vec3d::new(0, 0, S), 0);
    let interval = Interval { min: 0, max: FX_INF };
    let hit_record = sphere.hit(&ray, &interval).unwrap();
    assert_eq!(hit_record.t, 2 * S);
    assert_eq!(hit_record.point, Vec3d::new(0, 0, 2 * S));
    assert_eq!(hit_record.normal, Vec3d::new(0, 0, -S));
    assert_eq!(hit_record.front_face, false);
}

#[test]
fn test_sphere_no_hit_1() {
    let sphere = Sphere::static_sphere(Vec3d::new(0, 0, 0), 2 * S, lambertian());
    let ray = Ray::new(Vec3d::new(0, 0, -5 * S), Vec3d::new(0, 0, -S), 0);
    let interval = Interval { min: 0, max: FX_INF };
    assert!(sphere.hit(&ray, &interval).is_none());
}

#[test]
fn test_sphere_no_hit_2() {
    let sphere = Sphere::static_sphere(Vec3d::new(0, 0, 0), 2 * S, lambertian());
    let ray = Ray::new(Vec3d::new(2 * S, 2 * S, -S), Vec3d::new(2 * S, 0, -S), 0);
    let interval = Interval { min: 0, max: FX_INF };
    assert!(sphere.hit(&ray, &interval).is_none());
}

#[test]
fn test_unit_sphere_head_on_hit() {
    // Sphere of radius one at the origin, ray from five units out.
    let sphere = Sphere::static_sphere(Point3d::new(0, 0, 0), S, lambertian());
    let ray = Ray::new(Vec3d::new(0, 0, 5 * S), Vec3d::new(0, 0, -S), 0);
    let interval = Interval { min: 0, max: FX_INF };
    let rec = sphere.hit(&ray, &interval).unwrap();
    assert_eq!(rec.t, 4 * S);
    assert_eq!(rec.point, Vec3d::new(0, 0, S));
    assert_eq!(rec.normal, Vec3d::new(0, 0, S));
    assert_eq!(rec.front_face, true);
}

#[test]
fn test_moving_sphere_center() {
    let sphere = Sphere::moving_sphere(
        Point3d::new(0, 0, 0),
        Point3d::new(2 * S, 0, 0),
        S,
        lambertian(),
    );
    assert!(sphere.is_moving());
    assert_eq!(sphere.sphere_center(0), Point3d::new(0, 0, 0));
    assert_eq!(sphere.sphere_center(S / 2), Point3d::new(S, 0, 0));
    assert_eq!(sphere.sphere_center(S), Point3d::new(2 * S, 0, 0));
}

#[test]
fn test_quad_is_interval() {
    assert_eq!(Quad::is_interior(S / 2, S / 2), true);
    assert_eq!(Quad::is_interior(0, 0), true);
    assert_eq!(Quad::is_interior(S, S), true);
}

#[test]
fn test_quad_not_is_interval() {
    assert_eq!(Quad::is_interior(S + S / 10, S / 2), false);
    assert_eq!(Quad::is_interior(S / 2, S + S / 10), false);
    assert_eq!(Quad::is_interior(-S / 10, S / 2), false);
}

#[test]
fn test_quad_get_bounding_box_1() {
    let point = Point3d::new(0, 0, 0);
    let vec_u = Vec3d::new(S, 0, 0);
    let vec_v = Vec3d::new(0, S, 0);
    let bbox_q = Quad::get_bounding_box(&point, &vec_u, &vec_v);
    let target = AABB::from_points(&point, &Vec3d::new(S, S, 0));
    assert_eq!(bbox_q, target);
}

#[test]
fn test_quad_get_bounding_box_2() {
    let point = Vec3d::new(10 * S, 5 * S, 2 * S);
    let vec_u = Vec3d::new(2 * S, 3 * S, 0);
    let vec_v = Vec3d::new(0, 2 * S, -2 * S);
    let bbox_q = Quad::get_bounding_box(&point, &vec_u, &vec_v);
    let target = AABB::from_points(&point, &Vec3d::new(12 * S, 10 * S, 0));
    assert_eq!(bbox_q, target);
}

#[test]
fn test_quad_init_1() {
    let quad = Quad::new(
        Vec3d::new(0, 0, 0),
        Vec3d::new(S, 0, 0),
        Vec3d::new(0, S, 0),
        lambertian(),
    );
    assert_eq!(quad.point, Vec3d::new(0, 0, 0));
    assert_eq!(quad.vec_u, Vec3d::new(S, 0, 0));
    assert_eq!(quad.vec_v, Vec3d::new(0, S, 0));
    assert_eq!(quad.vec_w, Vec3d::new(0, 0, S));
    assert_eq!(quad.normal, Vec3d::new(0, 0, S));
    assert_eq!(quad.shift_d, 0);
}

#[test]
fn test_quad_hit_1() {
    let quad = Quad::new(
        Point3d::new(0, 0, 0),
        Vec3d::new(S, 0, 0),
        Vec3d::new(0, S, 0),
        lambertian(),
    );
    let ray = Ray::new(Point3d::new(0, 0, -5 * S), Vec3d::new(0, 0, S), 0);
    let interval = Interval { min: 0, max: FX_INF };
    let rec = quad.hit(&ray, &interval).unwrap();
    assert_eq!(rec.t, 5 * S);
    assert_eq!(rec.point, Point3d::new(0, 0, 0));
    assert_eq!(rec.normal, Vec3d::new(0, 0, -S));
    assert_eq!(rec.front_face, false);
}

#[test]
fn test_quad_hit_2() {
    let quad = Quad::new(
        Point3d::new(0, 0, 0),
        Vec3d::new(S, 0, 0),
        Vec3d::new(0, S, 0),
        lambertian(),
    );
    let ray = Ray::new(
        Point3d::new(0, S / 2, -15 * S / 2),
        Vec3d::new(0, 0, S),
        0,
    );
    let interval = Interval { min: 0, max: FX_INF };
    let rec = quad.hit(&ray, &interval).unwrap();
    assert_eq!(rec.t, 15 * S / 2);
    assert_eq!(rec.point, Point3d::new(0, S / 2, 0));
    assert_eq!(rec.normal, Vec3d::new(0, 0, -S));
    assert_eq!(rec.front_face, false);
}

#[test]
fn test_quad_hit_3() {
    let quad = Quad::new(
        Point3d::new(-S / 2, -S / 2, 0),
        Vec3d::new(S, 0, 0),
        Vec3d::new(0, S, 0),
        lambertian(),
    );
    let ray = Ray::new(
        Point3d::new(-S / 2, -S / 2, -S / 2),
        Vec3d::new(S, S, S),
        0,
    );
    let interval = Interval { min: 0, max: FX_INF };
    let rec = quad.hit(&ray, &interval).unwrap();
    assert_eq!(rec.t, S / 2);
    assert_eq!(rec.point, Point3d::new(0, 0, 0));
    assert_eq!(rec.normal, Vec3d::new(0, 0, -S));
    assert_eq!(rec.front_face, false);
}

#[test]
fn test_quad_not_hit_not_contain() {
    let quad = Quad::new(
        Point3d::new(0, 0, 0),
        Vec3d::new(S, 0, 0),
        Vec3d::new(0, S, 0),
        lambertian(),
    );
    let ray = Ray::new(Point3d::new(0, 0, -5 * S), Vec3d::new(0, 0, S), 0);
    let interval = Interval { min: 0, max: 4 * S };
    assert!(quad.hit(&ray, &interval).is_none());
}

#[test]
fn test_quad_not_hit_parallel() {
    let quad = Quad::new(
        Point3d::new(0, 0, 0),
        Vec3d::new(S, 0, 0),
        Vec3d::new(0, S, 0),
        lambertian(),
    );
    let ray = Ray::new(Point3d::new(0, S / 2, S / 2), Vec3d::new(0, 0, S), 0);
    let interval = Interval { min: 0, max: FX_INF };
    assert!(quad.hit(&ray, &interval).is_none());
    // A ray truly inside the plane is rejected by the parallel check.
    let in_plane = Ray::new(Point3d::new(0, S / 2, S / 2), Vec3d::new(S, 0, 0), 0);
    assert!(quad.hit(&in_plane, &interval).is_none());
}

#[test]
fn test_quad_not_hit_not_interior() {
    let quad = Quad::new(
        Point3d::new(0, 0, 0),
        Vec3d::new(S, 0, 0),
        Vec3d::new(0, S, 0),
        lambertian(),
    );
    let ray = Ray::new(
        Point3d::new(0, S + S / 10, -5 * S),
        Vec3d::new(0, 0, S),
        0,
    );
    let interval = Interval { min: 0, max: FX_INF };
    assert!(quad.hit(&ray, &interval).is_none());
}

#[test]
fn test_bvh_node_one_sphere_bounding_box() {
    let sphere = Sphere::static_sphere(Vec3d::new(0, 0, 0), S, Material::Empty(Empty {}));
    let sphere_box = sphere.bounding_box();
    let object_vec = vec![Hittable::Sphere(sphere)];
    let len = object_vec.len();
    let node = BVHNode::new(object_vec, 0, len);
    let node_box = node.bounding_box();
    let expect_box = AABB::new(
        Interval { min: -S, max: S },
        Interval { min: -S, max: S },
        Interval { min: -S, max: S },
    );
    assert_eq!(node_box, expect_box);
    assert_eq!(node_box, sphere_box);
}

#[test]
fn test_bvh_node_two_sphere_bounding_box() {
    let object_vec = vec![
        Hittable::Sphere(Sphere::static_sphere(
            Vec3d::new(-S, 0, -S),
            S,
            Material::Empty(Empty {}),
        )),
        Hittable::Sphere(Sphere::static_sphere(
            Vec3d::new(S, S, 0),
            S,
            Material::Empty(Empty {}),
        )),
    ];
    let len = object_vec.len();
    let node = BVHNode::new(object_vec, 0, len);
    let node_box = node.bounding_box();
    let expect_box = AABB::new(
        Interval { min: -2 * S, max: 2 * S },
        Interval { min: -S, max: 2 * S },
        Interval { min: -2 * S, max: S },
    );
    assert_eq!(node_box, expect_box);
}

#[test]
fn test_bvh_node_one_quad_bounding_box() {
    let quad = Quad::new(
        Vec3d::new(0, 0, 0),
        Vec3d::new(S, 0, 0),
        Vec3d::new(0, S, 0),
        Material::Empty(Empty {}),
    );
    let quad_box = quad.bounding_box();
    let object_vec = vec![Hittable::Quad(quad)];
    let len = object_vec.len();
    let node = BVHNode::new(object_vec, 0, len);
    let node_box = node.bounding_box();
    let expect_box = AABB::new(
        Interval { min: 0, max: S },
        Interval { min: 0, max: S },
        Interval { min: 0, max: 0 },
    );
    assert_eq!(node_box, expect_box);
    assert_eq!(node_box, quad_box);
}

#[test]
fn test_bvh_span_one_aliases_both_children() {
    // A node over a single object points at that object from both
    // sides: the two handles share one allocation.
    let sphere = Sphere::static_sphere(Vec3d::new(2 * S, 0, -3 * S), S, Material::Empty(Empty {}));
    let sphere_box = sphere.bounding_box();
    let objects = vec![Hittable::Sphere(sphere)];
    let node = BVHNode::new(objects, 0, 1);
    assert!(std::sync::Arc::ptr_eq(&node.left, &node.right));
    assert_eq!(node.left.bounding_box(), sphere_box);
    assert_eq!(node.bounding_box(), sphere_box);
    match &*node.left {
        Hittable::Sphere(inner) => {
            assert_eq!(inner.center, Vec3d::new(2 * S, 0, -3 * S));
            assert_eq!(inner.radius, S);
        }
        _ => panic!("the single object is the leaf on both sides"),
    }
}

#[test]
fn test_bvh_span_two_children_in_order() {
    let s0 = Sphere::static_sphere(Vec3d::new(-S, 0, 0), S, Material::Empty(Empty {}));
    let s1 = Sphere::static_sphere(Vec3d::new(5 * S, 0, 0), S, Material::Empty(Empty {}));
    let b0 = s0.bounding_box();
    let b1 = s1.bounding_box();
    let objects = vec![Hittable::Sphere(s0), Hittable::Sphere(s1)];
    let node = BVHNode::new(objects, 0, 2);
    assert_eq!(node.left.bounding_box(), b0);
    assert_eq!(node.right.bounding_box(), b1);
}

fn box_is_union(node: &BVHNode) {
    let left = node.left.bounding_box();
    let right = node.right.bounding_box();
    let union = AABB::surrounding_box(&left, &right);
    assert_eq!(node.bbox, union);
    if let Hittable::Node(inner) = &*node.left {
        box_is_union(inner);
    }
    if let Hittable::Node(inner) = &*node.right {
        box_is_union(inner);
    }
}

#[test]
fn test_bvh_box_is_union_of_children_recursively() {
    let mut objects = Vec::new();
    let mut k: i128 = 0;
    while k < 5 {
        objects.push(Hittable::Sphere(Sphere::static_sphere(
            Vec3d::new(3 * k * S, (k - 2) * S, -k * S),
            S,
            Material::Empty(Empty {}),
        )));
        k += 1;
    }
    let len = objects.len();
    let node = BVHNode::new(objects, 0, len);
    box_is_union(&node);
}

#[test]
fn test_bvh_traversal_finds_nearest() {
    let objects = vec![
        Hittable::Sphere(Sphere::static_sphere(
            Vec3d::new(0, 0, -10 * S),
            S,
            Material::Empty(Empty {}),
        )),
        Hittable::Sphere(Sphere::static_sphere(
            Vec3d::new(0, 0, -5 * S),
            S,
            Material::Empty(Empty {}),
        )),
        Hittable::Sphere(Sphere::static_sphere(
            Vec3d::new(0, 0, -20 * S),
            S,
            Material::Empty(Empty {}),
        )),
    ];
    let len = objects.len();
    let node = BVHNode::new(objects, 0, len);
    let ray = Ray::new(Vec3d::new(0, 0, 0), Vec3d::new(0, 0, -S), 0);
    let mut rng = Prng::from_seed(2);
    let rec = node
        .hit(&ray, &Interval { min: 1, max: FX_INF }, &mut rng)
        .unwrap();
    assert_eq!(rec.t, 4 * S);
}

#[test]
fn test_hittable_vec_nearest() {
    let mut world = HittableVec::new();
    world.add(Hittable::Sphere(Sphere::static_sphere(
        Vec3d::new(0, 0, -10 * S),
        S,
        Material::Empty(Empty {}),
    )));
    world.add(Hittable::Sphere(Sphere::static_sphere(
        Vec3d::new(0, 0, -5 * S),
        S,
        Material::Empty(Empty {}),
    )));
    let ray = Ray::new(Vec3d::new(0, 0, 0), Vec3d::new(0, 0, -S), 0);
    let mut rng = Prng::from_seed(2);
    let rec = world
        .hit(&ray, &Interval { min: 1, max: FX_INF }, &mut rng)
        .unwrap();
    assert_eq!(rec.t, 4 * S);
}

#[test]
fn test_translate_hit() {
    let quad = Quad::new(
        Point3d::new(0, 0, 0),
        Vec3d::new(S, 0, 0),
        Vec3d::new(0, S, 0),
        Material::Empty(Empty {}),
    );
    let translate =
        ray_tracing::object::instance::Translate::new(Hittable::Quad(quad), Vec3d::new(S, 0, 0));
    assert_eq!(
        translate.bounding_box(),
        AABB::from_points(&Point3d::new(S, 0, 0), &Point3d::new(2 * S, S, 0))
    );
}

#[test]
fn test_reflect_output_1() {
    let v_in = Vec3d::new(S, S, 0);
    let normal = Vec3d::new(-S, 0, 0);
    assert_eq!(reflect(&v_in, &normal), Vec3d::new(-S, S, 0));
}

#[test]
fn test_reflect_output_2() {
    let v_in = Vec3d::new(S, S, 0);
    let normal = Vec3d::new(0, S, 0);
    assert_eq!(reflect(&v_in, &normal), Vec3d::new(S, -S, 0));
}

#[test]
fn test_reflect_output_3() {
    let v_in = Vec3d::new(S, S, 0);
    let normal = Vec3d::new(-S, -S, 0).unit_vector();
    assert_eq!(normal, Vec3d::new(-46341, -46341, 0));
    assert_eq!(reflect(&v_in, &normal), Vec3d::new(-S, -S, 0));
}

#[test]
fn test_refract_perp_1() {
    let v_in = Vec3d::new(0, -S, 0);
    let normal = Vec3d::new(0, S, 0);
    assert_eq!(refract(&v_in, &normal, S), Vec3d::new(0, -S, 0));
}

#[test]
fn test_refract_perp_2() {
    let v_in = Vec3d::new(0, -S, 0);
    let normal = Vec3d::new(0, S, 0);
    assert_eq!(refract(&v_in, &normal, 3 * S / 2), Vec3d::new(0, -S, 0));
}

#[test]
fn test_refract_perp_3() {
    let v_in = Vec3d::new(0, -S, 0);
    let normal = Vec3d::new(0, S, 0);
    assert_eq!(refract(&v_in, &normal, S / 2), Vec3d::new(0, -S, 0));
}

#[test]
fn test_refract_2() {
    // Entering a thinner medium at 45 degrees bends toward the surface:
    // the components are cos(30) and sin(30) of the refracted angle,
    // truncated to fixed-point resolution.
    let v_in = Vec3d::new(S, S, 0);
    let normal = Vec3d::new(-S, 0, 0);
    assert_eq!(refract(&v_in, &normal, S / 2), Vec3d::new(56755, 32768, 0));
}

#[test]
fn test_refract_3() {
    let v_in = Vec3d::new(0, -S, 0);
    let normal = Vec3d::new(0, S, 0);
    assert_eq!(refract(&v_in, &normal, 3 * S / 2), Vec3d::new(0, -S, 0));
}

#[test]
fn test_sphere_get_uv_1() {
    // The point on the positive z axis sits mid-latitude a quarter of
    // the way around.
    let point = Vec3d::new(0, 0, S);
    let uv = Sphere::get_sphere_uv(&point);
    assert_eq!(uv.0, 16383);
    assert_eq!(uv.1, S / 2);
}

#[test]
fn test_sphere_get_uv_2() {
    let point = Vec3d::new(3 * S / 2, 2 * S, 37 * S / 10).unit_vector();
    assert_eq!(point, Vec3d::new(22014, 29352, 54302));
    let uv = Sphere::get_sphere_uv(&point);
    assert_eq!(uv.0, 20391);
    assert_eq!(uv.1, 42398);
}

#[test]
fn test_refract_1() {
    let v_in = Vec3d::new(S, S, 0);
    let normal = Vec3d::new(-S, 0, 0);
    assert_eq!(refract(&v_in, &normal, S), Vec3d::new(0, S, 0));
}

#[test]
fn test_empty_material() {
    let empty = Empty {};
    let material = Material::Empty(empty);
    let ray_in = Ray::new(Vec3d::new(0, 0, 0), Vec3d::new(0, 0, 0), 0);
    let hit_record = HitRecord::empty();
    let mut rng = Prng::from_seed(5);
    assert!(material.scatter(&ray_in, &hit_record, &mut rng).is_none());
}

#[test]
fn test_random_on_hemisphere_faces_normal() {
    let mut rng = Prng::from_seed(21);
    let normal = Vec3d::new(0, 0, S);
    for _ in 0..16 {
        let v = Vec3d::random_on_hemisphere(&normal, &mut rng);
        // The sample is never strictly opposed to the normal.
        assert!(ray_tracing::vec3d::dot(&v, &normal) >= 0);
    }
}

#[test]
fn test_perlin_noise_in_range() {
    let mut rng = Prng::from_seed(13);
    let perlin = ray_tracing::object::perlin::PerlinTexture::new(4 * S, &mut rng);
    let mut k: i128 = 0;
    while k < 16 {
        let p = Vec3d::new(k * S / 3, -k * S / 7, k * S / 2);
        let n = perlin.noise(&p);
        assert!(n.abs() <= 384 * S);
        let t = perlin.turbulence(&p, 7);
        assert!(t >= 0 && t <= 2688 * S);
        k += 1;
    }
}

#[test]
fn test_perlin_texture_value_is_gray_in_unit_range() {
    let mut rng = Prng::from_seed(29);
    let perlin = ray_tracing::object::perlin::PerlinTexture::new(2 * S, &mut rng);
    let texture = Texture::PerlinTexture(perlin);
    let mut k: i128 = 0;
    while k < 8 {
        let p = Vec3d::new(k * S, k * S / 5, -k * S / 3);
        let c = texture.value(0, 0, &p);
        assert!(c.x == c.y && c.y == c.z);
        assert!(c.x >= 0 && c.x <= S);
        k += 1;
    }
}

#[test]
fn test_dielectric_head_on_never_absorbs() {
    // A ray meeting the surface head on is never totally internally
    // reflected, whatever the index: scattering always answers.
    let indices: [i128; 4] = [S / 4, S, 3 * S / 2, 16 * S];
    for idx in indices {
        let material = Material::Dielectric(Dielectric::new(idx));
        let anchor = Material::Empty(Empty {});
        let mut rec = HitRecord::new(&anchor, S, 0, 0, Point3d::new(0, 0, 0));
        rec.set_face_normal(
            &Ray::new(Vec3d::new(0, 0, 5 * S), Vec3d::new(0, 0, -S), 0),
            Vec3d::new(0, 0, S),
        );
        let ray_in = Ray::new(Vec3d::new(0, 0, 5 * S), Vec3d::new(0, 0, -S), 0);
        let mut rng = Prng::from_seed(9);
        for _ in 0..16 {
            let out = material.scatter(&ray_in, &rec, &mut rng);
            match out {
                Some((Some(scattered), attenuation)) => {
                    assert_eq!(attenuation, Vec3d::new(S, S, S));
                    assert_eq!(scattered.origin, Vec3d::new(0, 0, 0));
                    // Straight through or mirrored back, never absorbed.
                    assert!(scattered.direction.z == -S || scattered.direction.z == S);
                }
                _ => panic!("head-on dielectric scatter must answer"),
            }
        }
    }
}

#[test]
fn test_solid_color_1() {
    let color = Color::new(S, 0, 0);
    let solid_color = SolidColor::new(color);
    let texture = Texture::SolidColor(solid_color);
    assert_eq!(texture.value(0, 0, &Vec3d::new(0, 0, 0)), color);
}

#[test]
fn test_solid_color_2() {
    let color = Color::new(0, S, 0);
    let solid_color = SolidColor::new(color);
    let texture = Texture::SolidColor(solid_color);
    assert_eq!(texture.value(S, 7 * S / 10, &Vec3d::new(0, 0, 0)), color);
}

#[test]
fn test_checker_1() {
    let color1 = Color::new(S, 0, 0);
    let color2 = Color::new(0, S, 0);
    let checker = Texture::Checker(Checker::from_color(color1, color2, S));
    assert_eq!(checker.value(0, 0, &Vec3d::new(0, 0, 0)), color1);
    assert_eq!(checker.value(0, 0, &Vec3d::new(S, S, S)), color2);
}

#[test]
fn test_image_texture_lookup() {
    let pixels = vec![
        Color::new(S, 0, 0),
        Color::new(0, S, 0),
        Color::new(0, 0, S),
        Color::new(S, S, 0),
    ];
    let texture = Texture::ImageTexture(ray_tracing::object::texture::ImageTexture::new(
        2, 2, pixels,
    ));
    // u=0, v=1 is the upper-left texel.
    assert_eq!(texture.value(0, S, &Vec3d::new(0, 0, 0)), Color::new(S, 0, 0));
    // u just under one, v=1 is the upper-right texel.
    assert_eq!(
        texture.value(S - 1, S, &Vec3d::new(0, 0, 0)),
        Color::new(0, S, 0)
    );
    // u=0, v=0 is the lower-left texel.
    assert_eq!(texture.value(0, 0, &Vec3d::new(0, 0, 0)), Color::new(0, 0, S));
}

#[test]
fn test_bbox_builds_six_sides() {
    let sides = bbox(
        Point3d::new(0, 0, 0),
        Point3d::new(2 * S, 3 * S, 4 * S),
        Material::Empty(Empty {}),
    );
    assert_eq!(sides.objects.len(), 6);
    let mut rng = Prng::from_seed(1);
    // A ray down the z axis through the box center strikes the nearest side.
    let ray = Ray::new(Vec3d::new(S, 3 * S / 2, 10 * S), Vec3d::new(0, 0, -S), 0);
    let world = Hittable::List(sides);
    let rec = world
        .hit(&ray, &Interval { min: 1, max: FX_INF }, &mut rng)
        .unwrap();
    assert_eq!(rec.t, 6 * S);
}
