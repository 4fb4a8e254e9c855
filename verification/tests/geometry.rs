use ray::fx::{Fx, SCALE};
use ray::vec3::Vec3;
use ray::ray::Ray;
use ray::interval::Interval;
use ray::hittable::{Hittable, HitRecord};
use ray::hittable_list::HittableList;
use ray::material::{Material, Lambertian, Metal, Dielectric};
use ray::sphere::Sphere;
use ray::triangle::Triangle;
use ray::pyramid::Pyramid;
use ray::rng::Rng;

fn gray() -> Material {
    Material::Lambertian(Lambertian { albedo: unit_color(), fuzz: Fx::zero() })
}

fn unit_color() -> Vec3 {
    Vec3::new(Fx::one(), Fx::one(), Fx::one())
}

fn fxi(i: i64) -> Fx {
    Fx::new(i * SCALE)
}

fn v(x: i64, y: i64, z: i64) -> Vec3 {
    Vec3::new(fxi(x), fxi(y), fxi(z))
}

fn whole() -> Interval {
    Interval::new(Fx::new(0), Fx::new(0x400_0000))
}

#[test]
fn scalar_arithmetic_is_exact() {
    assert_eq!(Fx::new(98304).times(Fx::new(131072)).raw, 196608); // 1.5 * 2 = 3
    assert_eq!(fxi(3).over(fxi(2)).raw, 98304); // 3 / 2 = 1.5
    assert_eq!(Fx::new(-196608).over(fxi(2)).raw, -98304);
    assert_eq!(Fx::new(-3).over(fxi(2)).raw, -1); // rounds toward zero
    assert_eq!(fxi(4).sqrt().raw, 2 * SCALE);
    assert_eq!(fxi(2).sqrt().raw, 92681); // floor(sqrt(2) * 65536)
    assert_eq!(fxi(7).trunc(), 7);
    assert_eq!(Fx::new(7 * SCALE + 123).trunc(), 7);
    assert_eq!(Interval::clamp(fxi(5), Fx::zero(), Fx::one()).raw, SCALE);
    assert_eq!(Interval::clamp(fxi(-5), Fx::zero(), Fx::one()).raw, 0);
}

#[test]
fn vector_products_are_exact() {
    let a = v(1, 2, 3);
    let b = v(4, -5, 6);
    assert_eq!(a.dot(&b).raw, (4 - 10 + 18) * SCALE);
    let c = a.cross(&b);
    assert_eq!((c.x.raw, c.y.raw, c.z.raw), (27 * SCALE, 6 * SCALE, -13 * SCALE));
    let u = v(3, 4, 0).unit_vector();
    assert_eq!(u.x.raw, 39321); // floor(0.6 * 65536)
    assert_eq!(u.y.raw, 52428); // floor(0.8 * 65536)
    assert_eq!(u.z.raw, 0);
    let r = v(1, -1, 0).reflect(&v(0, 1, 0));
    assert_eq!((r.x.raw, r.y.raw, r.z.raw), (SCALE, SCALE, 0));
    assert!(Vec3::zero().near_zero());
    assert!(!v(0, 0, 1).near_zero());
}

#[test]
fn rotation_quarter_turn() {
    let p = v(1, 0, 0);
    let q = p.rotate_z(Fx::zero(), Fx::one());
    assert_eq!((q.x.raw, q.y.raw, q.z.raw), (0, SCALE, 0));
    let w = v(0, 1, 0).rotate_x(Fx::zero(), Fx::one());
    assert_eq!((w.x.raw, w.y.raw, w.z.raw), (0, 0, SCALE));
}

#[test]
fn sphere_axial_hit_reports_near_root() {
    let s = Sphere::new(v(0, 0, -4), fxi(1), gray());
    let ray = Ray::new(v(0, 0, 0), v(0, 0, -1));
    let mut rec = HitRecord::new();
    assert!(s.hit(ray, whole(), &mut rec));
    assert_eq!(rec.t.raw, 3 * SCALE); // d - r = 4 - 1
    assert_eq!((rec.normal.x.raw, rec.normal.y.raw, rec.normal.z.raw), (0, 0, SCALE));
    assert!(rec.front_face);
    assert_eq!(rec.p.z.raw, -3 * SCALE);
}

#[test]
fn sphere_axial_far_root_when_near_excluded() {
    let s = Sphere::new(v(0, 0, -4), fxi(1), gray());
    let ray = Ray::new(v(0, 0, 0), v(0, 0, -1));
    let past_near = Interval::new(Fx::new(3 * SCALE + 1), Fx::new(0x400_0000));
    let mut rec = HitRecord::new();
    assert!(s.hit(ray, past_near, &mut rec));
    assert_eq!(rec.t.raw, 5 * SCALE); // d + r = 4 + 1
    assert!(!rec.front_face); // struck from inside
}

#[test]
fn sphere_offset_ray_misses() {
    let s = Sphere::new(v(0, 0, -4), fxi(1), gray());
    let ray = Ray::new(v(2, 0, 0), v(0, 0, -1));
    let mut rec = HitRecord::new();
    assert!(!s.hit(ray, whole(), &mut rec));
    assert_eq!(rec.t.raw, 0); // untouched
}

#[test]
fn triangle_centroid_hit() {
    let t = Triangle::new(v(-2, -1, -2), v(2, -1, -2), v(0, 2, -2), gray());
    let ray = Ray::new(v(0, 0, 0), v(0, 0, -1));
    let mut rec = HitRecord::new();
    assert!(t.hit(ray, whole(), &mut rec));
    assert_eq!(rec.t.raw, 2 * SCALE);
    assert_eq!((rec.normal.x.raw, rec.normal.y.raw, rec.normal.z.raw), (0, 0, SCALE));
    assert!(rec.front_face);
}

#[test]
fn triangle_outside_projection_misses() {
    let t = Triangle::new(v(-2, -1, -2), v(2, -1, -2), v(0, 2, -2), gray());
    // Aimed below the bottom edge of the triangle's plane projection.
    let ray = Ray::new(v(0, 0, 0), v(0, -2, -2));
    let mut rec = HitRecord::new();
    assert!(!t.hit(ray, whole(), &mut rec));
}

#[test]
fn triangle_collinear_vertices_reject() {
    let t = Triangle::new(v(0, 0, -2), v(1, 0, -2), v(2, 0, -2), gray());
    let ray = Ray::new(v(1, 1, 0), v(0, 0, -1));
    let mut rec = HitRecord::new();
    assert!(!t.hit(ray, whole(), &mut rec));
}

#[test]
fn composite_returns_nearest_whatever_the_order() {
    let near_mat = Material::Metal(Metal { albedo: v(0, 0, 1), fuzz: Fx::zero() });
    let far_mat = Material::Metal(Metal { albedo: v(1, 0, 0), fuzz: Fx::zero() });
    let near = Sphere::new(v(0, 0, -4), fxi(1), near_mat);
    let far = Sphere::new(v(0, 0, -10), fxi(1), far_mat);
    let ray = Ray::new(v(0, 0, 0), v(0, 0, -1));

    let mut world = HittableList::new();
    world.add(Hittable::Sphere(far));
    world.add(Hittable::Sphere(near));
    let mut rec = HitRecord::new();
    assert!(world.hit(ray, whole(), &mut rec));
    assert_eq!(rec.t.raw, 3 * SCALE);
    assert_eq!(rec.material, Some(near_mat));
    assert_eq!(rec.normal.z.raw, SCALE);

    let mut world2 = HittableList::new();
    world2.add(Hittable::Sphere(near));
    world2.add(Hittable::Sphere(far));
    let mut rec2 = HitRecord::new();
    assert!(world2.hit(ray, whole(), &mut rec2));
    assert_eq!(rec2.t.raw, 3 * SCALE);
    assert_eq!(rec2.material, Some(near_mat));
}

#[test]
fn hit_exactly_at_the_bound_is_kept() {
    // The interval is closed: a sphere whose near root equals the upper
    // bound is still reported by the composite.
    let mat = Material::Metal(Metal { albedo: v(0, 1, 0), fuzz: Fx::zero() });
    let mut world = HittableList::new();
    world.add(Hittable::Sphere(Sphere::new(v(0, 0, -4), fxi(1), mat)));
    let ray = Ray::new(v(0, 0, 0), v(0, 0, -1));
    let at_bound = Interval::new(Fx::zero(), fxi(3)); // near root is exactly 3
    let mut rec = HitRecord::new();
    assert!(world.hit(ray, at_bound, &mut rec));
    assert_eq!(rec.t.raw, 3 * SCALE);
}

#[test]
fn coincident_spheres_yield_the_equally_near_record() {
    // Two spheres at the same place report equal parameters; the walk keeps
    // the later equally-near record (either is a nearest hit).
    let first = Material::Metal(Metal { albedo: v(0, 1, 0), fuzz: Fx::zero() });
    let second = Material::Metal(Metal { albedo: v(1, 0, 0), fuzz: Fx::zero() });
    let mut world = HittableList::new();
    world.add(Hittable::Sphere(Sphere::new(v(0, 0, -4), fxi(1), first)));
    world.add(Hittable::Sphere(Sphere::new(v(0, 0, -4), fxi(1), second)));
    let ray = Ray::new(v(0, 0, 0), v(0, 0, -1));
    let mut rec = HitRecord::new();
    assert!(world.hit(ray, whole(), &mut rec));
    assert_eq!(rec.t.raw, 3 * SCALE);
    assert_eq!(rec.material, Some(second));
}

#[test]
fn empty_scene_never_hits() {
    let world = HittableList::new();
    let ray = Ray::new(v(0, 0, 0), v(0, 0, -1));
    let mut rec = HitRecord::new();
    assert!(!world.hit(ray, whole(), &mut rec));
}

#[test]
fn pyramid_has_six_faces_and_is_hittable() {
    let p = Pyramid::new(v(0, 0, -3), fxi(2), fxi(1), Fx::one(), Fx::zero(), Fx::one(),
        Fx::zero(), Fx::one(), Fx::zero(), gray());
    assert_eq!(p.triangles.len(), 6);
    // Straight down onto the pyramid, off the base diagonal.
    let origin = Vec3::new(Fx::new(SCALE / 2), fxi(3), Fx::new(-7 * SCALE / 2));
    let ray = Ray::new(origin, v(0, -1, 0));
    let mut rec = HitRecord::new();
    assert!(p.hit(ray, whole(), &mut rec));
    assert!(rec.t.raw > 0 && rec.t.raw <= 3 * SCALE);
}

#[test]
fn lambertian_without_fuzz_scatters_along_normal() {
    let mat = Material::Lambertian(Lambertian { albedo: v(0, 1, 0), fuzz: Fx::zero() });
    let mut rec = HitRecord::new();
    rec.normal = v(0, 0, 1);
    rec.p = v(0, 0, -2);
    rec.material = Some(mat);
    let r_in = Ray::new(v(0, 0, 0), v(0, 0, -1));
    let mut rng = Rng::new(7);
    let mut attenuation = Vec3::zero();
    let mut scattered = Ray::new(Vec3::zero(), Vec3::zero());
    assert!(mat.scatter(&r_in, &rec, &mut rng, &mut attenuation, &mut scattered));
    assert_eq!(attenuation, v(0, 1, 0));
    assert_eq!(scattered.origin, rec.p);
    assert_eq!(scattered.direction, v(0, 0, 1));
}

#[test]
fn metal_without_fuzz_mirrors() {
    let mat = Material::Metal(Metal { albedo: v(1, 0, 0), fuzz: Fx::zero() });
    let mut rec = HitRecord::new();
    rec.normal = v(0, 0, 1);
    rec.p = v(1, 0, -1);
    rec.material = Some(mat);
    let r_in = Ray::new(v(0, 0, 0), v(1, 0, -1));
    let mut rng = Rng::new(7);
    let mut attenuation = Vec3::zero();
    let mut scattered = Ray::new(Vec3::zero(), Vec3::zero());
    assert!(mat.scatter(&r_in, &rec, &mut rng, &mut attenuation, &mut scattered));
    assert_eq!(scattered.direction, v(1, 0, 1));
    assert_eq!(attenuation, v(1, 0, 0));
}

#[test]
fn dielectric_passes_straight_through_at_normal_incidence() {
    let mat = Material::Dielectric(Dielectric {
        albedo: v(1, 1, 1),
        fuzz: Fx::zero(),
        ir: Fx::one(),
    });
    let mut rec = HitRecord::new();
    rec.normal = v(0, 0, 1);
    rec.p = v(0, 0, -2);
    rec.front_face = true;
    rec.material = Some(mat);
    let r_in = Ray::new(v(0, 0, 0), v(0, 0, -1));
    let mut rng = Rng::new(7);
    let mut attenuation = Vec3::zero();
    let mut scattered = Ray::new(Vec3::zero(), Vec3::zero());
    assert!(mat.scatter(&r_in, &rec, &mut rng, &mut attenuation, &mut scattered));
    assert_eq!(attenuation, v(1, 1, 1)); // the dielectric does not tint
    assert_eq!(scattered.direction, v(0, 0, -1));
}

#[test]
fn random_draws_stay_in_range_and_replay_by_seed() {
    let mut a = Rng::new(42);
    let mut b = Rng::new(42);
    for _ in 0..100 {
        let x = ray::rng::random_double(&mut a);
        assert!(0 <= x.raw && x.raw < SCALE);
        assert_eq!(x.raw, ray::rng::random_double(&mut b).raw);
    }
    let mut c = Rng::new(5);
    for _ in 0..100 {
        let x = ray::rng::random_double_range(&mut c, fxi(-1), fxi(1));
        assert!(-SCALE <= x.raw && x.raw < SCALE);
    }
    for _ in 0..20 {
        let u = Vec3::random_unit_vector(&mut c);
        let l2 = u.length_squared();
        // a direction of roughly unit length, within fixed-point slop
        assert!(0 < l2.raw && l2.raw < 4 * SCALE);
    }
}

#[test]
fn interval_basics() {
    let i = Interval::new(fxi(1), fxi(3));
    assert_eq!(i.size().raw, 2 * SCALE);
    assert!(!i.is_empty());
    assert!(i.contains(fxi(2)));
    assert!(!i.contains(fxi(4)));
    assert!(Interval::new(fxi(3), fxi(1)).is_empty());
}
