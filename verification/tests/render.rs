use ray::fx::{Fx, SCALE};
use ray::vec3::Vec3;
use ray::ray::Ray;
use ray::hittable::Hittable;
use ray::hittable_list::HittableList;
use ray::material::{Material, Lambertian};
use ray::sphere::Sphere;
use ray::camera::{Camera, background_color};
use ray::color::write_color_bytes;
use ray::rng::Rng;

fn fxi(i: i64) -> Fx {
    Fx::new(i * SCALE)
}

fn v(x: i64, y: i64, z: i64) -> Vec3 {
    Vec3::new(fxi(x), fxi(y), fxi(z))
}

fn white_diffuse() -> Material {
    Material::Lambertian(Lambertian { albedo: v(1, 1, 1), fuzz: Fx::one() })
}

#[test]
fn depth_zero_is_black_whatever_the_scene() {
    let mut world = HittableList::new();
    world.add(Hittable::Sphere(Sphere::new(v(0, 0, -4), fxi(1), white_diffuse())));
    let mut rng = Rng::new(1);
    let ray = Ray::new(v(0, 0, 0), v(0, 0, -1));
    let c = Camera::ray_color(ray, &world, 0, &mut rng);
    assert_eq!((c.x.raw, c.y.raw, c.z.raw), (0, 0, 0));
    let c2 = Camera::ray_color(ray, &world, -3, &mut rng);
    assert_eq!((c2.x.raw, c2.y.raw, c2.z.raw), (0, 0, 0));
}

#[test]
fn background_is_sky_straight_up_and_white_straight_down() {
    let world = HittableList::new();
    let mut rng = Rng::new(1);
    let up = Camera::ray_color(Ray::new(v(0, 0, 0), v(0, 1, 0)), &world, 5, &mut rng);
    assert_eq!((up.x.raw, up.y.raw, up.z.raw), (32768, 45875, 65536));
    let down = Camera::ray_color(Ray::new(v(0, 0, 0), v(0, -1, 0)), &world, 5, &mut rng);
    assert_eq!((down.x.raw, down.y.raw, down.z.raw), (SCALE, SCALE, SCALE));
    let sky = background_color(v(0, 1, 0));
    assert_eq!((sky.x.raw, sky.y.raw, sky.z.raw), (32768, 45875, 65536));
}

#[test]
fn zero_direction_ray_contributes_black() {
    let world = HittableList::new();
    let mut rng = Rng::new(1);
    let c = Camera::ray_color(Ray::new(v(0, 0, 0), v(0, 0, 0)), &world, 5, &mut rng);
    assert_eq!((c.x.raw, c.y.raw, c.z.raw), (0, 0, 0));
}

#[test]
fn one_bounce_off_unit_albedo_stays_below_background() {
    // A ray straight down at a white diffuse ground: the unobstructed
    // background below is pure white, while every bounced sample ends on
    // the gradient at or above the horizon, so the mean stays strictly
    // darker in the red channel.
    let mut world = HittableList::new();
    world.add(Hittable::Sphere(Sphere::new(v(0, -102, 0), fxi(100), white_diffuse())));
    let ray = Ray::new(v(0, 0, 0), v(0, -1, 0));
    let background_red = SCALE; // straight down: pure white
    let mut rng = Rng::new(2024);
    let mut sum: i64 = 0;
    let n = 200;
    for _ in 0..n {
        let c = Camera::ray_color(ray, &world, 5, &mut rng);
        assert!(0 <= c.x.raw && c.x.raw <= SCALE);
        sum += c.x.raw;
    }
    assert!(sum / n < background_red);
}

#[test]
fn gamma_maps_unit_to_brightest_byte_and_zero_to_zero() {
    let full = write_color_bytes(v(1, 1, 1), 1);
    assert_eq!(full, (255, 255, 255));
    let dark = write_color_bytes(v(0, 0, 0), 1);
    assert_eq!(dark, (0, 0, 0));
    // Over-range accumulation still clamps to the brightest byte.
    let over = write_color_bytes(v(4, 4, 4), 1);
    assert_eq!(over, (255, 255, 255));
    // A quarter, averaged over one sample, gamma-corrects to one half.
    let quarter = write_color_bytes(Vec3::new(Fx::new(SCALE / 4), Fx::zero(), Fx::zero()), 1);
    assert_eq!(quarter.0, 128); // a quarter gamma-corrects to one half
    // Four samples of unit brightness average back to unit brightness.
    let averaged = write_color_bytes(v(4, 4, 4), 4);
    assert_eq!(averaged, (255, 255, 255));
}

#[test]
fn linear_to_gamma_is_the_square_root() {
    assert_eq!(ray::color::linear_to_gamma(fxi(4)).raw, 2 * SCALE);
    assert_eq!(ray::color::linear_to_gamma(fxi(0)).raw, 0);
    assert_eq!(ray::color::linear_to_gamma(Fx::new(-5)).raw, 0);
}

#[test]
fn camera_refuses_degenerate_bases() {
    // Up vector parallel to the viewing axis.
    let mut cam = Camera::new(fxi(1), 8, 2, v(0, 0, 0), v(0, 0, -2), v(0, 0, 1));
    assert!(!cam.intialize());
    // Look-from equal to look-at.
    let mut cam2 = Camera::new(fxi(1), 8, 2, v(1, 2, 3), v(1, 2, 3), v(0, 1, 0));
    assert!(!cam2.intialize());
    // A sound configuration passes.
    let mut cam3 = Camera::new(fxi(1), 8, 2, v(0, 0, 0), v(0, 0, -2), v(0, 1, 0));
    assert!(cam3.intialize());
    assert_eq!(cam3.image_height, 8);
    assert_eq!(cam3.center, v(0, 0, 0));
}

#[test]
fn render_fills_the_buffer_in_scan_order() {
    let mut world = HittableList::new();
    world.add(Hittable::Sphere(Sphere::new(v(0, 0, -4), fxi(1), white_diffuse())));
    let mut cam = Camera::new(fxi(1), 8, 2, v(0, 0, 0), v(0, 0, -2), v(0, 1, 0));
    let mut rng = Rng::new(9);
    assert!(cam.render(&world, &mut rng));
    assert_eq!(cam.buffer.len(), 64);
    assert_eq!(cam.ppm.len(), 64);
    for &px in cam.buffer.iter() {
        assert!(px <= 0xFF_FFFF);
    }
    // The sky above the sphere is bright blue, in the preview buffer and
    // in the output triples alike.
    assert!(cam.buffer[0] & 0xFF > 0xC0);
    assert!(cam.ppm[0].2 > 0xC0);
}
