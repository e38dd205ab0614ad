use rand::rngs::StdRng;
use rand::{Rng, SeedableRng};
use raytrace::cam::Camera;
use raytrace::canvas::Canvas;
use raytrace::ray::Ray;
use raytrace::render::{render_pixel, Place, Sample};
use raytrace::scalar::Scalar;
use raytrace::sphere::{nearest_hit, Sphere};
use raytrace::trace::{background, color, coordinate, pixel, runs_out, unit_sphere_candidate};
use raytrace::vec3::Vec3;
use std::ops::{Add, Div, Mul, Neg, Sub};

#[derive(Clone, Copy, Debug, PartialEq, PartialOrd)]
struct Real(f32);

impl Add for Real {
    type Output = Real;
    fn add(self, o: Real) -> Real {
        Real(self.0 + o.0)
    }
}

impl Sub for Real {
    type Output = Real;
    fn sub(self, o: Real) -> Real {
        Real(self.0 - o.0)
    }
}

impl Mul for Real {
    type Output = Real;
    fn mul(self, o: Real) -> Real {
        Real(self.0 * o.0)
    }
}

impl Div for Real {
    type Output = Real;
    fn div(self, o: Real) -> Real {
        Real(self.0 / o.0)
    }
}

impl Neg for Real {
    type Output = Real;
    fn neg(self) -> Real {
        Real(-self.0)
    }
}

impl Scalar for Real {
    fn ratio(num: i32, den: i32) -> Real {
        Real(num as f32 / den as f32)
    }

    fn less(self, other: Real) -> bool {
        self.0 < other.0
    }

    fn root(self) -> Real {
        Real(self.0.sqrt())
    }

    fn byte(self) -> u8 {
        self.0 as u8
    }

    fn from_ratio(num: i32, den: i32) -> Real {
        Real(num as f32 / den as f32)
    }

    fn less_than(self, other: Real) -> bool {
        self.0 < other.0
    }

    fn sqrt(self) -> Real {
        Real(self.0.sqrt())
    }

    fn to_byte(self) -> u8 {
        self.0 as u8
    }
}

fn v(x: f32, y: f32, z: f32) -> Vec3<Real> {
    Vec3::new(Real(x), Real(y), Real(z))
}

fn close(a: Real, b: f32) -> bool {
    (a.0 - b).abs() < 1e-4
}

fn close3(a: Vec3<Real>, b: Vec3<Real>) -> bool {
    close(a.x, b.x.0) && close(a.y, b.y.0) && close(a.z, b.z.0)
}

fn random_in_unit_sphere(rng: &mut StdRng) -> Vec3<Real> {
    loop {
        let a = Real(rng.gen::<f32>());
        let b = Real(rng.gen::<f32>());
        let c = Real(rng.gen::<f32>());
        if let Some(p) = unit_sphere_candidate(a, b, c) {
            return p;
        }
    }
}

fn draw_samples(rng: &mut StdRng, ns: usize, cap: usize) -> Vec<Sample<Real>> {
    let mut samples = Vec::new();
    for _ in 0..ns {
        let jitter_x = Real(rng.gen::<f32>());
        let jitter_y = Real(rng.gen::<f32>());
        let mut scatter = Vec::new();
        for _ in 0..cap {
            scatter.push(random_in_unit_sphere(rng));
        }
        samples.push(Sample { jitter_x, jitter_y, scatter });
    }
    samples
}

fn render(width: u32, height: u32, ns: usize, cap: usize, seed: u64, world: &Vec<Sphere<Real>>) -> Vec<u8> {
    let mut rng = StdRng::seed_from_u64(seed);
    let camera = Camera::new(v(0.0, 0.0, 0.0), Real(6.4), Real(3.6));
    let mut canvas = Canvas::new(width, height).unwrap();
    for y in 0..height {
        let mut row = Vec::new();
        for _ in 0..width {
            row.push(draw_samples(&mut rng, ns, cap));
        }
        canvas.paint_row(&camera, world, y, Real(f32::MAX), &row);
    }
    canvas.into_bytes()
}

#[test]
fn paint_row_fills_one_row_with_rendered_pixels() {
    let world = vec![Sphere { center: v(0.5, 0.0, -2.0), radius: Real(0.5) }];
    let camera = Camera::new(v(0.0, 0.0, 0.0), Real(6.4), Real(3.6));
    let mut rng = StdRng::seed_from_u64(9);
    let mut row = Vec::new();
    for _ in 0..4 {
        row.push(draw_samples(&mut rng, 2, 3));
    }
    let mut canvas = Canvas::new(4, 3).unwrap();
    canvas.paint_row(&camera, &world, 1, Real(f32::MAX), &row);
    assert_eq!(canvas.dimensions(), (4, 3));
    let bytes = canvas.into_bytes();
    assert_eq!(bytes.len(), 36);
    for x in 0..4usize {
        let at = Place { x: x as i32, y: 1, width: 4, height: 3 };
        let px = render_pixel(&camera, &world, at, Real(f32::MAX), &row[x]);
        assert_eq!(bytes[3 * (4 + x)..3 * (4 + x) + 3], [px.x, px.y, px.z]);
        assert!(px.z > 0);
        assert_eq!(bytes[3 * x..3 * x + 3], [0u8, 0, 0]);
        assert_eq!(bytes[3 * (8 + x)..3 * (8 + x) + 3], [0u8, 0, 0]);
    }
}

#[test]
fn render_pixel_is_the_mean_of_its_samples() {
    let world = vec![Sphere { center: v(0.5, 0.0, -2.0), radius: Real(0.5) }];
    let camera = Camera::new(v(0.0, 0.0, 0.0), Real(6.4), Real(3.6));
    let mut rng = StdRng::seed_from_u64(5);
    let samples = draw_samples(&mut rng, 4, 6);
    let at = Place { x: 9, y: 4, width: 16, height: 9 };
    let mut col = v(0.0, 0.0, 0.0);
    for s in samples.iter() {
        let u = coordinate(at.x, s.jitter_x, at.width);
        let w = coordinate(at.y, s.jitter_y, at.height);
        col = col + color(camera.get_ray(u, w), &world, Real(f32::MAX), &s.scatter);
    }
    let expect = pixel(col, Real(4.0));
    assert_eq!(render_pixel(&camera, &world, at, Real(f32::MAX), &samples), expect);
}

#[test]
fn coordinate_adds_the_jitter_then_divides() {
    assert_eq!(coordinate(3, Real(0.5), 7), Real(3.5 / 7.0));
    assert_eq!(coordinate(0, Real(0.0), 640), Real(0.0));
}

#[test]
fn vector_algebra_within_tolerance() {
    let a = v(1.5, -2.25, 3.125);
    let b = v(0.1, 0.2, -0.3);
    assert!(close3((a + b) - b, a));
    assert_eq!(Vec3::dot(&a, &a), a.squared_length());
    assert!(close(a.as_unit().length(), 1.0));
    assert!(close3(a * Real(3.0) / Real(3.0), a));
}

#[test]
fn dot_and_length_exact_values() {
    assert_eq!(Vec3::dot(&v(1.0, 2.0, 3.0), &v(4.0, -5.0, 6.0)), Real(12.0));
    assert_eq!(v(3.0, 0.0, -4.0).length(), Real(5.0));
    assert_eq!(v(3.0, 0.0, -4.0).squared_length(), Real(25.0));
    assert_eq!(v(0.0, 0.0, 2.0).as_unit(), v(0.0, 0.0, 1.0));
}

#[test]
fn ray_at_the_centre_hits_with_a_unit_normal() {
    let s = Sphere { center: v(0.5, 0.0, -2.0), radius: Real(0.5) };
    let r = Ray { origin: v(0.0, 0.0, 0.0), diraction: v(0.5, 0.0, -2.0) };
    let h = s.hit(&r, Real(0.0), Real(f32::MAX)).unwrap();
    assert!(close(h.normal.length(), 1.0));
    let d = h.p - s.center;
    assert!(close3(h.normal * Real(0.5), d));
    assert!(h.t.0 > 0.0 && h.t.0 < 1.0);
    assert!(close3(h.p, r.point_at_parameter(h.t)));
}

#[test]
fn exact_hit_on_the_axis() {
    let s = Sphere { center: v(0.0, 0.0, -2.0), radius: Real(0.5) };
    let r = Ray { origin: v(0.0, 0.0, 0.0), diraction: v(0.0, 0.0, -1.0) };
    let h = s.hit(&r, Real(0.0), Real(f32::MAX)).unwrap();
    assert_eq!(h.t, Real(1.5));
    assert_eq!(h.p, v(0.0, 0.0, -1.5));
    assert_eq!(h.normal, v(0.0, 0.0, 1.0));
    let h = s.hit(&r, Real(1.5), Real(f32::MAX)).unwrap();
    assert_eq!(h.t, Real(2.5));
    assert_eq!(h.normal, v(0.0, 0.0, -1.0));
}

#[test]
fn tangent_and_diverging_rays_miss() {
    let s = Sphere { center: v(0.0, 1.0, -2.0), radius: Real(1.0) };
    let tangent = Ray { origin: v(0.0, 0.0, 0.0), diraction: v(0.0, 0.0, -1.0) };
    assert!(s.hit(&tangent, Real(0.0), Real(f32::MAX)).is_none());
    let away = Ray { origin: v(0.0, 0.0, 0.0), diraction: v(0.0, -1.0, 1.0) };
    assert!(s.hit(&away, Real(0.0), Real(f32::MAX)).is_none());
}

#[test]
fn nearest_of_two_overlapping_spheres() {
    let a = Sphere { center: v(0.0, 0.0, -2.0), radius: Real(0.5) };
    let b = Sphere { center: v(0.0, 0.0, -2.25), radius: Real(0.5) };
    let r = Ray { origin: v(0.0, 0.0, 0.0), diraction: v(0.0, 0.0, -1.0) };
    let h1 = nearest_hit(&vec![a, b], &r, Real(0.0), Real(f32::MAX)).unwrap();
    let h2 = nearest_hit(&vec![b, a], &r, Real(0.0), Real(f32::MAX)).unwrap();
    assert_eq!(h1.t, Real(1.5));
    assert_eq!(h2.t, Real(1.5));
}

#[test]
fn unit_sphere_candidate_keeps_the_inside() {
    assert_eq!(unit_sphere_candidate(Real(0.5), Real(0.5), Real(0.5)), Some(v(0.0, 0.0, 0.0)));
    assert_eq!(unit_sphere_candidate(Real(0.75), Real(0.5), Real(0.25)), Some(v(0.5, 0.0, -0.5)));
    assert_eq!(unit_sphere_candidate(Real(0.0), Real(0.0), Real(0.0)), None);
    assert_eq!(unit_sphere_candidate(Real(1.0), Real(0.5), Real(0.5)), None);
}

#[test]
fn bounce_cap_ends_the_walk_between_enclosing_spheres() {
    let world = vec![
        Sphere { center: v(0.0, 0.0, 0.0), radius: Real(10.0) },
        Sphere { center: v(0.0, 0.0, 0.0), radius: Real(20.0) },
    ];
    let mut rng = StdRng::seed_from_u64(7);
    for cap in [0usize, 1, 5, 50] {
        let mut scatter = Vec::new();
        for _ in 0..cap {
            scatter.push(random_in_unit_sphere(&mut rng));
        }
        let r = Ray { origin: v(0.0, 0.0, 0.0), diraction: v(0.3, 0.2, -1.0) };
        let c = color(r, &world, Real(f32::MAX), &scatter);
        for ch in [c.x.0, c.y.0, c.z.0] {
            assert!(ch.is_finite());
            assert!(ch >= 0.0);
        }
    }
}

#[test]
fn one_bounce_halves_the_background() {
    let world = vec![Sphere { center: v(0.0, 0.0, -2.0), radius: Real(0.5) }];
    let r = Ray { origin: v(0.0, 0.0, 0.0), diraction: v(0.0, 0.0, -1.0) };
    let scatter = vec![v(0.0, 0.0, 0.0)];
    let c = color(r, &world, Real(f32::MAX), &scatter);
    let leaving = Ray { origin: v(0.0, 0.0, -1.5), diraction: v(0.0, 0.0, 1.0) };
    assert_eq!(c, background(&leaving) * Real(0.5));
    assert_eq!(c, v(0.375, 0.425, 0.5));
}

#[test]
fn background_gradient_closed_form() {
    let up = Ray { origin: v(0.0, 0.0, 0.0), diraction: v(0.0, 2.0, 0.0) };
    assert_eq!(background(&up), v(0.5, 0.7, 1.0));
    let down = Ray { origin: v(0.0, 0.0, 0.0), diraction: v(0.0, -2.0, 0.0) };
    assert_eq!(background(&down), v(1.0, 1.0, 1.0));
    let level = Ray { origin: v(0.0, 0.0, 0.0), diraction: v(0.0, 0.0, -3.0) };
    assert_eq!(background(&level), v(0.75, 0.85, 1.0));
}

#[test]
fn empty_scene_renders_the_background() {
    let width: u32 = 8;
    let height: u32 = 4;
    let world: Vec<Sphere<Real>> = Vec::new();
    let img = render(width, height, 1, 4, 3, &world);
    let mut rng = StdRng::seed_from_u64(3);
    let camera = Camera::new(v(0.0, 0.0, 0.0), Real(6.4), Real(3.6));
    for y in 0..height {
        for x in 0..width {
            let u = (x as f32 + rng.gen::<f32>()) / width as f32;
            let w = (y as f32 + rng.gen::<f32>()) / height as f32;
            for _ in 0..4 {
                random_in_unit_sphere(&mut rng);
            }
            let d = camera.get_ray(Real(u), Real(w)).diraction;
            let len = (d.x.0 * d.x.0 + d.y.0 * d.y.0 + d.z.0 * d.z.0).sqrt();
            let t = 0.5 * (d.y.0 / len + 1.0);
            let expect = [1.0 * (1.0 - t) + 0.5 * t, 1.0 * (1.0 - t) + 0.7 * t, 1.0 * (1.0 - t) + 1.0 * t];
            let at = ((y * width + x) * 3) as usize;
            for k in 0..3 {
                let byte = (expect[k].sqrt() * 255.99).min(255.0).max(0.0) as u8;
                assert_eq!(img[at + k], byte);
            }
            if x == width / 2 && y == 0 {
                assert!(img[at + 2] == 255);
                assert!(img[at] < 255);
            }
        }
    }
}

#[test]
fn large_sphere_covers_every_pixel() {
    let world = vec![Sphere { center: v(0.0, 0.0, -1000.0), radius: Real(990.0) }];
    let camera = Camera::new(v(0.0, 0.0, 0.0), Real(6.4), Real(3.6));
    for y in 0..9 {
        for x in 0..16 {
            let u = coordinate(x, Real(0.5), 16);
            let w = coordinate(y, Real(0.5), 9);
            let r = camera.get_ray(u, w);
            assert!(nearest_hit(&world, &r, Real(0.0), Real(f32::MAX)).is_some());
            let none: Vec<Vec3<Real>> = Vec::new();
            assert_eq!(color(r, &world, Real(f32::MAX), &none), v(0.0, 0.0, 0.0));
        }
    }
    let empty: Vec<Sphere<Real>> = Vec::new();
    let with = render(16, 9, 2, 3, 11, &world);
    let without = render(16, 9, 2, 3, 11, &empty);
    for i in 0..(16 * 9) {
        assert_ne!(with[3 * i..3 * i + 3], without[3 * i..3 * i + 3]);
    }
}

#[test]
fn same_seed_same_image() {
    let world = vec![
        Sphere { center: v(0.5, 0.0, -2.0), radius: Real(0.5) },
        Sphere { center: v(-0.5, 0.0, -1.0), radius: Real(0.5) },
        Sphere { center: v(0.0, 100.5, -1.0), radius: Real(100.0) },
    ];
    let a = render(16, 9, 3, 8, 42, &world);
    let b = render(16, 9, 3, 8, 42, &world);
    assert_eq!(a.len(), 16 * 9 * 3);
    assert_eq!(a, b);
    let c = render(16, 9, 3, 8, 43, &world);
    assert_ne!(a, c);
}

#[test]
fn pixel_clamps_bright_channels() {
    assert_eq!(pixel(v(0.0, 1.0, 4.0), Real(1.0)), Vec3::new(0u8, 255, 255));
    assert_eq!(pixel(v(0.5, 0.5, 0.5), Real(2.0)), Vec3::new(127u8, 127, 127));
    assert_eq!(pixel(v(-1.0, 0.25, 0.0), Real(1.0)).y, 127);
}

#[test]
fn viewport_is_centred_wherever_the_camera_stands() {
    let cam = Camera::new(v(1.0, 2.0, 3.0), Real(4.0), Real(2.0));
    let r = cam.get_ray(Real(0.5), Real(0.5));
    assert_eq!(r.origin, v(1.0, 2.0, 3.0));
    assert_eq!(r.diraction, v(0.0, 0.0, -1.0));
    assert_eq!(cam.get_ray(Real(0.0), Real(0.0)).diraction, v(-2.0, -1.0, -1.0));
    assert_eq!(cam.get_ray(Real(1.0), Real(1.0)).diraction, v(2.0, 1.0, -1.0));
}

#[test]
fn sphere_new_keeps_only_a_radius_above_zero() {
    assert!(Sphere::new(v(0.0, 0.0, 0.0), Real(0.0)).is_none());
    assert!(Sphere::new(v(0.0, 0.0, 0.0), Real(-1.0)).is_none());
    assert!(Sphere::new(v(0.0, 0.0, 0.0), Real(f32::NAN)).is_none());
    assert_eq!(Sphere::new(v(0.0, 1.0, 0.0), Real(0.5)).unwrap().radius, Real(0.5));
}

#[test]
fn a_ray_that_hits_is_at_most_half_as_bright() {
    let world = vec![Sphere { center: v(0.0, 0.0, -1000.0), radius: Real(990.0) }];
    let camera = Camera::new(v(0.0, 0.0, 0.0), Real(6.4), Real(3.6));
    let mut rng = StdRng::seed_from_u64(21);
    for y in 0..9 {
        for x in 0..16 {
            let mut scatter = Vec::new();
            for _ in 0..10 {
                scatter.push(random_in_unit_sphere(&mut rng));
            }
            let r = camera.get_ray(coordinate(x, Real(0.5), 16), coordinate(y, Real(0.5), 9));
            let c = color(r, &world, Real(f32::MAX), &scatter);
            for ch in [c.x.0, c.y.0, c.z.0] {
                assert!(ch.is_finite() && ch >= 0.0 && ch <= 0.5 + 1e-6);
            }
        }
    }
}

#[test]
fn directions_drawn_one_by_one_complete_the_walk() {
    let world = vec![
        Sphere { center: v(0.5, 0.0, -2.0), radius: Real(0.5) },
        Sphere { center: v(0.0, 100.5, -1.0), radius: Real(100.0) },
    ];
    let mut rng = StdRng::seed_from_u64(13);
    let r = Ray { origin: v(0.0, 0.0, 0.0), diraction: v(0.5, 0.1, -2.0) };
    let mut scatter = Vec::new();
    assert!(runs_out(r, &world, Real(f32::MAX), &scatter));
    while scatter.len() < 50 && runs_out(r, &world, Real(f32::MAX), &scatter) {
        scatter.push(random_in_unit_sphere(&mut rng));
    }
    assert!(scatter.len() >= 1 && scatter.len() < 50);
    let c = color(r, &world, Real(f32::MAX), &scatter);
    let mut longer = scatter.clone();
    longer.push(v(0.1, 0.2, 0.3));
    longer.push(v(-0.3, 0.0, 0.1));
    assert_eq!(color(r, &world, Real(f32::MAX), &longer), c);
    assert!(c.z.0 > 0.0);
    let mut shorter = scatter.clone();
    shorter.pop();
    assert!(runs_out(r, &world, Real(f32::MAX), &shorter));
    assert_eq!(color(r, &world, Real(f32::MAX), &shorter), v(0.0, 0.0, 0.0));
}
