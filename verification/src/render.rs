use vstd::prelude::*;
use vstd::std_specs::ops::{AddSpec, DivSpec};
use crate::cam::Camera;
use crate::ray::Ray;
use crate::scalar::{exact, frac, Scalar};
use crate::sphere::Sphere;
use crate::trace::{
    black, channel_req, color, color_req, color_spec, coordinate, coordinate_spec,
    pixel, pixel_spec,
};
use crate::vec3::Vec3;

verus! {

/// The random numbers of one sample of a pixel: the jitter inside the pixel,
/// each in `[0, 1)`, and the scatter direction of each bounce its path may take.
pub struct Sample<T> {
    pub jitter_x: T,
    pub jitter_y: T,
    pub scatter: Vec<Vec3<T>>,
}

/// One pixel of an image `width` by `height` in size; row 0 is the top row.
#[derive(Clone, Copy, Debug)]
pub struct Place {
    pub x: i32,
    pub y: i32,
    pub width: i32,
    pub height: i32,
}

/// Whether the two image-plane coordinates of a sample are defined.
pub open spec fn sample_coordinates_req<T: Scalar>(at: Place, jitter_x: T, jitter_y: T) -> bool {
    &&& frac::<T>(at.x as int, 1).add_req(jitter_x)
    &&& frac::<T>(at.x as int, 1).add_spec(jitter_x).div_req(frac::<T>(at.width as int, 1))
    &&& frac::<T>(at.y as int, 1).add_req(jitter_y)
    &&& frac::<T>(at.y as int, 1).add_spec(jitter_y).div_req(frac::<T>(at.height as int, 1))
}

/// The camera's ray through the pixel at `((x + jitter_x) / width,
/// (y + jitter_y) / height)`.
pub open spec fn sample_ray<T: Scalar>(
    camera: Camera<T>,
    at: Place,
    jitter_x: T,
    jitter_y: T,
) -> Ray<T> {
    camera.ray_spec(
        coordinate_spec(at.x, jitter_x, at.width),
        coordinate_spec(at.y, jitter_y, at.height),
    )
}

/// The colour that one sample gathers.
pub open spec fn sample_color<T: Scalar>(
    camera: Camera<T>,
    world: Seq<Sphere<T>>,
    at: Place,
    t_max: T,
    s: Sample<T>,
) -> Vec3<T> {
    color_spec(world, sample_ray(camera, at, s.jitter_x, s.jitter_y), t_max, s.scatter@, 0)
}

/// Whether every operation on the way to one sample's colour is defined.
pub open spec fn sample_req<T: Scalar>(
    camera: Camera<T>,
    world: Seq<Sphere<T>>,
    at: Place,
    t_max: T,
    s: Sample<T>,
) -> bool {
    &&& sample_coordinates_req(at, s.jitter_x, s.jitter_y)
    &&& camera.ray_req(
        coordinate_spec(at.x, s.jitter_x, at.width),
        coordinate_spec(at.y, s.jitter_y, at.height),
    )
    &&& color_req(world, sample_ray(camera, at, s.jitter_x, s.jitter_y), t_max, s.scatter@, 0)
}

/// The sum of the colours of the first `n` samples, added in order to black.
pub open spec fn sum_spec<T: Scalar>(
    camera: Camera<T>,
    world: Seq<Sphere<T>>,
    at: Place,
    t_max: T,
    samples: Seq<Sample<T>>,
    n: nat,
) -> Vec3<T>
    decreases n,
{
    if n == 0 {
        black()
    } else {
        sum_spec(camera, world, at, t_max, samples, (n - 1) as nat).add_spec(
            sample_color(camera, world, at, t_max, samples[n - 1]),
        )
    }
}

/// Whether each of the first `n` samples, and each sum on the way, is defined.
pub open spec fn sum_req<T: Scalar>(
    camera: Camera<T>,
    world: Seq<Sphere<T>>,
    at: Place,
    t_max: T,
    samples: Seq<Sample<T>>,
    n: nat,
) -> bool
    decreases n,
{
    n > 0 ==> {
        &&& sum_req(camera, world, at, t_max, samples, (n - 1) as nat)
        &&& sample_req(camera, world, at, t_max, samples[n - 1])
        &&& sum_spec(camera, world, at, t_max, samples, (n - 1) as nat).add_req(
            sample_color(camera, world, at, t_max, samples[n - 1]),
        )
    }
}

/// The bytes of the pixel `at`: the colours of all `samples` summed in order,
/// divided by their number, gamma-corrected by a square root, and scaled
/// and clamped to bytes.
pub open spec fn render_spec<T: Scalar>(
    camera: Camera<T>,
    world: Seq<Sphere<T>>,
    at: Place,
    t_max: T,
    samples: Seq<Sample<T>>,
) -> Vec3<u8> {
    pixel_spec(
        sum_spec(camera, world, at, t_max, samples, samples.len()),
        frac::<T>(samples.len() as int, 1),
    )
}

/// Whether there is a sample, their number fits 32 bits, and every operation
/// on the way to the pixel is defined.
pub open spec fn render_req<T: Scalar>(
    camera: Camera<T>,
    world: Seq<Sphere<T>>,
    at: Place,
    t_max: T,
    samples: Seq<Sample<T>>,
) -> bool {
    &&& 0 < samples.len() <= i32::MAX
    &&& sum_req(camera, world, at, t_max, samples, samples.len())
    &&& channel_req(
        sum_spec(camera, world, at, t_max, samples, samples.len()).x,
        frac::<T>(samples.len() as int, 1),
    )
    &&& channel_req(
        sum_spec(camera, world, at, t_max, samples, samples.len()).y,
        frac::<T>(samples.len() as int, 1),
    )
    &&& channel_req(
        sum_spec(camera, world, at, t_max, samples, samples.len()).z,
        frac::<T>(samples.len() as int, 1),
    )
}

/// The three bytes of the pixel `at`, from the random numbers of each of its
/// samples.
pub fn render_pixel<T: Scalar>(
    camera: &Camera<T>,
    world: &Vec<Sphere<T>>,
    at: Place,
    t_max: T,
    samples: &Vec<Sample<T>>,
) -> (r: Vec3<u8>)
    requires
        exact::<T>(),
        render_req(*camera, world@, at, t_max, samples@),
    ensures
        r == render_spec(*camera, world@, at, t_max, samples@),
{
    let zero = T::from_ratio(0, 1);
    let mut col = Vec3::new(zero, zero, zero);
    let mut i: usize = 0;
    while i < samples.len()
        invariant
            exact::<T>(),
            i <= samples@.len(),
            sum_req(*camera, world@, at, t_max, samples@, samples@.len()),
            col == sum_spec(*camera, world@, at, t_max, samples@, i as nat),
        decreases samples@.len() - i,
    {
        proof {
            lemma_sum_req_prefix(*camera, world@, at, t_max, samples@, (i + 1) as nat);
        }
        let s = &samples[i];
        let u = coordinate(at.x, s.jitter_x, at.width);
        let v = coordinate(at.y, s.jitter_y, at.height);
        let ray = camera.get_ray(u, v);
        col = col + color(ray, world, t_max, &s.scatter);
        i = i + 1;
    }
    let ns: i32 = samples.len() as i32;
    pixel(col, T::from_ratio(ns, 1))
}

/// What is defined for all samples is defined for the first `n` of them.
proof fn lemma_sum_req_prefix<T: Scalar>(
    camera: Camera<T>,
    world: Seq<Sphere<T>>,
    at: Place,
    t_max: T,
    samples: Seq<Sample<T>>,
    n: nat,
)
    requires
        n <= samples.len(),
        sum_req(camera, world, at, t_max, samples, samples.len()),
    ensures
        sum_req(camera, world, at, t_max, samples, n),
{
    lemma_sum_req_down(camera, world, at, t_max, samples, n, samples.len());
}

/// What is defined for the first `m` samples is defined for the first
/// `n <= m` of them.
proof fn lemma_sum_req_down<T: Scalar>(
    camera: Camera<T>,
    world: Seq<Sphere<T>>,
    at: Place,
    t_max: T,
    samples: Seq<Sample<T>>,
    n: nat,
    m: nat,
)
    requires
        n <= m,
        sum_req(camera, world, at, t_max, samples, m),
    ensures
        sum_req(camera, world, at, t_max, samples, n),
    decreases m,
{
    if n < m {
        lemma_sum_req_down(camera, world, at, t_max, samples, n, (m - 1) as nat);
    }
}

} // verus!
