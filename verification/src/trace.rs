use vstd::prelude::*;
use vstd::std_specs::ops::{AddSpec, DivSpec, MulSpec, SubSpec};
use crate::ray::Ray;
use crate::scalar::{exact, frac, Scalar};
use crate::sphere::{
    is_nearest, lemma_nearest_hit_is_nearest, lemma_two_spheres_either_order, nearest_hit,
    roots_in_order, scan, scan_req, weak_order, HitRecord, Sphere,
};
use crate::vec3::Vec3;

verus! {

/// The colour of the sky's lower edge: `(1, 1, 1)`.
pub open spec fn white<T: Scalar>() -> Vec3<T> {
    Vec3 { x: frac::<T>(1, 1), y: frac::<T>(1, 1), z: frac::<T>(1, 1) }
}

/// The colour of the sky's upper edge: `(1/2, 7/10, 1)`.
pub open spec fn sky_blue<T: Scalar>() -> Vec3<T> {
    Vec3 { x: frac::<T>(1, 2), y: frac::<T>(7, 10), z: frac::<T>(1, 1) }
}

/// No light: `(0, 0, 0)`.
pub open spec fn black<T: Scalar>() -> Vec3<T> {
    Vec3 { x: frac::<T>(0, 1), y: frac::<T>(0, 1), z: frac::<T>(0, 1) }
}

/// The blend factor of the background for `ray`: `1/2 * (y + 1)`, with `y`
/// the second component of the ray's direction scaled to unit length.
pub open spec fn blend<T: Scalar>(ray: Ray<T>) -> T {
    frac::<T>(1, 2).mul_spec(
        ray.diraction.div_spec(ray.diraction.length_spec()).y.add_spec(frac::<T>(1, 1)),
    )
}

/// The background behind `ray`: `white * (1 - t) + sky_blue * t`, with `t`
/// the blend factor.
pub open spec fn background_spec<T: Scalar>(ray: Ray<T>) -> Vec3<T> {
    white::<T>().mul_spec(frac::<T>(1, 1).sub_spec(blend(ray))).add_spec(
        sky_blue::<T>().mul_spec(blend(ray)),
    )
}

/// Whether every operation on the way to the background is defined.
pub open spec fn background_req<T: Scalar>(ray: Ray<T>) -> bool {
    &&& Vec3::dot_req(ray.diraction, ray.diraction)
    &&& ray.diraction.div_req(ray.diraction.length_spec())
    &&& ray.diraction.div_spec(ray.diraction.length_spec()).y.add_req(frac::<T>(1, 1))
    &&& frac::<T>(1, 2).mul_req(
        ray.diraction.div_spec(ray.diraction.length_spec()).y.add_spec(frac::<T>(1, 1)),
    )
    &&& frac::<T>(1, 1).sub_req(blend(ray))
    &&& white::<T>().mul_req(frac::<T>(1, 1).sub_spec(blend(ray)))
    &&& sky_blue::<T>().mul_req(blend(ray))
    &&& white::<T>().mul_spec(frac::<T>(1, 1).sub_spec(blend(ray))).add_req(
        sky_blue::<T>().mul_spec(blend(ray)),
    )
}

/// The colour of a ray that meets nothing: a blend of white and sky blue by
/// the height of the ray's direction.
pub fn background<T: Scalar>(ray: &Ray<T>) -> (r: Vec3<T>)
    requires
        exact::<T>(),
        background_req(*ray),
    ensures
        r == background_spec(*ray),
{
    let one = T::from_ratio(1, 1);
    let half = T::from_ratio(1, 2);
    let u_direct = ray.diraction.as_unit();
    let t = half * (u_direct.y + one);
    Vec3::new(one, one, one) * (one - t) + Vec3::new(half, T::from_ratio(7, 10), one) * t
}

/// The point `(2a - 1, 2b - 1, 2c - 1)` of the cube around the unit sphere.
pub open spec fn cube_point<T: Scalar>(a: T, b: T, c: T) -> Vec3<T> {
    (Vec3 { x: a, y: b, z: c }).mul_spec(frac::<T>(2, 1)).sub_spec(white::<T>())
}

/// Whether the cube's point and its squared length are defined.
pub open spec fn cube_point_req<T: Scalar>(a: T, b: T, c: T) -> bool {
    &&& (Vec3 { x: a, y: b, z: c }).mul_req(frac::<T>(2, 1))
    &&& (Vec3 { x: a, y: b, z: c }).mul_spec(frac::<T>(2, 1)).sub_req(white::<T>())
    &&& Vec3::dot_req(cube_point(a, b, c), cube_point(a, b, c))
}

/// One draw of the rejection sampling of the unit sphere: from three numbers
/// of `[0, 1)` the point of the cube, kept if its squared length is less
/// than one.
pub fn unit_sphere_candidate<T: Scalar>(a: T, b: T, c: T) -> (r: Option<Vec3<T>>)
    requires
        exact::<T>(),
        cube_point_req(a, b, c),
    ensures
        r == if Vec3::dot_spec(cube_point(a, b, c), cube_point(a, b, c)).less(frac::<T>(1, 1)) {
            Some(cube_point(a, b, c))
        } else {
            None
        },
{
    let one = T::from_ratio(1, 1);
    let p = Vec3::new(a, b, c) * T::from_ratio(2, 1) - Vec3::new(one, one, one);
    if p.squared_length().less_than(one) {
        Some(p)
    } else {
        None
    }
}

/// The hit that a walk from `ray` bounces off: what the scan of the whole
/// scene returns between zero and `t_max`.
pub open spec fn first_hit<T: Scalar>(world: Seq<Sphere<T>>, ray: Ray<T>, t_max: T) -> Option<
    HitRecord<T>,
> {
    scan(world, ray, frac::<T>(0, 1), t_max, world.len()).0
}

/// The ray that leaves a hit: from the hit's point along its normal plus
/// `scatter`.
pub open spec fn bounce<T: Scalar>(h: HitRecord<T>, scatter: Vec3<T>) -> Ray<T> {
    Ray { origin: h.p, diraction: h.normal.add_spec(scatter) }
}

/// The colour that `ray` gathers in `world` when bounce number `k` and those
/// after it scatter by `scatter[k]`, `scatter[k + 1]`, ...: the background
/// where the ray meets nothing, black where it meets a sphere and no scatter
/// direction is left, else half the colour of the ray that leaves the hit.
pub open spec fn color_spec<T: Scalar>(
    world: Seq<Sphere<T>>,
    ray: Ray<T>,
    t_max: T,
    scatter: Seq<Vec3<T>>,
    k: nat,
) -> Vec3<T>
    decreases scatter.len() - k,
{
    match first_hit(world, ray, t_max) {
        Some(h) => if k < scatter.len() {
            color_spec(world, bounce(h, scatter[k as int]), t_max, scatter, k + 1).mul_spec(
                frac::<T>(1, 2),
            )
        } else {
            black()
        },
        None => background_spec(ray),
    }
}

/// Whether every operation that the walk from `ray` reaches is defined.
pub open spec fn color_req<T: Scalar>(
    world: Seq<Sphere<T>>,
    ray: Ray<T>,
    t_max: T,
    scatter: Seq<Vec3<T>>,
    k: nat,
) -> bool
    decreases scatter.len() - k,
{
    &&& scan_req(world, ray, frac::<T>(0, 1), t_max)
    &&& match first_hit(world, ray, t_max) {
        Some(h) => k < scatter.len() ==> {
            &&& h.normal.add_req(scatter[k as int])
            &&& color_req(world, bounce(h, scatter[k as int]), t_max, scatter, k + 1)
            &&& color_spec(world, bounce(h, scatter[k as int]), t_max, scatter, k + 1).mul_req(
                frac::<T>(1, 2),
            )
        },
        None => background_req(ray),
    }
}

/// `c` halved `j` times.
pub open spec fn attenuated<T: Scalar>(c: Vec3<T>, j: nat) -> Vec3<T>
    decreases j,
{
    if j == 0 {
        c
    } else {
        attenuated(c, (j - 1) as nat).mul_spec(frac::<T>(1, 2))
    }
}

/// Every walk ends within the bounces that `scatter` allows: the colour of a
/// ray is black, or the background behind some ray, halved once for each of
/// at most `scatter.len() - k` bounces.
pub proof fn lemma_color_ends_within_cap<T: Scalar>(
    world: Seq<Sphere<T>>,
    ray: Ray<T>,
    t_max: T,
    scatter: Seq<Vec3<T>>,
    k: nat,
)
    requires
        k <= scatter.len(),
    ensures
        exists|j: nat, last: Ray<T>|
            {
                &&& j <= scatter.len() - k
                &&& (#[trigger] attenuated(background_spec(last), j) == color_spec(
                    world,
                    ray,
                    t_max,
                    scatter,
                    k,
                ) || color_spec(world, ray, t_max, scatter, k) == attenuated(black::<T>(), j))
            },
    decreases scatter.len() - k,
{
    let here = color_spec(world, ray, t_max, scatter, k);
    match scan(world, ray, frac::<T>(0, 1), t_max, world.len()).0 {
        Some(h) => {
            if k < scatter.len() {
                let next = bounce(h, scatter[k as int]);
                lemma_color_ends_within_cap(world, next, t_max, scatter, k + 1);
                let (j, last) = choose|j: nat, last: Ray<T>|
                    {
                        &&& j <= scatter.len() - (k + 1)
                        &&& (#[trigger] attenuated(background_spec(last), j) == color_spec(
                            world,
                            next,
                            t_max,
                            scatter,
                            k + 1,
                        ) || color_spec(world, next, t_max, scatter, k + 1) == attenuated(
                            black::<T>(),
                            j,
                        ))
                    };
                assert(attenuated(background_spec(last), j + 1) == here || here == attenuated(
                    black::<T>(),
                    j + 1,
                ));
            } else {
                assert(here == attenuated(black::<T>(), 0));
                assert(attenuated(background_spec(ray), 0) == background_spec(ray));
            }
        },
        None => {
            assert(attenuated(background_spec(ray), 0) == here);
        },
    }
}

/// The hit that a walk bounces off is the nearest one: what `color` takes
/// for the ray's hit is nothing if no sphere is hit between zero and
/// `t_max`, else the hit of one sphere such that no sphere's hit comes
/// before it.
pub proof fn lemma_color_takes_nearest_hit<T: Scalar>(
    world: Seq<Sphere<T>>,
    ray: Ray<T>,
    t_max: T,
    scatter: Seq<Vec3<T>>,
    k: nat,
)
    requires
        weak_order::<T>(),
        forall|j: int| 0 <= j < world.len() ==> roots_in_order(#[trigger] world[j], ray),
    ensures
        is_nearest(world, ray, frac::<T>(0, 1), t_max, world.len(), first_hit(world, ray, t_max)),
        color_spec(world, ray, t_max, scatter, k) == match first_hit(world, ray, t_max) {
            Some(h) => if k < scatter.len() {
                color_spec(world, bounce(h, scatter[k as int]), t_max, scatter, k + 1).mul_spec(
                    frac::<T>(1, 2),
                )
            } else {
                black()
            },
            None => background_spec(ray),
        },
{
    lemma_nearest_hit_is_nearest(world, ray, frac::<T>(0, 1), t_max);
}

/// Of two spheres that a ray meets, the walk bounces off the one that comes
/// first along the ray, in whichever order the scene lists them.
pub proof fn lemma_color_first_hit_either_order<T: Scalar>(
    a: Sphere<T>,
    b: Sphere<T>,
    ray: Ray<T>,
    t_max: T,
)
    requires
        weak_order::<T>(),
        roots_in_order(a, ray),
        roots_in_order(b, ray),
        a.hit_spec(ray, frac::<T>(0, 1), t_max).is_some(),
        b.hit_spec(ray, frac::<T>(0, 1), t_max).is_some(),
        a.hit_spec(ray, frac::<T>(0, 1), t_max).unwrap().t.less(
            b.hit_spec(ray, frac::<T>(0, 1), t_max).unwrap().t,
        ),
    ensures
        first_hit(seq![a, b], ray, t_max) == a.hit_spec(ray, frac::<T>(0, 1), t_max),
        first_hit(seq![b, a], ray, t_max) == a.hit_spec(ray, frac::<T>(0, 1), t_max),
{
    lemma_two_spheres_either_order(a, b, ray, frac::<T>(0, 1), t_max);
    assert(seq![a, b].len() == 2 && seq![b, a].len() == 2);
}

/// A ray that meets a sphere never takes its own background: its colour is
/// black, or a colour that was halved at least once.
pub proof fn lemma_hit_color_is_halved<T: Scalar>(
    world: Seq<Sphere<T>>,
    ray: Ray<T>,
    t_max: T,
    scatter: Seq<Vec3<T>>,
    k: nat,
)
    requires
        k <= scatter.len(),
        first_hit(world, ray, t_max).is_some(),
    ensures
        color_spec(world, ray, t_max, scatter, k) == black::<T>() || exists|
            j: nat,
            last: Ray<T>,
        |
            {
                &&& 1 <= j <= scatter.len() - k
                &&& (#[trigger] attenuated(background_spec(last), j) == color_spec(
                    world,
                    ray,
                    t_max,
                    scatter,
                    k,
                ) || color_spec(world, ray, t_max, scatter, k) == attenuated(black::<T>(), j))
            },
{
    if k < scatter.len() {
        let h = first_hit(world, ray, t_max).unwrap();
        let next = bounce(h, scatter[k as int]);
        let here = color_spec(world, ray, t_max, scatter, k);
        lemma_color_ends_within_cap(world, next, t_max, scatter, k + 1);
        let (j, last) = choose|j: nat, last: Ray<T>|
            {
                &&& j <= scatter.len() - (k + 1)
                &&& (#[trigger] attenuated(background_spec(last), j) == color_spec(
                    world,
                    next,
                    t_max,
                    scatter,
                    k + 1,
                ) || color_spec(world, next, t_max, scatter, k + 1) == attenuated(
                    black::<T>(),
                    j,
                ))
            };
        assert(attenuated(background_spec(last), j + 1) == here || here == attenuated(
            black::<T>(),
            j + 1,
        ));
    }
}

/// The walk of `color`, from bounce number `k` on.
fn color_from<T: Scalar>(
    ray: Ray<T>,
    world: &Vec<Sphere<T>>,
    t_max: T,
    scatter: &Vec<Vec3<T>>,
    k: usize,
) -> (r: Vec3<T>)
    requires
        exact::<T>(),
        k <= scatter@.len(),
        color_req(world@, ray, t_max, scatter@, k as nat),
    ensures
        r == color_spec(world@, ray, t_max, scatter@, k as nat),
    decreases scatter@.len() - k,
{
    match nearest_hit(world, &ray, T::from_ratio(0, 1), t_max) {
        Some(rec) => {
            if k < scatter.len() {
                let next = Ray { origin: rec.p, diraction: rec.normal + scatter[k] };
                color_from(next, world, t_max, scatter, k + 1) * T::from_ratio(1, 2)
            } else {
                let zero = T::from_ratio(0, 1);
                Vec3::new(zero, zero, zero)
            }
        },
        None => background(&ray),
    }
}

/// The colour that `ray` gathers in `world`. Each sphere it meets, at a
/// parameter between zero and `t_max`, sends it on along the normal plus the
/// next vector of `scatter` and halves what comes back; a ray that meets
/// nothing takes the background. The walk ends after at most
/// `scatter.len()` bounces: a ray that meets a sphere after that is black.
pub fn color<T: Scalar>(ray: Ray<T>, world: &Vec<Sphere<T>>, t_max: T, scatter: &Vec<Vec3<T>>) -> (r:
    Vec3<T>)
    requires
        exact::<T>(),
        color_req(world@, ray, t_max, scatter@, 0),
    ensures
        r == color_spec(world@, ray, t_max, scatter@, 0),
{
    color_from(ray, world, t_max, scatter, 0)
}

/// Whether the walk from `ray` meets a sphere when no scatter direction is
/// left: whether `scatter` was too short for it.
pub open spec fn runs_out_spec<T: Scalar>(
    world: Seq<Sphere<T>>,
    ray: Ray<T>,
    t_max: T,
    scatter: Seq<Vec3<T>>,
    k: nat,
) -> bool
    decreases scatter.len() - k,
{
    match first_hit(world, ray, t_max) {
        Some(h) => if k < scatter.len() {
            runs_out_spec(world, bounce(h, scatter[k as int]), t_max, scatter, k + 1)
        } else {
            true
        },
        None => false,
    }
}

/// The walk of `runs_out`, from bounce number `k` on.
fn runs_out_from<T: Scalar>(
    ray: Ray<T>,
    world: &Vec<Sphere<T>>,
    t_max: T,
    scatter: &Vec<Vec3<T>>,
    k: usize,
) -> (r: bool)
    requires
        exact::<T>(),
        k <= scatter@.len(),
        color_req(world@, ray, t_max, scatter@, k as nat),
    ensures
        r == runs_out_spec(world@, ray, t_max, scatter@, k as nat),
    decreases scatter@.len() - k,
{
    match nearest_hit(world, &ray, T::from_ratio(0, 1), t_max) {
        Some(rec) => {
            if k < scatter.len() {
                let next = Ray { origin: rec.p, diraction: rec.normal + scatter[k] };
                runs_out_from(next, world, t_max, scatter, k + 1)
            } else {
                true
            }
        },
        None => false,
    }
}

/// Whether the walk of `color` from `ray` would need one more scatter
/// direction than `scatter` holds. A caller that draws its directions one by
/// one asks this before each draw, and so draws one for each bounce taken.
pub fn runs_out<T: Scalar>(
    ray: Ray<T>,
    world: &Vec<Sphere<T>>,
    t_max: T,
    scatter: &Vec<Vec3<T>>,
) -> (r: bool)
    requires
        exact::<T>(),
        color_req(world@, ray, t_max, scatter@, 0),
    ensures
        r == runs_out_spec(world@, ray, t_max, scatter@, 0),
{
    runs_out_from(ray, world, t_max, scatter, 0)
}

/// A walk that does not run out ends at a background: its colour is the
/// background behind some ray, halved once for each bounce.
pub proof fn lemma_complete_walk_ends_at_background<T: Scalar>(
    world: Seq<Sphere<T>>,
    ray: Ray<T>,
    t_max: T,
    scatter: Seq<Vec3<T>>,
    k: nat,
)
    requires
        k <= scatter.len(),
        !runs_out_spec(world, ray, t_max, scatter, k),
    ensures
        exists|j: nat, last: Ray<T>|
            j <= scatter.len() - k && #[trigger] attenuated(background_spec(last), j)
                == color_spec(world, ray, t_max, scatter, k),
    decreases scatter.len() - k,
{
    let here = color_spec(world, ray, t_max, scatter, k);
    match first_hit(world, ray, t_max) {
        Some(h) => {
            let next = bounce(h, scatter[k as int]);
            lemma_complete_walk_ends_at_background(world, next, t_max, scatter, k + 1);
            let (j, last) = choose|j: nat, last: Ray<T>|
                j <= scatter.len() - (k + 1) && #[trigger] attenuated(background_spec(last), j)
                    == color_spec(world, next, t_max, scatter, k + 1);
            assert(attenuated(background_spec(last), j + 1) == here);
        },
        None => {
            assert(attenuated(background_spec(ray), 0) == here);
        },
    }
}

/// The image-plane coordinate of a sample in pixel column (or row) `x` of
/// `extent`: `(x + jitter) / extent`.
pub open spec fn coordinate_spec<T: Scalar>(x: i32, jitter: T, extent: i32) -> T {
    frac::<T>(x as int, 1).add_spec(jitter).div_spec(frac::<T>(extent as int, 1))
}

/// The image-plane coordinate of one sample along one axis.
pub fn coordinate<T: Scalar>(x: i32, jitter: T, extent: i32) -> (r: T)
    requires
        exact::<T>(),
        frac::<T>(x as int, 1).add_req(jitter),
        frac::<T>(x as int, 1).add_spec(jitter).div_req(frac::<T>(extent as int, 1)),
    ensures
        r == coordinate_spec(x, jitter, extent),
{
    (T::from_ratio(x, 1) + jitter) / T::from_ratio(extent, 1)
}

/// A channel between 0 and 255: below zero it is 0, above 255 it is 255.
pub open spec fn clamp_spec<T: Scalar>(c: T) -> T {
    if c.less(frac::<T>(0, 1)) {
        frac::<T>(0, 1)
    } else if frac::<T>(255, 1).less(c) {
        frac::<T>(255, 1)
    } else {
        c
    }
}

/// The byte of one channel of a summed colour: the mean over `ns` samples,
/// its square root, times 255.99, held between 0 and 255, cut to a whole
/// number.
pub open spec fn channel_spec<T: Scalar>(sum: T, ns: T) -> u8 {
    clamp_spec(sum.div_spec(ns).root().mul_spec(frac::<T>(25599, 100))).byte()
}

/// Whether the mean and the scaling of one channel are defined.
pub open spec fn channel_req<T: Scalar>(sum: T, ns: T) -> bool {
    sum.div_req(ns) && sum.div_spec(ns).root().mul_req(frac::<T>(25599, 100))
}

/// One channel of a pixel from the sum of its samples.
pub fn channel<T: Scalar>(sum: T, ns: T) -> (r: u8)
    requires
        exact::<T>(),
        channel_req(sum, ns),
    ensures
        r == channel_spec(sum, ns),
{
    let scaled = (sum / ns).sqrt() * T::from_ratio(25599, 100);
    let zero = T::from_ratio(0, 1);
    let top = T::from_ratio(255, 1);
    if scaled.less_than(zero) {
        zero.to_byte()
    } else if top.less_than(scaled) {
        top.to_byte()
    } else {
        scaled.to_byte()
    }
}

/// The bytes of a pixel from the sum `sum` of `ns` samples.
pub open spec fn pixel_spec<T: Scalar>(sum: Vec3<T>, ns: T) -> Vec3<u8> {
    Vec3 {
        x: channel_spec(sum.x, ns),
        y: channel_spec(sum.y, ns),
        z: channel_spec(sum.z, ns),
    }
}

/// The pixel for the sum `sum` of `ns` colour samples: each channel averaged,
/// gamma-corrected by a square root, scaled and clamped to a byte.
pub fn pixel<T: Scalar>(sum: Vec3<T>, ns: T) -> (r: Vec3<u8>)
    requires
        exact::<T>(),
        channel_req(sum.x, ns),
        channel_req(sum.y, ns),
        channel_req(sum.z, ns),
    ensures
        r == pixel_spec(sum, ns),
{
    Vec3::new(channel(sum.x, ns), channel(sum.y, ns), channel(sum.z, ns))
}

} // verus!
