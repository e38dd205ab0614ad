use vstd::prelude::*;
use vstd::std_specs::ops::{AddSpec, DivSpec, MulSpec, NegSpec, SubSpec};
use std::ops::Neg;
use crate::ray::Ray;
use crate::scalar::{exact, frac, lemma_whole_root_not_negative, Scalar};
use crate::vec3::Vec3;

verus! {

/// Where a ray meets a surface: the parameter along the ray, the point, and
/// the surface normal there.
#[derive(Clone, Copy, Debug)]
pub struct HitRecord<T> {
    pub t: T,
    pub p: Vec3<T>,
    pub normal: Vec3<T>,
}

/// A sphere, the one primitive of a scene. A scene is built of spheres that
/// `new` hands out, whose radius is above zero; the intersection test asks
/// for such a radius.
#[derive(Clone, Copy, Debug)]
pub struct Sphere<T> {
    pub center: Vec3<T>,
    pub radius: T,
}

impl<T: Scalar> Sphere<T> {
    /// A sphere, if `radius` is greater than zero.
    pub fn new(center: Vec3<T>, radius: T) -> (r: Option<Sphere<T>>)
        ensures
            r == if frac::<T>(0, 1).less(radius) {
                Some(Sphere { center, radius })
            } else {
                None
            },
    {
        if T::from_ratio(0, 1).less_than(radius) {
            Some(Sphere { center, radius })
        } else {
            None
        }
    }

    /// From the centre to the ray's origin.
    pub open spec fn oc(self, ray: Ray<T>) -> Vec3<T> {
        ray.origin.sub_spec(self.center)
    }

    /// The quadratic's `a`: the direction dotted with itself.
    pub open spec fn qa(self, ray: Ray<T>) -> T {
        Vec3::dot_spec(ray.diraction, ray.diraction)
    }

    /// The quadratic's `b`: `oc` dotted with the direction.
    pub open spec fn qb(self, ray: Ray<T>) -> T {
        Vec3::dot_spec(self.oc(ray), ray.diraction)
    }

    /// The quadratic's `c`: `oc` dotted with itself, less the squared radius.
    pub open spec fn qc(self, ray: Ray<T>) -> T {
        Vec3::dot_spec(self.oc(ray), self.oc(ray)).sub_spec(self.radius.mul_spec(self.radius))
    }

    /// `b * b - a * c`.
    pub open spec fn discriminant(self, ray: Ray<T>) -> T {
        self.qb(ray).mul_spec(self.qb(ray)).sub_spec(self.qa(ray).mul_spec(self.qc(ray)))
    }

    /// Whether every operation on the way to the discriminant is defined.
    pub open spec fn discriminant_req(self, ray: Ray<T>) -> bool {
        &&& ray.origin.sub_req(self.center)
        &&& Vec3::dot_req(ray.diraction, ray.diraction)
        &&& Vec3::dot_req(self.oc(ray), ray.diraction)
        &&& Vec3::dot_req(self.oc(ray), self.oc(ray))
        &&& self.radius.mul_req(self.radius)
        &&& Vec3::dot_spec(self.oc(ray), self.oc(ray)).sub_req(self.radius.mul_spec(self.radius))
        &&& self.qb(ray).mul_req(self.qb(ray))
        &&& self.qa(ray).mul_req(self.qc(ray))
        &&& self.qb(ray).mul_spec(self.qb(ray)).sub_req(self.qa(ray).mul_spec(self.qc(ray)))
    }

    /// The root nearer to the ray's origin: `(-b - sqrt(discriminant)) / a`.
    pub open spec fn near_root(self, ray: Ray<T>) -> T {
        self.qb(ray).neg_spec().sub_spec(self.discriminant(ray).root()).div_spec(self.qa(ray))
    }

    /// The other root: `(-b + sqrt(discriminant)) / a`.
    pub open spec fn far_root(self, ray: Ray<T>) -> T {
        self.qb(ray).neg_spec().add_spec(self.discriminant(ray).root()).div_spec(self.qa(ray))
    }

    /// Whether every operation on the way to the near root is defined.
    pub open spec fn near_root_req(self, ray: Ray<T>) -> bool {
        &&& self.qb(ray).neg_req()
        &&& self.qb(ray).neg_spec().sub_req(self.discriminant(ray).root())
        &&& self.qb(ray).neg_spec().sub_spec(self.discriminant(ray).root()).div_req(self.qa(ray))
    }

    /// Whether every operation on the way to the far root is defined.
    pub open spec fn far_root_req(self, ray: Ray<T>) -> bool {
        &&& self.qb(ray).neg_req()
        &&& self.qb(ray).neg_spec().add_req(self.discriminant(ray).root())
        &&& self.qb(ray).neg_spec().add_spec(self.discriminant(ray).root()).div_req(self.qa(ray))
    }

    /// The record of a hit at parameter `t`: the ray's point there, and
    /// `(point - center) / radius` for its normal.
    pub open spec fn record(self, ray: Ray<T>, t: T) -> HitRecord<T> {
        HitRecord {
            t,
            p: ray.at(t),
            normal: ray.at(t).sub_spec(self.center).div_spec(self.radius),
        }
    }

    /// Whether every operation on the way to the record at `t` is defined.
    pub open spec fn record_req(self, ray: Ray<T>, t: T) -> bool {
        &&& ray.at_req(t)
        &&& ray.at(t).sub_req(self.center)
        &&& ray.at(t).sub_spec(self.center).div_req(self.radius)
    }

    /// What `hit` returns: nothing unless the discriminant is greater than
    /// zero (a tangent ray misses); else the record at the near root if that
    /// lies strictly inside the interval, else the record at the far root if
    /// that does, else nothing.
    pub open spec fn hit_spec(self, ray: Ray<T>, t_min: T, t_max: T) -> Option<HitRecord<T>> {
        if frac::<T>(0, 1).less(self.discriminant(ray)) {
            if inside(self.near_root(ray), t_min, t_max) {
                Some(self.record(ray, self.near_root(ray)))
            } else if inside(self.far_root(ray), t_min, t_max) {
                Some(self.record(ray, self.far_root(ray)))
            } else {
                None
            }
        } else {
            None
        }
    }

    /// Whether the radius is above zero and every operation that `hit`
    /// reaches on these inputs is defined.
    pub open spec fn hit_req(self, ray: Ray<T>, t_min: T, t_max: T) -> bool {
        &&& frac::<T>(0, 1).less(self.radius)
        &&& self.discriminant_req(ray)
        &&& frac::<T>(0, 1).less(self.discriminant(ray)) ==> {
            &&& self.near_root_req(ray)
            &&& if inside(self.near_root(ray), t_min, t_max) {
                self.record_req(ray, self.near_root(ray))
            } else {
                &&& self.far_root_req(ray)
                &&& inside(self.far_root(ray), t_min, t_max) ==> self.record_req(
                    ray,
                    self.far_root(ray),
                )
            }
        }
    }

    /// The record at `t` if `t` lies strictly between `t_min` and `t_max`.
    fn accept(&self, ray: &Ray<T>, t: T, t_min: T, t_max: T) -> (r: Option<HitRecord<T>>)
        requires
            exact::<T>(),
            inside(t, t_min, t_max) ==> self.record_req(*ray, t),
        ensures
            r == if inside(t, t_min, t_max) {
                Some(self.record(*ray, t))
            } else {
                None
            },
    {
        if t.less_than(t_max) && t_min.less_than(t) {
            let p = ray.point_at_parameter(t);
            Some(HitRecord { t, p, normal: (p - self.center) / self.radius })
        } else {
            None
        }
    }

    /// The first point, if any, where `ray` meets the sphere at a parameter
    /// strictly between `t_min` and `t_max`.
    pub fn hit(&self, ray: &Ray<T>, t_min: T, t_max: T) -> (r: Option<HitRecord<T>>)
        requires
            exact::<T>(),
            self.hit_req(*ray, t_min, t_max),
        ensures
            r == self.hit_spec(*ray, t_min, t_max),
    {
        let oc = ray.origin - self.center;
        let a = Vec3::dot(&ray.diraction, &ray.diraction);
        let b = Vec3::dot(&oc, &ray.diraction);
        let c = Vec3::dot(&oc, &oc) - self.radius * self.radius;
        let discriminant = b * b - a * c;
        if T::from_ratio(0, 1).less_than(discriminant) {
            let near = self.accept(ray, (b.neg() - discriminant.sqrt()) / a, t_min, t_max);
            if near.is_some() {
                return near;
            }
            let far = self.accept(ray, (b.neg() + discriminant.sqrt()) / a, t_min, t_max);
            if far.is_some() {
                return far;
            }
        }
        None
    }
}

/// Whether `t` lies strictly between `t_min` and `t_max`.
pub open spec fn inside<T: Scalar>(t: T, t_min: T, t_max: T) -> bool {
    t.less(t_max) && t_min.less(t)
}

/// The state of a scan over the first `n` spheres of `world`: the hit kept so
/// far, and the upper bound that the next sphere is tested with. Each hit
/// replaces the one before and lowers the bound to its own parameter.
pub open spec fn scan<T: Scalar>(
    world: Seq<Sphere<T>>,
    ray: Ray<T>,
    t_min: T,
    t_max: T,
    n: nat,
) -> (Option<HitRecord<T>>, T)
    decreases n,
{
    if n == 0 {
        (None, t_max)
    } else {
        let before = scan(world, ray, t_min, t_max, (n - 1) as nat);
        match world[n - 1].hit_spec(ray, t_min, before.1) {
            Some(h) => (Some(h), h.t),
            None => before,
        }
    }
}

/// Whether each sphere's test is defined with the bound that the scan hands it.
pub open spec fn scan_req<T: Scalar>(
    world: Seq<Sphere<T>>,
    ray: Ray<T>,
    t_min: T,
    t_max: T,
) -> bool {
    forall|n: nat|
        n < world.len() ==> (#[trigger] world[n as int]).hit_req(
            ray,
            t_min,
            scan(world, ray, t_min, t_max, n).1,
        )
}

/// The hit that is left after every sphere of `world`, in order, was tested
/// against the parameter of the hit before it.
pub fn nearest_hit<T: Scalar>(world: &Vec<Sphere<T>>, ray: &Ray<T>, t_min: T, t_max: T) -> (r:
    Option<HitRecord<T>>)
    requires
        exact::<T>(),
        scan_req(world@, *ray, t_min, t_max),
    ensures
        r == scan(world@, *ray, t_min, t_max, world@.len()).0,
{
    let mut rec: Option<HitRecord<T>> = None;
    let mut closest_so_far = t_max;
    let mut i: usize = 0;
    while i < world.len()
        invariant
            exact::<T>(),
            scan_req(world@, *ray, t_min, t_max),
            i <= world@.len(),
            (rec, closest_so_far) == scan(world@, *ray, t_min, t_max, i as nat),
        decreases world@.len() - i,
    {
        match world[i].hit(ray, t_min, closest_so_far) {
            Some(h) => {
                closest_so_far = h.t;
                rec = Some(h);
            },
            None => {},
        }
        i = i + 1;
    }
    rec
}

/// Whether the order of `T` is a strict weak order: nothing comes before
/// itself, and both "before" and "not before" carry over a middle term.
pub open spec fn weak_order<T: Scalar>() -> bool {
    &&& forall|a: T| !(#[trigger] a.less(a))
    &&& forall|a: T, b: T, c: T| #[trigger] a.less(b) && #[trigger] b.less(c) ==> a.less(c)
    &&& forall|a: T, b: T, c: T| !(#[trigger] a.less(b)) && !(#[trigger] b.less(c)) ==> !a.less(c)
}

/// The whole numbers are in a strict weak order.
pub proof fn lemma_whole_numbers_weak_order()
    ensures
        weak_order::<i64>(),
{
}

/// `b` does not come before `a`.
pub open spec fn at_most<T: Scalar>(a: T, b: T) -> bool {
    !b.less(a)
}

/// Whether the far root of `s` on `ray` does not come before its near root.
pub open spec fn roots_in_order<T: Scalar>(s: Sphere<T>, ray: Ray<T>) -> bool {
    at_most(s.near_root(ray), s.far_root(ray))
}

/// On whole numbers the roots of a sphere are in order for every ray whose
/// direction is not zero, wherever both roots are defined.
pub proof fn lemma_whole_roots_in_order(s: Sphere<i64>, ray: Ray<i64>)
    requires
        s.qa(ray) > 0,
        s.near_root_req(ray),
        s.far_root_req(ray),
    ensures
        roots_in_order(s, ray),
{
    let a: int = s.qa(ray) as int;
    let r: int = s.discriminant(ray).root() as int;
    let nb: int = s.qb(ray).neg_spec() as int;
    let x: int = nb - r;
    let y: int = nb + r;
    lemma_whole_root_not_negative(s.discriminant(ray));
    if x >= 0 {
        vstd::arithmetic::div_mod::lemma_div_is_ordered(x, y, a);
    } else if y >= 0 {
        vstd::arithmetic::div_mod::lemma_div_pos_is_pos(-x, a);
        vstd::arithmetic::div_mod::lemma_div_pos_is_pos(y, a);
    } else {
        vstd::arithmetic::div_mod::lemma_div_is_ordered(-y, -x, a);
    }
}

/// A hit lies strictly inside the interval it was asked for, and is the
/// sphere's record at its own parameter.
pub proof fn lemma_hit_is_inside<T: Scalar>(s: Sphere<T>, ray: Ray<T>, t_min: T, t_max: T)
    ensures
        match s.hit_spec(ray, t_min, t_max) {
            Some(h) => inside(h.t, t_min, t_max) && h == s.record(ray, h.t),
            None => true,
        },
{
}

/// A ray whose discriminant is not greater than zero, a tangent ray among
/// them, misses the sphere whatever the interval.
pub proof fn lemma_tangent_misses<T: Scalar>(s: Sphere<T>, ray: Ray<T>, t_min: T, t_max: T)
    requires
        !frac::<T>(0, 1).less(s.discriminant(ray)),
    ensures
        s.hit_spec(ray, t_min, t_max).is_none(),
{
}

/// Lowering the upper bound from `t_max` to `bound` keeps a sphere's hit if
/// the hit comes before `bound`, and loses it otherwise; it never brings a
/// hit that the wider interval did not have.
pub proof fn lemma_narrowed_hit<T: Scalar>(
    s: Sphere<T>,
    ray: Ray<T>,
    t_min: T,
    t_max: T,
    bound: T,
)
    requires
        weak_order::<T>(),
        roots_in_order(s, ray),
        at_most(bound, t_max),
    ensures
        s.hit_spec(ray, t_min, bound) == match s.hit_spec(ray, t_min, t_max) {
            Some(h) => if h.t.less(bound) {
                Some(h)
            } else {
                None
            },
            None => None,
        },
{
    let near = s.near_root(ray);
    let far = s.far_root(ray);
    if near.less(bound) && !t_max.less(bound) {
        assert(near.less(t_max));
    }
    if far.less(bound) && !t_max.less(bound) {
        assert(far.less(t_max));
    }
    if far.less(bound) && !near.less(bound) {
        assert(far.less(near));
    }
}

/// The hit of sphere `j` of `world` on its own, with the whole interval.
pub open spec fn own_hit<T: Scalar>(
    world: Seq<Sphere<T>>,
    ray: Ray<T>,
    t_min: T,
    t_max: T,
    j: int,
) -> Option<HitRecord<T>> {
    world[j].hit_spec(ray, t_min, t_max)
}

/// Whether `r` is the nearest of the hits of the first `n` spheres: nothing
/// if none of them is hit, else the hit of one of them such that no other's
/// comes before it.
pub open spec fn is_nearest<T: Scalar>(
    world: Seq<Sphere<T>>,
    ray: Ray<T>,
    t_min: T,
    t_max: T,
    n: nat,
    r: Option<HitRecord<T>>,
) -> bool {
    match r {
        Some(h) => {
            &&& exists|k: int| 0 <= k < n && #[trigger] own_hit(world, ray, t_min, t_max, k) == r
            &&& forall|j: int|
                0 <= j < n ==> match #[trigger] own_hit(world, ray, t_min, t_max, j) {
                    Some(other) => at_most(h.t, other.t),
                    None => true,
                }
        },
        None => forall|j: int|
            0 <= j < n ==> (#[trigger] own_hit(world, ray, t_min, t_max, j)).is_none(),
    }
}

/// The law of nearest-hit resolution, for every prefix of the scan: what the
/// scan holds after `n` spheres is the nearest of their hits, and its bound
/// is that hit's parameter, or `t_max` where there is none.
pub proof fn lemma_scan_is_nearest<T: Scalar>(
    world: Seq<Sphere<T>>,
    ray: Ray<T>,
    t_min: T,
    t_max: T,
    n: nat,
)
    requires
        weak_order::<T>(),
        n <= world.len(),
        forall|j: int| 0 <= j < world.len() ==> roots_in_order(#[trigger] world[j], ray),
    ensures
        is_nearest(world, ray, t_min, t_max, n, scan(world, ray, t_min, t_max, n).0),
        at_most(scan(world, ray, t_min, t_max, n).1, t_max),
        match scan(world, ray, t_min, t_max, n).0 {
            Some(h) => scan(world, ray, t_min, t_max, n).1 == h.t,
            None => scan(world, ray, t_min, t_max, n).1 == t_max,
        },
    decreases n,
{
    if n > 0 {
        let last = (n - 1) as nat;
        let before = scan(world, ray, t_min, t_max, last);
        let after = scan(world, ray, t_min, t_max, n);
        lemma_scan_is_nearest(world, ray, t_min, t_max, last);
        lemma_narrowed_hit(world[last as int], ray, t_min, t_max, before.1);
        lemma_hit_is_inside(world[last as int], ray, t_min, t_max);
        let own = own_hit(world, ray, t_min, t_max, last as int);
        match after.0 {
            Some(h) => {
                if world[last as int].hit_spec(ray, t_min, before.1).is_some() {
                    assert(own == Some(h));
                    assert(h.t.less(before.1));
                    assert forall|j: int| 0 <= j < n implies match #[trigger] own_hit(
                        world,
                        ray,
                        t_min,
                        t_max,
                        j,
                    ) {
                        Some(other) => at_most(h.t, other.t),
                        None => true,
                    } by {
                        if j < last {
                            match own_hit(world, ray, t_min, t_max, j) {
                                Some(other) => {
                                    if other.t.less(h.t) {
                                        assert(other.t.less(before.1));
                                    }
                                },
                                None => {},
                            }
                        }
                    }
                } else {
                    let k = choose|k: int|
                        0 <= k < last && #[trigger] own_hit(world, ray, t_min, t_max, k)
                            == before.0;
                    assert(own_hit(world, ray, t_min, t_max, k) == after.0);
                }
            },
            None => {},
        }
    }
}

/// Nearest-hit resolution does not depend on the order of the spheres: what
/// `nearest_hit` returns is nothing if no sphere is hit between `t_min` and
/// `t_max`, else the hit of one sphere such that no sphere's hit comes
/// before it.
pub proof fn lemma_nearest_hit_is_nearest<T: Scalar>(
    world: Seq<Sphere<T>>,
    ray: Ray<T>,
    t_min: T,
    t_max: T,
)
    requires
        weak_order::<T>(),
        forall|j: int| 0 <= j < world.len() ==> roots_in_order(#[trigger] world[j], ray),
    ensures
        is_nearest(
            world,
            ray,
            t_min,
            t_max,
            world.len(),
            scan(world, ray, t_min, t_max, world.len()).0,
        ),
{
    lemma_scan_is_nearest(world, ray, t_min, t_max, world.len());
}

/// Of two spheres that a ray meets, the scan returns the hit that comes
/// first along the ray, in whichever order the two are listed.
pub proof fn lemma_two_spheres_either_order<T: Scalar>(
    a: Sphere<T>,
    b: Sphere<T>,
    ray: Ray<T>,
    t_min: T,
    t_max: T,
)
    requires
        weak_order::<T>(),
        roots_in_order(a, ray),
        roots_in_order(b, ray),
        a.hit_spec(ray, t_min, t_max).is_some(),
        b.hit_spec(ray, t_min, t_max).is_some(),
        a.hit_spec(ray, t_min, t_max).unwrap().t.less(b.hit_spec(ray, t_min, t_max).unwrap().t),
    ensures
        scan(seq![a, b], ray, t_min, t_max, 2).0 == a.hit_spec(ray, t_min, t_max),
        scan(seq![b, a], ray, t_min, t_max, 2).0 == a.hit_spec(ray, t_min, t_max),
{
    let ab = seq![a, b];
    let ba = seq![b, a];
    assert(ab[0] == a && ab[1] == b && ba[0] == b && ba[1] == a);
    lemma_nearest_hit_is_nearest(ab, ray, t_min, t_max);
    lemma_nearest_hit_is_nearest(ba, ray, t_min, t_max);
    assert(own_hit(ab, ray, t_min, t_max, 0) == a.hit_spec(ray, t_min, t_max));
    assert(own_hit(ab, ray, t_min, t_max, 1) == b.hit_spec(ray, t_min, t_max));
    assert(own_hit(ba, ray, t_min, t_max, 0) == b.hit_spec(ray, t_min, t_max));
    assert(own_hit(ba, ray, t_min, t_max, 1) == a.hit_spec(ray, t_min, t_max));
}

/// On whole numbers a ray aimed at the centre of a sphere from another
/// point never misses by its discriminant: with the direction `k > 0` times
/// the way from the origin to the centre, the discriminant is above zero.
pub proof fn lemma_aimed_at_centre_has_roots(s: Sphere<i64>, ray: Ray<i64>, k: i64)
    requires
        k > 0,
        s.radius > 0,
        s.center != ray.origin,
        ray.diraction.x == k * (s.center.x - ray.origin.x),
        ray.diraction.y == k * (s.center.y - ray.origin.y),
        ray.diraction.z == k * (s.center.z - ray.origin.z),
        s.discriminant_req(ray),
    ensures
        frac::<i64>(0, 1).less(s.discriminant(ray)),
{
    let mx: int = s.center.x - ray.origin.x;
    let my: int = s.center.y - ray.origin.y;
    let mz: int = s.center.z - ray.origin.z;
    let r: int = s.radius as int;
    let kk: int = k as int;
    let m: int = mx * mx + my * my + mz * mz;
    let a: int = s.qa(ray) as int;
    let b: int = s.qb(ray) as int;
    let c: int = s.qc(ray) as int;
    assert(m > 0) by (nonlinear_arith)
        requires
            m == mx * mx + my * my + mz * mz,
            mx != 0 || my != 0 || mz != 0,
    ;
    let q: int = kk * kk;
    let px: int = mx * mx;
    let py: int = my * my;
    let pz: int = mz * mz;
    assert((kk * mx) * (kk * mx) == q * px) by (nonlinear_arith)
        requires
            q == kk * kk,
            px == mx * mx,
    ;
    assert((kk * my) * (kk * my) == q * py) by (nonlinear_arith)
        requires
            q == kk * kk,
            py == my * my,
    ;
    assert((kk * mz) * (kk * mz) == q * pz) by (nonlinear_arith)
        requires
            q == kk * kk,
            pz == mz * mz,
    ;
    assert(q * (px + py + pz) == q * px + q * py + q * pz) by (nonlinear_arith);
    assert(a == kk * kk * m);
    assert(b == -(kk * m)) by (nonlinear_arith)
        requires
            b == (-mx) * (kk * mx) + (-my) * (kk * my) + (-mz) * (kk * mz),
            m == mx * mx + my * my + mz * mz,
    ;
    assert(c == m - r * r) by (nonlinear_arith)
        requires
            c == (-mx) * (-mx) + (-my) * (-my) + (-mz) * (-mz) - r * r,
            m == mx * mx + my * my + mz * mz,
    ;
    assert(b * b - a * c > 0) by (nonlinear_arith)
        requires
            a == kk * kk * m,
            b == -(kk * m),
            c == m - r * r,
            kk > 0,
            m > 0,
            r > 0,
    ;
}

} // verus!
