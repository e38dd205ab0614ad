use vstd::prelude::*;
use vstd::std_specs::ops::{AddSpec, DivSpec, MulSpec, SubSpec};
use crate::ray::Ray;
use crate::scalar::{exact, frac, Scalar};
use crate::vec3::Vec3;

verus! {

/// A pinhole camera that looks along -z at a viewport one unit away.
pub struct Camera<T> {
    origin: Vec3<T>,
    horizontal: Vec3<T>,
    vertical: Vec3<T>,
    lower_left_corner: Vec3<T>,
}

impl<T: Scalar> Camera<T> {
    /// Where every ray of the camera starts.
    pub closed spec fn origin(self) -> Vec3<T> {
        self.origin
    }

    /// The span of the viewport from its left edge to its right edge.
    pub closed spec fn horizontal(self) -> Vec3<T> {
        self.horizontal
    }

    /// The span of the viewport from its lower edge to its upper edge.
    pub closed spec fn vertical(self) -> Vec3<T> {
        self.vertical
    }

    /// The corner of the viewport at `u = 0`, `v = 0`.
    pub closed spec fn lower_left_corner(self) -> Vec3<T> {
        self.lower_left_corner
    }

    /// From a camera to the lower left corner of its viewport, `h` wide and
    /// `v` high and one unit ahead: `(h / -2, v / -2, -1)`.
    pub open spec fn corner_offset(h: T, v: T) -> Vec3<T> {
        Vec3 {
            x: h.div_spec(frac::<T>(-2, 1)),
            y: v.div_spec(frac::<T>(-2, 1)),
            z: frac::<T>(-1, 1),
        }
    }

    /// A camera at `pos` with a viewport `h` wide and `v` high, centred on
    /// the camera's forward axis wherever the camera stands: its corner is
    /// `pos + (h / -2, v / -2, -1)`.
    pub fn new(pos: Vec3<T>, h: T, v: T) -> (c: Camera<T>)
        requires
            T::obeys_div_spec(),
            T::obeys_add_spec(),
            h.div_req(frac::<T>(-2, 1)),
            v.div_req(frac::<T>(-2, 1)),
            pos.add_req(Self::corner_offset(h, v)),
        ensures
            c.origin() == pos,
            c.horizontal() == (Vec3 { x: h, y: frac::<T>(0, 1), z: frac::<T>(0, 1) }),
            c.vertical() == (Vec3 { x: frac::<T>(0, 1), y: v, z: frac::<T>(0, 1) }),
            c.lower_left_corner() == pos.add_spec(Self::corner_offset(h, v)),
    {
        let zero = T::from_ratio(0, 1);
        let minus_two = T::from_ratio(-2, 1);
        Camera {
            origin: pos,
            horizontal: Vec3::new(h, zero, zero),
            vertical: Vec3::new(zero, v, zero),
            lower_left_corner: pos + Vec3::new(
                h / minus_two,
                v / minus_two,
                T::from_ratio(-1, 1),
            ),
        }
    }

    /// The point of the viewport at `(u, v)`, before the origin is taken off.
    pub open spec fn target(self, u: T, v: T) -> Vec3<T> {
        self.lower_left_corner().add_spec(self.horizontal().mul_spec(u)).add_spec(
            self.vertical().mul_spec(v),
        )
    }

    /// Whether every operation on the way to the ray through `(u, v)` is
    /// defined.
    pub open spec fn ray_req(self, u: T, v: T) -> bool {
        &&& self.horizontal().mul_req(u)
        &&& self.vertical().mul_req(v)
        &&& self.lower_left_corner().add_req(self.horizontal().mul_spec(u))
        &&& self.lower_left_corner().add_spec(self.horizontal().mul_spec(u)).add_req(
            self.vertical().mul_spec(v),
        )
        &&& self.target(u, v).sub_req(self.origin())
    }

    /// The ray through `(u, v)`: from the origin toward
    /// `lower_left_corner + horizontal * u + vertical * v - origin`.
    pub open spec fn ray_spec(self, u: T, v: T) -> Ray<T> {
        Ray { origin: self.origin(), diraction: self.target(u, v).sub_spec(self.origin()) }
    }

    /// The ray through the viewport at `(u, v)`. Nothing keeps `u` and `v`
    /// inside the viewport: outside it the plane goes on linearly.
    pub fn get_ray(&self, u: T, v: T) -> (r: Ray<T>)
        requires
            exact::<T>(),
            self.ray_req(u, v),
        ensures
            r == self.ray_spec(u, v),
    {
        Ray {
            origin: self.origin,
            diraction: self.lower_left_corner + self.horizontal * u + self.vertical * v
                - self.origin,
        }
    }
}

/// On whole numbers the viewport is centred on the camera's forward axis
/// wherever the camera stands: the direction of the ray through `(u, w)` is
/// `(h / -2 + h * u, v / -2 + v * w, -1)`, in which the position does not
/// occur.
pub proof fn lemma_viewport_follows_camera(
    c: Camera<i64>,
    pos: Vec3<i64>,
    h: i64,
    v: i64,
    u: i64,
    w: i64,
)
    requires
        c.origin() == pos,
        c.horizontal() == (Vec3 { x: h, y: frac::<i64>(0, 1), z: frac::<i64>(0, 1) }),
        c.vertical() == (Vec3 { x: frac::<i64>(0, 1), y: v, z: frac::<i64>(0, 1) }),
        c.lower_left_corner() == pos.add_spec(Camera::corner_offset(h, v)),
        pos.add_req(Camera::corner_offset(h, v)),
        c.ray_req(u, w),
    ensures
        c.ray_spec(u, w).origin == pos,
        c.ray_spec(u, w).diraction.x == Camera::corner_offset(h, v).x + h * u,
        c.ray_spec(u, w).diraction.y == Camera::corner_offset(h, v).y + v * w,
        c.ray_spec(u, w).diraction.z == -1,
{
    assert(0 * u == 0 && 0 * w == 0) by (nonlinear_arith);
}

} // verus!
