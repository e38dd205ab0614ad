use vstd::prelude::*;
use vstd::std_specs::ops::{AddSpec, MulSpec};
use crate::scalar::Scalar;
use crate::vec3::Vec3;

verus! {

/// A half-line: the points `origin + direction * t`.
#[derive(Clone, Copy, Debug)]
pub struct Ray<T> {
    pub origin: Vec3<T>,
    pub diraction: Vec3<T>,
}

impl<T: Scalar> Ray<T> {
    /// Whether the product and the sum that give the point at `t` are defined.
    pub open spec fn at_req(self, t: T) -> bool {
        self.diraction.mul_req(t) && self.origin.add_req(self.diraction.mul_spec(t))
    }

    /// The point of the ray at parameter `t`.
    pub open spec fn at(self, t: T) -> Vec3<T> {
        self.origin.add_spec(self.diraction.mul_spec(t))
    }

    pub fn point_at_parameter(&self, t: T) -> (r: Vec3<T>)
        requires
            T::obeys_add_spec(),
            T::obeys_mul_spec(),
            self.at_req(t),
        ensures
            r == self.at(t),
    {
        self.origin + self.diraction * t
    }
}

} // verus!
