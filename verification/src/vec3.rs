use vstd::prelude::*;
use vstd::std_specs::ops::{AddSpec, DivSpec, MulSpec, SubSpec};
use crate::scalar::Scalar;
use std::ops::{Add, AddAssign, Div, DivAssign, Index, IndexMut, Mul, MulAssign, Sub, SubAssign};

verus! {

/// An ordered triple of scalars: component 0 is `x`, 1 is `y`, 2 is `z`.
///
/// Every operator works componentwise. Its `*_req` predicate asks that the
/// scalar operator is defined on each pair of components, and its `*_spec`
/// function is the triple of the scalar results.
#[derive(Clone, Copy, PartialEq, Debug)]
pub struct Vec3<T> {
    pub x: T,
    pub y: T,
    pub z: T,
}

impl<T> Vec3<T> {
    /// The component at position `i`, for `i` in 0..3.
    pub open spec fn spec_index(self, i: int) -> T
        recommends
            0 <= i < 3,
    {
        if i == 0 {
            self.x
        } else if i == 1 {
            self.y
        } else {
            self.z
        }
    }

    /// The triple with `v` at position `i` and the other components of `self`.
    pub open spec fn update(self, i: int, v: T) -> Vec3<T>
        recommends
            0 <= i < 3,
    {
        if i == 0 {
            Vec3 { x: v, y: self.y, z: self.z }
        } else if i == 1 {
            Vec3 { x: self.x, y: v, z: self.z }
        } else {
            Vec3 { x: self.x, y: self.y, z: v }
        }
    }

    pub fn new(x: T, y: T, z: T) -> (r: Vec3<T>)
        ensures
            r == (Vec3 { x, y, z }),
            r[0] == x,
            r[1] == y,
            r[2] == z,
    {
        Vec3 { x, y, z }
    }
}

impl<T> vstd::std_specs::core::IndexSpecImpl<usize> for Vec3<T> {
    open spec fn index_req(&self, index: &usize) -> bool {
        *index < 3
    }
}

impl<T> Index<usize> for Vec3<T> {
    type Output = T;

    /// Reads component `index`.
    fn index(&self, index: usize) -> (r: &T)
        ensures
            *r == self[index as int],
    {
        if index == 0 {
            &self.x
        } else if index == 1 {
            &self.y
        } else if index == 2 {
            &self.z
        } else {
            vstd::pervasive::unreached()
        }
    }
}

impl<T> IndexMut<usize> for Vec3<T> {
    /// Lends component `index` for writing; the other two stay as they were.
    fn index_mut(&mut self, index: usize) -> (r: &mut T)
        requires
            index < 3,
        ensures
            *r == old(self)[index as int],
            *final(self) == old(self).update(index as int, *final(r)),
    {
        if index == 0 {
            &mut self.x
        } else if index == 1 {
            &mut self.y
        } else if index == 2 {
            &mut self.z
        } else {
            vstd::pervasive::unreached()
        }
    }
}

impl<T: Add<Output = T> + Copy> vstd::std_specs::ops::AddSpecImpl<T> for Vec3<T> {
    open spec fn obeys_add_spec() -> bool {
        T::obeys_add_spec()
    }

    open spec fn add_req(self, rhs: T) -> bool {
        self.x.add_req(rhs) && self.y.add_req(rhs) && self.z.add_req(rhs)
    }

    open spec fn add_spec(self, rhs: T) -> Vec3<T> {
        Vec3 { x: self.x.add_spec(rhs), y: self.y.add_spec(rhs), z: self.z.add_spec(rhs) }
    }
}

impl<T: Add<Output = T> + Copy> Add<T> for Vec3<T> {
    type Output = Vec3<T>;

    /// The sum of each component with the scalar `rhs`.
    fn add(self, rhs: T) -> (r: Vec3<T>) {
        Vec3 { x: self.x + rhs, y: self.y + rhs, z: self.z + rhs }
    }
}

impl<T: Add<Output = T> + Copy> vstd::std_specs::ops::AddSpecImpl<Vec3<T>> for Vec3<T> {
    open spec fn obeys_add_spec() -> bool {
        T::obeys_add_spec()
    }

    open spec fn add_req(self, rhs: Vec3<T>) -> bool {
        self.x.add_req(rhs.x) && self.y.add_req(rhs.y) && self.z.add_req(rhs.z)
    }

    open spec fn add_spec(self, rhs: Vec3<T>) -> Vec3<T> {
        Vec3 { x: self.x.add_spec(rhs.x), y: self.y.add_spec(rhs.y), z: self.z.add_spec(rhs.z) }
    }
}

impl<T: Add<Output = T> + Copy> Add<Vec3<T>> for Vec3<T> {
    type Output = Vec3<T>;

    /// The sum of each component with the same component of `rhs`.
    fn add(self, rhs: Vec3<T>) -> (r: Vec3<T>) {
        Vec3 { x: self.x + rhs.x, y: self.y + rhs.y, z: self.z + rhs.z }
    }
}

impl<T: Add<Output = T> + Copy> AddAssign<T> for Vec3<T> {
    /// In-place form of the scalar sum.
    fn add_assign(&mut self, rhs: T)
        requires
            old(self).add_req(rhs),
        ensures
            T::obeys_add_spec() ==> *final(self) == old(self).add_spec(rhs),
    {
        self.x = self.x + rhs;
        self.y = self.y + rhs;
        self.z = self.z + rhs;
    }
}

impl<T: Add<Output = T> + Copy> AddAssign<Vec3<T>> for Vec3<T> {
    /// In-place form of the componentwise sum.
    fn add_assign(&mut self, rhs: Vec3<T>)
        requires
            old(self).add_req(rhs),
        ensures
            T::obeys_add_spec() ==> *final(self) == old(self).add_spec(rhs),
    {
        self.x = self.x + rhs.x;
        self.y = self.y + rhs.y;
        self.z = self.z + rhs.z;
    }
}

impl<T: Sub<Output = T> + Copy> vstd::std_specs::ops::SubSpecImpl<T> for Vec3<T> {
    open spec fn obeys_sub_spec() -> bool {
        T::obeys_sub_spec()
    }

    open spec fn sub_req(self, rhs: T) -> bool {
        self.x.sub_req(rhs) && self.y.sub_req(rhs) && self.z.sub_req(rhs)
    }

    open spec fn sub_spec(self, rhs: T) -> Vec3<T> {
        Vec3 { x: self.x.sub_spec(rhs), y: self.y.sub_spec(rhs), z: self.z.sub_spec(rhs) }
    }
}

impl<T: Sub<Output = T> + Copy> Sub<T> for Vec3<T> {
    type Output = Vec3<T>;

    /// The difference of each component with the scalar `rhs`.
    fn sub(self, rhs: T) -> (r: Vec3<T>) {
        Vec3 { x: self.x - rhs, y: self.y - rhs, z: self.z - rhs }
    }
}

impl<T: Sub<Output = T> + Copy> vstd::std_specs::ops::SubSpecImpl<Vec3<T>> for Vec3<T> {
    open spec fn obeys_sub_spec() -> bool {
        T::obeys_sub_spec()
    }

    open spec fn sub_req(self, rhs: Vec3<T>) -> bool {
        self.x.sub_req(rhs.x) && self.y.sub_req(rhs.y) && self.z.sub_req(rhs.z)
    }

    open spec fn sub_spec(self, rhs: Vec3<T>) -> Vec3<T> {
        Vec3 { x: self.x.sub_spec(rhs.x), y: self.y.sub_spec(rhs.y), z: self.z.sub_spec(rhs.z) }
    }
}

impl<T: Sub<Output = T> + Copy> Sub<Vec3<T>> for Vec3<T> {
    type Output = Vec3<T>;

    /// The difference of each component with the same component of `rhs`.
    fn sub(self, rhs: Vec3<T>) -> (r: Vec3<T>) {
        Vec3 { x: self.x - rhs.x, y: self.y - rhs.y, z: self.z - rhs.z }
    }
}

impl<T: Sub<Output = T> + Copy> SubAssign<T> for Vec3<T> {
    /// In-place form of the scalar difference.
    fn sub_assign(&mut self, rhs: T)
        requires
            old(self).sub_req(rhs),
        ensures
            T::obeys_sub_spec() ==> *final(self) == old(self).sub_spec(rhs),
    {
        self.x = self.x - rhs;
        self.y = self.y - rhs;
        self.z = self.z - rhs;
    }
}

impl<T: Sub<Output = T> + Copy> SubAssign<Vec3<T>> for Vec3<T> {
    /// In-place form of the componentwise difference.
    fn sub_assign(&mut self, rhs: Vec3<T>)
        requires
            old(self).sub_req(rhs),
        ensures
            T::obeys_sub_spec() ==> *final(self) == old(self).sub_spec(rhs),
    {
        self.x = self.x - rhs.x;
        self.y = self.y - rhs.y;
        self.z = self.z - rhs.z;
    }
}

impl<T: Mul<Output = T> + Copy> vstd::std_specs::ops::MulSpecImpl<T> for Vec3<T> {
    open spec fn obeys_mul_spec() -> bool {
        T::obeys_mul_spec()
    }

    open spec fn mul_req(self, rhs: T) -> bool {
        self.x.mul_req(rhs) && self.y.mul_req(rhs) && self.z.mul_req(rhs)
    }

    open spec fn mul_spec(self, rhs: T) -> Vec3<T> {
        Vec3 { x: self.x.mul_spec(rhs), y: self.y.mul_spec(rhs), z: self.z.mul_spec(rhs) }
    }
}

impl<T: Mul<Output = T> + Copy> Mul<T> for Vec3<T> {
    type Output = Vec3<T>;

    /// The product of each component with the scalar `rhs`.
    fn mul(self, rhs: T) -> (r: Vec3<T>) {
        Vec3 { x: self.x * rhs, y: self.y * rhs, z: self.z * rhs }
    }
}

impl<T: Mul<Output = T> + Copy> vstd::std_specs::ops::MulSpecImpl<Vec3<T>> for Vec3<T> {
    open spec fn obeys_mul_spec() -> bool {
        T::obeys_mul_spec()
    }

    open spec fn mul_req(self, rhs: Vec3<T>) -> bool {
        self.x.mul_req(rhs.x) && self.y.mul_req(rhs.y) && self.z.mul_req(rhs.z)
    }

    open spec fn mul_spec(self, rhs: Vec3<T>) -> Vec3<T> {
        Vec3 { x: self.x.mul_spec(rhs.x), y: self.y.mul_spec(rhs.y), z: self.z.mul_spec(rhs.z) }
    }
}

impl<T: Mul<Output = T> + Copy> Mul<Vec3<T>> for Vec3<T> {
    type Output = Vec3<T>;

    /// The product of each component with the same component of `rhs`.
    fn mul(self, rhs: Vec3<T>) -> (r: Vec3<T>) {
        Vec3 { x: self.x * rhs.x, y: self.y * rhs.y, z: self.z * rhs.z }
    }
}

impl<T: Mul<Output = T> + Copy> MulAssign<T> for Vec3<T> {
    /// In-place form of the scalar product.
    fn mul_assign(&mut self, rhs: T)
        requires
            old(self).mul_req(rhs),
        ensures
            T::obeys_mul_spec() ==> *final(self) == old(self).mul_spec(rhs),
    {
        self.x = self.x * rhs;
        self.y = self.y * rhs;
        self.z = self.z * rhs;
    }
}

impl<T: Mul<Output = T> + Copy> MulAssign<Vec3<T>> for Vec3<T> {
    /// In-place form of the componentwise product.
    fn mul_assign(&mut self, rhs: Vec3<T>)
        requires
            old(self).mul_req(rhs),
        ensures
            T::obeys_mul_spec() ==> *final(self) == old(self).mul_spec(rhs),
    {
        self.x = self.x * rhs.x;
        self.y = self.y * rhs.y;
        self.z = self.z * rhs.z;
    }
}

impl<T: Div<Output = T> + Copy> vstd::std_specs::ops::DivSpecImpl<T> for Vec3<T> {
    open spec fn obeys_div_spec() -> bool {
        T::obeys_div_spec()
    }

    open spec fn div_req(self, rhs: T) -> bool {
        self.x.div_req(rhs) && self.y.div_req(rhs) && self.z.div_req(rhs)
    }

    open spec fn div_spec(self, rhs: T) -> Vec3<T> {
        Vec3 { x: self.x.div_spec(rhs), y: self.y.div_spec(rhs), z: self.z.div_spec(rhs) }
    }
}

impl<T: Div<Output = T> + Copy> Div<T> for Vec3<T> {
    type Output = Vec3<T>;

    /// The quotient of each component with the scalar `rhs`.
    fn div(self, rhs: T) -> (r: Vec3<T>) {
        Vec3 { x: self.x / rhs, y: self.y / rhs, z: self.z / rhs }
    }
}

impl<T: Div<Output = T> + Copy> vstd::std_specs::ops::DivSpecImpl<Vec3<T>> for Vec3<T> {
    open spec fn obeys_div_spec() -> bool {
        T::obeys_div_spec()
    }

    open spec fn div_req(self, rhs: Vec3<T>) -> bool {
        self.x.div_req(rhs.x) && self.y.div_req(rhs.y) && self.z.div_req(rhs.z)
    }

    open spec fn div_spec(self, rhs: Vec3<T>) -> Vec3<T> {
        Vec3 { x: self.x.div_spec(rhs.x), y: self.y.div_spec(rhs.y), z: self.z.div_spec(rhs.z) }
    }
}

impl<T: Div<Output = T> + Copy> Div<Vec3<T>> for Vec3<T> {
    type Output = Vec3<T>;

    /// The quotient of each component with the same component of `rhs`.
    fn div(self, rhs: Vec3<T>) -> (r: Vec3<T>) {
        Vec3 { x: self.x / rhs.x, y: self.y / rhs.y, z: self.z / rhs.z }
    }
}

impl<T: Div<Output = T> + Copy> DivAssign<T> for Vec3<T> {
    /// In-place form of the scalar quotient.
    fn div_assign(&mut self, rhs: T)
        requires
            old(self).div_req(rhs),
        ensures
            T::obeys_div_spec() ==> *final(self) == old(self).div_spec(rhs),
    {
        self.x = self.x / rhs;
        self.y = self.y / rhs;
        self.z = self.z / rhs;
    }
}

impl<T: Div<Output = T> + Copy> DivAssign<Vec3<T>> for Vec3<T> {
    /// In-place form of the componentwise quotient.
    fn div_assign(&mut self, rhs: Vec3<T>)
        requires
            old(self).div_req(rhs),
        ensures
            T::obeys_div_spec() ==> *final(self) == old(self).div_spec(rhs),
    {
        self.x = self.x / rhs.x;
        self.y = self.y / rhs.y;
        self.z = self.z / rhs.z;
    }
}

impl<T: Add<Output = T> + Mul<Output = T> + Copy> Vec3<T> {
    /// Whether every product and sum of the dot product is defined.
    pub open spec fn dot_req(v1: Vec3<T>, v2: Vec3<T>) -> bool {
        &&& v1.x.mul_req(v2.x)
        &&& v1.y.mul_req(v2.y)
        &&& v1.z.mul_req(v2.z)
        &&& v1.x.mul_spec(v2.x).add_req(v1.y.mul_spec(v2.y))
        &&& v1.x.mul_spec(v2.x).add_spec(v1.y.mul_spec(v2.y)).add_req(v1.z.mul_spec(v2.z))
    }

    /// The dot product: the sum of the three componentwise products, added
    /// from left to right.
    pub open spec fn dot_spec(v1: Vec3<T>, v2: Vec3<T>) -> T {
        v1.x.mul_spec(v2.x).add_spec(v1.y.mul_spec(v2.y)).add_spec(v1.z.mul_spec(v2.z))
    }

    pub fn dot(v1: &Vec3<T>, v2: &Vec3<T>) -> (r: T)
        requires
            T::obeys_add_spec(),
            T::obeys_mul_spec(),
            Self::dot_req(*v1, *v2),
        ensures
            r == Self::dot_spec(*v1, *v2),
    {
        v1.x * v2.x + v1.y * v2.y + v1.z * v2.z
    }

    pub fn squared_length(&self) -> (r: T)
        requires
            T::obeys_add_spec(),
            T::obeys_mul_spec(),
            Self::dot_req(*self, *self),
        ensures
            r == Self::dot_spec(*self, *self),
    {
        self.x * self.x + self.y * self.y + self.z * self.z
    }
}

impl<T: Scalar> Vec3<T> {
    /// The length: the square root of the dot product of `self` with itself.
    pub open spec fn length_spec(self) -> T {
        Self::dot_spec(self, self).root()
    }

    pub fn length(&self) -> (r: T)
        requires
            T::obeys_add_spec(),
            T::obeys_mul_spec(),
            Self::dot_req(*self, *self),
        ensures
            r == self.length_spec(),
    {
        self.squared_length().sqrt()
    }

    /// `self` with each component divided by the length of `self`. Where the
    /// length is a scalar that nothing can be divided by, `requires` leaves
    /// the vector out.
    pub fn as_unit(&self) -> (r: Vec3<T>)
        requires
            T::obeys_add_spec(),
            T::obeys_mul_spec(),
            T::obeys_div_spec(),
            Self::dot_req(*self, *self),
            self.div_req(self.length_spec()),
        ensures
            r == self.div_spec(self.length_spec()),
    {
        *self / self.length()
    }
}

} // verus!
