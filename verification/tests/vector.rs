use raytrace::vec3::Vec3;
use std::ops::{AddAssign, DivAssign, MulAssign, SubAssign};

#[test]
fn creator() {
    let result = Vec3::new(1, 2, 3);
    assert_eq!(result, Vec3 { x: 1, y: 2, z: 3 });
}

#[test]
fn get_val() {
    let vec = Vec3::new(1, 2, 3);
    assert_eq!(vec[2], 3, "not mutable");
    let mut vec = Vec3::new(1, 2, 3);
    vec[2] = 89;
    assert_eq!(vec[2], 89, "matable");
}

#[test]
fn mul() {
    let mut vec = Vec3::new(1, 2, 3);
    vec *= 3;
    assert_eq!(vec, Vec3 { x: 3, y: 6, z: 9 }, "*= 3");
    let vec2 = vec * 3;
    assert_eq!(vec2, Vec3 { x: 9, y: 18, z: 27 }, "vec * 3");
    let mut vec3 = vec.clone();
    vec3 *= vec2;
    assert_eq!(vec3, Vec3 { x: 27, y: 108, z: 243 }, "*= vec2");
    let vec3 = vec * vec2;
    assert_eq!(vec3, Vec3 { x: 27, y: 108, z: 243 }, "vec * vec2");
}

#[test]
fn index_reads_each_component_in_order() {
    let v = Vec3::new(7, 8, 9);
    assert_eq!(v[0], 7);
    assert_eq!(v[1], 8);
    assert_eq!(v[2], 9);
    assert_eq!((v.x, v.y, v.z), (7, 8, 9));
}

#[test]
fn index_mut_changes_one_component_only() {
    let mut v = Vec3::new(7, 8, 9);
    v[0] = 1;
    assert_eq!(v, Vec3::new(1, 8, 9));
    v[1] = 2;
    assert_eq!(v, Vec3::new(1, 2, 9));
}

#[test]
fn add_with_scalar_and_vector() {
    let v = Vec3::new(1, 2, 3);
    assert_eq!(v + 10, Vec3::new(11, 12, 13));
    assert_eq!(v + Vec3::new(10, 20, 30), Vec3::new(11, 22, 33));
    let mut w = v;
    w += 1;
    assert_eq!(w, Vec3::new(2, 3, 4));
    w.add_assign(Vec3::new(1, 0, 1));
    assert_eq!(w, Vec3::new(3, 3, 5));
}

#[test]
fn sub_with_scalar_and_vector() {
    let v = Vec3::new(10, 20, 30);
    assert_eq!(v - 1, Vec3::new(9, 19, 29));
    assert_eq!(v - Vec3::new(1, 2, 3), Vec3::new(9, 18, 27));
    let mut w = v;
    w -= 10;
    assert_eq!(w, Vec3::new(0, 10, 20));
    w.sub_assign(Vec3::new(0, 10, 20));
    assert_eq!(w, Vec3::new(0, 0, 0));
}

#[test]
fn div_with_scalar_and_vector() {
    let v = Vec3::new(10, 20, 31);
    assert_eq!(v / 10, Vec3::new(1, 2, 3));
    assert_eq!(v / Vec3::new(5, 4, 31), Vec3::new(2, 5, 1));
    let mut w = v;
    w /= 2;
    assert_eq!(w, Vec3::new(5, 10, 15));
    w.div_assign(Vec3::new(5, 10, 15));
    assert_eq!(w, Vec3::new(1, 1, 1));
}

#[test]
fn mul_assign_by_method() {
    let mut w = Vec3::new(1, -2, 3);
    w.mul_assign(-2);
    assert_eq!(w, Vec3::new(-2, 4, -6));
}

#[test]
fn add_then_sub_gives_back_the_vector() {
    let a = Vec3::new(5i64, -7, 11);
    let b = Vec3::new(-3i64, 4, 100);
    assert_eq!((a + b) - b, a);
}

#[test]
fn mul_then_div_by_a_scalar_gives_back_the_vector() {
    let a = Vec3::new(5i64, -7, 11);
    assert_eq!(a * 3 / 3, a);
    assert_eq!(a * -4 / -4, a);
}

#[test]
fn dot_is_the_sum_of_products() {
    let a = Vec3::new(1i64, 2, 3);
    let b = Vec3::new(4i64, -5, 6);
    assert_eq!(Vec3::dot(&a, &b), 12);
    assert_eq!(Vec3::dot(&a, &a), a.squared_length());
    assert_eq!(a.squared_length(), 14);
}

#[test]
fn length_and_unit_on_whole_numbers() {
    let v = Vec3::new(0i64, 3, -4);
    assert_eq!(v.length(), 5);
    assert_eq!(Vec3::new(2i64, 3, 6).length(), 7);
    assert_eq!(Vec3::new(1i64, 1, 1).length(), 1);
    assert_eq!(Vec3::new(0i64, -10, 0).as_unit(), Vec3::new(0, -1, 0));
}
