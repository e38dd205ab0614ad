use vstd::prelude::*;
use vstd::std_specs::ops::{AddSpec, DivSpec, MulSpec, SubSpec};
use crate::vec3::Vec3;

verus! {

/// Taking away what was added gives the number back, and the subtraction is
/// defined wherever the addition was.
pub proof fn lemma_scalar_add_sub(a: i64, b: i64)
    requires
        a.add_req(b),
    ensures
        a.add_spec(b).sub_req(b),
        a.add_spec(b).sub_spec(b) == a,
{
}

/// Dividing a product by the factor that made it gives the number back, and
/// the division is defined wherever the product was and the factor is not zero.
pub proof fn lemma_scalar_mul_div(a: i64, s: i64)
    requires
        a.mul_req(s),
        s != 0,
    ensures
        a.mul_spec(s).div_req(s),
        a.mul_spec(s).div_spec(s) == a,
{
    let p: int = a * s;
    assert(p == a.mul_spec(s));
    if s == -1 {
        assert(p == -a) by (nonlinear_arith)
            requires
                p == a * s,
                s == -1,
        ;
    }
    if p >= 0 {
        assert(p / (s as int) == a) by (nonlinear_arith)
            requires
                p == a * s,
                s != 0,
        ;
    } else {
        assert((-p) / (s as int) == -a) by (nonlinear_arith)
            requires
                p == a * s,
                s != 0,
        ;
    }
}

/// `(a + b) - b == a` for vectors of whole numbers, wherever `a + b` is
/// defined.
pub proof fn lemma_add_sub_cancel(a: Vec3<i64>, b: Vec3<i64>)
    requires
        a.add_req(b),
    ensures
        a.add_spec(b).sub_req(b),
        a.add_spec(b).sub_spec(b) == a,
{
    lemma_scalar_add_sub(a.x, b.x);
    lemma_scalar_add_sub(a.y, b.y);
    lemma_scalar_add_sub(a.z, b.z);
}

/// `a * s / s == a` for a vector of whole numbers and a scalar `s != 0`,
/// wherever `a * s` is defined.
pub proof fn lemma_mul_div_cancel(a: Vec3<i64>, s: i64)
    requires
        a.mul_req(s),
        s != 0,
    ensures
        a.mul_spec(s).div_req(s),
        a.mul_spec(s).div_spec(s) == a,
{
    lemma_scalar_mul_div(a.x, s);
    lemma_scalar_mul_div(a.y, s);
    lemma_scalar_mul_div(a.z, s);
}

} // verus!
