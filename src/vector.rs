//! Three-component vectors, used as points, directions and linear colors.
use vstd::prelude::*;

use crate::scalar::{
    abs_int, add_spec, clip, div_spec, max_spec, min_spec, mul_spec, neg_spec, sqrt_spec,
    sub_spec, lemma_mul_one, lemma_mul_zero, Real, ONE_RAW,
};

verus! {

/// The mathematical value of a vector: its three raw components.
pub type V3 = (int, int, int);

/// Raw threshold under which a component counts as zero (about `1e-8`).
pub const NEAR_ZERO_RAW: i64 = 43;

/// A vector in its role as a linear color.
pub type Color = Vector3;

#[derive(Clone, Copy, Debug, PartialEq, Eq, Structural)]
pub struct Vector3 {
    pub x: Real,
    pub y: Real,
    pub z: Real,
}

impl View for Vector3 {
    type V = V3;

    open spec fn view(&self) -> V3 {
        (self.x@, self.y@, self.z@)
    }
}

/// The vector whose components are the given raw values.
pub open(crate) spec fn vec_of(v: V3) -> Vector3 {
    Vector3 { x: Real { raw: v.0 as i64 }, y: Real { raw: v.1 as i64 }, z: Real { raw: v.2 as i64 } }
}

pub open spec fn v3(x: int, y: int, z: int) -> V3 {
    (x, y, z)
}

pub open spec fn add3(a: V3, b: V3) -> V3 {
    (add_spec(a.0, b.0), add_spec(a.1, b.1), add_spec(a.2, b.2))
}

pub open spec fn sub3(a: V3, b: V3) -> V3 {
    (sub_spec(a.0, b.0), sub_spec(a.1, b.1), sub_spec(a.2, b.2))
}

pub open spec fn neg3(a: V3) -> V3 {
    (neg_spec(a.0), neg_spec(a.1), neg_spec(a.2))
}

/// Component-wise product.
pub open spec fn mul3(a: V3, b: V3) -> V3 {
    (mul_spec(a.0, b.0), mul_spec(a.1, b.1), mul_spec(a.2, b.2))
}

/// Product with a scalar.
pub open spec fn scale3(a: V3, k: int) -> V3 {
    (mul_spec(k, a.0), mul_spec(k, a.1), mul_spec(k, a.2))
}

/// Quotient by a scalar.
pub open spec fn div3(a: V3, k: int) -> V3 {
    (div_spec(a.0, k), div_spec(a.1, k), div_spec(a.2, k))
}

pub open spec fn dot_spec(a: V3, b: V3) -> int {
    add_spec(add_spec(mul_spec(a.0, b.0), mul_spec(a.1, b.1)), mul_spec(a.2, b.2))
}

pub open spec fn cross_spec(a: V3, b: V3) -> V3 {
    (
        sub_spec(mul_spec(a.1, b.2), mul_spec(a.2, b.1)),
        sub_spec(mul_spec(a.2, b.0), mul_spec(a.0, b.2)),
        sub_spec(mul_spec(a.0, b.1), mul_spec(a.1, b.0)),
    )
}

pub open spec fn magnitude_squared_spec(a: V3) -> int {
    dot_spec(a, a)
}

pub open spec fn magnitude_spec(a: V3) -> int {
    sqrt_spec(magnitude_squared_spec(a))
}

pub open spec fn normalize_spec(a: V3) -> V3 {
    div3(a, magnitude_spec(a))
}

/// `(1 - t) * a + t * b`.
pub open spec fn lerp_spec(a: V3, b: V3, t: int) -> V3 {
    add3(scale3(a, sub_spec(ONE_RAW as int, t)), scale3(b, t))
}

pub open spec fn near_zero_spec(a: V3) -> bool {
    abs_int(a.0) < NEAR_ZERO_RAW && abs_int(a.1) < NEAR_ZERO_RAW && abs_int(a.2) < NEAR_ZERO_RAW
}

pub open spec fn clamp_spec(v: int, lo: int, hi: int) -> int {
    max_spec(lo, min_spec(v, hi))
}

pub open spec fn clamp3(a: V3, lo: int, hi: int) -> V3 {
    (clamp_spec(a.0, lo, hi), clamp_spec(a.1, lo, hi), clamp_spec(a.2, lo, hi))
}

pub open spec fn sqrt3(a: V3) -> V3 {
    (sqrt_spec(a.0), sqrt_spec(a.1), sqrt_spec(a.2))
}

/// `v - 2 * dot(v, n) * n`.
pub open spec fn reflect_spec(v: V3, n: V3) -> V3 {
    sub3(v, scale3(n, mul_spec(2 * ONE_RAW, dot_spec(v, n))))
}

/// Snell's law in vector form: the part of the refracted direction
/// perpendicular to `n` plus the part along `-n`.
pub open spec fn refract_spec(v: V3, n: V3, eta: int) -> V3 {
    let cos_theta = min_spec(dot_spec(neg3(v), n), ONE_RAW as int);
    let perpendicular = scale3(add3(v, scale3(n, cos_theta)), eta);
    let along = neg_spec(
        sqrt_spec(clip(abs_int(sub_spec(ONE_RAW as int, magnitude_squared_spec(perpendicular))))),
    );
    add3(perpendicular, scale3(n, along))
}

/// Negating one factor negates a product.
pub proof fn lemma_mul_neg_left(a: int, b: int)
    ensures
        mul_spec(-a, b) == -mul_spec(a, b),
{
    assert((-a) * b == -(a * b)) by (nonlinear_arith);
}

/// Negating a vector negates its dot product with any other.
pub proof fn lemma_dot_neg(v: V3, n: V3)
    ensures
        dot_spec(
            (-v.0, -v.1, -v.2),
            n,
        ) == -dot_spec(v, n),
{
    lemma_mul_neg_left(v.0, n.0);
    lemma_mul_neg_left(v.1, n.1);
    lemma_mul_neg_left(v.2, n.2);
}

/// Negating a vector keeps its squared magnitude.
pub proof fn lemma_magnitude_squared_neg(v: V3)
    ensures
        magnitude_squared_spec((-v.0, -v.1, -v.2)) == magnitude_squared_spec(v),
{
    assert((-v.0) * (-v.0) == v.0 * v.0) by (nonlinear_arith);
    assert((-v.1) * (-v.1) == v.1 * v.1) by (nonlinear_arith);
    assert((-v.2) * (-v.2) == v.2 * v.2) by (nonlinear_arith);
}

impl Vector3 {
    pub fn new(x: Real, y: Real, z: Real) -> (r: Vector3)
        ensures
            r@ == v3(x@, y@, z@),
    {
        Vector3 { x, y, z }
    }

    pub fn zero() -> (r: Vector3)
        ensures
            r@ == v3(0, 0, 0),
    {
        Vector3::new(Real::zero(), Real::zero(), Real::zero())
    }

    pub fn ones() -> (r: Vector3)
        ensures
            r@ == v3(ONE_RAW as int, ONE_RAW as int, ONE_RAW as int),
    {
        Vector3::new(Real::one(), Real::one(), Real::one())
    }

    pub fn white() -> (r: Color)
        ensures
            r@ == v3(ONE_RAW as int, ONE_RAW as int, ONE_RAW as int),
    {
        Vector3::ones()
    }

    pub fn black() -> (r: Color)
        ensures
            r@ == v3(0, 0, 0),
    {
        Vector3::zero()
    }

    pub fn up() -> (r: Vector3)
        ensures
            r@ == v3(0, ONE_RAW as int, 0),
    {
        Vector3::new(Real::zero(), Real::one(), Real::zero())
    }

    pub fn x(&self) -> (r: Real)
        ensures
            r == self.x,
    {
        self.x
    }

    pub fn y(&self) -> (r: Real)
        ensures
            r == self.y,
    {
        self.y
    }

    pub fn z(&self) -> (r: Real)
        ensures
            r == self.z,
    {
        self.z
    }

    pub fn to_array(&self) -> (r: [Real; 3])
        ensures
            r@ == seq![self.x, self.y, self.z],
    {
        let r = [self.x, self.y, self.z];
        assert(r@ =~= seq![self.x, self.y, self.z]);
        r
    }

    pub fn add(self, other: Vector3) -> (r: Vector3)
        ensures
            r@ == add3(self@, other@),
    {
        Vector3::new(self.x.add(other.x), self.y.add(other.y), self.z.add(other.z))
    }

    pub fn sub(self, other: Vector3) -> (r: Vector3)
        ensures
            r@ == sub3(self@, other@),
    {
        Vector3::new(self.x.sub(other.x), self.y.sub(other.y), self.z.sub(other.z))
    }

    pub fn neg(self) -> (r: Vector3)
        ensures
            r@ == neg3(self@),
    {
        Vector3::new(self.x.neg(), self.y.neg(), self.z.neg())
    }

    /// Component-wise product.
    pub fn mul(self, other: Vector3) -> (r: Vector3)
        ensures
            r@ == mul3(self@, other@),
    {
        Vector3::new(self.x.mul(other.x), self.y.mul(other.y), self.z.mul(other.z))
    }

    pub fn scale(self, k: Real) -> (r: Vector3)
        ensures
            r@ == scale3(self@, k@),
    {
        Vector3::new(k.mul(self.x), k.mul(self.y), k.mul(self.z))
    }

    pub fn div(self, k: Real) -> (r: Vector3)
        requires
            k@ != 0,
        ensures
            r@ == div3(self@, k@),
    {
        Vector3::new(self.x.div(k), self.y.div(k), self.z.div(k))
    }

    pub fn add_assign(&mut self, other: Vector3)
        ensures
            final(self)@ == add3(old(self)@, other@),
    {
        *self = self.add(other);
    }

    pub fn mul_assign(&mut self, k: Real)
        ensures
            final(self)@ == scale3(old(self)@, k@),
    {
        *self = self.scale(k);
    }

    pub fn div_assign(&mut self, k: Real)
        requires
            k@ != 0,
        ensures
            final(self)@ == div3(old(self)@, k@),
    {
        *self = self.div(k);
    }

    pub fn dot(lhs: &Vector3, rhs: &Vector3) -> (r: Real)
        ensures
            r@ == dot_spec(lhs@, rhs@),
    {
        lhs.x.mul(rhs.x).add(lhs.y.mul(rhs.y)).add(lhs.z.mul(rhs.z))
    }

    pub fn cross(lhs: &Vector3, rhs: &Vector3) -> (r: Vector3)
        ensures
            r@ == cross_spec(lhs@, rhs@),
    {
        Vector3::new(
            lhs.y.mul(rhs.z).sub(lhs.z.mul(rhs.y)),
            lhs.z.mul(rhs.x).sub(lhs.x.mul(rhs.z)),
            lhs.x.mul(rhs.y).sub(lhs.y.mul(rhs.x)),
        )
    }

    /// `(1 - factor) * lhs + factor * rhs`.
    pub fn lerp(lhs: &Vector3, rhs: &Vector3, factor: Real) -> (r: Vector3)
        ensures
            r@ == lerp_spec(lhs@, rhs@, factor@),
            factor@ == 0 ==> r == *lhs,
            factor@ == ONE_RAW ==> r == *rhs,
    {
        proof {
            use_type_invariant(&lhs.x);
            use_type_invariant(&lhs.y);
            use_type_invariant(&lhs.z);
            use_type_invariant(&rhs.x);
            use_type_invariant(&rhs.y);
            use_type_invariant(&rhs.z);
            lemma_mul_one(lhs.x@);
            lemma_mul_one(lhs.y@);
            lemma_mul_one(lhs.z@);
            lemma_mul_one(rhs.x@);
            lemma_mul_one(rhs.y@);
            lemma_mul_one(rhs.z@);
        }
        let r = lhs.scale(Real::one().sub(factor)).add(rhs.scale(factor));
        proof {
            if factor@ == 0 {
                lemma_mul_zero(rhs.x@);
                lemma_mul_zero(rhs.y@);
                lemma_mul_zero(rhs.z@);
                assert(scale3(rhs@, 0) == (0int, 0int, 0int));
                assert(r@ == lhs@);
                assert(r.x == lhs.x && r.y == lhs.y && r.z == lhs.z);
            }
            if factor@ == ONE_RAW {
                lemma_mul_zero(lhs.x@);
                lemma_mul_zero(lhs.y@);
                lemma_mul_zero(lhs.z@);
                assert(scale3(lhs@, 0) == (0int, 0int, 0int));
                assert(r@ == rhs@);
                assert(r.x == rhs.x && r.y == rhs.y && r.z == rhs.z);
            }
        }
        r
    }

    pub fn magnitude_squared(&self) -> (r: Real)
        ensures
            r@ == magnitude_squared_spec(self@),
    {
        Vector3::dot(self, self)
    }

    pub fn magnitude(&self) -> (r: Real)
        ensures
            r@ == magnitude_spec(self@),
            r@ >= 0,
    {
        self.magnitude_squared().sqrt()
    }

    /// The vector divided by its magnitude, which must not be zero.
    pub fn normalize(&self) -> (r: Vector3)
        requires
            magnitude_spec(self@) != 0,
        ensures
            r@ == normalize_spec(self@),
    {
        self.div(self.magnitude())
    }

    pub fn is_near_zero(&self) -> (r: bool)
        ensures
            r == near_zero_spec(self@),
    {
        let eps = Real::from_raw(NEAR_ZERO_RAW);
        let (ax, ay, az) = (self.x.abs(), self.y.abs(), self.z.abs());
        ax.lt(eps) && ay.lt(eps) && az.lt(eps)
    }

    /// Each component restricted to `[min, max]`.
    pub fn clamp_each(&self, min: Real, max: Real) -> (r: Vector3)
        requires
            min@ <= max@,
        ensures
            r@ == clamp3(self@, min@, max@),
    {
        Vector3::new(self.x.clamp(min, max), self.y.clamp(min, max), self.z.clamp(min, max))
    }

    /// Component-wise square root; negative components give zero.
    pub fn sqrt(&self) -> (r: Vector3)
        ensures
            r@ == sqrt3(self@),
    {
        Vector3::new(self.x.sqrt(), self.y.sqrt(), self.z.sqrt())
    }

    /// Mirror image of `self` about the plane with normal `normal`.
    pub fn reflect(&self, normal: &Vector3) -> (r: Vector3)
        ensures
            r@ == reflect_spec(self@, normal@),
    {
        let two = Real::from_int(2);
        self.sub(normal.scale(two.mul(Vector3::dot(self, normal))))
    }

    /// Refraction of the unit direction `self` through a surface with unit
    /// normal `normal`, for the ratio `eta_ratio` of refraction indices.
    pub fn refract(&self, normal: &Vector3, eta_ratio: Real) -> (r: Vector3)
        ensures
            r@ == refract_spec(self@, normal@, eta_ratio@),
    {
        let cos_theta = Vector3::dot(&self.neg(), normal).min(Real::one());
        let perpendicular = self.add(normal.scale(cos_theta)).scale(eta_ratio);
        let along = Real::one().sub(perpendicular.magnitude_squared()).abs().sqrt().neg();
        perpendicular.add(normal.scale(along))
    }
}

} // verus!
