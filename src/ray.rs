//! Rays and the records of their intersections with surfaces.
use vstd::prelude::*;

use crate::material::Material;
use crate::scalar::{mul_spec, Real, RAW_MAX};
use crate::vector::{add3, dot_spec, lemma_mul_neg_left, neg3, scale3, Vector3, V3};

verus! {

/// A half-line `origin + t * direction`; the direction need not be a unit vector.
#[derive(Clone, Copy, Debug, PartialEq, Eq, Structural)]
pub struct Ray {
    pub origin: Vector3,
    pub direction: Vector3,
}

pub open spec fn at_spec(ray: Ray, t: int) -> V3 {
    add3(ray.origin@, scale3(ray.direction@, t))
}

impl Ray {
    /// The degenerate ray at the origin with zero direction.
    pub fn new() -> (r: Ray)
        ensures
            r.origin@ == (0int, 0int, 0int),
            r.direction@ == (0int, 0int, 0int),
    {
        Ray { origin: Vector3::zero(), direction: Vector3::zero() }
    }

    pub fn of(origin: Vector3, direction: Vector3) -> (r: Ray)
        ensures
            r.origin == origin,
            r.direction == direction,
    {
        Ray { origin, direction }
    }

    pub fn origin(&self) -> (r: &Vector3)
        ensures
            *r == self.origin,
    {
        &self.origin
    }

    pub fn direction(&self) -> (r: &Vector3)
        ensures
            *r == self.direction,
    {
        &self.direction
    }

    /// The point `origin + t * direction`.
    pub fn at(&self, t: Real) -> (r: Vector3)
        ensures
            r@ == at_spec(*self, t@),
    {
        self.origin.add(self.direction.scale(t))
    }
}

/// Every component within `[-RAW_MAX, RAW_MAX]`, as every computed value is.
pub open spec fn in_range3(v: V3) -> bool {
    &&& -RAW_MAX <= v.0 <= RAW_MAX
    &&& -RAW_MAX <= v.1 <= RAW_MAX
    &&& -RAW_MAX <= v.2 <= RAW_MAX
}

/// The side convention: `front_face` holds exactly when the outward normal
/// opposes the ray, and the stored normal is the outward one turned to face
/// the ray.
pub open spec fn faces(front_face: bool, normal: V3, ray: Ray, outward: V3) -> bool {
    &&& front_face == (dot_spec(ray.direction@, outward) < 0)
    &&& normal == (if front_face {
        outward
    } else {
        neg3(outward)
    })
}

/// Negating the second vector negates a dot product.
pub proof fn lemma_dot_neg_right(d: V3, n: V3)
    requires
        in_range3(n),
    ensures
        dot_spec(d, neg3(n)) == -dot_spec(d, n),
{
    assert(neg3(n) == (-n.0, -n.1, -n.2));
    assert(d.0 * (-n.0) == -(d.0 * n.0)) by (nonlinear_arith);
    assert(d.1 * (-n.1) == -(d.1 * n.1)) by (nonlinear_arith);
    assert(d.2 * (-n.2) == -(d.2 * n.2)) by (nonlinear_arith);
    assert(mul_spec(d.0, -n.0) == -mul_spec(d.0, n.0)) by {
        lemma_mul_neg_left(n.0, d.0);
        assert(n.0 * d.0 == d.0 * n.0) by (nonlinear_arith);
        assert((-n.0) * d.0 == d.0 * (-n.0)) by (nonlinear_arith);
    }
    assert(mul_spec(d.1, -n.1) == -mul_spec(d.1, n.1)) by {
        lemma_mul_neg_left(n.1, d.1);
        assert(n.1 * d.1 == d.1 * n.1) by (nonlinear_arith);
        assert((-n.1) * d.1 == d.1 * (-n.1)) by (nonlinear_arith);
    }
    assert(mul_spec(d.2, -n.2) == -mul_spec(d.2, n.2)) by {
        lemma_mul_neg_left(n.2, d.2);
        assert(n.2 * d.2 == d.2 * n.2) by (nonlinear_arith);
        assert((-n.2) * d.2 == d.2 * (-n.2)) by (nonlinear_arith);
    }
}

/// The stored normal never points along the ray.
pub proof fn lemma_faces_against_ray(front_face: bool, normal: V3, ray: Ray, outward: V3)
    requires
        faces(front_face, normal, ray, outward),
        in_range3(outward),
    ensures
        dot_spec(ray.direction@, normal) <= 0,
{
    if !front_face {
        lemma_dot_neg_right(ray.direction@, outward);
    }
}

/// Something a ray can meet.
pub trait Hit {
    /// `r` is an answer of `hit` for `ray` within the open interval `(lo, hi)`.
    spec fn hit_spec(&self, ray: Ray, lo: int, hi: int, r: Option<RayHit>) -> bool;

    /// Where `ray` meets `self` strictly between `range.0` and `range.1`, if it does.
    fn hit(&self, ray: &Ray, range: (Real, Real)) -> (r: Option<RayHit>)
        ensures
            self.hit_spec(*ray, range.0@, range.1@, r),
    ;
}

/// The intersection of a ray with a surface.
#[derive(Clone, Copy, Debug)]
pub struct RayHit {
    pub point: Vector3,
    /// Unit-length in exact arithmetic; always faces the incoming ray.
    pub normal: Vector3,
    pub t: Real,
    pub front_face: bool,
    pub material: Material,
}

impl RayHit {
    /// Sets `front_face` and `normal` from the surface's outward normal.
    pub fn set_face_normal(&mut self, ray: &Ray, outward_normal: Vector3)
        ensures
            faces(final(self).front_face, final(self).normal@, *ray, outward_normal@),
            dot_spec(ray.direction@, final(self).normal@) <= 0,
            final(self).point == old(self).point,
            final(self).t == old(self).t,
            final(self).material == old(self).material,
    {
        self.front_face = Vector3::dot(&ray.direction, &outward_normal).raw < 0;
        self.normal = if self.front_face {
            outward_normal
        } else {
            outward_normal.neg()
        };
        proof {
            use_type_invariant(&outward_normal.x);
            use_type_invariant(&outward_normal.y);
            use_type_invariant(&outward_normal.z);
            lemma_faces_against_ray(self.front_face, self.normal@, *ray, outward_normal@);
        }
    }
}

} // verus!
