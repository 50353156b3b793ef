//! Spheres, the one kind of primitive, and their intersection with rays.
use vstd::prelude::*;

use crate::material::Material;
use crate::ray::{at_spec, faces, in_range3, Hit, Ray, RayHit};
use crate::scalar::{
    add_spec, div_spec, lemma_div_spec_monotone, lemma_tdiv_error, mul_spec, neg_spec, sqrt_spec,
    sub_spec, tdiv, Real, ONE_RAW, RAW_MAX,
};
use crate::vector::{div3, dot_spec, magnitude_squared_spec, sub3, Vector3, V3};

verus! {

/// A sphere; a negative radius turns its normals inward, which models a
/// hollow shell.
#[derive(Clone, Copy, Debug, PartialEq, Eq, Structural)]
pub struct Sphere {
    pub center: Vector3,
    pub radius: Real,
    pub material: Material,
}

/// The terms of the quadratic `a t^2 + 2 half_b t + c` whose roots are
/// where `ray` meets the sphere of `center` and `radius`.
pub open spec fn quadratic_of(center: V3, radius: int, ray: Ray) -> (int, int, int) {
    let oc = sub3(ray.origin@, center);
    let a = magnitude_squared_spec(ray.direction@);
    let half_b = dot_spec(ray.direction@, oc);
    let c = sub_spec(magnitude_squared_spec(oc), mul_spec(radius, radius));
    (a, half_b, c)
}

pub open spec fn discriminant_of(center: V3, radius: int, ray: Ray) -> int {
    let (a, half_b, c) = quadratic_of(center, radius, ray);
    sub_spec(mul_spec(half_b, half_b), mul_spec(a, c))
}

/// The smaller and the larger root, or `None` where the ray misses the
/// sphere, has no direction, or the sphere has no radius.
pub open spec fn roots_of(center: V3, radius: int, ray: Ray) -> Option<(int, int)> {
    let (a, half_b, c) = quadratic_of(center, radius, ray);
    let d = discriminant_of(center, radius, ray);
    if a <= 0 || radius == 0 || d < 0 {
        None
    } else {
        let sq = sqrt_spec(d);
        Some(
            (
                div_spec(sub_spec(neg_spec(half_b), sq), a),
                div_spec(add_spec(neg_spec(half_b), sq), a),
            ),
        )
    }
}

pub open spec fn quadratic(s: Sphere, ray: Ray) -> (int, int, int) {
    quadratic_of(s.center@, s.radius@, ray)
}

pub open spec fn discriminant(s: Sphere, ray: Ray) -> int {
    discriminant_of(s.center@, s.radius@, ray)
}

#[verifier::opaque]
pub open spec fn sphere_roots(s: Sphere, ray: Ray) -> Option<(int, int)> {
    roots_of(s.center@, s.radius@, ray)
}

/// The root that the sphere reports for `(lo, hi)`: the smaller one if it
/// lies there, else the larger one if it does.
pub open spec fn sphere_root(s: Sphere, ray: Ray, lo: int, hi: int) -> Option<int> {
    match sphere_roots(s, ray) {
        None => None,
        Some((r1, r2)) => if lo < r1 < hi {
            Some(r1)
        } else if lo < r2 < hi {
            Some(r2)
        } else {
            None
        },
    }
}

/// `(hit point - center) / radius`.
pub open spec fn outward_normal_spec(s: Sphere, ray: Ray, t: int) -> V3 {
    div3(sub3(at_spec(ray, t), s.center@), s.radius@)
}

/// `h` records the intersection of `ray` with `s` at parameter `t`.
#[verifier::opaque]
pub open spec fn is_record(s: Sphere, ray: Ray, t: int, h: RayHit) -> bool {
    &&& h.t@ == t
    &&& h.point@ == at_spec(ray, t)
    &&& h.material == s.material
    &&& faces(h.front_face, h.normal@, ray, outward_normal_spec(s, ray, t))
}

/// The smaller root never exceeds the larger.
pub proof fn lemma_roots_ordered(s: Sphere, ray: Ray)
    ensures
        match sphere_roots(s, ray) {
            Some((r1, r2)) => r1 <= r2,
            None => true,
        },
{
    reveal(sphere_roots);
    let (a, half_b, c) = quadratic(s, ray);
    if sphere_roots(s, ray) is Some {
        let sq = sqrt_spec(discriminant(s, ray));
        lemma_div_spec_monotone(
            sub_spec(neg_spec(half_b), sq),
            add_spec(neg_spec(half_b), sq),
            a,
        );
    }
}

/// The two roots lie symmetrically about the parameter of closest approach
/// `-half_b / a`, up to the truncation of the three quotients: the gaps on
/// either side differ by at most three units of the last place. This holds
/// where nothing saturates.
pub proof fn lemma_roots_symmetric(s: Sphere, ray: Ray)
    requires
        sphere_roots(s, ray) is Some,
        ({
            let (a, half_b, c) = quadratic(s, ray);
            let sq = sqrt_spec(discriminant(s, ray));
            let x = neg_spec(half_b);
            &&& -RAW_MAX <= x - sq
            &&& x + sq <= RAW_MAX
            &&& -RAW_MAX <= tdiv((x - sq) * ONE_RAW, a) <= RAW_MAX
            &&& -RAW_MAX <= tdiv((x + sq) * ONE_RAW, a) <= RAW_MAX
            &&& -RAW_MAX <= tdiv(x * ONE_RAW, a) <= RAW_MAX
        }),
    ensures
        ({
            let (a, half_b, c) = quadratic(s, ray);
            let closest = div_spec(neg_spec(half_b), a);
            let (r1, r2) = sphere_roots(s, ray)->0;
            -3 <= (closest - r1) - (r2 - closest) <= 3
        }),
{
    reveal(sphere_roots);
    let (a, half_b, c) = quadratic(s, ray);
    let sq = sqrt_spec(discriminant(s, ray));
    let x = neg_spec(half_b);
    let y0 = x * ONE_RAW;
    let y1 = (x - sq) * ONE_RAW;
    let y2 = (x + sq) * ONE_RAW;
    let t0 = tdiv(y0, a);
    let r1 = tdiv(y1, a);
    let r2 = tdiv(y2, a);
    lemma_tdiv_error(y0, a);
    lemma_tdiv_error(y1, a);
    lemma_tdiv_error(y2, a);
    assert(2 * y0 == y1 + y2) by (nonlinear_arith)
        requires
            y0 == x * ONE_RAW,
            y1 == (x - sq) * ONE_RAW,
            y2 == (x + sq) * ONE_RAW,
    ;
    let k = 2 * t0 - r1 - r2;
    assert(a * k == 2 * (a * t0) - a * r1 - a * r2) by (nonlinear_arith)
        requires
            k == 2 * t0 - r1 - r2,
    ;
    assert(-4 * a < a * k < 4 * a);
    assert(-4 < k < 4) by (nonlinear_arith)
        requires
            a > 0,
            -4 * a < a * k < 4 * a,
    ;
}

/// Searching below a smaller bound finds the same root if it lies below
/// that bound, and none otherwise.
pub proof fn lemma_root_narrowed(s: Sphere, ray: Ray, lo: int, hi: int, bound: int)
    requires
        bound <= hi,
    ensures
        sphere_root(s, ray, lo, bound) == (match sphere_root(s, ray, lo, hi) {
            Some(t) => if t < bound {
                Some(t)
            } else {
                None
            },
            None => None,
        }),
{
    lemma_roots_ordered(s, ray);
}

/// The smaller root of the ray-sphere quadratic, or `-1` where there is
/// none.
pub fn hit_sphere(center: Vector3, radius: Real, ray: &Ray) -> (r: Real)
    ensures
        r@ == match roots_of(center@, radius@, *ray) {
            Some((r1, r2)) => r1,
            None => -ONE_RAW,
        },
{
    let origin_distance = ray.origin.sub(center);
    let a = ray.direction.magnitude_squared();
    let half_b = Vector3::dot(&ray.direction, &origin_distance);
    let c = origin_distance.magnitude_squared().sub(radius.mul(radius));
    let discriminant = half_b.mul(half_b).sub(a.mul(c));
    if a.raw <= 0 || radius.raw == 0 || discriminant.raw < 0 {
        Real::from_int(-1)
    } else {
        half_b.neg().sub(discriminant.sqrt()).div(a)
    }
}

impl Sphere {
    pub fn new(center: Vector3, radius: Real, material: Material) -> (r: Sphere)
        ensures
            r.center == center,
            r.radius == radius,
            r.material == material,
    {
        Sphere { center, radius, material }
    }
}

impl Hit for Sphere {
    /// The intersection at the smaller root within `(lo, hi)`, else at the
    /// larger one, else none. The stored normal never points along the ray.
    open spec fn hit_spec(&self, ray: Ray, lo: int, hi: int, r: Option<RayHit>) -> bool {
        match r {
            None => sphere_root(*self, ray, lo, hi) is None,
            Some(h) => {
                &&& sphere_root(*self, ray, lo, hi) == Some(h.t@)
                &&& is_record(*self, ray, h.t@, h)
                &&& dot_spec(ray.direction@, h.normal@) <= 0
            },
        }
    }

    fn hit(&self, ray: &Ray, range: (Real, Real)) -> (r: Option<RayHit>) {
        reveal(sphere_roots);
        reveal(is_record);
        let origin_distance = ray.origin.sub(self.center);
        let a = ray.direction.magnitude_squared();
        let half_b = Vector3::dot(&ray.direction, &origin_distance);
        let c = origin_distance.magnitude_squared().sub(self.radius.mul(self.radius));
        let discriminant = half_b.mul(half_b).sub(a.mul(c));
        if a.raw <= 0 || self.radius.raw == 0 || discriminant.raw < 0 {
            return None;
        }
        let sqrt_discriminant = discriminant.sqrt();
        let mut root = half_b.neg().sub(sqrt_discriminant).div(a);
        if !(range.0.lt(root) && root.lt(range.1)) {
            root = half_b.neg().add(sqrt_discriminant).div(a);
            if !(range.0.lt(root) && root.lt(range.1)) {
                return None;
            }
        }
        let hitpoint = ray.at(root);
        let normal = hitpoint.sub(self.center).div(self.radius);
        let mut hit = RayHit {
            point: hitpoint,
            normal,
            t: root,
            front_face: false,
            material: self.material,
        };
        assert(in_range3(normal@));
        hit.set_face_normal(ray, normal);
        Some(hit)
    }
}

} // verus!
