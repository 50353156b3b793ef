//! Surface materials: how a hit surface scatters or absorbs a ray.
use vstd::arithmetic::div_mod::{lemma_div_is_ordered, lemma_div_multiples_vanish, lemma_div_pos_is_pos};
use vstd::prelude::*;

use crate::random::{
    ball_sample, draw, in_unit_ball, in_unit_cube, is_unit_sample, step, unit_sample, unit_spec,
    Random, MAX_ATTEMPTS,
};
use crate::ray::{in_range3, Ray, RayHit};
use crate::scalar::{
    abs_int, add_spec, div_spec, lemma_div_one, lemma_mul_one, lemma_mul_unit_monotone,
    lemma_powi_unit_monotone, RAW_MAX, min_spec, mul_spec, powi_spec, sqrt_spec,
    sub_spec, Real, ONE_RAW,
};
use crate::vector::{
    add3, dot_spec, lemma_magnitude_squared_neg, lemma_mul_neg_left, magnitude_spec,
    magnitude_squared_spec, near_zero_spec, neg3, normalize_spec, reflect_spec,
    refract_spec, scale3, vec_of, Vector3, V3,
};

verus! {

pub open spec fn white() -> V3 {
    (ONE_RAW as int, ONE_RAW as int, ONE_RAW as int)
}

/// The outcome of a scattering event: the fraction of light kept, per
/// channel, and the outgoing ray.
#[derive(Clone, Copy, Debug, PartialEq, Eq, Structural)]
pub struct Scatter {
    pub attenuation: Vector3,
    pub ray: Ray,
}

/// A diffuse surface.
#[derive(Clone, Copy, Debug, PartialEq, Eq, Structural)]
pub struct Lambertian {
    pub albedo: Vector3,
}

/// A reflective surface; `fuzz` perturbs the mirror direction.
#[derive(Clone, Copy, Debug, PartialEq, Eq, Structural)]
pub struct Metal {
    pub albedo: Vector3,
    pub fuzz: Real,
}

/// A clear surface that refracts or reflects.
#[derive(Clone, Copy, Debug, PartialEq, Eq, Structural)]
pub struct Dielectric {
    /// Index of refraction.
    pub index: Real,
}

/// The three kinds of surface.
#[derive(Clone, Copy, Debug, PartialEq, Eq, Structural)]
pub enum Material {
    Lambertian(Lambertian),
    Metal(Metal),
    Dielectric(Dielectric),
}

/// Lambertian scattering: the normal plus a unit sample, or the bare normal
/// where that sum nearly vanishes.
pub open spec fn lambertian_direction(normal: V3, sample: V3) -> V3 {
    if near_zero_spec(add3(normal, sample)) {
        normal
    } else {
        add3(normal, sample)
    }
}

pub open spec fn lambertian_scatters(albedo: Vector3, hit: RayHit, s: Scatter) -> bool {
    &&& s.attenuation == albedo
    &&& s.ray.origin == hit.point
    &&& exists|u: V3|
        is_unit_sample(u) && s.ray.direction@ == #[trigger] lambertian_direction(hit.normal@, u)
}

/// The mirror image of the normalized incoming direction.
pub open spec fn mirror_direction(ray: Ray, hit: RayHit) -> V3 {
    reflect_spec(normalize_spec(ray.direction@), hit.normal@)
}

/// The mirror direction pushed by `fuzz` times a point of the unit ball.
pub open spec fn metal_direction(ray: Ray, hit: RayHit, fuzz: int, sample: V3) -> V3 {
    add3(mirror_direction(ray, hit), scale3(sample, fuzz))
}

/// What a metal surface does: it absorbs a ray without direction, and a ray
/// whose perturbed reflection leaves on the inner side; it reflects the rest.
pub open spec fn metal_scatters(m: Metal, ray: Ray, hit: RayHit, r: Option<Scatter>) -> bool {
    if magnitude_spec(ray.direction@) == 0 {
        r is None
    } else {
        exists|v: V3|
            #![trigger metal_direction(ray, hit, m.fuzz@, v)]
            in_unit_ball(v) && in_unit_cube(v) && match r {
                None => dot_spec(metal_direction(ray, hit, m.fuzz@, v), hit.normal@) <= 0,
                Some(s) => {
                    &&& dot_spec(metal_direction(ray, hit, m.fuzz@, v), hit.normal@) > 0
                    &&& s.attenuation == m.albedo
                    &&& s.ray.origin == hit.point
                    &&& s.ray.direction@ == metal_direction(ray, hit, m.fuzz@, v)
                },
            }
    }
}

/// `((1 - index) / (1 + index))^2`.
pub open spec fn r0_spec(index: int) -> int {
    let q = div_spec(sub_spec(ONE_RAW as int, index), add_spec(ONE_RAW as int, index));
    mul_spec(q, q)
}

/// Schlick's approximation: `r0 + (1 - r0) (1 - cosine)^5`.
pub open spec fn reflectance_spec(cosine: int, index: int) -> int {
    let r0 = r0_spec(index);
    add_spec(r0, mul_spec(sub_spec(ONE_RAW as int, r0), powi_spec(sub_spec(ONE_RAW as int, cosine), 5)))
}

/// `1 / index` when the ray enters through the front face, else `index`.
pub open spec fn refraction_ratio_spec(index: int, front_face: bool) -> int {
    if front_face {
        div_spec(ONE_RAW as int, index)
    } else {
        index
    }
}

pub open spec fn cos_theta_spec(unit: V3, normal: V3) -> int {
    min_spec(dot_spec(neg3(unit), normal), ONE_RAW as int)
}

pub open spec fn sin_theta_spec(cos_theta: int) -> int {
    sqrt_spec(sub_spec(ONE_RAW as int, mul_spec(cos_theta, cos_theta)))
}

/// Total internal reflection: Snell's law has no solution.
pub open spec fn cannot_refract_spec(unit: V3, normal: V3, ratio: int) -> bool {
    mul_spec(ratio, sin_theta_spec(cos_theta_spec(unit, normal))) > ONE_RAW
}

/// The dielectric's outgoing direction for the unit incoming direction
/// `unit` and the fraction `u` drawn for the choice between reflection and
/// refraction.
pub open spec fn dielectric_direction(index: int, unit: V3, hit: RayHit, u: int) -> V3 {
    let ratio = refraction_ratio_spec(index, hit.front_face);
    let cos_theta = cos_theta_spec(unit, hit.normal@);
    if cannot_refract_spec(unit, hit.normal@, ratio) || reflectance_spec(cos_theta, index) > u {
        reflect_spec(unit, hit.normal@)
    } else {
        refract_spec(unit, hit.normal@, ratio)
    }
}

/// A ray too short for its direction to be normalized goes on from the hit
/// point in its own direction, with all its light.
pub open spec fn passed_through(ray: Ray, hit: RayHit) -> Scatter {
    Scatter { attenuation: vec_of(white()), ray: Ray { origin: hit.point, direction: ray.direction } }
}

pub open spec fn dielectric_scatters(d: Dielectric, ray: Ray, hit: RayHit, r: Option<Scatter>) -> bool {
    if magnitude_spec(ray.direction@) == 0 {
        r == Some(passed_through(ray, hit))
    } else {
        r matches Some(s) && {
            &&& s.attenuation@ == white()
            &&& s.ray.origin == hit.point
            &&& exists|u: int|
                0 <= u < ONE_RAW && s.ray.direction@ == #[trigger] dielectric_direction(
                    d.index@,
                    normalize_spec(ray.direction@),
                    hit,
                    u,
                )
        }
    }
}

/// Each channel within `[0, 1]`.
pub open spec fn in_unit_range(c: V3) -> bool {
    0 <= c.0 <= ONE_RAW && 0 <= c.1 <= ONE_RAW && 0 <= c.2 <= ONE_RAW
}

impl Material {
    /// A dielectric needs a positive index of refraction.
    pub open spec fn is_valid(&self) -> bool {
        self matches Material::Dielectric(d) ==> d.index@ > 0
    }

    /// The color a surface keeps of the light it scatters, where it has one.
    pub open spec fn albedo(&self) -> Option<Vector3> {
        match *self {
            Material::Lambertian(l) => Some(l.albedo),
            Material::Metal(m) => Some(m.albedo),
            Material::Dielectric(_) => None,
        }
    }
}

/// What `Material::scatter` does for each kind of surface.
#[verifier::opaque]
pub open spec fn scatters(m: Material, ray: Ray, hit: RayHit, r: Option<Scatter>) -> bool {
    match m {
        Material::Lambertian(l) => r matches Some(s) && lambertian_scatters(l.albedo, hit, s),
        Material::Metal(mt) => metal_scatters(mt, ray, hit, r),
        Material::Dielectric(d) => dielectric_scatters(d, ray, hit, r),
    }
}

/// The scatter of a Lambertian surface fed by a scripted source at `p`, and
/// the position after it.
pub open spec fn lambertian_spec(albedo: Vector3, hit: RayHit, script: Seq<u64>, p: int) -> (Option<Scatter>, int) {
    let (u, q) = unit_sample(script, p, MAX_ATTEMPTS as nat);
    (
        Some(
            Scatter {
                attenuation: albedo,
                ray: Ray { origin: hit.point, direction: vec_of(lambertian_direction(hit.normal@, u)) },
            },
        ),
        q,
    )
}

/// The scatter of a metal surface fed by a scripted source at `p`.
pub open spec fn metal_spec(m: Metal, ray: Ray, hit: RayHit, script: Seq<u64>, p: int) -> (Option<Scatter>, int) {
    if magnitude_spec(ray.direction@) == 0 {
        (None, p)
    } else {
        let (v, q) = ball_sample(script, p, MAX_ATTEMPTS as nat);
        let d = metal_direction(ray, hit, m.fuzz@, v);
        if dot_spec(d, hit.normal@) <= 0 {
            (None, q)
        } else {
            (Some(Scatter { attenuation: m.albedo, ray: Ray { origin: hit.point, direction: vec_of(d) } }), q)
        }
    }
}

/// The scatter of a dielectric surface fed by a scripted source at `p`: it
/// draws only where refraction is possible.
pub open spec fn dielectric_spec(d: Dielectric, ray: Ray, hit: RayHit, script: Seq<u64>, p: int) -> (Option<Scatter>, int) {
    if magnitude_spec(ray.direction@) == 0 {
        (Some(passed_through(ray, hit)), p)
    } else {
        let unit = normalize_spec(ray.direction@);
        let ratio = refraction_ratio_spec(d.index@, hit.front_face);
        let (u, q) = if cannot_refract_spec(unit, hit.normal@, ratio) {
            (0, p)
        } else {
            (unit_spec(draw(script, p)), step(script, p))
        };
        (
            Some(
                Scatter {
                    attenuation: vec_of(white()),
                    ray: Ray {
                        origin: hit.point,
                        direction: vec_of(dielectric_direction(d.index@, unit, hit, u)),
                    },
                },
            ),
            q,
        )
    }
}

/// The scatter of any surface fed by a scripted source at `p`.
pub open spec fn scatter_spec(m: Material, ray: Ray, hit: RayHit, script: Seq<u64>, p: int) -> (Option<Scatter>, int) {
    match m {
        Material::Lambertian(l) => lambertian_spec(l.albedo, hit, script, p),
        Material::Metal(mt) => metal_spec(mt, ray, hit, script, p),
        Material::Dielectric(d) => dielectric_spec(d, ray, hit, script, p),
    }
}

impl Lambertian {
    pub fn new(albedo: Vector3) -> (r: Lambertian)
        ensures
            r.albedo == albedo,
    {
        Lambertian { albedo }
    }

    /// Always scatters, around the normal, keeping `albedo` of the light.
    pub fn scatter(&self, ray: &Ray, hit: &RayHit, rng: &mut Random) -> (r: Option<Scatter>)
        ensures
            final(rng).script() == old(rng).script(),
            r matches Some(s) && lambertian_scatters(self.albedo, *hit, s),
            old(rng).is_scripted() ==> (r, final(rng).position()) == lambertian_spec(
                self.albedo,
                *hit,
                old(rng).script(),
                old(rng).position(),
            ),
    {
        let sample = Vector3::random_unit(rng);
        let mut scatter_direction = hit.normal.add(sample);
        if scatter_direction.is_near_zero() {
            scatter_direction = hit.normal;
        }
        assert(scatter_direction@ == lambertian_direction(hit.normal@, sample@));
        Some(Scatter { attenuation: self.albedo, ray: Ray::of(hit.point, scatter_direction) })
    }
}

impl Metal {
    pub fn new(albedo: Vector3, fuzz: Real) -> (r: Metal)
        ensures
            r.albedo == albedo,
            r.fuzz == fuzz,
    {
        Metal { albedo, fuzz }
    }

    /// Reflects about the normal, perturbed by `fuzz`; absorbs what would
    /// leave on the inner side. A ray whose direction is too short to
    /// normalize (zero fixed-point magnitude) has no mirror direction and is
    /// absorbed too.
    pub fn scatter(&self, ray: &Ray, hit: &RayHit, rng: &mut Random) -> (r: Option<Scatter>)
        ensures
            final(rng).script() == old(rng).script(),
            metal_scatters(*self, *ray, *hit, r),
            old(rng).is_scripted() ==> (r, final(rng).position()) == metal_spec(
                *self,
                *ray,
                *hit,
                old(rng).script(),
                old(rng).position(),
            ),
    {
        if ray.direction.magnitude().raw == 0 {
            return None;
        }
        let reflected = ray.direction.normalize().reflect(&hit.normal);
        let sample = Vector3::random_in_unit_sphere(rng);
        let direction = reflected.add(sample.scale(self.fuzz));
        assert(direction@ == metal_direction(*ray, *hit, self.fuzz@, sample@));
        if Vector3::dot(&direction, &hit.normal).raw <= 0 {
            return None;
        }
        Some(Scatter { attenuation: self.albedo, ray: Ray::of(hit.point, direction) })
    }
}

impl Dielectric {
    pub fn new(index: Real) -> (r: Dielectric)
        ensures
            r.index == index,
    {
        Dielectric { index }
    }

    /// Schlick's approximation of the share of light that is reflected.
    pub fn reflectance(cosine: Real, refraction_index: Real) -> (r: Real)
        requires
            refraction_index@ != -ONE_RAW,
        ensures
            r@ == reflectance_spec(cosine@, refraction_index@),
    {
        let one = Real::one();
        let q = one.sub(refraction_index).div(one.add(refraction_index));
        let r0 = q.mul(q);
        r0.add(one.sub(r0).mul(one.sub(cosine).powi(5)))
    }

    /// Refracts where Snell's law allows and a draw does not pick
    /// reflection by Schlick's approximation; reflects otherwise. Keeps all
    /// light. A ray whose direction is too short to normalize (its
    /// fixed-point magnitude is zero) goes on unchanged.
    pub fn scatter(&self, ray: &Ray, hit: &RayHit, rng: &mut Random) -> (r: Option<Scatter>)
        requires
            self.index@ > 0,
        ensures
            final(rng).script() == old(rng).script(),
            dielectric_scatters(*self, *ray, *hit, r),
            old(rng).is_scripted() ==> (r, final(rng).position()) == dielectric_spec(
                *self,
                *ray,
                *hit,
                old(rng).script(),
                old(rng).position(),
            ),
    {
        if ray.direction.magnitude().raw == 0 {
            return Some(Scatter { attenuation: Vector3::ones(), ray: Ray::of(hit.point, ray.direction) });
        }
        let one = Real::one();
        let refraction_ratio = if hit.front_face {
            one.div(self.index)
        } else {
            self.index
        };
        let unit = ray.direction.normalize();
        let cos_theta = Vector3::dot(&unit.neg(), &hit.normal).min(one);
        let sin_theta = one.sub(cos_theta.mul(cos_theta)).sqrt();
        let cannot_refract = refraction_ratio.mul(sin_theta).raw > one.raw;
        let u = if cannot_refract {
            Real::zero()
        } else {
            rng.fraction()
        };
        let direction = if cannot_refract || Dielectric::reflectance(cos_theta, self.index).raw
            > u.raw {
            unit.reflect(&hit.normal)
        } else {
            unit.refract(&hit.normal, refraction_ratio)
        };
        assert(direction@ == dielectric_direction(self.index@, unit@, *hit, u@));
        Some(Scatter { attenuation: Vector3::ones(), ray: Ray::of(hit.point, direction) })
    }
}

impl Material {
    /// Proposes an outgoing ray and an attenuation for `ray` arriving at
    /// `hit`, or `None` where the surface absorbs it.
    pub fn scatter(&self, ray: &Ray, hit: &RayHit, rng: &mut Random) -> (r: Option<Scatter>)
        requires
            self.is_valid(),
        ensures
            final(rng).script() == old(rng).script(),
            scatters(*self, *ray, *hit, r),
            old(rng).is_scripted() ==> (r, final(rng).position()) == scatter_spec(
                *self,
                *ray,
                *hit,
                old(rng).script(),
                old(rng).position(),
            ),
    {
        reveal(scatters);
        match self {
            Material::Lambertian(l) => l.scatter(ray, hit, rng),
            Material::Metal(m) => m.scatter(ray, hit, rng),
            Material::Dielectric(d) => d.scatter(ray, hit, rng),
        }
    }
}

/// A metal without fuzz reflects exactly into the mirror direction of the
/// normalized incoming ray.
pub proof fn lemma_metal_mirror(m: Metal, ray: Ray, hit: RayHit, s: Scatter)
    requires
        m.fuzz@ == 0,
        metal_scatters(m, ray, hit, Some(s)),
    ensures
        s.ray.direction@ == mirror_direction(ray, hit),
{
    let v = choose|v: V3|
        #![trigger metal_direction(ray, hit, m.fuzz@, v)]
        in_unit_ball(v) && in_unit_cube(v) && match Some(s) {
            None => dot_spec(metal_direction(ray, hit, m.fuzz@, v), hit.normal@) <= 0,
            Some(s) => {
                &&& dot_spec(metal_direction(ray, hit, m.fuzz@, v), hit.normal@) > 0
                &&& s.attenuation == m.albedo
                &&& s.ray.origin == hit.point
                &&& s.ray.direction@ == metal_direction(ray, hit, m.fuzz@, v)
            },
        };
    assert(scale3(v, 0) == (0int, 0int, 0int));
}

/// A dielectric of index one bends nothing: the refraction ratio is exactly
/// one on either face, total internal reflection never occurs, and the
/// reflectance at normal incidence is zero.
pub proof fn lemma_index_one(unit: V3, normal: V3, front_face: bool)
    ensures
        refraction_ratio_spec(ONE_RAW as int, front_face) == ONE_RAW,
        !cannot_refract_spec(unit, normal, ONE_RAW as int),
        r0_spec(ONE_RAW as int) == 0,
        reflectance_spec(ONE_RAW as int, ONE_RAW as int) == 0,
{
    let cos_theta = cos_theta_spec(unit, normal);
    let c2 = mul_spec(cos_theta, cos_theta);
    assert(cos_theta * cos_theta >= 0) by (nonlinear_arith);
    assert(c2 >= 0);
    let x = sub_spec(ONE_RAW as int, c2);
    if x > 0 {
        assert(x * ONE_RAW <= ONE_RAW * ONE_RAW) by (nonlinear_arith)
            requires
                x <= ONE_RAW,
        ;
        crate::scalar::lemma_isqrt_monotone((x * ONE_RAW) as nat, (ONE_RAW * ONE_RAW) as nat);
        let one = ONE_RAW as nat;
        assert(one * one <= one * one < (one + 1) * (one + 1)) by (nonlinear_arith)
            requires
                one == 0x100000000,
        ;
        crate::scalar::lemma_isqrt_unique(one * one, one);
    }
    reveal_with_fuel(powi_spec, 6);
    lemma_reflectance_limits(ONE_RAW as int);
}

/// A dielectric of index one lets a ray at normal incidence through
/// unchanged: for a unit normal and an incoming direction opposite to it,
/// the outgoing direction is the incoming one, whatever the draw.
pub proof fn lemma_index_one_straight(ray: Ray, hit: RayHit, u: int)
    requires
        magnitude_squared_spec(hit.normal@) == ONE_RAW,
        in_range3(hit.normal@),
        ray.direction@ == neg3(hit.normal@),
        u >= 0,
    ensures
        magnitude_spec(ray.direction@) == ONE_RAW,
        dielectric_direction(ONE_RAW as int, normalize_spec(ray.direction@), hit, u) == ray.direction@,
{
    let one = ONE_RAW as int;
    let n = hit.normal@;
    let v = ray.direction@;
    assert(v == (-n.0, -n.1, -n.2));
    lemma_magnitude_squared_neg(n);
    assert(one * one < (one + 1) * (one + 1)) by (nonlinear_arith)
        requires
            one == 0x100000000,
    ;
    crate::scalar::lemma_isqrt_unique((one * one) as nat, one as nat);
    assert(magnitude_spec(v) == one);
    lemma_div_one(v.0);
    lemma_div_one(v.1);
    lemma_div_one(v.2);
    assert(normalize_spec(v) == v);
    assert(neg3(v) == n);
    assert(cos_theta_spec(v, n) == one);
    lemma_mul_one(one);
    assert(sub_spec(one, mul_spec(one, one)) == 0);
    assert(sin_theta_spec(one) == 0);
    lemma_mul_one(0);
    assert(!cannot_refract_spec(v, n, one)) by {
        lemma_div_one(one);
    }
    assert(refraction_ratio_spec(one, hit.front_face) == one) by {
        lemma_div_one(one);
    }
    lemma_index_one(v, n, hit.front_face);
    lemma_mul_one(n.0);
    lemma_mul_one(n.1);
    lemma_mul_one(n.2);
    let perpendicular = scale3(add3(v, scale3(n, one)), one);
    assert(perpendicular == (0int, 0int, 0int));
    assert(magnitude_squared_spec(perpendicular) == 0);
    lemma_mul_neg_left(one, n.0);
    lemma_mul_neg_left(one, n.1);
    lemma_mul_neg_left(one, n.2);
    assert(refract_spec(v, n, one) == v);
}

/// For a positive index, `r0` lies in `[0, 1]`.
pub proof fn lemma_r0_unit(index: int)
    requires
        0 < index <= RAW_MAX,
    ensures
        0 <= r0_spec(index) <= ONE_RAW,
{
    let one = ONE_RAW as int;
    let num = sub_spec(one, index);
    let den = add_spec(one, index);
    assert(num == one - index);
    assert(0 < den);
    assert(abs_int(num) <= den);
    let q = div_spec(num, den);
    assert(abs_int(num) * one <= den * one) by (nonlinear_arith)
        requires
            abs_int(num) <= den,
            one > 0,
    ;
    assert(abs_int(num * one) == abs_int(num) * one) by (nonlinear_arith)
        requires
            one > 0,
    ;
    lemma_div_is_ordered(abs_int(num) * one, den * one, den);
    lemma_div_multiples_vanish(one, den);
    assert(den * one == one * den) by (nonlinear_arith);
    assert(-one <= q <= one);
    assert(0 <= q * q <= one * one) by (nonlinear_arith)
        requires
            -one <= q <= one,
    ;
    lemma_div_is_ordered(q * q, one * one, one);
    lemma_div_pos_is_pos(q * q, one);
    lemma_div_multiples_vanish(one, one);
}

/// For a positive index and cosines `0 <= c1 <= c2 <= 1`, Schlick's
/// approximation does not grow with the cosine and stays within `[r0, 1]`.
pub proof fn lemma_reflectance_monotone(c1: int, c2: int, index: int)
    requires
        0 < index <= RAW_MAX,
        0 <= c1 <= c2 <= ONE_RAW,
    ensures
        r0_spec(index) <= reflectance_spec(c2, index) <= reflectance_spec(c1, index) <= ONE_RAW,
{
    let one = ONE_RAW as int;
    lemma_r0_unit(index);
    let r0 = r0_spec(index);
    let k = sub_spec(one, r0);
    lemma_powi_unit_monotone(sub_spec(one, c2), sub_spec(one, c1), 5);
    let p1 = powi_spec(sub_spec(one, c1), 5);
    let p2 = powi_spec(sub_spec(one, c2), 5);
    lemma_mul_unit_monotone(k, p2, k, p1);
    lemma_mul_unit_monotone(k, p1, k, one);
    lemma_mul_one(k);
}

/// Schlick's approximation is `r0` at normal incidence and one at grazing
/// incidence.
pub proof fn lemma_reflectance_limits(index: int)
    ensures
        reflectance_spec(ONE_RAW as int, index) == r0_spec(index),
        reflectance_spec(0, index) == ONE_RAW,
{
    reveal_with_fuel(powi_spec, 6);
    let r0 = r0_spec(index);
    let q = div_spec(sub_spec(ONE_RAW as int, index), add_spec(ONE_RAW as int, index));
    assert(q * q >= 0) by (nonlinear_arith);
    assert(r0 >= 0);
    let k = sub_spec(ONE_RAW as int, r0);
    assert(k * ONE_RAW / (ONE_RAW as int) == k) by (nonlinear_arith);
    assert(mul_spec(k, ONE_RAW as int) == k);
}

/// Lambertian and metal surfaces keep their albedo, so an albedo within
/// `[0, 1]` keeps every channel of the attenuation there; a dielectric keeps
/// all light.
pub proof fn lemma_attenuation_bounds(m: Material, ray: Ray, hit: RayHit, s: Scatter)
    requires
        scatters(m, ray, hit, Some(s)),
        m.albedo() matches Some(a) ==> in_unit_range(a@),
    ensures
        in_unit_range(s.attenuation@),
        m is Dielectric ==> s.attenuation@ == white(),
{
    reveal(scatters);
    match m {
        Material::Metal(mt) => {
            let v = choose|v: V3|
                #![trigger metal_direction(ray, hit, mt.fuzz@, v)]
                in_unit_ball(v) && in_unit_cube(v) && match Some(s) {
                    None => dot_spec(metal_direction(ray, hit, mt.fuzz@, v), hit.normal@) <= 0,
                    Some(s) => {
                        &&& dot_spec(metal_direction(ray, hit, mt.fuzz@, v), hit.normal@) > 0
                        &&& s.attenuation == mt.albedo
                        &&& s.ray.origin == hit.point
                        &&& s.ray.direction@ == metal_direction(ray, hit, mt.fuzz@, v)
                    },
                };
        },
        _ => {},
    }
}

} // verus!
