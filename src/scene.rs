//! The scene: an ordered collection of spheres and its nearest-hit query.
use vstd::prelude::*;

use crate::material::{in_unit_range, Dielectric, Lambertian, Material, Metal};
use crate::random::Random;
use crate::ray::{Hit, Ray, RayHit};
use crate::sphere::{is_record, lemma_root_narrowed, sphere_root, Sphere};
use crate::scalar::{
    add_spec, div_spec, lemma_mul_one, lemma_mul_unit_monotone, mul_spec, Real, ONE_RAW,
};
use crate::vector::{dot_spec, magnitude_spec, sub3, Vector3};

verus! {

/// `best` is the index of the nearest hit among the first `k` spheres:
/// no other of them reports a smaller root, and none before it an equal one.
pub open spec fn is_nearest_at(
    spheres: Seq<Sphere>,
    ray: Ray,
    lo: int,
    hi: int,
    k: int,
    best: int,
    h: RayHit,
) -> bool {
    &&& 0 <= best < k
    &&& sphere_root(spheres[best], ray, lo, hi) == Some(h.t@)
    &&& is_record(spheres[best], ray, h.t@, h)
    &&& forall|j: int|
        0 <= j < k ==> (#[trigger] sphere_root(spheres[j], ray, lo, hi) matches Some(t) ==> h.t@
            <= t)
    &&& forall|j: int|
        0 <= j < best ==> (#[trigger] sphere_root(spheres[j], ray, lo, hi) matches Some(t) ==> h.t@
            < t)
}

/// The answer of the nearest-hit query over the first `k` spheres: none
/// when no sphere reports a root in `(lo, hi)`, else the hit of the sphere
/// with the smallest root, the first one inserted among equals.
#[verifier::opaque]
pub open spec fn is_nearest_hit(
    spheres: Seq<Sphere>,
    ray: Ray,
    lo: int,
    hi: int,
    k: int,
    r: Option<RayHit>,
) -> bool {
    match r {
        None => forall|j: int| 0 <= j < k ==> #[trigger] sphere_root(spheres[j], ray, lo, hi) is None,
        Some(h) => exists|best: int| is_nearest_at(spheres, ray, lo, hi, k, best, h),
    }
}

/// Of two spheres that both meet a ray within the interval, the nearest-hit
/// query answers with the smaller of their two roots.
pub proof fn lemma_nearest_of_two(
    spheres: Seq<Sphere>,
    ray: Ray,
    lo: int,
    hi: int,
    r: Option<RayHit>,
    t0: int,
    t1: int,
)
    requires
        spheres.len() == 2,
        sphere_root(spheres[0], ray, lo, hi) == Some(t0),
        sphere_root(spheres[1], ray, lo, hi) == Some(t1),
        is_nearest_hit(spheres, ray, lo, hi, 2, r),
    ensures
        r matches Some(h) && h.t@ == (if t0 <= t1 {
            t0
        } else {
            t1
        }),
{
    reveal(is_nearest_hit);
    if r is None {
        assert(sphere_root(spheres[0], ray, lo, hi) is None);
    } else {
        let h = r->0;
        let best = choose|best: int| is_nearest_at(spheres, ray, lo, hi, 2, best, h);
        assert(sphere_root(spheres[0], ray, lo, hi) matches Some(t) ==> h.t@ <= t);
        assert(sphere_root(spheres[1], ray, lo, hi) matches Some(t) ==> h.t@ <= t);
    }
}

/// The nearest-hit query has a single answer.
pub proof fn lemma_nearest_unique(
    spheres: Seq<Sphere>,
    ray: Ray,
    lo: int,
    hi: int,
    k: int,
    r1: Option<RayHit>,
    r2: Option<RayHit>,
)
    requires
        is_nearest_hit(spheres, ray, lo, hi, k, r1),
        is_nearest_hit(spheres, ray, lo, hi, k, r2),
    ensures
        r1 == r2,
{
    reveal(is_nearest_hit);
    match (r1, r2) {
        (None, None) => {},
        (None, Some(h)) => {
            let b = choose|b: int| is_nearest_at(spheres, ray, lo, hi, k, b, h);
            assert(sphere_root(spheres[b], ray, lo, hi) is None);
        },
        (Some(h), None) => {
            let b = choose|b: int| is_nearest_at(spheres, ray, lo, hi, k, b, h);
            assert(sphere_root(spheres[b], ray, lo, hi) is None);
        },
        (Some(h1), Some(h2)) => {
            let b1 = choose|b: int| is_nearest_at(spheres, ray, lo, hi, k, b, h1);
            let b2 = choose|b: int| is_nearest_at(spheres, ray, lo, hi, k, b, h2);
            assert(sphere_root(spheres[b2], ray, lo, hi) matches Some(t) ==> h1.t@ <= t);
            assert(sphere_root(spheres[b1], ray, lo, hi) matches Some(t) ==> h2.t@ <= t);
            assert(h1.t@ == h2.t@);
            if b1 < b2 {
                assert(sphere_root(spheres[b1], ray, lo, hi) matches Some(t) ==> h2.t@ < t);
            }
            if b2 < b1 {
                assert(sphere_root(spheres[b2], ray, lo, hi) matches Some(t) ==> h1.t@ < t);
            }
            assert(b1 == b2);
            reveal(is_record);
            assert(h1.t == h2.t);
            assert(h1.point == h2.point);
            assert(h1.normal == h2.normal);
        },
    }
}

/// The answer of the nearest-hit query over all the spheres.
pub open spec fn nearest_spec(spheres: Seq<Sphere>, ray: Ray, lo: int, hi: int) -> Option<RayHit> {
    choose|r: Option<RayHit>| is_nearest_hit(spheres, ray, lo, hi, spheres.len() as int, r)
}

/// Any answer of the nearest-hit query is the one that `nearest_spec` names.
pub proof fn lemma_nearest_spec(spheres: Seq<Sphere>, ray: Ray, lo: int, hi: int, r: Option<RayHit>)
    requires
        is_nearest_hit(spheres, ray, lo, hi, spheres.len() as int, r),
    ensures
        r == nearest_spec(spheres, ray, lo, hi),
{
    let c = nearest_spec(spheres, ray, lo, hi);
    lemma_nearest_unique(spheres, ray, lo, hi, spheres.len() as int, r, c);
}

/// An ordered, append-only collection of spheres.
pub struct HitTarget {
    targets: Vec<Sphere>,
}

impl View for HitTarget {
    type V = Seq<Sphere>;

    closed spec fn view(&self) -> Seq<Sphere> {
        self.targets@
    }
}

impl HitTarget {
    pub fn new() -> (r: HitTarget)
        ensures
            r@ == Seq::<Sphere>::empty(),
    {
        HitTarget { targets: Vec::new() }
    }

    pub fn push(&mut self, sphere: Sphere)
        ensures
            final(self)@ == old(self)@.push(sphere),
    {
        self.targets.push(sphere);
    }

    /// The sphere inserted at position `i`.
    pub fn sphere(&self, i: usize) -> (r: Sphere)
        requires
            i < self@.len(),
        ensures
            r == self@[i as int],
    {
        self.targets[i]
    }

    pub fn len(&self) -> (r: usize)
        ensures
            r == self@.len(),
    {
        self.targets.len()
    }
}

impl Hit for HitTarget {
    /// The nearest hit within `(lo, hi)`, of a sphere of the collection.
    open spec fn hit_spec(&self, ray: Ray, lo: int, hi: int, r: Option<RayHit>) -> bool {
        &&& is_nearest_hit(self@, ray, lo, hi, self@.len() as int, r)
        &&& r matches Some(h) ==> exists|i: int|
            0 <= i < self@.len() && h.material == (#[trigger] self@[i]).material
        &&& r == nearest_spec(self@, ray, lo, hi)
        &&& r matches Some(h) ==> dot_spec(ray.direction@, h.normal@) <= 0
    }

    /// Scans the spheres in insertion order with a shrinking upper bound.
    fn hit(&self, ray: &Ray, range: (Real, Real)) -> (r: Option<RayHit>) {
        reveal(is_nearest_hit);
        reveal(is_record);
        let ghost lo = range.0@;
        let ghost hi = range.1@;
        let ghost spheres = self@;
        let mut ray_hit: Option<RayHit> = None;
        let mut closest_hit_distance = range.1;
        let ghost mut best: int = 0;
        let mut i: usize = 0;
        while i < self.targets.len()
            invariant
                spheres == self@,
                self@ == self.targets@,
                lo == range.0@,
                hi == range.1@,
                0 <= i <= spheres.len(),
                match ray_hit {
                    None => {
                        &&& closest_hit_distance@ == hi
                        &&& forall|j: int|
                            0 <= j < i ==> #[trigger] sphere_root(spheres[j], *ray, lo, hi) is None
                    },
                    Some(h) => {
                        &&& dot_spec(ray.direction@, h.normal@) <= 0
                        &&& closest_hit_distance@ == h.t@
                        &&& h.t@ < hi
                        &&& is_nearest_at(spheres, *ray, lo, hi, i as int, best, h)
                    },
                },
            decreases self.targets.len() - i,
        {
            let sphere = &self.targets[i];
            proof {
                lemma_root_narrowed(*sphere, *ray, lo, hi, closest_hit_distance@);
            }
            match sphere.hit(ray, (range.0, closest_hit_distance)) {
                Some(local_hit) => {
                    closest_hit_distance = local_hit.t;
                    ray_hit = Some(local_hit);
                    proof {
                        best = i as int;
                    }
                },
                None => {},
            }
            i = i + 1;
        }
        proof {
            if let Some(h) = ray_hit {
                assert(is_nearest_at(spheres, *ray, lo, hi, spheres.len() as int, best, h));
                assert(h.material == self@[best].material);
            }
            lemma_nearest_spec(spheres, *ray, lo, hi, ray_hit);
        }
        ray_hit
    }
}

/// Every sphere's material is valid.
pub open spec fn materials_valid(spheres: Seq<Sphere>) -> bool {
    forall|i: int| 0 <= i < spheres.len() ==> (#[trigger] spheres[i]).material.is_valid()
}

/// The radius of the small spheres of the showcase scene, and the height of
/// their centers: `1/5`.
pub open spec fn small_radius() -> int {
    div_spec(ONE_RAW as int, 5 * ONE_RAW)
}

/// The distance that the small spheres keep from the point `(4, 1/5, 0)`:
/// more than `9/10`.
pub open spec fn clearance() -> int {
    div_spec(9 * ONE_RAW, 10 * ONE_RAW)
}

/// The ground of the showcase scene: a gray diffuse sphere of radius 1000
/// centered at `(0, -1000, 0)`.
pub open spec fn is_ground(s: Sphere) -> bool {
    let half = div_spec(ONE_RAW as int, 2 * ONE_RAW);
    &&& s.center@ == (0int, -1000 * ONE_RAW, 0int)
    &&& s.radius@ == 1000 * ONE_RAW
    &&& s.material matches Material::Lambertian(l) && l.albedo@ == (half, half, half)
}

/// The small sphere of grid cell `(a, b)` for the fraction `u` drawn there:
/// its center is `(a + 9/10 u, 1/5, b + 9/10 u)`; below `u = 4/5` it is
/// diffuse with an albedo in `[0, 1]`, below `19/20` metal with an albedo in
/// `[1/2, 1]` and a fuzz in `[0, 1/2]`, else glass of index 3/2.
pub open spec fn is_cell_sphere(s: Sphere, a: int, b: int, u: int) -> bool {
    let one = ONE_RAW as int;
    let jitter = mul_spec(div_spec(9 * one, 10 * one), u);
    let half = div_spec(one, 2 * one);
    &&& -11 <= a < 11
    &&& -11 <= b < 11
    &&& 0 <= u < one
    &&& s.center@ == (add_spec(a * one, jitter), small_radius(), add_spec(b * one, jitter))
    &&& if u < div_spec(4 * one, 5 * one) {
        s.material matches Material::Lambertian(l) && in_unit_range(l.albedo@)
    } else if u < div_spec(19 * one, 20 * one) {
        s.material matches Material::Metal(m) && {
            let c = m.albedo@;
            &&& 0x80000000 <= c.0 <= one
            &&& 0x80000000 <= c.1 <= one
            &&& 0x80000000 <= c.2 <= one
            &&& 0 <= m.fuzz@ <= half
        }
    } else {
        s.material matches Material::Dielectric(d) && d.index@ == 0x1_8000_0000
    }
}

/// A small sphere of the showcase scene: of radius 1/5, placed in a grid
/// cell, and farther than 9/10 from `(4, 1/5, 0)`.
pub open spec fn is_small(s: Sphere) -> bool {
    &&& s.radius@ == small_radius()
    &&& s.center.y@ == small_radius()
    &&& clearance() < magnitude_spec(sub3(s.center@, (4 * ONE_RAW, small_radius(), 0int)))
    &&& exists|a: int, b: int, u: int| #[trigger] is_cell_sphere(s, a, b, u)
}

/// The three large spheres of the showcase scene, of radius 1: glass of index
/// 3/2 at `(0, 1, 0)`, brown clay at `(-4, 1, 0)` and polished metal at
/// `(4, 1, 0)`.
pub open spec fn are_large(glass: Sphere, clay: Sphere, silver: Sphere) -> bool {
    let one = ONE_RAW as int;
    &&& glass.center@ == (0int, one, 0int)
    &&& glass.radius@ == one
    &&& glass.material matches Material::Dielectric(d) && d.index@ == 0x1_8000_0000
    &&& clay.center@ == (-4 * one, one, 0int)
    &&& clay.radius@ == one
    &&& clay.material matches Material::Lambertian(l) && l.albedo@ == (
        div_spec(2 * one, 5 * one),
        div_spec(one, 5 * one),
        div_spec(one, 10 * one),
    )
    &&& silver.center@ == (4 * one, one, 0int)
    &&& silver.radius@ == one
    &&& silver.material matches Material::Metal(m) && m.fuzz@ == 0 && m.albedo@ == (
        div_spec(7 * one, 10 * one),
        div_spec(3 * one, 5 * one),
        div_spec(one, 2 * one),
    )
}

/// The showcase scene: a ground sphere, a grid of small spheres of random
/// materials jittered by random draws, and three large spheres of glass,
/// clay and polished metal.
pub fn random_scene(rng: &mut Random) -> (r: HitTarget)
    ensures
        final(rng).script() == old(rng).script(),
        materials_valid(r@),
        4 <= r@.len() <= 488,
        is_ground(r@[0]),
        forall|i: int| 1 <= i < r@.len() - 3 ==> is_small(#[trigger] r@[i]),
        are_large(r@[r@.len() - 3], r@[r@.len() - 2], r@[r@.len() - 1]),
{
    let mut world = HitTarget::new();
    let ground = Material::Lambertian(Lambertian::new(Vector3::white().div(Real::from_int(2))));
    world.push(Sphere::new(
        Vector3::new(Real::zero(), Real::from_int(-1000), Real::zero()),
        Real::from_int(1000),
        ground,
    ));
    let glass = Material::Dielectric(Dielectric::new(Real::from_raw(0x1_8000_0000)));
    let brown_clay = Material::Lambertian(
        Lambertian::new(Vector3::new(Real::ratio(2, 5), Real::ratio(1, 5), Real::ratio(1, 10))),
    );
    let silver = Material::Metal(
        Metal::new(Vector3::new(Real::ratio(7, 10), Real::ratio(3, 5), Real::ratio(1, 2)), Real::zero()),
    );
    assert(glass.is_valid());
    let small = Real::ratio(1, 5);
    let avoid = Vector3::new(Real::from_int(4), small, Real::zero());
    let mut a: i32 = -11;
    while a < 11
        invariant
            -11 <= a <= 11,
            materials_valid(world@),
            1 <= world@.len() <= 1 + 22 * (a + 11),
            glass.is_valid(),
            glass matches Material::Dielectric(d) && d.index@ == 0x1_8000_0000,
            small@ == small_radius(),
            avoid@ == (4 * ONE_RAW, small_radius(), 0int),
            is_ground(world@[0]),
            forall|i: int| 1 <= i < world@.len() ==> is_small(#[trigger] world@[i]),
            rng.script() == old(rng).script(),
        decreases 11 - a,
    {
        let mut b: i32 = -11;
        while b < 11
            invariant
                -11 <= a < 11,
                -11 <= b <= 11,
                materials_valid(world@),
                1 <= world@.len() <= 1 + 22 * (a + 11) + (b + 11),
                glass.is_valid(),
                glass matches Material::Dielectric(d) && d.index@ == 0x1_8000_0000,
                small@ == small_radius(),
                avoid@ == (4 * ONE_RAW, small_radius(), 0int),
                is_ground(world@[0]),
                forall|i: int| 1 <= i < world@.len() ==> is_small(#[trigger] world@[i]),
                rng.script() == old(rng).script(),
            decreases 11 - b,
        {
            let random_number = rng.fraction();
            let jitter = Real::ratio(9, 10).mul(random_number);
            let center = Vector3::new(
                Real::from_int(a).add(jitter),
                small,
                Real::from_int(b).add(jitter),
            );
            if Real::ratio(9, 10).lt(center.sub(avoid).magnitude()) {
                let material = if random_number.lt(Real::ratio(4, 5)) {
                    let first = Vector3::random_inclusive_between(rng, Real::zero(), Real::one());
                    let second = Vector3::random_inclusive_between(rng, Real::zero(), Real::one());
                    let albedo = first.mul(second);
                    proof {
                        lemma_mul_unit_monotone(first.x@, second.x@, ONE_RAW as int, ONE_RAW as int);
                        lemma_mul_unit_monotone(first.y@, second.y@, ONE_RAW as int, ONE_RAW as int);
                        lemma_mul_unit_monotone(first.z@, second.z@, ONE_RAW as int, ONE_RAW as int);
                        lemma_mul_one(ONE_RAW as int);
                    }
                    let diffuse = Material::Lambertian(Lambertian::new(albedo));
                    assert(diffuse matches Material::Lambertian(l) && in_unit_range(l.albedo@));
                    diffuse
                } else if random_number.lt(Real::ratio(19, 20)) {
                    let albedo = Vector3::random_inclusive_between(
                        rng,
                        Real::from_raw(0x8000_0000),
                        Real::one(),
                    );
                    let fuzz = rng.fraction_inclusive_between(Real::zero(), Real::ratio(1, 2));
                    let metal = Material::Metal(Metal::new(albedo, fuzz));
                    assert(metal matches Material::Metal(m) && {
                        let c = m.albedo@;
                        &&& 0x80000000 <= c.0 <= ONE_RAW
                        &&& 0x80000000 <= c.1 <= ONE_RAW
                        &&& 0x80000000 <= c.2 <= ONE_RAW
                        &&& 0 <= m.fuzz@ <= div_spec(ONE_RAW as int, 2 * ONE_RAW)
                    });
                    metal
                } else {
                    glass
                };
                world.push(Sphere::new(center, small, material));
                assert(world@.last().material.is_valid());
                assert(world@.last().center@ == (add_spec(a * ONE_RAW, jitter@), small_radius(), add_spec(b * ONE_RAW, jitter@)));
                assert(jitter@ == mul_spec(div_spec(9 * ONE_RAW, 10 * ONE_RAW), random_number@));
                assert(is_cell_sphere(world@.last(), a as int, b as int, random_number@));
                assert(is_small(world@.last()));
            }
            b = b + 1;
        }
        a = a + 1;
    }
    world.push(Sphere::new(Vector3::new(Real::zero(), Real::one(), Real::zero()), Real::one(), glass));
    world.push(Sphere::new(Vector3::new(Real::from_int(-4), Real::one(), Real::zero()), Real::one(), brown_clay));
    world.push(Sphere::new(Vector3::new(Real::from_int(4), Real::one(), Real::zero()), Real::one(), silver));
    world
}

} // verus!
