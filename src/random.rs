//! The random source: raw 64-bit draws, from the thread-local generator of
//! `rand` or from a fixed script, mapped to fixed-point values.
use vstd::prelude::*;

use crate::scalar::{add_spec, mul_spec, sub_spec, Real, ONE_RAW};
use crate::vector::{
    dot_spec, lemma_dot_neg, lemma_magnitude_squared_neg, magnitude_spec, magnitude_squared_spec,
    neg3, normalize_spec, v3, Vector3, V3,
};

verus! {

/// Relies on `rand::random`, which draws from the thread-local generator;
/// nothing is known of the value.
pub assume_specification<T>[ rand::random::<T> ]() -> (r: T)
    where
        rand::distributions::Standard: rand::distributions::Distribution<T>,
;

/// Relies on `rand::distributions::Uniform::new_inclusive(low, high)`, sampled
/// with the thread-local generator: a value of `[low, high]`. It panics where
/// `low > high`.
#[verifier::external_body]
fn uniform_inclusive(low: i64, high: i64) -> (r: i64)
    requires
        low <= high,
    ensures
        low <= r <= high,
{
    let range = rand::distributions::Uniform::new_inclusive(low, high);
    rand::distributions::Distribution::sample(&range, &mut rand::thread_rng())
}

/// How many candidates a rejection sampler draws before it gives up.
pub const MAX_ATTEMPTS: u32 = 64;

/// A source of uniformly distributed 64-bit draws.
///
/// With an empty script the draws come from the thread-local generator;
/// otherwise they cycle through the script, which makes every result
/// reproducible.
pub struct Random {
    draws: Vec<u64>,
    cursor: usize,
}

/// The fraction in `[0, 1)` made of the high 32 bits of a draw.
pub open spec fn unit_spec(draw: u64) -> int {
    draw as int / 0x100000000
}

pub open spec fn between_spec(min: int, max: int, draw: u64) -> int {
    add_spec(min, mul_spec(unit_spec(draw), sub_spec(max, min)))
}

pub open spec fn inclusive_between_spec(min: int, max: int, draw: u64) -> int {
    min + draw as int % (max - min + 1)
}

/// The fraction in `[0, 1)` made of the high 32 bits of a draw.
pub fn unit_of(draw: u64) -> (r: Real)
    ensures
        r@ == unit_spec(draw),
        0 <= r@ < ONE_RAW,
{
    Real::from_raw((draw / 0x100000000) as i64)
}

/// `min + u * (max - min)` for the fraction `u` of a draw.
pub fn between_of(min: Real, max: Real, draw: u64) -> (r: Real)
    ensures
        r@ == between_spec(min@, max@, draw),
{
    min.add(unit_of(draw).mul(max.sub(min)))
}

/// A value of `[min, max]`, counted in raw units from `min`.
pub fn inclusive_between_of(min: Real, max: Real, draw: u64) -> (r: Real)
    requires
        min@ <= max@,
    ensures
        r@ == inclusive_between_spec(min@, max@, draw),
        min@ <= r@ <= max@,
{
    proof {
        use_type_invariant(&min);
    }
    let span: u128 = (max.raw as i128 - min.raw as i128) as u128 + 1;
    let offset: u128 = draw as u128 % span;
    Real::from_raw((min.raw as i128 + offset as i128) as i64)
}

/// The draw of a script at position `p`.
pub open spec fn draw(script: Seq<u64>, p: int) -> u64 {
    script[p % (script.len() as int)]
}

/// The position after the draw at `p`.
pub open spec fn step(script: Seq<u64>, p: int) -> int {
    (p % (script.len() as int) + 1) % (script.len() as int)
}

/// Three draws from position `p` mapped into `[min, max]`, and the position
/// after them.
pub open spec fn triple_spec(script: Seq<u64>, p: int, min: int, max: int) -> (V3, int) {
    let p1 = step(script, p);
    let p2 = step(script, p1);
    (
        (
            inclusive_between_spec(min, max, draw(script, p)),
            inclusive_between_spec(min, max, draw(script, p1)),
            inclusive_between_spec(min, max, draw(script, p2)),
        ),
        step(script, p2),
    )
}

/// Rejection sampling of the unit ball with `n` attempts left: the first
/// candidate of the cube inside the ball, or the origin.
pub open spec fn ball_sample(script: Seq<u64>, p: int, n: nat) -> (V3, int)
    decreases n,
{
    if n == 0 {
        ((0, 0, 0), p)
    } else {
        let (v, q) = triple_spec(script, p, -ONE_RAW, ONE_RAW as int);
        if in_unit_ball(v) {
            (v, q)
        } else {
            ball_sample(script, q, (n - 1) as nat)
        }
    }
}

/// Rejection sampling of the unit disk with `n` attempts left.
pub open spec fn disk_sample(script: Seq<u64>, p: int, n: nat) -> (V3, int)
    decreases n,
{
    if n == 0 {
        ((0, 0, 0), p)
    } else {
        let (c, q) = triple_spec(script, p, -ONE_RAW, ONE_RAW as int);
        let v = (c.0, c.1, 0int);
        if in_unit_ball(v) {
            (v, q)
        } else {
            disk_sample(script, q, (n - 1) as nat)
        }
    }
}

/// Rejection sampling of unit directions with `n` attempts left.
pub open spec fn unit_sample(script: Seq<u64>, p: int, n: nat) -> (V3, int)
    decreases n,
{
    if n == 0 {
        (v3(0, ONE_RAW as int, 0), p)
    } else {
        let (v, q) = triple_spec(script, p, -ONE_RAW, ONE_RAW as int);
        if in_unit_ball(v) && magnitude_spec(v) != 0 {
            (normalize_spec(v), q)
        } else {
            unit_sample(script, q, (n - 1) as nat)
        }
    }
}

impl Random {
    /// The script that the draws cycle through; empty for the thread-local generator.
    pub closed spec fn script(&self) -> Seq<u64> {
        self.draws@
    }

    pub closed spec fn position(&self) -> int {
        self.cursor as int
    }

    pub open spec fn is_scripted(&self) -> bool {
        self.script().len() > 0
    }

    /// The draw that a scripted source hands out next.
    pub open spec fn upcoming(&self) -> u64 {
        draw(self.script(), self.position())
    }

    pub open spec fn next_position(&self) -> int {
        step(self.script(), self.position())
    }

    /// A source that draws from the thread-local generator.
    pub fn new() -> (r: Random)
        ensures
            !r.is_scripted(),
    {
        Random { draws: Vec::new(), cursor: 0 }
    }

    /// A source that cycles through `draws`, starting with the first.
    pub fn scripted(draws: Vec<u64>) -> (r: Random)
        ensures
            r.script() == draws@,
            r.position() == 0,
    {
        Random { draws, cursor: 0 }
    }

    pub fn next_u64(&mut self) -> (r: u64)
        ensures
            final(self).script() == old(self).script(),
            old(self).is_scripted() ==> r == old(self).upcoming() && final(self).position()
                == old(self).next_position(),
    {
        let len = self.draws.len();
        if len == 0 {
            rand::random::<u64>()
        } else {
            let i = self.cursor % len;
            let r = self.draws[i];
            self.cursor = (i + 1) % len;
            r
        }
    }

    /// A fraction in `[0, 1)`.
    pub fn fraction(&mut self) -> (r: Real)
        ensures
            final(self).script() == old(self).script(),
            0 <= r@ < ONE_RAW,
            old(self).is_scripted() ==> r@ == unit_spec(old(self).upcoming())
                && final(self).position() == old(self).next_position(),
    {
        unit_of(self.next_u64())
    }

    /// `min + u * (max - min)` for a fraction `u` in `[0, 1)`.
    pub fn fraction_between(&mut self, min: Real, max: Real) -> (r: Real)
        ensures
            final(self).script() == old(self).script(),
            old(self).is_scripted() ==> r@ == between_spec(min@, max@, old(self).upcoming())
                && final(self).position() == old(self).next_position(),
    {
        between_of(min, max, self.next_u64())
    }

    /// A value of `[min, max]`, both ends included.
    pub fn fraction_inclusive_between(&mut self, min: Real, max: Real) -> (r: Real)
        requires
            min@ <= max@,
        ensures
            final(self).script() == old(self).script(),
            min@ <= r@ <= max@,
            old(self).is_scripted() ==> r@ == inclusive_between_spec(
                min@,
                max@,
                old(self).upcoming(),
            ) && final(self).position() == old(self).next_position(),
    {
        proof {
            use_type_invariant(&min);
        }
        if self.draws.len() == 0 {
            Real::from_raw(uniform_inclusive(min.raw, max.raw))
        } else {
            inclusive_between_of(min, max, self.next_u64())
        }
    }
}

/// A point of the open unit ball.
pub open spec fn in_unit_ball(v: V3) -> bool {
    magnitude_squared_spec(v) < ONE_RAW
}

/// Each component in `[-1, 1]`.
pub open spec fn in_unit_cube(v: V3) -> bool {
    -ONE_RAW <= v.0 <= ONE_RAW && -ONE_RAW <= v.1 <= ONE_RAW && -ONE_RAW <= v.2 <= ONE_RAW
}

/// The sample `v` of the ball turned to the side of `normal`.
pub open spec fn hemisphere_spec(v: V3, normal: V3) -> V3 {
    if dot_spec(v, normal) > 0 {
        v
    } else {
        neg3(v)
    }
}

/// A unit direction: a nonzero point of the unit ball divided by its
/// magnitude, or the up direction once every attempt failed.
pub open spec fn is_unit_sample(r: V3) -> bool {
    r == v3(0, ONE_RAW as int, 0) || exists|v: V3|
        in_unit_ball(v) && magnitude_spec(v) != 0 && r == #[trigger] normalize_spec(v)
}

impl Vector3 {
    /// Each component a fraction in `[0, 1)`.
    pub fn random(rng: &mut Random) -> (r: Vector3)
        ensures
            final(rng).script() == old(rng).script(),
            0 <= r.x@ < ONE_RAW,
            0 <= r.y@ < ONE_RAW,
            0 <= r.z@ < ONE_RAW,
            old(rng).is_scripted() ==> ({
                let (s, p0) = (old(rng).script(), old(rng).position());
                let p1 = step(s, p0);
                let p2 = step(s, p1);
                r@ == (unit_spec(draw(s, p0)), unit_spec(draw(s, p1)), unit_spec(draw(s, p2)))
                    && final(rng).position() == step(s, p2)
            }),
    {
        let x = rng.fraction();
        let y = rng.fraction();
        let z = rng.fraction();
        Vector3::new(x, y, z)
    }

    /// Each component `min + u * (max - min)` for a fraction `u`.
    pub fn random_between(rng: &mut Random, min: Real, max: Real) -> (r: Vector3)
        ensures
            final(rng).script() == old(rng).script(),
            old(rng).is_scripted() ==> ({
                let (s, p0) = (old(rng).script(), old(rng).position());
                let p1 = step(s, p0);
                let p2 = step(s, p1);
                r@ == (
                    between_spec(min@, max@, draw(s, p0)),
                    between_spec(min@, max@, draw(s, p1)),
                    between_spec(min@, max@, draw(s, p2)),
                ) && final(rng).position() == step(s, p2)
            }),
    {
        let x = rng.fraction_between(min, max);
        let y = rng.fraction_between(min, max);
        let z = rng.fraction_between(min, max);
        Vector3::new(x, y, z)
    }

    /// Each component a value of `[min, max]`.
    pub fn random_inclusive_between(rng: &mut Random, min: Real, max: Real) -> (r: Vector3)
        requires
            min@ <= max@,
        ensures
            final(rng).script() == old(rng).script(),
            min@ <= r.x@ <= max@,
            min@ <= r.y@ <= max@,
            min@ <= r.z@ <= max@,
            old(rng).is_scripted() ==> (r@, final(rng).position()) == triple_spec(
                old(rng).script(),
                old(rng).position(),
                min@,
                max@,
            ),
    {
        let x = rng.fraction_inclusive_between(min, max);
        let y = rng.fraction_inclusive_between(min, max);
        let z = rng.fraction_inclusive_between(min, max);
        Vector3::new(x, y, z)
    }

    /// A point of the open unit ball, by rejection from the cube `[-1, 1]^3`;
    /// the origin once every attempt failed.
    pub fn random_in_unit_sphere(rng: &mut Random) -> (r: Vector3)
        ensures
            final(rng).script() == old(rng).script(),
            in_unit_ball(r@),
            in_unit_cube(r@),
            old(rng).is_scripted() ==> (r@, final(rng).position()) == ball_sample(
                old(rng).script(),
                old(rng).position(),
                MAX_ATTEMPTS as nat,
            ),
    {
        let one = Real::one();
        let mut attempt: u32 = 0;
        while attempt < MAX_ATTEMPTS
            invariant
                rng.script() == old(rng).script(),
                one@ == ONE_RAW,
                attempt <= MAX_ATTEMPTS,
                old(rng).is_scripted() ==> ball_sample(
                    rng.script(),
                    rng.position(),
                    (MAX_ATTEMPTS - attempt) as nat,
                ) == ball_sample(old(rng).script(), old(rng).position(), MAX_ATTEMPTS as nat),
            decreases MAX_ATTEMPTS - attempt,
        {
            let v = Vector3::random_inclusive_between(rng, one.neg(), one);
            if v.magnitude_squared().lt(one) {
                return v;
            }
            attempt = attempt + 1;
        }
        Vector3::zero()
    }

    /// A point of the open unit disk in the plane `z = 0`, by rejection;
    /// the origin once every attempt failed.
    pub fn random_in_unit_disk(rng: &mut Random) -> (r: Vector3)
        ensures
            final(rng).script() == old(rng).script(),
            in_unit_ball(r@),
            r.z@ == 0,
            old(rng).is_scripted() ==> (r@, final(rng).position()) == disk_sample(
                old(rng).script(),
                old(rng).position(),
                MAX_ATTEMPTS as nat,
            ),
    {
        let one = Real::one();
        let mut attempt: u32 = 0;
        while attempt < MAX_ATTEMPTS
            invariant
                rng.script() == old(rng).script(),
                one@ == ONE_RAW,
                attempt <= MAX_ATTEMPTS,
                old(rng).is_scripted() ==> disk_sample(
                    rng.script(),
                    rng.position(),
                    (MAX_ATTEMPTS - attempt) as nat,
                ) == disk_sample(old(rng).script(), old(rng).position(), MAX_ATTEMPTS as nat),
            decreases MAX_ATTEMPTS - attempt,
        {
            let mut v = Vector3::random_inclusive_between(rng, one.neg(), one);
            v.z = Real::zero();
            if v.magnitude_squared().lt(one) {
                return v;
            }
            attempt = attempt + 1;
        }
        Vector3::zero()
    }

    /// A uniformly distributed unit direction.
    pub fn random_unit(rng: &mut Random) -> (r: Vector3)
        ensures
            final(rng).script() == old(rng).script(),
            is_unit_sample(r@),
            old(rng).is_scripted() ==> (r@, final(rng).position()) == unit_sample(
                old(rng).script(),
                old(rng).position(),
                MAX_ATTEMPTS as nat,
            ),
    {
        let one = Real::one();
        let mut attempt: u32 = 0;
        while attempt < MAX_ATTEMPTS
            invariant
                rng.script() == old(rng).script(),
                one@ == ONE_RAW,
                attempt <= MAX_ATTEMPTS,
                old(rng).is_scripted() ==> unit_sample(
                    rng.script(),
                    rng.position(),
                    (MAX_ATTEMPTS - attempt) as nat,
                ) == unit_sample(old(rng).script(), old(rng).position(), MAX_ATTEMPTS as nat),
            decreases MAX_ATTEMPTS - attempt,
        {
            let v = Vector3::random_inclusive_between(rng, one.neg(), one);
            if v.magnitude_squared().lt(one) && v.magnitude().raw != 0 {
                let r = v.normalize();
                assert(in_unit_ball(v@) && magnitude_spec(v@) != 0 && r@ == normalize_spec(v@));
                return r;
            }
            attempt = attempt + 1;
        }
        Vector3::up()
    }

    /// A point of the unit ball on the side of the plane that `normal` points to.
    pub fn random_in_hemisphere(rng: &mut Random, normal: Vector3) -> (r: Vector3)
        ensures
            final(rng).script() == old(rng).script(),
            in_unit_ball(r@),
            dot_spec(r@, normal@) >= 0,
            old(rng).is_scripted() ==> final(rng).position() == ball_sample(
                old(rng).script(),
                old(rng).position(),
                MAX_ATTEMPTS as nat,
            ).1 && r@ == hemisphere_spec(
                ball_sample(old(rng).script(), old(rng).position(), MAX_ATTEMPTS as nat).0,
                normal@,
            ),
    {
        let v = Vector3::random_in_unit_sphere(rng);
        if Vector3::dot(&v, &normal).raw > 0 {
            v
        } else {
            proof {
                lemma_dot_neg(v@, normal@);
                lemma_magnitude_squared_neg(v@);
            }
            v.neg()
        }
    }
}

} // verus!
