//! The path integrator: recursive radiance estimates, per-pixel Monte Carlo
//! averaging and the tone mapping to bytes.
use vstd::prelude::*;

use crate::camera::{ray_through, Camera};
use crate::material::{
    in_unit_range, lemma_attenuation_bounds, scatter_spec, scatters, white, Scatter,
};
use crate::random::{
    ball_sample, disk_sample, draw, hemisphere_spec, in_unit_ball, step, unit_spec, Random,
    MAX_ATTEMPTS,
};
use crate::ray::{Hit, Ray, RayHit};
use crate::scalar::{
    add_spec, div_spec, lemma_mul_one, lemma_mul_unit_monotone, mul_spec, sub_spec, Real, ONE_RAW,
    RAW_MAX,
};
use crate::scene::{is_nearest_at, is_nearest_hit, materials_valid, nearest_spec, HitTarget};
use crate::sphere::{is_record, Sphere};
use crate::vector::{
    add3, clamp3, clamp_spec, div3, dot_spec, lerp_spec, magnitude_spec, mul3, normalize_spec, scale3, sqrt3,
    sub3, vec_of, Vector3, V3,
};

verus! {

/// Raw value of the smallest accepted hit distance (about `0.001`), which
/// keeps a scattered ray from meeting the surface it leaves.
pub const SHADOW_ACNE_RAW: i64 = 4294967;

pub open spec fn black() -> V3 {
    (0, 0, 0)
}

/// Raw values of the sky color `(0.5, 0.7, 1.0)`.
pub open spec fn sky_blue() -> V3 {
    (0x80000000, 3006477107, ONE_RAW as int)
}

/// The vertical gradient from white to sky blue, by the height of the
/// normalized direction; a ray without direction gets the middle of it.
/// The blend factor is kept within `[0, 1]`, which the rounding of the
/// normalized height could otherwise leave by a little.
pub open spec fn background_spec(ray: Ray) -> V3 {
    let height = if magnitude_spec(ray.direction@) == 0 {
        0
    } else {
        normalize_spec(ray.direction@).1
    };
    let t = clamp_spec(mul_spec(0x80000000, add_spec(height, ONE_RAW as int)), 0, ONE_RAW as int);
    lerp_spec(white(), sky_blue(), t)
}

/// One step of the estimate along `ray`: the background where the ray meets
/// nothing beyond the shadow-acne distance; black where the surface hit
/// absorbs the ray; else the attenuation times `rest`, the estimate along
/// the scattered ray.
pub open spec fn radiance_step(
    spheres: Seq<Sphere>,
    ray: Ray,
    hit: Option<RayHit>,
    sc: Option<Scatter>,
    rest: V3,
    c: V3,
) -> bool {
    &&& is_nearest_hit(spheres, ray, SHADOW_ACNE_RAW as int, RAW_MAX as int, spheres.len() as int, hit)
    &&& match hit {
        None => c == background_spec(ray),
        Some(h) => {
            &&& scatters(h.material, ray, h, sc)
            &&& match sc {
                None => c == black(),
                Some(s) => c == mul3(s.attenuation@, rest),
            }
        },
    }
}

/// `c` is a possible radiance estimate along `ray` with `depth` bounces
/// left: black once no bounce is left, else one step whose scattered ray,
/// if any, carries an estimate with one bounce fewer.
pub open spec fn is_radiance(spheres: Seq<Sphere>, ray: Ray, depth: nat, c: V3) -> bool
    decreases depth,
{
    if depth == 0 {
        c == black()
    } else {
        exists|hit: Option<RayHit>, sc: Option<Scatter>, rest: V3|
            #[trigger] radiance_step(spheres, ray, hit, sc, rest, c) && (hit is Some ==> (
            sc matches Some(s) ==> is_radiance(spheres, s.ray, (depth - 1) as nat, rest)))
    }
}

/// The estimate along `ray` with `depth` bounces left when the draws come
/// from a script at position `p`, and the position after it.
pub open spec fn trace_spec(spheres: Seq<Sphere>, ray: Ray, depth: nat, script: Seq<u64>, p: int) -> (V3, int)
    decreases depth,
{
    if depth == 0 {
        (black(), p)
    } else {
        match nearest_spec(spheres, ray, SHADOW_ACNE_RAW as int, RAW_MAX as int) {
            None => (background_spec(ray), p),
            Some(h) => {
                let (sc, q) = scatter_spec(h.material, ray, h, script, p);
                match sc {
                    None => (black(), q),
                    Some(s) => {
                        let (rest, q2) = trace_spec(spheres, s.ray, (depth - 1) as nat, script, q);
                        (mul3(s.attenuation@, rest), q2)
                    },
                }
            },
        }
    }
}

/// The background color seen along `ray`.
pub fn background(ray: &Ray) -> (r: Vector3)
    ensures
        r@ == background_spec(*ray),
{
    let height = if ray.direction.magnitude().raw == 0 {
        Real::zero()
    } else {
        ray.direction.normalize().y
    };
    let half = Real::from_raw(0x80000000);
    let t = half.mul(height.add(Real::one())).clamp(Real::zero(), Real::one());
    let sky = Vector3::new(half, Real::from_raw(3006477107), Real::one());
    Vector3::lerp(&Vector3::ones(), &sky, t)
}

/// Normal shading: `(normal + 1) / 2` where the ray meets a sphere at a
/// positive parameter, the background elsewhere.
pub open spec fn normal_shade_spec(spheres: Seq<Sphere>, ray: Ray) -> V3 {
    match nearest_spec(spheres, ray, 0, RAW_MAX as int) {
        Some(h) => scale3(add3(h.normal@, white()), 0x80000000),
        None => background_spec(ray),
    }
}

/// Shades by the surface normal: `(normal + 1) / 2` where the ray meets a
/// sphere, the background elsewhere.
pub fn ray_color(ray: &Ray, world: &HitTarget) -> (r: Vector3)
    ensures
        r@ == normal_shade_spec(world@, *ray),
{
    let hit = world.hit(ray, (Real::zero(), Real::from_raw(RAW_MAX)));
    match hit {
        Some(h) => h.normal.add(Vector3::ones()).scale(Real::from_raw(0x80000000)),
        None => background(ray),
    }
}

/// A ray that meets nothing sees the background.
pub proof fn lemma_radiance_miss(spheres: Seq<Sphere>, ray: Ray, depth: nat)
    requires
        depth > 0,
        is_nearest_hit(spheres, ray, SHADOW_ACNE_RAW as int, RAW_MAX as int, spheres.len() as int, None),
    ensures
        is_radiance(spheres, ray, depth, background_spec(ray)),
{
    assert(radiance_step(spheres, ray, None, None, black(), background_spec(ray)));
}

/// A ray that the surface it meets absorbs carries no light.
pub proof fn lemma_radiance_absorbed(spheres: Seq<Sphere>, ray: Ray, depth: nat, h: RayHit)
    requires
        depth > 0,
        is_nearest_hit(spheres, ray, SHADOW_ACNE_RAW as int, RAW_MAX as int, spheres.len() as int, Some(h)),
        scatters(h.material, ray, h, None),
    ensures
        is_radiance(spheres, ray, depth, black()),
{
    assert(radiance_step(spheres, ray, Some(h), None, black(), black()));
}

/// A scattered ray carries the attenuation times what the outgoing ray carries.
pub proof fn lemma_radiance_scattered(
    spheres: Seq<Sphere>,
    ray: Ray,
    depth: nat,
    h: RayHit,
    s: Scatter,
    rest: V3,
)
    requires
        depth > 0,
        is_nearest_hit(spheres, ray, SHADOW_ACNE_RAW as int, RAW_MAX as int, spheres.len() as int, Some(h)),
        scatters(h.material, ray, h, Some(s)),
        is_radiance(spheres, s.ray, (depth - 1) as nat, rest),
    ensures
        is_radiance(spheres, ray, depth, mul3(s.attenuation@, rest)),
{
    assert(radiance_step(spheres, ray, Some(h), Some(s), rest, mul3(s.attenuation@, rest)));
}

/// Every albedo of the scene lies within `[0, 1]`.
pub open spec fn albedos_in_unit(spheres: Seq<Sphere>) -> bool {
    forall|i: int|
        0 <= i < spheres.len() ==> ((#[trigger] spheres[i]).material.albedo() matches Some(a)
            ==> in_unit_range(a@))
}

/// The background lies within `[0, 1]` in every channel.
pub proof fn lemma_background_unit(ray: Ray)
    ensures
        in_unit_range(background_spec(ray)),
{
    let one = ONE_RAW as int;
    let height = if magnitude_spec(ray.direction@) == 0 {
        0
    } else {
        normalize_spec(ray.direction@).1
    };
    let t = clamp_spec(mul_spec(0x80000000, add_spec(height, one)), 0, one);
    assert(0 <= t <= one);
    lemma_mul_one(one - t);
    assert(sub_spec(one, t) == one - t);
    let sky = sky_blue();
    lemma_mul_unit_monotone(t, sky.0, t, one);
    lemma_mul_unit_monotone(t, sky.1, t, one);
    lemma_mul_unit_monotone(t, sky.2, t, one);
    lemma_mul_one(t);
    assert(mul_spec(t, one) == t);
}

/// Where every albedo lies within `[0, 1]`, so does every radiance
/// estimate, in every channel: it is never negative and never brighter than
/// white.
pub proof fn lemma_radiance_unit(spheres: Seq<Sphere>, ray: Ray, depth: nat, c: V3)
    requires
        is_radiance(spheres, ray, depth, c),
        albedos_in_unit(spheres),
    ensures
        in_unit_range(c),
    decreases depth,
{
    if depth > 0 {
        let (hit, sc, rest) = choose|hit: Option<RayHit>, sc: Option<Scatter>, rest: V3|
            #[trigger] radiance_step(spheres, ray, hit, sc, rest, c) && (hit is Some ==> (
            sc matches Some(s) ==> is_radiance(spheres, s.ray, (depth - 1) as nat, rest)));
        match hit {
            None => {
                lemma_background_unit(ray);
            },
            Some(h) => {
                if let Some(s) = sc {
                    reveal(is_nearest_hit);
                    reveal(is_record);
                    let best = choose|best: int|
                        is_nearest_at(
                            spheres,
                            ray,
                            SHADOW_ACNE_RAW as int,
                            RAW_MAX as int,
                            spheres.len() as int,
                            best,
                            h,
                        );
                    assert(h.material == spheres[best].material);
                    lemma_attenuation_bounds(h.material, ray, h, s);
                    lemma_radiance_unit(spheres, s.ray, (depth - 1) as nat, rest);
                    let a = s.attenuation@;
                    let one = ONE_RAW as int;
                    lemma_mul_one(one);
                    lemma_mul_unit_monotone(a.0, rest.0, one, one);
                    lemma_mul_unit_monotone(a.1, rest.1, one, one);
                    lemma_mul_unit_monotone(a.2, rest.2, one, one);
                }
            },
        }
    }
}

/// The radiance estimate along `ray` with `depth` bounces left.
pub fn ray_color_diffuse(ray: &Ray, world: &HitTarget, depth: u32, rng: &mut Random) -> (r: Vector3)
    requires
        materials_valid(world@),
    ensures
        final(rng).script() == old(rng).script(),
        is_radiance(world@, *ray, depth as nat, r@),
        depth == 0 ==> r@ == black(),
        albedos_in_unit(world@) ==> in_unit_range(r@),
        old(rng).is_scripted() ==> (r@, final(rng).position()) == trace_spec(
            world@,
            *ray,
            depth as nat,
            old(rng).script(),
            old(rng).position(),
        ),
    decreases depth,
{
    if depth == 0 {
        return Vector3::zero();
    }
    let hit = world.hit(ray, (Real::from_raw(SHADOW_ACNE_RAW), Real::from_raw(RAW_MAX)));
    let r = match hit {
        None => {
            proof {
                lemma_radiance_miss(world@, *ray, depth as nat);
            }
            background(ray)
        },
        Some(h) => {
            let sc = h.material.scatter(ray, &h, rng);
            match sc {
                None => {
                    proof {
                        lemma_radiance_absorbed(world@, *ray, depth as nat, h);
                    }
                    Vector3::zero()
                },
                Some(s) => {
                    let rest = ray_color_diffuse(&s.ray, world, depth - 1, rng);
                    proof {
                        lemma_radiance_scattered(world@, *ray, depth as nat, h, s, rest@);
                    }
                    s.attenuation.mul(rest)
                },
            }
        },
    };
    proof {
        if albedos_in_unit(world@) {
            lemma_radiance_unit(world@, *ray, depth as nat, r@);
        }
    }
    r
}

/// The bounce of the hemisphere-sampling variant: the ray from the hit point
/// toward `point + normal + sample`.
pub open spec fn hemisphere_bounce(h: RayHit, sample: V3) -> Ray {
    Ray {
        origin: h.point,
        direction: vec_of(sub3(add3(add3(h.point@, h.normal@), sample), h.point@)),
    }
}

/// One step of the hemisphere-sampling variant: the background where the ray
/// meets nothing, else half of `rest`, an estimate along the bounce toward a
/// sample of the unit ball on the normal's side.
pub open spec fn hemisphere_step(
    spheres: Seq<Sphere>,
    ray: Ray,
    depth: nat,
    hit: Option<RayHit>,
    sample: V3,
    rest: V3,
    c: V3,
) -> bool {
    &&& is_nearest_hit(spheres, ray, SHADOW_ACNE_RAW as int, RAW_MAX as int, spheres.len() as int, hit)
    &&& match hit {
        None => c == background_spec(ray),
        Some(h) => {
            &&& in_unit_ball(sample)
            &&& dot_spec(sample, h.normal@) >= 0
            &&& is_radiance(spheres, hemisphere_bounce(h, sample), (depth - 1) as nat, rest)
            &&& c == scale3(rest, 0x80000000)
        },
    }
}

/// The hemisphere-sampling estimate when the draws come from a script at
/// position `p`, and the position after it.
pub open spec fn hemisphere_trace_spec(
    spheres: Seq<Sphere>,
    ray: Ray,
    depth: nat,
    script: Seq<u64>,
    p: int,
) -> (V3, int) {
    if depth == 0 {
        (black(), p)
    } else {
        match nearest_spec(spheres, ray, SHADOW_ACNE_RAW as int, RAW_MAX as int) {
            None => (background_spec(ray), p),
            Some(h) => {
                let (v, q) = ball_sample(script, p, MAX_ATTEMPTS as nat);
                let sample = hemisphere_spec(v, h.normal@);
                let (rest, q2) = trace_spec(spheres, hemisphere_bounce(h, sample), (depth - 1) as nat, script, q);
                (scale3(rest, 0x80000000), q2)
            },
        }
    }
}

/// Radiance with a first diffuse bounce drawn from the hemisphere around
/// the normal, keeping half of the light.
pub fn ray_color_diffuse_hemisphere(ray: &Ray, world: &HitTarget, depth: u32, rng: &mut Random) -> (r: Vector3)
    requires
        materials_valid(world@),
    ensures
        final(rng).script() == old(rng).script(),
        depth == 0 ==> r@ == black(),
        depth > 0 ==> exists|hit: Option<RayHit>, sample: V3, rest: V3|
            #[trigger] hemisphere_step(world@, *ray, depth as nat, hit, sample, rest, r@),
        old(rng).is_scripted() ==> (r@, final(rng).position()) == hemisphere_trace_spec(
            world@,
            *ray,
            depth as nat,
            old(rng).script(),
            old(rng).position(),
        ),
{
    if depth == 0 {
        return Vector3::zero();
    }
    let hit = world.hit(ray, (Real::from_raw(SHADOW_ACNE_RAW), Real::from_raw(RAW_MAX)));
    match hit {
        None => {
            let r = background(ray);
            assert(hemisphere_step(world@, *ray, depth as nat, hit, black(), black(), r@));
            r
        },
        Some(h) => {
            let sample = Vector3::random_in_hemisphere(rng, h.normal);
            let diffuse_target = h.point.add(h.normal).add(sample);
            let bounce = Ray::of(h.point, diffuse_target.sub(h.point));
            assert(bounce == hemisphere_bounce(h, sample@));
            let rest = ray_color_diffuse(&bounce, world, depth - 1, rng);
            let r = rest.scale(Real::from_raw(0x80000000));
            assert(hemisphere_step(world@, *ray, depth as nat, hit, sample@, rest@, r@));
            r
        },
    }
}

/// A channel's byte: its whole part, floored at 0 and capped at 255.
pub open spec fn byte_spec(x: int) -> u8 {
    if x <= 0 {
        0
    } else if x / (ONE_RAW as int) >= 255 {
        255
    } else {
        (x / (ONE_RAW as int)) as u8
    }
}

/// Gamma-corrects the mean of `samples` estimates whose sum is `sum`, clamps
/// it to `[0, 1]` and scales it to bytes.
pub open spec fn pixel_bytes_spec(sum: V3, samples: int) -> Seq<u8> {
    let c = scale3(clamp3(sqrt3(div3(sum, samples * ONE_RAW)), 0, ONE_RAW as int), 256 * ONE_RAW);
    seq![byte_spec(c.0), byte_spec(c.1), byte_spec(c.2)]
}

/// The horizontal viewport fraction of column `i` jittered by `f`.
pub open spec fn u_spec(i: int, width: int, f: int) -> int {
    div_spec(add_spec(i * ONE_RAW, f), width * ONE_RAW)
}

/// The vertical viewport fraction of row `j`, counted from the top,
/// jittered by `f`; the viewport counts from the bottom.
pub open spec fn v_spec(j: int, height: int, f: int) -> int {
    div_spec(add_spec((height - 1 - j) * ONE_RAW, f), height * ONE_RAW)
}

/// Where the image is drawn and how: the scene, the camera, the image size
/// and the number of bounces.
pub struct Frame<'a> {
    pub world: &'a HitTarget,
    pub camera: &'a Camera,
    pub width: u32,
    pub height: u32,
    pub max_depth: u32,
}

/// One sample of pixel `(i, j)`: a camera ray through the pixel jittered by
/// fractions `fu` and `fv`, leaving the lens at `disk`, carries `c`, which
/// brings the running sum from `prev` to `sum`.
pub open spec fn sample_step(
    spheres: Seq<Sphere>,
    camera: Camera,
    i: int,
    j: int,
    width: int,
    height: int,
    depth: nat,
    prev: V3,
    fu: int,
    fv: int,
    disk: V3,
    c: V3,
    sum: V3,
) -> bool {
    &&& 0 <= fu < ONE_RAW
    &&& 0 <= fv < ONE_RAW
    &&& in_unit_ball(disk)
    &&& disk.2 == 0
    &&& is_radiance(
        spheres,
        ray_through(camera, u_spec(i, width, fu), v_spec(j, height, fv), disk),
        depth,
        c,
    )
    &&& sum == add3(prev, c)
}

/// `sum` is a possible sum of `n` samples of pixel `(i, j)`.
pub open spec fn is_sample_sum(
    spheres: Seq<Sphere>,
    camera: Camera,
    i: int,
    j: int,
    width: int,
    height: int,
    depth: nat,
    n: nat,
    sum: V3,
) -> bool
    decreases n,
{
    if n == 0 {
        sum == black()
    } else {
        exists|prev: V3, fu: int, fv: int, disk: V3, c: V3|
            #[trigger] sample_step(spheres, camera, i, j, width, height, depth, prev, fu, fv, disk, c, sum)
                && is_sample_sum(spheres, camera, i, j, width, height, depth, (n - 1) as nat, prev)
    }
}

/// The sum of the first `n` samples of pixel `(i, j)` when the draws come
/// from a script at position `p`, and the position after them. Each sample
/// draws the two jitters, then the lens point, then the path.
#[verifier::opaque]
pub open spec fn pixel_sum_spec(
    spheres: Seq<Sphere>,
    camera: Camera,
    i: int,
    j: int,
    width: int,
    height: int,
    depth: nat,
    n: nat,
    script: Seq<u64>,
    p: int,
) -> (V3, int)
    decreases n,
{
    if n == 0 {
        (black(), p)
    } else {
        let (prev, q) = pixel_sum_spec(spheres, camera, i, j, width, height, depth, (n - 1) as nat, script, p);
        let fu = unit_spec(draw(script, q));
        let q1 = step(script, q);
        let fv = unit_spec(draw(script, q1));
        let q2 = step(script, q1);
        let (disk, q3) = disk_sample(script, q2, MAX_ATTEMPTS as nat);
        let ray = ray_through(camera, u_spec(i, width, fu), v_spec(j, height, fv), disk);
        let (c, q4) = trace_spec(spheres, ray, depth, script, q3);
        (add3(prev, c), q4)
    }
}

/// `bytes` is a possible value of pixel `(i, j)` from `samples` samples.
#[verifier::opaque]
pub open spec fn is_pixel(
    spheres: Seq<Sphere>,
    camera: Camera,
    i: int,
    j: int,
    width: int,
    height: int,
    depth: nat,
    samples: nat,
    bytes: Seq<u8>,
) -> bool {
    exists|sum: V3|
        #[trigger] is_sample_sum(spheres, camera, i, j, width, height, depth, samples, sum) && bytes
            == pixel_bytes_spec(sum, samples as int)
}

/// The first `k` pixels of the image, row by row from the top, when the
/// draws come from a script at position `p`, and the position after them.
pub open spec fn image_spec(
    spheres: Seq<Sphere>,
    camera: Camera,
    width: int,
    height: int,
    depth: nat,
    samples: nat,
    script: Seq<u64>,
    p: int,
    k: nat,
) -> (Seq<Seq<u8>>, int)
    decreases k,
{
    if k == 0 {
        (Seq::empty(), p)
    } else {
        let (prev, q) = image_spec(spheres, camera, width, height, depth, samples, script, p, (k - 1) as nat);
        let m = k - 1;
        let (sum, q2) = pixel_sum_spec(
            spheres,
            camera,
            m % width,
            m / width,
            width,
            height,
            depth,
            samples,
            script,
            q,
        );
        (prev.push(pixel_bytes_spec(sum, samples as int)), q2)
    }
}

/// `pixels` is the image that `Frame::render` produces from a scripted
/// source at position `p`.
pub open spec fn is_scripted_image(
    spheres: Seq<Sphere>,
    camera: Camera,
    width: int,
    height: int,
    depth: nat,
    samples: nat,
    script: Seq<u64>,
    p: int,
    pixels: Seq<[u8; 3]>,
) -> bool {
    let (image, q) = image_spec(spheres, camera, width, height, depth, samples, script, p, (width * height) as nat);
    &&& pixels.len() == image.len()
    &&& forall|k: int| 0 <= k < pixels.len() ==> (#[trigger] pixels[k])@ == image[k]
}

/// Rendering is reproducible: two renders of one scene with one camera from
/// scripted sources with the same script at the same position give the same
/// bytes for every pixel.
pub proof fn lemma_render_reproducible(
    spheres: Seq<Sphere>,
    camera: Camera,
    width: int,
    height: int,
    depth: nat,
    samples: nat,
    script: Seq<u64>,
    p: int,
    first: Seq<[u8; 3]>,
    second: Seq<[u8; 3]>,
)
    requires
        is_scripted_image(spheres, camera, width, height, depth, samples, script, p, first),
        is_scripted_image(spheres, camera, width, height, depth, samples, script, p, second),
    ensures
        first.len() == second.len(),
        forall|k: int| 0 <= k < first.len() ==> (#[trigger] first[k])@ == second[k]@,
{
    assert forall|k: int| 0 <= k < first.len() implies (#[trigger] first[k])@ == second[k]@ by {
        assert(first[k]@ == image_spec(spheres, camera, width, height, depth, samples, script, p, (width * height) as nat).0[k]);
        assert(second[k]@ == image_spec(spheres, camera, width, height, depth, samples, script, p, (width * height) as nat).0[k]);
    }
}

impl Vector3 {
    /// Each channel clamped to `[0, 1]` and scaled to `[0, 256]`.
    pub fn to_u8_range(&self) -> (r: Vector3)
        ensures
            r@ == scale3(clamp3(self@, 0, ONE_RAW as int), 256 * ONE_RAW),
    {
        self.clamp_each(Real::zero(), Real::one()).scale(Real::from_int(256))
    }

    /// The whole part of each channel, floored at 0 and capped at 255.
    pub fn to_bytes(&self) -> (r: [u8; 3])
        ensures
            r@ == seq![byte_spec(self.x@), byte_spec(self.y@), byte_spec(self.z@)],
    {
        let r = [to_byte(self.x), to_byte(self.y), to_byte(self.z)];
        assert(r@ =~= seq![byte_spec(self.x@), byte_spec(self.y@), byte_spec(self.z@)]);
        r
    }
}

fn to_byte(x: Real) -> (r: u8)
    ensures
        r == byte_spec(x@),
{
    if x.raw <= 0 {
        0
    } else if x.raw / ONE_RAW >= 255 {
        255
    } else {
        (x.raw / ONE_RAW) as u8
    }
}

/// Raw value of `255.999`, the scale that maps `[0, 1]` onto the byte values.
pub const BYTE_SCALE_RAW: i64 = 1099507433553;

/// Raw value of `0.999`, the top of the clamped range of a sampled color.
pub const SAMPLED_TOP_RAW: i64 = 4290672328;

/// A linear color in `[0, 1]` as bytes, without gamma correction.
pub fn color_bytes(color: Vector3) -> (r: [u8; 3])
    ensures
        r@ == color_bytes_spec(color@),
{
    color.scale(Real::from_raw(BYTE_SCALE_RAW)).to_bytes()
}

/// The mean of `samples` colors whose sum is `sum`, clamped to `[0, 0.999]`,
/// as bytes, without gamma correction.
pub fn sampled_color_bytes(sum: Vector3, samples: u32) -> (r: [u8; 3])
    requires
        1 <= samples <= 0x7fffffff,
    ensures
        ({
            let c = scale3(
                clamp3(div3(sum@, samples * ONE_RAW), 0, SAMPLED_TOP_RAW as int),
                256 * ONE_RAW,
            );
            r@ == seq![byte_spec(c.0), byte_spec(c.1), byte_spec(c.2)]
        }),
{
    let mean = sum.div(Real::from_int(samples as i32));
    mean.clamp_each(Real::zero(), Real::from_raw(SAMPLED_TOP_RAW)).scale(Real::from_int(256)).to_bytes()
}

/// The bytes of a linear color in `[0, 1]`, without gamma correction.
pub open spec fn color_bytes_spec(color: V3) -> Seq<u8> {
    let c = scale3(color, BYTE_SCALE_RAW as int);
    seq![byte_spec(c.0), byte_spec(c.1), byte_spec(c.2)]
}

/// Averages `samples` estimates whose sum is `sum`, gamma-corrects by the
/// square root and quantizes to bytes.
pub fn finish_pixel(sum: Vector3, samples: u32) -> (r: [u8; 3])
    requires
        1 <= samples <= 0x7fffffff,
    ensures
        r@ == pixel_bytes_spec(sum@, samples as int),
{
    let mean = sum.div(Real::from_int(samples as i32));
    mean.sqrt().to_u8_range().to_bytes()
}

impl<'a> Frame<'a> {
    pub open spec fn is_valid(&self) -> bool {
        &&& 1 <= self.width <= 0x7fffffff
        &&& 1 <= self.height <= 0x7fffffff
        &&& materials_valid(self.world@)
    }

    /// Pixel `(i, j)`, row `j` counted from the top, shaded by the normal
    /// of the surface that the camera ray through its corner meets.
    pub fn preview_pixel(&self, i: u32, j: u32, rng: &mut Random) -> (r: [u8; 3])
        requires
            self.is_valid(),
            i < self.width,
            j < self.height,
        ensures
            final(rng).script() == old(rng).script(),
            exists|disk: V3|
                in_unit_ball(disk) && disk.2 == 0 && r@ == color_bytes_spec(
                    normal_shade_spec(
                        self.world@,
                        #[trigger] ray_through(
                            *self.camera,
                            div_spec(i * ONE_RAW, self.width * ONE_RAW),
                            div_spec((self.height - 1 - j) * ONE_RAW, self.height * ONE_RAW),
                            disk,
                        ),
                    ),
                ),
    {
        let u = Real::from_int(i as i32).div(Real::from_int(self.width as i32));
        let v = Real::from_int((self.height - 1 - j) as i32).div(
            Real::from_int(self.height as i32),
        );
        let ray = self.camera.get_ray(u, v, rng);
        color_bytes(ray_color(&ray, self.world))
    }

    /// Estimates pixel `(i, j)`, row `j` counted from the top, from
    /// `samples` jittered camera rays.
    pub fn render_pixel(&self, i: u32, j: u32, samples: u32, rng: &mut Random) -> (r: [u8; 3])
        requires
            self.is_valid(),
            i < self.width,
            j < self.height,
            1 <= samples <= 0x7fffffff,
        ensures
            final(rng).script() == old(rng).script(),
            is_pixel(
                self.world@,
                *self.camera,
                i as int,
                j as int,
                self.width as int,
                self.height as int,
                self.max_depth as nat,
                samples as nat,
                r@,
            ),
            old(rng).is_scripted() ==> ({
                let (sum, q) = pixel_sum_spec(
                    self.world@,
                    *self.camera,
                    i as int,
                    j as int,
                    self.width as int,
                    self.height as int,
                    self.max_depth as nat,
                    samples as nat,
                    old(rng).script(),
                    old(rng).position(),
                );
                r@ == pixel_bytes_spec(sum, samples as int) && final(rng).position() == q
            }),
    {
        reveal(is_pixel);
        reveal(pixel_sum_spec);
        let ghost spheres = self.world@;
        let ghost cam = *self.camera;
        let column = Real::from_int(i as i32);
        let row = Real::from_int((self.height - 1 - j) as i32);
        let width = Real::from_int(self.width as i32);
        let height = Real::from_int(self.height as i32);
        let mut color_sum = Vector3::zero();
        let mut k: u32 = 0;
        while k < samples
            invariant
                self.is_valid(),
                i < self.width,
                j < self.height,
                spheres == self.world@,
                cam == *self.camera,
                column@ == i * ONE_RAW,
                row@ == (self.height - 1 - j) * ONE_RAW,
                width@ == self.width * ONE_RAW,
                height@ == self.height * ONE_RAW,
                k <= samples,
                rng.script() == old(rng).script(),
                is_sample_sum(
                    spheres,
                    cam,
                    i as int,
                    j as int,
                    self.width as int,
                    self.height as int,
                    self.max_depth as nat,
                    k as nat,
                    color_sum@,
                ),
                old(rng).is_scripted() ==> (color_sum@, rng.position()) == pixel_sum_spec(
                    spheres,
                    cam,
                    i as int,
                    j as int,
                    self.width as int,
                    self.height as int,
                    self.max_depth as nat,
                    k as nat,
                    old(rng).script(),
                    old(rng).position(),
                ),
            decreases samples - k,
        {
            let fu = rng.fraction();
            let fv = rng.fraction();
            let u = column.add(fu).div(width);
            let v = row.add(fv).div(height);
            let ray = self.camera.get_ray(u, v, rng);
            let c = ray_color_diffuse(&ray, self.world, self.max_depth, rng);
            let ghost prev = color_sum@;
            color_sum.add_assign(c);
            proof {
                reveal(pixel_sum_spec);
                let disk = choose|disk: V3|
                    in_unit_ball(disk) && disk.2 == 0 && ray == #[trigger] ray_through(cam, u@, v@, disk);
                assert(sample_step(
                    spheres,
                    cam,
                    i as int,
                    j as int,
                    self.width as int,
                    self.height as int,
                    self.max_depth as nat,
                    prev,
                    fu@,
                    fv@,
                    disk,
                    c@,
                    color_sum@,
                ));
            }
            k = k + 1;
        }
        let r = finish_pixel(color_sum, samples);
        assert(is_sample_sum(
            spheres,
            cam,
            i as int,
            j as int,
            self.width as int,
            self.height as int,
            self.max_depth as nat,
            samples as nat,
            color_sum@,
        ));
        r
    }

    /// Renders the whole image, row by row from the top, each pixel from
    /// `samples` samples.
    pub fn render(&self, samples: u32, rng: &mut Random) -> (r: Vec<[u8; 3]>)
        requires
            self.is_valid(),
            self.width * self.height <= usize::MAX,
            1 <= samples <= 0x7fffffff,
        ensures
            final(rng).script() == old(rng).script(),
            r@.len() == self.width * self.height,
            forall|k: int|
                0 <= k < r@.len() ==> is_pixel(
                    self.world@,
                    *self.camera,
                    k % (self.width as int),
                    k / (self.width as int),
                    self.width as int,
                    self.height as int,
                    self.max_depth as nat,
                    samples as nat,
                    (#[trigger] r@[k])@,
                ),
            old(rng).is_scripted() ==> is_scripted_image(
                self.world@,
                *self.camera,
                self.width as int,
                self.height as int,
                self.max_depth as nat,
                samples as nat,
                old(rng).script(),
                old(rng).position(),
                r@,
            ) && final(rng).position() == image_spec(
                self.world@,
                *self.camera,
                self.width as int,
                self.height as int,
                self.max_depth as nat,
                samples as nat,
                old(rng).script(),
                old(rng).position(),
                (self.width * self.height) as nat,
            ).1,
    {
        let width = self.width as usize;
        let count: usize = width * self.height as usize;
        let mut pixels: Vec<[u8; 3]> = Vec::new();
        let mut k: usize = 0;
        while k < count
            invariant
                self.is_valid(),
                1 <= samples <= 0x7fffffff,
                width == self.width,
                count == self.width * self.height,
                k <= count,
                pixels@.len() == k,
                rng.script() == old(rng).script(),
                forall|m: int|
                    0 <= m < k ==> is_pixel(
                        self.world@,
                        *self.camera,
                        m % (self.width as int),
                        m / (self.width as int),
                        self.width as int,
                        self.height as int,
                        self.max_depth as nat,
                        samples as nat,
                        (#[trigger] pixels@[m])@,
                    ),
                old(rng).is_scripted() ==> ({
                    let (image, q) = image_spec(
                        self.world@,
                        *self.camera,
                        self.width as int,
                        self.height as int,
                        self.max_depth as nat,
                        samples as nat,
                        old(rng).script(),
                        old(rng).position(),
                        k as nat,
                    );
                    &&& image.len() == k
                    &&& forall|m: int| 0 <= m < k ==> (#[trigger] pixels@[m])@ == image[m]
                    &&& rng.position() == q
                }),
            decreases count - k,
        {
            let i = k % width;
            let j = k / width;
            proof {
                vstd::arithmetic::div_mod::lemma_div_is_ordered(k as int, count as int, width as int);
                vstd::arithmetic::div_mod::lemma_div_multiples_vanish(self.height as int, width as int);
                assert(j <= self.height);
                if j == self.height {
                    vstd::arithmetic::div_mod::lemma_fundamental_div_mod(k as int, width as int);
                    assert(k >= width * j) by (nonlinear_arith)
                        requires
                            k == width * (k / width) + k % width,
                            k % width >= 0,
                            j == k / width,
                    ;
                    assert(width * j == count) by (nonlinear_arith)
                        requires
                            j == self.height,
                            count == width * self.height,
                    ;
                }
            }
            let pixel = self.render_pixel(i as u32, j as u32, samples, rng);
            pixels.push(pixel);
            k = k + 1;
        }
        pixels
    }
}

} // verus!
