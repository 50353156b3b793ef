//! The thin-lens camera: maps image-plane coordinates to primary rays.
use vstd::prelude::*;

use crate::random::{disk_sample, in_unit_ball, Random, MAX_ATTEMPTS};
use crate::ray::Ray;
use crate::scalar::{div_spec, mul_spec, Real, ONE_RAW};
use crate::vector::{
    add3, cross_spec, div3, magnitude_spec, normalize_spec, scale3, sub3, vec_of, Vector3, V3,
};

verus! {

/// A camera's frame, viewport and lens, fixed at construction.
#[derive(Clone, Copy, Debug, PartialEq, Eq, Structural)]
pub struct Camera {
    /// Center of the lens.
    pub origin: Vector3,
    /// Bottom-left corner of the viewport on the focal plane.
    pub lower_left_corner: Vector3,
    /// Span of the viewport from left to right.
    pub horizontal: Vector3,
    /// Span of the viewport from bottom to top.
    pub vertical: Vector3,
    /// Unit vector from the target back to the eye.
    pub front: Vector3,
    pub right: Vector3,
    pub up: Vector3,
    pub lens_radius: Real,
}

pub open spec fn two() -> int {
    2 * ONE_RAW
}

pub open spec fn front_spec(position: V3, at: V3) -> V3 {
    normalize_spec(sub3(position, at))
}

pub open spec fn right_spec(position: V3, at: V3, up: V3) -> V3 {
    normalize_spec(cross_spec(up, front_spec(position, at)))
}

/// The camera's defining formulas.
pub open spec fn is_camera(
    c: Camera,
    position: V3,
    at: V3,
    up: V3,
    half_height: int,
    aspect_ratio: int,
    aperture: int,
    focus_distance: int,
) -> bool {
    let viewport_height = mul_spec(two(), half_height);
    let viewport_width = mul_spec(aspect_ratio, viewport_height);
    let front = front_spec(position, at);
    let right = right_spec(position, at, up);
    let true_up = cross_spec(front, right);
    let horizontal = scale3(right, mul_spec(focus_distance, viewport_width));
    let vertical = scale3(true_up, mul_spec(focus_distance, viewport_height));
    &&& c.origin@ == position
    &&& c.front@ == front
    &&& c.right@ == right
    &&& c.up@ == true_up
    &&& c.horizontal@ == horizontal
    &&& c.vertical@ == vertical
    &&& c.lower_left_corner@ == sub3(
        sub3(sub3(position, div3(horizontal, two())), div3(vertical, two())),
        scale3(front, focus_distance),
    )
    &&& c.lens_radius@ == div_spec(aperture, two())
}

/// The ray from the lens point offset by `disk` (scaled by the lens radius)
/// toward the focal-plane point at `(u, v)`.
pub open spec fn ray_through(c: Camera, u: int, v: int, disk: V3) -> Ray {
    let d = scale3(disk, c.lens_radius@);
    let offset = add3(scale3(c.right@, d.0), scale3(c.up@, d.1));
    Ray {
        origin: vec_of(add3(c.origin@, offset)),
        direction: vec_of(
            sub3(
                sub3(
                    add3(add3(c.lower_left_corner@, scale3(c.horizontal@, u)), scale3(c.vertical@, v)),
                    c.origin@,
                ),
                offset,
            ),
        ),
    }
}

impl Camera {
    /// A camera at `position` looking at `at`, with `up` as the world's up
    /// hint, `half_height` the tangent of half the vertical field of view,
    /// the viewport's `aspect_ratio`, the lens `aperture` and the distance
    /// to the plane in focus.
    pub fn new(
        position: Vector3,
        at: Vector3,
        up: Vector3,
        half_height: Real,
        aspect_ratio: Real,
        aperture: Real,
        focus_distance: Real,
    ) -> (r: Camera)
        requires
            magnitude_spec(sub3(position@, at@)) != 0,
            magnitude_spec(cross_spec(up@, front_spec(position@, at@))) != 0,
        ensures
            is_camera(
                r,
                position@,
                at@,
                up@,
                half_height@,
                aspect_ratio@,
                aperture@,
                focus_distance@,
            ),
    {
        let two = Real::from_int(2);
        let viewport_height = two.mul(half_height);
        let viewport_width = aspect_ratio.mul(viewport_height);
        let front = position.sub(at).normalize();
        let right = Vector3::cross(&up, &front).normalize();
        let true_up = Vector3::cross(&front, &right);
        let horizontal = right.scale(focus_distance.mul(viewport_width));
        let vertical = true_up.scale(focus_distance.mul(viewport_height));
        let lower_left_corner = position.sub(horizontal.div(two)).sub(vertical.div(two)).sub(
            front.scale(focus_distance),
        );
        let lens_radius = aperture.div(two);
        Camera {
            origin: position,
            lower_left_corner,
            horizontal,
            vertical,
            front,
            right,
            up: true_up,
            lens_radius,
        }
    }

    /// The ray toward the viewport point at fractions `(u, v)` of its
    /// width and height, leaving from a random point of the lens.
    pub fn get_ray(&self, u: Real, v: Real, rng: &mut Random) -> (r: Ray)
        ensures
            final(rng).script() == old(rng).script(),
            exists|disk: V3| in_unit_ball(disk) && disk.2 == 0 && r == #[trigger] ray_through(*self, u@, v@, disk),
            old(rng).is_scripted() ==> ({
                let (disk, q) = disk_sample(old(rng).script(), old(rng).position(), MAX_ATTEMPTS as nat);
                r == ray_through(*self, u@, v@, disk) && final(rng).position() == q
            }),
    {
        let disk = Vector3::random_in_unit_disk(rng);
        let random_displacement = disk.scale(self.lens_radius);
        let offset = self.right.scale(random_displacement.x).add(self.up.scale(random_displacement.y));
        let r = Ray::of(
            self.origin.add(offset),
            self.lower_left_corner.add(self.horizontal.scale(u)).add(self.vertical.scale(v)).sub(
                self.origin,
            ).sub(offset),
        );
        assert(r == ray_through(*self, u@, v@, disk@));
        r
    }
}

} // verus!
