//! Rays and what becomes of them.
//!
//! The color of a ray is found by following it: into the sky, where it hits
//! nothing; into the dark, where it is absorbed or has bounced too often;
//! else along the ray into which it is scattered, whose color the surface
//! attenuates. The colors are sums and products, which round, and are formed
//! outside. Which of the cases holds is decided here.

use crate::color::Color;
use crate::material::Scattered;
use crate::object::{within, HitRecord, Object, World};
use crate::point3::Point3;
use crate::scalar::{Scalar, INFINITY};
use crate::vec3::Vec3;
use vstd::prelude::*;

verus! {

/// The pattern of 0.001. A hit counts from this distance on, so that a ray
/// that starts on a surface does not hit that surface where it starts.
pub const SHADOW_EPSILON: u64 = 0x3f50_624d_d2f1_a9fc;

/// What becomes of the light along a ray.
#[derive(Clone, Copy, Debug)]
pub enum Verdict {
    /// No light: the ray was absorbed, or may bounce no more.
    Black,
    /// The light of the sky in the direction of the ray, which hit nothing.
    Sky,
    /// The light along the child ray, which may bounce `depth` times,
    /// multiplied by the attenuation.
    Attenuated { attenuation: Color, ray: Ray, depth: u32 },
}

/// What was found along a ray that may bounce `depth` times. `found` is
/// `None` where the ray hit nothing, and else what the material that it hit
/// made of it.
pub open spec fn verdict_spec(depth: u32, found: Option<Option<Scattered>>) -> Verdict {
    if depth == 0 {
        Verdict::Black
    } else {
        match found {
            None => Verdict::Sky,
            Some(None) => Verdict::Black,
            Some(Some(s)) => Verdict::Attenuated {
                attenuation: s.attenuation,
                ray: s.ray,
                depth: (depth - 1) as u32,
            },
        }
    }
}

/// The number of bounces of a path that starts with `depth` bounces allowed
/// and finds `events` on its way, one after the other.
pub open spec fn bounces(depth: u32, events: Seq<Option<Option<Scattered>>>) -> nat
    decreases events.len(),
{
    if events.len() == 0 {
        0
    } else {
        match verdict_spec(depth, events[0]) {
            Verdict::Attenuated { depth: left, .. } => 1 + bounces(left, events.skip(1)),
            _ => 0,
        }
    }
}

/// A path never bounces more often than its depth allows, whatever it finds.
pub proof fn lemma_depth_bounds_path(depth: u32, events: Seq<Option<Option<Scattered>>>)
    ensures
        bounces(depth, events) <= depth,
    decreases events.len(),
{
    if events.len() > 0 {
        match verdict_spec(depth, events[0]) {
            Verdict::Attenuated { depth: left, .. } => {
                lemma_depth_bounds_path(left, events.skip(1));
            },
            _ => {},
        }
    }
}

/// A ray with an origin and a direction. The direction need not have unit
/// length.
#[derive(Clone, Copy, Debug)]
pub struct Ray {
    pub origin: Point3,
    pub direction: Vec3,
}

impl Ray {
    pub fn new(origin: Point3, direction: Vec3) -> (r: Ray)
        ensures
            r.origin == origin,
            r.direction == direction,
    {
        Ray { origin, direction }
    }

    pub fn origin(&self) -> (p: Point3)
        ensures
            p == self.origin,
    {
        self.origin
    }

    pub fn direction(&self) -> (v: Vec3)
        ensures
            v == self.direction,
    {
        self.direction
    }

    /// Whether a ray that may bounce `depth` times is black without a look
    /// at the world.
    pub fn spent(depth: u32) -> (r: bool)
        ensures
            r == (depth == 0),
            r ==> forall|found: Option<Option<Scattered>>|
                verdict_spec(depth, found) == Verdict::Black,
    {
        depth == 0
    }

    /// The hit that is seen along the ray in `world`: the nearest one from
    /// the distance 0.001 on, however far it is.
    pub fn strike<'a, T: Object>(&self, world: &'a World<T>) -> (r: Option<HitRecord<'a>>)
        ensures
            r == world.hit_spec(self, Scalar::of(SHADOW_EPSILON), Scalar::of(INFINITY)),
            r matches Some(h) ==> within(h.t, Scalar::of(SHADOW_EPSILON), Scalar::of(INFINITY)),
    {
        world.hit_by(self, Scalar::from_bits(SHADOW_EPSILON), Scalar::from_bits(INFINITY))
    }

    /// What becomes of the light along a ray that may bounce `depth` times.
    /// `found` is `None` where the ray hit nothing, and else what the
    /// material that it hit made of it.
    pub fn verdict(depth: u32, found: Option<Option<Scattered>>) -> (v: Verdict)
        ensures
            v == verdict_spec(depth, found),
    {
        if depth == 0 {
            Verdict::Black
        } else {
            match found {
                None => Verdict::Sky,
                Some(None) => Verdict::Black,
                Some(Some(s)) => Verdict::Attenuated {
                    attenuation: s.attenuation,
                    ray: s.ray,
                    depth: depth - 1,
                },
            }
        }
    }
}

} // verus!
