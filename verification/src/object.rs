//! Objects and world.
//!
//! An object is anything that a ray can hit. Where a ray meets a sphere is
//! found by solving a quadratic, which rounds; which of its roots counts,
//! which way the normal is stored, and which of many hits is the one that is
//! seen, is decided here.

use crate::error::ConfigError;
use crate::material::Material;
use crate::point3::Point3;
use crate::ray::Ray;
use crate::scalar::{lemma_order_by_key, Scalar, ZERO};
use crate::vec3::Vec3;
use vstd::prelude::*;

verus! {

/// A collection of information when a ray hits an object.
#[derive(Clone, Copy, Debug)]
pub struct HitRecord<'a> {
    /// The travel time of the incoming ray at the hit moment.
    pub t: Scalar,
    /// The hit point.
    pub p: Point3,
    /// The normal vector of the hit surface at the hit point, of the two the
    /// one that points against the incoming ray.
    pub normal: Vec3,
    /// Whether the ray hit the object at its front face.
    pub is_front: bool,
    /// The material of the hit object.
    pub material: &'a Material,
}

/// `t` lies strictly between `t_min` and `t_max`.
pub open spec fn within(t: Scalar, t_min: Scalar, t_max: Scalar) -> bool {
    t_min.lt_spec(t) && t.lt_spec(t_max)
}

/// The root of the quadratic that is the hit: the smaller one where it lies
/// in the interval, else the larger one where that does, else none.
pub open spec fn select_root_spec(near: Scalar, far: Scalar, t_min: Scalar, t_max: Scalar) -> Option<
    Scalar,
> {
    if within(near, t_min, t_max) {
        Some(near)
    } else if within(far, t_min, t_max) {
        Some(far)
    } else {
        None
    }
}

/// Whether the quadratic has no real root, so that the ray passes the
/// sphere: the discriminant is below zero.
pub fn passes_by(discriminant: Scalar) -> (r: bool)
    ensures
        r == discriminant.lt_spec(Scalar::of(ZERO)),
{
    discriminant.lt(Scalar::from_bits(ZERO))
}

/// Picks the root at which the ray hits: `near` is the smaller root of the
/// quadratic and `far` the larger one. The root that is picked lies strictly
/// inside the interval.
pub fn select_root(near: Scalar, far: Scalar, t_min: Scalar, t_max: Scalar) -> (r: Option<Scalar>)
    ensures
        r == select_root_spec(near, far, t_min, t_max),
        r matches Some(t) ==> within(t, t_min, t_max),
{
    if near.gt(t_min) && near.lt(t_max) {
        Some(near)
    } else if far.gt(t_min) && far.lt(t_max) {
        Some(far)
    } else {
        None
    }
}

impl<'a> HitRecord<'a> {
    /// Whether the front face was hit, given the dot product of the ray's
    /// direction with the outward normal.
    pub open spec fn front(facing: Scalar) -> bool {
        facing.lt_spec(Scalar::of(ZERO))
    }

    /// The normal as it is stored: the outward one where the front face was
    /// hit, else its opposite.
    pub open spec fn oriented(outward: Vec3, facing: Scalar) -> Vec3 {
        if Self::front(facing) {
            outward
        } else {
            outward.neg_spec()
        }
    }

    /// `facing` as it goes with the stored normal: unchanged where that is
    /// the outward normal, with the opposite sign where it is the other.
    pub open spec fn stored_facing(facing: Scalar) -> Scalar {
        if Self::front(facing) {
            facing
        } else {
            facing.neg_spec()
        }
    }

    /// The record of a hit at `t` in `p`. `outward` is the surface normal
    /// that points out of the object and `facing` the dot product of the
    /// ray's direction with it. The front face is hit where `facing` is
    /// below zero; the normal is stored so that it opposes the ray.
    pub fn new(t: Scalar, p: Point3, outward: Vec3, facing: Scalar, material: &'a Material) -> (r:
        Self)
        ensures
            r.t == t,
            r.p == p,
            r.is_front == Self::front(facing),
            r.normal == Self::oriented(outward, facing),
            r.material == material,
    {
        let is_front = facing.lt(Scalar::from_bits(ZERO));
        let normal = if is_front {
            outward
        } else {
            outward.neg()
        };
        HitRecord { t, p, normal, is_front, material }
    }
}

/// Whichever face was hit, `facing` as it goes with the stored normal is
/// zero or below, wherever `facing` is a number: the sign changes exactly
/// where the normal is turned round.
pub proof fn lemma_stored_facing_not_above_zero(facing: Scalar)
    requires
        !facing.nan(),
    ensures
        HitRecord::stored_facing(facing).le_spec(Scalar::of(ZERO)),
{
    let zero = Scalar::of(ZERO);
    let stored = HitRecord::stored_facing(facing);
    lemma_order_by_key(facing, zero);
    lemma_order_by_key(stored, zero);
    assert(stored.code() == facing.code());
    assert(stored.exponent() == facing.exponent());
    assert(stored.fraction() == facing.fraction());
}

/// A sphere: a center, a radius above zero and a material of its own.
#[derive(Clone, Copy, Debug)]
pub struct Sphere {
    center: Point3,
    radius: Scalar,
    material: Material,
}

impl Sphere {
    #[verifier::type_invariant]
    spec fn radius_above_zero(self) -> bool {
        Scalar::of(ZERO).lt_spec(self.radius)
    }

    pub closed spec fn center_spec(self) -> Point3 {
        self.center
    }

    pub closed spec fn radius_spec(self) -> Scalar {
        self.radius
    }

    pub closed spec fn material_spec(self) -> Material {
        self.material
    }

    /// A sphere, where `radius` is a number above zero.
    pub fn new(center: Point3, radius: Scalar, material: Material) -> (r: Result<Sphere, ConfigError>)
        ensures
            Scalar::of(ZERO).lt_spec(radius) ==> (r matches Ok(s) && s.center_spec() == center
                && s.radius_spec() == radius && s.material_spec() == material),
            !Scalar::of(ZERO).lt_spec(radius) ==> r == Err::<Sphere, ConfigError>(
                ConfigError::Radius,
            ),
    {
        if radius.gt(Scalar::from_bits(ZERO)) {
            Ok(Sphere { center, radius, material })
        } else {
            Err(ConfigError::Radius)
        }
    }

    pub fn center(&self) -> (p: Point3)
        ensures
            p == self.center_spec(),
    {
        self.center
    }

    pub fn radius(&self) -> (r: Scalar)
        ensures
            r == self.radius_spec(),
            Scalar::of(ZERO).lt_spec(r),
    {
        proof {
            use_type_invariant(self);
        }
        self.radius
    }

    pub fn material(&self) -> (m: &Material)
        ensures
            *m == self.material_spec(),
    {
        &self.material
    }

    /// The record of a hit on this sphere at `t` in `p`: that of
    /// `HitRecord::new`, with the sphere's material.
    pub fn hit_at(&self, t: Scalar, p: Point3, outward: Vec3, facing: Scalar) -> (r: HitRecord)
        ensures
            r.t == t,
            r.p == p,
            r.is_front == HitRecord::front(facing),
            r.normal == HitRecord::oriented(outward, facing),
            *r.material == self.material_spec(),
    {
        HitRecord::new(t, p, outward, facing, &self.material)
    }
}

/// An object that can be hit by a ray.
///
/// What an object reports depends on the object, the ray and the interval
/// alone: `hit_spec` is that function, and `hit_by` computes it. Code that is
/// compiled without being verified gives `hit_spec` the body of `hit_by`.
pub trait Object: Sync + Send {
    /// The hit that `hit_by` reports.
    spec fn hit_spec(&self, ray: &Ray, t_min: Scalar, t_max: Scalar) -> Option<HitRecord>;

    /// Given an incoming ray and a time interval, returns if there is a hit.
    /// A hit lies strictly inside the interval.
    fn hit_by(&self, ray: &Ray, t_min: Scalar, t_max: Scalar) -> (r: Option<HitRecord>)
        ensures
            r == self.hit_spec(ray, t_min, t_max),
            r matches Some(h) ==> within(h.t, t_min, t_max),
    ;
}

/// The closer of two hits; of two that are equally close, the first.
pub open spec fn closer_spec<'a>(best: Option<HitRecord<'a>>, candidate: Option<HitRecord<'a>>) -> Option<
    HitRecord<'a>,
> {
    match (best, candidate) {
        (Some(b), Some(c)) => if c.t.lt_spec(b.t) {
            candidate
        } else {
            best
        },
        (None, _) => candidate,
        (_, None) => best,
    }
}

/// The closer of two hits; of two that are equally close, the first.
pub fn closer<'a>(best: Option<HitRecord<'a>>, candidate: Option<HitRecord<'a>>) -> (r: Option<
    HitRecord<'a>,
>)
    ensures
        r == closer_spec(best, candidate),
{
    match (best, candidate) {
        (Some(b), Some(c)) => if c.t.lt(b.t) {
            candidate
        } else {
            best
        },
        (None, _) => candidate,
        (_, None) => best,
    }
}

/// The hit that is seen among the hits on `objects`, taken in their order:
/// each later hit replaces the one before only where it is closer.
pub open spec fn nearest<T: Object>(objects: Seq<T>, ray: &Ray, t_min: Scalar, t_max: Scalar) -> Option<
    HitRecord,
>
    decreases objects.len(),
{
    if objects.len() == 0 {
        None
    } else {
        closer_spec(
            nearest(objects.drop_last(), ray, t_min, t_max),
            objects.last().hit_spec(ray, t_min, t_max),
        )
    }
}

/// The hit on `objects[i]` at distance `t` is the first among the nearest:
/// every hit on an earlier object is farther, none on a later object is
/// nearer.
pub open spec fn first_nearest<T: Object>(
    objects: Seq<T>,
    ray: &Ray,
    t_min: Scalar,
    t_max: Scalar,
    i: int,
    t: Scalar,
) -> bool {
    &&& 0 <= i < objects.len()
    &&& forall|j: int|
        0 <= j < i ==> (#[trigger] objects[j].hit_spec(ray, t_min, t_max) matches Some(g)
            ==> t.lt_spec(g.t))
    &&& forall|j: int|
        i <= j < objects.len() ==> (#[trigger] objects[j].hit_spec(ray, t_min, t_max) matches Some(
            g,
        ) ==> t.le_spec(g.t))
}

/// Every hit on `objects` lies strictly inside the interval, as `hit_by`
/// promises of each.
pub open spec fn hits_within<T: Object>(objects: Seq<T>, ray: &Ray, t_min: Scalar, t_max: Scalar) -> bool {
    forall|j: int|
        0 <= j < objects.len() ==> (#[trigger] objects[j].hit_spec(ray, t_min, t_max) matches Some(
            g,
        ) ==> within(g.t, t_min, t_max))
}

/// The hit that is seen is the nearest one, whatever the order of the
/// objects: there is none where no object is hit, and else it is the hit on
/// some object that no other hit is nearer than; of several hits that are
/// equally near it is the one on the object that comes first.
pub proof fn lemma_nearest_is_least<T: Object>(objects: Seq<T>, ray: &Ray, t_min: Scalar, t_max: Scalar)
    requires
        hits_within(objects, ray, t_min, t_max),
    ensures
        match nearest(objects, ray, t_min, t_max) {
            None => forall|j: int|
                0 <= j < objects.len() ==> #[trigger] objects[j].hit_spec(ray, t_min, t_max)
                    is None,
            Some(h) => exists|i: int|
                first_nearest(objects, ray, t_min, t_max, i, h.t) && #[trigger] objects[i].hit_spec(
                    ray,
                    t_min,
                    t_max,
                ) == Some(h),
        },
    decreases objects.len(),
{
    if objects.len() > 0 {
        let before = objects.drop_last();
        let last = objects.len() - 1;
        assert forall|j: int| 0 <= j < before.len() implies before[j] == objects[j] by {}
        assert(hits_within(before, ray, t_min, t_max));
        lemma_nearest_is_least(before, ray, t_min, t_max);
        let candidate = objects[last].hit_spec(ray, t_min, t_max);
        match nearest(before, ray, t_min, t_max) {
            None => {
                if let Some(c) = candidate {
                    assert(first_nearest(objects, ray, t_min, t_max, last, c.t));
                }
            },
            Some(b) => {
                let i = choose|i: int|
                    first_nearest(before, ray, t_min, t_max, i, b.t) && #[trigger] before[i].hit_spec(
                        ray,
                        t_min,
                        t_max,
                    ) == Some(b);
                assert(objects[i].hit_spec(ray, t_min, t_max) == Some(b));
                match candidate {
                    None => {
                        assert(first_nearest(objects, ray, t_min, t_max, i, b.t));
                    },
                    Some(c) => {
                        if c.t.lt_spec(b.t) {
                            assert(first_nearest(objects, ray, t_min, t_max, last, c.t));
                        } else {
                            assert(first_nearest(objects, ray, t_min, t_max, i, b.t));
                        }
                    },
                }
            },
        }
    }
}

/// A world that contains many objects.
pub struct World<T: Object> {
    pub objects: Vec<T>,
}

impl<T: Object> World<T> {
    /// Creates an empty world.
    pub fn new() -> (w: Self)
        ensures
            w.objects@ == Seq::<T>::empty(),
    {
        World { objects: Vec::new() }
    }

    /// Add an object to the world, behind those that are in it.
    pub fn add(&mut self, object: T)
        ensures
            final(self).objects@ == old(self).objects@.push(object),
    {
        self.objects.push(object);
    }
}

impl<T: Object> Object for World<T> {
    open spec fn hit_spec(&self, ray: &Ray, t_min: Scalar, t_max: Scalar) -> Option<HitRecord> {
        nearest(self.objects@, ray, t_min, t_max)
    }

    /// The nearest of the hits on the objects of the world; of several that
    /// are equally near, the one on the object that was added first.
    fn hit_by(&self, ray: &Ray, t_min: Scalar, t_max: Scalar) -> (r: Option<HitRecord>)
        ensures
            r is None <==> forall|j: int|
                0 <= j < self.objects@.len() ==> #[trigger] self.objects@[j].hit_spec(
                    ray,
                    t_min,
                    t_max,
                ) is None,
            r matches Some(h) ==> exists|i: int|
                first_nearest(self.objects@, ray, t_min, t_max, i, h.t)
                    && #[trigger] self.objects@[i].hit_spec(ray, t_min, t_max) == Some(h),
    {
        let mut best: Option<HitRecord> = None;
        let mut i: usize = 0;
        assert(self.objects@.take(0) == Seq::<T>::empty());
        while i < self.objects.len()
            invariant
                i <= self.objects@.len(),
                best == nearest(self.objects@.take(i as int), ray, t_min, t_max),
                best matches Some(h) ==> within(h.t, t_min, t_max),
                hits_within(self.objects@.take(i as int), ray, t_min, t_max),
            decreases self.objects@.len() - i,
        {
            let hit = self.objects[i].hit_by(ray, t_min, t_max);
            assert(self.objects@.take(i + 1).drop_last() == self.objects@.take(i as int));
            assert forall|j: int| 0 <= j < i + 1 implies (#[trigger] self.objects@.take(
                i + 1,
            )[j].hit_spec(ray, t_min, t_max) matches Some(g) ==> within(g.t, t_min, t_max)) by {
                if j < i {
                    assert(self.objects@.take(i + 1)[j] == self.objects@.take(i as int)[j]);
                }
            }
            best = closer(best, hit);
            i += 1;
        }
        assert(self.objects@.take(i as int) == self.objects@);
        proof {
            lemma_nearest_is_least(self.objects@, ray, t_min, t_max);
        }
        best
    }
}

} // verus!
