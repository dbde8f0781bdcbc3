//! Materials and their behavior when hit.
//!
//! A material turns an incoming ray into an outgoing one, or absorbs it. The
//! directions are sums and products of vectors, which round, and come from
//! outside. What is decided here is what becomes of them: which direction the
//! outgoing ray takes, whether there is one at all, and what it keeps of the
//! light.

use crate::color::Color;
use crate::object::HitRecord;
use crate::ray::Ray;
use crate::sampling::{unit_interval, RngExt};
use crate::scalar::{Scalar, ONE, ZERO};
use crate::vec3::Vec3;
use vstd::prelude::*;

verus! {

/// A material that can scatter incoming rays.
#[derive(Clone, Copy, Debug)]
pub enum Material {
    /// Surface with Lambertian diffuse, like matte.
    Lambertian {
        /// The base color of the surface.
        albedo: Color,
    },
    /// Surface like metal that mostly reflects.
    Metal {
        /// The base color of the surface.
        albedo: Color,
        /// The fuzziness of the metal, at most 1. The closer it is to 0, the
        /// more it appears like a perfect mirror.
        fuzz: Scalar,
    },
    /// Material that is transparent and refracts, like glass.
    Dielectric { refractive_index: Scalar },
}

/// `fuzz` where it is a number up to 1, else 1.
pub open spec fn capped_fuzz(fuzz: Scalar) -> Scalar {
    if fuzz.nan() || Scalar::of(ONE).lt_spec(fuzz) {
        Scalar::of(ONE)
    } else {
        fuzz
    }
}

impl Material {
    pub fn lambertian(albedo: Color) -> (m: Material)
        ensures
            m == (Material::Lambertian { albedo }),
    {
        Material::Lambertian { albedo }
    }

    /// A metal. The fuzz is the smaller of `fuzz` and 1, so that it never
    /// exceeds 1; where `fuzz` is not a number it is 1.
    pub fn metal(albedo: Color, fuzz: Scalar) -> (m: Material)
        ensures
            m == (Material::Metal { albedo, fuzz: capped_fuzz(fuzz) }),
    {
        let one = Scalar::from_bits(ONE);
        let fuzz = if fuzz.is_nan() || one.lt(fuzz) {
            one
        } else {
            fuzz
        };
        Material::Metal { albedo, fuzz }
    }

    pub fn dielectric(refractive_index: Scalar) -> (m: Material)
        ensures
            m == (Material::Dielectric { refractive_index }),
    {
        Material::Dielectric { refractive_index }
    }
}

/// A collection of information when a child ray is scattered.
#[derive(Clone, Copy, Debug)]
pub struct Scattered {
    /// The color attenuation due to the surface color.
    pub attenuation: Color,
    /// The child ray itself.
    pub ray: Ray,
}

/// What chance decides where a dielectric can refract.
#[derive(Clone, Copy, Debug)]
pub struct Chance {
    /// The direction of the refracted ray.
    pub refracted: Vec3,
    /// The share of the light that is reflected, by Schlick's approximation.
    pub reflectance: Scalar,
    /// A number drawn uniformly from 0 up to, but without, 1.
    pub draw: Scalar,
}

/// The direction in which a diffuse surface scatters: `candidate`, which is
/// the normal plus a random unit vector, unless the two cancel.
pub open spec fn diffuse_direction(normal: Vec3, candidate: Vec3) -> Vec3 {
    if candidate.near_zero_spec() {
        normal
    } else {
        candidate
    }
}

/// Whether a ray that leaves a metal in a direction whose dot product with
/// the normal is `facing` gets away: it does above the surface.
pub open spec fn escapes(facing: Scalar) -> bool {
    Scalar::of(ZERO).lt_spec(facing)
}

/// Whether no ray can be refracted: the index ratio times the sine of the
/// angle of incidence is above 1.
pub open spec fn total_reflection_spec(ratio_sine: Scalar) -> bool {
    Scalar::of(ONE).lt_spec(ratio_sine)
}

/// The direction that a ray takes in a dielectric. Beyond the critical angle
/// it is reflected. Else it is refracted where the draw is above the
/// reflectance, and reflected where it is not, or where nothing was drawn.
pub open spec fn dielectric_direction(ratio_sine: Scalar, reflected: Vec3, chance: Option<Chance>) -> Vec3 {
    if total_reflection_spec(ratio_sine) {
        reflected
    } else {
        match chance {
            Some(c) => if c.reflectance.lt_spec(c.draw) {
                c.refracted
            } else {
                reflected
            },
            None => reflected,
        }
    }
}

/// The ratio of the refractive indices on the two sides of the surface of a
/// dielectric, that of the side from which the ray comes over that of the
/// other. Outside the material the index is 1, so the ratio is `reciprocal`,
/// which is 1 over `refractive_index`, where the ray enters at the front
/// face, and `refractive_index` where it leaves.
pub fn index_ratio(is_front: bool, refractive_index: Scalar, reciprocal: Scalar) -> (r: Scalar)
    ensures
        is_front ==> r == reciprocal,
        !is_front ==> r == refractive_index,
{
    if is_front {
        reciprocal
    } else {
        refractive_index
    }
}

/// Scatters a ray from a Lambertian surface of the given albedo. `candidate`
/// is the normal of the hit plus a random unit vector. The ray is never
/// absorbed, and what it keeps of the light is the albedo.
pub fn scatter_lambertian(albedo: Color, rec: &HitRecord, candidate: Vec3) -> (s: Scattered)
    ensures
        s.attenuation == albedo,
        s.ray.origin == rec.p,
        s.ray.direction == diffuse_direction(rec.normal, candidate),
{
    let direction = if candidate.near_zero() {
        rec.normal
    } else {
        candidate
    };
    Scattered { attenuation: albedo, ray: Ray::new(rec.p, direction) }
}

/// Scatters a ray from a metal of the given albedo. `direction` is the
/// mirrored direction with the fuzz added, and `facing` its dot product with
/// the normal of the hit. Where the fuzz has pushed the direction to the
/// surface or below it, the ray is absorbed.
pub fn scatter_metal(albedo: Color, rec: &HitRecord, direction: Vec3, facing: Scalar) -> (s: Option<
    Scattered,
>)
    ensures
        escapes(facing) ==> s == Some(
            Scattered { attenuation: albedo, ray: Ray { origin: rec.p, direction } },
        ),
        !escapes(facing) ==> s is None,
{
    if facing.gt(Scalar::from_bits(ZERO)) {
        Some(Scattered { attenuation: albedo, ray: Ray::new(rec.p, direction) })
    } else {
        None
    }
}

/// Whether a dielectric must reflect: `ratio_sine` is the ratio of the
/// refractive indices times the sine of the angle of incidence. Where this
/// is false, a reflectance is to be computed and a number drawn.
pub fn total_reflection(ratio_sine: Scalar) -> (r: bool)
    ensures
        r == total_reflection_spec(ratio_sine),
{
    ratio_sine.gt(Scalar::from_bits(ONE))
}

/// Scatters a ray from a dielectric. The ray is never absorbed and loses no
/// light. `reflected` is the mirrored direction; `chance` holds what decides
/// between reflection and refraction where both are possible.
pub fn scatter_dielectric(rec: &HitRecord, ratio_sine: Scalar, reflected: Vec3, chance: Option<
    Chance,
>) -> (s: Scattered)
    ensures
        s.attenuation == Color::white_spec(),
        s.ray.origin == rec.p,
        s.ray.direction == dielectric_direction(ratio_sine, reflected, chance),
{
    let direction = if total_reflection(ratio_sine) {
        reflected
    } else {
        match chance {
            Some(c) => if c.draw.gt(c.reflectance) {
                c.refracted
            } else {
                reflected
            },
            None => reflected,
        }
    };
    Scattered { attenuation: Color::white(), ray: Ray::new(rec.p, direction) }
}

/// Scatters a ray from a dielectric, and draws from `rng` what chance has to
/// decide. Nothing is drawn beyond the critical angle, where the ray is
/// reflected. Else one number is drawn, and the ray is refracted where it is
/// above the reflectance, and reflected where it is not.
pub fn scatter_dielectric_drawing<R: RngExt>(
    rec: &HitRecord,
    ratio_sine: Scalar,
    reflected: Vec3,
    refracted: Vec3,
    reflectance: Scalar,
    rng: &mut R,
) -> (s: Scattered)
    ensures
        s.attenuation == Color::white_spec(),
        s.ray.origin == rec.p,
        total_reflection_spec(ratio_sine) ==> s.ray.direction == reflected,
        !total_reflection_spec(ratio_sine) ==> exists|draw: Scalar|
            unit_interval(draw) && s.ray.direction == #[trigger] dielectric_direction(
                ratio_sine,
                reflected,
                Some(Chance { refracted, reflectance, draw }),
            ),
{
    if total_reflection(ratio_sine) {
        scatter_dielectric(rec, ratio_sine, reflected, None)
    } else {
        let draw = rng.float();
        scatter_dielectric(rec, ratio_sine, reflected, Some(Chance { refracted, reflectance, draw }))
    }
}

/// Beyond the critical angle a dielectric reflects, whatever was drawn.
pub proof fn lemma_total_internal_reflection(ratio_sine: Scalar, reflected: Vec3, chance: Option<Chance>)
    requires
        total_reflection_spec(ratio_sine),
    ensures
        dielectric_direction(ratio_sine, reflected, chance) == reflected,
{
}

} // verus!
