//! The three materials and how each sends a ray on.
//!
//! A material answers a hit with an attenuation and a scattered ray, or it
//! absorbs the ray. The directions and the angles are rounded arithmetic and
//! come from the caller, together with the random draw where one is needed;
//! which direction is taken and whether the ray goes on is decided here.

use vstd::prelude::*;
use crate::geometry::{HitRecord, Ray};
use crate::ieee;
use crate::vec3::Vec3;

verus! {

/// The material of a surface.
pub type MaterialType = EnumMat;

/// A matte surface: it scatters every ray, about its normal.
#[derive(Debug, Clone, Copy)]
pub struct LambertianDiffuse {
    albedo: Vec3,
}

/// A metal: it mirrors the ray, the less sharply the greater its fuzz. The
/// fuzz is a number and at most one.
#[derive(Debug, Clone, Copy)]
pub struct Metal {
    albedo: Vec3,
    fuzzyness: u64,
}

/// Clear glass: it reflects or refracts the ray and takes no light away.
#[derive(Debug, Clone, Copy)]
pub struct Dielectric {
    refraction_idx: u64,
}

/// One of the three materials.
#[derive(Debug, Clone, Copy)]
pub enum EnumMat {
    Lamb(LambertianDiffuse),
    Diele(Dielectric),
    Met(Metal),
}

/// What the caller computed for the material that was hit.
#[derive(Debug, Clone, Copy)]
pub enum Bounce {
    /// For a matte surface: the sum of the hit's normal and a random unit
    /// vector.
    Diffuse { candidate: Vec3 },
    /// For a metal: the incoming unit direction mirrored at the normal, plus
    /// the fuzz times a random point of the unit ball; and `facing`, the dot
    /// product of that direction and the normal.
    Mirror { direction: Vec3, facing: u64 },
    /// For glass: the sine of the angle of incidence times the ratio of the
    /// refraction indices, Schlick's reflectance for that angle and ratio, a
    /// uniform draw, and the incoming unit direction both mirrored at the
    /// normal and refracted.
    Glass { ratio_sin_theta: u64, reflectance: u64, draw: u64, reflected: Vec3, refracted: Vec3 },
}

/// What a material does with a ray that hits it.
pub trait Material {
    /// Whether `bounce` is what this material asks of the caller.
    spec fn takes(&self, bounce: &Bounce) -> bool;

    /// Whether the material sends the ray on rather than absorbing it.
    spec fn sends_on(&self, bounce: &Bounce) -> bool;

    /// The colour by which the material multiplies the light of the ray that
    /// it sends on.
    spec fn tint(&self) -> Vec3;

    /// The direction in which the material sends the ray on.
    spec fn direction(&self, bounce: &Bounce, hit_record: &HitRecord) -> Vec3;

    /// Sets the attenuation and the scattered ray, which leaves the point
    /// that was hit, and returns whether the ray goes on.
    fn scatter(
        &self,
        bounce: &Bounce,
        hit_record: &HitRecord,
        attenuation: &mut Vec3,
        scatter_ray: &mut Ray,
    ) -> (r: bool)
        requires
            self.takes(bounce),
        ensures
            r == self.sends_on(bounce),
            *final(attenuation) == self.tint(),
            final(scatter_ray).orig == hit_record.p,
            final(scatter_ray).dir == self.direction(bounce, hit_record),
    ;
}

/// The colour white: full transmission.
pub open spec fn white() -> Vec3 {
    Vec3::new(ieee::ONE, ieee::ONE, ieee::ONE)
}

/// The fuzz that a metal keeps of the one it is given: at most one.
pub open spec fn clamped_fuzz(fuzzyness: u64) -> u64 {
    if ieee::is_nan(fuzzyness) || ieee::lt(ieee::ONE, fuzzyness) {
        ieee::ONE
    } else {
        fuzzyness
    }
}

impl LambertianDiffuse {
    /// The colour of the surface.
    pub closed spec fn spec_albedo(&self) -> Vec3 {
        self.albedo
    }

    /// The matte material of colour `albedo`.
    pub fn new(albedo: Vec3) -> (r: MaterialType)
        ensures
            r matches EnumMat::Lamb(mat) && mat.albedo() == albedo,
    {
        EnumMat::Lamb(Self { albedo })
    }

    /// The colour of the surface.
    #[verifier::when_used_as_spec(spec_albedo)]
    pub fn albedo(&self) -> (r: Vec3)
        ensures
            r == self.spec_albedo(),
    {
        self.albedo
    }
}

impl Material for LambertianDiffuse {
    open spec fn takes(&self, bounce: &Bounce) -> bool {
        *bounce is Diffuse
    }

    /// A matte surface scatters every ray.
    open spec fn sends_on(&self, bounce: &Bounce) -> bool {
        true
    }

    open spec fn tint(&self) -> Vec3 {
        self.albedo()
    }

    /// The candidate, or the normal where the candidate is too short to be
    /// a direction.
    open spec fn direction(&self, bounce: &Bounce, hit_record: &HitRecord) -> Vec3 {
        if bounce->candidate.near_zero() {
            hit_record.normal
        } else {
            bounce->candidate
        }
    }

    fn scatter(
        &self,
        bounce: &Bounce,
        hit_record: &HitRecord,
        attenuation: &mut Vec3,
        scatter_ray: &mut Ray,
    ) -> (r: bool) {
        let mut scatter_direction = hit_record.normal;
        if let Bounce::Diffuse { candidate } = bounce {
            if !candidate.near_zero() {
                scatter_direction = *candidate;
            }
        }
        *scatter_ray = Ray { orig: hit_record.p, dir: scatter_direction };
        *attenuation = self.albedo;
        true
    }
}

impl Metal {
    #[verifier::type_invariant]
    spec fn inv(&self) -> bool {
        ieee::le(self.fuzzyness, ieee::ONE)
    }

    /// The colour of the surface.
    pub closed spec fn spec_albedo(&self) -> Vec3 {
        self.albedo
    }

    /// The radius of the ball within which the mirrored direction is
    /// perturbed.
    pub closed spec fn spec_fuzz(&self) -> u64 {
        self.fuzzyness
    }

    /// The metal of colour `(r, g, b)`. A fuzz above one, or one that is no
    /// number, counts as one.
    pub fn new(r: u64, g: u64, b: u64, fuzzyness: u64) -> (m: MaterialType)
        ensures
            m matches EnumMat::Met(mat) && mat.albedo() == Vec3::new(r, g, b) && mat.fuzz()
                == clamped_fuzz(fuzzyness),
    {
        let fuzz: u64 = if ieee::is_nan(fuzzyness) || ieee::lt(ieee::ONE, fuzzyness) {
            ieee::ONE
        } else {
            fuzzyness
        };
        EnumMat::Met(Self { albedo: Vec3::new(r, g, b), fuzzyness: fuzz })
    }

    /// The colour of the surface.
    #[verifier::when_used_as_spec(spec_albedo)]
    pub fn albedo(&self) -> (r: Vec3)
        ensures
            r == self.spec_albedo(),
    {
        self.albedo
    }

    /// The fuzz: a number, and at most one.
    #[verifier::when_used_as_spec(spec_fuzz)]
    pub fn fuzz(&self) -> (r: u64)
        ensures
            r == self.spec_fuzz(),
            ieee::le(r, ieee::ONE),
    {
        proof {
            use_type_invariant(self);
        }
        self.fuzzyness
    }
}

impl Material for Metal {
    open spec fn takes(&self, bounce: &Bounce) -> bool {
        *bounce is Mirror
    }

    /// A metal scatters where the mirrored ray leaves the surface, that is
    /// where its dot product with the normal is positive.
    open spec fn sends_on(&self, bounce: &Bounce) -> bool {
        ieee::gt(bounce->facing, ieee::ZERO)
    }

    open spec fn tint(&self) -> Vec3 {
        self.albedo()
    }

    open spec fn direction(&self, bounce: &Bounce, hit_record: &HitRecord) -> Vec3 {
        bounce->direction
    }

    fn scatter(
        &self,
        bounce: &Bounce,
        hit_record: &HitRecord,
        attenuation: &mut Vec3,
        scatter_ray: &mut Ray,
    ) -> (r: bool) {
        *attenuation = self.albedo;
        match bounce {
            Bounce::Mirror { direction, facing } => {
                *scatter_ray = Ray { orig: hit_record.p, dir: *direction };
                ieee::gt(*facing, ieee::ZERO)
            },
            _ => false,
        }
    }
}

impl Dielectric {
    /// The refraction index of the glass.
    pub closed spec fn spec_index(&self) -> u64 {
        self.refraction_idx
    }

    /// Glass with the refraction index `refraction_idx`.
    pub fn new(refraction_idx: u64) -> (r: MaterialType)
        ensures
            r matches EnumMat::Diele(mat) && mat.index() == refraction_idx,
    {
        EnumMat::Diele(Dielectric { refraction_idx })
    }

    /// The refraction index of the glass.
    #[verifier::when_used_as_spec(spec_index)]
    pub fn index(&self) -> (r: u64)
        ensures
            r == self.spec_index(),
    {
        self.refraction_idx
    }

    /// The ratio of the refraction indices at a hit: the reciprocal of the
    /// index where the ray enters the glass, the index where it leaves.
    pub fn refraction_ratio(&self, front_face: bool, reciprocal: u64) -> (r: u64)
        ensures
            r == if front_face { reciprocal } else { self.index() },
    {
        if front_face {
            reciprocal
        } else {
            self.refraction_idx
        }
    }

    /// Whether refraction is impossible: the ratio times the sine of the
    /// angle of incidence exceeds one.
    pub open spec fn spec_cannot_refract(ratio_sin_theta: u64) -> bool {
        ieee::gt(ratio_sin_theta, ieee::ONE)
    }

    /// Whether the ray is reflected: refraction is impossible, or the
    /// reflectance exceeds the draw.
    pub open spec fn reflects(ratio_sin_theta: u64, reflectance: u64, draw: u64) -> bool {
        Self::spec_cannot_refract(ratio_sin_theta) || ieee::gt(reflectance, draw)
    }

    /// Whether refraction is impossible, so that no draw is needed.
    #[verifier::when_used_as_spec(spec_cannot_refract)]
    pub fn cannot_refract(ratio_sin_theta: u64) -> (r: bool)
        ensures
            r == Self::spec_cannot_refract(ratio_sin_theta),
    {
        ieee::gt(ratio_sin_theta, ieee::ONE)
    }
}

impl Material for Dielectric {
    open spec fn takes(&self, bounce: &Bounce) -> bool {
        *bounce is Glass
    }

    /// Glass scatters every ray.
    open spec fn sends_on(&self, bounce: &Bounce) -> bool {
        true
    }

    /// Glass takes no light away.
    open spec fn tint(&self) -> Vec3 {
        white()
    }

    /// The mirrored direction or the refracted one.
    open spec fn direction(&self, bounce: &Bounce, hit_record: &HitRecord) -> Vec3 {
        if Self::reflects(bounce->ratio_sin_theta, bounce->reflectance, bounce->draw) {
            bounce->reflected
        } else {
            bounce->refracted
        }
    }

    fn scatter(
        &self,
        bounce: &Bounce,
        hit_record: &HitRecord,
        attenuation: &mut Vec3,
        scatter_ray: &mut Ray,
    ) -> (r: bool) {
        *attenuation = Vec3::repeat(ieee::ONE);
        if let Bounce::Glass { ratio_sin_theta, reflectance, draw, reflected, refracted } = bounce {
            let dir = if Self::cannot_refract(*ratio_sin_theta) || ieee::gt(*reflectance, *draw) {
                *reflected
            } else {
                *refracted
            };
            *scatter_ray = Ray { orig: hit_record.p, dir };
        }
        true
    }
}

impl EnumMat {
    /// Whether `bounce` is what this material asks of the caller.
    pub open spec fn spec_accepts(&self, bounce: &Bounce) -> bool {
        match *self {
            EnumMat::Lamb(mat) => mat.takes(bounce),
            EnumMat::Diele(mat) => mat.takes(bounce),
            EnumMat::Met(mat) => mat.takes(bounce),
        }
    }

    /// Whether the material sends the ray on.
    pub open spec fn scatters(&self, bounce: &Bounce) -> bool {
        match *self {
            EnumMat::Lamb(mat) => mat.sends_on(bounce),
            EnumMat::Diele(mat) => mat.sends_on(bounce),
            EnumMat::Met(mat) => mat.sends_on(bounce),
        }
    }

    /// The attenuation with which the material sends a ray on.
    pub open spec fn attenuation(&self) -> Vec3 {
        match *self {
            EnumMat::Lamb(mat) => mat.tint(),
            EnumMat::Diele(mat) => mat.tint(),
            EnumMat::Met(mat) => mat.tint(),
        }
    }

    /// The direction in which the material sends the ray on.
    pub open spec fn direction(&self, bounce: &Bounce, hit_record: &HitRecord) -> Vec3 {
        match *self {
            EnumMat::Lamb(mat) => mat.direction(bounce, hit_record),
            EnumMat::Diele(mat) => mat.direction(bounce, hit_record),
            EnumMat::Met(mat) => mat.direction(bounce, hit_record),
        }
    }

    /// Whether `bounce` is what this material asks of the caller.
    #[verifier::when_used_as_spec(spec_accepts)]
    pub fn accepts(&self, bounce: &Bounce) -> (r: bool)
        ensures
            r == self.spec_accepts(bounce),
    {
        match (self, bounce) {
            (EnumMat::Lamb(_), Bounce::Diffuse { .. }) => true,
            (EnumMat::Met(_), Bounce::Mirror { .. }) => true,
            (EnumMat::Diele(_), Bounce::Glass { .. }) => true,
            _ => false,
        }
    }

    /// Sets the attenuation and the scattered ray, and returns whether the
    /// ray goes on, as the material at hand does.
    pub fn scatter(
        &self,
        bounce: &Bounce,
        hit_record: &HitRecord,
        attenuation: &mut Vec3,
        scatter_ray: &mut Ray,
    ) -> (r: bool)
        requires
            self.accepts(bounce),
        ensures
            r == self.scatters(bounce),
            *final(attenuation) == self.attenuation(),
            final(scatter_ray).orig == hit_record.p,
            final(scatter_ray).dir == self.direction(bounce, hit_record),
    {
        match self {
            EnumMat::Lamb(mat) => mat.scatter(bounce, hit_record, attenuation, scatter_ray),
            EnumMat::Diele(mat) => mat.scatter(bounce, hit_record, attenuation, scatter_ray),
            EnumMat::Met(mat) => mat.scatter(bounce, hit_record, attenuation, scatter_ray),
        }
    }

    /// Every material but metal scatters whatever ray hits it, and glass
    /// leaves the light as it is.
    pub proof fn lemma_only_metal_absorbs(self, bounce: &Bounce)
        ensures
            !(self is Met) ==> self.scatters(bounce),
            self is Diele ==> self.attenuation() == white(),
    {
    }

    /// Where refraction is impossible, glass reflects whatever was drawn.
    pub proof fn lemma_total_internal_reflection(self, bounce: &Bounce, hit_record: &HitRecord)
        requires
            self is Diele,
            *bounce is Glass,
            Dielectric::cannot_refract(bounce->ratio_sin_theta),
        ensures
            self.direction(bounce, hit_record) == bounce->reflected,
    {
    }
}

} // verus!
