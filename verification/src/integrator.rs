//! The path of a ray through the scene, bounce after bounce.
//!
//! Finding what a ray hits, and computing what the material there asks for,
//! is the caller's work, done by the tracer that the caller supplies. This
//! module follows the path: it traces the ray, lets the material that was
//! hit scatter or absorb it, traces the scattered ray, and so on, until a ray
//! misses everything and reaches the sky, a material absorbs it, or the depth
//! is used up. The radiance of the path is the colour at its end, multiplied
//! by the attenuation of each bounce from the last bounce back to the first.

use vstd::prelude::*;
use crate::geometry::{HitRecord, Ray};
use crate::ieee;
use crate::material::Bounce;
use crate::vec3::Vec3;

verus! {

/// The pattern of 0.001, the least ray parameter at which a hit counts: a
/// scattered ray does not hit the surface that it leaves.
pub const T_MIN: u64 = 0x3f50_624d_d2f1_a9fc;

/// The greatest ray parameter at which a hit counts: none is too far.
pub const T_MAX: u64 = ieee::INFINITY;

/// The pattern of 0.7, the green of the sky overhead.
pub const SKY_GREEN: u64 = 0x3fe6_6666_6666_6666;

/// The colour of the sky at the horizon, white; the sky is the only light.
pub fn horizon() -> (r: Vec3)
    ensures
        r == Vec3::new(ieee::ONE, ieee::ONE, ieee::ONE),
{
    Vec3::repeat(ieee::ONE)
}

/// The colour of the sky overhead, a pale blue.
pub fn zenith() -> (r: Vec3)
    ensures
        r == Vec3::new(ieee::HALF, SKY_GREEN, ieee::ONE),
{
    Vec3::new(ieee::HALF, SKY_GREEN, ieee::ONE)
}

/// A ray's meeting with a surface: where it hit, and what was computed for
/// the material there.
#[derive(Debug, Clone, Copy)]
pub struct Contact {
    pub hit_record: HitRecord,
    pub bounce: Bounce,
}

impl Contact {
    /// Whether the bounce is what the material that was hit asks for.
    pub open spec fn fits(&self) -> bool {
        self.hit_record.material.accepts(&self.bounce)
    }

    /// Whether the material sends the ray on.
    pub open spec fn scatters(&self) -> bool {
        self.hit_record.material.scatters(&self.bounce)
    }

    /// The attenuation of the bounce.
    pub open spec fn attenuation(&self) -> Vec3 {
        self.hit_record.material.attenuation()
    }

    /// The ray that leaves the surface.
    pub open spec fn scattered(&self) -> Ray {
        Ray {
            orig: self.hit_record.p,
            dir: self.hit_record.material.direction(&self.bounce, &self.hit_record),
        }
    }
}

/// Where a path ended.
#[derive(Debug, Clone, Copy, PartialEq, Eq, Structural)]
pub enum End {
    /// At the sky, whose colour for the last ray is the light of the path.
    Sky,
    /// In a material that absorbed it, or cut off: the path carries no light.
    Black,
}

/// A path that was followed to its end.
#[derive(Debug)]
pub struct Radiance {
    /// The attenuation of each bounce, from the first to the last.
    pub attenuations: Vec<Vec3>,
    /// Where the path ended.
    pub end: End,
    /// The last ray of the path.
    pub ray: Ray,
}

/// Whether the tracer can be asked about every ray, and fits each bounce to
/// the material that it found.
pub open spec fn tracer_ready<F: Fn(&Ray) -> Option<Contact>>(trace: &F) -> bool {
    &&& forall|ray: Ray| call_requires(*trace, (&ray,))
    &&& forall|ray: Ray, contact: Contact|
        call_ensures(*trace, (&ray,), Some(contact)) ==> contact.fits()
}

/// Whether a path of at most `depth` bounces that starts with `ray` can run
/// through bounces with these attenuations and end in `end` with the ray
/// `last`. With no depth left the path is black and has no bounce. Else the
/// ray is traced: if it misses, the path ends at the sky; if the material
/// that it hits absorbs it, the path is black; if the material scatters it,
/// the attenuation is the first, and the rest is a path of one bounce less
/// that starts with the scattered ray.
pub open spec fn follows<F: Fn(&Ray) -> Option<Contact>>(
    trace: &F,
    ray: Ray,
    depth: int,
    attenuations: Seq<Vec3>,
    end: End,
    last: Ray,
) -> bool
    decreases attenuations.len(),
{
    if depth <= 0 {
        attenuations.len() == 0 && end == End::Black && last == ray
    } else if attenuations.len() == 0 {
        last == ray && match end {
            End::Sky => call_ensures(*trace, (&ray,), None),
            End::Black => exists|contact: Contact|
                call_ensures(*trace, (&ray,), Some(contact)) && !contact.scatters(),
        }
    } else {
        exists|contact: Contact|
            call_ensures(*trace, (&ray,), Some(contact)) && contact.scatters() && attenuations[0]
                == contact.attenuation() && follows(
                trace,
                contact.scattered(),
                depth - 1,
                attenuations.drop_first(),
                end,
                last,
            )
    }
}

/// A path has no more bounces than its depth allows, and one that has as many
/// was cut off: it is black.
pub proof fn lemma_depth_bounds_path<F: Fn(&Ray) -> Option<Contact>>(
    trace: &F,
    ray: Ray,
    depth: int,
    attenuations: Seq<Vec3>,
    end: End,
    last: Ray,
)
    requires
        follows(trace, ray, depth, attenuations, end, last),
    ensures
        depth <= 0 ==> attenuations.len() == 0 && end == End::Black,
        depth > 0 ==> attenuations.len() <= depth,
        depth > 0 && attenuations.len() == depth ==> end == End::Black,
    decreases attenuations.len(),
{
    if depth > 0 && attenuations.len() > 0 {
        let contact = choose|contact: Contact|
            call_ensures(*trace, (&ray,), Some(contact)) && contact.scatters() && attenuations[0]
                == contact.attenuation() && follows(
                trace,
                contact.scattered(),
                depth - 1,
                attenuations.drop_first(),
                end,
                last,
            );
        lemma_depth_bounds_path(
            trace,
            contact.scattered(),
            depth - 1,
            attenuations.drop_first(),
            end,
            last,
        );
    }
}

/// Whether each of the rays but the last met with the contact in its place,
/// was scattered there into the next ray, and was attenuated as the
/// attenuation in its place says.
pub open spec fn chained<F: Fn(&Ray) -> Option<Contact>>(
    trace: &F,
    rays: Seq<Ray>,
    contacts: Seq<Contact>,
    attenuations: Seq<Vec3>,
) -> bool {
    &&& rays.len() == contacts.len() + 1
    &&& attenuations.len() == contacts.len()
    &&& forall|k: int|
        0 <= k < contacts.len() ==> {
            &&& call_ensures(*trace, (&rays[k],), Some(#[trigger] contacts[k]))
            &&& contacts[k].scatters()
            &&& attenuations[k] == contacts[k].attenuation()
            &&& rays[k + 1] == contacts[k].scattered()
        }
}

/// A chain of scattered rays whose last ray ends the path is a path from
/// each of its rays on.
proof fn lemma_chain_follows<F: Fn(&Ray) -> Option<Contact>>(
    trace: &F,
    rays: Seq<Ray>,
    contacts: Seq<Contact>,
    attenuations: Seq<Vec3>,
    depth: int,
    end: End,
    k: int,
)
    requires
        chained(trace, rays, contacts, attenuations),
        0 <= k <= attenuations.len() <= depth,
        0 < depth,
        follows(
            trace,
            rays.last(),
            depth - attenuations.len(),
            Seq::<Vec3>::empty(),
            end,
            rays.last(),
        ),
    ensures
        follows(trace, rays[k], depth - k, attenuations.skip(k), end, rays.last()),
    decreases attenuations.len() - k,
{
    let rest = attenuations.skip(k);
    if k == attenuations.len() {
        assert(rest =~= Seq::<Vec3>::empty());
    } else {
        lemma_chain_follows(trace, rays, contacts, attenuations, depth, end, k + 1);
        assert(rest.drop_first() =~= attenuations.skip(k + 1));
        assert(rest[0] == attenuations[k]);
        assert(call_ensures(*trace, (&rays[k],), Some(contacts[k])));
    }
}

/// Follows the path of at most `depth` bounces that starts with `r`. The
/// tracer is asked what each ray hits, and the material that was hit decides
/// what becomes of the ray.
pub fn ray_color<F: Fn(&Ray) -> Option<Contact>>(trace: F, r: &Ray, depth: i32) -> (out: Radiance)
    requires
        tracer_ready(&trace),
    ensures
        follows(&trace, *r, depth as int, out.attenuations@, out.end, out.ray),
        depth <= 0 ==> out.end == End::Black && out.attenuations@.len() == 0,
{
    let mut attenuations: Vec<Vec3> = Vec::new();
    let mut ray: Ray = *r;
    let mut left: i32 = depth;
    let mut end: End = End::Black;
    let ghost mut rays: Seq<Ray> = seq![*r];
    let ghost mut contacts: Seq<Contact> = Seq::empty();
    while left > 0
        invariant_except_break
            end == End::Black,
            left == depth - attenuations@.len(),
        invariant
            tracer_ready(&trace),
            chained(&trace, rays, contacts, attenuations@),
            rays[0] == *r,
            rays.last() == ray,
            depth <= 0 ==> attenuations@.len() == 0,
            0 < depth ==> attenuations@.len() <= depth,
        ensures
            follows(&trace, ray, depth - attenuations@.len(), Seq::<Vec3>::empty(), end, ray),
        decreases left,
    {
        match trace(&ray) {
            None => {
                end = End::Sky;
                break ;
            },
            Some(contact) => {
                let mut attenuation = Vec3::zero();
                let mut scatter_ray = Ray::new(Vec3::zero(), Vec3::zero());
                let scatter = contact.hit_record.material.scatter(
                    &contact.bounce,
                    &contact.hit_record,
                    &mut attenuation,
                    &mut scatter_ray,
                );
                if !scatter {
                    assert(call_ensures(trace, (&ray,), Some(contact)) && !contact.scatters());
                    break ;
                }
                proof {
                    rays = rays.push(scatter_ray);
                    contacts = contacts.push(contact);
                }
                attenuations.push(attenuation);
                ray = scatter_ray;
                left = left - 1;
            },
        }
    }
    proof {
        if depth > 0 {
            lemma_chain_follows(&trace, rays, contacts, attenuations@, depth as int, end, 0);
            assert(attenuations@.skip(0) =~= attenuations@);
        }
    }
    Radiance { attenuations, end, ray }
}

} // verus!
