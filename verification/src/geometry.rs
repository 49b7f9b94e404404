//! Rays, spheres and the nearest intersection.
//!
//! Solving the quadratic of a ray against a sphere is rounded arithmetic and
//! is done by the caller. Which root counts, which sphere is hit first and
//! which way the surface faces are decided here.

use vstd::prelude::*;
use crate::ieee;
use crate::material::{EnumMat, LambertianDiffuse, MaterialType};
use crate::vec3::Vec3;

verus! {

/// The pattern of minus one: the ray parameter of a record that holds no hit.
pub const NO_HIT: u64 = 0xbff0_0000_0000_0000;

/// A half-line: the points `orig + t * dir`.
#[derive(Debug, Clone, Copy)]
pub struct Ray {
    pub orig: Vec3,
    pub dir: Vec3,
}

impl Ray {
    /// The ray from `orig` along `dir`.
    pub fn new(orig: Vec3, dir: Vec3) -> (r: Self)
        ensures
            r.orig == orig,
            r.dir == dir,
    {
        Self { orig, dir }
    }
}

/// Where a ray met a surface.
#[derive(Debug, Clone, Copy)]
pub struct HitRecord {
    /// The point that was hit.
    pub p: Vec3,
    /// The surface normal at that point, turned against the ray.
    pub normal: Vec3,
    /// The ray parameter of the point.
    pub t: u64,
    /// Whether the ray came from outside the surface.
    pub front_face: bool,
    /// The material of the surface.
    pub material: MaterialType,
}

impl HitRecord {
    /// Whether a ray whose direction has the dot product `facing` with the
    /// outward normal comes from outside: the product is negative.
    pub open spec fn faces_front(facing: u64) -> bool {
        ieee::lt(facing, ieee::ZERO)
    }

    /// The outward normal turned against such a ray.
    pub open spec fn against(facing: u64, outward_normal: Vec3) -> Vec3 {
        if Self::faces_front(facing) {
            outward_normal
        } else {
            outward_normal.neg()
        }
    }

    /// The dot product of the ray's direction and the normal that the record
    /// holds: `facing` itself, or its opposite where the normal was turned.
    pub open spec fn stored_facing(facing: u64) -> u64 {
        if Self::faces_front(facing) {
            facing
        } else {
            ieee::neg(facing)
        }
    }

    /// The normal that the record holds never points along the ray: its dot
    /// product with the ray's direction is not positive.
    pub proof fn lemma_normal_opposes_ray(facing: u64)
        ensures
            !ieee::gt(Self::stored_facing(facing), ieee::ZERO),
    {
        ieee::lemma_zero_magnitude(ieee::ZERO);
        ieee::lemma_zero_magnitude(facing);
    }

    /// Orients the record. `facing` is the dot product of the ray's direction
    /// and `outward_normal`.
    pub fn set_face_normal(&mut self, facing: u64, outward_normal: Vec3)
        ensures
            final(self).front_face == Self::faces_front(facing),
            final(self).normal == Self::against(facing, outward_normal),
            final(self).p == old(self).p,
            final(self).t == old(self).t,
            final(self).material == old(self).material,
    {
        self.front_face = ieee::lt(facing, ieee::ZERO);
        self.normal = if self.front_face {
            outward_normal
        } else {
            outward_normal.neg()
        };
    }

    /// A surface whose outward normal is reversed, as that of a sphere of
    /// negative radius is, is seen from the other side by every ray that
    /// crosses it, and the record holds the same normal: the one against the
    /// ray. Where the ray grazes the surface, so that the dot product is a
    /// zero or no number, both records face back and their normals are
    /// opposite.
    pub proof fn lemma_reversed_surface(facing: u64, outward_normal: Vec3)
        ensures
            ieee::lt(facing, ieee::ZERO) || ieee::gt(facing, ieee::ZERO) ==> {
                &&& Self::faces_front(ieee::neg(facing)) == !Self::faces_front(facing)
                &&& Self::against(ieee::neg(facing), outward_normal.neg()) == Self::against(
                    facing,
                    outward_normal,
                )
            },
            !ieee::lt(facing, ieee::ZERO) && !ieee::gt(facing, ieee::ZERO) ==> {
                &&& !Self::faces_front(facing)
                &&& !Self::faces_front(ieee::neg(facing))
                &&& Self::against(ieee::neg(facing), outward_normal.neg()) == Self::against(
                    facing,
                    outward_normal,
                ).neg()
            },
    {
        ieee::lemma_zero_magnitude(ieee::ZERO);
        ieee::lemma_zero_magnitude(facing);
        ieee::lemma_zero_magnitude(ieee::neg(facing));
        Vec3::lemma_neg_involution(outward_normal);
    }
}

impl Default for HitRecord {
    /// The record of no hit: the origin, no normal, the parameter `NO_HIT`
    /// and a grey diffuse material.
    fn default() -> (r: Self)
        ensures
            r.p == Vec3::new(ieee::ZERO, ieee::ZERO, ieee::ZERO),
            r.normal == Vec3::new(ieee::ZERO, ieee::ZERO, ieee::ZERO),
            r.t == NO_HIT,
            !r.front_face,
            r.material matches EnumMat::Lamb(mat) && mat.albedo() == Vec3::new(ieee::HALF, ieee::HALF, ieee::HALF),
    {
        Self {
            p: Vec3::zero(),
            normal: Vec3::zero(),
            t: NO_HIT,
            front_face: false,
            material: LambertianDiffuse::new(Vec3::repeat(ieee::HALF)),
        }
    }
}

/// What solving `a t^2 + 2 half_b t + c = 0` for a ray and a sphere gave:
/// the discriminant `half_b^2 - a c` and the two roots
/// `(-half_b - sqrt(discriminant)) / a` and `(-half_b + sqrt(discriminant)) / a`.
#[derive(Debug, Clone, Copy)]
pub struct Roots {
    pub discriminant: u64,
    pub near: u64,
    pub far: u64,
}

/// Whether `t` lies outside the interval from `t_min` to `t_max`.
pub open spec fn outside(t: u64, t_min: u64, t_max: u64) -> bool {
    ieee::lt(t, t_min) || ieee::lt(t_max, t)
}

impl Roots {
    /// The root at which the ray enters the interval: none with a negative
    /// discriminant; else the smaller root unless it lies outside, then the
    /// larger root unless it lies outside too.
    pub open spec fn spec_select(&self, t_min: u64, t_max: u64) -> Option<u64> {
        if ieee::lt(self.discriminant, ieee::ZERO) {
            None
        } else if !outside(self.near, t_min, t_max) {
            Some(self.near)
        } else if !outside(self.far, t_min, t_max) {
            Some(self.far)
        } else {
            None
        }
    }

    /// Whether the roots are numbers in their order, where there are any.
    pub open spec fn ordered(&self) -> bool {
        !ieee::lt(self.discriminant, ieee::ZERO) ==> ieee::le(self.near, self.far)
    }

    /// The ray parameter at which the sphere is hit within the interval, if
    /// it is.
    #[verifier::when_used_as_spec(spec_select)]
    pub fn select(&self, t_min: u64, t_max: u64) -> (r: Option<u64>)
        ensures
            r == self.spec_select(t_min, t_max),
    {
        if ieee::lt(self.discriminant, ieee::ZERO) {
            return None;
        }
        let mut root: u64 = self.near;
        if ieee::lt(root, t_min) || ieee::lt(t_max, root) {
            root = self.far;
            if ieee::lt(root, t_min) || ieee::lt(t_max, root) {
                return None;
            }
        }
        Some(root)
    }
}

/// A sphere. A negative radius turns its surface inside out.
#[derive(Debug, Clone, Copy)]
pub struct Sphere {
    pub center: Vec3,
    pub radius: u64,
    pub material: MaterialType,
}

impl Sphere {
    /// The sphere round `center`.
    pub fn new(center: Vec3, radius: u64, material: MaterialType) -> (r: Self)
        ensures
            r.center == center,
            r.radius == radius,
            r.material == material,
    {
        Self { center, radius, material }
    }

    /// The record of a hit of this sphere at the ray parameter `t`. The
    /// caller gives the point `p` of the ray at `t`, the outward normal
    /// `(p - center) / radius` and `facing`, the dot product of the ray's
    /// direction and that normal.
    pub fn hit(&self, t: u64, p: Vec3, outward_normal: Vec3, facing: u64) -> (r: HitRecord)
        ensures
            r.t == t,
            r.p == p,
            r.front_face == HitRecord::faces_front(facing),
            r.normal == HitRecord::against(facing, outward_normal),
            r.material == self.material,
    {
        let mut out = HitRecord {
            p,
            normal: outward_normal,
            t,
            front_face: false,
            material: self.material,
        };
        out.set_face_normal(facing, outward_normal);
        out
    }
}

/// The spheres of a scene, in the order in which they were added.
pub struct HittableList(Vec<Sphere>);

impl View for HittableList {
    type V = Seq<Sphere>;

    closed spec fn view(&self) -> Seq<Sphere> {
        self.0@
    }
}

/// The nearest hit among the first `n` spheres: the index of the sphere and
/// the ray parameter. Each sphere is asked for a hit no farther than the
/// nearest one before it, and takes its place only if it is nearer.
pub open spec fn nearest(roots: Seq<Roots>, t_min: u64, t_max: u64, n: nat) -> Option<(int, u64)>
    decreases n,
{
    if n == 0 {
        None
    } else {
        let before = nearest(roots, t_min, t_max, (n - 1) as nat);
        match before {
            None => match roots[n - 1].select(t_min, t_max) {
                Some(t) => Some((n - 1, t)),
                None => None,
            },
            Some((_, closest)) => match roots[n - 1].select(t_min, closest) {
                Some(t) => if ieee::lt(t, closest) {
                    Some((n - 1, t))
                } else {
                    before
                },
                None => before,
            },
        }
    }
}

/// The nearest hit among the first `n` spheres depends on their roots alone.
proof fn lemma_nearest_of_prefix(a: Seq<Roots>, b: Seq<Roots>, t_min: u64, t_max: u64, n: nat)
    requires
        n <= a.len(),
        n <= b.len(),
        forall|k: int| 0 <= k < n ==> a[k] == b[k],
    ensures
        nearest(a, t_min, t_max, n) == nearest(b, t_min, t_max, n),
    decreases n,
{
    if n > 0 {
        lemma_nearest_of_prefix(a, b, t_min, t_max, (n - 1) as nat);
    }
}

/// Whether the hit at `t` of the sphere at place `i` is no farther than the
/// hit that the sphere at place `j` has within the interval, and nearer if
/// that sphere comes first.
pub open spec fn precedes(i: int, t: u64, roots: Seq<Roots>, t_min: u64, t_max: u64, j: int) -> bool {
    match roots[j].select(t_min, t_max) {
        Some(other) => ieee::le(t, other) && (j < i ==> ieee::lt(t, other)),
        None => true,
    }
}

/// Whether `found` is the first of the least among the hits that the first
/// `n` spheres have within the interval, each taken by itself.
pub open spec fn first_minimum(
    found: Option<(int, u64)>,
    roots: Seq<Roots>,
    t_min: u64,
    t_max: u64,
    n: nat,
) -> bool {
    match found {
        None => forall|j: int| 0 <= j < n ==> (#[trigger] roots[j]).select(t_min, t_max) is None,
        Some((i, t)) => {
            &&& 0 <= i < n
            &&& roots[i].select(t_min, t_max) == Some(t)
            &&& !ieee::is_nan(t)
            &&& forall|j: int| 0 <= j < n ==> #[trigger] precedes(i, t, roots, t_min, t_max, j)
        },
    }
}

/// A sphere with ordered roots that is asked for a hit no farther than
/// `closest` answers with the hit that it has within the whole interval,
/// unless that one is farther than `closest`.
proof fn lemma_select_within(roots: Roots, t_min: u64, t_max: u64, closest: u64)
    requires
        roots.ordered(),
        !ieee::is_nan(t_min),
        ieee::le(closest, t_max),
    ensures
        roots.select(t_min, closest) == match roots.select(t_min, t_max) {
            Some(t) => if ieee::le(t, closest) {
                Some(t)
            } else {
                None
            },
            None => None,
        },
{
}

/// The scan finds the nearest hit, and of several equally near hits the one
/// of the sphere that was added first: this holds where the interval's ends
/// are numbers and the roots of every sphere are numbers in their order.
pub proof fn lemma_nearest_is_first_minimum(roots: Seq<Roots>, t_min: u64, t_max: u64, n: nat)
    requires
        n <= roots.len(),
        !ieee::is_nan(t_min),
        !ieee::is_nan(t_max),
        forall|j: int| 0 <= j < n ==> (#[trigger] roots[j]).ordered(),
    ensures
        first_minimum(nearest(roots, t_min, t_max, n), roots, t_min, t_max, n),
    decreases n,
{
    if n > 0 {
        let m = (n - 1) as nat;
        let before = nearest(roots, t_min, t_max, m);
        lemma_nearest_is_first_minimum(roots, t_min, t_max, m);
        let last = roots[n - 1];
        assert(last.ordered());
        match before {
            None => {
                match nearest(roots, t_min, t_max, n) {
                    Some((i, t)) => {
                        assert forall|j: int| 0 <= j < n implies #[trigger] precedes(
                            i,
                            t,
                            roots,
                            t_min,
                            t_max,
                            j,
                        ) by {
                            if j < m {
                                assert(roots[j].select(t_min, t_max) is None);
                            }
                        }
                    },
                    None => {
                        assert forall|j: int| 0 <= j < n implies (#[trigger] roots[j]).select(
                            t_min,
                            t_max,
                        ) is None by {
                            if j < m {
                                assert(roots[j].select(t_min, t_max) is None);
                            }
                        }
                    },
                }
            },
            Some((k, closest)) => {
                assert(roots[k].ordered());
                lemma_select_within(last, t_min, t_max, closest);
                match nearest(roots, t_min, t_max, n) {
                    Some((i, t)) => {
                        assert forall|j: int| 0 <= j < n implies #[trigger] precedes(
                            i,
                            t,
                            roots,
                            t_min,
                            t_max,
                            j,
                        ) by {
                            if j < m {
                                assert(precedes(k, closest, roots, t_min, t_max, j));
                            }
                        }
                    },
                    None => {},
                }
            },
        }
    }
}

impl HittableList {
    /// A scene without spheres.
    pub fn new() -> (r: Self)
        ensures
            r@ == Seq::<Sphere>::empty(),
    {
        HittableList(Vec::new())
    }

    /// Removes every sphere.
    pub fn clear(&mut self)
        ensures
            final(self)@ == Seq::<Sphere>::empty(),
    {
        self.0.clear();
    }

    /// Adds a sphere behind those that are there.
    pub fn add(&mut self, object: Sphere)
        ensures
            final(self)@ == old(self)@.push(object),
    {
        self.0.push(object);
    }

    /// The number of spheres.
    pub fn len(&self) -> (n: usize)
        ensures
            n == self@.len(),
    {
        self.0.len()
    }

    /// The sphere at place `i`.
    pub fn get(&self, i: usize) -> (s: &Sphere)
        requires
            i < self@.len(),
        ensures
            *s == self@[i as int],
    {
        &self.0[i]
    }

    /// Whether `roots` holds, for each sphere in its place, roots that the
    /// solver gives for it.
    pub open spec fn solved<F: Fn(&Sphere) -> Roots>(&self, solve: &F, roots: Seq<Roots>) -> bool {
        &&& roots.len() == self@.len()
        &&& forall|i: int|
            0 <= i < roots.len() ==> call_ensures(*solve, (&self@[i],), #[trigger] roots[i])
    }

    /// The nearest hit of a ray within the interval from `t_min` to `t_max`:
    /// the place of the sphere and the ray parameter. The solver is asked for
    /// the roots of the ray against each sphere, from the first sphere to the
    /// last.
    pub fn hit<F: Fn(&Sphere) -> Roots>(&self, solve: F, t_min: u64, t_max: u64) -> (r: Option<
        (usize, u64),
    >)
        requires
            forall|i: int| 0 <= i < self@.len() ==> call_requires(solve, (&#[trigger] self@[i],)),
        ensures
            exists|roots: Seq<Roots>|
                self.solved(&solve, roots) && match r {
                    Some((i, t)) => nearest(roots, t_min, t_max, roots.len()) == Some((i as int, t)),
                    None => nearest(roots, t_min, t_max, roots.len()) is None,
                },
            r matches Some((i, _)) ==> i < self@.len(),
    {
        let mut found: Option<(usize, u64)> = None;
        let mut closest_so_far: u64 = t_max;
        let ghost mut roots: Seq<Roots> = Seq::empty();
        let mut i: usize = 0;
        while i < self.0.len()
            invariant
                i <= self@.len(),
                roots.len() == i,
                found matches Some((k, _)) ==> k < i,
                forall|k: int| 0 <= k < self@.len() ==> call_requires(solve, (&#[trigger] self@[k],)),
                forall|k: int| 0 <= k < i ==> call_ensures(solve, (&self@[k],), #[trigger] roots[k]),
                match found {
                    Some((k, t)) => nearest(roots, t_min, t_max, i as nat) == Some((k as int, t))
                        && closest_so_far == t,
                    None => nearest(roots, t_min, t_max, i as nat) is None && closest_so_far
                        == t_max,
                },
            decreases self@.len() - i,
        {
            let solution = solve(&self.0[i]);
            proof {
                lemma_nearest_of_prefix(roots, roots.push(solution), t_min, t_max, i as nat);
                roots = roots.push(solution);
            }
            match solution.select(t_min, closest_so_far) {
                Some(t) => {
                    if found.is_none() || ieee::lt(t, closest_so_far) {
                        found = Some((i, t));
                        closest_so_far = t;
                    }
                },
                None => {},
            }
            i += 1;
        }
        proof {
            assert(self.solved(&solve, roots));
        }
        found
    }
}

} // verus!
