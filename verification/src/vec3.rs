//! Triples of binary64 patterns: points, directions and colours.

use vstd::prelude::*;
use crate::ieee;

verus! {

/// The pattern of 1e-8: a component whose absolute value is below it counts
/// as zero.
pub const NEAR_ZERO_DELTA: u64 = 0x3e45_798e_e230_8c3a;

/// Three binary64 patterns: the x, y and z components of a point, a direction
/// or a colour.
#[derive(Debug, Clone, Copy)]
pub struct Vec3(pub [u64; 3]);

impl Vec3 {
    /// The first component.
    pub open spec fn spec_x(&self) -> u64 {
        self.0[0]
    }

    /// The second component.
    pub open spec fn spec_y(&self) -> u64 {
        self.0[1]
    }

    /// The third component.
    pub open spec fn spec_z(&self) -> u64 {
        self.0[2]
    }

    /// The triple of the three given components.
    pub open spec fn spec_new(a: u64, b: u64, c: u64) -> Vec3 {
        Vec3([a, b, c])
    }

    /// Whether every component is smaller than `NEAR_ZERO_DELTA` in absolute
    /// value.
    pub open spec fn spec_near_zero(&self) -> bool {
        &&& ieee::lt(ieee::abs(self.x()), NEAR_ZERO_DELTA)
        &&& ieee::lt(ieee::abs(self.y()), NEAR_ZERO_DELTA)
        &&& ieee::lt(ieee::abs(self.z()), NEAR_ZERO_DELTA)
    }

    /// The triple of the negated components.
    pub open spec fn spec_neg(self) -> Vec3 {
        Vec3([ieee::neg(self.x()), ieee::neg(self.y()), ieee::neg(self.z())])
    }

    /// Two triples with the same components are the same triple.
    pub proof fn lemma_componentwise(a: Vec3, b: Vec3)
        requires
            a.x() == b.x(),
            a.y() == b.y(),
            a.z() == b.z(),
        ensures
            a == b,
    {
        assert(a.0 =~= b.0);
    }

    /// Negating twice gives the triple back.
    pub proof fn lemma_neg_involution(a: Vec3)
        ensures
            a.neg().neg() == a,
    {
        Self::lemma_componentwise(a.neg().neg(), a);
    }

    #[verifier::when_used_as_spec(spec_new)]
    pub fn new(a: u64, b: u64, c: u64) -> (r: Self)
        ensures
            r == Self::spec_new(a, b, c),
            r.x() == a,
            r.y() == b,
            r.z() == c,
    {
        Vec3([a, b, c])
    }

    /// The origin, and the colour black: three positive zeros.
    pub fn zero() -> (r: Self)
        ensures
            r == Vec3::new(ieee::ZERO, ieee::ZERO, ieee::ZERO),
    {
        Vec3([ieee::ZERO, ieee::ZERO, ieee::ZERO])
    }

    /// The triple whose three components are all `x`.
    pub fn repeat(x: u64) -> (r: Self)
        ensures
            r == Vec3::new(x, x, x),
    {
        Vec3([x, x, x])
    }

    #[verifier::when_used_as_spec(spec_x)]
    pub fn x(&self) -> (r: u64)
        ensures
            r == self.spec_x(),
    {
        self.0[0]
    }

    #[verifier::when_used_as_spec(spec_y)]
    pub fn y(&self) -> (r: u64)
        ensures
            r == self.spec_y(),
    {
        self.0[1]
    }

    #[verifier::when_used_as_spec(spec_z)]
    pub fn z(&self) -> (r: u64)
        ensures
            r == self.spec_z(),
    {
        self.0[2]
    }

    /// Whether the triple is too close to the origin to serve as a direction.
    #[verifier::when_used_as_spec(spec_near_zero)]
    pub fn near_zero(&self) -> (r: bool)
        ensures
            r == self.spec_near_zero(),
    {
        ieee::lt(ieee::abs(self.0[0]), NEAR_ZERO_DELTA)
            && ieee::lt(ieee::abs(self.0[1]), NEAR_ZERO_DELTA)
            && ieee::lt(ieee::abs(self.0[2]), NEAR_ZERO_DELTA)
    }

    /// The opposite triple: every sign bit flipped.
    #[verifier::when_used_as_spec(spec_neg)]
    pub fn neg(self) -> (r: Self)
        ensures
            r == self.spec_neg(),
    {
        Vec3([ieee::neg(self.0[0]), ieee::neg(self.0[1]), ieee::neg(self.0[2])])
    }
}

} // verus!
