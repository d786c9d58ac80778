//! A ray: where it starts and where it points.
use vstd::prelude::*;
use crate::vector::{Vec3, SmallVec3};

verus! {

/// An origin and a direction, kept as given. The direction need not have
/// any particular length: a direction and a positive multiple of it give the
/// same answers.
#[derive(Clone, Copy, Debug)]
pub struct Ray {
    origin: Vec3,
    direction: SmallVec3,
}

impl Ray {
    /// The origin that the ray was made with.
    pub closed spec fn origin(&self) -> Vec3 {
        self.origin
    }

    /// The direction that the ray was made with.
    pub closed spec fn direction(&self) -> SmallVec3 {
        self.direction
    }

    pub fn new(o: Vec3, d: SmallVec3) -> (r: Ray)
        ensures
            r.origin() == o,
            r.direction() == d,
    {
        Ray { origin: o, direction: d }
    }

    pub fn get_origin(&self) -> (o: Vec3)
        ensures
            o == self.origin(),
    {
        self.origin
    }

    pub fn get_direction(&self) -> (d: SmallVec3)
        ensures
            d == self.direction(),
    {
        self.direction
    }
}

} // verus!
