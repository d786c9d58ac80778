//! Where a body stands, how it is turned and how it is scaled.
use vstd::prelude::*;
use crate::vector::{V3, Vec3, SmallVec3};

verus! {

/// The model of a [`Transform`].
pub struct TransformModel {
    pub translation: V3,
    pub rotation: V3,
    pub scale: V3,
}

/// Translation, rotation about the three axes, and a scale factor per axis.
///
/// The rotation is carried for whoever draws the body; no box reads it.
#[derive(Clone, Copy, Debug)]
pub struct Transform {
    pub translation: Vec3,
    pub rotation: Vec3,
    pub scale: SmallVec3,
}

impl View for Transform {
    type V = TransformModel;

    open spec fn view(&self) -> TransformModel {
        TransformModel {
            translation: self.translation@,
            rotation: self.rotation@,
            scale: self.scale@,
        }
    }
}

impl Transform {
    pub fn new(trans: Vec3, rot: Vec3, size: SmallVec3) -> (r: Transform)
        ensures
            r.translation == trans,
            r.rotation == rot,
            r.scale == size,
    {
        Transform { translation: trans, rotation: rot, scale: size }
    }

    /// Replaces the translation.
    pub fn update_translation(&mut self, trans: Vec3)
        ensures
            *final(self) == (Transform { translation: trans, ..*old(self) }),
    {
        self.translation = trans;
    }

    /// Moves by `trans`. The sum has to fit in 32 bits on every axis:
    /// [`Vec3::checked_plus`] tells.
    pub fn translate(&mut self, trans: Vec3)
        requires
            old(self).translation.sum_fits(trans),
        ensures
            final(self)@ == (TransformModel {
                translation: old(self)@.translation.plus(trans@),
                ..old(self)@
            }),
    {
        self.translation = Vec3 {
            x: self.translation.x + trans.x,
            y: self.translation.y + trans.y,
            z: self.translation.z + trans.z,
        };
    }

    /// Replaces the rotation.
    pub fn update_rotation(&mut self, rot: Vec3)
        ensures
            *final(self) == (Transform { rotation: rot, ..*old(self) }),
    {
        self.rotation = rot;
    }

    /// Turns further by `rot`. The sum has to fit in 32 bits about every
    /// axis: [`Vec3::checked_plus`] tells.
    pub fn rotate(&mut self, rot: Vec3)
        requires
            old(self).rotation.sum_fits(rot),
        ensures
            final(self)@ == (TransformModel {
                rotation: old(self)@.rotation.plus(rot@),
                ..old(self)@
            }),
    {
        self.rotation = Vec3 {
            x: self.rotation.x + rot.x,
            y: self.rotation.y + rot.y,
            z: self.rotation.z + rot.z,
        };
    }

    /// Sets the rotation to zero about every axis.
    pub fn reset_rotation(&mut self)
        ensures
            *final(self) == (Transform { rotation: Vec3 { x: 0, y: 0, z: 0 }, ..*old(self) }),
    {
        self.rotation = Vec3::zeros();
    }

    /// Replaces the scale.
    pub fn update_scale(&mut self, size: SmallVec3)
        ensures
            *final(self) == (Transform { scale: size, ..*old(self) }),
    {
        self.scale = size;
    }
}

} // verus!
