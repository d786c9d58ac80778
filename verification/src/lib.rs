//! Axis-aligned bounding boxes on an integer lattice: placement by a
//! transform, box-against-box overlap, line-against-box intersection by slabs,
//! and a registry of bodies with a pairwise collision scan and a cone-filtered
//! ray query.
//!
//! Every coordinate is an integer, so every answer is exact: no rounding, no
//! infinities, and no comparison whose outcome depends on the last bit.
use vstd::prelude::*;

pub mod vector;
pub mod transform;
pub mod ray;
pub mod slab;
pub mod aabb;
pub mod physics;
pub mod textbox;
pub mod game;

verus! {

} // verus!
