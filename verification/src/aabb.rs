//! An axis-aligned box: its corners in its own frame, and what a transform
//! makes of them in the world.
use vstd::prelude::*;
use crate::vector::{V3, SmallVec3, WideVec3, half, half_v3, lemma_product_bound};
use crate::transform::{Transform, TransformModel};
use crate::ray::Ray;
use crate::slab::{Slab, slab, enters_before_leaving, line_meets_box};

verus! {

/// No world coordinate of a box is larger in absolute value: a 32-bit
/// translation plus the product of two 16-bit factors.
pub const WORLD_LIMIT: i64 = 3_221_225_472;

/// The model of an [`AABB`].
pub struct BoxModel {
    pub local_min: V3,
    pub local_max: V3,
    pub world_min: V3,
    pub world_max: V3,
    pub extents: V3,
    pub true_center: V3,
    pub is_trigger: bool,
}

/// The box with the given corners in its own frame, as `t` places it: each
/// corner is scaled axis by axis and moved by the translation. The rotation
/// of `t` plays no part: the box stays aligned with the axes.
pub open spec fn place(local_min: V3, local_max: V3, t: TransformModel, is_trigger: bool) -> BoxModel {
    let world_min = t.translation.plus(local_min.times(t.scale));
    let world_max = t.translation.plus(local_max.times(t.scale));
    let extents = half_v3(world_max.minus(world_min));
    BoxModel {
        local_min,
        local_max,
        world_min,
        world_max,
        extents,
        true_center: world_min.plus(extents),
        is_trigger,
    }
}

/// The open intervals `(a_min, a_max)` and `(b_min, b_max)` share a point.
pub open spec fn intervals_cross(a_min: int, a_max: int, b_min: int, b_max: int) -> bool {
    a_max > b_min && a_min < b_max
}

impl BoxModel {
    /// The derived values agree with the world corners, and the corners are
    /// within [`WORLD_LIMIT`].
    pub open spec fn consistent(self) -> bool {
        &&& self.world_min.within(WORLD_LIMIT as int)
        &&& self.world_max.within(WORLD_LIMIT as int)
        &&& self.extents == half_v3(self.world_max.minus(self.world_min))
        &&& self.true_center == self.world_min.plus(self.extents)
    }

    /// The two boxes overlap with positive width on every axis, and are not
    /// both triggers.
    pub open spec fn overlaps(self, other: BoxModel) -> bool {
        &&& !(self.is_trigger && other.is_trigger)
        &&& intervals_cross(self.world_min.x, self.world_max.x, other.world_min.x, other.world_max.x)
        &&& intervals_cross(self.world_min.y, self.world_max.y, other.world_min.y, other.world_max.y)
        &&& intervals_cross(self.world_min.z, self.world_max.z, other.world_min.z, other.world_max.z)
    }

    /// The line through `o` with direction `d` meets the box.
    pub open spec fn meets_line(self, o: V3, d: V3) -> bool {
        line_meets_box(self.world_min, self.world_max, o, d)
    }
}

/// The executable form of a [`Slab`].
struct Span {
    parallel: bool,
    inside: bool,
    lo: i128,
    hi: i128,
    den: i64,
}

impl Span {
    spec fn model(self) -> Slab {
        Slab {
            parallel: self.parallel,
            inside: self.inside,
            lo: self.lo as int,
            hi: self.hi as int,
            den: self.den as int,
        }
    }

    spec fn bounded(self) -> bool {
        &&& -0x1_0000_0000_0000_0000 <= self.lo <= 0x1_0000_0000_0000_0000
        &&& -0x1_0000_0000_0000_0000 <= self.hi <= 0x1_0000_0000_0000_0000
        &&& 1 <= self.den <= 0x8000
    }

    fn enters_before_leaving(&self, t: &Span) -> (r: bool)
        requires
            self.bounded(),
            t.bounded(),
        ensures
            r == enters_before_leaving(self.model(), t.model()),
    {
        if self.parallel || t.parallel {
            return true;
        }
        proof {
            lemma_product_bound(self.lo as int, t.den as int, 0x1_0000_0000_0000_0000, 0x8000);
            lemma_product_bound(t.hi as int, self.den as int, 0x1_0000_0000_0000_0000, 0x8000);
        }
        self.lo * (t.den as i128) <= t.hi * (self.den as i128)
    }
}

/// An axis-aligned box that follows a transform.
///
/// The corners in the box's own frame are fixed when the box is made. The
/// corners in the world, the half-widths and the centre are derived from
/// them and from the transform last given.
#[allow(non_camel_case_types)]
#[derive(Clone, Copy, Debug)]
pub struct AABB {
    local_min: SmallVec3,
    local_max: SmallVec3,
    world_min: WideVec3,
    world_max: WideVec3,
    extents: WideVec3,
    true_center: WideVec3,
    is_trigger: bool,
}

impl View for AABB {
    type V = BoxModel;

    closed spec fn view(&self) -> BoxModel {
        BoxModel {
            local_min: self.local_min@,
            local_max: self.local_max@,
            world_min: self.world_min@,
            world_max: self.world_max@,
            extents: self.extents@,
            true_center: self.true_center@,
            is_trigger: self.is_trigger,
        }
    }
}

/// `center + local * scale`, which always fits.
fn world_coordinate(center: i32, local: i16, scale: i16) -> (w: i64)
    ensures
        w == center + local * scale,
        -WORLD_LIMIT <= w <= WORLD_LIMIT,
{
    proof {
        lemma_product_bound(local as int, scale as int, 0x8000, 0x8000);
    }
    center as i64 + (local as i64) * (scale as i64)
}

/// Half of `hi - lo`, rounded toward zero.
fn half_extent(lo: i64, hi: i64) -> (h: i64)
    requires
        -WORLD_LIMIT <= lo <= WORLD_LIMIT,
        -WORLD_LIMIT <= hi <= WORLD_LIMIT,
    ensures
        h == half(hi - lo),
{
    (hi - lo) / 2
}

/// The slab of one axis, from the two world coordinates of the box and the
/// ray's origin and direction on that axis.
fn get_max_and_min(min: i64, max: i64, origin: i32, direction: i16) -> (s: Span)
    ensures
        s.model() == slab(min as int, max as int, origin as int, direction as int),
        s.bounded(),
{
    let o: i128 = origin as i128;
    let a: i128 = min as i128;
    let b: i128 = max as i128;
    if direction == 0 {
        Span { parallel: true, inside: (a <= o && o <= b) || (b <= o && o <= a), lo: 0, hi: 0, den: 1 }
    } else {
        let p: i128 = if direction > 0 { a - o } else { o - a };
        let q: i128 = if direction > 0 { b - o } else { o - b };
        let den: i64 = if direction > 0 { direction as i64 } else { -(direction as i64) };
        if p <= q {
            Span { parallel: false, inside: true, lo: p, hi: q, den }
        } else {
            Span { parallel: false, inside: true, lo: q, hi: p, den }
        }
    }
}

impl AABB {
    /// The invariant of a box: see [`BoxModel::consistent`].
    pub open spec fn wf(&self) -> bool {
        self@.consistent()
    }

    /// A box with the corners `mi` and `ma` in its own frame, placed by
    /// `trans`.
    pub fn new(mi: SmallVec3, ma: SmallVec3, trans: Transform, trigger: bool) -> (r: AABB)
        ensures
            r@ == place(mi@, ma@, trans@, trigger),
            r.wf(),
    {
        let zero = WideVec3 { x: 0, y: 0, z: 0 };
        let mut abby = AABB {
            local_min: mi,
            local_max: ma,
            world_min: zero,
            world_max: zero,
            extents: zero,
            true_center: zero,
            is_trigger: trigger,
        };
        abby.update(trans);
        abby
    }

    /// Places the box anew: the world corners, the half-widths and the centre
    /// become what `trans` makes of the corners that the box was made with.
    pub fn update(&mut self, trans: Transform)
        ensures
            final(self)@ == place(
                old(self)@.local_min,
                old(self)@.local_max,
                trans@,
                old(self)@.is_trigger,
            ),
            final(self).wf(),
    {
        let center = trans.translation;
        let w_max = WideVec3 {
            x: world_coordinate(center.x, self.local_max.x, trans.scale.x),
            y: world_coordinate(center.y, self.local_max.y, trans.scale.y),
            z: world_coordinate(center.z, self.local_max.z, trans.scale.z),
        };
        let w_min = WideVec3 {
            x: world_coordinate(center.x, self.local_min.x, trans.scale.x),
            y: world_coordinate(center.y, self.local_min.y, trans.scale.y),
            z: world_coordinate(center.z, self.local_min.z, trans.scale.z),
        };
        let ext = WideVec3 {
            x: half_extent(w_min.x, w_max.x),
            y: half_extent(w_min.y, w_max.y),
            z: half_extent(w_min.z, w_max.z),
        };
        self.world_max = w_max;
        self.world_min = w_min;
        self.extents = ext;
        self.true_center = WideVec3 { x: w_min.x + ext.x, y: w_min.y + ext.y, z: w_min.z + ext.z };
    }

    /// Whether the line of `ray` meets the box.
    pub fn intersects_with_ray(&self, ray: Ray) -> (r: bool)
        ensures
            r == self@.meets_line(ray.origin()@, ray.direction()@),
    {
        let origin = ray.get_origin();
        let direction = ray.get_direction();
        let x = get_max_and_min(self.world_min.x, self.world_max.x, origin.x, direction.x);
        let y = get_max_and_min(self.world_min.y, self.world_max.y, origin.y, direction.y);
        if !x.inside || !y.inside {
            return false;
        }
        if !x.enters_before_leaving(&y) || !y.enters_before_leaving(&x) {
            return false;
        }
        let z = get_max_and_min(self.world_min.z, self.world_max.z, origin.z, direction.z);
        if !z.inside {
            return false;
        }
        if !x.enters_before_leaving(&z) || !z.enters_before_leaving(&x) {
            return false;
        }
        if !y.enters_before_leaving(&z) || !z.enters_before_leaving(&y) {
            return false;
        }
        true
    }

    /// The centre of the box in the world.
    pub fn get_center(&self) -> (c: WideVec3)
        ensures
            c@ == self@.true_center,
    {
        self.true_center
    }

    /// The half-widths of the box in the world.
    pub fn get_extents(&self) -> (e: WideVec3)
        ensures
            e@ == self@.extents,
    {
        self.extents
    }

    /// The world corners: the one made from the maximum first, then the one
    /// made from the minimum.
    pub fn get_max_and_min_points(&self) -> (r: (WideVec3, WideVec3))
        ensures
            r.0@ == self@.world_max,
            r.1@ == self@.world_min,
    {
        (self.world_max, self.world_min)
    }

    /// Whether the two boxes overlap. Two triggers never do.
    pub fn overlaps(&self, other: AABB) -> (r: bool)
        ensures
            r == self@.overlaps(other@),
    {
        if self.is_trigger && other.is_trigger {
            return false;
        }
        let (o_max, o_min) = other.get_max_and_min_points();
        let (i_max, i_min) = self.get_max_and_min_points();
        i_max.x > o_min.x && i_min.x < o_max.x && i_max.y > o_min.y && i_min.y < o_max.y
            && i_max.z > o_min.z && i_min.z < o_max.z
    }

    pub fn is_trigger_collider(&self) -> (r: bool)
        ensures
            r == self@.is_trigger,
    {
        self.is_trigger
    }
}

/// The boxes overlap with positive width on every axis, triggers or not.
pub open spec fn boxes_cross(a: BoxModel, b: BoxModel) -> bool {
    &&& intervals_cross(a.world_min.x, a.world_max.x, b.world_min.x, b.world_max.x)
    &&& intervals_cross(a.world_min.y, a.world_max.y, b.world_min.y, b.world_max.y)
    &&& intervals_cross(a.world_min.z, a.world_max.z, b.world_min.z, b.world_max.z)
}

/// A box made from corners and a transform has its world corners where the
/// transform puts them: the translation plus the corner scaled axis by axis.
pub proof fn lemma_placed_corners(mi: V3, ma: V3, t: TransformModel, is_trigger: bool)
    ensures
        place(mi, ma, t, is_trigger).world_max == t.translation.plus(ma.times(t.scale)),
        place(mi, ma, t, is_trigger).world_min == t.translation.plus(mi.times(t.scale)),
{
}

/// Placing a box again by the transform that placed it changes nothing.
pub proof fn lemma_place_idempotent(mi: V3, ma: V3, t: TransformModel, is_trigger: bool)
    ensures
        ({
            let b = place(mi, ma, t, is_trigger);
            place(b.local_min, b.local_max, t, b.is_trigger) == b
        }),
{
}

/// A box that a transform has placed is left as it is, field for field, by
/// a second placement with the same transform.
pub proof fn lemma_update_idempotent(before: AABB, t: TransformModel, after: AABB)
    requires
        before@ == place(before@.local_min, before@.local_max, t, before@.is_trigger),
        after@ == place(before@.local_min, before@.local_max, t, before@.is_trigger),
    ensures
        after == before,
{
    lemma_model_determines_box(before, after);
}

/// Two boxes with the same model are the same box, field for field.
pub proof fn lemma_model_determines_box(a: AABB, b: AABB)
    requires
        a@ == b@,
    ensures
        a == b,
{
}

/// Overlap does not depend on which box is asked.
pub proof fn lemma_overlaps_symmetric(a: BoxModel, b: BoxModel)
    ensures
        a.overlaps(b) == b.overlaps(a),
{
}

/// Two triggers never overlap, wherever they are. In every other pairing,
/// one trigger and one solid included, the boxes overlap exactly when they
/// cross on every axis.
pub proof fn lemma_trigger_suppression(a: BoxModel, b: BoxModel)
    ensures
        a.is_trigger && b.is_trigger ==> !a.overlaps(b),
        !(a.is_trigger && b.is_trigger) ==> a.overlaps(b) == boxes_cross(a, b),
{
}

/// The centre and the half-widths of a well-formed box are within
/// [`WORLD_LIMIT`] too: the centre lies between the two world corners.
pub proof fn lemma_center_within_limit(b: BoxModel)
    requires
        b.consistent(),
    ensures
        b.true_center.within(WORLD_LIMIT as int),
{
}

} // verus!
