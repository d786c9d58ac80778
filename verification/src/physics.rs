//! The registry of bodies: registration, the pairwise collision scan, and
//! the ray query.
use vstd::prelude::*;
use crate::vector::{V3, Vec3, SmallVec3, WideVec3, lemma_product_bound};
use crate::transform::Transform;
use crate::ray::Ray;
use crate::aabb::{AABB, BoxModel, place, WORLD_LIMIT, lemma_overlaps_symmetric, lemma_center_within_limit};
use crate::slab::lemma_line_ignores_direction_length;

verus! {

/// The cone of a ray query has a half-angle of 30 degrees. The square of
/// its cosine is `CONE_COS_SQ_NUM / CONE_COS_SQ_DEN`.
pub const CONE_COS_SQ_NUM: i128 = 3;

/// See [`CONE_COS_SQ_NUM`].
pub const CONE_COS_SQ_DEN: i128 = 4;

/// The largest index below `bound`, other than `k`, of a body that overlaps
/// body `k`.
pub open spec fn last_partner_below(bodies: Seq<AABB>, k: int, bound: int) -> Option<int>
    decreases bound,
{
    if bound <= 0 {
        None
    } else if bound - 1 != k && bodies[k]@.overlaps(bodies[bound - 1]@) {
        Some(bound - 1)
    } else {
        last_partner_below(bodies, k, bound - 1)
    }
}

/// What the slot of body `k` holds once `k` has been held against every
/// other body below `bound`, in rising order: a copy of the last that
/// overlaps it.
pub open spec fn partner_slot(bodies: Seq<AABB>, k: int, bound: int) -> Option<AABB> {
    match last_partner_below(bodies, k, bound) {
        Some(m) => Some(bodies[m]),
        None => None,
    }
}

/// `diff` makes an angle of at most 30 degrees with `dir`: the scalar
/// product is positive and its square is at least three quarters of the
/// product of the squared lengths. Neither vector is then zero.
pub open spec fn in_cone(diff: V3, dir: V3) -> bool {
    let dot = diff.dot(dir);
    dot > 0 && CONE_COS_SQ_DEN * (dot * dot) >= CONE_COS_SQ_NUM * (diff.norm_sq() * dir.norm_sq())
}

/// `diff` is no longer than `max_distance`.
pub open spec fn in_reach(diff: V3, max_distance: int) -> bool {
    max_distance >= 0 && diff.norm_sq() <= max_distance * max_distance
}

/// The centre of `b` lies in the cone round `dir` from `origin`, no farther
/// than `max_distance`.
pub open spec fn is_candidate(b: BoxModel, origin: V3, dir: V3, max_distance: int) -> bool {
    let diff = b.true_center.minus(origin);
    in_cone(diff, dir) && in_reach(diff, max_distance)
}

/// `b` is a candidate, and the line of the ray meets it.
pub open spec fn is_hit(b: BoxModel, origin: V3, dir: V3, max_distance: int) -> bool {
    is_candidate(b, origin, dir, max_distance) && b.meets_line(origin, dir)
}

/// The squared distance from `origin` to the centre of `b`.
pub open spec fn center_distance_sq(b: BoxModel, origin: V3) -> int {
    b.true_center.minus(origin).norm_sq()
}

/// Body `k` comes no later than body `j` when the bodies are ordered by the
/// distance of their centres from `origin`, bodies at the same distance in
/// the order of their handles.
pub open spec fn no_later(bodies: Seq<AABB>, origin: V3, k: int, j: int) -> bool {
    let dk = center_distance_sq(bodies[k]@, origin);
    let dj = center_distance_sq(bodies[j]@, origin);
    dk < dj || (dk == dj && k <= j)
}

/// Body `k` is hit, and comes no later than any other body that is hit.
pub open spec fn is_first_hit(bodies: Seq<AABB>, origin: V3, dir: V3, max_distance: int, k: int) -> bool {
    &&& 0 <= k < bodies.len()
    &&& is_hit(bodies[k]@, origin, dir, max_distance)
    &&& forall|j: int|
        0 <= j < bodies.len() && #[trigger] is_hit(bodies[j]@, origin, dir, max_distance)
            ==> no_later(bodies, origin, k, j)
}

/// The bodies of a scene and, for each, the partner that the last scan
/// found.
pub struct Physics {
    bodies: Vec<AABB>,
    collisions: Vec<Option<AABB>>,
}

impl Physics {
    /// The bodies, by handle.
    pub closed spec fn bodies(&self) -> Seq<AABB> {
        self.bodies@
    }

    /// The collision slots, by handle.
    pub closed spec fn collisions(&self) -> Seq<Option<AABB>> {
        self.collisions@
    }

    /// Each body has its slot, and each body is well formed.
    pub open spec fn wf(&self) -> bool {
        &&& self.collisions().len() == self.bodies().len()
        &&& forall|k: int| 0 <= k < self.bodies().len() ==> (#[trigger] self.bodies()[k]).wf()
    }

    /// A registry without bodies.
    pub fn new() -> (r: Physics)
        ensures
            r.wf(),
            r.bodies().len() == 0,
            r.collisions().len() == 0,
    {
        Physics { bodies: Vec::new(), collisions: Vec::new() }
    }

    /// The number of bodies.
    pub fn body_count(&self) -> (n: usize)
        ensures
            n == self.bodies().len(),
    {
        self.bodies.len()
    }

    /// Registers a solid body and returns its handle. The bodies that were
    /// there keep their handles and their slots.
    pub fn add_body(&mut self, trans: Transform, min: SmallVec3, max: SmallVec3) -> (handle: usize)
        requires
            old(self).wf(),
        ensures
            final(self).wf(),
            handle == old(self).bodies().len(),
            final(self).bodies().len() == old(self).bodies().len() + 1,
            final(self).bodies()[handle as int]@ == place(min@, max@, trans@, false),
            forall|k: int| 0 <= k < old(self).bodies().len()
                ==> final(self).bodies()[k] == old(self).bodies()[k],
            final(self).collisions() == old(self).collisions().push(None),
    {
        self.add_body_with_trigger(trans, min, max, false)
    }

    /// Registers a body, solid or trigger, and returns its handle. The bodies
    /// that were there keep their handles and their slots.
    pub fn add_body_with_trigger(
        &mut self,
        trans: Transform,
        min: SmallVec3,
        max: SmallVec3,
        trigger: bool,
    ) -> (handle: usize)
        requires
            old(self).wf(),
        ensures
            final(self).wf(),
            handle == old(self).bodies().len(),
            final(self).bodies().len() == old(self).bodies().len() + 1,
            final(self).bodies()[handle as int]@ == place(min@, max@, trans@, trigger),
            forall|k: int| 0 <= k < old(self).bodies().len()
                ==> final(self).bodies()[k] == old(self).bodies()[k],
            final(self).collisions() == old(self).collisions().push(None),
    {
        let newb = AABB::new(min, max, trans, trigger);
        self.bodies.push(newb);
        self.collisions.push(None);
        self.bodies.len() - 1
    }

    /// A copy of the body behind `index`.
    pub fn get_body(&self, index: usize) -> (b: AABB)
        requires
            index < self.bodies().len(),
        ensures
            b == self.bodies()[index as int],
    {
        self.bodies[index]
    }

    /// Places the body behind `index` anew. No other body and no slot
    /// changes.
    pub fn update_body(&mut self, index: usize, trans: Transform)
        requires
            old(self).wf(),
            index < old(self).bodies().len(),
        ensures
            final(self).wf(),
            final(self).bodies().len() == old(self).bodies().len(),
            final(self).bodies()[index as int]@ == place(
                old(self).bodies()[index as int]@.local_min,
                old(self).bodies()[index as int]@.local_max,
                trans@,
                old(self).bodies()[index as int]@.is_trigger,
            ),
            forall|k: int| 0 <= k < old(self).bodies().len() && k != index
                ==> final(self).bodies()[k] == old(self).bodies()[k],
            final(self).collisions() == old(self).collisions(),
    {
        let mut body = self.bodies[index];
        body.update(trans);
        self.bodies.set(index, body);
    }

    /// The partner that the last scan left in the slot of `index`; `None`
    /// where it left none, and where no body has this handle.
    pub fn check_for_collision(&self, index: usize) -> (r: Option<AABB>)
        ensures
            r == if index < self.collisions().len() {
                self.collisions()[index as int]
            } else {
                None
            },
    {
        if index < self.collisions.len() {
            return self.collisions[index];
        }
        None
    }

    /// The scan of every pair of bodies. Every slot is emptied first. Then
    /// the slot of each body gets a copy of the partner with the largest
    /// handle among the bodies that overlap it, whatever the slot held
    /// before; it stays empty where none overlaps.
    pub fn collision_check(&mut self)
        requires
            old(self).wf(),
        ensures
            final(self).wf(),
            final(self).bodies() == old(self).bodies(),
            forall|k: int| 0 <= k < final(self).bodies().len()
                ==> #[trigger] final(self).collisions()[k] == partner_slot(
                    final(self).bodies(),
                    k,
                    final(self).bodies().len() as int,
                ),
    {
        let n: usize = self.bodies.len();
        let mut c: usize = 0;
        while c < n
            invariant
                0 <= c <= n,
                self.bodies == old(self).bodies,
                self.bodies.len() == n,
                self.collisions.len() == n,
                forall|k: int| 0 <= k < c ==> #[trigger] self.collisions@[k] == None::<AABB>,
            decreases n - c,
        {
            self.collisions.set(c, None);
            c += 1;
        }
        let ghost bodies = self.bodies@;
        let mut i: usize = 0;
        while i < n
            invariant
                0 <= i <= n,
                self.bodies == old(self).bodies,
                bodies == self.bodies@,
                bodies.len() == n,
                self.collisions.len() == n,
                forall|k: int| 0 <= k < n ==> #[trigger] self.collisions@[k] == partner_slot(
                    bodies,
                    k,
                    scanned_rows(k, i as int, n as int),
                ),
            decreases n - i,
        {
            let body_a = self.bodies[i];
            let mut j: usize = i + 1;
            while j < n
                invariant
                    0 <= i < j <= n,
                    self.bodies == old(self).bodies,
                    bodies == self.bodies@,
                    bodies.len() == n,
                    body_a == bodies[i as int],
                    self.collisions.len() == n,
                    forall|k: int| 0 <= k < n ==> #[trigger] self.collisions@[k] == partner_slot(
                        bodies,
                        k,
                        scanned_pairs(k, i as int, j as int, n as int),
                    ),
                decreases n - j,
            {
                let body_b = self.bodies[j];
                if body_a.overlaps(body_b) {
                    self.collisions.set(i, Some(body_b));
                    self.collisions.set(j, Some(body_a));
                }
                proof {
                    lemma_overlaps_symmetric(body_a@, body_b@);
                }
                j += 1;
            }
            i += 1;
        }
    }

    /// The handle of the body that a ray query finds.
    ///
    /// A body is a candidate where its centre lies within 30 degrees of
    /// `dir`, seen from `origin`, and no farther from it than
    /// `max_distance`. Among the candidates that the line of the ray meets,
    /// the answer is the one whose centre is nearest to `origin`, and of
    /// several at the same distance the one with the smallest handle. It is
    /// `None` where the line meets no candidate. The distance is that of the
    /// centre, not that of the point where the ray enters the box.
    pub fn raycast_handle(&self, origin: Vec3, dir: SmallVec3, max_distance: i64) -> (r: Option<usize>)
        requires
            self.wf(),
        ensures
            match r {
                Some(k) => is_first_hit(self.bodies(), origin@, dir@, max_distance as int, k as int),
                None => forall|j: int| 0 <= j < self.bodies().len()
                    ==> !is_hit(#[trigger] self.bodies()[j]@, origin@, dir@, max_distance as int),
            },
    {
        let ray = Ray::new(origin, dir);
        let n: usize = self.bodies.len();
        let mut best: Option<usize> = None;
        let mut best_distance: i128 = 0;
        let mut i: usize = 0;
        while i < n
            invariant
                0 <= i <= n,
                n == self.bodies@.len(),
                self.wf(),
                ray.origin() == origin,
                ray.direction() == dir,
                match best {
                    Some(k) => {
                        &&& k < i
                        &&& is_hit(self.bodies@[k as int]@, origin@, dir@, max_distance as int)
                        &&& best_distance == center_distance_sq(self.bodies@[k as int]@, origin@)
                        &&& forall|j: int| 0 <= j < i && #[trigger] is_hit(self.bodies@[j]@, origin@, dir@, max_distance as int)
                            ==> no_later(self.bodies@, origin@, k as int, j)
                    },
                    None => forall|j: int| 0 <= j < i
                        ==> !is_hit(#[trigger] self.bodies@[j]@, origin@, dir@, max_distance as int),
                },
            decreases n - i,
        {
            let body = self.bodies[i];
            proof {
                assert(self.bodies()[i as int].wf());
                lemma_center_within_limit(body@);
            }
            let (candidate, distance) = cone_filter(body.get_center(), origin, dir, max_distance);
            let nearer = match best {
                Some(_) => distance < best_distance,
                None => true,
            };
            if candidate && nearer && body.intersects_with_ray(ray) {
                best = Some(i);
                best_distance = distance;
            }
            i += 1;
        }
        best
    }

    /// A copy of the body that a ray query finds: see
    /// [`Physics::raycast_handle`].
    pub fn raycast(&self, origin: Vec3, dir: SmallVec3, max_distance: i64) -> (r: Option<AABB>)
        requires
            self.wf(),
        ensures
            match r {
                Some(b) => exists|k: int|
                    #[trigger] is_first_hit(self.bodies(), origin@, dir@, max_distance as int, k)
                        && b == self.bodies()[k],
                None => forall|j: int| 0 <= j < self.bodies().len()
                    ==> !is_hit(#[trigger] self.bodies()[j]@, origin@, dir@, max_distance as int),
            },
    {
        match self.raycast_handle(origin, dir, max_distance) {
            Some(k) => Some(self.bodies[k]),
            None => None,
        }
    }
}

/// Whether a centre is a candidate of a ray query, and the square of its
/// distance from the origin.
fn cone_filter(center: WideVec3, origin: Vec3, dir: SmallVec3, max_distance: i64) -> (r: (bool, i128))
    requires
        center@.within(WORLD_LIMIT as int),
    ensures
        r.0 == (in_cone(center@.minus(origin@), dir@) && in_reach(center@.minus(origin@), max_distance as int)),
        r.1 == center@.minus(origin@).norm_sq(),
{
    let dx: i128 = center.x as i128 - origin.x as i128;
    let dy: i128 = center.y as i128 - origin.y as i128;
    let dz: i128 = center.z as i128 - origin.z as i128;
    let ex: i128 = dir.x as i128;
    let ey: i128 = dir.y as i128;
    let ez: i128 = dir.z as i128;
    proof {
        lemma_product_bound(dx as int, ex as int, 0x2_0000_0000, 0x8000);
        lemma_product_bound(dy as int, ey as int, 0x2_0000_0000, 0x8000);
        lemma_product_bound(dz as int, ez as int, 0x2_0000_0000, 0x8000);
        lemma_product_bound(dx as int, dx as int, 0x2_0000_0000, 0x2_0000_0000);
        lemma_product_bound(dy as int, dy as int, 0x2_0000_0000, 0x2_0000_0000);
        lemma_product_bound(dz as int, dz as int, 0x2_0000_0000, 0x2_0000_0000);
        lemma_product_bound(ex as int, ex as int, 0x8000, 0x8000);
        lemma_product_bound(ey as int, ey as int, 0x8000, 0x8000);
        lemma_product_bound(ez as int, ez as int, 0x8000, 0x8000);
    }
    let dot: i128 = dx * ex + dy * ey + dz * ez;
    let len_sq: i128 = dx * dx + dy * dy + dz * dz;
    let dir_sq: i128 = ex * ex + ey * ey + ez * ez;
    proof {
        lemma_product_bound(dot as int, dot as int, 0x4_0000_0000_0000, 0x4_0000_0000_0000);
        lemma_product_bound(len_sq as int, dir_sq as int, 0x10_0000_0000_0000_0000, 0x1_0000_0000);
        lemma_product_bound(max_distance as int, max_distance as int, 0x8000_0000_0000_0000, 0x8000_0000_0000_0000);
    }
    let cone: bool = dot > 0 && CONE_COS_SQ_DEN * (dot * dot) >= CONE_COS_SQ_NUM * (len_sq * dir_sq);
    let reach: bool = max_distance >= 0 && len_sq <= (max_distance as i128) * (max_distance as i128);
    (cone && reach, len_sq)
}

/// How far the scan has held body `k` against the others once the rows
/// below `i` are done: against all of them where `k < i`, else against
/// those below `i`.
pub open spec fn scanned_rows(k: int, i: int, n: int) -> int {
    if k < i {
        n
    } else {
        i
    }
}

/// The same inside row `i`, once the columns below `j` are done.
pub open spec fn scanned_pairs(k: int, i: int, j: int, n: int) -> int {
    if k < i {
        n
    } else if k == i {
        j
    } else if k < j {
        i + 1
    } else {
        i
    }
}

/// What the scan leaves in a slot, said without recursion: the partner has
/// the largest handle of all bodies that overlap body `k`, and there is none
/// exactly where no other body overlaps it.
pub proof fn lemma_last_partner_is_largest(bodies: Seq<AABB>, k: int, bound: int)
    ensures
        match last_partner_below(bodies, k, bound) {
            Some(m) => {
                &&& 0 <= m < bound
                &&& m != k
                &&& bodies[k]@.overlaps(bodies[m]@)
                &&& forall|j: int| m < j < bound && j != k ==> !bodies[k]@.overlaps(#[trigger] bodies[j]@)
            },
            None => forall|j: int| 0 <= j < bound && j != k ==> !bodies[k]@.overlaps(#[trigger] bodies[j]@),
        },
    decreases bound,
{
    if bound > 0 && !(bound - 1 != k && bodies[k]@.overlaps(bodies[bound - 1]@)) {
        lemma_last_partner_is_largest(bodies, k, bound - 1);
    }
}

/// A body that overlaps another never has an empty slot after a scan.
pub proof fn lemma_overlap_fills_slot(bodies: Seq<AABB>, k: int, m: int)
    requires
        0 <= k < bodies.len(),
        0 <= m < bodies.len(),
        m != k,
        bodies[k]@.overlaps(bodies[m]@),
    ensures
        partner_slot(bodies, k, bodies.len() as int).is_some(),
{
    lemma_last_partner_is_largest(bodies, k, bodies.len() as int);
}

/// A body whose centre does not lie ahead of the origin, along the
/// direction of the ray, is no candidate of a ray query, however far the
/// query reaches.
pub proof fn lemma_behind_is_never_hit(b: BoxModel, origin: V3, dir: V3, max_distance: int)
    requires
        b.true_center.minus(origin).dot(dir) <= 0,
    ensures
        !is_candidate(b, origin, dir, max_distance),
        !is_hit(b, origin, dir, max_distance),
{
}

/// Whatever a ray query finds lies in the cone and within reach, and the
/// line of the ray meets it.
pub proof fn lemma_first_hit_is_in_cone(bodies: Seq<AABB>, origin: V3, dir: V3, max_distance: int, k: int)
    requires
        is_first_hit(bodies, origin, dir, max_distance, k),
    ensures
        in_cone(bodies[k]@.true_center.minus(origin), dir),
        in_reach(bodies[k]@.true_center.minus(origin), max_distance),
        bodies[k]@.meets_line(origin, dir),
{
}

/// A ray query has one answer: two bodies that both are the first hit are
/// the same body.
pub proof fn lemma_first_hit_is_unique(bodies: Seq<AABB>, origin: V3, dir: V3, max_distance: int, k: int, j: int)
    requires
        is_first_hit(bodies, origin, dir, max_distance, k),
        is_first_hit(bodies, origin, dir, max_distance, j),
    ensures
        k == j,
{
}

/// The products that [`lemma_cone_ignores_direction_length`] rearranges.
proof fn lemma_stretched_products(a: int, b: int, c: int)
    ensures
        a * (c * b) == c * (a * b),
        (c * b) * (c * b) == (c * c) * (b * b),
{
    assert(a * (c * b) == c * (a * b)) by (nonlinear_arith);
    assert((c * b) * (c * b) == (c * c) * (b * b)) by (nonlinear_arith);
}

/// The cone does not depend on the length of the direction either.
pub proof fn lemma_cone_ignores_direction_length(diff: V3, dir: V3, c: int)
    requires
        c > 0,
    ensures
        in_cone(diff, dir) == in_cone(diff, dir.stretched(c)),
{
    let e = dir.stretched(c);
    let dot = diff.dot(dir);
    let len = diff.norm_sq();
    let dsq = dir.norm_sq();
    lemma_stretched_products(diff.x, dir.x, c);
    lemma_stretched_products(diff.y, dir.y, c);
    lemma_stretched_products(diff.z, dir.z, c);
    assert(diff.dot(e) == c * dot) by (nonlinear_arith)
        requires
            diff.dot(e) == c * (diff.x * dir.x) + c * (diff.y * dir.y) + c * (diff.z * dir.z),
            dot == diff.x * dir.x + diff.y * dir.y + diff.z * dir.z,
    ;
    assert(e.norm_sq() == (c * c) * dsq) by (nonlinear_arith)
        requires
            e.norm_sq() == (c * c) * (dir.x * dir.x) + (c * c) * (dir.y * dir.y) + (c * c) * (dir.z
                * dir.z),
            dsq == dir.x * dir.x + dir.y * dir.y + dir.z * dir.z,
    ;
    assert((c * dot > 0) == (dot > 0)) by (nonlinear_arith)
        requires
            c > 0,
    ;
    let lhs = CONE_COS_SQ_DEN * (dot * dot);
    let rhs = CONE_COS_SQ_NUM * (len * dsq);
    assert(CONE_COS_SQ_DEN * ((c * dot) * (c * dot)) == (c * c) * lhs) by (nonlinear_arith)
        requires
            lhs == CONE_COS_SQ_DEN * (dot * dot),
    ;
    assert(CONE_COS_SQ_NUM * (len * ((c * c) * dsq)) == (c * c) * rhs) by (nonlinear_arith)
        requires
            rhs == CONE_COS_SQ_NUM * (len * dsq),
    ;
    assert(((c * c) * lhs >= (c * c) * rhs) == (lhs >= rhs)) by (nonlinear_arith)
        requires
            c > 0,
    ;
}

/// A ray query gives the same answer for a direction and for any positive
/// multiple of it: which bodies are hit does not depend on the length of
/// the direction, and their order does not depend on the direction at all.
pub proof fn lemma_hit_ignores_direction_length(b: BoxModel, origin: V3, dir: V3, max_distance: int, c: int)
    requires
        c > 0,
    ensures
        is_hit(b, origin, dir, max_distance) == is_hit(b, origin, dir.stretched(c), max_distance),
{
    lemma_cone_ignores_direction_length(b.true_center.minus(origin), dir, c);
    lemma_line_ignores_direction_length(b.world_min, b.world_max, origin, dir, c);
}

} // verus!
