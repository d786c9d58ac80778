//! Vector types. The three executable types differ only in the width of
//! their coordinates; all of them are modelled by [`V3`].
use vstd::prelude::*;

verus! {

/// A vector of three mathematical integers: the model of every vector of
/// this crate.
pub struct V3 {
    pub x: int,
    pub y: int,
    pub z: int,
}

impl V3 {
    /// Sum, coordinate by coordinate.
    pub open spec fn plus(self, o: V3) -> V3 {
        V3 { x: self.x + o.x, y: self.y + o.y, z: self.z + o.z }
    }

    /// Difference, coordinate by coordinate.
    pub open spec fn minus(self, o: V3) -> V3 {
        V3 { x: self.x - o.x, y: self.y - o.y, z: self.z - o.z }
    }

    /// Product, coordinate by coordinate.
    pub open spec fn times(self, o: V3) -> V3 {
        V3 { x: self.x * o.x, y: self.y * o.y, z: self.z * o.z }
    }

    /// Every coordinate taken `c` times.
    pub open spec fn stretched(self, c: int) -> V3 {
        V3 { x: c * self.x, y: c * self.y, z: c * self.z }
    }

    /// Scalar product.
    pub open spec fn dot(self, o: V3) -> int {
        self.x * o.x + self.y * o.y + self.z * o.z
    }

    /// Square of the Euclidean length.
    pub open spec fn norm_sq(self) -> int {
        self.dot(self)
    }

    /// Every coordinate lies in `[-bound, bound]`.
    pub open spec fn within(self, bound: int) -> bool {
        &&& -bound <= self.x <= bound
        &&& -bound <= self.y <= bound
        &&& -bound <= self.z <= bound
    }
}

/// Half of `d`, rounded toward zero.
pub open spec fn half(d: int) -> int {
    if d >= 0 {
        d / 2
    } else {
        -((-d) / 2)
    }
}

/// Half of each coordinate, rounded toward zero.
pub open spec fn half_v3(v: V3) -> V3 {
    V3 { x: half(v.x), y: half(v.y), z: half(v.z) }
}

/// A position on the screen.
#[derive(Clone, Copy, Debug, PartialEq, Eq, Structural)]
pub struct Vec2 {
    pub x: i32,
    pub y: i32,
}

impl Vec2 {
    pub fn new(x: i32, y: i32) -> (r: Vec2)
        ensures
            r == (Vec2 { x, y }),
    {
        Vec2 { x, y }
    }
}

/// A position or displacement with 32-bit coordinates.
#[derive(Clone, Copy, Debug, PartialEq, Eq, Structural)]
pub struct Vec3 {
    pub x: i32,
    pub y: i32,
    pub z: i32,
}

impl View for Vec3 {
    type V = V3;

    open spec fn view(&self) -> V3 {
        V3 { x: self.x as int, y: self.y as int, z: self.z as int }
    }
}

impl Vec3 {
    pub fn new(x: i32, y: i32, z: i32) -> (r: Vec3)
        ensures
            r == (Vec3 { x, y, z }),
    {
        Vec3 { x, y, z }
    }

    /// The origin.
    pub fn zeros() -> (r: Vec3)
        ensures
            r@ == (V3 { x: 0, y: 0, z: 0 }),
    {
        Vec3 { x: 0, y: 0, z: 0 }
    }

    /// Whether `self + o` has all its coordinates in the 32-bit range.
    pub open spec fn sum_fits(self, o: Vec3) -> bool {
        &&& i32::MIN <= self.x + o.x <= i32::MAX
        &&& i32::MIN <= self.y + o.y <= i32::MAX
        &&& i32::MIN <= self.z + o.z <= i32::MAX
    }

    /// The sum of two vectors, or `None` where a coordinate of it leaves the
    /// 32-bit range.
    pub fn checked_plus(self, o: Vec3) -> (r: Option<Vec3>)
        ensures
            r.is_some() <==> self.sum_fits(o),
            r.is_some() ==> r.unwrap()@ == self@.plus(o@),
    {
        let x: i64 = self.x as i64 + o.x as i64;
        let y: i64 = self.y as i64 + o.y as i64;
        let z: i64 = self.z as i64 + o.z as i64;
        if x < i32::MIN as i64 || x > i32::MAX as i64 || y < i32::MIN as i64 || y > i32::MAX as i64
            || z < i32::MIN as i64 || z > i32::MAX as i64 {
            None
        } else {
            Some(Vec3 { x: x as i32, y: y as i32, z: z as i32 })
        }
    }
}

/// A vector with 16-bit coordinates: a corner of a box in its own frame, a
/// scale factor per axis, or the direction of a ray.
#[derive(Clone, Copy, Debug, PartialEq, Eq, Structural)]
pub struct SmallVec3 {
    pub x: i16,
    pub y: i16,
    pub z: i16,
}

impl View for SmallVec3 {
    type V = V3;

    open spec fn view(&self) -> V3 {
        V3 { x: self.x as int, y: self.y as int, z: self.z as int }
    }
}

impl SmallVec3 {
    pub fn new(x: i16, y: i16, z: i16) -> (r: SmallVec3)
        ensures
            r == (SmallVec3 { x, y, z }),
    {
        SmallVec3 { x, y, z }
    }
}

/// A vector with 64-bit coordinates: what a box derives from its corners and
/// a transform.
#[derive(Clone, Copy, Debug, PartialEq, Eq, Structural)]
pub struct WideVec3 {
    pub x: i64,
    pub y: i64,
    pub z: i64,
}

impl View for WideVec3 {
    type V = V3;

    open spec fn view(&self) -> V3 {
        V3 { x: self.x as int, y: self.y as int, z: self.z as int }
    }
}

/// If `|a| <= m` and `|b| <= n` then `|a * b| <= m * n`.
pub proof fn lemma_product_bound(a: int, b: int, m: int, n: int)
    requires
        -m <= a <= m,
        -n <= b <= n,
    ensures
        -(m * n) <= a * b <= m * n,
{
    assert((m - a) * (n - b) >= 0) by (nonlinear_arith)
        requires
            m - a >= 0,
            n - b >= 0,
    ;
    assert((m + a) * (n + b) >= 0) by (nonlinear_arith)
        requires
            m + a >= 0,
            n + b >= 0,
    ;
    assert((m - a) * (n + b) >= 0) by (nonlinear_arith)
        requires
            m - a >= 0,
            n + b >= 0,
    ;
    assert((m + a) * (n - b) >= 0) by (nonlinear_arith)
        requires
            m + a >= 0,
            n - b >= 0,
    ;
    assert((m - a) * (n - b) == m * n - m * b - a * n + a * b) by (nonlinear_arith);
    assert((m + a) * (n + b) == m * n + m * b + a * n + a * b) by (nonlinear_arith);
    assert((m - a) * (n + b) == m * n + m * b - a * n - a * b) by (nonlinear_arith);
    assert((m + a) * (n - b) == m * n - m * b + a * n - a * b) by (nonlinear_arith);
}

} // verus!
