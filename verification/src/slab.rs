//! The slab method: what a line does between the pairs of planes that bound
//! a box, and why that decides whether the line meets the box.
use vstd::prelude::*;
use crate::vector::V3;

verus! {

/// `v` lies between `a` and `b`, in whichever order the two stand.
pub open spec fn between(a: int, b: int, v: int) -> bool {
    (a <= v <= b) || (b <= v <= a)
}

/// What a line does between the two planes that bound a box along one axis.
///
/// A line that runs along the planes (`parallel`) is between them everywhere
/// or nowhere (`inside`). Any other line is between them for the parameters
/// from `lo / den` to `hi / den`, with `den > 0`.
pub struct Slab {
    pub parallel: bool,
    pub inside: bool,
    pub lo: int,
    pub hi: int,
    pub den: int,
}

/// The slab of the line `o + t * d` between the planes at `a` and at `b`, in
/// whichever order the two stand.
pub open spec fn slab(a: int, b: int, o: int, d: int) -> Slab {
    if d == 0 {
        Slab { parallel: true, inside: between(a, b, o), lo: 0, hi: 0, den: 1 }
    } else {
        let p = if d > 0 { a - o } else { o - a };
        let q = if d > 0 { b - o } else { o - b };
        Slab {
            parallel: false,
            inside: true,
            lo: if p <= q { p } else { q },
            hi: if p <= q { q } else { p },
            den: if d > 0 { d } else { -d },
        }
    }
}

/// The line enters `s` no later than it leaves `t`: `s.lo / s.den <= t.hi / t.den`.
/// A slab that the line runs along sets no limit.
pub open spec fn enters_before_leaving(s: Slab, t: Slab) -> bool {
    s.parallel || t.parallel || s.lo * t.den <= t.hi * s.den
}

/// The line through `o` with direction `d` meets the closed box between the
/// corners `min` and `max`: it is between the planes of every axis, and on no
/// two axes does it leave one slab before it enters the other.
///
/// The whole line counts, behind the origin as well as ahead of it. With `d`
/// zero the line is the single point `o`.
pub open spec fn line_meets_box(min: V3, max: V3, o: V3, d: V3) -> bool {
    let x = slab(min.x, max.x, o.x, d.x);
    let y = slab(min.y, max.y, o.y, d.y);
    let z = slab(min.z, max.z, o.z, d.z);
    &&& x.inside && y.inside && z.inside
    &&& enters_before_leaving(x, y) && enters_before_leaving(y, x)
    &&& enters_before_leaving(x, z) && enters_before_leaving(z, x)
    &&& enters_before_leaving(y, z) && enters_before_leaving(z, y)
}

/// The point `o + (n / m) * d` of the line lies in the closed box between
/// the corners `min` and `max`. Every coordinate is taken `m` times, so that
/// no fraction is needed.
pub open spec fn point_of_line_in_box(min: V3, max: V3, o: V3, d: V3, n: int, m: int) -> bool {
    &&& m > 0
    &&& between(m * min.x, m * max.x, m * o.x + n * d.x)
    &&& between(m * min.y, m * max.y, m * o.y + n * d.y)
    &&& between(m * min.z, m * max.z, m * o.z + n * d.z)
}

/// The parameter `n / m` lies in the slab `s`.
pub open spec fn parameter_in_slab(s: Slab, n: int, m: int) -> bool {
    if s.parallel {
        s.inside
    } else {
        m * s.lo <= n * s.den <= m * s.hi
    }
}

/// Of two slabs, the one that the line enters later; a slab that the line
/// runs along only where both are such.
pub open spec fn later_entered(s: Slab, t: Slab) -> Slab {
    if s.parallel {
        t
    } else if t.parallel {
        s
    } else if s.lo * t.den <= t.lo * s.den {
        t
    } else {
        s
    }
}

/// The line enters `s` no later than it enters `k`.
pub open spec fn enters_no_later(s: Slab, k: Slab) -> bool {
    s.parallel || s.lo * k.den <= k.lo * s.den
}

/// Fractions with positive denominators are ordered transitively: from
/// `a / b <= c / d` and `c / d <= e / f` follows `a / b <= e / f`.
pub proof fn lemma_fraction_order_transitive(a: int, b: int, c: int, d: int, e: int, f: int)
    requires
        b > 0,
        d > 0,
        f > 0,
        a * d <= c * b,
        c * f <= e * d,
    ensures
        a * f <= e * b,
{
    assert((a * d) * f <= (c * b) * f) by (nonlinear_arith)
        requires
            a * d <= c * b,
            f > 0,
    ;
    assert((c * f) * b <= (e * d) * b) by (nonlinear_arith)
        requires
            c * f <= e * d,
            b > 0,
    ;
    assert((c * b) * f == (c * f) * b) by (nonlinear_arith);
    assert((a * d) * f == d * (a * f)) by (nonlinear_arith);
    assert((e * d) * b == d * (e * b)) by (nonlinear_arith);
    assert(a * f <= e * b) by (nonlinear_arith)
        requires
            d * (a * f) <= d * (e * b),
            d > 0,
    ;
}

/// On one axis, the point at the parameter `n / m` lies between the two
/// planes exactly when the parameter lies in the slab of that axis.
pub proof fn lemma_axis_slab(a: int, b: int, o: int, d: int, n: int, m: int)
    requires
        m > 0,
    ensures
        between(m * a, m * b, m * o + n * d) <==> parameter_in_slab(slab(a, b, o, d), n, m),
        slab(a, b, o, d).den > 0,
        !slab(a, b, o, d).parallel ==> slab(a, b, o, d).lo <= slab(a, b, o, d).hi,
{
    let s = slab(a, b, o, d);
    assert(m * (a - o) == m * a - m * o) by (nonlinear_arith);
    assert(m * (b - o) == m * b - m * o) by (nonlinear_arith);
    assert(m * (o - a) == m * o - m * a) by (nonlinear_arith);
    assert(m * (o - b) == m * o - m * b) by (nonlinear_arith);
    assert(n * (-d) == -(n * d)) by (nonlinear_arith);
    if d == 0 {
        assert(n * d == 0) by (nonlinear_arith)
            requires
                d == 0,
        ;
        assert(m * a <= m * o <==> a <= o) by (nonlinear_arith)
            requires
                m > 0,
        ;
        assert(m * o <= m * b <==> o <= b) by (nonlinear_arith)
            requires
                m > 0,
        ;
        assert(m * b <= m * o <==> b <= o) by (nonlinear_arith)
            requires
                m > 0,
        ;
        assert(m * o <= m * a <==> o <= a) by (nonlinear_arith)
            requires
                m > 0,
        ;
    } else {
        let p = if d > 0 { a - o } else { o - a };
        let q = if d > 0 { b - o } else { o - b };
        assert(p <= q ==> m * p <= m * q) by (nonlinear_arith)
            requires
                m > 0,
        ;
        assert(q <= p ==> m * q <= m * p) by (nonlinear_arith)
            requires
                m > 0,
        ;
    }
}

/// The later of two slabs is one of the two, and the line enters neither
/// of them later than it.
pub proof fn lemma_later_entered(s: Slab, t: Slab)
    requires
        s.den > 0,
        t.den > 0,
    ensures
        later_entered(s, t) == s || later_entered(s, t) == t,
        later_entered(s, t).parallel ==> s.parallel && t.parallel,
        enters_no_later(s, later_entered(s, t)),
        enters_no_later(t, later_entered(s, t)),
{
}

/// A line meets a box exactly when one of its points lies in the box.
///
/// The point may lie anywhere on the line: at a parameter `n / m` of either
/// sign.
pub proof fn lemma_line_meets_box_iff_point(min: V3, max: V3, o: V3, d: V3)
    ensures
        line_meets_box(min, max, o, d) <==> exists|n: int, m: int|
            point_of_line_in_box(min, max, o, d, n, m),
{
    if line_meets_box(min, max, o, d) {
        lemma_meeting_line_has_point(min, max, o, d);
    }
    if exists|n: int, m: int| point_of_line_in_box(min, max, o, d, n, m) {
        let (n, m) = choose|n: int, m: int| point_of_line_in_box(min, max, o, d, n, m);
        lemma_point_makes_line_meet(min, max, o, d, n, m);
    }
}

/// Where a point of the line lies in the box, the line meets the box.
pub proof fn lemma_point_makes_line_meet(min: V3, max: V3, o: V3, d: V3, n: int, m: int)
    requires
        point_of_line_in_box(min, max, o, d, n, m),
    ensures
        line_meets_box(min, max, o, d),
{
    let x = slab(min.x, max.x, o.x, d.x);
    let y = slab(min.y, max.y, o.y, d.y);
    let z = slab(min.z, max.z, o.z, d.z);
    lemma_axis_slab(min.x, max.x, o.x, d.x, n, m);
    lemma_axis_slab(min.y, max.y, o.y, d.y, n, m);
    lemma_axis_slab(min.z, max.z, o.z, d.z, n, m);
    lemma_parameter_orders_slabs(x, y, n, m);
    lemma_parameter_orders_slabs(y, x, n, m);
    lemma_parameter_orders_slabs(x, z, n, m);
    lemma_parameter_orders_slabs(z, x, n, m);
    lemma_parameter_orders_slabs(y, z, n, m);
    lemma_parameter_orders_slabs(z, y, n, m);
}

/// A parameter that lies in two slabs shows that the line enters the one no
/// later than it leaves the other.
proof fn lemma_parameter_orders_slabs(s: Slab, t: Slab, n: int, m: int)
    requires
        m > 0,
        s.den > 0,
        t.den > 0,
        parameter_in_slab(s, n, m),
        parameter_in_slab(t, n, m),
    ensures
        enters_before_leaving(s, t),
{
    if !s.parallel && !t.parallel {
        assert(s.lo * m == m * s.lo) by (nonlinear_arith);
        assert(t.hi * m == m * t.hi) by (nonlinear_arith);
        lemma_fraction_order_transitive(s.lo, s.den, n, m, t.hi, t.den);
    }
}

/// Where the line meets the box, the point at which it enters the last of
/// the three slabs lies in the box.
pub proof fn lemma_meeting_line_has_point(min: V3, max: V3, o: V3, d: V3)
    requires
        line_meets_box(min, max, o, d),
    ensures
        exists|n: int, m: int| point_of_line_in_box(min, max, o, d, n, m),
{
    let x = slab(min.x, max.x, o.x, d.x);
    let y = slab(min.y, max.y, o.y, d.y);
    let z = slab(min.z, max.z, o.z, d.z);
    lemma_axis_slab(min.x, max.x, o.x, d.x, 0, 1);
    lemma_axis_slab(min.y, max.y, o.y, d.y, 0, 1);
    lemma_axis_slab(min.z, max.z, o.z, d.z, 0, 1);
    let w = later_entered(x, y);
    let k = later_entered(w, z);
    lemma_later_entered(x, y);
    lemma_later_entered(w, z);
    let n = if k.parallel { 0 } else { k.lo };
    let m = if k.parallel { 1 } else { k.den };
    if !k.parallel {
        if !w.parallel {
            if !x.parallel {
                lemma_fraction_order_transitive(x.lo, x.den, w.lo, w.den, k.lo, k.den);
            }
            if !y.parallel {
                lemma_fraction_order_transitive(y.lo, y.den, w.lo, w.den, k.lo, k.den);
            }
        }
        assert(enters_no_later(x, k));
        assert(enters_no_later(y, k));
        assert(enters_no_later(z, k));
        lemma_slab_is_left_after_entry(x);
        lemma_slab_is_left_after_entry(y);
        lemma_slab_is_left_after_entry(z);
        assert(k == x || k == y || k == z);
        lemma_entry_of_last_slab(x, k);
        lemma_entry_of_last_slab(y, k);
        lemma_entry_of_last_slab(z, k);
    }
    assert(parameter_in_slab(x, n, m));
    assert(parameter_in_slab(y, n, m));
    assert(parameter_in_slab(z, n, m));
    lemma_axis_slab(min.x, max.x, o.x, d.x, n, m);
    lemma_axis_slab(min.y, max.y, o.y, d.y, n, m);
    lemma_axis_slab(min.z, max.z, o.z, d.z, n, m);
    assert(point_of_line_in_box(min, max, o, d, n, m));
}

/// The line leaves no slab before it enters it.
proof fn lemma_slab_is_left_after_entry(s: Slab)
    requires
        s.den > 0,
        !s.parallel ==> s.lo <= s.hi,
    ensures
        !s.parallel ==> s.lo * s.den <= s.hi * s.den,
{
    if !s.parallel {
        assert(s.lo * s.den <= s.hi * s.den) by (nonlinear_arith)
            requires
                s.lo <= s.hi,
                s.den > 0,
        ;
    }
}

/// The parameter at which the line enters `k` lies in `s`, where the line
/// enters `s` no later than `k` and leaves `s` no earlier than it enters `k`.
proof fn lemma_entry_of_last_slab(s: Slab, k: Slab)
    requires
        !k.parallel,
        k.den > 0,
        s.den > 0,
        s.parallel ==> s.inside,
        enters_no_later(s, k),
        s.parallel || k.lo * s.den <= s.hi * k.den,
    ensures
        parameter_in_slab(s, k.lo, k.den),
{
    if !s.parallel {
        assert(k.den * s.lo == s.lo * k.den) by (nonlinear_arith);
        assert(k.den * s.hi == s.hi * k.den) by (nonlinear_arith);
    }
}

/// What lies between two values still does when all three are taken `c`
/// times, for a positive `c`.
proof fn lemma_between_stretched(a: int, b: int, v: int, c: int)
    requires
        c > 0,
        between(a, b, v),
    ensures
        between(c * a, c * b, c * v),
{
    assert(a <= v ==> c * a <= c * v) by (nonlinear_arith)
        requires
            c > 0,
    ;
    assert(v <= b ==> c * v <= c * b) by (nonlinear_arith)
        requires
            c > 0,
    ;
    assert(b <= v ==> c * b <= c * v) by (nonlinear_arith)
        requires
            c > 0,
    ;
    assert(v <= a ==> c * v <= c * a) by (nonlinear_arith)
        requires
            c > 0,
    ;
}

/// Whether a line meets a box does not depend on the length of the
/// direction: `d` and `c` times `d` give the same answer, for a positive `c`.
pub proof fn lemma_line_ignores_direction_length(min: V3, max: V3, o: V3, d: V3, c: int)
    requires
        c > 0,
    ensures
        line_meets_box(min, max, o, d) == line_meets_box(min, max, o, d.stretched(c)),
{
    let e = d.stretched(c);
    lemma_line_meets_box_iff_point(min, max, o, d);
    lemma_line_meets_box_iff_point(min, max, o, e);
    if exists|n: int, m: int| point_of_line_in_box(min, max, o, d, n, m) {
        let (n, m) = choose|n: int, m: int| point_of_line_in_box(min, max, o, d, n, m);
        let k = c * m;
        assert(k > 0) by (nonlinear_arith)
            requires
                k == c * m,
                c > 0,
                m > 0,
        ;
        lemma_between_stretched(m * min.x, m * max.x, m * o.x + n * d.x, c);
        lemma_between_stretched(m * min.y, m * max.y, m * o.y + n * d.y, c);
        lemma_between_stretched(m * min.z, m * max.z, m * o.z + n * d.z, c);
        lemma_stretched_point(min.x, max.x, o.x, d.x, n, m, c);
        lemma_stretched_point(min.y, max.y, o.y, d.y, n, m, c);
        lemma_stretched_point(min.z, max.z, o.z, d.z, n, m, c);
        assert(point_of_line_in_box(min, max, o, e, n, k));
    }
    if exists|n: int, m: int| point_of_line_in_box(min, max, o, e, n, m) {
        let (n, m) = choose|n: int, m: int| point_of_line_in_box(min, max, o, e, n, m);
        let j = n * c;
        assert(j * d.x == n * (c * d.x)) by (nonlinear_arith)
            requires
                j == n * c,
        ;
        assert(j * d.y == n * (c * d.y)) by (nonlinear_arith)
            requires
                j == n * c,
        ;
        assert(j * d.z == n * (c * d.z)) by (nonlinear_arith)
            requires
                j == n * c,
        ;
        assert(point_of_line_in_box(min, max, o, d, j, m));
    }
}

/// The products that [`lemma_line_ignores_direction_length`] rearranges.
proof fn lemma_stretched_point(a: int, b: int, o: int, d: int, n: int, m: int, c: int)
    ensures
        (c * m) * a == c * (m * a),
        (c * m) * b == c * (m * b),
        (c * m) * o + n * (c * d) == c * (m * o + n * d),
{
    assert((c * m) * a == c * (m * a)) by (nonlinear_arith);
    assert((c * m) * b == c * (m * b)) by (nonlinear_arith);
    assert((c * m) * o + n * (c * d) == c * (m * o + n * d)) by (nonlinear_arith);
}

} // verus!
