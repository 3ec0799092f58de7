//! Polygon collision by the separating-axis test.
//!
//! Two convex polygons are disjoint exactly when some axis drawn from
//! their edge normals separates their projections. The test here projects
//! both polygons onto the normal and the direction of every edge of both
//! operands and reports a collision when no axis separates them, touching
//! included. Degenerate polygons are handled explicitly: an empty polygon
//! collides with nothing, and two single-point polygons collide only when
//! they coincide. The edge directions are included as axes so that
//! collinear segments are compared along their common line as well.

use vstd::prelude::*;
use crate::q64::{fx_max, fx_min, fx_neg, Q64};
use crate::qvec2::{v2_dot, v2_sub, QVec2, V2i};
use crate::shape::{pts_view, QPoint, QPolygon};

verus! {

/// The saturated edge vector from vertex `k` to the next vertex, wrapping
/// around.
pub open spec fn edge_vec(s: Seq<V2i>, k: int) -> V2i
    recommends
        s.len() >= 1,
        0 <= k < s.len(),
{
    v2_sub(s[(k + 1) % (s.len() as int)], s[k])
}

/// The number of candidate separating axes a polygon contributes: two per
/// edge (normal and direction), none for a point.
pub open spec fn axis_count(s: Seq<V2i>) -> int {
    if s.len() >= 2 {
        2 * (s.len() as int)
    } else {
        0
    }
}

/// The `j`-th candidate axis of a polygon: the left normal of edge `j/2`
/// when `j` is even, the edge direction itself when `j` is odd.
pub open spec fn poly_axis(s: Seq<V2i>, j: int) -> V2i
    recommends
        0 <= j < axis_count(s),
{
    let e = edge_vec(s, j / 2);
    if j % 2 == 0 {
        V2i { x: fx_neg(e.y), y: e.x }
    } else {
        e
    }
}

/// The least projection of a polygon's vertices onto an axis.
pub open spec fn proj_min(axis: V2i, s: Seq<V2i>) -> int
    recommends
        s.len() >= 1,
    decreases s.len(),
{
    if s.len() <= 1 {
        v2_dot(s[0], axis)
    } else {
        fx_min(proj_min(axis, s.drop_last()), v2_dot(s.last(), axis))
    }
}

/// The greatest projection of a polygon's vertices onto an axis.
pub open spec fn proj_max(axis: V2i, s: Seq<V2i>) -> int
    recommends
        s.len() >= 1,
    decreases s.len(),
{
    if s.len() <= 1 {
        v2_dot(s[0], axis)
    } else {
        fx_max(proj_max(axis, s.drop_last()), v2_dot(s.last(), axis))
    }
}

/// Whether an axis separates the projections of two polygons: the
/// projection intervals do not touch.
pub open spec fn axis_separates(axis: V2i, a: Seq<V2i>, b: Seq<V2i>) -> bool
    recommends
        a.len() >= 1,
        b.len() >= 1,
{
    proj_max(axis, a) < proj_min(axis, b) || proj_max(axis, b) < proj_min(axis, a)
}

/// Whether some candidate axis of either polygon separates the two.
pub open spec fn exists_sep_axis(a: Seq<V2i>, b: Seq<V2i>) -> bool {
    (exists|j: int| 0 <= j < axis_count(a) && axis_separates(#[trigger] poly_axis(a, j), a, b))
        || (exists|j: int|
        0 <= j < axis_count(b) && axis_separates(#[trigger] poly_axis(b, j), a, b))
}

/// Whether two polygon models collide. An empty polygon collides with
/// nothing; two single points collide exactly when equal; otherwise the
/// polygons collide when no candidate axis separates them.
pub open spec fn polys_collide(a: Seq<V2i>, b: Seq<V2i>) -> bool {
    if a.len() == 0 || b.len() == 0 {
        false
    } else if a.len() == 1 && b.len() == 1 {
        a[0] == b[0]
    } else {
        !exists_sep_axis(a, b)
    }
}

/// Whether a polygon model contains a point model, in the sense of the
/// collision predicate applied to the single-point polygon.
pub open spec fn poly_contains_point(s: Seq<V2i>, p: V2i) -> bool {
    polys_collide(s, seq![p])
}

/// The collision predicate is symmetric in its two operands.
pub proof fn lemma_polys_collide_symmetric(a: Seq<V2i>, b: Seq<V2i>)
    ensures
        polys_collide(a, b) == polys_collide(b, a),
{
    assert(forall|axis: V2i|
        a.len() >= 1 && b.len() >= 1 ==> #[trigger] axis_separates(axis, a, b) == axis_separates(
            axis,
            b,
            a,
        ));
}

impl QPolygon {
    /// Whether this polygon collides with another, by the separating-axis
    /// test over the candidate axes of both.
    pub fn is_collide(&self, other: &QPolygon) -> (r: bool)
        ensures
            r == polys_collide(self@, other@),
    {
        let al = self.points.len();
        let bl = other.points.len();
        if al == 0 || bl == 0 {
            return false;
        }
        if al == 1 && bl == 1 {
            return self.points[0].is_point_inside(&other.points[0]);
        }
        if !no_axis_separates(self, other) {
            return false;
        }
        if !no_axis_separates(other, self) {
            proof {
                assert(forall|axis: V2i|
                    #[trigger] axis_separates(axis, other@, self@) == axis_separates(
                        axis,
                        self@,
                        other@,
                    ));
            }
            return false;
        }
        true
    }

    /// Whether a point lies in this polygon, in the sense of the collision
    /// predicate applied to the single-point polygon.
    pub fn is_point_inside(&self, p: &QPoint) -> (r: bool)
        ensures
            r == poly_contains_point(self@, p@),
    {
        let mut single: Vec<QPoint> = Vec::new();
        single.push(*p);
        let sp = QPolygon { points: single };
        proof {
            assert(sp@ =~= seq![p@]);
        }
        self.is_collide(&sp)
    }
}

/// Whether none of the first polygon's candidate axes separates the two
/// polygons.
fn no_axis_separates(a: &QPolygon, b: &QPolygon) -> (r: bool)
    requires
        a@.len() >= 1,
        b@.len() >= 1,
    ensures
        r == !(exists|j: int|
            0 <= j < axis_count(a@) && axis_separates(#[trigger] poly_axis(a@, j), a@, b@)),
{
    let n = a.points.len();
    if n < 2 {
        return true;
    }
    let mut k: usize = 0;
    while k < n
        invariant
            n == a@.len(),
            n >= 2,
            b@.len() >= 1,
            k <= n,
            forall|j: int|
                0 <= j < 2 * k ==> !axis_separates(#[trigger] poly_axis(a@, j), a@, b@),
        decreases n - k,
    {
        let succ = if k + 1 == n {
            0
        } else {
            k + 1
        };
        proof {
            if k + 1 == n {
                vstd::arithmetic::div_mod::lemma_mod_self_0(n as int);
            } else {
                vstd::arithmetic::div_mod::lemma_small_mod((k + 1) as nat, n as nat);
            }
            assert((k + 1) % (n as int) == succ as int);
        }
        let e: QVec2 = a.points[succ].pos.saturating_sub(a.points[k].pos);
        let normal: QVec2 = QVec2::new(e.y.neg(), e.x);
        proof {
            assert(poly_axis(a@, 2 * (k as int)) == normal@);
            assert(poly_axis(a@, 2 * (k as int) + 1) == e@);
        }
        if axis_separates_exec(&normal, a, b) {
            proof {
                assert(axis_separates(poly_axis(a@, 2 * (k as int)), a@, b@));
            }
            return false;
        }
        if axis_separates_exec(&e, a, b) {
            proof {
                assert(axis_separates(poly_axis(a@, 2 * (k as int) + 1), a@, b@));
            }
            return false;
        }
        k = k + 1;
    }
    true
}

/// Whether an axis separates the projections of two polygons.
fn axis_separates_exec(axis: &QVec2, a: &QPolygon, b: &QPolygon) -> (r: bool)
    requires
        a@.len() >= 1,
        b@.len() >= 1,
    ensures
        r == axis_separates(axis@, a@, b@),
{
    let (amin, amax) = proj_interval(axis, a);
    let (bmin, bmax) = proj_interval(axis, b);
    amax.lt(bmin) || bmax.lt(amin)
}

/// The projection interval of a polygon's vertices onto an axis.
fn proj_interval(axis: &QVec2, s: &QPolygon) -> (r: (Q64, Q64))
    requires
        s@.len() >= 1,
    ensures
        r.0@ == proj_min(axis@, s@),
        r.1@ == proj_max(axis@, s@),
{
    let n = s.points.len();
    let first = s.points[0].pos.dot(*axis);
    let mut lo = first;
    let mut hi = first;
    let mut i: usize = 1;
    while i < n
        invariant
            1 <= i <= n,
            n == s@.len(),
            s@ == pts_view(s.points@),
            lo@ == proj_min(axis@, s@.take(i as int)),
            hi@ == proj_max(axis@, s@.take(i as int)),
        decreases n - i,
    {
        proof {
            assert(s@.take(i + 1).drop_last() =~= s@.take(i as int));
            assert(s@.take(i + 1).last() == s@[i as int]);
        }
        let d = s.points[i].pos.dot(*axis);
        lo = lo.min(d);
        hi = hi.max(d);
        i = i + 1;
    }
    proof {
        assert(s@.take(n as int) =~= s@);
    }
    (lo, hi)
}

} // verus!
