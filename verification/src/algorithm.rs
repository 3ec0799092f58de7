//! Minkowski difference and minimum-translation-vector computation.
//!
//! The Minkowski difference of two convex polygons is the convex polygon
//! of all pairwise vertex differences; the two shapes overlap exactly when
//! it contains the origin, and the shortest vector from the origin to its
//! boundary is then the minimum translation that separates them. The
//! general case is computed as the convex hull (by sorted monotone chains)
//! of the pairwise differences; a single-vertex operand degenerates to a
//! translation, and an empty operand to an empty result.

use vstd::prelude::*;
use vstd::relations::{sorted_by, total_ordering};
use vstd::seq_lib::lemma_sorted_unique;
use crate::q64::{fx_div, fx_max, fx_min, Q64, FX_ONE_RAW};
use crate::qvec2::{v2_add, v2_dot, v2_neg, v2_scale, v2_sub, QVec2, V2i};
use crate::shape::{cross_exec, cross_of, pts_view, QPoint, QPolygon};
use crate::collision::polys_collide;

verus! {

broadcast use vstd::seq_lib::group_to_multiset_ensures;

/// Lexicographic order on vector models: by x, then by y.
pub open spec fn pt_leq(p: V2i, q: V2i) -> bool {
    p.x < q.x || (p.x == q.x && p.y <= q.y)
}

/// The lexicographic order as a relation value.
pub open spec fn pt_leq_fn() -> spec_fn(V2i, V2i) -> bool {
    |p: V2i, q: V2i| pt_leq(p, q)
}

/// The vertices of a polygon model sorted lexicographically.
pub open spec fn sort_points(s: Seq<V2i>) -> Seq<V2i> {
    s.sort_by(pt_leq_fn())
}

/// The lexicographic order on vector models is a total ordering.
pub proof fn lemma_pt_leq_total()
    ensures
        total_ordering(pt_leq_fn()),
{
    assert forall|p: V2i, q: V2i| #[trigger] pt_leq(p, q) && pt_leq(q, p) implies p == q by {}
}

/// One step of the monotone chain: pop the chain while its last two
/// vertices and the new one fail to make a strict counterclockwise turn,
/// then append the new vertex.
pub open spec fn chain_push(c: Seq<V2i>, p: V2i) -> Seq<V2i>
    decreases c.len(),
{
    if c.len() >= 2 && cross_of(c[c.len() - 2], c[c.len() - 1], p) <= 0 {
        chain_push(c.drop_last(), p)
    } else {
        c.push(p)
    }
}

/// The monotone chain built over a vertex sequence, in order.
pub open spec fn chain_fold(s: Seq<V2i>) -> Seq<V2i>
    decreases s.len(),
{
    if s.len() == 0 {
        Seq::empty()
    } else {
        chain_push(chain_fold(s.drop_last()), s.last())
    }
}

/// The convex hull of a point set, as the lower and upper monotone chains
/// over the lexicographically sorted points, counterclockwise. A set of at
/// most one point is its own hull.
pub open spec fn spec_hull(s: Seq<V2i>) -> Seq<V2i> {
    let sorted = sort_points(s);
    if sorted.len() <= 1 {
        sorted
    } else {
        let lower = chain_fold(sorted);
        let upper = chain_fold(sorted.reverse());
        lower.drop_last() + upper.drop_last()
    }
}

/// All pairwise vertex differences of two polygon models, first operand
/// major.
pub open spec fn minkowski_points(a: Seq<V2i>, b: Seq<V2i>) -> Seq<V2i> {
    Seq::new(
        a.len() * b.len(),
        |k: int| v2_sub(a[k / (b.len() as int)], b[k % (b.len() as int)]),
    )
}

/// The Minkowski difference of two polygon models. An empty operand gives
/// an empty result; a single-vertex second operand translates the first
/// polygon vertex by vertex; a single-vertex first operand reflects the
/// second polygon through the origin and translates it, vertex by vertex;
/// otherwise the result is the convex hull of all pairwise differences.
pub open spec fn spec_minkowski(a: Seq<V2i>, b: Seq<V2i>) -> Seq<V2i> {
    if a.len() == 0 || b.len() == 0 {
        Seq::empty()
    } else if b.len() == 1 {
        a.map_values(|p: V2i| v2_sub(p, b[0]))
    } else if a.len() == 1 {
        b.map_values(|q: V2i| v2_sub(a[0], q))
    } else {
        spec_hull(minkowski_points(a, b))
    }
}

/// Squared length of a vector model, in saturating fixed point.
pub open spec fn dist2(v: V2i) -> int {
    v2_dot(v, v)
}

/// The point of the segment `[p, q]` closest to the origin, by clamped
/// projection in saturating fixed point; a degenerate segment yields its
/// base point.
pub open spec fn seg_closest_origin(p: V2i, q: V2i) -> V2i {
    let d = v2_sub(q, p);
    let den = v2_dot(d, d);
    if den == 0 {
        p
    } else {
        let t = fx_max(0, fx_min(fx_div(v2_dot(v2_neg(p), d), den), FX_ONE_RAW as int));
        v2_add(p, v2_scale(d, t))
    }
}

/// The candidate closest point contributed by edge `k` of a polygon
/// model, edges wrapping around.
pub open spec fn edge_closest(m: Seq<V2i>, k: int) -> V2i
    recommends
        m.len() >= 1,
        0 <= k < m.len(),
{
    seg_closest_origin(m[k], m[(k + 1) % (m.len() as int)])
}

/// The best candidate among edges `0 ..= k`: smallest squared distance to
/// the origin, the earliest edge winning ties.
pub open spec fn best_closest(m: Seq<V2i>, k: int) -> V2i
    recommends
        m.len() >= 1,
        0 <= k < m.len(),
    decreases k,
{
    if k <= 0 {
        edge_closest(m, 0)
    } else {
        let b = best_closest(m, k - 1);
        let c = edge_closest(m, k);
        if dist2(c) < dist2(b) {
            c
        } else {
            b
        }
    }
}

/// The boundary point of a polygon model closest to the origin.
pub open spec fn closest_boundary_point(m: Seq<V2i>) -> V2i
    recommends
        m.len() >= 1,
{
    best_closest(m, m.len() - 1)
}

/// The separation vector of two polygon models: none when they do not
/// collide, otherwise the boundary point of their Minkowski difference
/// closest to the origin — the minimum translation of the second polygon
/// that removes the overlap.
pub open spec fn spec_separation(a: Seq<V2i>, b: Seq<V2i>) -> Option<V2i> {
    if !polys_collide(a, b) {
        Option::None
    } else {
        Option::Some(closest_boundary_point(spec_minkowski(a, b)))
    }
}

/// When two polygons do not collide, there is no separation vector.
pub proof fn lemma_no_collision_no_separation(a: Seq<V2i>, b: Seq<V2i>)
    ensures
        !polys_collide(a, b) ==> spec_separation(a, b) is None,
{
}

/// A Minkowski difference with an empty operand is empty, and never a
/// failure.
pub proof fn lemma_minkowski_empty(a: Seq<V2i>, b: Seq<V2i>)
    requires
        a.len() == 0 || b.len() == 0,
    ensures
        spec_minkowski(a, b).len() == 0,
{
}

/// A polygon Minkowski-differenced with a single-point polygon as the
/// second operand is a translated copy of the polygon: vertex `i` of the
/// result is vertex `i` of the polygon, shifted by the negated point.
pub proof fn lemma_minkowski_translates_first(a: Seq<V2i>, b: Seq<V2i>)
    requires
        a.len() >= 1,
        b.len() == 1,
    ensures
        spec_minkowski(a, b).len() == a.len(),
        forall|i: int| 0 <= i < a.len() ==> spec_minkowski(a, b)[i] == v2_sub(a[i], b[0]),
{
}

/// A single-point polygon Minkowski-differenced with a polygon is a copy
/// of the polygon reflected through the origin and translated by the
/// point: vertex `i` of the result is the point minus vertex `i` of the
/// polygon.
pub proof fn lemma_minkowski_reflects_second(a: Seq<V2i>, b: Seq<V2i>)
    requires
        a.len() == 1,
        b.len() >= 2,
    ensures
        spec_minkowski(a, b).len() == b.len(),
        forall|i: int| 0 <= i < b.len() ==> spec_minkowski(a, b)[i] == v2_sub(a[0], b[i]),
{
}

/// Whether one point precedes another lexicographically.
fn pt_leq_exec(p: &QPoint, q: &QPoint) -> (r: bool)
    ensures
        r == pt_leq(p@, q@),
{
    p.pos.x.raw < q.pos.x.raw || (p.pos.x.raw == q.pos.x.raw && p.pos.y.raw <= q.pos.y.raw)
}

/// Sort a vertex list lexicographically by insertion.
fn sort_points_exec(src: &Vec<QPoint>) -> (r: Vec<QPoint>)
    ensures
        pts_view(r@) == sort_points(pts_view(src@)),
{
    let mut out: Vec<QPoint> = Vec::new();
    let mut i: usize = 0;
    while i < src.len()
        invariant
            i <= src@.len(),
            sorted_by(pts_view(out@), pt_leq_fn()),
            pts_view(out@).to_multiset() == pts_view(src@.take(i as int)).to_multiset(),
        decreases src@.len() - i,
    {
        let p = src[i];
        let mut j: usize = 0;
        while j < out.len() && !pt_leq_exec(&p, &out[j])
            invariant
                j <= out@.len(),
                forall|t: int| 0 <= t < j ==> !pt_leq(p@, #[trigger] pts_view(out@)[t]),
            decreases out@.len() - j,
        {
            j = j + 1;
        }
        let ghost prev = pts_view(out@);
        out.insert(j, p);
        proof {
            assert(pts_view(out@) =~= prev.insert(j as int, p@));
            prev.insert_ensures(j as int, p@);
            assert forall|u: int, w: int|
                0 <= u < w < pts_view(out@).len() implies pt_leq_fn()(
                pts_view(out@)[u],
                pts_view(out@)[w],
            ) by {
                let s = pts_view(out@);
                if w < j {
                    assert(s[u] == prev[u] && s[w] == prev[w]);
                    assert(pt_leq_fn()(prev[u], prev[w]));
                } else if u < j && w == j {
                    assert(!pt_leq(p@, prev[u]));
                } else if u < j && w > j {
                    assert(s[u] == prev[u] && s[w] == prev[w - 1]);
                    if u < w - 1 {
                        assert(pt_leq_fn()(prev[u], prev[w - 1]));
                    }
                } else if u == j {
                    assert(s[w] == prev[w - 1] && (j as int) <= w - 1);
                    assert(pt_leq(p@, prev[j as int]));
                    if (j as int) < w - 1 {
                        assert(pt_leq_fn()(prev[j as int], prev[w - 1]));
                    }
                } else {
                    assert(s[u] == prev[u - 1] && s[w] == prev[w - 1]);
                    assert(pt_leq_fn()(prev[u - 1], prev[w - 1]));
                }
            }
            assert(pts_view(src@.take(i + 1)).drop_last() =~= pts_view(src@.take(i as int)));
            assert(pts_view(src@.take(i + 1)) =~= pts_view(src@.take(i as int)).push(p@));
        }
        i = i + 1;
    }
    proof {
        assert(src@.take(src@.len() as int) =~= src@);
        lemma_pt_leq_total();
        pts_view(src@).lemma_sort_by_ensures(pt_leq_fn());
        lemma_sorted_unique(pts_view(out@), sort_points(pts_view(src@)), pt_leq_fn());
        assert(pts_view(out@) =~= sort_points(pts_view(src@)));
    }
    out
}

/// A chain step keeps at least one vertex, and at least two when the
/// chain was nonempty.
pub proof fn lemma_chain_push_len(c: Seq<V2i>, p: V2i)
    ensures
        chain_push(c, p).len() >= 1,
        c.len() >= 1 ==> chain_push(c, p).len() >= 2,
    decreases c.len(),
{
    if c.len() >= 2 && cross_of(c[c.len() - 2], c[c.len() - 1], p) <= 0 {
        lemma_chain_push_len(c.drop_last(), p);
    }
}

/// A monotone chain over a nonempty sequence is nonempty, and has at
/// least two vertices when the sequence does.
pub proof fn lemma_chain_fold_len(s: Seq<V2i>)
    ensures
        s.len() >= 1 ==> chain_fold(s).len() >= 1,
        s.len() >= 2 ==> chain_fold(s).len() >= 2,
    decreases s.len(),
{
    if s.len() >= 1 {
        lemma_chain_fold_len(s.drop_last());
        lemma_chain_push_len(chain_fold(s.drop_last()), s.last());
    }
}

/// The Minkowski difference of nonempty polygon models is nonempty.
pub proof fn lemma_minkowski_nonempty(a: Seq<V2i>, b: Seq<V2i>)
    requires
        a.len() >= 1,
        b.len() >= 1,
    ensures
        spec_minkowski(a, b).len() >= 1,
{
    if b.len() == 1 {
    } else if a.len() == 1 {
    } else {
        let pts = minkowski_points(a, b);
        assert(pts.len() >= 4) by (nonlinear_arith)
            requires
                pts.len() == a.len() * b.len(),
                a.len() >= 2,
                b.len() >= 2,
        ;
        let sorted = sort_points(pts);
        lemma_pt_leq_total();
        pts.lemma_sort_by_ensures(pt_leq_fn());
        assert(pts.to_multiset() =~= sorted.to_multiset());
        assert(pts.to_multiset().len() == pts.len());
        assert(sorted.to_multiset().len() == sorted.len());
        assert(sorted.len() == pts.len());
        lemma_chain_fold_len(sorted);
        lemma_chain_fold_len(sorted.reverse());
    }
}

/// Whether the chain's last two vertices fail to make a strict
/// counterclockwise turn toward the next vertex, so the chain must pop.
fn chain_pops(chain: &Vec<QPoint>, p: &QPoint) -> (r: bool)
    ensures
        r == (pts_view(chain@).len() >= 2 && cross_of(
            pts_view(chain@)[pts_view(chain@).len() - 2],
            pts_view(chain@)[pts_view(chain@).len() - 1],
            p@,
        ) <= 0),
{
    let m = chain.len();
    if m < 2 {
        false
    } else {
        let c = cross_exec(&chain[m - 2].pos, &chain[m - 1].pos, &p.pos);
        c <= 0
    }
}

/// One monotone chain over an ordered vertex list.
fn hull_chain(sorted: &Vec<QPoint>) -> (r: Vec<QPoint>)
    ensures
        pts_view(r@) == chain_fold(pts_view(sorted@)),
{
    let mut chain: Vec<QPoint> = Vec::new();
    let mut i: usize = 0;
    while i < sorted.len()
        invariant
            i <= sorted@.len(),
            pts_view(chain@) == chain_fold(pts_view(sorted@).take(i as int)),
        decreases sorted@.len() - i,
    {
        let p = sorted[i];
        let ghost target = chain_push(pts_view(chain@), p@);
        while chain_pops(&chain, &p)
            invariant
                chain_push(pts_view(chain@), p@) == target,
            decreases chain@.len(),
        {
            let ghost pre = pts_view(chain@);
            let _ = chain.pop();
            proof {
                assert(pts_view(chain@) =~= pre.drop_last());
            }
        }
        let ghost pre = pts_view(chain@);
        chain.push(p);
        proof {
            assert(pts_view(chain@) =~= pre.push(p@));
            assert(chain_push(pre, p@) == pre.push(p@));
            assert(pts_view(sorted@).take(i + 1).drop_last() =~= pts_view(sorted@).take(i as int));
            assert(pts_view(sorted@).take(i + 1).last() == pts_view(sorted@)[i as int]);
        }
        i = i + 1;
    }
    proof {
        assert(pts_view(sorted@).take(sorted@.len() as int) =~= pts_view(sorted@));
    }
    chain
}

/// The vertex list reversed.
fn reverse_points(v: &Vec<QPoint>) -> (r: Vec<QPoint>)
    ensures
        pts_view(r@) == pts_view(v@).reverse(),
{
    let n = v.len();
    let mut out: Vec<QPoint> = Vec::new();
    let mut i: usize = 0;
    while i < n
        invariant
            i <= n,
            n == v@.len(),
            out@.len() == i,
            forall|j: int| 0 <= j < i ==> out@[j]@ == v@[n - 1 - j]@,
        decreases n - i,
    {
        out.push(v[n - 1 - i]);
        i = i + 1;
    }
    proof {
        assert(pts_view(out@) =~= pts_view(v@).reverse());
    }
    out
}

/// The convex hull of a vertex list, counterclockwise, by sorted monotone
/// chains.
fn convex_hull_exec(pts: &Vec<QPoint>) -> (r: Vec<QPoint>)
    ensures
        pts_view(r@) == spec_hull(pts_view(pts@)),
{
    let sorted = sort_points_exec(pts);
    if sorted.len() <= 1 {
        return sorted;
    }
    let lower = hull_chain(&sorted);
    let rev = reverse_points(&sorted);
    let upper = hull_chain(&rev);
    proof {
        lemma_chain_fold_len(pts_view(sorted@));
        lemma_chain_fold_len(pts_view(sorted@).reverse());
    }
    let mut out: Vec<QPoint> = Vec::new();
    let mut i: usize = 0;
    let ll = lower.len() - 1;
    while i < ll
        invariant
            i <= ll,
            ll == lower@.len() - 1,
            out@.len() == i,
            forall|j: int| 0 <= j < i ==> pts_view(out@)[j] == pts_view(lower@)[j],
        decreases ll - i,
    {
        out.push(lower[i]);
        i = i + 1;
    }
    let ul = upper.len() - 1;
    let mut k: usize = 0;
    while k < ul
        invariant
            k <= ul,
            ul == upper@.len() - 1,
            ll == lower@.len() - 1,
            out@.len() == ll + k,
            forall|j: int| 0 <= j < ll ==> pts_view(out@)[j] == pts_view(lower@)[j],
            forall|j: int| 0 <= j < k ==> pts_view(out@)[ll + j] == pts_view(upper@)[j],
        decreases ul - k,
    {
        out.push(upper[k]);
        k = k + 1;
    }
    proof {
        assert(pts_view(out@) =~= pts_view(lower@).drop_last() + pts_view(upper@).drop_last());
    }
    out
}

/// The Minkowski difference of two polygons: the convex polygon of all
/// pairwise vertex differences. Degenerate operands degenerate the
/// result: an empty polygon yields an empty difference, and a single
/// vertex yields a vertex-by-vertex translation of the other polygon.
pub fn get_minkowski_difference(a: &QPolygon, b: &QPolygon) -> (r: QPolygon)
    ensures
        r@ == spec_minkowski(a@, b@),
{
    let al = a.points.len();
    let bl = b.points.len();
    if al == 0 || bl == 0 {
        let r = QPolygon { points: Vec::new() };
        proof {
            assert(r@ =~= Seq::<V2i>::empty());
        }
        return r;
    }
    if bl == 1 {
        let q = b.points[0].pos;
        let mut v: Vec<QPoint> = Vec::new();
        let mut i: usize = 0;
        while i < al
            invariant
                i <= al,
                al == a@.len(),
                a@ == pts_view(a.points@),
                q@ == b@[0],
                v@.len() == i,
                forall|t: int| 0 <= t < i ==> v@[t]@ == v2_sub(a@[t], b@[0]),
            decreases al - i,
        {
            v.push(QPoint { pos: a.points[i].pos.saturating_sub(q) });
            i = i + 1;
        }
        let r = QPolygon { points: v };
        proof {
            assert(r@ =~= a@.map_values(|p: V2i| v2_sub(p, b@[0])));
        }
        return r;
    }
    if al == 1 {
        let p = a.points[0].pos;
        let mut v: Vec<QPoint> = Vec::new();
        let mut i: usize = 0;
        while i < bl
            invariant
                i <= bl,
                bl == b@.len(),
                b@ == pts_view(b.points@),
                p@ == a@[0],
                v@.len() == i,
                forall|t: int| 0 <= t < i ==> v@[t]@ == v2_sub(a@[0], b@[t]),
            decreases bl - i,
        {
            v.push(QPoint { pos: p.saturating_sub(b.points[i].pos) });
            i = i + 1;
        }
        let r = QPolygon { points: v };
        proof {
            assert(r@ =~= b@.map_values(|q2: V2i| v2_sub(a@[0], q2)));
        }
        return r;
    }
    let mut diffs: Vec<QPoint> = Vec::new();
    let mut i: usize = 0;
    while i < al
        invariant
            i <= al,
            al == a@.len(),
            bl == b@.len(),
            bl >= 1,
            a@ == pts_view(a.points@),
            b@ == pts_view(b.points@),
            diffs@.len() == i * bl,
            forall|t: int|
                0 <= t < i * bl ==> diffs@[t]@ == v2_sub(
                    a@[t / (bl as int)],
                    b@[t % (bl as int)],
                ),
        decreases al - i,
    {
        let mut j: usize = 0;
        while j < bl
            invariant
                i < al,
                j <= bl,
                al == a@.len(),
                bl == b@.len(),
                bl >= 1,
                a@ == pts_view(a.points@),
                b@ == pts_view(b.points@),
                diffs@.len() == i * bl + j,
                forall|t: int|
                    0 <= t < i * bl + j ==> diffs@[t]@ == v2_sub(
                        a@[t / (bl as int)],
                        b@[t % (bl as int)],
                    ),
            decreases bl - j,
        {
            diffs.push(QPoint { pos: a.points[i].pos.saturating_sub(b.points[j].pos) });
            proof {
                vstd::arithmetic::div_mod::lemma_fundamental_div_mod_converse(
                    i * bl + j,
                    bl as int,
                    i as int,
                    j as int,
                );
            }
            j = j + 1;
        }
        proof {
            assert((i + 1) * (bl as int) == i * (bl as int) + bl) by (nonlinear_arith);
        }
        i = i + 1;
    }
    proof {
        assert(pts_view(diffs@) =~= minkowski_points(a@, b@));
    }
    let hull = convex_hull_exec(&diffs);
    let r = QPolygon { points: hull };
    proof {
        assert(r@ == spec_hull(minkowski_points(a@, b@)));
    }
    r
}

/// The point of the segment `[p, q]` closest to the origin.
fn seg_closest_exec(p: QVec2, q: QVec2) -> (r: QVec2)
    ensures
        r@ == seg_closest_origin(p@, q@),
{
    let d = q.saturating_sub(p);
    let den = d.dot(d);
    if den.is_zero() {
        p
    } else {
        let t = p.neg().dot(d).saturating_div(den).min(Q64::one()).max(Q64::zero());
        p.saturating_add(d.saturating_mul_num(t))
    }
}

/// The view of an optional vector.
pub open spec fn opt_vec_view(r: Option<QVec2>) -> Option<V2i> {
    match r {
        Option::Some(v) => Option::Some(v@),
        Option::None => Option::None,
    }
}

impl QPolygon {
    /// The separation vector between this polygon and another: `None`
    /// when they do not collide, otherwise the minimum translation of the
    /// other polygon that removes the overlap, computed as the boundary
    /// point of the Minkowski difference closest to the origin.
    pub fn try_get_separation_vector(&self, other: &QPolygon) -> (r: Option<QVec2>)
        ensures
            (r is Some) == polys_collide(self@, other@),
            opt_vec_view(r) == spec_separation(self@, other@),
    {
        if !self.is_collide(other) {
            return Option::None;
        }
        let m = get_minkowski_difference(self, other);
        proof {
            lemma_minkowski_nonempty(self@, other@);
        }
        let n = m.points.len();
        let succ0: usize = if n == 1 {
            0
        } else {
            1
        };
        proof {
            if n == 1 {
                vstd::arithmetic::div_mod::lemma_mod_self_0(n as int);
            } else {
                vstd::arithmetic::div_mod::lemma_small_mod(1nat, n as nat);
            }
        }
        let mut best = seg_closest_exec(m.points[0].pos, m.points[succ0].pos);
        let mut bestd = best.dot(best);
        let mut k: usize = 1;
        while k < n
            invariant
                1 <= k <= n,
                n == m@.len(),
                m@ == pts_view(m.points@),
                best@ == best_closest(m@, k - 1),
                bestd@ == dist2(best@),
            decreases n - k,
        {
            let succ: usize = if k + 1 == n {
                0
            } else {
                k + 1
            };
            proof {
                if k + 1 == n {
                    vstd::arithmetic::div_mod::lemma_mod_self_0(n as int);
                } else {
                    vstd::arithmetic::div_mod::lemma_small_mod((k + 1) as nat, n as nat);
                }
            }
            let c = seg_closest_exec(m.points[k].pos, m.points[succ].pos);
            let cd = c.dot(c);
            if cd.lt(bestd) {
                best = c;
                bestd = cd;
            }
            k = k + 1;
        }
        Option::Some(best)
    }
}

} // verus!
