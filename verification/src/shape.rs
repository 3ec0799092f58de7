//! Shape primitives: point, line segment, circle, axis-aligned box and
//! polygon.
//!
//! Each shape exposes the same capability set: bounding box, centroid and
//! point containment, plus conversion to a polygon where the collision
//! algorithms need it. Degenerate shapes (zero-length lines, zero-area
//! boxes, polygons with fewer than three vertices) are tolerated
//! everywhere, because interactive construction produces them transiently.

use vstd::prelude::*;
use crate::q64::{
    div_trunc, fx_add, fx_max, fx_min, fx_mul, fx_sub, Q64,
};
use crate::qvec2::{v2_add, v2_dot, v2_scale, v2_sub, QVec2, V2i};

verus! {

/// Mathematical model of an axis-aligned box: left-bottom and right-top
/// corners.
pub ghost struct Box2i {
    pub lb: V2i,
    pub rt: V2i,
}

/// Mathematical model of a line segment: start and end.
pub ghost struct Seg2i {
    pub s: V2i,
    pub e: V2i,
}

/// Mathematical model of a circle: center and radius.
pub ghost struct Circ2i {
    pub c: V2i,
    pub r: int,
}

/// The model of a vertex sequence: each point replaced by its coordinate
/// model.
pub open spec fn pts_view(s: Seq<QPoint>) -> Seq<V2i> {
    s.map_values(|p: QPoint| p@)
}

/// Componentwise minimum of two vector models.
pub open spec fn v2_min(a: V2i, b: V2i) -> V2i {
    V2i { x: fx_min(a.x, b.x), y: fx_min(a.y, b.y) }
}

/// Componentwise maximum of two vector models.
pub open spec fn v2_max(a: V2i, b: V2i) -> V2i {
    V2i { x: fx_max(a.x, b.x), y: fx_max(a.y, b.y) }
}

/// Whether a box model contains a point model, boundary included.
pub open spec fn box_contains(b: Box2i, p: V2i) -> bool {
    b.lb.x <= p.x <= b.rt.x && b.lb.y <= p.y <= b.rt.y
}

/// Whether two box models overlap, touching included: their intervals
/// intersect on both axes.
pub open spec fn boxes_overlap(a: Box2i, b: Box2i) -> bool {
    a.lb.x <= b.rt.x && b.lb.x <= a.rt.x && a.lb.y <= b.rt.y && b.lb.y <= a.rt.y
}

/// The midpoint of two vector models, components truncated toward zero.
pub open spec fn v2_midpoint(a: V2i, b: V2i) -> V2i {
    V2i { x: div_trunc(fx_add(a.x, b.x), 2), y: div_trunc(fx_add(a.y, b.y), 2) }
}

/// Exact cross product of the saturated edge vectors `a - o` and `b - o`.
pub open spec fn cross_of(o: V2i, a: V2i, b: V2i) -> int {
    fx_sub(a.x, o.x) * fx_sub(b.y, o.y) - fx_sub(a.y, o.y) * fx_sub(b.x, o.x)
}

/// Whether a segment model contains a point model: collinear with the
/// endpoints and within their bounding box.
pub open spec fn seg_contains(l: Seg2i, p: V2i) -> bool {
    cross_of(l.s, l.e, p) == 0 && box_contains(
        Box2i { lb: v2_min(l.s, l.e), rt: v2_max(l.s, l.e) },
        p,
    )
}

/// Whether a circle model contains a point model: squared distance to the
/// center at most the squared radius, in saturating fixed point.
pub open spec fn circle_contains(c: Circ2i, p: V2i) -> bool {
    v2_dot(v2_sub(p, c.c), v2_sub(p, c.c)) <= fx_mul(c.r, c.r)
}

/// The bounding box of a circle model.
pub open spec fn circle_bbox(c: Circ2i) -> Box2i {
    Box2i {
        lb: V2i { x: fx_sub(c.c.x, c.r), y: fx_sub(c.c.y, c.r) },
        rt: V2i { x: fx_add(c.c.x, c.r), y: fx_add(c.c.y, c.r) },
    }
}

/// The sixteen unit directions used to tessellate a circle, as raw
/// fixed-point cosine/sine pairs of the angles `k * 2 * pi / 16`.
pub open spec fn circle_dirs() -> Seq<V2i> {
    seq![
        V2i { x: 4294967296, y: 0 },
        V2i { x: 3968032378, y: 1643612827 },
        V2i { x: 3037000500, y: 3037000500 },
        V2i { x: 1643612827, y: 3968032378 },
        V2i { x: 0, y: 4294967296 },
        V2i { x: -1643612827, y: 3968032378 },
        V2i { x: -3037000500, y: 3037000500 },
        V2i { x: -3968032378, y: 1643612827 },
        V2i { x: -4294967296, y: 0 },
        V2i { x: -3968032378, y: -1643612827 },
        V2i { x: -3037000500, y: -3037000500 },
        V2i { x: -1643612827, y: -3968032378 },
        V2i { x: 0, y: -4294967296 },
        V2i { x: 1643612827, y: -3968032378 },
        V2i { x: 3037000500, y: -3037000500 },
        V2i { x: 3968032378, y: -1643612827 },
    ]
}

/// The tessellated polygon approximating a circle model: sixteen vertices
/// at the fixed unit directions, scaled by the radius, around the center.
pub open spec fn circle_polygon(c: Circ2i) -> Seq<V2i> {
    circle_dirs().map_values(|u: V2i| v2_add(c.c, v2_scale(u, c.r)))
}

/// The corner sequence of a box model, counterclockwise from left-bottom.
pub open spec fn box_polygon(b: Box2i) -> Seq<V2i> {
    seq![
        b.lb,
        V2i { x: b.rt.x, y: b.lb.y },
        b.rt,
        V2i { x: b.lb.x, y: b.rt.y },
    ]
}

/// Saturating componentwise sum of a sequence of vector models.
pub open spec fn poly_sum(s: Seq<V2i>) -> V2i
    decreases s.len(),
{
    if s.len() == 0 {
        V2i { x: 0, y: 0 }
    } else {
        v2_add(poly_sum(s.drop_last()), s.last())
    }
}

/// The centroid of a polygon model: the vertex average, or the origin for
/// an empty polygon.
pub open spec fn poly_centroid(s: Seq<V2i>) -> V2i {
    if s.len() == 0 {
        V2i { x: 0, y: 0 }
    } else {
        V2i {
            x: div_trunc(poly_sum(s).x, s.len() as int),
            y: div_trunc(poly_sum(s).y, s.len() as int),
        }
    }
}

/// The bounding box of a polygon model: the componentwise minimum and
/// maximum of its vertices, or a degenerate box at the origin for an empty
/// polygon.
pub open spec fn poly_bbox(s: Seq<V2i>) -> Box2i
    decreases s.len(),
{
    if s.len() == 0 {
        Box2i { lb: V2i { x: 0, y: 0 }, rt: V2i { x: 0, y: 0 } }
    } else if s.len() == 1 {
        Box2i { lb: s[0], rt: s[0] }
    } else {
        let b = poly_bbox(s.drop_last());
        Box2i { lb: v2_min(b.lb, s.last()), rt: v2_max(b.rt, s.last()) }
    }
}

/// A point shape: a position.
#[derive(Clone, Copy, Debug, PartialEq, Eq, Structural)]
pub struct QPoint {
    /// The position of the point.
    pub pos: QVec2,
}

impl View for QPoint {
    type V = V2i;

    open spec fn view(&self) -> V2i {
        self.pos@
    }
}

impl QPoint {
    /// Build a point at a position.
    pub fn new(pos: QVec2) -> (r: QPoint)
        ensures
            r@ == pos@,
    {
        QPoint { pos }
    }

    /// The point at the origin.
    pub fn zero() -> (r: QPoint)
        ensures
            r@ == (V2i { x: 0, y: 0 }),
    {
        QPoint { pos: QVec2::zero() }
    }

    /// The position of the point.
    pub fn pos(&self) -> (r: QVec2)
        ensures
            r@ == self@,
    {
        self.pos
    }

    /// The degenerate bounding box of the point.
    pub fn get_bbox(&self) -> (r: QBbox)
        ensures
            r@ == (Box2i { lb: self@, rt: self@ }),
    {
        QBbox { left_bottom: *self, right_top: *self }
    }

    /// The centroid of a point is the point itself.
    pub fn get_centroid(&self) -> (r: QPoint)
        ensures
            r@ == self@,
    {
        *self
    }

    /// A point contains exactly itself.
    pub fn is_point_inside(&self, p: &QPoint) -> (r: bool)
        ensures
            r == (self@ == p@),
    {
        self.pos.x.raw == p.pos.x.raw && self.pos.y.raw == p.pos.y.raw
    }
}

/// A line segment between two points. It may be degenerate (both points
/// equal) while a shape is being drawn.
#[derive(Clone, Copy, Debug, PartialEq, Eq, Structural)]
pub struct QLine {
    /// The start point.
    pub start: QPoint,
    /// The end point.
    pub end: QPoint,
}

impl View for QLine {
    type V = Seg2i;

    open spec fn view(&self) -> Seg2i {
        Seg2i { s: self.start@, e: self.end@ }
    }
}

impl QLine {
    /// Build a segment from two points.
    pub fn new(start: QPoint, end: QPoint) -> (r: QLine)
        ensures
            r@ == (Seg2i { s: start@, e: end@ }),
    {
        QLine { start, end }
    }

    /// Build a segment from two positions.
    pub fn new_from_parts(s: QVec2, e: QVec2) -> (r: QLine)
        ensures
            r@ == (Seg2i { s: s@, e: e@ }),
    {
        QLine { start: QPoint { pos: s }, end: QPoint { pos: e } }
    }

    /// The start point.
    pub fn start(&self) -> (r: QPoint)
        ensures
            r@ == self@.s,
    {
        self.start
    }

    /// The end point.
    pub fn end(&self) -> (r: QPoint)
        ensures
            r@ == self@.e,
    {
        self.end
    }

    /// Both endpoints, in order.
    pub fn points(&self) -> (r: Vec<QPoint>)
        ensures
            r@.len() == 2,
            r@[0]@ == self@.s,
            r@[1]@ == self@.e,
    {
        let mut v: Vec<QPoint> = Vec::new();
        v.push(self.start);
        v.push(self.end);
        v
    }

    /// The bounding box of the segment.
    pub fn get_bbox(&self) -> (r: QBbox)
        ensures
            r@ == (Box2i { lb: v2_min(self@.s, self@.e), rt: v2_max(self@.s, self@.e) }),
    {
        QBbox {
            left_bottom: QPoint {
                pos: QVec2::new(
                    self.start.pos.x.min(self.end.pos.x),
                    self.start.pos.y.min(self.end.pos.y),
                ),
            },
            right_top: QPoint {
                pos: QVec2::new(
                    self.start.pos.x.max(self.end.pos.x),
                    self.start.pos.y.max(self.end.pos.y),
                ),
            },
        }
    }

    /// The midpoint of the segment.
    pub fn get_centroid(&self) -> (r: QPoint)
        ensures
            r@ == v2_midpoint(self@.s, self@.e),
    {
        QPoint {
            pos: QVec2::new(
                self.start.pos.x.saturating_add(self.end.pos.x).half(),
                self.start.pos.y.saturating_add(self.end.pos.y).half(),
            ),
        }
    }

    /// Whether a point lies on the segment: collinear with the endpoints
    /// and within their bounding box.
    pub fn is_point_inside(&self, p: &QPoint) -> (r: bool)
        ensures
            r == seg_contains(self@, p@),
    {
        let c = cross_exec(&self.start.pos, &self.end.pos, &p.pos);
        c == 0 && self.get_bbox().is_point_inside(p)
    }
}

/// Exact cross product of the saturated edge vectors `a - o` and `b - o`.
pub fn cross_exec(o: &QVec2, a: &QVec2, b: &QVec2) -> (r: i128)
    ensures
        r as int == cross_of(o@, a@, b@),
{
    let ax: i64 = a.x.saturating_sub(o.x).raw;
    let ay: i64 = a.y.saturating_sub(o.y).raw;
    let bx: i64 = b.x.saturating_sub(o.x).raw;
    let by: i64 = b.y.saturating_sub(o.y).raw;
    proof {
        lemma_i64_product_bounds(ax as int, by as int);
        lemma_i64_product_bounds(ay as int, bx as int);
    }
    (ax as i128) * (by as i128) - (ay as i128) * (bx as i128)
}

/// The product of two `i64` values stays within a quarter of the `i128`
/// range.
pub proof fn lemma_i64_product_bounds(a: int, b: int)
    requires
        i64::MIN <= a <= i64::MAX,
        i64::MIN <= b <= i64::MAX,
    ensures
        -(9223372036854775808 * 9223372036854775807) <= a * b <= 9223372036854775808
            * 9223372036854775808,
{
    assert(-(9223372036854775808 * 9223372036854775807) <= a * b <= 9223372036854775808
        * 9223372036854775808) by (nonlinear_arith)
        requires
            -9223372036854775808 <= a <= 9223372036854775807,
            -9223372036854775808 <= b <= 9223372036854775807,
    ;
}

/// An axis-aligned box given by its left-bottom and right-top corners.
/// During interactive construction the corners may transiently coincide or
/// be unordered; consumers must not assume a positive area.
#[derive(Clone, Copy, Debug, PartialEq, Eq, Structural)]
pub struct QBbox {
    /// The left-bottom corner.
    pub left_bottom: QPoint,
    /// The right-top corner.
    pub right_top: QPoint,
}

impl View for QBbox {
    type V = Box2i;

    open spec fn view(&self) -> Box2i {
        Box2i { lb: self.left_bottom@, rt: self.right_top@ }
    }
}

impl QBbox {
    /// Build a box from two corner points.
    pub fn new(left_bottom: QPoint, right_top: QPoint) -> (r: QBbox)
        ensures
            r@ == (Box2i { lb: left_bottom@, rt: right_top@ }),
    {
        QBbox { left_bottom, right_top }
    }

    /// Build a box from two corner positions.
    pub fn new_from_parts(left_bottom: QVec2, right_top: QVec2) -> (r: QBbox)
        ensures
            r@ == (Box2i { lb: left_bottom@, rt: right_top@ }),
    {
        QBbox { left_bottom: QPoint { pos: left_bottom }, right_top: QPoint { pos: right_top } }
    }

    /// The left-bottom corner.
    pub fn left_bottom(&self) -> (r: QPoint)
        ensures
            r@ == self@.lb,
    {
        self.left_bottom
    }

    /// The right-top corner.
    pub fn right_top(&self) -> (r: QPoint)
        ensures
            r@ == self@.rt,
    {
        self.right_top
    }

    /// A box is its own bounding box.
    pub fn get_bbox(&self) -> (r: QBbox)
        ensures
            r@ == self@,
    {
        *self
    }

    /// The center of the box.
    pub fn get_centroid(&self) -> (r: QPoint)
        ensures
            r@ == v2_midpoint(self@.lb, self@.rt),
    {
        QPoint {
            pos: QVec2::new(
                self.left_bottom.pos.x.saturating_add(self.right_top.pos.x).half(),
                self.left_bottom.pos.y.saturating_add(self.right_top.pos.y).half(),
            ),
        }
    }

    /// Whether a point lies in the box, boundary included.
    pub fn is_point_inside(&self, p: &QPoint) -> (r: bool)
        ensures
            r == box_contains(self@, p@),
    {
        self.left_bottom.pos.x.le(p.pos.x) && p.pos.x.le(self.right_top.pos.x)
            && self.left_bottom.pos.y.le(p.pos.y) && p.pos.y.le(self.right_top.pos.y)
    }

    /// Whether two boxes overlap, touching included: their intervals
    /// intersect on both axes.
    pub fn is_collide(&self, other: &QBbox) -> (r: bool)
        ensures
            r == boxes_overlap(self@, other@),
    {
        self.left_bottom.pos.x.le(other.right_top.pos.x) && other.left_bottom.pos.x.le(
            self.right_top.pos.x,
        ) && self.left_bottom.pos.y.le(other.right_top.pos.y) && other.left_bottom.pos.y.le(
            self.right_top.pos.y,
        )
    }

    /// The corner polygon of the box, counterclockwise from left-bottom.
    pub fn get_polygon(&self) -> (r: QPolygon)
        ensures
            r@ == box_polygon(self@),
    {
        let mut v: Vec<QPoint> = Vec::new();
        v.push(self.left_bottom);
        v.push(QPoint { pos: QVec2::new(self.right_top.pos.x, self.left_bottom.pos.y) });
        v.push(self.right_top);
        v.push(QPoint { pos: QVec2::new(self.left_bottom.pos.x, self.right_top.pos.y) });
        let r = QPolygon { points: v };
        proof {
            assert(r@ =~= box_polygon(self@));
        }
        r
    }
}

/// A circle given by its center and radius. The radius is kept strictly
/// positive in steady state; construction may initialize it to the
/// smallest positive scalar as a placeholder.
#[derive(Clone, Copy, Debug, PartialEq, Eq, Structural)]
pub struct QCircle {
    /// The center point.
    pub center: QPoint,
    /// The radius.
    pub radius: Q64,
}

impl View for QCircle {
    type V = Circ2i;

    open spec fn view(&self) -> Circ2i {
        Circ2i { c: self.center@, r: self.radius@ }
    }
}

impl QCircle {
    /// Build a circle from a center and radius.
    pub fn new(center: QPoint, radius: Q64) -> (r: QCircle)
        ensures
            r@ == (Circ2i { c: center@, r: radius@ }),
    {
        QCircle { center, radius }
    }

    /// The center point.
    pub fn center(&self) -> (r: QPoint)
        ensures
            r@ == self@.c,
    {
        self.center
    }

    /// The radius.
    pub fn radius(&self) -> (r: Q64)
        ensures
            r@ == self@.r,
    {
        self.radius
    }

    /// The bounding box of the circle.
    pub fn get_bbox(&self) -> (r: QBbox)
        ensures
            r@ == circle_bbox(self@),
    {
        QBbox {
            left_bottom: QPoint {
                pos: QVec2::new(
                    self.center.pos.x.saturating_sub(self.radius),
                    self.center.pos.y.saturating_sub(self.radius),
                ),
            },
            right_top: QPoint {
                pos: QVec2::new(
                    self.center.pos.x.saturating_add(self.radius),
                    self.center.pos.y.saturating_add(self.radius),
                ),
            },
        }
    }

    /// The centroid of a circle is its center.
    pub fn get_centroid(&self) -> (r: QPoint)
        ensures
            r@ == self@.c,
    {
        self.center
    }

    /// Whether a point lies in the disc, boundary included.
    pub fn is_point_inside(&self, p: &QPoint) -> (r: bool)
        ensures
            r == circle_contains(self@, p@),
    {
        let d = p.pos.saturating_sub(self.center.pos);
        d.dot(d).le(self.radius.saturating_mul(self.radius))
    }

    /// The tessellated polygon approximating the circle: sixteen vertices
    /// at fixed unit directions, scaled by the radius, around the center.
    pub fn get_polygon(&self) -> (r: QPolygon)
        ensures
            r@ == circle_polygon(self@),
    {
        let dirs: Vec<QVec2> = circle_dirs_exec();
        let mut v: Vec<QPoint> = Vec::new();
        let mut i: usize = 0;
        while i < dirs.len()
            invariant
                dirs@.map_values(|u: QVec2| u@) == circle_dirs(),
                i <= dirs.len(),
                dirs.len() == 16,
                v@.len() == i,
                forall|j: int|
                    0 <= j < i ==> v@[j]@ == v2_add(self@.c, v2_scale(circle_dirs()[j], self@.r)),
            decreases dirs.len() - i,
        {
            proof {
                assert(circle_dirs()[i as int] == dirs@.map_values(|u: QVec2| u@)[i as int]);
            }
            let u = dirs[i];
            let p = self.center.pos.saturating_add(u.saturating_mul_num(self.radius));
            v.push(QPoint { pos: p });
            i = i + 1;
        }
        let r = QPolygon { points: v };
        proof {
            assert(r@ =~= circle_polygon(self@));
        }
        r
    }
}

/// The sixteen tessellation directions as vectors.
fn circle_dirs_exec() -> (r: Vec<QVec2>)
    ensures
        r@.map_values(|u: QVec2| u@) == circle_dirs(),
        r@.len() == 16,
{
    let mut v: Vec<QVec2> = Vec::new();
    v.push(QVec2::new(Q64::from_raw(4294967296), Q64::from_raw(0)));
    v.push(QVec2::new(Q64::from_raw(3968032378), Q64::from_raw(1643612827)));
    v.push(QVec2::new(Q64::from_raw(3037000500), Q64::from_raw(3037000500)));
    v.push(QVec2::new(Q64::from_raw(1643612827), Q64::from_raw(3968032378)));
    v.push(QVec2::new(Q64::from_raw(0), Q64::from_raw(4294967296)));
    v.push(QVec2::new(Q64::from_raw(-1643612827), Q64::from_raw(3968032378)));
    v.push(QVec2::new(Q64::from_raw(-3037000500), Q64::from_raw(3037000500)));
    v.push(QVec2::new(Q64::from_raw(-3968032378), Q64::from_raw(1643612827)));
    v.push(QVec2::new(Q64::from_raw(-4294967296), Q64::from_raw(0)));
    v.push(QVec2::new(Q64::from_raw(-3968032378), Q64::from_raw(-1643612827)));
    v.push(QVec2::new(Q64::from_raw(-3037000500), Q64::from_raw(-3037000500)));
    v.push(QVec2::new(Q64::from_raw(-1643612827), Q64::from_raw(-3968032378)));
    v.push(QVec2::new(Q64::from_raw(0), Q64::from_raw(-4294967296)));
    v.push(QVec2::new(Q64::from_raw(1643612827), Q64::from_raw(-3968032378)));
    v.push(QVec2::new(Q64::from_raw(3037000500), Q64::from_raw(-3037000500)));
    v.push(QVec2::new(Q64::from_raw(3968032378), Q64::from_raw(-1643612827)));
    proof {
        assert(v@.map_values(|u: QVec2| u@) =~= circle_dirs());
    }
    v
}

/// A polygon: an ordered sequence of vertices whose insertion order is the
/// winding order. Zero-, one- and two-vertex polygons occur transiently
/// while drawing and are handled by every consumer.
#[derive(Clone, Debug, PartialEq, Eq)]
pub struct QPolygon {
    /// The vertices, in winding order.
    pub points: Vec<QPoint>,
}

impl View for QPolygon {
    type V = Seq<V2i>;

    open spec fn view(&self) -> Seq<V2i> {
        pts_view(self.points@)
    }
}

impl QPolygon {
    /// Build a polygon from its vertices.
    pub fn new(points: Vec<QPoint>) -> (r: QPolygon)
        ensures
            r@ == pts_view(points@),
    {
        QPolygon { points }
    }

    /// The vertices, in winding order.
    pub fn points(&self) -> (r: &Vec<QPoint>)
        ensures
            pts_view(r@) == self@,
    {
        &self.points
    }

    /// The number of vertices.
    pub fn len(&self) -> (r: usize)
        ensures
            r == self@.len(),
    {
        self.points.len()
    }

    /// The bounding box of the polygon: the componentwise minimum and
    /// maximum of its vertices, or a degenerate box at the origin when the
    /// polygon has no vertices.
    pub fn get_bbox(&self) -> (r: QBbox)
        ensures
            r@ == poly_bbox(self@),
    {
        let n = self.points.len();
        if n == 0 {
            return QBbox { left_bottom: QPoint::zero(), right_top: QPoint::zero() };
        }
        let mut lb: QVec2 = self.points[0].pos;
        let mut rt: QVec2 = self.points[0].pos;
        let mut i: usize = 1;
        while i < n
            invariant
                1 <= i <= n,
                n == self@.len(),
                self@ == pts_view(self.points@),
                poly_bbox(self@.take(i as int)) == (Box2i { lb: lb@, rt: rt@ }),
            decreases n - i,
        {
            let p = self.points[i].pos;
            proof {
                assert(self@.take(i + 1).drop_last() =~= self@.take(i as int));
                assert(self@.take(i + 1).last() == self@[i as int]);
            }
            lb = QVec2::new(lb.x.min(p.x), lb.y.min(p.y));
            rt = QVec2::new(rt.x.max(p.x), rt.y.max(p.y));
            i = i + 1;
        }
        proof {
            assert(self@.take(n as int) =~= self@);
        }
        QBbox { left_bottom: QPoint { pos: lb }, right_top: QPoint { pos: rt } }
    }

    /// The centroid of the polygon: the vertex average, or the origin when
    /// the polygon has no vertices.
    pub fn get_centroid(&self) -> (r: QPoint)
        ensures
            r@ == poly_centroid(self@),
    {
        let n = self.points.len();
        if n == 0 {
            return QPoint::zero();
        }
        let mut sum: QVec2 = QVec2::zero();
        let mut i: usize = 0;
        while i < n
            invariant
                i <= n,
                n == self@.len(),
                self@ == pts_view(self.points@),
                sum@ == poly_sum(self@.take(i as int)),
            decreases n - i,
        {
            proof {
                assert(self@.take(i + 1).drop_last() =~= self@.take(i as int));
                assert(self@.take(i + 1).last() == self@[i as int]);
            }
            sum = sum.saturating_add(self.points[i].pos);
            i = i + 1;
        }
        proof {
            assert(self@.take(n as int) =~= self@);
        }
        QPoint {
            pos: QVec2::new(
                Q64 { raw: div_raw_by_count(sum.x.raw, n) },
                Q64 { raw: div_raw_by_count(sum.y.raw, n) },
            ),
        }
    }
}

/// Truncating division of a raw scalar by a positive vertex count.
fn div_raw_by_count(raw: i64, n: usize) -> (r: i64)
    requires
        n >= 1,
    ensures
        r as int == div_trunc(raw as int, n as int),
{
    if raw >= 0 {
        ((raw as u64) / (n as u64)) as i64
    } else {
        let mag: u64 = if raw == i64::MIN {
            9223372036854775808u64
        } else {
            (-raw) as u64
        };
        let q: u64 = mag / (n as u64);
        proof {
            assert(q <= mag);
        }
        if q == 9223372036854775808u64 {
            i64::MIN
        } else {
            -(q as i64)
        }
    }
}

} // verus!
