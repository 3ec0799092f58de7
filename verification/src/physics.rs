//! Physics-side components: object identity, body, unified collision
//! shape, motion, collision flags and transform.

use vstd::prelude::*;
use crate::q64::{
    fx_abs, fx_add, fx_div, fx_half, fx_mul, fx_sqrt, Q64, FX_ONE_RAW,
};
use crate::qvec2::{v2_add, v2_mul, QVec2, V2i};
use crate::qdir::{dir_identity, dir_rotate_vec, QDir};
use crate::shape::{
    box_contains, box_polygon, circle_bbox, circle_contains, circle_polygon, poly_bbox,
    poly_centroid, pts_view, seg_contains, v2_max, v2_midpoint, v2_min, Box2i, Circ2i, QBbox,
    QCircle, QLine, QPoint, QPolygon, Seg2i,
};
use crate::collision::{poly_contains_point, polys_collide};
use crate::algorithm::{opt_vec_view, spec_separation};

verus! {

/// Identity of a simulated object: a stable key across phases and ticks.
#[derive(Clone, Copy, Debug, PartialEq, Eq, Hash, Structural)]
pub struct QObject {
    /// The unique identifier of the object.
    pub uuid: u64,
}

impl QObject {
    /// Build an identity from its key.
    pub fn new(uuid: u64) -> (r: QObject)
        ensures
            r.uuid == uuid,
    {
        QObject { uuid }
    }
}

/// The inverse mass of a body: zero for a static body (mass at most
/// zero), else the saturating reciprocal of the mass.
pub open spec fn spec_inverse_mass(mass: int) -> int {
    if mass <= 0 {
        0
    } else {
        fx_div(FX_ONE_RAW as int, mass)
    }
}

/// Basic physics properties of a body. A mass of zero (or below) denotes
/// infinite mass: the body is static and immovable.
#[derive(Clone, Copy, Debug, PartialEq, Eq, Structural)]
pub struct QPhysicsBody {
    /// Mass of the body; zero or below means infinite mass (static).
    pub mass: Q64,
    /// Coefficient of restitution (bounciness), conceptually in `[0, 1]`.
    pub restitution: Q64,
    /// Coefficient of friction, conceptually in `[0, 1]`. Stored for
    /// compatibility; the resolution step does not consume it.
    pub friction: Q64,
}

impl QPhysicsBody {
    /// Build a body with the given properties.
    pub fn new(mass: Q64, restitution: Q64, friction: Q64) -> (r: QPhysicsBody)
        ensures
            r == (QPhysicsBody { mass, restitution, friction }),
    {
        QPhysicsBody { mass, restitution, friction }
    }

    /// Build a static body: infinite mass, immovable.
    pub fn static_body(restitution: Q64, friction: Q64) -> (r: QPhysicsBody)
        ensures
            r.mass@ == 0,
            r.restitution == restitution,
            r.friction == friction,
    {
        QPhysicsBody { mass: Q64::zero(), restitution, friction }
    }

    /// Build a dynamic body with the given mass.
    pub fn dynamic_body(mass: Q64, restitution: Q64, friction: Q64) -> (r: QPhysicsBody)
        ensures
            r == (QPhysicsBody { mass, restitution, friction }),
    {
        QPhysicsBody { mass, restitution, friction }
    }

    /// Whether the body has infinite mass.
    pub fn is_static(&self) -> (r: bool)
        ensures
            r == (self.mass@ <= 0),
    {
        self.mass.raw <= 0
    }

    /// The inverse mass consumed by resolution: zero for a static body,
    /// so a static body never moves without special-casing the formulas.
    pub fn inverse_mass(&self) -> (r: Q64)
        ensures
            r@ == spec_inverse_mass(self.mass@),
    {
        if self.is_static() {
            Q64::zero()
        } else {
            self.mass.saturating_recip()
        }
    }
}

/// The mathematical model of a collision shape.
pub ghost enum ShapeModel {
    Point(V2i),
    Line(Seg2i),
    Circle(Circ2i),
    Rectangle(Box2i),
    Polygon(Seq<V2i>),
}

/// The polygon a shape model reduces to for collision testing: exact for
/// point, line and box, the fixed tessellation for a circle.
pub open spec fn shape_polygon(m: ShapeModel) -> Seq<V2i> {
    match m {
        ShapeModel::Point(p) => seq![p],
        ShapeModel::Line(l) => seq![l.s, l.e],
        ShapeModel::Circle(c) => circle_polygon(c),
        ShapeModel::Rectangle(b) => box_polygon(b),
        ShapeModel::Polygon(s) => s,
    }
}

/// The bounding box of a shape model.
pub open spec fn shape_bbox(m: ShapeModel) -> Box2i {
    match m {
        ShapeModel::Point(p) => Box2i { lb: p, rt: p },
        ShapeModel::Line(l) => Box2i { lb: v2_min(l.s, l.e), rt: v2_max(l.s, l.e) },
        ShapeModel::Circle(c) => circle_bbox(c),
        ShapeModel::Rectangle(b) => b,
        ShapeModel::Polygon(s) => poly_bbox(s),
    }
}

/// The centroid of a shape model.
pub open spec fn shape_centroid(m: ShapeModel) -> V2i {
    match m {
        ShapeModel::Point(p) => p,
        ShapeModel::Line(l) => v2_midpoint(l.s, l.e),
        ShapeModel::Circle(c) => c.c,
        ShapeModel::Rectangle(b) => v2_midpoint(b.lb, b.rt),
        ShapeModel::Polygon(s) => poly_centroid(s),
    }
}

/// Whether a shape model contains a point, each variant by its own
/// containment predicate.
pub open spec fn shape_contains(m: ShapeModel, p: V2i) -> bool {
    match m {
        ShapeModel::Point(q) => q == p,
        ShapeModel::Line(l) => seg_contains(l, p),
        ShapeModel::Circle(c) => circle_contains(c, p),
        ShapeModel::Rectangle(b) => box_contains(b, p),
        ShapeModel::Polygon(s) => poly_contains_point(s, p),
    }
}

/// The unified shape component for collision detection: a tagged union
/// over the five shape primitives, each answering the same capability
/// set, cross-type queries reducing to one polygon algorithm.
#[derive(Clone, Debug)]
pub enum QCollisionShape {
    Point(QPoint),
    Line(QLine),
    Circle(QCircle),
    Rectangle(QBbox),
    Polygon(QPolygon),
}

impl View for QCollisionShape {
    type V = ShapeModel;

    open spec fn view(&self) -> ShapeModel {
        match self {
            QCollisionShape::Point(p) => ShapeModel::Point(p@),
            QCollisionShape::Line(l) => ShapeModel::Line(l@),
            QCollisionShape::Circle(c) => ShapeModel::Circle(c@),
            QCollisionShape::Rectangle(b) => ShapeModel::Rectangle(b@),
            QCollisionShape::Polygon(s) => ShapeModel::Polygon(s@),
        }
    }
}

/// Copy a vertex list.
pub fn clone_points(v: &Vec<QPoint>) -> (r: Vec<QPoint>)
    ensures
        r@ == v@,
{
    let mut out: Vec<QPoint> = Vec::new();
    let mut i: usize = 0;
    while i < v.len()
        invariant
            i <= v@.len(),
            out@ == v@.take(i as int),
        decreases v@.len() - i,
    {
        out.push(v[i]);
        proof {
            assert(out@ =~= v@.take(i + 1));
        }
        i = i + 1;
    }
    proof {
        assert(v@.take(v@.len() as int) =~= v@);
    }
    out
}

/// Copy a collision shape, preserving its model.
pub fn clone_shape(s: &QCollisionShape) -> (r: QCollisionShape)
    ensures
        r@ == s@,
{
    match s {
        QCollisionShape::Point(p) => QCollisionShape::Point(*p),
        QCollisionShape::Line(l) => QCollisionShape::Line(*l),
        QCollisionShape::Circle(c) => QCollisionShape::Circle(*c),
        QCollisionShape::Rectangle(b) => QCollisionShape::Rectangle(*b),
        QCollisionShape::Polygon(pg) => QCollisionShape::Polygon(
            QPolygon { points: clone_points(&pg.points) },
        ),
    }
}

impl QCollisionShape {
    /// Reduce the shape to a polygon for collision testing.
    pub fn to_polygon(&self) -> (r: QPolygon)
        ensures
            r@ == shape_polygon(self@),
    {
        match self {
            QCollisionShape::Point(p) => {
                let mut v: Vec<QPoint> = Vec::new();
                v.push(*p);
                let r = QPolygon { points: v };
                proof {
                    assert(r@ =~= seq![p@]);
                }
                r
            },
            QCollisionShape::Line(l) => {
                let r = QPolygon { points: l.points() };
                proof {
                    assert(r@ =~= seq![l@.s, l@.e]);
                }
                r
            },
            QCollisionShape::Circle(c) => c.get_polygon(),
            QCollisionShape::Rectangle(b) => b.get_polygon(),
            QCollisionShape::Polygon(pg) => QPolygon { points: clone_points(&pg.points) },
        }
    }

    /// The bounding box of the shape.
    pub fn get_bbox(&self) -> (r: QBbox)
        ensures
            r@ == shape_bbox(self@),
    {
        match self {
            QCollisionShape::Point(p) => p.get_bbox(),
            QCollisionShape::Line(l) => l.get_bbox(),
            QCollisionShape::Circle(c) => c.get_bbox(),
            QCollisionShape::Rectangle(b) => b.get_bbox(),
            QCollisionShape::Polygon(pg) => pg.get_bbox(),
        }
    }

    /// The centroid of the shape.
    pub fn get_centroid(&self) -> (r: QPoint)
        ensures
            r@ == shape_centroid(self@),
    {
        match self {
            QCollisionShape::Point(p) => p.get_centroid(),
            QCollisionShape::Line(l) => l.get_centroid(),
            QCollisionShape::Circle(c) => c.get_centroid(),
            QCollisionShape::Rectangle(b) => b.get_centroid(),
            QCollisionShape::Polygon(pg) => pg.get_centroid(),
        }
    }

    /// Whether a point lies inside the shape.
    pub fn is_point_inside(&self, point: &QPoint) -> (r: bool)
        ensures
            r == shape_contains(self@, point@),
    {
        match self {
            QCollisionShape::Point(p) => p.is_point_inside(point),
            QCollisionShape::Line(l) => l.is_point_inside(point),
            QCollisionShape::Circle(c) => c.is_point_inside(point),
            QCollisionShape::Rectangle(b) => b.is_point_inside(point),
            QCollisionShape::Polygon(pg) => pg.is_point_inside(point),
        }
    }

    /// Whether this shape collides with another: both reduce to polygons
    /// and one polygon test decides, so the result is symmetric in the
    /// two shapes.
    pub fn is_collide(&self, other: &QCollisionShape) -> (r: bool)
        ensures
            r == polys_collide(shape_polygon(self@), shape_polygon(other@)),
    {
        let a = self.to_polygon();
        let b = other.to_polygon();
        a.is_collide(&b)
    }

    /// The separation vector between this shape and another: `None` when
    /// they do not collide, otherwise the minimum translation of the
    /// other shape that removes the overlap.
    pub fn try_get_separation_vector(&self, other: &QCollisionShape) -> (r: Option<QVec2>)
        ensures
            (r is Some) == polys_collide(shape_polygon(self@), shape_polygon(other@)),
            opt_vec_view(r) == spec_separation(shape_polygon(self@), shape_polygon(other@)),
    {
        let a = self.to_polygon();
        let b = other.to_polygon();
        a.try_get_separation_vector(&b)
    }
}

/// Motion state of a body.
#[derive(Clone, Copy, Debug, PartialEq, Eq, Structural)]
pub struct QMotion {
    /// Linear velocity in units per second.
    pub velocity: QVec2,
    /// Angular velocity in radians per second.
    pub angular_velocity: Q64,
    /// Linear acceleration in units per second squared.
    pub acceleration: QVec2,
}

impl QMotion {
    /// Build a motion state.
    pub fn new(velocity: QVec2, angular_velocity: Q64, acceleration: QVec2) -> (r: QMotion)
        ensures
            r == (QMotion { velocity, angular_velocity, acceleration }),
    {
        QMotion { velocity, angular_velocity, acceleration }
    }

    /// Motion with only linear velocity.
    pub fn with_velocity(velocity: QVec2) -> (r: QMotion)
        ensures
            r.velocity == velocity,
            r.angular_velocity@ == 0,
            r.acceleration@ == (V2i { x: 0, y: 0 }),
    {
        QMotion { velocity, angular_velocity: Q64::zero(), acceleration: QVec2::zero() }
    }

    /// Motion with only angular velocity.
    pub fn with_angular_velocity(angular_velocity: Q64) -> (r: QMotion)
        ensures
            r.velocity@ == (V2i { x: 0, y: 0 }),
            r.angular_velocity == angular_velocity,
            r.acceleration@ == (V2i { x: 0, y: 0 }),
    {
        QMotion { velocity: QVec2::zero(), angular_velocity, acceleration: QVec2::zero() }
    }
}

impl Default for QMotion {
    /// Motion at rest.
    fn default() -> (r: QMotion)
        ensures
            r.velocity@ == (V2i { x: 0, y: 0 }),
            r.angular_velocity@ == 0,
            r.acceleration@ == (V2i { x: 0, y: 0 }),
    {
        QMotion { velocity: QVec2::zero(), angular_velocity: Q64::zero(), acceleration: QVec2::zero() }
    }
}

/// Whether two flag pairs permit a collision: each object's mask must
/// include the other object's layer — a symmetric gate.
pub open spec fn masks_allow(
    a_layer: u32,
    a_mask: u32,
    b_layer: u32,
    b_mask: u32,
) -> bool {
    (a_mask & b_layer) != 0 && (b_mask & a_layer) != 0
}

/// The symmetric bitmask gate does not depend on the order of the two
/// objects.
pub proof fn lemma_masks_allow_symmetric(a_layer: u32, a_mask: u32, b_layer: u32, b_mask: u32)
    ensures
        masks_allow(a_layer, a_mask, b_layer, b_mask) == masks_allow(
            b_layer,
            b_mask,
            a_layer,
            a_mask,
        ),
{
}

/// Collision behavior flags: trigger marking and layer/mask gating.
#[derive(Clone, Copy, Debug, PartialEq, Eq, Structural)]
pub struct QCollisionFlag {
    /// Whether this is a trigger: collisions are detected but not
    /// physically resolved.
    pub is_trigger: bool,
    /// The collision layer this object belongs to.
    pub collision_layer: u32,
    /// The mask of layers this object tests against.
    pub collision_mask: u32,
}

impl QCollisionFlag {
    /// Build a collision flag.
    pub fn new(is_trigger: bool, collision_layer: u32, collision_mask: u32) -> (r: QCollisionFlag)
        ensures
            r == (QCollisionFlag { is_trigger, collision_layer, collision_mask }),
    {
        QCollisionFlag { is_trigger, collision_layer, collision_mask }
    }

    /// Build a trigger flag.
    pub fn trigger(collision_layer: u32, collision_mask: u32) -> (r: QCollisionFlag)
        ensures
            r == (QCollisionFlag { is_trigger: true, collision_layer, collision_mask }),
    {
        QCollisionFlag { is_trigger: true, collision_layer, collision_mask }
    }

    /// Build a solid (non-trigger) flag.
    pub fn solid(collision_layer: u32, collision_mask: u32) -> (r: QCollisionFlag)
        ensures
            r == (QCollisionFlag { is_trigger: false, collision_layer, collision_mask }),
    {
        QCollisionFlag { is_trigger: false, collision_layer, collision_mask }
    }

    /// Whether this object may collide with another, by the symmetric
    /// layer/mask gate.
    pub fn can_collide_with(&self, other: &QCollisionFlag) -> (r: bool)
        ensures
            r == masks_allow(
                self.collision_layer,
                self.collision_mask,
                other.collision_layer,
                other.collision_mask,
            ),
    {
        (self.collision_mask & other.collision_layer) != 0 && (other.collision_mask
            & self.collision_layer) != 0
    }
}

impl Default for QCollisionFlag {
    /// A solid flag on layer one, colliding with every layer.
    fn default() -> (r: QCollisionFlag)
        ensures
            r == (QCollisionFlag {
                is_trigger: false,
                collision_layer: 1u32,
                collision_mask: 0xFFFFFFFFu32,
            }),
    {
        QCollisionFlag { is_trigger: false, collision_layer: 1, collision_mask: 0xFFFFFFFF }
    }
}

/// The mathematical model of a transform.
pub ghost struct Xform2i {
    pub pos: V2i,
    pub rot: V2i,
    pub scale: V2i,
}

/// A point taken to world space: rotated, then scaled, then
/// translated.
pub open spec fn xform_point(t: Xform2i, p: V2i) -> V2i {
    v2_add(v2_mul(dir_rotate_vec(t.rot, p), t.scale), t.pos)
}

/// A radius taken to world space: scaled by the geometric mean of the
/// absolute scale factors, clamped to the smallest positive scalar so a
/// degenerate circle never reaches the polygon conversion.
pub open spec fn xform_radius(t: Xform2i, r: int) -> int {
    let mag = fx_sqrt(fx_mul(fx_abs(t.scale.x), fx_abs(t.scale.y)));
    let rr = fx_mul(r, mag);
    if rr <= 1 {
        1
    } else {
        rr
    }
}

/// A shape model taken to world space, variant by variant.
pub open spec fn spec_apply_to(t: Xform2i, m: ShapeModel) -> ShapeModel {
    match m {
        ShapeModel::Point(p) => ShapeModel::Point(xform_point(t, p)),
        ShapeModel::Line(l) => ShapeModel::Line(
            Seg2i { s: xform_point(t, l.s), e: xform_point(t, l.e) },
        ),
        ShapeModel::Circle(c) => ShapeModel::Circle(
            Circ2i { c: xform_point(t, c.c), r: xform_radius(t, c.r) },
        ),
        ShapeModel::Rectangle(b) => ShapeModel::Rectangle(
            Box2i { lb: xform_point(t, b.lb), rt: xform_point(t, b.rt) },
        ),
        ShapeModel::Polygon(s) => ShapeModel::Polygon(s.map_values(|p: V2i| xform_point(t, p))),
    }
}

/// Position, rotation and scale of a simulated object. Applying it to a
/// shape produces a transformed copy; the shape itself is never mutated.
#[derive(Clone, Copy, Debug, PartialEq, Eq, Structural)]
pub struct QTransform {
    /// Position of the object.
    pub position: QVec2,
    /// Rotation of the object.
    pub rotation: QDir,
    /// Scale of the object, both axes meant to carry the same scale for
    /// simple scaling math.
    pub scale: QVec2,
}

impl View for QTransform {
    type V = Xform2i;

    open spec fn view(&self) -> Xform2i {
        Xform2i { pos: self.position@, rot: self.rotation@, scale: self.scale@ }
    }
}

impl Default for QTransform {
    /// The identity transform.
    fn default() -> (r: QTransform)
        ensures
            r@ == (Xform2i {
                pos: V2i { x: 0, y: 0 },
                rot: dir_identity(),
                scale: V2i { x: FX_ONE_RAW as int, y: FX_ONE_RAW as int },
            }),
    {
        QTransform { position: QVec2::zero(), rotation: QDir::identity(), scale: QVec2::one() }
    }
}

impl QTransform {
    /// Build a transform.
    pub fn new(position: QVec2, rotation: QDir, scale: QVec2) -> (r: QTransform)
        ensures
            r == (QTransform { position, rotation, scale }),
    {
        QTransform { position, rotation, scale }
    }

    /// Take a point to world space: rotate, scale, translate.
    fn apply_to_vec(&self, p: QVec2) -> (r: QVec2)
        ensures
            r@ == xform_point(self@, p@),
    {
        self.rotation.rotate_vec(p).saturating_mul(self.scale).saturating_add(self.position)
    }

    /// Take a shape to world space, returning a transformed copy: every
    /// defining point is rotated, scaled and translated, and a circle's
    /// radius is scaled by the geometric mean of the absolute scale
    /// factors, clamped to stay positive.
    pub fn apply_to(&self, shape: &QCollisionShape) -> (r: QCollisionShape)
        ensures
            r@ == spec_apply_to(self@, shape@),
    {
        match shape {
            QCollisionShape::Point(p) => QCollisionShape::Point(
                QPoint { pos: self.apply_to_vec(p.pos) },
            ),
            QCollisionShape::Line(l) => QCollisionShape::Line(
                QLine {
                    start: QPoint { pos: self.apply_to_vec(l.start.pos) },
                    end: QPoint { pos: self.apply_to_vec(l.end.pos) },
                },
            ),
            QCollisionShape::Circle(c) => {
                let mag = self.scale.x.abs().saturating_mul(self.scale.y.abs()).saturating_sqrt();
                let scaled = c.radius.saturating_mul(mag);
                let radius = if scaled.raw <= 1 {
                    Q64::eps()
                } else {
                    scaled
                };
                QCollisionShape::Circle(
                    QCircle { center: QPoint { pos: self.apply_to_vec(c.center.pos) }, radius },
                )
            },
            QCollisionShape::Rectangle(b) => QCollisionShape::Rectangle(
                QBbox {
                    left_bottom: QPoint { pos: self.apply_to_vec(b.left_bottom.pos) },
                    right_top: QPoint { pos: self.apply_to_vec(b.right_top.pos) },
                },
            ),
            QCollisionShape::Polygon(pg) => {
                let n = pg.points.len();
                let mut v: Vec<QPoint> = Vec::new();
                let mut i: usize = 0;
                while i < n
                    invariant
                        i <= n,
                        n == pg.points@.len(),
                        v@.len() == i,
                        forall|j: int| 0 <= j < i ==> v@[j]@ == xform_point(self@, pg.points@[j]@),
                    decreases n - i,
                {
                    v.push(QPoint { pos: self.apply_to_vec(pg.points[i].pos) });
                    i = i + 1;
                }
                let r = QCollisionShape::Polygon(QPolygon { points: v });
                proof {
                    assert(pts_view(v@) =~= pg@.map_values(|p: V2i| xform_point(self@, p)));
                }
                r
            },
        }
    }
}

/// The averaged restitution of two bodies, as the resolution step uses
/// it.
pub open spec fn avg_restitution(a: int, b: int) -> int {
    fx_half(fx_add(a, b))
}

/// Collision between any two shapes is symmetric: both operands reduce
/// to polygons and one symmetric polygon test decides.
pub proof fn lemma_shape_collision_symmetric(a: ShapeModel, b: ShapeModel)
    ensures
        polys_collide(shape_polygon(a), shape_polygon(b)) == polys_collide(
            shape_polygon(b),
            shape_polygon(a),
        ),
{
    crate::collision::lemma_polys_collide_symmetric(shape_polygon(a), shape_polygon(b));
}

} // verus!
