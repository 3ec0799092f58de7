use qphysics::algorithm::get_minkowski_difference;
use qphysics::q64::Q64;
use qphysics::qvec2::QVec2;
use qphysics::shape::{QBbox, QCircle, QLine, QPoint, QPolygon};
use qphysics::physics::{QCollisionShape, QTransform};

const ONE_RAW: i64 = 4294967296;

fn v(x: i64, y: i64) -> QVec2 {
    QVec2::new(Q64::from_int(x), Q64::from_int(y))
}

fn p(x: i64, y: i64) -> QPoint {
    QPoint::new(v(x, y))
}

fn unit_square_at(x: i64, y: i64, side: i64) -> QPolygon {
    QPolygon::new(vec![p(x, y), p(x + side, y), p(x + side, y + side), p(x, y + side)])
}

#[test]
fn aabb_overlap_scenarios() {
    // overlapping boxes collide
    let a = QCollisionShape::Rectangle(QBbox::new(p(0, 0), p(2, 2)));
    let b = QCollisionShape::Rectangle(QBbox::new(p(1, 1), p(3, 3)));
    assert!(a.is_collide(&b));
    assert!(b.is_collide(&a));
    // disjoint boxes do not
    let c = QCollisionShape::Rectangle(QBbox::new(p(3, 3), p(5, 5)));
    let d = QCollisionShape::Rectangle(QBbox::new(p(0, 0), p(1, 1)));
    assert!(!c.is_collide(&d));
    assert!(!d.is_collide(&c));
    assert!(c.try_get_separation_vector(&d).is_none());
}

#[test]
fn circle_versus_circle() {
    let a = QCollisionShape::Circle(QCircle::new(p(0, 0), Q64::from_int(1)));
    let b = QCollisionShape::Circle(
        QCircle::new(QPoint::new(QVec2::new(Q64::from_ratio(3, 2), Q64::zero())), Q64::from_int(1)),
    );
    assert!(a.is_collide(&b));
    assert!(b.is_collide(&a));
    let sep = a.try_get_separation_vector(&b).unwrap();
    // the minimum translation is about half a unit along the x axis
    let mag = sep.length().to_raw();
    assert!((mag - ONE_RAW / 2).abs() < 130_000_000, "magnitude {}", mag);
    assert!(sep.x.to_raw() > 19 * ONE_RAW / 40, "x {}", sep.x.to_raw());
    assert!(sep.y.to_raw().abs() < ONE_RAW / 8, "y {}", sep.y.to_raw());
    // translating the second circle by the vector leaves at most a touch
    let moved = QCollisionShape::Circle(
        QCircle::new(
            QPoint::new(
                QVec2::new(Q64::from_ratio(3, 2).saturating_add(sep.x), sep.y),
            ),
            Q64::from_int(1),
        ),
    );
    if let Some(residual) = a.try_get_separation_vector(&moved) {
        assert!(residual.length().to_raw() < 130_000_000);
    }
    // far-apart circles are separated
    let far = QCollisionShape::Circle(QCircle::new(p(5, 0), Q64::from_int(1)));
    assert!(!a.is_collide(&far));
    assert!(a.try_get_separation_vector(&far).is_none());
}

#[test]
fn point_outside_polygon() {
    let point = QCollisionShape::Point(p(10, 10));
    let square = QCollisionShape::Polygon(unit_square_at(0, 0, 1));
    assert!(!point.is_collide(&square));
    assert!(!square.is_collide(&point));
    assert!(point.try_get_separation_vector(&square).is_none());
    let inside = QCollisionShape::Point(p(0, 0));
    assert!(inside.is_collide(&square));
}

#[test]
fn symmetry_across_shape_kinds() {
    let shapes = vec![
        QCollisionShape::Point(p(1, 1)),
        QCollisionShape::Line(QLine::new(p(0, 0), p(2, 2))),
        QCollisionShape::Circle(QCircle::new(p(1, 0), Q64::from_int(1))),
        QCollisionShape::Rectangle(QBbox::new(p(0, 0), p(1, 1))),
        QCollisionShape::Polygon(unit_square_at(1, 1, 2)),
        QCollisionShape::Point(p(40, 40)),
    ];
    for a in &shapes {
        for b in &shapes {
            assert_eq!(a.is_collide(b), b.is_collide(a));
            // no collision means no separation vector
            if !a.is_collide(b) {
                assert!(a.try_get_separation_vector(b).is_none());
            } else {
                assert!(a.try_get_separation_vector(b).is_some());
            }
        }
    }
}

#[test]
fn separation_resolves_box_overlap() {
    let a = QCollisionShape::Rectangle(QBbox::new(p(0, 0), p(2, 2)));
    let b = QCollisionShape::Rectangle(QBbox::new(p(1, 1), p(3, 3)));
    let sep = a.try_get_separation_vector(&b).unwrap();
    // translating the second box by the vector removes the overlap up to touching
    let t = QTransform {
        position: sep,
        rotation: qphysics::qdir::QDir::identity(),
        scale: QVec2::one(),
    };
    let moved = t.apply_to(&b);
    if let Some(residual) = a.try_get_separation_vector(&moved) {
        assert!(residual.length().to_raw() < 10_000, "residual {}", residual.length().to_raw());
    }
}

#[test]
fn collinear_segments() {
    let a = QCollisionShape::Line(QLine::new(p(0, 0), p(2, 0)));
    let b = QCollisionShape::Line(QLine::new(p(3, 0), p(5, 0)));
    let c = QCollisionShape::Line(QLine::new(p(1, 0), p(4, 0)));
    assert!(!a.is_collide(&b));
    assert!(a.is_collide(&c));
    assert!(b.is_collide(&c));
}

#[test]
fn point_versus_point() {
    let a = QCollisionShape::Point(p(1, 2));
    let b = QCollisionShape::Point(p(1, 2));
    let c = QCollisionShape::Point(p(1, 3));
    assert!(a.is_collide(&b));
    assert!(!a.is_collide(&c));
}

#[test]
fn minkowski_with_single_point_translates() {
    let tri = QPolygon::new(vec![p(0, 0), p(2, 0), p(1, 1)]);
    let single = QPolygon::new(vec![p(5, 5)]);
    // a single-point second operand translates the first polygon
    let translated = get_minkowski_difference(&tri, &single);
    assert_eq!(translated.points().len(), 3);
    assert_eq!(translated.points()[0], p(-5, -5));
    assert_eq!(translated.points()[1], p(-3, -5));
    assert_eq!(translated.points()[2], p(-4, -4));
    // a single-point first operand reflects the second polygon through it
    let reflected = get_minkowski_difference(&single, &tri);
    assert_eq!(reflected.points().len(), 3);
    assert_eq!(reflected.points()[0], p(5, 5));
    assert_eq!(reflected.points()[1], p(3, 5));
    assert_eq!(reflected.points()[2], p(4, 4));
}

#[test]
fn minkowski_with_empty_is_empty() {
    let tri = QPolygon::new(vec![p(0, 0), p(2, 0), p(1, 1)]);
    let empty = QPolygon::new(vec![]);
    assert_eq!(get_minkowski_difference(&tri, &empty).points().len(), 0);
    assert_eq!(get_minkowski_difference(&empty, &tri).points().len(), 0);
    assert_eq!(get_minkowski_difference(&empty, &empty).points().len(), 0);
}

#[test]
fn minkowski_of_squares_is_square() {
    let a = unit_square_at(0, 0, 1);
    let b = unit_square_at(0, 0, 1);
    let m = get_minkowski_difference(&a, &b);
    assert_eq!(m.points().len(), 4);
    assert_eq!(m.points()[0], p(-1, -1));
    assert_eq!(m.points()[1], p(1, -1));
    assert_eq!(m.points()[2], p(1, 1));
    assert_eq!(m.points()[3], p(-1, 1));
}

#[test]
fn minkowski_origin_membership_matches_collision() {
    let a = unit_square_at(0, 0, 2);
    let b = unit_square_at(1, 1, 2);
    let m = get_minkowski_difference(&a, &b);
    // the squares overlap, so the difference polygon contains the origin
    assert!(m.is_point_inside(&p(0, 0)));
    let c = unit_square_at(5, 5, 1);
    let m2 = get_minkowski_difference(&a, &c);
    assert!(!m2.is_point_inside(&p(0, 0)));
}

#[test]
fn extreme_coordinates_saturate_without_panic() {
    // arithmetic saturates at the type bounds instead of overflowing
    let huge = QCollisionShape::Rectangle(
        QBbox::new_from_parts(
            QVec2::new(Q64::from_raw(i64::MIN), Q64::from_raw(i64::MIN)),
            QVec2::new(Q64::from_raw(i64::MAX), Q64::from_raw(i64::MAX)),
        ),
    );
    let small = QCollisionShape::Rectangle(QBbox::new(p(0, 0), p(1, 1)));
    assert!(huge.is_collide(&small));
    let _ = huge.try_get_separation_vector(&small);
    let far = QCollisionShape::Point(QPoint::new(QVec2::new(
        Q64::from_raw(i64::MAX),
        Q64::from_raw(i64::MAX),
    )));
    let _ = far.is_collide(&small);
}

#[test]
fn separation_ties_break_deterministically() {
    // symmetric overlap: several minimal axes exist, but the same inputs
    // always give the same vector
    let a = QCollisionShape::Rectangle(QBbox::new(p(0, 0), p(2, 2)));
    let b = QCollisionShape::Rectangle(QBbox::new(p(1, 1), p(3, 3)));
    let first = a.try_get_separation_vector(&b).unwrap();
    let second = a.try_get_separation_vector(&b).unwrap();
    assert_eq!(first, second);
}

#[test]
fn degenerate_shapes_never_panic() {
    let empty = QCollisionShape::Polygon(QPolygon::new(vec![]));
    let single = QCollisionShape::Polygon(QPolygon::new(vec![p(1, 1)]));
    let seg = QCollisionShape::Polygon(QPolygon::new(vec![p(0, 0), p(1, 0)]));
    let square = QCollisionShape::Rectangle(QBbox::new(p(0, 0), p(2, 2)));
    assert!(!empty.is_collide(&square));
    assert!(!square.is_collide(&empty));
    assert!(empty.try_get_separation_vector(&square).is_none());
    assert!(single.is_collide(&square));
    assert!(seg.is_collide(&square));
    assert!(single.try_get_separation_vector(&square).is_some());
}
