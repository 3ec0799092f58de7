use qphysics::q64::Q64;
use qphysics::qvec2::QVec2;
use qphysics::shape::{QBbox, QCircle, QLine, QPoint, QPolygon};

const ONE_RAW: i64 = 4294967296;

fn v(x: i64, y: i64) -> QVec2 {
    QVec2::new(Q64::from_int(x), Q64::from_int(y))
}

fn p(x: i64, y: i64) -> QPoint {
    QPoint::new(v(x, y))
}

#[test]
fn point_capabilities() {
    let a = p(2, 3);
    assert_eq!(a.pos(), v(2, 3));
    assert_eq!(a.get_centroid(), a);
    let bb = a.get_bbox();
    assert_eq!(bb.left_bottom(), a);
    assert_eq!(bb.right_top(), a);
    assert!(a.is_point_inside(&p(2, 3)));
    assert!(!a.is_point_inside(&p(2, 4)));
}

#[test]
fn line_capabilities() {
    let l = QLine::new(p(0, 0), p(4, 0));
    assert_eq!(l.start(), p(0, 0));
    assert_eq!(l.end(), p(4, 0));
    assert_eq!(l.points().len(), 2);
    assert_eq!(l.get_centroid(), p(2, 0));
    let bb = l.get_bbox();
    assert_eq!(bb.left_bottom(), p(0, 0));
    assert_eq!(bb.right_top(), p(4, 0));
    assert!(l.is_point_inside(&p(2, 0)));
    assert!(l.is_point_inside(&p(0, 0)));
    assert!(!l.is_point_inside(&p(5, 0)));
    assert!(!l.is_point_inside(&p(2, 1)));
    // a degenerate line contains only its single point
    let d = QLine::new(p(1, 1), p(1, 1));
    assert!(d.is_point_inside(&p(1, 1)));
    assert!(!d.is_point_inside(&p(1, 2)));
}

#[test]
fn bbox_capabilities() {
    let b = QBbox::new(p(0, 0), p(2, 2));
    assert_eq!(b.get_centroid(), p(1, 1));
    assert!(b.is_point_inside(&p(1, 1)));
    assert!(b.is_point_inside(&p(0, 0)));
    assert!(b.is_point_inside(&p(2, 2)));
    assert!(!b.is_point_inside(&p(3, 1)));
    let poly = b.get_polygon();
    assert_eq!(poly.points().len(), 4);
    assert_eq!(poly.points()[0], p(0, 0));
    assert_eq!(poly.points()[1], p(2, 0));
    assert_eq!(poly.points()[2], p(2, 2));
    assert_eq!(poly.points()[3], p(0, 2));
}

#[test]
fn bbox_overlap_touching_and_disjoint() {
    let a = QBbox::new(p(0, 0), p(2, 2));
    let b = QBbox::new(p(1, 1), p(3, 3));
    let c = QBbox::new(p(2, 0), p(4, 2));
    let d = QBbox::new(p(3, 3), p(5, 5));
    assert!(a.is_collide(&b));
    assert!(b.is_collide(&a));
    // touching edges count as overlap
    assert!(a.is_collide(&c));
    assert!(!a.is_collide(&d));
    assert!(!d.is_collide(&a));
}

#[test]
fn circle_capabilities() {
    let c = QCircle::new(p(1, 1), Q64::from_int(2));
    assert_eq!(c.center(), p(1, 1));
    assert_eq!(c.radius(), Q64::from_int(2));
    assert_eq!(c.get_centroid(), p(1, 1));
    let bb = c.get_bbox();
    assert_eq!(bb.left_bottom(), p(-1, -1));
    assert_eq!(bb.right_top(), p(3, 3));
    assert!(c.is_point_inside(&p(1, 1)));
    assert!(c.is_point_inside(&p(3, 1)));
    assert!(!c.is_point_inside(&p(4, 1)));
}

#[test]
fn circle_polygon_tessellation() {
    let c = QCircle::new(p(0, 0), Q64::from_int(1));
    let poly = c.get_polygon();
    assert_eq!(poly.points().len(), 16);
    // the first vertex sits at angle zero: center + (radius, 0)
    assert_eq!(poly.points()[0], p(1, 0));
    assert_eq!(poly.points()[4], p(0, 1));
    assert_eq!(poly.points()[8], p(-1, 0));
    assert_eq!(poly.points()[12], p(0, -1));
    // every vertex lies at distance close to the radius from the center
    for q in poly.points() {
        let len = q.pos().length().to_raw();
        assert!((len - ONE_RAW).abs() < 10_000, "vertex radius {}", len);
    }
}

#[test]
fn polygon_capabilities() {
    let square = QPolygon::new(vec![p(0, 0), p(2, 0), p(2, 2), p(0, 2)]);
    let bb = square.get_bbox();
    assert_eq!(bb.left_bottom(), p(0, 0));
    assert_eq!(bb.right_top(), p(2, 2));
    assert_eq!(square.get_centroid(), p(1, 1));
    assert!(square.is_point_inside(&p(1, 1)));
    assert!(square.is_point_inside(&p(0, 0)));
    assert!(!square.is_point_inside(&p(3, 3)));
}

#[test]
fn degenerate_polygons() {
    let empty = QPolygon::new(vec![]);
    assert_eq!(empty.len(), 0);
    assert_eq!(empty.get_centroid(), p(0, 0));
    assert_eq!(empty.get_bbox().left_bottom(), p(0, 0));
    assert_eq!(empty.get_bbox().right_top(), p(0, 0));

    let single = QPolygon::new(vec![p(5, 7)]);
    assert_eq!(single.get_centroid(), p(5, 7));
    assert_eq!(single.get_bbox().left_bottom(), p(5, 7));
    assert!(single.is_point_inside(&p(5, 7)));
    assert!(!single.is_point_inside(&p(5, 8)));

    let pair = QPolygon::new(vec![p(0, 0), p(2, 2)]);
    assert_eq!(pair.get_centroid(), p(1, 1));
    assert!(pair.is_point_inside(&p(1, 1)));
}
