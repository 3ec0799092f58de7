use qphysics::physics::{
    QCollisionFlag, QCollisionShape, QMotion, QObject, QPhysicsBody, QTransform,
};
use qphysics::pipeline::{
    apply_forces_qsystem, broad_phase_qsystem, collision_resolution_qsystem,
    integrate_positions_qsystem, integrate_velocities_qsystem, step,
    QObjectState, QPhysicsConfig, QPhysicsDebugConfig, QPhysicsWorld,
};
use qphysics::q64::Q64;
use qphysics::qvec2::QVec2;
use qphysics::shape::{QBbox, QPoint};

const ONE_RAW: i64 = 4294967296;
const TENTH_RAW: i64 = 429496729;

fn v(x: i64, y: i64) -> QVec2 {
    QVec2::new(Q64::from_int(x), Q64::from_int(y))
}

fn p(x: i64, y: i64) -> QPoint {
    QPoint::new(v(x, y))
}

fn boxed(lbx: i64, lby: i64, rtx: i64, rty: i64) -> QCollisionShape {
    QCollisionShape::Rectangle(QBbox::new(p(lbx, lby), p(rtx, rty)))
}

fn object(
    uuid: u64,
    body: QPhysicsBody,
    motion: QMotion,
    shape: QCollisionShape,
    flag: QCollisionFlag,
    transform: QTransform,
) -> QObjectState {
    QObjectState { object: QObject::new(uuid), body, motion, shape, flag, transform }
}

fn solid_default() -> QCollisionFlag {
    QCollisionFlag::default()
}

#[test]
fn static_versus_dynamic_resolution() {
    // a dynamic unit-mass box resting 0.1 units into a wide static floor
    let mut world = QPhysicsWorld::new(QPhysicsConfig::default());
    let falling = object(
        1,
        QPhysicsBody::dynamic_body(Q64::from_int(1), Q64::zero(), Q64::zero()),
        QMotion::default(),
        boxed(0, 0, 1, 1),
        solid_default(),
        QTransform::default(),
    );
    let floor_top = QVec2::new(Q64::from_int(10), Q64::from_ratio(1, 10));
    let floor = object(
        2,
        QPhysicsBody::static_body(Q64::zero(), Q64::zero()),
        QMotion::default(),
        QCollisionShape::Rectangle(QBbox::new_from_parts(v(-10, -2), floor_top)),
        solid_default(),
        QTransform::default(),
    );
    world.add_object(falling);
    world.add_object(floor);
    world.collision_pairs.push((QObject::new(1), QObject::new(2)));

    collision_resolution_qsystem(&mut world);

    // the dynamic body takes the full 0.1 displacement, straight up
    let dy = world.objects[0].transform.position.y.to_raw();
    assert_eq!(dy, TENTH_RAW);
    assert!(world.objects[0].transform.position.x.to_raw().abs() < 10_000);
    // the static floor contributes no displacement share and keeps its velocity
    assert_eq!(world.objects[1].transform.position, QVec2::zero());
    assert_eq!(world.objects[1].motion.velocity, QVec2::zero());
}

#[test]
fn equal_mass_elastic_swap() {
    // two unit-mass boxes meeting head-on along the x axis with restitution one
    let mut world = QPhysicsWorld::new(QPhysicsConfig::default());
    let left = object(
        1,
        QPhysicsBody::dynamic_body(Q64::from_int(1), Q64::from_int(1), Q64::zero()),
        QMotion::with_velocity(v(1, 0)),
        boxed(0, 0, 2, 2),
        solid_default(),
        QTransform::default(),
    );
    let right = object(
        2,
        QPhysicsBody::dynamic_body(Q64::from_int(1), Q64::from_int(1), Q64::zero()),
        QMotion::with_velocity(v(-1, 0)),
        boxed(1, 0, 3, 2),
        solid_default(),
        QTransform::default(),
    );
    world.add_object(left);
    world.add_object(right);
    world.collision_pairs.push((QObject::new(1), QObject::new(2)));

    collision_resolution_qsystem(&mut world);

    // the speeds swap exactly: the elastic-collision identity
    assert_eq!(world.objects[0].motion.velocity, v(-1, 0));
    assert_eq!(world.objects[1].motion.velocity, v(1, 0));
    // the positional correction splits evenly between the equal masses
    assert_eq!(world.objects[0].transform.position.x.to_raw(), -ONE_RAW / 2);
    assert_eq!(world.objects[1].transform.position.x.to_raw(), ONE_RAW / 2);
}

#[test]
fn heavier_body_moves_less() {
    // masses one and three: the positional correction is inverse-mass
    // weighted, so the light body takes three quarters of the separation
    // and the heavy body one quarter
    let mut world = QPhysicsWorld::new(QPhysicsConfig::default());
    let light = object(
        1,
        QPhysicsBody::dynamic_body(Q64::from_int(1), Q64::zero(), Q64::zero()),
        QMotion::default(),
        boxed(0, 0, 2, 2),
        solid_default(),
        QTransform::default(),
    );
    let heavy = object(
        2,
        QPhysicsBody::dynamic_body(Q64::from_int(3), Q64::zero(), Q64::zero()),
        QMotion::default(),
        boxed(1, 0, 3, 2),
        solid_default(),
        QTransform::default(),
    );
    world.add_object(light);
    world.add_object(heavy);
    world.collision_pairs.push((QObject::new(1), QObject::new(2)));

    collision_resolution_qsystem(&mut world);

    // separation (1, 0): light moves -0.75, heavy moves +0.25
    assert_eq!(world.objects[0].transform.position.x.to_raw(), -3221225472);
    assert_eq!(world.objects[1].transform.position.x.to_raw(), 1073741823);
    assert_eq!(world.objects[0].transform.position.y.to_raw(), 0);
    assert_eq!(world.objects[1].transform.position.y.to_raw(), 0);
}

#[test]
fn trigger_pairs_are_not_resolved() {
    // a trigger pair is detect-only: resolution leaves both bodies alone
    let mut world = QPhysicsWorld::new(QPhysicsConfig::default());
    let sensor = object(
        1,
        QPhysicsBody::dynamic_body(Q64::from_int(1), Q64::from_int(1), Q64::zero()),
        QMotion::with_velocity(v(1, 0)),
        boxed(0, 0, 2, 2),
        QCollisionFlag::trigger(1, 0xFFFFFFFF),
        QTransform::default(),
    );
    let other = object(
        2,
        QPhysicsBody::dynamic_body(Q64::from_int(1), Q64::from_int(1), Q64::zero()),
        QMotion::with_velocity(v(-1, 0)),
        boxed(1, 0, 3, 2),
        solid_default(),
        QTransform::default(),
    );
    world.add_object(sensor);
    world.add_object(other);
    world.collision_pairs.push((QObject::new(1), QObject::new(2)));

    collision_resolution_qsystem(&mut world);

    assert_eq!(world.objects[0].transform.position, QVec2::zero());
    assert_eq!(world.objects[1].transform.position, QVec2::zero());
    assert_eq!(world.objects[0].motion.velocity, v(1, 0));
    assert_eq!(world.objects[1].motion.velocity, v(-1, 0));
}

#[test]
fn static_body_invariance_over_steps() {
    let mut world = QPhysicsWorld::new(QPhysicsConfig::default());
    let anvil = object(
        1,
        QPhysicsBody::static_body(Q64::zero(), Q64::zero()),
        QMotion::default(),
        boxed(-1, -1, 1, 1),
        solid_default(),
        QTransform::default(),
    );
    let ball = object(
        2,
        QPhysicsBody::dynamic_body(Q64::from_int(1), Q64::zero(), Q64::zero()),
        QMotion::default(),
        boxed(0, 0, 1, 1),
        solid_default(),
        QTransform::default(),
    );
    world.add_object(anvil);
    world.add_object(ball);
    for _ in 0..5 {
        let _ = step(&mut world);
        // a static body never changes position or velocity
        assert_eq!(world.objects[0].transform.position, QVec2::zero());
        assert_eq!(world.objects[0].motion.velocity, QVec2::zero());
    }
    // while the dynamic body has fallen under gravity
    assert!(world.objects[1].transform.position.y.to_raw() < 0);
}

#[test]
fn gravity_and_integration() {
    let mut world = QPhysicsWorld::new(QPhysicsConfig::default());
    let ball = object(
        1,
        QPhysicsBody::dynamic_body(Q64::from_int(1), Q64::zero(), Q64::zero()),
        QMotion::default(),
        boxed(0, 0, 1, 1),
        solid_default(),
        QTransform::default(),
    );
    world.add_object(ball);
    apply_forces_qsystem(&mut world);
    assert_eq!(world.objects[0].motion.acceleration, v(0, -10));
    integrate_velocities_qsystem(&mut world);
    // v = a * dt = -10 * 0.1 = about -1
    let vy = world.objects[0].motion.velocity.y.to_raw();
    assert!((vy + ONE_RAW).abs() < 100, "vy {}", vy);
    integrate_positions_qsystem(&mut world);
    let py = world.objects[0].transform.position.y.to_raw();
    assert!((py + TENTH_RAW).abs() < 100, "py {}", py);
}

#[test]
fn layer_masking_excludes_pairs() {
    // geometric overlap, but the symmetric mask test fails
    let mut world = QPhysicsWorld::new(QPhysicsConfig::default());
    let a = object(
        1,
        QPhysicsBody::dynamic_body(Q64::from_int(1), Q64::zero(), Q64::zero()),
        QMotion::default(),
        boxed(0, 0, 2, 2),
        QCollisionFlag::solid(1, 2),
        QTransform::default(),
    );
    let b = object(
        2,
        QPhysicsBody::dynamic_body(Q64::from_int(1), Q64::zero(), Q64::zero()),
        QMotion::default(),
        boxed(1, 1, 3, 3),
        QCollisionFlag::solid(1, 2),
        QTransform::default(),
    );
    world.add_object(a);
    world.add_object(b);
    broad_phase_qsystem(&mut world);
    assert_eq!(world.collision_pairs.len(), 0);

    // the same geometry with matching masks produces the pair
    world.objects[0].flag = QCollisionFlag::solid(1, 1);
    world.objects[1].flag = QCollisionFlag::solid(1, 1);
    broad_phase_qsystem(&mut world);
    assert_eq!(world.collision_pairs.len(), 1);
    assert_eq!(world.collision_pairs[0].0.uuid, 1);
    assert_eq!(world.collision_pairs[0].1.uuid, 2);
}

#[test]
fn collision_event_transitions() {
    let mut world = QPhysicsWorld::new(QPhysicsConfig::default());
    // two static boxes so the bodies stay where they are put
    let a = object(
        1,
        QPhysicsBody::static_body(Q64::zero(), Q64::zero()),
        QMotion::default(),
        boxed(0, 0, 2, 2),
        solid_default(),
        QTransform::default(),
    );
    let b = object(
        2,
        QPhysicsBody::static_body(Q64::zero(), Q64::zero()),
        QMotion::default(),
        boxed(1, 1, 3, 3),
        solid_default(),
        QTransform::default(),
    );
    world.add_object(a);
    world.add_object(b);

    // frame one: the pair starts colliding
    let (collisions, triggers) = step(&mut world);
    assert_eq!(triggers.len(), 0);
    assert_eq!(collisions.len(), 1);
    assert!(collisions[0].is_started());
    assert_eq!(collisions[0].entities(), (QObject::new(1), QObject::new(2)));

    // frame two: still overlapping, the pair is ongoing
    let (collisions, _) = step(&mut world);
    assert_eq!(collisions.len(), 1);
    assert!(collisions[0].is_ongoing());

    // frame three: moved apart, exactly one ended event
    world.objects[1].transform.position = v(100, 0);
    let (collisions, _) = step(&mut world);
    assert_eq!(collisions.len(), 1);
    assert!(collisions[0].is_ended());
    assert_eq!(collisions[0].entities(), (QObject::new(1), QObject::new(2)));

    // frame four: no events at all, until a new start
    let (collisions, triggers) = step(&mut world);
    assert_eq!(collisions.len(), 0);
    assert_eq!(triggers.len(), 0);
}

#[test]
fn trigger_event_transitions() {
    let mut world = QPhysicsWorld::new(QPhysicsConfig::default());
    let a = object(
        1,
        QPhysicsBody::static_body(Q64::zero(), Q64::zero()),
        QMotion::default(),
        boxed(0, 0, 2, 2),
        QCollisionFlag::trigger(1, 0xFFFFFFFF),
        QTransform::default(),
    );
    let b = object(
        2,
        QPhysicsBody::static_body(Q64::zero(), Q64::zero()),
        QMotion::default(),
        boxed(1, 1, 3, 3),
        solid_default(),
        QTransform::default(),
    );
    world.add_object(a);
    world.add_object(b);

    let (collisions, triggers) = step(&mut world);
    // the pair goes to the trigger stream, never to both
    assert_eq!(collisions.len(), 0);
    assert_eq!(triggers.len(), 1);
    assert!(triggers[0].is_enter());
    assert_eq!(triggers[0].entities(), (QObject::new(1), QObject::new(2)));

    let (_, triggers) = step(&mut world);
    assert_eq!(triggers.len(), 1);
    assert!(triggers[0].is_stay());

    world.objects[1].transform.position = v(100, 0);
    let (collisions, triggers) = step(&mut world);
    assert_eq!(collisions.len(), 0);
    assert_eq!(triggers.len(), 1);
    assert!(triggers[0].is_exit());
}

#[test]
fn world_and_component_constructors() {
    let config = QPhysicsConfig::default();
    assert_eq!(config.gravity, v(0, -10));
    assert_eq!(config.time_step.to_raw(), TENTH_RAW);
    assert_eq!(config.velocity_iterations, 8);
    assert_eq!(config.position_iterations, 3);

    let debug = QPhysicsDebugConfig::default();
    assert!(!debug.show_colliders && !debug.show_velocity && !debug.show_contacts);

    let matrix = qphysics::pipeline::QCollisionMatrix::default();
    assert_eq!(matrix.layer_masks.get(&1), Some(&1));

    let body = QPhysicsBody::new(Q64::from_int(2), Q64::from_ratio(1, 2), Q64::zero());
    assert!(!body.is_static());
    assert_eq!(body.inverse_mass().to_raw(), ONE_RAW / 2);
    let anvil = QPhysicsBody::static_body(Q64::zero(), Q64::zero());
    assert!(anvil.is_static());
    assert_eq!(anvil.inverse_mass().to_raw(), 0);

    let motion = QMotion::new(v(1, 2), Q64::from_int(3), v(4, 5));
    assert_eq!(motion.velocity, v(1, 2));
    let spin = QMotion::with_angular_velocity(Q64::from_int(3));
    assert_eq!(spin.velocity, QVec2::zero());
    assert_eq!(spin.angular_velocity, Q64::from_int(3));

    let flag = QCollisionFlag::new(false, 4, 12);
    assert!(flag.can_collide_with(&QCollisionFlag::new(false, 8, 4)));
    assert!(!flag.can_collide_with(&QCollisionFlag::new(false, 16, 4)));

    let world = QPhysicsWorld::new(config);
    assert_eq!(world.objects.len(), 0);
    assert_eq!(world.collision_pairs.len(), 0);
}

#[test]
fn transform_applies_to_shapes() {
    let t = QTransform {
        position: v(10, 20),
        rotation: qphysics::qdir::QDir::identity(),
        scale: QVec2::new(Q64::from_int(2), Q64::from_int(2)),
    };
    // a point is scaled then translated under the identity rotation
    let moved = t.apply_to(&QCollisionShape::Point(p(1, 1)));
    match moved {
        QCollisionShape::Point(q) => assert_eq!(q, p(12, 22)),
        _ => panic!("transform must preserve the shape kind"),
    }
    // a circle's radius scales by the geometric mean of the scales
    let circle = QCollisionShape::Circle(qphysics::shape::QCircle::new(p(0, 0), Q64::from_int(3)));
    match t.apply_to(&circle) {
        QCollisionShape::Circle(c) => {
            assert_eq!(c.center(), p(10, 20));
            assert_eq!(c.radius(), Q64::from_int(6));
        },
        _ => panic!("transform must preserve the shape kind"),
    }
    // a degenerate scale clamps the radius to the smallest positive value
    let crush = QTransform {
        position: QVec2::zero(),
        rotation: qphysics::qdir::QDir::identity(),
        scale: QVec2::zero(),
    };
    match crush.apply_to(&circle) {
        QCollisionShape::Circle(c) => assert_eq!(c.radius(), Q64::eps()),
        _ => panic!("transform must preserve the shape kind"),
    }
    // rotation applies before scaling: a quarter turn of (1, 0) under
    // scale (2, 1) lands near (0, 1), not (0, 2)
    let quarter = QTransform {
        position: QVec2::zero(),
        rotation: qphysics::qdir::QDir::new_from_angle(Q64::from_raw(6746518852)),
        scale: QVec2::new(Q64::from_int(2), Q64::from_int(1)),
    };
    match quarter.apply_to(&QCollisionShape::Point(p(1, 0))) {
        QCollisionShape::Point(q) => {
            assert!(q.pos().x.to_raw().abs() < 4_000_000, "x {}", q.pos().x.to_raw());
            assert!((q.pos().y.to_raw() - 4294967296).abs() < 2_000_000, "y {}", q.pos().y.to_raw());
        },
        _ => panic!("transform must preserve the shape kind"),
    }
}
