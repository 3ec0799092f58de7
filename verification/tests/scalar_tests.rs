use qphysics::q64::Q64;
use qphysics::qdir::{q_cos, q_sin, QDir};
use qphysics::qvec2::QVec2;

const ONE_RAW: i64 = 4294967296;

#[test]
fn constants_and_constructors() {
    assert_eq!(Q64::zero().to_raw(), 0);
    assert_eq!(Q64::one().to_raw(), ONE_RAW);
    assert_eq!(Q64::eps().to_raw(), 1);
    assert_eq!(Q64::from_int(3).to_raw(), 3 * ONE_RAW);
    assert_eq!(Q64::from_int(-10).to_raw(), -10 * ONE_RAW);
    assert_eq!(Q64::from_ratio(1, 10).to_raw(), 429496729);
    assert_eq!(Q64::from_ratio(1, 2).to_raw(), ONE_RAW / 2);
    assert_eq!(Q64::from_raw(42).to_raw(), 42);
}

#[test]
fn saturating_add_sub() {
    let a = Q64::from_int(2);
    let b = Q64::from_int(3);
    assert_eq!(a.saturating_add(b).to_raw(), 5 * ONE_RAW);
    assert_eq!(a.saturating_sub(b).to_raw(), -ONE_RAW);
    let max = Q64::from_raw(i64::MAX);
    assert_eq!(max.saturating_add(Q64::eps()).to_raw(), i64::MAX);
    let min = Q64::from_raw(i64::MIN);
    assert_eq!(min.saturating_sub(Q64::eps()).to_raw(), i64::MIN);
}

#[test]
fn saturating_mul_div() {
    let half = Q64::from_ratio(1, 2);
    assert_eq!(half.saturating_mul(half).to_raw(), ONE_RAW / 4);
    assert_eq!(Q64::from_int(6).saturating_mul(Q64::from_int(7)).to_raw(), 42 * ONE_RAW);
    assert_eq!(Q64::from_int(-6).saturating_mul(Q64::from_int(7)).to_raw(), -42 * ONE_RAW);
    assert_eq!(Q64::from_int(1).saturating_div(Q64::from_int(3)).to_raw(), 1431655765);
    assert_eq!(Q64::from_int(-1).saturating_div(Q64::from_int(3)).to_raw(), -1431655765);
    // division by zero saturates toward the dividend's sign instead of trapping
    assert_eq!(Q64::one().saturating_div(Q64::zero()).to_raw(), i64::MAX);
    assert_eq!(Q64::from_int(-1).saturating_div(Q64::zero()).to_raw(), i64::MIN);
    let max = Q64::from_raw(i64::MAX);
    assert_eq!(max.saturating_mul(Q64::from_int(2)).to_raw(), i64::MAX);
}

#[test]
fn recip_half_abs_neg() {
    assert_eq!(Q64::from_int(2).saturating_recip().to_raw(), ONE_RAW / 2);
    assert_eq!(Q64::from_int(3).half().to_raw(), 3 * ONE_RAW / 2);
    assert_eq!(Q64::from_int(-3).half().to_raw(), -(3 * ONE_RAW / 2));
    assert_eq!(Q64::from_int(-4).abs().to_raw(), 4 * ONE_RAW);
    assert_eq!(Q64::from_int(4).neg().to_raw(), -4 * ONE_RAW);
    assert_eq!(Q64::from_raw(i64::MIN).neg().to_raw(), i64::MAX);
    assert_eq!(Q64::from_raw(i64::MIN).abs().to_raw(), i64::MAX);
}

#[test]
fn sqrt_exact_and_nonpositive() {
    assert_eq!(Q64::from_int(4).saturating_sqrt().to_raw(), 2 * ONE_RAW);
    assert_eq!(Q64::from_int(9).saturating_sqrt().to_raw(), 3 * ONE_RAW);
    assert_eq!(Q64::one().saturating_sqrt().to_raw(), ONE_RAW);
    assert_eq!(Q64::zero().saturating_sqrt().to_raw(), 0);
    assert_eq!(Q64::from_int(-4).saturating_sqrt().to_raw(), 0);
    // sqrt(2) to fixed precision
    let r = Q64::from_int(2).saturating_sqrt().to_raw();
    let expected = 6074000999i64; // floor(sqrt(2) * 2^32)
    assert!((r - expected).abs() <= 1);
}

#[test]
fn comparisons_and_min_max() {
    let a = Q64::from_int(1);
    let b = Q64::from_int(2);
    assert!(a.lt(b));
    assert!(a.le(b));
    assert!(!b.le(a));
    assert!(Q64::zero().is_zero());
    assert!(!a.is_zero());
    assert_eq!(a.min(b), a);
    assert_eq!(a.max(b), b);
    assert_eq!(a, Q64::from_int(1));
}

#[test]
fn trig_fixed_points() {
    assert_eq!(q_cos(Q64::zero()).to_raw(), ONE_RAW);
    assert!(q_sin(Q64::zero()).to_raw().abs() < 1_000_000);
    let pi = Q64::from_raw(13493037705);
    assert!((q_cos(pi).to_raw() + ONE_RAW).abs() < 2_000_000);
    let half_pi = Q64::from_raw(6746518852);
    assert!((q_sin(half_pi).to_raw() - ONE_RAW).abs() < 2_000_000);
    // bounded results over a spread of angles
    for k in -20..20 {
        let a = Q64::from_int(k);
        assert!(q_cos(a).to_raw().abs() <= ONE_RAW + 2_000_000);
        assert!(q_sin(a).to_raw().abs() <= ONE_RAW + 2_000_000);
    }
}

#[test]
fn direction_rotation() {
    let id = QDir::identity();
    let v = QVec2::new(Q64::from_int(3), Q64::from_int(4));
    let r = id.rotate_vec(v);
    assert_eq!(r, v);
    assert_eq!(id.projection_of(v).to_raw(), 3 * ONE_RAW);
    assert_eq!(v.length().to_raw(), 5 * ONE_RAW);

    let d = QDir::new_from_vec(v);
    // (3/5, 4/5)
    assert_eq!(d.to_vec().x.to_raw(), 2576980377);
    assert_eq!(d.to_vec().y.to_raw(), 3435973836);
    // the zero vector normalizes to the identity direction
    let z = QDir::new_from_vec(QVec2::zero());
    assert_eq!(z.to_vec(), QVec2::new(Q64::one(), Q64::zero()));

    // composing by a quarter turn takes the x axis near the y axis
    let mut rot = QDir::identity();
    rot.rotate(Q64::from_raw(6746518852));
    assert!(rot.to_vec().x.to_raw().abs() < 2_000_000);
    assert!((rot.to_vec().y.to_raw() - ONE_RAW).abs() < 2_000_000);
}

#[test]
fn vector_arithmetic() {
    let a = QVec2::new(Q64::from_int(1), Q64::from_int(2));
    let b = QVec2::new(Q64::from_int(3), Q64::from_int(-4));
    assert_eq!(a.saturating_add(b), QVec2::new(Q64::from_int(4), Q64::from_int(-2)));
    assert_eq!(a.saturating_sub(b), QVec2::new(Q64::from_int(-2), Q64::from_int(6)));
    assert_eq!(a.neg(), QVec2::new(Q64::from_int(-1), Q64::from_int(-2)));
    assert_eq!(a.saturating_mul(b), QVec2::new(Q64::from_int(3), Q64::from_int(-8)));
    assert_eq!(a.saturating_mul_num(Q64::from_int(5)), QVec2::new(Q64::from_int(5), Q64::from_int(10)));
    assert_eq!(a.dot(b).to_raw(), -5 * ONE_RAW);
}
