//! Unit-direction rotations over the fixed-point scalar.
//!
//! A `QDir` stores the cosine and sine of its rotation angle as a vector.
//! Rotating a vector and projecting onto the direction axis are exact
//! fixed-point formulas over those two components. Composing a rotation by
//! an angle evaluates the cosine and sine of the angle with a truncated
//! polynomial after range reduction; the spec functions below define that
//! evaluation exactly over the raw integer model.

use vstd::prelude::*;
use crate::q64::{
    div_trunc, fx_add, fx_mul, fx_neg, fx_sub, Q64, FX_ONE_RAW,
};
use crate::qvec2::{v2_dot, v2_normalize, QVec2, V2i};

verus! {

/// Raw representation of pi.
pub const FX_PI_RAW: i64 = 13493037705;

/// Raw representation of two pi.
pub const FX_TWO_PI_RAW: i64 = 26986075409;

/// Raw representation of half pi.
pub const FX_HALF_PI_RAW: i64 = 6746518852;

/// Euclidean remainder of a raw angle modulo two pi, in `[0, 2*pi)`.
pub open spec fn angle_mod(a: int) -> int {
    if a >= 0 {
        a % (FX_TWO_PI_RAW as int)
    } else {
        let m = (-a) % (FX_TWO_PI_RAW as int);
        if m == 0 {
            0
        } else {
            FX_TWO_PI_RAW as int - m
        }
    }
}

/// Truncated cosine polynomial
/// `1 - t^2/2 + t^4/24 - t^6/720 + t^8/40320` in fixed point, for a
/// reduced angle in `[0, pi/2]`.
pub open spec fn cos_poly(t: int) -> int {
    let t2 = fx_mul(t, t);
    let t4 = fx_mul(t2, t2);
    let t6 = fx_mul(t4, t2);
    let t8 = fx_mul(t4, t4);
    fx_add(
        fx_sub(
            fx_add(fx_sub(FX_ONE_RAW as int, div_trunc(t2, 2)), div_trunc(t4, 24)),
            div_trunc(t6, 720),
        ),
        div_trunc(t8, 40320),
    )
}

/// Fixed-point cosine of a raw angle in radians.
pub open spec fn fx_cos(a: int) -> int {
    let r = angle_mod(a);
    let t = if r > FX_PI_RAW as int {
        FX_TWO_PI_RAW as int - r
    } else {
        r
    };
    if t > FX_HALF_PI_RAW as int {
        fx_neg(cos_poly(FX_PI_RAW as int - t))
    } else {
        cos_poly(t)
    }
}

/// Fixed-point sine of a raw angle in radians: the cosine shifted by a
/// quarter turn.
pub open spec fn fx_sin(a: int) -> int {
    fx_cos(fx_sub(a, FX_HALF_PI_RAW as int))
}

/// Rotation of a vector model by a direction model `(cos, sin)`.
pub open spec fn dir_rotate_vec(d: V2i, v: V2i) -> V2i {
    V2i {
        x: fx_sub(fx_mul(v.x, d.x), fx_mul(v.y, d.y)),
        y: fx_add(fx_mul(v.x, d.y), fx_mul(v.y, d.x)),
    }
}

/// A direction model composed with a further rotation by a raw angle.
pub open spec fn dir_rotated_by(d: V2i, angle: int) -> V2i {
    dir_rotate_vec(V2i { x: fx_cos(angle), y: fx_sin(angle) }, d)
}

/// The model of the identity direction.
pub open spec fn dir_identity() -> V2i {
    V2i { x: FX_ONE_RAW as int, y: 0 }
}

/// A unit rotation, stored as the cosine and sine of its angle.
#[derive(Clone, Copy, Debug, PartialEq, Eq, Structural)]
pub struct QDir {
    /// The direction vector `(cos, sin)`.
    pub dir: QVec2,
}

impl View for QDir {
    type V = V2i;

    open spec fn view(&self) -> V2i {
        self.dir@
    }
}

impl QDir {
    /// The identity rotation, pointing along the positive x axis.
    pub fn identity() -> (r: QDir)
        ensures
            r@ == dir_identity(),
    {
        QDir { dir: QVec2::new(Q64::one(), Q64::zero()) }
    }

    /// The direction of a vector; the zero vector yields the identity.
    pub fn new_from_vec(v: QVec2) -> (r: QDir)
        ensures
            r@ == v2_normalize(v@),
    {
        let len = v.length();
        if len.is_zero() {
            QDir::identity()
        } else {
            QDir { dir: QVec2::new(v.x.saturating_div(len), v.y.saturating_div(len)) }
        }
    }

    /// The direction of an angle in radians.
    pub fn new_from_angle(angle: Q64) -> (r: QDir)
        ensures
            r@ == (V2i { x: fx_cos(angle@), y: fx_sin(angle@) }),
    {
        QDir { dir: QVec2::new(q_cos(angle), q_sin(angle)) }
    }

    /// The direction as a vector.
    pub fn to_vec(self) -> (r: QVec2)
        ensures
            r@ == self@,
    {
        self.dir
    }

    /// Rotate a vector by this direction.
    pub fn rotate_vec(self, v: QVec2) -> (r: QVec2)
        ensures
            r@ == dir_rotate_vec(self@, v@),
    {
        QVec2::new(
            v.x.saturating_mul(self.dir.x).saturating_sub(v.y.saturating_mul(self.dir.y)),
            v.x.saturating_mul(self.dir.y).saturating_add(v.y.saturating_mul(self.dir.x)),
        )
    }

    /// The signed projection of a vector onto this direction's axis.
    pub fn projection_of(self, v: QVec2) -> (r: Q64)
        ensures
            r@ == v2_dot(v@, self@),
    {
        v.dot(self.dir)
    }

    /// Compose this rotation with a further rotation by an angle in
    /// radians.
    pub fn rotate(&mut self, angle: Q64)
        ensures
            final(self)@ == dir_rotated_by(old(self)@, angle@),
    {
        let d = QDir::new_from_angle(angle);
        self.dir = d.rotate_vec(self.dir);
    }
}

impl Default for QDir {
    /// The identity rotation.
    fn default() -> (r: QDir)
        ensures
            r@ == dir_identity(),
    {
        QDir::identity()
    }
}

/// Fixed-point cosine of an angle in radians.
pub fn q_cos(a: Q64) -> (r: Q64)
    ensures
        r@ == fx_cos(a@),
{
    let r: i64 = angle_mod_exec(a.raw);
    let t: i64 = if r > FX_PI_RAW {
        FX_TWO_PI_RAW - r
    } else {
        r
    };
    if t > FX_HALF_PI_RAW {
        cos_poly_exec(FX_PI_RAW - t).neg()
    } else {
        cos_poly_exec(t)
    }
}

/// Fixed-point sine of an angle in radians.
pub fn q_sin(a: Q64) -> (r: Q64)
    ensures
        r@ == fx_sin(a@),
{
    q_cos(a.saturating_sub(Q64 { raw: FX_HALF_PI_RAW }))
}

/// Euclidean remainder of a raw angle modulo two pi.
fn angle_mod_exec(a: i64) -> (r: i64)
    ensures
        r as int == angle_mod(a as int),
        0 <= r < FX_TWO_PI_RAW,
{
    if a >= 0 {
        ((a as u64) % (FX_TWO_PI_RAW as u64)) as i64
    } else {
        let mag: u64 = if a == i64::MIN {
            9223372036854775808u64
        } else {
            (-a) as u64
        };
        let m: u64 = mag % (FX_TWO_PI_RAW as u64);
        if m == 0 {
            0
        } else {
            FX_TWO_PI_RAW - (m as i64)
        }
    }
}

/// The truncated cosine polynomial on a reduced raw angle.
fn cos_poly_exec(t: i64) -> (r: Q64)
    requires
        0 <= t <= FX_HALF_PI_RAW,
    ensures
        r@ == cos_poly(t as int),
{
    let tq = Q64 { raw: t };
    let t2 = tq.saturating_mul(tq);
    proof {
        assert(t as int * (t as int) >= 0) by (nonlinear_arith)
            requires
                t >= 0,
        ;
    }
    let t4 = t2.saturating_mul(t2);
    proof {
        assert(t2.raw as int * (t2.raw as int) >= 0) by (nonlinear_arith)
            requires
                t2.raw >= 0,
        ;
    }
    let t6 = t4.saturating_mul(t2);
    proof {
        assert(t4.raw as int * (t2.raw as int) >= 0) by (nonlinear_arith)
            requires
                t4.raw >= 0,
                t2.raw >= 0,
        ;
    }
    let t8 = t4.saturating_mul(t4);
    proof {
        assert(t4.raw as int * (t4.raw as int) >= 0) by (nonlinear_arith)
            requires
                t4.raw >= 0,
        ;
    }
    let one = Q64::one();
    let a = one.saturating_sub(Q64 { raw: ((t2.raw as u64) / 2) as i64 });
    let b = a.saturating_add(Q64 { raw: ((t4.raw as u64) / 24) as i64 });
    let c = b.saturating_sub(Q64 { raw: ((t6.raw as u64) / 720) as i64 });
    c.saturating_add(Q64 { raw: ((t8.raw as u64) / 40320) as i64 })
}

} // verus!
