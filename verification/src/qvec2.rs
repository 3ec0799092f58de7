//! 2D vectors over the saturating fixed-point scalar.

use vstd::prelude::*;
use crate::q64::{
    fx_add, fx_div, fx_mul, fx_neg, fx_sqrt, fx_sub, Q64, FX_ONE_RAW,
};

verus! {

/// Mathematical model of a vector: the raw fixed-point coordinates.
pub ghost struct V2i {
    pub x: int,
    pub y: int,
}

/// Componentwise saturating addition on vector models.
pub open spec fn v2_add(a: V2i, b: V2i) -> V2i {
    V2i { x: fx_add(a.x, b.x), y: fx_add(a.y, b.y) }
}

/// Componentwise saturating subtraction on vector models.
pub open spec fn v2_sub(a: V2i, b: V2i) -> V2i {
    V2i { x: fx_sub(a.x, b.x), y: fx_sub(a.y, b.y) }
}

/// Componentwise saturating negation on vector models.
pub open spec fn v2_neg(a: V2i) -> V2i {
    V2i { x: fx_neg(a.x), y: fx_neg(a.y) }
}

/// Componentwise saturating multiplication on vector models.
pub open spec fn v2_mul(a: V2i, b: V2i) -> V2i {
    V2i { x: fx_mul(a.x, b.x), y: fx_mul(a.y, b.y) }
}

/// Scaling of a vector model by a scalar.
pub open spec fn v2_scale(a: V2i, k: int) -> V2i {
    V2i { x: fx_mul(a.x, k), y: fx_mul(a.y, k) }
}

/// Saturating dot product of two vector models.
pub open spec fn v2_dot(a: V2i, b: V2i) -> int {
    fx_add(fx_mul(a.x, b.x), fx_mul(a.y, b.y))
}

/// Length of a vector model: square root of its dot product with itself.
pub open spec fn v2_len(a: V2i) -> int {
    fx_sqrt(v2_dot(a, a))
}

/// Normalization of a vector model; the zero vector maps to the unit
/// x-axis vector.
pub open spec fn v2_normalize(a: V2i) -> V2i {
    if v2_len(a) == 0 {
        V2i { x: FX_ONE_RAW as int, y: 0 }
    } else {
        V2i { x: fx_div(a.x, v2_len(a)), y: fx_div(a.y, v2_len(a)) }
    }
}

/// A 2D vector of saturating fixed-point scalars.
#[derive(Clone, Copy, Debug, PartialEq, Eq, Structural)]
pub struct QVec2 {
    /// Horizontal component.
    pub x: Q64,
    /// Vertical component.
    pub y: Q64,
}

impl View for QVec2 {
    type V = V2i;

    open spec fn view(&self) -> V2i {
        V2i { x: self.x@, y: self.y@ }
    }
}

impl QVec2 {
    /// Build a vector from its two components.
    pub fn new(x: Q64, y: Q64) -> (r: QVec2)
        ensures
            r@ == (V2i { x: x@, y: y@ }),
    {
        QVec2 { x, y }
    }

    /// The zero vector.
    pub fn zero() -> (r: QVec2)
        ensures
            r@ == (V2i { x: 0, y: 0 }),
    {
        QVec2 { x: Q64::zero(), y: Q64::zero() }
    }

    /// The vector with both components one.
    pub fn one() -> (r: QVec2)
        ensures
            r@ == (V2i { x: FX_ONE_RAW as int, y: FX_ONE_RAW as int }),
    {
        QVec2 { x: Q64::one(), y: Q64::one() }
    }

    /// Componentwise saturating addition.
    pub fn saturating_add(self, other: QVec2) -> (r: QVec2)
        ensures
            r@ == v2_add(self@, other@),
    {
        QVec2 { x: self.x.saturating_add(other.x), y: self.y.saturating_add(other.y) }
    }

    /// Componentwise saturating subtraction.
    pub fn saturating_sub(self, other: QVec2) -> (r: QVec2)
        ensures
            r@ == v2_sub(self@, other@),
    {
        QVec2 { x: self.x.saturating_sub(other.x), y: self.y.saturating_sub(other.y) }
    }

    /// Componentwise saturating negation.
    pub fn neg(self) -> (r: QVec2)
        ensures
            r@ == v2_neg(self@),
    {
        QVec2 { x: self.x.neg(), y: self.y.neg() }
    }

    /// Componentwise saturating multiplication.
    pub fn saturating_mul(self, other: QVec2) -> (r: QVec2)
        ensures
            r@ == v2_mul(self@, other@),
    {
        QVec2 { x: self.x.saturating_mul(other.x), y: self.y.saturating_mul(other.y) }
    }

    /// Scale both components by a scalar, saturating.
    pub fn saturating_mul_num(self, k: Q64) -> (r: QVec2)
        ensures
            r@ == v2_scale(self@, k@),
    {
        QVec2 { x: self.x.saturating_mul(k), y: self.y.saturating_mul(k) }
    }

    /// Saturating dot product.
    pub fn dot(self, other: QVec2) -> (r: Q64)
        ensures
            r@ == v2_dot(self@, other@),
    {
        self.x.saturating_mul(other.x).saturating_add(self.y.saturating_mul(other.y))
    }

    /// Length of the vector.
    pub fn length(self) -> (r: Q64)
        ensures
            r@ == v2_len(self@),
    {
        self.dot(self).saturating_sqrt()
    }
}

} // verus!
