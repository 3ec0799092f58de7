//! Saturating signed fixed-point scalar.
//!
//! A `Q64` stores a signed value as a raw `i64` with 32 fractional bits, so
//! the represented value is `raw / 2^32`. Every arithmetic operation
//! saturates at the type bounds instead of overflowing or trapping; this is
//! the numeric-precision policy the whole geometry core is built on. The
//! spec functions in this module define each operation exactly over the raw
//! integer model, and every executable operation is proved equal to its spec.

use vstd::prelude::*;

verus! {

/// Raw representation of the value one: `2^32`.
pub const FX_ONE_RAW: i64 = 4294967296;

/// Clamp a mathematical integer into the `i64` range.
pub open spec fn fx_sat(x: int) -> int {
    if x > i64::MAX as int {
        i64::MAX as int
    } else if x < i64::MIN as int {
        i64::MIN as int
    } else {
        x
    }
}

/// Division truncating toward zero, for a positive divisor.
pub open spec fn div_trunc(p: int, q: int) -> int
    recommends
        q > 0,
{
    if p >= 0 {
        p / q
    } else {
        -((-p) / q)
    }
}

/// Division truncating toward zero, for any nonzero divisor.
pub open spec fn div_trunc_signed(p: int, q: int) -> int
    recommends
        q != 0,
{
    if q > 0 {
        div_trunc(p, q)
    } else {
        -div_trunc(p, -q)
    }
}

/// Saturating fixed-point addition on raw values.
pub open spec fn fx_add(a: int, b: int) -> int {
    fx_sat(a + b)
}

/// Saturating fixed-point subtraction on raw values.
pub open spec fn fx_sub(a: int, b: int) -> int {
    fx_sat(a - b)
}

/// Saturating fixed-point negation on raw values.
pub open spec fn fx_neg(a: int) -> int {
    fx_sat(-a)
}

/// Saturating fixed-point absolute value on raw values.
pub open spec fn fx_abs(a: int) -> int {
    if a < 0 {
        fx_sat(-a)
    } else {
        a
    }
}

/// Saturating fixed-point multiplication on raw values: the exact product
/// rescaled by `2^32`, truncated toward zero, clamped at the type bounds.
pub open spec fn fx_mul(a: int, b: int) -> int {
    fx_sat(div_trunc_signed_by_scale(a * b))
}

/// Truncating division of a raw double-width product by the scale `2^32`.
pub open spec fn div_trunc_signed_by_scale(p: int) -> int {
    div_trunc(p, FX_ONE_RAW as int)
}

/// Saturating fixed-point division on raw values. Division by zero
/// saturates toward the sign of the dividend instead of trapping.
pub open spec fn fx_div(a: int, b: int) -> int {
    if b == 0 {
        if a >= 0 {
            i64::MAX as int
        } else {
            i64::MIN as int
        }
    } else {
        fx_sat(div_trunc_signed(a * (FX_ONE_RAW as int), b))
    }
}

/// Floor of the square root of a natural number.
pub open spec fn sqrt_floor(n: nat) -> nat
    decreases n,
{
    if n == 0 {
        0
    } else {
        let r = sqrt_floor((n - 1) as nat);
        if (r + 1) * (r + 1) <= n {
            r + 1
        } else {
            r
        }
    }
}

/// Saturating fixed-point square root on raw values; nonpositive inputs
/// yield zero.
pub open spec fn fx_sqrt(a: int) -> int {
    if a <= 0 {
        0
    } else {
        sqrt_floor((a * (FX_ONE_RAW as int)) as nat) as int
    }
}

/// Fixed-point halving on raw values, truncating toward zero.
pub open spec fn fx_half(a: int) -> int {
    div_trunc(a, 2)
}

/// Smaller of two raw values.
pub open spec fn fx_min(a: int, b: int) -> int {
    if a <= b {
        a
    } else {
        b
    }
}

/// Larger of two raw values.
pub open spec fn fx_max(a: int, b: int) -> int {
    if a >= b {
        a
    } else {
        b
    }
}

/// A deterministic saturating fixed-point scalar with 32 fractional bits.
#[derive(Clone, Copy, Debug, PartialEq, Eq, Structural)]
pub struct Q64 {
    /// Raw representation: the value times `2^32`.
    pub raw: i64,
}

impl View for Q64 {
    type V = int;

    open spec fn view(&self) -> int {
        self.raw as int
    }
}

impl Q64 {
    /// The value zero.
    pub fn zero() -> (r: Q64)
        ensures
            r@ == 0,
    {
        Q64 { raw: 0 }
    }

    /// The value one.
    pub fn one() -> (r: Q64)
        ensures
            r@ == FX_ONE_RAW as int,
    {
        Q64 { raw: FX_ONE_RAW }
    }

    /// The smallest positive representable value, `2^-32`.
    pub fn eps() -> (r: Q64)
        ensures
            r@ == 1,
    {
        Q64 { raw: 1 }
    }

    /// Build a scalar from its raw representation.
    pub fn from_raw(raw: i64) -> (r: Q64)
        ensures
            r@ == raw as int,
    {
        Q64 { raw }
    }

    /// The raw representation of this scalar.
    pub fn to_raw(self) -> (r: i64)
        ensures
            r as int == self@,
    {
        self.raw
    }

    /// Build a scalar from an integer value, saturating at the type bounds.
    pub fn from_int(n: i64) -> (r: Q64)
        ensures
            r@ == fx_sat(n as int * (FX_ONE_RAW as int)),
    {
        let wide: i128 = (n as i128) * (FX_ONE_RAW as i128);
        Q64 { raw: saturate_i128(wide) }
    }

    /// Build a scalar approximating the ratio of two integers.
    pub fn from_ratio(num: i64, den: i64) -> (r: Q64)
        ensures
            r@ == fx_div(fx_sat(num as int * (FX_ONE_RAW as int)), fx_sat(
                den as int * (FX_ONE_RAW as int),
            )),
    {
        Q64::from_int(num).saturating_div(Q64::from_int(den))
    }

    /// Saturating addition.
    pub fn saturating_add(self, other: Q64) -> (r: Q64)
        ensures
            r@ == fx_add(self@, other@),
    {
        let s: i128 = self.raw as i128 + other.raw as i128;
        Q64 { raw: saturate_i128(s) }
    }

    /// Saturating subtraction.
    pub fn saturating_sub(self, other: Q64) -> (r: Q64)
        ensures
            r@ == fx_sub(self@, other@),
    {
        let s: i128 = self.raw as i128 - other.raw as i128;
        Q64 { raw: saturate_i128(s) }
    }

    /// Saturating negation.
    pub fn neg(self) -> (r: Q64)
        ensures
            r@ == fx_neg(self@),
    {
        if self.raw == i64::MIN {
            Q64 { raw: i64::MAX }
        } else {
            Q64 { raw: -self.raw }
        }
    }

    /// Saturating absolute value.
    pub fn abs(self) -> (r: Q64)
        ensures
            r@ == fx_abs(self@),
    {
        if self.raw < 0 {
            self.neg()
        } else {
            self
        }
    }

    /// Whether this scalar is strictly less than the other.
    pub fn lt(self, other: Q64) -> (r: bool)
        ensures
            r == (self@ < other@),
    {
        self.raw < other.raw
    }

    /// Whether this scalar is at most the other.
    pub fn le(self, other: Q64) -> (r: bool)
        ensures
            r == (self@ <= other@),
    {
        self.raw <= other.raw
    }

    /// Whether this scalar is zero.
    pub fn is_zero(self) -> (r: bool)
        ensures
            r == (self@ == 0),
    {
        self.raw == 0
    }

    /// Saturating fixed-point multiplication.
    pub fn saturating_mul(self, other: Q64) -> (r: Q64)
        ensures
            r@ == fx_mul(self@, other@),
    {
        proof {
            let ai = self.raw as int;
            let bi = other.raw as int;
            assert(ai * bi <= 9223372036854775808 * 9223372036854775808 && ai * bi
                >= -(9223372036854775808 * 9223372036854775808)) by (nonlinear_arith)
                requires
                    -9223372036854775808 <= ai <= 9223372036854775807,
                    -9223372036854775808 <= bi <= 9223372036854775807,
            ;
        }
        let prod: i128 = (self.raw as i128) * (other.raw as i128);
        let q: i128 = div_by_scale_i128(prod);
        Q64 { raw: saturate_i128(q) }
    }

    /// Saturating fixed-point division. Division by zero saturates toward
    /// the sign of the dividend.
    pub fn saturating_div(self, other: Q64) -> (r: Q64)
        ensures
            r@ == fx_div(self@, other@),
    {
        if other.raw == 0 {
            if self.raw >= 0 {
                Q64 { raw: i64::MAX }
            } else {
                Q64 { raw: i64::MIN }
            }
        } else {
            let num: i128 = (self.raw as i128) * (FX_ONE_RAW as i128);
            let q: i128 = div_trunc_i128(num, other.raw);
            Q64 { raw: saturate_i128(q) }
        }
    }

    /// Saturating reciprocal: one divided by this scalar.
    pub fn saturating_recip(self) -> (r: Q64)
        ensures
            r@ == fx_div(FX_ONE_RAW as int, self@),
    {
        Q64::one().saturating_div(self)
    }

    /// Half of this scalar, truncating toward zero.
    pub fn half(self) -> (r: Q64)
        ensures
            r@ == fx_half(self@),
    {
        if self.raw >= 0 {
            Q64 { raw: ((self.raw as u64) / 2) as i64 }
        } else if self.raw == i64::MIN {
            Q64 { raw: -4611686018427387904 }
        } else {
            let m: u64 = ((-self.raw) as u64) / 2;
            Q64 { raw: -(m as i64) }
        }
    }

    /// Saturating fixed-point square root; nonpositive inputs yield zero.
    pub fn saturating_sqrt(self) -> (r: Q64)
        ensures
            r@ == fx_sqrt(self@),
    {
        if self.raw <= 0 {
            Q64 { raw: 0 }
        } else {
            let v: u128 = (self.raw as u128) * (FX_ONE_RAW as u128);
            proof {
                assert(v < 79228162514264337593543950336) by (nonlinear_arith)
                    requires
                        v == self.raw as int * (FX_ONE_RAW as int),
                        0 < self.raw as int <= 9223372036854775807,
                ;
            }
            let s: u128 = isqrt_u128(v);
            proof {
                lemma_sqrt_floor_unique(v as nat, s as nat);
                assert(s * s <= v ==> s < 281474976710656) by (nonlinear_arith)
                    requires
                        v < 79228162514264337593543950336,
                ;
            }
            Q64 { raw: s as i64 }
        }
    }

    /// The smaller of two scalars.
    pub fn min(self, other: Q64) -> (r: Q64)
        ensures
            r@ == fx_min(self@, other@),
    {
        if self.raw <= other.raw {
            self
        } else {
            other
        }
    }

    /// The larger of two scalars.
    pub fn max(self, other: Q64) -> (r: Q64)
        ensures
            r@ == fx_max(self@, other@),
    {
        if self.raw >= other.raw {
            self
        } else {
            other
        }
    }
}

/// Truncating division of a double-width intermediate by the scale `2^32`.
fn div_by_scale_i128(p: i128) -> (q: i128)
    requires
        p != i128::MIN,
    ensures
        q as int == div_trunc_signed_by_scale(p as int),
{
    if p >= 0 {
        ((p as u128) / (FX_ONE_RAW as u128)) as i128
    } else {
        let m: u128 = ((-p) as u128) / (FX_ONE_RAW as u128);
        proof {
            assert(m <= (-(p as int)) / (FX_ONE_RAW as int));
        }
        -(m as i128)
    }
}

/// Truncating division of a double-width dividend by a nonzero divisor.
fn div_trunc_i128(p: i128, q: i64) -> (r: i128)
    requires
        q != 0,
        p != i128::MIN,
    ensures
        r as int == div_trunc_signed(p as int, q as int),
{
    let pm: u128 = if p >= 0 {
        p as u128
    } else {
        (-p) as u128
    };
    let qm: u128 = if q >= 0 {
        q as u128
    } else if q == i64::MIN {
        9223372036854775808u128
    } else {
        (-q) as u128
    };
    let m: u128 = pm / qm;
    proof {
        assert(m <= pm);
    }
    if (p < 0) != (q < 0) {
        -(m as i128)
    } else {
        m as i128
    }
}

/// Floor square root of a 128-bit value below `2^96`, by binary search.
fn isqrt_u128(v: u128) -> (r: u128)
    requires
        v < 79228162514264337593543950336,
    ensures
        r * r <= v,
        (r + 1) * (r + 1) > v,
{
    let mut lo: u128 = 0;
    let mut hi: u128 = 281474976710656;
    proof {
        assert((281474976710656int) * (281474976710656int) == 79228162514264337593543950336int);
    }
    while lo + 1 < hi
        invariant
            lo < hi,
            hi <= 281474976710656,
            lo * lo <= v,
            hi * hi > v,
        decreases hi - lo,
    {
        let mid: u128 = lo + (hi - lo) / 2;
        proof {
            assert(mid * mid < 79228162514264337593543950337) by (nonlinear_arith)
                requires
                    mid <= 281474976710656,
            ;
        }
        if mid * mid <= v {
            lo = mid;
        } else {
            hi = mid;
        }
    }
    lo
}

/// The floor square root is squeezed between consecutive squares.
pub proof fn lemma_sqrt_floor_bounds(n: nat)
    ensures
        sqrt_floor(n) * sqrt_floor(n) <= n,
        (sqrt_floor(n) + 1) * (sqrt_floor(n) + 1) > n,
    decreases n,
{
    let s = sqrt_floor(n);
    if n == 0 {
        assert(s * s <= n && (s + 1) * (s + 1) > n) by (nonlinear_arith)
            requires
                s == 0,
                n == 0,
        ;
    } else {
        lemma_sqrt_floor_bounds((n - 1) as nat);
        let r = sqrt_floor((n - 1) as nat);
        if (r + 1) * (r + 1) <= n {
            assert(s == r + 1);
            assert(s * s <= n && (s + 1) * (s + 1) > n) by (nonlinear_arith)
                requires
                    s == r + 1,
                    (r + 1) * (r + 1) <= n,
                    (n - 1) < (r + 1) * (r + 1),
                    n >= 1,
            ;
        } else {
            assert(s == r);
            assert(s * s <= n && (s + 1) * (s + 1) > n) by (nonlinear_arith)
                requires
                    s == r,
                    r * r <= n - 1,
                    (r + 1) * (r + 1) > n,
                    n >= 1,
            ;
        }
    }
}

/// Consecutive-square bounds determine the floor square root uniquely.
pub proof fn lemma_sqrt_floor_unique(n: nat, r: nat)
    requires
        r * r <= n,
        (r + 1) * (r + 1) > n,
    ensures
        r == sqrt_floor(n),
{
    lemma_sqrt_floor_bounds(n);
    let s = sqrt_floor(n);
    if r < s {
        assert((r + 1) * (r + 1) <= s * s) by (nonlinear_arith)
            requires
                r + 1 <= s,
        ;
    }
    if s < r {
        assert((s + 1) * (s + 1) <= r * r) by (nonlinear_arith)
            requires
                s + 1 <= r,
        ;
    }
}

/// Clamp a double-width intermediate into the `i64` range.
fn saturate_i128(x: i128) -> (r: i64)
    ensures
        r as int == fx_sat(x as int),
{
    if x > i64::MAX as i128 {
        i64::MAX
    } else if x < i64::MIN as i128 {
        i64::MIN
    } else {
        x as i64
    }
}

} // verus!
