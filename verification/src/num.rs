//! Bounded integer arithmetic for layout.
//!
//! Every resolved layout quantity (a coordinate, a size, a margin, a grow
//! factor) is kept within `[-COORD_LIMIT, COORD_LIMIT]`. The operations here
//! clamp their results back into that range, so a chain of layout steps can
//! never overflow an `i64` no matter what style values an author wrote.

use vstd::prelude::*;

verus! {

/// Largest magnitude any resolved layout quantity may take (2^60).
pub const COORD_LIMIT: i64 = 0x1000_0000_0000_0000;

/// Whether `x` is within the representable layout range.
pub open spec fn in_range(x: int) -> bool {
    -COORD_LIMIT <= x <= COORD_LIMIT
}

/// `x` clamped into the representable layout range.
pub open spec fn clip(x: int) -> int {
    if x < -COORD_LIMIT as int {
        -COORD_LIMIT as int
    } else if x > COORD_LIMIT as int {
        COORD_LIMIT as int
    } else {
        x
    }
}

/// Clamps `x` into the representable layout range.
pub fn clip_i64(x: i64) -> (r: i64)
    ensures
        r == clip(x as int),
{
    if x < -COORD_LIMIT {
        -COORD_LIMIT
    } else if x > COORD_LIMIT {
        COORD_LIMIT
    } else {
        x
    }
}

/// Clamped addition.
pub fn cadd(a: i64, b: i64) -> (r: i64)
    requires
        in_range(a as int),
        in_range(b as int),
    ensures
        r == clip(a + b),
        in_range(r as int),
{
    clip_i64(a + b)
}

/// Clamped subtraction.
pub fn csub(a: i64, b: i64) -> (r: i64)
    requires
        in_range(a as int),
        in_range(b as int),
    ensures
        r == clip(a - b),
        in_range(r as int),
{
    clip_i64(a - b)
}

/// `a * b / c` on non-negative operands, clamped into the layout range.
/// This is the proportional-share operation of the grow and shrink passes.
pub fn cmuldiv(a: i64, b: i64, c: i64) -> (r: i64)
    requires
        0 <= a,
        in_range(a as int),
        0 <= b,
        in_range(b as int),
        0 < c,
        in_range(c as int),
    ensures
        r == clip((a as int * b as int) / (c as int)),
        0 <= r,
{
    assert(a as u128 * b as u128 <= COORD_LIMIT as u128 * COORD_LIMIT as u128) by (
    nonlinear_arith)
        requires
            0 <= a as int <= COORD_LIMIT as int && 0 <= b as int <= COORD_LIMIT as int,
    ;
    let p: u128 = (a as u128) * (b as u128);
    let q: u128 = p / (c as u128);
    assert(q as int == (a as int * b as int) / (c as int) && 0 <= (a as int * b as int) / (
    c as int)) by (nonlinear_arith)
        requires
            0 <= a as int && 0 <= b as int && 0 < c as int && p as int == a as int * b as int && q
                as int == p as int / c as int,
    ;
    if q > COORD_LIMIT as u128 {
        COORD_LIMIT
    } else {
        q as i64
    }
}

/// Division rounding toward zero, for a positive divisor.
pub open spec fn spec_div0(a: int, d: int) -> int {
    if a >= 0 {
        a / d
    } else {
        0 - ((0 - a) / d)
    }
}

/// Division rounding toward zero.
pub fn div0(a: i64, d: i64) -> (r: i64)
    requires
        in_range(a as int),
        0 < d,
    ensures
        r == spec_div0(a as int, d as int),
        in_range(r as int),
{
    if a >= 0 {
        let q = (a as u64) / (d as u64);
        assert(q == a as int / d as int && a as int / d as int <= a as int && 0 <= a as int / d
            as int) by (nonlinear_arith)
            requires
                0 <= a as int && 0 < d as int && q == (a as int) / (d as int),
        ;
        q as i64
    } else {
        let m = 0 - a;
        let q = (m as u64) / (d as u64);
        assert(q == m as int / d as int && m as int / d as int <= m as int && 0 <= m as int / d
            as int) by (nonlinear_arith)
            requires
                0 <= m as int && 0 < d as int && q == (m as int) / (d as int),
        ;
        0 - (q as i64)
    }
}

/// Half of `a`, rounded toward zero.
pub fn half(a: i64) -> (r: i64)
    requires
        in_range(a as int),
    ensures
        r == spec_div0(a as int, 2),
        in_range(r as int),
{
    div0(a, 2)
}

} // verus!
