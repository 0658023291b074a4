//! Fixed-point conventions shared by the whole library.
use vstd::prelude::*;

verus! {

/// One whole unit, in millionths.
pub const ONE: i64 = 1_000_000;

/// Largest amount any chemical pool may hold.
pub const POOL_CAP: i64 = 1_000_000_000_000_000;

/// Integer division that rounds toward zero, as machine division does.
pub open spec fn trunc_div(a: int, d: int) -> int {
    if a >= 0 { a / d } else { -((-a) / d) }
}

pub open spec fn min_int(a: int, b: int) -> int {
    if a <= b { a } else { b }
}

pub open spec fn max_int(a: int, b: int) -> int {
    if a >= b { a } else { b }
}

pub open spec fn clamp_int(x: int, lo: int, hi: int) -> int {
    max_int(lo, min_int(x, hi))
}

/// Machine division rounding toward zero on a positive divisor.
pub fn div_toward_zero(a: i128, d: i128) -> (r: i128)
    requires
        d > 0,
        a > i128::MIN,
    ensures
        r == trunc_div(a as int, d as int),
{
    if a >= 0 {
        a / d
    } else {
        -((-a) / d)
    }
}

} // verus!
