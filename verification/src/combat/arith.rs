//! Truncating integer division and remainder, as Rust computes them.

use vstd::prelude::*;

verus! {

/// `a % b` with Rust's sign convention (the sign of `a`), for `b > 0`.
pub open spec fn trunc_rem(a: int, b: int) -> int {
    if a >= 0 { a % b } else { -((-a) % b) }
}

/// `a / b` rounded toward zero, for `b > 0`.
pub open spec fn trunc_div(a: int, b: int) -> int {
    if a >= 0 { a / b } else { -((-a) / b) }
}

/// `a % b` for `i32` operands with `b > 0`.
pub fn rem_i32(a: i32, b: i32) -> (r: i32)
    requires
        b > 0,
    ensures
        r == trunc_rem(a as int, b as int),
        -b < r < b,
{
    let a64 = a as i64;
    let b64 = b as i64;
    if a64 >= 0 {
        (a64 % b64) as i32
    } else {
        let m = (-a64) % b64;
        (-m) as i32
    }
}

/// `a / b` for `i32` operands with `b > 0`.
pub fn div_i32(a: i32, b: i32) -> (r: i32)
    requires
        b > 0,
    ensures
        r == trunc_div(a as int, b as int),
{
    let a64 = a as i64;
    let b64 = b as i64;
    if a64 >= 0 {
        (a64 / b64) as i32
    } else {
        let q = (-a64) / b64;
        assert(q <= -(a64 as int)) by (nonlinear_arith)
            requires q == (-(a64 as int)) / (b64 as int), b64 >= 1, a64 < 0;
        (-q) as i32
    }
}

} // verus!
