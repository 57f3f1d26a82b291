//! Distances and straight-line steps on integer coordinates.

use vstd::prelude::*;
use crate::units::{clamp_i32, clamp_to_i32};
use crate::tower::targeting::distance_sq;

verus! {

/// Whether `r` is the integer square root of `n`: the largest number whose
/// square is at most `n`.
pub open spec fn is_root(n: int, r: int) -> bool {
    r >= 0 && r * r <= n < (r + 1) * (r + 1)
}

/// The integer square root of `n`.
pub open spec fn root(n: int) -> int {
    choose|r: int| is_root(n, r)
}

/// A number has at most one integer square root.
pub proof fn lemma_root_unique(n: int, a: int, b: int)
    requires
        is_root(n, a),
        is_root(n, b),
    ensures
        a == b,
{
    if a < b {
        assert((a + 1) * (a + 1) <= b * b) by (nonlinear_arith)
            requires
                0 <= a + 1 <= b,
        ;
    } else if b < a {
        assert((b + 1) * (b + 1) <= a * a) by (nonlinear_arith)
            requires
                0 <= b + 1 <= a,
        ;
    }
}

/// Computes the integer square root of `n`.
pub fn int_sqrt(n: u128) -> (r: u128)
    ensures
        is_root(n as int, r as int),
        r == root(n as int),
        r < 0x1_0000_0000_0000_0000,
        n < 0x1_00_0000_0000_0000_0000 ==> r < 0x10_0000_0000,
{
    let mut low: u128 = 0;
    let mut high: u128 = 0x1_0000_0000_0000_0000;
    while high - low > 1
        invariant
            low < high <= 0x1_0000_0000_0000_0000,
            low * low <= n < high * high,
        decreases high - low,
    {
        let mid: u128 = low + (high - low) / 2;
        assert(mid * mid <= 0xffff_ffff_ffff_ffff * 0xffff_ffff_ffff_ffff) by (nonlinear_arith)
            requires
                0 <= mid <= 0xffff_ffff_ffff_ffff,
        ;
        if mid * mid <= n {
            low = mid;
        } else {
            high = mid;
        }
    }
    if n < 0x1_00_0000_0000_0000_0000 && low >= 0x10_0000_0000 {
        assert(low * low >= 0x10_0000_0000 * 0x10_0000_0000) by (nonlinear_arith)
            requires
                low >= 0x10_0000_0000,
        ;
    }
    proof {
        let c = choose|c: int| is_root(n as int, c);
        assert(is_root(n as int, low as int));
        lemma_root_unique(n as int, c, low as int);
    }
    low
}

/// The part of the difference `d` that is covered when `dist` out of a
/// whole distance of `len` is travelled, rounded towards zero.
pub open spec fn toward(d: int, dist: int, len: int) -> int {
    if d >= 0 {
        d * dist / len
    } else {
        -((-d) * dist / len)
    }
}

/// The position reached from `(x, y)` after `dist` thousandths of a unit
/// straight towards `(tx, ty)`. The step is not cut short at the target:
/// a step longer than the way goes past it. Where start and target lie
/// within one thousandth of each other there is no direction, and the
/// position stays.
pub open spec fn stepped_towards(x: i32, y: i32, tx: i32, ty: i32, dist: u64) -> (i32, i32) {
    let len = root(distance_sq(tx as int, ty as int, x as int, y as int));
    if len == 0 {
        (x, y)
    } else {
        (
            clamp_i32(x + toward(tx - x, dist as int, len)),
            clamp_i32(y + toward(ty - y, dist as int, len)),
        )
    }
}

fn part_toward(d: i64, dist: u64, len: u128) -> (r: i128)
    requires
        -0x1_0000_0000 <= d <= 0x1_0000_0000,
        0 < len < 0x10_0000_0000,
    ensures
        r == toward(d as int, dist as int, len as int),
        -0x1_0000_0000 * 0xffff_ffff_ffff_ffff <= r <= 0x1_0000_0000 * 0xffff_ffff_ffff_ffff,
{
    let size: u128 = if d >= 0 {
        d as u128
    } else {
        (-d) as u128
    };
    assert(size * dist <= 0x1_0000_0000 * 0xffff_ffff_ffff_ffff) by (nonlinear_arith)
        requires
            0 <= size <= 0x1_0000_0000,
            0 <= dist <= 0xffff_ffff_ffff_ffff,
    ;
    let part: u128 = size * (dist as u128) / len;
    if d >= 0 {
        part as i128
    } else {
        -(part as i128)
    }
}

/// Computes [`stepped_towards`].
pub fn step_towards(x: i32, y: i32, tx: i32, ty: i32, dist: u64) -> (p: (i32, i32))
    ensures
        p == stepped_towards(x, y, tx, ty, dist),
{
    let dx: i64 = tx as i64 - x as i64;
    let dy: i64 = ty as i64 - y as i64;
    assert(0 <= dx * dx <= 0x1_0000_0000 * 0x1_0000_0000 && 0 <= dy * dy <= 0x1_0000_0000
        * 0x1_0000_0000) by (nonlinear_arith)
        requires
            -0x1_0000_0000 <= dx <= 0x1_0000_0000,
            -0x1_0000_0000 <= dy <= 0x1_0000_0000,
    ;
    let square: u128 = (dx as i128 * dx as i128) as u128 + (dy as i128 * dy as i128) as u128;
    let len = int_sqrt(square);
    if len == 0 {
        (x, y)
    } else {
        let nx: i128 = x as i128 + part_toward(dx, dist, len);
        let ny: i128 = y as i128 + part_toward(dy, dist, len);
        (clamp_to_i32(nx), clamp_to_i32(ny))
    }
}

} // verus!
