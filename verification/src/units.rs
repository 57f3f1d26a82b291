//! Fixed-point units shared by the whole simulation.
//!
//! A world length of `1.0` is stored as `1000`, a duration of one second as
//! `1000` milliseconds, a rate of one shot per second as `1000`.

use vstd::prelude::*;

verus! {

/// Edge length of one grid cell, in thousandths of a world unit.
pub const CELL_SIZE: i64 = 32000;

/// Half of [`CELL_SIZE`]: the offset that makes cell centres snap to cells.
pub const HALF_CELL: i64 = 16000;

/// Milliseconds that stand for "never": the period of a rate of zero.
pub const NEVER: u64 = 0xffff_ffff_ffff_ffff;

/// The grid coordinate that a world coordinate falls into: the nearest cell
/// centre, held within the range of `i8`.
pub open spec fn cell_coord(v: int) -> int {
    let c = (v + HALF_CELL) / (CELL_SIZE as int);
    if c < -128 {
        -128
    } else if c > 127 {
        127
    } else {
        c
    }
}

/// Computes [`cell_coord`].
pub fn grid_coord(v: i64) -> (c: i8)
    ensures
        c == cell_coord(v as int),
{
    if v >= 127 * CELL_SIZE + HALF_CELL {
        127
    } else if v < -128 * CELL_SIZE - HALF_CELL {
        -128
    } else {
        let shifted: i64 = v + HALF_CELL;
        if shifted >= 0 {
            let q: i64 = shifted / CELL_SIZE;
            q as i8
        } else {
            // Floor division of a negative number by way of a positive one.
            let up: i64 = (-shifted + (CELL_SIZE - 1)) / CELL_SIZE;
            (-up) as i8
        }
    }
}

/// World coordinate of the centre of grid coordinate `c`.
pub open spec fn world_coord(c: int) -> int {
    c * CELL_SIZE
}

/// Computes [`world_coord`].
pub fn grid_to_world(c: i16) -> (v: i32)
    ensures
        v == world_coord(c as int),
{
    (c as i32) * 32000
}

/// Milliseconds between two events that happen `rate` thousandths of a
/// time per second; a rate of zero never fires.
pub open spec fn period_ms(rate: u32) -> u64 {
    if rate == 0 {
        NEVER
    } else {
        (1_000_000int / (rate as int)) as u64
    }
}

/// Computes [`period_ms`].
pub fn cooldown_ms(rate: u32) -> (ms: u64)
    ensures
        ms == period_ms(rate),
{
    if rate == 0 {
        NEVER
    } else {
        1_000_000u64 / (rate as u64)
    }
}

/// `value` reduced by `percent` hundredths of itself, never below zero.
pub open spec fn reduced(value: u32, percent: u32) -> u32 {
    let cut = (value as int) * (percent as int) / 100;
    if cut >= value {
        0u32
    } else {
        (value - cut) as u32
    }
}

/// Computes [`reduced`].
pub fn reduce_by_percent(value: u32, percent: u32) -> (r: u32)
    ensures
        r == reduced(value, percent),
        r <= value,
{
    assert((value as int) * (percent as int) <= 0xffff_ffff * 0xffff_ffff) by (nonlinear_arith)
        requires
            0 <= value <= 0xffff_ffff,
            0 <= percent <= 0xffff_ffff,
    ;
    let cut: u64 = (value as u64) * (percent as u64) / 100;
    if cut >= value as u64 {
        0
    } else {
        value - (cut as u32)
    }
}

/// `v` held within the range of `u64`.
pub open spec fn clamp_u64(v: int) -> u64 {
    if v < 0 {
        0
    } else if v > u64::MAX {
        u64::MAX
    } else {
        v as u64
    }
}

/// `v` held within the range of `i64`.
pub open spec fn clamp_i64(v: int) -> i64 {
    if v < i64::MIN {
        i64::MIN
    } else if v > i64::MAX {
        i64::MAX
    } else {
        v as i64
    }
}

/// `v` held within the range of `i32`.
pub open spec fn clamp_i32(v: int) -> i32 {
    if v < i32::MIN {
        i32::MIN
    } else if v > i32::MAX {
        i32::MAX
    } else {
        v as i32
    }
}

/// Computes [`clamp_i32`].
pub fn clamp_to_i32(v: i128) -> (r: i32)
    ensures
        r == clamp_i32(v as int),
{
    if v < i32::MIN as i128 {
        i32::MIN
    } else if v > i32::MAX as i128 {
        i32::MAX
    } else {
        v as i32
    }
}

} // verus!
