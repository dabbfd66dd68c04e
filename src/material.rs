use vstd::prelude::*;

verus! {

/// Whether a lattice coordinate falls in the low half of its cell, for a cell
/// size `uv`. `c` is the coordinate truncated toward zero and `positive` says
/// whether the coordinate itself is above zero: `(c % uv) * 2 < uv` when it
/// is, `(c % uv) * 2 < -uv` otherwise, with `%` taking the sign of `c`.
pub open spec fn low_half(c: int, positive: bool, uv: int) -> bool {
    let m = if c >= 0 {
        c % uv
    } else {
        -((-c) % uv)
    };
    if positive {
        m * 2 < uv
    } else {
        m * 2 < -uv
    }
}

/// The checker pattern's test for one axis: see `low_half`.
pub fn lattice_low_half(c: i32, positive: bool, uv: i32) -> (r: bool)
    requires
        uv > 0,
    ensures
        r == low_half(c as int, positive, uv as int),
{
    let m: i64 = (c as i64) % (uv as i64);
    if positive {
        m * 2 < uv as i64
    } else {
        m * 2 < -(uv as i64)
    }
}

/// Whether a checker material shows its first color at a point: the
/// per-axis tests of `low_half`, combined by exclusive or. `cell[a]` is the
/// point's coordinate on axis `a` truncated toward zero, `positive[a]` whether
/// that coordinate is above zero.
pub open spec fn shows_first(cell: [i32; 3], positive: [bool; 3], uv: int) -> bool {
    (low_half(cell[0] as int, positive[0], uv) != low_half(cell[1] as int, positive[1], uv))
        != low_half(cell[2] as int, positive[2], uv)
}

/// Picks the color of a checker material at a point: `true` for its first
/// color, `false` for its second.
pub fn checker_picks_first(cell: [i32; 3], positive: [bool; 3], uv: i32) -> (r: bool)
    requires
        uv > 0,
    ensures
        r == shows_first(cell, positive, uv as int),
{
    let a = lattice_low_half(cell[0], positive[0], uv);
    let b = lattice_low_half(cell[1], positive[1], uv);
    let c = lattice_low_half(cell[2], positive[2], uv);
    (a ^ b) ^ c
}

} // verus!
