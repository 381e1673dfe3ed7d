//! Grid geometry shared by the grid modules: integer helpers and the two
//! distance functions (Manhattan distance on squares, hexagonal distance on
//! axial coordinates). Each grid type states their metric laws on its cells.

use vstd::prelude::*;

pub mod square;

verus! {

/// Absolute value of a mathematical integer.
pub open spec fn int_abs(i: int) -> int {
    if i < 0 { -i } else { i }
}

/// The larger of two mathematical integers.
pub open spec fn int_max(a: int, b: int) -> int {
    if a >= b { a } else { b }
}

/// Whether `i` is a value of `isize`.
pub open spec fn in_isize(i: int) -> bool {
    isize::MIN <= i <= isize::MAX
}

/// Manhattan distance between two cells of a square grid.
pub open spec fn square_distance(a: (int, int), b: (int, int)) -> int {
    int_abs(a.0 - b.0) + int_abs(a.1 - b.1)
}

/// Distance between two cells of a hexagon grid in axial coordinates: the
/// number of steps between neighbouring hexagons needed to go from one to the other.
pub open spec fn hex_distance(a: (int, int), b: (int, int)) -> int {
    int_max(int_max(int_abs(a.0 - b.0), int_abs(a.1 - b.1)), int_abs((a.0 + a.1) - (b.0 + b.1)))
}

/// `hex_distance(a, b)` can be computed on `isize` coordinates without overflow:
/// every difference and sum that the computation forms fits in an `isize`.
pub open spec fn hex_distance_fits(a: (int, int), b: (int, int)) -> bool {
    &&& int_abs(a.0 - b.0) <= isize::MAX
    &&& int_abs(a.1 - b.1) <= isize::MAX
    &&& in_isize(a.0 + a.1)
    &&& in_isize(b.0 + b.1)
    &&& int_abs((a.0 + a.1) - (b.0 + b.1)) <= isize::MAX
}

/// Hexagonal distance of two `isize` cells, computed the way the grids do:
/// the largest of the three coordinate differences in absolute value.
pub(crate) fn hex_distance_exec(ax: isize, ay: isize, bx: isize, by: isize) -> (d: isize)
    requires
        hex_distance_fits((ax as int, ay as int), (bx as int, by as int)),
    ensures
        d as int == hex_distance((ax as int, ay as int), (bx as int, by as int)),
        d >= 0,
{
    let dx = ax - bx;
    let dy = ay - by;
    let dz = (ax + ay) - (bx + by);
    let xdist: isize = if dx < 0 { -dx } else { dx };
    let ydist: isize = if dy < 0 { -dy } else { dy };
    let zdist: isize = if dz < 0 { -dz } else { dz };
    let xy: isize = if xdist >= ydist { xdist } else { ydist };
    if xy >= zdist { xy } else { zdist }
}

} // verus!
