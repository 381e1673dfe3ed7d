//! A grid of squares: four directions, Manhattan distance.

use vstd::prelude::*;
use crate::grids::{in_isize, int_abs, square_distance};

verus! {

/// The four directions in which a square cell has a neighbour.
#[derive(PartialEq, Eq, Clone, Copy, Hash, Debug, Structural)]
pub enum SquareDirection {
    North,
    East,
    South,
    West,
}

/// The offset `(dx, dy)` of the neighbour in direction `d`.
pub open spec fn square_offset(d: SquareDirection) -> (int, int) {
    match d {
        SquareDirection::North => (0, -1),
        SquareDirection::East => (1, 0),
        SquareDirection::South => (0, 1),
        SquareDirection::West => (-1, 0),
    }
}

/// The directions in the order in which `variants` lists them.
pub open spec fn square_variants() -> Seq<SquareDirection> {
    seq![SquareDirection::North, SquareDirection::East, SquareDirection::South, SquareDirection::West]
}

impl SquareDirection {
    /// All directions: north, east, south, west.
    pub fn variants() -> (v: Vec<SquareDirection>)
        ensures
            v@ == square_variants(),
    {
        vec![SquareDirection::North, SquareDirection::East, SquareDirection::South, SquareDirection::West]
    }
}

/// A cell of a square grid.
#[derive(PartialEq, Eq, Clone, Copy, Hash, Debug, Structural)]
pub struct SquareVector {
    pub x: isize,
    pub y: isize,
}

impl View for SquareVector {
    type V = (int, int);

    open spec fn view(&self) -> (int, int) {
        (self.x as int, self.y as int)
    }
}

/// The cell next to `v` in direction `d`.
pub open spec fn square_neighbour(v: (int, int), d: SquareDirection) -> (int, int) {
    (v.0 + square_offset(d).0, v.1 + square_offset(d).1)
}

/// `distance` computes without overflow: the distance itself fits in an `isize`.
pub open spec fn square_distance_fits(a: (int, int), b: (int, int)) -> bool {
    square_distance(a, b) <= isize::MAX
}

/// The neighbour of `v` in direction `d` has `isize` coordinates.
pub open spec fn square_neighbour_fits(v: (int, int), d: SquareDirection) -> bool {
    in_isize(square_neighbour(v, d).0) && in_isize(square_neighbour(v, d).1)
}

impl SquareVector {
    /// Manhattan distance to `other`.
    pub fn distance(&self, other: &SquareVector) -> (d: usize)
        requires
            square_distance_fits(self@, other@),
        ensures
            d as int == square_distance(self@, other@),
    {
        let dx = self.x - other.x;
        let dy = self.y - other.y;
        let xdist: isize = if dx < 0 { -dx } else { dx };
        let ydist: isize = if dy < 0 { -dy } else { dy };
        (xdist + ydist) as usize
    }

    /// The cell next to this one in `direction`.
    pub fn neighbour(&self, direction: &SquareDirection) -> (n: SquareVector)
        requires
            square_neighbour_fits(self@, *direction),
        ensures
            n@ == square_neighbour(self@, *direction),
    {
        match *direction {
            SquareDirection::North => SquareVector { x: self.x, y: self.y - 1 },
            SquareDirection::East => SquareVector { x: self.x + 1, y: self.y },
            SquareDirection::South => SquareVector { x: self.x, y: self.y + 1 },
            SquareDirection::West => SquareVector { x: self.x - 1, y: self.y },
        }
    }

    /// The neighbours of this cell, one per direction, in the order of `variants`.
    pub fn neighbours(&self) -> (ns: Vec<SquareVector>)
        requires
            forall|d: SquareDirection| square_neighbour_fits(self@, d),
        ensures
            ns@.len() == 4,
            forall|i: int| 0 <= i < 4 ==> #[trigger] ns@[i]@ == square_neighbour(self@, square_variants()[i]),
    {
        let variants = SquareDirection::variants();
        let mut ns: Vec<SquareVector> = Vec::new();
        let mut i: usize = 0;
        while i < variants.len()
            invariant
                variants@ == square_variants(),
                i <= variants.len(),
                ns@.len() == i,
                forall|d: SquareDirection| square_neighbour_fits(self@, d),
                forall|j: int| 0 <= j < i ==> #[trigger] ns@[j]@ == square_neighbour(self@, square_variants()[j]),
            decreases variants.len() - i,
        {
            ns.push(self.neighbour(&variants[i]));
            i = i + 1;
        }
        ns
    }
}

/// A rectangular grid of squares, `width` cells by `height` cells, whose
/// cells have coordinates `0 <= x < width`, `0 <= y < height`.
#[derive(PartialEq, Eq, Clone, Copy, Hash, Debug, Structural)]
pub struct SquareGrid {
    pub width: isize,
    pub height: isize,
}

impl SquareGrid {
    /// A grid of the given width and height.
    pub fn new(width: isize, height: isize) -> (g: SquareGrid)
        ensures
            g.width == width,
            g.height == height,
    {
        SquareGrid { width: width, height: height }
    }

    /// The width and the height, in that order.
    pub fn dimensions(&self) -> (dims: Vec<isize>)
        ensures
            dims@ == seq![self.width, self.height],
    {
        vec![self.width, self.height]
    }

    /// Whether `v` is a cell of this grid.
    pub fn is_within_bounds(&self, v: SquareVector) -> (b: bool)
        ensures
            b == (0 <= v.x < self.width && 0 <= v.y < self.height),
    {
        v.x >= 0 && v.x < self.width && v.y >= 0 && v.y < self.height
    }
}

/// Distance between square cells is zero exactly between a cell and itself.
pub proof fn square_identity_of_indiscernibles(v: SquareVector, w: SquareVector)
    ensures
        square_distance(v@, v@) == 0,
        square_distance(v@, w@) == 0 <==> v == w,
{
}

/// Distance between square cells is symmetric.
pub proof fn square_symmetry(v: SquareVector, w: SquareVector)
    ensures
        square_distance(v@, w@) == square_distance(w@, v@),
{
}

/// Distance between square cells obeys the triangle inequality.
pub proof fn square_triangle_inequality(u: SquareVector, v: SquareVector, w: SquareVector)
    ensures
        square_distance(u@, w@) <= square_distance(u@, v@) + square_distance(v@, w@),
{
}

/// Every neighbour of a square cell is at distance one from it.
pub proof fn square_neighbour_adjacency(v: SquareVector, d: SquareDirection)
    ensures
        square_distance(v@, square_neighbour(v@, d)) == 1,
{
}

/// The four neighbours of a square cell are four different cells.
pub proof fn square_neighbours_distinct(v: SquareVector, d: SquareDirection, e: SquareDirection)
    ensures
        d != e ==> square_neighbour(v@, d) != square_neighbour(v@, e),
{
}

} // verus!
