//! A rectangular grid of hexagons in axial coordinates, whose distance is an `isize`.

use vstd::prelude::*;
use crate::grids::{hex_distance, hex_distance_exec, hex_distance_fits, in_isize};

verus! {

/// The six directions in which a hexagon has a neighbour.
#[derive(Clone, Debug)]
pub enum HexDir {
    North,
    NorthEast,
    SouthEast,
    South,
    SouthWest,
    NorthWest,
}

/// The axial offset `(dx, dy)` of the neighbour in direction `d`.
pub open spec fn hex_dir_offset(d: HexDir) -> (int, int) {
    match d {
        HexDir::North => (0, -1),
        HexDir::NorthEast => (1, -1),
        HexDir::SouthEast => (1, 0),
        HexDir::South => (0, 1),
        HexDir::SouthWest => (-1, 1),
        HexDir::NorthWest => (-1, 0),
    }
}

/// A cell of the grid, in axial coordinates.
#[derive(PartialEq, Eq, Clone, Copy, Debug, Structural)]
pub struct HexVector {
    pub x: isize,
    pub y: isize,
}

impl View for HexVector {
    type V = (int, int);

    open spec fn view(&self) -> (int, int) {
        (self.x as int, self.y as int)
    }
}

/// The cell next to `v` in direction `d`.
pub open spec fn hex_dir_neighbour(v: (int, int), d: HexDir) -> (int, int) {
    (v.0 + hex_dir_offset(d).0, v.1 + hex_dir_offset(d).1)
}

impl HexVector {
    /// Hexagonal distance to `other`.
    pub fn distance(&self, other: &HexVector) -> (d: isize)
        requires
            hex_distance_fits(self@, other@),
        ensures
            d as int == hex_distance(self@, other@),
    {
        hex_distance_exec(self.x, self.y, other.x, other.y)
    }

    /// The cell next to this one in `direction`.
    pub fn neighbour(&self, direction: HexDir) -> (n: HexVector)
        requires
            in_isize(hex_dir_neighbour(self@, direction).0),
            in_isize(hex_dir_neighbour(self@, direction).1),
        ensures
            n@ == hex_dir_neighbour(self@, direction),
    {
        match direction {
            HexDir::North => HexVector { x: self.x, y: self.y - 1 },
            HexDir::NorthEast => HexVector { x: self.x + 1, y: self.y - 1 },
            HexDir::SouthEast => HexVector { x: self.x + 1, y: self.y },
            HexDir::South => HexVector { x: self.x, y: self.y + 1 },
            HexDir::SouthWest => HexVector { x: self.x - 1, y: self.y + 1 },
            HexDir::NorthWest => HexVector { x: self.x - 1, y: self.y },
        }
    }
}

/// A grid of `width` by `height` hexagons, with cells `0 <= x < width`, `0 <= y < height`.
#[derive(Clone, Debug)]
pub struct HexGrid {
    width: isize,
    height: isize,
}

impl HexGrid {
    /// The width of the grid.
    pub closed spec fn spec_width(&self) -> isize {
        self.width
    }

    /// The height of the grid.
    pub closed spec fn spec_height(&self) -> isize {
        self.height
    }

    /// The width and the height, in that order.
    pub fn dimensions(&self) -> (dims: Vec<isize>)
        ensures
            dims@ == seq![self.spec_width(), self.spec_height()],
    {
        vec![self.width, self.height]
    }

    /// Whether `v` is a cell of this grid.
    pub fn is_within_bounds(&self, v: HexVector) -> (b: bool)
        ensures
            b == (0 <= v.x < self.spec_width() && 0 <= v.y < self.spec_height()),
    {
        v.x >= 0 && v.x < self.width && v.y >= 0 && v.y < self.height
    }
}

/// Distance between cells is zero exactly between a cell and itself.
pub proof fn hexgrid_identity_of_indiscernibles(v: HexVector, w: HexVector)
    ensures
        hex_distance(v@, v@) == 0,
        hex_distance(v@, w@) == 0 <==> v == w,
{
}

/// Distance between cells is symmetric.
pub proof fn hexgrid_symmetry(v: HexVector, w: HexVector)
    ensures
        hex_distance(v@, w@) == hex_distance(w@, v@),
{
}

/// Distance between cells obeys the triangle inequality.
pub proof fn hexgrid_triangle_inequality(u: HexVector, v: HexVector, w: HexVector)
    ensures
        hex_distance(u@, w@) <= hex_distance(u@, v@) + hex_distance(v@, w@),
{
}

/// Every neighbour of a cell is at distance one from it.
pub proof fn hexgrid_neighbour_adjacency(v: HexVector, d: HexDir)
    ensures
        hex_distance(v@, hex_dir_neighbour(v@, d)) == 1,
{
}

} // verus!
