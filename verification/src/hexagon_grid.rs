//! A hexagon-shaped grid of hexagons, in axial coordinates, centred on the origin.

use vstd::prelude::*;
use crate::grids::{hex_distance, hex_distance_exec, hex_distance_fits, in_isize};

verus! {

/// The six directions in which a hexagon has a neighbour.
#[derive(PartialEq, Eq, Clone, Copy, Hash, Debug, Structural)]
pub enum HexagonDir {
    North,
    NorthEast,
    SouthEast,
    South,
    SouthWest,
    NorthWest,
}

/// The axial offset `(dx, dy)` of the neighbour in direction `d`.
pub open spec fn hexagon_offset(d: HexagonDir) -> (int, int) {
    match d {
        HexagonDir::North => (0, -1),
        HexagonDir::NorthEast => (1, -1),
        HexagonDir::SouthEast => (1, 0),
        HexagonDir::South => (0, 1),
        HexagonDir::SouthWest => (-1, 1),
        HexagonDir::NorthWest => (-1, 0),
    }
}

/// The directions in the order in which `variants` lists them.
pub open spec fn hexagon_variants() -> Seq<HexagonDir> {
    seq![
        HexagonDir::North,
        HexagonDir::NorthEast,
        HexagonDir::SouthEast,
        HexagonDir::South,
        HexagonDir::SouthWest,
        HexagonDir::NorthWest,
    ]
}

impl HexagonDir {
    /// All six directions, clockwise from north.
    pub fn variants() -> (v: Vec<HexagonDir>)
        ensures
            v@ == hexagon_variants(),
    {
        vec![
            HexagonDir::North,
            HexagonDir::NorthEast,
            HexagonDir::SouthEast,
            HexagonDir::South,
            HexagonDir::SouthWest,
            HexagonDir::NorthWest,
        ]
    }
}

/// A cell of a hexagon grid, in axial coordinates.
#[derive(PartialEq, Eq, Clone, Copy, Hash, Debug, Structural)]
pub struct HexagonVector {
    pub x: isize,
    pub y: isize,
}

impl View for HexagonVector {
    type V = (int, int);

    open spec fn view(&self) -> (int, int) {
        (self.x as int, self.y as int)
    }
}

/// The cell next to `v` in direction `d`.
pub open spec fn hexagon_neighbour(v: (int, int), d: HexagonDir) -> (int, int) {
    (v.0 + hexagon_offset(d).0, v.1 + hexagon_offset(d).1)
}

/// The neighbour of `v` in direction `d` has `isize` coordinates.
pub open spec fn hexagon_neighbour_fits(v: (int, int), d: HexagonDir) -> bool {
    in_isize(hexagon_neighbour(v, d).0) && in_isize(hexagon_neighbour(v, d).1)
}

impl HexagonVector {
    /// Hexagonal distance to `other`.
    pub fn distance(&self, other: &HexagonVector) -> (d: usize)
        requires
            hex_distance_fits(self@, other@),
        ensures
            d as int == hex_distance(self@, other@),
    {
        hex_distance_exec(self.x, self.y, other.x, other.y) as usize
    }

    /// The cell next to this one in `direction`.
    pub fn neighbour(&self, direction: &HexagonDir) -> (n: HexagonVector)
        requires
            hexagon_neighbour_fits(self@, *direction),
        ensures
            n@ == hexagon_neighbour(self@, *direction),
    {
        match *direction {
            HexagonDir::North => HexagonVector { x: self.x, y: self.y - 1 },
            HexagonDir::NorthEast => HexagonVector { x: self.x + 1, y: self.y - 1 },
            HexagonDir::SouthEast => HexagonVector { x: self.x + 1, y: self.y },
            HexagonDir::South => HexagonVector { x: self.x, y: self.y + 1 },
            HexagonDir::SouthWest => HexagonVector { x: self.x - 1, y: self.y + 1 },
            HexagonDir::NorthWest => HexagonVector { x: self.x - 1, y: self.y },
        }
    }

    /// The six neighbours of this cell, in the order of `variants`.
    pub fn neighbours(&self) -> (ns: Vec<HexagonVector>)
        requires
            forall|d: HexagonDir| hexagon_neighbour_fits(self@, d),
        ensures
            ns@.len() == 6,
            forall|i: int| 0 <= i < 6 ==> #[trigger] ns@[i]@ == hexagon_neighbour(self@, hexagon_variants()[i]),
    {
        let variants = HexagonDir::variants();
        let mut ns: Vec<HexagonVector> = Vec::new();
        let mut i: usize = 0;
        while i < variants.len()
            invariant
                variants@ == hexagon_variants(),
                i <= variants.len(),
                ns@.len() == i,
                forall|d: HexagonDir| hexagon_neighbour_fits(self@, d),
                forall|j: int| 0 <= j < i ==> #[trigger] ns@[j]@ == hexagon_neighbour(self@, hexagon_variants()[j]),
            decreases variants.len() - i,
        {
            ns.push(self.neighbour(&variants[i]));
            i = i + 1;
        }
        ns
    }
}

/// A hexagon-shaped grid: the cells within `radius` steps of the origin.
#[derive(PartialEq, Eq, Clone, Copy, Hash, Debug, Structural)]
pub struct HexagonGrid {
    pub radius: usize,
}

impl HexagonGrid {
    /// The grid of the given radius.
    pub fn new(radius: usize) -> (g: HexagonGrid)
        ensures
            g.radius == radius,
    {
        HexagonGrid { radius: radius }
    }

    /// The radius, as the grid's single dimension.
    pub fn dimensions(&self) -> (dims: Vec<isize>)
        ensures
            dims@ == seq![self.radius as isize],
    {
        vec![self.radius as isize]
    }

    /// Whether `v` lies within `radius` steps of the origin.
    pub fn is_within_bounds(&self, v: HexagonVector) -> (b: bool)
        requires
            hex_distance_fits((0, 0), v@),
        ensures
            b == (hex_distance((0, 0), v@) <= self.radius),
    {
        HexagonVector { x: 0, y: 0 }.distance(&v) <= self.radius
    }
}

/// Distance between hexagon cells is zero exactly between a cell and itself.
pub proof fn hexagon_identity_of_indiscernibles(v: HexagonVector, w: HexagonVector)
    ensures
        hex_distance(v@, v@) == 0,
        hex_distance(v@, w@) == 0 <==> v == w,
{
}

/// Distance between hexagon cells is symmetric.
pub proof fn hexagon_symmetry(v: HexagonVector, w: HexagonVector)
    ensures
        hex_distance(v@, w@) == hex_distance(w@, v@),
{
}

/// Distance between hexagon cells obeys the triangle inequality.
pub proof fn hexagon_triangle_inequality(u: HexagonVector, v: HexagonVector, w: HexagonVector)
    ensures
        hex_distance(u@, w@) <= hex_distance(u@, v@) + hex_distance(v@, w@),
{
}

/// Every neighbour of a hexagon cell is at distance one from it.
pub proof fn hexagon_neighbour_adjacency(v: HexagonVector, d: HexagonDir)
    ensures
        hex_distance(v@, hexagon_neighbour(v@, d)) == 1,
{
}

/// The six neighbours of a hexagon cell are six different cells.
pub proof fn hexagon_neighbours_distinct(v: HexagonVector, d: HexagonDir, e: HexagonDir)
    ensures
        d != e ==> hexagon_neighbour(v@, d) != hexagon_neighbour(v@, e),
{
}

} // verus!
