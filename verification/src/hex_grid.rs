//! A hexagon-shaped board of hexagons holding snake segments.

use vstd::prelude::*;
use uuid::Uuid;
use crate::grids::{hex_distance, hex_distance_exec, hex_distance_fits, in_isize, int_abs};
use crate::ident::new_uuid;

verus! {

/// The six directions in which a hexagon has a neighbour.
#[derive(Clone, Debug)]
pub enum HexDir {
    North,
    NorthEast,
    SouthEast,
    South,
    SouthWest,
    NorthWest,
}

/// The axial offset `(dx, dy)` of the neighbour in direction `d`.
pub open spec fn hex_offset(d: HexDir) -> (int, int) {
    match d {
        HexDir::North => (0, -1),
        HexDir::NorthEast => (1, -1),
        HexDir::SouthEast => (1, 0),
        HexDir::South => (0, 1),
        HexDir::SouthWest => (-1, 1),
        HexDir::NorthWest => (-1, 0),
    }
}

/// A cell of the board, in axial coordinates.
#[derive(PartialEq, Eq, Clone, Copy, Hash, Debug, Structural)]
pub struct HexVector {
    pub x: isize,
    pub y: isize,
}

impl View for HexVector {
    type V = (int, int);

    open spec fn view(&self) -> (int, int) {
        (self.x as int, self.y as int)
    }
}

/// The cell next to `v` in direction `d`.
pub open spec fn hex_neighbour(v: (int, int), d: HexDir) -> (int, int) {
    (v.0 + hex_offset(d).0, v.1 + hex_offset(d).1)
}

/// Whether `(x, y)` lies within `r` steps of the origin.
pub open spec fn in_ball(r: int, x: int, y: int) -> bool {
    -r <= x <= r && -r <= y <= r && int_abs(x + y) <= r
}

/// Strict lexicographic order on cells: by `x`, then by `y`.
pub open spec fn lex_lt(a: (int, int), b: (int, int)) -> bool {
    a.0 < b.0 || (a.0 == b.0 && a.1 < b.1)
}

/// Some element of `s` is the cell `p`.
pub open spec fn cells_have(s: Seq<HexVector>, p: (int, int)) -> bool {
    exists|i: int| 0 <= i < s.len() && #[trigger] s[i]@ == p
}

/// `ball_around` can build the ball of radius `r` around `c` on `isize`
/// coordinates: `2 r` and every cell of the ball fit in an `isize`.
pub open spec fn ball_fits(c: (int, int), r: int) -> bool {
    &&& 2 * r <= isize::MAX
    &&& in_isize(c.0 - r) && in_isize(c.0 + r)
    &&& in_isize(c.1 - r) && in_isize(c.1 + r)
}

/// The ball of radius `r` around `c`, listed without repetition in increasing
/// order: exactly the cells within distance `r` of `c`.
pub open spec fn is_ball(s: Seq<HexVector>, c: (int, int), r: int) -> bool {
    &&& forall|i: int| 0 <= i < s.len() ==> hex_distance(c, #[trigger] s[i]@) <= r
    &&& forall|i: int, j: int| 0 <= i < j < s.len() ==> lex_lt(#[trigger] s[i]@, #[trigger] s[j]@)
    &&& forall|p: (int, int)| hex_distance(c, p) <= r ==> #[trigger] cells_have(s, p)
}

/// The number of `y' < y` in `[-r, r]` for which `(x, y')` lies in the ball of radius `r`.
pub open spec fn row_count_upto(r: int, x: int, y: int) -> int
    decreases y + r,
{
    if y <= -r {
        0
    } else {
        row_count_upto(r, x, y - 1) + if int_abs(x + y - 1) <= r { 1int } else { 0int }
    }
}

/// The number of cells of row `x` in the ball of radius `r`.
pub open spec fn row_size(r: int, x: int) -> int {
    2 * r + 1 - int_abs(x)
}

/// The number of cells of the ball of radius `r` in the rows before `x`.
pub open spec fn rows_upto(r: int, x: int) -> int
    decreases x + r,
{
    if x <= -r {
        0
    } else {
        rows_upto(r, x - 1) + row_size(r, x - 1)
    }
}

/// The centred hexagonal number: how many cells lie within `r` steps of a cell.
pub open spec fn centred_hexagonal(r: int) -> int {
    3 * r * (r + 1) + 1
}

proof fn lemma_row_count(r: int, x: int, y: int)
    requires
        0 <= r,
        -r <= x <= r,
        -r <= y <= r + 1,
    ensures
        row_count_upto(r, x, y) == if x >= 0 {
            if y <= r - x { y + r } else { 2 * r + 1 - x }
        } else {
            if y <= -r - x { 0 } else { y + r + x }
        },
    decreases y + r,
{
    if y > -r {
        lemma_row_count(r, x, y - 1);
    }
}

proof fn lemma_rows_left(r: int, x: int)
    requires
        0 <= r,
        -r <= x <= 1,
    ensures
        2 * rows_upto(r, x) == 2 * (x + r) * (r + 1) + (x + r) * (x + r - 1),
    decreases x + r,
{
    if x > -r {
        lemma_rows_left(r, x - 1);
        let n = x + r;
        let prev = rows_upto(r, x - 1);
        assert(rows_upto(r, x) == prev + row_size(r, x - 1));
        assert(row_size(r, x - 1) == 2 * r + x);
        assert(2 * rows_upto(r, x) == 2 * (x + r) * (r + 1) + (x + r) * (x + r - 1)) by (nonlinear_arith)
            requires
                n == x + r,
                2 * prev == 2 * (n - 1) * (r + 1) + (n - 1) * (n - 2),
                rows_upto(r, x) == prev + 2 * r + x,
        ;
    } else {
        assert(2 * (x + r) * (r + 1) + (x + r) * (x + r - 1) == 0) by (nonlinear_arith)
            requires
                x + r == 0,
        ;
    }
}

proof fn lemma_rows_right(r: int, x: int)
    requires
        0 <= r,
        1 <= x <= r + 1,
    ensures
        2 * rows_upto(r, x) == 2 * (r + 1) * (r + 1) + (r + 1) * r + 2 * (x - 1) * (2 * r + 1) - (x - 1) * x,
    decreases x,
{
    if x == 1 {
        lemma_rows_left(r, 1);
        assert(2 * rows_upto(r, x) == 2 * (r + 1) * (r + 1) + (r + 1) * r + 2 * (x - 1) * (2 * r + 1) - (x - 1) * x) by (nonlinear_arith)
            requires
                x == 1,
                2 * rows_upto(r, 1) == 2 * (1 + r) * (r + 1) + (1 + r) * (1 + r - 1),
        ;
    } else {
        lemma_rows_right(r, x - 1);
        let m = x - 1;
        let prev = rows_upto(r, x - 1);
        assert(rows_upto(r, x) == prev + row_size(r, x - 1));
        assert(row_size(r, x - 1) == 2 * r + 2 - x);
        assert(2 * rows_upto(r, x) == 2 * (r + 1) * (r + 1) + (r + 1) * r + 2 * (x - 1) * (2 * r + 1) - (x - 1) * x)
            by (nonlinear_arith)
            requires
                m == x - 1,
                2 * prev == 2 * (r + 1) * (r + 1) + (r + 1) * r + 2 * (m - 1) * (2 * r + 1) - (m - 1) * m,
                rows_upto(r, x) == prev + 2 * r + 2 - x,
        ;
    }
}

proof fn lemma_rows_total(r: int)
    requires
        0 <= r,
    ensures
        rows_upto(r, r + 1) == centred_hexagonal(r),
{
    lemma_rows_right(r, r + 1);
    assert(2 * (r + 1) * (r + 1) + (r + 1) * r + 2 * r * (2 * r + 1) - r * (r + 1) == 2 * (3 * r * (r + 1) + 1))
        by (nonlinear_arith);
}

proof fn lemma_cells_have_push(s: Seq<HexVector>, v: HexVector, p: (int, int))
    ensures
        cells_have(s, p) ==> cells_have(s.push(v), p),
        cells_have(s.push(v), v@),
{
    if cells_have(s, p) {
        let i = choose|i: int| 0 <= i < s.len() && #[trigger] s[i]@ == p;
        assert(s.push(v)[i]@ == p);
    }
    assert(s.push(v)[s.len() as int]@ == v@);
}

impl HexVector {
    /// Hexagonal distance to `other`.
    pub fn distance(&self, other: &HexVector) -> (d: usize)
        requires
            hex_distance_fits(self@, other@),
        ensures
            d as int == hex_distance(self@, other@),
    {
        hex_distance_exec(self.x, self.y, other.x, other.y) as usize
    }

    /// The offset from `other` to this cell.
    pub fn subtract(&self, other: &HexVector) -> (d: HexVector)
        requires
            in_isize(self.x - other.x),
            in_isize(self.y - other.y),
        ensures
            d@ == (self.x - other.x, self.y - other.y),
    {
        HexVector { x: self.x - other.x, y: self.y - other.y }
    }

    /// The cell next to this one in `direction`.
    pub fn neighbour(&self, direction: &HexDir) -> (n: HexVector)
        requires
            in_isize(hex_neighbour(self@, *direction).0),
            in_isize(hex_neighbour(self@, *direction).1),
        ensures
            n@ == hex_neighbour(self@, *direction),
    {
        match *direction {
            HexDir::North => HexVector { x: self.x, y: self.y - 1 },
            HexDir::NorthEast => HexVector { x: self.x + 1, y: self.y - 1 },
            HexDir::SouthEast => HexVector { x: self.x + 1, y: self.y },
            HexDir::South => HexVector { x: self.x, y: self.y + 1 },
            HexDir::SouthWest => HexVector { x: self.x - 1, y: self.y + 1 },
            HexDir::NorthWest => HexVector { x: self.x - 1, y: self.y },
        }
    }

    /// The cells within `radius` steps of this one, row by row (increasing `x`,
    /// then increasing `y`): `3 radius (radius + 1) + 1` cells, each once.
    pub fn ball_around(&self, radius: usize) -> (ball: Vec<HexVector>)
        requires
            ball_fits(self@, radius as int),
        ensures
            is_ball(ball@, self@, radius as int),
            ball@.len() == centred_hexagonal(radius as int),
    {
        let ghost c = self@;
        let ghost rr = radius as int;
        let mut r: Vec<HexVector> = Vec::new();
        let sradius = radius as isize;
        let mut x: isize = -sradius;
        while x <= sradius
            invariant
                ball_fits(c, rr),
                c == self@,
                sradius as int == rr,
                rr >= 0,
                -rr <= x <= rr + 1,
                r@.len() == rows_upto(rr, x as int),
                forall|i: int|
                    0 <= i < r@.len() ==> in_ball(rr, #[trigger] r@[i]@.0 - c.0, r@[i]@.1 - c.1)
                        && r@[i]@.0 - c.0 < x,
                forall|i: int, j: int| 0 <= i < j < r@.len() ==> lex_lt(#[trigger] r@[i]@, #[trigger] r@[j]@),
                forall|a: int, b: int|
                    in_ball(rr, a, b) && a < x ==> #[trigger] cells_have(r@, (c.0 + a, c.1 + b)),
            decreases rr + 1 - x,
        {
            let ghost row_start = r@.len() as int;
            let mut y: isize = -sradius;
            while y <= sradius
                invariant
                    ball_fits(c, rr),
                    c == self@,
                    sradius as int == rr,
                    rr >= 0,
                    -rr <= x <= rr,
                    -rr <= y <= rr + 1,
                    row_start == rows_upto(rr, x as int),
                    r@.len() == row_start + row_count_upto(rr, x as int, y as int),
                    forall|i: int|
                        0 <= i < r@.len() ==> in_ball(rr, #[trigger] r@[i]@.0 - c.0, r@[i]@.1 - c.1)
                            && lex_lt((r@[i]@.0 - c.0, r@[i]@.1 - c.1), (x as int, y as int)),
                    forall|i: int, j: int| 0 <= i < j < r@.len() ==> lex_lt(#[trigger] r@[i]@, #[trigger] r@[j]@),
                    forall|a: int, b: int|
                        in_ball(rr, a, b) && lex_lt((a, b), (x as int, y as int))
                            ==> #[trigger] cells_have(r@, (c.0 + a, c.1 + b)),
                decreases rr + 1 - y,
            {
                let z: isize = x + y;
                let az: isize = if z < 0 { -z } else { z };
                if az <= sradius {
                    let v = HexVector { x: x + self.x, y: y + self.y };
                    let ghost old_r = r@;
                    r.push(v);
                    proof {
                        assert forall|a: int, b: int|
                            in_ball(rr, a, b) && lex_lt((a, b), (x as int, y as int + 1)) implies
                            #[trigger] cells_have(r@, (c.0 + a, c.1 + b)) by {
                            lemma_cells_have_push(old_r, v, (c.0 + a, c.1 + b));
                        }
                    }
                }
                y = y + 1;
            }
            proof {
                lemma_row_count(rr, x as int, rr + 1);
            }
            x = x + 1;
        }
        proof {
            lemma_rows_total(rr);
            assert forall|p: (int, int)| hex_distance(c, p) <= rr implies #[trigger] cells_have(r@, p) by {
                let a = p.0 - c.0;
                let b = p.1 - c.1;
                assert(in_ball(rr, a, b));
                assert(cells_have(r@, (c.0 + a, c.1 + b)));
            }
        }
        r
    }
}

impl HexVector {
    /// The half-open range `-radius..radius` from which each coordinate of a
    /// random cell within `radius` steps of the origin is drawn.
    pub fn draw_range(radius: usize) -> (range: (isize, isize))
        requires
            1 <= radius,
            2 * radius <= isize::MAX,
        ensures
            range.0 == -(radius as int),
            range.1 == radius as int,
            range.0 < range.1,
    {
        let r = radius as isize;
        (-r, r)
    }

    /// Takes a drawn cell `(x, y)` when it lies within `radius` steps of the
    /// origin, and refuses it otherwise; random cells are drawn until one is
    /// taken.
    pub fn accept(x: isize, y: isize, radius: usize) -> (v: Option<HexVector>)
        requires
            -(radius as int) <= x < radius,
            -(radius as int) <= y < radius,
            2 * radius <= isize::MAX,
        ensures
            match v {
                Some(c) => c.x == x && c.y == y && hex_distance((0, 0), (x as int, y as int)) <= radius,
                None => hex_distance((0, 0), (x as int, y as int)) > radius,
            },
    {
        let zero = HexVector { x: 0, y: 0 };
        let hv = HexVector { x: x, y: y };
        if zero.distance(&hv) <= radius {
            Some(hv)
        } else {
            None
        }
    }
}

/// What a cell of the board holds.
#[derive(PartialEq, Eq, Clone, Copy, Debug)]
pub enum Cell {
    /// Nothing.
    Empty,
    /// A segment of the snake with this identifier.
    Segment(Uuid),
}

/// A snake on a board of cells `V`: its identifier and its segments, head first.
#[derive(Clone, Debug)]
pub struct Snake<V> {
    pub growing: bool,
    pub uuid: Uuid,
    pub segments: Vec<V>,
}

/// The cells of `s` as a map from cell to content (for a cell that occurs more
/// than once, the content of one of its entries).
pub open spec fn pairs_map(s: Seq<(HexVector, Cell)>) -> Map<(int, int), Cell> {
    Map::new(
        |p: (int, int)| exists|i: int| 0 <= i < s.len() && (#[trigger] s[i]).0@ == p,
        |p: (int, int)| s[choose|i: int| 0 <= i < s.len() && (#[trigger] s[i]).0@ == p].1,
    )
}

/// No cell occurs twice in `s`.
pub open spec fn pairs_distinct(s: Seq<(HexVector, Cell)>) -> bool {
    forall|i: int, j: int| 0 <= i < j < s.len() ==> (#[trigger] s[i]).0@ != (#[trigger] s[j]).0@
}

/// The content of cell `p` of `m`, if `p` is a cell of `m`.
pub open spec fn map_get(m: Map<(int, int), Cell>, p: (int, int)) -> Option<Cell> {
    if m.dom().contains(p) { Some(m[p]) } else { None }
}

proof fn lemma_pairs_index(s: Seq<(HexVector, Cell)>, i: int)
    requires
        pairs_distinct(s),
        0 <= i < s.len(),
    ensures
        pairs_map(s).dom().contains(s[i].0@),
        pairs_map(s)[s[i].0@] == s[i].1,
{
    let p = s[i].0@;
    assert(exists|k: int| 0 <= k < s.len() && (#[trigger] s[k]).0@ == p);
    let k = choose|k: int| 0 <= k < s.len() && (#[trigger] s[k]).0@ == p;
    assert(k == i);
}

/// Finds the position of cell `v` in `board`, if it is there.
fn find_cell(board: &Vec<(HexVector, Cell)>, v: HexVector) -> (idx: Option<usize>)
    requires
        pairs_distinct(board@),
    ensures
        match idx {
            Some(i) => i < board@.len() && board@[i as int].0@ == v@ && pairs_map(board@).dom().contains(v@)
                && pairs_map(board@)[v@] == board@[i as int].1,
            None => !pairs_map(board@).dom().contains(v@),
        },
{
    let mut i: usize = 0;
    while i < board.len()
        invariant
            i <= board@.len(),
            pairs_distinct(board@),
            forall|k: int| 0 <= k < i ==> (#[trigger] board@[k]).0@ != v@,
        decreases board.len() - i,
    {
        if board[i].0 == v {
            proof {
                lemma_pairs_index(board@, i as int);
            }
            return Some(i);
        }
        i = i + 1;
    }
    None
}

/// The cell at offset `d` from `v`.
pub open spec fn shift(v: (int, int), d: (int, int)) -> (int, int) {
    (v.0 + d.0, v.1 + d.1)
}

/// After looking at the first `i` cells of `ball`, `r` holds, in order, the
/// offsets from `v` and the contents of those that are cells of `board`;
/// `idx` gives the position in `ball` of each entry of `r`.
spec fn local_progress(
    board: Map<(int, int), Cell>,
    v: (int, int),
    ball: Seq<HexVector>,
    r: Seq<(HexVector, Cell)>,
    idx: Seq<int>,
    i: int,
) -> bool {
    &&& idx.len() == r.len()
    &&& forall|k: int| 0 <= k < r.len() ==> {
        &&& 0 <= #[trigger] idx[k] < i
        &&& ball[idx[k]]@ == shift(v, r[k].0@)
        &&& board.dom().contains(ball[idx[k]]@)
        &&& board[ball[idx[k]]@] == r[k].1
    }
    &&& forall|a: int, b: int| 0 <= a < b < r.len() ==> #[trigger] idx[a] < #[trigger] idx[b]
    &&& forall|j: int| 0 <= j < i && board.dom().contains(#[trigger] ball[j]@) ==>
        exists|k: int| 0 <= k < r.len() && #[trigger] idx[k] == j
}

proof fn lemma_local_progress_step(
    board: Map<(int, int), Cell>,
    v: (int, int),
    ball: Seq<HexVector>,
    r: Seq<(HexVector, Cell)>,
    idx: Seq<int>,
    i: int,
    e: (HexVector, Cell),
    found: bool,
)
    requires
        local_progress(board, v, ball, r, idx, i),
        0 <= i < ball.len(),
        found ==> board.dom().contains(ball[i]@) && shift(v, e.0@) == ball[i]@ && board[ball[i]@] == e.1,
        !found ==> !board.dom().contains(ball[i]@),
    ensures
        found ==> local_progress(board, v, ball, r.push(e), idx.push(i), i + 1),
        !found ==> local_progress(board, v, ball, r, idx, i + 1),
{
    if found {
        let r2 = r.push(e);
        let idx2 = idx.push(i);
        assert forall|k: int| 0 <= k < r2.len() implies {
            &&& 0 <= #[trigger] idx2[k] < i + 1
            &&& ball[idx2[k]]@ == shift(v, r2[k].0@)
            &&& board.dom().contains(ball[idx2[k]]@)
            &&& board[ball[idx2[k]]@] == r2[k].1
        } by {
            if k < r.len() {
                assert(idx2[k] == idx[k]);
                assert(r2[k] == r[k]);
            }
        }
        assert forall|a: int, b: int| 0 <= a < b < r2.len() implies #[trigger] idx2[a] < #[trigger] idx2[b] by {
            if b < r.len() {
                assert(idx2[a] == idx[a] && idx2[b] == idx[b]);
            } else {
                assert(idx2[a] == idx[a]);
            }
        }
        assert forall|j: int| 0 <= j < i + 1 && board.dom().contains(#[trigger] ball[j]@) implies
            exists|k: int| 0 <= k < r2.len() && #[trigger] idx2[k] == j by {
            if j == i {
                assert(idx2[r.len() as int] == i);
            } else {
                let k = choose|k: int| 0 <= k < r.len() && #[trigger] idx[k] == j;
                assert(idx2[k] == idx[k]);
            }
        }
    }
}

proof fn lemma_local_done(
    board: Map<(int, int), Cell>,
    v: (int, int),
    view: int,
    ball: Seq<HexVector>,
    r: Seq<(HexVector, Cell)>,
    idx: Seq<int>,
)
    requires
        is_ball(ball, v, view),
        local_progress(board, v, ball, r, idx, ball.len() as int),
    ensures
        pairs_distinct(r),
        forall|d: (int, int)| #[trigger] pairs_map(r).dom().contains(d) <==> {
            &&& hex_distance((0, 0), d) <= view
            &&& board.dom().contains(shift(v, d))
        },
        forall|d: (int, int)| pairs_map(r).dom().contains(d) ==> #[trigger] pairs_map(r)[d] == board[shift(v, d)],
{
    assert forall|a: int, b: int| 0 <= a < b < r.len() implies (#[trigger] r[a]).0@ != (#[trigger] r[b]).0@ by {
        assert(idx[a] < idx[b]);
        assert(lex_lt(ball[idx[a]]@, ball[idx[b]]@));
    }
    assert forall|d: (int, int)| #[trigger] pairs_map(r).dom().contains(d) <==> {
        &&& hex_distance((0, 0), d) <= view
        &&& board.dom().contains(shift(v, d))
    } by {
        if pairs_map(r).dom().contains(d) {
            let k = choose|k: int| 0 <= k < r.len() && (#[trigger] r[k]).0@ == d;
            assert(hex_distance(v, ball[idx[k]]@) <= view);
        }
        let p = shift(v, d);
        if hex_distance((0, 0), d) <= view && board.dom().contains(p) {
            assert(hex_distance(v, p) <= view);
            assert(cells_have(ball, p));
            let j = choose|j: int| 0 <= j < ball.len() && #[trigger] ball[j]@ == p;
            let k = choose|k: int| 0 <= k < r.len() && #[trigger] idx[k] == j;
            assert(r[k].0@ == d);
        }
    }
    assert forall|d: (int, int)| pairs_map(r).dom().contains(d) implies #[trigger] pairs_map(r)[d] == board[shift(v, d)] by {
        let k = choose|k: int| 0 <= k < r.len() && (#[trigger] r[k]).0@ == d;
        lemma_pairs_index(r, k);
        let j = idx[k];
        assert(ball[j]@ == shift(v, r[k].0@));
        assert(board[ball[j]@] == r[k].1);
    }
}

/// A hexagon-shaped board: every cell within `radius` steps of the origin
/// holds a `Cell`. A player sees the cells within `view` steps of a cell.
pub struct HexGrid {
    width: isize,
    height: isize,
    view: usize,
    board: Vec<(HexVector, Cell)>,
}

impl HexGrid {
    /// The board, as a map from cell to content.
    pub closed spec fn board(&self) -> Map<(int, int), Cell> {
        pairs_map(self.board@)
    }

    /// The width of the grid.
    pub closed spec fn spec_width(&self) -> isize {
        self.width
    }

    /// The height of the grid.
    pub closed spec fn spec_height(&self) -> isize {
        self.height
    }

    /// How far around a cell `get_local_map` looks.
    pub closed spec fn spec_view(&self) -> usize {
        self.view
    }

    #[verifier::type_invariant]
    closed spec fn wf(&self) -> bool {
        pairs_distinct(self.board@)
    }

    /// A board of the given radius whose cells are all empty; its width and
    /// height are both `2 radius`, and a player sees five steps around.
    pub fn new(radius: usize) -> (g: HexGrid)
        requires
            2 * radius <= isize::MAX,
        ensures
            g.spec_width() == 2 * radius,
            g.spec_height() == 2 * radius,
            g.spec_view() == 5,
            forall|p: (int, int)| #[trigger] g.board().dom().contains(p) <==> hex_distance((0, 0), p) <= radius,
            forall|p: (int, int)| g.board().dom().contains(p) ==> #[trigger] g.board()[p] == Cell::Empty,
    {
        let width = 2 * radius as isize;
        let height = width;
        let view: usize = 5;
        let origin = HexVector { x: 0, y: 0 };
        let ball = origin.ball_around(radius);
        let mut board: Vec<(HexVector, Cell)> = Vec::new();
        let mut i: usize = 0;
        while i < ball.len()
            invariant
                i <= ball@.len(),
                is_ball(ball@, (0, 0), radius as int),
                board@.len() == i,
                forall|k: int| 0 <= k < i ==> (#[trigger] board@[k]).0 == ball@[k] && board@[k].1 == Cell::Empty,
            decreases ball.len() - i,
        {
            board.push((ball[i], Cell::Empty));
            i = i + 1;
        }
        assert(pairs_distinct(board@)) by {
            assert forall|j: int, k: int| 0 <= j < k < board@.len() implies
                (#[trigger] board@[j]).0@ != (#[trigger] board@[k]).0@ by {
                assert(lex_lt(ball@[j]@, ball@[k]@));
            }
        }
        let g = HexGrid { width: width, height: height, view: view, board: board };
        proof {
            assert forall|p: (int, int)| #[trigger] g.board().dom().contains(p) <==> hex_distance((0, 0), p) <= radius by {
                if hex_distance((0, 0), p) <= radius {
                    assert(cells_have(ball@, p));
                    let k = choose|k: int| 0 <= k < ball@.len() && #[trigger] ball@[k]@ == p;
                    assert(board@[k].0@ == p);
                }
                if g.board().dom().contains(p) {
                    let k = choose|k: int| 0 <= k < board@.len() && (#[trigger] board@[k]).0@ == p;
                    assert(ball@[k]@ == p);
                }
            }
            assert forall|p: (int, int)| g.board().dom().contains(p) implies #[trigger] g.board()[p] == Cell::Empty by {
                let k = choose|k: int| 0 <= k < board@.len() && (#[trigger] board@[k]).0@ == p;
            }
        }
        g
    }

    /// The width and the height, in that order.
    pub fn dimensions(&self) -> (dims: Vec<isize>)
        ensures
            dims@ == seq![self.spec_width(), self.spec_height()],
    {
        vec![self.width, self.height]
    }

    /// Whether `0 <= v.x < width` and `0 <= v.y < height`.
    pub fn is_within_bounds(&self, v: HexVector) -> (b: bool)
        ensures
            b == (0 <= v.x < self.spec_width() && 0 <= v.y < self.spec_height()),
    {
        v.x >= 0 && v.x < self.width && v.y >= 0 && v.y < self.height
    }

    /// The content of cell `v`, if `v` is a cell of the board.
    pub fn get_cell_at(&self, v: HexVector) -> (c: Option<Cell>)
        ensures
            c == map_get(self.board(), v@),
    {
        proof {
            use_type_invariant(self);
        }
        match find_cell(&self.board, v) {
            Some(i) => Some(self.board[i].1),
            None => None,
        }
    }

    /// Puts a new snake of one segment on cell `coord` if that cell is an
    /// empty cell of the board, and returns it; otherwise changes nothing.
    pub fn add_snake_at(&mut self, coord: HexVector) -> (s: Option<Snake<HexVector>>)
        ensures
            final(self).spec_width() == old(self).spec_width(),
            final(self).spec_height() == old(self).spec_height(),
            final(self).spec_view() == old(self).spec_view(),
            map_get(old(self).board(), coord@) == Some(Cell::Empty) ==> {
                &&& s matches Some(snake)
                &&& !snake.growing
                &&& snake.segments@ == seq![coord]
                &&& final(self).board() == old(self).board().insert(coord@, Cell::Segment(snake.uuid))
            },
            map_get(old(self).board(), coord@) != Some(Cell::Empty) ==> {
                &&& s is None
                &&& final(self).board() == old(self).board()
            },
    {
        proof {
            use_type_invariant(&*self);
        }
        let idx = find_cell(&self.board, coord);
        match idx {
            Some(i) => {
                match self.board[i].1 {
                    Cell::Empty => {},
                    Cell::Segment(_) => {
                        return None;
                    },
                }
                let id = new_uuid();
                let ghost old_board = self.board@;
                let mut board: Vec<(HexVector, Cell)> = Vec::new();
                std::mem::swap(&mut board, &mut self.board);
                board.set(i, (coord, Cell::Segment(id)));
                proof {
                    assert(pairs_distinct(board@)) by {
                        assert forall|j: int, k: int| 0 <= j < k < board@.len() implies
                            (#[trigger] board@[j]).0@ != (#[trigger] board@[k]).0@ by {
                            assert(old_board[j].0@ != old_board[k].0@);
                        }
                    }
                    let m_new = pairs_map(board@);
                    let m_old = pairs_map(old_board).insert(coord@, Cell::Segment(id));
                    assert forall|p: (int, int)| #[trigger] m_new.dom().contains(p) <==> m_old.dom().contains(p) by {
                        if m_old.dom().contains(p) && p != coord@ {
                            let k = choose|k: int| 0 <= k < old_board.len() && (#[trigger] old_board[k]).0@ == p;
                            assert(board@[k].0@ == p);
                        }
                        if m_new.dom().contains(p) {
                            let k = choose|k: int| 0 <= k < board@.len() && (#[trigger] board@[k]).0@ == p;
                            assert(old_board[k].0@ == p);
                        }
                        lemma_pairs_index(board@, i as int);
                    }
                    assert forall|p: (int, int)| m_new.dom().contains(p) implies #[trigger] m_new[p] == m_old[p] by {
                        let k = choose|k: int| 0 <= k < board@.len() && (#[trigger] board@[k]).0@ == p;
                        lemma_pairs_index(board@, k);
                        if k != i {
                            lemma_pairs_index(old_board, k);
                        }
                    }
                    assert(m_new =~= m_old);
                }
                self.board = board;
                Some(Snake { growing: false, uuid: id, segments: vec![coord] })
            },
            None => None,
        }
    }

    /// The cells of the board within `view` steps of `v`, keyed by their
    /// offset from `v`, each with its content.
    pub fn get_local_map(&self, v: HexVector) -> (local: Vec<(HexVector, Cell)>)
        requires
            ball_fits(v@, self.spec_view() as int),
        ensures
            pairs_distinct(local@),
            forall|d: (int, int)| #[trigger] pairs_map(local@).dom().contains(d) <==> {
                &&& hex_distance((0, 0), d) <= self.spec_view()
                &&& self.board().dom().contains(shift(v@, d))
            },
            forall|d: (int, int)| pairs_map(local@).dom().contains(d) ==>
                #[trigger] pairs_map(local@)[d] == self.board()[shift(v@, d)],
    {
        proof {
            use_type_invariant(self);
        }
        let ball = v.ball_around(self.view);
        let mut r: Vec<(HexVector, Cell)> = Vec::new();
        let ghost mut idx: Seq<int> = Seq::empty();
        let mut i: usize = 0;
        while i < ball.len()
            invariant
                i <= ball@.len(),
                pairs_distinct(self.board@),
                ball_fits(v@, self.view as int),
                is_ball(ball@, v@, self.view as int),
                local_progress(self.board(), v@, ball@, r@, idx, i as int),
            decreases ball.len() - i,
        {
            let w = ball[i];
            match find_cell(&self.board, w) {
                Some(k) => {
                    let cc = self.board[k].1;
                    let d = w.subtract(&v);
                    let ghost old_r = r@;
                    let ghost old_idx = idx;
                    r.push((d, cc));
                    proof {
                        idx = idx.push(i as int);
                        lemma_local_progress_step(self.board(), v@, ball@, old_r, old_idx, i as int, (d, cc), true);
                    }
                },
                None => {
                    proof {
                        lemma_local_progress_step(self.board(), v@, ball@, r@, idx, i as int, (w, Cell::Empty), false);
                    }
                },
            }
            i = i + 1;
        }
        proof {
            lemma_local_done(self.board(), v@, self.view as int, ball@, r@, idx);
        }
        r
    }
}

/// Distance between cells is zero exactly between a cell and itself.
pub proof fn hex_grid_identity_of_indiscernibles(v: HexVector, w: HexVector)
    ensures
        hex_distance(v@, v@) == 0,
        hex_distance(v@, w@) == 0 <==> v == w,
{
}

/// Distance between cells is symmetric.
pub proof fn hex_grid_symmetry(v: HexVector, w: HexVector)
    ensures
        hex_distance(v@, w@) == hex_distance(w@, v@),
{
}

/// Distance between cells obeys the triangle inequality.
pub proof fn hex_grid_triangle_inequality(u: HexVector, v: HexVector, w: HexVector)
    ensures
        hex_distance(u@, w@) <= hex_distance(u@, v@) + hex_distance(v@, w@),
{
}

/// Every neighbour of a cell is at distance one from it.
pub proof fn hex_grid_neighbour_adjacency(v: HexVector, d: HexDir)
    ensures
        hex_distance(v@, hex_neighbour(v@, d)) == 1,
{
}

} // verus!
