use rand::Rng;
use quickcheck::quickcheck;
use sirpent::grids::square::{SquareDirection, SquareGrid, SquareVector};
use sirpent::hex_grid::{HexDir, HexGrid, HexVector, Cell};
use sirpent::hexagon_grid::{HexagonDir, HexagonGrid, HexagonVector};
use sirpent::hexgrid;

fn square(x: i32, y: i32) -> SquareVector {
    SquareVector { x: x as isize, y: y as isize }
}

fn square_dir(i: u8) -> SquareDirection {
    SquareDirection::variants()[(i % 4) as usize]
}

fn hexagon(x: i32, y: i32) -> HexagonVector {
    HexagonVector { x: x as isize, y: y as isize }
}

fn hexagon_dir(i: u8) -> HexagonDir {
    HexagonDir::variants()[(i % 6) as usize]
}

fn hex(x: i32, y: i32) -> HexVector {
    HexVector { x: x as isize, y: y as isize }
}

fn hex_dir(i: u8) -> HexDir {
    match i % 6 {
        0 => HexDir::North,
        1 => HexDir::NorthEast,
        2 => HexDir::SouthEast,
        3 => HexDir::South,
        4 => HexDir::SouthWest,
        _ => HexDir::NorthWest,
    }
}

fn hg(x: i32, y: i32) -> hexgrid::HexVector {
    hexgrid::HexVector { x: x as isize, y: y as isize }
}

fn hg_dir(i: u8) -> hexgrid::HexDir {
    match i % 6 {
        0 => hexgrid::HexDir::North,
        1 => hexgrid::HexDir::NorthEast,
        2 => hexgrid::HexDir::SouthEast,
        3 => hexgrid::HexDir::South,
        4 => hexgrid::HexDir::SouthWest,
        _ => hexgrid::HexDir::NorthWest,
    }
}

// Square grid.

fn square_identity_prop(x: i32, y: i32) -> bool {
    let v = square(x, y);
    v.distance(&v) == 0
}

#[test]
fn square_identity_of_indescernibles() {
    quickcheck(square_identity_prop as fn(i32, i32) -> bool);
}

fn square_triangle_prop(a: i32, b: i32, c: i32, d: i32, e: i32, f: i32) -> bool {
    let (u, v, w) = (square(a, b), square(c, d), square(e, f));
    u.distance(&w) <= u.distance(&v) + v.distance(&w)
}

#[test]
fn square_triangle_inequality() {
    quickcheck(square_triangle_prop as fn(i32, i32, i32, i32, i32, i32) -> bool);
}

fn square_symmetry_prop(a: i32, b: i32, c: i32, d: i32) -> bool {
    let (v, w) = (square(a, b), square(c, d));
    v.distance(&w) == w.distance(&v)
}

#[test]
fn square_symmetry() {
    quickcheck(square_symmetry_prop as fn(i32, i32, i32, i32) -> bool);
}

fn square_adjacency_prop(x: i32, y: i32, d: u8) -> bool {
    let v = square(x, y);
    v.distance(&v.neighbour(&square_dir(d))) == 1
}

#[test]
fn square_neighbour_adjacency() {
    quickcheck(square_adjacency_prop as fn(i32, i32, u8) -> bool);
}

#[test]
fn square_distance_values() {
    assert_eq!(square(0, 0).distance(&square(3, -4)), 7);
    assert_eq!(square(-2, 5).distance(&square(-2, 5)), 0);
}

#[test]
fn square_neighbours_in_order() {
    let ns = square(1, 1).neighbours();
    assert_eq!(ns, vec![square(1, 0), square(2, 1), square(1, 2), square(0, 1)]);
}

#[test]
fn square_grid_bounds() {
    let g = SquareGrid::new(3, 2);
    assert_eq!(g.dimensions(), vec![3, 2]);
    assert!(g.is_within_bounds(square(0, 0)));
    assert!(g.is_within_bounds(square(2, 1)));
    assert!(!g.is_within_bounds(square(3, 1)));
    assert!(!g.is_within_bounds(square(0, 2)));
    assert!(!g.is_within_bounds(square(-1, 0)));
}

// Hexagon grid.

fn hexagon_identity_prop(x: i32, y: i32) -> bool {
    let v = hexagon(x, y);
    v.distance(&v) == 0
}

#[test]
fn hexagon_grid_identity_of_indescernibles() {
    quickcheck(hexagon_identity_prop as fn(i32, i32) -> bool);
}

fn hexagon_triangle_prop(a: i32, b: i32, c: i32, d: i32, e: i32, f: i32) -> bool {
    let (u, v, w) = (hexagon(a, b), hexagon(c, d), hexagon(e, f));
    u.distance(&w) <= u.distance(&v) + v.distance(&w)
}

#[test]
fn hexagon_grid_triangle_inequality() {
    quickcheck(hexagon_triangle_prop as fn(i32, i32, i32, i32, i32, i32) -> bool);
}

fn hexagon_symmetry_prop(a: i32, b: i32, c: i32, d: i32) -> bool {
    let (v, w) = (hexagon(a, b), hexagon(c, d));
    v.distance(&w) == w.distance(&v)
}

#[test]
fn hexagon_grid_symmetry() {
    quickcheck(hexagon_symmetry_prop as fn(i32, i32, i32, i32) -> bool);
}

fn hexagon_adjacency_prop(x: i32, y: i32, d: u8) -> bool {
    let v = hexagon(x, y);
    v.distance(&v.neighbour(&hexagon_dir(d))) == 1
}

#[test]
fn hexagon_grid_neighbour_adjacency() {
    quickcheck(hexagon_adjacency_prop as fn(i32, i32, u8) -> bool);
}

#[test]
fn hexagon_distance_values() {
    assert_eq!(hexagon(0, 0).distance(&hexagon(2, -1)), 2);
    assert_eq!(hexagon(0, 0).distance(&hexagon(2, 1)), 3);
    assert_eq!(hexagon(1, -3).distance(&hexagon(-2, 4)), 7);
}

#[test]
fn hexagon_neighbours_in_order() {
    let ns = hexagon(0, 0).neighbours();
    assert_eq!(
        ns,
        vec![hexagon(0, -1), hexagon(1, -1), hexagon(1, 0), hexagon(0, 1), hexagon(-1, 1), hexagon(-1, 0)]
    );
}

#[test]
fn hexagon_grid_bounds() {
    let g = HexagonGrid::new(2);
    assert_eq!(g.dimensions(), vec![2]);
    assert!(g.is_within_bounds(hexagon(0, 0)));
    assert!(g.is_within_bounds(hexagon(2, -2)));
    assert!(!g.is_within_bounds(hexagon(2, 1)));
    assert!(!g.is_within_bounds(hexagon(-3, 0)));
}

// The rectangular hexagon grid.

fn hg_identity_prop(x: i32, y: i32) -> bool {
    let v = hg(x, y);
    v.distance(&v) == 0
}

#[test]
fn hexgrid_identity_of_indescernibles() {
    quickcheck(hg_identity_prop as fn(i32, i32) -> bool);
}

fn hg_triangle_prop(a: i32, b: i32, c: i32, d: i32, e: i32, f: i32) -> bool {
    let (u, v, w) = (hg(a, b), hg(c, d), hg(e, f));
    u.distance(&w) <= u.distance(&v) + v.distance(&w)
}

#[test]
fn hexgrid_triangle_inequality() {
    quickcheck(hg_triangle_prop as fn(i32, i32, i32, i32, i32, i32) -> bool);
}

fn hg_symmetry_prop(a: i32, b: i32, c: i32, d: i32) -> bool {
    let (v, w) = (hg(a, b), hg(c, d));
    v.distance(&w) == w.distance(&v)
}

#[test]
fn hexgrid_symmetry() {
    quickcheck(hg_symmetry_prop as fn(i32, i32, i32, i32) -> bool);
}

fn hg_adjacency_prop(x: i32, y: i32, d: u8) -> bool {
    let v = hg(x, y);
    v.distance(&v.neighbour(hg_dir(d))) == 1
}

#[test]
fn hexgrid_neighbour_adjacency() {
    quickcheck(hg_adjacency_prop as fn(i32, i32, u8) -> bool);
}

// The hexagon board.

fn hex_identity_prop(x: i32, y: i32) -> bool {
    let v = hex(x, y);
    v.distance(&v) == 0
}

#[test]
fn hex_grid_identity_of_indescernibles() {
    quickcheck(hex_identity_prop as fn(i32, i32) -> bool);
}

fn hex_triangle_prop(a: i32, b: i32, c: i32, d: i32, e: i32, f: i32) -> bool {
    let (u, v, w) = (hex(a, b), hex(c, d), hex(e, f));
    u.distance(&w) <= u.distance(&v) + v.distance(&w)
}

#[test]
fn hex_grid_triangle_inequality() {
    quickcheck(hex_triangle_prop as fn(i32, i32, i32, i32, i32, i32) -> bool);
}

fn hex_symmetry_prop(a: i32, b: i32, c: i32, d: i32) -> bool {
    let (v, w) = (hex(a, b), hex(c, d));
    v.distance(&w) == w.distance(&v)
}

#[test]
fn hex_grid_symmetry() {
    quickcheck(hex_symmetry_prop as fn(i32, i32, i32, i32) -> bool);
}

fn hex_adjacency_prop(x: i32, y: i32, d: u8) -> bool {
    let v = hex(x, y);
    v.distance(&v.neighbour(&hex_dir(d))) == 1
}

#[test]
fn hex_grid_neighbour_adjacency() {
    quickcheck(hex_adjacency_prop as fn(i32, i32, u8) -> bool);
}

fn ball_radius_prop(x: i32, y: i32, r: u8) -> bool {
    let v = hex(x, y);
    let r = (r % 100) as usize;
    for w in v.ball_around(r) {
        if v.distance(&w) > r {
            return false;
        }
    }
    true
}

#[test]
fn ball_radius() {
    quickcheck(ball_radius_prop as fn(i32, i32, u8) -> bool);
}

fn ball_point_count_prop(x: i32, y: i32, r: u8) -> bool {
    let v = hex(x, y);
    let r = (r % 100) as usize;
    v.ball_around(r).len() == 3 * r * (r + 1) + 1
}

#[test]
fn ball_point_count() {
    quickcheck(ball_point_count_prop as fn(i32, i32, u8) -> bool);
}

#[test]
fn ball_of_radius_one_in_order() {
    let ball = hex(10, -4).ball_around(1);
    assert_eq!(
        ball,
        vec![hex(9, -4), hex(9, -3), hex(10, -5), hex(10, -4), hex(10, -3), hex(11, -5), hex(11, -4)]
    );
}

#[test]
fn subtract_gives_offset() {
    assert_eq!(hex(3, -2).subtract(&hex(1, 5)), hex(2, -7));
}

#[test]
fn random_cells_are_drawn_and_accepted_within_the_radius() {
    let mut rng = rand::thread_rng();
    for radius in 1..20usize {
        let (low, high) = HexVector::draw_range(radius);
        assert_eq!((low, high), (-(radius as isize), radius as isize));
        for _ in 0..50 {
            let v = loop {
                let x = rng.gen_range(low..high);
                let y = rng.gen_range(low..high);
                if let Some(v) = HexVector::accept(x, y, radius) {
                    assert_eq!(v, HexVector { x, y });
                    break v;
                }
            };
            assert!(hex(0, 0).distance(&v) <= radius);
        }
    }
}

#[test]
fn accept_takes_exactly_the_cells_within_the_radius() {
    assert_eq!(HexVector::accept(1, 1, 2), Some(hex(1, 1)));
    assert_eq!(HexVector::accept(-2, 1, 2), Some(hex(-2, 1)));
    // x + y = 3 is three steps away.
    assert_eq!(HexVector::accept(1, 2, 3), Some(hex(1, 2)));
    assert_eq!(HexVector::accept(-1, -1, 1), None);
    assert_eq!(HexVector::accept(-2, -1, 2), None);
    assert_eq!(HexVector::accept(0, 0, 1), Some(hex(0, 0)));
}

#[test]
fn board_starts_empty() {
    let g = HexGrid::new(2);
    assert_eq!(g.dimensions(), vec![4, 4]);
    assert_eq!(g.get_cell_at(hex(0, 0)), Some(Cell::Empty));
    assert_eq!(g.get_cell_at(hex(2, -2)), Some(Cell::Empty));
    assert_eq!(g.get_cell_at(hex(2, 1)), None);
    assert!(g.is_within_bounds(hex(3, 3)));
    assert!(!g.is_within_bounds(hex(4, 0)));
}

#[test]
fn add_snake_takes_an_empty_cell_once() {
    let mut g = HexGrid::new(2);
    let snake = g.add_snake_at(hex(1, 0)).expect("the cell is empty");
    assert!(!snake.growing);
    assert_eq!(snake.segments, vec![hex(1, 0)]);
    assert_eq!(g.get_cell_at(hex(1, 0)), Some(Cell::Segment(snake.uuid)));
    assert!(g.add_snake_at(hex(1, 0)).is_none());
    assert!(g.add_snake_at(hex(5, 5)).is_none());
    assert_eq!(g.get_cell_at(hex(0, 0)), Some(Cell::Empty));
}

#[test]
fn local_map_is_relative_to_the_cell() {
    let mut g = HexGrid::new(2);
    let snake = g.add_snake_at(hex(-1, 0)).unwrap();
    let local = g.get_local_map(hex(1, 0));
    // Every cell of the radius-2 board lies within 5 steps of (1, 0).
    assert_eq!(local.len(), 19);
    let at = |dx: isize, dy: isize| local.iter().find(|(d, _)| d.x == dx && d.y == dy).map(|(_, c)| *c);
    assert_eq!(at(-2, 0), Some(Cell::Segment(snake.uuid)));
    assert_eq!(at(0, 0), Some(Cell::Empty));
    assert_eq!(at(2, 0), None);
}
