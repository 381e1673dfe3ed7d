use sirpent::grids::square::SquareGrid;

#[test]
fn it_works() {}

#[test]
fn library_links() {
    assert_eq!(SquareGrid::new(1, 1).width, 1);
}
