use array2d::Array2D;
use array2d::Index;
use array2d::Size;
use array2d::UnknownUnit;

type S = UnknownUnit;

#[test]
fn new_fills_every_cell() {
    let grid = Array2D::<u32, S>::new(Size::new(10, 10), 7);
    for y in 0..10 {
        for x in 0..10 {
            assert_eq!(Some(&7), grid.get(Index::new(x, y)));
        }
    }
}

#[test]
fn from_constructor_runs_per_coordinate() {
    let grid = Array2D::<usize, S>::from_constructor(Size::new(5, 5), |i: Index<S>| i.x * 10 + i.y);
    assert_eq!(23, *grid.index(Index::new(2, 3)));
}

#[test]
fn from_constructor_row_major_order() {
    let seen: std::cell::RefCell<Vec<(usize, usize)>> = std::cell::RefCell::new(Vec::new());
    let grid = Array2D::<usize, S>::from_constructor(Size::new(3, 2), |i: Index<S>| {
        seen.borrow_mut().push((i.x, i.y));
        i.x + 100 * i.y
    });
    assert_eq!(
        vec![(0, 0), (1, 0), (2, 0), (0, 1), (1, 1), (2, 1)],
        seen.into_inner()
    );
    assert_eq!(Some(&102), grid.get(Index::new(2, 1)));
}

#[test]
fn size_reports_logical_extent() {
    let grid = Array2D::<i32, S>::new(Size::new(50, 100), 0);
    assert_eq!(Size::new(50, 100), grid.size());
}

#[test]
fn index_range_covers_grid() {
    let grid = Array2D::<i32, S>::new(Size::new(48, 32), 1);
    let r = grid.index_range();
    assert_eq!(Index::new(0, 0), r.start);
    assert_eq!(Index::new(48, 32), r.end);
}

#[test]
fn indices_row_major() {
    let grid = Array2D::<i32, S>::new(Size::new(3, 4), 10);
    let expected: Vec<Index<S>> = vec![
        Index::new(0, 0),
        Index::new(1, 0),
        Index::new(2, 0),
        Index::new(0, 1),
        Index::new(1, 1),
        Index::new(2, 1),
        Index::new(0, 2),
        Index::new(1, 2),
        Index::new(2, 2),
        Index::new(0, 3),
        Index::new(1, 3),
        Index::new(2, 3),
    ];
    assert_eq!(expected, grid.indices());
}

#[test]
fn get_reads_generated_value() {
    let grid = Array2D::<usize, S>::from_constructor(Size::new(5, 8), |i: Index<S>| i.x * 10 + i.y);
    assert_eq!(Some(&36), grid.get(Index::new(3, 6)));
}

#[test]
fn get_out_of_bounds_is_none() {
    let grid = Array2D::<u8, S>::new(Size::new(48, 32), 0);
    assert_eq!(None, grid.get(Index::new(48, 0)));
    assert_eq!(None, grid.get(Index::new(0, 32)));
    assert_eq!(None, grid.get(Index::new(48, 32)));
    assert_eq!(None, grid.get(Index::new(usize::MAX, usize::MAX)));
}

#[test]
fn get_mut_writes_then_reads_back() {
    let mut grid = Array2D::<i32, S>::new(Size::new(10, 10), 0);
    *grid.get_mut(Index::new(3, 5)).unwrap() = 100;
    assert_eq!(100, *grid.index(Index::new(3, 5)));
}

#[test]
fn get_mut_out_of_bounds_is_none() {
    let mut grid = Array2D::<i32, S>::new(Size::new(4, 4), 0);
    assert!(grid.get_mut(Index::new(4, 0)).is_none());
    assert!(grid.get_mut(Index::new(0, 4)).is_none());
}

#[test]
fn round_trip_every_in_bounds_cell() {
    let mut grid = Array2D::<usize, S>::new(Size::new(6, 5), 0);
    for y in 0..5 {
        for x in 0..6 {
            let value = 1000 + 6 * y + x;
            *grid.get_mut(Index::new(x, y)).unwrap() = value;
            assert_eq!(Some(&value), grid.get(Index::new(x, y)));
        }
    }
}

#[test]
fn index_mut_direct_write() {
    let mut grid = Array2D::<i32, S>::new(Size::new(10, 10), 0);
    *grid.index_mut(Index::new(3, 8)) = 100;
    assert_eq!(100, *grid.index(Index::new(3, 8)));
}

#[test]
fn line_is_one_row() {
    let grid = Array2D::<usize, S>::from_constructor(Size::new(4, 5), |i: Index<S>| i.x * 10 + i.y);
    assert_eq!(Some(vec![2, 12, 22, 32].as_ref()), grid.line(2));
}

#[test]
fn line_out_of_bounds_is_none() {
    let grid = Array2D::<u8, S>::new(Size::new(4, 5), 0);
    assert_eq!(None, grid.line(5));
}

#[test]
fn line_mut_writes_into_row() {
    let mut grid = Array2D::<i32, S>::new(Size::new(3, 4), 0);
    let line = grid.line_mut(1).unwrap();
    line[2] = 100;
    assert_eq!(100, *grid.index(Index::new(2, 1)));
}

#[test]
fn zero_width_grid_has_empty_rows() {
    let grid = Array2D::<u8, S>::new(Size::new(0, 5), 0);
    assert_eq!(None, grid.get(Index::new(0, 0)));
    let row = grid.line(3).unwrap();
    assert!(row.is_empty());
    let mut it = grid.lines();
    let mut count = 0;
    while let Some(row) = it.next(&grid) {
        assert_eq!(0, row.len());
        count += 1;
    }
    assert_eq!(5, count);
}

#[test]
fn zero_area_grid() {
    let grid = Array2D::<u8, S>::new(Size::new(0, 0), 0);
    assert_eq!(None, grid.get(Index::new(0, 0)));
    assert_eq!(0, grid.indices().len());
    let mut it = grid.lines();
    assert!(it.next(&grid).is_none());
}
