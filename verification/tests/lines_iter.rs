use array2d::Array2D;
use array2d::Index;
use array2d::IndexRange;
use array2d::Lines;
use array2d::Size;
use array2d::UnknownUnit;

type S = UnknownUnit;

#[test]
fn lines_yields_every_row_in_order() {
    let grid =
        Array2D::<usize, S>::from_constructor(Size::new(4, 6), |i: Index<S>| i.x * 10 + i.y);
    let mut rows: Vec<Vec<usize>> = Vec::new();
    let mut it = grid.lines();
    while let Some(row) = it.next(&grid) {
        rows.push(row.to_vec());
    }
    assert_eq!(
        vec![
            vec![0, 10, 20, 30],
            vec![1, 11, 21, 31],
            vec![2, 12, 22, 32],
            vec![3, 13, 23, 33],
            vec![4, 14, 24, 34],
            vec![5, 15, 25, 35],
        ],
        rows
    );
}

#[test]
fn lines_terminates_after_height_rows() {
    let grid = Array2D::<u8, S>::new(Size::new(3, 4), 0);
    let mut it = grid.lines();
    for _ in 0..4 {
        assert!(it.next(&grid).is_some());
    }
    assert!(it.next(&grid).is_none());
    assert!(it.next(&grid).is_none());
}

#[test]
fn lines_restart_with_fresh_cursor() {
    let grid = Array2D::<u8, S>::new(Size::new(2, 2), 9);
    let mut first = grid.lines();
    while first.next(&grid).is_some() {}
    let mut second = grid.lines();
    let mut count = 0;
    while second.next(&grid).is_some() {
        count += 1;
    }
    assert_eq!(2, count);
}

#[test]
fn view_lines_respect_stride() {
    // the view is narrower than the root, so its rows are not adjacent in
    // the backing buffer: no row may pick up the next row's cells
    let grid =
        Array2D::<usize, S>::from_constructor(Size::new(10, 8), |i: Index<S>| i.y * 100 + i.x);
    let view = grid.crop(IndexRange::HalfOpen(Index::new(3, 2), Index::new(7, 6)));
    let mut it = view.lines();
    let mut rows: Vec<Vec<usize>> = Vec::new();
    while let Some(row) = it.next(&grid) {
        assert_eq!(4, row.len());
        rows.push(row.to_vec());
    }
    assert_eq!(4, rows.len());
    assert_eq!(
        vec![
            vec![203, 204, 205, 206],
            vec![303, 304, 305, 306],
            vec![403, 404, 405, 406],
            vec![503, 504, 505, 506],
        ],
        rows
    );
}

#[test]
fn lines_cursor_from_view_directly() {
    let grid = Array2D::<u16, S>::new(Size::new(5, 3), 1);
    let mut it = Lines::new(grid.as_slice2d());
    let mut total: u16 = 0;
    while let Some(row) = it.next(&grid) {
        for v in row {
            total += *v;
        }
    }
    assert_eq!(15, total);
}

#[test]
fn mut_view_lines_reads_rows() {
    let mut grid = Array2D::<u8, S>::new(Size::new(6, 6), 0);
    let window = grid.crop_mut(IndexRange::HalfOpen(Index::new(1, 1), Index::new(5, 4)));
    *window.get_mut(&mut grid, Index::new(2, 1)).unwrap() = 8;
    let mut it = window.lines();
    let mut rows: Vec<Vec<u8>> = Vec::new();
    while let Some(row) = it.next(&grid) {
        rows.push(row.to_vec());
    }
    assert_eq!(
        vec![vec![0, 0, 0, 0], vec![0, 0, 8, 0], vec![0, 0, 0, 0]],
        rows
    );
}

#[test]
fn view_line_reads_one_row() {
    let grid =
        Array2D::<usize, S>::from_constructor(Size::new(6, 4), |i: Index<S>| i.y * 10 + i.x);
    let view = grid.crop(IndexRange::HalfOpen(Index::new(2, 1), Index::new(5, 3)));
    assert_eq!(Some(vec![22, 23, 24].as_ref()), view.line(&grid, 1));
    assert_eq!(None, view.line(&grid, 2));
}
