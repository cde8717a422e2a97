//! Rectangular sub-views of a grid. A view is a lightweight descriptor —
//! an origin and an extent in the root grid's coordinates — and shares the
//! root's backing buffer: reads and writes go through a borrow of the root
//! that is passed to each operation, so the usual exclusive-borrow rules
//! guard the buffer. The root's row stride is wider than the view's logical
//! width whenever the view is narrower than the root.

use vstd::prelude::*;

use crate::array2d::Array2D;
use crate::as_slice::AsMutSlice;
use crate::as_slice::AsSlice;
use crate::geom::Index;
use crate::geom::Size;
use crate::index_range::IndexRange;
use crate::index_range::Rect;
use crate::lines::Lines;

verus! {

/// A read-only rectangular view of an `Array2D`: the cells at
/// `[start, start + size)` of the root grid.
#[derive(Debug, PartialEq, Eq, Hash)]
pub struct Slice2D<U> {
    pub start: Index<U>,
    pub size: Size<U>,
}

impl<U> Copy for Slice2D<U> {

}

impl<U> Clone for Slice2D<U> {
    fn clone(&self) -> (r: Self)
        ensures
            r == *self,
    {
        *self
    }
}

impl<U> Slice2D<U> {
    pub fn new(start: Index<U>, size: Size<U>) -> (r: Self)
        ensures
            r.start == start,
            r.size == size,
    {
        Slice2D { start, size }
    }

    /// The view lies inside the root grid: a borrow of this view's cells is
    /// a borrow into the root's buffer.
    pub open spec fn wf<T>(self, grid: &Array2D<T, U>) -> bool {
        &&& grid.wf()
        &&& self.start.x + self.size.width <= grid.size.width
        &&& self.start.y + self.size.height <= grid.size.height
    }

    /// The machine limit a descriptor respects whenever it lies inside some
    /// root grid: its far corner is representable.
    pub open spec fn spec_fits(self) -> bool {
        self.start.x + self.size.width <= usize::MAX && self.start.y + self.size.height
            <= usize::MAX
    }

    /// A local coordinate of the view, moved into the root's coordinates.
    pub open spec fn spec_translate(self, index: Index<U>) -> Index<U> {
        Index {
            x: (self.start.x + index.x) as usize,
            y: (self.start.y + index.y) as usize,
            space: index.space,
        }
    }

    pub open spec fn spec_in_bounds(self, index: Index<U>) -> bool {
        self.size.spec_contains(index)
    }

    /// The element a local coordinate denotes: the root's element at the
    /// translated coordinate.
    pub open spec fn spec_get<T>(self, grid: &Array2D<T, U>, index: Index<U>) -> T
        recommends
            self.wf(grid),
            self.spec_in_bounds(index),
    {
        grid.spec_get(self.spec_translate(index))
    }

    /// The buffer offset a local coordinate denotes in the root's buffer.
    pub open spec fn spec_offset<T>(self, grid: &Array2D<T, U>, index: Index<U>) -> int {
        grid.spec_offset(self.spec_translate(index))
    }

    /// The view's row `y`: `size.width` consecutive root-buffer elements
    /// starting at the translated row start. Rows of a narrow view are not
    /// contiguous with each other, but each row is contiguous.
    pub open spec fn spec_row<T>(self, grid: &Array2D<T, U>, y: int) -> Seq<T>
        recommends
            self.wf(grid),
            0 <= y < self.size.height,
    {
        grid.items@.subrange(
            (self.start.y + y) * grid.size.width + self.start.x,
            (self.start.y + y) * grid.size.width + self.start.x + self.size.width,
        )
    }

    /// All rows of the view, top to bottom.
    pub open spec fn spec_lines<T>(self, grid: &Array2D<T, U>) -> Seq<Seq<T>> {
        Seq::new(self.size.height as nat, |y: int| self.spec_row(grid, y))
    }

    /// An in-bounds local coordinate translates to an in-bounds root
    /// coordinate, and a view element is the root element there.
    pub proof fn lemma_view_root_same_cell<T>(self, grid: &Array2D<T, U>, index: Index<U>)
        requires
            self.wf(grid),
            self.spec_in_bounds(index),
        ensures
            grid.spec_in_bounds(self.spec_translate(index)),
            self.spec_get(grid, index) == grid.spec_get(self.spec_translate(index)),
    {
    }

    /// A view row's span stays inside the root's buffer.
    pub proof fn lemma_row_in_range<T>(self, grid: &Array2D<T, U>, y: int)
        requires
            self.wf(grid),
            0 <= y < self.size.height,
        ensures
            0 <= (self.start.y + y) * grid.size.width + self.start.x,
            (self.start.y + y) * grid.size.width + self.start.x + self.size.width
                <= grid.items@.len(),
    {
        let ry = self.start.y + y;
        assert(0 <= ry * grid.size.width && ry * grid.size.width + grid.size.width
            <= grid.size.width * grid.size.height) by (nonlinear_arith)
            requires
                0 <= ry < grid.size.height,
        ;
    }

    /// Row iteration yields exactly `height` rows of exactly `width`
    /// elements, and element `j` of row `y` is the view's cell `(j, y)`:
    /// no row spills into a neighboring row of the shared buffer, also when
    /// the root's stride exceeds the view's width.
    pub proof fn lemma_lines_shape<T>(self, grid: &Array2D<T, U>)
        requires
            self.wf(grid),
        ensures
            self.spec_lines(grid).len() == self.size.height,
            forall|y: int|
                0 <= y < self.size.height ==> (#[trigger] self.spec_lines(grid)[y]).len()
                    == self.size.width,
            forall|y: int, j: int|
                0 <= y < self.size.height && 0 <= j < self.size.width
                    ==> #[trigger] self.spec_lines(grid)[y][j] == self.spec_get(
                    grid,
                    Index { x: j as usize, y: y as usize, space: self.start.space },
                ),
    {
        assert forall|y: int| 0 <= y < self.size.height implies (#[trigger] self.spec_lines(
            grid,
        )[y]).len() == self.size.width by {
            self.lemma_row_in_range(grid, y);
        }
        assert forall|y: int, j: int|
            0 <= y < self.size.height && 0 <= j < self.size.width implies #[trigger] self.spec_lines(
            grid,
        )[y][j] == self.spec_get(
            grid,
            Index { x: j as usize, y: y as usize, space: self.start.space },
        ) by {
            self.lemma_row_in_range(grid, y);
            let p = Index { x: j as usize, y: y as usize, space: self.start.space };
            assert(self.spec_translate(p).x == self.start.x + j);
            assert(self.spec_translate(p).y == self.start.y + y);
        }
    }

    /// The logical size of the view.
    pub fn size(&self) -> (r: Size<U>)
        ensures
            r == self.size,
    {
        self.size
    }

    /// The half-open rectangle of all local coordinates of the view.
    pub fn index_range(&self) -> (r: Rect<U>)
        ensures
            r.start.x == 0,
            r.start.y == 0,
            r.end.x == self.size.width,
            r.end.y == self.size.height,
    {
        Rect::new(Index::zero(), Index::new(self.size.width, self.size.height))
    }

    /// Every local coordinate of the view in row-major order.
    pub fn indices(&self) -> (r: Vec<Index<U>>)
        ensures
            r@.len() == self.size.spec_area(),
            forall|py: int, px: int|
                0 <= py < self.size.height && 0 <= px < self.size.width ==> {
                    let p = #[trigger] r@[py * self.size.width + px];
                    p.x == px && p.y == py
                },
    {
        crate::array2d::coords_row_major(self.size)
    }

    /// Checked access through the view.
    pub fn get<'a, T>(&self, grid: &'a Array2D<T, U>, index: Index<U>) -> (r: Option<&'a T>)
        requires
            self.wf(grid),
        ensures
            self.spec_in_bounds(index) ==> (r matches Some(v) && *v == self.spec_get(grid, index)),
            !self.spec_in_bounds(index) ==> r is None,
    {
        if self.size.contains(index) {
            Some(grid.index(Index::new(self.start.x + index.x, self.start.y + index.y)))
        } else {
            None
        }
    }

    /// Direct access through the view. Out-of-bounds local coordinates are
    /// a precondition violation.
    pub fn index<'a, T>(&self, grid: &'a Array2D<T, U>, index: Index<U>) -> (r: &'a T)
        requires
            self.wf(grid),
            self.spec_in_bounds(index),
        ensures
            *r == self.spec_get(grid, index),
    {
        grid.index(Index::new(self.start.x + index.x, self.start.y + index.y))
    }

    /// A read-only copy of this view.
    pub fn as_slice2d(&self) -> (r: Slice2D<U>)
        ensures
            r == *self,
    {
        *self
    }

    /// Checked row access through the view.
    pub fn line<'a, T>(&self, grid: &'a Array2D<T, U>, y: usize) -> (r: Option<&'a [T]>)
        requires
            self.wf(grid),
        ensures
            y < self.size.height ==> (r matches Some(row) && row@ == self.spec_row(grid, y as int)),
            y >= self.size.height ==> r is None,
    {
        if y < self.size.height {
            proof {
                self.lemma_row_in_range(grid, y as int);
            }
            let start = (self.start.y + y) * grid.size.width + self.start.x;
            Some(vstd::slice::slice_subrange(AsSlice::as_slice(&grid.items), start, start + self.size.width))
        } else {
            None
        }
    }

    /// A row cursor over this view.
    pub fn lines(&self) -> (r: Lines<U>)
        ensures
            r.view == *self,
            r.current == 0,
    {
        Lines::new(*self)
    }

    /// The cropped view: `rect` is clamped componentwise into `[0, size]`,
    /// and the result starts where the clamped rectangle starts, with the
    /// clamped rectangle's extent.
    pub open spec fn spec_crop(self, rect: Rect<U>) -> Slice2D<U>
        recommends
            rect.spec_clamp(self.size).spec_ordered(),
    {
        let c = rect.spec_clamp(self.size);
        Slice2D {
            start: Index {
                x: (self.start.x + c.start.x) as usize,
                y: (self.start.y + c.start.y) as usize,
                space: self.start.space,
            },
            size: Size {
                width: (c.end.x - c.start.x) as usize,
                height: (c.end.y - c.start.y) as usize,
                space: self.size.space,
            },
        }
    }

    /// Take a rectangular sub-view. The range is normalized against this
    /// view's size and clamped to it: an over-wide crop silently shrinks to
    /// fit and never fails. A range that is still inverted after clamping is
    /// a precondition violation.
    pub fn crop(&self, range: IndexRange<U>) -> (r: Slice2D<U>)
        requires
            self.spec_fits(),
            range.spec_normalizable(),
            range.spec_normalize(self.size).spec_clamp(self.size).spec_ordered(),
        ensures
            r == self.spec_crop(range.spec_normalize(self.size)),
    {
        let rect = range.normalize(self.size);
        let s = rect.start.clamp(self.size);
        let e = rect.end.clamp(self.size);
        Slice2D {
            start: Index::new(self.start.x + s.x, self.start.y + s.y),
            size: Size::new(e.x - s.x, e.y - s.y),
        }
    }

    /// Cropping preserves containment in the root grid.
    pub proof fn lemma_crop_wf<T>(self, grid: &Array2D<T, U>, rect: Rect<U>)
        requires
            self.wf(grid),
            rect.spec_clamp(self.size).spec_ordered(),
        ensures
            self.spec_crop(rect).wf(grid),
    {
    }

    /// Clamping: a crop whose end lies beyond the view's extent, with an
    /// in-range start, yields exactly the remainder `size - start`.
    pub proof fn lemma_crop_clamps(self, rect: Rect<U>)
        requires
            self.spec_fits(),
            rect.start.x <= self.size.width,
            rect.start.y <= self.size.height,
            rect.end.x >= self.size.width,
            rect.end.y >= self.size.height,
        ensures
            self.spec_crop(rect).size.width == self.size.width - rect.start.x,
            self.spec_crop(rect).size.height == self.size.height - rect.start.y,
    {
    }

    /// Composition: cropping by `r1` and then by `r2` (given in the first
    /// crop's local coordinates) is one crop by `r2` translated into `r1`'s
    /// frame and intersected with `r1`.
    pub proof fn lemma_crop_crop(self, r1: Rect<U>, r2: Rect<U>)
        requires
            self.spec_fits(),
            r1.spec_clamp(self.size).spec_ordered(),
            r2.spec_clamp(self.spec_crop(r1).size).spec_ordered(),
        ensures
            self.spec_crop(r1).spec_crop(r2) == self.spec_crop(r1.spec_compose(r2)),
    {
    }
}

/// A mutable rectangular view of an `Array2D`: the same descriptor as
/// `Slice2D`, whose writing operations take the root grid exclusively
/// borrowed, so no other access to the buffer can overlap the write.
#[derive(Debug, PartialEq, Eq, Hash)]
pub struct Slice2DMut<U> {
    pub start: Index<U>,
    pub size: Size<U>,
}

impl<U> Copy for Slice2DMut<U> {

}

impl<U> Clone for Slice2DMut<U> {
    fn clone(&self) -> (r: Self)
        ensures
            r == *self,
    {
        *self
    }
}

impl<U> Slice2DMut<U> {
    pub fn new(start: Index<U>, size: Size<U>) -> (r: Self)
        ensures
            r.start == start,
            r.size == size,
    {
        Slice2DMut { start, size }
    }

    /// The same region as a read-only view.
    pub open spec fn spec_as_view(self) -> Slice2D<U> {
        Slice2D { start: self.start, size: self.size }
    }

    pub open spec fn wf<T>(self, grid: &Array2D<T, U>) -> bool {
        self.spec_as_view().wf(grid)
    }

    pub open spec fn spec_fits(self) -> bool {
        self.spec_as_view().spec_fits()
    }

    pub open spec fn spec_translate(self, index: Index<U>) -> Index<U> {
        self.spec_as_view().spec_translate(index)
    }

    pub open spec fn spec_in_bounds(self, index: Index<U>) -> bool {
        self.size.spec_contains(index)
    }

    pub open spec fn spec_get<T>(self, grid: &Array2D<T, U>, index: Index<U>) -> T
        recommends
            self.wf(grid),
            self.spec_in_bounds(index),
    {
        self.spec_as_view().spec_get(grid, index)
    }

    pub open spec fn spec_offset<T>(self, grid: &Array2D<T, U>, index: Index<U>) -> int {
        self.spec_as_view().spec_offset(grid, index)
    }

    pub open spec fn spec_row<T>(self, grid: &Array2D<T, U>, y: int) -> Seq<T>
        recommends
            self.wf(grid),
            0 <= y < self.size.height,
    {
        self.spec_as_view().spec_row(grid, y)
    }

    pub open spec fn spec_lines<T>(self, grid: &Array2D<T, U>) -> Seq<Seq<T>> {
        self.spec_as_view().spec_lines(grid)
    }

    /// The logical size of the view.
    pub fn size(&self) -> (r: Size<U>)
        ensures
            r == self.size,
    {
        self.size
    }

    /// The half-open rectangle of all local coordinates of the view.
    pub fn index_range(&self) -> (r: Rect<U>)
        ensures
            r.start.x == 0,
            r.start.y == 0,
            r.end.x == self.size.width,
            r.end.y == self.size.height,
    {
        Rect::new(Index::zero(), Index::new(self.size.width, self.size.height))
    }

    /// Every local coordinate of the view in row-major order.
    pub fn indices(&self) -> (r: Vec<Index<U>>)
        ensures
            r@.len() == self.size.spec_area(),
            forall|py: int, px: int|
                0 <= py < self.size.height && 0 <= px < self.size.width ==> {
                    let p = #[trigger] r@[py * self.size.width + px];
                    p.x == px && p.y == py
                },
    {
        crate::array2d::coords_row_major(self.size)
    }

    /// Checked read access through the view.
    pub fn get<'a, T>(&self, grid: &'a Array2D<T, U>, index: Index<U>) -> (r: Option<&'a T>)
        requires
            self.wf(grid),
        ensures
            self.spec_in_bounds(index) ==> (r matches Some(v) && *v == self.spec_get(grid, index)),
            !self.spec_in_bounds(index) ==> r is None,
    {
        self.as_slice2d().get(grid, index)
    }

    /// Direct read access through the view.
    pub fn index<'a, T>(&self, grid: &'a Array2D<T, U>, index: Index<U>) -> (r: &'a T)
        requires
            self.wf(grid),
            self.spec_in_bounds(index),
        ensures
            *r == self.spec_get(grid, index),
    {
        self.as_slice2d().index(grid, index)
    }

    /// The same region as a read-only view.
    pub fn as_slice2d(&self) -> (r: Slice2D<U>)
        ensures
            r == self.spec_as_view(),
    {
        Slice2D::new(self.start, self.size)
    }

    /// Checked row read access through the view.
    pub fn line<'a, T>(&self, grid: &'a Array2D<T, U>, y: usize) -> (r: Option<&'a [T]>)
        requires
            self.wf(grid),
        ensures
            y < self.size.height ==> (r matches Some(row) && row@ == self.spec_row(grid, y as int)),
            y >= self.size.height ==> r is None,
    {
        self.as_slice2d().line(grid, y)
    }

    /// A row cursor over this view.
    pub fn lines(&self) -> (r: Lines<U>)
        ensures
            r.view == self.spec_as_view(),
            r.current == 0,
    {
        Lines::new(self.as_slice2d())
    }

    /// Take a read-only rectangular sub-view.
    pub fn crop(&self, range: IndexRange<U>) -> (r: Slice2D<U>)
        requires
            self.spec_fits(),
            range.spec_normalizable(),
            range.spec_normalize(self.size).spec_clamp(self.size).spec_ordered(),
        ensures
            r == self.spec_as_view().spec_crop(range.spec_normalize(self.size)),
    {
        self.as_slice2d().crop(range)
    }

    /// Take a mutable rectangular sub-view, with the same normalization and
    /// clamping as `crop`.
    pub fn crop_mut(&self, range: IndexRange<U>) -> (r: Slice2DMut<U>)
        requires
            self.spec_fits(),
            range.spec_normalizable(),
            range.spec_normalize(self.size).spec_clamp(self.size).spec_ordered(),
        ensures
            r.spec_as_view() == self.spec_as_view().spec_crop(range.spec_normalize(self.size)),
    {
        let v = self.as_slice2d().crop(range);
        Slice2DMut::new(v.start, v.size)
    }

    /// A mutable copy of this view descriptor.
    pub fn as_slice2d_mut(&self) -> (r: Slice2DMut<U>)
        ensures
            r == *self,
    {
        *self
    }

    /// Checked mutable access through the view: the write lands in the
    /// root's buffer at the translated coordinate's offset.
    pub fn get_mut<'a, T>(&self, grid: &'a mut Array2D<T, U>, index: Index<U>) -> (r: Option<
        &'a mut T,
    >)
        requires
            self.wf(old(grid)),
        ensures
            self.spec_in_bounds(index) ==> r.is_some() && *r.unwrap() == self.spec_get(
                old(grid),
                index,
            ) && final(grid).items@ == old(grid).items@.update(
                self.spec_offset(old(grid), index),
                *final(r.unwrap()),
            ) && final(grid).size == old(grid).size && final(grid).wf(),
            !self.spec_in_bounds(index) ==> r is None && *final(grid) == *old(grid),
    {
        if self.size.contains(index) {
            Some(grid.index_mut(Index::new(self.start.x + index.x, self.start.y + index.y)))
        } else {
            None
        }
    }

    /// Direct mutable access through the view. Out-of-bounds local
    /// coordinates are a precondition violation.
    pub fn index_mut<'a, T>(&self, grid: &'a mut Array2D<T, U>, index: Index<U>) -> (r: &'a mut T)
        requires
            self.wf(old(grid)),
            self.spec_in_bounds(index),
        ensures
            *r == self.spec_get(old(grid), index),
            final(grid).items@ == old(grid).items@.update(
                self.spec_offset(old(grid), index),
                *final(r),
            ),
            final(grid).size == old(grid).size,
            final(grid).wf(),
    {
        grid.index_mut(Index::new(self.start.x + index.x, self.start.y + index.y))
    }

    /// Checked mutable row access through the view. The root's buffer after
    /// the call is the old buffer with the row's span replaced by the
    /// borrow's final contents.
    pub fn line_mut<'a, T>(&self, grid: &'a mut Array2D<T, U>, y: usize) -> (r: Option<
        &'a mut [T],
    >)
        requires
            self.wf(old(grid)),
        ensures
            y < self.size.height ==> r.is_some() && r.unwrap()@ == self.spec_row(
                old(grid),
                y as int,
            ) && final(grid).items@ == old(grid).items@.subrange(
                0,
                (self.start.y + y) * old(grid).size.width + self.start.x,
            ) + final(r.unwrap())@ + old(grid).items@.subrange(
                (self.start.y + y) * old(grid).size.width + self.start.x + self.size.width,
                old(grid).items@.len() as int,
            ) && final(grid).size == old(grid).size,
            y >= self.size.height ==> r is None && *final(grid) == *old(grid),
    {
        if y < self.size.height {
            proof {
                self.spec_as_view().lemma_row_in_range(old(grid), y as int);
            }
            let start = (self.start.y + y) * grid.size.width + self.start.x;
            let buf: &mut [T] = AsMutSlice::as_mut_slice(&mut grid.items);
            let (head, tail) = buf.split_at_mut(start);
            let (row, rest) = tail.split_at_mut(self.size.width);
            proof {
                assert(final(head)@ + (final(row)@ + final(rest)@) =~= final(head)@ + final(row)@
                    + final(rest)@);
            }
            Some(row)
        } else {
            None
        }
    }
}

} // verus!
