//! The owned two-dimensional array: a flat buffer of `width * height`
//! elements in row-major order, addressed by `(x, y)` coordinates.

use vstd::prelude::*;

use crate::as_slice::AsMutSlice;
use crate::as_slice::AsSlice;
use crate::geom::Index;
use crate::geom::Size;
use crate::index_range::IndexRange;
use crate::index_range::Rect;
use crate::lines::Lines;
use crate::slice2d::Slice2D;
use crate::slice2d::Slice2DMut;

verus! {

/// A cell strictly below row `y` lies strictly before offset `y * w`, and
/// its offset does not precede the start of its own row.
proof fn lemma_cell_offset_bounds(py: int, px: int, y: int, w: int)
    requires
        0 <= py < y,
        0 <= px < w,
    ensures
        0 <= py * w + px < y * w,
{
    assert(py * w + px < y * w) by (nonlinear_arith)
        requires
            0 <= py < y,
            0 <= px < w,
    ;
    assert(0 <= py * w) by (nonlinear_arith)
        requires
            0 <= py,
            0 <= w,
    ;
}

/// A dense 2D array over an owned flat buffer. Row `y` occupies the
/// half-open span `[y * width, y * width + width)` of the buffer.
#[derive(Debug, PartialEq, Eq, Hash)]
pub struct Array2D<T, U> {
    pub items: Vec<T>,
    pub size: Size<U>,
}

impl<T, U> Array2D<T, U> {
    /// Well-formedness: the buffer holds exactly `width * height` items,
    /// a count that fits the host's size type. Constructors establish this
    /// and every operation preserves it.
    pub open spec fn wf(&self) -> bool {
        self.items@.len() == self.size.spec_area() && self.size.spec_area() <= usize::MAX
    }

    /// The buffer offset of a coordinate: `y * width + x`.
    pub open spec fn spec_offset(&self, index: Index<U>) -> int {
        index.y * self.size.width + index.x
    }

    pub open spec fn spec_in_bounds(&self, index: Index<U>) -> bool {
        self.size.spec_contains(index)
    }

    /// The element stored at an in-bounds coordinate.
    pub open spec fn spec_get(&self, index: Index<U>) -> T
        recommends
            self.wf(),
            self.spec_in_bounds(index),
    {
        self.items@[self.spec_offset(index)]
    }

    /// The row at `y`, as the `width` consecutive buffer elements starting
    /// at offset `y * width`.
    pub open spec fn spec_row(&self, y: int) -> Seq<T>
        recommends
            self.wf(),
            0 <= y < self.size.height,
    {
        self.items@.subrange(y * self.size.width, y * self.size.width + self.size.width)
    }

    /// An in-bounds coordinate maps to an offset inside the buffer.
    pub proof fn lemma_offset_in_range(&self, index: Index<U>)
        requires
            self.wf(),
            self.spec_in_bounds(index),
        ensures
            0 <= self.spec_offset(index) < self.items@.len(),
    {
        assert(index.y * self.size.width + index.x < self.size.width * self.size.height)
            by (nonlinear_arith)
            requires
                index.x < self.size.width,
                index.y < self.size.height,
        ;
    }

    /// Construct an array of the given size with every cell set to
    /// `initial_value`.
    pub fn new(size: Size<U>, initial_value: T) -> (r: Self) where T: Copy
        requires
            size.spec_area() <= usize::MAX,
        ensures
            r.wf(),
            r.size == size,
            forall|p: Index<U>| size.spec_contains(p) ==> r.spec_get(p) == initial_value,
    {
        let area = size.area();
        let mut items: Vec<T> = Vec::with_capacity(area);
        let mut i: usize = 0;
        while i < area
            invariant
                i <= area,
                items@.len() == i,
                forall|k: int| 0 <= k < i ==> items@[k] == initial_value,
            decreases area - i,
        {
            items.push(initial_value);
            i += 1;
        }
        let r = Array2D { items, size };
        proof {
            assert forall|p: Index<U>| size.spec_contains(p) implies r.spec_get(p)
                == initial_value by {
                r.lemma_offset_in_range(p);
            }
        }
        r
    }

    /// Construct an array of the given size, filling the buffer with the
    /// generator's value for each coordinate. The generator runs exactly
    /// once per coordinate, in row-major order: `y` outer, `x` inner.
    pub fn from_constructor<F: Fn(Index<U>) -> T>(size: Size<U>, f: F) -> (r: Self)
        requires
            size.spec_area() <= usize::MAX,
            forall|p: Index<U>| size.spec_contains(p) ==> call_requires(f, (p,)),
        ensures
            r.wf(),
            r.size == size,
            forall|p: Index<U>| size.spec_contains(p) ==> call_ensures(f, (p,), r.spec_get(p)),
    {
        let w = size.width;
        let h = size.height;
        let mut items: Vec<T> = Vec::new();
        let mut y: usize = 0;
        while y < h
            invariant
                y <= h,
                w == size.width,
                h == size.height,
                items@.len() == y * w,
                size.spec_area() <= usize::MAX,
                forall|p: Index<U>| #[trigger] size.spec_contains(p) ==> call_requires(f, (p,)),
                forall|p: Index<U>|
                    p.y < y && p.x < w ==> call_ensures(f, (p,), #[trigger] items@[p.y * w + p.x]),
            decreases h - y,
        {
            let mut x: usize = 0;
            while x < w
                invariant
                    x <= w,
                    y < h,
                    w == size.width,
                    h == size.height,
                    items@.len() == y * w + x,
                    size.spec_area() <= usize::MAX,
                    forall|p: Index<U>| #[trigger] size.spec_contains(p) ==> call_requires(
                        f,
                        (p,),
                    ),
                    forall|p: Index<U>|
                        p.y < y && p.x < w ==> call_ensures(
                            f,
                            (p,),
                            #[trigger] items@[p.y * w + p.x],
                        ),
                    forall|p: Index<U>|
                        p.y == y && p.x < x ==> call_ensures(
                            f,
                            (p,),
                            #[trigger] items@[p.y * w + p.x],
                        ),
                decreases w - x,
            {
                let p = Index::new(x, y);
                proof {
                    lemma_cell_offset_bounds(y as int, x as int, h as int, w as int);
                    assert(size.spec_contains(p));
                }
                let v = f(p);
                items.push(v);
                x += 1;
                proof {
                    assert forall|q: Index<U>|
                        q.y < y && q.x < w implies call_ensures(
                        f,
                        (q,),
                        #[trigger] items@[q.y * w + q.x],
                    ) by {
                        lemma_cell_offset_bounds(q.y as int, q.x as int, y as int, w as int);
                    }
                    assert forall|q: Index<U>|
                        q.y == y && q.x < x implies call_ensures(
                        f,
                        (q,),
                        #[trigger] items@[q.y * w + q.x],
                    ) by {
                        if q.x < x - 1 {
                        } else {
                            Index::lemma_ext(q, p);
                        }
                    }
                }
            }
            y += 1;
            proof {
                assert((y - 1) * w + w == y * w) by (nonlinear_arith);
            }
        }
        let r = Array2D { items, size };
        proof {
            assert(h * w == size.spec_area()) by (nonlinear_arith)
                requires
                    w == size.width,
                    h == size.height,
            ;
            assert forall|p: Index<U>| size.spec_contains(p) implies call_ensures(
                f,
                (p,),
                r.spec_get(p),
            ) by {
                assert(items@[p.y * w + p.x] == r.spec_get(p));
            }
        }
        r
    }

    /// The half-open rectangle of all coordinates of this array:
    /// `[(0, 0), (width, height))`.
    pub fn index_range(&self) -> (r: Rect<U>)
        ensures
            r.start.x == 0,
            r.start.y == 0,
            r.end.x == self.size.width,
            r.end.y == self.size.height,
    {
        Rect::new(Index::zero(), Index::new(self.size.width, self.size.height))
    }

    /// Every coordinate of this array in row-major order: `y` outer, `x`
    /// inner.
    pub fn indices(&self) -> (r: Vec<Index<U>>)
        ensures
            r@.len() == self.size.spec_area(),
            forall|py: int, px: int|
                0 <= py < self.size.height && 0 <= px < self.size.width ==> {
                    let p = #[trigger] r@[py * self.size.width + px];
                    p.x == px && p.y == py
                },
    {
        coords_row_major(self.size)
    }
}

/// Every coordinate of a grid of the given size in row-major order: `y`
/// outer, `x` inner.
pub(crate) fn coords_row_major<U>(size: Size<U>) -> (r: Vec<Index<U>>)
    ensures
        r@.len() == size.spec_area(),
        forall|py: int, px: int|
            0 <= py < size.height && 0 <= px < size.width ==> {
                let p = #[trigger] r@[py * size.width + px];
                p.x == px && p.y == py
            },
{
    let w = size.width;
    let h = size.height;
    let mut r: Vec<Index<U>> = Vec::new();
    let mut y: usize = 0;
    while y < h
        invariant
            y <= h,
            w == size.width,
            h == size.height,
            r@.len() == y * w,
            forall|py: int, px: int|
                0 <= py < y && 0 <= px < w ==> {
                    let p = #[trigger] r@[py * w + px];
                    p.x == px && p.y == py
                },
        decreases h - y,
    {
        let mut x: usize = 0;
        while x < w
            invariant
                x <= w,
                y < h,
                w == size.width,
                h == size.height,
                r@.len() == y * w + x,
                forall|py: int, px: int|
                    0 <= py < y && 0 <= px < w ==> {
                        let p = #[trigger] r@[py * w + px];
                        p.x == px && p.y == py
                    },
                forall|px: int|
                    0 <= px < x ==> {
                        let p = #[trigger] r@[y * w + px];
                        p.x == px && p.y == y
                    },
            decreases w - x,
        {
            proof {
                lemma_cell_offset_bounds(y as int, x as int, h as int, w as int);
            }
            r.push(Index::new(x, y));
            x += 1;
            proof {
                assert forall|py: int, px: int| 0 <= py < y && 0 <= px < w implies {
                    let p = #[trigger] r@[py * w + px];
                    p.x == px && p.y == py
                } by {
                    lemma_cell_offset_bounds(py, px, y as int, w as int);
                }
            }
        }
        y += 1;
        proof {
            assert((y - 1) * w + w == y * w) by (nonlinear_arith);
        }
    }
    proof {
        assert(h * w == size.spec_area()) by (nonlinear_arith)
            requires
                w == size.width,
                h == size.height,
        ;
    }
    r
}

impl<T, U> Array2D<T, U> {
    /// The logical size of the array.
    pub fn size(&self) -> (r: Size<U>)
        ensures
            r == self.size,
    {
        self.size
    }

    /// True iff `index` addresses a cell of this array.
    fn in_bounds(&self, index: Index<U>) -> (r: bool)
        ensures
            r == self.spec_in_bounds(index),
    {
        self.size.contains(index)
    }

    /// The buffer offset of an in-bounds coordinate. Callers must have
    /// checked the bounds already.
    fn index_at_unchecked(&self, index: Index<U>) -> (r: usize)
        requires
            self.wf(),
            self.spec_in_bounds(index),
        ensures
            r == self.spec_offset(index),
    {
        proof {
            self.lemma_offset_in_range(index);
        }
        index.y * self.size.width + index.x
    }

    /// The buffer offset of a coordinate, or `None` when it is out of bounds.
    fn index_at(&self, index: Index<U>) -> (r: Option<usize>)
        requires
            self.wf(),
        ensures
            self.spec_in_bounds(index) ==> r == Some(self.spec_offset(index) as usize),
            !self.spec_in_bounds(index) ==> r is None,
    {
        if self.in_bounds(index) {
            Some(self.index_at_unchecked(index))
        } else {
            None
        }
    }

    /// Checked access: the element at `index`, or `None` when `index` is out
    /// of bounds.
    pub fn get(&self, index: Index<U>) -> (r: Option<&T>)
        requires
            self.wf(),
        ensures
            self.spec_in_bounds(index) ==> (r matches Some(v) && *v == self.spec_get(index)),
            !self.spec_in_bounds(index) ==> r is None,
    {
        match self.index_at(index) {
            Some(offset) => {
                proof {
                    self.lemma_offset_in_range(index);
                }
                Some(&self.items[offset])
            },
            None => None,
        }
    }

    /// Checked mutable access: a mutable borrow of the element at `index`,
    /// or `None` when `index` is out of bounds.
    pub fn get_mut(&mut self, index: Index<U>) -> (r: Option<&mut T>)
        requires
            old(self).wf(),
        ensures
            old(self).spec_in_bounds(index) ==> r.is_some() && *r.unwrap() == old(self).spec_get(
                index,
            ) && final(self).items@ == old(self).items@.update(
                old(self).spec_offset(index),
                *final(r.unwrap()),
            ) && final(self).size == old(self).size && final(self).wf(),
            !old(self).spec_in_bounds(index) ==> r is None && *final(self) == *old(self),
    {
        match self.index_at(index) {
            Some(offset) => {
                proof {
                    old(self).lemma_offset_in_range(index);
                }
                Some(&mut self.items[offset])
            },
            None => None,
        }
    }

    /// Direct access: the element at `index`. Out-of-bounds coordinates are
    /// a precondition violation, not a run-time check.
    pub fn index(&self, index: Index<U>) -> (r: &T)
        requires
            self.wf(),
            self.spec_in_bounds(index),
        ensures
            *r == self.spec_get(index),
    {
        let offset = self.index_at_unchecked(index);
        proof {
            self.lemma_offset_in_range(index);
        }
        &self.items[offset]
    }

    /// Direct mutable access: a mutable borrow of the element at `index`.
    /// Out-of-bounds coordinates are a precondition violation.
    pub fn index_mut(&mut self, index: Index<U>) -> (r: &mut T)
        requires
            old(self).wf(),
            old(self).spec_in_bounds(index),
        ensures
            *r == old(self).spec_get(index),
            final(self).items@ == old(self).items@.update(
                old(self).spec_offset(index),
                *final(r),
            ),
            final(self).size == old(self).size,
            final(self).wf(),
    {
        let offset = self.index_at_unchecked(index);
        proof {
            old(self).lemma_offset_in_range(index);
        }
        &mut self.items[offset]
    }

    /// A row's span stays inside the buffer.
    pub proof fn lemma_row_in_range(&self, y: int)
        requires
            self.wf(),
            0 <= y < self.size.height,
        ensures
            0 <= y * self.size.width,
            y * self.size.width + self.size.width <= self.items@.len(),
    {
        assert(y * self.size.width + self.size.width <= self.size.width * self.size.height)
            by (nonlinear_arith)
            requires
                0 <= y < self.size.height,
        ;
    }

    /// Checked row access: the row at `y` as a contiguous span of `width`
    /// elements, or `None` when `y` is out of bounds.
    pub fn line(&self, y: usize) -> (r: Option<&[T]>)
        requires
            self.wf(),
        ensures
            y < self.size.height ==> (r matches Some(row) && row@ == self.spec_row(y as int)),
            y >= self.size.height ==> r is None,
    {
        if y < self.size.height {
            proof {
                self.lemma_row_in_range(y as int);
            }
            let start = y * self.size.width;
            Some(vstd::slice::slice_subrange(AsSlice::as_slice(&self.items), start, start + self.size.width))
        } else {
            None
        }
    }

    /// Checked mutable row access: the row at `y` as a mutable span of
    /// `width` elements, or `None` when `y` is out of bounds. The buffer
    /// after the call is the old buffer with that span replaced by the
    /// borrow's final contents.
    pub fn line_mut(&mut self, y: usize) -> (r: Option<&mut [T]>)
        requires
            old(self).wf(),
        ensures
            y < old(self).size.height ==> r.is_some() && r.unwrap()@ == old(self).spec_row(y as int)
                && final(self).items@ == old(self).items@.subrange(
                0,
                y * old(self).size.width,
            ) + final(r.unwrap())@ + old(self).items@.subrange(
                y * old(self).size.width + old(self).size.width,
                old(self).items@.len() as int,
            ) && final(self).size == old(self).size,
            y >= old(self).size.height ==> r is None && *final(self) == *old(self),
    {
        if y < self.size.height {
            proof {
                old(self).lemma_row_in_range(y as int);
            }
            let start = y * self.size.width;
            let buf: &mut [T] = AsMutSlice::as_mut_slice(&mut self.items);
            let (head, tail) = buf.split_at_mut(start);
            let (row, rest) = tail.split_at_mut(self.size.width);
            proof {
                assert(final(head)@ + (final(row)@ + final(rest)@) =~= final(head)@ + final(row)@
                    + final(rest)@);
            }
            Some(row)
        } else {
            None
        }
    }

    /// The view that covers this whole array.
    pub open spec fn spec_full_view(&self) -> Slice2D<U> {
        Slice2D { start: Index { x: 0, y: 0, space: self.size.space }, size: self.size }
    }

    /// A read-only view of the whole array.
    pub fn as_slice2d(&self) -> (r: Slice2D<U>)
        ensures
            r == self.spec_full_view(),
            self.wf() ==> r.wf(self),
    {
        Slice2D::new(Index::zero(), self.size)
    }

    /// A mutable view of the whole array.
    pub fn as_slice2d_mut(&self) -> (r: Slice2DMut<U>)
        ensures
            r.spec_as_view() == self.spec_full_view(),
            self.wf() ==> r.wf(self),
    {
        Slice2DMut::new(Index::zero(), self.size)
    }

    /// Take a read-only rectangular sub-view: the range is normalized
    /// against this array's size and clamped to it; an over-wide crop
    /// silently shrinks to fit. A range that is still inverted after
    /// clamping is a precondition violation.
    pub fn crop(&self, range: IndexRange<U>) -> (r: Slice2D<U>)
        requires
            range.spec_normalizable(),
            range.spec_normalize(self.size).spec_clamp(self.size).spec_ordered(),
        ensures
            r == self.spec_full_view().spec_crop(range.spec_normalize(self.size)),
            self.wf() ==> r.wf(self),
    {
        let r = self.as_slice2d().crop(range);
        proof {
            if self.wf() {
                self.spec_full_view().lemma_crop_wf(
                    self,
                    range.spec_normalize(self.size).spec_clamp(self.size),
                );
                assert(range.spec_normalize(self.size).spec_clamp(self.size).spec_clamp(self.size)
                    == range.spec_normalize(self.size).spec_clamp(self.size));
            }
        }
        r
    }

    /// Take a mutable rectangular sub-view, with the same normalization and
    /// clamping as `crop`.
    pub fn crop_mut(&self, range: IndexRange<U>) -> (r: Slice2DMut<U>)
        requires
            range.spec_normalizable(),
            range.spec_normalize(self.size).spec_clamp(self.size).spec_ordered(),
        ensures
            r.spec_as_view() == self.spec_full_view().spec_crop(range.spec_normalize(self.size)),
            self.wf() ==> r.wf(self),
    {
        let v = self.crop(range);
        Slice2DMut::new(v.start, v.size)
    }

    /// A row cursor over the whole array.
    pub fn lines(&self) -> (r: Lines<U>)
        ensures
            r.view == self.spec_full_view(),
            r.current == 0,
    {
        Lines::new(self.as_slice2d())
    }

    /// Writing `v` into the buffer at an in-bounds coordinate's offset and
    /// then reading: the written coordinate yields `v`, and every other
    /// in-bounds coordinate is unchanged.
    pub proof fn lemma_write_read(&self, post: &Array2D<T, U>, p: Index<U>, v: T)
        requires
            self.wf(),
            self.spec_in_bounds(p),
            post.size == self.size,
            post.items@ == self.items@.update(self.spec_offset(p), v),
        ensures
            post.wf(),
            post.spec_get(p) == v,
            forall|q: Index<U>|
                self.spec_in_bounds(q) && (q.x != p.x || q.y != p.y) ==> post.spec_get(q)
                    == self.spec_get(q),
    {
        self.lemma_offset_in_range(p);
        assert forall|q: Index<U>|
            self.spec_in_bounds(q) && (q.x != p.x || q.y != p.y) implies post.spec_get(q)
            == self.spec_get(q) by {
            self.lemma_offset_in_range(q);
            if q.y < p.y {
                lemma_cell_offset_bounds(q.y as int, q.x as int, p.y as int, self.size.width as int);
                assert(p.y * self.size.width <= self.spec_offset(p)) by (nonlinear_arith)
                    requires
                        0 <= p.x,
                        0 <= p.y,
                ;
            } else if q.y > p.y {
                lemma_cell_offset_bounds(p.y as int, p.x as int, q.y as int, self.size.width as int);
                assert(q.y * self.size.width <= self.spec_offset(q)) by (nonlinear_arith)
                    requires
                        0 <= q.x,
                        0 <= q.y,
                ;
            }
        }
    }
}

} // verus!
