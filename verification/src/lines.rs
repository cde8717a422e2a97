//! Row-wise iteration: a cursor that yields the rows of a view, top to
//! bottom, one per call. A fresh cursor per call site makes the iteration
//! restartable.

use vstd::prelude::*;

use crate::array2d::Array2D;
use crate::slice2d::Slice2D;

verus! {

/// A cursor over the rows of a view. Yields exactly `size.height` rows,
/// each of length `size.width`, in increasing row order.
#[derive(Debug, PartialEq, Eq, Hash)]
pub struct Lines<U> {
    pub view: Slice2D<U>,
    pub current: usize,
}

impl<U> Copy for Lines<U> {

}

impl<U> Clone for Lines<U> {
    fn clone(&self) -> (r: Self)
        ensures
            r == *self,
    {
        *self
    }
}

impl<U> Lines<U> {
    pub fn new(view: Slice2D<U>) -> (r: Self)
        ensures
            r.view == view,
            r.current == 0,
    {
        Lines { view, current: 0 }
    }

    /// The next row, or `None` once every row has been yielded. The row
    /// returned for cursor position `y` is the view's row `y`.
    pub fn next<'a, T>(&mut self, grid: &'a Array2D<T, U>) -> (r: Option<&'a [T]>)
        requires
            old(self).view.wf(grid),
        ensures
            final(self).view == old(self).view,
            old(self).current < old(self).view.size.height ==> (r matches Some(row) && row@ == old(
                self,
            ).view.spec_row(grid, old(self).current as int) && final(self).current == old(
                self,
            ).current + 1),
            old(self).current >= old(self).view.size.height ==> r is None && final(self).current
                == old(self).current,
    {
        if self.current >= self.view.size.height {
            None
        } else {
            let line = self.view.line(grid, self.current);
            self.current += 1;
            line
        }
    }
}

} // verus!
