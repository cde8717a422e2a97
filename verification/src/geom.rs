//! Geometry primitives: a 2D point (`Index`) and a 2D extent (`Size`), both
//! carrying a phantom coordinate-space tag `U`. Two structurally identical
//! values from different spaces have different types and cannot be mixed.

use vstd::prelude::*;

verus! {

/// The anonymous coordinate space, for callers that do not need to
/// distinguish several spaces.
#[derive(Debug, Clone, Copy, PartialEq, Eq, Hash)]
pub struct UnknownUnit;

/// A 2D coordinate `(x, y)` in the coordinate space `U`.
#[derive(Debug, PartialEq, Eq, Hash)]
pub struct Index<U> {
    pub x: usize,
    pub y: usize,
    pub space: core::marker::PhantomData<U>,
}

impl<U> Copy for Index<U> {
}

impl<U> Clone for Index<U> {
    fn clone(&self) -> (r: Self)
        ensures
            r == *self,
    {
        *self
    }
}

impl<U> Index<U> {
    pub fn new(x: usize, y: usize) -> (r: Self)
        ensures
            r.x == x,
            r.y == y,
    {
        Index { x, y, space: core::marker::PhantomData }
    }

    pub fn zero() -> (r: Self)
        ensures
            r.x == 0,
            r.y == 0,
    {
        Index { x: 0, y: 0, space: core::marker::PhantomData }
    }

    /// Clamp each coordinate independently to the extent on its axis.
    pub open spec fn spec_clamp(self, size: Size<U>) -> Index<U> {
        Index {
            x: if self.x >= size.width { size.width } else { self.x },
            y: if self.y >= size.height { size.height } else { self.y },
            space: self.space,
        }
    }

    pub fn clamp(self, size: Size<U>) -> (r: Self)
        ensures
            r == self.spec_clamp(size),
    {
        Index {
            x: if self.x >= size.width { size.width } else { self.x },
            y: if self.y >= size.height { size.height } else { self.y },
            space: core::marker::PhantomData,
        }
    }

    /// The space tag carries no data: coordinates are equal exactly when
    /// their components are.
    pub proof fn lemma_ext(a: Index<U>, b: Index<U>)
        requires
            a.x == b.x,
            a.y == b.y,
        ensures
            a == b,
    {
    }
}

/// A 2D extent `(width, height)` in the coordinate space `U`.
#[derive(Debug, PartialEq, Eq, Hash)]
pub struct Size<U> {
    pub width: usize,
    pub height: usize,
    pub space: core::marker::PhantomData<U>,
}

impl<U> Copy for Size<U> {
}

impl<U> Clone for Size<U> {
    fn clone(&self) -> (r: Self)
        ensures
            r == *self,
    {
        *self
    }
}

impl<U> Size<U> {
    pub fn new(width: usize, height: usize) -> (r: Self)
        ensures
            r.width == width,
            r.height == height,
    {
        Size { width, height, space: core::marker::PhantomData }
    }

    /// The number of cells in a grid of this size.
    pub open spec fn spec_area(self) -> int {
        self.width * self.height
    }

    pub fn area(&self) -> (r: usize)
        requires
            self.spec_area() <= usize::MAX,
        ensures
            r == self.spec_area(),
    {
        self.width * self.height
    }

    /// True iff `index` lies inside the half-open box `[0, self)` on both axes.
    pub open spec fn spec_contains(self, index: Index<U>) -> bool {
        index.x < self.width && index.y < self.height
    }

    pub fn contains(&self, index: Index<U>) -> (r: bool)
        ensures
            r == self.spec_contains(index),
    {
        index.x < self.width && index.y < self.height
    }
}

} // verus!
