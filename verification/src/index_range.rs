//! Range expressions over 2D coordinates and their normalization to one
//! canonical half-open rectangle.

use vstd::prelude::*;

use crate::geom::Index;
use crate::geom::Size;

verus! {

/// The canonical half-open rectangle `[start, end)`. Every range expression
/// is normalized to this form before a crop clamps it to the grid.
#[derive(Debug, PartialEq, Eq, Hash)]
pub struct Rect<U> {
    pub start: Index<U>,
    pub end: Index<U>,
}

impl<U> Copy for Rect<U> {

}

impl<U> Clone for Rect<U> {
    fn clone(&self) -> (r: Self)
        ensures
            r == *self,
    {
        *self
    }
}

impl<U> Rect<U> {
    pub fn new(start: Index<U>, end: Index<U>) -> (r: Self)
        ensures
            r.start == start,
            r.end == end,
    {
        Rect { start, end }
    }

    /// Not inverted on either axis.
    pub open spec fn spec_ordered(self) -> bool {
        self.start.x <= self.end.x && self.start.y <= self.end.y
    }

    /// Both corners clamped componentwise into `[0, size]`.
    pub open spec fn spec_clamp(self, size: Size<U>) -> Rect<U> {
        Rect { start: self.start.spec_clamp(size), end: self.end.spec_clamp(size) }
    }

    /// `inner`, translated into this rectangle's frame and intersected with
    /// this rectangle.
    pub open spec fn spec_compose(self, inner: Rect<U>) -> Rect<U> {
        Rect {
            start: Index {
                x: vstd::math::min(self.start.x + inner.start.x, self.end.x as int) as usize,
                y: vstd::math::min(self.start.y + inner.start.y, self.end.y as int) as usize,
                space: self.start.space,
            },
            end: Index {
                x: vstd::math::min(self.start.x + inner.end.x, self.end.x as int) as usize,
                y: vstd::math::min(self.start.y + inner.end.y, self.end.y as int) as usize,
                space: self.start.space,
            },
        }
    }
}

/// A range expression over coordinates: one of the supported forms that a
/// crop accepts, each normalized against a grid size to a canonical `Rect`.
#[derive(Debug, PartialEq, Eq, Hash)]
pub enum IndexRange<U> {
    /// `[a, b)`: kept as it is.
    HalfOpen(Index<U>, Index<U>),
    /// `[a, b]`: the end moves one unit out on both axes.
    Inclusive(Index<U>, Index<U>),
    /// `[a, ..)`: the end becomes the grid's full extent.
    FromStart(Index<U>),
    /// `[.., b)`: the start becomes the origin.
    UpTo(Index<U>),
    /// `[.., b]`: both conversions combined.
    UpToInclusive(Index<U>),
    /// `..`: the whole grid.
    Full,
}

impl<U> Copy for IndexRange<U> {

}

impl<U> Clone for IndexRange<U> {
    fn clone(&self) -> (r: Self)
        ensures
            r == *self,
    {
        *self
    }
}

impl<U> IndexRange<U> {
    /// An inclusive end must leave room for the one-unit widening.
    pub open spec fn spec_normalizable(self) -> bool {
        match self {
            IndexRange::Inclusive(_, b) => b.x < usize::MAX && b.y < usize::MAX,
            IndexRange::UpToInclusive(b) => b.x < usize::MAX && b.y < usize::MAX,
            _ => true,
        }
    }

    /// The canonical half-open rectangle this expression stands for, against
    /// a grid of extent `size`.
    pub open spec fn spec_normalize(self, size: Size<U>) -> Rect<U>
        recommends
            self.spec_normalizable(),
    {
        match self {
            IndexRange::HalfOpen(a, b) => Rect { start: a, end: b },
            IndexRange::Inclusive(a, b) => Rect {
                start: a,
                end: Index { x: (b.x + 1) as usize, y: (b.y + 1) as usize, space: b.space },
            },
            IndexRange::FromStart(a) => Rect {
                start: a,
                end: Index { x: size.width, y: size.height, space: a.space },
            },
            IndexRange::UpTo(b) => Rect {
                start: Index { x: 0, y: 0, space: b.space },
                end: b,
            },
            IndexRange::UpToInclusive(b) => Rect {
                start: Index { x: 0, y: 0, space: b.space },
                end: Index { x: (b.x + 1) as usize, y: (b.y + 1) as usize, space: b.space },
            },
            IndexRange::Full => Rect {
                start: Index { x: 0, y: 0, space: size.space },
                end: Index { x: size.width, y: size.height, space: size.space },
            },
        }
    }

    /// Not inverted: the two-corner forms must not put the start past the
    /// end on either axis. The open-ended forms can never be inverted.
    pub open spec fn spec_ordered(self) -> bool {
        match self {
            IndexRange::HalfOpen(a, b) => a.x <= b.x && a.y <= b.y,
            IndexRange::Inclusive(a, b) => a.x <= b.x + 1 && a.y <= b.y + 1,
            _ => true,
        }
    }

    /// Convert to the canonical half-open rectangle. Performs no clamping:
    /// that is the crop's responsibility, after normalization.
    pub fn normalize(self, size: Size<U>) -> (r: Rect<U>)
        requires
            self.spec_normalizable(),
        ensures
            r == self.spec_normalize(size),
    {
        match self {
            IndexRange::HalfOpen(a, b) => Rect { start: a, end: b },
            IndexRange::Inclusive(a, b) => Rect {
                start: a,
                end: Index::new(b.x + 1, b.y + 1),
            },
            IndexRange::FromStart(a) => Rect {
                start: a,
                end: Index::new(size.width, size.height),
            },
            IndexRange::UpTo(b) => Rect { start: Index::zero(), end: b },
            IndexRange::UpToInclusive(b) => Rect {
                start: Index::zero(),
                end: Index::new(b.x + 1, b.y + 1),
            },
            IndexRange::Full => Rect {
                start: Index::zero(),
                end: Index::new(size.width, size.height),
            },
        }
    }

    /// An ordered range stays ordered after normalization and clamping, for
    /// every grid size.
    pub proof fn lemma_ordered_clamp(self, size: Size<U>)
        requires
            self.spec_normalizable(),
            self.spec_ordered(),
        ensures
            self.spec_normalize(size).spec_clamp(size).spec_ordered(),
    {
    }
}

} // verus!
