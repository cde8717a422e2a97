//! A dense two-dimensional array addressed by `(x, y)` coordinates, with
//! zero-copy rectangular sub-views, bounds-checked access, and row-wise
//! iteration. Coordinate values carry a compile-time space tag so that
//! indices from unrelated coordinate spaces cannot be mixed.

pub mod array2d;
pub mod as_slice;
pub mod geom;
pub mod index_range;
pub mod lines;
pub mod slice2d;

pub use array2d::Array2D;
pub use as_slice::AsMutSlice;
pub use as_slice::AsSlice;
pub use geom::Index;
pub use geom::Size;
pub use geom::UnknownUnit;
pub use index_range::IndexRange;
pub use index_range::Rect;
pub use lines::Lines;
pub use slice2d::Slice2D;
pub use slice2d::Slice2DMut;
