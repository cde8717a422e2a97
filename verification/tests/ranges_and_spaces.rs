use array2d::Array2D;
use array2d::AsMutSlice;
use array2d::AsSlice;
use array2d::Index;
use array2d::IndexRange;
use array2d::Rect;
use array2d::Size;
use array2d::UnknownUnit;

type S = UnknownUnit;

#[test]
fn normalize_half_open_is_unchanged() {
    let r = IndexRange::<S>::HalfOpen(Index::new(1, 2), Index::new(3, 4));
    let rect = r.normalize(Size::new(10, 10));
    assert_eq!(Rect::new(Index::new(1, 2), Index::new(3, 4)), rect);
}

#[test]
fn normalize_inclusive_adds_one_unit() {
    let r = IndexRange::<S>::Inclusive(Index::new(1, 2), Index::new(3, 4));
    let rect = r.normalize(Size::new(10, 10));
    assert_eq!(Rect::new(Index::new(1, 2), Index::new(4, 5)), rect);
}

#[test]
fn normalize_from_start_ends_at_extent() {
    let r = IndexRange::<S>::FromStart(Index::new(1, 2));
    let rect = r.normalize(Size::new(10, 20));
    assert_eq!(Rect::new(Index::new(1, 2), Index::new(10, 20)), rect);
}

#[test]
fn normalize_up_to_starts_at_origin() {
    let r = IndexRange::<S>::UpTo(Index::new(3, 4));
    let rect = r.normalize(Size::new(10, 20));
    assert_eq!(Rect::new(Index::new(0, 0), Index::new(3, 4)), rect);
}

#[test]
fn normalize_up_to_inclusive_combines_both() {
    let r = IndexRange::<S>::UpToInclusive(Index::new(3, 4));
    let rect = r.normalize(Size::new(10, 20));
    assert_eq!(Rect::new(Index::new(0, 0), Index::new(4, 5)), rect);
}

#[test]
fn normalize_full_covers_the_grid() {
    let r = IndexRange::<S>::Full;
    let rect = r.normalize(Size::new(10, 20));
    assert_eq!(Rect::new(Index::new(0, 0), Index::new(10, 20)), rect);
}

#[test]
fn normalize_does_not_clamp() {
    let r = IndexRange::<S>::HalfOpen(Index::new(0, 0), Index::new(99, 99));
    let rect = r.normalize(Size::new(10, 10));
    assert_eq!(Index::new(99, 99), rect.end);
}

struct Screen;

struct World;

#[test]
fn distinct_spaces_have_their_own_grids() {
    let screen = Array2D::<u8, Screen>::new(Size::new(4, 4), 1);
    let world = Array2D::<u8, World>::new(Size::new(9, 9), 2);
    assert_eq!(Some(&1), screen.get(Index::<Screen>::new(2, 2)));
    assert_eq!(Some(&2), world.get(Index::<World>::new(2, 2)));
}

#[test]
fn index_and_size_helpers() {
    let z = Index::<S>::zero();
    assert_eq!(Index::new(0, 0), z);
    let p = Index::<S>::new(7, 3).clamp(Size::new(5, 5));
    assert_eq!(Index::new(5, 3), p);
    let s = Size::<S>::new(6, 7);
    assert_eq!(42, s.area());
    assert!(s.contains(Index::new(5, 6)));
    assert!(!s.contains(Index::new(6, 0)));
    assert!(!s.contains(Index::new(0, 7)));
}

#[test]
fn storage_capability_exposes_contents() {
    let v: Vec<u8> = vec![1, 2, 3];
    assert_eq!(&[1, 2, 3], AsSlice::as_slice(&v));
    let borrowed: &[u8] = &v;
    assert_eq!(&[1, 2, 3], AsSlice::as_slice(&borrowed));
    let mut m: Vec<u8> = vec![4, 5];
    AsMutSlice::as_mut_slice(&mut m)[0] = 9;
    assert_eq!(vec![9, 5], m);
}
