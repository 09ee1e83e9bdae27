use arc_slice::bytes_mut::TryGetError;
use arc_slice::error::{AllocError, TryReserveError};
use arc_slice::layout::{ArcLayout, VecLayout};
use arc_slice::utils::{offset_len, RangeError};
use arc_slice::{ArcBytes, ArcBytesMut, ArcSliceMut};
use std::ops::Bound;

type Own = ArcLayout<false, false>;

#[test]
fn messages() {
    assert_eq!(AllocError.message(), "allocation error");
    assert_eq!(TryReserveError::NotUnique.message(), "not unique");
    assert_eq!(TryReserveError::Unsupported.message(), "unsupported");
    assert_eq!(TryReserveError::AllocError.message(), "allocation error");
    assert_eq!(TryReserveError::CapacityOverflow.message(), "capacity overflow");
    assert_eq!(TryReserveError::from(AllocError), TryReserveError::AllocError);
    assert_eq!(RangeError::InvalidRange.message(), "invalid range");
    assert_eq!(RangeError::OutOfRange.message(), "out of range");
    assert_eq!(RangeError::NotABoundary.message(), "not a char boundary");
    let error = TryGetError { requested: 10, available: 7 };
    assert_eq!(
        error.message(),
        "Not enough bytes remaining in buffer to read value (requested 10 but only 7 available)"
    );
    assert_eq!(
        error.advance_message(),
        "advance out of bounds: the len is 7 but advancing by 10"
    );
    assert_eq!(
        arc_slice::bytes_mut::does_not_fit_message(8, 123),
        "size too large: the integer type can fit 8 bytes, but nbytes is 123"
    );
}

#[test]
fn not_unique() {
    let mut a = ArcBytesMut::<Own>::from(b"hello").into_shared();
    let b = a.split_off(3);
    assert_eq!(a.try_reserve(10), Err(TryReserveError::NotUnique));
    assert!(!a.try_reclaim(1));
    assert!(a == b"hel");
    drop(b);
    assert_eq!(a.try_reserve(10), Ok(()));
    assert!(a == b"hel");
    assert_eq!(a.capacity(), 13);
}

#[test]
fn droppable_vectors_grow() {
    let mut s = ArcSliceMut::<[String], ArcLayout<true, false>, true>::from(vec!["a".to_string()]);
    assert_eq!(s.try_reserve(10), Ok(()));
    s.push("b".to_string());
    assert!(s == ["a".to_string(), "b".to_string()]);
    let mut s = ArcSliceMut::<[String], VecLayout, true>::from(vec!["a".to_string()]);
    assert_eq!(s.try_reserve(100), Ok(()));
    assert!(s == vec!["a".to_string()]);
}

#[test]
fn capacity_overflow() {
    let mut s = ArcBytesMut::<Own>::from(b"hello");
    assert_eq!(s.try_reserve(usize::MAX), Err(TryReserveError::CapacityOverflow));
    assert_eq!(
        s.try_reserve(isize::MAX as usize),
        Err(TryReserveError::CapacityOverflow)
    );
    assert!(s == b"hello");
    assert_eq!(s.capacity(), 5);
}

#[test]
fn allocation_errors() {
    let most = isize::MAX as usize - std::mem::size_of::<usize>();
    assert!(ArcBytesMut::<Own>::try_with_capacity(most).is_err());
    assert!(ArcBytesMut::<Own>::try_with_capacity(isize::MAX as usize - 64).is_err());
    assert!(ArcBytesMut::<Own>::try_zeroed(most).is_err());
    let mut s = ArcBytesMut::<Own>::new();
    assert_eq!(
        s.try_reserve(isize::MAX as usize - 64),
        Err(TryReserveError::AllocError)
    );
    assert_eq!(s.capacity(), 0);
}

#[test]
fn ranges() {
    let bytes: &[u8] = b"hello";
    assert_eq!(offset_len(bytes, &(1..3)), Ok((1, 2)));
    assert_eq!(offset_len(bytes, &(1..=3)), Ok((1, 3)));
    assert_eq!(offset_len(bytes, &(2..)), Ok((2, 3)));
    assert_eq!(offset_len(bytes, &(..2)), Ok((0, 2)));
    assert_eq!(offset_len(bytes, &(..=2)), Ok((0, 3)));
    assert_eq!(offset_len(bytes, &(..)), Ok((0, 5)));
    assert_eq!(offset_len(bytes, &(5..)), Ok((5, 0)));
    assert_eq!(
        offset_len(bytes, &(Bound::Excluded(1), Bound::Unbounded)),
        Ok((2, 3))
    );
    assert_eq!(offset_len(bytes, &(0..6)), Err(RangeError::OutOfRange));
    assert_eq!(offset_len(bytes, &(3..2)), Err(RangeError::InvalidRange));
    assert_eq!(offset_len(bytes, &(6..)), Err(RangeError::InvalidRange));
    assert_eq!(offset_len(bytes, &(0..=usize::MAX)), Err(RangeError::InvalidRange));
    assert_eq!(
        offset_len(bytes, &(Bound::Excluded(usize::MAX), Bound::Unbounded)),
        Err(RangeError::InvalidRange)
    );
    assert_eq!(offset_len("h\u{e9}", &(0..2)), Err(RangeError::NotABoundary));
    assert_eq!(offset_len("h\u{e9}", &(1..3)), Ok((1, 2)));
}

#[test]
fn unshared_results() {
    let bytes = ArcBytes::<Own>::from(b"hello");
    assert!(bytes.is_unique());
    let clone = bytes.clone();
    assert!(!bytes.is_unique());
    assert!(bytes.try_into_mut::<Own>().is_err());
    assert!(clone.is_unique());
}
