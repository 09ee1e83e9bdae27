use arc_slice::inlined::{SmallArcSlice, SmallSlice};
use arc_slice::layout::{ArcLayout, RawLayout, VecLayout};
use arc_slice::{ArcBytes, ArcSlice};
use either::Either;

type Own = ArcLayout<false, false>;

const WORD: usize = std::mem::size_of::<usize>();

#[test]
fn inlined() {
    let mut bytes = ArcBytes::<Own>::from([0, 1, 2, 3]);
    assert!(bytes == [0, 1, 2, 3]);
    assert!(bytes.split_off(2) == [2, 3]);
    assert!(bytes == [0, 1]);

    let bytes = SmallArcSlice::<[u8], Own>::from([0, 1, 2, 3]);
    assert!(bytes == [0, 1, 2, 3]);
    assert!(bytes.subslice(2..) == [2, 3]);
    assert!(bytes.subslice(..2) == [0, 1]);
}

#[test]
fn small_slices_are_limited() {
    let fits = vec![7u8; 3 * WORD - 2];
    let exceeds = vec![7u8; 3 * WORD - 1];
    assert!(SmallSlice::<[u8], Own>::new(&fits[..]).unwrap() == fits[..]);
    assert!(SmallSlice::<[u8], Own>::new(&exceeds[..]).is_none());
    let fits = vec![7u8; 4 * WORD - 2];
    let exceeds = vec![7u8; 4 * WORD - 1];
    assert!(SmallSlice::<[u8], VecLayout>::new(&fits[..]).unwrap() == &fits[..]);
    assert!(SmallSlice::<[u8], VecLayout>::new(&exceeds[..]).is_none());
    assert!(SmallSlice::<[u8], RawLayout>::new(&fits[..]).is_some());
}

#[test]
fn small_slice_operations() {
    let mut s = SmallSlice::<[u8], Own>::new(b"hello world".as_slice()).unwrap();
    assert_eq!(s.len(), 11);
    assert!(!s.is_empty());
    let part = s.subslice(2..5);
    assert!(part == b"llo");
    s.advance(6);
    assert!(s == b"world");
    s.truncate(2);
    assert!(s == b"wo");
    s.truncate(9);
    assert!(s == b"wo");
    let copy = s;
    assert!(copy == s);
    assert_eq!(&*copy, b"wo");
    assert!(SmallSlice::<[u8], Own>::empty().is_empty());
    assert!(SmallSlice::<str, Own>::default().is_empty());
    assert_eq!(copy.to_lower_hex(), "776f");
    assert_eq!(copy.to_upper_hex(), "776F");
    assert_eq!(part.as_slice(), b"llo");
}

#[test]
fn small_or_shared() {
    let small = SmallArcSlice::<[u8], Own>::from_slice(b"hello".as_slice());
    assert!(small.as_either().is_left());
    let large = vec![1u8; 100];
    let shared = SmallArcSlice::<[u8], Own>::from_slice(&large[..]);
    assert!(shared.as_either().is_right());
    assert_eq!(shared.len(), 100);
    assert!(shared == large[..]);
    // a part is kept as the whole is, whatever its size
    assert!(shared.subslice(..2).as_either().is_right());
    assert!(small.try_subslice(..2).ok().unwrap().as_either().is_left());
    assert!(small.try_clone().ok().unwrap() == small);
    assert!(shared.clone() == shared);
    assert!(SmallArcSlice::<[u8], Own>::try_from_slice(b"hello".as_slice()).ok().unwrap() == b"hello");
    assert!(SmallArcSlice::<[u8], Own>::new().is_empty());
    assert!(SmallArcSlice::<[u8], Own>::default().as_either().is_left());
    assert_eq!(small.to_lower_hex(), "68656c6c6f");
    assert_eq!(small.to_upper_hex(), "68656C6C6F");
    assert_eq!(&*small, b"hello");
}

#[test]
fn small_or_shared_conversions() {
    let array = SmallArcSlice::<[u8], Own>::from_array([9; 40]);
    assert!(array.as_either().is_right());
    assert!(SmallArcSlice::<[u8], Own>::try_from_array([9; 4]).ok().unwrap() == [9; 4]);
    // what is shared already stays shared
    let vec = SmallArcSlice::<[u8], VecLayout>::from(vec![1, 2]);
    match vec.into_either() {
        Either::Left(_) => panic!("a vector is kept"),
        Either::Right(arc) => {
            assert_eq!(arc.try_into_buffer::<Vec<u8>>().ok().unwrap(), [1, 2]);
        }
    }
    let text = SmallArcSlice::<str, VecLayout>::from_static("abc");
    assert!(text.as_either().is_right());
    assert_eq!(&*text, "abc");
    assert!(SmallArcSlice::<[u8], VecLayout>::from_static(b"abc").as_either().is_right());
    let arc = SmallArcSlice::<[u8], Own>::from(ArcSlice::from(b"abc"));
    assert!(arc.as_either().is_right());
    let small = SmallArcSlice::<[u8], Own>::from(SmallSlice::new(b"abc".as_slice()).unwrap());
    assert!(small == arc);
    assert!(SmallArcSlice::<str, VecLayout>::from("abc".to_string()) == *"abc");
    assert!(SmallArcSlice::<str, VecLayout>::from("abc") == *"abc");
}

#[test]
fn changes_go_through() {
    let mut small = SmallArcSlice::<[u8], Own>::from_slice(b"hello".as_slice());
    small._advance(2);
    assert!(small == b"llo");
    match small.as_either_mut() {
        Either::Left(s) => s.truncate(1),
        Either::Right(_) => panic!("small"),
    }
    assert!(small == b"l");
    let mut shared = SmallArcSlice::<[u8], Own>::from_array([9; 40]);
    shared._advance(38);
    assert!(shared == [9, 9]);
    assert!(shared.as_either().is_right());
}
