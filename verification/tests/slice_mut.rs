use arc_slice::layout::{ArcLayout, VecLayout};
use arc_slice::ArcBytesMut;

#[test]
fn reclaim_vec() {
    let mut bytes = ArcBytesMut::<VecLayout>::from(Vec::with_capacity(1000));
    let ptr = bytes.as_slice().as_ptr();
    bytes.extend((0..100).collect());
    bytes.advance(100);
    bytes.reserve(1000);
    assert_eq!(bytes.as_slice().as_ptr(), ptr);
}

type Own = ArcLayout<false, false>;

#[test]
fn mutates_and_freezes() {
    let mut s = ArcBytesMut::<Own>::with_capacity(16);
    s.extend_from_slice(b"hello");
    assert!(s == b"hello");
    s.as_mut_slice().copy_from_slice(b"bye!!");
    assert!(s == b"bye!!");
    let frozen = s.freeze::<Own>();
    assert!(frozen == b"bye!!");
}

#[test]
fn capacity_and_length() {
    let s = ArcBytesMut::<Own>::with_capacity(64);
    assert!(s.is_empty());
    assert_eq!(s.len(), 0);
    assert_eq!(s.capacity(), 64);
    assert_eq!(s.spare_capacity(), 64);
    let s = ArcBytesMut::<Own>::try_with_capacity(64).unwrap_or_default();
    assert_eq!(s.capacity(), 64);
    let s = ArcBytesMut::<Own>::zeroed(4);
    assert!(s == [0, 0, 0, 0]);
    assert_eq!(s.capacity(), 4);
    let s = ArcBytesMut::<Own>::try_zeroed(4).unwrap_or_default();
    assert!(s == [0, 0, 0, 0]);
    let s = ArcBytesMut::<Own>::new();
    assert_eq!(s.capacity(), 0);
    assert!(s == []);
}

#[test]
fn reclaim_brings_back_capacity() {
    let mut s = ArcBytesMut::<Own>::from_iter((0..64).collect());
    let ptr = s.as_slice().as_ptr();
    s.advance(60);
    assert_eq!(s.capacity(), 4);
    assert!(s == [60, 61, 62, 63]);

    assert!(s.try_reclaim(16));
    assert_eq!(s.capacity(), 64);
    assert!(s == [60, 61, 62, 63]);
    assert_eq!(s.as_slice().as_ptr(), ptr);
    assert!(!s.try_reclaim(100));
    assert_eq!(s.capacity(), 64);
}

#[test]
fn reclaim_does_not_overlap() {
    // 40 items do not fit in front of the place where they start
    let mut s = ArcBytesMut::<Own>::from_iter((0..64).collect());
    s.advance(24);
    assert_eq!(s.len(), 40);
    assert!(!s.try_reclaim(1));
    assert_eq!(s.capacity(), 40);
}

#[test]
fn reserve_doubles() {
    let mut s = ArcBytesMut::<Own>::from(b"hello");
    assert_eq!(s.capacity(), 5);
    s.reserve(1);
    assert_eq!(s.capacity(), 10);
    s.reserve(100);
    assert_eq!(s.capacity(), 105);
    assert!(s == b"hello");

    let mut s = ArcBytesMut::<Own>::new();
    s.push(1);
    assert_eq!(s.capacity(), 8);
    assert!(s == [1]);

    let mut s = arc_slice::ArcSliceMut::<[u32], Own, true>::new();
    s.push(1);
    assert_eq!(s.capacity(), 4);
}

#[test]
fn try_push_and_extend() {
    let mut s = ArcBytesMut::<Own>::new();
    assert!(s.try_push(42).is_ok());
    assert!(s == [42]);
    assert!(s.try_extend_from_slice(b"hello").is_ok());
    assert!(s == [42, b'h', b'e', b'l', b'l', b'o']);
    assert!(s.write_str(" w").is_ok());
    assert_eq!(s.len(), 8);
}

#[test]
fn advance_and_truncate() {
    let mut s = ArcBytesMut::<Own>::from(b"hello world");
    s.advance(6);
    assert!(s == b"world");
    assert_eq!(s.capacity(), 5);
    s.truncate(2);
    assert!(s == b"wo");
    s.truncate(10);
    assert!(s == b"wo");
    assert_eq!(s.capacity(), 5);
}

#[test]
fn truncate_shrinks_droppable() {
    let mut s = arc_slice::ArcSliceMut::<[String], Own, true>::from(["a".to_string(), "b".to_string()]);
    s.truncate(1);
    assert_eq!(s.capacity(), 1);
    assert!(s == ["a".to_string()]);
}

#[test]
fn split_and_unsplit() {
    let mut a = ArcBytesMut::<Own>::from(b"hello world").into_shared();
    let b = a.split_off(5);
    assert!(a == b"hello");
    assert!(b == b" world");
    assert_eq!((a.capacity(), b.capacity()), (5, 6));
    assert!(a.try_unsplit(b).is_ok());
    assert!(a == b"hello world");
    assert_eq!(a.capacity(), 11);

    let other = ArcBytesMut::<Own>::from(b"other").into_shared();
    match a.try_unsplit(other) {
        Ok(()) => panic!("joined with a slice of another buffer"),
        Err(other) => assert!(other == b"other"),
    }
    assert!(a == b"hello world");
}

#[test]
fn split_to_and_out_of_order() {
    let mut a = ArcBytesMut::<Own>::from(b"hello world").into_shared();
    let mut b = a.split_to(5);
    assert!(a == b" world");
    assert!(b == b"hello");
    // the parts are given in the wrong order
    let a = match a.try_unsplit(b) {
        Ok(()) => panic!("joined in the wrong order"),
        Err(back) => {
            b = back;
            a
        }
    };
    assert!(b.try_unsplit(a).is_ok());
    assert!(b == b"hello world");
}

#[test]
fn split_in_spare_capacity() {
    let mut a = ArcBytesMut::<Own>::with_capacity(10).into_shared();
    assert!(a.try_extend_from_slice(b"abc").is_ok());
    let b = a.split_off(6);
    assert!(a == b"abc");
    assert_eq!((a.len(), a.capacity()), (3, 6));
    assert_eq!((b.len(), b.capacity()), (0, 4));
    // the first part is not full
    assert!(a.try_unsplit(b).is_err());
}

#[test]
fn unsplit_of_nothing() {
    let mut a = ArcBytesMut::<Own>::new().into_shared();
    let b = ArcBytesMut::<Own>::new().into_shared();
    assert!(a.try_unsplit(b).is_ok());
    assert!(a.is_empty());
}

#[test]
fn unique_again() {
    let mut a = ArcBytesMut::<Own>::from(b"hello world").into_shared();
    let b = a.split_to(5);
    assert!(a.try_into_unique().is_err());
    // a has been dropped
    let b = b.try_into_unique();
    assert!(b.is_ok());
    // all the room of the buffer can be had again
    let mut b = b.ok().unwrap();
    assert_eq!(b.capacity(), 5);
    assert!(b.try_reclaim(6));
    assert_eq!(b.capacity(), 11);
    assert!(b == b"hello");

    assert!(ArcBytesMut::<Own>::new().into_shared().try_into_unique().is_err());
    assert!(ArcBytesMut::<Own>::new().try_into_unique().is_ok());
}

#[test]
fn layouts() {
    let a = ArcBytesMut::<VecLayout>::from(vec![0, 1, 2]);
    let b = a.try_with_layout::<ArcLayout<true, false>>().ok().unwrap();
    let b = match b.try_with_layout::<Own>() {
        Ok(_) => panic!("a vector in a layout that does not support it"),
        Err(b) => b,
    };
    assert!(b == [0, 1, 2]);
    let own = ArcBytesMut::<Own>::from([0, 1, 2]).with_layout::<VecLayout>();
    assert!(own == [0, 1, 2]);
    assert!(own.try_with_layout::<Own>().is_ok());
}

#[test]
fn frozen_vector_keeps_layout_rules() {
    let a = ArcBytesMut::<VecLayout>::from(vec![0, 1, 2]);
    let a = match a.try_freeze::<Own>() {
        Ok(_) => panic!("a vector in a layout that does not support it"),
        Err(a) => a,
    };
    let frozen = a.freeze::<VecLayout>();
    assert!(frozen == [0, 1, 2]);
    let empty = ArcBytesMut::<Own>::new().freeze::<Own>();
    assert!(empty == []);
}

#[test]
fn items_and_text() {
    let s = arc_slice::ArcStrMut::<Own>::from("hello world");
    let bytes = s.into_arc_slice_mut();
    assert!(bytes == b"hello world");
    let s = arc_slice::ArcStrMut::<Own>::try_from_arc_slice_mut(bytes);
    assert!(s.is_ok());
    let not_utf8 = ArcBytesMut::<Own>::from(b"\x80\x81");
    match arc_slice::ArcStrMut::<Own>::try_from_arc_slice_mut(not_utf8) {
        Ok(_) => panic!("not text"),
        Err((_, back)) => assert!(back == b"\x80\x81"),
    }
}

#[test]
fn arrays_in_and_out() {
    let s = ArcBytesMut::<Own>::from_array([0, 1, 2]);
    assert!(s.try_into_array::<2>().is_err());
    let s = ArcBytesMut::<Own>::try_from_array([0, 1, 2]).ok().unwrap();
    assert_eq!(s.try_into_array::<3>().ok().unwrap(), [0, 1, 2]);
    assert_eq!(ArcBytesMut::<Own>::new().try_into_array::<0>().ok().unwrap(), [0u8; 0]);
    let mut s = ArcBytesMut::<Own>::from_array([0, 1, 2]);
    s.truncate(2);
    assert!(s.try_into_array::<2>().is_err());
}

#[test]
fn buffers_in_and_out() {
    let s = ArcBytesMut::<ArcLayout<true, false>>::from(vec![0, 1, 2]);
    assert_eq!(s.try_into_buffer::<Vec<u8>>().ok().unwrap(), [0, 1, 2]);

    let mut s = ArcBytesMut::<VecLayout>::from_buffer(vec![0, 1, 2, 3]);
    s.advance(2);
    assert_eq!(s.try_into_buffer::<Vec<u8>>().ok().unwrap(), [2, 3]);

    let s = ArcBytesMut::<Own>::from([0, 1, 2]);
    assert!(s.try_into_buffer::<Vec<u8>>().is_err());

    let mut a = ArcBytesMut::<VecLayout>::from(vec![0, 1, 2]).into_shared();
    let b = a.split_to(1);
    assert!(a.try_into_buffer::<Vec<u8>>().is_err());
    assert_eq!(b.try_into_buffer::<Vec<u8>>().ok().unwrap(), [0]);
}

#[test]
fn metadata_beside_a_buffer() {
    let s = ArcBytesMut::<ArcLayout<true, false>>::from_buffer_with_metadata(
        vec![0, 1, 2],
        "metadata".to_string(),
    );
    assert!(s == [0, 1, 2]);
    assert_eq!(s.metadata::<String>().unwrap(), "metadata");
    assert!(s.metadata::<u8>().is_none());
    assert!(s.metadata::<()>().is_none());
    assert_eq!(s.try_into_buffer::<Vec<u8>>().ok().unwrap(), vec![0, 1, 2]);

    let s = ArcBytesMut::<ArcLayout<true, false>>::try_from_buffer_with_metadata(vec![0, 1, 2], ());
    assert!(s.ok().unwrap().metadata::<()>().is_none());
}

#[test]
fn frozen_and_back() {
    let mut s = ArcBytesMut::<Own>::with_capacity(8);
    s.extend_from_slice(b"abcd");
    s.advance(1);
    let frozen = s.freeze::<Own>();
    let clone = frozen.clone();
    let frozen = frozen.try_into_mut::<Own>().err().unwrap();
    drop(clone);
    let thawed = frozen.try_into_mut::<Own>().ok().unwrap();
    assert!(thawed == b"bcd");
    assert_eq!(thawed.capacity(), 7);
}

#[test]
fn defaults_and_references() {
    let s = ArcBytesMut::<Own>::default();
    assert!(s.is_empty());
    let s = ArcBytesMut::<Own>::from(&b"abc"[..]);
    assert_eq!(&*s, b"abc");
    assert_eq!(s.as_ref(), b"abc");
    assert!(s == *b"abc");
    assert!(s == vec![b'a', b'b', b'c']);
    assert!(s < ArcBytesMut::<Own>::from(b"abd"));
    assert_eq!(s.to_lower_hex(), "616263");
    assert_eq!(s.to_upper_hex(), "616263");
    assert_eq!(s.to_debug(), "b\"abc\"");
}
