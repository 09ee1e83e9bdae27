use arc_slice::bytes_mut::{
    min_u64_usize, saturating_sub_usize_u64, Bytes, BytesMut, TryGetError,
};

fn filled(bytes: &[u8], capacity: usize) -> BytesMut {
    let mut b = BytesMut::with_capacity(capacity);
    b.extend_from_slice(bytes);
    b
}

#[test]
fn numbers() {
    assert_eq!(saturating_sub_usize_u64(10, 3), 7);
    assert_eq!(saturating_sub_usize_u64(3, 10), 0);
    assert_eq!(saturating_sub_usize_u64(3, u64::MAX), 0);
    assert_eq!(min_u64_usize(3, 10), 3);
    assert_eq!(min_u64_usize(u64::MAX, 10), 10);
}

#[test]
fn construction() {
    assert_eq!(BytesMut::new().capacity(), 0);
    assert_eq!(BytesMut::with_capacity(10).capacity(), 10);
    assert!(BytesMut::default().is_empty());
    assert_eq!(BytesMut::zeroed(3).as_slice(), [0, 0, 0]);
    assert_eq!(BytesMut::from_vec(vec![1, 2]).as_slice(), [1, 2]);
    assert_eq!(BytesMut::copy_from_slice(b"abc").clone().as_slice(), b"abc");
    assert_eq!(BytesMut::from_vec(vec![1, 2]).into_vec(), [1, 2]);
    assert!(BytesMut::from_vec(vec![1, 2]).freeze() == [1, 2]);
}

#[test]
fn resize() {
    let mut b = filled(b"abc", 4);
    assert_eq!(b.resize(2, b'x'), Ok(()));
    assert_eq!(b.as_slice(), b"ab");
    assert_eq!(b.resize(2, b'x'), Ok(()));
    assert_eq!(b.resize(6, b'x'), Ok(()));
    assert_eq!(b.as_slice(), b"abxxxx");
    let rest = b.split_off(3);
    assert!(b.resize(100, b'x').is_err());
    assert_eq!(b.as_slice(), b"abx");
    assert_eq!(rest.as_slice(), b"xxx");
}

#[test]
fn splits() {
    let mut b = filled(b"hello world", 20);
    let hello = b.split_to(5);
    assert_eq!(hello.as_slice(), b"hello");
    assert_eq!(b.as_slice(), b" world");
    assert_eq!(b.capacity(), 15);
    let all = b.split();
    assert_eq!(all.as_slice(), b" world");
    assert!(b.is_empty());
    assert_eq!(b.capacity(), 9);
    let mut c = filled(b"abc", 8);
    let spare = c.split_off(5);
    assert_eq!((spare.len(), spare.capacity()), (0, 3));
    assert_eq!((c.len(), c.capacity()), (3, 5));
    c.clear();
    assert!(c.is_empty());
}

#[test]
fn unsplit_joins_or_copies() {
    let mut a = filled(b"hello world", 11);
    let b = a.split_off(5);
    a.unsplit(b);
    assert_eq!(a.as_slice(), b"hello world");
    assert_eq!(a.capacity(), 11);
    a.unsplit(BytesMut::copy_from_slice(b"!"));
    assert_eq!(a.as_slice(), b"hello world!");
    let mut empty = BytesMut::new();
    empty.unsplit(filled(b"x", 50));
    assert_eq!(empty.as_slice(), b"x");
    assert_eq!(empty.capacity(), 50);
}

#[test]
fn reserve_copies_what_is_shared() {
    let mut a = filled(b"hello world", 11);
    let b = a.split_off(5);
    a.reserve(10);
    assert_eq!(a.as_slice(), b"hello");
    assert_eq!(a.capacity(), 15);
    assert_eq!(b.as_slice(), b" world");
    let mut c = filled(b"hello", 5);
    c.reserve(1);
    assert_eq!(c.capacity(), 10);
    assert!(!c.try_reclaim(100));
    assert!(c.try_reclaim(5));
}

#[test]
fn extend_copies_what_is_shared() {
    let mut a = filled(b"hello world", 11);
    let b = a.split_off(5);
    a.extend_from_slice(b"!!");
    assert_eq!(a.as_slice(), b"hello!!");
    assert_eq!(b.as_slice(), b" world");
    a.extend(vec![Bytes::from(vec![1, 2]), Bytes::from(vec![3])]);
    assert_eq!(a.as_slice(), b"hello!!\x01\x02\x03");
}

#[test]
fn reading_and_writing() {
    let mut a = filled(b"hello", 8);
    assert_eq!(a.remaining(), 5);
    assert_eq!(a.remaining_mut(), usize::MAX - 5);
    assert_eq!(a.advance_mut(3), Ok(8));
    assert_eq!(
        a.advance_mut(4),
        Err(TryGetError { requested: 4, available: 3 })
    );
    assert_eq!(a.chunk_mut(), 3);
    a.put_bytes(b'!', 3);
    assert_eq!(a.as_slice(), b"hello!!!");
    assert!(a.chunk_mut() >= 64);
    a.put_slice(b"?");
    assert!(a.write_str("abc"));
    assert_eq!(a.as_slice(), b"hello!!!?abc");
    a.advance(5);
    assert!(a.copy_to_bytes(3) == b"!!!");
    assert_eq!(a.as_slice(), b"?abc");
    a.as_mut_slice()[0] = b'_';
    assert_eq!(a.as_slice(), b"_abc");
    a.truncate(1);
    assert_eq!(a.as_slice(), b"_");
}

#[test]
fn from_shared_bytes() {
    let bytes = Bytes::from(vec![1, 2, 3]);
    let clone = bytes.clone();
    assert_eq!(BytesMut::from_bytes(bytes).as_slice(), [1, 2, 3]);
    let mut unique = BytesMut::from_bytes(clone);
    unique.extend_from_slice(&[4]);
    assert_eq!(unique.into_vec(), [1, 2, 3, 4]);
    let mut shared = BytesMut::from_vec(vec![1, 2, 3]);
    let tail = shared.split_off(2);
    assert_eq!(shared.into_vec(), [1, 2]);
    assert_eq!(tail.into_vec(), [3]);
}

#[test]
fn comparisons() {
    let b = BytesMut::copy_from_slice(b"abc");
    assert!(b == BytesMut::from_vec(b"abc".to_vec()));
    assert!(b == b"abc"[..]);
    assert!(b == *"abc");
    assert!(b == b"abc".to_vec());
    assert!(b == String::from("abc"));
    assert!(b"abc"[..] == b);
    assert!(*"abc" == b);
    assert!(b"abc".to_vec() == b);
    assert!(String::from("abc") == b);
    assert!(b != BytesMut::copy_from_slice(b"abd"));
    assert!(b < BytesMut::copy_from_slice(b"abd"));
    assert!(b > BytesMut::copy_from_slice(b"ab"));
    assert!(b < *"b");
    let shared: Bytes = BytesMut::copy_from_slice(b"abc").freeze();
    assert!(b == shared);
    assert!(shared == b);
}

#[test]
fn conversions() {
    assert_eq!(BytesMut::from(&b"abc"[..]).as_ref(), b"abc");
    assert_eq!(BytesMut::from("abc").len(), 3);
    assert_eq!(&BytesMut::from(vec![1u8, 2])[..], [1, 2]);
    let shared: Bytes = BytesMut::copy_from_slice(b"abc").freeze();
    let other = shared.clone();
    assert_eq!(BytesMut::from(shared).as_slice(), b"abc");
    assert!(other == b"abc");
}

#[test]
fn textual_forms_of_buffers() {
    let b = BytesMut::copy_from_slice(b"\x0a\xffz");
    assert_eq!(b.to_lower_hex(), "0aff7a");
    assert_eq!(b.to_upper_hex(), "0AFF7A");
    assert_eq!(b.to_debug(), "b\"\\n\\xffz\"");
}

#[test]
fn truncation_keeps_capacity() {
    let mut b = filled(b"abcdef", 10);
    b.truncate(2);
    assert_eq!((b.len(), b.capacity()), (2, 10));
    b.clear();
    assert_eq!((b.len(), b.capacity()), (0, 10));
}

#[test]
fn copied_when_shared() {
    let mut b = filled(b"abcdef", 6);
    let rest = b.split_off(3);
    b.extend_from_slice(b"xy");
    assert_eq!(b.as_slice(), b"abcxy");
    assert_eq!(b.capacity(), 5);
    assert_eq!(rest.as_slice(), b"def");
}

#[test]
fn bytes_one_after_the_other() {
    let mut b = BytesMut::new();
    b.extend_bytes(vec![1, 2]);
    b.extend_bytes(vec![3]);
    assert_eq!(b.as_slice(), [1, 2, 3]);
}
