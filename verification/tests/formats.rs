use std::io::{Read, Write};

use arc_slice::bytes_mut::BytesMut;
use arc_slice::deserialize::{sequence_capacity, Deserializable, DeserializeError};
use arc_slice::inlined::{SmallArcSlice, SmallSlice};
use arc_slice::layout::{ArcLayout, VecLayout};
use arc_slice::{ArcBytes, ArcBytesMut, ArcSlice, ArcSliceMut, ArcStr};
use bstr::{BStr, BString};
use bytes::Buf;

type Own = ArcLayout<false, false>;

#[test]
fn io_read_copies_the_front() {
    let mut s = ArcBytes::<Own>::from(b"hello");
    let mut buf = [0u8; 3];
    assert_eq!(s.read(&mut buf).unwrap(), 3);
    assert_eq!(&buf, b"hel");
    let mut buf = [9u8; 7];
    assert_eq!(s.read(&mut buf).unwrap(), 5);
    assert_eq!(&buf, b"hello\x09\x09");
    assert!(s == b"hello");
    let mut s = ArcBytesMut::<Own>::from(b"hello");
    assert_eq!(s.read(&mut buf).unwrap(), 5);
}

#[test]
fn io_write_fills_the_room() {
    let mut s = ArcBytesMut::<Own>::with_capacity(4);
    assert_eq!(s.write(b"abcdef").unwrap(), 4);
    assert!(s == b"abcd");
    assert_eq!(s.write(b"x").unwrap(), 0);
    assert!(s.flush().is_ok());
}

#[test]
fn chunks() {
    let mut s = ArcBytes::<Own>::from(b"\x01\x02\x03\x04");
    assert_eq!(s.remaining(), 4);
    assert_eq!(s.chunk(), [1, 2, 3, 4]);
    assert_eq!(s.get_u16(), 0x0102);
    assert!(s == [3, 4]);
    Buf::advance(&mut s, 100);
    assert!(s.is_empty());

    let mut s = ArcBytesMut::<Own>::from(b"\x01\x02\x03\x04");
    assert_eq!(s.get_u8(), 1);
    assert_eq!(s.capacity(), 3);
    assert_eq!(s.chunk(), [2, 3, 4]);

    let mut s = SmallSlice::<[u8], Own>::new(b"\x01\x02".as_slice()).unwrap();
    assert_eq!(s.get_u16_le(), 0x0201);
    let mut s = SmallArcSlice::<[u8], Own>::from([7; 50]);
    assert_eq!(s.get_u32(), 0x0707_0707);
    assert_eq!(s.remaining(), 46);
    let mut s = BytesMut::copy_from_slice(b"\x01\x02");
    assert_eq!(s.get_u8(), 1);
    assert_eq!(Buf::remaining(&s), 1);
    Buf::advance(&mut s, 5);
    assert!(s.is_empty());
}

#[test]
fn byte_strings() {
    let s = ArcSlice::<BStr, Own>::from(BStr::new("hello \u{ff}"));
    assert_eq!(s.as_slice(), BStr::new("hello \u{ff}"));
    assert!(s.subslice(6..7) == *BStr::new(b"\xc3"));
    let s = ArcSlice::<BStr, VecLayout>::from_buffer(BString::from("abc"));
    assert_eq!(s.try_into_buffer::<BString>().ok().unwrap(), BString::from("abc"));
    let mut s = ArcSliceMut::<BStr, VecLayout, true>::from_buffer(BString::from("abc"));
    s.push(b'd');
    s.extend_from_slice(BStr::new("ef"));
    s.as_mut_slice()[0] = b'_';
    assert_eq!(s.try_into_buffer::<BString>().ok().unwrap(), BString::from("_bcdef"));
    let boxed: Box<BStr> = Box::from(vec![1u8, 2].into_boxed_slice());
    let s = ArcSlice::<BStr, VecLayout>::from(boxed);
    assert_eq!(&**s.try_into_buffer::<Box<BStr>>().ok().unwrap(), [1, 2]);
    assert!(ArcSliceMut::<BStr, Own, true>::zeroed(2) == *BStr::new(b"\0\0"));
    let metadata = ArcSliceMut::<BStr, VecLayout, true>::from_buffer_with_metadata(
        BString::from("abc"),
        7u8,
    );
    assert_eq!(metadata.metadata::<u8>(), Some(&7));
    assert_eq!(metadata.try_into_buffer::<BString>().ok().unwrap(), BString::from("abc"));
}

#[test]
fn text_buffers() {
    let s = ArcSliceMut::<str, VecLayout, true>::from_buffer_with_metadata("abc".to_string(), 7u8);
    assert_eq!(s.as_slice(), "abc");
    assert_eq!(s.try_into_buffer::<String>().ok().unwrap(), "abc");
    let mut s = ArcSliceMut::<str, VecLayout, true>::from_buffer("abc".to_string());
    s.as_mut_slice().make_ascii_uppercase();
    s.extend_from_slice("d");
    assert_eq!(s.try_into_buffer::<String>().ok().unwrap(), "ABCd");
    assert_eq!(ArcSliceMut::<str, Own, true>::zeroed(2).as_slice(), "\0\0");
}

#[test]
fn what_is_expected() {
    assert_eq!(<[u8]>::expecting(), "a byte string");
    assert_eq!(<str>::expecting(), "a string");
    assert_eq!(BStr::expecting(), "a byte string");
}

#[test]
fn bytes_and_text_are_told_apart() {
    assert_eq!(<[u8]>::deserialize_from_bytes(b"abc"), Ok(b"abc".as_slice()));
    assert_eq!(<[u8]>::deserialize_from_byte_buf(vec![1]), Ok(vec![1]));
    assert_eq!(<[u8]>::deserialize_from_str("abc"), Err(DeserializeError::UnexpectedStr));
    assert_eq!(
        <[u8]>::deserialize_from_string("abc".to_string()),
        Err(DeserializeError::UnexpectedStr)
    );
    assert_eq!(<str>::deserialize_from_bytes(b"abc"), Ok("abc"));
    assert_eq!(<str>::deserialize_from_bytes(b"\xff"), Err(DeserializeError::InvalidUtf8));
    assert_eq!(<str>::deserialize_from_byte_buf(vec![97]), Ok("a".to_string()));
    assert_eq!(
        <str>::deserialize_from_byte_buf(vec![0xff]),
        Err(DeserializeError::InvalidUtf8)
    );
    assert_eq!(<str>::deserialize_from_str("abc"), Ok("abc"));
    assert_eq!(<str>::deserialize_from_string("abc".to_string()), Ok("abc".to_string()));
    assert_eq!(BStr::deserialize_from_bytes(b"\xff"), Ok(BStr::new(b"\xff")));
    assert_eq!(BStr::deserialize_from_byte_buf(vec![0xff]), Ok(BString::from(vec![0xff])));
    assert_eq!(BStr::deserialize_from_str("abc"), Ok(BStr::new("abc")));
    assert_eq!(
        BStr::deserialize_from_string("abc".to_string()),
        Ok(BString::from("abc"))
    );
}

#[test]
fn bytes_that_were_read() {
    assert_eq!(sequence_capacity(None), 0);
    assert_eq!(sequence_capacity(Some(10)), 10);
    assert_eq!(sequence_capacity(Some(1 << 20)), 4096);
    assert!(ArcBytes::<Own>::new_bytes(b"abc".as_slice()) == b"abc");
    // a layout without support for vectors copies
    let copied = ArcBytes::<Own>::new_byte_vec(vec![1, 2]);
    assert!(copied == [1, 2]);
    assert!(copied.try_into_buffer::<Vec<u8>>().is_err());
    let kept = ArcStr::<VecLayout>::new_byte_vec("abc".to_string());
    assert_eq!(kept.try_into_buffer::<String>().ok().unwrap(), "abc");
    assert!(ArcBytesMut::<Own>::new_byte_vec(vec![1, 2]) == [1, 2]);
    assert!(ArcBytesMut::<VecLayout>::new_byte_vec(vec![1, 2]) == [1, 2]);
    assert!(ArcBytesMut::<Own>::new_bytes(b"abc".as_slice()) == b"abc");
}
