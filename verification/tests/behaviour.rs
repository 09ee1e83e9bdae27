use std::sync::Arc;

use arc_slice::arc::{array_from_storage, Storage};
use arc_slice::buffer::{
    AsRefBuffer, AsSlice, BorrowMetadata, Buffer, BufferClass, BufferMut, BufferParts, RawBuffer,
};
use arc_slice::layout::{ArcLayout, BoxedSliceLayout, RawLayout, VecLayout};
use arc_slice::utils::offset_len_at;
use arc_slice::{ArcBytes, ArcBytesMut, ArcSlice, ArcStr};

type Own = ArcLayout<false, false>;
type Any = ArcLayout<true, false>;
type AnyStatic = ArcLayout<true, true>;

#[derive(Debug, PartialEq, Eq)]
struct MyMetadata;

#[derive(Debug, PartialEq, Eq)]
struct MyBuffer(Vec<u8>);

impl Buffer<[u8]> for MyBuffer {
    fn as_slice(&self) -> &[u8] {
        &self.0
    }
    fn buffer_class() -> BufferClass {
        BufferClass::Other
    }
    fn into_parts(self) -> BufferParts<[u8], Self> {
        BufferParts::Other(self)
    }
    fn from_static_slice(slice: &'static [u8]) -> Result<Self, &'static [u8]> {
        Err(slice)
    }
    fn from_items(items: Vec<u8>) -> Result<Self, Vec<u8>> {
        Err(items)
    }
}

impl BorrowMetadata for MyBuffer {
    type Metadata = MyMetadata;
    fn borrow_metadata(&self) -> &Self::Metadata {
        &MyMetadata
    }
}

impl BufferMut<[u8]> for MyBuffer {
    fn as_mut_slice(&mut self) -> &mut [u8] {
        &mut self.0
    }
    fn capacity(&self) -> usize {
        self.0.capacity()
    }
    fn take_items(self) -> (Vec<u8>, Self) {
        (self.0, MyBuffer(Vec::new()))
    }
    fn put_items(self, items: Vec<u8>) -> Self {
        MyBuffer(items)
    }
}

struct Fixed(Vec<u8>);

impl Buffer<[u8]> for Fixed {
    fn as_slice(&self) -> &[u8] {
        &self.0
    }
    fn buffer_class() -> BufferClass {
        BufferClass::Other
    }
    fn into_parts(self) -> BufferParts<[u8], Self> {
        BufferParts::Other(self)
    }
    fn from_static_slice(slice: &'static [u8]) -> Result<Self, &'static [u8]> {
        Err(slice)
    }
    fn from_items(items: Vec<u8>) -> Result<Self, Vec<u8>> {
        Err(items)
    }
}

impl BufferMut<[u8]> for Fixed {
    fn as_mut_slice(&mut self) -> &mut [u8] {
        &mut self.0
    }
    fn capacity(&self) -> usize {
        self.0.len()
    }
    fn is_resizable() -> bool {
        false
    }
    fn take_items(self) -> (Vec<u8>, Self) {
        (self.0, Fixed(Vec::new()))
    }
    fn put_items(self, items: Vec<u8>) -> Self {
        Fixed(items)
    }
}

struct Shown([u8; 3]);

impl AsSlice<[u8]> for Shown {
    fn as_ref_slice(&self) -> &[u8] {
        &self.0
    }
}

#[test]
fn buffers_keep_their_type() {
    let s = ArcBytes::<Any>::from_buffer(MyBuffer(vec![0, 1, 2]));
    assert!(s == [0, 1, 2]);
    assert!(s.is_unique());
    let s = match s.try_into_buffer::<Vec<u8>>() {
        Ok(_) => panic!("another type"),
        Err(s) => s,
    };
    let part = s.subslice(1..);
    assert!(!s.is_unique());
    let s = s.try_into_buffer::<MyBuffer>().err().unwrap();
    drop(part);
    assert_eq!(s.try_into_buffer::<MyBuffer>().ok().unwrap(), MyBuffer(vec![0, 1, 2]));

    let s = ArcBytes::<Any>::from_buffer(MyBuffer(vec![0, 1, 2]));
    let part = s.subslice(1..);
    drop(s);
    assert!(part.is_unique());
    assert!(part.try_into_buffer::<MyBuffer>().is_err());
}

#[test]
fn borrowed_metadata() {
    let s = ArcBytes::<Any>::from_buffer_with_borrowed_metadata(MyBuffer(vec![0, 1, 2]));
    assert!(s == [0, 1, 2]);
    assert_eq!(s.metadata::<MyMetadata>().unwrap(), &MyMetadata);
    assert!(s.metadata::<String>().is_none());
    assert!(s.subslice(..1).metadata::<MyMetadata>().is_some());
    assert_eq!(s.try_into_buffer::<MyBuffer>().ok().unwrap(), MyBuffer(vec![0, 1, 2]));

    let s = ArcBytesMut::<Any>::from_buffer_with_borrowed_metadata(MyBuffer(vec![0, 1, 2]));
    assert!(s == [0, 1, 2]);
    assert_eq!(s.metadata::<MyMetadata>().unwrap(), &MyMetadata);
    assert_eq!(s.try_into_buffer::<MyBuffer>().ok().unwrap(), MyBuffer(vec![0, 1, 2]));
}

#[test]
fn owned_metadata() {
    let s = ArcBytes::<Any>::from_buffer_with_metadata(vec![0, 1, 2], "metadata".to_string());
    assert!(s == [0, 1, 2]);
    assert_eq!(s.metadata::<String>().unwrap(), "metadata");
    assert_eq!(s.try_into_buffer::<Vec<u8>>().ok().unwrap(), vec![0, 1, 2]);
    assert!(ArcBytes::<VecLayout>::from(vec![42]).metadata::<()>().is_none());
}

#[test]
fn mutable_buffers_have_their_items_back() {
    let mut s = ArcBytesMut::<Any>::from_buffer(MyBuffer(vec![0, 1, 2]));
    s.push(3);
    assert_eq!(
        s.try_into_buffer::<MyBuffer>().ok().unwrap(),
        MyBuffer(vec![0, 1, 2, 3])
    );
    let s = ArcBytesMut::<Any>::from_buffer(MyBuffer(vec![0, 1, 2]));
    assert!(s.try_into_buffer::<Vec<u8>>().is_err());
}

#[test]
fn frozen_buffers_have_their_items_back() {
    let mut s = ArcBytesMut::<Any>::from_buffer(MyBuffer(vec![0, 1, 2]));
    s.push(3);
    let frozen: ArcBytes<Any> = s.freeze();
    let frozen = match frozen.try_into_buffer::<Vec<u8>>() {
        Ok(_) => panic!("another type"),
        Err(frozen) => frozen,
    };
    let other = frozen.clone();
    let frozen = frozen.try_into_buffer::<MyBuffer>().err().unwrap();
    drop(other);
    assert!(frozen == [0, 1, 2, 3]);
    assert_eq!(
        frozen.try_into_buffer::<MyBuffer>().ok().unwrap(),
        MyBuffer(vec![0, 1, 2, 3])
    );

    let s = ArcBytesMut::<Any>::from_buffer(MyBuffer(vec![0, 1, 2]));
    let frozen: ArcBytes<Any> = s.freeze();
    let part = frozen.subslice(1..);
    drop(frozen);
    assert!(part.try_into_buffer::<MyBuffer>().is_err());
}

#[test]
fn fixed_buffers_do_not_grow() {
    let mut s = ArcBytesMut::<Any>::from_buffer(Fixed(vec![0, 1, 2]));
    assert_eq!(s.capacity(), 3);
    assert_eq!(
        s.try_reserve(1),
        Err(arc_slice::error::TryReserveError::Unsupported)
    );
    s.advance(2);
    assert!(s.try_reclaim(2));
    assert_eq!(s.capacity(), 3);
    assert!(s == [2]);
    let mut s = ArcBytesMut::<Any>::from_buffer(Fixed(vec![0, 1, 2]));
    s.advance(2);
    s.reserve(2);
    assert_eq!(s.capacity(), 3);
}

#[test]
fn advanced_buffers_are_not_given_back() {
    let mut s = ArcBytesMut::<Any>::from_buffer_with_metadata(vec![0u8, 1, 2], 7u32);
    s.advance(1);
    assert!(s.try_into_buffer::<Vec<u8>>().is_err());
    let s = ArcBytesMut::<Any>::from_buffer_with_metadata(vec![0u8, 1, 2], 7u32);
    assert_eq!(s.try_into_buffer::<Vec<u8>>().ok().unwrap(), [0, 1, 2]);
}

#[test]
fn items_without_size() {
    let s = ArcSlice::<[()], RawLayout>::from_raw_buffer(Arc::new(vec![(), ()]));
    assert_eq!(s.len(), 2);
    assert_eq!(s.try_into_buffer::<Arc<Vec<()>>>().ok().unwrap().len(), 2);
}

#[test]
fn buffers_that_are_shared_already() {
    let s = ArcBytes::<Any>::from_buffer(AsRefBuffer(Shown([0, 1, 2])));
    assert!(s == [0, 1, 2]);
    assert!(!s.is_unique());
    assert!(s.try_into_buffer::<AsRefBuffer<Shown>>().is_ok());

    let buffer = Arc::new(vec![0u8, 1, 2]);
    let s = ArcBytes::<RawLayout>::from_raw_buffer(buffer.clone());
    assert!(s == [0, 1, 2]);
    assert!(!s.is_unique());
    assert!(Arc::ptr_eq(&s.try_into_buffer::<Arc<Vec<u8>>>().ok().unwrap(), &buffer));
    let s = ArcBytes::<RawLayout>::from_raw_buffer_with_borrowed_metadata(Arc::new(MyBuffer(vec![7])));
    assert!(s.metadata::<MyMetadata>().is_some());
    fn is_raw<B: RawBuffer<[u8]>>(_: &B) {}
    is_raw(&buffer);
}

#[test]
fn boxed_slices() {
    let boxed: Box<[u8]> = vec![0, 1, 2].into_boxed_slice();
    let s = ArcBytes::<BoxedSliceLayout>::from(boxed);
    assert!(s == [0, 1, 2]);
    let s = s.try_into_buffer::<Box<[u8]>>().ok().unwrap();
    assert_eq!(&*s, [0, 1, 2]);
    let mut s = ArcBytes::<BoxedSliceLayout>::from(s);
    s.truncate(2);
    let s = s.try_into_buffer::<Box<[u8]>>().err().unwrap();
    assert_eq!(s.try_into_buffer::<Vec<u8>>().ok().unwrap(), [0, 1]);
    let s = ArcStr::<VecLayout>::from("abc".to_string().into_boxed_str());
    assert_eq!(&*s.try_into_buffer::<Box<str>>().ok().unwrap(), "abc");
}

#[test]
fn droppable_vectors_are_given_back_whole() {
    let vec = vec!["a".to_string(), "b".to_string()];
    let s = ArcSlice::<[String], Any>::from(vec);
    assert!(s.clone().try_into_mut::<Any>().is_err());
    let part = s.subslice(..1);
    drop(s);
    assert!(part.try_into_buffer::<Vec<String>>().is_err());
    let s = ArcSlice::<[String], Any>::from(vec!["a".to_string()]);
    assert_eq!(s.try_into_buffer::<Vec<String>>().ok().unwrap(), ["a"]);
    // a slice of a vector can be written to
    let s = ArcSlice::<[String], VecLayout>::from(vec!["a".to_string()]);
    assert!(s.try_into_mut::<VecLayout>().is_ok());
    let s = ArcSlice::<[String], Any>::from(vec!["a".to_string()]);
    let m = s.try_into_mut::<Any>().ok().unwrap();
    assert!(m == ["a".to_string()]);
}

#[test]
fn vectors_without_capacity() {
    let empty: Vec<u8> = Vec::new();
    let s = ArcBytes::<VecLayout>::from(empty.clone());
    assert_eq!(s.try_into_buffer::<Vec<u8>>().ok().unwrap(), empty);
    let s = ArcBytes::<Any>::from(empty.clone());
    assert_eq!(s.try_into_buffer::<Vec<u8>>().ok().unwrap(), empty);
    let s = ArcBytesMut::<Any>::from(empty.clone());
    assert_eq!(s.try_into_buffer::<Vec<u8>>().ok().unwrap(), empty);
    assert!(ArcBytes::<VecLayout>::from_static(b"a").try_into_buffer::<Vec<u8>>().is_err());
}

#[test]
fn raw_buffers_are_given_back() {
    let s = ArcBytes::<RawLayout>::from_raw_buffer(Arc::new(vec![1u8, 2]));
    assert_eq!(*s.try_into_buffer::<Arc<Vec<u8>>>().ok().unwrap(), [1, 2]);
}

#[test]
fn storages_and_arrays() {
    let s: Storage<u8> = Storage::Items(vec![1, 2, 3]);
    assert_eq!(array_from_storage::<u8, 3>(s).ok().unwrap(), [1, 2, 3]);
    let s: Storage<u8> = Storage::Items(vec![1, 2, 3]);
    assert!(array_from_storage::<u8, 2>(s).is_err());
    let a = ArcBytes::<Own>::from([1, 2, 3]);
    assert_eq!(<[u8; 3]>::try_from(a).ok().unwrap(), [1, 2, 3]);
    let a = ArcBytes::<Own>::from([1, 2, 3]);
    let b = a.clone();
    let a = <[u8; 3]>::try_from(a).err().unwrap();
    drop(b);
    assert_eq!(<[u8; 3]>::try_from(a).ok().unwrap(), [1, 2, 3]);
    let mut a = ArcBytes::<Own>::from([1, 2, 3]);
    a.advance(1);
    assert!(<[u8; 2]>::try_from(a).is_err());
}

#[test]
fn subslices_and_parts() {
    let mut s = ArcBytes::<Own>::from(b"hello world");
    assert_eq!(s.len(), 11);
    assert!(!s.is_empty());
    assert!(s.subslice(..5) == b"hello");
    assert!(s.try_subslice(6..).ok().unwrap() == b"world");
    assert!(s.subslice(2..4).subslice(1..) == b"l");
    let b = s.split_off(5);
    assert!(s == b"hello" && b == b" world");
    let mut b = b;
    let c = b.split_to(1);
    assert!(b == b"world" && c == b" ");
    b.advance(1);
    assert!(b == b"orld");
    b.truncate(2);
    assert!(b == b"or");
    b.truncate(7);
    assert!(b == b"or");
    assert!(b.try_truncate(1).is_ok());
    assert!(b == b"o");
    let mut d = s.clone();
    assert!(d.try_split_off(0).ok().unwrap() == b"hello");
    assert!(d.is_empty());
    let mut d = s.try_clone().ok().unwrap();
    assert!(d.try_split_to(5).ok().unwrap() == b"hello");
    assert!(d.is_empty());
}

#[test]
fn subslices_from_references() {
    let s = ArcBytes::<Own>::from(b"hello world");
    let hello: &[u8] = &s.as_slice()[..5];
    assert!(s.subslice_from_ref(hello).unwrap() == b"hello");
    let world: &[u8] = &s.as_slice()[6..];
    assert!(s.try_subslice_from_ref(world).ok().unwrap().unwrap() == b"world");
    assert!(s.subslice(..5).subslice_from_ref(world).is_none());
    let elsewhere = b"hello".to_vec();
    assert!(s.subslice_from_ref(&elsewhere[..]).is_none());

    let wide = ArcSlice::<[u32], Own>::from([1, 2, 3, 4]);
    let tail: &[u32] = &wide.as_slice()[2..];
    assert!(wide.subslice_from_ref(tail).unwrap() == [3, 4]);
}

#[test]
fn parts_by_address() {
    let whole = [0u32, 1, 2, 3];
    let part = [0u32, 0];
    assert_eq!(offset_len_at(&whole[..], 100, &part[..], 104), Some((1, 2)));
    assert_eq!(offset_len_at(&whole[..], 100, &part[..], 108), Some((2, 2)));
    assert_eq!(offset_len_at(&whole[..], 100, &part[..], 112), None);
    assert_eq!(offset_len_at(&whole[..], 100, &part[..], 102), None);
    assert_eq!(offset_len_at(&whole[..], 100, &part[..], 96), None);
    assert_eq!(offset_len_at("h\u{e9}llo", 100, "llo", 103), Some((3, 3)));
    assert_eq!(offset_len_at("h\u{e9}llo", 100, "ll", 102), None);
}

#[test]
fn uniqueness() {
    let s = ArcBytes::<Own>::from_slice(b"abc");
    assert!(s.is_unique());
    let other = s.clone();
    assert!(!s.is_unique());
    drop(other);
    assert!(s.is_unique());
    assert!(!ArcBytes::<VecLayout>::from_static(b"abc").is_unique());
    assert!(!ArcBytes::<Any>::from_buffer(AsRefBuffer(Shown([1, 2, 3]))).is_unique());
    assert!(!ArcBytes::<RawLayout>::from_raw_buffer(Arc::new(vec![1u8])).is_unique());
    assert!(ArcBytes::<Any>::from_buffer(MyBuffer(vec![1])).is_unique());
}

#[test]
fn borrows() {
    let s = ArcBytes::<Own>::from(b"hello world");
    let borrow = s.borrow(..5);
    assert_eq!(&borrow[..], b"hello");
    let reborrow = borrow.reborrow(2..4);
    assert_eq!(&reborrow[..], b"ll");
    let ll: &[u8] = &borrow.as_slice()[2..4];
    let reborrow = borrow.reborrow_from_ref(ll).unwrap();
    assert_eq!(reborrow.as_slice(), b"ll");
    assert!(reborrow.clone_arc() == b"ll");
    assert!(borrow.try_clone_arc().ok().unwrap() == b"hello");
    let world: &[u8] = &s.as_slice()[6..];
    assert_eq!(&s.borrow_from_ref(world).unwrap()[..], b"world");
    assert!(borrow.reborrow_from_ref(world).is_none());
}

#[test]
fn empty_parts_of_own_buffers() {
    // without static data, an empty part is one more reference
    let bytes = ArcBytes::<Own>::from(b"abc");
    let _part = bytes.subslice(1..1);
    assert!(!bytes.is_unique());
}

#[test]
fn static_slices() {
    let s = ArcBytes::<AnyStatic>::from_static(b"hello");
    assert!(!s.is_unique());
    let s = s.try_into_mut::<Own>().err().unwrap();
    assert!(s.clone().try_into_buffer::<Vec<u8>>().is_err());
    assert!(ArcBytes::<AnyStatic>::new().try_into_mut::<Own>().is_ok());
    let any = s.with_layout::<Any>();
    assert!(any == b"hello");
    assert_eq!(any.try_into_buffer::<&'static [u8]>().ok().unwrap(), b"hello");
    let own = ArcBytes::<ArcLayout<false, true>>::from_static(b"hello");
    let own = match own.try_with_layout::<Own>() {
        Ok(_) => panic!("no place for a static slice"),
        Err(own) => own,
    };
    assert!(own == b"hello");
    assert!(ArcBytes::<AnyStatic>::default().is_empty());
}

#[test]
fn layout_conversions() {
    let a = ArcBytes::<VecLayout>::from(vec![0, 1, 2]);
    let b = a.with_layout::<Any>();
    let b = match b.try_with_layout::<Own>() {
        Ok(_) => panic!("a vector in a layout that does not support it"),
        Err(b) => b,
    };
    assert_eq!(b.try_into_buffer::<Vec<u8>>().ok().unwrap(), [0, 1, 2]);
    let c = ArcBytes::<VecLayout>::from([0, 1, 2]);
    let c = c.try_with_layout::<Own>().ok().unwrap();
    assert!(c.with_layout::<BoxedSliceLayout>() == [0, 1, 2]);
}

#[test]
fn text() {
    let s = ArcStr::<Own>::from("h\u{e9}llo");
    assert_eq!(s.as_str(), "h\u{e9}llo");
    assert!(s.subslice(1..3) == *"\u{e9}");
    let bytes = s.clone().into_arc_slice();
    assert_eq!(bytes.len(), 6);
    assert!(ArcStr::from_utf8(bytes.clone()).ok().unwrap() == s);
    let broken = bytes.subslice(2..);
    let error = ArcStr::from_utf8(broken).err().unwrap();
    assert_eq!(error.as_bytes(), b"\xa9llo");
    assert!(error.into_bytes() == b"\xa9llo");
    assert!(ArcStr::<Own>::try_from(bytes).is_ok());
    assert!("abc".parse::<ArcStr<Own>>().ok().unwrap() == "abc".to_string());
}

#[test]
fn text_is_given_back_as_text() {
    let s = ArcStr::<VecLayout>::from("abc".to_string());
    let bytes = s.into_arc_slice();
    let bytes = match bytes.try_into_buffer::<Vec<u8>>() {
        Ok(_) => panic!("the vector is a string"),
        Err(bytes) => bytes,
    };
    let s = ArcStr::try_from_arc_slice(bytes).ok().unwrap();
    assert_eq!(s.try_into_buffer::<String>().ok().unwrap(), "abc");
}

#[test]
fn order() {
    let a = ArcBytes::<Own>::from(b"abc");
    assert!(a < ArcBytes::<Own>::from(b"abd"));
    assert!(a > ArcBytes::<Own>::from(b"ab"));
    assert!(a >= ArcBytes::<Own>::from(b"abc"));
    assert!(a != ArcBytes::<Own>::from(b"abd"));
    assert!(a == vec![97, 98, 99]);
    assert!(a == *b"abc".as_slice());
    assert!(a == b"abc".as_slice());
}

#[test]
fn textual_forms() {
    let s = ArcBytes::<Own>::from(b"\x00\x01\x7fab\"\\\n\r\t\xff~ ");
    assert_eq!(s.to_lower_hex(), "00017f6162225c0a0d09ff7e20");
    assert_eq!(s.to_upper_hex(), "00017F6162225C0A0D09FF7E20");
    assert_eq!(s.to_debug(), "b\"\\0\\x01\\x7fab\\\"\\\\\\n\\r\\t\\xff~ \"");
    assert_eq!(ArcBytes::<Own>::from(b"").to_debug(), "b\"\"");
    assert_eq!(ArcBytes::<Own>::from(b"\xab").to_lower_hex(), "ab");
    assert_eq!(ArcBytes::<Own>::from(b"\xab").to_upper_hex(), "AB");
}

#[test]
fn compared_from_the_left() {
    let s = ArcBytes::<Own>::from_slice(b"abc");
    assert!(*b"abc" == s);
    assert!(b"abc"[..] == s);
    assert!(b"abc".to_vec() == s);
    assert!(b"abd".to_vec() != s);
    let t = ArcStr::<Own>::from_slice("abc");
    assert!(*"abc" == t);
    assert!(String::from("abc") == t);
    let m = ArcBytesMut::<Own>::from_slice(b"abc");
    assert!(*b"abc" == m);
    assert!(b"abc".to_vec() == m);
}

#[test]
fn conversions_keep_the_buffer() {
    let s = ArcSlice::<[u8], AnyStatic>::from_buffer(vec![1u8, 2, 3]);
    let s: ArcSlice<[u8], VecLayout> = s.with_layout();
    assert_eq!(s.try_into_buffer::<Vec<u8>>().ok().unwrap(), [1, 2, 3]);

    let s = ArcBytes::<VecLayout>::from_static(b"abc");
    let s: ArcSlice<[u8], Any> = s.with_layout();
    assert_eq!(s.try_into_buffer::<&'static [u8]>().ok().unwrap(), b"abc");

    let s = ArcBytesMut::<Any>::from_buffer_with_metadata(MyBuffer(vec![0, 1, 2]), 7u32);
    let frozen: ArcBytes<Any> = s.freeze();
    assert_eq!(frozen.metadata::<u32>(), Some(&7));
    assert_eq!(frozen.metadata::<u64>(), None);

    let s = ArcSlice::<[u8], Any>::from_buffer_with_metadata(MyBuffer(b"abc".to_vec()), 7u32);
    let t = ArcStr::<Any>::from_utf8(s).ok().unwrap();
    assert_eq!(t.metadata::<u32>(), Some(&7));
    assert_eq!(t.into_slice().metadata::<u32>(), Some(&7));

    let mut m = ArcBytesMut::<VecLayout>::from_buffer(vec![1u8, 2]);
    m.push(3);
    let frozen: ArcBytes<VecLayout> = m.freeze();
    assert_eq!(frozen.try_into_buffer::<Vec<u8>>().ok().unwrap(), [1, 2, 3]);
}

#[test]
fn thawing_keeps_metadata() {
    let s = ArcBytesMut::<Any>::from_buffer_with_metadata(MyBuffer(vec![0, 1, 2]), 7u32);
    let frozen: ArcBytes<Any> = s.freeze();
    let mut thawed: ArcBytesMut<Any> = frozen.try_into_mut().ok().unwrap();
    assert_eq!(thawed.metadata::<u32>(), Some(&7));
    thawed.push(3);
    assert_eq!(
        thawed.try_into_buffer::<MyBuffer>().ok().unwrap(),
        MyBuffer(vec![0, 1, 2, 3])
    );
}
