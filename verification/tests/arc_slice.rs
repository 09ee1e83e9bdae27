use std::sync::atomic::{AtomicBool, Ordering};
use std::sync::Arc;

use arc_slice::layout::{ArcLayout, VecLayout};
use arc_slice::ArcBytes;

type AnyStatic = ArcLayout<true, true>;

#[test]
fn empty_vec_subslices() {
    let mut bytes = ArcBytes::<VecLayout>::from(vec![0, 1, 2, 3]);
    let clone1 = bytes.split_to(0);
    assert!(clone1.is_empty());
    let clone2 = bytes.split_off(bytes.len());
    assert!(clone2.is_empty());
    let clone3 = bytes.subslice(1..1);
    assert!(clone3.is_empty());
    let mut clone4 = bytes.split_off(0);
    assert!(bytes.is_empty());
    std::mem::swap(&mut clone4, &mut bytes);
    let mut clone5 = bytes.split_to(bytes.len());
    assert!(bytes.is_empty());
    std::mem::swap(&mut clone5, &mut bytes);
    assert_eq!(
        bytes.try_into_buffer::<Vec<u8>>().ok().unwrap(),
        [0, 1, 2, 3]
    );
}

// into_vec reuse the internal vector even if in subslice case
#[test]
fn into_vec() {
    let vec = vec![0, 1, 2, 3];
    let vec_ptr = vec.as_ptr();

    let bytes = ArcBytes::<VecLayout>::from(vec);
    let vec = bytes.try_into_buffer::<Vec<u8>>().ok().unwrap();
    assert_eq!(vec.as_ptr(), vec_ptr);

    let mut bytes = ArcBytes::<VecLayout>::from(vec);
    bytes.advance(2);
    let vec = bytes.try_into_buffer::<Vec<u8>>().ok().unwrap();
    assert_eq!(vec, [2, 3]);
    assert_eq!(vec.as_ptr(), vec_ptr);

    let mut bytes = ArcBytes::<VecLayout>::from(vec);
    bytes.truncate(1);
    let vec = bytes.try_into_buffer::<Vec<u8>>().ok().unwrap();
    assert_eq!(vec, [2]);
    assert_eq!(vec.as_ptr(), vec_ptr);
}

#[derive(Default, Clone)]
struct Metadata {
    dropped: Arc<AtomicBool>,
}

impl Drop for Metadata {
    fn drop(&mut self) {
        self.dropped.store(true, Ordering::Relaxed);
    }
}

// metadata can be downcasted, and is dropped when the slice is dropped
#[test]
fn metadata() {
    let metadata = Metadata::default();
    let bytes = ArcBytes::<AnyStatic>::from_buffer_with_metadata(vec![42], metadata.clone());
    assert!(bytes.metadata::<()>().is_none());
    assert!(bytes.metadata::<Metadata>().is_some());

    let clone = bytes.clone();
    assert!(clone.metadata::<()>().is_none());
    assert!(clone.metadata::<Metadata>().is_some());

    assert!(std::ptr::eq(
        bytes.metadata::<Metadata>().unwrap(),
        clone.metadata::<Metadata>().unwrap()
    ));

    assert!(!metadata.dropped.load(Ordering::Relaxed));
    drop(bytes);
    drop(clone);
    assert!(metadata.dropped.load(Ordering::Relaxed));
}

// buffer cannot be downcasted if there are clones or if it is a subslice
#[test]
fn downcast_buffer() {
    let array = [0u8, 1, 2, 3];
    let bytes = ArcBytes::<AnyStatic>::from(array);
    assert_eq!(<[u8; 4]>::try_from(bytes).ok().unwrap(), [0, 1, 2, 3]);

    let bytes = ArcBytes::<AnyStatic>::from(array);
    let clone = bytes.clone();
    assert!(<[u8; 4]>::try_from(bytes).is_err());
    assert_eq!(<[u8; 4]>::try_from(clone).ok().unwrap(), [0, 1, 2, 3]);

    let mut bytes = ArcBytes::<AnyStatic>::from(array);
    bytes.truncate(2);
    assert!(<[u8; 4]>::try_from(bytes).is_err());

    let mut bytes = ArcBytes::<AnyStatic>::from(array);
    bytes.advance(2);
    assert!(<[u8; 4]>::try_from(bytes).is_err());
}

// vec cannot be downcasted if there are clones, but it works with subslices
#[test]
fn downcast_vec() {
    let bytes = ArcBytes::<AnyStatic>::from(vec![42]);
    assert_eq!(bytes.try_into_buffer::<Vec<u8>>().ok().unwrap(), [42]);

    let bytes = ArcBytes::<AnyStatic>::from(vec![42]);
    let clone = bytes.clone();
    assert!(bytes.try_into_buffer::<Vec<u8>>().is_err());
    assert_eq!(clone.try_into_buffer::<Vec<u8>>().ok().unwrap(), [42]);

    let mut bytes = ArcBytes::<AnyStatic>::from(vec![0, 1, 2, 3]);
    bytes.truncate(2);
    assert_eq!(bytes.try_into_buffer::<Vec<u8>>().ok().unwrap(), [0, 1]);

    let mut bytes = ArcBytes::<AnyStatic>::from(vec![0, 1, 2, 3]);
    bytes.advance(2);
    assert_eq!(bytes.try_into_buffer::<Vec<u8>>().ok().unwrap(), [2, 3]);
}

// static slices can always be downcasted
#[test]
fn downcast_static() {
    let bytes = ArcBytes::<AnyStatic>::from_static(&[0, 1, 2, 3]);
    let subslice = bytes.subslice(..2);
    assert_eq!(subslice.try_into_buffer::<&'static [u8]>().ok().unwrap(), [0, 1]);
    assert_eq!(
        bytes.try_into_buffer::<&'static [u8]>().ok().unwrap(),
        [0, 1, 2, 3]
    );
}

// unit metadata is like none at all, so a static subslice can be downcasted;
// it would not be the case if unit metadata was not handled specially
#[test]
fn downcast_static_with_unit_metadata() {
    let slice: &'static [u8] = &[0, 1, 2, 3];
    let bytes = ArcBytes::<AnyStatic>::from_buffer_with_metadata(slice, ());
    let subslice = bytes.subslice(..2);
    assert_eq!(subslice.try_into_buffer::<&'static [u8]>().ok().unwrap(), [0, 1]);
}

// ensure the metadata is dropped when the slice is downcasted
#[test]
fn downcast_buffer_with_metadata() {
    let metadata = Metadata::default();
    let bytes = ArcBytes::<AnyStatic>::from_buffer_with_metadata(vec![42], metadata.clone());
    let _ = bytes.try_into_buffer::<Vec<u8>>().ok().unwrap();
    assert!(metadata.dropped.load(Ordering::Relaxed));
}

#[test]
fn try_into_mut() {
    let bytes = ArcBytes::<AnyStatic>::from(vec![42]);
    bytes.try_into_mut::<ArcLayout<true, true>>().ok().unwrap();
}

// static/vec slices have the same metadata after clone
#[test]
fn unit_metadata() {
    let bytes = ArcBytes::<AnyStatic>::from_static(&[]);
    assert_eq!(bytes.metadata::<()>(), bytes.clone().metadata::<()>());
    assert!(bytes.metadata::<()>().is_none());
    let bytes = ArcBytes::<VecLayout>::from(Vec::new());
    assert_eq!(bytes.metadata::<()>(), bytes.clone().metadata::<()>());
    let bytes = ArcBytes::<VecLayout>::from(vec![1]);
    assert_eq!(bytes.metadata::<()>(), bytes.clone().metadata::<()>());
    assert!(bytes.metadata::<()>().is_none());
}
