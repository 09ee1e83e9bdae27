use arc_slice::ArcSlice;

#[test]
fn readme_example() {
    let mut bytes = <ArcSlice<[u8]>>::from_slice(b"Hello world");
    let a = bytes.subslice(0..5);

    assert!(a == b"Hello");

    let b = bytes.split_to(6);

    assert!(bytes == b"world");
    assert!(b == b"Hello ");
}
