# arc_slice

Shared slices of memory: `ArcSlice` is a reference-counted, cheaply cloned and subsliced view of a
buffer, `ArcSliceMut` its mutable counterpart, which grows, splits, joins and freezes. Both are
generic over the slice (`[T]`, `str`, `bstr::BStr`) and over a layout, which says what buffers a slice
may have and how it refers to them.

The library is verified with Verus: what each function returns or changes is stated in its contract,
and what holds across functions is stated by proof functions whose names start with `law_`.

## Modules

| module | what it holds |
| --- | --- |
| `slice`, `borrow` | `ArcSlice` and its borrowed subslices |
| `slice_mut`, `reserve` | `ArcSliceMut`, and how capacity is reserved |
| `bytes_mut` | `BytesMut`, a growable buffer of bytes that copies where it cannot grow in place |
| `inlined` | `SmallSlice` and `SmallArcSlice`, which keep few bytes inline |
| `buffer`, `byte_string` | the slices that can be shared, and the buffers that can hold them |
| `layout` | the layouts |
| `arc`, `vtable`, `storage`, `shared`, `dynamic` | shared buffers, what can be done with them, and their types and metadata at run time |
| `utils`, `text`, `std_text` | ranges, and the textual forms of bytes |
| `compare`, `compare_std`, `compare_bytes`, `convert`, `io`, `deserialize` | the traits of the standard library and of `bytes`, and what reading from a data format asks for |
| `error` | the errors |

`app/` wraps the library's types for the traits of formatting and of `serde`.

## Trust

Proofs rest on the contracts of the functions marked `#[verifier::external_body]` and of the items
declared with `assume_specification`. Each says in its doc comment what it claims of the function of
the standard library, of `bstr` or of `either` that it calls. Whether a handle is the only one is
decided at run time by `std::sync::Arc`; the functions that ask for it state what holds either way,
and leave the rest to functions that take the answer as an argument.
