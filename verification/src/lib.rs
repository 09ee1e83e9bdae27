//! Shared slices: reference-counted, cheaply cloned and subsliced views of a buffer, and their
//! mutable counterparts.

use vstd::prelude::*;

pub mod arc;
pub mod borrow;
pub mod buffer;
pub mod byte_string;
pub mod bytes_mut;
pub mod compare;
pub mod compare_bytes;
pub mod compare_std;
pub mod convert;
pub mod deserialize;
pub mod dynamic;
pub mod error;
pub mod inlined;
pub mod io;
pub mod layout;
pub mod reserve;
pub mod shared;
pub mod slice;
pub mod slice_mut;
pub mod std_text;
pub mod storage;
pub mod text;
pub mod utils;
pub mod vtable;

pub use crate::borrow::ArcSliceBorrow;
pub use crate::slice::ArcSlice;
pub use crate::slice_mut::ArcSliceMut;

verus! {

/// Shared bytes.
pub type ArcBytes<L = layout::DefaultLayout> = ArcSlice<[u8], L>;

/// Borrowed shared bytes.
pub type ArcBytesBorrow<'a, L = layout::DefaultLayout> = ArcSliceBorrow<'a, [u8], L>;

/// Mutable bytes.
pub type ArcBytesMut<L = layout::DefaultLayoutMut> = ArcSliceMut<[u8], L, true>;

/// A shared string.
pub type ArcStr<L = layout::DefaultLayout> = ArcSlice<str, L>;

/// A borrowed shared string.
pub type ArcStrBorrow<'a, L = layout::DefaultLayout> = ArcSliceBorrow<'a, str, L>;

/// A mutable string.
pub type ArcStrMut<L = layout::DefaultLayoutMut> = ArcSliceMut<str, L, true>;

} // verus!
