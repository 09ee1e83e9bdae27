//! Shared strings, and the textual forms of slices of bytes.

use crate::buffer::Slice;
use crate::bytes_mut::BytesMut;
use crate::inlined::{InlinedLayout, SmallArcSlice, SmallSlice};
use crate::layout::{Layout, LayoutMut};
use crate::slice::ArcSlice;
use crate::slice_mut::ArcSliceMut;
use crate::std_text::utf8_error;
use crate::utils::{debug_bytes, escapes, hex_spec, lower_hex, upper_hex};
use vstd::prelude::*;
use vstd::utf8::encode_utf8;
use vstd::utf8::valid_utf8;

verus! {

/// Shared bytes that are not UTF-8, and where they stop being so.
#[verifier::reject_recursive_types(L)]
pub struct FromUtf8Error<L: Layout> {
    bytes: ArcSlice<[u8], L>,
    error: core::str::Utf8Error,
}

impl<L: Layout> FromUtf8Error<L> {
    /// Where the bytes stop being UTF-8.
    pub closed spec fn error(self) -> core::str::Utf8Error {
        self.error
    }

    /// The bytes.
    pub closed spec fn view(self) -> ArcSlice<[u8], L> {
        self.bytes
    }

    /// Returns the bytes.
    pub fn as_bytes(&self) -> (r: &[u8])
        ensures
            r@ == self@@,
    {
        self.bytes.as_slice()
    }

    /// Gives back the bytes.
    pub fn into_bytes(self) -> (r: ArcSlice<[u8], L>)
        ensures
            r == self@,
    {
        self.bytes
    }

    /// Gives back the error.
    pub fn into_error(self) -> (r: core::str::Utf8Error)
        ensures
            r == self.error(),
    {
        self.error
    }
}

impl<L: Layout> ArcSlice<str, L> {
    /// Tries making a string of bytes, which have to be UTF-8.
    pub fn from_utf8(bytes: ArcSlice<[u8], L>) -> (r: Result<Self, FromUtf8Error<L>>)
        ensures
            match r {
                Ok(text) => valid_utf8(bytes@) && text@ == bytes@ && bytes.kept_in(text),
                Err(error) => !valid_utf8(bytes@) && error@ == bytes && error.error() == utf8_error(
                    bytes@,
                ),
            },
    {
        match Self::try_from_arc_slice(bytes) {
            Ok(text) => Ok(text),
            Err((error, bytes)) => Err(FromUtf8Error { bytes, error }),
        }
    }

    /// Makes a string of bytes that are UTF-8.
    pub fn from_utf8_unchecked(bytes: ArcSlice<[u8], L>) -> (r: Self)
        requires
            valid_utf8(bytes@),
        ensures
            r@ == bytes@,
            bytes.kept_in(r),
    {
        Self::from_arc_slice_unchecked(bytes)
    }

    /// Returns the string.
    pub fn as_str(&self) -> (r: &str)
        ensures
            encode_utf8(r@) == self@,
    {
        self.as_slice()
    }

    /// Turns the string into its bytes.
    pub fn into_slice(self) -> (r: ArcSlice<[u8], L>)
        ensures
            r@ == self@,
            self.kept_in(r),
    {
        self.into_arc_slice()
    }
}

impl<S: Slice<Item = u8> + ?Sized, L: Layout> ArcSlice<S, L> {
    /// Two lower case hexadecimal digits for each byte.
    pub fn to_lower_hex(&self) -> (r: String)
        ensures
            r@ == hex_spec(self@, false),
    {
        lower_hex(self.as_items())
    }

    /// Two upper case hexadecimal digits for each byte.
    pub fn to_upper_hex(&self) -> (r: String)
        ensures
            r@ == hex_spec(self@, true),
    {
        upper_hex(self.as_items())
    }
}

impl<L: Layout> ArcSlice<[u8], L> {
    /// The bytes as a byte string literal.
    pub fn to_debug(&self) -> (r: String)
        ensures
            r@ == seq!['b', '"'] + escapes(self@) + seq!['"'],
    {
        debug_bytes(self.as_items())
    }
}

impl<S: Slice<Item = u8> + ?Sized, L: LayoutMut, const UNIQUE: bool> ArcSliceMut<S, L, UNIQUE> {
    /// Two lower case hexadecimal digits for each byte.
    pub fn to_lower_hex(&self) -> (r: String)
        ensures
            r@ == hex_spec(self@, false),
    {
        lower_hex(self.as_items())
    }

    /// Two upper case hexadecimal digits for each byte.
    pub fn to_upper_hex(&self) -> (r: String)
        ensures
            r@ == hex_spec(self@, true),
    {
        upper_hex(self.as_items())
    }
}

impl<L: LayoutMut, const UNIQUE: bool> ArcSliceMut<[u8], L, UNIQUE> {
    /// The bytes as a byte string literal.
    pub fn to_debug(&self) -> (r: String)
        ensures
            r@ == seq!['b', '"'] + escapes(self@) + seq!['"'],
    {
        debug_bytes(self.as_items())
    }
}

impl<S: Slice<Item = u8> + ?Sized, L: InlinedLayout> SmallSlice<S, L> {
    /// Two lower case hexadecimal digits for each byte.
    pub fn to_lower_hex(&self) -> (r: String)
        ensures
            r@ == hex_spec(self@, false),
    {
        lower_hex(self.as_items())
    }

    /// Two upper case hexadecimal digits for each byte.
    pub fn to_upper_hex(&self) -> (r: String)
        ensures
            r@ == hex_spec(self@, true),
    {
        upper_hex(self.as_items())
    }
}

impl<S: Slice<Item = u8> + ?Sized, L: InlinedLayout> SmallArcSlice<S, L> {
    /// Two lower case hexadecimal digits for each byte.
    pub fn to_lower_hex(&self) -> (r: String)
        ensures
            r@ == hex_spec(self@, false),
    {
        lower_hex(self.as_items())
    }

    /// Two upper case hexadecimal digits for each byte.
    pub fn to_upper_hex(&self) -> (r: String)
        ensures
            r@ == hex_spec(self@, true),
    {
        upper_hex(self.as_items())
    }
}

impl BytesMut {
    /// Two lower case hexadecimal digits for each byte.
    pub fn to_lower_hex(&self) -> (r: String)
        ensures
            r@ == hex_spec(self@, false),
    {
        lower_hex(self.as_slice())
    }

    /// Two upper case hexadecimal digits for each byte.
    pub fn to_upper_hex(&self) -> (r: String)
        ensures
            r@ == hex_spec(self@, true),
    {
        upper_hex(self.as_slice())
    }

    /// The bytes as a byte string literal.
    pub fn to_debug(&self) -> (r: String)
        ensures
            r@ == seq!['b', '"'] + escapes(self@) + seq!['"'],
    {
        debug_bytes(self.as_slice())
    }
}

} // verus!
