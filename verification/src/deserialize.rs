//! How slices are read from a data format.

use crate::buffer::Slice;
use crate::layout::{Layout, LayoutMut};
use crate::slice::ArcSlice;
use crate::slice_mut::ArcSliceMut;
use bstr::{BStr, BString};
use vstd::prelude::*;
use vstd::utf8::encode_utf8;

verus! {

/// The most items for which room is made before they are read.
pub const MAX_DESERIALIZE_SIZE_HINT: usize = 4096;

/// The number of items for which room is made, when a sequence says that it has `size_hint` of them.
pub fn sequence_capacity(size_hint: Option<usize>) -> (r: usize)
    ensures
        r == match size_hint {
            Some(hint) => if hint <= MAX_DESERIALIZE_SIZE_HINT {
                hint
            } else {
                MAX_DESERIALIZE_SIZE_HINT
            },
            None => 0,
        },
        r <= 4096,
        size_hint matches Some(hint) ==> r <= hint && (hint <= 4096 ==> r == hint),
        size_hint matches Some(hint) && hint > 4096 ==> r == 4096,
{
    match size_hint {
        Some(hint) => if hint <= MAX_DESERIALIZE_SIZE_HINT {
            hint
        } else {
            MAX_DESERIALIZE_SIZE_HINT
        },
        None => 0,
    }
}

/// Why a slice cannot be made of what was read.
#[derive(Debug, Clone, Copy, PartialEq, Eq, Structural)]
pub enum DeserializeError {
    /// Text was read where bytes were expected.
    UnexpectedStr,
    /// The bytes that were read are not UTF-8.
    InvalidUtf8,
}

/// A slice of bytes that can be read from a data format.
pub trait Deserializable: Slice<Item = u8> {
    /// Whether text makes a slice.
    spec fn accepts_text() -> bool;

    /// What is expected, in words.
    spec fn expected() -> Seq<char>;

    /// What is expected, in words.
    fn expecting() -> (r: &'static str)
        ensures
            r@ == Self::expected(),
    ;

    /// A slice of bytes that were read.
    fn deserialize_from_bytes(bytes: &[u8]) -> (r: Result<&Self, DeserializeError>)
        ensures
            match r {
                Ok(slice) => Self::valid(bytes@) && slice.items() == bytes@,
                Err(error) => !Self::valid(bytes@) && error == DeserializeError::InvalidUtf8,
            },
    ;

    /// A vector of bytes that were read.
    fn deserialize_from_byte_buf(bytes: Vec<u8>) -> (r: Result<Self::Vec, DeserializeError>)
        ensures
            match r {
                Ok(vec) => Self::valid(bytes@) && Self::vec_items(vec) == bytes@,
                Err(error) => !Self::valid(bytes@) && error == DeserializeError::InvalidUtf8,
            },
    ;

    /// A slice of text that was read.
    fn deserialize_from_str(text: &str) -> (r: Result<&Self, DeserializeError>)
        ensures
            match r {
                Ok(slice) => Self::accepts_text() && slice.items() == encode_utf8(text@),
                Err(error) => !Self::accepts_text() && error == DeserializeError::UnexpectedStr,
            },
    ;

    /// A vector of text that was read.
    fn deserialize_from_string(text: String) -> (r: Result<Self::Vec, DeserializeError>)
        ensures
            match r {
                Ok(vec) => Self::accepts_text() && Self::vec_items(vec) == encode_utf8(text@),
                Err(error) => !Self::accepts_text() && error == DeserializeError::UnexpectedStr,
            },
    ;
}

impl Deserializable for [u8] {
    open spec fn accepts_text() -> bool {
        false
    }

    open spec fn expected() -> Seq<char> {
        "a byte string"@
    }

    fn expecting() -> (r: &'static str) {
        "a byte string"
    }

    fn deserialize_from_bytes(bytes: &[u8]) -> (r: Result<&Self, DeserializeError>) {
        Ok(bytes)
    }

    fn deserialize_from_byte_buf(bytes: Vec<u8>) -> (r: Result<Vec<u8>, DeserializeError>) {
        Ok(bytes)
    }

    fn deserialize_from_str(text: &str) -> (r: Result<&Self, DeserializeError>) {
        Err(DeserializeError::UnexpectedStr)
    }

    fn deserialize_from_string(text: String) -> (r: Result<Vec<u8>, DeserializeError>) {
        Err(DeserializeError::UnexpectedStr)
    }
}

impl Deserializable for str {
    open spec fn accepts_text() -> bool {
        true
    }

    open spec fn expected() -> Seq<char> {
        "a string"@
    }

    fn expecting() -> (r: &'static str) {
        "a string"
    }

    fn deserialize_from_bytes(bytes: &[u8]) -> (r: Result<&str, DeserializeError>) {
        match core::str::from_utf8(bytes) {
            Ok(text) => Ok(text),
            Err(_) => Err(DeserializeError::InvalidUtf8),
        }
    }

    fn deserialize_from_byte_buf(bytes: Vec<u8>) -> (r: Result<String, DeserializeError>) {
        match String::from_utf8(bytes) {
            Ok(text) => Ok(text),
            Err(_) => Err(DeserializeError::InvalidUtf8),
        }
    }

    fn deserialize_from_str(text: &str) -> (r: Result<&str, DeserializeError>) {
        Ok(text)
    }

    fn deserialize_from_string(text: String) -> (r: Result<String, DeserializeError>) {
        Ok(text)
    }
}

impl Deserializable for BStr {
    open spec fn accepts_text() -> bool {
        true
    }

    open spec fn expected() -> Seq<char> {
        "a byte string"@
    }

    fn expecting() -> (r: &'static str) {
        "a byte string"
    }

    fn deserialize_from_bytes(bytes: &[u8]) -> (r: Result<&BStr, DeserializeError>) {
        Ok(<BStr as Slice>::from_slice_unchecked(bytes))
    }

    fn deserialize_from_byte_buf(bytes: Vec<u8>) -> (r: Result<BString, DeserializeError>) {
        Ok(<BStr as Slice>::from_vec_unchecked(bytes))
    }

    fn deserialize_from_str(text: &str) -> (r: Result<&BStr, DeserializeError>) {
        Ok(<BStr as Slice>::from_slice_unchecked(text.as_bytes()))
    }

    fn deserialize_from_string(text: String) -> (r: Result<BString, DeserializeError>) {
        Ok(<BStr as Slice>::from_vec_unchecked(text.into_bytes()))
    }
}

impl<S: Slice + ?Sized, L: Layout> ArcSlice<S, L> {
    /// Shares a vector of items that were read, if the layout supports it; else they are moved into a
    /// buffer of its own.
    pub fn new_vec(vec: S::Vec) -> (r: Self)
        ensures
            r@ == S::vec_items(vec),
            if L::any_buffer() {
                exists|capacity: int| #[trigger] r.is_vec_with(capacity)
            } else {
                r.kept_own(r@.len() as int)
            },
    {
        if L::supports_any_buffer() {
            Self::from_vec(vec)
        } else {
            proof {
                S::lemma_vec_valid(vec);
            }
            Self::from_items_own(S::into_vec(vec))
        }
    }
}

impl<S: Slice<Item = u8> + ?Sized, L: Layout> ArcSlice<S, L> {
    /// Copies bytes that were read.
    pub fn new_bytes(slice: &S) -> (r: Self)
        ensures
            r@ == slice.items(),
            r.kept_own(slice.items().len() as int),
    {
        Self::from_slice(slice)
    }

    /// Shares a vector of bytes that were read, if the layout supports it; else they are copied.
    pub fn new_byte_vec(vec: S::Vec) -> (r: Self)
        ensures
            r@ == S::vec_items(vec),
            if L::any_buffer() {
                exists|capacity: int| #[trigger] r.is_vec_with(capacity)
            } else {
                r.kept_own(r@.len() as int)
            },
    {
        if L::supports_any_buffer() {
            Self::from_vec(vec)
        } else {
            proof {
                S::lemma_vec_valid(vec);
            }
            let items = S::into_vec(vec);
            Self::new_bytes(S::from_slice_unchecked(items.as_slice()))
        }
    }
}

impl<S: Slice<Item = u8> + ?Sized, L: LayoutMut> ArcSliceMut<S, L, true> {
    /// Copies bytes that were read.
    pub fn new_bytes(slice: &S) -> (r: Self)
        ensures
            r@ == slice.items(),
            r.kept_with(slice.items().len() as int),
    {
        Self::from_slice(slice)
    }

    /// A slice of the bytes of a vector that were read, which stays what it is if the layout supports
    /// it; else they are copied.
    pub fn new_byte_vec(vec: S::Vec) -> (r: Self)
        ensures
            r.wf(),
            r@ == S::vec_items(vec),
            if L::any_buffer() {
                r.is_vec_with(r.capacity_spec())
            } else {
                r.kept_with(r@.len() as int)
            },
    {
        if L::supports_any_buffer() {
            Self::from_vec(vec)
        } else {
            proof {
                S::lemma_vec_valid(vec);
            }
            let items = S::into_vec(vec);
            Self::new_bytes(S::from_slice_unchecked(items.as_slice()))
        }
    }
}

/// Text makes text and byte strings, but no bytes; and what is expected is said in these words.
pub proof fn law_what_is_expected()
    ensures
        !<[u8] as Deserializable>::accepts_text(),
        <str as Deserializable>::accepts_text(),
        <BStr as Deserializable>::accepts_text(),
        <[u8] as Deserializable>::expected() == "a byte string"@,
        <str as Deserializable>::expected() == "a string"@,
        <BStr as Deserializable>::expected() == "a byte string"@,
{
}

} // verus!
