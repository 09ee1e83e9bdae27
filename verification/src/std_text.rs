//! What the standard library says of the text functions that the crate calls.

use vstd::prelude::*;
use vstd::utf8::encode_utf8;
use vstd::utf8::valid_utf8;

verus! {

/// [`core::str::Utf8Error`], which tells where a byte slice stops being UTF-8.
#[verifier::external_type_specification]
#[verifier::external_body]
pub struct ExUtf8Error(core::str::Utf8Error);

/// [`std::string::FromUtf8Error`], a [`core::str::Utf8Error`] with the bytes that it is about.
#[verifier::external_type_specification]
#[verifier::external_body]
pub struct ExFromUtf8Error(std::string::FromUtf8Error);

/// The error of [`core::str::from_utf8`], which tells where the bytes stop being UTF-8.
pub uninterp spec fn utf8_error(bytes: Seq<u8>) -> core::str::Utf8Error;

/// [`core::str::from_utf8`] accepts exactly the slices that are valid UTF-8, and borrows the bytes
/// as they are. Its error is named by [`utf8_error`]: it depends on the bytes alone.
pub assume_specification[ core::str::from_utf8 ](v: &[u8]) -> (r: Result<
    &str,
    core::str::Utf8Error,
>)
    ensures
        r is Ok <==> valid_utf8(v@),
        match r {
            Ok(s) => encode_utf8(s@) == v@,
            Err(error) => error == utf8_error(v@),
        },
;

/// [`core::str::from_utf8_mut`] accepts exactly the slices that are valid UTF-8, and lends the
/// bytes as they are: what is written through the result is what the slice ends up with.
pub assume_specification[ core::str::from_utf8_mut ](v: &mut [u8]) -> (r: Result<
    &mut str,
    core::str::Utf8Error,
>)
    ensures
        r is Ok <==> valid_utf8(old(v)@),
        match r {
            Ok(s) => encode_utf8(s@) == old(v)@ && final(v)@ == encode_utf8(final(s)@),
            Err(_) => final(v)@ == old(v)@,
        },
;

/// [`String::into_bytes`] gives the UTF-8 encoding of the string.
pub assume_specification[ String::into_bytes ](s: String) -> (r: std::vec::Vec<u8>)
    ensures
        r@ == encode_utf8(s@),
;

/// [`String::from_utf8`] accepts exactly the vectors that are valid UTF-8, and the string it makes
/// is encoded by those bytes.
pub assume_specification[ String::from_utf8 ](vec: std::vec::Vec<u8>) -> (r: Result<
    String,
    std::string::FromUtf8Error,
>)
    ensures
        r is Ok <==> valid_utf8(vec@),
        r matches Ok(s) ==> encode_utf8(s@) == vec@,
;

/// [`String::into_boxed_str`] keeps the text.
pub assume_specification[ String::into_boxed_str ](s: String) -> (r: Box<str>)
    ensures
        r@ == s@,
;

/// [`str::into_boxed_bytes`] gives the UTF-8 encoding of the string.
pub assume_specification[ str::into_boxed_bytes ](s: Box<str>) -> (r: Box<[u8]>)
    ensures
        r@ == encode_utf8(s@),
;

/// [`String::as_mut_str`] lends the text: what is written through the result is what the string
/// ends up with.
pub assume_specification[ String::as_mut_str ](s: &mut String) -> (r: &mut str)
    ensures
        r@ == old(s)@,
        final(s)@ == final(r)@,
;

/// [`String::push`] appends one character.
pub assume_specification[ String::push ](s: &mut String, c: char)
    ensures
        final(s)@ == old(s)@.push(c),
;

} // verus!
