//! Byte strings that are conventionally, but not necessarily, UTF-8.

use crate::buffer::{
    Buffer, BufferClass, BufferMut, BufferParts, Concatenable, Emptyable, Extendable, Slice,
    Subsliceable, Zeroable,
};
use bstr::{BStr, BString, ByteSlice};
use core::convert::Infallible;
use vstd::prelude::*;

verus! {

/// [`bstr::BStr`], a slice of bytes.
#[verifier::external_type_specification]
#[verifier::external_body]
pub struct ExBStr(bstr::BStr);

/// [`bstr::BString`], a vector of bytes.
#[verifier::external_type_specification]
#[verifier::external_body]
pub struct ExBString(bstr::BString);

/// The bytes of a byte string.
pub uninterp spec fn bstr_bytes(s: &BStr) -> Seq<u8>;

/// The bytes of an owned byte string.
pub uninterp spec fn bstring_bytes(s: BString) -> Seq<u8>;

/// The dereferencing of a [`BStr`] to its bytes.
#[verifier::external_body]
fn bstr_to_slice(s: &BStr) -> (r: &[u8])
    ensures
        r@ == bstr_bytes(s),
{
    s
}

/// [`bstr::ByteSlice::as_bstr`]: bytes are taken for a byte string as they are.
#[verifier::external_body]
fn slice_to_bstr(s: &[u8]) -> (r: &BStr)
    ensures
        bstr_bytes(r) == s@,
{
    s.as_bstr()
}

/// [`bstr::ByteSlice::as_bstr_mut`]: bytes are lent as a byte string; what is written through the
/// result is what the slice ends up with.
#[verifier::external_body]
fn slice_to_bstr_mut(s: &mut [u8]) -> (r: &mut BStr)
    ensures
        bstr_bytes(r) == old(s)@,
        final(s)@ == bstr_bytes(final(r)),
{
    s.as_bstr_mut()
}

/// The conversion of a boxed [`BStr`] to its bytes.
#[verifier::external_body]
fn boxed_bstr_to_boxed(s: Box<BStr>) -> (r: Box<[u8]>)
    ensures
        r@ == bstr_bytes(&*s),
{
    s.into()
}

/// The conversion of boxed bytes to a [`BStr`].
#[verifier::external_body]
fn boxed_to_boxed_bstr(s: Box<[u8]>) -> (r: Box<BStr>)
    ensures
        bstr_bytes(&*r) == s@,
{
    s.into()
}

/// The conversion of a [`BString`] to its bytes.
#[verifier::external_body]
fn bstring_to_vec(s: BString) -> (r: Vec<u8>)
    ensures
        r@ == bstring_bytes(s),
{
    s.into()
}

/// The conversion of bytes to a [`BString`].
#[verifier::external_body]
fn vec_to_bstring(s: Vec<u8>) -> (r: BString)
    ensures
        bstring_bytes(r) == s@,
{
    s.into()
}

/// The dereferencing of a [`BString`] to its vector of bytes.
#[verifier::external_body]
fn bstring_as_vec(s: &BString) -> (r: &Vec<u8>)
    ensures
        r@ == bstring_bytes(*s),
{
    s
}

/// The mutable dereferencing of a [`BString`] to its vector of bytes; what is written through the
/// result is what the byte string ends up with.
#[verifier::external_body]
fn bstring_as_vec_mut(s: &mut BString) -> (r: &mut Vec<u8>)
    ensures
        r@ == bstring_bytes(*old(s)),
        bstring_bytes(*final(s)) == final(r)@,
{
    s
}

impl Slice for BStr {
    type Item = u8;

    type Vec = BString;

    type TryFromSliceError = Infallible;

    open spec fn items(&self) -> Seq<u8> {
        bstr_bytes(self)
    }

    open spec fn valid(items: Seq<u8>) -> bool {
        true
    }

    open spec fn refusal(items: Seq<u8>) -> Infallible {
        arbitrary()
    }

    open spec fn vec_items(vec: BString) -> Seq<u8> {
        bstring_bytes(vec)
    }

    proof fn lemma_items_valid(&self) {
    }

    proof fn lemma_vec_valid(vec: BString) {
    }

    fn to_slice(&self) -> (r: &[u8]) {
        bstr_to_slice(self)
    }

    fn into_boxed_slice(boxed: Box<BStr>) -> (r: Box<[u8]>) {
        boxed_bstr_to_boxed(boxed)
    }

    fn into_vec(vec: BString) -> (r: Vec<u8>) {
        bstring_to_vec(vec)
    }

    fn vec_capacity(vec: &BString) -> (r: usize) {
        <[u8] as Slice>::vec_capacity(bstring_as_vec(vec))
    }

    fn from_slice_unchecked(slice: &[u8]) -> (r: &BStr) {
        slice_to_bstr(slice)
    }

    fn from_slice_mut_unchecked(slice: &mut [u8]) -> (r: &mut BStr) {
        slice_to_bstr_mut(slice)
    }

    fn from_boxed_slice_unchecked(boxed: Box<[u8]>) -> (r: Box<BStr>) {
        boxed_to_boxed_bstr(boxed)
    }

    fn from_vec_unchecked(vec: Vec<u8>) -> (r: BString) {
        vec_to_bstring(vec)
    }

    fn try_from_slice(slice: &[u8]) -> (r: Result<&BStr, Infallible>) {
        Ok(slice_to_bstr(slice))
    }

    fn try_from_slice_mut(slice: &mut [u8]) -> (r: Result<&mut BStr, Infallible>) {
        Ok(slice_to_bstr_mut(slice))
    }

    fn needs_drop() -> (r: bool) {
        <[u8] as Slice>::needs_drop()
    }
}

impl Emptyable for BStr {
    proof fn lemma_empty_valid() {
    }
}

impl Zeroable for BStr {
    open spec fn zero() -> u8 {
        0
    }

    proof fn lemma_zeroed_valid(n: nat) {
    }

    fn zero_item() -> (r: u8) {
        0
    }
}

impl Subsliceable for BStr {
    open spec fn boundary(items: Seq<u8>, at: int) -> bool {
        true
    }

    proof fn lemma_subslice_valid(items: Seq<u8>, start: int, end: int) {
    }

    proof fn lemma_boundary_of_subslice(items: Seq<u8>, start: int, end: int, at: int) {
    }

    proof fn lemma_ends_are_boundaries(items: Seq<u8>) {
    }

    fn check_subslice(&self, start: usize, end: usize) -> (r: bool) {
        true
    }
}

impl Concatenable for BStr {
    proof fn lemma_concat_valid(first: Seq<u8>, second: Seq<u8>) {
    }
}

impl Extendable for BStr {
    proof fn lemma_push_valid(items: Seq<u8>, item: u8) {
    }
}

impl Buffer<BStr> for BString {
    open spec fn buffer_items(&self) -> Seq<u8> {
        bstring_bytes(*self)
    }

    open spec fn class() -> BufferClass {
        BufferClass::Vector
    }

    fn as_slice(&self) -> (r: &BStr) {
        slice_to_bstr(bstring_as_vec(self).as_slice())
    }

    fn is_unique(&self) -> (r: bool)
        ensures
            r,
    {
        true
    }

    fn buffer_class() -> (r: BufferClass) {
        BufferClass::Vector
    }

    fn into_parts(self) -> (r: BufferParts<BStr, Self>) {
        let room: usize = <BStr as Slice>::vec_capacity(&self);
        BufferParts::Items(bstring_to_vec(self), room)
    }

    fn from_static_slice(slice: &'static BStr) -> (r: Result<Self, &'static BStr>) {
        Err(slice)
    }

    fn from_items(items: Vec<u8>) -> (r: Result<Self, Vec<u8>>) {
        Ok(vec_to_bstring(items))
    }
}

impl BufferMut<BStr> for BString {
    fn as_mut_slice(&mut self) -> (r: &mut BStr) {
        slice_to_bstr_mut(bstring_as_vec_mut(self).as_mut_slice())
    }

    fn capacity(&self) -> (r: usize) {
        <BStr as Slice>::vec_capacity(self)
    }

    fn take_items(self) -> (r: (Vec<u8>, Self)) {
        (bstring_to_vec(self), vec_to_bstring(Vec::new()))
    }

    fn put_items(self, items: Vec<u8>) -> (r: Self) {
        vec_to_bstring(items)
    }
}

/// Any bytes make a byte string, which can be cut anywhere.
pub proof fn law_what_makes_a_byte_string(bytes: Seq<u8>, at: int, text: BString)
    ensures
        <BStr as Slice>::valid(bytes),
        <BStr as Subsliceable>::boundary(bytes, at),
        <BStr as Zeroable>::zero() == 0,
        <BString as Buffer<BStr>>::class() is Vector,
        <BString as Buffer<BStr>>::buffer_items(&text) == <BStr as Slice>::vec_items(text),
{
}

} // verus!
