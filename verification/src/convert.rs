//! Conversions from and to the types of the standard library.

use crate::buffer::Slice;
use crate::bytes_mut::{Bytes, BytesMut};
use crate::inlined::{InlinedLayout, SmallArcSlice, SmallSlice};
use crate::layout::{AnyBufferLayout, Layout, LayoutMut};
use crate::slice::ArcSlice;
use crate::slice_mut::ArcSliceMut;
use crate::std_text::utf8_error;
use crate::vtable::VTableOrCapacity;
use core::convert::Infallible;
use either::Either;
use vstd::prelude::*;
use vstd::std_specs::convert::{FromSpecImpl, TryFromSpecImpl};

verus! {

impl<'a, S: Slice + ?Sized, L: Layout> From<&'a S> for ArcSlice<S, L> where S::Item: Copy {
    fn from(value: &'a S) -> (r: Self)
        ensures
            r@ == value.items(),
            r.kept_own(value.items().len() as int),
    {
        Self::from_slice(value)
    }
}

impl<'a, S: Slice + ?Sized, L: Layout> FromSpecImpl<&'a S> for ArcSlice<S, L> where S::Item: Copy {
    open spec fn obeys_from_spec() -> bool {
        false
    }

    open spec fn from_spec(value: &'a S) -> Self {
        arbitrary()
    }
}

impl<'a, T: Copy + Send + Sync + 'static, L: Layout, const N: usize> From<&'a [T; N]> for ArcSlice<[T], L> {
    fn from(value: &'a [T; N]) -> (r: Self)
        ensures
            r@ == value@,
            r.kept_own(N as int),
    {
        Self::from_slice(value.as_slice())
    }
}

impl<'a, T: Copy + Send + Sync + 'static, L: Layout, const N: usize> FromSpecImpl<&'a [T; N]> for ArcSlice<[T], L> {
    open spec fn obeys_from_spec() -> bool {
        false
    }

    open spec fn from_spec(value: &'a [T; N]) -> Self {
        arbitrary()
    }
}

impl<T: Send + Sync + 'static, L: Layout, const N: usize> From<[T; N]> for ArcSlice<[T], L> {
    fn from(value: [T; N]) -> (r: Self)
        ensures
            r@ == value@,
            r.kept_own(N as int),
    {
        Self::from_array(value)
    }
}

impl<T: Send + Sync + 'static, L: Layout, const N: usize> FromSpecImpl<[T; N]> for ArcSlice<[T], L> {
    open spec fn obeys_from_spec() -> bool {
        false
    }

    open spec fn from_spec(value: [T; N]) -> Self {
        arbitrary()
    }
}

impl<S: Slice + ?Sized, L: AnyBufferLayout> From<Box<S>> for ArcSlice<S, L> {
    fn from(value: Box<S>) -> (r: Self)
        ensures
            r.made_of::<Box<S>>(value),
    {
        Self::from_buffer::<Box<S>>(value)
    }
}

impl<S: Slice + ?Sized, L: AnyBufferLayout> FromSpecImpl<Box<S>> for ArcSlice<S, L> {
    open spec fn obeys_from_spec() -> bool {
        false
    }

    open spec fn from_spec(value: Box<S>) -> Self {
        arbitrary()
    }
}

impl<T: Send + Sync + 'static, L: AnyBufferLayout> From<Vec<T>> for ArcSlice<[T], L> {
    fn from(value: Vec<T>) -> (r: Self)
        ensures
            r.made_of::<Vec<T>>(value),
    {
        Self::from_buffer::<Vec<T>>(value)
    }
}

impl<T: Send + Sync + 'static, L: AnyBufferLayout> FromSpecImpl<Vec<T>> for ArcSlice<[T], L> {
    open spec fn obeys_from_spec() -> bool {
        false
    }

    open spec fn from_spec(value: Vec<T>) -> Self {
        arbitrary()
    }
}

impl<L: AnyBufferLayout> From<String> for ArcSlice<str, L> {
    fn from(value: String) -> (r: Self)
        ensures
            r.made_of::<String>(value),
    {
        Self::from_buffer::<String>(value)
    }
}

impl<L: AnyBufferLayout> FromSpecImpl<String> for ArcSlice<str, L> {
    open spec fn obeys_from_spec() -> bool {
        false
    }

    open spec fn from_spec(value: String) -> Self {
        arbitrary()
    }
}

impl<L: Layout> From<ArcSlice<str, L>> for ArcSlice<[u8], L> {
    fn from(value: ArcSlice<str, L>) -> (r: Self)
        ensures
            r@ == value@,
            value.kept_in(r),
    {
        value.into_arc_slice()
    }
}

impl<L: Layout> FromSpecImpl<ArcSlice<str, L>> for ArcSlice<[u8], L> {
    open spec fn obeys_from_spec() -> bool {
        false
    }

    open spec fn from_spec(value: ArcSlice<str, L>) -> Self {
        arbitrary()
    }
}

impl<'a, S: Slice + ?Sized, L: LayoutMut> From<&'a S> for ArcSliceMut<S, L, true> where S::Item: Copy {
    fn from(value: &'a S) -> (r: Self)
        ensures
            r@ == value.items(),
            r.kept_with(value.items().len() as int),
    {
        Self::from_slice(value)
    }
}

impl<'a, S: Slice + ?Sized, L: LayoutMut> FromSpecImpl<&'a S> for ArcSliceMut<S, L, true> where S::Item: Copy {
    open spec fn obeys_from_spec() -> bool {
        false
    }

    open spec fn from_spec(value: &'a S) -> Self {
        arbitrary()
    }
}

impl<'a, T: Copy + Send + Sync + 'static, L: LayoutMut, const N: usize> From<&'a [T; N]> for ArcSliceMut<[T], L, true> {
    fn from(value: &'a [T; N]) -> (r: Self)
        ensures
            r@ == value@,
            r.kept_with(N as int),
    {
        Self::from_slice(value.as_slice())
    }
}

impl<'a, T: Copy + Send + Sync + 'static, L: LayoutMut, const N: usize> FromSpecImpl<&'a [T; N]> for ArcSliceMut<[T], L, true> {
    open spec fn obeys_from_spec() -> bool {
        false
    }

    open spec fn from_spec(value: &'a [T; N]) -> Self {
        arbitrary()
    }
}

impl<T: Send + Sync + 'static, L: LayoutMut, const N: usize> From<[T; N]> for ArcSliceMut<[T], L, true> {
    fn from(value: [T; N]) -> (r: Self)
        ensures
            r@ == value@,
            r.kept_with(N as int),
    {
        Self::from_array(value)
    }
}

impl<T: Send + Sync + 'static, L: LayoutMut, const N: usize> FromSpecImpl<[T; N]> for ArcSliceMut<[T], L, true> {
    open spec fn obeys_from_spec() -> bool {
        false
    }

    open spec fn from_spec(value: [T; N]) -> Self {
        arbitrary()
    }
}

impl<T: Send + Sync + 'static, L: AnyBufferLayout + LayoutMut> From<Vec<T>> for ArcSliceMut<[T], L, true> {
    fn from(value: Vec<T>) -> (r: Self)
        ensures
            r.made_of::<Vec<T>>(value),
    {
        Self::from_buffer::<Vec<T>>(value)
    }
}

impl<T: Send + Sync + 'static, L: AnyBufferLayout + LayoutMut> FromSpecImpl<Vec<T>> for ArcSliceMut<[T], L, true> {
    open spec fn obeys_from_spec() -> bool {
        false
    }

    open spec fn from_spec(value: Vec<T>) -> Self {
        arbitrary()
    }
}

impl<L: Layout> TryFrom<ArcSlice<[u8], L>> for ArcSlice<str, L> {
    type Error = (core::str::Utf8Error, ArcSlice<[u8], L>);

    fn try_from(value: ArcSlice<[u8], L>) -> (r: Result<Self, Self::Error>)
        ensures
            match r {
                Ok(this) => vstd::utf8::valid_utf8(value@) && this@ == value@ && value.kept_in(this),
                Err((error, same)) => !vstd::utf8::valid_utf8(value@) && error == utf8_error(value@)
                    && same == value,
            },
    {
        Self::try_from_arc_slice(value)
    }
}

impl<L: Layout> TryFromSpecImpl<ArcSlice<[u8], L>> for ArcSlice<str, L> {
    open spec fn obeys_try_from_spec() -> bool {
        false
    }

    open spec fn try_from_spec(value: ArcSlice<[u8], L>) -> Result<Self, Self::Error> {
        arbitrary()
    }
}

impl<T: Send + Sync + 'static, L: Layout, const N: usize> TryFrom<ArcSlice<[T], L>> for [T; N] {
    type Error = ArcSlice<[T], L>;

    fn try_from(value: ArcSlice<[T], L>) -> (r: Result<Self, Self::Error>)
        ensures
            match r {
                Ok(array) => array@ == value@ && value.buffer() == Some(
                    VTableOrCapacity::Capacity(N),
                ) && value@.len() == N,
                Err(same) => same == value && (value.buffer() == Some(VTableOrCapacity::Capacity(N))
                    && value@.len() == N ==> value.found_shared()),
            },
    {
        value.try_into_array::<N>()
    }
}

impl<T: Send + Sync + 'static, L: Layout, const N: usize> TryFromSpecImpl<ArcSlice<[T], L>> for [T; N] {
    open spec fn obeys_try_from_spec() -> bool {
        false
    }

    open spec fn try_from_spec(value: ArcSlice<[T], L>) -> Result<Self, Self::Error> {
        arbitrary()
    }
}

impl<L: Layout> core::str::FromStr for ArcSlice<str, L> {
    type Err = Infallible;

    fn from_str(s: &str) -> (r: Result<Self, Self::Err>)
        ensures
            r matches Ok(this) && this@ == s.items() && this.kept_own(s.items().len() as int),
    {
        Ok(Self::from_slice(s))
    }
}

impl<S: Slice<Item = u8> + ?Sized, L: InlinedLayout> From<SmallSlice<S, L>> for SmallArcSlice<S, L> {
    fn from(value: SmallSlice<S, L>) -> (r: Self)
        ensures
            r.either() == Either::<SmallSlice<S, L>, ArcSlice<S, L>>::Left(value),
    {
        Self::from_small(value)
    }
}

impl<S: Slice<Item = u8> + ?Sized, L: InlinedLayout> FromSpecImpl<SmallSlice<S, L>> for SmallArcSlice<S, L> {
    open spec fn obeys_from_spec() -> bool {
        false
    }

    open spec fn from_spec(value: SmallSlice<S, L>) -> Self {
        arbitrary()
    }
}

impl<S: Slice<Item = u8> + ?Sized, L: InlinedLayout> From<ArcSlice<S, L>> for SmallArcSlice<S, L> {
    fn from(value: ArcSlice<S, L>) -> (r: Self)
        ensures
            r.either() == Either::<SmallSlice<S, L>, ArcSlice<S, L>>::Right(value),
    {
        Self::from_arc(value)
    }
}

impl<S: Slice<Item = u8> + ?Sized, L: InlinedLayout> FromSpecImpl<ArcSlice<S, L>> for SmallArcSlice<S, L> {
    open spec fn obeys_from_spec() -> bool {
        false
    }

    open spec fn from_spec(value: ArcSlice<S, L>) -> Self {
        arbitrary()
    }
}

impl<'a, S: Slice<Item = u8> + ?Sized, L: InlinedLayout> From<&'a S> for SmallArcSlice<S, L> {
    fn from(value: &'a S) -> (r: Self)
        ensures
            r@ == value.items(),
            r.kept_small(value.items().len() as int),
    {
        Self::from_slice(value)
    }
}

impl<'a, S: Slice<Item = u8> + ?Sized, L: InlinedLayout> FromSpecImpl<&'a S> for SmallArcSlice<S, L> {
    open spec fn obeys_from_spec() -> bool {
        false
    }

    open spec fn from_spec(value: &'a S) -> Self {
        arbitrary()
    }
}

impl<L: InlinedLayout, const N: usize> From<[u8; N]> for SmallArcSlice<[u8], L> {
    fn from(value: [u8; N]) -> (r: Self)
        ensures
            r@ == value@,
            r.kept_small(N as int),
    {
        Self::from_array(value)
    }
}

impl<L: InlinedLayout, const N: usize> FromSpecImpl<[u8; N]> for SmallArcSlice<[u8], L> {
    open spec fn obeys_from_spec() -> bool {
        false
    }

    open spec fn from_spec(value: [u8; N]) -> Self {
        arbitrary()
    }
}

impl<L: InlinedLayout + AnyBufferLayout> From<Vec<u8>> for SmallArcSlice<[u8], L> {
    fn from(value: Vec<u8>) -> (r: Self)
        ensures
            r.either() matches Either::Right(arc) && arc.made_of::<Vec<u8>>(value),
    {
        Self::from_arc(ArcSlice::<[u8], L>::from(value))
    }
}

impl<L: InlinedLayout + AnyBufferLayout> FromSpecImpl<Vec<u8>> for SmallArcSlice<[u8], L> {
    open spec fn obeys_from_spec() -> bool {
        false
    }

    open spec fn from_spec(value: Vec<u8>) -> Self {
        arbitrary()
    }
}

impl<L: InlinedLayout + AnyBufferLayout> From<String> for SmallArcSlice<str, L> {
    fn from(value: String) -> (r: Self)
        ensures
            r.either() matches Either::Right(arc) && arc.made_of::<String>(value),
    {
        Self::from_arc(ArcSlice::<str, L>::from(value))
    }
}

impl<L: InlinedLayout + AnyBufferLayout> FromSpecImpl<String> for SmallArcSlice<str, L> {
    open spec fn obeys_from_spec() -> bool {
        false
    }

    open spec fn from_spec(value: String) -> Self {
        arbitrary()
    }
}

impl<S: Slice<Item = u8> + ?Sized, L: InlinedLayout + AnyBufferLayout> From<Box<S>> for SmallArcSlice<S, L> {
    fn from(value: Box<S>) -> (r: Self)
        ensures
            r.either() matches Either::Right(arc) && arc.made_of::<Box<S>>(value),
    {
        Self::from_arc(ArcSlice::<S, L>::from(value))
    }
}

impl<S: Slice<Item = u8> + ?Sized, L: InlinedLayout + AnyBufferLayout> FromSpecImpl<Box<S>> for SmallArcSlice<S, L> {
    open spec fn obeys_from_spec() -> bool {
        false
    }

    open spec fn from_spec(value: Box<S>) -> Self {
        arbitrary()
    }
}

impl<'a, L: InlinedLayout, const N: usize> From<&'a [u8; N]> for SmallArcSlice<[u8], L> {
    fn from(value: &'a [u8; N]) -> (r: Self)
        ensures
            r@ == value@,
            r.kept_small(N as int),
    {
        Self::from_slice(value.as_slice())
    }
}

impl<'a, L: InlinedLayout, const N: usize> FromSpecImpl<&'a [u8; N]> for SmallArcSlice<[u8], L> {
    open spec fn obeys_from_spec() -> bool {
        false
    }

    open spec fn from_spec(value: &'a [u8; N]) -> Self {
        arbitrary()
    }
}

impl<'a> From<&'a [u8]> for BytesMut {
    fn from(value: &'a [u8]) -> (r: Self)
        ensures
            r@ == value@,
            r.is_vec(value@.len() as int),
    {
        Self::copy_from_slice(value)
    }
}

impl<'a> FromSpecImpl<&'a [u8]> for BytesMut {
    open spec fn obeys_from_spec() -> bool {
        false
    }

    open spec fn from_spec(value: &'a [u8]) -> Self {
        arbitrary()
    }
}

impl<'a> From<&'a str> for BytesMut {
    fn from(value: &'a str) -> (r: Self)
        ensures
            r@ == value.items(),
            r.is_vec(value.items().len() as int),
    {
        Self::copy_from_slice(value.to_slice())
    }
}

impl<'a> FromSpecImpl<&'a str> for BytesMut {
    open spec fn obeys_from_spec() -> bool {
        false
    }

    open spec fn from_spec(value: &'a str) -> Self {
        arbitrary()
    }
}

impl From<Vec<u8>> for BytesMut {
    fn from(value: Vec<u8>) -> (r: Self)
        ensures
            r@ == value@,
            r.is_vec(r.capacity_spec()),
    {
        Self::from_vec(value)
    }
}

impl FromSpecImpl<Vec<u8>> for BytesMut {
    open spec fn obeys_from_spec() -> bool {
        false
    }

    open spec fn from_spec(value: Vec<u8>) -> Self {
        arbitrary()
    }
}

impl From<Bytes> for BytesMut {
    fn from(value: Bytes) -> (r: Self)
        ensures
            r.wf(),
            r@ == value@,
            r.made_of_bytes(value),
    {
        Self::from_bytes(value)
    }
}

impl FromSpecImpl<Bytes> for BytesMut {
    open spec fn obeys_from_spec() -> bool {
        false
    }

    open spec fn from_spec(value: Bytes) -> Self {
        arbitrary()
    }
}

} // verus!
