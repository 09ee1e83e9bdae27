//! Comparison of the types of the standard library with slices, item by item.

use crate::buffer::Slice;
use crate::compare::{items_eq, items_eq_spec};
use crate::inlined::{InlinedLayout, SmallArcSlice, SmallSlice};
use crate::layout::{Layout, LayoutMut};
use crate::slice::ArcSlice;
use crate::slice_mut::ArcSliceMut;
use vstd::prelude::*;
use vstd::std_specs::cmp::{PartialEqSpec, PartialEqSpecImpl};

verus! {

impl<T: PartialEq + Send + Sync + 'static, L: Layout, const N: usize> PartialEq<ArcSlice<[T], L>> for [T; N] {
    fn eq(&self, other: &ArcSlice<[T], L>) -> (r: bool) {
        items_eq(self.as_slice(), other.as_items())
    }
}

impl<T: PartialEq + Send + Sync + 'static, L: Layout, const N: usize> PartialEqSpecImpl<ArcSlice<[T], L>> for [T; N] {
    open spec fn obeys_eq_spec() -> bool {
        T::obeys_eq_spec()
    }

    open spec fn eq_spec(&self, other: &ArcSlice<[T], L>) -> bool {
        items_eq_spec(self@, other@)
    }
}

impl<T: PartialEq + Send + Sync + 'static, L: Layout> PartialEq<ArcSlice<[T], L>> for [T] {
    fn eq(&self, other: &ArcSlice<[T], L>) -> (r: bool) {
        items_eq(self, other.as_items())
    }
}

impl<T: PartialEq + Send + Sync + 'static, L: Layout> PartialEqSpecImpl<ArcSlice<[T], L>> for [T] {
    open spec fn obeys_eq_spec() -> bool {
        T::obeys_eq_spec()
    }

    open spec fn eq_spec(&self, other: &ArcSlice<[T], L>) -> bool {
        items_eq_spec(self@, other@)
    }
}

impl<T: PartialEq + Send + Sync + 'static, L: Layout> PartialEq<ArcSlice<[T], L>> for Vec<T> {
    fn eq(&self, other: &ArcSlice<[T], L>) -> (r: bool) {
        items_eq(self.as_slice(), other.as_items())
    }
}

impl<T: PartialEq + Send + Sync + 'static, L: Layout> PartialEqSpecImpl<ArcSlice<[T], L>> for Vec<T> {
    open spec fn obeys_eq_spec() -> bool {
        T::obeys_eq_spec()
    }

    open spec fn eq_spec(&self, other: &ArcSlice<[T], L>) -> bool {
        items_eq_spec(self@, other@)
    }
}

impl<L: Layout> PartialEq<ArcSlice<str, L>> for str {
    fn eq(&self, other: &ArcSlice<str, L>) -> (r: bool) {
        items_eq(self.to_slice(), other.as_items())
    }
}

impl<L: Layout> PartialEqSpecImpl<ArcSlice<str, L>> for str {
    open spec fn obeys_eq_spec() -> bool {
        <u8 as PartialEqSpec>::obeys_eq_spec()
    }

    open spec fn eq_spec(&self, other: &ArcSlice<str, L>) -> bool {
        items_eq_spec(self.items(), other@)
    }
}

impl<L: Layout> PartialEq<ArcSlice<str, L>> for String {
    fn eq(&self, other: &ArcSlice<str, L>) -> (r: bool) {
        items_eq(self.as_str().to_slice(), other.as_items())
    }
}

impl<L: Layout> PartialEqSpecImpl<ArcSlice<str, L>> for String {
    open spec fn obeys_eq_spec() -> bool {
        <u8 as PartialEqSpec>::obeys_eq_spec()
    }

    open spec fn eq_spec(&self, other: &ArcSlice<str, L>) -> bool {
        items_eq_spec(vstd::utf8::encode_utf8(self@), other@)
    }
}

impl<T: PartialEq + Send + Sync + 'static, L: LayoutMut, const UNIQUE: bool, const N: usize> PartialEq<ArcSliceMut<[T], L, UNIQUE>> for [T; N] {
    fn eq(&self, other: &ArcSliceMut<[T], L, UNIQUE>) -> (r: bool) {
        items_eq(self.as_slice(), other.as_items())
    }
}

impl<T: PartialEq + Send + Sync + 'static, L: LayoutMut, const UNIQUE: bool, const N: usize> PartialEqSpecImpl<ArcSliceMut<[T], L, UNIQUE>> for [T; N] {
    open spec fn obeys_eq_spec() -> bool {
        T::obeys_eq_spec()
    }

    open spec fn eq_spec(&self, other: &ArcSliceMut<[T], L, UNIQUE>) -> bool {
        items_eq_spec(self@, other@)
    }
}

impl<T: PartialEq + Send + Sync + 'static, L: LayoutMut, const UNIQUE: bool> PartialEq<ArcSliceMut<[T], L, UNIQUE>> for [T] {
    fn eq(&self, other: &ArcSliceMut<[T], L, UNIQUE>) -> (r: bool) {
        items_eq(self, other.as_items())
    }
}

impl<T: PartialEq + Send + Sync + 'static, L: LayoutMut, const UNIQUE: bool> PartialEqSpecImpl<ArcSliceMut<[T], L, UNIQUE>> for [T] {
    open spec fn obeys_eq_spec() -> bool {
        T::obeys_eq_spec()
    }

    open spec fn eq_spec(&self, other: &ArcSliceMut<[T], L, UNIQUE>) -> bool {
        items_eq_spec(self@, other@)
    }
}

impl<T: PartialEq + Send + Sync + 'static, L: LayoutMut, const UNIQUE: bool> PartialEq<ArcSliceMut<[T], L, UNIQUE>> for Vec<T> {
    fn eq(&self, other: &ArcSliceMut<[T], L, UNIQUE>) -> (r: bool) {
        items_eq(self.as_slice(), other.as_items())
    }
}

impl<T: PartialEq + Send + Sync + 'static, L: LayoutMut, const UNIQUE: bool> PartialEqSpecImpl<ArcSliceMut<[T], L, UNIQUE>> for Vec<T> {
    open spec fn obeys_eq_spec() -> bool {
        T::obeys_eq_spec()
    }

    open spec fn eq_spec(&self, other: &ArcSliceMut<[T], L, UNIQUE>) -> bool {
        items_eq_spec(self@, other@)
    }
}

impl<L: LayoutMut, const UNIQUE: bool> PartialEq<ArcSliceMut<str, L, UNIQUE>> for str {
    fn eq(&self, other: &ArcSliceMut<str, L, UNIQUE>) -> (r: bool) {
        items_eq(self.to_slice(), other.as_items())
    }
}

impl<L: LayoutMut, const UNIQUE: bool> PartialEqSpecImpl<ArcSliceMut<str, L, UNIQUE>> for str {
    open spec fn obeys_eq_spec() -> bool {
        <u8 as PartialEqSpec>::obeys_eq_spec()
    }

    open spec fn eq_spec(&self, other: &ArcSliceMut<str, L, UNIQUE>) -> bool {
        items_eq_spec(self.items(), other@)
    }
}

impl<L: LayoutMut, const UNIQUE: bool> PartialEq<ArcSliceMut<str, L, UNIQUE>> for String {
    fn eq(&self, other: &ArcSliceMut<str, L, UNIQUE>) -> (r: bool) {
        items_eq(self.as_str().to_slice(), other.as_items())
    }
}

impl<L: LayoutMut, const UNIQUE: bool> PartialEqSpecImpl<ArcSliceMut<str, L, UNIQUE>> for String {
    open spec fn obeys_eq_spec() -> bool {
        <u8 as PartialEqSpec>::obeys_eq_spec()
    }

    open spec fn eq_spec(&self, other: &ArcSliceMut<str, L, UNIQUE>) -> bool {
        items_eq_spec(vstd::utf8::encode_utf8(self@), other@)
    }
}

impl<L: InlinedLayout, const N: usize> PartialEq<SmallSlice<[u8], L>> for [u8; N] {
    fn eq(&self, other: &SmallSlice<[u8], L>) -> (r: bool) {
        items_eq(self.as_slice(), other.as_items())
    }
}

impl<L: InlinedLayout, const N: usize> PartialEqSpecImpl<SmallSlice<[u8], L>> for [u8; N] {
    open spec fn obeys_eq_spec() -> bool {
        <u8 as PartialEqSpec>::obeys_eq_spec()
    }

    open spec fn eq_spec(&self, other: &SmallSlice<[u8], L>) -> bool {
        items_eq_spec(self@, other@)
    }
}

impl<L: InlinedLayout> PartialEq<SmallSlice<[u8], L>> for [u8] {
    fn eq(&self, other: &SmallSlice<[u8], L>) -> (r: bool) {
        items_eq(self, other.as_items())
    }
}

impl<L: InlinedLayout> PartialEqSpecImpl<SmallSlice<[u8], L>> for [u8] {
    open spec fn obeys_eq_spec() -> bool {
        <u8 as PartialEqSpec>::obeys_eq_spec()
    }

    open spec fn eq_spec(&self, other: &SmallSlice<[u8], L>) -> bool {
        items_eq_spec(self@, other@)
    }
}

impl<L: InlinedLayout> PartialEq<SmallSlice<[u8], L>> for Vec<u8> {
    fn eq(&self, other: &SmallSlice<[u8], L>) -> (r: bool) {
        items_eq(self.as_slice(), other.as_items())
    }
}

impl<L: InlinedLayout> PartialEqSpecImpl<SmallSlice<[u8], L>> for Vec<u8> {
    open spec fn obeys_eq_spec() -> bool {
        <u8 as PartialEqSpec>::obeys_eq_spec()
    }

    open spec fn eq_spec(&self, other: &SmallSlice<[u8], L>) -> bool {
        items_eq_spec(self@, other@)
    }
}

impl<L: InlinedLayout> PartialEq<SmallSlice<str, L>> for str {
    fn eq(&self, other: &SmallSlice<str, L>) -> (r: bool) {
        items_eq(self.to_slice(), other.as_items())
    }
}

impl<L: InlinedLayout> PartialEqSpecImpl<SmallSlice<str, L>> for str {
    open spec fn obeys_eq_spec() -> bool {
        <u8 as PartialEqSpec>::obeys_eq_spec()
    }

    open spec fn eq_spec(&self, other: &SmallSlice<str, L>) -> bool {
        items_eq_spec(self.items(), other@)
    }
}

impl<L: InlinedLayout> PartialEq<SmallSlice<str, L>> for String {
    fn eq(&self, other: &SmallSlice<str, L>) -> (r: bool) {
        items_eq(self.as_str().to_slice(), other.as_items())
    }
}

impl<L: InlinedLayout> PartialEqSpecImpl<SmallSlice<str, L>> for String {
    open spec fn obeys_eq_spec() -> bool {
        <u8 as PartialEqSpec>::obeys_eq_spec()
    }

    open spec fn eq_spec(&self, other: &SmallSlice<str, L>) -> bool {
        items_eq_spec(vstd::utf8::encode_utf8(self@), other@)
    }
}

impl<L: InlinedLayout, const N: usize> PartialEq<SmallArcSlice<[u8], L>> for [u8; N] {
    fn eq(&self, other: &SmallArcSlice<[u8], L>) -> (r: bool) {
        items_eq(self.as_slice(), other.as_items())
    }
}

impl<L: InlinedLayout, const N: usize> PartialEqSpecImpl<SmallArcSlice<[u8], L>> for [u8; N] {
    open spec fn obeys_eq_spec() -> bool {
        <u8 as PartialEqSpec>::obeys_eq_spec()
    }

    open spec fn eq_spec(&self, other: &SmallArcSlice<[u8], L>) -> bool {
        items_eq_spec(self@, other@)
    }
}

impl<L: InlinedLayout> PartialEq<SmallArcSlice<[u8], L>> for [u8] {
    fn eq(&self, other: &SmallArcSlice<[u8], L>) -> (r: bool) {
        items_eq(self, other.as_items())
    }
}

impl<L: InlinedLayout> PartialEqSpecImpl<SmallArcSlice<[u8], L>> for [u8] {
    open spec fn obeys_eq_spec() -> bool {
        <u8 as PartialEqSpec>::obeys_eq_spec()
    }

    open spec fn eq_spec(&self, other: &SmallArcSlice<[u8], L>) -> bool {
        items_eq_spec(self@, other@)
    }
}

impl<L: InlinedLayout> PartialEq<SmallArcSlice<[u8], L>> for Vec<u8> {
    fn eq(&self, other: &SmallArcSlice<[u8], L>) -> (r: bool) {
        items_eq(self.as_slice(), other.as_items())
    }
}

impl<L: InlinedLayout> PartialEqSpecImpl<SmallArcSlice<[u8], L>> for Vec<u8> {
    open spec fn obeys_eq_spec() -> bool {
        <u8 as PartialEqSpec>::obeys_eq_spec()
    }

    open spec fn eq_spec(&self, other: &SmallArcSlice<[u8], L>) -> bool {
        items_eq_spec(self@, other@)
    }
}

impl<L: InlinedLayout> PartialEq<SmallArcSlice<str, L>> for str {
    fn eq(&self, other: &SmallArcSlice<str, L>) -> (r: bool) {
        items_eq(self.to_slice(), other.as_items())
    }
}

impl<L: InlinedLayout> PartialEqSpecImpl<SmallArcSlice<str, L>> for str {
    open spec fn obeys_eq_spec() -> bool {
        <u8 as PartialEqSpec>::obeys_eq_spec()
    }

    open spec fn eq_spec(&self, other: &SmallArcSlice<str, L>) -> bool {
        items_eq_spec(self.items(), other@)
    }
}

impl<L: InlinedLayout> PartialEq<SmallArcSlice<str, L>> for String {
    fn eq(&self, other: &SmallArcSlice<str, L>) -> (r: bool) {
        items_eq(self.as_str().to_slice(), other.as_items())
    }
}

impl<L: InlinedLayout> PartialEqSpecImpl<SmallArcSlice<str, L>> for String {
    open spec fn obeys_eq_spec() -> bool {
        <u8 as PartialEqSpec>::obeys_eq_spec()
    }

    open spec fn eq_spec(&self, other: &SmallArcSlice<str, L>) -> bool {
        items_eq_spec(vstd::utf8::encode_utf8(self@), other@)
    }
}

} // verus!
