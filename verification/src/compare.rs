//! Comparison of slices, item by item.

use crate::buffer::Slice;
use crate::inlined::{InlinedLayout, SmallArcSlice, SmallSlice};
use crate::layout::{Layout, LayoutMut};
use crate::slice::ArcSlice;
use crate::slice_mut::ArcSliceMut;
use core::cmp::Ordering;
use vstd::prelude::*;
use vstd::std_specs::cmp::{PartialEqSpec, PartialEqSpecImpl, PartialOrdSpec, PartialOrdSpecImpl};

verus! {

/// Whether two sequences of items are equal, item by item.
pub open spec fn items_eq_spec<T: PartialEq>(a: Seq<T>, b: Seq<T>) -> bool {
    a.len() == b.len() && forall|i: int| 0 <= i < a.len() ==> #[trigger] a[i].eq_spec(&b[i])
}

/// Whether two slices of items are equal, item by item.
pub fn items_eq<T: PartialEq>(a: &[T], b: &[T]) -> (r: bool)
    ensures
        T::obeys_eq_spec() ==> r == items_eq_spec(a@, b@),
{
    if a.len() != b.len() {
        return false;
    }
    let mut i: usize = 0;
    while i < a.len()
        invariant
            a@.len() == b@.len(),
            i <= a@.len(),
            T::obeys_eq_spec() ==> forall|k: int| 0 <= k < i ==> #[trigger] a@[k].eq_spec(&b@[k]),
        decreases a@.len() - i,
    {
        if a[i] != b[i] {
            return false;
        }
        i += 1;
    }
    true
}

/// Bytes are equal exactly if they are the same.
pub proof fn law_bytes_eq_tells(a: Seq<u8>, b: Seq<u8>)
    ensures
        <u8 as PartialEqSpec>::obeys_eq_spec(),
        items_eq_spec(a, b) <==> a == b,
{
    if items_eq_spec(a, b) {
        assert forall|i: int| 0 <= i < a.len() implies a[i] == b[i] by {
            assert(PartialEqSpec::eq_spec(&a[i], &b[i]));
        }
        assert(a =~= b);
    }
}

/// How two sequences of items are ordered: by the first items that differ, else by their lengths.
pub open spec fn items_order<T: PartialOrd>(a: Seq<T>, b: Seq<T>) -> Option<Ordering>
    decreases a.len(),
{
    if a.len() == 0 {
        if b.len() == 0 {
            Some(Ordering::Equal)
        } else {
            Some(Ordering::Less)
        }
    } else if b.len() == 0 {
        Some(Ordering::Greater)
    } else {
        match a[0].partial_cmp_spec(&b[0]) {
            Some(Ordering::Equal) => items_order(a.skip(1), b.skip(1)),
            other => other,
        }
    }
}

/// Bytes are ordered as equal exactly if they are the same.
pub proof fn law_bytes_order_tells(a: Seq<u8>, b: Seq<u8>)
    ensures
        items_order(a, b) == Some(Ordering::Equal) <==> a == b,
    decreases a.len(),
{
    if a.len() > 0 && b.len() > 0 {
        law_bytes_order_tells(a.skip(1), b.skip(1));
        if a[0] == b[0] && a.skip(1) == b.skip(1) {
            assert(a =~= seq![a[0]] + a.skip(1));
            assert(b =~= seq![b[0]] + b.skip(1));
        }
    } else if a.len() == 0 && b.len() == 0 {
        assert(a =~= b);
    }
}

/// Whether `a` comes before `b` in a dictionary: where they first differ it has the smaller byte, or
/// it ends there.
pub open spec fn comes_before(a: Seq<u8>, b: Seq<u8>) -> bool {
    exists|i: int| #[trigger] differ_first_at(a, b, i) && i < b.len() && (i == a.len() || a[i] < b[i])
}

/// Whether two sequences of bytes are the same up to the index `i`, where one of them ends or they
/// differ.
pub open spec fn differ_first_at(a: Seq<u8>, b: Seq<u8>, i: int) -> bool {
    &&& 0 <= i <= a.len()
    &&& i <= b.len()
    &&& forall|j: int| 0 <= j < i ==> a[j] == b[j]
    &&& i < a.len() && i < b.len() ==> a[i] != b[i]
    &&& i < a.len() || i < b.len()
}

/// Bytes are ordered as in a dictionary, and any two of them are ordered: what comes before something
/// is less, what something comes before is greater, and what is neither is equal.
pub proof fn law_bytes_order_is_lexicographic(a: Seq<u8>, b: Seq<u8>)
    ensures
        items_order(a, b) == Some(Ordering::Less) <==> comes_before(a, b),
        items_order(a, b) == Some(Ordering::Greater) <==> comes_before(b, a),
        items_order(a, b) is Some,
    decreases a.len(),
{
    if a.len() > 0 && b.len() > 0 && a[0] == b[0] {
        let (c, d) = (a.skip(1), b.skip(1));
        law_bytes_order_is_lexicographic(c, d);
        assert forall|i: int| #[trigger] differ_first_at(c, d, i) implies differ_first_at(
            a,
            b,
            i + 1,
        ) && differ_first_at(b, a, i + 1) by {
            assert forall|j: int| 0 <= j < i + 1 implies a[j] == b[j] by {
                if j > 0 {
                    assert(c[j - 1] == d[j - 1]);
                }
            }
        }
        assert forall|i: int| #[trigger] differ_first_at(d, c, i) implies differ_first_at(
            b,
            a,
            i + 1,
        ) by {
            assert(differ_first_at(c, d, i));
        }
        assert forall|i: int| #[trigger] differ_first_at(a, b, i) implies i > 0 && differ_first_at(
            c,
            d,
            i - 1,
        ) by {
            assert forall|j: int| 0 <= j < i - 1 implies c[j] == d[j] by {
                assert(a[j + 1] == b[j + 1]);
            }
        }
        assert forall|i: int| #[trigger] differ_first_at(b, a, i) implies i > 0 && differ_first_at(
            d,
            c,
            i - 1,
        ) by {
            assert forall|j: int| 0 <= j < i - 1 implies d[j] == c[j] by {
                assert(b[j + 1] == a[j + 1]);
            }
        }
        if comes_before(c, d) {
            let i = choose|i: int| #[trigger]
                differ_first_at(c, d, i) && i < d.len() && (i == c.len() || c[i] < d[i]);
            assert(differ_first_at(a, b, i + 1));
        }
        if comes_before(d, c) {
            let i = choose|i: int| #[trigger]
                differ_first_at(d, c, i) && i < c.len() && (i == d.len() || d[i] < c[i]);
            assert(differ_first_at(b, a, i + 1));
        }
        if comes_before(a, b) {
            let i = choose|i: int| #[trigger]
                differ_first_at(a, b, i) && i < b.len() && (i == a.len() || a[i] < b[i]);
            assert(differ_first_at(c, d, i - 1));
        }
        if comes_before(b, a) {
            let i = choose|i: int| #[trigger]
                differ_first_at(b, a, i) && i < a.len() && (i == b.len() || b[i] < a[i]);
            assert(differ_first_at(d, c, i - 1));
        }
    } else {
        if a.len() > 0 || b.len() > 0 {
            assert(differ_first_at(a, b, 0));
            assert(differ_first_at(b, a, 0));
        }
        assert forall|i: int| #[trigger] differ_first_at(a, b, i) implies i == 0 by {
            if i > 0 {
                assert(a[0] == b[0]);
            }
        }
        assert forall|i: int| #[trigger] differ_first_at(b, a, i) implies i == 0 by {
            if i > 0 {
                assert(b[0] == a[0]);
            }
        }
    }
}

/// The order of two sequences of bytes is turned round with them, and what comes before something that
/// comes before a third comes before that.
pub proof fn law_bytes_order_is_an_order(a: Seq<u8>, b: Seq<u8>, c: Seq<u8>)
    ensures
        items_order(a, b) == Some(Ordering::Less) <==> items_order(b, a) == Some(Ordering::Greater),
        items_order(a, b) == Some(Ordering::Less) && items_order(b, c) == Some(Ordering::Less)
            ==> items_order(a, c) == Some(Ordering::Less),
{
    law_bytes_order_is_lexicographic(a, b);
    law_bytes_order_is_lexicographic(b, a);
    law_bytes_order_is_lexicographic(b, c);
    law_bytes_order_is_lexicographic(a, c);
    if comes_before(a, b) && comes_before(b, c) {
        let i = choose|i: int| #[trigger]
            differ_first_at(a, b, i) && i < b.len() && (i == a.len() || a[i] < b[i]);
        let j = choose|j: int| #[trigger]
            differ_first_at(b, c, j) && j < c.len() && (j == b.len() || b[j] < c[j]);
        let k = if i <= j {
            i
        } else {
            j
        };
        assert(differ_first_at(a, c, k));
    }
}

/// What comes from the index `i` on.
pub open spec fn rest<T>(items: Seq<T>, i: usize) -> Seq<T> {
    items.skip(i as int)
}

/// How two slices of items are ordered.
pub fn items_partial_cmp<T: PartialOrd>(a: &[T], b: &[T]) -> (r: Option<Ordering>)
    ensures
        T::obeys_partial_cmp_spec() ==> r == items_order(a@, b@),
{
    let mut i: usize = 0;
    assert(a@.skip(0) =~= a@);
    assert(b@.skip(0) =~= b@);
    while i < a.len() && i < b.len()
        invariant
            i <= a@.len(),
            i <= b@.len(),
            T::obeys_partial_cmp_spec() ==> items_order(a@, b@) == items_order(
                rest(a@, i),
                rest(b@, i),
            ),
        decreases a@.len() - i,
    {
        assert(rest(a@, i).skip(1) =~= a@.skip(i + 1));
        assert(rest(b@, i).skip(1) =~= b@.skip(i + 1));
        match a[i].partial_cmp(&b[i]) {
            Some(Ordering::Equal) => {},
            other => {
                return other;
            },
        }
        i += 1;
    }
    if i < a.len() {
        Some(Ordering::Greater)
    } else if i < b.len() {
        Some(Ordering::Less)
    } else {
        Some(Ordering::Equal)
    }
}

impl<S: Slice + ?Sized, L: Layout> PartialEq<ArcSlice<S, L>> for ArcSlice<S, L> where
    S::Item: PartialEq,
 {
    fn eq(&self, other: &ArcSlice<S, L>) -> (r: bool) {
        items_eq(self.as_items(), other.as_items())
    }
}

impl<S: Slice + ?Sized, L: Layout> PartialEqSpecImpl<ArcSlice<S, L>> for ArcSlice<S, L> where
    S::Item: PartialEq,
 {
    open spec fn obeys_eq_spec() -> bool {
        S::Item::obeys_eq_spec()
    }

    open spec fn eq_spec(&self, other: &ArcSlice<S, L>) -> bool {
        items_eq_spec(self@, other@)
    }
}

impl<S: Slice + ?Sized, L: Layout> PartialEq<S> for ArcSlice<S, L> where
    S::Item: PartialEq,
 {
    fn eq(&self, other: &S) -> (r: bool) {
        items_eq(self.as_items(), other.to_slice())
    }
}

impl<S: Slice + ?Sized, L: Layout> PartialEqSpecImpl<S> for ArcSlice<S, L> where
    S::Item: PartialEq,
 {
    open spec fn obeys_eq_spec() -> bool {
        S::Item::obeys_eq_spec()
    }

    open spec fn eq_spec(&self, other: &S) -> bool {
        items_eq_spec(self@, other.items())
    }
}

impl<'a, S: Slice + ?Sized, L: Layout> PartialEq<&'a S> for ArcSlice<S, L> where
    S::Item: PartialEq,
 {
    fn eq(&self, other: &&'a S) -> (r: bool) {
        items_eq(self.as_items(), other.to_slice())
    }
}

impl<'a, S: Slice + ?Sized, L: Layout> PartialEqSpecImpl<&'a S> for ArcSlice<S, L> where
    S::Item: PartialEq,
 {
    open spec fn obeys_eq_spec() -> bool {
        S::Item::obeys_eq_spec()
    }

    open spec fn eq_spec(&self, other: &&'a S) -> bool {
        items_eq_spec(self@, other.items())
    }
}

impl<T: PartialEq + Send + Sync + 'static, L: Layout, const N: usize> PartialEq<[T; N]> for ArcSlice<[T], L> {
    fn eq(&self, other: &[T; N]) -> (r: bool) {
        items_eq(self.as_items(), other.as_slice())
    }
}

impl<T: PartialEq + Send + Sync + 'static, L: Layout, const N: usize> PartialEqSpecImpl<[T; N]> for ArcSlice<[T], L> {
    open spec fn obeys_eq_spec() -> bool {
        T::obeys_eq_spec()
    }

    open spec fn eq_spec(&self, other: &[T; N]) -> bool {
        items_eq_spec(self@, other@)
    }
}

impl<'a, T: PartialEq + Send + Sync + 'static, L: Layout, const N: usize> PartialEq<&'a [T; N]> for ArcSlice<[T], L> {
    fn eq(&self, other: &&'a [T; N]) -> (r: bool) {
        items_eq(self.as_items(), other.as_slice())
    }
}

impl<'a, T: PartialEq + Send + Sync + 'static, L: Layout, const N: usize> PartialEqSpecImpl<&'a [T; N]> for ArcSlice<[T], L> {
    open spec fn obeys_eq_spec() -> bool {
        T::obeys_eq_spec()
    }

    open spec fn eq_spec(&self, other: &&'a [T; N]) -> bool {
        items_eq_spec(self@, other@)
    }
}

impl<T: PartialEq + Send + Sync + 'static, L: Layout> PartialEq<Vec<T>> for ArcSlice<[T], L> {
    fn eq(&self, other: &Vec<T>) -> (r: bool) {
        items_eq(self.as_items(), other.as_slice())
    }
}

impl<T: PartialEq + Send + Sync + 'static, L: Layout> PartialEqSpecImpl<Vec<T>> for ArcSlice<[T], L> {
    open spec fn obeys_eq_spec() -> bool {
        T::obeys_eq_spec()
    }

    open spec fn eq_spec(&self, other: &Vec<T>) -> bool {
        items_eq_spec(self@, other@)
    }
}

impl<L: Layout> PartialEq<String> for ArcSlice<str, L> {
    fn eq(&self, other: &String) -> (r: bool) {
        items_eq(self.as_items(), other.as_str().to_slice())
    }
}

impl<L: Layout> PartialEqSpecImpl<String> for ArcSlice<str, L> {
    open spec fn obeys_eq_spec() -> bool {
        <u8 as PartialEqSpec>::obeys_eq_spec()
    }

    open spec fn eq_spec(&self, other: &String) -> bool {
        items_eq_spec(self@, vstd::utf8::encode_utf8(other@))
    }
}

impl<S: Slice + ?Sized, L: Layout> PartialOrd for ArcSlice<S, L> where S::Item: PartialOrd {
    fn partial_cmp(&self, other: &ArcSlice<S, L>) -> (r: Option<Ordering>) {
        items_partial_cmp(self.as_items(), other.as_items())
    }
}

impl<S: Slice + ?Sized, L: Layout> PartialOrdSpecImpl for ArcSlice<S, L> where S::Item: PartialOrd {
    open spec fn obeys_partial_cmp_spec() -> bool {
        S::Item::obeys_partial_cmp_spec()
    }

    open spec fn partial_cmp_spec(&self, other: &ArcSlice<S, L>) -> Option<Ordering> {
        items_order(self@, other@)
    }
}

impl<S: Slice + ?Sized, L: LayoutMut, const UNIQUE: bool> PartialEq<ArcSliceMut<S, L, UNIQUE>> for ArcSliceMut<S, L, UNIQUE> where
    S::Item: PartialEq,
 {
    fn eq(&self, other: &ArcSliceMut<S, L, UNIQUE>) -> (r: bool) {
        items_eq(self.as_items(), other.as_items())
    }
}

impl<S: Slice + ?Sized, L: LayoutMut, const UNIQUE: bool> PartialEqSpecImpl<ArcSliceMut<S, L, UNIQUE>> for ArcSliceMut<S, L, UNIQUE> where
    S::Item: PartialEq,
 {
    open spec fn obeys_eq_spec() -> bool {
        S::Item::obeys_eq_spec()
    }

    open spec fn eq_spec(&self, other: &ArcSliceMut<S, L, UNIQUE>) -> bool {
        items_eq_spec(self@, other@)
    }
}

impl<S: Slice + ?Sized, L: LayoutMut, const UNIQUE: bool> PartialEq<S> for ArcSliceMut<S, L, UNIQUE> where
    S::Item: PartialEq,
 {
    fn eq(&self, other: &S) -> (r: bool) {
        items_eq(self.as_items(), other.to_slice())
    }
}

impl<S: Slice + ?Sized, L: LayoutMut, const UNIQUE: bool> PartialEqSpecImpl<S> for ArcSliceMut<S, L, UNIQUE> where
    S::Item: PartialEq,
 {
    open spec fn obeys_eq_spec() -> bool {
        S::Item::obeys_eq_spec()
    }

    open spec fn eq_spec(&self, other: &S) -> bool {
        items_eq_spec(self@, other.items())
    }
}

impl<'a, S: Slice + ?Sized, L: LayoutMut, const UNIQUE: bool> PartialEq<&'a S> for ArcSliceMut<S, L, UNIQUE> where
    S::Item: PartialEq,
 {
    fn eq(&self, other: &&'a S) -> (r: bool) {
        items_eq(self.as_items(), other.to_slice())
    }
}

impl<'a, S: Slice + ?Sized, L: LayoutMut, const UNIQUE: bool> PartialEqSpecImpl<&'a S> for ArcSliceMut<S, L, UNIQUE> where
    S::Item: PartialEq,
 {
    open spec fn obeys_eq_spec() -> bool {
        S::Item::obeys_eq_spec()
    }

    open spec fn eq_spec(&self, other: &&'a S) -> bool {
        items_eq_spec(self@, other.items())
    }
}

impl<T: PartialEq + Send + Sync + 'static, L: LayoutMut, const UNIQUE: bool, const N: usize> PartialEq<[T; N]> for ArcSliceMut<[T], L, UNIQUE> {
    fn eq(&self, other: &[T; N]) -> (r: bool) {
        items_eq(self.as_items(), other.as_slice())
    }
}

impl<T: PartialEq + Send + Sync + 'static, L: LayoutMut, const UNIQUE: bool, const N: usize> PartialEqSpecImpl<[T; N]> for ArcSliceMut<[T], L, UNIQUE> {
    open spec fn obeys_eq_spec() -> bool {
        T::obeys_eq_spec()
    }

    open spec fn eq_spec(&self, other: &[T; N]) -> bool {
        items_eq_spec(self@, other@)
    }
}

impl<'a, T: PartialEq + Send + Sync + 'static, L: LayoutMut, const UNIQUE: bool, const N: usize> PartialEq<&'a [T; N]> for ArcSliceMut<[T], L, UNIQUE> {
    fn eq(&self, other: &&'a [T; N]) -> (r: bool) {
        items_eq(self.as_items(), other.as_slice())
    }
}

impl<'a, T: PartialEq + Send + Sync + 'static, L: LayoutMut, const UNIQUE: bool, const N: usize> PartialEqSpecImpl<&'a [T; N]> for ArcSliceMut<[T], L, UNIQUE> {
    open spec fn obeys_eq_spec() -> bool {
        T::obeys_eq_spec()
    }

    open spec fn eq_spec(&self, other: &&'a [T; N]) -> bool {
        items_eq_spec(self@, other@)
    }
}

impl<T: PartialEq + Send + Sync + 'static, L: LayoutMut, const UNIQUE: bool> PartialEq<Vec<T>> for ArcSliceMut<[T], L, UNIQUE> {
    fn eq(&self, other: &Vec<T>) -> (r: bool) {
        items_eq(self.as_items(), other.as_slice())
    }
}

impl<T: PartialEq + Send + Sync + 'static, L: LayoutMut, const UNIQUE: bool> PartialEqSpecImpl<Vec<T>> for ArcSliceMut<[T], L, UNIQUE> {
    open spec fn obeys_eq_spec() -> bool {
        T::obeys_eq_spec()
    }

    open spec fn eq_spec(&self, other: &Vec<T>) -> bool {
        items_eq_spec(self@, other@)
    }
}

impl<L: LayoutMut, const UNIQUE: bool> PartialEq<String> for ArcSliceMut<str, L, UNIQUE> {
    fn eq(&self, other: &String) -> (r: bool) {
        items_eq(self.as_items(), other.as_str().to_slice())
    }
}

impl<L: LayoutMut, const UNIQUE: bool> PartialEqSpecImpl<String> for ArcSliceMut<str, L, UNIQUE> {
    open spec fn obeys_eq_spec() -> bool {
        <u8 as PartialEqSpec>::obeys_eq_spec()
    }

    open spec fn eq_spec(&self, other: &String) -> bool {
        items_eq_spec(self@, vstd::utf8::encode_utf8(other@))
    }
}

impl<S: Slice + ?Sized, L: LayoutMut, const UNIQUE: bool> PartialOrd for ArcSliceMut<S, L, UNIQUE> where S::Item: PartialOrd {
    fn partial_cmp(&self, other: &ArcSliceMut<S, L, UNIQUE>) -> (r: Option<Ordering>) {
        items_partial_cmp(self.as_items(), other.as_items())
    }
}

impl<S: Slice + ?Sized, L: LayoutMut, const UNIQUE: bool> PartialOrdSpecImpl for ArcSliceMut<S, L, UNIQUE> where S::Item: PartialOrd {
    open spec fn obeys_partial_cmp_spec() -> bool {
        S::Item::obeys_partial_cmp_spec()
    }

    open spec fn partial_cmp_spec(&self, other: &ArcSliceMut<S, L, UNIQUE>) -> Option<Ordering> {
        items_order(self@, other@)
    }
}

impl<S: Slice<Item = u8> + ?Sized, L: InlinedLayout> PartialEq<SmallSlice<S, L>> for SmallSlice<S, L> {
    fn eq(&self, other: &SmallSlice<S, L>) -> (r: bool) {
        items_eq(self.as_items(), other.as_items())
    }
}

impl<S: Slice<Item = u8> + ?Sized, L: InlinedLayout> PartialEqSpecImpl<SmallSlice<S, L>> for SmallSlice<S, L> {
    open spec fn obeys_eq_spec() -> bool {
        <u8 as PartialEqSpec>::obeys_eq_spec()
    }

    open spec fn eq_spec(&self, other: &SmallSlice<S, L>) -> bool {
        items_eq_spec(self@, other@)
    }
}

impl<S: Slice<Item = u8> + ?Sized, L: InlinedLayout> PartialEq<S> for SmallSlice<S, L> {
    fn eq(&self, other: &S) -> (r: bool) {
        items_eq(self.as_items(), other.to_slice())
    }
}

impl<S: Slice<Item = u8> + ?Sized, L: InlinedLayout> PartialEqSpecImpl<S> for SmallSlice<S, L> {
    open spec fn obeys_eq_spec() -> bool {
        <u8 as PartialEqSpec>::obeys_eq_spec()
    }

    open spec fn eq_spec(&self, other: &S) -> bool {
        items_eq_spec(self@, other.items())
    }
}

impl<'a, S: Slice<Item = u8> + ?Sized, L: InlinedLayout> PartialEq<&'a S> for SmallSlice<S, L> {
    fn eq(&self, other: &&'a S) -> (r: bool) {
        items_eq(self.as_items(), other.to_slice())
    }
}

impl<'a, S: Slice<Item = u8> + ?Sized, L: InlinedLayout> PartialEqSpecImpl<&'a S> for SmallSlice<S, L> {
    open spec fn obeys_eq_spec() -> bool {
        <u8 as PartialEqSpec>::obeys_eq_spec()
    }

    open spec fn eq_spec(&self, other: &&'a S) -> bool {
        items_eq_spec(self@, other.items())
    }
}

impl<L: InlinedLayout, const N: usize> PartialEq<[u8; N]> for SmallSlice<[u8], L> {
    fn eq(&self, other: &[u8; N]) -> (r: bool) {
        items_eq(self.as_items(), other.as_slice())
    }
}

impl<L: InlinedLayout, const N: usize> PartialEqSpecImpl<[u8; N]> for SmallSlice<[u8], L> {
    open spec fn obeys_eq_spec() -> bool {
        <u8 as PartialEqSpec>::obeys_eq_spec()
    }

    open spec fn eq_spec(&self, other: &[u8; N]) -> bool {
        items_eq_spec(self@, other@)
    }
}

impl<'a, L: InlinedLayout, const N: usize> PartialEq<&'a [u8; N]> for SmallSlice<[u8], L> {
    fn eq(&self, other: &&'a [u8; N]) -> (r: bool) {
        items_eq(self.as_items(), other.as_slice())
    }
}

impl<'a, L: InlinedLayout, const N: usize> PartialEqSpecImpl<&'a [u8; N]> for SmallSlice<[u8], L> {
    open spec fn obeys_eq_spec() -> bool {
        <u8 as PartialEqSpec>::obeys_eq_spec()
    }

    open spec fn eq_spec(&self, other: &&'a [u8; N]) -> bool {
        items_eq_spec(self@, other@)
    }
}

impl<S: Slice<Item = u8> + ?Sized, L: InlinedLayout> PartialEq<SmallArcSlice<S, L>> for SmallArcSlice<S, L> {
    fn eq(&self, other: &SmallArcSlice<S, L>) -> (r: bool) {
        items_eq(self.as_items(), other.as_items())
    }
}

impl<S: Slice<Item = u8> + ?Sized, L: InlinedLayout> PartialEqSpecImpl<SmallArcSlice<S, L>> for SmallArcSlice<S, L> {
    open spec fn obeys_eq_spec() -> bool {
        <u8 as PartialEqSpec>::obeys_eq_spec()
    }

    open spec fn eq_spec(&self, other: &SmallArcSlice<S, L>) -> bool {
        items_eq_spec(self@, other@)
    }
}

impl<S: Slice<Item = u8> + ?Sized, L: InlinedLayout> PartialEq<S> for SmallArcSlice<S, L> {
    fn eq(&self, other: &S) -> (r: bool) {
        items_eq(self.as_items(), other.to_slice())
    }
}

impl<S: Slice<Item = u8> + ?Sized, L: InlinedLayout> PartialEqSpecImpl<S> for SmallArcSlice<S, L> {
    open spec fn obeys_eq_spec() -> bool {
        <u8 as PartialEqSpec>::obeys_eq_spec()
    }

    open spec fn eq_spec(&self, other: &S) -> bool {
        items_eq_spec(self@, other.items())
    }
}

impl<'a, S: Slice<Item = u8> + ?Sized, L: InlinedLayout> PartialEq<&'a S> for SmallArcSlice<S, L> {
    fn eq(&self, other: &&'a S) -> (r: bool) {
        items_eq(self.as_items(), other.to_slice())
    }
}

impl<'a, S: Slice<Item = u8> + ?Sized, L: InlinedLayout> PartialEqSpecImpl<&'a S> for SmallArcSlice<S, L> {
    open spec fn obeys_eq_spec() -> bool {
        <u8 as PartialEqSpec>::obeys_eq_spec()
    }

    open spec fn eq_spec(&self, other: &&'a S) -> bool {
        items_eq_spec(self@, other.items())
    }
}

impl<L: InlinedLayout, const N: usize> PartialEq<[u8; N]> for SmallArcSlice<[u8], L> {
    fn eq(&self, other: &[u8; N]) -> (r: bool) {
        items_eq(self.as_items(), other.as_slice())
    }
}

impl<L: InlinedLayout, const N: usize> PartialEqSpecImpl<[u8; N]> for SmallArcSlice<[u8], L> {
    open spec fn obeys_eq_spec() -> bool {
        <u8 as PartialEqSpec>::obeys_eq_spec()
    }

    open spec fn eq_spec(&self, other: &[u8; N]) -> bool {
        items_eq_spec(self@, other@)
    }
}

impl<'a, L: InlinedLayout, const N: usize> PartialEq<&'a [u8; N]> for SmallArcSlice<[u8], L> {
    fn eq(&self, other: &&'a [u8; N]) -> (r: bool) {
        items_eq(self.as_items(), other.as_slice())
    }
}

impl<'a, L: InlinedLayout, const N: usize> PartialEqSpecImpl<&'a [u8; N]> for SmallArcSlice<[u8], L> {
    open spec fn obeys_eq_spec() -> bool {
        <u8 as PartialEqSpec>::obeys_eq_spec()
    }

    open spec fn eq_spec(&self, other: &&'a [u8; N]) -> bool {
        items_eq_spec(self@, other@)
    }
}

impl<L: InlinedLayout> PartialEq<Vec<u8>> for SmallSlice<[u8], L> {
    fn eq(&self, other: &Vec<u8>) -> (r: bool) {
        items_eq(self.as_items(), other.as_slice())
    }
}

impl<L: InlinedLayout> PartialEqSpecImpl<Vec<u8>> for SmallSlice<[u8], L> {
    open spec fn obeys_eq_spec() -> bool {
        <u8 as PartialEqSpec>::obeys_eq_spec()
    }

    open spec fn eq_spec(&self, other: &Vec<u8>) -> bool {
        items_eq_spec(self@, other@)
    }
}

impl<L: InlinedLayout> PartialEq<String> for SmallSlice<str, L> {
    fn eq(&self, other: &String) -> (r: bool) {
        items_eq(self.as_items(), other.as_str().to_slice())
    }
}

impl<L: InlinedLayout> PartialEqSpecImpl<String> for SmallSlice<str, L> {
    open spec fn obeys_eq_spec() -> bool {
        <u8 as PartialEqSpec>::obeys_eq_spec()
    }

    open spec fn eq_spec(&self, other: &String) -> bool {
        items_eq_spec(self@, vstd::utf8::encode_utf8(other@))
    }
}

impl<S: Slice<Item = u8> + ?Sized, L: InlinedLayout> PartialOrd for SmallSlice<S, L> {
    fn partial_cmp(&self, other: &SmallSlice<S, L>) -> (r: Option<Ordering>) {
        items_partial_cmp(self.as_items(), other.as_items())
    }
}

impl<S: Slice<Item = u8> + ?Sized, L: InlinedLayout> PartialOrdSpecImpl for SmallSlice<S, L> {
    open spec fn obeys_partial_cmp_spec() -> bool {
        true
    }

    open spec fn partial_cmp_spec(&self, other: &SmallSlice<S, L>) -> Option<Ordering> {
        items_order(self@, other@)
    }
}

impl<L: InlinedLayout> PartialEq<Vec<u8>> for SmallArcSlice<[u8], L> {
    fn eq(&self, other: &Vec<u8>) -> (r: bool) {
        items_eq(self.as_items(), other.as_slice())
    }
}

impl<L: InlinedLayout> PartialEqSpecImpl<Vec<u8>> for SmallArcSlice<[u8], L> {
    open spec fn obeys_eq_spec() -> bool {
        <u8 as PartialEqSpec>::obeys_eq_spec()
    }

    open spec fn eq_spec(&self, other: &Vec<u8>) -> bool {
        items_eq_spec(self@, other@)
    }
}

impl<L: InlinedLayout> PartialEq<String> for SmallArcSlice<str, L> {
    fn eq(&self, other: &String) -> (r: bool) {
        items_eq(self.as_items(), other.as_str().to_slice())
    }
}

impl<L: InlinedLayout> PartialEqSpecImpl<String> for SmallArcSlice<str, L> {
    open spec fn obeys_eq_spec() -> bool {
        <u8 as PartialEqSpec>::obeys_eq_spec()
    }

    open spec fn eq_spec(&self, other: &String) -> bool {
        items_eq_spec(self@, vstd::utf8::encode_utf8(other@))
    }
}

impl<S: Slice<Item = u8> + ?Sized, L: InlinedLayout> PartialOrd for SmallArcSlice<S, L> {
    fn partial_cmp(&self, other: &SmallArcSlice<S, L>) -> (r: Option<Ordering>) {
        items_partial_cmp(self.as_items(), other.as_items())
    }
}

impl<S: Slice<Item = u8> + ?Sized, L: InlinedLayout> PartialOrdSpecImpl for SmallArcSlice<S, L> {
    open spec fn obeys_partial_cmp_spec() -> bool {
        true
    }

    open spec fn partial_cmp_spec(&self, other: &SmallArcSlice<S, L>) -> Option<Ordering> {
        items_order(self@, other@)
    }
}

impl<S: Slice + ?Sized, L: Layout> Eq for ArcSlice<S, L> where S::Item: Eq {

}

impl<S: Slice + ?Sized, L: LayoutMut, const UNIQUE: bool> Eq for ArcSliceMut<S, L, UNIQUE> where
    S::Item: Eq,
{

}

impl<S: Slice<Item = u8> + ?Sized, L: InlinedLayout> Eq for SmallSlice<S, L> {

}

impl<S: Slice<Item = u8> + ?Sized, L: InlinedLayout> Eq for SmallArcSlice<S, L> {

}

} // verus!
