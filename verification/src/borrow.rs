//! Borrowed subslices of shared slices.

use crate::buffer::{Slice, Subsliceable};
use crate::error::AllocError;
use crate::layout::{DefaultLayout, Layout};
use crate::slice::ArcSlice;
use crate::utils::{
    found_at, offset_len, offset_len_spec, offset_len_subslice, RangeBounds, RangeError,
};
use vstd::prelude::*;
use vstd::slice::slice_subrange;

verus! {

/// A subslice that borrows from a shared slice, and from which a shared slice can be had.
#[verifier::reject_recursive_types(S)]
#[verifier::reject_recursive_types(L)]
pub struct ArcSliceBorrow<'a, S: Slice + ?Sized, L: Layout = DefaultLayout> {
    slice: &'a ArcSlice<S, L>,
    offset: usize,
    length: usize,
}

impl<'a, S: Slice + ?Sized, L: Layout> ArcSliceBorrow<'a, S, L> {
    /// What every value of the type satisfies.
    #[verifier::type_invariant]
    pub closed spec fn wf(self) -> bool {
        &&& self.offset + self.length <= self.slice@.len()
        &&& self.offset + self.length <= usize::MAX
        &&& S::valid(self.view())
    }

    /// The items of the subslice.
    pub closed spec fn view(self) -> Seq<S::Item> {
        self.slice@.subrange(self.offset as int, self.offset + self.length)
    }

    /// The slice that is borrowed from.
    pub closed spec fn source(self) -> ArcSlice<S, L> {
        *self.slice
    }

    /// The index, in the slice that is borrowed from, of the first of the items.
    pub closed spec fn offset(self) -> int {
        self.offset as int
    }

    pub(crate) fn init(slice: &'a ArcSlice<S, L>, offset: usize, length: usize) -> (r: Self)
        requires
            offset + length <= slice@.len(),
            offset + length <= usize::MAX,
            S::valid(slice@.subrange(offset as int, offset + length)),
        ensures
            r.source() == *slice,
            r.offset() == offset,
            r@ == slice@.subrange(offset as int, offset + length),
    {
        ArcSliceBorrow { slice, offset, length }
    }

    /// Returns the subslice.
    pub fn as_slice(&self) -> (r: &'a S)
        ensures
            r.items() == self@,
    {
        proof {
            use_type_invariant(self);
        }
        S::from_slice_unchecked(
            slice_subrange(self.slice.as_items(), self.offset, self.offset + self.length),
        )
    }

    /// A shared slice of the same items.
    pub fn clone_arc(self) -> (r: ArcSlice<S, L>)
        ensures
            self.source().has_part(r, self.offset(), self@.len() as int),
    {
        proof {
            use_type_invariant(&self);
        }
        self.slice.part_impl(self.offset, self.length)
    }

    /// Tries making a shared slice of the same items.
    pub fn try_clone_arc(self) -> (r: Result<ArcSlice<S, L>, AllocError>)
        ensures
            r matches Ok(slice) && self.source().has_part(slice, self.offset(), self@.len() as int),
    {
        Ok(self.clone_arc())
    }

    fn reborrow_impl(&self, offset: usize, length: usize) -> (r: ArcSliceBorrow<'a, S, L>) where
        S: Subsliceable,

        requires
            offset + length <= self@.len(),
            S::boundary(self@, offset as int),
            S::boundary(self@, offset + length),
        ensures
            r.source() == self.source(),
            r.offset() == self.offset() + offset,
            r@ == self@.subrange(offset as int, offset + length),
    {
        proof {
            use_type_invariant(self);
            S::lemma_subslice_valid(self@, offset as int, offset + length);
            assert(self.slice@.subrange(self.offset + offset, self.offset + offset + length)
                =~= self@.subrange(offset as int, offset + length));
        }
        ArcSliceBorrow { slice: self.slice, offset: self.offset + offset, length }
    }

    /// Borrows a subslice of the subslice.
    pub fn reborrow<R: RangeBounds>(&self, range: R) -> (r: ArcSliceBorrow<'a, S, L>) where
        S: Subsliceable,

        requires
            range.usable(),
            offset_len_spec::<S>(self@, range.lower(), range.upper()) is Ok,
        ensures
            r.source() == self.source(),
            offset_len_spec::<S>(self@, range.lower(), range.upper()) == Ok::<
                (int, int),
                RangeError,
            >((r.offset() - self.offset(), r@.len() as int)),
            r@ == self@.subrange(
                r.offset() - self.offset(),
                r.offset() - self.offset() + r@.len(),
            ),
    {
        match offset_len(self.as_slice(), &range) {
            Ok((offset, length)) => self.reborrow_impl(offset, length),
            Err(_) => vstd::pervasive::unreached(),
        }
    }

    /// Borrows a subslice of the subslice, from a reference to a part of it. `None` if `subset` does
    /// not stand inside the subslice, as its address tells.
    pub fn reborrow_from_ref(&self, subset: &S) -> (r: Option<ArcSliceBorrow<'a, S, L>>) where
        S: Subsliceable,

        ensures
            match r {
                Some(part) => found_at::<S>(
                    self@,
                    subset.items(),
                    Some(part.offset() - self.offset()),
                ) && part.source() == self.source() && part@.len() == subset.items().len() && part@
                    == self@.subrange(
                    part.offset() - self.offset(),
                    part.offset() - self.offset() + part@.len(),
                ),
                None => found_at::<S>(self@, subset.items(), None),
            },
    {
        match offset_len_subslice(self.as_slice(), subset) {
            Some((offset, length)) => Some(self.reborrow_impl(offset, length)),
            None => None,
        }
    }
}

impl<'a, S: Slice + ?Sized, L: Layout> Clone for ArcSliceBorrow<'a, S, L> {
    fn clone(&self) -> (r: Self)
        ensures
            r == *self,
    {
        *self
    }
}

impl<'a, S: Slice + ?Sized, L: Layout> Copy for ArcSliceBorrow<'a, S, L> {

}

impl<'a, S: Slice + ?Sized, L: Layout> core::ops::Deref for ArcSliceBorrow<'a, S, L> {
    type Target = S;

    fn deref(&self) -> (r: &S)
        ensures
            r.items() == self@,
    {
        self.as_slice()
    }
}

} // verus!
