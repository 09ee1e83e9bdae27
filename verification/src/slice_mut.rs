//! Mutable slices.

use crate::arc::{Arc, ArcInner, Storage};
use crate::bytes_mut::push_bytes;
use crate::buffer::{
    drop_answer, emptied, refilled, BorrowMetadata, Buffer, BufferClass, BufferMut, BufferParts,
    Concatenable, Emptyable, Extendable, Slice, Zeroable,
};
use crate::dynamic::{
    behind, check_tag, forget_buffer, held, holds_some, is_unit, lemma_not_singleton,
    put_back, puts_back, refiller, refills_only, slice_tag, tells_unit, AnyBox, AnyMetadata,
};
use crate::error::{gives, room_given, try_make_room, AllocError, AllocErrorImpl, TryReserveError};
use crate::layout::{AnyBufferLayout, FromLayout, Layout, LayoutMut};
use crate::reserve::{grown_room, try_reserve_impl, try_reserve_spec, ReservePlan};
use crate::slice::{
    is_vector, law_whole_vector_is_given_back, read_only_buffer, vector_kept, ArcSlice,
};
use crate::shared::{granted, is_same_place, placed, refused, release, share};
use crate::storage::{
    allocate_slice, allocation, array_from_vec, capacity_fits, copy_items, extend_with_array, max_spec,
    shift_left, slice_layout_spec, vec_fits,
};
use crate::utils::{min_non_zero_cap, min_non_zero_cap_spec};
use crate::vtable::{BufferKind, VTable, VTableOrCapacity};
use core::convert::Infallible;
use core::marker::PhantomData;
use std::sync::Arc as StdArc;
use vstd::prelude::*;
use vstd::slice::slice_subrange;

verus! {

/// The buffer of a mutable slice: the only reference to it, or one of several.
pub enum Data {
    /// The only reference.
    Unique(ArcInner),
    /// Maybe one of several.
    Shared(StdArc<ArcInner>),
}

impl Data {
    /// The buffer.
    pub open spec fn inner(self) -> ArcInner {
        match self {
            Data::Unique(inner) => inner,
            Data::Shared(inner) => *inner,
        }
    }

    /// What the buffer is.
    pub fn vtable_or_capacity(&self) -> (r: VTableOrCapacity)
        ensures
            r == self.inner().buffer(),
        no_unwind
    {
        match self {
            Data::Unique(inner) => inner.vtable_or_capacity,
            Data::Shared(inner) => inner.vtable_or_capacity,
        }
    }

    /// Whether there were found to be other references to the buffer.
    pub open spec fn found_shared(self) -> bool {
        self matches Data::Shared(inner) && refused(inner)
    }

    /// Whether it was answered if there are other references to the buffer, where there may be some.
    pub open spec fn was_answered(self) -> bool {
        self matches Data::Shared(inner) ==> refused(inner) || granted(inner)
    }

    /// Makes sure that this is the only reference, if there is no other: the other references decide.
    pub fn make_unique(self) -> (r: Result<ArcInner, Data>)
        ensures
            match r {
                Ok(inner) => inner == self.inner() && self.was_answered(),
                Err(same) => same == self && self.found_shared(),
            },
        no_unwind
    {
        match self {
            Data::Unique(inner) => Ok(inner),
            Data::Shared(inner) => match release(inner) {
                Ok(inner) => Ok(inner),
                Err(inner) => Err(Data::Shared(inner)),
            },
        }
    }

    /// Prepares for another reference.
    pub fn make_shared(self) -> (r: StdArc<ArcInner>)
        ensures
            *r == self.inner(),
    {
        match self {
            Data::Unique(inner) => StdArc::new(inner),
            Data::Shared(inner) => inner,
        }
    }
}

/// A mutable slice: a part of a buffer that no other slice overlaps with, with room behind it.
#[verifier::reject_recursive_types(S)]
#[verifier::reject_recursive_types(L)]
pub struct ArcSliceMut<S: Slice + ?Sized, L: LayoutMut, const UNIQUE: bool> {
    items: Vec<S::Item>,
    /// The index in the buffer of the first item.
    offset: usize,
    capacity: usize,
    data: Option<Data>,
    layout: PhantomData<L>,
}

impl<S: Slice + ?Sized, L: LayoutMut, const UNIQUE: bool> ArcSliceMut<S, L, UNIQUE> {
    /// The items of the slice.
    pub closed spec fn view(self) -> Seq<S::Item> {
        self.items@
    }

    /// The number of items for which there is room.
    pub closed spec fn capacity_spec(self) -> int {
        self.capacity as int
    }

    /// The index in the buffer of the first item.
    pub closed spec fn offset(self) -> int {
        self.offset as int
    }

    /// The buffer, if there is one.
    pub closed spec fn data(self) -> Option<Data> {
        self.data
    }

    /// What the buffer is, if there is one.
    pub open spec fn buffer(self) -> Option<VTableOrCapacity> {
        match self.data() {
            Some(data) => Some(data.inner().buffer()),
            None => None,
        }
    }

    /// The items are valid and fit in the capacity, which fits in the buffer; a slice without buffer
    /// has no capacity; a unique slice has the only reference to its buffer, and every slice a buffer
    /// that its layout supports and that can be written to.
    pub open spec fn wf(self) -> bool {
        &&& S::valid(self@)
        &&& self@.len() <= self.capacity_spec() <= usize::MAX
        &&& 0 <= self.offset()
        &&& match self.data() {
            None => self.offset() == 0 && self.capacity_spec() == 0,
            Some(data) => {
                &&& self.offset() + self.capacity_spec() <= data.inner().room()
                &&& UNIQUE ==> data is Unique
                &&& !L::any_buffer() ==> data.inner().buffer() is Capacity
                &&& data.inner().buffer().is_mutable_spec()
            },
        }
    }

    /// Everything about the slice but its type.
    pub open spec fn is_as<L2: LayoutMut, const U2: bool>(self, other: ArcSliceMut<S, L2, U2>) -> bool {
        &&& self@ == other@
        &&& self.capacity_spec() == other.capacity_spec()
        &&& self.offset() == other.offset()
        &&& self.data() == other.data()
    }

    /// The same place in the same buffer, with the same capacity.
    pub open spec fn stands_as(self, other: Self) -> bool {
        &&& self.capacity_spec() == other.capacity_spec()
        &&& self.offset() == other.offset()
        &&& self.data() == other.data()
    }

    /// Returns the number of items in the slice.
    pub fn len(&self) -> (r: usize)
        ensures
            r == self@.len(),
    {
        self.items.len()
    }

    /// Returns `true` if the slice has no item.
    pub fn is_empty(&self) -> (r: bool)
        ensures
            r == (self@.len() == 0),
    {
        self.items.len() == 0
    }

    /// Returns the number of items for which there is room.
    pub fn capacity(&self) -> (r: usize)
        ensures
            r == self.capacity_spec(),
    {
        self.capacity
    }

    /// Returns the number of items that can be added before more capacity has to be reserved.
    pub fn spare_capacity(&self) -> (r: usize)
        requires
            self.wf(),
        ensures
            r == self.capacity_spec() - self@.len(),
        no_unwind
    {
        self.capacity - self.items.len()
    }

    /// Returns the items of the slice.
    pub(crate) fn as_items(&self) -> (r: &[S::Item])
        ensures
            r@ == self@,
    {
        self.items.as_slice()
    }

    /// Returns the slice.
    pub fn as_slice(&self) -> (r: &S)
        requires
            self.wf(),
        ensures
            r.items() == self@,
    {
        S::from_slice_unchecked(self.items.as_slice())
    }

    /// Returns the mutable slice.
    pub fn as_mut_slice(&mut self) -> (r: &mut S)
        requires
            old(self).wf(),
        ensures
            r.items() == old(self)@,
            final(self)@ == final(r).items(),
            final(self).capacity_spec() == old(self).capacity_spec(),
            final(self).offset() == old(self).offset(),
            final(self).data() == old(self).data(),
            final(r).items().len() == old(self)@.len() ==> final(self).wf(),
    {
        let r = S::from_slice_mut_unchecked(self.items.as_mut_slice());
        proof {
            final(r).lemma_items_valid();
        }
        r
    }
}

/// The same buffer with another capacity.
pub open(crate) spec fn inner_with_room(inner: ArcInner, room: usize) -> ArcInner {
    ArcInner { vtable_or_capacity: inner.vtable_or_capacity.with_room_spec(room), ..inner }
}

impl<S: Slice + ?Sized, L: LayoutMut, const UNIQUE: bool> ArcSliceMut<S, L, UNIQUE> {
    /// What becomes of a slice when there was capacity to reserve, and nothing else refers to its
    /// buffer: see [`try_reserve_spec`].
    pub open spec fn reserved_in(
        self,
        inner: ArcInner,
        additional: int,
        allocate: bool,
        needs_drop: bool,
        after: Self,
        r: Result<(), TryReserveError>,
    ) -> bool {
        &&& after@ == self@
        &&& match try_reserve_spec::<S::Item>(
            inner.buffer(),
            self.offset(),
            self@.len() as int,
            additional,
            allocate,
            needs_drop,
        ) {
            Err(error) => {
                &&& r == Err::<(), TryReserveError>(error)
                &&& after.stays_in(self, inner)
            },
            Ok(ReservePlan::Extend) => {
                &&& r is Ok
                &&& after.offset() == self.offset()
                &&& after.capacity_spec() == inner.room() - self.offset()
                &&& after.data() matches Some(data) && data.inner() == inner
            },
            Ok(ReservePlan::Shift) => {
                &&& r is Ok
                &&& after.offset() == 0
                &&& after.capacity_spec() == inner.room()
                &&& after.data() matches Some(data) && data.inner() == inner
            },
            Ok(ReservePlan::Grow(room)) => {
                &&& room_given::<S::Item>(
                    self@,
                    (room - self.offset() - self@.len()) as usize,
                    r is Ok,
                )
                &&& if r is Ok {
                    &&& after.offset() == self.offset()
                    &&& after.capacity_spec() == room - self.offset()
                    &&& after.data() matches Some(data) && data.inner() == inner_with_room(
                        inner,
                        room,
                    )
                } else {
                    &&& r == Err::<(), TryReserveError>(TryReserveError::AllocError)
                    &&& after.stays_in(self, inner)
                }
            },
        }
    }

    /// The same items at the same place, with the same capacity, in the buffer `inner`.
    pub open spec fn stays_in(self, other: Self, inner: ArcInner) -> bool {
        &&& self@ == other@
        &&& self.offset() == other.offset()
        &&& self.capacity_spec() == other.capacity_spec()
        &&& self.data() matches Some(data) && data.inner() == inner
    }

    /// The same items at the same place, with the same capacity, in the same buffer.
    pub open spec fn unchanged(self, other: Self) -> bool {
        &&& self@ == other@
        &&& self.offset() == other.offset()
        &&& self.capacity_spec() == other.capacity_spec()
        &&& match (self.data(), other.data()) {
            (None, None) => true,
            (Some(a), Some(b)) => a.inner() == b.inner(),
            _ => false,
        }
    }

    /// What becomes of a slice when there was capacity to reserve.
    ///
    /// Nothing happens if there is enough of it. A slice without buffer gets one, if allocating is
    /// allowed. A slice that may share its buffer is treated as one that does not, unless the other
    /// references say that it does.
    pub open spec fn reserved(
        self,
        additional: int,
        allocate: bool,
        needs_drop: bool,
        after: Self,
        r: Result<(), TryReserveError>,
    ) -> bool {
        if additional <= self.capacity_spec() - self@.len() {
            r is Ok && after == self
        } else {
            match self.data() {
                None => {
                    let room = max_spec(min_non_zero_cap_spec::<S::Item>() as int, additional);
                    &&& after@ == self@
                    &&& after.offset() == 0
                    &&& if !allocate {
                        r == Err::<(), TryReserveError>(TryReserveError::Unsupported)
                            && after.unchanged(self)
                    } else {
                        &&& gives::<S::Item>(
                            true,
                            room as usize,
                            slice_layout_spec::<S::Item>(room, needs_drop),
                            r is Ok,
                        )
                        &&& if r is Ok {
                            &&& after.capacity_spec() == room
                            &&& after.buffer() == Some(VTableOrCapacity::Capacity(room as usize))
                        } else {
                            &&& r == Err::<(), TryReserveError>(TryReserveError::AllocError)
                            &&& after.unchanged(self)
                        }
                    }
                },
                Some(data) => {
                    ||| self.reserved_in(data.inner(), additional, allocate, needs_drop, after, r)
                    ||| {
                        &&& data.found_shared()
                        &&& r == Err::<(), TryReserveError>(TryReserveError::NotUnique)
                        &&& after == self
                    }
                },
            }
        }
    }

    /// Reserves capacity in a buffer that nothing else refers to, and which becomes that of the
    /// slice.
    fn try_reserve_in(
        &mut self,
        inner: ArcInner,
        additional: usize,
        allocate: bool,
        needs_drop: bool,
    ) -> (r: Result<(), TryReserveError>)
        requires
            S::valid(old(self)@),
            old(self)@.len() <= old(self).capacity_spec(),
            0 <= old(self).offset(),
            old(self).offset() + old(self).capacity_spec() <= inner.room(),
            !L::any_buffer() ==> inner.buffer() is Capacity,
            inner.buffer().is_mutable_spec(),
            additional > old(self).capacity_spec() - old(self)@.len(),
        ensures
            final(self).wf(),
            final(self).data() matches Some(data) && data is Unique,
            old(self).reserved_in(
                inner,
                additional as int,
                allocate,
                needs_drop,
                *final(self),
                r,
            ),
        no_unwind when !allocate
    {
        let length: usize = self.items.len();
        match try_reserve_impl::<S::Item>(
            inner.vtable_or_capacity,
            self.offset,
            length,
            additional,
            allocate,
            needs_drop,
        ) {
            Err(error) => {
                self.data = Some(Data::Unique(inner));
                Err(error)
            },
            Ok(ReservePlan::Extend) => {
                self.capacity = inner.vtable_or_capacity.room() - self.offset;
                self.data = Some(Data::Unique(inner));
                Ok(())
            },
            Ok(ReservePlan::Shift) => {
                self.capacity = inner.vtable_or_capacity.room();
                self.offset = 0;
                self.data = Some(Data::Unique(inner));
                Ok(())
            },
            Ok(ReservePlan::Grow(room)) => {
                if !try_make_room(&mut self.items, room - self.offset - length) {
                    self.data = Some(Data::Unique(inner));
                    return Err(TryReserveError::AllocError);
                }
                let mut inner = inner;
                inner.vtable_or_capacity = inner.vtable_or_capacity.with_room(room);
                self.capacity = room - self.offset;
                self.data = Some(Data::Unique(inner));
                Ok(())
            },
        }
    }

    fn try_reserve_cold(&mut self, additional: usize, allocate: bool, needs_drop: bool) -> (r: Result<
        (),
        TryReserveError,
    >)
        requires
            old(self).wf(),
            additional > old(self).capacity_spec() - old(self)@.len(),
        ensures
            final(self).wf(),
            old(self).reserved(additional as int, allocate, needs_drop, *final(self), r),
        no_unwind when !allocate || !old(self).was_answered()
    {
        let mut data: Option<Data> = None;
        core::mem::swap(&mut self.data, &mut data);
        match data {
            Some(data) => match data.make_unique() {
                Ok(inner) => self.try_reserve_in(inner, additional, allocate, needs_drop),
                Err(data) => {
                    self.data = Some(data);
                    Err(TryReserveError::NotUnique)
                },
            },
            None => {
                if !allocate {
                    return Err(TryReserveError::Unsupported);
                }
                let least: usize = min_non_zero_cap::<S::Item>();
                let room: usize = if least >= additional {
                    least
                } else {
                    additional
                };
                match allocate_slice::<S::Item, AllocError>(room, needs_drop) {
                    Ok(items) => {
                        assert(self.items@ =~= items@);
                        self.items = items;
                        self.capacity = room;
                        self.data = Some(Data::Unique(ArcInner::new_slice(room)));
                        Ok(())
                    },
                    Err(error) => Err(TryReserveError::from(error)),
                }
            },
        }
    }

    /// Tries reserving capacity for at least `additional` more items, allocating if that is allowed.
    /// `needs_drop` says whether the items have to be dropped.
    pub fn try_reserve_with(&mut self, additional: usize, allocate: bool, needs_drop: bool) -> (r: Result<
        (),
        TryReserveError,
    >)
        requires
            old(self).wf(),
        ensures
            final(self).wf(),
            old(self).reserved(additional as int, allocate, needs_drop, *final(self), r),
        no_unwind when !allocate || !old(self).was_answered()
    {
        if additional <= self.spare_capacity() {
            return Ok(());
        }
        self.try_reserve_cold(additional, allocate, needs_drop)
    }

    /// Tries reserving capacity for at least `additional` more items.
    pub fn try_reserve(&mut self, additional: usize) -> (r: Result<(), TryReserveError>)
        requires
            old(self).wf(),
        ensures
            final(self).wf(),
            final(self)@ == old(self)@,
            exists|needs_drop: bool|
                drop_answer::<S::Item>(needs_drop) && #[trigger] old(self).reserved(
                    additional as int,
                    true,
                    needs_drop,
                    *final(self),
                    r,
                ),
            r is Ok ==> final(self).capacity_spec() - final(self)@.len() >= additional,
        no_unwind when !old(self).was_answered()
    {
        let needs_drop: bool = S::needs_drop();
        self.try_reserve_with(additional, true, needs_drop)
    }

    /// Tries reclaiming capacity for at least `additional` more items, without allocating, and without
    /// making another reference to the buffer, which may unwind.
    pub fn try_reclaim(&mut self, additional: usize) -> (r: bool)
        requires
            old(self).wf(),
        ensures
            final(self).wf(),
            final(self)@ == old(self)@,
            exists|needs_drop: bool, outcome: Result<(), TryReserveError>|
                drop_answer::<S::Item>(needs_drop) && #[trigger] old(self).reserved(
                    additional as int,
                    false,
                    needs_drop,
                    *final(self),
                    outcome,
                ) && r == outcome is Ok,
            r ==> final(self).capacity_spec() - final(self)@.len() >= additional,
        no_unwind
    {
        let needs_drop: bool = S::needs_drop();
        match self.try_reserve_with(additional, false, needs_drop) {
            Ok(()) => true,
            Err(_) => false,
        }
    }
}

impl<S: Slice + ?Sized, L: LayoutMut, const UNIQUE: bool> ArcSliceMut<S, L, UNIQUE> {
    /// Tries appending an item.
    pub fn try_push(&mut self, item: S::Item) -> (r: Result<(), TryReserveError>) where S: Extendable
        requires
            old(self).wf(),
        ensures
            final(self).wf(),
            exists|needs_drop: bool, between: Self|
                drop_answer::<S::Item>(needs_drop) && #[trigger] old(self).reserved(
                    1,
                    true,
                    needs_drop,
                    between,
                    r,
                ) && final(self).follows(
                    between,
                    if r is Ok {
                        seq![item]
                    } else {
                        Seq::empty()
                    },
                ),
    {
        let needs_drop: bool = S::needs_drop();
        let r = self.try_reserve_with(1, true, needs_drop);
        let ghost between = *self;
        assert(old(self).reserved(1, true, needs_drop, between, r));
        if r.is_ok() {
            proof {
                S::lemma_push_valid(self@, item);
                assert(self@ + seq![item] =~= self@.push(item));
            }
            self.items.push(item);
        } else {
            assert(self@ + Seq::empty() =~= self@);
        }
        r
    }

    /// The same buffer, place and capacity, with `items` appended to the slice.
    pub open spec fn follows(self, other: Self, items: Seq<S::Item>) -> bool {
        &&& self@ == other@ + items
        &&& self.offset() == other.offset()
        &&& self.capacity_spec() == other.capacity_spec()
        &&& self.data() == other.data()
    }

    /// Tries appending the items of a slice.
    pub fn try_extend_from_slice(&mut self, slice: &S) -> (r: Result<(), TryReserveError>) where
        S: Concatenable,
        S::Item: Copy,

        requires
            old(self).wf(),
        ensures
            final(self).wf(),
            exists|needs_drop: bool, between: Self|
                drop_answer::<S::Item>(needs_drop) && #[trigger] old(self).reserved(
                    slice.items().len() as int,
                    true,
                    needs_drop,
                    between,
                    r,
                ) && final(self).follows(
                    between,
                    if r is Ok {
                        slice.items()
                    } else {
                        Seq::empty()
                    },
                ),
    {
        let items = slice.to_slice();
        let needs_drop: bool = S::needs_drop();
        let r = self.try_reserve_with(items.len(), true, needs_drop);
        let ghost between = *self;
        assert(old(self).reserved(items@.len() as int, true, needs_drop, between, r));
        if r.is_ok() {
            proof {
                slice.lemma_items_valid();
                S::lemma_concat_valid(self@, items@);
            }
            copy_items(&mut self.items, items);
        } else {
            assert(self@ + Seq::empty() =~= self@);
        }
        r
    }

    /// Advances the start of the slice by `offset` items, which shrinks the capacity as well.
    pub fn advance(&mut self, offset: usize)
        requires
            old(self).wf(),
            offset <= old(self)@.len(),
            S::valid(old(self)@.skip(offset as int)),
        ensures
            final(self).wf(),
            final(self)@ == old(self)@.skip(offset as int),
            final(self).offset() == if old(self).data() is Some {
                old(self).offset() + offset
            } else {
                0
            },
            final(self).capacity_spec() == old(self).capacity_spec() - offset,
            final(self).data() == old(self).data(),
    {
        let length: usize = self.items.len();
        shift_left(&mut self.items, offset, length - offset);
        assert(self.items@ =~= old(self)@.skip(offset as int));
        self.capacity = self.capacity - offset;
        if self.data.is_some() {
            self.offset = self.offset + offset;
        }
    }

    /// Truncates the slice to the first `len` items; `needs_drop` says whether items have to be
    /// dropped, in which case the capacity shrinks as well.
    pub fn truncate_with(&mut self, len: usize, needs_drop: bool)
        requires
            old(self).wf(),
            len < old(self)@.len() ==> S::valid(old(self)@.take(len as int)),
        ensures
            final(self).wf(),
            final(self)@ == if len < old(self)@.len() {
                old(self)@.take(len as int)
            } else {
                old(self)@
            },
            final(self).offset() == old(self).offset(),
            final(self).capacity_spec() == if len < old(self)@.len() && needs_drop {
                len as int
            } else {
                old(self).capacity_spec()
            },
            final(self).data() == old(self).data(),
    {
        if len >= self.items.len() {
            return ;
        }
        self.items.truncate(len);
        assert(self.items@ =~= old(self)@.take(len as int));
        if needs_drop {
            self.capacity = len;
        }
    }

    /// Truncates the slice to the first `len` items; does nothing if there are no more.
    pub fn truncate(&mut self, len: usize)
        requires
            old(self).wf(),
            len < old(self)@.len() ==> S::valid(old(self)@.take(len as int)),
        ensures
            final(self).wf(),
            final(self)@ == if len < old(self)@.len() {
                old(self)@.take(len as int)
            } else {
                old(self)@
            },
            final(self).offset() == old(self).offset(),
            exists|needs_drop: bool| #[trigger]
                drop_answer::<S::Item>(needs_drop) && final(self).capacity_spec() == if len
                    < old(self)@.len() && needs_drop {
                    len as int
                } else {
                    old(self).capacity_spec()
                },
            final(self).data() == old(self).data(),
    {
        let needs_drop: bool = S::needs_drop();
        self.truncate_with(len, needs_drop);
    }

    /// The metadata of the buffer, if it is of type `M`.
    pub open(crate) spec fn metadata_spec<M: Send + Sync + 'static>(self) -> Option<M> {
        match self.data() {
            Some(data) => data.inner().metadata_of::<M>(data.inner().origin),
            None => None,
        }
    }

    /// Accesses the metadata of the underlying buffer if it is of type `M`.
    pub fn metadata<M: Send + Sync + 'static>(&self) -> (r: Option<&M>)
        ensures
            behind(r) == self.metadata_spec::<M>(),
    {
        let inner: &ArcInner = match &self.data {
            Some(Data::Unique(inner)) => inner,
            Some(Data::Shared(inner)) => inner,
            None => return None,
        };
        match &inner.metadata {
            Some(metadata) => metadata.get::<M>(inner.origin.as_ref()),
            None => None,
        }
    }

    /// Tries turning the slice into one with the only reference to its buffer. The other references
    /// decide, where there may be some; a slice without buffer that may be shared is not turned.
    pub fn try_into_unique(self) -> (r: Result<ArcSliceMut<S, L, true>, Self>)
        requires
            self.wf(),
        ensures
            match r {
                Ok(unique) => unique.wf() && unique@ == self@ && unique.offset() == self.offset()
                    && unique.capacity_spec() == self.capacity_spec() && match (
                    unique.data(),
                    self.data(),
                ) {
                    (Some(a), Some(b)) => a.inner() == b.inner(),
                    (None, None) => UNIQUE,
                    _ => false,
                },
                Err(same) => !UNIQUE && same == self && (self.data() matches Some(data)
                    ==> data.found_shared()),
            },
        no_unwind
    {
        let ArcSliceMut { items, offset, capacity, data, layout } = self;
        match data {
            Some(data) => match data.make_unique() {
                Ok(inner) => Ok(
                    ArcSliceMut { items, offset, capacity, data: Some(Data::Unique(inner)), layout },
                ),
                Err(data) => Err(ArcSliceMut { items, offset, capacity, data: Some(data), layout }),
            },
            None => if UNIQUE {
                Ok(ArcSliceMut { items, offset, capacity, data: None, layout })
            } else {
                Err(ArcSliceMut { items, offset, capacity, data: None, layout })
            },
        }
    }

    /// Turns the slice into one that can be split.
    pub fn into_shared(self) -> (r: ArcSliceMut<S, L, false>)
        requires
            self.wf(),
        ensures
            r.wf(),
            r@ == self@,
            r.offset() == self.offset(),
            r.capacity_spec() == self.capacity_spec(),
            r.data() == self.data(),
        no_unwind
    {
        ArcSliceMut {
            items: self.items,
            offset: self.offset,
            capacity: self.capacity,
            data: self.data,
            layout: self.layout,
        }
    }

    /// Whether the slice can have layout `L2`: a buffer that the crate allocated itself suits every
    /// layout, any other those that support any buffer.
    pub open spec fn suits<L2: Layout>(self) -> bool {
        match self.buffer() {
            None => true,
            Some(buffer) => buffer is Capacity || L2::any_buffer(),
        }
    }

    fn suits_layout<L2: Layout>(&self) -> (r: bool)
        ensures
            r == self.suits::<L2>(),
    {
        match &self.data {
            None => true,
            Some(data) => match data.vtable_or_capacity() {
                VTableOrCapacity::Capacity(_) => true,
                VTableOrCapacity::VTable(_) => L2::supports_any_buffer(),
            },
        }
    }

    /// Tries changing the layout of the slice, which keeps its buffer.
    pub fn try_with_layout<L2: LayoutMut>(self) -> (r: Result<ArcSliceMut<S, L2, UNIQUE>, Self>)
        requires
            self.wf(),
        ensures
            match r {
                Ok(slice) => self.suits::<L2>() && slice.wf() && slice@ == self@ && slice.offset()
                    == self.offset() && slice.capacity_spec() == self.capacity_spec()
                    && slice.data() == self.data(),
                Err(same) => !self.suits::<L2>() && same == self,
            },
    {
        if self.suits_layout::<L2>() {
            Ok(
                ArcSliceMut {
                    items: self.items,
                    offset: self.offset,
                    capacity: self.capacity,
                    data: self.data,
                    layout: PhantomData,
                },
            )
        } else {
            Err(self)
        }
    }

    /// Changes the layout of the slice, which keeps its buffer.
    pub fn with_layout<L2: LayoutMut + FromLayout<L>>(self) -> (r: ArcSliceMut<S, L2, UNIQUE>)
        requires
            self.wf(),
        ensures
            r.wf(),
            r@ == self@,
            r.offset() == self.offset(),
            r.capacity_spec() == self.capacity_spec(),
            r.data() == self.data(),
    {
        proof {
            L2::lemma_from_layout();
        }
        match self.try_with_layout::<L2>() {
            Ok(slice) => slice,
            Err(_) => vstd::pervasive::unreached(),
        }
    }

    /// Forgets that the items make up a slice of type `S`.
    pub fn into_arc_slice_mut(self) -> (r: ArcSliceMut<[S::Item], L, UNIQUE>)
        requires
            self.wf(),
        ensures
            r.wf(),
            S::valid(r@),
            r@ == self@,
            r.offset() == self.offset(),
            r.capacity_spec() == self.capacity_spec(),
            r.data() == self.data(),
    {
        ArcSliceMut {
            items: self.items,
            offset: self.offset,
            capacity: self.capacity,
            data: self.data,
            layout: self.layout,
        }
    }

    /// Makes a slice of type `S` of items that are valid.
    pub fn from_arc_slice_mut_unchecked(slice: ArcSliceMut<[S::Item], L, UNIQUE>) -> (r: Self)
        requires
            slice.wf(),
            S::valid(slice@),
        ensures
            r.wf(),
            r@ == slice@,
            r.offset() == slice.offset(),
            r.capacity_spec() == slice.capacity_spec(),
            r.data() == slice.data(),
    {
        ArcSliceMut {
            items: slice.items,
            offset: slice.offset,
            capacity: slice.capacity,
            data: slice.data,
            layout: slice.layout,
        }
    }

    /// Tries making a slice of type `S` of the items, which have to be valid.
    pub fn try_from_arc_slice_mut(slice: ArcSliceMut<[S::Item], L, UNIQUE>) -> (r: Result<
        Self,
        (S::TryFromSliceError, ArcSliceMut<[S::Item], L, UNIQUE>),
    >)
        requires
            slice.wf(),
        ensures
            match r {
                Ok(this) => S::valid(slice@) && this.wf() && this@ == slice@ && this.offset()
                    == slice.offset() && this.capacity_spec() == slice.capacity_spec()
                    && this.data() == slice.data(),
                Err((error, same)) => !S::valid(slice@) && error == S::refusal(slice@) && same
                    == slice,
            },
    {
        match S::try_from_slice(slice.items.as_slice()) {
            Ok(_) => Ok(Self::from_arc_slice_mut_unchecked(slice)),
            Err(error) => Err((error, slice)),
        }
    }
}

/// Whether `first` and `second` are what a slice was cut into, at a distance of `at` items from its
/// start: `first` has the room before, `second` the room behind, and each the items that it has room
/// for.
pub open spec fn is_cut<S: Slice + ?Sized, L: LayoutMut>(
    whole: ArcSliceMut<S, L, false>,
    at: int,
    first: ArcSliceMut<S, L, false>,
    second: ArcSliceMut<S, L, false>,
) -> bool {
    &&& first.offset() == whole.offset()
    &&& second.offset() == whole.offset() + at
    &&& first.capacity_spec() == at
    &&& second.capacity_spec() == whole.capacity_spec() - at
    &&& if at <= whole@.len() {
        first@ == whole@.take(at) && second@ == whole@.skip(at)
    } else {
        first@ == whole@ && second@ == Seq::<S::Item>::empty()
    }
    &&& first.data() is Some
    &&& first.data() == second.data()
    &&& first.data() matches Some(data) && data is Shared && match whole.data() {
        Some(before) => data.inner() == before.inner(),
        None => data.inner().buffer() == VTableOrCapacity::Capacity(0),
    }
}

/// Whether `second` comes right behind the room of `first`, which is full, in the same buffer.
pub open spec fn adjoins<S: Slice + ?Sized, L: LayoutMut>(
    first: ArcSliceMut<S, L, false>,
    second: ArcSliceMut<S, L, false>,
) -> bool {
    &&& first@.len() == first.capacity_spec()
    &&& first.offset() + first.capacity_spec() == second.offset()
    &&& first.data() == second.data()
}

/// Whether `whole` is what `first` and `second` are joined to.
pub open spec fn is_join<S: Slice + ?Sized, L: LayoutMut>(
    first: ArcSliceMut<S, L, false>,
    second: ArcSliceMut<S, L, false>,
    whole: ArcSliceMut<S, L, false>,
) -> bool {
    &&& whole@ == first@ + second@
    &&& whole.offset() == first.offset()
    &&& whole.capacity_spec() == first.capacity_spec() + second.capacity_spec()
    &&& whole.data() == first.data()
}

impl<S: Slice + ?Sized, L: LayoutMut> ArcSliceMut<S, L, false> {
    /// One more reference to the buffer of the slice, which gets one if it has none.
    fn share_data(&mut self) -> (r: Data)
        requires
            old(self).wf(),
        ensures
            final(self).wf(),
            final(self)@ == old(self)@,
            final(self).offset() == old(self).offset(),
            final(self).capacity_spec() == old(self).capacity_spec(),
            final(self).data() == Some(r),
            r is Shared,
            match old(self).data() {
                Some(before) => r.inner() == before.inner(),
                None => r.inner().buffer() == VTableOrCapacity::Capacity(0),
            },
    {
        let inner = match self.data.take() {
            Some(data) => data.make_shared(),
            None => StdArc::new(ArcInner::new_slice(0)),
        };
        let other = share(&inner);
        self.data = Some(Data::Shared(inner));
        Data::Shared(other)
    }

    /// Splits the slice in two at `at`: this one keeps the room before, and the items in it; the
    /// result has the room behind.
    pub fn split_off(&mut self, at: usize) -> (r: Self)
        requires
            old(self).wf(),
            at <= old(self).capacity_spec(),
            at <= old(self)@.len() ==> S::valid(old(self)@.take(at as int)) && S::valid(
                old(self)@.skip(at as int),
            ),
            at > old(self)@.len() ==> S::valid(Seq::empty()),
        ensures
            final(self).wf(),
            r.wf(),
            is_cut(*old(self), at as int, *final(self), r),
    {
        let data = self.share_data();
        let rest: Vec<S::Item> = if at > self.items.len() {
            Vec::new()
        } else {
            self.items.split_off(at)
        };
        proof {
            if at <= old(self)@.len() {
                assert(self.items@ =~= old(self)@.take(at as int));
                assert(rest@ =~= old(self)@.skip(at as int));
            } else {
                assert(rest@ =~= Seq::empty());
            }
        }
        let other = ArcSliceMut {
            items: rest,
            offset: self.offset + at,
            capacity: self.capacity - at,
            data: Some(data),
            layout: PhantomData,
        };
        self.capacity = at;
        other
    }

    /// Tries splitting the slice in two at `at`, inside its items.
    pub fn try_split_off(&mut self, at: usize) -> (r: Result<Self, AllocError>)
        requires
            old(self).wf(),
            at <= old(self)@.len(),
            S::valid(old(self)@.take(at as int)),
            S::valid(old(self)@.skip(at as int)),
        ensures
            final(self).wf(),
            r matches Ok(rest) && rest.wf() && is_cut(*old(self), at as int, *final(self), rest),
    {
        Ok(self.split_off(at))
    }

    /// Splits the slice in two at `at`: the result has the items before, this one keeps the rest.
    pub fn split_to(&mut self, at: usize) -> (r: Self)
        requires
            old(self).wf(),
            at <= old(self)@.len(),
            S::valid(old(self)@.take(at as int)),
            S::valid(old(self)@.skip(at as int)),
        ensures
            final(self).wf(),
            r.wf(),
            is_cut(*old(self), at as int, r, *final(self)),
    {
        let data = self.share_data();
        let mut head: Vec<S::Item> = self.items.split_off(at);
        core::mem::swap(&mut self.items, &mut head);
        proof {
            assert(head@ =~= old(self)@.take(at as int));
            assert(self.items@ =~= old(self)@.skip(at as int));
        }
        let other = ArcSliceMut {
            items: head,
            offset: self.offset,
            capacity: at,
            data: Some(data),
            layout: PhantomData,
        };
        self.offset = self.offset + at;
        self.capacity = self.capacity - at;
        other
    }

    /// Tries splitting the slice in two at `at`.
    pub fn try_split_to(&mut self, at: usize) -> (r: Result<Self, AllocError>)
        requires
            old(self).wf(),
            at <= old(self)@.len(),
            S::valid(old(self)@.take(at as int)),
            S::valid(old(self)@.skip(at as int)),
        ensures
            final(self).wf(),
            r matches Ok(head) && head.wf() && is_cut(*old(self), at as int, head, *final(self)),
    {
        Ok(self.split_to(at))
    }

    /// Whether `same` tells if two slices have the same buffer: its place in memory tells. Two slices
    /// without buffer count as having the same one; a slice with the only reference to its buffer does
    /// not have that of another.
    pub open spec fn told_same(self, other: Self, same: bool) -> bool {
        match (self.data(), other.data()) {
            (None, None) => same,
            (Some(Data::Shared(a)), Some(Data::Shared(b))) => placed(a, b, same),
            _ => !same,
        }
    }

    /// Whether two slices have the same buffer, as its place in memory tells.
    fn same_buffer(&self, other: &Self) -> (r: bool)
        ensures
            r ==> self.data() == other.data(),
            self.told_same(*other, r),
    {
        match (&self.data, &other.data) {
            (Some(Data::Shared(a)), Some(Data::Shared(b))) => is_same_place(a, b),
            (None, None) => true,
            _ => false,
        }
    }

    /// Joins the slice with one that comes right behind it. `same_buffer` says whether the two have
    /// the same buffer.
    pub fn unsplit_with(&mut self, other: Self, same_buffer: bool) -> (r: Result<(), Self>)
        requires
            old(self).wf(),
            other.wf(),
            same_buffer ==> old(self).data() == other.data(),
            S::valid(old(self)@ + other@),
        ensures
            final(self).wf(),
            match r {
                Ok(_) => same_buffer && adjoins(*old(self), other) && is_join(
                    *old(self),
                    other,
                    *final(self),
                ),
                Err(same) => !(same_buffer && adjoins(*old(self), other)) && same == other
                    && *final(self) == *old(self),
            },
    {
        if same_buffer && self.items.len() == self.capacity && self.offset + self.capacity
            == other.offset {
            let ArcSliceMut { items, offset, capacity, data, layout } = other;
            let mut items = items;
            self.items.append(&mut items);
            self.capacity = self.capacity + capacity;
            Ok(())
        } else {
            Err(other)
        }
    }

    /// Tries joining the slice with one that comes right behind it in the same buffer. Whether the
    /// buffer is the same one, its place in memory tells.
    pub fn try_unsplit(&mut self, other: Self) -> (r: Result<(), Self>)
        requires
            old(self).wf(),
            other.wf(),
            S::valid(old(self)@ + other@),
        ensures
            final(self).wf(),
            match r {
                Ok(_) => adjoins(*old(self), other) && is_join(*old(self), other, *final(self)),
                Err(same) => same == other && *final(self) == *old(self),
            },
            exists|same: bool| #[trigger]
                old(self).told_same(other, same) && r is Ok == (same && adjoins(*old(self), other)),
    {
        let same_buffer: bool = self.same_buffer(&other);
        self.unsplit_with(other, same_buffer)
    }
}

impl<S: Slice + ?Sized, L: LayoutMut, const UNIQUE: bool> ArcSliceMut<S, L, UNIQUE> {
    /// How a frozen slice is kept: it keeps the buffer; without one it needs none, if the layout
    /// refers to static slices as they are.
    pub open spec fn frozen_buffer<L2: Layout>(self) -> Option<VTableOrCapacity> {
        match self.buffer() {
            Some(buffer) => Some(buffer),
            None => if L2::static_data() {
                None
            } else if L2::any_buffer() {
                read_only_buffer()
            } else {
                Some(VTableOrCapacity::Capacity(0))
            },
        }
    }

    /// Whether `slice` is the slice frozen: the same items, at the same place in the same buffer.
    pub open spec fn frozen_as<L2: Layout>(self, slice: ArcSlice<S, L2>) -> bool {
        &&& slice@ == self@
        &&& slice.buffer() == self.frozen_buffer::<L2>()
        &&& self.data() matches Some(data) ==> {
            &&& slice.inner() == Some(data.inner())
            &&& slice.position() == self.offset()
            &&& slice.is_whole()
            &&& !slice.is_foreign()
        }
    }

    /// Tries freezing the slice, which keeps its buffer.
    pub fn try_freeze<L2: Layout>(self) -> (r: Result<ArcSlice<S, L2>, Self>)
        requires
            self.wf(),
        ensures
            match r {
                Ok(slice) => self.suits::<L2>() && self.frozen_as(slice),
                Err(same) => !self.suits::<L2>() && same == self,
            },
    {
        if !self.suits_layout::<L2>() {
            return Err(self);
        }
        let ArcSliceMut { items, offset, capacity, data, layout } = self;
        match data {
            Some(data) => {
                let arc = Arc {
                    inner: data.make_shared(),
                    storage: StdArc::new(Storage::Items(items)),
                    position: offset,
                };
                Ok(ArcSlice::<S, L2>::from_arc(arc))
            },
            None => {
                assert(items@ =~= Seq::empty());
                Ok(ArcSlice::<S, L2>::without_buffer())
            },
        }
    }

    /// Freezes the slice, which keeps its buffer.
    pub fn freeze<L2: FromLayout<L>>(self) -> (r: ArcSlice<S, L2>)
        requires
            self.wf(),
        ensures
            self.frozen_as(r),
    {
        proof {
            L2::lemma_from_layout();
        }
        match self.try_freeze::<L2>() {
            Ok(slice) => slice,
            Err(_) => vstd::pervasive::unreached(),
        }
    }
}

impl<S: Slice + ?Sized, L: Layout> ArcSlice<S, L> {
    /// Whether `slice` is the slice to be written to: the same items, at the same place in the same
    /// buffer, with all the room behind them.
    pub open spec fn thawed_as<L2: LayoutMut>(self, slice: ArcSliceMut<S, L2, true>) -> bool {
        &&& slice.wf()
        &&& slice@ == self@
        &&& slice.buffer() == self.buffer()
        &&& match self.buffer() {
            Some(buffer) => {
                &&& slice.offset() == self.position()
                &&& slice.capacity_spec() == buffer.room_spec() - self.position()
                &&& slice.data() matches Some(data) && self.inner() == Some(data.inner())
                &&& !self.is_foreign()
            },
            None => slice.capacity_spec() == 0,
        }
    }

    /// Tries turning the slice into a mutable one.
    ///
    /// A slice that lives as long as the program is only turned if it has no item. Of a shared buffer
    /// the other handles decide: the slice is only turned if there are none, and never if the buffer
    /// cannot be written to, or if the layout does not support it. The buffer is asked for with this handle
    /// alone: another one is not made before it is answered, as that may unwind.
    pub fn try_into_mut<L2: LayoutMut>(self) -> (r: Result<ArcSliceMut<S, L2, true>, Self>)
        ensures
            match r {
                Ok(slice) => self.is_writable::<L2>() && self.thawed_as(slice),
                Err(same) => same == self && (self.is_writable::<L2>() && !self.is_foreign()
                    ==> self.found_shared()),
            },
        no_unwind when !self.is_static() && !self.was_answered()
    {
        match self.into_mut_parts::<L2>() {
            Ok((items, offset, capacity, inner)) => Ok(
                ArcSliceMut {
                    items,
                    offset,
                    capacity,
                    data: match inner {
                        Some(inner) => Some(Data::Unique(inner)),
                        None => None,
                    },
                    layout: PhantomData,
                },
            ),
            Err(same) => Err(same),
        }
    }
}

impl<S: Slice + ?Sized, L: LayoutMut> ArcSliceMut<S, L, true> {
    fn init(items: Vec<S::Item>, capacity: usize, inner: ArcInner) -> (r: Self)
        requires
            S::valid(items@),
            items@.len() <= capacity <= inner.room(),
            !L::any_buffer() ==> inner.buffer() is Capacity,
            inner.buffer().is_mutable_spec(),
        ensures
            r.wf(),
            r@ == items@,
            r.capacity_spec() == capacity,
            r.offset() == 0,
            r.data() == Some(Data::Unique(inner)),
    {
        ArcSliceMut {
            items,
            offset: 0,
            capacity,
            data: Some(Data::Unique(inner)),
            layout: PhantomData,
        }
    }

    /// A slice without items and without buffer.
    fn empty() -> (r: Self)
        requires
            S::valid(Seq::empty()),
        ensures
            r.wf(),
            r@ == Seq::<S::Item>::empty(),
            r.capacity_spec() == 0,
            r.data() is None,
    {
        let items: Vec<S::Item> = Vec::new();
        assert(items@ =~= Seq::empty());
        ArcSliceMut { items, offset: 0, capacity: 0, data: None, layout: PhantomData }
    }

    /// A new empty slice, which does not allocate.
    pub fn new() -> (r: Self) where S: Emptyable
        ensures
            r.wf(),
            r@ == Seq::<S::Item>::empty(),
            r.capacity_spec() == 0,
            r.data() is None,
    {
        proof {
            S::lemma_empty_valid();
        }
        Self::empty()
    }

    /// How a slice is kept that has room for just `len` items of its own: without any it has no
    /// buffer.
    pub open spec fn kept_with(self, len: int) -> bool {
        &&& self.wf()
        &&& self.capacity_spec() == len
        &&& self.offset() == 0
        &&& self.buffer() == if len == 0 {
            None
        } else {
            Some(VTableOrCapacity::Capacity(len as usize))
        }
    }

    fn from_slice_impl<E: AllocErrorImpl>(slice: &S) -> (r: Result<Self, E>) where S::Item: Copy
        ensures
            match r {
                Ok(this) => this@ == slice.items() && this.kept_with(slice.items().len() as int),
                Err(_) => E::fallible() && slice.items().len() != 0,
            },
            slice.items().len() != 0 ==> allocation::<S::Item, E>(
                slice.items().len() as int,
                r is Ok,
            ),
    {
        proof {
            slice.lemma_items_valid();
        }
        let items = slice.to_slice();
        if items.len() == 0 {
            assert(slice.items() =~= Seq::empty());
            return Ok(Self::empty());
        }
        let needs_drop: bool = S::needs_drop();
        assert(drop_answer::<S::Item>(needs_drop));
        match allocate_slice::<S::Item, E>(items.len(), needs_drop) {
            Ok(mut vec) => {
                copy_items(&mut vec, items);
                assert(vec@ =~= items@);
                Ok(Self::init(vec, items.len(), ArcInner::new_slice(items.len())))
            },
            Err(error) => Err(error),
        }
    }

    /// Copies a slice.
    pub fn from_slice(slice: &S) -> (r: Self) where S::Item: Copy
        ensures
            r@ == slice.items(),
            r.kept_with(slice.items().len() as int),
    {
        match Self::from_slice_impl::<Infallible>(slice) {
            Ok(this) => this,
            Err(_) => vstd::pervasive::unreached(),
        }
    }

    /// Tries copying a slice, returning an error if an allocation fails.
    pub fn try_from_slice(slice: &S) -> (r: Result<Self, AllocError>) where S::Item: Copy
        ensures
            match r {
                Ok(this) => this@ == slice.items() && this.kept_with(slice.items().len() as int),
                Err(_) => slice.items().len() != 0,
            },
            slice.items().len() != 0 ==> allocation::<S::Item, AllocError>(
                slice.items().len() as int,
                r is Ok,
            ),
    {
        Self::from_slice_impl::<AllocError>(slice)
    }

    fn with_capacity_impl<E: AllocErrorImpl>(capacity: usize) -> (r: Result<Self, E>) where
        S: Emptyable,

        ensures
            match r {
                Ok(this) => this@ == Seq::<S::Item>::empty() && this.kept_with(capacity as int),
                Err(_) => E::fallible() && capacity != 0,
            },
            capacity != 0 ==> allocation::<S::Item, E>(capacity as int, r is Ok),
    {
        proof {
            S::lemma_empty_valid();
        }
        if capacity == 0 {
            return Ok(Self::empty());
        }
        let needs_drop: bool = S::needs_drop();
        assert(drop_answer::<S::Item>(needs_drop));
        match allocate_slice::<S::Item, E>(capacity, needs_drop) {
            Ok(vec) => Ok(Self::init(vec, capacity, ArcInner::new_slice(capacity))),
            Err(error) => Err(error),
        }
    }

    /// A new empty slice with room for `capacity` items.
    pub fn with_capacity(capacity: usize) -> (r: Self) where S: Emptyable
        requires
            capacity_fits::<S::Item>(capacity as int),
        ensures
            r@ == Seq::<S::Item>::empty(),
            r.kept_with(capacity as int),
    {
        match Self::with_capacity_impl::<Infallible>(capacity) {
            Ok(this) => this,
            Err(_) => vstd::pervasive::unreached(),
        }
    }

    /// Tries making a new empty slice with room for `capacity` items.
    pub fn try_with_capacity(capacity: usize) -> (r: Result<Self, AllocError>) where S: Emptyable
        requires
            capacity_fits::<S::Item>(capacity as int),
        ensures
            match r {
                Ok(this) => this@ == Seq::<S::Item>::empty() && this.kept_with(capacity as int),
                Err(_) => capacity != 0,
            },
            capacity != 0 ==> allocation::<S::Item, AllocError>(capacity as int, r is Ok),
    {
        Self::with_capacity_impl::<AllocError>(capacity)
    }

    fn zeroed_impl<E: AllocErrorImpl>(length: usize) -> (r: Result<Self, E>) where S: Zeroable
        ensures
            match r {
                Ok(this) => this@ == Seq::new(length as nat, |i: int| S::zero()) && this.kept_with(
                    length as int,
                ),
                Err(_) => E::fallible() && length != 0,
            },
            length != 0 ==> allocation::<S::Item, E>(length as int, r is Ok),
    {
        proof {
            S::lemma_zeroed_valid(length as nat);
            S::lemma_empty_valid();
        }
        let ghost zeroed = Seq::new(length as nat, |i: int| S::zero());
        if length == 0 {
            assert(zeroed =~= Seq::empty());
            return Ok(Self::empty());
        }
        let needs_drop: bool = S::needs_drop();
        assert(drop_answer::<S::Item>(needs_drop));
        match allocate_slice::<S::Item, E>(length, needs_drop) {
            Ok(vec) => {
                let mut vec = vec;
                let mut i: usize = 0;
                while i < length
                    invariant
                        i <= length,
                        vec@ =~= Seq::new(i as nat, |k: int| S::zero()),
                    decreases length - i,
                {
                    vec.push(S::zero_item());
                    i += 1;
                }
                assert(vec@ =~= zeroed);
                Ok(Self::init(vec, length, ArcInner::new_slice(length)))
            },
            Err(error) => Err(error),
        }
    }

    /// A new slice of `length` zero items.
    pub fn zeroed(length: usize) -> (r: Self) where S: Zeroable
        requires
            capacity_fits::<S::Item>(length as int),
        ensures
            r@ == Seq::new(length as nat, |i: int| S::zero()),
            r.kept_with(length as int),
    {
        match Self::zeroed_impl::<Infallible>(length) {
            Ok(this) => this,
            Err(_) => vstd::pervasive::unreached(),
        }
    }

    /// Tries making a new slice of `length` zero items.
    pub fn try_zeroed(length: usize) -> (r: Result<Self, AllocError>) where S: Zeroable
        requires
            capacity_fits::<S::Item>(length as int),
        ensures
            match r {
                Ok(this) => this@ == Seq::new(length as nat, |i: int| S::zero()) && this.kept_with(
                    length as int,
                ),
                Err(_) => length != 0,
            },
            length != 0 ==> allocation::<S::Item, AllocError>(length as int, r is Ok),
    {
        Self::zeroed_impl::<AllocError>(length)
    }

    /// Whether room for `additional` items can be reserved: there is enough of it, or there is once the
    /// slice is at the front of the buffer, or the buffer can grow, and what it grows to can be
    /// addressed. `needs_drop` says whether the items have to be dropped.
    pub open spec fn can_reserve_with(self, additional: int, needs_drop: bool) -> bool {
        ||| additional <= self.capacity_spec() - self@.len()
        ||| match self.buffer() {
            None => vec_fits::<S::Item>(
                max_spec(min_non_zero_cap_spec::<S::Item>() as int, additional),
            ),
            Some(buffer) => {
                let room = buffer.room_spec();
                ||| room - self.offset() - self@.len() >= additional
                ||| !needs_drop && room - self@.len() >= additional && self.offset() >= self@.len()
                ||| {
                    &&& buffer.is_resizable_spec()
                    &&& vec_fits::<S::Item>(
                        grown_room(room as int, self.offset() + self@.len() + additional),
                    )
                    &&& self.offset() + self@.len() + additional <= usize::MAX
                }
            },
        }
    }

    /// Whether room for `additional` items can be reserved, whether or not they have to be dropped, as
    /// far as that is not known.
    pub open spec fn can_reserve(self, additional: int) -> bool {
        forall|needs_drop: bool| #[trigger]
            drop_answer::<S::Item>(needs_drop) ==> self.can_reserve_with(additional, needs_drop)
    }

    /// What becomes of a slice when room for `additional` items was reserved: as
    /// [`ArcSliceMut::reserved`] says, with no error.
    pub open spec fn grown(self, additional: int, needs_drop: bool, after: Self) -> bool {
        if additional <= self.capacity_spec() - self@.len() {
            after == self
        } else {
            &&& after@ == self@
            &&& match self.data() {
                None => {
                    let room = max_spec(min_non_zero_cap_spec::<S::Item>() as int, additional);
                    &&& after.offset() == 0
                    &&& after.capacity_spec() == room
                    &&& after.buffer() == Some(VTableOrCapacity::Capacity(room as usize))
                },
                Some(data) => {
                    let inner = data.inner();
                    let room = inner.room() as int;
                    let required = self.offset() + self@.len() + additional;
                    if room >= required {
                        &&& after.offset() == self.offset()
                        &&& after.capacity_spec() == room - self.offset()
                        &&& after.data() == Some(Data::Unique(inner))
                    } else if !needs_drop && room - self@.len() >= additional && self.offset()
                        >= self@.len() {
                        &&& after.offset() == 0
                        &&& after.capacity_spec() == room
                        &&& after.data() == Some(Data::Unique(inner))
                    } else {
                        &&& after.offset() == self.offset()
                        &&& after.capacity_spec() == grown_room(room, required) - self.offset()
                        &&& after.data() == Some(
                            Data::Unique(
                                inner_with_room(inner, grown_room(room, required) as usize),
                            ),
                        )
                    }
                },
            }
        }
    }

    /// Reserves room for `additional` items. An allocation that fails is left to the allocator's own
    /// handler, which does not return.
    fn reserve_cold(&mut self, additional: usize, needs_drop: bool)
        requires
            old(self).wf(),
            old(self).can_reserve_with(additional as int, needs_drop),
            additional > old(self).capacity_spec() - old(self)@.len(),
        ensures
            final(self).wf(),
            final(self).capacity_spec() - final(self)@.len() >= additional,
            old(self).grown(additional as int, needs_drop, *final(self)),
    {
        let length: usize = self.items.len();
        match self.data.take() {
            Some(Data::Unique(inner)) => {
                let mut inner = inner;
                let room: usize = inner.vtable_or_capacity.room();
                if room - self.offset - length >= additional {
                    self.capacity = room - self.offset;
                } else if !needs_drop && room - length >= additional && self.offset >= length {
                    self.capacity = room;
                    self.offset = 0;
                } else {
                    let required: usize = self.offset + length + additional;
                    let doubled: usize = match room.checked_mul(2) {
                        Some(doubled) => doubled,
                        None => usize::MAX,
                    };
                    let new_room: usize = if doubled >= required {
                        doubled
                    } else {
                        required
                    };
                    self.items.reserve(new_room - self.offset - length);
                    self.capacity = new_room - self.offset;
                    inner.vtable_or_capacity = inner.vtable_or_capacity.with_room(new_room);
                }
                self.data = Some(Data::Unique(inner));
            },
            Some(Data::Shared(inner)) => {
                self.data = Some(Data::Shared(inner));
            },
            None => {
                let least: usize = min_non_zero_cap::<S::Item>();
                let room: usize = if least >= additional {
                    least
                } else {
                    additional
                };
                let items: Vec<S::Item> = Vec::with_capacity(room);
                assert(self.items@ =~= items@);
                self.items = items;
                self.capacity = room;
                self.data = Some(Data::Unique(ArcInner::new_slice(room)));
            },
        }
    }

    /// Reserves room for `additional` items. `needs_drop` says whether the items have to be dropped.
    pub fn reserve_with(&mut self, additional: usize, needs_drop: bool)
        requires
            old(self).wf(),
            old(self).can_reserve_with(additional as int, needs_drop),
        ensures
            final(self).wf(),
            final(self)@ == old(self)@,
            final(self).capacity_spec() - final(self)@.len() >= additional,
            old(self).grown(additional as int, needs_drop, *final(self)),
    {
        if additional > self.spare_capacity() {
            self.reserve_cold(additional, needs_drop);
        }
    }

    /// Reserves capacity for at least `additional` more items.
    pub fn reserve(&mut self, additional: usize)
        requires
            old(self).wf(),
            old(self).can_reserve(additional as int),
        ensures
            final(self).wf(),
            final(self)@ == old(self)@,
            final(self).capacity_spec() - final(self)@.len() >= additional,
            exists|needs_drop: bool|
                drop_answer::<S::Item>(needs_drop) && #[trigger] old(self).grown(
                    additional as int,
                    needs_drop,
                    *final(self),
                ),
    {
        let needs_drop: bool = S::needs_drop();
        self.reserve_with(additional, needs_drop);
    }

    /// Appends an item.
    pub fn push(&mut self, item: S::Item) where S: Extendable
        requires
            old(self).wf(),
            old(self).can_reserve(1),
        ensures
            final(self).wf(),
            final(self)@ == old(self)@.push(item),
            exists|needs_drop: bool, between: Self|
                drop_answer::<S::Item>(needs_drop) && #[trigger] old(self).grown(
                    1,
                    needs_drop,
                    between,
                ) && final(self).follows(between, seq![item]),
    {
        let needs_drop: bool = S::needs_drop();
        self.reserve_with(1, needs_drop);
        let ghost between = *self;
        proof {
            S::lemma_push_valid(self@, item);
            assert(self@ + seq![item] =~= self@.push(item));
            assert(old(self).grown(1, needs_drop, between));
        }
        self.items.push(item);
    }

    /// Appends the items of a slice.
    pub fn extend_from_slice(&mut self, slice: &S) where S: Concatenable, S::Item: Copy
        requires
            old(self).wf(),
            old(self).can_reserve(slice.items().len() as int),
        ensures
            final(self).wf(),
            final(self)@ == old(self)@ + slice.items(),
            exists|needs_drop: bool, between: Self|
                drop_answer::<S::Item>(needs_drop) && #[trigger] old(self).grown(
                    slice.items().len() as int,
                    needs_drop,
                    between,
                ) && final(self).follows(between, slice.items()),
    {
        let items = slice.to_slice();
        let needs_drop: bool = S::needs_drop();
        self.reserve_with(items.len(), needs_drop);
        let ghost between = *self;
        proof {
            slice.lemma_items_valid();
            S::lemma_concat_valid(self@, slice.items());
            assert(old(self).grown(items@.len() as int, needs_drop, between));
        }
        copy_items(&mut self.items, items);
    }

    /// Appends the items of a vector, one after the other.
    pub fn extend(&mut self, items: Vec<S::Item>) where S: Extendable
        requires
            old(self).wf(),
            old(self).can_reserve(items@.len() as int),
        ensures
            final(self).wf(),
            final(self)@ == old(self)@ + items@,
            exists|needs_drop: bool, between: Self|
                drop_answer::<S::Item>(needs_drop) && #[trigger] old(self).grown(
                    items@.len() as int,
                    needs_drop,
                    between,
                ) && final(self).follows(between, items@),
    {
        let mut more = items;
        let needs_drop: bool = S::needs_drop();
        self.reserve_with(more.len(), needs_drop);
        let ghost between = *self;
        proof {
            lemma_extend_valid::<S>(self@, items@);
            assert(old(self).grown(items@.len() as int, needs_drop, between));
        }
        self.items.append(&mut more);
    }

    /// A slice of its own of the items of a vector.
    pub fn from_iter(items: Vec<S::Item>) -> (r: Self) where S: Emptyable + Extendable
        ensures
            r.wf(),
            r@ == items@,
            r.offset() == 0,
            r.capacity_spec() == if items@.len() == 0 {
                0
            } else {
                max_spec(min_non_zero_cap_spec::<S::Item>() as int, items@.len() as int)
            },
            r.buffer() == if items@.len() == 0 {
                None
            } else {
                Some(VTableOrCapacity::Capacity(r.capacity_spec() as usize))
            },
    {
        proof {
            S::lemma_empty_valid();
            lemma_extend_valid::<S>(Seq::empty(), items@);
            assert(Seq::empty() + items@ =~= items@);
        }
        let length: usize = items.len();
        if length == 0 {
            assert(items@ =~= Seq::empty());
            return Self::empty();
        }
        let least: usize = min_non_zero_cap::<S::Item>();
        let room: usize = if least >= length {
            least
        } else {
            length
        };
        Self::init(items, room, ArcInner::new_slice(room))
    }
}

/// Any number of items can be appended one after the other.
pub proof fn lemma_extend_valid<S: Extendable + ?Sized>(items: Seq<S::Item>, more: Seq<S::Item>)
    requires
        S::valid(items),
    ensures
        S::valid(items + more),
    decreases more.len(),
{
    if more.len() == 0 {
        assert(items + more =~= items);
    } else {
        lemma_extend_valid::<S>(items, more.drop_last());
        S::lemma_push_valid(items + more.drop_last(), more.last());
        assert((items + more.drop_last()).push(more.last()) =~= items + more);
    }
}

impl<S: Slice + ?Sized, L: LayoutMut, const UNIQUE: bool> ArcSliceMut<S, L, UNIQUE> {
    /// Whether the items came out of a buffer of type `B`, which is neither a vector nor a slice that
    /// the crate allocated itself.
    pub open(crate) spec fn came_from<B: BufferMut<S>>(self) -> bool {
        &&& self.data() matches Some(data)
        &&& data.inner().origin matches Some(any)
        &&& holds_some::<S, B>(any)
    }

    /// Whether the buffer is a vector of slices of type `V`.
    pub open(crate) spec fn vector_of<V: Slice<Item = S::Item> + ?Sized>(self) -> bool {
        self.data() matches Some(data) && data.inner().vector_of::<V>()
    }

    /// Whether the slice is a buffer of type `B` underneath, which is given back if nothing else
    /// refers to it.
    pub open(crate) spec fn can_take<B: BufferMut<S>>(self) -> bool {
        match self.buffer() {
            None => B::class() is Vector,
            Some(VTableOrCapacity::Capacity(_)) => false,
            Some(VTableOrCapacity::VTable(vtable)) => match vtable.kind {
                BufferKind::Vector => self.vector_of::<S>() && B::class() is Vector,
                BufferKind::WholeVector => self.vector_of::<S>() && B::class() is Vector
                    && self.offset() == 0,
                BufferKind::Buffer => self.came_from::<B>() && self.offset() == 0,
            },
        }
    }

    /// Whether it was answered if there are other references to the buffer, where there may be some.
    pub open spec fn was_answered(self) -> bool {
        self.data() matches Some(data) ==> data.was_answered()
    }

    /// Whether the buffer is neither a vector nor one that the crate allocated itself.
    pub open spec fn is_another(self) -> bool {
        self.buffer() matches Some(VTableOrCapacity::VTable(vtable)) && vtable.kind is Buffer
    }

    /// Whether `buffer` is what the items came out of, with the items moved back into it.
    pub open(crate) spec fn came_back_as<B: BufferMut<S>>(self, buffer: B) -> bool {
        &&& self.data() matches Some(data)
        &&& data.inner().origin matches Some(any)
        &&& refilled::<S, B>(held::<S, B>(any), self@, buffer)
    }

    /// Tries giving back the underlying buffer.
    ///
    /// The other references decide, where there may be some: the buffer is given back only if there
    /// are none, and never unless [`ArcSliceMut::can_take`] holds. A slice without buffer is given back
    /// as an empty vector.
    pub fn try_into_buffer<B: BufferMut<S>>(self) -> (r: Result<B, Self>)
        requires
            self.wf(),
        ensures
            match r {
                Ok(buffer) => self.can_take::<B>() && buffer.buffer_items() == self@ && (
                self.is_another() ==> self.came_back_as::<B>(buffer)),
                Err(same) => same.wf() && same.unchanged(self) && (self.can_take::<B>() ==> (
                self.data() matches Some(data) && data.found_shared())),
            },
        no_unwind when B::is_items() && !self.is_another() || !self.was_answered()
    {
        let ArcSliceMut { items, offset, capacity, data, layout } = self;
        let data = match data {
            Some(data) => data,
            None => {
                return match B::buffer_class() {
                    BufferClass::Vector => match B::from_items(items) {
                        Ok(buffer) => Ok(buffer),
                        Err(_) => vstd::pervasive::unreached(),
                    },
                    _ => Err(ArcSliceMut { items, offset, capacity, data: None, layout }),
                };
            },
        };
        let kind: BufferKind = match data.vtable_or_capacity() {
            VTableOrCapacity::VTable(vtable) => vtable.kind,
            VTableOrCapacity::Capacity(_) => {
                return Err(ArcSliceMut { items, offset, capacity, data: Some(data), layout });
            },
        };
        let inner = match data.make_unique() {
            Ok(inner) => inner,
            Err(data) => {
                return Err(ArcSliceMut { items, offset, capacity, data: Some(data), layout });
            },
        };
        match kind {
            BufferKind::Buffer => {
                if offset != 0 {
                    let data = Some(Data::Unique(inner));
                    return Err(ArcSliceMut { items, offset, capacity, data, layout });
                }
                let mut inner = inner;
                match inner.origin.take() {
                    Some(origin) => match put_back::<S, B>(origin, items) {
                        Ok(buffer) => Ok(buffer),
                        Err((origin, items)) => {
                            inner.origin = Some(origin);
                            let data = Some(Data::Unique(inner));
                            Err(ArcSliceMut { items, offset, capacity, data, layout })
                        },
                    },
                    None => {
                        let data = Some(Data::Unique(inner));
                        Err(ArcSliceMut { items, offset, capacity, data, layout })
                    },
                }
            },
            _ => {
                let whole: bool = match kind {
                    BufferKind::Vector => true,
                    _ => offset == 0,
                };
                let is_vector: bool = match B::buffer_class() {
                    BufferClass::Vector => check_tag::<S>(&inner.origin),
                    _ => false,
                };
                if !whole || !is_vector {
                    let data = Some(Data::Unique(inner));
                    return Err(ArcSliceMut { items, offset, capacity, data, layout });
                }
                match B::from_items(items) {
                    Ok(buffer) => Ok(buffer),
                    Err(items) => {
                        let data = Some(Data::Unique(inner));
                        Err(ArcSliceMut { items, offset, capacity, data, layout })
                    },
                }
            },
        }
    }
}

impl<T: Send + Sync + 'static, L: LayoutMut> ArcSliceMut<[T], L, true> {
    fn from_array_impl<E: AllocErrorImpl, const N: usize>(array: [T; N]) -> (r: Result<
        Self,
        (E, [T; N]),
    >)
        ensures
            match r {
                Ok(this) => this@ == array@ && this.kept_with(N as int),
                Err((_, same)) => E::fallible() && same == array && N != 0,
            },
            N != 0 ==> allocation::<T, E>(N as int, r is Ok),
    {
        if N == 0 {
            assert(array@ =~= Seq::empty());
            return Ok(Self::empty());
        }
        let needs_drop: bool = <[T] as Slice>::needs_drop();
        assert(drop_answer::<T>(needs_drop));
        match allocate_slice::<T, E>(N, needs_drop) {
            Ok(mut vec) => {
                extend_with_array(&mut vec, array);
                assert(vec@ =~= array@);
                Ok(Self::init(vec, N, ArcInner::new_slice(N)))
            },
            Err(error) => Err((error, array)),
        }
    }

    /// Moves an array.
    pub fn from_array<const N: usize>(array: [T; N]) -> (r: Self)
        ensures
            r@ == array@,
            r.kept_with(N as int),
    {
        match Self::from_array_impl::<Infallible, N>(array) {
            Ok(this) => this,
            Err(_) => vstd::pervasive::unreached(),
        }
    }

    /// Tries moving an array, returning it if an allocation fails.
    pub fn try_from_array<const N: usize>(array: [T; N]) -> (r: Result<Self, [T; N]>)
        ensures
            match r {
                Ok(this) => this@ == array@ && this.kept_with(N as int),
                Err(same) => same == array && N != 0,
            },
            N != 0 ==> allocation::<T, AllocError>(N as int, r is Ok),
    {
        match Self::from_array_impl::<AllocError, N>(array) {
            Ok(this) => Ok(this),
            Err((_, array)) => Err(array),
        }
    }
}

impl<T: Send + Sync + 'static, L: LayoutMut, const UNIQUE: bool> ArcSliceMut<[T], L, UNIQUE> {
    /// Whether the items can be moved into an array of `n` items, once nothing else refers to the
    /// buffer: they have to be all that a buffer which the crate allocated itself has room for. No
    /// item at all needs no buffer.
    pub open spec fn fills_array(self, n: int) -> bool {
        match self.buffer() {
            None => n == 0,
            Some(VTableOrCapacity::Capacity(room)) => self@.len() == room && room == n,
            Some(VTableOrCapacity::VTable(_)) => false,
        }
    }

    /// Tries moving the items into an array.
    pub fn try_into_array<const N: usize>(self) -> (r: Result<[T; N], Self>)
        requires
            self.wf(),
        ensures
            match r {
                Ok(array) => array@ == self@ && self.fills_array(N as int),
                Err(same) => same == self && (self.fills_array(N as int) ==> (self.data() matches Some(
                    data,
                ) && data.found_shared())),
            },
        no_unwind
    {
        let ArcSliceMut { items, offset, capacity, data, layout } = self;
        match data {
            None => match array_from_vec::<T, N>(items) {
                Ok(array) => Ok(array),
                Err(items) => Err(ArcSliceMut { items, offset, capacity, data: None, layout }),
            },
            Some(data) => {
                let whole: bool = match data.vtable_or_capacity() {
                    VTableOrCapacity::Capacity(room) => items.len() == room && room == N,
                    VTableOrCapacity::VTable(_) => false,
                };
                if !whole {
                    return Err(ArcSliceMut { items, offset, capacity, data: Some(data), layout });
                }
                match data.make_unique() {
                    Ok(inner) => match array_from_vec::<T, N>(items) {
                        Ok(array) => Ok(array),
                        Err(items) => Err(
                            ArcSliceMut {
                                items,
                                offset,
                                capacity,
                                data: Some(Data::Unique(inner)),
                                layout,
                            },
                        ),
                    },
                    Err(data) => Err(
                        ArcSliceMut { items, offset, capacity, data: Some(data), layout },
                    ),
                }
            },
        }
    }
}

impl<S: Slice + ?Sized, L: LayoutMut> ArcSliceMut<S, L, true> {
    /// Whether the slice is all of a vector with room for `capacity` items: without any it has no
    /// buffer.
    pub open(crate) spec fn is_vec_with(self, capacity: int) -> bool {
        &&& self.wf()
        &&& self.capacity_spec() == capacity
        &&& self.offset() == 0
        &&& self.data() matches Some(data) ==> data.inner().metadata is None
        &&& if capacity == 0 {
            self.data() is None
        } else {
            vector_kept::<S, L>(self.buffer(), self@.len() as int, capacity) && self.vector_of::<S>()
        }
    }

    /// A slice of the items of a vector, with room for `capacity` items, which stays what it is.
    pub(crate) fn from_items_impl(items: Vec<S::Item>, capacity: usize) -> (r: Self)
        requires
            L::any_buffer(),
            S::valid(items@),
            items@.len() <= capacity,
        ensures
            r@ == items@,
            r.is_vec_with(capacity as int),
    {
        if capacity == 0 {
            assert(items@ =~= Seq::empty());
            return Self::empty();
        }
        let direct: bool = L::supports_direct_vec(items.len(), capacity);
        let needs_drop: bool = S::needs_drop();
        assert(drop_answer::<S::Item>(needs_drop));
        let vtable = VTable::new_vec(needs_drop && !direct, capacity);
        let mut inner = ArcInner::new_vtable(vtable);
        inner.origin = Some(slice_tag::<S>());
        Self::init(items, capacity, inner)
    }

    /// A slice of the items of a vector, which stays what it is.
    pub fn from_vec(vec: S::Vec) -> (r: Self)
        requires
            L::any_buffer(),
        ensures
            r@ == S::vec_items(vec),
            r.is_vec_with(r.capacity_spec()),
    {
        proof {
            S::lemma_vec_valid(vec);
        }
        let capacity: usize = S::vec_capacity(&vec);
        Self::from_items_impl(S::into_vec(vec), capacity)
    }

    /// How a slice is kept whose items came out of `buffer`: a vector stays what it is, anything else
    /// is kept to have its items back.
    pub open(crate) spec fn made_of<B: BufferMut<S>>(self, buffer: B) -> bool {
        &&& self.wf()
        &&& self@ == buffer.buffer_items()
        &&& self.offset() == 0
        &&& self.data() matches Some(data) ==> data.inner().metadata is None
        &&& if B::class() is Vector || B::class() is Boxed {
            self.is_vec_with(self.capacity_spec())
        } else {
            self.kept_beside::<B>(buffer)
        }
    }

    /// Whether the items came out of `buffer`, of which what is left is kept to have them back.
    pub open(crate) spec fn kept_beside<B: BufferMut<S>>(self, buffer: B) -> bool {
        &&& self.came_from::<B>()
        &&& self.left_of::<B>(buffer)
        &&& self.buffer() matches Some(VTableOrCapacity::VTable(vtable))
        &&& vtable.kind is Buffer
        &&& vtable.mutable
        &&& call_ensures(<B as BufferMut<S>>::is_resizable, (), vtable.resizable)
        &&& vtable.capacity == self.capacity_spec()
        &&& self.data() matches Some(data)
        &&& data.inner().refiller matches Some(refiller)
        &&& forall|origin: AnyBox, items: Seq<S::Item>| #[trigger]
            puts_back::<S::Item>(refiller, origin, items) == (holds_some::<S, B>(origin) && S::valid(
                items,
            ))
        &&& refills_only::<S, B>(data.inner().refiller)
    }

    /// Whether what is kept to have the items back is what was left of `buffer`.
    pub open(crate) spec fn left_of<B: BufferMut<S>>(self, buffer: B) -> bool {
        &&& self.data() matches Some(data)
        &&& data.inner().origin matches Some(any)
        &&& emptied::<S, B>(buffer, held::<S, B>(any))
    }

    fn from_dyn_buffer_impl<B: BufferMut<S>>(buffer: B, metadata: Option<AnyMetadata>) -> (r: Self)
        requires
            L::any_buffer(),
        ensures
            r.wf(),
            r@ == buffer.buffer_items(),
            r.offset() == 0,
            r.kept_beside::<B>(buffer),
            r.has_metadata(metadata),
    {
        let slice = buffer.as_slice();
        proof {
            slice.lemma_items_valid();
        }
        let capacity: usize = buffer.capacity();
        let take = <B as BufferMut<S>>::take_items;
        let (items, left) = take(buffer);
        let husk = forget_buffer::<S, B>(left);
        let is_resizable = <B as BufferMut<S>>::is_resizable;
        let resizable: bool = is_resizable();
        let vtable = VTable::new_mut(resizable, capacity);
        let inner = ArcInner {
            vtable_or_capacity: VTableOrCapacity::VTable(vtable),
            metadata,
            origin: Some(husk),
            refiller: Some(refiller::<S, B>()),
        };
        let r = Self::init(items, capacity, inner);
        assert(emptied::<S, B>(buffer, left));
        r
    }

    /// Whether `metadata` stands beside the buffer.
    pub open(crate) spec fn has_metadata(self, metadata: Option<AnyMetadata>) -> bool {
        self.data() matches Some(data) && data.inner().metadata == metadata
    }

    /// A slice of the items of a buffer.
    pub fn from_buffer<B: BufferMut<S>>(buffer: B) -> (r: Self) where L: AnyBufferLayout
        ensures
            r.made_of::<B>(buffer),
    {
        let slice = buffer.as_slice();
        proof {
            L::lemma_any_buffer();
            slice.lemma_items_valid();
        }
        match B::buffer_class() {
            BufferClass::Vector | BufferClass::Boxed => match buffer.into_parts() {
                BufferParts::Items(items, room) => Self::from_items_impl(items, room),
                _ => vstd::pervasive::unreached(),
            },
            _ => Self::from_dyn_buffer_impl::<B>(buffer, None),
        }
    }

    /// Tries making a slice of the items of a buffer.
    pub fn try_from_buffer<B: BufferMut<S>>(buffer: B) -> (r: Result<Self, B>) where
        L: AnyBufferLayout,

        ensures
            r matches Ok(this) && this.made_of::<B>(buffer),
    {
        Ok(Self::from_buffer::<B>(buffer))
    }

    /// How a slice is kept whose items came out of `buffer`, with `metadata` beside it. Metadata of the
    /// unit type are none at all.
    pub open(crate) spec fn made_of_with<B: BufferMut<S>, M: Send + Sync + 'static>(
        self,
        buffer: B,
        metadata: M,
    ) -> bool {
        exists|unit: bool| #[trigger]
            tells_unit::<M>(unit) && if unit {
                self.made_of::<B>(buffer)
            } else {
                &&& self.wf()
                &&& self@ == buffer.buffer_items()
                &&& self.offset() == 0
                &&& self.kept_beside::<B>(buffer)
                &&& self.metadata_spec::<M>() == Some(metadata)
            }
    }

    /// A slice of the items of a buffer, with metadata beside it.
    pub fn from_buffer_with_metadata<B: BufferMut<S>, M: Send + Sync + 'static>(
        buffer: B,
        metadata: M,
    ) -> (r: Self) where L: AnyBufferLayout
        ensures
            r.made_of_with::<B, M>(buffer, metadata),
    {
        proof {
            L::lemma_any_buffer();
        }
        let unit: bool = is_unit::<M>();
        assert(tells_unit::<M>(unit));
        if unit {
            return Self::from_buffer::<B>(buffer);
        }
        Self::from_dyn_buffer_impl::<B>(buffer, Some(AnyMetadata::owned::<M>(metadata)))
    }

    /// Tries making a slice of the items of a buffer, with metadata beside it.
    pub fn try_from_buffer_with_metadata<B: BufferMut<S>, M: Send + Sync + 'static>(
        buffer: B,
        metadata: M,
    ) -> (r: Result<Self, (B, M)>) where L: AnyBufferLayout
        ensures
            r matches Ok(this) && this.made_of_with::<B, M>(buffer, metadata),
    {
        Ok(Self::from_buffer_with_metadata::<B, M>(buffer, metadata))
    }

    /// How a slice is kept whose items came out of `buffer`, which goes on lending its metadata.
    /// Metadata of the unit type are none at all.
    pub open(crate) spec fn made_of_lender<B: BufferMut<S> + BorrowMetadata>(self, buffer: B) -> bool {
        &&& self.wf()
        &&& self@ == buffer.buffer_items()
        &&& self.offset() == 0
        &&& self.kept_beside::<B>(buffer)
        &&& exists|unit: bool| #[trigger]
            tells_unit::<B::Metadata>(unit) && if unit {
                self.has_metadata(None)
            } else {
                self.lends_metadata_of::<B>()
            }
    }

    /// Whether the metadata are those that is lent by what is left of the buffer from which the items
    /// were moved out.
    pub open(crate) spec fn lends_metadata_of<B: BufferMut<S> + BorrowMetadata>(self) -> bool {
        &&& self.data() matches Some(data)
        &&& data.inner().origin matches Some(any)
        &&& self.metadata_spec::<B::Metadata>() == Some(held::<S, B>(any).metadata())
    }

    /// A slice of the items of a buffer, which goes on lending its metadata.
    pub fn from_buffer_with_borrowed_metadata<B: BufferMut<S> + BorrowMetadata>(buffer: B) -> (r:
        Self) where L: AnyBufferLayout
        ensures
            r.made_of_lender::<B>(buffer),
    {
        proof {
            L::lemma_any_buffer();
        }
        let unit: bool = is_unit::<B::Metadata>();
        assert(tells_unit::<B::Metadata>(unit));
        if unit {
            return Self::from_dyn_buffer_impl::<B>(buffer, None);
        }
        Self::from_dyn_buffer_impl::<B>(buffer, Some(AnyMetadata::lent::<S, B>()))
    }

    /// Tries making a slice of the items of a buffer, which goes on lending its metadata.
    pub fn try_from_buffer_with_borrowed_metadata<B: BufferMut<S> + BorrowMetadata>(buffer: B) -> (r:
        Result<Self, B>) where L: AnyBufferLayout
        ensures
            r matches Ok(this) && this.made_of_lender::<B>(buffer),
    {
        Ok(Self::from_buffer_with_borrowed_metadata::<B>(buffer))
    }
}

impl<L: LayoutMut, const UNIQUE: bool> ArcSliceMut<[u8], L, UNIQUE> {
    /// Tries appending the bytes of a string.
    pub fn write_str(&mut self, text: &str) -> (r: Result<(), TryReserveError>)
        requires
            old(self).wf(),
        ensures
            final(self).wf(),
            exists|needs_drop: bool, between: Self|
                drop_answer::<u8>(needs_drop) && #[trigger] old(self).reserved(
                    text.items().len() as int,
                    true,
                    needs_drop,
                    between,
                    r,
                ) && final(self).follows(
                    between,
                    if r is Ok {
                        text.items()
                    } else {
                        Seq::empty()
                    },
                ),
    {
        self.try_extend_from_slice(text.to_slice())
    }

    /// Appends `n` bytes `value`, for which there has to be room.
    pub(crate) fn fill(&mut self, value: u8, n: usize)
        requires
            old(self).wf(),
            n <= old(self).capacity_spec() - old(self)@.len(),
        ensures
            final(self).wf(),
            final(self).follows(*old(self), Seq::new(n as nat, |i: int| value)),
    {
        push_bytes(&mut self.items, value, n);
    }

    /// Appends the first bytes of `buf`, as many as there is room for, and returns their number.
    pub(crate) fn append_items(&mut self, buf: &[u8]) -> (r: usize)
        ensures
            old(self).wf() ==> final(self).wf() && r == if buf@.len() <= old(self).capacity_spec()
                - old(self)@.len() {
                buf@.len() as int
            } else {
                old(self).capacity_spec() - old(self)@.len()
            },
            r <= buf@.len(),
            final(self).follows(*old(self), buf@.take(r as int)),
    {
        let spare: usize = self.capacity.saturating_sub(self.items.len());
        let n: usize = if spare <= buf.len() {
            spare
        } else {
            buf.len()
        };
        copy_items(&mut self.items, slice_subrange(buf, 0, n));
        n
    }

    /// Removes the first `n` bytes.
    pub(crate) fn skip_items(&mut self, n: usize)
        requires
            n <= old(self)@.len(),
        ensures
            final(self)@ == old(self)@.skip(n as int),
            final(self).data() == old(self).data(),
            old(self).wf() ==> final(self).wf() && final(self).capacity_spec()
                == old(self).capacity_spec() - n && final(self).offset() == if final(self).data() is Some {
                old(self).offset() + n
            } else {
                0
            },
    {
        let length: usize = self.items.len();
        shift_left(&mut self.items, n, length - n);
        assert(self.items@ =~= old(self)@.skip(n as int));
        self.capacity = self.capacity.saturating_sub(n);
        if self.data.is_some() {
            self.offset = self.offset.saturating_add(n);
        }
    }
}

impl<T: Send + Sync + 'static, L: LayoutMut, const UNIQUE: bool> core::ops::Deref for ArcSliceMut<
    [T],
    L,
    UNIQUE,
> {
    type Target = [T];

    fn deref(&self) -> (r: &[T])
        ensures
            r@ == self@,
    {
        self.as_items()
    }
}

impl<T: Send + Sync + 'static, L: LayoutMut, const UNIQUE: bool> AsRef<[T]> for ArcSliceMut<
    [T],
    L,
    UNIQUE,
> {
    fn as_ref(&self) -> (r: &[T])
        ensures
            r@ == self@,
    {
        self.as_items()
    }
}

impl<S: Emptyable + ?Sized, L: LayoutMut> Default for ArcSliceMut<S, L, true> {
    fn default() -> (r: Self)
        ensures
            r.wf(),
            r@ == Seq::<S::Item>::empty(),
            r.capacity_spec() == 0,
            r.data() is None,
    {
        Self::new()
    }
}

/// A slice whose items came out of a buffer can be given back as that buffer, unless it was a boxed
/// slice.
pub proof fn law_buffer_is_given_back<S: Slice + ?Sized, L: AnyBufferLayout + LayoutMut, B: BufferMut<S>>(
    slice: ArcSliceMut<S, L, true>,
    buffer: B,
)
    requires
        !(B::class() is Boxed),
        slice.made_of::<B>(buffer),
    ensures
        slice.can_take::<B>(),
        slice@ == buffer.buffer_items(),
{
}

/// The metadata that a mutable slice was made with are there, if their type has more than one value.
pub proof fn law_metadata_are_there<
    S: Slice + ?Sized,
    L: AnyBufferLayout + LayoutMut,
    B: BufferMut<S>,
    M: Send + Sync + 'static,
>(slice: ArcSliceMut<S, L, true>, buffer: B, metadata: M, other: M)
    requires
        slice.made_of_with::<B, M>(buffer, metadata),
        other != metadata,
    ensures
        slice.metadata_spec::<M>() == Some(metadata),
{
    lemma_not_singleton(metadata, other);
}

/// What a slice was cut into covers it: the items, one part after the other, and the room; and the
/// parts do not overlap.
pub proof fn law_cut_covers<S: Slice + ?Sized, L: LayoutMut>(
    whole: ArcSliceMut<S, L, false>,
    at: int,
    first: ArcSliceMut<S, L, false>,
    second: ArcSliceMut<S, L, false>,
)
    requires
        0 <= at <= whole.capacity_spec(),
        is_cut(whole, at, first, second),
    ensures
        first@ + second@ == whole@,
        first.capacity_spec() + second.capacity_spec() == whole.capacity_spec(),
        first.offset() == whole.offset(),
        first.offset() + first.capacity_spec() == second.offset(),
        second.offset() + second.capacity_spec() == whole.offset() + whole.capacity_spec(),
{
    assert(first@ + second@ =~= whole@);
}

/// Joining what a slice was cut into, inside its items, gives back the slice.
pub proof fn law_unsplit_undoes_split<S: Slice + ?Sized, L: LayoutMut>(
    whole: ArcSliceMut<S, L, false>,
    at: int,
    first: ArcSliceMut<S, L, false>,
    second: ArcSliceMut<S, L, false>,
    joined: ArcSliceMut<S, L, false>,
)
    requires
        0 <= at <= whole@.len(),
        is_cut(whole, at, first, second),
        is_join(first, second, joined),
    ensures
        adjoins(first, second),
        joined@ == whole@,
        joined.capacity_spec() == whole.capacity_spec(),
        joined.offset() == whole.offset(),
        joined.data() matches Some(data) && (whole.data() matches Some(before) ==> data.inner()
            == before.inner()),
{
    assert(joined@ =~= whole@);
}

/// A slice that is frozen and made mutable again has the same items at the same place, with all the
/// room that the buffer has behind them.
pub proof fn law_freeze_then_thaw<
    S: Slice + ?Sized,
    L: LayoutMut,
    L2: Layout,
    L3: LayoutMut,
    const UNIQUE: bool,
>(
    slice: ArcSliceMut<S, L, UNIQUE>,
    frozen: ArcSlice<S, L2>,
    thawed: ArcSliceMut<S, L3, true>,
)
    requires
        slice.wf(),
        slice.data() is Some,
        slice.frozen_as(frozen),
        frozen.thawed_as(thawed),
    ensures
        thawed@ == slice@,
        thawed.buffer() == slice.buffer(),
        thawed.offset() == slice.offset(),
        thawed.capacity_spec() >= slice.capacity_spec(),
        thawed.data() matches Some(a) && slice.data() matches Some(b) && a.inner() == b.inner(),
{
}

/// A frozen slice has the metadata that the mutable one had, and a vector is still one.
pub proof fn law_freeze_keeps_buffer<
    S: Slice + ?Sized,
    V: Slice<Item = S::Item> + ?Sized,
    L: LayoutMut,
    L2: Layout,
    const UNIQUE: bool,
    M: Send + Sync + 'static,
>(slice: ArcSliceMut<S, L, UNIQUE>, frozen: ArcSlice<S, L2>)
    requires
        slice.data() is Some,
        slice.frozen_as(frozen),
    ensures
        frozen.metadata_spec::<M>() == slice.metadata_spec::<M>(),
        frozen.vector_of::<V>() == slice.vector_of::<V>(),
        frozen.buffer() == slice.buffer(),
{
    if let Some(data) = slice.data() {
        frozen.lemma_inner::<V, M>(data.inner());
    }
}

/// A slice whose items came out of a buffer, and that was frozen, is given back as that buffer.
pub proof fn law_frozen_buffer_is_given_back<
    S: Slice + ?Sized,
    L: AnyBufferLayout + LayoutMut,
    L2: Layout,
    B: BufferMut<S>,
>(slice: ArcSliceMut<S, L, true>, buffer: B, frozen: ArcSlice<S, L2>)
    requires
        !(B::class() is Vector || B::class() is Boxed),
        slice.made_of::<B>(buffer),
        slice.frozen_as(frozen),
    ensures
        frozen.can_take::<B>(),
        frozen.gives_back::<B>(),
{
    if let Some(data) = slice.data() {
        frozen.lemma_refilled::<B>(data.inner());
    }
}

/// A vector can be given back as a vector after it was frozen.
pub proof fn law_frozen_vector_is_given_back<
    S: Slice + ?Sized,
    L: LayoutMut,
    L2: Layout,
    B: Buffer<S>,
    const UNIQUE: bool,
>(slice: ArcSliceMut<S, L, UNIQUE>, frozen: ArcSlice<S, L2>)
    requires
        B::class() is Vector,
        is_vector(slice.buffer(), 0),
        slice.vector_of::<S>(),
        slice.frozen_as(frozen),
    ensures
        frozen.can_take::<B>(),
{
    law_freeze_keeps_buffer::<S, S, L, L2, UNIQUE, ()>(slice, frozen);
    law_whole_vector_is_given_back::<S, L2, B>(frozen);
}

/// A slice that is made mutable keeps its metadata, and a vector is still one.
pub proof fn law_thaw_keeps_buffer<
    S: Slice + ?Sized,
    V: Slice<Item = S::Item> + ?Sized,
    L: Layout,
    L2: LayoutMut,
    M: Send + Sync + 'static,
>(slice: ArcSlice<S, L>, thawed: ArcSliceMut<S, L2, true>)
    requires
        slice.buffer() is Some,
        slice.thawed_as(thawed),
    ensures
        thawed.metadata_spec::<M>() == slice.metadata_spec::<M>(),
        thawed.vector_of::<V>() == slice.vector_of::<V>(),
        thawed.buffer() == slice.buffer(),
{
    if let Some(inner) = slice.inner() {
        slice.lemma_inner::<V, M>(inner);
    }
}

/// Reserving capacity never changes the items, and an error changes nothing.
pub proof fn law_reserve_keeps_items<S: Slice + ?Sized, L: LayoutMut, const UNIQUE: bool>(
    slice: ArcSliceMut<S, L, UNIQUE>,
    additional: int,
    allocate: bool,
    needs_drop: bool,
    after: ArcSliceMut<S, L, UNIQUE>,
    r: Result<(), TryReserveError>,
)
    requires
        slice.wf(),
        0 <= additional,
        slice.reserved(additional, allocate, needs_drop, after, r),
    ensures
        after@ == slice@,
        r is Err ==> after.unchanged(slice),
        r is Ok ==> after.capacity_spec() - after@.len() >= additional,
        r is Ok && !allocate ==> after.buffer() == slice.buffer(),
{
}

/// Reclaiming capacity of a slice that has the only reference to its buffer succeeds just where it can:
/// there is enough of it, or there is behind the slice, or behind its items once they are at the front of
/// the buffer, where they do not overlap with the place where they were, and do not have to be dropped.
/// The whole buffer is there again after that.
pub proof fn law_reclaim_succeeds_where_it_can<S: Slice + ?Sized, L: LayoutMut, const UNIQUE: bool>(
    slice: ArcSliceMut<S, L, UNIQUE>,
    additional: int,
    needs_drop: bool,
    after: ArcSliceMut<S, L, UNIQUE>,
    r: Result<(), TryReserveError>,
)
    requires
        slice.wf(),
        0 <= additional,
        slice.data() is Some,
        !(slice.data() is Some && slice.data()->0.found_shared()),
        slice.reserved(additional, false, needs_drop, after, r),
    ensures
        ({
            let room = slice.data()->0.inner().room() as int;
            let length = slice@.len();
            let enough = slice.capacity_spec() - length >= additional;
            let behind = room - slice.offset() - length >= additional;
            let in_front = !needs_drop && slice.offset() >= length && room - length >= additional;
            &&& r is Ok <==> enough || behind || in_front
            &&& after@ == slice@
            &&& !enough && behind ==> after.offset() == slice.offset() && after.capacity_spec() == room
                - slice.offset()
            &&& !behind && in_front ==> after.offset() == 0 && after.capacity_spec() == room
        }),
{
    crate::reserve::law_reclaim_succeeds_where_it_can::<S::Item>(
        slice.data()->0.inner().buffer(),
        slice.offset(),
        slice@.len() as int,
        additional,
        false,
        needs_drop,
    );
}

/// A slice without buffer has nothing to reclaim, and gets a buffer when capacity is reserved: for what
/// is asked, or for the smallest number of items that is worth it.
pub proof fn law_reserve_without_buffer<S: Slice + ?Sized, L: LayoutMut, const UNIQUE: bool>(
    slice: ArcSliceMut<S, L, UNIQUE>,
    additional: int,
    allocate: bool,
    needs_drop: bool,
    after: ArcSliceMut<S, L, UNIQUE>,
    r: Result<(), TryReserveError>,
)
    requires
        slice.wf(),
        0 <= additional,
        slice.data() is None,
        slice.reserved(additional, allocate, needs_drop, after, r),
    ensures
        !allocate ==> (r is Ok <==> additional == 0),
        allocate && r is Ok && additional > 0 ==> after.capacity_spec() >= additional && (
        after.capacity_spec() == additional || after.capacity_spec()
            == min_non_zero_cap_spec::<S::Item>()),
        after@ == slice@,
        r is Err ==> after.data() is None,
{
}

/// Reserving capacity does the same, whether or not it may fail.
pub proof fn law_grown_is_reserved<S: Slice + ?Sized, L: LayoutMut>(
    slice: ArcSliceMut<S, L, true>,
    additional: int,
    needs_drop: bool,
    grown: ArcSliceMut<S, L, true>,
    reserved: ArcSliceMut<S, L, true>,
    r: Result<(), TryReserveError>,
)
    requires
        slice.wf(),
        0 <= additional,
        slice.grown(additional, needs_drop, grown),
        slice.reserved(additional, true, needs_drop, reserved, r),
        r is Ok,
    ensures
        grown@ == slice@,
        grown@ == reserved@,
        grown.offset() == reserved.offset(),
        grown.capacity_spec() == reserved.capacity_spec(),
        grown.buffer() == reserved.buffer(),
        grown.capacity_spec() - grown@.len() >= additional,
{
}

/// What is appended comes behind the items, and nothing else changes.
pub proof fn law_appended_items_follow<S: Slice + ?Sized, L: LayoutMut, const UNIQUE: bool>(
    before: ArcSliceMut<S, L, UNIQUE>,
    items: Seq<S::Item>,
    after: ArcSliceMut<S, L, UNIQUE>,
)
    requires
        after.follows(before, items),
    ensures
        after@.len() == before@.len() + items.len(),
        after@.take(before@.len() as int) == before@,
        after@.skip(before@.len() as int) == items,
        after.capacity_spec() == before.capacity_spec(),
        after.offset() == before.offset(),
        after.data() == before.data(),
{
    assert(after@.take(before@.len() as int) =~= before@);
    assert(after@.skip(before@.len() as int) =~= items);
}

/// What a slice was cut into has as many items as come before the cut, and the rest.
pub proof fn law_cut_divides<S: Slice + ?Sized, L: LayoutMut>(
    whole: ArcSliceMut<S, L, false>,
    at: int,
    first: ArcSliceMut<S, L, false>,
    second: ArcSliceMut<S, L, false>,
)
    requires
        0 <= at <= whole.capacity_spec(),
        is_cut(whole, at, first, second),
    ensures
        at <= whole@.len() ==> first@.len() == at && second@.len() == whole@.len() - at,
        at > whole@.len() ==> first@ == whole@ && second@.len() == 0,
        first.capacity_spec() == at,
        first.data() == second.data(),
{
}

/// Two slices that are joined have their items one after the other, and the room of both.
pub proof fn law_join_covers<S: Slice + ?Sized, L: LayoutMut>(
    first: ArcSliceMut<S, L, false>,
    second: ArcSliceMut<S, L, false>,
    whole: ArcSliceMut<S, L, false>,
)
    requires
        adjoins(first, second),
        is_join(first, second, whole),
    ensures
        whole@.take(first@.len() as int) == first@,
        whole@.skip(first@.len() as int) == second@,
        whole.capacity_spec() == first.capacity_spec() + second.capacity_spec(),
        whole.offset() + whole.capacity_spec() == second.offset() + second.capacity_spec(),
        first.offset() + first@.len() == second.offset(),
{
    assert(whole@.take(first@.len() as int) =~= first@);
    assert(whole@.skip(first@.len() as int) =~= second@);
}

/// A frozen slice can be made mutable again, in any layout that supports its buffer.
pub proof fn law_frozen_slice_is_writable<
    S: Slice + ?Sized,
    L: LayoutMut,
    L2: Layout,
    L3: Layout,
    const UNIQUE: bool,
>(slice: ArcSliceMut<S, L, UNIQUE>, frozen: ArcSlice<S, L2>)
    requires
        slice.wf(),
        slice.data() is Some,
        slice.frozen_as(frozen),
        L3::any_buffer() || slice.buffer() matches Some(VTableOrCapacity::Capacity(_)),
    ensures
        frozen.is_writable::<L3>(),
        !frozen.is_foreign(),
        frozen@ == slice@,
{
}

/// The items of a slice of its own, all of them, are moved into an array of as many.
pub proof fn law_own_slice_fills_array<T: Send + Sync + 'static, L: LayoutMut>(
    slice: ArcSliceMut<[T], L, true>,
)
    requires
        slice.kept_with(slice@.len() as int),
    ensures
        slice.fills_array(slice@.len() as int),
        forall|n: int| #[trigger] slice.fills_array(n) ==> n == slice@.len(),
{
}

/// What is left of a vector, wherever it was cut, can be given back as a vector, unless its items have to
/// be dropped.
pub proof fn law_part_of_vector_is_given_back<
    S: Slice + ?Sized,
    L: LayoutMut,
    B: BufferMut<S>,
    const UNIQUE: bool,
>(slice: ArcSliceMut<S, L, UNIQUE>)
    requires
        B::class() is Vector,
        slice.buffer() matches Some(VTableOrCapacity::VTable(vtable)) && vtable.kind is Vector,
        slice.vector_of::<S>(),
    ensures
        slice.can_take::<B>(),
{
}

/// A mutable slice that is made of a buffer has its items.
pub proof fn law_slice_has_items_of_buffer<
    S: Slice + ?Sized,
    L: AnyBufferLayout + LayoutMut,
    B: BufferMut<S>,
    M: Send + Sync + 'static,
>(
    slice: ArcSliceMut<S, L, true>,
    with_metadata: ArcSliceMut<S, L, true>,
    buffer: B,
    metadata: M,
)
    requires
        slice.made_of::<B>(buffer),
        with_metadata.made_of_with::<B, M>(buffer, metadata),
    ensures
        slice@ == buffer.buffer_items(),
        slice.offset() == 0,
        with_metadata@ == buffer.buffer_items(),
        with_metadata.offset() == 0,
{
}

/// What the crate allocated itself suits every layout, and any other buffer just those that support any.
pub proof fn law_mutable_slices_suit_layouts<
    S: Slice + ?Sized,
    L: LayoutMut,
    L2: Layout,
    const UNIQUE: bool,
>(slice: ArcSliceMut<S, L, UNIQUE>)
    ensures
        L2::any_buffer() ==> slice.suits::<L2>(),
        !(slice.buffer() matches Some(VTableOrCapacity::VTable(_))) ==> slice.suits::<L2>(),
        slice.buffer() matches Some(VTableOrCapacity::VTable(_)) && !L2::any_buffer()
            ==> !slice.suits::<L2>(),
{
}

/// A slice without buffer is frozen to one without buffer, where the layout refers to static slices as
/// they are; any other keeps its buffer.
pub proof fn law_frozen_slice_has_its_buffer<
    S: Slice + ?Sized,
    L: LayoutMut,
    L2: Layout,
    const UNIQUE: bool,
>(slice: ArcSliceMut<S, L, UNIQUE>, frozen: ArcSlice<S, L2>)
    requires
        slice.frozen_as(frozen),
    ensures
        frozen@ == slice@,
        slice.buffer() is Some ==> frozen.buffer() == slice.buffer() && frozen.position()
            == slice.offset(),
        slice.buffer() is None && L2::static_data() ==> frozen.buffer() is None,
{
}

/// A slice of its own has just the room that it was made with, from the start of its buffer on.
pub proof fn law_own_slice_has_just_its_room<S: Slice + ?Sized, L: LayoutMut>(
    slice: ArcSliceMut<S, L, true>,
    len: int,
)
    requires
        slice.kept_with(len),
        0 <= len <= usize::MAX,
    ensures
        slice.capacity_spec() == len,
        slice.offset() == 0,
        slice.buffer() is None <==> len == 0,
        slice.buffer() matches Some(buffer) ==> buffer == VTableOrCapacity::Capacity(len as usize),
{
}

} // verus!
