//! Shared buffers.

use crate::buffer::{Buffer, BufferClass, Slice};
use crate::dynamic::{
    answered_unique, behind, can_refill, check_holds, check_tag, holds_some, is_tag, made_by,
    may_be_same_type, refill_with, refills_only, slice_tag, AnyBox, AnyMetadata, ErasedBuffer,
};
use crate::error::{gives, AllocErrorImpl};
use crate::shared::{counted, granted, handles, refused, release, share};
use crate::storage::{
    allocate_slice, array_from_vec, copy_items, extend_with_array, shift_left,
    slice_layout_spec,
};
use crate::vtable::{BufferKind, VTable, VTableOrCapacity};
use std::sync::Arc as StdArc;
use vstd::prelude::*;

verus! {

/// What all the handles of a buffer share: the number of pointers to it is the reference count.
pub struct ArcInner {
    pub(crate) vtable_or_capacity: VTableOrCapacity,
    pub(crate) metadata: Option<AnyMetadata>,
    /// Where the items came from: the type of the slice that a vector is of, or a buffer that the items
    /// were moved out of.
    pub(crate) origin: Option<AnyBox>,
    /// What puts the items back into the buffer that they were moved out of.
    pub(crate) refiller: Option<AnyBox>,
}

impl ArcInner {
    /// What the buffer is.
    pub open(crate) spec fn buffer(self) -> VTableOrCapacity {
        self.vtable_or_capacity
    }

    /// The number of items for which the buffer has room.
    pub open(crate) spec fn room(self) -> usize {
        self.vtable_or_capacity.room_spec()
    }

    /// Whether the buffer is a vector of slices of type `S`.
    pub open(crate) spec fn vector_of<S: Slice + ?Sized>(self) -> bool {
        self.origin matches Some(any) && is_tag::<S>(any)
    }

    /// The metadata of the buffer, if it is of type `M`; `lender` is what may lend it.
    pub open(crate) spec fn metadata_of<M: Send + Sync + 'static>(
        self,
        lender: Option<AnyBox>,
    ) -> Option<M> {
        match self.metadata {
            Some(metadata) => metadata.value::<M>(lender),
            None => None,
        }
    }

    /// A buffer that the crate allocated itself.
    pub(crate) fn new_slice(capacity: usize) -> (r: ArcInner)
        ensures
            r.buffer() == VTableOrCapacity::Capacity(capacity),
            r.metadata is None,
            r.origin is None,
    {
        ArcInner {
            vtable_or_capacity: VTableOrCapacity::Capacity(capacity),
            metadata: None,
            origin: None,
            refiller: None,
        }
    }

    /// A buffer that the crate did not allocate itself.
    pub(crate) fn new_vtable(vtable: VTable) -> (r: ArcInner)
        ensures
            r.buffer() == VTableOrCapacity::VTable(vtable),
            r.metadata is None,
            r.origin is None,
    {
        ArcInner {
            vtable_or_capacity: VTableOrCapacity::VTable(vtable),
            metadata: None,
            origin: None,
            refiller: None,
        }
    }
}

/// The items of a buffer, or of a part of it.
#[verifier::reject_recursive_types(T)]
pub enum Storage<T: Send + Sync + 'static> {
    /// The items themselves.
    Items(Vec<T>),
    /// A buffer that has the items.
    Foreign(ErasedBuffer<T>),
}

impl<T: Send + Sync + 'static> Storage<T> {
    /// The items.
    pub open spec fn items(self) -> Seq<T> {
        match self {
            Storage::Items(items) => items@,
            Storage::Foreign(buffer) => buffer.items(),
        }
    }

    /// Returns the items.
    pub(crate) fn as_items(&self) -> (r: &[T])
        ensures
            r@ == self.items(),
    {
        match self {
            Storage::Items(items) => items.as_slice(),
            Storage::Foreign(buffer) => buffer.as_slice(),
        }
    }
}

/// A shared buffer, or a part of it that is not written to any more.
#[verifier::reject_recursive_types(T)]
pub struct Arc<T: Send + Sync + 'static, const ANY_BUFFER: bool> {
    pub(crate) inner: StdArc<ArcInner>,
    pub(crate) storage: StdArc<Storage<T>>,
    /// The index in the buffer of the first of the items.
    pub(crate) position: usize,
}

impl<T: Send + Sync + 'static, const ANY_BUFFER: bool> Arc<T, ANY_BUFFER> {
    /// The items.
    pub open(crate) spec fn items(self) -> Seq<T> {
        self.storage.items()
    }

    /// What the buffer is.
    pub open(crate) spec fn buffer(self) -> VTableOrCapacity {
        self.inner.buffer()
    }

    /// The index in the buffer of the first of the items.
    pub open(crate) spec fn position(self) -> nat {
        self.position as nat
    }

    /// Whether `buffer` is the buffer that is shared.
    pub open(crate) spec fn holds<S: Slice<Item = T> + ?Sized, B: Buffer<S>>(self, buffer: B) -> bool {
        match *self.storage {
            Storage::Items(_) => false,
            Storage::Foreign(erased) => erased.holds::<S, B>(buffer),
        }
    }

    /// The items fit in the buffer, and the description of the buffer agrees with how the items are
    /// kept.
    pub open(crate) spec fn wf(self) -> bool {
        &&& !ANY_BUFFER ==> self.buffer() is Capacity
        &&& match *self.storage {
            Storage::Items(items) => self.position + items@.len() <= self.inner.room(),
            Storage::Foreign(buffer) => {
                &&& self.buffer() matches VTableOrCapacity::VTable(vtable)
                &&& vtable.kind is Buffer
                &&& self.position == 0
                &&& vtable.mutable ==> buffer.items().len() <= vtable.capacity
            },
        }
    }

    fn from_parts(inner: ArcInner, storage: Storage<T>, position: usize) -> (r: Self)
        ensures
            *r.inner == inner,
            *r.storage == storage,
            r.position == position,
    {
        Arc { inner: StdArc::new(inner), storage: StdArc::new(storage), position }
    }

    /// Items that the crate allocated itself, with room for `capacity` of them.
    pub(crate) fn from_slice_items(items: Vec<T>, capacity: usize) -> (r: Self)
        requires
            items@.len() <= capacity,
        ensures
            r.wf(),
            r.items() == items@,
            r.buffer() == VTableOrCapacity::Capacity(capacity),
            r.position() == 0,
            r.no_metadata(),
            !r.is_foreign(),
    {
        Self::from_parts(ArcInner::new_slice(capacity), Storage::Items(items), 0)
    }

    /// The items are those of another's buffer.
    pub open(crate) spec fn is_foreign(self) -> bool {
        *self.storage is Foreign
    }

    /// What stands beside the buffer.
    pub open(crate) spec fn metadata_is(self, metadata: Option<AnyMetadata>) -> bool {
        self.inner.metadata == metadata
    }

    /// Nothing stands beside the buffer.
    pub open(crate) spec fn no_metadata(self) -> bool {
        self.inner.metadata is None
    }

    /// Copies a slice into a buffer of its own.
    pub fn new<E: AllocErrorImpl>(slice: &[T], needs_drop: bool) -> (r: Result<Self, E>) where T: Copy
        ensures
            match r {
                Ok(arc) => arc.wf() && arc.items() == slice@ && arc.buffer()
                    == VTableOrCapacity::Capacity(slice@.len() as usize) && arc.position()
                    == 0 && arc.no_metadata() && !arc.is_foreign(),
                Err(_) => E::fallible(),
            },
            gives::<T>(
                E::fallible(),
                slice@.len() as usize,
                slice_layout_spec::<T>(slice@.len() as int, needs_drop),
                r is Ok,
            ),
    {
        match allocate_slice::<T, E>(slice.len(), needs_drop) {
            Ok(mut vec) => {
                copy_items(&mut vec, slice);
                assert(vec@ =~= slice@);
                Ok(Self::from_slice_items(vec, slice.len()))
            },
            Err(error) => Err(error),
        }
    }

    /// Moves an array into a buffer of its own.
    pub fn new_array<E: AllocErrorImpl, const N: usize>(array: [T; N], needs_drop: bool) -> (r: Result<
        Self,
        (E, [T; N]),
    >)
        ensures
            match r {
                Ok(arc) => arc.wf() && arc.items() == array@ && arc.buffer()
                    == VTableOrCapacity::Capacity(N) && arc.position() == 0 && arc.no_metadata()
                    && !arc.is_foreign(),
                Err((_, same)) => E::fallible() && same == array,
            },
            gives::<T>(E::fallible(), N, slice_layout_spec::<T>(N as int, needs_drop), r is Ok),
    {
        match allocate_slice::<T, E>(N, needs_drop) {
            Ok(mut vec) => {
                extend_with_array(&mut vec, array);
                assert(vec@ =~= array@);
                Ok(Self::from_slice_items(vec, N))
            },
            Err(error) => Err((error, array)),
        }
    }

    /// What the buffer is.
    pub fn vtable_or_capacity(&self) -> (r: VTableOrCapacity)
        ensures
            r == self.buffer(),
        no_unwind
    {
        self.inner.vtable_or_capacity
    }

    /// Whether there were found to be other handles of the buffer when its items were asked for.
    pub open(crate) spec fn found_shared(self) -> bool {
        refused(self.inner) || refused(self.storage)
    }

    /// Whether it was answered if there are other handles of the buffer, when its items were asked for.
    pub open(crate) spec fn was_answered(self) -> bool {
        self.found_shared() || granted(self.inner) && granted(self.storage)
    }

    /// Whether the handles of the buffer were counted.
    pub open(crate) spec fn was_counted(self) -> bool {
        exists|handles: usize| #[trigger] self.has_handles(handles)
    }

    /// Whether there were found to be `handles` of the buffer.
    pub open(crate) spec fn has_handles(self, handles: usize) -> bool {
        counted(self.inner, handles)
    }

    /// Whether this is the only handle of the buffer. The other handles decide.
    pub fn is_unique(&self) -> (r: bool)
        ensures
            exists|handles: usize| #[trigger] self.has_handles(handles) && r == (handles == 1),
        no_unwind
    {
        let n: usize = handles(&self.inner);
        assert(self.has_handles(n));
        n == 1
    }

    /// Whether `answer` is what another's buffer answered when asked if it is the only reference to its
    /// slice.
    pub open(crate) spec fn answered_unique(self, answer: bool) -> bool {
        *self.storage matches Storage::Foreign(buffer) ==> buffer.answered_unique(answer)
    }

    /// Whether there were found to be `handles` of the buffer, and `buffer_unique` is what another's
    /// buffer said of itself.
    pub open(crate) spec fn was_told(self, handles: usize, buffer_unique: bool) -> bool {
        self.has_handles(handles) && self.answered_unique(buffer_unique)
    }

    /// Whether this is the only reference to the items. The other handles decide, and a buffer that
    /// is shared otherwise.
    pub fn is_buffer_unique(&self) -> (r: bool)
        ensures
            exists|handles: usize, buffer_unique: bool| #[trigger]
                self.was_told(handles, buffer_unique) && r == (handles == 1 && (self.is_foreign()
                    ==> buffer_unique)),
        no_unwind when !self.is_foreign() || !self.was_counted()
    {
        let n: usize = handles(&self.inner);
        assert(self.has_handles(n));
        let buffer_unique: bool = match &*self.storage {
            Storage::Items(_) => true,
            Storage::Foreign(buffer) => buffer.is_unique(),
        };
        assert(self.was_told(n, buffer_unique));
        self.is_unique_given(n, buffer_unique)
    }

    /// Whether this is the only reference to the items, when there are `handles` of the buffer, and
    /// `buffer_unique` is what another's buffer says of itself.
    pub fn is_unique_given(&self, handles: usize, buffer_unique: bool) -> (r: bool)
        ensures
            r == (handles == 1 && (self.is_foreign() ==> buffer_unique)),
        no_unwind
    {
        match &*self.storage {
            Storage::Items(_) => handles == 1,
            Storage::Foreign(_) => handles == 1 && buffer_unique,
        }
    }

    /// One more handle of the buffer.
    pub fn share(&self) -> (r: Self)
        ensures
            r == *self,
    {
        Arc { inner: share(&self.inner), storage: share(&self.storage), position: self.position }
    }

    /// A buffer that the crate allocated itself is told apart from the others.
    pub fn try_into_arc_slice(self) -> (r: Result<Arc<T, false>, Self>)
        requires
            self.wf(),
        ensures
            match r {
                Ok(arc) => self.buffer() is Capacity && arc.wf() && arc.items() == self.items()
                    && arc.buffer() == self.buffer() && arc.position() == self.position(),
                Err(same) => self.buffer() is VTable && same == self,
            },
    {
        match self.vtable_or_capacity() {
            VTableOrCapacity::VTable(_) => Err(self),
            VTableOrCapacity::Capacity(_) => Ok(
                Arc { inner: self.inner, storage: self.storage, position: self.position },
            ),
        }
    }

    /// The items.
    pub(crate) fn as_items(&self) -> (r: &[T])
        ensures
            r@ == self.items(),
    {
        self.storage.as_items()
    }

    /// The metadata of the buffer, if it is of type `M`.
    pub open(crate) spec fn metadata_spec<M: Send + Sync + 'static>(self) -> Option<M> {
        self.inner.metadata_of::<M>(self.lender())
    }

    /// What may lend metadata.
    pub open(crate) spec fn lender(self) -> Option<AnyBox> {
        match *self.storage {
            Storage::Items(_) => self.inner.origin,
            Storage::Foreign(erased) => Some(erased.any()),
        }
    }

    /// Metadata are found only of the type that they are of.
    pub(crate) proof fn lemma_metadata_of_type<M: Send + Sync + 'static, N: Send + Sync + 'static>(self)
        requires
            self.inner.metadata matches Some(metadata) && metadata.is_of::<M>(),
            self.metadata_spec::<N>() is Some,
        ensures
            may_be_same_type::<M, N>(),
    {
        self.inner.metadata->0.lemma_found_of_type::<M, N>(self.lender());
    }

    /// The metadata of the buffer, if it is of type `M`.
    pub fn get_metadata<M: Send + Sync + 'static>(&self) -> (r: Option<&M>)
        ensures
            self.metadata_spec::<M>() == behind(r),
    {
        match &self.inner.metadata {
            Some(metadata) => match &*self.storage {
                Storage::Items(_) => metadata.get::<M>(self.inner.origin.as_ref()),
                Storage::Foreign(erased) => metadata.get::<M>(Some(erased.as_any())),
            },
            None => None,
        }
    }
}

impl<T: Send + Sync + 'static, const ANY_BUFFER: bool> Arc<T, ANY_BUFFER> {
    /// Whether the buffer is a vector of slices of type `S`.
    pub open(crate) spec fn vector_of<S: Slice<Item = T> + ?Sized>(self) -> bool {
        self.inner.vector_of::<S>()
    }

    /// Whether `length` of the items can be given back as a buffer of type `B`, once this is the
    /// only handle.
    ///
    /// A vector is given back whatever part of it is left, and as a boxed slice only if all its room
    /// is taken. Any other buffer is given back whole, and as what it was.
    pub open(crate) spec fn can_take<S: Slice<Item = T> + ?Sized, B: Buffer<S>>(self, length: int) -> bool {
        match self.buffer() {
            VTableOrCapacity::Capacity(_) => false,
            VTableOrCapacity::VTable(vtable) => match vtable.kind {
                BufferKind::Vector => self.vector_of::<S>() && (B::class() is Vector || (
                B::class() is Boxed && length == vtable.capacity)),
                BufferKind::WholeVector => self.vector_of::<S>() && B::class() is Vector && length
                    == self.items().len(),
                BufferKind::Buffer => length == self.items().len() && self.keeps::<S, B>(),
            },
        }
    }

    /// Whether the buffer is of type `B`: it has the items, or they were moved out of it.
    pub open(crate) spec fn keeps<S: Slice<Item = T> + ?Sized, B: Buffer<S>>(self) -> bool {
        match *self.storage {
            Storage::Items(_) => self.position == 0 && (self.inner.origin matches Some(any)
                && holds_some::<S, B>(any)),
            Storage::Foreign(erased) => erased.keeps::<S, B>(),
        }
    }

    /// Whether the items can be put back into the buffer that they were moved out of, and this is a
    /// buffer of type `B`.
    pub open(crate) spec fn can_be_refilled<S: Slice<Item = T> + ?Sized, B: Buffer<S>>(self) -> bool {
        &&& self.inner.origin matches Some(origin)
        &&& can_refill::<T>(self.inner.refiller, origin, self.items())
        &&& refills_only::<S, B>(self.inner.refiller)
    }

    /// Whether `length` of the items are given back as a buffer of type `B`, if this is found to be the
    /// only handle: they are, where they can be, but for items that were moved out of a buffer and
    /// cannot be put back.
    pub open(crate) spec fn gives_back<S: Slice<Item = T> + ?Sized, B: Buffer<S>>(self, length: int) -> bool {
        &&& self.can_take::<S, B>(length)
        &&& !self.is_foreign() && (self.buffer() matches VTableOrCapacity::VTable(vtable)
            && vtable.kind is Buffer) ==> self.can_be_refilled::<S, B>()
    }

    /// Whether the buffer is neither a vector nor one that the crate allocated itself.
    pub open(crate) spec fn is_another(self) -> bool {
        self.buffer() matches VTableOrCapacity::VTable(vtable) && vtable.kind is Buffer
    }

    /// Tells the cases of [`Arc::can_take`] apart, but for the type of another's buffer.
    fn may_take<S: Slice<Item = T> + ?Sized, B: Buffer<S>>(&self, length: usize) -> (r: bool)
        requires
            self.wf(),
        ensures
            self.can_take::<S, B>(length as int) ==> r,
            r && *self.storage is Items ==> self.can_take::<S, B>(length as int),
            r ==> length == self.items().len() || *self.storage is Items,
        no_unwind
    {
        let class = B::buffer_class();
        let is_vector: bool = check_tag::<S>(&self.inner.origin);
        match self.vtable_or_capacity() {
            VTableOrCapacity::Capacity(_) => false,
            VTableOrCapacity::VTable(vtable) => match vtable.kind {
                BufferKind::Vector => match class {
                    BufferClass::Vector => is_vector,
                    BufferClass::Boxed => is_vector && length == vtable.capacity,
                    _ => false,
                },
                BufferKind::WholeVector => match class {
                    BufferClass::Vector => match &*self.storage {
                        Storage::Items(items) => is_vector && length == items.len(),
                        Storage::Foreign(_) => false,
                    },
                    _ => false,
                },
                BufferKind::Buffer => match &*self.storage {
                    Storage::Items(items) => length == items.len() && self.position == 0
                        && check_holds::<S, B>(&self.inner.origin),
                    Storage::Foreign(buffer) => length == buffer.len(),
                },
            },
        }
    }

    /// Gives back `length` of the items, from the one at `offset` on, as a buffer of type `B`.
    ///
    /// Nothing is given back while there are other handles, nor where [`Arc::can_take`] does not
    /// hold. The handle is the only one that is asked with: no other is made before it is answered, as
    /// that may unwind.
    pub fn take_buffer<S: Slice<Item = T> + ?Sized, B: Buffer<S>>(
        self,
        offset: usize,
        length: usize,
    ) -> (r: Result<B, Self>)
        requires
            self.wf(),
            offset + length <= self.items().len(),
            S::valid(self.items().subrange(offset as int, offset + length)),
        ensures
            match r {
                Ok(buffer) => self.can_take::<S, B>(length as int) && buffer.buffer_items()
                    == self.items().subrange(offset as int, offset + length) && (
                self.is_foreign() ==> self.holds::<S, B>(buffer)),
                Err(same) => same.same_as(self) && same.wf() && (self.gives_back::<S, B>(length as int)
                    ==> self.found_shared()),
            },
        no_unwind when !self.was_answered()
    {
        if !self.may_take::<S, B>(length) {
            return Err(self);
        }
        let Arc { inner, storage, position } = self;
        let inner = match release(inner) {
            Ok(inner) => inner,
            Err(inner) => {
                return Err(Arc { inner, storage, position });
            },
        };
        let storage = match release(storage) {
            Ok(storage) => storage,
            Err(storage) => {
                return Err(Arc { inner: StdArc::new(inner), storage, position });
            },
        };
        let refilled: bool = match (&inner.vtable_or_capacity, &storage) {
            (VTableOrCapacity::VTable(vtable), Storage::Items(_)) => match vtable.kind {
                BufferKind::Buffer => true,
                _ => false,
            },
            _ => false,
        };
        let mut inner = inner;
        let storage = if refilled {
            refill_storage(&mut inner, storage)
        } else {
            storage
        };
        if let Storage::Items(_) = &storage {
            if refilled {
                return Err(Self::from_parts(inner, storage, position));
            }
        }
        match take_from_storage::<T, S, B>(storage, offset, length) {
            Ok(buffer) => {
                proof {
                    if self.is_foreign() {
                        assert(self.holds::<S, B>(buffer));
                    }
                    if length == self.items().len() {
                        assert(self.items().subrange(offset as int, offset + length)
                            =~= self.items());
                    }
                }
                Ok(buffer)
            },
            Err(storage) => Err(Self::from_parts(inner, storage, position)),
        }
    }

    /// The same buffer and the same items.
    pub open(crate) spec fn same_as(self, other: Self) -> bool {
        &&& self.buffer() == other.buffer()
        &&& self.inner.metadata == other.inner.metadata
        &&& self.position == other.position
        &&& self.items() == other.items()
        &&& {
            ||| self == other
            ||| !other.is_foreign() && (other.buffer() matches VTableOrCapacity::VTable(vtable)
                && vtable.kind is Buffer)
        }
    }

    /// Moves `length` items, from the one at `offset` on, into an array, if they are all that a
    /// buffer which the crate allocated itself has room for, and if there are as many as the array
    /// takes.
    pub fn take_array<const N: usize>(self, offset: usize, length: usize) -> (r: Result<
        [T; N],
        Self,
    >)
        requires
            self.wf(),
            offset + length <= self.items().len(),
        ensures
            match r {
                Ok(array) => self.buffer() == VTableOrCapacity::Capacity(length) && length == N
                    && array@ == self.items().subrange(offset as int, offset + length),
                Err(same) => same == self && (self.buffer() == VTableOrCapacity::Capacity(length)
                    && length == N ==> self.found_shared()),
            },
        no_unwind when !self.found_shared()
    {
        let whole: bool = match self.vtable_or_capacity() {
            VTableOrCapacity::Capacity(capacity) => length == capacity,
            VTableOrCapacity::VTable(_) => false,
        };
        if !whole || length != N {
            return Err(self);
        }
        let Arc { inner, storage, position } = self;
        let inner = match release(inner) {
            Ok(inner) => inner,
            Err(inner) => {
                return Err(Arc { inner, storage, position });
            },
        };
        let storage = match release(storage) {
            Ok(storage) => storage,
            Err(storage) => {
                return Err(Arc { inner: StdArc::new(inner), storage, position });
            },
        };
        assert(offset == 0 && self.items().len() == length);
        assert(self.items().subrange(0, length as int) =~= self.items());
        match array_from_storage::<T, N>(storage) {
            Ok(array) => Ok(array),
            Err(storage) => Err(Self::from_parts(inner, storage, position)),
        }
    }

    /// The number of items for which there is room from the item at `offset` on, if the buffer can
    /// be written to.
    pub open(crate) spec fn capacity_spec(self, offset: int) -> Option<int> {
        if self.buffer().is_mutable_spec() {
            Some(self.inner.room() - self.position - offset)
        } else {
            None
        }
    }

    /// The number of items for which there is room from the item at `offset` on, if the buffer can
    /// be written to.
    pub fn capacity(&self, offset: usize) -> (r: Option<usize>)
        requires
            self.wf(),
            offset <= self.items().len(),
        ensures
            match r {
                Some(capacity) => self.capacity_spec(offset as int) == Some(capacity as int),
                None => self.capacity_spec(offset as int) is None,
            },
        no_unwind
    {
        if self.inner.vtable_or_capacity.is_mutable() {
            Some(self.inner.vtable_or_capacity.room() - self.position - offset)
        } else {
            None
        }
    }

    /// Takes the handle apart, so that `length` items, from the one at `offset` on, can be written
    /// to: the items, the index of the first of them in the buffer, the number of items for which
    /// there is room from there on, and the rest of the handle.
    ///
    /// The handle comes back while there are others, and where the buffer cannot be written to. It is
    /// the only one that is asked with: no other is made before it is answered, as that may unwind.
    pub(crate) fn into_mut_parts(self, offset: usize, length: usize) -> (r: Result<
        (Vec<T>, usize, usize, ArcInner),
        Self,
    >)
        requires
            self.wf(),
            offset + length <= self.items().len(),
        ensures
            match r {
                Ok((items, start, capacity, inner)) => {
                    &&& items@ == self.items().subrange(offset as int, offset + length)
                    &&& start == self.position + offset
                    &&& self.capacity_spec(offset as int) == Some(capacity as int)
                    &&& inner == *self.inner
                    &&& !self.is_foreign()
                },
                Err(same) => same == self && (self.buffer().is_mutable_spec() && !self.is_foreign()
                    ==> self.found_shared()),
            },
        no_unwind when !self.was_answered()
    {
        match self.capacity(offset) {
            Some(_) => {},
            None => {
                return Err(self);
            },
        }
        let Arc { inner, storage, position } = self;
        let inner = match release(inner) {
            Ok(inner) => inner,
            Err(inner) => {
                return Err(Arc { inner, storage, position });
            },
        };
        let storage = match release(storage) {
            Ok(storage) => storage,
            Err(storage) => {
                return Err(Arc { inner: StdArc::new(inner), storage, position });
            },
        };
        match storage {
            Storage::Items(items) => Ok(writable_parts(inner, items, position, offset, length)),
            Storage::Foreign(buffer) => Err(
                Self::from_parts(inner, Storage::Foreign(buffer), position),
            ),
        }
    }

    /// Gives up the handle.
    pub fn drop_with_unique_hint(self) {
    }
}

/// Puts items back into the buffer that they were moved out of, which then has them; they stay where
/// they are if that is not possible.
fn refill_storage<T: Send + Sync + 'static>(inner: &mut ArcInner, storage: Storage<T>) -> (r: Storage<
    T,
>)
    ensures
        r.items() == storage.items(),
        final(inner).vtable_or_capacity == old(inner).vtable_or_capacity,
        final(inner).metadata == old(inner).metadata,
        match storage {
            Storage::Items(items) => if old(inner).origin matches Some(origin) && can_refill::<T>(
                old(inner).refiller,
                origin,
                items@,
            ) {
                r matches Storage::Foreign(erased) && (old(inner).refiller matches Some(any)
                    && made_by::<T>(any, erased))
            } else {
                r == storage && *final(inner) == *old(inner)
            },
            Storage::Foreign(_) => r == storage && *final(inner) == *old(inner),
        },
{
    match storage {
        Storage::Items(items) => match inner.origin.take() {
            Some(origin) => match refill_with(&inner.refiller, origin, items) {
                Ok(buffer) => Storage::Foreign(buffer),
                Err((origin, items)) => {
                    inner.origin = Some(origin);
                    Storage::Items(items)
                },
            },
            None => Storage::Items(items),
        },
        Storage::Foreign(buffer) => Storage::Foreign(buffer),
    }
}

/// Gives back `length` of the items of a storage, from the one at `offset` on, as a buffer of type
/// `B`: items, where `B` can be made from them; another's buffer as what it was, if it is whole.
pub fn take_from_storage<T: Send + Sync + 'static, S: Slice<Item = T> + ?Sized, B: Buffer<S>>(
    storage: Storage<T>,
    offset: usize,
    length: usize,
) -> (r: Result<B, Storage<T>>)
    requires
        offset + length <= storage.items().len(),
        S::valid(storage.items().subrange(offset as int, offset + length)),
        storage is Items ==> B::class().is_owned_items(),
        storage is Foreign ==> length == storage.items().len(),
    ensures
        match (storage, r) {
            (Storage::Items(items), Ok(buffer)) => buffer.buffer_items() == items@.subrange(
                offset as int,
                offset + length,
            ),
            (Storage::Items(items), Err(_)) => false,
            (Storage::Foreign(erased), Ok(buffer)) => erased.keeps::<S, B>() && erased.holds::<S, B>(
                buffer,
            ) && buffer.buffer_items() == erased.items(),
            (Storage::Foreign(erased), Err(same)) => same == storage && !erased.keeps::<S, B>(),
        },
    no_unwind when B::is_items() && storage is Items && offset == 0 && length == storage.items().len()
{
    match storage {
        Storage::Items(mut items) => {
            shift_left(&mut items, offset, length);
            match B::from_items(items) {
                Ok(buffer) => Ok(buffer),
                Err(items) => Err(Storage::Items(items)),
            }
        },
        Storage::Foreign(erased) => match erased.take::<S, B>() {
            Ok(buffer) => Ok(buffer),
            Err(erased) => Err(Storage::Foreign(erased)),
        },
    }
}

/// Moves the items of a storage into an array, if it has them itself, and as many as the array takes.
pub fn array_from_storage<T: Send + Sync + 'static, const N: usize>(storage: Storage<T>) -> (r: Result<
    [T; N],
    Storage<T>,
>)
    ensures
        match storage {
            Storage::Items(items) => if items@.len() == N {
                r matches Ok(array) && array@ == items@
            } else {
                r == Err::<[T; N], Storage<T>>(storage)
            },
            Storage::Foreign(_) => r == Err::<[T; N], Storage<T>>(storage),
        },
    no_unwind
{
    match storage {
        Storage::Items(items) => match array_from_vec::<T, N>(items) {
            Ok(array) => Ok(array),
            Err(items) => Err(Storage::Items(items)),
        },
        Storage::Foreign(buffer) => Err(Storage::Foreign(buffer)),
    }
}

/// Takes items apart that nothing else refers to, in a buffer that can be written to: `length` of
/// them, from the one at `offset` on, the index of the first of them in the buffer, and the number of
/// items for which there is room from there on.
pub fn writable_parts<T: Send + Sync + 'static>(
    inner: ArcInner,
    items: Vec<T>,
    position: usize,
    offset: usize,
    length: usize,
) -> (r: (Vec<T>, usize, usize, ArcInner))
    requires
        offset + length <= items@.len(),
        position + items@.len() <= inner.room(),
    ensures
        r.0@ == items@.subrange(offset as int, offset + length),
        r.1 == position + offset,
        r.2 == inner.room() - position - offset,
        r.3 == inner,
    no_unwind when offset == 0 && length == items@.len()
{
    let mut items = items;
    shift_left(&mut items, offset, length);
    let room: usize = inner.vtable_or_capacity.room();
    (items, position + offset, room - position - offset, inner)
}

impl<T: Send + Sync + 'static> Arc<T, true> {
    /// Shares a vector, with room for `capacity` items.
    ///
    /// `direct` says whether the slice that is made of it refers to it as it is.
    pub fn new_vec<S: Slice<Item = T> + ?Sized>(
        items: Vec<T>,
        capacity: usize,
        direct: bool,
        needs_drop: bool,
    ) -> (r: Self)
        requires
            items@.len() <= capacity,
        ensures
            r.wf(),
            r.items() == items@,
            r.buffer() == VTableOrCapacity::VTable(
                VTable::new_vec_spec(needs_drop && !direct, capacity),
            ),
            r.position() == 0,
            r.vector_of::<S>(),
            r.no_metadata(),
            !r.is_foreign(),
    {
        let mut inner = ArcInner::new_vtable(VTable::new_vec(needs_drop && !direct, capacity));
        inner.origin = Some(slice_tag::<S>());
        Self::from_parts(inner, Storage::Items(items), 0)
    }

    /// Shares a buffer, with metadata beside it.
    pub fn new_buffer<S: Slice<Item = T> + ?Sized, B: Buffer<S>>(buffer: B, metadata: Option<AnyMetadata>) -> (r: Self)
        ensures
            r.wf(),
            r.items() == buffer.buffer_items(),
            r.buffer() == VTableOrCapacity::VTable(
                VTable {
                    kind: BufferKind::Buffer,
                    mutable: false,
                    resizable: false,
                    capacity: 0,
                },
            ),
            r.position() == 0,
            forall|other: B| #[trigger] r.holds::<S, B>(other) <==> other == buffer,
            r.keeps::<S, B>(),
            r.is_foreign(),
            forall|answer: bool| #[trigger]
                r.answered_unique(answer) == answered_unique::<S, B>(buffer, answer),
            r.metadata_is(metadata),
    {
        let mut inner = ArcInner::new_vtable(VTable::new());
        inner.metadata = metadata;
        Self::from_parts(inner, Storage::Foreign(ErasedBuffer::new::<S, B>(buffer)), 0)
    }
}

} // verus!
