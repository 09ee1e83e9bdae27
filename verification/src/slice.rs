//! Shared slices.

use crate::arc::{Arc, ArcInner, Storage};
use crate::buffer::{
    drop_answer, BorrowMetadata, Buffer, BufferClass, BufferParts, Emptyable, RawBuffer, Slice,
    Subsliceable,
};
use crate::dynamic::{
    answered_unique, any_holds, behind, can_refill, holds_some, is_unit, lemma_not_singleton,
    may_be_same_type, refills_only, tells_unit, AnyBox, AnyMetadata,
};
use crate::error::{AllocError, AllocErrorImpl};
use crate::layout::{AnyBufferLayout, DefaultLayout, FromLayout, Layout, StaticLayout};
use crate::borrow::ArcSliceBorrow;
use crate::storage::allocation;
use crate::utils::{
    found_at, is_cut_point, law_found_part_stands_there, offset_len, offset_len_spec,
    offset_len_subslice, part_offset, stand_at, RangeBounds, RangeError,
};
use crate::vtable::{BufferKind, VTable, VTableOrCapacity};
use core::convert::Infallible;
use core::marker::PhantomData;
use vstd::prelude::*;
use vstd::slice::slice_subrange;

verus! {

/// Which of the items of a buffer make up a slice.
#[derive(Clone, Copy)]
pub(crate) struct Window {
    pub(crate) offset: usize,
    pub(crate) length: usize,
    /// Where the items of a static slice began in the slice that it was cut from.
    pub(crate) base: usize,
}

/// What a slice refers to.
#[verifier::reject_recursive_types(S)]
pub(crate) enum Data<S: Slice + ?Sized> {
    /// A slice that lives as long as the program.
    Static(&'static S),
    /// A shared buffer.
    Arc(Arc<S::Item, true>),
}

impl<S: Slice + ?Sized> Data<S> {
    pub(crate) open spec fn items(self) -> Seq<S::Item> {
        match self {
            Data::Static(slice) => slice.items(),
            Data::Arc(arc) => arc.items(),
        }
    }

    pub(crate) open spec fn wf<L: Layout>(self) -> bool {
        match self {
            Data::Static(_) => L::static_data(),
            Data::Arc(arc) => arc.wf() && (!L::any_buffer() ==> arc.buffer() is Capacity),
        }
    }

    pub(crate) open spec fn same_as(self, other: Self) -> bool {
        match (self, other) {
            (Data::Static(a), Data::Static(b)) => a == b,
            (Data::Arc(a), Data::Arc(b)) => a.same_as(b),
            _ => false,
        }
    }

    fn share(&self) -> (r: Self)
        ensures
            r == *self,
    {
        match self {
            Data::Static(slice) => Data::Static(slice),
            Data::Arc(arc) => Data::Arc(arc.share()),
        }
    }

    fn as_items(&self) -> (r: &[S::Item])
        ensures
            r@ == self.items(),
    {
        match self {
            Data::Static(slice) => slice.to_slice(),
            Data::Arc(arc) => arc.as_items(),
        }
    }
}

/// A slice that lives as long as the program and has no item.
fn empty_slice<S: Slice + ?Sized>() -> (r: &'static S)
    requires
        S::valid(Seq::empty()),
    ensures
        r.items() == Seq::<S::Item>::empty(),
{
    let items: &'static [S::Item] = &[];
    assert(items@ =~= Seq::empty());
    S::from_slice_unchecked(items)
}

/// A shared slice: a part of a buffer that is reference-counted, or that lives as long as the
/// program.
///
/// Cloning it, or taking a subslice of it, shares the buffer.
#[verifier::reject_recursive_types(S)]
#[verifier::reject_recursive_types(L)]
pub struct ArcSlice<S: Slice + ?Sized, L: Layout = DefaultLayout> {
    data: Data<S>,
    window: Window,
    layout: PhantomData<L>,
}

impl<S: Slice + ?Sized, L: Layout> ArcSlice<S, L> {
    /// What every value of the type satisfies.
    #[verifier::type_invariant]
    pub closed spec fn wf(self) -> bool {
        &&& self.data.wf::<L>()
        &&& self.window.offset + self.window.length <= self.data.items().len()
        &&& self.window.offset + self.window.length <= usize::MAX
        &&& self.data is Static ==> self.window.base + self.window.offset + self.window.length
            <= usize::MAX
        &&& S::valid(self.view())
    }

    /// The items of the slice.
    pub closed spec fn view(self) -> Seq<S::Item> {
        self.data.items().subrange(
            self.window.offset as int,
            self.window.offset + self.window.length,
        )
    }

    /// Whether the slice lives as long as the program.
    pub open spec fn is_static(self) -> bool {
        self.buffer() is None
    }

    /// What the buffer is that the slice shares.
    pub closed spec fn buffer(self) -> Option<VTableOrCapacity> {
        match self.data {
            Data::Static(_) => None,
            Data::Arc(arc) => Some(arc.buffer()),
        }
    }

    /// The buffer that the slice shares.
    pub closed spec fn inner(self) -> Option<ArcInner> {
        match self.data {
            Data::Static(_) => None,
            Data::Arc(arc) => Some(*arc.inner),
        }
    }

    /// The index of the first item in the buffer, or in the slice that a static one was cut from.
    pub closed spec fn position(self) -> int {
        match self.data {
            Data::Static(_) => self.window.base + self.window.offset,
            Data::Arc(arc) => arc.position() + self.window.offset,
        }
    }

    /// Whether the buffer is a vector of slices of type `V`.
    pub closed spec fn vector_of<V: Slice<Item = S::Item> + ?Sized>(self) -> bool {
        match self.data {
            Data::Static(_) => false,
            Data::Arc(arc) => arc.vector_of::<V>(),
        }
    }

    /// Whether the slice shares `buffer`, which is kept as it is.
    pub closed spec fn holds<B: Buffer<S>>(self, buffer: B) -> bool {
        match self.data {
            Data::Static(_) => false,
            Data::Arc(arc) => arc.holds::<S, B>(buffer),
        }
    }

    /// The same items, of the same buffer.
    pub closed spec fn same_as(self, other: Self) -> bool {
        self.data.same_as(other.data) && self.window == other.window
    }

    /// The same items, of the same buffer, whatever the type of the slice and its layout.
    pub closed spec fn kept_in<S2: Slice<Item = S::Item> + ?Sized, L2: Layout>(
        self,
        other: ArcSlice<S2, L2>,
    ) -> bool {
        match (self.data, other.data) {
            (Data::Static(_), Data::Static(_)) => self@ == other@ && self.position()
                == other.position(),
            (Data::Arc(a), Data::Arc(b)) => a == b && self.window == other.window,
            _ => false,
        }
    }

    /// The metadata of the buffer, if it is of type `M`.
    pub closed spec fn metadata_spec<M: Send + Sync + 'static>(self) -> Option<M> {
        match self.data {
            Data::Static(_) => None,
            Data::Arc(arc) => arc.metadata_spec::<M>(),
        }
    }

    /// Whether it was answered if there are other handles of the buffer, when it was asked for.
    pub closed spec fn was_answered(self) -> bool {
        match self.data {
            Data::Static(_) => true,
            Data::Arc(arc) => arc.was_answered(),
        }
    }

    /// What was found to be shared was answered.
    pub(crate) proof fn lemma_found_shared(self)
        requires
            self.found_shared(),
        ensures
            self.was_answered(),
    {
    }

    /// Whether the handles of the buffer were counted.
    pub closed spec fn was_counted(self) -> bool {
        match self.data {
            Data::Static(_) => true,
            Data::Arc(arc) => arc.was_counted(),
        }
    }

    /// Whether another's buffer is of type `B`: it has the items, or they were moved out of it.
    pub closed spec fn keeps<B: Buffer<S>>(self) -> bool {
        match self.data {
            Data::Static(_) => false,
            Data::Arc(arc) => arc.keeps::<S, B>(),
        }
    }

    /// Whether the slice is a buffer of type `B` underneath, which is given back if nothing else
    /// refers to it.
    ///
    /// A slice that lives as long as the program is given back as what it is, or as an empty vector if
    /// it has no item. A vector is given back whatever part of it is left, unless its items have to be
    /// dropped, and as a boxed slice only if all its room is taken. Any other buffer is given back whole,
    /// and as what it was.
    pub open spec fn can_take<B: Buffer<S>>(self) -> bool {
        match self.buffer() {
            None => B::class() is Static || (B::class().is_owned_items() && self@.len() == 0),
            Some(VTableOrCapacity::Capacity(_)) => false,
            Some(VTableOrCapacity::VTable(vtable)) => match vtable.kind {
                BufferKind::Vector => self.vector_of::<S>() && (B::class() is Vector || (
                B::class() is Boxed && self@.len() == vtable.capacity)),
                BufferKind::WholeVector => self.vector_of::<S>() && B::class() is Vector
                    && self.is_whole(),
                BufferKind::Buffer => self.is_whole() && self.keeps::<B>(),
            },
        }
    }

    /// Whether there were found to be other handles of the buffer when it was asked for.
    pub closed spec fn found_shared(self) -> bool {
        match self.data {
            Data::Static(_) => false,
            Data::Arc(arc) => arc.found_shared(),
        }
    }

    /// Whether the items can be put back into the buffer that they were moved out of, and this is a
    /// buffer of type `B`.
    pub closed spec fn can_be_refilled<B: Buffer<S>>(self) -> bool {
        match self.data {
            Data::Static(_) => false,
            Data::Arc(arc) => arc.can_be_refilled::<S, B>(),
        }
    }

    /// Whether the buffer is neither a vector nor one that the crate allocated itself.
    pub open spec fn is_another(self) -> bool {
        self.buffer() matches Some(VTableOrCapacity::VTable(vtable)) && vtable.kind is Buffer
    }

    /// Whether the slice is given back as a buffer of type `B`, if this is found to be the only handle:
    /// it is, where it can be, but for items that were moved out of a buffer and cannot be put back.
    pub open spec fn gives_back<B: Buffer<S>>(self) -> bool {
        &&& self.can_take::<B>()
        &&& self.is_another() && !self.is_foreign() ==> self.can_be_refilled::<B>()
    }

    /// Whether the slice is all of what it shares.
    pub closed spec fn is_whole(self) -> bool {
        self.window.offset == 0 && self.window.length == self.data.items().len()
    }

    /// Nothing stands beside the buffer.
    pub closed spec fn no_metadata(self) -> bool {
        match self.data {
            Data::Static(_) => true,
            Data::Arc(arc) => arc.no_metadata(),
        }
    }

    /// What is known of the buffer, if the slice has the items itself.
    pub(crate) proof fn lemma_inner<V: Slice<Item = S::Item> + ?Sized, M: Send + Sync + 'static>(
        self,
        inner: ArcInner,
    )
        requires
            self.inner() == Some(inner),
            !self.is_foreign(),
        ensures
            self.buffer() == Some(inner.buffer()),
            self.vector_of::<V>() == inner.vector_of::<V>(),
            self.metadata_spec::<M>() == inner.metadata_of::<M>(inner.origin),
    {
    }

    /// Items that were moved out of a buffer, and are all there, can be put back into it.
    pub(crate) proof fn lemma_refilled<B: Buffer<S>>(self, inner: ArcInner)
        requires
            self.inner() == Some(inner),
            !self.is_foreign(),
            self.is_whole(),
            self.position() == 0,
            inner.origin matches Some(origin) && holds_some::<S, B>(origin) && can_refill::<S::Item>(
                inner.refiller,
                origin,
                self@,
            ),
            refills_only::<S, B>(inner.refiller),
        ensures
            self.keeps::<B>(),
            self.can_be_refilled::<B>(),
    {
        assert(self@ =~= self.data.items());
    }

    /// A slice of which everything is known.
    pub(crate) fn init(offset: usize, length: usize, data: Data<S>) -> (r: Self)
        requires
            data.wf::<L>(),
            offset + length <= data.items().len(),
            offset + length <= usize::MAX,
            S::valid(data.items().subrange(offset as int, offset + length)),
        ensures
            r@ == data.items().subrange(offset as int, offset + length),
            r.data_is(data),
            r.window_is(offset as int, length as int),
            r.position() == match data {
                Data::Static(_) => offset as int,
                Data::Arc(arc) => arc.position() + offset,
            },
    {
        ArcSlice { data, window: Window { offset, length, base: 0 }, layout: PhantomData }
    }

    pub(crate) closed spec fn window_is(self, offset: int, length: int) -> bool {
        self.window.offset == offset && self.window.length == length
    }

    pub(crate) closed spec fn data_is(self, data: Data<S>) -> bool {
        self.data == data
    }
}

/// How a slice made of `len` items of its own is kept: an empty one needs no buffer, if the layout
/// refers to static slices as they are.
pub open spec fn kept_as<L: Layout>(len: int) -> Option<VTableOrCapacity> {
    if L::static_data() && len == 0 {
        None
    } else {
        Some(VTableOrCapacity::Capacity(len as usize))
    }
}

/// How a vector of `len` items with room for `capacity` is kept: it is given back in part if the layout
/// refers to it as it is, or if its items do not have to be dropped.
pub open spec fn vector_kept<S: Slice + ?Sized, L: Layout>(
    buffer: Option<VTableOrCapacity>,
    len: int,
    capacity: int,
) -> bool {
    exists|needs_drop: bool| #[trigger]
        drop_answer::<S::Item>(needs_drop) && buffer == Some(
            VTableOrCapacity::VTable(
                VTable::new_vec_spec(
                    needs_drop && !L::direct_vec(len, capacity),
                    capacity as usize,
                ),
            ),
        )
}

/// Whether a buffer is a vector with room for at least `len` items.
pub open spec fn is_vector(buffer: Option<VTableOrCapacity>, len: int) -> bool {
    buffer matches Some(VTableOrCapacity::VTable(vtable)) && !(vtable.kind is Buffer) && len
        <= vtable.capacity
}

/// The description of another's buffer that can only be read.
pub open spec fn read_only_buffer() -> Option<VTableOrCapacity> {
    Some(
        VTableOrCapacity::VTable(
            VTable { kind: BufferKind::Buffer, mutable: false, resizable: false, capacity: 0 },
        ),
    )
}

impl<S: Slice + ?Sized, L: Layout> ArcSlice<S, L> {
    /// Whether the slice is all of a buffer of its own, which has room for just `len` items.
    pub open spec fn kept_own(self, len: int) -> bool {
        &&& self.buffer() == kept_as::<L>(len)
        &&& self.is_whole()
        &&& self.position() == 0
        &&& self.no_metadata()
        &&& !self.is_foreign()
    }

    /// Whether the slice is all of a vector with room for `capacity` items: without any it needs no
    /// buffer, if the layout refers to static slices as they are.
    pub open spec fn is_vec_with(self, capacity: int) -> bool {
        &&& self@.len() <= capacity <= usize::MAX
        &&& self.is_whole()
        &&& self.position() == 0
        &&& self.no_metadata()
        &&& !self.is_foreign()
        &&& if capacity == 0 && L::static_data() {
            self.buffer() is None
        } else {
            vector_kept::<S, L>(self.buffer(), self@.len() as int, capacity) && self.vector_of::<S>()
        }
    }

    /// The slice without items that the layout refers to as it is, if `length` is zero; it began at
    /// `base` in the slice that it was cut from.
    fn new_empty(length: usize, base: usize) -> (r: Option<Self>)
        requires
            length == 0 ==> S::valid(Seq::empty()),
        ensures
            match r {
                Some(slice) => L::static_data() && length == 0 && slice@ == Seq::<S::Item>::empty()
                    && slice.is_static() && slice.buffer() is None && slice.is_whole()
                    && slice.no_metadata() && !slice.is_foreign() && slice.position() == base,
                None => !L::static_data() || length != 0,
            },
    {
        if L::supports_static_data() && length == 0 {
            let data = Data::Static(empty_slice::<S>());
            assert(data.items().subrange(0, 0) =~= Seq::empty());
            Some(
                ArcSlice {
                    data,
                    window: Window { offset: 0, length: 0, base },
                    layout: PhantomData,
                },
            )
        } else {
            None
        }
    }

    /// A new empty slice.
    pub fn new() -> (r: Self) where S: Emptyable, L: StaticLayout
        ensures
            r@ == Seq::<S::Item>::empty(),
            r.is_static(),
            r.buffer() is None,
            r.no_metadata(),
            r.position() == 0,
    {
        proof {
            S::lemma_empty_valid();
            L::lemma_static_data();
        }
        let data = Data::Static(empty_slice::<S>());
        assert(data.items().subrange(0, 0) =~= Seq::empty());
        Self::init(0, 0, data)
    }

    pub(crate) fn from_arc(arc: Arc<S::Item, true>) -> (r: Self)
        requires
            arc.wf(),
            !L::any_buffer() ==> arc.buffer() is Capacity,
            S::valid(arc.items()),
        ensures
            r@ == arc.items(),
            r.buffer() == Some(arc.buffer()),
            r.inner() == Some(*arc.inner),
            r.is_foreign() == arc.is_foreign(),
            r.position() == arc.position(),
            r.is_whole(),
            r.no_metadata() == arc.no_metadata(),
            r.vector_of::<S>() == arc.vector_of::<S>(),
            r.data_is(Data::Arc(arc)),
    {
        let length: usize = arc.as_items().len();
        assert(arc.items().subrange(0, length as int) =~= arc.items());
        Self::init(0, length, Data::Arc(arc))
    }

    /// A slice without items, of which nothing but the layout says how it is kept.
    pub(crate) fn without_buffer() -> (r: Self)
        requires
            S::valid(Seq::empty()),
        ensures
            r@ == Seq::<S::Item>::empty(),
            r.buffer() == if L::static_data() {
                None
            } else if L::any_buffer() {
                read_only_buffer()
            } else {
                Some(VTableOrCapacity::Capacity(0))
            },
    {
        if let Some(empty) = Self::new_empty(0, 0) {
            return empty;
        }
        if L::supports_any_buffer() {
            let empty: &'static S = empty_slice::<S>();
            return Self::from_arc(
                Arc::<S::Item, true>::new_buffer::<S, &'static S>(empty, None),
            );
        }
        let empty: [S::Item; 0] = [];
        assert(empty@ =~= Seq::empty());
        match Self::from_array_impl::<Infallible, 0>(empty) {
            Ok(this) => this,
            Err(_) => vstd::pervasive::unreached(),
        }
    }

    /// Whether the slice can be written to, in layout `L2`, once nothing else refers to its buffer.
    pub open spec fn is_writable<L2: Layout>(self) -> bool {
        match self.buffer() {
            None => self@.len() == 0,
            Some(buffer) => buffer.is_mutable_spec() && (buffer is Capacity || L2::any_buffer()),
        }
    }

    /// Takes the slice apart, so that its items can be written to: the items, the index of the first
    /// of them in the buffer, the number of items for which there is room from there on, and the
    /// buffer.
    pub(crate) fn into_mut_parts<L2: Layout>(self) -> (r: Result<
        (Vec<S::Item>, usize, usize, Option<ArcInner>),
        Self,
    >)
        ensures
            match r {
                Ok((items, offset, capacity, inner)) => {
                    &&& items@ == self@
                    &&& S::valid(items@)
                    &&& self.is_writable::<L2>()
                    &&& items@.len() <= capacity
                    &&& match inner {
                        None => self.buffer() is None && offset == 0 && capacity == 0,
                        Some(inner) => self.buffer() == Some(inner.buffer()) && self.inner() == Some(
                            inner,
                        ) && !self.is_foreign() && offset == self.position() && offset + capacity
                            == inner.room(),
                    }
                },
                Err(same) => same == self && (self.is_writable::<L2>() && !self.is_foreign()
                    ==> self.found_shared()),
            },
        no_unwind when !self.is_static() && !self.was_answered()
    {
        proof {
            use_type_invariant(&self);
        }
        let ArcSlice { data, window, layout } = self;
        match data {
            Data::Static(slice) => if window.length == 0 {
                let items: Vec<S::Item> = Vec::new();
                assert(items@ =~= self@);
                Ok((items, 0, 0, None))
            } else {
                Err(ArcSlice { data: Data::Static(slice), window, layout })
            },
            Data::Arc(arc) => {
                let supported: bool = match arc.vtable_or_capacity() {
                    VTableOrCapacity::Capacity(_) => true,
                    VTableOrCapacity::VTable(_) => L2::supports_any_buffer(),
                };
                if !supported {
                    return Err(ArcSlice { data: Data::Arc(arc), window, layout });
                }
                match arc.into_mut_parts(window.offset, window.length) {
                    Ok((items, offset, capacity, inner)) => Ok(
                        (items, offset, capacity, Some(inner)),
                    ),
                    Err(arc) => Err(ArcSlice { data: Data::Arc(arc), window, layout }),
                }
            },
        }
    }

    pub(crate) fn from_slice_impl<E: AllocErrorImpl>(slice: &S) -> (r: Result<Self, E>) where
        S::Item: Copy,

        ensures
            match r {
                Ok(this) => this@ == slice.items() && this.kept_own(slice.items().len() as int),
                Err(_) => E::fallible() && kept_as::<L>(slice.items().len() as int) is Some,
            },
            kept_as::<L>(slice.items().len() as int) is Some ==> allocation::<S::Item, E>(
                slice.items().len() as int,
                r is Ok,
            ),
    {
        proof {
            slice.lemma_items_valid();
        }
        let length: usize = slice.to_slice().len();
        if length == 0 {
            assert(slice.items() =~= Seq::empty());
        }
        if let Some(empty) = Self::new_empty(length, 0) {
            return Ok(empty);
        }
        let needs_drop: bool = S::needs_drop();
        assert(drop_answer::<S::Item>(needs_drop));
        match Arc::<S::Item, true>::new::<E>(slice.to_slice(), needs_drop) {
            Ok(arc) => Ok(Self::from_arc(arc)),
            Err(error) => Err(error),
        }
    }

    /// Copies a slice.
    pub fn from_slice(slice: &S) -> (r: Self) where S::Item: Copy
        ensures
            r@ == slice.items(),
            r.kept_own(slice.items().len() as int),
    {
        match Self::from_slice_impl::<Infallible>(slice) {
            Ok(this) => this,
            Err(_) => vstd::pervasive::unreached(),
        }
    }

    /// Tries copying a slice, returning an error if an allocation fails.
    pub fn try_from_slice(slice: &S) -> (r: Result<Self, AllocError>) where S::Item: Copy
        ensures
            match r {
                Ok(this) => this@ == slice.items() && this.kept_own(slice.items().len() as int),
                Err(_) => kept_as::<L>(slice.items().len() as int) is Some,
            },
            kept_as::<L>(slice.items().len() as int) is Some ==> allocation::<S::Item, AllocError>(
                slice.items().len() as int,
                r is Ok,
            ),
    {
        Self::from_slice_impl::<AllocError>(slice)
    }

    pub(crate) fn from_array_impl<E: AllocErrorImpl, const N: usize>(array: [S::Item; N]) -> (r:
        Result<Self, (E, [S::Item; N])>)
        requires
            S::valid(array@),
        ensures
            match r {
                Ok(this) => this@ == array@ && this.kept_own(N as int),
                Err((_, same)) => E::fallible() && same == array && kept_as::<L>(N as int) is Some,
            },
            kept_as::<L>(N as int) is Some ==> allocation::<S::Item, E>(N as int, r is Ok),
    {
        if N == 0 {
            assert(array@ =~= Seq::empty());
        }
        if let Some(empty) = Self::new_empty(N, 0) {
            return Ok(empty);
        }
        let needs_drop: bool = S::needs_drop();
        assert(drop_answer::<S::Item>(needs_drop));
        match Arc::<S::Item, true>::new_array::<E, N>(array, needs_drop) {
            Ok(arc) => Ok(Self::from_arc(arc)),
            Err(error) => Err(error),
        }
    }

    /// Shares a vector of items, with room for `capacity` items.
    pub(crate) fn from_items_impl(items: Vec<S::Item>, capacity: usize) -> (r: Self)
        requires
            L::any_buffer(),
            items@.len() <= capacity,
            S::valid(items@),
        ensures
            r@ == items@,
            r.is_vec_with(capacity as int),
    {
        if capacity == 0 {
            assert(items@ =~= Seq::empty());
        }
        if let Some(empty) = Self::new_empty(capacity, 0) {
            return empty;
        }
        let direct: bool = L::supports_direct_vec(items.len(), capacity);
        let needs_drop: bool = S::needs_drop();
        assert(drop_answer::<S::Item>(needs_drop));
        Self::from_arc(Arc::new_vec::<S>(items, capacity, direct, needs_drop))
    }

    /// Shares a vector.
    pub(crate) fn from_vec(vec: S::Vec) -> (r: Self)
        requires
            L::any_buffer(),
        ensures
            r@ == S::vec_items(vec),
            exists|capacity: int| #[trigger] r.is_vec_with(capacity),
    {
        proof {
            S::lemma_vec_valid(vec);
        }
        let capacity: usize = S::vec_capacity(&vec);
        Self::from_items_impl(S::into_vec(vec), capacity)
    }

    /// Moves the items of a vector into a buffer of its own.
    pub(crate) fn from_items_own(items: Vec<S::Item>) -> (r: Self)
        requires
            S::valid(items@),
        ensures
            r@ == items@,
            r.kept_own(items@.len() as int),
    {
        let length: usize = items.len();
        if length == 0 {
            assert(items@ =~= Seq::empty());
        }
        if let Some(empty) = Self::new_empty(length, 0) {
            return empty;
        }
        Self::from_arc(Arc::from_slice_items(items, length))
    }

    /// Returns the number of items in the slice.
    pub fn len(&self) -> (r: usize)
        ensures
            r == self@.len(),
    {
        proof {
            use_type_invariant(self);
        }
        self.window.length
    }

    /// Returns `true` if the slice has no item.
    pub fn is_empty(&self) -> (r: bool)
        ensures
            r == (self@.len() == 0),
    {
        self.len() == 0
    }

    /// Returns the items of the slice.
    pub(crate) fn as_items(&self) -> (r: &[S::Item])
        ensures
            r@ == self@,
            S::valid(self@),
    {
        proof {
            use_type_invariant(self);
        }
        let items = self.data.as_items();
        slice_subrange(items, self.window.offset, self.window.offset + self.window.length)
    }

    /// Returns the slice.
    pub fn as_slice(&self) -> (r: &S)
        ensures
            r.items() == self@,
    {
        S::from_slice_unchecked(self.as_items())
    }

    /// One more slice of the same items, sharing the buffer.
    fn clone_impl(&self) -> (r: Self)
        ensures
            r == *self,
    {
        proof {
            use_type_invariant(self);
        }
        ArcSlice { data: self.data.share(), window: self.window, layout: self.layout }
    }

    /// Tries cloning the slice, which shares the buffer.
    pub fn try_clone(&self) -> (r: Result<Self, AllocError>)
        ensures
            r == Ok::<Self, AllocError>(*self),
    {
        Ok(self.clone_impl())
    }

    /// Whether the slice made of `length` of the items of this one, from the one at `offset` on,
    /// is `part`: it shares the buffer, unless it is empty and needs none.
    pub open spec fn has_part(self, part: Self, offset: int, length: int) -> bool {
        &&& part@ == self@.subrange(offset, offset + length)
        &&& part.position() == self.position() + offset
        &&& if L::static_data() && length == 0 {
            part.is_static() && part.buffer() is None && part.no_metadata()
        } else {
            part.stays_in(self) && (length == self@.len() ==> part.is_whole() == self.is_whole())
        }
    }

    /// Whether the slice shares the buffer of another one, with all that is known of it.
    pub open spec fn stays_in(self, other: Self) -> bool {
        &&& self.shares_with(other)
        &&& self.is_static() == other.is_static()
        &&& self.buffer() == other.buffer()
        &&& self.is_foreign() == other.is_foreign()
        &&& self.vector_of::<S>() == other.vector_of::<S>()
        &&& self.no_metadata() == other.no_metadata()
    }

    /// Whether two slices share a buffer.
    pub closed spec fn shares_with(self, other: Self) -> bool {
        self.data == other.data
    }

    /// The slice made of `length` items, from the one at `offset` on, which have to be valid.
    pub(crate) fn part_impl(&self, offset: usize, length: usize) -> (r: Self)
        requires
            offset + length <= self@.len(),
            S::valid(self@.subrange(offset as int, offset + length)),
        ensures
            self.has_part(r, offset as int, length as int),
    {
        proof {
            use_type_invariant(self);
            if length == 0 {
                assert(self@.subrange(offset as int, offset + length) =~= Seq::empty());
            }
        }
        let start: usize = match &self.data {
            Data::Static(_) => self.window.base + self.window.offset + offset,
            Data::Arc(arc) => arc.position + self.window.offset + offset,
        };
        if let Some(empty) = Self::new_empty(length, start) {
            return empty;
        }
        assert(self.data.items().subrange(
            self.window.offset + offset,
            self.window.offset + offset + length,
        ) =~= self@.subrange(offset as int, offset + length));
        ArcSlice {
            data: self.data.share(),
            window: Window {
                offset: self.window.offset + offset,
                length,
                base: self.window.base,
            },
            layout: self.layout,
        }
    }

    fn subslice_impl(&self, offset: usize, length: usize) -> (r: Self) where S: Subsliceable
        requires
            offset + length <= self@.len(),
            S::boundary(self@, offset as int),
            S::boundary(self@, offset + length),
        ensures
            self.has_part(r, offset as int, length as int),
    {
        proof {
            use_type_invariant(self);
            S::lemma_subslice_valid(self@, offset as int, offset + length);
        }
        self.part_impl(offset, length)
    }

    /// Extracts a subslice, sharing the buffer.
    pub fn subslice<R: RangeBounds>(&self, range: R) -> (r: Self) where S: Subsliceable
        requires
            range.usable(),
            offset_len_spec::<S>(self@, range.lower(), range.upper()) is Ok,
        ensures
            offset_len_spec::<S>(self@, range.lower(), range.upper()) matches Ok((offset, length))
                && self.has_part(r, offset, length),
    {
        match offset_len(self.as_slice(), &range) {
            Ok((offset, length)) => self.subslice_impl(offset, length),
            Err(_) => vstd::pervasive::unreached(),
        }
    }

    /// Tries extracting a subslice, sharing the buffer.
    pub fn try_subslice<R: RangeBounds>(&self, range: R) -> (r: Result<Self, AllocError>) where
        S: Subsliceable,

        requires
            range.usable(),
            offset_len_spec::<S>(self@, range.lower(), range.upper()) is Ok,
        ensures
            r matches Ok(part) && offset_len_spec::<S>(self@, range.lower(), range.upper()) matches Ok(
                (offset, length),
            ) && self.has_part(part, offset, length),
    {
        Ok(self.subslice(range))
    }

    /// Whether `part` is the slice made of those of the items that `subset` was found to be, as the
    /// addresses tell: see [`found_at`].
    pub open spec fn has_found(self, subset: Seq<S::Item>, part: Option<Self>) -> bool where
        S: Subsliceable,
    {
        exists|offset: Option<int>| #[trigger]
            found_at::<S>(self@, subset, offset) && match (offset, part) {
                (Some(offset), Some(part)) => self.has_part(part, offset, subset.len() as int) && 0
                    <= offset <= self@.len() - subset.len(),
                (None, None) => true,
                _ => false,
            }
    }

    /// Extracts a subslice from a reference to a part of the slice, sharing the buffer. `None` if
    /// `subset` does not stand inside the slice, as its address tells.
    pub fn subslice_from_ref(&self, subset: &S) -> (r: Option<Self>) where S: Subsliceable
        ensures
            self.has_found(subset.items(), r),
    {
        match offset_len_subslice(self.as_slice(), subset) {
            Some((offset, length)) => Some(self.subslice_impl(offset, length)),
            None => None,
        }
    }

    /// Tries extracting a subslice from a reference to a part of the slice.
    pub fn try_subslice_from_ref(&self, subset: &S) -> (r: Result<Option<Self>, AllocError>) where
        S: Subsliceable,

        ensures
            r matches Ok(part) && self.has_found(subset.items(), part),
    {
        Ok(self.subslice_from_ref(subset))
    }

    /// Borrows a subslice.
    pub fn borrow<R: RangeBounds>(&self, range: R) -> (r: ArcSliceBorrow<'_, S, L>) where
        S: Subsliceable,

        requires
            range.usable(),
            offset_len_spec::<S>(self@, range.lower(), range.upper()) is Ok,
        ensures
            r.source() == *self,
            offset_len_spec::<S>(self@, range.lower(), range.upper()) == Ok::<
                (int, int),
                RangeError,
            >((r.offset(), r@.len() as int)),
            r@ == self@.subrange(r.offset(), r.offset() + r@.len()),
    {
        proof {
            use_type_invariant(self);
        }
        match offset_len(self.as_slice(), &range) {
            Ok((offset, length)) => {
                proof {
                    S::lemma_subslice_valid(self@, offset as int, offset + length);
                }
                ArcSliceBorrow::init(self, offset, length)
            },
            Err(_) => vstd::pervasive::unreached(),
        }
    }

    /// Borrows a subslice, from a reference to a part of the slice. `None` if `subset` does not stand
    /// inside the slice, as its address tells.
    pub fn borrow_from_ref(&self, subset: &S) -> (r: Option<ArcSliceBorrow<'_, S, L>>) where
        S: Subsliceable,

        ensures
            match r {
                Some(part) => found_at::<S>(self@, subset.items(), Some(part.offset()))
                    && part.source() == *self && part@.len() == subset.items().len() && part@
                    == self@.subrange(part.offset(), part.offset() + part@.len()),
                None => found_at::<S>(self@, subset.items(), None),
            },
    {
        proof {
            use_type_invariant(self);
        }
        match offset_len_subslice(self.as_slice(), subset) {
            Some((offset, length)) => {
                proof {
                    S::lemma_subslice_valid(self@, offset as int, offset + length);
                }
                Some(ArcSliceBorrow::init(self, offset, length))
            },
            None => None,
        }
    }

    /// Advances the start of the slice by `offset` items.
    pub fn advance(&mut self, offset: usize) where S: Subsliceable
        requires
            offset <= old(self)@.len(),
            is_cut_point::<S>(old(self)@, offset as int),
        ensures
            final(self)@ == old(self)@.skip(offset as int),
            final(self).position() == old(self).position() + offset,
            final(self).stays_in(*old(self)),
            offset == 0 ==> *final(self) == *old(self),
    {
        proof {
            use_type_invariant(&*self);
            S::lemma_ends_are_boundaries(self@);
            S::lemma_subslice_valid(self@, offset as int, self@.len() as int);
            assert(self@.skip(offset as int) =~= self@.subrange(offset as int, self@.len() as int));
            assert(self.data.items().subrange(
                self.window.offset + offset,
                self.window.offset + self.window.length,
            ) =~= self@.skip(offset as int));
        }
        self.window = Window {
            offset: self.window.offset + offset,
            length: self.window.length - offset,
            base: self.window.base,
        };
    }

    /// Truncates the slice to the first `len` items; does nothing if there are no more.
    pub fn truncate(&mut self, len: usize) where S: Subsliceable
        requires
            len < old(self)@.len() ==> is_cut_point::<S>(old(self)@, len as int),
        ensures
            final(self)@ == if len < old(self)@.len() {
                old(self)@.take(len as int)
            } else {
                old(self)@
            },
            final(self).position() == old(self).position(),
            final(self).stays_in(*old(self)),
            len >= old(self)@.len() ==> *final(self) == *old(self),
    {
        proof {
            use_type_invariant(&*self);
        }
        if len < self.window.length {
            proof {
                S::lemma_ends_are_boundaries(self@);
                S::lemma_subslice_valid(self@, 0, len as int);
                assert(self@.take(len as int) =~= self@.subrange(0, len as int));
                assert(self.data.items().subrange(
                    self.window.offset as int,
                    self.window.offset + len,
                ) =~= self@.take(len as int));
            }
            self.window = Window {
                offset: self.window.offset,
                length: len,
                base: self.window.base,
            };
        }
    }

    /// Tries truncating the slice to the first `len` items.
    pub fn try_truncate(&mut self, len: usize) -> (r: Result<(), AllocError>) where S: Subsliceable
        requires
            len < old(self)@.len() ==> is_cut_point::<S>(old(self)@, len as int),
        ensures
            r is Ok,
            final(self)@ == if len < old(self)@.len() {
                old(self)@.take(len as int)
            } else {
                old(self)@
            },
            final(self).position() == old(self).position(),
            final(self).stays_in(*old(self)),
            len >= old(self)@.len() ==> *final(self) == *old(self),
    {
        self.truncate(len);
        Ok(())
    }

    /// Splits the slice in two at `at`: this one keeps what comes before, the result has the rest.
    pub fn split_off(&mut self, at: usize) -> (r: Self) where S: Subsliceable
        requires
            at <= old(self)@.len(),
            is_cut_point::<S>(old(self)@, at as int),
        ensures
            old(self).has_part(*final(self), 0, at as int),
            old(self).has_part(r, at as int, old(self)@.len() - at),
    {
        proof {
            use_type_invariant(&*self);
            S::lemma_ends_are_boundaries(self@);
        }
        let length: usize = self.len();
        let mut other = self.subslice_impl(0, at);
        let rest = self.subslice_impl(at, length - at);
        core::mem::swap(self, &mut other);
        rest
    }

    /// Tries splitting the slice in two at `at`.
    pub fn try_split_off(&mut self, at: usize) -> (r: Result<Self, AllocError>) where
        S: Subsliceable,

        requires
            at <= old(self)@.len(),
            is_cut_point::<S>(old(self)@, at as int),
        ensures
            old(self).has_part(*final(self), 0, at as int),
            r matches Ok(rest) && old(self).has_part(rest, at as int, old(self)@.len() - at),
    {
        Ok(self.split_off(at))
    }

    /// Splits the slice in two at `at`: the result has what comes before, this one keeps the rest.
    pub fn split_to(&mut self, at: usize) -> (r: Self) where S: Subsliceable
        requires
            at <= old(self)@.len(),
            is_cut_point::<S>(old(self)@, at as int),
        ensures
            old(self).has_part(r, 0, at as int),
            old(self).has_part(*final(self), at as int, old(self)@.len() - at),
    {
        proof {
            use_type_invariant(&*self);
            S::lemma_ends_are_boundaries(self@);
        }
        let length: usize = self.len();
        let head = self.subslice_impl(0, at);
        let mut other = self.subslice_impl(at, length - at);
        core::mem::swap(self, &mut other);
        head
    }

    /// Tries splitting the slice in two at `at`.
    pub fn try_split_to(&mut self, at: usize) -> (r: Result<Self, AllocError>) where S: Subsliceable
        requires
            at <= old(self)@.len(),
            is_cut_point::<S>(old(self)@, at as int),
        ensures
            r matches Ok(head) && old(self).has_part(head, 0, at as int),
            old(self).has_part(*final(self), at as int, old(self)@.len() - at),
    {
        Ok(self.split_to(at))
    }
}

impl<S: Slice + ?Sized, L: Layout> ArcSlice<S, L> {
    /// Whether `answer` is what another's buffer, which the slice shares, answered when asked if it is
    /// the only reference to its slice.
    pub closed spec fn answered_unique(self, answer: bool) -> bool {
        match self.data {
            Data::Static(_) => true,
            Data::Arc(arc) => arc.answered_unique(answer),
        }
    }

    /// Whether there were found to be `handles` of the buffer, and `buffer_unique` is what another's
    /// buffer said of itself.
    pub closed spec fn was_told(self, handles: usize, buffer_unique: bool) -> bool {
        match self.data {
            Data::Static(_) => false,
            Data::Arc(arc) => arc.was_told(handles, buffer_unique),
        }
    }

    /// Returns `true` if this is the only reference to the items. A static slice never is; of a
    /// shared buffer the other handles decide, and the buffer, where it is another's.
    pub fn is_unique(&self) -> (r: bool)
        ensures
            self.is_static() ==> !r,
            !self.is_static() ==> exists|handles: usize, buffer_unique: bool| #[trigger]
                self.was_told(handles, buffer_unique) && r == (handles == 1 && (self.is_foreign()
                    ==> buffer_unique)),
            r && self.is_foreign() ==> self.answered_unique(true),
        no_unwind when !self.is_foreign() || !self.was_counted()
    {
        match &self.data {
            Data::Static(_) => false,
            Data::Arc(arc) => {
                let r: bool = arc.is_buffer_unique();
                proof {
                    let (handles, buffer_unique) = choose|handles: usize, buffer_unique: bool|
                        #[trigger]
                        arc.was_told(handles, buffer_unique) && r == (handles == 1 && (
                        arc.is_foreign() ==> buffer_unique));
                    assert(self.was_told(handles, buffer_unique));
                }
                r
            },
        }
    }

    /// Accesses the metadata of the underlying buffer if it is of type `M`.
    pub fn metadata<M: Send + Sync + 'static>(&self) -> (r: Option<&M>)
        ensures
            behind(r) == self.metadata_spec::<M>(),
    {
        match &self.data {
            Data::Static(_) => None,
            Data::Arc(arc) => arc.get_metadata::<M>(),
        }
    }

    /// Tries giving back the underlying buffer.
    ///
    /// A static slice is given back as what it is. Of a shared buffer the other handles decide: it is
    /// given back only if there are none, and never unless [`ArcSlice::can_take`] holds. It is asked for
    /// with this handle alone: another one is not made before it is answered, as that may unwind.
    pub fn try_into_buffer<B: Buffer<S>>(self) -> (r: Result<B, Self>)
        ensures
            match r {
                Ok(buffer) => self.can_take::<B>() && buffer.buffer_items() == self@ && (
                self.is_foreign() ==> self.holds::<B>(buffer)),
                Err(same) => same.same_as(self) && same@ == self@ && same.buffer() == self.buffer() && (
                same == self || self.is_another() && !self.is_foreign()) && !(self.is_static()
                    && self.can_take::<B>()) && (
                self.gives_back::<B>() ==> self.found_shared()),
            },
        no_unwind when !self.is_static() && !self.was_answered()
    {
        proof {
            use_type_invariant(&self);
            assert(self@.len() == self.window.length);
            if self.is_whole() {
                assert(self@ =~= self.data.items());
            }
        }
        let ArcSlice { data, window, layout } = self;
        match data {
            Data::Static(slice) => {
                let items: &'static [S::Item] = slice_subrange(
                    slice.to_slice(),
                    window.offset,
                    window.offset + window.length,
                );
                match B::from_static_slice(S::from_slice_unchecked(items)) {
                    Ok(buffer) => Ok(buffer),
                    Err(_) => {
                        if window.length == 0 {
                            let empty: Vec<S::Item> = Vec::new();
                            assert(empty@ =~= self@);
                            if let Ok(buffer) = B::from_items(empty) {
                                return Ok(buffer);
                            }
                        }
                        Err(ArcSlice { data: Data::Static(slice), window, layout })
                    },
                }
            },
            Data::Arc(arc) => match arc.take_buffer::<S, B>(window.offset, window.length) {
                Ok(buffer) => Ok(buffer),
                Err(arc) => Err(ArcSlice { data: Data::Arc(arc), window, layout }),
            },
        }
    }

    /// Whether the items are those of another's buffer.
    pub closed spec fn is_foreign(self) -> bool {
        match self.data {
            Data::Static(_) => false,
            Data::Arc(arc) => arc.is_foreign(),
        }
    }

    /// Whether the slice can have layout `L2`.
    ///
    /// A buffer that the crate allocated itself suits every layout, any other those that support any
    /// buffer. A static slice suits the layouts that refer to it as it is, and those that support any
    /// buffer.
    pub open spec fn suits<L2: Layout>(self) -> bool {
        match self.buffer() {
            None => L2::static_data() || L2::any_buffer(),
            Some(buffer) => buffer is Capacity || L2::any_buffer(),
        }
    }

    /// Whether `other` is what becomes of the slice in another layout: it keeps its buffer, but a
    /// static slice is shared as a buffer where the layout does not refer to it as it is.
    pub open spec fn converted_to<L2: Layout>(self, other: ArcSlice<S, L2>) -> bool {
        &&& other@ == self@
        &&& if self.is_static() && !L2::static_data() {
            &&& other.buffer() == read_only_buffer()
            &&& other.is_whole()
            &&& other.can_take::<&'static S>()
            &&& other.no_metadata()
        } else {
            other.buffer() == self.buffer() && other.position() == self.position() && self.kept_in(
                other,
            )
        }
    }

    /// Tries changing the layout of the slice, which keeps its buffer.
    pub fn try_with_layout<L2: Layout>(self) -> (r: Result<ArcSlice<S, L2>, Self>)
        ensures
            match r {
                Ok(slice) => self.suits::<L2>() && self.converted_to(slice),
                Err(same) => !self.suits::<L2>() && same == self,
            },
    {
        proof {
            use_type_invariant(&self);
        }
        let ArcSlice { data, window, layout } = self;
        match data {
            Data::Static(slice) => {
                if L2::supports_static_data() {
                    return Ok(
                        ArcSlice { data: Data::Static(slice), window, layout: PhantomData },
                    );
                }
                if L2::supports_any_buffer() {
                    let items: &'static [S::Item] = slice_subrange(
                        slice.to_slice(),
                        window.offset,
                        window.offset + window.length,
                    );
                    let part: &'static S = S::from_slice_unchecked(items);
                    let arc = Arc::<S::Item, true>::new_buffer::<S, &'static S>(part, None);
                    return Ok(ArcSlice::<S, L2>::from_arc(arc));
                }
                Err(ArcSlice { data: Data::Static(slice), window, layout })
            },
            Data::Arc(arc) => {
                let own: bool = match arc.vtable_or_capacity() {
                    VTableOrCapacity::Capacity(_) => true,
                    VTableOrCapacity::VTable(_) => false,
                };
                if own || L2::supports_any_buffer() {
                    Ok(ArcSlice { data: Data::Arc(arc), window, layout: PhantomData })
                } else {
                    Err(ArcSlice { data: Data::Arc(arc), window, layout })
                }
            },
        }
    }

    /// Changes the layout of the slice, which keeps its buffer.
    pub fn with_layout<L2: FromLayout<L>>(self) -> (r: ArcSlice<S, L2>)
        requires
            self.is_static() ==> L2::static_data() || L2::any_buffer(),
        ensures
            self.converted_to(r),
    {
        proof {
            use_type_invariant(&self);
            L2::lemma_from_layout();
        }
        match self.try_with_layout::<L2>() {
            Ok(slice) => slice,
            Err(_) => vstd::pervasive::unreached(),
        }
    }

    /// Forgets that the items make up a slice of type `S`.
    pub fn into_arc_slice(self) -> (r: ArcSlice<[S::Item], L>)
        ensures
            r@ == self@,
            r.is_static() == self.is_static(),
            r.buffer() == self.buffer(),
            r.position() == self.position(),
            self.kept_in(r),
            S::valid(r@),
    {
        proof {
            use_type_invariant(&self);
        }
        match self.data {
            Data::Static(slice) => ArcSlice {
                data: Data::Static(slice.to_slice()),
                window: self.window,
                layout: self.layout,
            },
            Data::Arc(arc) => ArcSlice {
                data: Data::Arc(arc),
                window: self.window,
                layout: self.layout,
            },
        }
    }

    /// Tries making a slice of type `S` of the items, which have to be valid.
    pub fn try_from_arc_slice(slice: ArcSlice<[S::Item], L>) -> (r: Result<
        Self,
        (S::TryFromSliceError, ArcSlice<[S::Item], L>),
    >)
        ensures
            match r {
                Ok(this) => S::valid(slice@) && this@ == slice@ && this.is_static()
                    == slice.is_static() && this.buffer() == slice.buffer() && this.position()
                    == slice.position() && slice.kept_in(this),
                Err((error, same)) => !S::valid(slice@) && error == S::refusal(slice@) && same
                    == slice,
            },
    {
        match S::try_from_slice(slice.as_items()) {
            Ok(_) => Ok(Self::from_arc_slice_unchecked(slice)),
            Err(error) => Err((error, slice)),
        }
    }

    /// Makes a slice of type `S` of items that are valid.
    pub fn from_arc_slice_unchecked(slice: ArcSlice<[S::Item], L>) -> (r: Self)
        requires
            S::valid(slice@),
        ensures
            r@ == slice@,
            r.is_static() == slice.is_static(),
            r.buffer() == slice.buffer(),
            r.position() == slice.position(),
            slice.kept_in(r),
    {
        proof {
            use_type_invariant(&slice);
        }
        match slice.data {
            Data::Static(items) => {
                let part: &'static [S::Item] = slice_subrange(
                    items,
                    slice.window.offset,
                    slice.window.offset + slice.window.length,
                );
                let data = Data::Static(S::from_slice_unchecked(part));
                assert(data.items().subrange(0, part@.len() as int) =~= data.items());
                let window = Window {
                    offset: 0,
                    length: part.len(),
                    base: slice.window.base + slice.window.offset,
                };
                ArcSlice { data, window, layout: slice.layout }
            },
            Data::Arc(arc) => ArcSlice {
                data: Data::Arc(arc),
                window: slice.window,
                layout: slice.layout,
            },
        }
    }

    /// Gives up the slice, which the caller takes to be the only reference to its buffer.
    pub fn drop_with_unique_hint(self) {
    }
}

impl<S: Slice + ?Sized, L: AnyBufferLayout> ArcSlice<S, L> {
    fn from_static_impl(slice: &'static S) -> (r: Self)
        ensures
            r@ == slice.items(),
            r.is_whole(),
            r.buffer() == if L::static_data() {
                None
            } else {
                read_only_buffer()
            },
            r.no_metadata(),
    {
        proof {
            L::lemma_any_buffer();
            slice.lemma_items_valid();
        }
        if L::supports_static_data() {
            let length: usize = slice.to_slice().len();
            assert(slice.items().subrange(0, length as int) =~= slice.items());
            Self::init(0, length, Data::Static(slice))
        } else {
            Self::from_arc(Arc::<S::Item, true>::new_buffer::<S, &'static S>(slice, None))
        }
    }

    /// Shares a buffer that is kept as it is.
    fn from_dyn_buffer_impl<B: Buffer<S>>(buffer: B, metadata: Option<AnyMetadata>) -> (r: Self)
        ensures
            r@ == buffer.buffer_items(),
            r.buffer() == read_only_buffer(),
            r.is_foreign(),
            r.is_whole(),
            forall|other: B| #[trigger] r.holds::<B>(other) <==> other == buffer,
            r.answers_as::<B>(buffer),
            r.keeps::<B>(),
            metadata is None ==> r.no_metadata(),
            r.metadata_is(metadata),
    {
        let slice = buffer.as_slice();
        proof {
            L::lemma_any_buffer();
            slice.lemma_items_valid();
        }
        Self::from_arc(Arc::<S::Item, true>::new_buffer::<S, B>(buffer, metadata))
    }

    /// Whether `metadata` stands beside the buffer.
    pub closed spec fn metadata_is(self, metadata: Option<AnyMetadata>) -> bool {
        self.data matches Data::Arc(arc) && arc.metadata_is(metadata)
    }

    /// Whether the metadata are of type `M`.
    pub closed spec fn metadata_of_type<M: Send + Sync + 'static>(self) -> bool {
        self.data matches Data::Arc(arc) && (arc.inner.metadata matches Some(metadata)
            && metadata.is_of::<M>())
    }

    /// Whether the answers of what is shared are those of `buffer`.
    pub open spec fn answers_as<B: Buffer<S>>(self, buffer: B) -> bool {
        forall|answer: bool| #[trigger]
            self.answered_unique(answer) == answered_unique::<S, B>(buffer, answer)
    }

    /// How a slice is kept that is made of `buffer`: a static slice as the layout has it, a vector or
    /// a boxed slice as a vector, anything else as it is.
    pub open spec fn made_of<B: Buffer<S>>(self, buffer: B) -> bool {
        &&& self@ == buffer.buffer_items()
        &&& self.is_whole()
        &&& self.no_metadata()
        &&& match B::class() {
            BufferClass::Static => self.buffer() == if L::static_data() {
                None
            } else {
                read_only_buffer()
            },
            BufferClass::Other => self.is_foreign() && self.buffer() == read_only_buffer()
                && self.answers_as::<B>(buffer) && self.keeps::<B>() && (forall|other: B| #[trigger]
                self.holds::<B>(other) <==> other == buffer),
            _ => exists|capacity: int| #[trigger]
                self.is_vec_with(capacity) && (B::class() is Boxed ==> capacity == self@.len()),
        }
    }

    /// Shares a buffer.
    pub fn from_buffer<B: Buffer<S>>(buffer: B) -> (r: Self)
        ensures
            r.made_of::<B>(buffer),
    {
        let slice = buffer.as_slice();
        proof {
            L::lemma_any_buffer();
            slice.lemma_items_valid();
        }
        match buffer.into_parts() {
            BufferParts::Static(slice) => Self::from_static_impl(slice),
            BufferParts::Items(items, room) => {
                let r = Self::from_items_impl(items, room);
                assert(r.is_vec_with(room as int));
                r
            },
            BufferParts::Other(buffer) => Self::from_dyn_buffer_impl::<B>(buffer, None),
        }
    }

    /// Tries sharing a buffer.
    pub fn try_from_buffer<B: Buffer<S>>(buffer: B) -> (r: Result<Self, B>)
        ensures
            r matches Ok(this) && this.made_of::<B>(buffer),
    {
        Ok(Self::from_buffer::<B>(buffer))
    }

    /// Whether the slice shares `buffer`, which is kept as it is, with `metadata` beside it.
    pub open spec fn kept_with<B: Buffer<S>, M: Send + Sync + 'static>(
        self,
        buffer: B,
        metadata: M,
    ) -> bool {
        &&& self@ == buffer.buffer_items()
        &&& self.is_foreign()
        &&& self.is_whole()
        &&& self.buffer() == read_only_buffer()
        &&& forall|other: B| #[trigger] self.holds::<B>(other) <==> other == buffer
        &&& self.answers_as::<B>(buffer)
        &&& self.keeps::<B>()
        &&& self.metadata_spec::<M>() == Some(metadata)
        &&& self.metadata_of_type::<M>()
    }

    /// How a slice is kept that is made of `buffer` with `metadata` beside it. Metadata of the unit
    /// type are none at all.
    pub open spec fn made_of_with<B: Buffer<S>, M: Send + Sync + 'static>(
        self,
        buffer: B,
        metadata: M,
    ) -> bool {
        exists|unit: bool| #[trigger]
            tells_unit::<M>(unit) && if unit {
                self.made_of::<B>(buffer)
            } else {
                self.kept_with::<B, M>(buffer, metadata)
            }
    }

    /// Shares a buffer, with metadata beside it.
    pub fn from_buffer_with_metadata<B: Buffer<S>, M: Send + Sync + 'static>(
        buffer: B,
        metadata: M,
    ) -> (r: Self)
        ensures
            r.made_of_with::<B, M>(buffer, metadata),
    {
        let unit: bool = is_unit::<M>();
        assert(tells_unit::<M>(unit));
        if unit {
            return Self::from_buffer::<B>(buffer);
        }
        Self::from_dyn_buffer_impl::<B>(buffer, Some(AnyMetadata::owned::<M>(metadata)))
    }

    /// Tries sharing a buffer, with metadata beside it.
    pub fn try_from_buffer_with_metadata<B: Buffer<S>, M: Send + Sync + 'static>(
        buffer: B,
        metadata: M,
    ) -> (r: Result<Self, (B, M)>)
        ensures
            r matches Ok(this) && this.made_of_with::<B, M>(buffer, metadata),
    {
        Ok(Self::from_buffer_with_metadata::<B, M>(buffer, metadata))
    }
}

impl<S: Slice + ?Sized, L: AnyBufferLayout> ArcSlice<S, L> {
    /// How a slice is kept that is made of `buffer`, which lends its metadata. Metadata of the unit
    /// type are none at all.
    pub open spec fn made_of_lender<B: Buffer<S> + BorrowMetadata>(self, buffer: B) -> bool {
        &&& self@ == buffer.buffer_items()
        &&& self.is_foreign()
        &&& self.is_whole()
        &&& self.buffer() == read_only_buffer()
        &&& forall|other: B| #[trigger] self.holds::<B>(other) <==> other == buffer
        &&& self.answers_as::<B>(buffer)
        &&& self.keeps::<B>()
        &&& exists|unit: bool| #[trigger]
            tells_unit::<B::Metadata>(unit) && if unit {
                self.no_metadata()
            } else {
                self.metadata_spec::<B::Metadata>() == Some(buffer.metadata())
                    && self.metadata_of_type::<B::Metadata>()
            }
    }

    /// The buffer that the slice shares, as it lends metadata.
    spec fn lender(self) -> AnyBox {
        match self.data {
            Data::Arc(arc) => match *arc.storage {
                Storage::Foreign(erased) => erased.any(),
                Storage::Items(_) => arbitrary(),
            },
            Data::Static(_) => arbitrary(),
        }
    }

    /// Shares a buffer that lends its metadata.
    pub fn from_buffer_with_borrowed_metadata<B: Buffer<S> + BorrowMetadata>(buffer: B) -> (r: Self)
        ensures
            r.made_of_lender::<B>(buffer),
    {
        let unit: bool = is_unit::<B::Metadata>();
        assert(tells_unit::<B::Metadata>(unit));
        if unit {
            return Self::from_dyn_buffer_impl::<B>(buffer, None);
        }
        let r = Self::from_dyn_buffer_impl::<B>(buffer, Some(AnyMetadata::lent::<S, B>()));
        proof {
            assert(r.holds::<B>(buffer));
            let lender = r.lender();
            assert(any_holds::<S, B>(lender, buffer));
            let found = choose|found: B| any_holds::<S, B>(lender, found);
            assert(r.holds::<B>(found));
        }
        r
    }

    /// Tries sharing a buffer that lends its metadata.
    pub fn try_from_buffer_with_borrowed_metadata<B: Buffer<S> + BorrowMetadata>(buffer: B) -> (r:
        Result<Self, B>)
        ensures
            r matches Ok(this) && this.made_of_lender::<B>(buffer),
    {
        Ok(Self::from_buffer_with_borrowed_metadata::<B>(buffer))
    }

    /// Shares a buffer that is shared already, which is kept as it is.
    pub fn from_raw_buffer<B: RawBuffer<S>>(buffer: B) -> (r: Self)
        ensures
            r@ == buffer.buffer_items(),
            r.is_foreign(),
            r.is_whole(),
            r.buffer() == read_only_buffer(),
            forall|other: B| #[trigger] r.holds::<B>(other) <==> other == buffer,
            r.answers_as::<B>(buffer),
            r.keeps::<B>(),
            r.no_metadata(),
    {
        Self::from_dyn_buffer_impl::<B>(buffer, None)
    }

    /// Tries sharing a buffer that is shared already.
    pub fn try_from_raw_buffer<B: RawBuffer<S>>(buffer: B) -> (r: Result<Self, B>)
        ensures
            r matches Ok(this) && this@ == buffer.buffer_items() && this.is_foreign()
                && this.is_whole() && this.buffer() == read_only_buffer() && this.answers_as::<B>(buffer)
                && this.keeps::<B>()
                && this.no_metadata() && (forall|other: B|
                #[trigger] this.holds::<B>(other) <==> other == buffer),
    {
        Ok(Self::from_raw_buffer::<B>(buffer))
    }

    /// Shares a buffer that is shared already and lends its metadata.
    pub fn from_raw_buffer_with_borrowed_metadata<B: RawBuffer<S> + BorrowMetadata>(buffer: B) -> (r:
        Self)
        ensures
            r.made_of_lender::<B>(buffer),
    {
        Self::from_buffer_with_borrowed_metadata::<B>(buffer)
    }

    /// Tries sharing a buffer that is shared already and lends its metadata.
    pub fn try_from_raw_buffer_with_borrowed_metadata<B: RawBuffer<S> + BorrowMetadata>(
        buffer: B,
    ) -> (r: Result<Self, B>)
        ensures
            r matches Ok(this) && this.made_of_lender::<B>(buffer),
    {
        Ok(Self::from_buffer_with_borrowed_metadata::<B>(buffer))
    }
}

impl<T: Send + Sync + 'static, L: Layout> ArcSlice<[T], L> {
    /// Moves an array.
    pub fn from_array<const N: usize>(array: [T; N]) -> (r: Self)
        ensures
            r@ == array@,
            r.kept_own(N as int),
    {
        match Self::from_array_impl::<Infallible, N>(array) {
            Ok(this) => this,
            Err(_) => vstd::pervasive::unreached(),
        }
    }

    /// Tries moving an array, returning it if an allocation fails.
    pub fn try_from_array<const N: usize>(array: [T; N]) -> (r: Result<Self, [T; N]>)
        ensures
            match r {
                Ok(this) => this@ == array@ && this.kept_own(N as int),
                Err(same) => same == array && kept_as::<L>(N as int) is Some,
            },
            kept_as::<L>(N as int) is Some ==> allocation::<T, AllocError>(N as int, r is Ok),
    {
        match Self::from_array_impl::<AllocError, N>(array) {
            Ok(this) => Ok(this),
            Err((_, array)) => Err(array),
        }
    }

    /// Tries moving the items into an array.
    ///
    /// The items of a buffer that the crate allocated itself are moved, if they are all of them and
    /// as many as the array takes, and if there is no other handle.
    pub fn try_into_array<const N: usize>(self) -> (r: Result<[T; N], Self>)
        ensures
            match r {
                Ok(array) => array@ == self@ && self.buffer() == Some(VTableOrCapacity::Capacity(N))
                    && self@.len() == N,
                Err(same) => same == self && (self.buffer() == Some(VTableOrCapacity::Capacity(N))
                    && self@.len() == N ==> self.found_shared()),
            },
        no_unwind when !self.found_shared()
    {
        proof {
            use_type_invariant(&self);
        }
        let ArcSlice { data, window, layout } = self;
        match data {
            Data::Static(slice) => Err(ArcSlice { data: Data::Static(slice), window, layout }),
            Data::Arc(arc) => match arc.take_array::<N>(window.offset, window.length) {
                Ok(array) => Ok(array),
                Err(arc) => Err(ArcSlice { data: Data::Arc(arc), window, layout }),
            },
        }
    }
}

impl<L: StaticLayout> ArcSlice<[u8], L> {
    /// A slice of bytes that lives as long as the program.
    pub fn from_static(slice: &'static [u8]) -> (r: Self)
        ensures
            r@ == slice@,
            r.is_static(),
            r.buffer() is None,
            r.is_whole(),
            r.position() == 0,
            r.no_metadata(),
    {
        proof {
            L::lemma_static_data();
        }
        assert(slice@.subrange(0, slice@.len() as int) =~= slice@);
        Self::init(0, slice.len(), Data::Static(slice))
    }
}

impl<L: StaticLayout> ArcSlice<str, L> {
    /// A string that lives as long as the program.
    pub fn from_static(slice: &'static str) -> (r: Self)
        ensures
            r@ == slice.items(),
            r.is_static(),
            r.buffer() is None,
            r.is_whole(),
            r.position() == 0,
            r.no_metadata(),
    {
        proof {
            L::lemma_static_data();
            slice.lemma_items_valid();
        }
        let length: usize = slice.to_slice().len();
        assert(slice.items().subrange(0, length as int) =~= slice.items());
        Self::init(0, length, Data::Static(slice))
    }
}

impl<S: Slice + ?Sized, L: Layout> Clone for ArcSlice<S, L> {
    fn clone(&self) -> (r: Self)
        ensures
            r == *self,
    {
        self.clone_impl()
    }
}

impl<S: Slice + ?Sized, L: Layout> core::ops::Deref for ArcSlice<S, L> {
    type Target = S;

    fn deref(&self) -> (r: &S)
        ensures
            r.items() == self@,
    {
        self.as_slice()
    }
}

impl<S: Slice + ?Sized, L: Layout> AsRef<S> for ArcSlice<S, L> {
    fn as_ref(&self) -> (r: &S)
        ensures
            r.items() == self@,
    {
        self.as_slice()
    }
}

impl<S: Emptyable + ?Sized, L: StaticLayout> Default for ArcSlice<S, L> {
    fn default() -> (r: Self)
        ensures
            r@ == Seq::<S::Item>::empty(),
            r.is_static(),
    {
        Self::new()
    }
}

/// The two halves of a split, one after the other, are the slice that was split.
pub proof fn law_split_covers<S: Slice + ?Sized, L: Layout>(
    whole: ArcSlice<S, L>,
    at: int,
    first: ArcSlice<S, L>,
    second: ArcSlice<S, L>,
)
    requires
        0 <= at <= whole@.len(),
        whole.has_part(first, 0, at),
        whole.has_part(second, at, whole@.len() - at),
    ensures
        first@ + second@ == whole@,
        first@.len() == at,
{
    assert(first@ + second@ =~= whole@);
}

/// A subslice of a subslice is a subslice: it could have been taken at once.
pub proof fn law_subslice_of_subslice<S: Subsliceable + ?Sized, L: Layout>(
    whole: ArcSlice<S, L>,
    part: ArcSlice<S, L>,
    offset: int,
    length: int,
    inner: ArcSlice<S, L>,
    inner_offset: int,
    inner_length: int,
)
    requires
        S::valid(whole@),
        0 <= offset,
        0 <= length,
        offset + length <= whole@.len(),
        S::boundary(whole@, offset),
        S::boundary(whole@, offset + length),
        whole.has_part(part, offset, length),
        0 <= inner_offset,
        0 <= inner_length,
        inner_offset + inner_length <= length,
        S::boundary(part@, inner_offset),
        S::boundary(part@, inner_offset + inner_length),
        part.has_part(inner, inner_offset, inner_length),
    ensures
        S::boundary(whole@, offset + inner_offset),
        S::boundary(whole@, offset + inner_offset + inner_length),
        whole.has_part(inner, offset + inner_offset, inner_length),
{
    S::lemma_boundary_of_subslice(whole@, offset, offset + length, inner_offset);
    S::lemma_boundary_of_subslice(whole@, offset, offset + length, inner_offset + inner_length);
    assert(inner@ =~= whole@.subrange(
        offset + inner_offset,
        offset + inner_offset + inner_length,
    ));
}

/// A slice that lives as long as the program is always given back as what it is, and so is every part
/// of it.
pub proof fn law_static_is_given_back<S: Slice + ?Sized, L: Layout>(slice: ArcSlice<S, L>)
    requires
        slice.is_static(),
    ensures
        slice.can_take::<&'static S>(),
        slice.buffer() is None,
{
}

/// A slice of all the items of a vector can be given back as a vector.
pub proof fn law_whole_vector_is_given_back<S: Slice + ?Sized, L: Layout, B: Buffer<S>>(
    slice: ArcSlice<S, L>,
)
    requires
        B::class() is Vector,
        slice.is_whole(),
        is_vector(slice.buffer(), 0),
        slice.vector_of::<S>(),
    ensures
        slice.can_take::<B>(),
{
    assert(slice@.len() == slice.window.length);
}

/// A slice that is made of a vector can be given back as a vector.
pub proof fn law_vector_is_given_back<S: Slice + ?Sized, L: AnyBufferLayout, B: Buffer<S>>(
    slice: ArcSlice<S, L>,
    buffer: B,
)
    requires
        B::class() is Vector,
        slice.made_of::<B>(buffer),
    ensures
        slice.can_take::<B>(),
        slice.gives_back::<B>(),
        slice@ == buffer.buffer_items(),
{
}

/// A part of a vector can be given back as a vector, too, unless its items have to be dropped.
pub proof fn law_part_of_vector_is_given_back<S: Slice + ?Sized, L: Layout, B: Buffer<S>>(
    whole: ArcSlice<S, L>,
    part: ArcSlice<S, L>,
    offset: int,
    length: int,
)
    requires
        B::class() is Vector,
        whole.buffer() matches Some(VTableOrCapacity::VTable(vtable)) && vtable.kind is Vector,
        whole.vector_of::<S>(),
        whole.has_part(part, offset, length),
        !(L::static_data() && length == 0),
    ensures
        part.can_take::<B>(),
{
}

/// A slice that is made of any other buffer can be given back as that buffer, and as nothing else of
/// that type.
pub proof fn law_buffer_is_given_back<S: Slice + ?Sized, L: AnyBufferLayout, B: Buffer<S>>(
    slice: ArcSlice<S, L>,
    buffer: B,
)
    requires
        B::class() is Other,
        slice.made_of::<B>(buffer),
    ensures
        slice.can_take::<B>(),
        slice.gives_back::<B>(),
        forall|other: B| #[trigger] slice.holds::<B>(other) ==> other == buffer,
{
    assert(slice.holds::<B>(buffer));
    assert(slice@.len() == slice.window.length);
    match slice.data {
        Data::Arc(arc) => {
            assert(arc.holds::<S, B>(buffer));
        },
        Data::Static(_) => {},
    }
}

/// A slice that is cut in place, of a vector whose items do not have to be dropped, or that the layout
/// refers to as it is, can be given back as a vector.
pub proof fn law_cut_vector_is_given_back<S: Slice + ?Sized, L: Layout, B: Buffer<S>>(
    slice: ArcSlice<S, L>,
    cut: ArcSlice<S, L>,
)
    requires
        B::class() is Vector,
        slice.buffer() matches Some(VTableOrCapacity::VTable(vtable)) && vtable.kind is Vector,
        slice.vector_of::<S>(),
        cut.stays_in(slice),
    ensures
        cut.can_take::<B>(),
        cut.gives_back::<B>(),
{
}

/// A part of any other buffer is not given back.
pub proof fn law_part_of_buffer_is_kept<S: Slice + ?Sized, L: Layout, B: Buffer<S>>(
    whole: ArcSlice<S, L>,
    part: ArcSlice<S, L>,
    offset: int,
    length: int,
)
    requires
        whole.is_whole(),
        whole.buffer() matches Some(VTableOrCapacity::VTable(vtable)) && vtable.kind is Buffer,
        whole.has_part(part, offset, length),
        0 <= offset,
        0 <= length < whole@.len(),
        offset + length <= whole@.len(),
        !(L::static_data() && length == 0),
    ensures
        !part.can_take::<B>(),
{
    assert(whole@.len() == whole.window.length);
    assert(part@.len() == length);
    if part.is_whole() {
        assert(part@.len() == part.window.length);
    }
}

/// The metadata that a slice was made with are there, if their type has more than one value.
pub proof fn law_metadata_are_there<
    S: Slice + ?Sized,
    L: AnyBufferLayout,
    B: Buffer<S>,
    M: Send + Sync + 'static,
>(slice: ArcSlice<S, L>, buffer: B, metadata: M, other: M)
    requires
        slice.made_of_with::<B, M>(buffer, metadata),
        other != metadata,
    ensures
        slice.metadata_spec::<M>() == Some(metadata),
{
    lemma_not_singleton(metadata, other);
}

/// A slice that is made with metadata of the unit type is made without any.
pub proof fn law_unit_metadata_are_none<S: Slice + ?Sized, L: AnyBufferLayout, B: Buffer<S>>(
    slice: ArcSlice<S, L>,
    buffer: B,
)
    requires
        slice.made_of_with::<B, ()>(buffer, ()),
    ensures
        slice.made_of::<B>(buffer),
{
}

/// Metadata of one type are not found as metadata of another.
pub proof fn law_metadata_are_found_of_their_type<
    S: Slice + ?Sized,
    L: AnyBufferLayout,
    M: Send + Sync + 'static,
    N: Send + Sync + 'static,
>(slice: ArcSlice<S, L>)
    requires
        slice.metadata_of_type::<M>(),
        !may_be_same_type::<M, N>(),
    ensures
        slice.metadata_spec::<N>() is None,
{
    if slice.metadata_spec::<N>() is Some {
        slice.data->Arc_0.lemma_metadata_of_type::<M, N>();
    }
}

/// A slice without metadata has none of any type.
pub proof fn law_no_metadata_of_any_type<S: Slice + ?Sized, L: Layout, M: Send + Sync + 'static>(
    slice: ArcSlice<S, L>,
)
    requires
        slice.no_metadata(),
    ensures
        slice.metadata_spec::<M>() is None,
{
}

/// Slices that share a buffer share its metadata.
pub proof fn law_metadata_is_shared<S: Slice + ?Sized, L: Layout, M: Send + Sync + 'static>(
    slice: ArcSlice<S, L>,
    other: ArcSlice<S, L>,
)
    requires
        slice.shares_with(other),
    ensures
        slice.metadata_spec::<M>() == other.metadata_spec::<M>(),
        slice.buffer() == other.buffer(),
{
}

/// A slice that is not given back as a buffer has the same items, of the same buffer. It is the very same
/// slice, but for one whose items were put back, in the meantime, into the buffer that they came from.
pub proof fn law_refused_slice_is_the_same<S: Slice + ?Sized, L: Layout>(
    slice: ArcSlice<S, L>,
    same: ArcSlice<S, L>,
)
    requires
        same.same_as(slice),
    ensures
        same@ == slice@,
        same.is_static() == slice.is_static(),
        same.buffer() == slice.buffer(),
        same.position() == slice.position(),
        same.no_metadata() == slice.no_metadata(),
        slice.is_foreign() ==> same == slice,
        !(slice.buffer() matches Some(VTableOrCapacity::VTable(vtable)) && vtable.kind is Buffer)
            ==> same == slice,
{
}

/// A slice that keeps its items and its buffer keeps all that is known of them, whatever becomes of
/// its type and of its layout.
pub proof fn law_kept_buffer_is_the_same<
    S: Slice + ?Sized,
    S2: Slice<Item = S::Item> + ?Sized,
    V: Slice<Item = S::Item> + ?Sized,
    L: Layout,
    L2: Layout,
    M: Send + Sync + 'static,
>(slice: ArcSlice<S, L>, kept: ArcSlice<S2, L2>)
    requires
        slice.kept_in(kept),
    ensures
        kept@ == slice@,
        kept.is_static() == slice.is_static(),
        kept.buffer() == slice.buffer(),
        kept.position() == slice.position(),
        kept.vector_of::<V>() == slice.vector_of::<V>(),
        kept.metadata_spec::<M>() == slice.metadata_spec::<M>(),
        kept.no_metadata() == slice.no_metadata(),
        kept.is_foreign() == slice.is_foreign(),
{
}

/// A slice that keeps its items and its buffer in another layout is given back as the same buffers.
pub proof fn law_layout_keeps_buffer<S: Slice + ?Sized, L: Layout, L2: Layout, B: Buffer<S>>(
    slice: ArcSlice<S, L>,
    kept: ArcSlice<S, L2>,
    buffer: B,
)
    requires
        slice.kept_in(kept),
    ensures
        kept.can_take::<B>() == slice.can_take::<B>(),
        kept.holds::<B>(buffer) == slice.holds::<B>(buffer),
{
}

/// A slice that was converted to another layout, and kept its buffer, can be converted back.
pub proof fn law_layout_converts_back<S: Slice + ?Sized, L: Layout, L2: Layout>(
    slice: ArcSlice<S, L>,
    converted: ArcSlice<S, L2>,
)
    requires
        slice.wf(),
        slice.kept_in(converted),
    ensures
        converted.suits::<L>(),
{
}

/// A slice of its own can be written to in every layout, unless it lives as long as the program: then
/// it has no item, and can be written to all the same.
pub proof fn law_own_slice_is_writable<S: Slice + ?Sized, L: Layout, L2: Layout>(
    slice: ArcSlice<S, L>,
)
    requires
        slice.kept_own(slice@.len() as int),
    ensures
        slice.is_writable::<L2>(),
        !slice.is_foreign(),
        slice@.len() > 0 ==> slice.buffer() is Some,
{
}

/// A slice of a vector can be written to in every layout that supports any buffer, whatever its items.
pub proof fn law_vector_is_writable<S: Slice + ?Sized, L: Layout, L2: Layout>(
    slice: ArcSlice<S, L>,
    capacity: int,
)
    requires
        slice.is_vec_with(capacity),
        L2::any_buffer(),
    ensures
        slice.is_writable::<L2>(),
        !slice.is_foreign(),
{
}

/// A part of a slice that can be written to can be written to.
pub proof fn law_part_is_writable<S: Slice + ?Sized, L: Layout, L2: Layout>(
    whole: ArcSlice<S, L>,
    part: ArcSlice<S, L>,
    offset: int,
    length: int,
)
    requires
        whole.buffer() is Some,
        whole.is_writable::<L2>(),
        whole.has_part(part, offset, length),
        0 <= offset,
        0 <= length,
        offset + length <= whole@.len(),
    ensures
        part.is_writable::<L2>(),
{
}

/// What the crate allocated itself suits every layout, and every slice one that supports any buffer.
pub proof fn law_slices_suit_layouts<S: Slice + ?Sized, L: Layout, L2: Layout>(
    slice: ArcSlice<S, L>,
)
    ensures
        L2::any_buffer() ==> slice.suits::<L2>(),
        slice.buffer() matches Some(VTableOrCapacity::Capacity(_)) ==> slice.suits::<L2>(),
        slice.buffer() is None && L2::static_data() ==> slice.suits::<L2>(),
        slice.buffer() matches Some(VTableOrCapacity::VTable(_)) && !L2::any_buffer()
            ==> !slice.suits::<L2>(),
{
}

/// A slice has the same items in another layout.
pub proof fn law_conversion_keeps_items<S: Slice + ?Sized, L: Layout, L2: Layout>(
    slice: ArcSlice<S, L>,
    converted: ArcSlice<S, L2>,
)
    requires
        slice.converted_to(converted),
    ensures
        converted@ == slice@,
        slice.buffer() is Some ==> converted.buffer() == slice.buffer(),
        slice.buffer() is None && L2::static_data() ==> converted.buffer() is None,
{
}

/// A slice that is made of a buffer has its items, with or without metadata.
pub proof fn law_slice_has_items_of_buffer<
    S: Slice + ?Sized,
    L: AnyBufferLayout,
    B: Buffer<S>,
    M: Send + Sync + 'static,
>(slice: ArcSlice<S, L>, with_metadata: ArcSlice<S, L>, buffer: B, metadata: M)
    requires
        slice.made_of::<B>(buffer),
        with_metadata.made_of_with::<B, M>(buffer, metadata),
    ensures
        slice@ == buffer.buffer_items(),
        slice.no_metadata(),
        slice.is_whole(),
        with_metadata@ == buffer.buffer_items(),
        with_metadata.is_whole(),
{
}

/// A slice that is made of a buffer which lends its metadata has its items, and is given back as that
/// buffer.
pub proof fn law_lender_is_given_back<
    S: Slice + ?Sized,
    L: AnyBufferLayout,
    B: Buffer<S> + BorrowMetadata,
>(slice: ArcSlice<S, L>, buffer: B)
    requires
        slice.made_of_lender::<B>(buffer),
    ensures
        slice@ == buffer.buffer_items(),
        slice.gives_back::<B>(),
        slice.holds::<B>(buffer),
        forall|other: B| #[trigger] slice.holds::<B>(other) ==> other == buffer,
{
}

/// A vector whose room is all taken is given back as a boxed slice, too, unless its items have to be
/// dropped; and one whose room is not is not.
pub proof fn law_full_vector_is_given_back_boxed<S: Slice + ?Sized, L: Layout, B: Buffer<S>>(
    slice: ArcSlice<S, L>,
)
    requires
        B::class() is Boxed,
        slice.buffer() matches Some(VTableOrCapacity::VTable(vtable)) && vtable.kind is Vector,
        slice.vector_of::<S>(),
    ensures
        slice.can_take::<B>() <==> (slice.buffer() matches Some(VTableOrCapacity::VTable(vtable))
            && slice@.len() == vtable.capacity),
{
}

/// What the crate allocated itself is not given back as any buffer.
pub proof fn law_own_slice_is_no_buffer<S: Slice + ?Sized, L: Layout, B: Buffer<S>>(
    slice: ArcSlice<S, L>,
)
    requires
        slice.buffer() matches Some(VTableOrCapacity::Capacity(_)),
    ensures
        !slice.can_take::<B>(),
{
}

/// A slice that is cut twice in place stands where it would after one cut.
pub proof fn law_cuts_add_up<S: Slice + ?Sized, L: Layout>(
    whole: ArcSlice<S, L>,
    once: ArcSlice<S, L>,
    twice: ArcSlice<S, L>,
    first: int,
    second: int,
)
    requires
        0 <= first,
        0 <= second,
        first + second <= whole@.len(),
        once.stays_in(whole),
        once.position() == whole.position() + first,
        once@ == whole@.skip(first),
        twice.stays_in(once),
        twice.position() == once.position() + second,
        twice@ == once@.skip(second),
    ensures
        twice.stays_in(whole),
        twice.position() == whole.position() + first + second,
        twice@ == whole@.skip(first + second),
        twice.buffer() == whole.buffer(),
        twice.is_foreign() == whole.is_foreign(),
{
    assert(twice@ =~= whole@.skip(first + second));
}

/// Items of its own have a buffer with room for just so many of them; none need no buffer, where the
/// layout refers to static slices as they are.
pub proof fn law_own_items_have_just_their_room<L: Layout>(len: int)
    requires
        0 <= len <= usize::MAX,
    ensures
        kept_as::<L>(len) is None <==> L::static_data() && len == 0,
        kept_as::<L>(len) matches Some(buffer) ==> buffer == VTableOrCapacity::Capacity(len as usize),
{
}

/// A slice of a vector is all of it, and has its room; any part of it can be given back, if the layout
/// refers to it as it is.
pub proof fn law_vector_has_its_room<S: Slice + ?Sized, L: Layout>(
    slice: ArcSlice<S, L>,
    capacity: int,
)
    requires
        slice.is_vec_with(capacity),
    ensures
        slice@.len() <= capacity,
        slice.is_whole(),
        slice.buffer() is None ==> capacity == 0 && L::static_data(),
        slice.buffer() matches Some(buffer) ==> {
            &&& buffer matches VTableOrCapacity::VTable(vtable)
            &&& vtable.capacity == capacity
            &&& vtable.mutable
            &&& vtable.resizable
            &&& !(vtable.kind is Buffer)
            &&& L::direct_vec(slice@.len() as int, capacity) ==> vtable.kind is Vector
        },
{
}

/// Another's buffer can only be read.
pub proof fn law_another_is_read_only()
    ensures
        read_only_buffer() matches Some(VTableOrCapacity::VTable(vtable)) && vtable.kind is Buffer
            && !vtable.mutable && !vtable.resizable,
{
}

/// A part that was taken by reference is made of the items from the one on at whose address the
/// reference stands, and as many as it refers to.
pub proof fn law_reference_gives_its_part<S: Subsliceable + ?Sized, L: Layout>(
    slice: ArcSlice<S, L>,
    subset: Seq<S::Item>,
    part: ArcSlice<S, L>,
)
    requires
        slice.has_found(subset, Some(part)),
    ensures
        exists|start: usize, sub_start: usize, offset: int|
            {
                &&& #[trigger] stand_at(slice@, start, subset, sub_start)
                &&& start + offset * vstd::layout::size_of::<S::Item>() == sub_start
                &&& #[trigger] slice.has_part(part, offset, subset.len() as int)
                &&& 0 <= offset
                &&& offset + subset.len() <= slice@.len()
                &&& part@.len() == subset.len()
            },
{
    let found = choose|found: Option<int>| #[trigger]
        found_at::<S>(slice@, subset, found) && match (found, Some(part)) {
            (Some(offset), Some(part)) => slice.has_part(part, offset, subset.len() as int) && 0
                <= offset <= slice@.len() - subset.len(),
            (None, None) => true,
            _ => false,
        };
    let (start, sub_start) = choose|start: usize, sub_start: usize| #[trigger]
        stand_at(slice@, start, subset, sub_start) && found == part_offset::<S>(
            slice@,
            start,
            subset,
            sub_start,
        );
    law_found_part_stands_there::<S>(slice@, start, subset, sub_start);
    let offset = found->0;
    assert(stand_at(slice@, start, subset, sub_start) && slice.has_part(
        part,
        offset,
        subset.len() as int,
    ));
}

} // verus!
