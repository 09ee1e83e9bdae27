//! Small slices of bytes, which are kept inline, and slices that are either small or shared.

use crate::buffer::{Emptyable, Slice, Subsliceable};
use crate::error::AllocError;
use crate::layout::{ArcLayout, BoxedSliceLayout, Layout, RawLayout, StaticLayout, VecLayout};
use crate::slice::ArcSlice;
use crate::storage::allocation;
use crate::utils::{is_cut_point, offset_len, offset_len_spec, RangeBounds};
use core::marker::PhantomData;
use either::Either;
use vstd::prelude::*;
use vstd::slice::slice_subrange;

verus! {

/// [`either::Either`].
#[verifier::external_type_specification]
#[verifier::reject_recursive_types(L)]
#[verifier::reject_recursive_types(R)]
pub struct ExEither<L, R>(either::Either<L, R>);

/// The largest number of bytes that any layout keeps inline.
pub const INLINED_CAPACITY: usize = 30;

/// How many bytes a layout keeps inline: as many as a shared slice of that layout takes up, but for
/// two that tell where they start and how many there are.
pub trait InlinedLayout: Layout {
    /// The number of words that a shared slice takes up.
    spec fn words() -> int;

    /// The number of words that a shared slice takes up.
    fn word_count() -> (r: usize)
        ensures
            r == Self::words(),
            3 <= r <= 4,
    ;
}

impl<const ANY_BUFFER: bool, const STATIC: bool> InlinedLayout for ArcLayout<ANY_BUFFER, STATIC> {
    open spec fn words() -> int {
        3
    }

    fn word_count() -> (r: usize) {
        3
    }
}

impl InlinedLayout for BoxedSliceLayout {
    open spec fn words() -> int {
        3
    }

    fn word_count() -> (r: usize) {
        3
    }
}

impl InlinedLayout for VecLayout {
    open spec fn words() -> int {
        4
    }

    fn word_count() -> (r: usize) {
        4
    }
}

impl InlinedLayout for RawLayout {
    open spec fn words() -> int {
        4
    }

    fn word_count() -> (r: usize) {
        4
    }
}

/// The largest number of bytes that layout `L` keeps inline.
pub open spec fn max_len_spec<L: InlinedLayout>() -> int {
    L::words() * vstd::layout::size_of::<usize>() - 2
}

/// The largest number of bytes that layout `L` keeps inline.
pub fn max_len<L: InlinedLayout>() -> (r: usize)
    ensures
        r == max_len_spec::<L>(),
        r <= INLINED_CAPACITY,
{
    broadcast use vstd::layout::layout_of_primitives;

    let words: usize = L::word_count();
    let size: usize = core::mem::size_of::<usize>();
    proof {
        assert(size == 4 || size == 8);
        assert(words * size <= 4 * size) by (nonlinear_arith)
            requires
                words <= 4,
        ;
        assert(words * size >= 3 * size) by (nonlinear_arith)
            requires
                words >= 3,
        ;
    }
    words * size - 2
}

/// A slice of bytes that is kept inline.
#[verifier::reject_recursive_types(S)]
#[verifier::reject_recursive_types(L)]
pub struct SmallSlice<S: Slice<Item = u8> + ?Sized, L: InlinedLayout> {
    data: [u8; 30],
    offset: u8,
    length: u8,
    slice: PhantomData<S>,
    layout: PhantomData<L>,
}

impl<S: Slice<Item = u8> + ?Sized, L: InlinedLayout> SmallSlice<S, L> {
    /// What every value of the type satisfies.
    #[verifier::type_invariant]
    pub closed spec fn wf(self) -> bool {
        &&& self.offset + self.length <= INLINED_CAPACITY
        &&& self.length <= max_len_spec::<L>()
        &&& S::valid(self.view())
    }

    /// The bytes of the slice.
    pub closed spec fn view(self) -> Seq<u8> {
        self.data@.subrange(self.offset as int, self.offset + self.length)
    }

    /// An empty slice.
    pub fn empty() -> (r: Self) where S: Emptyable
        ensures
            r@ == Seq::<u8>::empty(),
    {
        proof {
            S::lemma_empty_valid();
        }
        let _ = max_len::<L>();
        let data: [u8; 30] = [0;30];
        assert(data@.subrange(0, 0) =~= Seq::empty());
        SmallSlice { data, offset: 0, length: 0, slice: PhantomData, layout: PhantomData }
    }

    /// Copies a slice, if it is small enough to be kept inline.
    pub fn new(slice: &S) -> (r: Option<Self>)
        ensures
            match r {
                Some(small) => slice.items().len() <= max_len_spec::<L>() && small@
                    == slice.items(),
                None => slice.items().len() > max_len_spec::<L>() >= 0,
            },
    {
        proof {
            slice.lemma_items_valid();
        }
        let items = slice.to_slice();
        if items.len() > max_len::<L>() {
            return None;
        }
        let mut data: [u8; 30] = [0;30];
        let mut i: usize = 0;
        while i < items.len()
            invariant
                i <= items@.len() <= INLINED_CAPACITY,
                data@.len() == INLINED_CAPACITY,
                data@.take(i as int) =~= items@.take(i as int),
            decreases items@.len() - i,
        {
            data[i] = items[i];
            i += 1;
        }
        assert(data@.subrange(0, items@.len() as int) =~= items@);
        Some(
            SmallSlice {
                data,
                offset: 0,
                length: items.len() as u8,
                slice: PhantomData,
                layout: PhantomData,
            },
        )
    }

    /// Returns the number of bytes in the slice.
    pub fn len(&self) -> (r: usize)
        ensures
            r == self@.len(),
            r <= max_len_spec::<L>(),
    {
        proof {
            use_type_invariant(self);
        }
        self.length as usize
    }

    /// Returns `true` if the slice has no byte.
    pub fn is_empty(&self) -> (r: bool)
        ensures
            r == (self@.len() == 0),
    {
        self.len() == 0
    }

    /// Returns the bytes of the slice.
    pub(crate) fn as_items(&self) -> (r: &[u8])
        ensures
            r@ == self@,
            S::valid(self@),
    {
        proof {
            use_type_invariant(self);
        }
        slice_subrange(
            self.data.as_slice(),
            self.offset as usize,
            self.offset as usize + self.length as usize,
        )
    }

    /// Returns the slice.
    pub fn as_slice(&self) -> (r: &S)
        ensures
            r.items() == self@,
    {
        S::from_slice_unchecked(self.as_items())
    }

    /// Advances the start of the slice by `offset` bytes.
    pub fn advance(&mut self, offset: usize) where S: Subsliceable
        requires
            offset <= old(self)@.len(),
            is_cut_point::<S>(old(self)@, offset as int),
        ensures
            final(self)@ == old(self)@.skip(offset as int),
    {
        let length: usize = self.len();
        proof {
            use_type_invariant(&*self);
            S::lemma_ends_are_boundaries(self@);
        }
        let mut part = self.part(offset, length - offset);
        assert(part@ =~= self@.skip(offset as int));
        core::mem::swap(self, &mut part);
    }

    /// Truncates the slice to the first `len` bytes; does nothing if there are no more.
    pub fn truncate(&mut self, len: usize) where S: Subsliceable
        requires
            len < old(self)@.len() ==> is_cut_point::<S>(old(self)@, len as int),
        ensures
            final(self)@ == if len < old(self)@.len() {
                old(self)@.take(len as int)
            } else {
                old(self)@
            },
    {
        if len < self.len() {
            proof {
                use_type_invariant(&*self);
                S::lemma_ends_are_boundaries(self@);
            }
            let mut part = self.part(0, len);
            assert(part@ =~= self@.take(len as int));
            core::mem::swap(self, &mut part);
        }
    }

    fn part(&self, offset: usize, length: usize) -> (r: Self) where S: Subsliceable
        requires
            offset + length <= self@.len(),
            S::boundary(self@, offset as int),
            S::boundary(self@, offset + length),
        ensures
            r@ == self@.subrange(offset as int, offset + length),
    {
        proof {
            use_type_invariant(self);
            S::lemma_subslice_valid(self@, offset as int, offset + length);
            assert(self.data@.subrange(self.offset + offset, self.offset + offset + length)
                =~= self@.subrange(offset as int, offset + length));
        }
        SmallSlice {
            data: self.data,
            offset: self.offset + offset as u8,
            length: length as u8,
            slice: PhantomData,
            layout: PhantomData,
        }
    }

    /// Extracts a subslice.
    pub fn subslice<R: RangeBounds>(&self, range: R) -> (r: Self) where S: Subsliceable
        requires
            range.usable(),
            offset_len_spec::<S>(self@, range.lower(), range.upper()) is Ok,
        ensures
            offset_len_spec::<S>(self@, range.lower(), range.upper()) matches Ok((offset, length))
                && r@ == self@.subrange(offset, offset + length),
    {
        match offset_len(self.as_slice(), &range) {
            Ok((offset, length)) => self.part(offset, length),
            Err(_) => vstd::pervasive::unreached(),
        }
    }
}

impl<S: Slice<Item = u8> + ?Sized, L: InlinedLayout> Clone for SmallSlice<S, L> {
    fn clone(&self) -> (r: Self)
        ensures
            r == *self,
    {
        *self
    }
}

impl<S: Slice<Item = u8> + ?Sized, L: InlinedLayout> Copy for SmallSlice<S, L> {

}

impl<S: Slice<Item = u8> + ?Sized, L: InlinedLayout> core::ops::Deref for SmallSlice<S, L> {
    type Target = S;

    fn deref(&self) -> (r: &S)
        ensures
            r.items() == self@,
    {
        self.as_slice()
    }
}

impl<S: Emptyable<Item = u8> + ?Sized, L: InlinedLayout> Default for SmallSlice<S, L> {
    fn default() -> (r: Self)
        ensures
            r@ == Seq::<u8>::empty(),
    {
        Self::empty()
    }
}

/// A slice of bytes that is kept inline if it is small, and shared if it is not.
#[verifier::reject_recursive_types(S)]
#[verifier::reject_recursive_types(L)]
pub struct SmallArcSlice<S: Slice<Item = u8> + ?Sized, L: InlinedLayout> {
    inner: Either<SmallSlice<S, L>, ArcSlice<S, L>>,
}

impl<S: Slice<Item = u8> + ?Sized, L: InlinedLayout> SmallArcSlice<S, L> {
    /// The slice, which is small or shared.
    pub closed spec fn either(self) -> Either<SmallSlice<S, L>, ArcSlice<S, L>> {
        self.inner
    }

    /// The bytes of the slice.
    pub open spec fn view(self) -> Seq<u8> {
        match self.either() {
            Either::Left(small) => small@,
            Either::Right(arc) => arc@,
        }
    }

    /// Whether the slice is kept inline.
    pub open spec fn is_small(self) -> bool {
        self.either() is Left
    }

    /// A slice that is kept inline.
    pub fn from_small(small: SmallSlice<S, L>) -> (r: Self)
        ensures
            r.either() == Either::<SmallSlice<S, L>, ArcSlice<S, L>>::Left(small),
    {
        SmallArcSlice { inner: Either::Left(small) }
    }

    /// A slice that is shared, whatever its size.
    pub fn from_arc(arc: ArcSlice<S, L>) -> (r: Self)
        ensures
            r.either() == Either::<SmallSlice<S, L>, ArcSlice<S, L>>::Right(arc),
    {
        SmallArcSlice { inner: Either::Right(arc) }
    }

    /// A new empty slice.
    pub fn new() -> (r: Self) where S: Emptyable
        ensures
            r@ == Seq::<u8>::empty(),
            r.is_small(),
    {
        Self::from_small(SmallSlice::empty())
    }

    /// How a slice made of `len` bytes is kept: inline if they are few enough, else in a buffer of its
    /// own.
    pub open spec fn kept_small(self, len: int) -> bool {
        match self.either() {
            Either::Left(_) => len <= max_len_spec::<L>(),
            Either::Right(arc) => len > max_len_spec::<L>() && arc.kept_own(len),
        }
    }

    /// Copies a slice.
    pub fn from_slice(slice: &S) -> (r: Self)
        ensures
            r@ == slice.items(),
            r.kept_small(slice.items().len() as int),
    {
        match SmallSlice::new(slice) {
            Some(small) => Self::from_small(small),
            None => Self::from_arc(ArcSlice::from_slice(slice)),
        }
    }

    /// Tries copying a slice, returning an error if an allocation fails.
    pub fn try_from_slice(slice: &S) -> (r: Result<Self, AllocError>)
        ensures
            match r {
                Ok(this) => this@ == slice.items() && this.kept_small(slice.items().len() as int),
                Err(_) => slice.items().len() > max_len_spec::<L>(),
            },
            slice.items().len() > max_len_spec::<L>() ==> allocation::<u8, AllocError>(
                slice.items().len() as int,
                r is Ok,
            ),
    {
        match SmallSlice::new(slice) {
            Some(small) => Ok(Self::from_small(small)),
            None => match ArcSlice::try_from_slice(slice) {
                Ok(arc) => Ok(Self::from_arc(arc)),
                Err(error) => Err(error),
            },
        }
    }

    /// Returns the slice as what it is.
    pub fn as_either(&self) -> (r: Either<&SmallSlice<S, L>, &ArcSlice<S, L>>)
        ensures
            match (r, self.either()) {
                (Either::Left(a), Either::Left(b)) => *a == b,
                (Either::Right(a), Either::Right(b)) => *a == b,
                _ => false,
            },
    {
        match &self.inner {
            Either::Left(small) => Either::Left(small),
            Either::Right(arc) => Either::Right(arc),
        }
    }

    /// Turns the slice into what it is.
    pub fn into_either(self) -> (r: Either<SmallSlice<S, L>, ArcSlice<S, L>>)
        ensures
            r == self.either(),
    {
        self.inner
    }

    /// Returns the number of bytes in the slice.
    pub fn len(&self) -> (r: usize)
        ensures
            r == self@.len(),
    {
        match self.as_either() {
            Either::Left(small) => small.len(),
            Either::Right(arc) => arc.len(),
        }
    }

    /// Returns `true` if the slice has no byte.
    pub fn is_empty(&self) -> (r: bool)
        ensures
            r == (self@.len() == 0),
    {
        self.len() == 0
    }

    /// Returns the bytes of the slice.
    pub(crate) fn as_items(&self) -> (r: &[u8])
        ensures
            r@ == self@,
    {
        match self.as_either() {
            Either::Left(small) => small.as_items(),
            Either::Right(arc) => arc.as_items(),
        }
    }

    /// Returns the slice.
    pub fn as_slice(&self) -> (r: &S)
        ensures
            r.items() == self@,
    {
        match self.as_either() {
            Either::Left(small) => small.as_slice(),
            Either::Right(arc) => arc.as_slice(),
        }
    }

    /// Tries cloning the slice.
    pub fn try_clone(&self) -> (r: Result<Self, AllocError>)
        ensures
            r == Ok::<Self, AllocError>(*self),
    {
        Ok(self.clone())
    }

    /// Whether the slice made of `length` of the bytes of this one, from the one at `offset` on, is
    /// `part`: it is kept as this one is.
    pub open spec fn has_part(self, part: Self, offset: int, length: int) -> bool {
        &&& part@ == self@.subrange(offset, offset + length)
        &&& match (self.either(), part.either()) {
            (Either::Left(_), Either::Left(_)) => true,
            (Either::Right(whole), Either::Right(part)) => whole.has_part(part, offset, length),
            _ => false,
        }
    }

    /// Extracts a subslice, which is kept as the slice is.
    pub fn subslice<R: RangeBounds>(&self, range: R) -> (r: Self) where S: Subsliceable
        requires
            range.usable(),
            offset_len_spec::<S>(self@, range.lower(), range.upper()) is Ok,
        ensures
            offset_len_spec::<S>(self@, range.lower(), range.upper()) matches Ok((offset, length))
                && self.has_part(r, offset, length),
    {
        match self.as_either() {
            Either::Left(small) => Self::from_small(small.subslice(range)),
            Either::Right(arc) => Self::from_arc(arc.subslice(range)),
        }
    }

    /// Tries extracting a subslice.
    pub fn try_subslice<R: RangeBounds>(&self, range: R) -> (r: Result<Self, AllocError>) where
        S: Subsliceable,

        requires
            range.usable(),
            offset_len_spec::<S>(self@, range.lower(), range.upper()) is Ok,
        ensures
            r matches Ok(part) && offset_len_spec::<S>(self@, range.lower(), range.upper()) matches Ok(
                (offset, length),
            ) && self.has_part(part, offset, length),
    {
        Ok(self.subslice(range))
    }

    /// Advances the start of the slice by `offset` bytes.
    pub fn _advance(&mut self, offset: usize) where S: Subsliceable
        requires
            offset <= old(self)@.len(),
            is_cut_point::<S>(old(self)@, offset as int),
        ensures
            final(self)@ == old(self)@.skip(offset as int),
            match (old(self).either(), final(self).either()) {
                (Either::Left(_), Either::Left(_)) => true,
                (Either::Right(before), Either::Right(after)) => after.stays_in(before)
                    && after.position() == before.position() + offset,
                _ => false,
            },
    {
        match self.as_either_mut() {
            Either::Left(small) => small.advance(offset),
            Either::Right(arc) => arc.advance(offset),
        }
    }

    /// Returns the slice as what it is, to be changed.
    pub fn as_either_mut(&mut self) -> (r: Either<&mut SmallSlice<S, L>, &mut ArcSlice<S, L>>)
        ensures
            match r {
                Either::Left(small) => old(self).either() == Either::<
                    SmallSlice<S, L>,
                    ArcSlice<S, L>,
                >::Left(*small) && final(self).either() == Either::<
                    SmallSlice<S, L>,
                    ArcSlice<S, L>,
                >::Left(*final(small)),
                Either::Right(arc) => old(self).either() == Either::<
                    SmallSlice<S, L>,
                    ArcSlice<S, L>,
                >::Right(*arc) && final(self).either() == Either::<
                    SmallSlice<S, L>,
                    ArcSlice<S, L>,
                >::Right(*final(arc)),
            },
    {
        match &mut self.inner {
            Either::Left(small) => Either::Left(small),
            Either::Right(arc) => Either::Right(arc),
        }
    }
}

impl<S: Slice<Item = u8> + ?Sized, L: InlinedLayout> Clone for SmallArcSlice<S, L> {
    fn clone(&self) -> (r: Self)
        ensures
            r == *self,
    {
        match self.as_either() {
            Either::Left(small) => Self::from_small(*small),
            Either::Right(arc) => Self::from_arc(arc.clone()),
        }
    }
}

impl<S: Slice<Item = u8> + ?Sized, L: InlinedLayout> core::ops::Deref for SmallArcSlice<S, L> {
    type Target = S;

    fn deref(&self) -> (r: &S)
        ensures
            r.items() == self@,
    {
        self.as_slice()
    }
}

impl<S: Emptyable<Item = u8> + ?Sized, L: InlinedLayout> Default for SmallArcSlice<S, L> {
    fn default() -> (r: Self)
        ensures
            r@ == Seq::<u8>::empty(),
            r.is_small(),
    {
        Self::new()
    }
}

impl<L: InlinedLayout> SmallArcSlice<[u8], L> {
    /// Moves an array.
    pub fn from_array<const N: usize>(array: [u8; N]) -> (r: Self)
        ensures
            r@ == array@,
            r.kept_small(N as int),
    {
        match SmallSlice::<[u8], L>::new(array.as_slice()) {
            Some(small) => Self::from_small(small),
            None => Self::from_arc(ArcSlice::<[u8], L>::from_array(array)),
        }
    }

    /// Tries moving an array, returning it if an allocation fails.
    pub fn try_from_array<const N: usize>(array: [u8; N]) -> (r: Result<Self, [u8; N]>)
        ensures
            match r {
                Ok(this) => this@ == array@ && this.kept_small(N as int),
                Err(same) => same == array && N > max_len_spec::<L>(),
            },
            N > max_len_spec::<L>() ==> allocation::<u8, AllocError>(N as int, r is Ok),
    {
        match SmallSlice::<[u8], L>::new(array.as_slice()) {
            Some(small) => Ok(Self::from_small(small)),
            None => match ArcSlice::<[u8], L>::try_from_array(array) {
                Ok(arc) => Ok(Self::from_arc(arc)),
                Err(array) => Err(array),
            },
        }
    }
}

impl<L: InlinedLayout + StaticLayout> SmallArcSlice<[u8], L> {
    /// A slice of bytes that lives as long as the program.
    pub fn from_static(slice: &'static [u8]) -> (r: Self)
        ensures
            r@ == slice@,
            r.either() matches Either::Right(arc) && arc.is_static(),
    {
        Self::from_arc(ArcSlice::<[u8], L>::from_static(slice))
    }
}

impl<L: InlinedLayout + StaticLayout> SmallArcSlice<str, L> {
    /// A string that lives as long as the program.
    pub fn from_static(slice: &'static str) -> (r: Self)
        ensures
            r@ == slice.items(),
            r.either() matches Either::Right(arc) && arc.is_static(),
    {
        Self::from_arc(ArcSlice::<str, L>::from_static(slice))
    }
}

/// A shared slice of three words leaves room for three words less two bytes, one of four words for four
/// words less two.
pub proof fn law_inlined_lengths<const ANY_BUFFER: bool, const STATIC: bool>()
    ensures
        max_len_spec::<ArcLayout<ANY_BUFFER, STATIC>>() + 2 == 3 * vstd::layout::size_of::<usize>(),
        max_len_spec::<BoxedSliceLayout>() + 2 == 3 * vstd::layout::size_of::<usize>(),
        max_len_spec::<VecLayout>() + 2 == 4 * vstd::layout::size_of::<usize>(),
        max_len_spec::<RawLayout>() + 2 == 4 * vstd::layout::size_of::<usize>(),
{
}

/// A slice that was made of few enough bytes is kept inline, and any other is not.
pub proof fn law_small_is_kept_inline<S: Slice<Item = u8> + ?Sized, L: InlinedLayout>(
    slice: SmallArcSlice<S, L>,
    len: int,
)
    requires
        slice.kept_small(len),
    ensures
        slice.is_small() <==> len + 2 <= L::words() * vstd::layout::size_of::<usize>(),
{
}

/// A part of a slice has those of its bytes, and is kept inline if the slice is.
pub proof fn law_small_part<S: Slice<Item = u8> + ?Sized, L: InlinedLayout>(
    whole: SmallArcSlice<S, L>,
    part: SmallArcSlice<S, L>,
    offset: int,
    length: int,
)
    requires
        whole.has_part(part, offset, length),
        0 <= offset,
        0 <= length,
        offset + length <= whole@.len(),
    ensures
        part@.len() == length,
        forall|i: int| 0 <= i < length ==> part@[i] == #[trigger] whole@[offset + i],
        part.is_small() == whole.is_small(),
{
}

} // verus!
