//! The slices that can be shared, and the buffers that can hold them.

use crate::std_text::utf8_error;
use std::sync::Arc as StdArc;
use vstd::prelude::*;
use vstd::utf8::encode_utf8;
use vstd::utf8::is_char_boundary;
use vstd::utf8::valid_utf8;

verus! {

/// [`core::mem::needs_drop`], which may say `true` for a type whose drop does nothing: nothing is
/// promised of its answer.
#[verifier::external_body]
fn type_needs_drop<T>() -> bool
    no_unwind
{
    core::mem::needs_drop::<T>()
}

/// Whether `answer` is what was answered when asked whether dropping a value of type `T` may do
/// something.
pub closed spec fn drop_answer<T>(answer: bool) -> bool {
    call_ensures(type_needs_drop::<T>, (), answer)
}

/// [`Vec::capacity`], which is at least the length of the vector.
#[verifier::external_body]
pub(crate) fn vec_room<T>(vec: &Vec<T>) -> (r: usize)
    ensures
        r >= vec@.len(),
{
    vec.capacity()
}

/// [`String::capacity`], which is at least the number of bytes in the string.
#[verifier::external_body]
fn string_room(s: &String) -> (r: usize)
    ensures
        r >= encode_utf8(s@).len(),
{
    s.capacity()
}

/// [`Vec::into_boxed_slice`], which keeps the items.
#[verifier::external_body]
fn vec_into_boxed<T>(vec: Vec<T>) -> (r: Box<[T]>)
    ensures
        r@ == vec@,
{
    vec.into_boxed_slice()
}

/// A slice, e.g. `[T]` or `str`: a sequence of items that satisfies a validity condition.
pub trait Slice: Send + Sync + 'static {
    /// The slice item, e.g. `T` for `[T]` or `u8` for `str`.
    type Item: Send + Sync + 'static;

    /// The vector of the slice type, e.g. `Vec<T>` for `[T]` or `String` for `str`.
    type Vec: Send + Sync + 'static;

    /// Why items do not make a slice.
    type TryFromSliceError;

    /// The items of the slice.
    spec fn items(&self) -> Seq<Self::Item>;

    /// Which items make a slice.
    spec fn valid(items: Seq<Self::Item>) -> bool;

    /// Why items that are not valid do not make a slice.
    spec fn refusal(items: Seq<Self::Item>) -> Self::TryFromSliceError;

    /// The items of a vector.
    spec fn vec_items(vec: Self::Vec) -> Seq<Self::Item>;

    /// The items of a slice are valid.
    proof fn lemma_items_valid(&self)
        ensures
            Self::valid(self.items()),
    ;

    /// The items of a vector are valid.
    proof fn lemma_vec_valid(vec: Self::Vec)
        ensures
            Self::valid(Self::vec_items(vec)),
    ;

    /// Converts a slice to its underlying item slice.
    fn to_slice(&self) -> (r: &[Self::Item])
        ensures
            r@ == self.items(),
    ;

    /// Converts a boxed slice to its underlying boxed item slice.
    fn into_boxed_slice(boxed: Box<Self>) -> (r: Box<[Self::Item]>)
        ensures
            r@ == boxed.items(),
    ;

    /// Converts a vector to its underlying item vector.
    fn into_vec(vec: Self::Vec) -> (r: Vec<Self::Item>)
        ensures
            r@ == Self::vec_items(vec),
    ;

    /// The number of items for which a vector has room.
    fn vec_capacity(vec: &Self::Vec) -> (r: usize)
        ensures
            r >= Self::vec_items(*vec).len(),
    ;

    /// Converts back a slice from its underlying item slice.
    fn from_slice_unchecked(slice: &[Self::Item]) -> (r: &Self)
        requires
            Self::valid(slice@),
        ensures
            r.items() == slice@,
    ;

    /// Converts back a mutable slice from its underlying item slice.
    fn from_slice_mut_unchecked(slice: &mut [Self::Item]) -> (r: &mut Self)
        requires
            Self::valid(old(slice)@),
        ensures
            r.items() == old(slice)@,
            final(slice)@ == final(r).items(),
    ;

    /// Converts back a boxed slice from its underlying boxed item slice.
    fn from_boxed_slice_unchecked(boxed: Box<[Self::Item]>) -> (r: Box<Self>)
        requires
            Self::valid(boxed@),
        ensures
            r.items() == boxed@,
    ;

    /// Converts back a vector from its underlying item vector.
    fn from_vec_unchecked(vec: Vec<Self::Item>) -> (r: Self::Vec)
        requires
            Self::valid(vec@),
        ensures
            Self::vec_items(r) == vec@,
    ;

    /// Tries converting an item slice to the slice type.
    fn try_from_slice(slice: &[Self::Item]) -> (r: Result<&Self, Self::TryFromSliceError>)
        ensures
            r is Ok <==> Self::valid(slice@),
            match r {
                Ok(s) => s.items() == slice@,
                Err(error) => error == Self::refusal(slice@),
            },
    ;

    /// Tries converting a mutable item slice to the slice type.
    fn try_from_slice_mut(slice: &mut [Self::Item]) -> (r: Result<
        &mut Self,
        Self::TryFromSliceError,
    >)
        ensures
            r is Ok <==> Self::valid(old(slice)@),
            match r {
                Ok(s) => s.items() == old(slice)@ && final(slice)@ == final(s).items(),
                Err(_) => final(slice)@ == old(slice)@,
            },
    ;

    /// Whether dropping an item may do something, as [`core::mem::needs_drop`] answers.
    fn needs_drop() -> (r: bool)
        ensures
            drop_answer::<Self::Item>(r),
        no_unwind when true
    ;
}

/// A slice that can be empty.
pub trait Emptyable: Slice {
    /// No item at all makes a slice.
    proof fn lemma_empty_valid()
        ensures
            Self::valid(Seq::empty()),
    ;
}

/// A slice that can be filled with a zero item.
pub trait Zeroable: Emptyable {
    /// The item whose bytes are all zero.
    spec fn zero() -> Self::Item;

    /// Any number of zero items makes a slice.
    proof fn lemma_zeroed_valid(n: nat)
        ensures
            Self::valid(Seq::new(n, |i: int| Self::zero())),
    ;

    /// The item whose bytes are all zero.
    fn zero_item() -> (r: Self::Item)
        ensures
            r == Self::zero(),
    ;
}

/// A slice that can be split into smaller subslices.
pub trait Subsliceable: Slice {
    /// Where the items can be cut.
    spec fn boundary(items: Seq<Self::Item>, at: int) -> bool;

    /// What stands between two boundaries is a slice.
    proof fn lemma_subslice_valid(items: Seq<Self::Item>, start: int, end: int)
        requires
            Self::valid(items),
            0 <= start <= end <= items.len(),
            Self::boundary(items, start),
            Self::boundary(items, end),
        ensures
            Self::valid(items.subrange(start, end)),
    ;

    /// A part is cut where the whole is.
    proof fn lemma_boundary_of_subslice(items: Seq<Self::Item>, start: int, end: int, at: int)
        requires
            Self::valid(items),
            0 <= start <= end <= items.len(),
            Self::boundary(items, start),
            Self::boundary(items, end),
            0 <= at <= end - start,
        ensures
            Self::boundary(items.subrange(start, end), at) == Self::boundary(items, start + at),
    ;

    /// Both ends are boundaries.
    proof fn lemma_ends_are_boundaries(items: Seq<Self::Item>)
        requires
            Self::valid(items),
        ensures
            Self::boundary(items, 0),
            Self::boundary(items, items.len() as int),
    ;

    /// Checks if a subslice is valid.
    fn check_subslice(&self, start: usize, end: usize) -> (r: bool)
        requires
            start <= end <= self.items().len(),
        ensures
            r == (Self::boundary(self.items(), start as int) && Self::boundary(
                self.items(),
                end as int,
            )),
    ;

    /// Same as `self.check_subslice(offset, self.len())`.
    fn check_advance(&self, offset: usize) -> (r: bool)
        requires
            offset <= self.items().len(),
        ensures
            r == Self::boundary(self.items(), offset as int),
    {
        proof {
            self.lemma_items_valid();
            Self::lemma_ends_are_boundaries(self.items());
        }
        self.check_subslice(offset, self.to_slice().len())
    }

    /// Same as `self.check_subslice(0, len)`.
    fn check_truncate(&self, len: usize) -> (r: bool)
        requires
            len <= self.items().len(),
        ensures
            r == Self::boundary(self.items(), len as int),
    {
        proof {
            self.lemma_items_valid();
            Self::lemma_ends_are_boundaries(self.items());
        }
        self.check_subslice(0, len)
    }

    /// Checks both halves of a split.
    fn check_split(&self, at: usize) -> (r: bool)
        requires
            at <= self.items().len(),
        ensures
            r == Self::boundary(self.items(), at as int),
    {
        self.check_truncate(at) && self.check_advance(at)
    }
}

/// A slice that can be concatenated.
pub trait Concatenable: Slice {
    /// Two slices one after the other make a slice.
    proof fn lemma_concat_valid(first: Seq<Self::Item>, second: Seq<Self::Item>)
        requires
            Self::valid(first),
            Self::valid(second),
        ensures
            Self::valid(first + second),
    ;
}

/// A slice that can be extended with arbitrary items.
pub trait Extendable: Concatenable {
    /// A slice with one more item is a slice.
    proof fn lemma_push_valid(items: Seq<Self::Item>, item: Self::Item)
        requires
            Self::valid(items),
        ensures
            Self::valid(items.push(item)),
    ;
}

impl<T: Send + Sync + 'static> Slice for [T] {
    type Item = T;

    type Vec = Vec<T>;

    type TryFromSliceError = core::convert::Infallible;

    open spec fn items(&self) -> Seq<T> {
        self@
    }

    open spec fn valid(items: Seq<T>) -> bool {
        true
    }

    open spec fn refusal(items: Seq<T>) -> core::convert::Infallible {
        arbitrary()
    }

    open spec fn vec_items(vec: Vec<T>) -> Seq<T> {
        vec@
    }

    proof fn lemma_items_valid(&self) {
    }

    proof fn lemma_vec_valid(vec: Vec<T>) {
    }

    fn to_slice(&self) -> (r: &[T]) {
        self
    }

    fn into_boxed_slice(boxed: Box<[T]>) -> (r: Box<[T]>) {
        boxed
    }

    fn into_vec(vec: Vec<T>) -> (r: Vec<T>) {
        vec
    }

    fn vec_capacity(vec: &Vec<T>) -> (r: usize) {
        vec_room(vec)
    }

    fn from_slice_unchecked(slice: &[T]) -> (r: &[T]) {
        slice
    }

    fn from_slice_mut_unchecked(slice: &mut [T]) -> (r: &mut [T]) {
        slice
    }

    fn from_boxed_slice_unchecked(boxed: Box<[T]>) -> (r: Box<[T]>) {
        boxed
    }

    fn from_vec_unchecked(vec: Vec<T>) -> (r: Vec<T>) {
        vec
    }

    fn try_from_slice(slice: &[T]) -> (r: Result<&[T], core::convert::Infallible>) {
        Ok(slice)
    }

    fn try_from_slice_mut(slice: &mut [T]) -> (r: Result<&mut [T], core::convert::Infallible>) {
        Ok(slice)
    }

    fn needs_drop() -> (r: bool) {
        type_needs_drop::<T>()
    }
}

impl<T: Send + Sync + 'static> Emptyable for [T] {
    proof fn lemma_empty_valid() {
    }
}

impl Zeroable for [u8] {
    open spec fn zero() -> u8 {
        0
    }

    proof fn lemma_zeroed_valid(n: nat) {
    }

    fn zero_item() -> (r: u8) {
        0
    }
}

impl<T: Send + Sync + 'static> Subsliceable for [T] {
    open spec fn boundary(items: Seq<T>, at: int) -> bool {
        true
    }

    proof fn lemma_subslice_valid(items: Seq<T>, start: int, end: int) {
    }

    proof fn lemma_boundary_of_subslice(items: Seq<T>, start: int, end: int, at: int) {
    }

    proof fn lemma_ends_are_boundaries(items: Seq<T>) {
    }

    fn check_subslice(&self, start: usize, end: usize) -> (r: bool) {
        true
    }
}

impl<T: Send + Sync + 'static> Concatenable for [T] {
    proof fn lemma_concat_valid(first: Seq<T>, second: Seq<T>) {
    }
}

impl<T: Send + Sync + 'static> Extendable for [T] {
    proof fn lemma_push_valid(items: Seq<T>, item: T) {
    }
}

impl Slice for str {
    type Item = u8;

    type Vec = String;

    type TryFromSliceError = core::str::Utf8Error;

    open spec fn items(&self) -> Seq<u8> {
        encode_utf8(self@)
    }

    open spec fn valid(items: Seq<u8>) -> bool {
        valid_utf8(items)
    }

    open spec fn refusal(items: Seq<u8>) -> core::str::Utf8Error {
        utf8_error(items)
    }

    open spec fn vec_items(vec: String) -> Seq<u8> {
        encode_utf8(vec@)
    }

    proof fn lemma_items_valid(&self) {
        vstd::utf8::encode_utf8_valid_utf8(self@);
    }

    proof fn lemma_vec_valid(vec: String) {
        vstd::utf8::encode_utf8_valid_utf8(vec@);
    }

    fn to_slice(&self) -> (r: &[u8]) {
        self.as_bytes()
    }

    fn into_boxed_slice(boxed: Box<str>) -> (r: Box<[u8]>) {
        boxed.into_boxed_bytes()
    }

    fn into_vec(vec: String) -> (r: Vec<u8>) {
        vec.into_bytes()
    }

    fn vec_capacity(vec: &String) -> (r: usize) {
        string_room(vec)
    }

    fn from_slice_unchecked(slice: &[u8]) -> (r: &str) {
        core::str::from_utf8(slice).unwrap()
    }

    fn from_slice_mut_unchecked(slice: &mut [u8]) -> (r: &mut str) {
        core::str::from_utf8_mut(slice).unwrap()
    }

    fn from_boxed_slice_unchecked(boxed: Box<[u8]>) -> (r: Box<str>) {
        String::from_utf8(boxed.into_vec()).unwrap().into_boxed_str()
    }

    fn from_vec_unchecked(vec: Vec<u8>) -> (r: String) {
        String::from_utf8(vec).unwrap()
    }

    fn try_from_slice(slice: &[u8]) -> (r: Result<&str, core::str::Utf8Error>) {
        core::str::from_utf8(slice)
    }

    fn try_from_slice_mut(slice: &mut [u8]) -> (r: Result<&mut str, core::str::Utf8Error>) {
        core::str::from_utf8_mut(slice)
    }

    fn needs_drop() -> (r: bool) {
        type_needs_drop::<u8>()
    }
}

/// Whether a string can be cut at `offset`.
pub fn check_char_boundary(s: &str, offset: usize) -> (r: bool)
    ensures
        r == is_char_boundary(encode_utf8(s@), offset as int),
{
    s.is_char_boundary(offset)
}

impl Emptyable for str {
    proof fn lemma_empty_valid() {
        assert(valid_utf8(Seq::<u8>::empty()));
    }
}

impl Zeroable for str {
    open spec fn zero() -> u8 {
        0
    }

    proof fn lemma_zeroed_valid(n: nat) {
        let zeroed = Seq::new(n, |i: int| <str as Zeroable>::zero());
        let nul = Seq::new(n, |i: int| '\0');
        assert(vstd::utf8::is_ascii_chars(nul));
        vstd::utf8::is_ascii_chars_encode_utf8(nul);
        assert(encode_utf8(nul) =~= zeroed);
        vstd::utf8::encode_utf8_valid_utf8(nul);
    }

    fn zero_item() -> (r: u8) {
        0
    }
}

impl Subsliceable for str {
    open spec fn boundary(items: Seq<u8>, at: int) -> bool {
        is_char_boundary(items, at)
    }

    proof fn lemma_subslice_valid(items: Seq<u8>, start: int, end: int) {
        lemma_utf8_subrange(items, start, end);
    }

    proof fn lemma_boundary_of_subslice(items: Seq<u8>, start: int, end: int, at: int) {
        lemma_utf8_subrange(items, start, end);
    }

    proof fn lemma_ends_are_boundaries(items: Seq<u8>) {
        vstd::utf8::is_char_boundary_start_end_of_seq(items);
    }

    fn check_subslice(&self, start: usize, end: usize) -> (r: bool) {
        check_char_boundary(self, start) && check_char_boundary(self, end)
    }
}

/// What stands between two character boundaries of UTF-8 is UTF-8.
pub proof fn lemma_utf8_subrange(bytes: Seq<u8>, start: int, end: int)
    requires
        valid_utf8(bytes),
        0 <= start <= end <= bytes.len(),
        is_char_boundary(bytes, start),
        is_char_boundary(bytes, end),
    ensures
        valid_utf8(bytes.subrange(start, end)),
        forall|at: int|
            0 <= at <= end - start ==> #[trigger] is_char_boundary(bytes.subrange(start, end), at)
                == is_char_boundary(bytes, start + at),
{
    let head = bytes.subrange(0, end);
    vstd::utf8::valid_utf8_split(bytes, end);
    vstd::utf8::is_char_boundary_start_end_of_seq(head);
    if start < end {
        vstd::utf8::is_char_boundary_iff_not_is_continuation_byte(bytes, start);
        vstd::utf8::is_char_boundary_iff_not_is_continuation_byte(head, start);
    }
    vstd::utf8::valid_utf8_split(head, start);
    let part = bytes.subrange(start, end);
    assert(head.subrange(start, end) =~= part);
    vstd::utf8::is_char_boundary_start_end_of_seq(part);
    assert forall|at: int| 0 <= at <= end - start implies #[trigger] is_char_boundary(part, at)
        == is_char_boundary(bytes, start + at) by {
        if at < end - start {
            vstd::utf8::is_char_boundary_iff_not_is_continuation_byte(part, at);
            vstd::utf8::is_char_boundary_iff_not_is_continuation_byte(bytes, start + at);
        }
    }
}

impl Concatenable for str {
    proof fn lemma_concat_valid(first: Seq<u8>, second: Seq<u8>) {
        vstd::utf8::valid_utf8_concat(first, second);
    }
}

/// How a buffer keeps its slice, as far as the crate can take it apart.
#[derive(Debug, Clone, Copy, PartialEq, Eq, Structural)]
pub enum BufferClass {
    /// A slice that lives as long as the program.
    Static,
    /// A boxed slice.
    Boxed,
    /// The vector of the slice type.
    Vector,
    /// Anything else, which is kept as it is.
    Other,
}

impl BufferClass {
    /// Whether a buffer of the class is no more than a vector of items.
    pub open spec fn is_owned_items(self) -> bool {
        self is Boxed || self is Vector
    }
}

/// A buffer taken apart.
#[verifier::reject_recursive_types(S)]
pub enum BufferParts<S: Slice + ?Sized, B> {
    /// The slice that it was.
    Static(&'static S),
    /// Its items, and the number of items for which there was room.
    Items(Vec<S::Item>, usize),
    /// The buffer as it was.
    Other(B),
}

/// A buffer that contains a slice.
pub trait Buffer<S: Slice + ?Sized>: Sized + Send + Sync + 'static {
    /// The items of the buffer slice.
    open spec fn buffer_items(&self) -> Seq<S::Item> {
        arbitrary()
    }

    /// How the buffer keeps its slice.
    open spec fn class() -> BufferClass {
        BufferClass::Other
    }

    /// Whether the buffer is the vector of its items itself, so that nothing has to be done to make it
    /// of them.
    open spec fn is_items() -> bool {
        false
    }

    /// Returns the buffer slice.
    fn as_slice(&self) -> (r: &S)
        ensures
            r.items() == self.buffer_items(),
    ;

    /// Returns if the buffer is unique, i.e. if this buffer is the only reference to its slice.
    fn is_unique(&self) -> bool {
        true
    }

    /// How the buffer keeps its slice.
    fn buffer_class() -> (r: BufferClass)
        ensures
            r == Self::class(),
        no_unwind when true
    ;

    /// Takes the buffer apart.
    fn into_parts(self) -> (r: BufferParts<S, Self>)
        ensures
            match r {
                BufferParts::Static(slice) => Self::class() is Static && slice.items()
                    == self.buffer_items(),
                BufferParts::Items(items, room) => Self::class().is_owned_items() && items@
                    == self.buffer_items() && items@.len() <= room && (Self::class() is Boxed
                    ==> items@.len() == room),
                BufferParts::Other(buffer) => Self::class() is Other && buffer == self,
            },
    ;

    /// A buffer from a slice that lives as long as the program.
    fn from_static_slice(slice: &'static S) -> (r: Result<Self, &'static S>)
        ensures
            match r {
                Ok(buffer) => Self::class() is Static && buffer.buffer_items() == slice.items(),
                Err(same) => !(Self::class() is Static) && same == slice,
            },
    ;

    /// A buffer from its items.
    fn from_items(items: Vec<S::Item>) -> (r: Result<Self, Vec<S::Item>>)
        requires
            S::valid(items@),
        ensures
            match r {
                Ok(buffer) => Self::class().is_owned_items() && buffer.buffer_items() == items@,
                Err(same) => !Self::class().is_owned_items() && same == items,
            },
        no_unwind when Self::is_items()
    ;
}

impl<S: Slice + ?Sized> Buffer<S> for &'static S {
    open spec fn buffer_items(&self) -> Seq<S::Item> {
        (*self).items()
    }

    open spec fn class() -> BufferClass {
        BufferClass::Static
    }

    fn as_slice(&self) -> (r: &S) {
        *self
    }

    fn is_unique(&self) -> (r: bool)
        ensures
            !r,
    {
        false
    }

    fn buffer_class() -> (r: BufferClass) {
        BufferClass::Static
    }

    fn into_parts(self) -> (r: BufferParts<S, Self>) {
        BufferParts::Static(self)
    }

    fn from_static_slice(slice: &'static S) -> (r: Result<Self, &'static S>) {
        Ok(slice)
    }

    fn from_items(items: Vec<S::Item>) -> (r: Result<Self, Vec<S::Item>>) {
        Err(items)
    }
}

impl<S: Slice + ?Sized> Buffer<S> for Box<S> {
    open spec fn buffer_items(&self) -> Seq<S::Item> {
        (**self).items()
    }

    open spec fn class() -> BufferClass {
        BufferClass::Boxed
    }

    fn as_slice(&self) -> (r: &S) {
        &**self
    }

    fn is_unique(&self) -> (r: bool)
        ensures
            r,
    {
        true
    }

    fn buffer_class() -> (r: BufferClass) {
        BufferClass::Boxed
    }

    fn into_parts(self) -> (r: BufferParts<S, Self>) {
        let items = S::into_boxed_slice(self).into_vec();
        let room: usize = items.len();
        BufferParts::Items(items, room)
    }

    fn from_static_slice(slice: &'static S) -> (r: Result<Self, &'static S>) {
        Err(slice)
    }

    fn from_items(items: Vec<S::Item>) -> (r: Result<Self, Vec<S::Item>>) {
        Ok(S::from_boxed_slice_unchecked(vec_into_boxed(items)))
    }
}

impl<T: Send + Sync + 'static> Buffer<[T]> for Vec<T> {
    open spec fn buffer_items(&self) -> Seq<T> {
        self@
    }

    open spec fn is_items() -> bool {
        true
    }

    open spec fn class() -> BufferClass {
        BufferClass::Vector
    }

    fn as_slice(&self) -> (r: &[T]) {
        self.as_slice()
    }

    fn is_unique(&self) -> (r: bool)
        ensures
            r,
    {
        true
    }

    fn buffer_class() -> (r: BufferClass) {
        BufferClass::Vector
    }

    fn into_parts(self) -> (r: BufferParts<[T], Self>) {
        let room: usize = vec_room(&self);
        BufferParts::Items(self, room)
    }

    fn from_static_slice(slice: &'static [T]) -> (r: Result<Self, &'static [T]>) {
        Err(slice)
    }

    fn from_items(items: Vec<T>) -> (r: Result<Self, Vec<T>>) {
        Ok(items)
    }
}

impl Buffer<str> for String {
    open spec fn buffer_items(&self) -> Seq<u8> {
        encode_utf8(self@)
    }

    open spec fn class() -> BufferClass {
        BufferClass::Vector
    }

    fn as_slice(&self) -> (r: &str) {
        self.as_str()
    }

    fn is_unique(&self) -> (r: bool)
        ensures
            r,
    {
        true
    }

    fn buffer_class() -> (r: BufferClass) {
        BufferClass::Vector
    }

    fn into_parts(self) -> (r: BufferParts<str, Self>) {
        let room: usize = string_room(&self);
        BufferParts::Items(self.into_bytes(), room)
    }

    fn from_static_slice(slice: &'static str) -> (r: Result<Self, &'static str>) {
        Err(slice)
    }

    fn from_items(items: Vec<u8>) -> (r: Result<Self, Vec<u8>>) {
        Ok(<str as Slice>::from_vec_unchecked(items))
    }
}

/// A buffer whose items can be moved out of it and back, and that has room for more of them.
pub trait BufferMut<S: Slice + ?Sized>: Buffer<S> {
    /// Returns the mutable buffer slice.
    fn as_mut_slice(&mut self) -> (r: &mut S)
        ensures
            r.items() == old(self).buffer_items(),
            final(self).buffer_items() == final(r).items(),
    ;

    /// Returns the buffer capacity.
    fn capacity(&self) -> (r: usize)
        ensures
            r >= self.buffer_items().len(),
    ;

    /// Whether the buffer can grow.
    fn is_resizable() -> bool {
        true
    }

    /// Moves the items out of the buffer: the items, and what is left of it.
    fn take_items(self) -> (r: (Vec<S::Item>, Self))
        ensures
            r.0@ == self.buffer_items(),
    ;

    /// Moves items into the buffer, in place of those that it has.
    fn put_items(self, items: Vec<S::Item>) -> (r: Self)
        requires
            S::valid(items@),
        ensures
            r.buffer_items() == items@,
    ;
}

/// Whether `husk` is what was left of `buffer` when its items were moved out.
pub open spec fn emptied<S: Slice + ?Sized, B: BufferMut<S>>(buffer: B, husk: B) -> bool {
    exists|items: Vec<S::Item>| #[trigger]
        call_ensures(<B as BufferMut<S>>::take_items, (buffer,), (items, husk))
}

/// Whether `buffer` is what became of `husk` when `items` were moved into it.
pub open spec fn refilled<S: Slice + ?Sized, B: BufferMut<S>>(
    husk: B,
    items: Seq<S::Item>,
    buffer: B,
) -> bool {
    exists|vec: Vec<S::Item>| #[trigger]
        call_ensures(<B as BufferMut<S>>::put_items, (husk, vec), buffer) && vec@ == items
}

impl<T: Send + Sync + 'static> BufferMut<[T]> for Vec<T> {
    fn as_mut_slice(&mut self) -> (r: &mut [T]) {
        self.as_mut_slice()
    }

    fn capacity(&self) -> (r: usize) {
        vec_room(self)
    }

    fn take_items(self) -> (r: (Vec<T>, Self)) {
        (self, Vec::new())
    }

    fn put_items(self, items: Vec<T>) -> (r: Self) {
        items
    }
}

impl BufferMut<str> for String {
    fn as_mut_slice(&mut self) -> (r: &mut str) {
        self.as_mut_str()
    }

    fn capacity(&self) -> (r: usize) {
        string_room(self)
    }

    fn take_items(self) -> (r: (Vec<u8>, Self)) {
        (self.into_bytes(), String::new())
    }

    fn put_items(self, items: Vec<u8>) -> (r: Self) {
        <str as Slice>::from_vec_unchecked(items)
    }
}

/// A buffer that is shared already, so that cloning it is cheap.
pub trait RawBuffer<S: Slice + ?Sized>: Buffer<S> + Clone {

}

impl<S: Slice + ?Sized, B: Buffer<S>> RawBuffer<S> for StdArc<B> {

}

/// A trait for borrowing metadata.
pub trait BorrowMetadata: Send + Sync + 'static {
    /// The metadata borrowed.
    type Metadata: Send + Sync + 'static;

    /// The metadata.
    open spec fn metadata(&self) -> Self::Metadata {
        arbitrary()
    }

    /// Borrows the metadata.
    fn borrow_metadata(&self) -> (r: &Self::Metadata)
        ensures
            *r == self.metadata(),
    ;
}

/// Anything that has a slice to show.
pub trait AsSlice<S: Slice + ?Sized>: Send + Sync + 'static {
    /// The items of the slice.
    open spec fn slice_items(&self) -> Seq<S::Item> {
        arbitrary()
    }

    /// Returns the slice.
    fn as_ref_slice(&self) -> (r: &S)
        ensures
            r.items() == self.slice_items(),
    ;
}

/// A wrapper around anything that has a slice to show, which makes no claim of being the only
/// reference to that slice.
#[derive(Debug, Clone)]
pub struct AsRefBuffer<B>(pub B);

impl<S: Slice + ?Sized, B: AsSlice<S>> Buffer<S> for AsRefBuffer<B> {
    open spec fn buffer_items(&self) -> Seq<S::Item> {
        self.0.slice_items()
    }

    open spec fn class() -> BufferClass {
        BufferClass::Other
    }

    fn as_slice(&self) -> (r: &S) {
        self.0.as_ref_slice()
    }

    fn is_unique(&self) -> (r: bool)
        ensures
            !r,
    {
        false
    }

    fn buffer_class() -> (r: BufferClass) {
        BufferClass::Other
    }

    fn into_parts(self) -> (r: BufferParts<S, Self>) {
        BufferParts::Other(self)
    }

    fn from_static_slice(slice: &'static S) -> (r: Result<Self, &'static S>) {
        Err(slice)
    }

    fn from_items(items: Vec<S::Item>) -> (r: Result<Self, Vec<S::Item>>) {
        Err(items)
    }
}

impl<B: BorrowMetadata> BorrowMetadata for AsRefBuffer<B> {
    type Metadata = B::Metadata;

    open spec fn metadata(&self) -> B::Metadata {
        self.0.metadata()
    }

    fn borrow_metadata(&self) -> (r: &B::Metadata) {
        self.0.borrow_metadata()
    }
}

impl<S: Slice + ?Sized, B: Buffer<S>> Buffer<S> for StdArc<B> {
    open spec fn buffer_items(&self) -> Seq<S::Item> {
        (**self).buffer_items()
    }

    open spec fn class() -> BufferClass {
        BufferClass::Other
    }

    fn as_slice(&self) -> (r: &S) {
        (**self).as_slice()
    }

    fn is_unique(&self) -> (r: bool)
        ensures
            !r,
    {
        false
    }

    fn buffer_class() -> (r: BufferClass) {
        BufferClass::Other
    }

    fn into_parts(self) -> (r: BufferParts<S, Self>) {
        BufferParts::Other(self)
    }

    fn from_static_slice(slice: &'static S) -> (r: Result<Self, &'static S>) {
        Err(slice)
    }

    fn from_items(items: Vec<S::Item>) -> (r: Result<Self, Vec<S::Item>>) {
        Err(items)
    }
}

impl<B: BorrowMetadata> BorrowMetadata for StdArc<B> {
    type Metadata = B::Metadata;

    open spec fn metadata(&self) -> B::Metadata {
        (**self).metadata()
    }

    fn borrow_metadata(&self) -> (r: &B::Metadata) {
        (**self).borrow_metadata()
    }
}

/// Vectors and boxed slices are no more than their items, and nothing else is.
pub proof fn law_what_owns_items(class: BufferClass)
    ensures
        class.is_owned_items() <==> class is Boxed || class is Vector,
        !BufferClass::Static.is_owned_items(),
        !BufferClass::Other.is_owned_items(),
{
}

/// How the buffers of the standard library keep their slices; a vector is the vector of its items
/// itself.
pub proof fn law_classes_of_buffers<S: Slice + ?Sized, T: Send + Sync + 'static, B: Buffer<S>>()
    ensures
        <&'static S as Buffer<S>>::class() is Static,
        <Box<S> as Buffer<S>>::class() is Boxed,
        <Vec<T> as Buffer<[T]>>::class() is Vector,
        <String as Buffer<str>>::class() is Vector,
        <StdArc<B> as Buffer<S>>::class() is Other,
        <Vec<T> as Buffer<[T]>>::is_items(),
{
}

/// The items of the buffers of the standard library are the items that they have; text has the bytes of
/// its encoding.
pub proof fn law_items_of_buffers<S: Slice + ?Sized, T: Send + Sync + 'static, B: Buffer<S>>(
    slice: &'static S,
    vec: Vec<T>,
    text: String,
    shared: StdArc<B>,
)
    ensures
        <&'static S as Buffer<S>>::buffer_items(&slice) == slice.items(),
        <Vec<T> as Buffer<[T]>>::buffer_items(&vec) == vec@,
        <String as Buffer<str>>::buffer_items(&text) == encode_utf8(text@),
        <StdArc<B> as Buffer<S>>::buffer_items(&shared) == shared.buffer_items(),
        <[T] as Slice>::vec_items(vec) == vec@,
        <str as Slice>::vec_items(text) == encode_utf8(text@),
{
}

/// Which items make a slice, and where it can be cut: any items, anywhere; the bytes of text, between its
/// characters.
pub proof fn law_what_makes_a_slice<T: Send + Sync + 'static>(items: Seq<T>, bytes: Seq<u8>, at: int)
    ensures
        <[T] as Slice>::valid(items),
        <[T] as Subsliceable>::boundary(items, at),
        <str as Slice>::valid(bytes) <==> valid_utf8(bytes),
        <str as Subsliceable>::boundary(bytes, at) <==> is_char_boundary(bytes, at),
        <[u8] as Zeroable>::zero() == 0,
        <str as Zeroable>::zero() == 0,
{
}

} // verus!
