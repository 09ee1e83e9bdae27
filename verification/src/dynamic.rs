//! Values, buffers and metadata whose type is known only at run time.

use crate::buffer::{refilled, BorrowMetadata, Buffer, BufferMut, Slice};
use crate::shared::{is_same_note, share};
use core::marker::PhantomData;
use std::sync::Arc as StdArc;
use vstd::prelude::*;

verus! {

/// A value of a type that is known only at run time, as [`std::any::Any`] has it.
#[verifier::external_body]
pub struct AnyBox {
    value: Box<dyn std::any::Any + Send + Sync>,
}

/// Forgets the type of a value: the unsizing of a [`Box`] to [`std::any::Any`]. What came out of it is
/// told by [`AnyBox::made_from`].
#[verifier::external_body]
fn forget_type<T: Send + Sync + 'static>(value: T) -> AnyBox {
    AnyBox { value: Box::new(value) }
}

impl AnyBox {
    /// Whether this is what became of `value` when its type was forgotten.
    pub closed spec fn made_from<T: Send + Sync + 'static>(self, value: T) -> bool {
        call_ensures(forget_type::<T>, (value,), self)
    }

    /// Forgets the type of a value.
    pub(crate) fn new<T: Send + Sync + 'static>(value: T) -> (r: AnyBox)
        ensures
            forall|other: T| #[trigger] r.made_from::<T>(other) <==> other == value,
    {
        let f = forget_type::<T>;
        let r = f(value);
        assert(r.made_from::<T>(value));
        let back = r.downcast_ref::<T>();
        assert(back == Some(&value));
        r
    }

    /// [`std::any::Any`]'s `downcast_ref`: the value, exactly where it is of the type asked for, that
    /// is where its type was forgotten from that one.
    #[verifier::external_body]
    pub(crate) fn downcast_ref<T: Send + Sync + 'static>(&self) -> (r: Option<&T>)
        ensures
            forall|value: T| #[trigger] self.made_from::<T>(value) <==> r == Some(&value),
        no_unwind
    {
        self.value.downcast_ref::<T>()
    }

    /// [`Box`]'s `downcast`: the value with its type again, exactly where it is of the type asked for,
    /// else the argument back.
    #[verifier::external_body]
    pub(crate) fn downcast<T: Send + Sync + 'static>(self) -> (r: Result<T, AnyBox>)
        ensures
            forall|value: T| #[trigger] self.made_from::<T>(value) <==> (r matches Ok(v) && v == value),
            r matches Err(same) ==> same == self,
    {
        self.value.downcast::<T>().map(|value| *value).map_err(|value| AnyBox { value })
    }
}

/// What is noted of a buffer when its type is forgotten: its items.
#[verifier::reject_recursive_types(T)]
struct Mark<T> {
    items: Ghost<Seq<T>>,
}

/// Whether it is noted that there are `items`.
pub closed spec fn notes<T: Send + Sync + 'static>(note: AnyBox, items: Seq<T>) -> bool {
    note.made_from::<Mark<T>>(Mark { items: Ghost(items) })
}

/// Notes what the items of a buffer are.
fn note_items<S: Slice + ?Sized, B: Buffer<S>>(buffer: &B) -> (r: StdArc<AnyBox>)
    ensures
        notes::<S::Item>(*r, buffer.buffer_items()),
{
    let mark: Mark<S::Item> = Mark { items: Ghost(buffer.buffer_items()) };
    StdArc::new(AnyBox::new::<Mark<S::Item>>(mark))
}

/// One note does not tell of different items.
fn read_note<T: Send + Sync + 'static>(note: &AnyBox)
    ensures
        forall|a: Seq<T>, b: Seq<T>| #[trigger]
            notes::<T>(*note, a) && #[trigger] notes::<T>(*note, b) ==> a == b,
{
    let mark = note.downcast_ref::<Mark<T>>();
    assert forall|a: Seq<T>, b: Seq<T>| #[trigger]
        notes::<T>(*note, a) && #[trigger] notes::<T>(*note, b) implies a == b by {
        assert(note.made_from::<Mark<T>>(Mark { items: Ghost(a) }));
        assert(note.made_from::<Mark<T>>(Mark { items: Ghost(b) }));
    }
}

/// A buffer, together with the type of the slice that it is a buffer of, and with what is noted of it.
#[verifier::reject_recursive_types(S)]
pub struct Tagged<S: Slice + ?Sized, B: Buffer<S>> {
    buffer: B,
    note: StdArc<AnyBox>,
    slice: PhantomData<S>,
}

impl<S: Slice + ?Sized, B: Buffer<S>> Tagged<S, B> {
    /// What is noted is true.
    #[verifier::type_invariant]
    spec fn wf(self) -> bool {
        notes::<S::Item>(*self.note, self.buffer.buffer_items())
    }

    /// The buffer.
    pub closed spec fn buffer(self) -> B {
        self.buffer
    }

    /// What is noted of the buffer.
    pub closed spec fn note(self) -> AnyBox {
        *self.note
    }

    fn new(buffer: B) -> (r: Self)
        ensures
            r.buffer() == buffer,
            notes::<S::Item>(r.note(), buffer.buffer_items()),
    {
        let note = note_items::<S, B>(&buffer);
        Tagged { buffer, note, slice: PhantomData }
    }
}

/// Forgets the type of a buffer.
pub(crate) fn forget_buffer<S: Slice + ?Sized, B: Buffer<S>>(buffer: B) -> (r: AnyBox)
    ensures
        any_holds::<S, B>(r, buffer),
        held::<S, B>(r) == buffer,
{
    let tagged = Tagged::<S, B>::new(buffer);
    let r = AnyBox::new::<Tagged<S, B>>(tagged);
    proof {
        assert(r.made_from::<Tagged<S, B>>(tagged));
        assert(any_holds::<S, B>(r, buffer));
        assert(any_holds::<S, B>(r, held::<S, B>(r)));
    }
    r
}

/// The type of a slice, as a value.
#[verifier::reject_recursive_types(S)]
pub struct SliceTag<S: ?Sized> {
    slice: PhantomData<S>,
}

/// Whether `any` stands for the type of slices `S`.
pub closed spec fn is_tag<S: Slice + ?Sized>(any: AnyBox) -> bool {
    any.made_from::<SliceTag<S>>(SliceTag { slice: PhantomData })
}

/// What stands for the type of slices `S`.
pub(crate) fn slice_tag<S: Slice + ?Sized>() -> (r: AnyBox)
    ensures
        is_tag::<S>(r),
{
    AnyBox::new::<SliceTag<S>>(SliceTag { slice: PhantomData })
}

/// Whether something stands for the type of slices `S`.
pub(crate) fn check_tag<S: Slice + ?Sized>(origin: &Option<AnyBox>) -> (r: bool)
    ensures
        r == (*origin matches Some(any) && is_tag::<S>(any)),
    no_unwind
{
    match origin {
        Some(any) => match any.downcast_ref::<SliceTag<S>>() {
            Some(tag) => {
                assert(any.made_from::<SliceTag<S>>(*tag));
                true
            },
            None => false,
        },
        None => false,
    }
}

/// Whether `buffer`, as a buffer of slices of type `S`, is what `any` holds.
pub open spec fn any_holds<S: Slice + ?Sized, B: Buffer<S>>(any: AnyBox, buffer: B) -> bool {
    exists|tagged: Tagged<S, B>| #[trigger]
        any.made_from::<Tagged<S, B>>(tagged) && tagged.buffer() == buffer
}

/// Whether `any` holds a buffer of type `B`, of slices of type `S`.
pub open spec fn holds_some<S: Slice + ?Sized, B: Buffer<S>>(any: AnyBox) -> bool {
    exists|buffer: B| #[trigger] any_holds::<S, B>(any, buffer)
}

/// The buffer that `any` holds.
pub open spec fn held<S: Slice + ?Sized, B: Buffer<S>>(any: AnyBox) -> B {
    choose|buffer: B| #[trigger] any_holds::<S, B>(any, buffer)
}

/// Whether `note` is what was noted of the buffer that `any` holds.
pub open spec fn has_note<S: Slice + ?Sized, B: Buffer<S>>(any: AnyBox, note: AnyBox) -> bool {
    exists|tagged: Tagged<S, B>| #[trigger]
        any.made_from::<Tagged<S, B>>(tagged) && tagged.note() == note
}

/// The buffer that something holds, with what is noted of it, if it is of type `B`.
fn tagged_in<S: Slice + ?Sized, B: Buffer<S>>(any: &AnyBox) -> (r: Option<&Tagged<S, B>>)
    ensures
        match r {
            Some(tagged) => holds_some::<S, B>(*any) && tagged.buffer() == held::<S, B>(*any) && (
            forall|other: B| #[trigger]
                any_holds::<S, B>(*any, other) <==> other == tagged.buffer()) && (forall|note: AnyBox|
                #[trigger] has_note::<S, B>(*any, note) <==> note == tagged.note()),
            None => !holds_some::<S, B>(*any),
        },
    no_unwind
{
    match any.downcast_ref::<Tagged<S, B>>() {
        Some(tagged) => {
            assert(any.made_from::<Tagged<S, B>>(*tagged));
            assert(any_holds::<S, B>(*any, tagged.buffer()));
            assert(any_holds::<S, B>(*any, held::<S, B>(*any)));
            assert(has_note::<S, B>(*any, tagged.note()));
            Some(tagged)
        },
        None => {
            assert forall|buffer: B| !#[trigger] any_holds::<S, B>(*any, buffer) by {}
            None
        },
    }
}

/// The buffer that something holds, if it is of type `B`.
fn held_by<S: Slice + ?Sized, B: Buffer<S>>(any: &AnyBox) -> (r: Option<&B>)
    ensures
        match r {
            Some(buffer) => holds_some::<S, B>(*any) && *buffer == held::<S, B>(*any) && (
            forall|other: B| #[trigger] any_holds::<S, B>(*any, other) <==> other == *buffer),
            None => !holds_some::<S, B>(*any),
        },
    no_unwind
{
    match tagged_in::<S, B>(any) {
        Some(tagged) => Some(&tagged.buffer),
        None => None,
    }
}

/// What is still asked of a buffer after its type was forgotten.
pub trait DynBuffer<T>: Send + Sync + 'static {
    /// The items of the slice of `buffer`, if it is of the type that is looked for.
    spec fn shown(&self, buffer: AnyBox) -> Option<Seq<T>>;

    /// Whether `answer` is what `buffer` answered when asked if it is the only reference to its slice.
    spec fn answered(&self, buffer: AnyBox, answer: bool) -> bool;

    /// Returns the items of the slice of `buffer`.
    fn show<'a>(&self, buffer: &'a AnyBox) -> (r: Option<&'a [T]>)
        ensures
            match r {
                Some(items) => self.shown(*buffer) == Some(items@),
                None => self.shown(*buffer) is None,
            },
    ;

    /// Returns if `buffer` is the only reference to its slice.
    fn ask(&self, buffer: &AnyBox) -> (r: bool)
        ensures
            self.shown(*buffer) is Some ==> self.answered(*buffer, r),
    ;
}

/// Whether `answer` is what `buffer` answered when asked if it is the only reference to its slice.
pub open spec fn answered_unique<S: Slice + ?Sized, B: Buffer<S>>(buffer: B, answer: bool) -> bool {
    call_ensures(<B as Buffer<S>>::is_unique, (&buffer,), answer)
}

/// Asks a buffer of type `B`, of slices of type `S`.
#[verifier::reject_recursive_types(S)]
struct AskedOf<S: ?Sized, B> {
    buffer: PhantomData<B>,
    slice: PhantomData<S>,
}

impl<S: Slice + ?Sized, B: Buffer<S>> DynBuffer<S::Item> for AskedOf<S, B> {
    closed spec fn shown(&self, buffer: AnyBox) -> Option<Seq<S::Item>> {
        if holds_some::<S, B>(buffer) {
            Some(held::<S, B>(buffer).buffer_items())
        } else {
            None
        }
    }

    closed spec fn answered(&self, buffer: AnyBox, answer: bool) -> bool {
        answered_unique::<S, B>(held::<S, B>(buffer), answer)
    }

    fn show<'a>(&self, buffer: &'a AnyBox) -> (r: Option<&'a [S::Item]>) {
        match held_by::<S, B>(buffer) {
            Some(buffer) => Some(buffer.as_slice().to_slice()),
            None => None,
        }
    }

    fn ask(&self, buffer: &AnyBox) -> (r: bool) {
        let f = <B as Buffer<S>>::is_unique;
        match held_by::<S, B>(buffer) {
            Some(buffer) => f(buffer),
            None => false,
        }
    }
}

/// A trait object that asks a buffer.
#[verifier::reject_recursive_types(T)]
struct Object<T>(Box<dyn DynBuffer<T>>);

impl<T> Object<T> {
    /// Whether what is asked is asked of buffers of type `B`.
    spec fn asks<S: Slice<Item = T> + ?Sized, B: Buffer<S>>(self) -> bool {
        &&& forall|buffer: AnyBox| #[trigger]
            self.0.shown(buffer) == if holds_some::<S, B>(buffer) {
                Some(held::<S, B>(buffer).buffer_items())
            } else {
                None
            }
        &&& forall|buffer: AnyBox, answer: bool| #[trigger]
            self.0.answered(buffer, answer) == answered_unique::<S, B>(held::<S, B>(buffer), answer)
    }
}

/// What asks buffers of type `B`.
fn asked_of<S: Slice + ?Sized, B: Buffer<S>>() -> (r: Object<S::Item>)
    ensures
        r.asks::<S, B>(),
{
    let asked = AskedOf::<S, B> { buffer: PhantomData, slice: PhantomData };
    Object(Box::new(asked))
}

/// A buffer whose type is known only at run time.
#[verifier::reject_recursive_types(T)]
pub struct ErasedBuffer<T: Send + Sync + 'static> {
    object: Object<T>,
    any: AnyBox,
    note: StdArc<AnyBox>,
    length: usize,
}

impl<T: Send + Sync + 'static> ErasedBuffer<T> {
    /// What is asked can be answered, and what is noted is true.
    #[verifier::type_invariant]
    spec fn wf(self) -> bool {
        &&& self.object.0.shown(self.any) is Some
        &&& notes::<T>(*self.note, self.items())
        &&& self.length == self.items().len()
    }

    /// The items of the buffer.
    pub closed spec fn items(self) -> Seq<T> {
        self.object.0.shown(self.any)->0
    }

    /// The buffer.
    pub closed spec fn any(self) -> AnyBox {
        self.any
    }

    /// Whether `answer` is what the buffer answered when asked if it is the only reference to its
    /// slice.
    pub closed spec fn answered_unique(self, answer: bool) -> bool {
        self.object.0.answered(self.any, answer)
    }

    /// Whether the answers of the buffer that is held are those of `buffer`.
    pub open spec fn answers_as<S: Slice<Item = T> + ?Sized, B: Buffer<S>>(self, buffer: B) -> bool {
        forall|answer: bool| #[trigger]
            self.answered_unique(answer) == answered_unique::<S, B>(buffer, answer)
    }

    /// Whether `buffer` is the buffer that is held.
    pub open spec fn holds<S: Slice<Item = T> + ?Sized, B: Buffer<S>>(self, buffer: B) -> bool {
        any_holds::<S, B>(self.any(), buffer)
    }

    /// Whether the buffer that is held is of type `B`, and what is noted of it is what is noted here.
    pub closed spec fn keeps<S: Slice<Item = T> + ?Sized, B: Buffer<S>>(self) -> bool {
        &&& holds_some::<S, B>(self.any)
        &&& forall|note: AnyBox| #[trigger]
            has_note::<S, B>(self.any, note) ==> note == *self.note
    }

    /// The buffer.
    pub(crate) fn as_any(&self) -> (r: &AnyBox)
        ensures
            *r == self.any(),
    {
        &self.any
    }

    /// Forgets the type of a buffer.
    pub(crate) fn new<S: Slice<Item = T> + ?Sized, B: Buffer<S>>(buffer: B) -> (r: Self)
        ensures
            r.items() == buffer.buffer_items(),
            r.answers_as::<S, B>(buffer),
            r.keeps::<S, B>(),
            forall|other: B| #[trigger] r.holds::<S, B>(other) <==> other == buffer,
    {
        let object = asked_of::<S, B>();
        let length: usize = buffer.as_slice().to_slice().len();
        let tagged = Tagged::<S, B>::new(buffer);
        let note = share(&tagged.note);
        let any = AnyBox::new::<Tagged<S, B>>(tagged);
        proof {
            assert(any.made_from::<Tagged<S, B>>(tagged));
            assert(any_holds::<S, B>(any, buffer));
            assert(any_holds::<S, B>(any, held::<S, B>(any)));
        }
        ErasedBuffer { object, any, note, length }
    }

    /// Returns the number of items of the buffer slice.
    pub(crate) fn len(&self) -> (r: usize)
        ensures
            r == self.items().len(),
        no_unwind
    {
        proof {
            use_type_invariant(self);
        }
        self.length
    }

    /// Returns the items of the buffer slice.
    pub(crate) fn as_slice(&self) -> (r: &[T])
        ensures
            r@ == self.items(),
    {
        proof {
            use_type_invariant(self);
        }
        match self.object.0.show(&self.any) {
            Some(items) => items,
            None => vstd::pervasive::unreached(),
        }
    }

    /// Returns if the buffer is the only reference to its slice.
    pub(crate) fn is_unique(&self) -> (r: bool)
        ensures
            self.answered_unique(r),
    {
        proof {
            use_type_invariant(self);
        }
        self.object.0.ask(&self.any)
    }

    /// Gives back the buffer, where it is of the type asked for, and what is noted of it is what is noted
    /// here: its items are then the ones that were shown.
    pub(crate) fn take<S: Slice<Item = T> + ?Sized, B: Buffer<S>>(self) -> (r: Result<B, Self>)
        ensures
            match r {
                Ok(buffer) => self.keeps::<S, B>() && self.holds::<S, B>(buffer)
                    && buffer.buffer_items() == self.items(),
                Err(same) => same == self && !self.keeps::<S, B>(),
            },
    {
        let noted: bool = match tagged_in::<S, B>(&self.any) {
            Some(tagged) => {
                proof {
                    use_type_invariant(tagged);
                    assert(has_note::<S, B>(self.any, tagged.note()));
                }
                is_same_note(&tagged.note, &self.note)
            },
            None => false,
        };
        if !noted {
            return Err(self);
        }
        read_note::<T>(&self.note);
        proof {
            use_type_invariant(&self);
        }
        let ErasedBuffer { object, any, note, length } = self;
        match any.downcast::<Tagged<S, B>>() {
            Ok(tagged) => {
                proof {
                    use_type_invariant(&tagged);
                    assert(any.made_from::<Tagged<S, B>>(tagged));
                    assert(any_holds::<S, B>(any, tagged.buffer()));
                    assert(has_note::<S, B>(any, tagged.note()));
                }
                Ok(tagged.buffer)
            },
            Err(any) => Err(ErasedBuffer { object, any, note, length }),
        }
    }
}

/// Puts items back into a buffer whose type is known only at run time.
pub trait Refill<T: Send + Sync + 'static>: Send + Sync + 'static {
    /// Whether `origin` is of the type that is looked for, and `items` are valid.
    spec fn refills(&self, origin: AnyBox, items: Seq<T>) -> bool;

    /// Whether `buffer` is of the type that is looked for.
    spec fn made(&self, buffer: ErasedBuffer<T>) -> bool;

    /// The buffer `origin` with `items` in it, if it is of the type that is looked for, and if the
    /// items are valid.
    fn refill(&self, origin: AnyBox, items: Vec<T>) -> (r: Result<
        ErasedBuffer<T>,
        (AnyBox, Vec<T>),
    >)
        ensures
            match r {
                Ok(buffer) => buffer.items() == items@ && self.refills(origin, items@) && self.made(
                    buffer,
                ),
                Err((any, same)) => same == items && any == origin && !self.refills(origin, items@),
            },
    ;
}

/// Puts items back into a buffer of type `B`, of slices of type `S`.
#[verifier::reject_recursive_types(S)]
struct RefillWith<S: ?Sized, B> {
    buffer: PhantomData<B>,
    slice: PhantomData<S>,
}

impl<S: Slice + ?Sized, B: BufferMut<S>> Refill<S::Item> for RefillWith<S, B> {
    closed spec fn refills(&self, origin: AnyBox, items: Seq<S::Item>) -> bool {
        holds_some::<S, B>(origin) && S::valid(items)
    }

    closed spec fn made(&self, buffer: ErasedBuffer<S::Item>) -> bool {
        buffer.keeps::<S, B>()
    }

    fn refill(&self, origin: AnyBox, items: Vec<S::Item>) -> (r: Result<
        ErasedBuffer<S::Item>,
        (AnyBox, Vec<S::Item>),
    >) {
        if S::try_from_slice(items.as_slice()).is_err() {
            return Err((origin, items));
        }
        match put_back::<S, B>(origin, items) {
            Ok(buffer) => Ok(ErasedBuffer::new::<S, B>(buffer)),
            Err(back) => Err(back),
        }
    }
}

/// Puts items back into the buffer that they came from, where it is of type `B`.
pub(crate) fn put_back<S: Slice + ?Sized, B: BufferMut<S>>(origin: AnyBox, items: Vec<S::Item>) -> (r:
    Result<B, (AnyBox, Vec<S::Item>)>)
    requires
        S::valid(items@),
    ensures
        match r {
            Ok(buffer) => buffer.buffer_items() == items@ && holds_some::<S, B>(origin) && refilled::<
                S,
                B,
            >(held::<S, B>(origin), items@, buffer),
            Err((any, same)) => same == items && any == origin && !holds_some::<S, B>(origin),
        },
{
    match origin.downcast::<Tagged<S, B>>() {
        Err(origin) => Err((origin, items)),
        Ok(tagged) => {
            assert(origin.made_from::<Tagged<S, B>>(tagged));
            assert(any_holds::<S, B>(origin, tagged.buffer()));
            assert(any_holds::<S, B>(origin, held::<S, B>(origin)));
            let put = <B as BufferMut<S>>::put_items;
            Ok(put(tagged.buffer, items))
        },
    }
}

/// Whether something holds a buffer of type `B`, of slices of type `S`.
pub(crate) fn check_holds<S: Slice + ?Sized, B: Buffer<S>>(origin: &Option<AnyBox>) -> (r: bool)
    ensures
        r == (*origin matches Some(any) && holds_some::<S, B>(any)),
    no_unwind
{
    match origin {
        Some(any) => match held_by::<S, B>(any) {
            Some(_) => true,
            None => false,
        },
        None => false,
    }
}

/// A trait object that puts items back.
#[verifier::reject_recursive_types(T)]
struct Refiller<T>(Box<dyn Refill<T>>);

impl<T: Send + Sync + 'static> Refiller<T> {
    /// Whether items are put back into buffers of type `B`.
    spec fn puts_into<S: Slice<Item = T> + ?Sized, B: BufferMut<S>>(self) -> bool {
        &&& forall|origin: AnyBox, items: Seq<T>| #[trigger]
            self.0.refills(origin, items) == (holds_some::<S, B>(origin) && S::valid(items))
        &&& forall|buffer: ErasedBuffer<T>| #[trigger] self.0.made(buffer) == buffer.keeps::<S, B>()
    }
}

/// What puts items back into a buffer of type `B`.
fn refiller_of<S: Slice + ?Sized, B: BufferMut<S>>() -> (r: Refiller<S::Item>)
    ensures
        r.puts_into::<S, B>(),
{
    let with = RefillWith::<S, B> { buffer: PhantomData, slice: PhantomData };
    Refiller(Box::new(with))
}

/// Whether `any` puts `items` back into `origin`.
pub closed spec fn puts_back<T: Send + Sync + 'static>(
    any: AnyBox,
    origin: AnyBox,
    items: Seq<T>,
) -> bool {
    exists|refiller: Refiller<T>| #[trigger]
        any.made_from::<Refiller<T>>(refiller) && refiller.0.refills(origin, items)
}

/// Whether `buffer` is what became of a buffer when `any` put items back into it.
pub closed spec fn made_by<T: Send + Sync + 'static>(any: AnyBox, buffer: ErasedBuffer<T>) -> bool {
    exists|refiller: Refiller<T>| #[trigger]
        any.made_from::<Refiller<T>>(refiller) && refiller.0.made(buffer)
}

/// What puts items back into a buffer of type `B`, its type forgotten.
pub(crate) fn refiller<S: Slice + ?Sized, B: BufferMut<S>>() -> (r: AnyBox)
    ensures
        forall|origin: AnyBox, items: Seq<S::Item>| #[trigger]
            puts_back::<S::Item>(r, origin, items) == (holds_some::<S, B>(origin) && S::valid(
                items,
            )),
        forall|buffer: ErasedBuffer<S::Item>| #[trigger]
            made_by::<S::Item>(r, buffer) == buffer.keeps::<S, B>(),
{
    let refiller = refiller_of::<S, B>();
    let r = AnyBox::new::<Refiller<S::Item>>(refiller);
    assert(r.made_from::<Refiller<S::Item>>(refiller));
    r
}

/// Whether what was made for that puts `items` back into `origin`.
pub open spec fn can_refill<T: Send + Sync + 'static>(
    refiller: Option<AnyBox>,
    origin: AnyBox,
    items: Seq<T>,
) -> bool {
    refiller matches Some(any) && puts_back::<T>(any, origin, items)
}

/// Whether items are only put back into buffers of type `B`.
pub open spec fn refills_only<S: Slice + ?Sized, B: Buffer<S>>(refiller: Option<AnyBox>) -> bool {
    refiller matches Some(any) ==> forall|buffer: ErasedBuffer<S::Item>| #[trigger]
        made_by::<S::Item>(any, buffer) ==> buffer.keeps::<S, B>()
}

/// Puts items back into the buffer that they came from, with what was made for that.
pub(crate) fn refill_with<T: Send + Sync + 'static>(
    refiller: &Option<AnyBox>,
    origin: AnyBox,
    items: Vec<T>,
) -> (r: Result<ErasedBuffer<T>, (AnyBox, Vec<T>)>)
    ensures
        match r {
            Ok(buffer) => buffer.items() == items@ && can_refill::<T>(*refiller, origin, items@) && (
            *refiller matches Some(any) && made_by::<T>(any, buffer)),
            Err((any, same)) => same == items && any == origin && !can_refill::<T>(
                *refiller,
                origin,
                items@,
            ),
        },
{
    match refiller {
        Some(any) => match any.downcast_ref::<Refiller<T>>() {
            Some(refiller) => {
                assert(any.made_from::<Refiller<T>>(*refiller));
                refiller.0.refill(origin, items)
            },
            None => Err((origin, items)),
        },
        None => Err((origin, items)),
    }
}

/// Finds metadata in a buffer whose type is known only at run time.
pub trait FindMetadata<M>: Send + Sync + 'static {
    /// The metadata that `buffer` lends, if it is of the type that is looked for.
    spec fn found(&self, buffer: AnyBox) -> Option<M>;

    /// The metadata that `buffer` lends.
    fn find<'a>(&self, buffer: &'a AnyBox) -> (r: Option<&'a M>)
        ensures
            match r {
                Some(metadata) => self.found(*buffer) == Some(*metadata),
                None => self.found(*buffer) is None,
            },
    ;
}

/// Finds the metadata that a buffer of type `B`, of slices of type `S`, lends.
#[verifier::reject_recursive_types(S)]
struct LentBy<S: ?Sized, B> {
    buffer: PhantomData<B>,
    slice: PhantomData<S>,
}

impl<S: Slice + ?Sized, B: Buffer<S> + BorrowMetadata> FindMetadata<B::Metadata> for LentBy<S, B> {
    closed spec fn found(&self, buffer: AnyBox) -> Option<B::Metadata> {
        lent_by::<S, B>(buffer)
    }

    fn find<'a>(&self, buffer: &'a AnyBox) -> (r: Option<&'a B::Metadata>) {
        match held_by::<S, B>(buffer) {
            Some(buffer) => Some(buffer.borrow_metadata()),
            None => None,
        }
    }
}

/// The metadata that a buffer of type `B` lends.
pub open spec fn lent_by<S: Slice + ?Sized, B: Buffer<S> + BorrowMetadata>(
    any: AnyBox,
) -> Option<B::Metadata> {
    if holds_some::<S, B>(any) {
        Some(held::<S, B>(any).metadata())
    } else {
        None
    }
}

/// A trait object that finds metadata.
#[verifier::reject_recursive_types(M)]
struct Finder<M>(Box<dyn FindMetadata<M>>);

impl<M> Finder<M> {
    /// Whether the metadata that is found is what a buffer lends to `finder`.
    spec fn finds_as<S: Slice + ?Sized, B: Buffer<S> + BorrowMetadata<Metadata = M>>(
        self,
        finder: LentBy<S, B>,
    ) -> bool {
        forall|buffer: AnyBox| #[trigger] self.0.found(buffer) == lent_by::<S, B>(buffer)
    }
}

/// Forgets the type of a finder: the trait object finds what the value that it was made from finds.
fn forget_finder_type<S: Slice + ?Sized, B: Buffer<S> + BorrowMetadata>(finder: LentBy<S, B>) -> (r:
    Finder<B::Metadata>)
    ensures
        r.finds_as(finder),
{
    Finder(Box::new(finder))
}

/// Metadata of a known type.
#[verifier::reject_recursive_types(M)]
enum Metadata<M> {
    /// Metadata that stands beside the buffer.
    Owned(M),
    /// Metadata that the buffer lends.
    Lent(Finder<M>),
}

impl<M> Metadata<M> {
    spec fn value(self, buffer: Option<AnyBox>) -> Option<M> {
        match self {
            Metadata::Owned(metadata) => Some(metadata),
            Metadata::Lent(finder) => match buffer {
                Some(buffer) => finder.0.found(buffer),
                None => None,
            },
        }
    }
}

/// Whether two values are the same.
pub open spec fn same<M>(a: M, b: M) -> bool {
    a == b
}

/// Whether there is no more than one value of type `M`, as of the unit type.
pub open spec fn is_singleton<M>() -> bool {
    forall|a: M, b: M| #[trigger] same(a, b)
}

/// Two values are enough to tell a type from those that have no more than one.
pub proof fn lemma_not_singleton<M>(a: M, b: M)
    requires
        a != b,
    ensures
        !is_singleton::<M>(),
{
    assert(!same(a, b));
}

/// Whether `any` stands for the type `M`.
pub closed spec fn type_tag<M: Send + Sync + 'static>(any: AnyBox) -> bool {
    any.made_from::<PhantomData<M>>(PhantomData)
}

/// Whether `M` and `N` may be the same type: something stands for both.
pub open spec fn may_be_same_type<M: Send + Sync + 'static, N: Send + Sync + 'static>() -> bool {
    exists|tag: AnyBox| #[trigger] type_tag::<M>(tag) && type_tag::<N>(tag)
}

/// The comparison of [`std::any::TypeId`]s: whether `M` is the unit type, which has one value only, and
/// for which stands what stands for `M`.
#[verifier::external_body]
fn is_unit_type<M: Send + Sync + 'static>() -> (r: bool)
    ensures
        r ==> is_singleton::<M>(),
        forall|tag: AnyBox| #[trigger] type_tag::<M>(tag) ==> r == type_tag::<()>(tag),
{
    std::any::TypeId::of::<M>() == std::any::TypeId::of::<()>()
}

/// Whether `unit` tells if `M` is the unit type: what stands for `M` then stands for the unit type.
pub open spec fn tells_unit<M: Send + Sync + 'static>(unit: bool) -> bool {
    exists|tag: AnyBox| #[trigger]
        type_tag::<M>(tag) && unit == type_tag::<()>(tag) && (unit ==> is_singleton::<M>())
}

/// Whether `M` is the unit type.
pub(crate) fn is_unit<M: Send + Sync + 'static>() -> (r: bool)
    ensures
        tells_unit::<M>(r),
{
    let tag = AnyBox::new::<PhantomData<M>>(PhantomData);
    assert(type_tag::<M>(tag));
    is_unit_type::<M>()
}

/// Metadata whose type is known only at run time.
pub struct AnyMetadata {
    any: AnyBox,
    /// What stands for the type.
    tag: AnyBox,
}

/// The value behind an optional reference.
pub open spec fn behind<T>(reference: Option<&T>) -> Option<T> {
    match reference {
        Some(value) => Some(*value),
        None => None,
    }
}

impl AnyMetadata {
    /// The metadata, if it is of type `M`; `buffer` is the buffer that may lend it.
    pub closed spec fn value<M: Send + Sync + 'static>(self, buffer: Option<AnyBox>) -> Option<M> {
        if type_tag::<M>(self.tag) && exists|typed: Metadata<M>|
            self.any.made_from::<Metadata<M>>(typed) {
            (choose|typed: Metadata<M>| self.any.made_from::<Metadata<M>>(typed)).value(buffer)
        } else {
            None
        }
    }

    /// Whether the metadata are of type `M`.
    pub closed spec fn is_of<M: Send + Sync + 'static>(self) -> bool {
        type_tag::<M>(self.tag)
    }

    /// Metadata are found only of the type that they are of.
    pub(crate) proof fn lemma_found_of_type<M: Send + Sync + 'static, N: Send + Sync + 'static>(
        self,
        buffer: Option<AnyBox>,
    )
        requires
            self.is_of::<M>(),
            self.value::<N>(buffer) is Some,
        ensures
            may_be_same_type::<M, N>(),
    {
    }

    /// Metadata that stands beside the buffer.
    pub(crate) fn owned<M: Send + Sync + 'static>(metadata: M) -> (r: Self)
        ensures
            r.is_of::<M>(),
            forall|buffer: Option<AnyBox>| #[trigger] r.value::<M>(buffer) == Some(metadata),
    {
        let any = AnyBox::new::<Metadata<M>>(Metadata::Owned(metadata));
        assert(any.made_from::<Metadata<M>>(Metadata::Owned(metadata)));
        AnyMetadata { any, tag: AnyBox::new::<PhantomData<M>>(PhantomData) }
    }

    /// Metadata that a buffer of type `B` lends.
    pub(crate) fn lent<S: Slice + ?Sized, B: Buffer<S> + BorrowMetadata>() -> (r: Self)
        ensures
            r.is_of::<B::Metadata>(),
            forall|buffer: AnyBox| #[trigger]
                r.value::<B::Metadata>(Some(buffer)) == lent_by::<S, B>(buffer),
    {
        let finder = forget_finder_type::<S, B>(
            LentBy { buffer: PhantomData, slice: PhantomData },
        );
        let metadata = Metadata::Lent(finder);
        let any = AnyBox::new::<Metadata<B::Metadata>>(metadata);
        assert(any.made_from::<Metadata<B::Metadata>>(metadata));
        AnyMetadata { any, tag: AnyBox::new::<PhantomData<B::Metadata>>(PhantomData) }
    }

    /// The metadata, if it is of type `M`.
    pub(crate) fn get<'a, M: Send + Sync + 'static>(&'a self, buffer: Option<&'a AnyBox>) -> (r:
        Option<&'a M>)
        ensures
            self.value::<M>(behind(buffer)) == behind(r),
    {
        match self.tag.downcast_ref::<PhantomData<M>>() {
            Some(tag) => {
                assert(self.tag.made_from::<PhantomData<M>>(*tag));
            },
            None => {
                return None;
            },
        }
        match self.any.downcast_ref::<Metadata<M>>() {
            Some(metadata) => {
                assert(self.any.made_from::<Metadata<M>>(*metadata));
                match metadata {
                    Metadata::Owned(metadata) => Some(metadata),
                    Metadata::Lent(finder) => match buffer {
                        Some(buffer) => finder.0.find(buffer),
                        None => None,
                    },
                }
            },
            None => None,
        }
    }
}

} // verus!
