//! A growable buffer of bytes that can be split and joined.

use crate::error::TryReserveError;
use crate::layout::VecLayout;
use crate::slice::ArcSlice;
use crate::slice_mut::{adjoins, is_cut, is_join, law_reserve_keeps_items, ArcSliceMut};
use crate::storage::copy_items;
use crate::vtable::{VTable, VTableOrCapacity};
use vstd::prelude::*;

verus! {

/// `a - b`, or zero where that is negative.
pub fn saturating_sub_usize_u64(a: usize, b: u64) -> (r: usize)
    ensures
        r == if a >= b {
            a - b
        } else {
            0
        },
{
    if b <= a as u64 {
        a - b as usize
    } else {
        0
    }
}

/// The smaller of two numbers.
pub fn min_u64_usize(a: u64, b: usize) -> (r: usize)
    ensures
        r == if a <= b {
            a as int
        } else {
            b as int
        },
{
    if a <= b as u64 {
        a as usize
    } else {
        b
    }
}

/// The decimal digits of a number.
pub open spec fn decimal_spec(n: nat) -> Seq<char>
    decreases n,
{
    if n < 10 {
        seq![(48 + n) as u8 as char]
    } else {
        decimal_spec(n / 10).push((48 + n % 10) as u8 as char)
    }
}

/// Appends the decimal digits of a number.
fn push_decimal(text: &mut String, n: usize)
    ensures
        final(text)@ == old(text)@ + decimal_spec(n as nat),
    decreases n,
{
    if n < 10 {
        text.push((48 + n as u8) as char);
        assert(text@ =~= old(text)@ + decimal_spec(n as nat));
    } else {
        push_decimal(text, n / 10);
        text.push((48 + (n % 10) as u8) as char);
        assert(text@ =~= old(text)@ + decimal_spec(n as nat));
    }
}

/// There were not enough bytes left to read a value, or not enough room left to write one.
#[derive(Debug, Clone, Copy, PartialEq, Eq, Structural)]
pub struct TryGetError {
    /// The number of bytes necessary.
    pub requested: usize,
    /// The number of bytes available.
    pub available: usize,
}

impl TryGetError {
    /// The message of the error.
    pub open spec fn message_spec(self) -> Seq<char> {
        "Not enough bytes remaining in buffer to read value (requested "@ + decimal_spec(
            self.requested as nat,
        ) + " but only "@ + decimal_spec(self.available as nat) + " available)"@
    }

    /// The message of the error.
    pub fn message(&self) -> (r: String)
        ensures
            r@ == self.message_spec(),
    {
        let mut text = String::new();
        text.append("Not enough bytes remaining in buffer to read value (requested ");
        push_decimal(&mut text, self.requested);
        text.append(" but only ");
        push_decimal(&mut text, self.available);
        text.append(" available)");
        assert(text@ =~= self.message_spec());
        text
    }

    /// The message of a failed advance.
    pub open spec fn advance_message_spec(self) -> Seq<char> {
        "advance out of bounds: the len is "@ + decimal_spec(self.available as nat)
            + " but advancing by "@ + decimal_spec(self.requested as nat)
    }

    /// The message of a failed advance.
    pub fn advance_message(&self) -> (r: String)
        ensures
            r@ == self.advance_message_spec(),
    {
        let mut text = String::new();
        text.append("advance out of bounds: the len is ");
        push_decimal(&mut text, self.available);
        text.append(" but advancing by ");
        push_decimal(&mut text, self.requested);
        assert(text@ =~= self.advance_message_spec());
        text
    }
}

/// The message for an integer that does not have that many bytes.
pub open spec fn does_not_fit_message_spec(size: usize, nbytes: usize) -> Seq<char> {
    "size too large: the integer type can fit "@ + decimal_spec(size as nat)
        + " bytes, but nbytes is "@ + decimal_spec(nbytes as nat)
}

/// The message for an integer that does not have that many bytes.
pub fn does_not_fit_message(size: usize, nbytes: usize) -> (r: String)
    ensures
        r@ == does_not_fit_message_spec(size, nbytes),
{
    let mut text = String::new();
    text.append("size too large: the integer type can fit ");
    push_decimal(&mut text, size);
    text.append(" bytes, but nbytes is ");
    push_decimal(&mut text, nbytes);
    assert(text@ =~= does_not_fit_message_spec(size, nbytes));
    text
}

/// Bytes that are shared.
pub type Bytes = ArcSlice<[u8], VecLayout>;

/// A growable buffer of bytes that can be split and joined.
///
/// Where its bytes cannot grow in place, they are copied.
pub struct BytesMut {
    bytes: ArcSliceMut<[u8], VecLayout, false>,
}

impl BytesMut {
    /// The bytes.
    pub closed spec fn view(self) -> Seq<u8> {
        self.bytes@
    }

    /// The number of bytes for which there is room.
    pub closed spec fn capacity_spec(self) -> int {
        self.bytes.capacity_spec()
    }

    /// The slice underneath.
    pub closed spec fn slice(self) -> ArcSliceMut<[u8], VecLayout, false> {
        self.bytes
    }

    /// The slice underneath is well-formed.
    pub open spec fn wf(self) -> bool {
        &&& self.slice().wf()
        &&& self@ == self.slice()@
        &&& self.capacity_spec() == self.slice().capacity_spec()
        &&& self@.len() <= self.capacity_spec() <= usize::MAX
    }

    /// Whether the buffer is a vector of its own, with room for `capacity` bytes: without any, there is
    /// none.
    pub open spec fn is_vec(self, capacity: int) -> bool {
        &&& self.wf()
        &&& self.capacity_spec() == capacity
        &&& self.slice().offset() == 0
        &&& self.slice().buffer() == if capacity == 0 {
            None
        } else {
            Some(VTableOrCapacity::VTable(VTable::new_vec_spec(false, capacity as usize)))
        }
    }

    fn from_vec_with(vec: Vec<u8>, capacity: usize) -> (r: BytesMut)
        requires
            vec@.len() <= capacity,
        ensures
            r@ == vec@,
            r.is_vec(capacity as int),
    {
        BytesMut {
            bytes: ArcSliceMut::<[u8], VecLayout, true>::from_items_impl(
                vec,
                capacity,
            ).into_shared(),
        }
    }

    /// The bytes of a vector.
    pub fn from_vec(vec: Vec<u8>) -> (r: BytesMut)
        ensures
            r@ == vec@,
            r.is_vec(r.capacity_spec()),
    {
        BytesMut { bytes: ArcSliceMut::<[u8], VecLayout, true>::from_vec(vec).into_shared() }
    }

    /// A new empty buffer with room for `capacity` bytes.
    pub fn with_capacity(capacity: usize) -> (r: BytesMut)
        requires
            capacity <= isize::MAX,
        ensures
            r@ == Seq::<u8>::empty(),
            r.is_vec(capacity as int),
    {
        let vec: Vec<u8> = Vec::with_capacity(capacity);
        Self::from_vec_with(vec, capacity)
    }

    /// A new empty buffer.
    pub fn new() -> (r: BytesMut)
        ensures
            r@ == Seq::<u8>::empty(),
            r.is_vec(0),
    {
        Self::with_capacity(0)
    }

    /// A new buffer of `len` zero bytes.
    pub fn zeroed(len: usize) -> (r: BytesMut)
        requires
            len <= isize::MAX,
        ensures
            r@ == Seq::new(len as nat, |i: int| 0u8),
            r.is_vec(len as int),
    {
        let mut vec: Vec<u8> = Vec::with_capacity(len);
        push_bytes(&mut vec, 0, len);
        assert(vec@ =~= Seq::new(len as nat, |i: int| 0u8));
        Self::from_vec_with(vec, len)
    }

    /// Copies bytes.
    pub fn copy_from_slice(src: &[u8]) -> (r: BytesMut)
        ensures
            r@ == src@,
            r.is_vec(src@.len() as int),
    {
        let mut vec: Vec<u8> = Vec::with_capacity(src.len());
        copy_items(&mut vec, src);
        assert(vec@ =~= src@);
        Self::from_vec_with(vec, src.len())
    }

    /// Returns the number of bytes.
    pub fn len(&self) -> (r: usize)
        ensures
            r == self@.len(),
    {
        self.bytes.len()
    }

    /// Returns `true` if there is no byte.
    pub fn is_empty(&self) -> (r: bool)
        ensures
            r == (self@.len() == 0),
    {
        self.bytes.len() == 0
    }

    /// Returns the number of bytes for which there is room.
    pub fn capacity(&self) -> (r: usize)
        ensures
            r == self.capacity_spec(),
    {
        self.bytes.capacity()
    }

    /// Returns the bytes.
    pub fn as_slice(&self) -> (r: &[u8])
        ensures
            r@ == self@,
    {
        self.bytes.as_items()
    }

    /// Returns the bytes, to be changed.
    pub fn as_mut_slice(&mut self) -> (r: &mut [u8])
        requires
            old(self).wf(),
        ensures
            r@ == old(self)@,
            final(self)@ == final(r)@,
            final(self).slice().stands_as(old(self).slice()),
            final(self).capacity_spec() == old(self).capacity_spec(),
            final(r)@.len() == old(self)@.len() ==> final(self).wf(),
    {
        self.bytes.as_mut_slice()
    }

    /// Shares the bytes, which do not change any more.
    pub fn freeze(self) -> (r: Bytes)
        requires
            self.wf(),
        ensures
            r@ == self@,
            self.slice().frozen_as(r),
    {
        self.bytes.freeze::<VecLayout>()
    }

    /// Splits the buffer in two at `at`: this one keeps the room before, and the bytes in it; the
    /// result has the room behind.
    pub fn split_off(&mut self, at: usize) -> (r: BytesMut)
        requires
            old(self).wf(),
            at <= old(self).capacity_spec(),
        ensures
            final(self).wf(),
            r.wf(),
            is_cut(old(self).slice(), at as int, final(self).slice(), r.slice()),
    {
        BytesMut { bytes: self.bytes.split_off(at) }
    }

    /// Splits the buffer in two at `at`: the result has the bytes before, this one keeps the rest.
    pub fn split_to(&mut self, at: usize) -> (r: BytesMut)
        requires
            old(self).wf(),
            at <= old(self)@.len(),
        ensures
            final(self).wf(),
            r.wf(),
            is_cut(old(self).slice(), at as int, r.slice(), final(self).slice()),
    {
        BytesMut { bytes: self.bytes.split_to(at) }
    }

    /// Splits all the bytes off; the room behind them stays.
    pub fn split(&mut self) -> (r: BytesMut)
        requires
            old(self).wf(),
        ensures
            final(self).wf(),
            r.wf(),
            is_cut(old(self).slice(), old(self)@.len() as int, r.slice(), final(self).slice()),
            r@ == old(self)@,
            final(self)@ == Seq::<u8>::empty(),
    {
        let length: usize = self.len();
        let r = self.split_to(length);
        assert(old(self)@.take(length as int) =~= old(self)@);
        assert(old(self)@.skip(length as int) =~= Seq::empty());
        r
    }

    /// Truncates the buffer to the first `len` bytes; does nothing if there are no more. The capacity
    /// stays.
    pub fn truncate(&mut self, len: usize)
        requires
            old(self).wf(),
        ensures
            final(self).wf(),
            final(self)@ == if len < old(self)@.len() {
                old(self)@.take(len as int)
            } else {
                old(self)@
            },
            final(self).slice().stands_as(old(self).slice()),
    {
        self.bytes.truncate_with(len, false);
    }

    /// Removes all bytes. The capacity stays.
    pub fn clear(&mut self)
        requires
            old(self).wf(),
        ensures
            final(self).wf(),
            final(self)@ == Seq::<u8>::empty(),
            final(self).slice().stands_as(old(self).slice()),
    {
        self.truncate(0);
        assert(self@ =~= Seq::empty());
    }

    /// Tries reserving capacity without allocating.
    pub fn try_reclaim(&mut self, additional: usize) -> (r: bool)
        requires
            old(self).wf(),
        ensures
            final(self).wf(),
            final(self)@ == old(self)@,
            r ==> final(self).capacity_spec() - final(self)@.len() >= additional,
            exists|outcome: Result<(), TryReserveError>| #[trigger]
                old(self).slice().reserved(
                    additional as int,
                    false,
                    false,
                    final(self).slice(),
                    outcome,
                ) && r == outcome is Ok,
        no_unwind
    {
        match self.bytes.try_reserve_with(additional, false, false) {
            Ok(()) => true,
            Err(_) => false,
        }
    }

    /// Tries changing the number of bytes to `new_len`: the last ones are removed, or bytes `value`
    /// appended, for which room has to be reserved.
    pub fn resize(&mut self, new_len: usize, value: u8) -> (r: Result<(), TryReserveError>)
        requires
            old(self).wf(),
        ensures
            final(self).wf(),
            if new_len <= old(self)@.len() {
                &&& r is Ok
                &&& final(self)@ == old(self)@.take(new_len as int)
                &&& final(self).slice().stands_as(old(self).slice())
            } else {
                exists|between: ArcSliceMut<[u8], VecLayout, false>| #[trigger]
                    old(self).slice().reserved(new_len - old(self)@.len(), true, false, between, r)
                        && final(self).slice().follows(
                        between,
                        if r is Ok {
                            Seq::new((new_len - old(self)@.len()) as nat, |i: int| value)
                        } else {
                            Seq::empty()
                        },
                    )
            },
    {
        let length: usize = self.len();
        if new_len < length {
            self.truncate(new_len);
            return Ok(());
        }
        let additional: usize = new_len - length;
        if additional == 0 {
            assert(self@.take(new_len as int) =~= self@);
            return Ok(());
        }
        let r = self.bytes.try_reserve_with(additional, true, false);
        let ghost between = self.bytes;
        if r.is_ok() {
            self.bytes.fill(value, additional);
        } else {
            assert(self@ + Seq::empty() =~= self@);
        }
        assert(old(self).slice().reserved(additional as int, true, false, between, r));
        r
    }

    /// What becomes of the buffer when capacity was reserved, and `items` appended: as
    /// [`ArcSliceMut::reserved`] says, or else the bytes are those of a vector of its own, with room for
    /// just so many of them.
    pub open spec fn extended(self, additional: int, items: Seq<u8>, after: Self) -> bool {
        &&& after@ == self@ + items
        &&& exists|
            between: ArcSliceMut<[u8], VecLayout, false>,
            outcome: Result<(), TryReserveError>,
        | #[trigger]
            self.slice().reserved(additional, true, false, between, outcome) && if outcome is Ok {
                after.slice().follows(between, items)
            } else {
                after.is_vec(self@.len() + additional)
            }
    }

    /// Reserves capacity for at least `additional` more bytes; they are copied where that is not
    /// possible in place.
    pub fn reserve(&mut self, additional: usize)
        requires
            old(self).wf(),
            old(self)@.len() + additional <= isize::MAX,
        ensures
            final(self).wf(),
            final(self)@ == old(self)@,
            final(self).capacity_spec() - final(self)@.len() >= additional,
            old(self).extended(additional as int, Seq::empty(), *final(self)),
    {
        let outcome = self.bytes.try_reserve_with(additional, true, false);
        let ghost between = self.bytes;
        assert(old(self).slice().reserved(additional as int, true, false, between, outcome));
        assert(old(self)@ + Seq::empty() =~= old(self)@);
        match outcome {
            Ok(()) => {},
            Err(_) => {
                let capacity: usize = self.len() + additional;
                let mut vec: Vec<u8> = Vec::with_capacity(capacity);
                copy_items(&mut vec, self.bytes.as_items());
                assert(vec@ =~= self@);
                let new = Self::from_vec_with(vec, capacity);
                *self = new;
            },
        }
    }

    /// Appends bytes; all are copied where there is no room for them in place.
    pub fn extend_from_slice(&mut self, extend: &[u8])
        requires
            old(self).wf(),
            old(self)@.len() + extend@.len() <= isize::MAX,
        ensures
            final(self).wf(),
            final(self)@ == old(self)@ + extend@,
            old(self).extended(extend@.len() as int, extend@, *final(self)),
    {
        self.reserve(extend.len());
        let ghost between = self.bytes;
        let ghost reserved = *self;
        let n: usize = self.bytes.append_items(extend);
        proof {
            assert(extend@.take(n as int) =~= extend@);
            old(self).lemma_extended(reserved, extend@, *self);
        }
    }

    /// What was reserved can be filled.
    proof fn lemma_extended(self, reserved: Self, items: Seq<u8>, after: Self)
        requires
            after.wf(),
            self.extended(items.len() as int, Seq::empty(), reserved),
            after.slice().follows(reserved.slice(), items),
        ensures
            self.extended(items.len() as int, items, after),
    {
        assert(self@ + Seq::empty() =~= self@);
        let (between, outcome) = choose|
            between: ArcSliceMut<[u8], VecLayout, false>,
            outcome: Result<(), TryReserveError>,
        | #[trigger]
            self.slice().reserved(items.len() as int, true, false, between, outcome) && if outcome is Ok {
                reserved.slice().follows(between, Seq::empty())
            } else {
                reserved.is_vec((self@.len() + items.len()) as int)
            };
        assert(self.slice().reserved(items.len() as int, true, false, between, outcome));
        if outcome is Ok {
            assert(between@ + Seq::empty() =~= between@);
            assert(after.slice().follows(between, items));
        } else {
            assert(after.is_vec((self@.len() + items.len()) as int));
        }
    }

    /// Appends the bytes of another buffer, which are joined if they come right behind, and copied if
    /// they do not. An empty buffer becomes the other one.
    pub fn unsplit(&mut self, other: BytesMut)
        requires
            old(self).wf(),
            other.wf(),
            old(self)@.len() + other@.len() <= isize::MAX,
        ensures
            final(self).wf(),
            final(self)@ == old(self)@ + other@,
            old(self)@.len() == 0 ==> *final(self) == other,
            old(self)@.len() != 0 ==> {
                ||| adjoins(old(self).slice(), other.slice()) && is_join(
                    old(self).slice(),
                    other.slice(),
                    final(self).slice(),
                )
                ||| old(self).extended(other@.len() as int, other@, *final(self))
            },
            old(self)@.len() != 0 ==> exists|same: bool| #[trigger]
                old(self).slice().told_same(other.slice(), same) && (same && adjoins(
                    old(self).slice(),
                    other.slice(),
                ) ==> is_join(old(self).slice(), other.slice(), final(self).slice())),
    {
        if self.is_empty() {
            *self = other;
            assert(old(self)@ + other@ =~= other@);
            return ;
        }
        match self.bytes.try_unsplit(other.bytes) {
            Ok(()) => {},
            Err(other) => self.extend_from_slice(other.as_items()),
        }
    }

    /// Returns the number of bytes left to read.
    pub fn remaining(&self) -> (r: usize)
        ensures
            r == self@.len(),
    {
        self.len()
    }

    /// Returns the number of bytes that can still be appended.
    pub fn remaining_mut(&self) -> (r: usize)
        ensures
            r == usize::MAX - self@.len(),
    {
        usize::MAX - self.len()
    }

    /// Removes the first `cnt` bytes.
    pub fn advance(&mut self, cnt: usize)
        requires
            old(self).wf(),
            cnt <= old(self)@.len(),
        ensures
            final(self).wf(),
            final(self)@ == old(self)@.skip(cnt as int),
            final(self).capacity_spec() == old(self).capacity_spec() - cnt,
            final(self).slice().data() == old(self).slice().data(),
    {
        self.bytes.advance(cnt);
    }

    /// Removes the first `n` bytes.
    pub(crate) fn skip_bytes(&mut self, n: usize)
        requires
            n <= old(self)@.len(),
        ensures
            final(self)@ == old(self)@.skip(n as int),
            final(self).slice().data() == old(self).slice().data(),
            old(self).wf() ==> final(self).wf() && final(self).capacity_spec()
                == old(self).capacity_spec() - n,
    {
        self.bytes.skip_items(n);
    }

    /// Shares the first `len` bytes, which are removed.
    pub fn copy_to_bytes(&mut self, len: usize) -> (r: Bytes)
        requires
            old(self).wf(),
            len <= old(self)@.len(),
        ensures
            final(self).wf(),
            r@ == old(self)@.take(len as int),
            final(self)@ == old(self)@.skip(len as int),
            exists|head: BytesMut| #[trigger]
                is_cut(old(self).slice(), len as int, head.slice(), final(self).slice())
                    && head.slice().frozen_as(r),
    {
        let head = self.split_to(len);
        assert(is_cut(old(self).slice(), len as int, head.slice(), self.slice()));
        head.freeze()
    }

    /// The number of bytes after `cnt` more of them were written to the room behind, or why there is
    /// not enough of it.
    pub fn advance_mut(&self, cnt: usize) -> (r: Result<usize, TryGetError>)
        requires
            self.wf(),
        ensures
            r == if cnt <= self.capacity_spec() - self@.len() {
                Ok::<usize, TryGetError>((self@.len() + cnt) as usize)
            } else {
                Err::<usize, TryGetError>(
                    TryGetError {
                        requested: cnt,
                        available: (self.capacity_spec() - self@.len()) as usize,
                    },
                )
            },
    {
        let remaining: usize = self.capacity() - self.len();
        if cnt > remaining {
            return Err(TryGetError { requested: cnt, available: remaining });
        }
        Ok(self.len() + cnt)
    }

    /// Makes sure that there is room for another byte, and returns how much room there is.
    pub fn chunk_mut(&mut self) -> (r: usize)
        requires
            old(self).wf(),
            old(self)@.len() + 64 <= isize::MAX,
        ensures
            final(self).wf(),
            final(self)@ == old(self)@,
            r == final(self).capacity_spec() - final(self)@.len(),
            r > 0,
            old(self)@.len() < old(self).capacity_spec() ==> *final(self) == *old(self),
            old(self)@.len() == old(self).capacity_spec() ==> r >= 64 && old(self).extended(
                64,
                Seq::empty(),
                *final(self),
            ),
    {
        if self.capacity() == self.len() {
            self.reserve(64);
        }
        self.capacity() - self.len()
    }

    /// Appends bytes.
    pub fn put_slice(&mut self, src: &[u8])
        requires
            old(self).wf(),
            old(self)@.len() + src@.len() <= isize::MAX,
        ensures
            final(self).wf(),
            final(self)@ == old(self)@ + src@,
            old(self).extended(src@.len() as int, src@, *final(self)),
    {
        self.extend_from_slice(src);
    }

    /// Appends `cnt` bytes `val`.
    pub fn put_bytes(&mut self, val: u8, cnt: usize)
        requires
            old(self).wf(),
            old(self)@.len() + cnt <= isize::MAX,
        ensures
            final(self).wf(),
            final(self)@ == old(self)@ + Seq::new(cnt as nat, |i: int| val),
            old(self).extended(
                cnt as int,
                Seq::new(cnt as nat, |i: int| val),
                *final(self),
            ),
    {
        self.reserve(cnt);
        let ghost reserved = *self;
        self.bytes.fill(val, cnt);
        proof {
            old(self).lemma_extended(reserved, Seq::new(cnt as nat, |i: int| val), *self);
        }
    }

    /// Appends the bytes of a string, unless there would be more bytes than a buffer can have.
    pub fn write_str(&mut self, text: &str) -> (r: bool)
        requires
            old(self).wf(),
        ensures
            final(self).wf(),
            r == (old(self)@.len() + vstd::utf8::encode_utf8(text@).len() <= isize::MAX),
            r ==> final(self)@ == old(self)@ + vstd::utf8::encode_utf8(text@) && old(self).extended(
                vstd::utf8::encode_utf8(text@).len() as int,
                vstd::utf8::encode_utf8(text@),
                *final(self),
            ),
            !r ==> *final(self) == *old(self),
    {
        let src = text.as_bytes();
        let limit: usize = isize::MAX as usize;
        if self.len() <= limit && src.len() <= limit - self.len() {
            self.put_slice(src);
            true
        } else {
            false
        }
    }

    /// Appends bytes, one after the other.
    pub fn extend_bytes(&mut self, bytes: Vec<u8>)
        requires
            old(self).wf(),
            old(self)@.len() + bytes@.len() <= isize::MAX,
        ensures
            final(self).wf(),
            final(self)@ == old(self)@ + bytes@,
            old(self).extended(bytes@.len() as int, bytes@, *final(self)),
    {
        self.extend_from_slice(bytes.as_slice());
    }

    /// Appends the bytes of several shared slices, one after the other.
    pub fn extend(&mut self, chunks: Vec<Bytes>)
        requires
            old(self).wf(),
            old(self)@.len() + concat_spec(chunks@).len() <= isize::MAX,
        ensures
            final(self).wf(),
            final(self)@ == old(self)@ + concat_spec(chunks@),
    {
        let mut i: usize = 0;
        while i < chunks.len()
            invariant
                i <= chunks@.len(),
                self.wf(),
                old(self)@.len() + concat_spec(chunks@).len() <= isize::MAX,
                self@ =~= old(self)@ + concat_spec(chunks@.take(i as int)),
            decreases chunks@.len() - i,
        {
            proof {
                assert(chunks@.take(i + 1).drop_last() =~= chunks@.take(i as int));
                lemma_concat_grows(chunks@, i + 1);
            }
            self.extend_from_slice(chunks[i].as_slice());
            i += 1;
        }
        assert(chunks@.take(i as int) =~= chunks@);
    }

    /// Turns the buffer into a vector.
    pub fn into_vec(self) -> (r: Vec<u8>)
        requires
            self.wf(),
        ensures
            r@ == self@,
    {
        match self.bytes.try_into_buffer::<Vec<u8>>() {
            Ok(vec) => vec,
            Err(bytes) => {
                let mut vec: Vec<u8> = Vec::new();
                copy_items(&mut vec, bytes.as_items());
                assert(vec@ =~= self@);
                vec
            },
        }
    }

    /// Whether these are the bytes of a shared slice: the same, to be written to, or a copy, where they
    /// cannot be written to or were found to be shared.
    pub open spec fn made_of_bytes(self, bytes: Bytes) -> bool {
        ||| {
            &&& self.is_vec(bytes@.len() as int)
            &&& bytes.is_writable::<VecLayout>() && !bytes.is_foreign() ==> bytes.found_shared()
        }
        ||| exists|slice: ArcSliceMut<[u8], VecLayout, true>| #[trigger]
            bytes.thawed_as(slice) && slice.is_as(self.slice())
    }

    /// The bytes of a shared slice, which are copied unless nothing else refers to them.
    pub fn from_bytes(bytes: Bytes) -> (r: BytesMut)
        ensures
            r.wf(),
            r@ == bytes@,
            r.made_of_bytes(bytes),
        no_unwind when !bytes.is_static() && bytes.is_writable::<VecLayout>() && !bytes.is_foreign()
            && !bytes.was_answered()
    {
        match bytes.try_into_mut::<VecLayout>() {
            Ok(slice) => BytesMut { bytes: slice.into_shared() },
            Err(same) => {
                proof {
                    if bytes.found_shared() {
                        bytes.lemma_found_shared();
                    }
                }
                Self::copy_from_slice(same.as_slice())
            },
        }
    }
}

/// The bytes of several shared slices, one after the other.
pub open spec fn concat_spec(chunks: Seq<Bytes>) -> Seq<u8>
    decreases chunks.len(),
{
    if chunks.len() == 0 {
        Seq::empty()
    } else {
        concat_spec(chunks.drop_last()) + chunks.last()@
    }
}

/// The first of several slices have no more bytes than all of them.
proof fn lemma_concat_grows(chunks: Seq<Bytes>, n: int)
    requires
        0 <= n <= chunks.len(),
    ensures
        concat_spec(chunks.take(n)).len() <= concat_spec(chunks).len(),
    decreases chunks.len() - n,
{
    if n == chunks.len() {
        assert(chunks.take(n) =~= chunks);
    } else {
        lemma_concat_grows(chunks, n + 1);
        assert(chunks.take(n + 1).drop_last() =~= chunks.take(n));
    }
}

/// Appends `n` bytes `value` to a vector.
pub(crate) fn push_bytes(vec: &mut Vec<u8>, value: u8, n: usize)
    ensures
        final(vec)@ == old(vec)@ + Seq::new(n as nat, |i: int| value),
{
    let mut i: usize = 0;
    while i < n
        invariant
            i <= n,
            vec@ =~= old(vec)@ + Seq::new(i as nat, |k: int| value),
        decreases n - i,
    {
        vec.push(value);
        i += 1;
    }
}

impl Clone for BytesMut {
    fn clone(&self) -> (r: BytesMut)
        ensures
            r@ == self@,
            r.is_vec(self@.len() as int),
    {
        Self::copy_from_slice(self.as_slice())
    }
}

impl core::ops::Deref for BytesMut {
    type Target = [u8];

    fn deref(&self) -> (r: &[u8])
        ensures
            r@ == self@,
    {
        self.as_slice()
    }
}

impl AsRef<[u8]> for BytesMut {
    fn as_ref(&self) -> (r: &[u8])
        ensures
            r@ == self@,
    {
        self.as_slice()
    }
}

impl Default for BytesMut {
    fn default() -> (r: BytesMut)
        ensures
            r@ == Seq::<u8>::empty(),
            r.is_vec(0),
    {
        Self::new()
    }
}

/// The number that a sequence of decimal digits stands for.
pub open spec fn decimal_value(digits: Seq<char>) -> int
    decreases digits.len(),
{
    if digits.len() == 0 {
        0
    } else {
        10 * decimal_value(digits.drop_last()) + "0123456789"@.index_of(digits.last())
    }
}

/// A number is written as the decimal digits that stand for it, without a zero in front.
pub proof fn law_decimal_has_value(n: nat)
    ensures
        decimal_value(decimal_spec(n)) == n,
        decimal_spec(n).len() > 0,
        n > 0 ==> decimal_spec(n)[0] != '0',
        forall|i: int|
            0 <= i < decimal_spec(n).len() ==> "0123456789"@.contains(#[trigger] decimal_spec(n)[i]),
    decreases n,
{
    reveal_strlit("0123456789");
    let digits = "0123456789"@;
    let low = (n % 10) as int;
    let last = (48 + n % 10) as u8 as char;
    assert(digits[low] == last);
    assert forall|i: int, j: int| 0 <= i < j < digits.len() implies digits[i] != digits[j] by {}
    assert(digits.index_of(last) == low);
    if n < 10 {
        assert(decimal_spec(n).drop_last() =~= Seq::empty());
        assert(decimal_value(decimal_spec(n).drop_last()) == 0);
        assert(decimal_spec(n).last() == last);
    } else {
        law_decimal_has_value(n / 10);
        assert(decimal_spec(n).drop_last() =~= decimal_spec(n / 10));
        assert(decimal_spec(n)[0] == decimal_spec(n / 10)[0]);
    }
}

/// The bytes of two rows of slices, one after the other, are those of both rows.
pub proof fn law_concat_follows(first: Seq<Bytes>, second: Seq<Bytes>, one: Bytes)
    ensures
        concat_spec(first + second) == concat_spec(first) + concat_spec(second),
        concat_spec(seq![one]) == one@,
    decreases second.len(),
{
    assert(seq![one].drop_last() =~= Seq::empty());
    assert(concat_spec(seq![one].drop_last()) =~= Seq::empty());
    assert(concat_spec(seq![one]) =~= one@);
    if second.len() == 0 {
        assert(first + second =~= first);
        assert(concat_spec(first) + concat_spec(second) =~= concat_spec(first));
    } else {
        law_concat_follows(first, second.drop_last(), one);
        assert((first + second).drop_last() =~= first + second.drop_last());
        assert(concat_spec(first + second) =~= concat_spec(first) + concat_spec(second));
    }
}

/// However a buffer is extended, the bytes that it had come first, and all its bytes have room.
pub proof fn law_extending_appends(
    before: BytesMut,
    additional: int,
    items: Seq<u8>,
    after: BytesMut,
)
    requires
        before.wf(),
        after.wf(),
        before.extended(additional, items, after),
        0 <= additional,
    ensures
        after@.take(before@.len() as int) == before@,
        after@.skip(before@.len() as int) == items,
        after.capacity_spec() >= before@.len() + additional,
        additional <= before.capacity_spec() - before@.len() ==> after.capacity_spec()
            == before.capacity_spec(),
{
    assert(after@.take(before@.len() as int) =~= before@);
    assert(after@.skip(before@.len() as int) =~= items);
    let (between, outcome) = choose|
        between: ArcSliceMut<[u8], VecLayout, false>,
        outcome: Result<(), TryReserveError>,
    | #[trigger]
        before.slice().reserved(additional, true, false, between, outcome) && if outcome is Ok {
            after.slice().follows(between, items)
        } else {
            after.is_vec(before@.len() + additional)
        };
    law_reserve_keeps_items::<[u8], VecLayout, false>(
        before.slice(),
        additional,
        true,
        false,
        between,
        outcome,
    );
}

/// A buffer that is a vector of its own has just the room that it was made with, and can grow.
pub proof fn law_vector_has_its_room(bytes: BytesMut, capacity: int)
    requires
        bytes.is_vec(capacity),
    ensures
        bytes.capacity_spec() == capacity,
        bytes.slice().offset() == 0,
        capacity == 0 ==> bytes.slice().buffer() is None,
        capacity > 0 ==> (bytes.slice().buffer() matches Some(buffer) && buffer.room_spec()
            == capacity as usize && buffer.is_resizable_spec()),
{
}

} // verus!
