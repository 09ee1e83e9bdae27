//! Reading from and writing to slices of bytes, through the traits of the standard library and of
//! [`bytes`].

use crate::bytes_mut::BytesMut;
use crate::inlined::{InlinedLayout, SmallArcSlice, SmallSlice};
use crate::layout::{Layout, LayoutMut};
use crate::slice::ArcSlice;
use crate::slice_mut::ArcSliceMut;
use either::Either;
use vstd::prelude::*;

verus! {

/// [`std::io::Error`], which none of the functions here returns.
#[verifier::external_type_specification]
#[verifier::external_body]
pub struct ExIoError(std::io::Error);

/// The smaller of two numbers.
pub open spec fn least(a: int, b: int) -> int {
    if a <= b {
        a
    } else {
        b
    }
}

fn least_of(a: usize, b: usize) -> (r: usize)
    ensures
        r == least(a as int, b as int),
{
    if a <= b {
        a
    } else {
        b
    }
}

/// Copies the first items of a slice to another one, as many as it takes, and returns their number.
fn read_items(items: &[u8], buf: &mut [u8]) -> (r: usize)
    ensures
        r == if items@.len() <= old(buf)@.len() {
            items@.len()
        } else {
            old(buf)@.len()
        },
        final(buf)@ == items@.take(r as int) + old(buf)@.skip(r as int),
{
    let length: usize = buf.len();
    let n: usize = if items.len() <= length {
        items.len()
    } else {
        length
    };
    let mut i: usize = 0;
    while i < n
        invariant
            i <= n,
            n <= items@.len(),
            n <= old(buf)@.len(),
            buf@ =~= items@.take(i as int) + old(buf)@.skip(i as int),
        decreases n - i,
    {
        buf[i] = items[i];
        i += 1;
    }
    n
}

/// Advancing by more than what remains is advancing by all that remains.
impl<L: Layout> bytes::Buf for ArcSlice<[u8], L> {
    fn remaining(&self) -> (r: usize)
        ensures
            r == self@.len(),
    {
        self.len()
    }

    fn chunk(&self) -> (r: &[u8])
        ensures
            r@ == self@,
    {
        self.as_slice()
    }

    fn advance(&mut self, cnt: usize)
        ensures
            final(self)@ == old(self)@.skip(least(cnt as int, old(self)@.len() as int)),
            final(self).position() == old(self).position() + least(
                cnt as int,
                old(self)@.len() as int,
            ),
            final(self).stays_in(*old(self)),
    {
        let n: usize = least_of(cnt, self.len());
        ArcSlice::advance(self, n);
    }
}

/// Advancing by more than what remains is advancing by all that remains.
impl<L: LayoutMut, const UNIQUE: bool> bytes::Buf for ArcSliceMut<[u8], L, UNIQUE> {
    fn remaining(&self) -> (r: usize)
        ensures
            r == self@.len(),
    {
        self.len()
    }

    fn chunk(&self) -> (r: &[u8])
        ensures
            r@ == self@,
    {
        self.as_items()
    }

    fn advance(&mut self, cnt: usize)
        ensures
            final(self)@ == old(self)@.skip(least(cnt as int, old(self)@.len() as int)),
            final(self).data() == old(self).data(),
            old(self).wf() ==> final(self).wf() && final(self).capacity_spec()
                == old(self).capacity_spec() - least(cnt as int, old(self)@.len() as int)
                && final(self).offset() == if final(self).data() is Some {
                old(self).offset() + least(cnt as int, old(self)@.len() as int)
            } else {
                0
            },
    {
        let n: usize = least_of(cnt, self.len());
        self.skip_items(n);
    }
}

/// Advancing by more than what remains is advancing by all that remains.
impl<L: InlinedLayout> bytes::Buf for SmallSlice<[u8], L> {
    fn remaining(&self) -> (r: usize)
        ensures
            r == self@.len(),
    {
        self.len()
    }

    fn chunk(&self) -> (r: &[u8])
        ensures
            r@ == self@,
    {
        self.as_slice()
    }

    fn advance(&mut self, cnt: usize)
        ensures
            final(self)@ == old(self)@.skip(least(cnt as int, old(self)@.len() as int)),
    {
        let n: usize = least_of(cnt, self.len());
        SmallSlice::advance(self, n);
    }
}

/// Advancing by more than what remains is advancing by all that remains.
impl<L: InlinedLayout> bytes::Buf for SmallArcSlice<[u8], L> {
    fn remaining(&self) -> (r: usize)
        ensures
            r == self@.len(),
    {
        self.len()
    }

    fn chunk(&self) -> (r: &[u8])
        ensures
            r@ == self@,
    {
        self.as_slice()
    }

    fn advance(&mut self, cnt: usize)
        ensures
            final(self)@ == old(self)@.skip(least(cnt as int, old(self)@.len() as int)),
            match (old(self).either(), final(self).either()) {
                (Either::Left(_), Either::Left(_)) => true,
                (Either::Right(before), Either::Right(after)) => after.stays_in(before)
                    && after.position() == before.position() + least(
                    cnt as int,
                    old(self)@.len() as int,
                ),
                _ => false,
            },
    {
        let n: usize = least_of(cnt, self.len());
        self._advance(n);
    }
}

/// Advancing by more than what remains is advancing by all that remains.
impl bytes::Buf for BytesMut {
    fn remaining(&self) -> (r: usize)
        ensures
            r == self@.len(),
    {
        self.len()
    }

    fn chunk(&self) -> (r: &[u8])
        ensures
            r@ == self@,
    {
        self.as_slice()
    }

    fn advance(&mut self, cnt: usize)
        ensures
            final(self)@ == old(self)@.skip(least(cnt as int, old(self)@.len() as int)),
            final(self).slice().data() == old(self).slice().data(),
            old(self).wf() ==> final(self).wf() && final(self).capacity_spec()
                == old(self).capacity_spec() - least(cnt as int, old(self)@.len() as int),
    {
        let n: usize = least_of(cnt, self.len());
        self.skip_bytes(n);
    }
}

/// Reading copies the first bytes, which stay in the slice.
impl<L: Layout> std::io::Read for ArcSlice<[u8], L> {
    fn read(&mut self, buf: &mut [u8]) -> (r: Result<usize, std::io::Error>)
        ensures
            *final(self) == *old(self),
            r matches Ok(n) && n == least(old(self)@.len() as int, old(buf)@.len() as int)
                && final(buf)@ == old(self)@.take(n as int) + old(buf)@.skip(n as int),
    {
        Ok(read_items(self.as_items(), buf))
    }
}

/// Reading copies the first bytes, which stay in the slice.
impl<L: LayoutMut, const UNIQUE: bool> std::io::Read for ArcSliceMut<[u8], L, UNIQUE> {
    fn read(&mut self, buf: &mut [u8]) -> (r: Result<usize, std::io::Error>)
        ensures
            *final(self) == *old(self),
            r matches Ok(n) && n == least(old(self)@.len() as int, old(buf)@.len() as int)
                && final(buf)@ == old(self)@.take(n as int) + old(buf)@.skip(n as int),
    {
        Ok(read_items(self.as_items(), buf))
    }
}

/// Writing appends as many bytes as there is room for.
impl<L: LayoutMut, const UNIQUE: bool> std::io::Write for ArcSliceMut<[u8], L, UNIQUE> {
    fn write(&mut self, buf: &[u8]) -> (r: Result<usize, std::io::Error>)
        ensures
            old(self).wf() ==> final(self).wf() && (r matches Ok(n) && n == least(
                old(self).capacity_spec() - old(self)@.len(),
                buf@.len() as int,
            ) && final(self).follows(*old(self), buf@.take(n as int))),
    {
        Ok(self.append_items(buf))
    }

    fn flush(&mut self) -> (r: Result<(), std::io::Error>)
        ensures
            *final(self) == *old(self),
            r is Ok,
    {
        Ok(())
    }
}

/// The smaller of two numbers is one of them, and not above the other.
pub proof fn law_least_is_the_smaller(a: int, b: int)
    ensures
        least(a, b) <= a,
        least(a, b) <= b,
        least(a, b) == a || least(a, b) == b,
{
}

} // verus!
