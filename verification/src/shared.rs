//! The standard library's shared pointer.

use crate::dynamic::AnyBox;
use std::sync::Arc as StdArc;
use vstd::prelude::*;

verus! {

/// [`StdArc::clone`]: one more pointer to the same value.
#[verifier::external_body]
pub(crate) fn share<T: ?Sized>(pointer: &StdArc<T>) -> (r: StdArc<T>)
    ensures
        r == *pointer,
{
    pointer.clone()
}

/// [`StdArc::strong_count`]: how many pointers to the value there are. It counts the pointer that
/// is asked, and what the other holders do in the meantime is theirs: no more is promised.
#[verifier::external_body]
fn count<T: ?Sized>(pointer: &StdArc<T>) -> (r: usize)
    ensures
        r >= 1,
    no_unwind
{
    StdArc::strong_count(pointer)
}

/// Whether `handles` is what was counted when asked how many pointers to the value there are.
pub closed spec fn counted<T: ?Sized>(pointer: StdArc<T>, handles: usize) -> bool {
    call_ensures(count::<T>, (&pointer,), handles)
}

/// How many pointers to the value there are: the other holders decide.
pub(crate) fn handles<T: ?Sized>(pointer: &StdArc<T>) -> (r: usize)
    ensures
        r >= 1,
        counted(*pointer, r),
    no_unwind
{
    count(pointer)
}

/// [`StdArc::try_unwrap`]: the value, or the pointer back where there are others. Which of the two
/// comes depends on the other holders.
#[verifier::external_body]
fn unshare<T>(pointer: StdArc<T>) -> (r: Result<T, StdArc<T>>)
    ensures
        match r {
            Ok(value) => value == *pointer,
            Err(same) => same == pointer,
        },
    no_unwind
{
    StdArc::try_unwrap(pointer)
}

/// Whether the pointer was given back when the value was asked for, because there were others.
pub closed spec fn refused<T>(pointer: StdArc<T>) -> bool {
    exists|same: StdArc<T>| #[trigger] call_ensures(unshare::<T>, (pointer,), Err(same))
}

/// Whether the value was given when it was asked for, because there was no other pointer.
pub closed spec fn granted<T>(pointer: StdArc<T>) -> bool {
    exists|value: T| #[trigger] call_ensures(unshare::<T>, (pointer,), Ok(value))
}

/// The value behind a pointer, or the pointer back where there are others: the other holders decide.
pub(crate) fn release<T>(pointer: StdArc<T>) -> (r: Result<T, StdArc<T>>)
    ensures
        match r {
            Ok(value) => value == *pointer && granted(pointer),
            Err(same) => same == pointer && refused(pointer),
        },
    no_unwind
{
    unshare(pointer)
}

/// [`StdArc::ptr_eq`]: whether two pointers are to the same value. Equal values may stand at two
/// places, so only one direction is promised.
#[verifier::external_body]
fn same_place<T: ?Sized>(a: &StdArc<T>, b: &StdArc<T>) -> (r: bool)
    ensures
        r ==> *a == *b,
{
    StdArc::ptr_eq(a, b)
}

/// [`StdArc::ptr_eq`] on pointers to values of a type that is known only at run time. Such a value is
/// owned by the one allocation that it stands in, and nothing but being that value is known of it, so
/// that two pointers are to the same place exactly where they are to the same value.
#[verifier::external_body]
pub(crate) fn is_same_note(a: &StdArc<AnyBox>, b: &StdArc<AnyBox>) -> (r: bool)
    ensures
        r == (**a == **b),
{
    StdArc::ptr_eq(a, b)
}

/// Whether `same` is what was answered when asked if two pointers are to the same value.
pub closed spec fn placed<T: ?Sized>(a: StdArc<T>, b: StdArc<T>, same: bool) -> bool {
    call_ensures(same_place::<T>, (&a, &b), same)
}

/// Whether two pointers are to the same value, as its place in memory tells.
pub(crate) fn is_same_place<T: ?Sized>(a: &StdArc<T>, b: &StdArc<T>) -> (r: bool)
    ensures
        placed(*a, *b, r),
        r ==> *a == *b,
{
    let f = same_place::<T>;
    f(a, b)
}

} // verus!
