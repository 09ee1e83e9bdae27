//! Errors of allocation and reservation.

use vstd::prelude::*;

verus! {

/// An allocation failed, or the layout to be allocated is too large.
#[derive(Debug, Clone, Copy, PartialEq, Eq, Structural)]
pub struct AllocError;

impl AllocError {
    /// The message of the error.
    pub fn message(&self) -> (r: &'static str)
        ensures
            r@ == "allocation error"@,
    {
        "allocation error"
    }
}

/// Why capacity could not be reserved.
#[derive(Debug, Clone, Copy, PartialEq, Eq, Structural)]
pub enum TryReserveError {
    /// Another handle refers to the buffer.
    NotUnique,
    /// The buffer cannot grow.
    Unsupported,
    /// The allocator refused.
    AllocError,
    /// The capacity asked for exceeds what can be addressed.
    CapacityOverflow,
}

impl TryReserveError {
    /// The message of the error.
    pub open spec fn message_spec(self) -> Seq<char> {
        match self {
            TryReserveError::NotUnique => "not unique"@,
            TryReserveError::Unsupported => "unsupported"@,
            TryReserveError::AllocError => "allocation error"@,
            TryReserveError::CapacityOverflow => "capacity overflow"@,
        }
    }

    /// The message of the error.
    pub fn message(&self) -> (r: &'static str)
        ensures
            r@ == self.message_spec(),
    {
        match self {
            TryReserveError::NotUnique => "not unique",
            TryReserveError::Unsupported => "unsupported",
            TryReserveError::AllocError => "allocation error",
            TryReserveError::CapacityOverflow => "capacity overflow",
        }
    }
}

impl From<AllocError> for TryReserveError {
    fn from(error: AllocError) -> (r: TryReserveError) {
        TryReserveError::AllocError
    }
}

impl vstd::std_specs::convert::FromSpecImpl<AllocError> for TryReserveError {
    open spec fn obeys_from_spec() -> bool {
        true
    }

    open spec fn from_spec(error: AllocError) -> TryReserveError {
        TryReserveError::AllocError
    }
}

/// Whether `outcome` is what became of reserving room for `additional` more items in a vector of
/// `items`.
pub open spec fn reserved_room<T>(
    items: Seq<T>,
    additional: usize,
    outcome: Result<(), std::collections::TryReserveError>,
) -> bool {
    exists|vec: &mut Vec<T>| #[trigger]
        call_ensures(Vec::<T>::try_reserve, (vec, additional), outcome) && vec@ == items
}

/// Whether there was room for `additional` more items in a vector of `items`, if `ok` holds, or the
/// allocator refused it, if not.
pub open spec fn room_given<T>(items: Seq<T>, additional: usize, ok: bool) -> bool {
    exists|outcome: Result<(), std::collections::TryReserveError>| #[trigger]
        reserved_room::<T>(items, additional, outcome) && ok == outcome is Ok
}

/// Tries reserving room for `additional` more items in a vector: the allocator decides.
pub(crate) fn try_make_room<T>(vec: &mut Vec<T>, additional: usize) -> (r: bool)
    ensures
        final(vec)@ == old(vec)@,
        room_given::<T>(old(vec)@, additional, r),
{
    let reserve = Vec::<T>::try_reserve;
    let outcome = reserve(vec, additional);
    assert(reserved_room::<T>(old(vec)@, additional, outcome));
    outcome.is_ok()
}

/// Whether `vec` is a vector that was made with room for `capacity` items.
pub open spec fn made_with_room<T>(capacity: usize, vec: Vec<T>) -> bool {
    call_ensures(Vec::<T>::with_capacity, (capacity,), vec)
}

/// How a failed allocation is answered: [`AllocError`] hands the failure back to the caller, while
/// [`core::convert::Infallible`] leaves it to the allocator's own handler, which does not return.
pub trait AllocErrorImpl: Sized {
    /// Whether a failure comes back to the caller.
    spec fn fallible() -> bool;

    /// A vector with room for `capacity` items, whose layout is `layout` bytes large, or too large.
    fn allocate<T>(capacity: usize, layout: Option<usize>) -> (r: Result<Vec<T>, Self>)
        ensures
            r matches Ok(vec) ==> vec@ == Seq::<T>::empty(),
            gives::<T>(Self::fallible(), capacity, bytes_of(layout), r is Ok),
    ;
}

/// Whether an allocation of room for `capacity` items, whose layout is `layout` bytes large, or too
/// large, succeeds, if `ok` holds, or fails, if not: if a failure comes back, the allocator decides,
/// unless the layout is too large.
pub open spec fn gives<T>(fallible: bool, capacity: usize, layout: Option<int>, ok: bool) -> bool {
    if fallible {
        match layout {
            Some(_) => room_given::<T>(Seq::empty(), capacity, ok),
            None => !ok,
        }
    } else {
        ok
    }
}

/// The size of a layout, as a number.
pub open spec fn bytes_of(layout: Option<usize>) -> Option<int> {
    match layout {
        Some(size) => Some(size as int),
        None => None,
    }
}

impl AllocErrorImpl for AllocError {
    open spec fn fallible() -> bool {
        true
    }

    fn allocate<T>(capacity: usize, layout: Option<usize>) -> (r: Result<Vec<T>, AllocError>) {
        if layout.is_none() {
            return Err(AllocError);
        }
        let mut vec: Vec<T> = Vec::new();
        if try_make_room(&mut vec, capacity) {
            Ok(vec)
        } else {
            Err(AllocError)
        }
    }
}

impl AllocErrorImpl for core::convert::Infallible {
    open spec fn fallible() -> bool {
        false
    }

    /// A vector that is made with room for `capacity` items.
    fn allocate<T>(capacity: usize, layout: Option<usize>) -> (r: Result<
        Vec<T>,
        core::convert::Infallible,
    >)
        ensures
            r matches Ok(vec) && made_with_room(capacity, vec),
    {
        let make = Vec::<T>::with_capacity;
        Ok(make(capacity))
    }
}

} // verus!
