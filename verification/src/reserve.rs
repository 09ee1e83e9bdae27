//! How capacity is reserved in a buffer.

use crate::error::TryReserveError;
use crate::storage::{law_head_is_small, max_spec, slice_layout, slice_layout_spec};
use crate::vtable::VTableOrCapacity;
use vstd::prelude::*;

verus! {

/// The size of an array of `capacity` items, if it can be addressed: rounded up to its alignment,
/// it may not exceed `isize::MAX`.
pub open spec fn array_layout_spec<T>(capacity: int) -> Option<int> {
    let size = capacity * vstd::layout::size_of::<T>();
    if size <= isize::MAX - (vstd::layout::align_of::<T>() - 1) {
        Some(size)
    } else {
        None
    }
}

/// The size of an array of `capacity` items, if it can be addressed.
pub fn array_layout<T>(capacity: usize) -> (r: Option<usize>)
    ensures
        match r {
            Some(size) => array_layout_spec::<T>(capacity as int) == Some(size as int),
            None => array_layout_spec::<T>(capacity as int) is None,
        },
{
    broadcast use vstd::layout::align_nonzero;

    let align: usize = core::mem::align_of::<T>();
    let limit: usize = isize::MAX as usize;
    match capacity.checked_mul(core::mem::size_of::<T>()) {
        Some(size) => if align - 1 <= limit && size <= limit - (align - 1) {
            Some(size)
        } else {
            None
        },
        None => None,
    }
}

/// Whether a buffer with room for `capacity` items can be addressed.
pub open spec fn room_fits<T>(buffer: VTableOrCapacity, capacity: int, needs_drop: bool) -> bool {
    match buffer {
        VTableOrCapacity::Capacity(_) => slice_layout_spec::<T>(capacity, needs_drop) is Some,
        VTableOrCapacity::VTable(_) => array_layout_spec::<T>(capacity) is Some,
    }
}

/// What the room of a buffer grows to, when `required` items have to fit: it doubles at least.
pub open spec fn grown_room(room: int, required: int) -> int {
    max_spec(
        if 2 * room <= usize::MAX {
            2 * room
        } else {
            usize::MAX as int
        },
        required,
    )
}

/// What the room of a buffer grows to so that `additional` items fit behind the first `len`.
pub open spec fn realloc_spec<T>(
    buffer: VTableOrCapacity,
    len: int,
    additional: int,
    needs_drop: bool,
) -> Result<int, TryReserveError> {
    let required = len + additional;
    let room = grown_room(buffer.room_spec() as int, required);
    if required > usize::MAX || !room_fits::<T>(buffer, room, needs_drop) {
        Err(TryReserveError::CapacityOverflow)
    } else {
        Ok(room)
    }
}

/// What the room of a buffer grows to so that `additional` items fit behind the first `len`.
pub fn realloc<T>(buffer: VTableOrCapacity, len: usize, additional: usize, needs_drop: bool) -> (r:
    Result<usize, TryReserveError>)
    ensures
        match r {
            Ok(room) => realloc_spec::<T>(buffer, len as int, additional as int, needs_drop) == Ok::<
                int,
                TryReserveError,
            >(room as int),
            Err(error) => realloc_spec::<T>(buffer, len as int, additional as int, needs_drop)
                == Err::<int, TryReserveError>(error),
        },
{
    let required: usize = match len.checked_add(additional) {
        Some(required) => required,
        None => return Err(TryReserveError::CapacityOverflow),
    };
    let room: usize = buffer.room();
    let doubled: usize = match room.checked_mul(2) {
        Some(doubled) => doubled,
        None => usize::MAX,
    };
    let new_room: usize = if doubled >= required {
        doubled
    } else {
        required
    };
    let layout: Option<usize> = match buffer {
        VTableOrCapacity::Capacity(_) => slice_layout::<T>(new_room, needs_drop),
        VTableOrCapacity::VTable(_) => array_layout::<T>(new_room),
    };
    match layout {
        Some(_) => Ok(new_room),
        None => Err(TryReserveError::CapacityOverflow),
    }
}

/// How capacity is reserved.
#[derive(Debug, Clone, Copy, PartialEq, Eq, Structural)]
pub enum ReservePlan {
    /// There is enough room behind the slice.
    Extend,
    /// There is enough room once the slice is at the front of the buffer.
    Shift,
    /// The buffer has to grow to this room.
    Grow(usize),
}

/// How room is made for `additional` items behind a slice of `length` items, which starts at
/// `offset` in a buffer that nothing else refers to.
///
/// The slice is only moved to the front of the buffer where it does not overlap with its new place,
/// and where its items do not have to be dropped. The buffer only grows if `allocate` says so.
pub open spec fn try_reserve_spec<T>(
    buffer: VTableOrCapacity,
    offset: int,
    length: int,
    additional: int,
    allocate: bool,
    needs_drop: bool,
) -> Result<ReservePlan, TryReserveError> {
    let room = buffer.room_spec();
    if !buffer.is_mutable_spec() {
        Err(TryReserveError::Unsupported)
    } else if room - offset - length >= additional {
        Ok(ReservePlan::Extend)
    } else if !needs_drop && room - length >= additional && offset >= length {
        Ok(ReservePlan::Shift)
    } else if allocate && buffer.is_resizable_spec() {
        match realloc_spec::<T>(buffer, offset + length, additional, needs_drop) {
            Ok(room) => Ok(ReservePlan::Grow(room as usize)),
            Err(error) => Err(error),
        }
    } else {
        Err(TryReserveError::Unsupported)
    }
}

/// See [`try_reserve_spec`].
pub fn try_reserve_impl<T>(
    buffer: VTableOrCapacity,
    offset: usize,
    length: usize,
    additional: usize,
    allocate: bool,
    needs_drop: bool,
) -> (r: Result<ReservePlan, TryReserveError>)
    requires
        offset + length <= buffer.room_spec(),
    ensures
        r == try_reserve_spec::<T>(
            buffer,
            offset as int,
            length as int,
            additional as int,
            allocate,
            needs_drop,
        ),
        r matches Ok(ReservePlan::Grow(room)) ==> offset + length + additional <= room,
    no_unwind when !allocate
{
    let room: usize = buffer.room();
    if !buffer.is_mutable() {
        return Err(TryReserveError::Unsupported);
    }
    if room - offset - length >= additional {
        return Ok(ReservePlan::Extend);
    }
    if !needs_drop && room - length >= additional && offset >= length {
        return Ok(ReservePlan::Shift);
    }
    if allocate && buffer.is_resizable() {
        return match realloc::<T>(buffer, offset + length, additional, needs_drop) {
            Ok(room) => Ok(ReservePlan::Grow(room)),
            Err(error) => Err(error),
        };
    }
    Err(TryReserveError::Unsupported)
}

/// However capacity is reserved, there is room for the additional items afterwards.
pub proof fn law_reserve_makes_room<T>(
    buffer: VTableOrCapacity,
    offset: int,
    length: int,
    additional: int,
    allocate: bool,
    needs_drop: bool,
)
    requires
        0 <= offset,
        0 <= length,
        0 <= additional,
        offset + length <= buffer.room_spec(),
    ensures
        match try_reserve_spec::<T>(buffer, offset, length, additional, allocate, needs_drop) {
            Ok(ReservePlan::Extend) => buffer.room_spec() - offset - length >= additional,
            Ok(ReservePlan::Shift) => buffer.room_spec() - length >= additional,
            Ok(ReservePlan::Grow(room)) => room - offset - length >= additional,
            Err(_) => true,
        },
{
}

/// A buffer at least doubles its room when it grows, as far as room can be counted.
pub proof fn law_growth_doubles<T>(
    buffer: VTableOrCapacity,
    offset: int,
    length: int,
    additional: int,
    needs_drop: bool,
)
    requires
        0 <= offset,
        0 <= length,
        0 <= additional,
        offset + length <= buffer.room_spec(),
    ensures
        try_reserve_spec::<T>(buffer, offset, length, additional, true, needs_drop) matches Ok(
            ReservePlan::Grow(room),
        ) ==> room >= 2 * buffer.room_spec() || room == usize::MAX,
{
}

/// A buffer does not grow unless that is allowed, and a slice that is moved to the front of the buffer
/// does not overlap with the place where it was.
pub proof fn law_reclaim_moves_at_most<T>(
    buffer: VTableOrCapacity,
    offset: int,
    length: int,
    additional: int,
    allocate: bool,
    needs_drop: bool,
)
    ensures
        !(try_reserve_spec::<T>(buffer, offset, length, additional, false, needs_drop) matches Ok(
            ReservePlan::Grow(_),
        )),
        try_reserve_spec::<T>(buffer, offset, length, additional, allocate, needs_drop) == Ok::<
            ReservePlan,
            TryReserveError,
        >(ReservePlan::Shift) ==> length <= offset && !needs_drop,
{
}

/// Reclaiming succeeds just where it can: where there is enough room behind the slice, or where its
/// items, which do not have to be dropped, do not overlap with their new place at the front, and there
/// is enough room behind that. It then does the same as reserving, and the buffer does not grow.
pub proof fn law_reclaim_succeeds_where_it_can<T>(
    buffer: VTableOrCapacity,
    offset: int,
    length: int,
    additional: int,
    allocate: bool,
    needs_drop: bool,
)
    requires
        buffer.is_mutable_spec(),
    ensures
        ({
            let room = buffer.room_spec();
            let reclaimed = try_reserve_spec::<T>(
                buffer,
                offset,
                length,
                additional,
                false,
                needs_drop,
            );
            let reserved = try_reserve_spec::<T>(
                buffer,
                offset,
                length,
                additional,
                allocate,
                needs_drop,
            );
            let behind = room - offset - length >= additional;
            let in_front = !needs_drop && offset >= length && room - length >= additional;
            &&& reclaimed is Ok <==> behind || in_front
            &&& reclaimed is Err ==> reclaimed == Err::<ReservePlan, TryReserveError>(
                TryReserveError::Unsupported,
            )
            &&& behind ==> reserved == Ok::<ReservePlan, TryReserveError>(ReservePlan::Extend)
            &&& in_front && !behind ==> reserved == Ok::<ReservePlan, TryReserveError>(
                ReservePlan::Shift,
            )
        }),
{
}

/// A buffer that can be written to and can grow does so where there is not enough room: to twice its
/// room, or to what is asked for, whichever is more, as far as that can be counted. It fails only where
/// that many items cannot be counted, or do not fit into half of the memory that can be addressed, along
/// with what stands beside them.
pub proof fn law_growth_is_what_is_asked<T>(
    buffer: VTableOrCapacity,
    offset: int,
    length: int,
    additional: int,
    needs_drop: bool,
)
    requires
        buffer.is_resizable_spec(),
        0 <= offset,
        0 <= length,
        0 <= additional,
        offset + length <= buffer.room_spec(),
    ensures
        ({
            let room = buffer.room_spec() as int;
            let asked = offset + length + additional;
            let size = vstd::layout::size_of::<T>();
            match try_reserve_spec::<T>(buffer, offset, length, additional, true, needs_drop) {
                Ok(ReservePlan::Grow(grown)) => {
                    &&& grown == asked || grown == 2 * room || (grown == usize::MAX && 2 * room
                        > usize::MAX)
                    &&& grown >= asked
                    &&& grown >= 2 * room || grown == usize::MAX
                    &&& asked > room
                    &&& grown * size <= isize::MAX
                },
                Ok(_) => true,
                Err(error) => {
                    &&& error == TryReserveError::CapacityOverflow
                    &&& asked > room
                    &&& asked > usize::MAX || asked * size + 6 * vstd::layout::size_of::<usize>() + 4
                        * vstd::layout::align_of::<T>() + 4 * vstd::layout::align_of::<usize>()
                        > isize::MAX || 2 * room * size + 6 * vstd::layout::size_of::<usize>() + 4
                        * vstd::layout::align_of::<T>() + 4 * vstd::layout::align_of::<usize>()
                        > isize::MAX
                },
            }
        }),
{
    broadcast use vstd::layout::align_nonzero;

    let room = buffer.room_spec() as int;
    let asked = offset + length + additional;
    let grown = grown_room(room, asked);
    let size = vstd::layout::size_of::<T>() as int;
    assert(grown * size >= 0) by (nonlinear_arith)
        requires
            grown >= 0,
            size >= 0,
    ;
    assert(grown <= 2 * room ==> grown * size <= 2 * room * size) by (nonlinear_arith)
        requires
            size >= 0,
    ;
    law_slice_layout_is_what_is_needed::<T>(grown, needs_drop);
}

/// An allocation has room for its items, and can be addressed; and it is only refused where the items,
/// along with a small head, cannot be addressed.
pub proof fn law_slice_layout_is_what_is_needed<T>(capacity: int, needs_drop: bool)
    requires
        0 <= capacity,
    ensures
        slice_layout_spec::<T>(capacity, needs_drop) matches Some(size) ==> capacity
            * vstd::layout::size_of::<T>() <= size <= isize::MAX,
        slice_layout_spec::<T>(capacity, needs_drop) is None ==> capacity * vstd::layout::size_of::<
            T,
        >() + 6 * vstd::layout::size_of::<usize>() + 4 * vstd::layout::align_of::<T>() + 4
            * vstd::layout::align_of::<usize>() > isize::MAX,
{
    broadcast use vstd::layout::align_nonzero;

    law_head_is_small::<T>(needs_drop);
    assert(capacity * vstd::layout::size_of::<T>() >= 0) by (nonlinear_arith)
        requires
            capacity >= 0,
    ;
}

} // verus!
