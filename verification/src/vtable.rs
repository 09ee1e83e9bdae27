//! What can be done with a shared buffer.

use vstd::prelude::*;

verus! {

/// What a shared buffer is.
#[derive(Debug, Clone, Copy, PartialEq, Eq, Structural)]
pub enum BufferKind {
    /// A vector, any part of which can be given back as a vector.
    Vector,
    /// A vector that can only be given back whole, because its items have to be dropped.
    WholeVector,
    /// Any other buffer, which can only be given back whole and as what it was.
    Buffer,
}

/// What can be done with a shared buffer that the crate did not allocate itself.
#[derive(Debug, Clone, Copy, PartialEq, Eq, Structural)]
pub struct VTable {
    /// What the buffer is.
    pub kind: BufferKind,
    /// Whether the buffer can be written to.
    pub mutable: bool,
    /// Whether the buffer can grow.
    pub resizable: bool,
    /// The number of items for which a mutable buffer has room.
    pub capacity: usize,
}

impl VTable {
    /// A buffer that can only be read.
    pub fn new() -> (r: VTable)
        ensures
            r == (VTable {
                kind: BufferKind::Buffer,
                mutable: false,
                resizable: false,
                capacity: 0,
            }),
    {
        VTable { kind: BufferKind::Buffer, mutable: false, resizable: false, capacity: 0 }
    }

    /// A buffer that can be written to.
    pub fn new_mut(resizable: bool, capacity: usize) -> (r: VTable)
        ensures
            r == (VTable { kind: BufferKind::Buffer, mutable: true, resizable, capacity }),
    {
        VTable { kind: BufferKind::Buffer, mutable: true, resizable, capacity }
    }

    /// A vector; `needs_drop` says whether its items have to be dropped, so that it can only be given
    /// back whole.
    pub open spec fn new_vec_spec(needs_drop: bool, capacity: usize) -> VTable {
        VTable {
            kind: if needs_drop {
                BufferKind::WholeVector
            } else {
                BufferKind::Vector
            },
            mutable: true,
            resizable: true,
            capacity,
        }
    }

    /// A vector; `needs_drop` says whether its items have to be dropped, so that it can only be given
    /// back whole.
    pub fn new_vec(needs_drop: bool, capacity: usize) -> (r: VTable)
        ensures
            r == Self::new_vec_spec(needs_drop, capacity),
    {
        let kind = if needs_drop {
            BufferKind::WholeVector
        } else {
            BufferKind::Vector
        };
        VTable { kind, mutable: true, resizable: true, capacity }
    }
}

/// A buffer is described by what can be done with it, unless the crate allocated it itself: then it
/// has room for so many items.
#[derive(Debug, Clone, Copy, PartialEq, Eq, Structural)]
pub enum VTableOrCapacity {
    /// Another's buffer.
    VTable(VTable),
    /// The crate's own.
    Capacity(usize),
}

impl VTableOrCapacity {
    /// The number of items for which there is room.
    pub open spec fn room_spec(self) -> usize {
        match self {
            VTableOrCapacity::VTable(vtable) => vtable.capacity,
            VTableOrCapacity::Capacity(capacity) => capacity,
        }
    }

    /// The number of items for which there is room.
    pub fn room(&self) -> (r: usize)
        ensures
            r == self.room_spec(),
        no_unwind
    {
        match self {
            VTableOrCapacity::VTable(vtable) => vtable.capacity,
            VTableOrCapacity::Capacity(capacity) => *capacity,
        }
    }

    /// Whether the buffer can be written to.
    pub open spec fn is_mutable_spec(self) -> bool {
        match self {
            VTableOrCapacity::VTable(vtable) => vtable.mutable,
            VTableOrCapacity::Capacity(_) => true,
        }
    }

    /// Whether the buffer can be written to.
    pub fn is_mutable(&self) -> (r: bool)
        ensures
            r == self.is_mutable_spec(),
        no_unwind
    {
        match self {
            VTableOrCapacity::VTable(vtable) => vtable.mutable,
            VTableOrCapacity::Capacity(_) => true,
        }
    }

    /// Whether the buffer can grow.
    pub open spec fn is_resizable_spec(self) -> bool {
        match self {
            VTableOrCapacity::VTable(vtable) => vtable.mutable && vtable.resizable,
            VTableOrCapacity::Capacity(_) => true,
        }
    }

    /// Whether the buffer can grow.
    pub fn is_resizable(&self) -> (r: bool)
        ensures
            r == self.is_resizable_spec(),
        no_unwind
    {
        match self {
            VTableOrCapacity::VTable(vtable) => vtable.mutable && vtable.resizable,
            VTableOrCapacity::Capacity(_) => true,
        }
    }

    /// The same buffer with another capacity.
    pub open spec fn with_room_spec(self, capacity: usize) -> VTableOrCapacity {
        match self {
            VTableOrCapacity::VTable(vtable) => VTableOrCapacity::VTable(
                VTable { capacity, ..vtable },
            ),
            VTableOrCapacity::Capacity(_) => VTableOrCapacity::Capacity(capacity),
        }
    }

    /// The same buffer with another capacity.
    pub fn with_room(&self, capacity: usize) -> (r: VTableOrCapacity)
        ensures
            r == self.with_room_spec(capacity),
    {
        match self {
            VTableOrCapacity::VTable(vtable) => VTableOrCapacity::VTable(
                VTable {
                    kind: vtable.kind,
                    mutable: vtable.mutable,
                    resizable: vtable.resizable,
                    capacity,
                },
            ),
            VTableOrCapacity::Capacity(_) => VTableOrCapacity::Capacity(capacity),
        }
    }
}

/// A vector can be written to and can grow, and has the room that it was made with. A part of it can be
/// given back unless its items have to be dropped.
pub proof fn law_vectors_are_mutable(needs_drop: bool, capacity: usize)
    ensures
        ({
            let vector = VTableOrCapacity::VTable(VTable::new_vec_spec(needs_drop, capacity));
            &&& vector.is_mutable_spec()
            &&& vector.is_resizable_spec()
            &&& vector.room_spec() == capacity
            &&& VTable::new_vec_spec(needs_drop, capacity).kind is Vector <==> !needs_drop
            &&& VTable::new_vec_spec(needs_drop, capacity).kind is WholeVector <==> needs_drop
        }),
{
}

/// What the crate allocated itself can be written to and can grow. What can grow can be written to. A
/// buffer that is given another room has it, and stays what it is.
pub proof fn law_room_can_be_changed(buffer: VTableOrCapacity, capacity: usize, again: usize)
    ensures
        VTableOrCapacity::Capacity(capacity).is_mutable_spec(),
        VTableOrCapacity::Capacity(capacity).is_resizable_spec(),
        VTableOrCapacity::Capacity(capacity).room_spec() == capacity,
        buffer.is_resizable_spec() ==> buffer.is_mutable_spec(),
        buffer.with_room_spec(capacity).room_spec() == capacity,
        buffer.with_room_spec(buffer.room_spec()) == buffer,
        buffer.with_room_spec(capacity).with_room_spec(again) == buffer.with_room_spec(again),
        buffer.with_room_spec(capacity).is_mutable_spec() == buffer.is_mutable_spec(),
        buffer.with_room_spec(capacity).is_resizable_spec() == buffer.is_resizable_spec(),
{
}

} // verus!
