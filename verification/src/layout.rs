//! How a slice refers to its buffer.
//!
//! A layout says which buffers a slice may have. It is a type without values; what it says is read
//! off its functions.

use vstd::prelude::*;

verus! {

/// What a layout says of the slices that have it.
pub trait ArcSliceLayout: 'static {
    /// Whether any buffer is supported, or only slices that the crate allocates itself.
    spec fn any_buffer() -> bool;

    /// Whether a slice that lives as long as the program is referred to as it is.
    spec fn static_data() -> bool;

    /// Whether a vector of `len` items, with room for `capacity`, is referred to as it is.
    spec fn direct_vec(len: int, capacity: int) -> bool;

    /// Whether any buffer is supported.
    fn supports_any_buffer() -> (r: bool)
        ensures
            r == Self::any_buffer(),
        no_unwind when true
    ;

    /// Whether a slice that lives as long as the program is referred to as it is.
    fn supports_static_data() -> (r: bool)
        ensures
            r == Self::static_data(),
        no_unwind when true
    ;

    /// Whether a vector of `len` items, with room for `capacity`, is referred to as it is.
    fn supports_direct_vec(len: usize, capacity: usize) -> (r: bool)
        ensures
            r == Self::direct_vec(len as int, capacity as int),
        no_unwind when true
    ;
}

/// A layout.
pub trait Layout: ArcSliceLayout {

}

/// A layout for mutable slices.
pub trait ArcSliceMutLayout: ArcSliceLayout {

}

/// A layout for mutable slices, too.
pub trait LayoutMut: Layout + ArcSliceMutLayout {

}

/// A layout that supports any buffer.
pub trait AnyBufferLayout: Layout {
    /// Any buffer is supported.
    proof fn lemma_any_buffer()
        ensures
            Self::any_buffer(),
    ;
}

/// A layout that refers to static slices as they are.
pub trait StaticLayout: Layout {
    /// A static slice is referred to as it is.
    proof fn lemma_static_data()
        ensures
            Self::static_data(),
    ;
}

/// A layout whose slices are cloned without allocating.
pub trait CloneNoAllocLayout: Layout {

}

/// A layout whose slices are truncated without allocating.
pub trait TruncateNoAllocLayout: Layout {

}

/// A layout that can be converted from another one.
///
/// Layouts that do not support any buffer cannot be converted from ones that do. The buffer that a
/// slice actually has may still be compatible; the conversions that can fail find that out.
pub trait FromLayout<L: Layout>: Layout {
    /// What the other layout supports, this one supports.
    proof fn lemma_from_layout()
        ensures
            L::any_buffer() ==> Self::any_buffer(),
    ;
}

/// The layout of a slice that refers to its buffer by a shared pointer.
#[derive(Debug, Clone, Copy)]
pub struct ArcLayout<const ANY_BUFFER: bool, const STATIC: bool>;

impl<const ANY_BUFFER: bool, const STATIC: bool> ArcSliceLayout for ArcLayout<ANY_BUFFER, STATIC> {
    open spec fn any_buffer() -> bool {
        ANY_BUFFER
    }

    open spec fn static_data() -> bool {
        STATIC
    }

    open spec fn direct_vec(len: int, capacity: int) -> bool {
        false
    }

    fn supports_any_buffer() -> (r: bool) {
        ANY_BUFFER
    }

    fn supports_static_data() -> (r: bool) {
        STATIC
    }

    fn supports_direct_vec(len: usize, capacity: usize) -> (r: bool) {
        false
    }
}

impl<const ANY_BUFFER: bool, const STATIC: bool> Layout for ArcLayout<ANY_BUFFER, STATIC> {

}

impl<const STATIC: bool> AnyBufferLayout for ArcLayout<true, STATIC> {
    proof fn lemma_any_buffer() {
    }
}

impl<const ANY_BUFFER: bool> StaticLayout for ArcLayout<ANY_BUFFER, true> {
    proof fn lemma_static_data() {
    }
}

impl<const ANY_BUFFER: bool, const STATIC: bool> CloneNoAllocLayout for ArcLayout<
    ANY_BUFFER,
    STATIC,
> {

}

impl<const ANY_BUFFER: bool, const STATIC: bool> TruncateNoAllocLayout for ArcLayout<
    ANY_BUFFER,
    STATIC,
> {

}

impl<const ANY_BUFFER: bool, const STATIC: bool> ArcSliceMutLayout for ArcLayout<
    ANY_BUFFER,
    STATIC,
> {

}

impl<const ANY_BUFFER: bool, const STATIC: bool> LayoutMut for ArcLayout<ANY_BUFFER, STATIC> {

}

/// The layout of a slice that refers to a boxed slice as it is.
#[derive(Debug, Clone, Copy)]
pub struct BoxedSliceLayout;

impl ArcSliceLayout for BoxedSliceLayout {
    open spec fn any_buffer() -> bool {
        true
    }

    open spec fn static_data() -> bool {
        true
    }

    open spec fn direct_vec(len: int, capacity: int) -> bool {
        len == capacity
    }

    fn supports_any_buffer() -> (r: bool) {
        true
    }

    fn supports_static_data() -> (r: bool) {
        true
    }

    fn supports_direct_vec(len: usize, capacity: usize) -> (r: bool) {
        len == capacity
    }
}

impl Layout for BoxedSliceLayout {

}

impl AnyBufferLayout for BoxedSliceLayout {
    proof fn lemma_any_buffer() {
    }
}

impl StaticLayout for BoxedSliceLayout {
    proof fn lemma_static_data() {
    }
}

/// The layout of a slice that refers to a vector as it is.
#[derive(Debug, Clone, Copy)]
pub struct VecLayout;

impl ArcSliceLayout for VecLayout {
    open spec fn any_buffer() -> bool {
        true
    }

    open spec fn static_data() -> bool {
        true
    }

    open spec fn direct_vec(len: int, capacity: int) -> bool {
        true
    }

    fn supports_any_buffer() -> (r: bool) {
        true
    }

    fn supports_static_data() -> (r: bool) {
        true
    }

    fn supports_direct_vec(len: usize, capacity: usize) -> (r: bool) {
        true
    }
}

impl Layout for VecLayout {

}

impl AnyBufferLayout for VecLayout {
    proof fn lemma_any_buffer() {
    }
}

impl StaticLayout for VecLayout {
    proof fn lemma_static_data() {
    }
}

impl TruncateNoAllocLayout for VecLayout {

}

impl ArcSliceMutLayout for VecLayout {

}

impl LayoutMut for VecLayout {

}

/// The layout of a slice that refers to a buffer which is shared already.
#[derive(Debug, Clone, Copy)]
pub struct RawLayout;

impl ArcSliceLayout for RawLayout {
    open spec fn any_buffer() -> bool {
        true
    }

    open spec fn static_data() -> bool {
        true
    }

    open spec fn direct_vec(len: int, capacity: int) -> bool {
        false
    }

    fn supports_any_buffer() -> (r: bool) {
        true
    }

    fn supports_static_data() -> (r: bool) {
        true
    }

    fn supports_direct_vec(len: usize, capacity: usize) -> (r: bool) {
        false
    }
}

impl Layout for RawLayout {

}

impl AnyBufferLayout for RawLayout {
    proof fn lemma_any_buffer() {
    }
}

impl StaticLayout for RawLayout {
    proof fn lemma_static_data() {
    }
}

impl CloneNoAllocLayout for RawLayout {

}

impl TruncateNoAllocLayout for RawLayout {

}

impl<const STATIC: bool, L: Layout> FromLayout<ArcLayout<false, STATIC>> for L {
    proof fn lemma_from_layout() {
    }
}

impl<L1: AnyBufferLayout, L2: AnyBufferLayout> FromLayout<L1> for L2 {
    proof fn lemma_from_layout() {
        L2::lemma_any_buffer();
    }
}

/// The layout of a shared slice, where none is named.
pub type DefaultLayout = ArcLayout<false, false>;

/// The layout of a mutable slice, where none is named.
pub type DefaultLayoutMut = ArcLayout<false, false>;

/// What the layouts support: any buffer or only the crate's own slices, static slices as they are or
/// not, and vectors as they are, where no room is left over, or never.
pub proof fn law_what_layouts_support<const ANY_BUFFER: bool, const STATIC: bool>(
    len: int,
    capacity: int,
)
    ensures
        <ArcLayout<ANY_BUFFER, STATIC> as ArcSliceLayout>::any_buffer() <==> ANY_BUFFER,
        <ArcLayout<ANY_BUFFER, STATIC> as ArcSliceLayout>::static_data() <==> STATIC,
        !<ArcLayout<ANY_BUFFER, STATIC> as ArcSliceLayout>::direct_vec(len, capacity),
        <BoxedSliceLayout as ArcSliceLayout>::any_buffer(),
        <BoxedSliceLayout as ArcSliceLayout>::static_data(),
        <BoxedSliceLayout as ArcSliceLayout>::direct_vec(len, capacity) <==> len == capacity,
        <VecLayout as ArcSliceLayout>::any_buffer(),
        <VecLayout as ArcSliceLayout>::static_data(),
        <VecLayout as ArcSliceLayout>::direct_vec(len, capacity),
        <RawLayout as ArcSliceLayout>::any_buffer(),
        <RawLayout as ArcSliceLayout>::static_data(),
        !<RawLayout as ArcSliceLayout>::direct_vec(len, capacity),
{
}

} // verus!
