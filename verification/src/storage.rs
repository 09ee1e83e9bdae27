//! Vectors of items: how they are allocated, and how a part of them is kept.

use crate::buffer::drop_answer;
use crate::error::{gives, AllocErrorImpl};
use vstd::prelude::*;

verus! {

/// The larger of two numbers.
pub open spec fn max_spec(a: int, b: int) -> int {
    if a >= b {
        a
    } else {
        b
    }
}

/// The smallest multiple of `align` that is not below `n`.
pub open spec fn round_up(n: int, align: int) -> int {
    ((n + align - 1) / align) * align
}

/// The size of the head of an allocation: its reference count and its capacity, and, where items
/// have to be dropped, their number.
pub open spec fn head_size<T>(needs_drop: bool) -> int {
    round_up(
        (if needs_drop {
            3int
        } else {
            2int
        }) * vstd::layout::size_of::<usize>(),
        max_spec(vstd::layout::align_of::<usize>() as int, vstd::layout::align_of::<T>() as int),
    )
}

/// The size of an allocation for `capacity` items, if it can be addressed: rounded up to its
/// alignment, it may not exceed `isize::MAX`.
pub open spec fn slice_layout_spec<T>(capacity: int, needs_drop: bool) -> Option<int> {
    let align = max_spec(
        vstd::layout::align_of::<usize>() as int,
        vstd::layout::align_of::<T>() as int,
    );
    let size = head_size::<T>(needs_drop) + capacity * vstd::layout::size_of::<T>();
    if size <= isize::MAX - (align - 1) {
        Some(size)
    } else {
        None
    }
}

/// Whether an allocation for `capacity` items succeeds, if `ok` holds, or fails, if not; whether its
/// items have to be dropped is asked first.
pub open spec fn allocation<T, E: AllocErrorImpl>(capacity: int, ok: bool) -> bool {
    exists|needs_drop: bool| #[trigger]
        drop_answer::<T>(needs_drop) && gives::<T>(
            E::fallible(),
            capacity as usize,
            slice_layout_spec::<T>(capacity, needs_drop),
            ok,
        )
}

/// The size of an allocation for `capacity` items, if it can be addressed.
pub fn slice_layout<T>(capacity: usize, needs_drop: bool) -> (r: Option<usize>)
    ensures
        match r {
            Some(size) => slice_layout_spec::<T>(capacity as int, needs_drop) == Some(size as int),
            None => slice_layout_spec::<T>(capacity as int, needs_drop) is None,
        },
{
    broadcast use vstd::layout::align_nonzero;
    broadcast use vstd::layout::layout_of_primitives;

    let item_align: usize = core::mem::align_of::<T>();
    let word_align: usize = core::mem::align_of::<usize>();
    let align: usize = if word_align >= item_align {
        word_align
    } else {
        item_align
    };
    let words: usize = if needs_drop {
        3
    } else {
        2
    };
    let head: usize = words * core::mem::size_of::<usize>();
    let item_size: usize = core::mem::size_of::<T>();
    proof {
        let n = head + align - 1;
        assert(n == align * (n / align as int) + n % align as int) by {
            vstd::arithmetic::div_mod::lemma_fundamental_div_mod(n, align as int);
        }
        assert(0 <= n % (align as int) && n % (align as int) < align) by {
            vstd::arithmetic::div_mod::lemma_mod_bound(n, align as int);
        }
        assert((n / align as int) * align == align * (n / align as int)) by (nonlinear_arith);
        assert(0 <= capacity * item_size) by (nonlinear_arith);
    }
    let padded: usize = match head.checked_add(align - 1) {
        Some(padded) => padded,
        None => return None,
    };
    proof {
        assert(0 <= padded / align) by (nonlinear_arith)
            requires
                align > 0,
                padded >= 0,
        ;
    }
    let start: usize = (padded / align) * align;
    let array: usize = match capacity.checked_mul(item_size) {
        Some(array) => array,
        None => return None,
    };
    let size: usize = match start.checked_add(array) {
        Some(size) => size,
        None => return None,
    };
    let limit: usize = isize::MAX as usize;
    if align - 1 <= limit && size <= limit - (align - 1) {
        Some(size)
    } else {
        None
    }
}

/// Whether a vector with room for `capacity` items can be addressed.
pub open spec fn vec_fits<T>(capacity: int) -> bool {
    capacity * vstd::layout::size_of::<T>() <= isize::MAX
}

/// Whether a slice with room for `capacity` items can be asked for: its items may not take up more
/// than `isize::MAX`, less the size of a word.
pub open spec fn capacity_fits<T>(capacity: int) -> bool {
    capacity * vstd::layout::size_of::<T>() <= isize::MAX - vstd::layout::size_of::<usize>()
}

/// An empty vector with room for `capacity` items.
pub fn allocate_slice<T, E: AllocErrorImpl>(capacity: usize, needs_drop: bool) -> (r: Result<
    Vec<T>,
    E,
>)
    ensures
        r matches Ok(vec) ==> vec@ == Seq::<T>::empty(),
        gives::<T>(E::fallible(), capacity, slice_layout_spec::<T>(capacity as int, needs_drop), r is Ok),
        !E::fallible() ==> r is Ok,
{
    let layout: Option<usize> = slice_layout::<T>(capacity, needs_drop);
    E::allocate::<T>(capacity, layout)
}

/// Copies items to the end of a vector.
pub fn copy_items<T: Copy>(vec: &mut Vec<T>, items: &[T])
    ensures
        final(vec)@ == old(vec)@ + items@,
{
    let mut i: usize = 0;
    while i < items.len()
        invariant
            i <= items@.len(),
            vec@ =~= old(vec)@ + items@.take(i as int),
        decreases items@.len() - i,
    {
        vec.push(items[i]);
        i += 1;
    }
    assert(items@.take(i as int) =~= items@);
}

/// Keeps `length` items of a vector, from the one at `offset` on, which move to its front.
///
/// The items move within the vector: its allocation stays what it was.
pub fn shift_left<T>(vec: &mut Vec<T>, offset: usize, length: usize)
    requires
        offset + length <= old(vec)@.len(),
    ensures
        final(vec)@ == old(vec)@.subrange(offset as int, offset + length),
    no_unwind when offset == 0 && length == old(vec)@.len()
{
    if offset == 0 && length == vec.len() {
        assert(vec@ =~= old(vec)@.subrange(offset as int, offset + length));
        return ;
    }
    if offset > 0 {
        let total: usize = vec.len();
        let mut i: usize = 0;
        while i < length
            invariant
                0 < offset,
                total == old(vec)@.len(),
                i <= length,
                offset + length <= old(vec)@.len(),
                vec@.len() == old(vec)@.len(),
                forall|k: int| 0 <= k < i ==> vec@[k] == old(vec)@[offset + k],
                forall|k: int| i <= k < length ==> vec@[offset + k] == #[trigger] old(
                    vec,
                )@[offset + k],
            decreases length - i,
        {
            let (front, back) = vec.as_mut_slice().split_at_mut(offset + i);
            core::mem::swap(&mut front[i], &mut back[0]);
            i += 1;
        }
    }
    vec.truncate(length);
    assert(vec@ =~= old(vec)@.subrange(offset as int, offset + length));
}

/// Appends the items of an array to a vector, through [`Vec`]'s `extend`.
#[verifier::external_body]
pub(crate) fn extend_with_array<T, const N: usize>(vec: &mut Vec<T>, array: [T; N])
    ensures
        final(vec)@ == old(vec)@ + array@,
{
    vec.extend(array)
}

/// The items of a vector as an array, through the array's `try_from`: the vector comes back unless
/// it has as many items as the array.
#[verifier::external_body]
pub(crate) fn array_from_vec<T, const N: usize>(vec: Vec<T>) -> (r: Result<[T; N], Vec<T>>)
    ensures
        match r {
            Ok(array) => vec@.len() == N && array@ == vec@,
            Err(same) => vec@.len() != N && same == vec,
        },
    no_unwind
{
    <[T; N]>::try_from(vec)
}

/// Rounding up gives the next multiple.
pub proof fn law_round_up_is_the_next_multiple(n: int, align: int)
    requires
        0 < align,
    ensures
        n <= round_up(n, align) < n + align,
        round_up(n, align) % align == 0,
{
    let padded = n + align - 1;
    vstd::arithmetic::div_mod::lemma_fundamental_div_mod(padded, align);
    vstd::arithmetic::div_mod::lemma_mod_bound(padded, align);
    assert(align * (padded / align) == (padded / align) * align) by (nonlinear_arith);
    vstd::arithmetic::div_mod::lemma_mod_multiples_basic(padded / align, align);
}

/// The head of an allocation has room for two or three words, and is no larger than that needs to be
/// for the items behind it to be aligned.
pub proof fn law_head_is_small<T>(needs_drop: bool)
    ensures
        ({
            let words = if needs_drop {
                3int
            } else {
                2int
            };
            let least = words * vstd::layout::size_of::<usize>();
            &&& least <= head_size::<T>(needs_drop)
            &&& head_size::<T>(needs_drop) < least + vstd::layout::align_of::<T>()
                + vstd::layout::align_of::<usize>()
        }),
{
    broadcast use vstd::layout::align_nonzero;

    let words = if needs_drop {
        3int
    } else {
        2int
    };
    law_round_up_is_the_next_multiple(
        words * vstd::layout::size_of::<usize>(),
        max_spec(vstd::layout::align_of::<usize>() as int, vstd::layout::align_of::<T>() as int),
    );
}

/// An allocation for fewer items is no larger, and can be addressed if one for more items can.
pub proof fn law_smaller_slices_fit<T>(fewer: int, more: int, needs_drop: bool)
    requires
        0 <= fewer <= more,
        slice_layout_spec::<T>(more, needs_drop) is Some,
    ensures
        slice_layout_spec::<T>(fewer, needs_drop) matches Some(size)
            && slice_layout_spec::<T>(more, needs_drop) matches Some(larger) && larger - size == (
        more - fewer) * vstd::layout::size_of::<T>(),
{
    let size = vstd::layout::size_of::<T>() as int;
    assert(fewer * size <= more * size) by (nonlinear_arith)
        requires
            fewer <= more,
            size >= 0,
    ;
    assert(more * size - fewer * size == (more - fewer) * size) by (nonlinear_arith);
}

/// The larger of two numbers is one of them, and not below the other.
pub proof fn law_max_is_the_larger(a: int, b: int)
    ensures
        max_spec(a, b) >= a,
        max_spec(a, b) >= b,
        max_spec(a, b) == a || max_spec(a, b) == b,
{
}

/// What can be asked for can be addressed: no more than half of the memory, less a word.
pub proof fn law_capacity_that_fits<T>(capacity: int)
    ensures
        vec_fits::<T>(capacity) <==> capacity * vstd::layout::size_of::<T>() <= isize::MAX,
        capacity_fits::<T>(capacity) <==> capacity * vstd::layout::size_of::<T>()
            + vstd::layout::size_of::<usize>() <= isize::MAX,
{
}

} // verus!
