//! Ranges, capacities and the textual forms of bytes.

use crate::buffer::Subsliceable;
use core::ops::Bound;
use vstd::prelude::*;

verus! {

/// [`core::ops::Bound`].
#[verifier::external_type_specification]
#[verifier::reject_recursive_types(T)]
pub struct ExBound<T>(core::ops::Bound<T>);

/// [`core::ops::RangeFrom`].
#[verifier::external_type_specification]
#[verifier::reject_recursive_types(Idx)]
pub struct ExRangeFrom<Idx>(core::ops::RangeFrom<Idx>);

/// [`core::ops::RangeTo`].
#[verifier::external_type_specification]
#[verifier::reject_recursive_types(Idx)]
pub struct ExRangeTo<Idx>(core::ops::RangeTo<Idx>);

/// [`core::ops::RangeToInclusive`].
#[verifier::external_type_specification]
#[verifier::reject_recursive_types(Idx)]
pub struct ExRangeToInclusive<Idx>(core::ops::RangeToInclusive<Idx>);

/// [`core::ops::RangeFull`].
#[verifier::external_type_specification]
pub struct ExRangeFull(core::ops::RangeFull);

/// [`core::ops::RangeInclusive::start`] is the lower bound, of a range that was not iterated over.
pub assume_specification<Idx>[ core::ops::RangeInclusive::<Idx>::start ](
    range: &core::ops::RangeInclusive<Idx>,
) -> (r: &Idx)
    ensures
        !range@.exhausted ==> *r == range@.start,
;

/// [`core::ops::RangeInclusive::end`] is the upper bound, of a range that was not iterated over.
pub assume_specification<Idx>[ core::ops::RangeInclusive::<Idx>::end ](
    range: &core::ops::RangeInclusive<Idx>,
) -> (r: &Idx)
    ensures
        !range@.exhausted ==> *r == range@.end,
;

/// A range of indices.
pub trait RangeBounds {
    /// Whether the range was left as it was written down.
    spec fn usable(&self) -> bool;

    /// The lower bound.
    spec fn lower(&self) -> Bound<usize>;

    /// The upper bound.
    spec fn upper(&self) -> Bound<usize>;

    /// The lower bound.
    fn start_bound(&self) -> (r: Bound<usize>)
        requires
            self.usable(),
        ensures
            r == self.lower(),
    ;

    /// The upper bound.
    fn end_bound(&self) -> (r: Bound<usize>)
        requires
            self.usable(),
        ensures
            r == self.upper(),
    ;
}

impl RangeBounds for core::ops::Range<usize> {
    open spec fn usable(&self) -> bool {
        true
    }

    open spec fn lower(&self) -> Bound<usize> {
        Bound::Included(self.start)
    }

    open spec fn upper(&self) -> Bound<usize> {
        Bound::Excluded(self.end)
    }

    fn start_bound(&self) -> (r: Bound<usize>) {
        Bound::Included(self.start)
    }

    fn end_bound(&self) -> (r: Bound<usize>) {
        Bound::Excluded(self.end)
    }
}

impl RangeBounds for core::ops::RangeInclusive<usize> {
    open spec fn usable(&self) -> bool {
        !self@.exhausted
    }

    open spec fn lower(&self) -> Bound<usize> {
        Bound::Included(self@.start)
    }

    open spec fn upper(&self) -> Bound<usize> {
        Bound::Included(self@.end)
    }

    fn start_bound(&self) -> (r: Bound<usize>) {
        Bound::Included(*self.start())
    }

    fn end_bound(&self) -> (r: Bound<usize>) {
        Bound::Included(*self.end())
    }
}

impl RangeBounds for core::ops::RangeFrom<usize> {
    open spec fn usable(&self) -> bool {
        true
    }

    open spec fn lower(&self) -> Bound<usize> {
        Bound::Included(self.start)
    }

    open spec fn upper(&self) -> Bound<usize> {
        Bound::Unbounded
    }

    fn start_bound(&self) -> (r: Bound<usize>) {
        Bound::Included(self.start)
    }

    fn end_bound(&self) -> (r: Bound<usize>) {
        Bound::Unbounded
    }
}

impl RangeBounds for core::ops::RangeTo<usize> {
    open spec fn usable(&self) -> bool {
        true
    }

    open spec fn lower(&self) -> Bound<usize> {
        Bound::Unbounded
    }

    open spec fn upper(&self) -> Bound<usize> {
        Bound::Excluded(self.end)
    }

    fn start_bound(&self) -> (r: Bound<usize>) {
        Bound::Unbounded
    }

    fn end_bound(&self) -> (r: Bound<usize>) {
        Bound::Excluded(self.end)
    }
}

impl RangeBounds for core::ops::RangeToInclusive<usize> {
    open spec fn usable(&self) -> bool {
        true
    }

    open spec fn lower(&self) -> Bound<usize> {
        Bound::Unbounded
    }

    open spec fn upper(&self) -> Bound<usize> {
        Bound::Included(self.end)
    }

    fn start_bound(&self) -> (r: Bound<usize>) {
        Bound::Unbounded
    }

    fn end_bound(&self) -> (r: Bound<usize>) {
        Bound::Included(self.end)
    }
}

impl RangeBounds for core::ops::RangeFull {
    open spec fn usable(&self) -> bool {
        true
    }

    open spec fn lower(&self) -> Bound<usize> {
        Bound::Unbounded
    }

    open spec fn upper(&self) -> Bound<usize> {
        Bound::Unbounded
    }

    fn start_bound(&self) -> (r: Bound<usize>) {
        Bound::Unbounded
    }

    fn end_bound(&self) -> (r: Bound<usize>) {
        Bound::Unbounded
    }
}

impl RangeBounds for (Bound<usize>, Bound<usize>) {
    open spec fn usable(&self) -> bool {
        true
    }

    open spec fn lower(&self) -> Bound<usize> {
        self.0
    }

    open spec fn upper(&self) -> Bound<usize> {
        self.1
    }

    fn start_bound(&self) -> (r: Bound<usize>) {
        match &self.0 {
            Bound::Included(n) => Bound::Included(*n),
            Bound::Excluded(n) => Bound::Excluded(*n),
            Bound::Unbounded => Bound::Unbounded,
        }
    }

    fn end_bound(&self) -> (r: Bound<usize>) {
        match &self.1 {
            Bound::Included(n) => Bound::Included(*n),
            Bound::Excluded(n) => Bound::Excluded(*n),
            Bound::Unbounded => Bound::Unbounded,
        }
    }
}

/// Why a range does not select a subslice.
#[derive(Debug, Clone, Copy, PartialEq, Eq, Structural)]
pub enum RangeError {
    /// A bound cannot be represented, or the range ends before it starts.
    InvalidRange,
    /// The range ends after the slice.
    OutOfRange,
    /// The slice cannot be cut there.
    NotABoundary,
}

impl RangeError {
    /// The message of the error.
    pub open spec fn message_spec(self) -> Seq<char> {
        match self {
            RangeError::InvalidRange => "invalid range"@,
            RangeError::OutOfRange => "out of range"@,
            RangeError::NotABoundary => "not a char boundary"@,
        }
    }

    /// The message of the error.
    pub fn message(&self) -> (r: &'static str)
        ensures
            r@ == self.message_spec(),
    {
        match self {
            RangeError::InvalidRange => "invalid range",
            RangeError::OutOfRange => "out of range",
            RangeError::NotABoundary => "not a char boundary",
        }
    }
}

/// The index of the first item of a range.
pub open spec fn first_index(lower: Bound<usize>) -> int {
    match lower {
        Bound::Included(n) => n as int,
        Bound::Excluded(n) => n + 1,
        Bound::Unbounded => 0,
    }
}

/// The index after the last item of a range, in a slice of `len` items.
pub open spec fn end_index(upper: Bound<usize>, len: int) -> int {
    match upper {
        Bound::Included(n) => n + 1,
        Bound::Excluded(n) => n as int,
        Bound::Unbounded => len,
    }
}

/// Where items can be cut: both ends are such places.
pub open spec fn is_cut_point<S: Subsliceable + ?Sized>(items: Seq<S::Item>, at: int) -> bool {
    at == 0 || at == items.len() || S::boundary(items, at)
}

/// Why a range does not select a subslice of `items`, or where the subslice starts and how long it
/// is.
pub open spec fn offset_len_spec<S: Subsliceable + ?Sized>(
    items: Seq<S::Item>,
    lower: Bound<usize>,
    upper: Bound<usize>,
) -> Result<(int, int), RangeError> {
    let start = first_index(lower);
    let end = end_index(upper, items.len() as int);
    if lower == Bound::Excluded(usize::MAX) || upper == Bound::Included(usize::MAX) {
        Err(RangeError::InvalidRange)
    } else if end > items.len() {
        Err(RangeError::OutOfRange)
    } else if end < start {
        Err(RangeError::InvalidRange)
    } else if !is_cut_point::<S>(items, start) || !is_cut_point::<S>(items, end) {
        Err(RangeError::NotABoundary)
    } else {
        Ok((start, end - start))
    }
}

/// Where the subslice that a range selects starts, and how long it is.
pub fn offset_len<S: Subsliceable + ?Sized, R: RangeBounds>(slice: &S, range: &R) -> (r: Result<
    (usize, usize),
    RangeError,
>)
    requires
        range.usable(),
    ensures
        match r {
            Ok((offset, len)) => offset_len_spec::<S>(slice.items(), range.lower(), range.upper())
                == Ok::<(int, int), RangeError>((offset as int, len as int)) && offset + len
                <= slice.items().len() && S::boundary(slice.items(), offset as int) && S::boundary(
                slice.items(),
                offset + len,
            ),
            Err(error) => offset_len_spec::<S>(slice.items(), range.lower(), range.upper()) == Err::<
                (int, int),
                RangeError,
            >(error),
        },
{
    proof {
        slice.lemma_items_valid();
        S::lemma_ends_are_boundaries(slice.items());
    }
    let length: usize = slice.to_slice().len();
    let offset: usize = match range.start_bound() {
        Bound::Included(n) => n,
        Bound::Excluded(n) => match n.checked_add(1) {
            Some(next) => next,
            None => return Err(RangeError::InvalidRange),
        },
        Bound::Unbounded => 0,
    };
    let end: usize = match range.end_bound() {
        Bound::Included(n) => match n.checked_add(1) {
            Some(next) => next,
            None => return Err(RangeError::InvalidRange),
        },
        Bound::Excluded(n) => n,
        Bound::Unbounded => length,
    };
    if end > length {
        return Err(RangeError::OutOfRange);
    }
    if end < offset {
        return Err(RangeError::InvalidRange);
    }
    if !slice.check_subslice(offset, end) {
        return Err(RangeError::NotABoundary);
    }
    Ok((offset, end - offset))
}

/// The address of the first item of a slice, through [`slice::as_ptr`]. Where a slice stands in
/// memory is the machine's affair: nothing is promised.
#[verifier::external_body]
fn address<T>(slice: &[T]) -> usize {
    slice.as_ptr() as usize
}

/// The index in a slice of `len` items, which starts at address `start`, of the first item of a
/// slice of `sub_len` items, which starts at address `sub_start`, if the second stands inside the
/// first.
pub open spec fn item_offset_spec(
    start: int,
    len: int,
    sub_start: int,
    sub_len: int,
    item_size: int,
) -> Option<int> {
    if sub_start < start {
        None
    } else if item_size == 0 {
        if sub_start == start && sub_len <= len {
            Some(0int)
        } else {
            None
        }
    } else if (sub_start - start) % item_size != 0 || (sub_start - start) / item_size + sub_len > len {
        None
    } else {
        Some((sub_start - start) / item_size)
    }
}

/// See [`item_offset_spec`].
pub fn item_offset(
    start: usize,
    len: usize,
    sub_start: usize,
    sub_len: usize,
    item_size: usize,
) -> (r: Option<usize>)
    ensures
        match r {
            Some(offset) => item_offset_spec(
                start as int,
                len as int,
                sub_start as int,
                sub_len as int,
                item_size as int,
            ) == Some(offset as int) && offset + sub_len <= len,
            None => item_offset_spec(
                start as int,
                len as int,
                sub_start as int,
                sub_len as int,
                item_size as int,
            ) is None,
        },
{
    if sub_start < start {
        return None;
    }
    let distance: usize = sub_start - start;
    if item_size == 0 {
        return if distance == 0 && sub_len <= len {
            Some(0)
        } else {
            None
        };
    }
    if distance % item_size != 0 {
        return None;
    }
    let offset: usize = distance / item_size;
    if offset > len || sub_len > len - offset {
        None
    } else {
        Some(offset)
    }
}

/// Whether `start` is what was found to be the address of `items`, and `sub_start` that of `subset`.
pub closed spec fn stand_at<T>(items: Seq<T>, start: usize, subset: Seq<T>, sub_start: usize) -> bool {
    exists|slice: &[T], part: &[T]|
        slice@ == items && part@ == subset && #[trigger] call_ensures(address::<T>, (slice,), start)
            && #[trigger] call_ensures(address::<T>, (part,), sub_start)
}

/// The index in `items`, which start at address `start`, of the first of the items `subset`, which
/// start at address `sub_start`, if they stand inside and can be cut out there.
pub open spec fn part_offset<S: Subsliceable + ?Sized>(
    items: Seq<S::Item>,
    start: usize,
    subset: Seq<S::Item>,
    sub_start: usize,
) -> Option<int> {
    match item_offset_spec(
        start as int,
        items.len() as int,
        sub_start as int,
        subset.len() as int,
        vstd::layout::size_of::<S::Item>() as int,
    ) {
        Some(offset) => if S::boundary(items, offset) && S::boundary(items, offset + subset.len()) {
            Some(offset)
        } else {
            None
        },
        None => None,
    }
}

/// Whether `offset` is where `subset` was found in `items`: the addresses of the two decide.
pub open spec fn found_at<S: Subsliceable + ?Sized>(
    items: Seq<S::Item>,
    subset: Seq<S::Item>,
    offset: Option<int>,
) -> bool {
    exists|start: usize, sub_start: usize| #[trigger]
        stand_at(items, start, subset, sub_start) && offset == part_offset::<S>(
            items,
            start,
            subset,
            sub_start,
        )
}

/// Where a subslice, which starts at address `sub_start`, starts in a slice, which starts at address
/// `start`, and how long it is. See [`part_offset`].
pub fn offset_len_at<S: Subsliceable + ?Sized>(
    slice: &S,
    start: usize,
    subslice: &S,
    sub_start: usize,
) -> (r: Option<(usize, usize)>)
    ensures
        match r {
            Some((offset, len)) => part_offset::<S>(
                slice.items(),
                start,
                subslice.items(),
                sub_start,
            ) == Some(offset as int) && len == subslice.items().len() && offset + len
                <= slice.items().len(),
            None => part_offset::<S>(slice.items(), start, subslice.items(), sub_start) is None,
        },
{
    let length: usize = slice.to_slice().len();
    let sub_length: usize = subslice.to_slice().len();
    let size: usize = core::mem::size_of::<S::Item>();
    match item_offset(start, length, sub_start, sub_length, size) {
        Some(offset) => if slice.check_subslice(offset, offset + sub_length) {
            Some((offset, sub_length))
        } else {
            None
        },
        None => None,
    }
}

/// Where a subslice starts in a slice that it was borrowed from, and how long it is. The addresses
/// decide: `None` if the second is not part of the first.
pub fn offset_len_subslice<S: Subsliceable + ?Sized>(slice: &S, subslice: &S) -> (r: Option<
    (usize, usize),
>)
    ensures
        match r {
            Some((offset, len)) => found_at::<S>(
                slice.items(),
                subslice.items(),
                Some(offset as int),
            ) && len == subslice.items().len() && offset + len <= slice.items().len()
                && S::boundary(slice.items(), offset as int) && S::boundary(
                slice.items(),
                offset + len,
            ),
            None => found_at::<S>(slice.items(), subslice.items(), None),
        },
{
    let address_of = address::<S::Item>;
    let start: usize = address_of(slice.to_slice());
    let sub_start: usize = address_of(subslice.to_slice());
    assert(stand_at(slice.items(), start, subslice.items(), sub_start));
    offset_len_at(slice, start, subslice, sub_start)
}

/// The smallest capacity worth allocating for items of type `T`.
pub open spec fn min_non_zero_cap_spec<T>() -> usize {
    if vstd::layout::size_of::<T>() == 1 {
        8
    } else if vstd::layout::size_of::<T>() <= 1024 {
        4
    } else {
        1
    }
}

/// The smallest capacity worth allocating for items of type `T`.
pub fn min_non_zero_cap<T>() -> (r: usize)
    ensures
        r == min_non_zero_cap_spec::<T>(),
{
    if core::mem::size_of::<T>() == 1 {
        8
    } else if core::mem::size_of::<T>() <= 1024 {
        4
    } else {
        1
    }
}

/// The hexadecimal digit of a number below sixteen.
pub open spec fn hex_digit_spec(n: u8, upper: bool) -> char {
    if n < 10 {
        (48 + n) as u8 as char
    } else if upper {
        (55 + n) as u8 as char
    } else {
        (87 + n) as u8 as char
    }
}

/// The hexadecimal digit of a number below sixteen.
fn hex_digit(n: u8, upper: bool) -> (r: char)
    requires
        n < 16,
    ensures
        r == hex_digit_spec(n, upper),
{
    if n < 10 {
        (48 + n) as char
    } else if upper {
        (55 + n) as char
    } else {
        (87 + n) as char
    }
}

/// Two hexadecimal digits for each byte.
pub open spec fn hex_spec(bytes: Seq<u8>, upper: bool) -> Seq<char> {
    Seq::new(
        2 * bytes.len(),
        |i: int|
            if i % 2 == 0 {
                hex_digit_spec(bytes[i / 2] / 16, upper)
            } else {
                hex_digit_spec(bytes[i / 2] % 16, upper)
            },
    )
}

fn hex(bytes: &[u8], upper: bool) -> (r: String)
    ensures
        r@ == hex_spec(bytes@, upper),
{
    let mut text = String::new();
    let mut i: usize = 0;
    while i < bytes.len()
        invariant
            i <= bytes@.len(),
            text@ =~= hex_spec(bytes@.take(i as int), upper),
        decreases bytes@.len() - i,
    {
        let b = bytes[i];
        text.push(hex_digit(b / 16, upper));
        text.push(hex_digit(b % 16, upper));
        i += 1;
    }
    assert(bytes@.take(i as int) =~= bytes@);
    text
}

/// Two lower case hexadecimal digits for each byte.
pub fn lower_hex(bytes: &[u8]) -> (r: String)
    ensures
        r@ == hex_spec(bytes@, false),
{
    hex(bytes, false)
}

/// Two upper case hexadecimal digits for each byte.
pub fn upper_hex(bytes: &[u8]) -> (r: String)
    ensures
        r@ == hex_spec(bytes@, true),
{
    hex(bytes, true)
}

/// How a byte is written in a byte string literal.
pub open spec fn escape(b: u8) -> Seq<char> {
    if b == 10 {
        seq!['\\', 'n']
    } else if b == 13 {
        seq!['\\', 'r']
    } else if b == 9 {
        seq!['\\', 't']
    } else if b == 92 || b == 34 {
        seq!['\\', b as char]
    } else if b == 0 {
        seq!['\\', '0']
    } else if 0x20 <= b < 0x7f {
        seq![b as char]
    } else {
        seq!['\\', 'x', hex_digit_spec(b / 16, false), hex_digit_spec(b % 16, false)]
    }
}

/// How bytes are written in a byte string literal.
pub open spec fn escapes(bytes: Seq<u8>) -> Seq<char>
    decreases bytes.len(),
{
    if bytes.len() == 0 {
        Seq::empty()
    } else {
        escapes(bytes.drop_last()) + escape(bytes.last())
    }
}

/// A byte string literal.
pub fn debug_bytes(bytes: &[u8]) -> (r: String)
    ensures
        r@ == seq!['b', '"'] + escapes(bytes@) + seq!['"'],
{
    let mut text = String::new();
    text.push('b');
    text.push('"');
    let mut i: usize = 0;
    while i < bytes.len()
        invariant
            i <= bytes@.len(),
            text@ =~= seq!['b', '"'] + escapes(bytes@.take(i as int)),
        decreases bytes@.len() - i,
    {
        let b = bytes[i];
        proof {
            assert(bytes@.take(i + 1).drop_last() =~= bytes@.take(i as int));
        }
        if b == 10 {
            text.push('\\');
            text.push('n');
        } else if b == 13 {
            text.push('\\');
            text.push('r');
        } else if b == 9 {
            text.push('\\');
            text.push('t');
        } else if b == 92 || b == 34 {
            text.push('\\');
            text.push(b as char);
        } else if b == 0 {
            text.push('\\');
            text.push('0');
        } else if 0x20 <= b && b < 0x7f {
            text.push(b as char);
        } else {
            text.push('\\');
            text.push('x');
            text.push(hex_digit(b / 16, false));
            text.push(hex_digit(b % 16, false));
        }
        i += 1;
    }
    assert(bytes@.take(i as int) =~= bytes@);
    text.push('"');
    text
}

/// There are two hexadecimal digits for each byte, and they tell the bytes.
pub proof fn law_hex_tells_bytes(a: Seq<u8>, b: Seq<u8>, upper: bool)
    ensures
        hex_spec(a, upper).len() == 2 * a.len(),
        hex_spec(a, upper) == hex_spec(b, upper) ==> a == b,
{
    if hex_spec(a, upper) == hex_spec(b, upper) {
        assert(hex_spec(a, upper).len() == hex_spec(b, upper).len());
        assert forall|i: int| 0 <= i < a.len() implies a[i] == b[i] by {
            assert(hex_spec(a, upper)[2 * i] == hex_spec(b, upper)[2 * i]);
            assert(hex_spec(a, upper)[2 * i + 1] == hex_spec(b, upper)[2 * i + 1]);
            lemma_hex_digit_tells(a[i] / 16, b[i] / 16, upper);
            lemma_hex_digit_tells(a[i] % 16, b[i] % 16, upper);
        }
        assert(a =~= b);
    }
}

proof fn lemma_hex_digit_tells(m: u8, n: u8, upper: bool)
    requires
        m < 16,
        n < 16,
        hex_digit_spec(m, upper) == hex_digit_spec(n, upper),
    ensures
        m == n,
{
    assert(hex_digit_spec(m, upper) as u32 == hex_digit_spec(n, upper) as u32);
}

/// The full range selects everything.
pub proof fn law_full_range_is_everything<S: Subsliceable + ?Sized>(items: Seq<S::Item>)
    ensures
        offset_len_spec::<S>(items, Bound::Unbounded, Bound::Unbounded) == Ok::<
            (int, int),
            RangeError,
        >((0, items.len() as int)),
{
}

/// A range of items that is not empty selects so many of them as lie between its bounds.
pub proof fn law_range_selects<S: Subsliceable + ?Sized>(items: Seq<S::Item>, start: usize, end: usize)
    requires
        start <= end <= items.len(),
        is_cut_point::<S>(items, start as int),
        is_cut_point::<S>(items, end as int),
    ensures
        offset_len_spec::<S>(items, Bound::Included(start), Bound::Excluded(end)) == Ok::<
            (int, int),
            RangeError,
        >((start as int, end - start)),
        end > start ==> offset_len_spec::<S>(
            items,
            Bound::Included(start),
            Bound::Included((end - 1) as usize),
        ) == Ok::<(int, int), RangeError>((start as int, end - start)),
{
}

/// Where a part is found, its address is that of the item at that index: so many items of that size
/// behind the start. The part ends inside the slice.
pub proof fn law_offset_is_an_address(
    start: int,
    len: int,
    sub_start: int,
    sub_len: int,
    item_size: int,
)
    requires
        0 <= sub_len,
        0 <= item_size,
    ensures
        item_offset_spec(start, len, sub_start, sub_len, item_size) matches Some(offset) ==> {
            &&& start + offset * item_size == sub_start
            &&& 0 <= offset
            &&& offset + sub_len <= len
        },
{
    if item_size > 0 && sub_start >= start {
        let distance = sub_start - start;
        vstd::arithmetic::div_mod::lemma_fundamental_div_mod(distance, item_size);
        vstd::arithmetic::div_mod::lemma_div_pos_is_pos(distance, item_size);
        assert(item_size * (distance / item_size) == (distance / item_size) * item_size)
            by (nonlinear_arith);
    }
    assert(start + 0 * item_size == start) by (nonlinear_arith);
}

/// A part that starts at the address of an item, and ends inside the slice, is found at the index of
/// that item.
pub proof fn law_address_is_found(start: int, len: int, offset: int, sub_len: int, item_size: int)
    requires
        0 <= offset,
        0 <= sub_len,
        offset + sub_len <= len,
        0 < item_size,
    ensures
        item_offset_spec(start, len, start + offset * item_size, sub_len, item_size) == Some(offset),
{
    assert(offset * item_size >= 0) by (nonlinear_arith)
        requires
            offset >= 0,
            item_size > 0,
    ;
    vstd::arithmetic::div_mod::lemma_div_multiples_vanish(offset, item_size);
    vstd::arithmetic::div_mod::lemma_mod_multiples_basic(offset, item_size);
    vstd::arithmetic::mul::lemma_mul_is_commutative(offset, item_size);
    let distance = (start + offset * item_size) - start;
    assert(distance == offset * item_size);
    assert(distance / item_size == offset);
    assert(distance % item_size == 0);
}

/// A reference to the items from the index `first` on, of which there are `n`, is found at that index;
/// and the items that are found there are those that it refers to.
pub proof fn law_part_is_found_where_it_stands<S: Subsliceable + ?Sized>(
    items: Seq<S::Item>,
    start: usize,
    first: int,
    n: int,
    sub_start: usize,
)
    requires
        0 < vstd::layout::size_of::<S::Item>(),
        0 <= first,
        0 <= n,
        first + n <= items.len(),
        S::boundary(items, first),
        S::boundary(items, first + n),
        sub_start == start + first * vstd::layout::size_of::<S::Item>(),
    ensures
        part_offset::<S>(items, start, items.subrange(first, first + n), sub_start) == Some(first),
{
    law_address_is_found(
        start as int,
        items.len() as int,
        first,
        n,
        vstd::layout::size_of::<S::Item>() as int,
    );
    assert(items.subrange(first, first + n).len() == n);
}

/// What is found as a part stands at that address, and can be cut out there.
pub proof fn law_found_part_stands_there<S: Subsliceable + ?Sized>(
    items: Seq<S::Item>,
    start: usize,
    subset: Seq<S::Item>,
    sub_start: usize,
)
    ensures
        part_offset::<S>(items, start, subset, sub_start) matches Some(offset) ==> {
            &&& start + offset * vstd::layout::size_of::<S::Item>() == sub_start
            &&& 0 <= offset
            &&& offset + subset.len() <= items.len()
            &&& S::boundary(items, offset)
            &&& S::boundary(items, offset + subset.len())
        },
{
    law_offset_is_an_address(
        start as int,
        items.len() as int,
        sub_start as int,
        subset.len() as int,
        vstd::layout::size_of::<S::Item>() as int,
    );
}

/// Whether an index keeps to a lower bound.
pub open spec fn keeps_to_lower(index: int, lower: Bound<usize>) -> bool {
    match lower {
        Bound::Included(n) => n <= index,
        Bound::Excluded(n) => n < index,
        Bound::Unbounded => true,
    }
}

/// Whether an index keeps to an upper bound.
pub open spec fn keeps_to_upper(index: int, upper: Bound<usize>) -> bool {
    match upper {
        Bound::Included(n) => index <= n,
        Bound::Excluded(n) => index < n,
        Bound::Unbounded => true,
    }
}

/// Whether an index, of a slice of `len` items or right behind it, comes before the lower bound, but
/// not before the upper bound, or not before the end of the slice.
pub open spec fn lies_beyond(index: int, len: int, lower: Bound<usize>, upper: Bound<usize>) -> bool {
    &&& 0 <= index <= len
    &&& !keeps_to_lower(index, lower)
    &&& !keeps_to_upper(index, upper) || index == len
}

/// A range selects just the items whose index keeps to both its bounds.
pub proof fn law_range_selects_what_lies_between<S: Subsliceable + ?Sized>(
    items: Seq<S::Item>,
    lower: Bound<usize>,
    upper: Bound<usize>,
)
    ensures
        offset_len_spec::<S>(items, lower, upper) matches Ok((offset, length)) ==> {
            &&& 0 <= offset
            &&& 0 <= length
            &&& offset + length <= items.len()
            &&& is_cut_point::<S>(items, offset)
            &&& is_cut_point::<S>(items, offset + length)
            &&& forall|index: int|
                0 <= index < items.len() ==> (#[trigger] keeps_to_lower(index, lower) <==> offset
                    <= index)
            &&& forall|index: int|
                0 <= index < items.len() ==> (#[trigger] keeps_to_upper(index, upper) <==> index
                    < offset + length)
        },
{
}

/// A range that is refused ends behind the slice, or before it starts, so that an index keeps to
/// neither of its bounds, or starts behind the slice; or a bound is the largest number, or the slice
/// cannot be cut there.
pub proof fn law_range_errors<S: Subsliceable + ?Sized>(
    items: Seq<S::Item>,
    lower: Bound<usize>,
    upper: Bound<usize>,
)
    ensures
        match offset_len_spec::<S>(items, lower, upper) {
            Ok(_) => true,
            Err(RangeError::OutOfRange) => !(upper is Unbounded) && keeps_to_upper(
                items.len() as int,
                upper,
            ),
            Err(RangeError::InvalidRange) => {
                ||| lower == Bound::Excluded(usize::MAX)
                ||| upper == Bound::Included(usize::MAX)
                ||| exists|index: int| #[trigger]
                    lies_beyond(index, items.len() as int, lower, upper)
            },
            Err(RangeError::NotABoundary) => exists|at: int|
                0 < at < items.len() && !#[trigger] S::boundary(items, at),
        },
{
    let start = first_index(lower);
    let end = end_index(upper, items.len() as int);
    if offset_len_spec::<S>(items, lower, upper) == Err::<(int, int), RangeError>(
        RangeError::NotABoundary,
    ) {
        if !is_cut_point::<S>(items, start) {
            assert(0 < start < items.len() && !S::boundary(items, start));
        } else {
            assert(0 < end < items.len() && !S::boundary(items, end));
        }
    }
    if end < start && end <= items.len() {
        assert(lies_beyond(end, items.len() as int, lower, upper));
    }
}

/// A range is accepted, if the slice can be cut where it starts and where it ends: it selects `n` items
/// from the index `first` on, if these are the bounds that it has, however they are written.
pub proof fn law_range_is_accepted<S: Subsliceable + ?Sized>(
    items: Seq<S::Item>,
    lower: Bound<usize>,
    upper: Bound<usize>,
    first: int,
    n: int,
)
    requires
        0 <= first,
        0 <= n,
        first + n <= items.len(),
        is_cut_point::<S>(items, first),
        is_cut_point::<S>(items, first + n),
        forall|index: int| 0 <= index ==> (#[trigger] keeps_to_lower(index, lower) <==> first <= index),
        if upper is Unbounded {
            first + n == items.len()
        } else {
            forall|index: int|
                0 <= index ==> (#[trigger] keeps_to_upper(index, upper) <==> index < first + n)
        },
        lower != Bound::Excluded(usize::MAX),
        upper != Bound::Included(usize::MAX),
    ensures
        offset_len_spec::<S>(items, lower, upper) == Ok::<(int, int), RangeError>((first, n)),
{
    let start = first_index(lower);
    let end = end_index(upper, items.len() as int);
    assert(keeps_to_lower(first, lower));
    assert(first > 0 ==> !keeps_to_lower(first - 1, lower));
    assert(start == first);
    if !(upper is Unbounded) {
        assert(!keeps_to_upper(first + n, upper));
        assert(first + n > 0 ==> keeps_to_upper(first + n - 1, upper));
    }
    assert(end == first + n);
}

/// The hexadecimal digits, in order.
pub open spec fn hex_digits(upper: bool) -> Seq<char> {
    if upper {
        "0123456789ABCDEF"@
    } else {
        "0123456789abcdef"@
    }
}

/// Each byte is written as two digits, the first of which stands for sixteen times as much.
pub proof fn law_hex_digits_have_value(bytes: Seq<u8>, upper: bool, i: int)
    requires
        0 <= i < bytes.len(),
    ensures
        exists|high: int, low: int|
            0 <= high < 16 && 0 <= low < 16 && #[trigger] hex_digits(upper)[high] == hex_spec(
                bytes,
                upper,
            )[2 * i] && #[trigger] hex_digits(upper)[low] == hex_spec(bytes, upper)[2 * i + 1]
                && 16 * high + low == bytes[i],
{
    reveal_strlit("0123456789ABCDEF");
    reveal_strlit("0123456789abcdef");
    let high = (bytes[i] / 16) as int;
    let low = (bytes[i] % 16) as int;
    lemma_hex_digit(bytes[i] / 16, upper);
    lemma_hex_digit(bytes[i] % 16, upper);
    assert(hex_digits(upper)[high] == hex_spec(bytes, upper)[2 * i]);
    assert(hex_digits(upper)[low] == hex_spec(bytes, upper)[2 * i + 1]);
}

proof fn lemma_hex_digit(n: u8, upper: bool)
    requires
        n < 16,
    ensures
        hex_digit_spec(n, upper) == hex_digits(upper)[n as int],
{
    reveal_strlit("0123456789ABCDEF");
    reveal_strlit("0123456789abcdef");
}

/// A printable character stands for itself, but for the quote and the backslash, which follow a
/// backslash; a byte that has a letter of its own is written as that letter behind a backslash, and any
/// other as its value.
pub proof fn law_escapes_of_a_byte(b: u8)
    ensures
        0x20 <= b < 0x7f && b != 0x22 && b != 0x5c ==> escape(b) == seq![b as char],
        escape(0x22) == "\\\""@,
        escape(0x5c) == "\\\\"@,
        escape(0x0a) == "\\n"@,
        escape(0x0d) == "\\r"@,
        escape(0x09) == "\\t"@,
        escape(0) == "\\0"@,
        (b < 0x20 || b >= 0x7f) && b != 0x0a && b != 0x0d && b != 0x09 && b != 0 ==> escape(b)
            == "\\x"@ + seq![hex_digits(false)[b as int / 16], hex_digits(false)[b as int % 16]],
{
    reveal_strlit("\\\"");
    reveal_strlit("\\\\");
    reveal_strlit("\\n");
    reveal_strlit("\\r");
    reveal_strlit("\\t");
    reveal_strlit("\\0");
    reveal_strlit("\\x");
    lemma_hex_digit(b / 16, false);
    lemma_hex_digit(b % 16, false);
    assert(escape(0x22) =~= "\\\""@);
    assert(escape(0x5c) =~= "\\\\"@);
    assert(escape(0x0a) =~= "\\n"@);
    assert(escape(0x0d) =~= "\\r"@);
    assert(escape(0x09) =~= "\\t"@);
    assert(escape(0) =~= "\\0"@);
    if (b < 0x20 || b >= 0x7f) && b != 0x0a && b != 0x0d && b != 0x09 && b != 0 {
        assert(escape(b) =~= "\\x"@ + seq![
            hex_digits(false)[b as int / 16],
            hex_digits(false)[b as int % 16],
        ]);
    }
}

/// Bytes are written one after the other.
pub proof fn law_escapes_follow_each_other(first: Seq<u8>, second: Seq<u8>, b: u8)
    ensures
        escapes(first + second) == escapes(first) + escapes(second),
        escapes(seq![b]) == escape(b),
        escapes(Seq::empty()) == Seq::<char>::empty(),
    decreases second.len(),
{
    assert(seq![b].drop_last() =~= Seq::empty());
    assert(escapes(seq![b].drop_last()) =~= Seq::empty());
    assert(escapes(seq![b]) =~= escape(b));
    if second.len() == 0 {
        assert(first + second =~= first);
        assert(escapes(first) + escapes(second) =~= escapes(first));
    } else {
        law_escapes_follow_each_other(first, second.drop_last(), b);
        assert((first + second).drop_last() =~= first + second.drop_last());
        assert(escapes(first + second) =~= escapes(first) + escapes(second));
    }
}

/// The smallest capacity is eight bytes, or four items of up to 1024 bytes, or one larger item.
pub proof fn law_smallest_capacity<T>()
    ensures
        1 <= min_non_zero_cap_spec::<T>() <= 8,
        min_non_zero_cap_spec::<T>() == 8 <==> vstd::layout::size_of::<T>() == 1,
        min_non_zero_cap_spec::<T>() == 1 <==> vstd::layout::size_of::<T>() > 1024,
        min_non_zero_cap_spec::<T>() == 4 <==> vstd::layout::size_of::<T>() == 0 || 2
            <= vstd::layout::size_of::<T>() <= 1024,
{
}

/// The ranges have the bounds that they are written with.
pub proof fn law_bounds_of_ranges(
    range: core::ops::Range<usize>,
    inclusive: core::ops::RangeInclusive<usize>,
    from: core::ops::RangeFrom<usize>,
    to: core::ops::RangeTo<usize>,
    to_inclusive: core::ops::RangeToInclusive<usize>,
    full: core::ops::RangeFull,
    bounds: (Bound<usize>, Bound<usize>),
    index: int,
)
    requires
        0 <= index,
    ensures
        ({
            let lies_in_range = range.start <= index < range.end;
            &&& lies_in_range <==> keeps_to_lower(index, range.lower()) && keeps_to_upper(
                index,
                range.upper(),
            )
            &&& inclusive@.start <= index <= inclusive@.end <==> keeps_to_lower(
                index,
                inclusive.lower(),
            ) && keeps_to_upper(index, inclusive.upper())
            &&& from.start <= index <==> keeps_to_lower(index, from.lower())
            &&& from.upper() is Unbounded
            &&& to.lower() is Unbounded
            &&& index < to.end <==> keeps_to_upper(index, to.upper())
            &&& to_inclusive.lower() is Unbounded
            &&& index <= to_inclusive.end <==> keeps_to_upper(index, to_inclusive.upper())
            &&& full.lower() is Unbounded
            &&& full.upper() is Unbounded
            &&& bounds.lower() == bounds.0
            &&& bounds.upper() == bounds.1
        }),
{
}

} // verus!
