//! Canonical half-open form of the ranges that select part of a buffer's body.

use core::ops::{
    Bound, Range, RangeBounds, RangeFrom, RangeFull, RangeInclusive, RangeTo, RangeToInclusive,
};
use vstd::prelude::*;

verus! {

/// `core::ops::Bound`, with the three variants that std declares.
#[verifier::external_type_specification]
#[verifier::reject_recursive_types(T)]
pub struct ExBound<T>(Bound<T>);

/// `core::ops::RangeFrom`, with its public field `start`.
#[verifier::external_type_specification]
#[verifier::reject_recursive_types(Idx)]
pub struct ExRangeFrom<Idx>(RangeFrom<Idx>);

/// `core::ops::RangeTo`, with its public field `end`.
#[verifier::external_type_specification]
#[verifier::reject_recursive_types(Idx)]
pub struct ExRangeTo<Idx>(RangeTo<Idx>);

/// `core::ops::RangeToInclusive`, with its public field `end`.
#[verifier::external_type_specification]
#[verifier::reject_recursive_types(Idx)]
pub struct ExRangeToInclusive<Idx>(RangeToInclusive<Idx>);

/// `core::ops::RangeFull`, which has no fields.
#[verifier::external_type_specification]
pub struct ExRangeFull(RangeFull);

/// `RangeBounds::start_bound` of a `RangeInclusive`: the start of the
/// range, included.
#[verifier::external_body]
fn inclusive_start_bound(range: &RangeInclusive<usize>) -> (bound: Bound<&usize>)
    ensures
        bound == Bound::Included(&range@.start),
{
    RangeBounds::start_bound(range)
}

/// `RangeBounds::end_bound` of a `RangeInclusive`: the end of the range,
/// included; or excluded, once the range has been iterated to exhaustion,
/// so that it holds nothing.
#[verifier::external_body]
fn inclusive_end_bound(range: &RangeInclusive<usize>) -> (bound: Bound<&usize>)
    ensures
        bound == if range@.exhausted {
            Bound::Excluded(&range@.end)
        } else {
            Bound::Included(&range@.end)
        },
{
    RangeBounds::end_bound(range)
}

/// The first index that a lower bound admits.
pub open spec fn lower_bound_index(bound: Bound<&usize>) -> int {
    match bound {
        Bound::Included(x) => *x as int,
        Bound::Excluded(x) => *x + 1,
        Bound::Unbounded => 0,
    }
}

/// The first index that an upper bound over a body of `len` bytes leaves out.
pub open spec fn upper_bound_index(len: int, bound: Bound<&usize>) -> int {
    match bound {
        Bound::Included(x) => *x + 1,
        Bound::Excluded(x) => *x as int,
        Bound::Unbounded => len,
    }
}

/// Returns the inclusive equivalent of a lower bound.
pub fn canonicalize_lower_bound(bound: Bound<&usize>) -> (lower: usize)
    requires
        lower_bound_index(bound) <= usize::MAX,
    ensures
        lower == lower_bound_index(bound),
{
    match bound {
        Bound::Included(x) => *x,
        Bound::Excluded(x) => *x + 1,
        Bound::Unbounded => 0,
    }
}

/// Returns the exclusive equivalent of an upper bound, or `None` if it lies
/// beyond `len`.
pub fn canonicalize_upper_bound(len: usize, bound: Bound<&usize>) -> (upper: Option<usize>)
    ensures
        upper is Some <==> upper_bound_index(len as int, bound) <= len,
        upper is Some ==> upper->0 == upper_bound_index(len as int, bound),
{
    let bound: usize = match bound {
        Bound::Included(x) => {
            if *x >= len {
                return None;
            }
            *x + 1
        },
        Bound::Excluded(x) => *x,
        Bound::Unbounded => len,
    };
    if bound > len {
        return None;
    }
    Some(bound)
}

/// A range of indices into a buffer's body, given by its two bounds.
///
/// This is the part of `core::ops::RangeBounds<usize>` that selecting a
/// window needs, with the bounds available to specifications.
pub trait BodyRange {
    /// The first index inside the range.
    spec fn start_index(&self) -> int;

    /// The first index past the range, over a body of `len` bytes.
    spec fn end_index(&self, len: int) -> int;

    /// The lower bound of the range.
    fn start_bound(&self) -> (bound: Bound<&usize>)
        ensures
            lower_bound_index(bound) == self.start_index(),
    ;

    /// The upper bound of the range.
    fn end_bound(&self) -> (bound: Bound<&usize>)
        ensures
            forall|len: int| #[trigger] upper_bound_index(len, bound) == self.end_index(len),
    ;
}

impl BodyRange for Range<usize> {
    open spec fn start_index(&self) -> int {
        self.start as int
    }

    open spec fn end_index(&self, len: int) -> int {
        self.end as int
    }

    fn start_bound(&self) -> (bound: Bound<&usize>) {
        Bound::Included(&self.start)
    }

    fn end_bound(&self) -> (bound: Bound<&usize>) {
        Bound::Excluded(&self.end)
    }
}

impl BodyRange for RangeFrom<usize> {
    open spec fn start_index(&self) -> int {
        self.start as int
    }

    open spec fn end_index(&self, len: int) -> int {
        len
    }

    fn start_bound(&self) -> (bound: Bound<&usize>) {
        Bound::Included(&self.start)
    }

    fn end_bound(&self) -> (bound: Bound<&usize>) {
        Bound::Unbounded
    }
}

impl BodyRange for RangeTo<usize> {
    open spec fn start_index(&self) -> int {
        0
    }

    open spec fn end_index(&self, len: int) -> int {
        self.end as int
    }

    fn start_bound(&self) -> (bound: Bound<&usize>) {
        Bound::Unbounded
    }

    fn end_bound(&self) -> (bound: Bound<&usize>) {
        Bound::Excluded(&self.end)
    }
}

impl BodyRange for RangeToInclusive<usize> {
    open spec fn start_index(&self) -> int {
        0
    }

    open spec fn end_index(&self, len: int) -> int {
        self.end + 1
    }

    fn start_bound(&self) -> (bound: Bound<&usize>) {
        Bound::Unbounded
    }

    fn end_bound(&self) -> (bound: Bound<&usize>) {
        Bound::Included(&self.end)
    }
}

impl BodyRange for RangeInclusive<usize> {
    open spec fn start_index(&self) -> int {
        self@.start as int
    }

    open spec fn end_index(&self, len: int) -> int {
        if self@.exhausted {
            self@.end as int
        } else {
            self@.end + 1
        }
    }

    fn start_bound(&self) -> (bound: Bound<&usize>) {
        inclusive_start_bound(self)
    }

    fn end_bound(&self) -> (bound: Bound<&usize>) {
        inclusive_end_bound(self)
    }
}

impl BodyRange for (Bound<usize>, Bound<usize>) {
    open spec fn start_index(&self) -> int {
        match self.0 {
            Bound::Included(x) => x as int,
            Bound::Excluded(x) => x + 1,
            Bound::Unbounded => 0,
        }
    }

    open spec fn end_index(&self, len: int) -> int {
        match self.1 {
            Bound::Included(x) => x + 1,
            Bound::Excluded(x) => x as int,
            Bound::Unbounded => len,
        }
    }

    fn start_bound(&self) -> (bound: Bound<&usize>) {
        match &self.0 {
            Bound::Included(x) => Bound::Included(x),
            Bound::Excluded(x) => Bound::Excluded(x),
            Bound::Unbounded => Bound::Unbounded,
        }
    }

    fn end_bound(&self) -> (bound: Bound<&usize>) {
        match &self.1 {
            Bound::Included(x) => Bound::Included(x),
            Bound::Excluded(x) => Bound::Excluded(x),
            Bound::Unbounded => Bound::Unbounded,
        }
    }
}

impl BodyRange for RangeFull {
    open spec fn start_index(&self) -> int {
        0
    }

    open spec fn end_index(&self, len: int) -> int {
        len
    }

    fn start_bound(&self) -> (bound: Bound<&usize>) {
        Bound::Unbounded
    }

    fn end_bound(&self) -> (bound: Bound<&usize>) {
        Bound::Unbounded
    }
}

/// Whether `range` selects a sensible part of a body of `len` bytes: its
/// end does not precede its start and lies within the body.
pub open spec fn range_within<R: BodyRange>(len: int, range: &R) -> bool {
    0 <= range.start_index() <= range.end_index(len) <= len
}

/// Returns the half-open equivalent of `range` over a body of `len` bytes.
pub fn canonicalize_range<R: BodyRange>(len: usize, range: &R) -> (canonical: Range<usize>)
    requires
        range_within(len as int, range),
    ensures
        canonical.start == range.start_index(),
        canonical.end == range.end_index(len as int),
{
    let lower = canonicalize_lower_bound(range.start_bound());
    let upper = canonicalize_upper_bound(len, range.end_bound());
    match upper {
        Some(upper) => lower..upper,
        None => lower..len,
    }
}

/// Returns the half-open equivalent of `range` over a body of `len` bytes,
/// or `None` if the range reaches beyond the body or its end precedes its
/// start.
pub fn checked_canonicalize_range<R: BodyRange>(len: usize, range: &R) -> (canonical: Option<
    Range<usize>,
>)
    ensures
        canonical is Some <==> range_within(len as int, range),
        canonical is Some ==> canonical->0.start == range.start_index(),
        canonical is Some ==> canonical->0.end == range.end_index(len as int),
{
    let upper = match canonicalize_upper_bound(len, range.end_bound()) {
        Some(upper) => upper,
        None => { return None; },
    };
    let lower = match range.start_bound() {
        Bound::Included(x) => *x,
        Bound::Excluded(x) => {
            if *x >= upper {
                return None;
            }
            *x + 1
        },
        Bound::Unbounded => 0,
    };
    if lower > upper {
        return None;
    }
    Some(lower..upper)
}

} // verus!
