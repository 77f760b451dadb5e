//! Splitting pieces off either end of a contiguous byte range.

use vstd::prelude::*;

verus! {

/// `core::mem::replace` moves `src` into `dest` and returns the value that
/// `dest` held before.
pub assume_specification<T>[ core::mem::replace::<T> ](dest: &mut T, src: T) -> (previous: T)
    ensures
        previous == *old(dest),
        *final(dest) == src,
;

/// Indexing a mutable slice by a range (`IndexMut` of `[u8]` for
/// `Range<usize>`): the result is the part `[start, end)` of `bytes`, it
/// keeps its length whatever is written to it, and what is written to it
/// is written to that part of `bytes`, the rest staying as it was.
#[verifier::external_body]
pub(crate) fn subslice_mut<'a>(bytes: &'a mut [u8], start: usize, end: usize) -> (part:
    &'a mut [u8])
    requires
        start <= end <= old(bytes)@.len(),
    ensures
        part@ == old(bytes)@.subrange(start as int, end as int),
        final(part)@.len() == part@.len(),
        final(bytes)@ == old(bytes)@.subrange(0, start as int) + final(part)@ + old(
            bytes,
        )@.subrange(end as int, old(bytes)@.len() as int),
{
    &mut bytes[start..end]
}

/// Splits the first `n` bytes off `bytes`, leaving the rest in place.
pub fn take_front<'a>(bytes: &mut &'a [u8], n: usize) -> (taken: &'a [u8])
    requires
        n <= old(bytes)@.len(),
    ensures
        taken@ == old(bytes)@.subrange(0, n as int),
        final(bytes)@ == old(bytes)@.subrange(n as int, old(bytes)@.len() as int),
{
    let (prefix, rest) = bytes.split_at(n);
    *bytes = rest;
    prefix
}

/// Splits the first `n` bytes off a mutable range, leaving the rest in place.
pub fn take_front_mut<'a>(bytes: &mut &'a mut [u8], n: usize) -> (taken: &'a mut [u8])
    requires
        n <= old(bytes)@.len(),
    ensures
        taken@ == old(bytes)@.subrange(0, n as int),
        final(bytes)@ == old(bytes)@.subrange(n as int, old(bytes)@.len() as int),
{
    let whole: &'a mut [u8] = core::mem::replace(bytes, &mut []);
    let (prefix, rest) = whole.split_at_mut(n);
    *bytes = rest;
    prefix
}

/// Splits the last `n` bytes off `bytes`, leaving the rest in place.
pub fn take_back<'a>(bytes: &mut &'a [u8], n: usize) -> (taken: &'a [u8])
    requires
        n <= old(bytes)@.len(),
    ensures
        taken@ == old(bytes)@.subrange(old(bytes)@.len() - n, old(bytes)@.len() as int),
        final(bytes)@ == old(bytes)@.subrange(0, old(bytes)@.len() - n),
{
    let split = bytes.len() - n;
    let (rest, suffix) = bytes.split_at(split);
    *bytes = rest;
    suffix
}

/// Splits the last `n` bytes off a mutable range, leaving the rest in place.
pub fn take_back_mut<'a>(bytes: &mut &'a mut [u8], n: usize) -> (taken: &'a mut [u8])
    requires
        n <= old(bytes)@.len(),
    ensures
        taken@ == old(bytes)@.subrange(old(bytes)@.len() - n, old(bytes)@.len() as int),
        final(bytes)@ == old(bytes)@.subrange(0, old(bytes)@.len() - n),
{
    let split = bytes.len() - n;
    let whole: &'a mut [u8] = core::mem::replace(bytes, &mut []);
    let (rest, suffix) = whole.split_at_mut(split);
    *bytes = rest;
    suffix
}

/// A run of `len` zero bytes.
pub open spec fn zeros(len: nat) -> Seq<u8> {
    Seq::new(len, |i: int| 0u8)
}

/// Sets every byte of `bytes` to zero.
pub fn zero(bytes: &mut [u8])
    ensures
        final(bytes)@ == zeros(old(bytes)@.len()),
{
    let n = bytes.len();
    let mut i: usize = 0;
    while i < n
        invariant
            i <= n,
            bytes@.len() == n,
            forall|k: int| 0 <= k < i ==> bytes@[k] == 0u8,
        decreases n - i,
    {
        bytes[i] = 0;
        i += 1;
    }
    assert(bytes@ =~= zeros(n as nat));
}

} // verus!
