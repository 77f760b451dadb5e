//! The byte regions that a view hands out: shared or mutable parts of a
//! buffer's backing store, and the fixed-layout objects made over them.

use crate::bytes::{zero, zeros};
use vstd::layout::size_of;
use vstd::prelude::*;
use zerocopy::{LayoutVerified, Unaligned};

verus! {

/// `zerocopy::LayoutVerified`: bytes `B` known to be as long as a `T`.
/// Nothing of what it holds is visible to specifications.
#[verifier::external_type_specification]
#[verifier::external_body]
#[verifier::reject_recursive_types(B)]
#[verifier::reject_recursive_types(T)]
pub struct ExLayoutVerified<B, T: ?Sized>(LayoutVerified<B, T>);

/// A value of type `T` laid over a region of bytes, without copying them.
///
/// Its view is the sequence of bytes that it was made over: those that
/// read as the `T` when the object is handed out.
#[verifier::reject_recursive_types(B)]
#[verifier::reject_recursive_types(T)]
pub struct Object<B, T> {
    layout: LayoutVerified<B, T>,
    bytes: Ghost<Seq<u8>>,
}

impl<B, T> View for Object<B, T> {
    type V = Seq<u8>;

    closed spec fn view(&self) -> Seq<u8> {
        self.bytes@
    }
}

impl<B, T> Object<B, T> {
    /// The object as `zerocopy` has it, through which the `T` is read, and
    /// written where the region is mutable.
    pub fn into_inner(self) -> LayoutVerified<B, T> {
        self.layout
    }
}

/// `LayoutVerified::new_unaligned` over a shared slice: it returns an
/// object exactly when `bytes` is as long as a `T`, and the object is made
/// over `bytes`.
#[verifier::external_body]
fn new_unaligned<'a, T: Unaligned>(bytes: &'a [u8]) -> (object: Option<Object<&'a [u8], T>>)
    ensures
        object is Some <==> bytes@.len() == size_of::<T>(),
        object is Some ==> object->0@ == bytes@,
{
    let ghost over = bytes@;
    match LayoutVerified::new_unaligned(bytes) {
        Some(layout) => Some(Object { layout, bytes: Ghost(over) }),
        None => None,
    }
}

/// `LayoutVerified::new_unaligned` over a mutable slice: it returns an
/// object exactly when `bytes` is as long as a `T`, and the object is made
/// over `bytes` as they are.
#[verifier::external_body]
fn new_unaligned_mut<'a, T: Unaligned>(bytes: &'a mut [u8]) -> (object: Option<
    Object<&'a mut [u8], T>,
>)
    ensures
        object is Some <==> old(bytes)@.len() == size_of::<T>(),
        object is Some ==> object->0@ == old(bytes)@,
{
    let ghost over = bytes@;
    match LayoutVerified::new_unaligned(bytes) {
        Some(layout) => Some(Object { layout, bytes: Ghost(over) }),
        None => None,
    }
}

/// `LayoutVerified::new_unaligned_zeroed`: it returns an object exactly
/// when `bytes` is as long as a `T`, and the object is then made over
/// `bytes` set to zero.
#[verifier::external_body]
fn new_unaligned_zeroed<'a, T: Unaligned>(bytes: &'a mut [u8]) -> (object: Option<
    Object<&'a mut [u8], T>,
>)
    ensures
        object is Some <==> old(bytes)@.len() == size_of::<T>(),
        object is Some ==> object->0@ == zeros(old(bytes)@.len()),
{
    let ghost over = zeros(bytes@.len());
    match LayoutVerified::new_unaligned_zeroed(bytes) {
        Some(layout) => Some(Object { layout, bytes: Ghost(over) }),
        None => None,
    }
}

/// A reference to a run of bytes: `&[u8]` or `&mut [u8]`.
pub trait ByteRegion: Sized {
    /// The bytes referred to.
    spec fn bytes(&self) -> Seq<u8>;

    /// The bytes as a slice.
    fn as_slice(&self) -> (bytes: &[u8])
        ensures
            bytes@ == self.bytes(),
    ;

    /// Reinterprets the region as a `T`, which has no alignment
    /// requirement. There is an object exactly when the region is as long
    /// as a `T`.
    fn into_object<T: Unaligned>(self) -> (object: Option<Object<Self, T>>)
        ensures
            object is Some <==> self.bytes().len() == size_of::<T>(),
            object is Some ==> object->0@ == self.bytes(),
    ;
}

/// A reference to a run of bytes that can be written.
pub trait ByteRegionMut: ByteRegion {
    /// Sets every byte of the region to zero.
    fn zero(&mut self)
        ensures
            final(self).bytes() == zeros(old(self).bytes().len()),
    ;

    /// Like `into_object`, over the region set to zero.
    fn into_object_zeroed<T: Unaligned>(self) -> (object: Option<Object<Self, T>>)
        ensures
            object is Some <==> self.bytes().len() == size_of::<T>(),
            object is Some ==> object->0@ == zeros(self.bytes().len()),
    ;
}

impl<'a> ByteRegion for &'a [u8] {
    open spec fn bytes(&self) -> Seq<u8> {
        self@
    }

    fn as_slice(&self) -> (bytes: &[u8]) {
        *self
    }

    fn into_object<T: Unaligned>(self) -> (object: Option<Object<Self, T>>) {
        new_unaligned(self)
    }
}

impl<'a> ByteRegion for &'a mut [u8] {
    open spec fn bytes(&self) -> Seq<u8> {
        self@
    }

    fn as_slice(&self) -> (bytes: &[u8]) {
        &**self
    }

    fn into_object<T: Unaligned>(self) -> (object: Option<Object<Self, T>>) {
        new_unaligned_mut(self)
    }
}

impl<'a> ByteRegionMut for &'a mut [u8] {
    fn zero(&mut self) {
        zero(&mut **self);
    }

    fn into_object_zeroed<T: Unaligned>(self) -> (object: Option<Object<Self, T>>) {
        new_unaligned_zeroed(self)
    }
}

} // verus!
