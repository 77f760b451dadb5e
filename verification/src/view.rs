//! The cursor contract: a view over a buffer's body that lets a parser
//! consume bytes from either end.

use crate::bytes::zeros;
use crate::region::{ByteRegion, ByteRegionMut, Object};
use vstd::layout::size_of;
use vstd::prelude::*;
use zerocopy::Unaligned;

verus! {

/// Whether `part` is what is left of `whole` once `front` bytes are gone
/// from its start and `back` bytes from its end.
pub open spec fn is_rest_of(part: Seq<u8>, whole: Seq<u8>, front: int, back: int) -> bool {
    &&& 0 <= front
    &&& 0 <= back
    &&& front + back <= whole.len()
    &&& part == whole.subrange(front, whole.len() - back)
}

/// A sequence is what is left of itself with nothing taken.
pub proof fn lemma_rest_of_itself(whole: Seq<u8>)
    ensures
        is_rest_of(whole, whole, 0, 0),
{
    assert(whole.subrange(0, whole.len() as int) =~= whole);
}

/// What is left of what is left of a sequence is left of that sequence,
/// with the bytes taken at each end added up.
pub proof fn lemma_rest_of_rest(
    part: Seq<u8>,
    middle: Seq<u8>,
    whole: Seq<u8>,
    front: int,
    back: int,
    more_front: int,
    more_back: int,
)
    requires
        is_rest_of(middle, whole, front, back),
        is_rest_of(part, middle, more_front, more_back),
    ensures
        is_rest_of(part, whole, front + more_front, back + more_back),
{
    assert(part =~= whole.subrange(front + more_front, whole.len() - (back + more_back)));
}

/// A view into a buffer's body, from which bytes are taken at either end.
///
/// What a view hands out are regions of type `B`. A view lives for one
/// parse: the buffer it was made for takes over what it has left when the
/// parse is done.
pub trait BufferView<B: ByteRegion>: Sized {
    /// The view's internal invariant.
    spec fn wf(&self) -> bool;

    /// The bytes that have not been taken.
    spec fn body(&self) -> Seq<u8>;

    /// Whether this view is what `earlier` becomes when `front` bytes are
    /// taken from its front and `back` bytes from its back.
    spec fn is_rest_after(&self, earlier: &Self, front: int, back: int) -> bool;

    /// A view is what it becomes by taking nothing.
    proof fn rest_after_nothing(&self)
        requires
            self.wf(),
        ensures
            self.is_rest_after(self, 0, 0),
    ;

    /// Taking bytes and then more bytes is taking them all at once.
    proof fn rest_after_both(
        &self,
        middle: &Self,
        earlier: &Self,
        front: int,
        back: int,
        more_front: int,
        more_back: int,
    )
        requires
            middle.is_rest_after(earlier, front, back),
            self.is_rest_after(middle, more_front, more_back),
        ensures
            self.is_rest_after(earlier, front + more_front, back + more_back),
    ;

    /// What is left of a view is what it had, without what was taken from
    /// its two ends.
    proof fn rest_after_body(&self, earlier: &Self, front: int, back: int)
        requires
            self.is_rest_after(earlier, front, back),
        ensures
            is_rest_of(self.body(), earlier.body(), front, back),
    ;

    /// The bytes that have not been taken.
    fn as_bytes(&self) -> (body: &[u8])
        requires
            self.wf(),
        ensures
            body@ == self.body(),
    ;

    /// The length of what has not been taken.
    fn len(&self) -> (n: usize)
        requires
            self.wf(),
        ensures
            n == self.body().len(),
    {
        self.as_bytes().len()
    }

    /// Has everything been taken?
    fn is_empty(&self) -> (empty: bool)
        requires
            self.wf(),
        ensures
            empty <==> self.body().len() == 0,
    {
        self.len() == 0
    }

    /// Takes `n` bytes from the front, or nothing if fewer than `n` are
    /// left.
    fn take_front(&mut self, n: usize) -> (taken: Option<B>)
        requires
            old(self).wf(),
        ensures
            final(self).wf(),
            taken is Some <==> n <= old(self).body().len(),
            taken is Some ==> final(self).is_rest_after(old(self), n as int, 0),
            taken is None ==> *final(self) == *old(self),
            taken is None ==> final(self).is_rest_after(old(self), 0, 0),
            taken is Some ==> taken->0.bytes() == old(self).body().take(n as int),
            taken is Some ==> final(self).body() == old(self).body().skip(n as int),
            taken is None ==> final(self).body() == old(self).body(),
    ;

    /// Takes `n` bytes from the back, or nothing if fewer than `n` are
    /// left.
    fn take_back(&mut self, n: usize) -> (taken: Option<B>)
        requires
            old(self).wf(),
        ensures
            final(self).wf(),
            taken is Some <==> n <= old(self).body().len(),
            taken is Some ==> final(self).is_rest_after(old(self), 0, n as int),
            taken is None ==> *final(self) == *old(self),
            taken is None ==> final(self).is_rest_after(old(self), 0, 0),
            taken is Some ==> taken->0.bytes() == old(self).body().skip(
                old(self).body().len() - n,
            ),
            taken is Some ==> final(self).body() == old(self).body().take(
                old(self).body().len() - n,
            ),
            taken is None ==> final(self).body() == old(self).body(),
    ;

    /// Takes all that is left, from the front.
    fn take_rest_front(&mut self) -> (rest: B)
        requires
            old(self).wf(),
        ensures
            final(self).wf(),
            final(self).is_rest_after(old(self), old(self).body().len() as int, 0),
            rest.bytes() == old(self).body(),
            final(self).body() == old(self).body().skip(old(self).body().len() as int),
    {
        let len = self.len();
        match self.take_front(len) {
            Some(rest) => {
                assert(old(self).body().take(len as int) =~= old(self).body());
                rest
            },
            None => { vstd::pervasive::unreached() },
        }
    }

    /// Takes all that is left, from the back.
    fn take_rest_back(&mut self) -> (rest: B)
        requires
            old(self).wf(),
        ensures
            final(self).wf(),
            final(self).is_rest_after(old(self), 0, old(self).body().len() as int),
            rest.bytes() == old(self).body(),
            final(self).body() == old(self).body().take(0),
    {
        let len = self.len();
        match self.take_back(len) {
            Some(rest) => {
                assert(old(self).body().skip(0) =~= old(self).body());
                rest
            },
            None => { vstd::pervasive::unreached() },
        }
    }

    /// Gives up the view for what it has left, which counts as taken from
    /// neither end.
    fn into_rest(self) -> (rest: B)
        requires
            self.wf(),
        ensures
            rest.bytes() == self.body(),
    ;

    /// Takes an object from the front: as many bytes as a `T` has, or
    /// nothing if fewer are left.
    fn take_obj_front<T: Unaligned>(&mut self) -> (object: Option<Object<B, T>>)
        requires
            old(self).wf(),
        ensures
            final(self).wf(),
            object is Some <==> size_of::<T>() <= old(self).body().len(),
            object is Some ==> final(self).is_rest_after(old(self), size_of::<T>() as int, 0),
            object is None ==> *final(self) == *old(self),
            object is None ==> final(self).is_rest_after(old(self), 0, 0),
            object is Some ==> object->0@ == old(self).body().take(size_of::<T>() as int),
            object is Some ==> final(self).body() == old(self).body().skip(size_of::<T>() as int),
            object is None ==> final(self).body() == old(self).body(),
    {
        match self.take_front(core::mem::size_of::<T>()) {
            Some(bytes) => bytes.into_object::<T>(),
            None => None,
        }
    }

    /// Takes an object from the back: as many bytes as a `T` has, or
    /// nothing if fewer are left.
    fn take_obj_back<T: Unaligned>(&mut self) -> (object: Option<Object<B, T>>)
        requires
            old(self).wf(),
        ensures
            final(self).wf(),
            object is Some <==> size_of::<T>() <= old(self).body().len(),
            object is Some ==> final(self).is_rest_after(old(self), 0, size_of::<T>() as int),
            object is None ==> *final(self) == *old(self),
            object is None ==> final(self).is_rest_after(old(self), 0, 0),
            object is Some ==> object->0@ == old(self).body().skip(
                old(self).body().len() - size_of::<T>(),
            ),
            object is Some ==> final(self).body() == old(self).body().take(
                old(self).body().len() - size_of::<T>(),
            ),
            object is None ==> final(self).body() == old(self).body(),
    {
        match self.take_back(core::mem::size_of::<T>()) {
            Some(bytes) => bytes.into_object::<T>(),
            None => None,
        }
    }
}

/// A view that hands out regions that can be written. Each way of taking
/// bytes has a twin that sets them to zero before handing them out, so that
/// nothing of what the buffer held before shows in them.
pub trait BufferViewMut<B: ByteRegionMut>: BufferView<B> {
    /// Takes `n` bytes from the front and zeroes them.
    fn take_front_zero(&mut self, n: usize) -> (taken: Option<B>)
        requires
            old(self).wf(),
        ensures
            final(self).wf(),
            taken is Some <==> n <= old(self).body().len(),
            taken is Some ==> final(self).is_rest_after(old(self), n as int, 0),
            taken is None ==> *final(self) == *old(self),
            taken is None ==> final(self).is_rest_after(old(self), 0, 0),
            taken is Some ==> taken->0.bytes() == zeros(n as nat),
            taken is Some ==> final(self).body() == old(self).body().skip(n as int),
            taken is None ==> final(self).body() == old(self).body(),
    {
        match self.take_front(n) {
            Some(mut bytes) => {
                bytes.zero();
                Some(bytes)
            },
            None => None,
        }
    }

    /// Takes `n` bytes from the back and zeroes them.
    fn take_back_zero(&mut self, n: usize) -> (taken: Option<B>)
        requires
            old(self).wf(),
        ensures
            final(self).wf(),
            taken is Some <==> n <= old(self).body().len(),
            taken is Some ==> final(self).is_rest_after(old(self), 0, n as int),
            taken is None ==> *final(self) == *old(self),
            taken is None ==> final(self).is_rest_after(old(self), 0, 0),
            taken is Some ==> taken->0.bytes() == zeros(n as nat),
            taken is Some ==> final(self).body() == old(self).body().take(
                old(self).body().len() - n,
            ),
            taken is None ==> final(self).body() == old(self).body(),
    {
        match self.take_back(n) {
            Some(mut bytes) => {
                bytes.zero();
                Some(bytes)
            },
            None => None,
        }
    }

    /// Takes all that is left, from the front, and zeroes it.
    fn take_rest_front_zero(&mut self) -> (rest: B)
        requires
            old(self).wf(),
        ensures
            final(self).wf(),
            final(self).is_rest_after(old(self), old(self).body().len() as int, 0),
            rest.bytes() == zeros(old(self).body().len()),
            final(self).body() == old(self).body().skip(old(self).body().len() as int),
    {
        let len = self.len();
        match self.take_front_zero(len) {
            Some(rest) => rest,
            None => { vstd::pervasive::unreached() },
        }
    }

    /// Takes all that is left, from the back, and zeroes it.
    fn take_rest_back_zero(&mut self) -> (rest: B)
        requires
            old(self).wf(),
        ensures
            final(self).wf(),
            final(self).is_rest_after(old(self), 0, old(self).body().len() as int),
            rest.bytes() == zeros(old(self).body().len()),
            final(self).body() == old(self).body().take(0),
    {
        let len = self.len();
        match self.take_back_zero(len) {
            Some(rest) => rest,
            None => { vstd::pervasive::unreached() },
        }
    }

    /// Gives up the view for what it has left, zeroed.
    fn into_rest_zero(self) -> (rest: B)
        requires
            self.wf(),
        ensures
            rest.bytes() == zeros(self.body().len()),
    {
        let mut bytes = self.into_rest();
        bytes.zero();
        bytes
    }

    /// Takes an object from the front, over bytes set to zero.
    fn take_obj_front_zero<T: Unaligned>(&mut self) -> (object: Option<Object<B, T>>)
        requires
            old(self).wf(),
        ensures
            final(self).wf(),
            object is Some <==> size_of::<T>() <= old(self).body().len(),
            object is Some ==> final(self).is_rest_after(old(self), size_of::<T>() as int, 0),
            object is None ==> *final(self) == *old(self),
            object is None ==> final(self).is_rest_after(old(self), 0, 0),
            object is Some ==> object->0@ == zeros(size_of::<T>()),
            object is Some ==> final(self).body() == old(self).body().skip(size_of::<T>() as int),
            object is None ==> final(self).body() == old(self).body(),
    {
        match self.take_front(core::mem::size_of::<T>()) {
            Some(bytes) => bytes.into_object_zeroed::<T>(),
            None => None,
        }
    }

    /// Takes an object from the back, over bytes set to zero.
    fn take_obj_back_zero<T: Unaligned>(&mut self) -> (object: Option<Object<B, T>>)
        requires
            old(self).wf(),
        ensures
            final(self).wf(),
            object is Some <==> size_of::<T>() <= old(self).body().len(),
            object is Some ==> final(self).is_rest_after(old(self), 0, size_of::<T>() as int),
            object is None ==> *final(self) == *old(self),
            object is None ==> final(self).is_rest_after(old(self), 0, 0),
            object is Some ==> object->0@ == zeros(size_of::<T>()),
            object is Some ==> final(self).body() == old(self).body().take(
                old(self).body().len() - size_of::<T>(),
            ),
            object is None ==> final(self).body() == old(self).body(),
    {
        match self.take_back(core::mem::size_of::<T>()) {
            Some(bytes) => bytes.into_object_zeroed::<T>(),
            None => None,
        }
    }
}

} // verus!
