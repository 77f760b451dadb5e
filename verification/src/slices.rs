//! Plain contiguous byte ranges as parse buffers. They have no capacity
//! beyond their body: bytes that leave it are discarded for good.

use crate::buf::Buf;
use crate::buffer::{window_after_parse, ParseBuffer, ParseBufferMut};
use crate::bytes::{subslice_mut, take_back, take_back_mut, take_front, take_front_mut};
use crate::packet::ParsablePacket;
use crate::view::{
    is_rest_of, lemma_rest_of_itself, lemma_rest_of_rest, BufferView, BufferViewMut,
};
use crate::window::Window;
use vstd::prelude::*;

verus! {

impl<'a> ParseBuffer for &'a [u8] {
    open spec fn wf(&self) -> bool {
        true
    }

    open spec fn window(&self) -> Window {
        Window::of_body(self@)
    }

    open spec fn retains() -> bool {
        false
    }

    fn as_bytes(&self) -> (body: &[u8]) {
        *self
    }

    fn len(&self) -> (n: usize) {
        <[u8]>::len(*self)
    }

    fn shrink_front(&mut self, n: usize) {
        take_front(self, n);
    }

    fn shrink_back(&mut self, n: usize) {
        take_back(self, n);
    }

    fn parse_with<'b, ParseArgs, P: ParsablePacket<&'b [u8], ParseArgs>>(
        &'b mut self,
        args: ParseArgs,
    ) -> (parsed: Result<P, P::Error>) {
        let parsed = P::parse(self, args);
        proof {
            let before = old(self)@;
            if parsed is Err {
                assert(self@ =~= before);
            } else {
                let meta = parsed->Ok_0.metadata();
                assert(self@ =~= before.subrange(
                    meta.header_len as int,
                    meta.header_len + meta.body_len,
                ));
            }
        }
        parsed
    }

    fn as_buf(&self) -> (buf: Buf<&[u8]>) {
        let bytes: &[u8] = *self;
        let buf = Buf::new(bytes, ..);
        proof {
            assert(buf.layout().prefix =~= Seq::<u8>::empty());
            assert(buf.layout().body =~= self@);
            assert(buf.layout().suffix =~= Seq::<u8>::empty());
        }
        buf
    }
}

impl<'a> ParseBuffer for &'a mut [u8] {
    open spec fn wf(&self) -> bool {
        true
    }

    open spec fn window(&self) -> Window {
        Window::of_body(self@)
    }

    open spec fn retains() -> bool {
        false
    }

    fn as_bytes(&self) -> (body: &[u8]) {
        &**self
    }

    fn len(&self) -> (n: usize) {
        <[u8]>::len(&**self)
    }

    fn shrink_front(&mut self, n: usize) {
        take_front_mut(self, n);
    }

    fn shrink_back(&mut self, n: usize) {
        take_back_mut(self, n);
    }

    fn parse_with<'b, ParseArgs, P: ParsablePacket<&'b [u8], ParseArgs>>(
        &'b mut self,
        args: ParseArgs,
    ) -> (parsed: Result<P, P::Error>) {
        let parsed = P::parse(self, args);
        proof {
            let before = old(self)@;
            if parsed is Err {
                assert(self@ =~= before);
            } else {
                let meta = parsed->Ok_0.metadata();
                assert(self@ =~= before.subrange(
                    meta.header_len as int,
                    meta.header_len + meta.body_len,
                ));
            }
        }
        parsed
    }

    fn as_buf(&self) -> (buf: Buf<&[u8]>) {
        let bytes: &[u8] = &**self;
        let buf = Buf::new(bytes, ..);
        proof {
            assert(buf.layout().prefix =~= Seq::<u8>::empty());
            assert(buf.layout().body =~= self@);
            assert(buf.layout().suffix =~= Seq::<u8>::empty());
        }
        buf
    }
}

impl<'a> ParseBufferMut for &'a mut [u8] {
    fn as_bytes_mut(&mut self) -> (body: &mut [u8]) {
        &mut **self
    }

    fn parse_with_mut<'b, ParseArgs, P: ParsablePacket<&'b mut [u8], ParseArgs>>(
        &'b mut self,
        args: ParseArgs,
    ) -> (parsed: Result<P, P::Error>)
        ensures
            parsed is Err ==> final(self).window() == old(self).window(),
            parsed is Ok ==> final(self).window() == window_after_parse(
                old(self).window(),
                parsed->Ok_0.metadata(),
                false,
            ),
    {
        let parsed = P::parse_mut(self, args);
        proof {
            let before = old(self)@;
            assert(self.window().prefix.take(0) =~= old(self).window().prefix);
            assert(self.window().suffix.skip(0) =~= old(self).window().suffix);
            if parsed is Err {
                assert(self@ =~= before);
            } else {
                let meta = parsed->Ok_0.metadata();
                assert(self@ =~= before.subrange(
                    meta.header_len as int,
                    meta.header_len + meta.body_len,
                ));
            }
        }
        parsed
    }

    fn as_buf_mut(&mut self) -> (buf: Buf<&mut [u8]>) {
        let bytes: &mut [u8] = &mut **self;
        let len = <[u8]>::len(bytes);
        let all = subslice_mut(bytes, 0, len);
        proof {
            assert(old(self)@.subrange(0, 0) + final(all)@ + old(self)@.subrange(
                len as int,
                len as int,
            ) =~= final(all)@);
            assert(all@ =~= old(self)@);
        }
        let buf = Buf::new(all, ..);
        proof {
            let left = final(buf.buf)@;
            assert(buf.layout().prefix =~= Seq::<u8>::empty());
            assert(buf.layout().body =~= old(self)@);
            assert(buf.layout().suffix =~= Seq::<u8>::empty());
            assert(Window::of_range(left, 0, len as int).prefix =~= Seq::<u8>::empty());
            assert(Window::of_range(left, 0, len as int).body =~= left);
            assert(Window::of_range(left, 0, len as int).suffix =~= Seq::<u8>::empty());
        }
        buf
    }
}

/// A shared byte range is its own view: taking bytes re-binds it to what
/// is left.
impl<'b, 'a: 'b> BufferView<&'b [u8]> for &'a [u8] {
    open spec fn wf(&self) -> bool {
        true
    }

    open spec fn body(&self) -> Seq<u8> {
        self@
    }

    open spec fn is_rest_after(&self, earlier: &Self, front: int, back: int) -> bool {
        is_rest_of(self@, earlier@, front, back)
    }

    proof fn rest_after_nothing(&self) {
        lemma_rest_of_itself(self@);
    }

    proof fn rest_after_both(
        &self,
        middle: &Self,
        earlier: &Self,
        front: int,
        back: int,
        more_front: int,
        more_back: int,
    ) {
        lemma_rest_of_rest(self@, middle@, earlier@, front, back, more_front, more_back);
    }

    proof fn rest_after_body(&self, earlier: &Self, front: int, back: int) {
    }

    fn as_bytes(&self) -> (body: &[u8]) {
        *self
    }

    fn len(&self) -> (n: usize) {
        <[u8]>::len(*self)
    }

    fn take_front(&mut self, n: usize) -> (taken: Option<&'b [u8]>) {
        if <[u8]>::len(*self) < n {
            proof {
                lemma_rest_of_itself(self@);
            }
            return None;
        }
        proof {
            assert(is_rest_of(old(self)@.skip(n as int), old(self)@, n as int, 0));
        }
        Some(take_front(self, n))
    }

    fn take_back(&mut self, n: usize) -> (taken: Option<&'b [u8]>) {
        if <[u8]>::len(*self) < n {
            proof {
                lemma_rest_of_itself(self@);
            }
            return None;
        }
        proof {
            assert(is_rest_of(old(self)@.take(old(self)@.len() - n), old(self)@, 0, n as int));
        }
        Some(take_back(self, n))
    }

    fn into_rest(self) -> (rest: &'b [u8]) {
        self
    }
}

/// A mutable byte range as a view that hands out shared regions.
impl<'b, 'a: 'b> BufferView<&'b [u8]> for &'a mut [u8] {
    open spec fn wf(&self) -> bool {
        true
    }

    open spec fn body(&self) -> Seq<u8> {
        self@
    }

    open spec fn is_rest_after(&self, earlier: &Self, front: int, back: int) -> bool {
        is_rest_of(self@, earlier@, front, back)
    }

    proof fn rest_after_nothing(&self) {
        lemma_rest_of_itself(self@);
    }

    proof fn rest_after_both(
        &self,
        middle: &Self,
        earlier: &Self,
        front: int,
        back: int,
        more_front: int,
        more_back: int,
    ) {
        lemma_rest_of_rest(self@, middle@, earlier@, front, back, more_front, more_back);
    }

    proof fn rest_after_body(&self, earlier: &Self, front: int, back: int) {
    }

    fn as_bytes(&self) -> (body: &[u8]) {
        &**self
    }

    fn len(&self) -> (n: usize) {
        <[u8]>::len(&**self)
    }

    fn take_front(&mut self, n: usize) -> (taken: Option<&'b [u8]>) {
        if <[u8]>::len(&**self) < n {
            proof {
                lemma_rest_of_itself(self@);
            }
            return None;
        }
        proof {
            assert(is_rest_of(old(self)@.skip(n as int), old(self)@, n as int, 0));
        }
        Some(take_front_mut(self, n))
    }

    fn take_back(&mut self, n: usize) -> (taken: Option<&'b [u8]>) {
        if <[u8]>::len(&**self) < n {
            proof {
                lemma_rest_of_itself(self@);
            }
            return None;
        }
        proof {
            assert(is_rest_of(old(self)@.take(old(self)@.len() - n), old(self)@, 0, n as int));
        }
        Some(take_back_mut(self, n))
    }

    fn into_rest(self) -> (rest: &'b [u8]) {
        self
    }
}

/// A mutable byte range as a view that hands out mutable regions.
impl<'b, 'a: 'b> BufferView<&'b mut [u8]> for &'a mut [u8] {
    open spec fn wf(&self) -> bool {
        true
    }

    open spec fn body(&self) -> Seq<u8> {
        self@
    }

    open spec fn is_rest_after(&self, earlier: &Self, front: int, back: int) -> bool {
        is_rest_of(self@, earlier@, front, back)
    }

    proof fn rest_after_nothing(&self) {
        lemma_rest_of_itself(self@);
    }

    proof fn rest_after_both(
        &self,
        middle: &Self,
        earlier: &Self,
        front: int,
        back: int,
        more_front: int,
        more_back: int,
    ) {
        lemma_rest_of_rest(self@, middle@, earlier@, front, back, more_front, more_back);
    }

    proof fn rest_after_body(&self, earlier: &Self, front: int, back: int) {
    }

    fn as_bytes(&self) -> (body: &[u8]) {
        &**self
    }

    fn len(&self) -> (n: usize) {
        <[u8]>::len(&**self)
    }

    fn take_front(&mut self, n: usize) -> (taken: Option<&'b mut [u8]>) {
        if <[u8]>::len(&**self) < n {
            proof {
                lemma_rest_of_itself(self@);
            }
            return None;
        }
        proof {
            assert(is_rest_of(old(self)@.skip(n as int), old(self)@, n as int, 0));
        }
        Some(take_front_mut(self, n))
    }

    fn take_back(&mut self, n: usize) -> (taken: Option<&'b mut [u8]>) {
        if <[u8]>::len(&**self) < n {
            proof {
                lemma_rest_of_itself(self@);
            }
            return None;
        }
        proof {
            assert(is_rest_of(old(self)@.take(old(self)@.len() - n), old(self)@, 0, n as int));
        }
        Some(take_back_mut(self, n))
    }

    fn into_rest(self) -> (rest: &'b mut [u8]) {
        self
    }
}

impl<'b, 'a: 'b> BufferViewMut<&'b mut [u8]> for &'a mut [u8] {
}

} // verus!
