//! The windowed byte buffer contract: buffers whose body can shrink as
//! packets are parsed and, where the capacity is kept, grow back.

use crate::buf::Buf;
use crate::bytes::zero;
use crate::metadata::ParseMetadata;
use crate::packet::{parsed_leaves_body, ParsablePacket};
use crate::range::{canonicalize_range, range_within, BodyRange};
use crate::window::{
    lemma_discard_in_two_steps, lemma_reset_by_growing, lemma_shrink_in_two_steps,
    lemma_undo_parse_by_growing, Window,
};
use vstd::prelude::*;

verus! {

/// A byte buffer used for parsing.
///
/// A `ParseBuffer` has a body that can only shrink. Whether the bytes that
/// leave the body are kept in the prefix and suffix is told by `retains`;
/// a [`Buffer`] always keeps them.
pub trait ParseBuffer: Sized {
    /// The buffer's internal invariant.
    spec fn wf(&self) -> bool;

    /// The prefix, body and suffix of the buffer.
    spec fn window(&self) -> Window;

    /// Whether bytes that leave the body are kept in the prefix or suffix.
    /// Where they are not, they are discarded for good.
    spec fn retains() -> bool;

    /// The body.
    fn as_bytes(&self) -> (body: &[u8])
        requires
            self.wf(),
        ensures
            body@ == self.window().body,
    ;

    /// The length of the body.
    fn len(&self) -> (n: usize)
        requires
            self.wf(),
        ensures
            n == self.window().body.len(),
    {
        self.as_bytes().len()
    }

    /// Is the body empty?
    fn is_empty(&self) -> (empty: bool)
        requires
            self.wf(),
        ensures
            empty <==> self.window().body.len() == 0,
    {
        self.len() == 0
    }

    /// Shrinks the front of the body towards the end of the buffer: the
    /// `n` left-most bytes of the body leave it.
    fn shrink_front(&mut self, n: usize)
        requires
            old(self).wf(),
            n <= old(self).window().body.len(),
        ensures
            final(self).wf(),
            Self::retains() ==> final(self).window() == old(self).window().shrink_front(n as int),
            !Self::retains() ==> final(self).window() == old(self).window().discard_front(
                n as int,
            ),
    ;

    /// Shrinks the back of the body towards the beginning of the buffer:
    /// the `n` right-most bytes of the body leave it.
    fn shrink_back(&mut self, n: usize)
        requires
            old(self).wf(),
            n <= old(self).window().body.len(),
        ensures
            final(self).wf(),
            Self::retains() ==> final(self).window() == old(self).window().shrink_back(n as int),
            !Self::retains() ==> final(self).window() == old(self).window().discard_back(n as int),
    ;

    /// Shrinks the body to `range` of itself.
    fn shrink<R: BodyRange>(&mut self, range: R)
        requires
            old(self).wf(),
            range_within(old(self).window().body.len() as int, &range),
        ensures
            final(self).wf(),
            Self::retains() ==> final(self).window() == old(self).window().shrink(
                range.start_index(),
                range.end_index(old(self).window().body.len() as int),
            ),
            !Self::retains() ==> final(self).window() == old(self).window().discard(
                range.start_index(),
                range.end_index(old(self).window().body.len() as int),
            ),
    {
        let len = self.len();
        let range = canonicalize_range(len, &range);
        proof {
            lemma_shrink_in_two_steps(old(self).window(), range.start as int, range.end as int);
            lemma_discard_in_two_steps(old(self).window(), range.start as int, range.end as int);
        }
        self.shrink_front(range.start);
        self.shrink_back(len - range.end);
    }

    /// Parses a packet from the body: what the packet takes of the body
    /// leaves it, and the body that remains is the packet's own. It
    /// succeeds exactly where the body holds such a packet, with the
    /// lengths that the packet type finds in it. If parsing fails the
    /// buffer stays as it was.
    fn parse<'a, P: ParsablePacket<&'a [u8], ()>>(&'a mut self) -> (parsed: Result<P, P::Error>)
        requires
            old(self).wf(),
        ensures
            final(self).wf(),
            parsed is Ok <==> P::layout(old(self).window().body, ()) is Some,
            parsed is Ok ==> P::layout(old(self).window().body, ()) == Some(
                parsed->Ok_0.metadata(),
            ),
            parsed is Err ==> final(self).window() == old(self).window(),
            parsed is Ok ==> parsed_leaves_body(
                old(self).window().body.len(),
                parsed->Ok_0.metadata(),
            ),
            parsed is Ok ==> final(self).window() == window_after_parse(
                old(self).window(),
                parsed->Ok_0.metadata(),
                Self::retains(),
            ),
    {
        self.parse_with(())
    }

    /// Parses a packet with arguments: like `parse`, with `args` handed on
    /// to the packet type.
    fn parse_with<'a, ParseArgs, P: ParsablePacket<&'a [u8], ParseArgs>>(
        &'a mut self,
        args: ParseArgs,
    ) -> (parsed: Result<P, P::Error>)
        requires
            old(self).wf(),
        ensures
            final(self).wf(),
            parsed is Ok <==> P::layout(old(self).window().body, args) is Some,
            parsed is Ok ==> P::layout(old(self).window().body, args) == Some(
                parsed->Ok_0.metadata(),
            ),
            parsed is Err ==> final(self).window() == old(self).window(),
            parsed is Ok ==> parsed_leaves_body(
                old(self).window().body.len(),
                parsed->Ok_0.metadata(),
            ),
            parsed is Ok ==> final(self).window() == window_after_parse(
                old(self).window(),
                parsed->Ok_0.metadata(),
                Self::retains(),
            ),
    ;

    /// Creates a `Buf` over a byte slice which is equivalent to this
    /// buffer.
    fn as_buf(&self) -> (buf: Buf<&[u8]>)
        requires
            self.wf(),
        ensures
            buf.valid(),
            buf.layout().body == self.window().body,
            Self::retains() ==> buf.layout() == self.window(),
            !Self::retains() ==> buf.layout() == Window::of_body(self.window().body),
    ;
}

/// The window that a buffer with window `w` has once a packet with the
/// lengths of `meta` has been parsed from its body: the packet's body, with
/// what was around it in the prefix and suffix if the buffer keeps them.
pub open spec fn window_after_parse(w: Window, meta: ParseMetadata, retains: bool) -> Window {
    if retains {
        w.shrink(meta.header_len as int, meta.header_len + meta.body_len)
    } else {
        w.discard(meta.header_len as int, meta.header_len + meta.body_len)
    }
}

/// A [`ParseBuffer`] which provides mutable access to its contents.
pub trait ParseBufferMut: ParseBuffer {
    /// The body, for writing. Prefix and suffix stay as they are.
    fn as_bytes_mut(&mut self) -> (body: &mut [u8])
        requires
            old(self).wf(),
        ensures
            body@ == old(self).window().body,
            final(self).wf(),
            final(self).window() == (Window {
                prefix: old(self).window().prefix,
                body: final(body)@,
                suffix: old(self).window().suffix,
            }),
    ;

    /// Parses a mutable packet from the body. The packet may write to the
    /// regions that it took, so of the window afterwards the lengths are
    /// told, and the bytes of what was prefix and suffix before.
    fn parse_mut<'a, P: ParsablePacket<&'a mut [u8], ()>>(&'a mut self) -> (parsed: Result<
        P,
        P::Error,
    >)
        requires
            old(self).wf(),
        ensures
            final(self).wf(),
            parsed is Ok <==> P::layout(old(self).window().body, ()) is Some,
            parsed is Ok ==> P::layout(old(self).window().body, ()) == Some(
                parsed->Ok_0.metadata(),
            ),
            final(self).window().extends(old(self).window()),
            parsed is Err ==> final(self).window() == old(self).window(),
            parsed is Ok ==> parsed_leaves_body(
                old(self).window().body.len(),
                parsed->Ok_0.metadata(),
            ),
            parsed is Ok ==> final(self).window().same_lengths(
                window_after_parse(old(self).window(), parsed->Ok_0.metadata(), Self::retains()),
            ),
    {
        self.parse_with_mut(())
    }

    /// Parses a mutable packet with arguments.
    fn parse_with_mut<'a, ParseArgs, P: ParsablePacket<&'a mut [u8], ParseArgs>>(
        &'a mut self,
        args: ParseArgs,
    ) -> (parsed: Result<P, P::Error>)
        requires
            old(self).wf(),
        ensures
            final(self).wf(),
            parsed is Ok <==> P::layout(old(self).window().body, args) is Some,
            parsed is Ok ==> P::layout(old(self).window().body, args) == Some(
                parsed->Ok_0.metadata(),
            ),
            final(self).window().extends(old(self).window()),
            parsed is Err ==> final(self).window() == old(self).window(),
            parsed is Ok ==> parsed_leaves_body(
                old(self).window().body.len(),
                parsed->Ok_0.metadata(),
            ),
            parsed is Ok ==> final(self).window().same_lengths(
                window_after_parse(old(self).window(), parsed->Ok_0.metadata(), Self::retains()),
            ),
    ;

    /// Creates a `Buf` over a mutable byte slice which is equivalent to
    /// this buffer. What is written to it is written to this buffer: when
    /// the `Buf` is done with, this buffer has the window that it had, over
    /// the bytes as the `Buf` leaves them. Moving the `Buf`'s window does
    /// not move this buffer's.
    fn as_buf_mut(&mut self) -> (buf: Buf<&mut [u8]>)
        requires
            old(self).wf(),
        ensures
            buf.valid(),
            buf.layout().body == old(self).window().body,
            Self::retains() ==> buf.layout() == old(self).window(),
            !Self::retains() ==> buf.layout() == Window::of_body(old(self).window().body),
            final(self).wf(),
            final(buf.buf)@.len() == buf.buf@.len(),
            final(self).window() == Window::of_range(final(buf.buf)@, buf.start(), buf.end()),
    ;
}

/// A byte buffer used for parsing and serialization: a [`ParseBuffer`] that
/// never discards bytes, so that its body can grow back.
pub trait Buffer: ParseBuffer {
    /// A `Buffer` keeps the bytes that leave its body.
    proof fn buffer_retains()
        ensures
            Self::retains(),
    ;

    /// The size of the whole region fits the machine.
    proof fn capacity_fits(&self)
        requires
            self.wf(),
        ensures
            self.window().capacity() <= usize::MAX,
    ;

    /// The capacity of the buffer: the lengths of prefix, body and suffix
    /// together.
    fn capacity(&self) -> (n: usize)
        requires
            self.wf(),
        ensures
            n == self.window().capacity(),
    {
        proof {
            self.capacity_fits();
        }
        self.prefix_len() + self.len() + self.suffix_len()
    }

    /// The length of the prefix.
    fn prefix_len(&self) -> (n: usize)
        requires
            self.wf(),
        ensures
            n == self.window().prefix.len(),
    ;

    /// The length of the suffix.
    fn suffix_len(&self) -> (n: usize)
        requires
            self.wf(),
        ensures
            n == self.window().suffix.len(),
    ;

    /// Grows the front of the body towards the beginning of the buffer: the
    /// right-most `n` bytes of the prefix enter the body.
    fn grow_front(&mut self, n: usize)
        requires
            old(self).wf(),
            n <= old(self).window().prefix.len(),
        ensures
            final(self).wf(),
            final(self).window() == old(self).window().grow_front(n as int),
    ;

    /// Grows the back of the body towards the end of the buffer: the
    /// left-most `n` bytes of the suffix enter the body.
    fn grow_back(&mut self, n: usize)
        requires
            old(self).wf(),
            n <= old(self).window().suffix.len(),
        ensures
            final(self).wf(),
            final(self).window() == old(self).window().grow_back(n as int),
    ;

    /// Resets the body to be equal to the entire buffer.
    fn reset(&mut self)
        requires
            old(self).wf(),
        ensures
            final(self).wf(),
            final(self).window() == old(self).window().reset(),
    {
        let prefix = self.prefix_len();
        let suffix = self.suffix_len();
        proof {
            lemma_reset_by_growing(old(self).window());
        }
        self.grow_front(prefix);
        self.grow_back(suffix);
    }

    /// Undoes the effects of a previous parse in preparation for
    /// serialization: the padding that an inner parse stripped, then the
    /// header, then the footer return to the body.
    fn undo_parse(&mut self, meta: ParseMetadata)
        requires
            old(self).wf(),
            old(self).window().can_undo_parse(meta),
        ensures
            final(self).wf(),
            final(self).window() == old(self).window().undo_parse(meta),
    {
        proof {
            lemma_undo_parse_by_growing(old(self).window(), meta);
        }
        if self.len() < meta.body_len {
            let len = self.len();
            self.grow_back(meta.body_len - len);
        }
        self.grow_front(meta.header_len);
        self.grow_back(meta.footer_len);
    }
}

/// A [`Buffer`] which provides mutable access to its contents.
pub trait BufferMut: Buffer + ParseBufferMut {
    /// Extends the front of the body towards the beginning of the buffer,
    /// zeroing the new bytes, so that nothing of what the buffer held
    /// before shows in them.
    fn grow_front_zero(&mut self, n: usize)
        requires
            old(self).wf(),
            n <= old(self).window().prefix.len(),
        ensures
            final(self).wf(),
            final(self).window() == old(self).window().grow_front_zero(n as int),
    {
        self.grow_front(n);
        let body = self.as_bytes_mut();
        let (fresh, rest) = body.split_at_mut(n);
        zero(fresh);
        proof {
            assert(self.window().body =~= old(self).window().grow_front_zero(n as int).body);
        }
    }

    /// Extends the back of the body towards the end of the buffer, zeroing
    /// the new bytes.
    fn grow_back_zero(&mut self, n: usize)
        requires
            old(self).wf(),
            n <= old(self).window().suffix.len(),
        ensures
            final(self).wf(),
            final(self).window() == old(self).window().grow_back_zero(n as int),
    {
        let old_len = self.len();
        self.grow_back(n);
        let body = self.as_bytes_mut();
        let (rest, fresh) = body.split_at_mut(old_len);
        zero(fresh);
        proof {
            assert(self.window().body =~= old(self).window().grow_back_zero(n as int).body);
        }
    }

    /// Resets the body to be equal to the entire buffer, zeroing the bytes
    /// that enter it.
    fn reset_zero(&mut self)
        requires
            old(self).wf(),
        ensures
            final(self).wf(),
            final(self).window() == old(self).window().reset_zero(),
    {
        let prefix = self.prefix_len();
        let suffix = self.suffix_len();
        self.grow_front_zero(prefix);
        self.grow_back_zero(suffix);
        proof {
            let w = old(self).window();
            assert(self.window().prefix =~= w.reset_zero().prefix);
            assert(self.window().body =~= w.reset_zero().body);
            assert(self.window().suffix =~= w.reset_zero().suffix);
        }
    }
}

} // verus!
