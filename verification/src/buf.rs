//! `Buf`: a buffer over one fixed backing byte region, of which it keeps
//! the whole capacity.

use crate::buffer::{Buffer, BufferMut, ParseBuffer, ParseBufferMut};
use crate::bytes::{subslice_mut, take_back, take_back_mut, take_front, take_front_mut};
use crate::packet::ParsablePacket;
use crate::range::{canonicalize_range, range_within, BodyRange};
use crate::region::{ByteRegion, Object};
use crate::view::{
    is_rest_of, lemma_rest_of_itself, lemma_rest_of_rest, BufferView, BufferViewMut,
};
use crate::window::Window;
use core::ops::Range;
use vstd::prelude::*;
use vstd::slice::slice_subrange;
use zerocopy::Unaligned;

verus! {

/// A byte region that can back a [`Buf`].
pub trait Backing {
    /// The bytes of the region.
    spec fn bytes(&self) -> Seq<u8>;

    /// The region as a slice.
    fn backing_bytes(&self) -> (bytes: &[u8])
        ensures
            bytes@ == self.bytes(),
    ;
}

impl Backing for Vec<u8> {
    open spec fn bytes(&self) -> Seq<u8> {
        self@
    }

    fn backing_bytes(&self) -> (bytes: &[u8]) {
        self.as_slice()
    }
}

impl<'a> Backing for &'a [u8] {
    open spec fn bytes(&self) -> Seq<u8> {
        self@
    }

    fn backing_bytes(&self) -> (bytes: &[u8]) {
        *self
    }
}

impl<'a> Backing for &'a mut [u8] {
    open spec fn bytes(&self) -> Seq<u8> {
        self@
    }

    fn backing_bytes(&self) -> (bytes: &[u8]) {
        &**self
    }
}

/// A byte region that can back a [`Buf`] whose contents can be written.
pub trait BackingMut: Backing {
    /// The region as a mutable slice.
    fn backing_bytes_mut(&mut self) -> (bytes: &mut [u8])
        ensures
            bytes@ == old(self).bytes(),
            final(self).bytes() == final(bytes)@,
    ;
}

impl BackingMut for Vec<u8> {
    fn backing_bytes_mut(&mut self) -> (bytes: &mut [u8]) {
        self.as_mut_slice()
    }
}

impl<'a> BackingMut for &'a mut [u8] {
    fn backing_bytes_mut(&mut self) -> (bytes: &mut [u8]) {
        &mut **self
    }
}

/// A [`Buffer`] made of a backing region and the range of it that is the
/// body. What lies before the range is the prefix, what lies after it the
/// suffix. Shrinking and growing only move the two ends of the range.
pub struct Buf<B> {
    pub buf: B,
    pub range: Range<usize>,
}

impl<B: Backing> Buf<B> {
    /// The backing region.
    pub open spec fn backing(&self) -> Seq<u8> {
        self.buf.bytes()
    }

    /// Where the body starts in the backing region.
    pub open spec fn start(&self) -> int {
        self.range.start as int
    }

    /// Where the body ends in the backing region.
    pub open spec fn end(&self) -> int {
        self.range.end as int
    }

    /// The buffer's invariant: the body is a range of the backing region.
    pub open spec fn valid(&self) -> bool {
        self.range.start <= self.range.end <= self.buf.bytes().len() <= usize::MAX
    }

    /// The prefix, body and suffix that the range cuts the backing region
    /// into.
    pub open spec fn layout(&self) -> Window {
        Window::of_range(self.backing(), self.start(), self.end())
    }

    /// Creates a buffer over `buf` whose body is `range` of it.
    pub fn new<R: BodyRange>(buf: B, range: R) -> (created: Buf<B>)
        requires
            range_within(buf.bytes().len() as int, &range),
        ensures
            created.valid(),
            created.buf == buf,
            created.backing() == buf.bytes(),
            created.start() == range.start_index(),
            created.end() == range.end_index(buf.bytes().len() as int),
    {
        let len = buf.backing_bytes().len();
        let range = canonicalize_range(len, &range);
        Buf { buf, range }
    }

    /// A view of the body. What is taken from the view leaves the body of
    /// this buffer: when the view is done with, the body is what the view
    /// has left, and what it handed out lies in the prefix and the suffix.
    pub fn buffer_view(&mut self) -> (view: BufView<'_, '_>)
        requires
            old(self).valid(),
        ensures
            view.wf(),
            view.body() == old(self).layout().body,
            view.start() == old(self).start(),
            view.end() == old(self).end(),
            final(self).backing() == old(self).backing(),
            final(self).start() == final(view.range).start,
            final(self).end() == final(view.range).end,
            old(self).start() <= final(view.range).start <= final(view.range).end <= old(
                self,
            ).end() ==> final(self).valid(),
    {
        BufView {
            buf: slice_subrange(self.buf.backing_bytes(), self.range.start, self.range.end),
            range: &mut self.range,
        }
    }
}

/// A view of the body of a [`Buf`], which hands out shared regions. It
/// holds what is left of the body and the range of the backing region that
/// this is; taking bytes moves the ends of that range inwards.
pub struct BufView<'a, 'r> {
    pub buf: &'a [u8],
    pub range: &'r mut Range<usize>,
}

impl<'a, 'r> BufView<'a, 'r> {
    /// Where what is left starts in the backing region.
    pub open spec fn start(&self) -> int {
        self.range.start as int
    }

    /// Where what is left ends in the backing region.
    pub open spec fn end(&self) -> int {
        self.range.end as int
    }
}

impl<'a, 'r> BufferView<&'a [u8]> for BufView<'a, 'r> {
    open spec fn wf(&self) -> bool {
        &&& self.range.start <= self.range.end
        &&& self.buf@.len() == self.range.end - self.range.start
    }

    open spec fn body(&self) -> Seq<u8> {
        self.buf@
    }

    open spec fn is_rest_after(&self, earlier: &Self, front: int, back: int) -> bool {
        &&& self.start() == earlier.start() + front
        &&& self.end() == earlier.end() - back
        &&& is_rest_of(self.body(), earlier.body(), front, back)
    }

    proof fn rest_after_nothing(&self) {
        lemma_rest_of_itself(self.body());
    }

    proof fn rest_after_both(
        &self,
        middle: &Self,
        earlier: &Self,
        front: int,
        back: int,
        more_front: int,
        more_back: int,
    ) {
        lemma_rest_of_rest(
            self.body(),
            middle.body(),
            earlier.body(),
            front,
            back,
            more_front,
            more_back,
        );
    }

    proof fn rest_after_body(&self, earlier: &Self, front: int, back: int) {
    }

    fn as_bytes(&self) -> (body: &[u8]) {
        self.buf
    }

    fn take_front(&mut self, n: usize) -> (taken: Option<&'a [u8]>)
        ensures
            *final(final(self).range) == *final(old(self).range),
    {
        if self.buf.len() < n {
            proof {
                lemma_rest_of_itself(self.body());
            }
            return None;
        }
        self.range.start = self.range.start + n;
        Some(take_front(&mut self.buf, n))
    }

    fn take_back(&mut self, n: usize) -> (taken: Option<&'a [u8]>)
        ensures
            *final(final(self).range) == *final(old(self).range),
    {
        if self.buf.len() < n {
            proof {
                lemma_rest_of_itself(self.body());
            }
            return None;
        }
        self.range.end = self.range.end - n;
        Some(take_back(&mut self.buf, n))
    }

    fn take_rest_front(&mut self) -> (rest: &'a [u8])
        ensures
            *final(final(self).range) == *final(old(self).range),
    {
        let rest = self.buf;
        self.range.start = self.range.end;
        take_front(&mut self.buf, rest.len());
        proof {
            assert(rest@.subrange(0, rest@.len() as int) =~= rest@);
        }
        rest
    }

    fn take_rest_back(&mut self) -> (rest: &'a [u8])
        ensures
            *final(final(self).range) == *final(old(self).range),
    {
        let rest = self.buf;
        self.range.end = self.range.start;
        take_back(&mut self.buf, rest.len());
        proof {
            assert(rest@.subrange(0, rest@.len() as int) =~= rest@);
        }
        rest
    }

    fn into_rest(self) -> (rest: &'a [u8])
        ensures
            *final(self.range) == *old(self.range),
    {
        self.buf
    }

    fn take_obj_front<T: Unaligned>(&mut self) -> (object: Option<Object<&'a [u8], T>>)
        ensures
            *final(final(self).range) == *final(old(self).range),
    {
        match self.take_front(core::mem::size_of::<T>()) {
            Some(bytes) => bytes.into_object::<T>(),
            None => None,
        }
    }

    fn take_obj_back<T: Unaligned>(&mut self) -> (object: Option<Object<&'a [u8], T>>)
        ensures
            *final(final(self).range) == *final(old(self).range),
    {
        match self.take_back(core::mem::size_of::<T>()) {
            Some(bytes) => bytes.into_object::<T>(),
            None => None,
        }
    }
}

impl<B: Backing> ParseBuffer for Buf<B> {
    open spec fn wf(&self) -> bool {
        self.valid()
    }

    open spec fn window(&self) -> Window {
        self.layout()
    }

    open spec fn retains() -> bool {
        true
    }

    fn as_bytes(&self) -> (body: &[u8]) {
        slice_subrange(self.buf.backing_bytes(), self.range.start, self.range.end)
    }

    fn len(&self) -> (n: usize) {
        self.range.end - self.range.start
    }

    fn shrink_front(&mut self, n: usize) {
        self.range.start = self.range.start + n;
        proof {
            let before = old(self).window();
            let after = self.window();
            assert(after.prefix =~= before.shrink_front(n as int).prefix);
            assert(after.body =~= before.shrink_front(n as int).body);
        }
    }

    fn shrink_back(&mut self, n: usize) {
        self.range.end = self.range.end - n;
        proof {
            let before = old(self).window();
            let after = self.window();
            assert(after.body =~= before.shrink_back(n as int).body);
            assert(after.suffix =~= before.shrink_back(n as int).suffix);
        }
    }

    fn parse_with<'b, ParseArgs, P: ParsablePacket<&'b [u8], ParseArgs>>(
        &'b mut self,
        args: ParseArgs,
    ) -> (parsed: Result<P, P::Error>) {
        let body: &'b [u8] = slice_subrange(
            self.buf.backing_bytes(),
            self.range.start,
            self.range.end,
        );
        let mut left = self.range.start..self.range.end;
        let mut view = BufView { buf: body, range: &mut left };
        let parsed = P::parse(&mut view, args);
        let start = view.range.start;
        let end = view.range.end;
        self.range.start = start;
        self.range.end = end;
        proof {
            let before = old(self).window();
            let after = self.window();
            if parsed is Ok {
                let meta = parsed->Ok_0.metadata();
                let lower = meta.header_len as int;
                let upper = meta.header_len + meta.body_len;
                assert(after.prefix =~= before.shrink(lower, upper).prefix);
                assert(after.body =~= before.shrink(lower, upper).body);
                assert(after.suffix =~= before.shrink(lower, upper).suffix);
            }
        }
        parsed
    }

    fn as_buf(&self) -> (buf: Buf<&[u8]>) {
        Buf { buf: self.buf.backing_bytes(), range: self.range.start..self.range.end }
    }
}

impl<B: Backing> Buffer for Buf<B> {
    proof fn buffer_retains() {
    }

    proof fn capacity_fits(&self) {
    }

    fn capacity(&self) -> (n: usize) {
        self.buf.backing_bytes().len()
    }

    fn prefix_len(&self) -> (n: usize) {
        self.range.start
    }

    fn suffix_len(&self) -> (n: usize) {
        self.buf.backing_bytes().len() - self.range.end
    }

    fn grow_front(&mut self, n: usize) {
        self.range.start = self.range.start - n;
        proof {
            let before = old(self).window();
            let after = self.window();
            assert(after.prefix =~= before.grow_front(n as int).prefix);
            assert(after.body =~= before.grow_front(n as int).body);
        }
    }

    fn grow_back(&mut self, n: usize) {
        self.range.end = self.range.end + n;
        proof {
            let before = old(self).window();
            let after = self.window();
            assert(after.body =~= before.grow_back(n as int).body);
            assert(after.suffix =~= before.grow_back(n as int).suffix);
        }
    }
}

impl<B: BackingMut> ParseBufferMut for Buf<B> {
    fn as_bytes_mut(&mut self) -> (body: &mut [u8]) {
        let start = self.range.start;
        let end = self.range.end;
        let whole = self.buf.backing_bytes_mut();
        let body = subslice_mut(whole, start, end);
        proof {
            let backing = old(self).buf.bytes();
            let written = backing.subrange(0, start as int) + final(body)@ + backing.subrange(
                end as int,
                backing.len() as int,
            );
            assert(written.subrange(0, start as int) =~= backing.subrange(0, start as int));
            assert(written.subrange(start as int, end as int) =~= final(body)@);
            assert(written.subrange(end as int, written.len() as int) =~= backing.subrange(
                end as int,
                backing.len() as int,
            ));
        }
        body
    }

    fn parse_with_mut<'b, ParseArgs, P: ParsablePacket<&'b mut [u8], ParseArgs>>(
        &'b mut self,
        args: ParseArgs,
    ) -> (parsed: Result<P, P::Error>) {
        let start = self.range.start;
        let end = self.range.end;
        let whole: &'b mut [u8] = self.buf.backing_bytes_mut();
        let body: &'b mut [u8] = subslice_mut(whole, start, end);
        let ghost backing = old(self).buf.bytes();
        let ghost body_written = final(body)@;
        let ghost written = backing.subrange(0, start as int) + body_written + backing.subrange(
            end as int,
            backing.len() as int,
        );
        let mut view = BufViewMut { bytes: body, front: 0, back: 0 };
        let parsed = P::parse_mut(&mut view, args);
        let front = view.front;
        let back = view.back;
        self.range.start = start + front;
        self.range.end = end - back;
        proof {
            lemma_written_body_extends(
                backing,
                written,
                body_written,
                start as int,
                end as int,
                front as int,
                back as int,
            );
            if parsed is Err {
                assert(body_written == backing.subrange(start as int, end as int));
                assert(written =~= backing);
            }
        }
        parsed
    }

    fn as_buf_mut(&mut self) -> (buf: Buf<&mut [u8]>) {
        let start = self.range.start;
        let end = self.range.end;
        let whole = self.buf.backing_bytes_mut();
        let len = <[u8]>::len(whole);
        let all = subslice_mut(whole, 0, len);
        proof {
            assert(old(self).buf.bytes().subrange(0, 0) + final(all)@ + old(
                self,
            ).buf.bytes().subrange(len as int, len as int) =~= final(all)@);
            assert(all@ =~= old(self).buf.bytes());
        }
        Buf { buf: all, range: start..end }
    }
}

impl<B: BackingMut> BufferMut for Buf<B> {
}

/// Writing to the body of a window and then narrowing it leaves what was
/// prefix and suffix before as they were, at the outer ends of the new
/// prefix and suffix.
proof fn lemma_written_body_extends(
    backing: Seq<u8>,
    written: Seq<u8>,
    body: Seq<u8>,
    start: int,
    end: int,
    front: int,
    back: int,
)
    requires
        0 <= start <= end <= backing.len(),
        0 <= front,
        0 <= back,
        front + back <= end - start,
        body.len() == end - start,
        written == backing.subrange(0, start) + body + backing.subrange(
            end,
            backing.len() as int,
        ),
    ensures
        Window::of_range(written, start + front, end - back).extends(
            Window::of_range(backing, start, end),
        ),
{
    let before = Window::of_range(backing, start, end);
    let after = Window::of_range(written, start + front, end - back);
    assert(after.prefix.take(start) =~= before.prefix);
    assert(after.suffix.skip(after.suffix.len() - before.suffix.len()) =~= before.suffix);
}

/// A view of the body of a [`Buf`], which hands out mutable regions and
/// counts what it has handed out from either end.
pub struct BufViewMut<'a> {
    bytes: &'a mut [u8],
    front: usize,
    back: usize,
}

impl<'a> BufViewMut<'a> {
    /// How many bytes have been taken from the front.
    pub closed spec fn taken_front(&self) -> int {
        self.front as int
    }

    /// How many bytes have been taken from the back.
    pub closed spec fn taken_back(&self) -> int {
        self.back as int
    }
}

impl<'a> BufferView<&'a mut [u8]> for BufViewMut<'a> {
    closed spec fn wf(&self) -> bool {
        self.front + self.bytes@.len() + self.back <= usize::MAX
    }

    closed spec fn body(&self) -> Seq<u8> {
        self.bytes@
    }

    open spec fn is_rest_after(&self, earlier: &Self, front: int, back: int) -> bool {
        &&& self.taken_front() == earlier.taken_front() + front
        &&& self.taken_back() == earlier.taken_back() + back
        &&& is_rest_of(self.body(), earlier.body(), front, back)
    }

    proof fn rest_after_nothing(&self) {
        lemma_rest_of_itself(self.body());
    }

    proof fn rest_after_both(
        &self,
        middle: &Self,
        earlier: &Self,
        front: int,
        back: int,
        more_front: int,
        more_back: int,
    ) {
        lemma_rest_of_rest(
            self.body(),
            middle.body(),
            earlier.body(),
            front,
            back,
            more_front,
            more_back,
        );
    }

    proof fn rest_after_body(&self, earlier: &Self, front: int, back: int) {
    }

    fn as_bytes(&self) -> (body: &[u8]) {
        &*self.bytes
    }

    fn take_front(&mut self, n: usize) -> (taken: Option<&'a mut [u8]>) {
        if <[u8]>::len(&*self.bytes) < n {
            proof {
                lemma_rest_of_itself(self.body());
            }
            return None;
        }
        self.front = self.front + n;
        Some(take_front_mut(&mut self.bytes, n))
    }

    fn take_back(&mut self, n: usize) -> (taken: Option<&'a mut [u8]>) {
        if <[u8]>::len(&*self.bytes) < n {
            proof {
                lemma_rest_of_itself(self.body());
            }
            return None;
        }
        self.back = self.back + n;
        Some(take_back_mut(&mut self.bytes, n))
    }

    fn into_rest(self) -> (rest: &'a mut [u8]) {
        self.bytes
    }
}

impl<'a> BufferViewMut<&'a mut [u8]> for BufViewMut<'a> {
}

} // verus!
