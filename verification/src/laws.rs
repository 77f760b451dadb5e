//! What holds of every window, whatever sequence of moves it goes through.

use crate::buffer::window_after_parse;
use crate::metadata::ParseMetadata;
use crate::packet::parsed_leaves_body;
use crate::window::Window;
use vstd::prelude::*;

verus! {

/// One move of a window's boundaries.
pub enum WindowOp {
    ShrinkFront(nat),
    ShrinkBack(nat),
    Shrink(nat, nat),
    GrowFront(nat),
    GrowBack(nat),
    GrowFrontZero(nat),
    GrowBackZero(nat),
    Reset,
    ResetZero,
    UndoParse(ParseMetadata),
}

impl WindowOp {
    /// Whether the move is allowed on `w`: it stays within the body when
    /// shrinking, within the prefix or suffix when growing.
    pub open spec fn allowed(self, w: Window) -> bool {
        match self {
            WindowOp::ShrinkFront(n) => n <= w.body.len(),
            WindowOp::ShrinkBack(n) => n <= w.body.len(),
            WindowOp::Shrink(lower, upper) => lower <= upper <= w.body.len(),
            WindowOp::GrowFront(n) => n <= w.prefix.len(),
            WindowOp::GrowBack(n) => n <= w.suffix.len(),
            WindowOp::GrowFrontZero(n) => n <= w.prefix.len(),
            WindowOp::GrowBackZero(n) => n <= w.suffix.len(),
            WindowOp::Reset => true,
            WindowOp::ResetZero => true,
            WindowOp::UndoParse(meta) => w.can_undo_parse(meta),
        }
    }

    /// The window after the move.
    pub open spec fn apply(self, w: Window) -> Window {
        match self {
            WindowOp::ShrinkFront(n) => w.shrink_front(n as int),
            WindowOp::ShrinkBack(n) => w.shrink_back(n as int),
            WindowOp::Shrink(lower, upper) => w.shrink(lower as int, upper as int),
            WindowOp::GrowFront(n) => w.grow_front(n as int),
            WindowOp::GrowBack(n) => w.grow_back(n as int),
            WindowOp::GrowFrontZero(n) => w.grow_front_zero(n as int),
            WindowOp::GrowBackZero(n) => w.grow_back_zero(n as int),
            WindowOp::Reset => w.reset(),
            WindowOp::ResetZero => w.reset_zero(),
            WindowOp::UndoParse(meta) => w.undo_parse(meta),
        }
    }

    /// Whether the move leaves every byte of the region as it is.
    pub open spec fn keeps_contents(self) -> bool {
        match self {
            WindowOp::GrowFrontZero(_) => false,
            WindowOp::GrowBackZero(_) => false,
            WindowOp::ResetZero => false,
            _ => true,
        }
    }
}

/// Whether each move of `ops` is allowed on the window that the moves
/// before it lead to, starting from `w`.
pub open spec fn all_allowed(w: Window, ops: Seq<WindowOp>) -> bool
    decreases ops.len(),
{
    if ops.len() == 0 {
        true
    } else {
        ops[0].allowed(w) && all_allowed(ops[0].apply(w), ops.skip(1))
    }
}

/// The window that the moves of `ops`, made in order, lead to from `w`.
pub open spec fn apply_all(w: Window, ops: Seq<WindowOp>) -> Window
    decreases ops.len(),
{
    if ops.len() == 0 {
        w
    } else {
        apply_all(ops[0].apply(w), ops.skip(1))
    }
}

/// No single move changes the capacity: prefix, body and suffix together
/// are as long after it as before.
pub proof fn lemma_move_keeps_capacity(w: Window, op: WindowOp)
    requires
        op.allowed(w),
    ensures
        op.apply(w).capacity() == w.capacity(),
{
}

/// A move that does not zero anything leaves the bytes of the region, read
/// from the start of the prefix to the end of the suffix, as they are.
pub proof fn lemma_move_keeps_backing(w: Window, op: WindowOp)
    requires
        op.allowed(w),
        op.keeps_contents(),
    ensures
        op.apply(w).backing() == w.backing(),
{
    assert(op.apply(w).backing() =~= w.backing());
}

/// The window invariant: after any sequence of allowed moves the lengths
/// of prefix, body and suffix still add up to the capacity that the window
/// started with.
pub proof fn lemma_capacity_is_invariant(w: Window, ops: Seq<WindowOp>)
    requires
        all_allowed(w, ops),
    ensures
        apply_all(w, ops).capacity() == w.capacity(),
    decreases ops.len(),
{
    if ops.len() > 0 {
        lemma_move_keeps_capacity(w, ops[0]);
        lemma_capacity_is_invariant(ops[0].apply(w), ops.skip(1));
    }
}

/// Whether no move of `ops` zeroes anything.
pub open spec fn all_keep_contents(ops: Seq<WindowOp>) -> bool {
    forall|i: int| 0 <= i < ops.len() ==> (#[trigger] ops[i]).keeps_contents()
}

/// Moves that zero nothing never change a byte of the region: after any
/// sequence of them the region reads as it did at first, from the start of
/// the prefix to the end of the suffix.
pub proof fn lemma_backing_is_invariant(w: Window, ops: Seq<WindowOp>)
    requires
        all_allowed(w, ops),
        all_keep_contents(ops),
    ensures
        apply_all(w, ops).backing() == w.backing(),
    decreases ops.len(),
{
    if ops.len() > 0 {
        lemma_move_keeps_backing(w, ops[0]);
        assert forall|i: int| 0 <= i < ops.skip(1).len() implies (#[trigger] ops.skip(
            1,
        )[i]).keeps_contents() by {
            assert(ops.skip(1)[i] == ops[i + 1]);
        }
        lemma_backing_is_invariant(ops[0].apply(w), ops.skip(1));
    }
}

/// Shrinking the front by `a` and the back by `b`, then growing the back
/// by `b` and the front by `a`, gives back the window that one started
/// with: the same body, byte for byte, between the same prefix and suffix.
pub proof fn lemma_grow_undoes_shrink(w: Window, a: nat, b: nat)
    requires
        a + b <= w.body.len(),
    ensures
        w.shrink_front(a as int).shrink_back(b as int).grow_back(b as int).grow_front(a as int)
            == w,
{
    let back = w.shrink_front(a as int).shrink_back(b as int).grow_back(b as int).grow_front(
        a as int,
    );
    assert(back.prefix =~= w.prefix);
    assert(back.body =~= w.body);
    assert(back.suffix =~= w.suffix);
}

/// A plain byte range keeps nothing of what leaves its body: after a
/// shrink it is the range of the bytes that remain and no more. Two ranges
/// that agree on what remains cannot be told apart afterwards, whatever
/// was dropped from either, so nothing can bring the dropped bytes back.
pub proof fn lemma_discarded_bytes_are_gone(first: Seq<u8>, second: Seq<u8>, m: nat, n: nat)
    requires
        m <= first.len(),
        n <= second.len(),
        first.skip(m as int) == second.skip(n as int),
    ensures
        Window::of_body(first).discard_front(m as int) == Window::of_body(first.skip(m as int)),
        Window::of_body(first).discard_front(m as int) == Window::of_body(second).discard_front(
            n as int,
        ),
{
}

/// Undoing a parse brings back the padding that is missing from the body,
/// and exactly that much: afterwards the body holds the header, what the
/// packet's body had with its padding, and the footer.
pub proof fn lemma_undo_parse_restores_padding(w: Window, meta: ParseMetadata)
    requires
        w.can_undo_parse(meta),
        w.body.len() < meta.body_len,
    ensures
        w.padding(meta) == meta.body_len - w.body.len(),
        w.undo_parse(meta) == w.grow_back(meta.body_len - w.body.len()).grow_front(
            meta.header_len as int,
        ).grow_back(meta.footer_len as int),
        w.undo_parse(meta).body.len() == meta.header_len + meta.body_len + meta.footer_len,
        w.undo_parse(meta).body.subrange(
            meta.header_len as int,
            meta.header_len + meta.body_len,
        ) == w.body + w.suffix.take(meta.body_len - w.body.len()),
{
    crate::window::lemma_undo_parse_by_growing(w, meta);
    assert(w.undo_parse(meta).body.subrange(
        meta.header_len as int,
        meta.header_len + meta.body_len,
    ) =~= w.body + w.suffix.take(meta.body_len - w.body.len()));
}

/// Parsing a packet from a buffer that keeps its bytes and then undoing the
/// parse brings the packet back as the body: its header, its body and its
/// footer, between the prefix that was there before and a suffix that now
/// begins with the padding that followed the packet.
pub proof fn lemma_undo_parse_restores_packet(w: Window, meta: ParseMetadata)
    requires
        parsed_leaves_body(w.body.len(), meta),
    ensures
        window_after_parse(w, meta, true).can_undo_parse(meta),
        window_after_parse(w, meta, true).undo_parse(meta) == w.shrink(
            0,
            meta.header_len + meta.body_len + meta.footer_len,
        ),
        window_after_parse(w, meta, true).capacity() == w.capacity(),
{
    let parsed = window_after_parse(w, meta, true);
    let restored = parsed.undo_parse(meta);
    let packet = w.shrink(0, meta.header_len + meta.body_len + meta.footer_len);
    assert(restored.prefix =~= packet.prefix);
    assert(restored.body =~= packet.body);
    assert(restored.suffix =~= packet.suffix);
}

} // verus!
