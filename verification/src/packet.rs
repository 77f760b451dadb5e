//! The contract between a buffer and the packets that are parsed from it.

use crate::metadata::ParseMetadata;
use crate::region::{ByteRegion, ByteRegionMut};
use crate::view::{BufferView, BufferViewMut};
use vstd::prelude::*;

verus! {

/// A packet which can be parsed from a buffer.
///
/// A packet that encapsulates another takes its header from the front of
/// the view and its footer from the back, and leaves its body in the view
/// for the next packet to be parsed from. A packet that encapsulates
/// nothing takes all that the view has, from the front. Either takes from
/// the back, with its footer, the padding that follows it, if it can tell.
pub trait ParsablePacket<B: ByteRegion, ParseArgs>: Sized {
    /// The type of errors returned from `parse` and `parse_mut`.
    type Error;

    /// What parsing finds in `body`, given `args`: the lengths of the
    /// header, the body and the footer of the packet that `body` holds, or
    /// nothing where it holds no such packet.
    spec fn layout(body: Seq<u8>, args: ParseArgs) -> Option<ParseMetadata>;

    /// The lengths of the header, body and footer that parsing this packet
    /// found.
    spec fn metadata(&self) -> ParseMetadata;

    /// Parses a packet from a view.
    ///
    /// Parsing succeeds exactly where `layout` finds a packet in what the
    /// view has, and the packet then has the lengths that `layout` found.
    /// On success the view is left with the packet's body: its header has
    /// been taken from the front, and its footer, with any padding after
    /// it, from the back. On failure nothing has been taken.
    fn parse<BV: BufferView<B>>(buffer: &mut BV, args: ParseArgs) -> (parsed: Result<
        Self,
        Self::Error,
    >)
        requires
            old(buffer).wf(),
        ensures
            final(buffer).wf(),
            parsed is Ok <==> Self::layout(old(buffer).body(), args) is Some,
            parsed is Ok ==> Self::layout(old(buffer).body(), args) == Some(
                parsed->Ok_0.metadata(),
            ),
            parsed is Err ==> *final(buffer) == *old(buffer),
            parsed is Err ==> final(buffer).is_rest_after(old(buffer), 0, 0),
            parsed is Ok ==> parsed_leaves_body(
                old(buffer).body().len(),
                parsed->Ok_0.metadata(),
            ),
            parsed is Ok ==> final(buffer).is_rest_after(
                old(buffer),
                parsed->Ok_0.metadata().header_len as int,
                old(buffer).body().len() - parsed->Ok_0.metadata().header_len
                    - parsed->Ok_0.metadata().body_len,
            ),
    ;

    /// Parses a packet from a view that hands out mutable regions.
    fn parse_mut<BV: BufferViewMut<B>>(buffer: &mut BV, args: ParseArgs) -> (parsed: Result<
        Self,
        Self::Error,
    >) where B: ByteRegionMut
        requires
            old(buffer).wf(),
        ensures
            final(buffer).wf(),
            parsed is Ok <==> Self::layout(old(buffer).body(), args) is Some,
            parsed is Ok ==> Self::layout(old(buffer).body(), args) == Some(
                parsed->Ok_0.metadata(),
            ),
            parsed is Err ==> *final(buffer) == *old(buffer),
            parsed is Err ==> final(buffer).is_rest_after(old(buffer), 0, 0),
            parsed is Ok ==> parsed_leaves_body(
                old(buffer).body().len(),
                parsed->Ok_0.metadata(),
            ),
            parsed is Ok ==> final(buffer).is_rest_after(
                old(buffer),
                parsed->Ok_0.metadata().header_len as int,
                old(buffer).body().len() - parsed->Ok_0.metadata().header_len
                    - parsed->Ok_0.metadata().body_len,
            ),
    {
        Self::parse(buffer, args)
    }

    /// Metadata about this packet, by which its parsing can be undone.
    fn parse_metadata(&self) -> (meta: ParseMetadata)
        ensures
            meta == self.metadata(),
    ;
}

/// Whether a packet with the lengths of `meta` fits a body of `len` bytes:
/// header, body and footer lie within it, and what is beyond them is
/// padding.
pub open spec fn parsed_leaves_body(len: nat, meta: ParseMetadata) -> bool {
    meta.header_len + meta.body_len + meta.footer_len <= len
}

} // verus!
