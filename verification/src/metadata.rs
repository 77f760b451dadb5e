//! Bookkeeping that lets a parsed packet's header and footer be restored.

use vstd::prelude::*;

verus! {

/// Metadata about a previously-parsed packet, used to undo its parsing.
///
/// `body_len` is the length of the packet's body before any padding that an
/// encapsulating layer added.
#[derive(Clone, Copy, Debug, PartialEq, Eq, Structural)]
pub struct ParseMetadata {
    pub header_len: usize,
    pub body_len: usize,
    pub footer_len: usize,
}

impl ParseMetadata {
    /// Metadata of a packet that encapsulates another packet.
    pub fn from_packet(header_len: usize, body_len: usize, footer_len: usize) -> (meta:
        ParseMetadata)
        ensures
            meta.header_len == header_len,
            meta.body_len == body_len,
            meta.footer_len == footer_len,
    {
        ParseMetadata { header_len, body_len, footer_len }
    }

    /// Metadata of an inner packet, which has no header/footer distinction:
    /// all of its `len` bytes count as header.
    pub fn from_inner_packet(len: usize) -> (meta: ParseMetadata)
        ensures
            meta.header_len == len,
            meta.body_len == 0,
            meta.footer_len == 0,
    {
        ParseMetadata { header_len: len, body_len: 0, footer_len: 0 }
    }
}

} // verus!
