//! Parsing and serialization of nested packets over windowed byte buffers.
//!
//! A buffer is a fixed byte region split into a prefix, a body and a
//! suffix. Parsing a packet takes its header and footer out of the body,
//! so that the body that remains is the body of the packet; undoing the
//! parse puts them back, so that the packet can be serialized again.

pub mod buf;
pub mod buffer;
pub mod bytes;
pub mod laws;
pub mod metadata;
pub mod packet;
pub mod pixel;
pub mod range;
pub mod region;
pub mod slices;
pub mod view;
pub mod window;

pub use crate::buf::{Backing, BackingMut, Buf, BufView, BufViewMut};
pub use crate::buffer::{Buffer, BufferMut, ParseBuffer, ParseBufferMut};
pub use crate::bytes::{take_back, take_back_mut, take_front, take_front_mut, zero};
pub use crate::metadata::ParseMetadata;
pub use crate::packet::ParsablePacket;
pub use crate::pixel::{pixel_format_bytes, Config, PixelFormat};
pub use crate::range::{
    canonicalize_lower_bound, canonicalize_range, canonicalize_upper_bound,
    checked_canonicalize_range, BodyRange,
};
pub use crate::region::{ByteRegion, ByteRegionMut, Object};
pub use crate::view::{BufferView, BufferViewMut};
