//! Pixel formats and the layout of a frame of pixels.

use vstd::prelude::*;

verus! {

pub const ZX_PIXEL_FORMAT_NONE: u32 = 0;

pub const ZX_PIXEL_FORMAT_RGB_565: u32 = 131073;

pub const ZX_PIXEL_FORMAT_RGB_332: u32 = 65538;

pub const ZX_PIXEL_FORMAT_RGB_2220: u32 = 65539;

pub const ZX_PIXEL_FORMAT_ARGB_8888: u32 = 262148;

pub const ZX_PIXEL_FORMAT_RGB_X888: u32 = 262149;

pub const ZX_PIXEL_FORMAT_MONO_8: u32 = 65543;

pub const ZX_PIXEL_FORMAT_GRAY_8: u32 = 65543;

pub const ZX_PIXEL_FORMAT_MONO_1: u32 = 6;

/// How the bits of a pixel are laid out.
#[derive(Debug, Clone, Copy, PartialEq, Eq, Structural)]
pub enum PixelFormat {
    Argb8888,
    Gray8,
    Mono1,
    Mono8,
    Rgb2220,
    Rgb332,
    Rgb565,
    RgbX888,
    Unknown,
}

/// The pixel format that a format code stands for. The code of 8-bit gray
/// is that of 8-bit mono, and reads as mono; a code that stands for no
/// format reads as `Unknown`.
pub open spec fn pixel_format_of(code: u32) -> PixelFormat {
    if code == ZX_PIXEL_FORMAT_ARGB_8888 {
        PixelFormat::Argb8888
    } else if code == ZX_PIXEL_FORMAT_MONO_1 {
        PixelFormat::Mono1
    } else if code == ZX_PIXEL_FORMAT_MONO_8 {
        PixelFormat::Mono8
    } else if code == ZX_PIXEL_FORMAT_RGB_2220 {
        PixelFormat::Rgb2220
    } else if code == ZX_PIXEL_FORMAT_RGB_332 {
        PixelFormat::Rgb332
    } else if code == ZX_PIXEL_FORMAT_RGB_565 {
        PixelFormat::Rgb565
    } else if code == ZX_PIXEL_FORMAT_RGB_X888 {
        PixelFormat::RgbX888
    } else {
        PixelFormat::Unknown
    }
}

/// The format code of a pixel format.
pub open spec fn pixel_format_code(format: PixelFormat) -> u32 {
    match format {
        PixelFormat::Argb8888 => ZX_PIXEL_FORMAT_ARGB_8888,
        PixelFormat::Mono1 => ZX_PIXEL_FORMAT_MONO_1,
        PixelFormat::Mono8 => ZX_PIXEL_FORMAT_MONO_8,
        PixelFormat::Rgb2220 => ZX_PIXEL_FORMAT_RGB_2220,
        PixelFormat::Rgb332 => ZX_PIXEL_FORMAT_RGB_332,
        PixelFormat::Rgb565 => ZX_PIXEL_FORMAT_RGB_565,
        PixelFormat::RgbX888 => ZX_PIXEL_FORMAT_RGB_X888,
        PixelFormat::Gray8 => ZX_PIXEL_FORMAT_GRAY_8,
        PixelFormat::Unknown => ZX_PIXEL_FORMAT_NONE,
    }
}

impl From<u32> for PixelFormat {
    fn from(pixel_format: u32) -> (format: PixelFormat) {
        if pixel_format == ZX_PIXEL_FORMAT_ARGB_8888 {
            PixelFormat::Argb8888
        } else if pixel_format == ZX_PIXEL_FORMAT_MONO_1 {
            PixelFormat::Mono1
        } else if pixel_format == ZX_PIXEL_FORMAT_MONO_8 {
            PixelFormat::Mono8
        } else if pixel_format == ZX_PIXEL_FORMAT_RGB_2220 {
            PixelFormat::Rgb2220
        } else if pixel_format == ZX_PIXEL_FORMAT_RGB_332 {
            PixelFormat::Rgb332
        } else if pixel_format == ZX_PIXEL_FORMAT_RGB_565 {
            PixelFormat::Rgb565
        } else if pixel_format == ZX_PIXEL_FORMAT_RGB_X888 {
            PixelFormat::RgbX888
        } else {
            PixelFormat::Unknown
        }
    }
}

impl vstd::std_specs::convert::FromSpecImpl<u32> for PixelFormat {
    open spec fn obeys_from_spec() -> bool {
        true
    }

    open spec fn from_spec(pixel_format: u32) -> PixelFormat {
        pixel_format_of(pixel_format)
    }
}

impl From<PixelFormat> for u32 {
    fn from(format: PixelFormat) -> (code: u32) {
        match format {
            PixelFormat::Argb8888 => ZX_PIXEL_FORMAT_ARGB_8888,
            PixelFormat::Mono1 => ZX_PIXEL_FORMAT_MONO_1,
            PixelFormat::Mono8 => ZX_PIXEL_FORMAT_MONO_8,
            PixelFormat::Rgb2220 => ZX_PIXEL_FORMAT_RGB_2220,
            PixelFormat::Rgb332 => ZX_PIXEL_FORMAT_RGB_332,
            PixelFormat::Rgb565 => ZX_PIXEL_FORMAT_RGB_565,
            PixelFormat::RgbX888 => ZX_PIXEL_FORMAT_RGB_X888,
            PixelFormat::Gray8 => ZX_PIXEL_FORMAT_GRAY_8,
            PixelFormat::Unknown => ZX_PIXEL_FORMAT_NONE,
        }
    }
}

impl vstd::std_specs::convert::FromSpecImpl<PixelFormat> for u32 {
    open spec fn obeys_from_spec() -> bool {
        true
    }

    open spec fn from_spec(format: PixelFormat) -> u32 {
        pixel_format_code(format)
    }
}

/// The number of bytes that a pixel of the format with code `pixel_format`
/// takes: the code's bits 16 to 18.
pub fn pixel_format_bytes(pixel_format: u32) -> (bytes: usize)
    ensures
        bytes == (pixel_format / 65536) % 8,
{
    assert((pixel_format >> 16) & 7 == (pixel_format / 65536) % 8) by (bit_vector);
    assert((pixel_format >> 16) & 7 < 8) by (bit_vector);
    ((pixel_format >> 16) & 7) as usize
}

/// The size and layout of a frame.
#[derive(Debug, Clone, Copy, PartialEq, Eq, Structural)]
pub struct Config {
    pub width: u32,
    pub height: u32,
    pub linear_stride_pixels: u32,
    pub format: PixelFormat,
}

/// The number of bytes that `write_pixel` takes a pixel to have.
pub const WRITTEN_PIXEL_SIZE: usize = 4;

/// The lesser of two numbers.
pub open spec fn lesser(a: int, b: int) -> int {
    if a <= b {
        a
    } else {
        b
    }
}

/// The part of a frame that filling a rectangle writes to: the columns
/// from `left` up to `right`, in each of the rows from `top` up to `bottom`.
#[derive(Debug, Clone, Copy, PartialEq, Eq, Structural)]
pub struct Rectangle {
    pub left: u32,
    pub right: u32,
    pub top: u32,
    pub bottom: u32,
}

impl Config {
    /// Where the pixel in column `x` of row `y` starts in the frame's
    /// pixel buffer, counted in bytes.
    pub open spec fn pixel_offset_spec(&self, x: u32, y: u32) -> int {
        self.linear_stride_pixels * WRITTEN_PIXEL_SIZE * y + x * WRITTEN_PIXEL_SIZE
    }

    /// Where the pixel in column `x` of row `y` starts in the frame's
    /// pixel buffer, counted in bytes.
    pub fn pixel_offset(&self, x: u32, y: u32) -> (offset: usize)
        requires
            self.linear_stride_pixels * WRITTEN_PIXEL_SIZE <= usize::MAX,
            self.pixel_offset_spec(x, y) <= usize::MAX,
        ensures
            offset == self.pixel_offset_spec(x, y),
    {
        let stride = self.linear_stride_pixels as usize;
        let row = y as usize;
        let column = x as usize;
        assert(0 <= stride * WRITTEN_PIXEL_SIZE * row) by (nonlinear_arith);
        assert(0 <= column * WRITTEN_PIXEL_SIZE) by (nonlinear_arith);
        stride * WRITTEN_PIXEL_SIZE * row + column * WRITTEN_PIXEL_SIZE
    }

    /// The size of the frame's pixel buffer in bytes, for pixels of
    /// `pixel_size` bytes.
    pub open spec fn byte_size_spec(&self, pixel_size: usize) -> int {
        self.linear_stride_pixels * pixel_size * self.height
    }

    /// The size of the frame's pixel buffer in bytes, for pixels of
    /// `pixel_size` bytes.
    pub fn byte_size(&self, pixel_size: usize) -> (size: usize)
        requires
            self.linear_stride_pixels * pixel_size <= usize::MAX,
            self.byte_size_spec(pixel_size) <= usize::MAX,
        ensures
            size == self.byte_size_spec(pixel_size),
    {
        self.linear_stride_pixels as usize * pixel_size * self.height as usize
    }

    /// The rectangle that filling `width` columns and `height` rows from
    /// column `x` and row `y` writes to. Its left and right edges are held
    /// within the frame's width, its top edge within the frame's height,
    /// and its bottom edge within the frame's width.
    pub fn clip_rectangle(&self, x: u32, y: u32, width: u32, height: u32) -> (clipped: Rectangle)
        requires
            lesser(x as int, self.width as int) + width <= u32::MAX,
            lesser(y as int, self.height as int) + height <= u32::MAX,
        ensures
            clipped.left == lesser(x as int, self.width as int),
            clipped.right == lesser(clipped.left + width, self.width as int),
            clipped.top == lesser(y as int, self.height as int),
            clipped.bottom == lesser(clipped.top + height, self.width as int),
    {
        let left = if x <= self.width { x } else { self.width };
        let right = if left + width <= self.width { left + width } else { self.width };
        let top = if y <= self.height { y } else { self.height };
        let bottom = if top + height <= self.width { top + height } else { self.width };
        Rectangle { left, right, top, bottom }
    }
}

/// The layout that a display announces: of its pixel formats and of its
/// modes the first one counts. Without a mode there is no layout. The
/// stride is the width times the bytes of a pixel, or zero where the
/// format is unknown.
pub open spec fn display_config_spec(pixel_format: Option<u32>, mode: Option<(u32, u32)>) -> Option<
    Config,
> {
    let code = match pixel_format {
        Some(code) => code,
        None => 0,
    };
    let format = match pixel_format {
        Some(code) => pixel_format_of(code),
        None => PixelFormat::Unknown,
    };
    match mode {
        Some((horizontal, vertical)) => Some(
            Config {
                width: horizontal,
                height: vertical,
                linear_stride_pixels: if format != PixelFormat::Unknown {
                    (((code / 65536) % 8) * horizontal) as u32
                } else {
                    0
                },
                format,
            },
        ),
        None => None,
    }
}

/// Whether the stride of the layout that a display announces fits in 32
/// bits.
pub open spec fn stride_fits(pixel_format: Option<u32>, mode: Option<(u32, u32)>) -> bool {
    match (pixel_format, mode) {
        (Some(code), Some((horizontal, vertical))) => pixel_format_of(code) != PixelFormat::Unknown
            ==> ((code / 65536) % 8) * horizontal <= u32::MAX,
        _ => true,
    }
}

/// The layout of the frames of a display, from the first pixel format and
/// the first mode (horizontal and vertical resolution) that it announces.
pub fn display_config(pixel_format: Option<u32>, mode: Option<(u32, u32)>) -> (config: Option<
    Config,
>)
    requires
        stride_fits(pixel_format, mode),
    ensures
        config == display_config_spec(pixel_format, mode),
{
    let mut zx_pixel_format: u32 = 0;
    let mut linear_stride_pixels: u32 = 0;
    let mut format = PixelFormat::Unknown;
    if let Some(code) = pixel_format {
        zx_pixel_format = code;
        format = PixelFormat::from(code);
    }
    match mode {
        Some((horizontal, vertical)) => {
            if format != PixelFormat::Unknown {
                linear_stride_pixels = pixel_format_bytes(zx_pixel_format) as u32 * horizontal;
            }
            Some(Config { width: horizontal, height: vertical, linear_stride_pixels, format })
        },
        None => None,
    }
}

} // verus!
