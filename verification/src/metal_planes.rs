//! Planes of decoded video as Metal textures.
use crate::color::ColorRange;
use crate::error::{renderer_error, PlayerError};
use crate::text::{decimal, push_decimal};
use crate::texels::MetalDrawablePixelFormat;
use vstd::prelude::*;

verus! {

/// Core Video's number of ten-bit video in two planes, video range (`x420`).
pub const CV_420_10_VIDEO_RANGE: u32 = 0x7834_3230;

/// Core Video's number of ten-bit video in two planes, full range (`xf20`).
pub const CV_420_10_FULL_RANGE: u32 = 0x7866_3230;

/// Core Video's number of eight-bit video in two planes, video range (`420v`).
pub const CV_420_8_VIDEO_RANGE: u32 = 0x3432_3076;

/// Core Video's number of eight-bit video in two planes, full range (`420f`).
pub const CV_420_8_FULL_RANGE: u32 = 0x3432_3066;

/// Metal's number of `R8Unorm`.
pub const METAL_R8_UNORM: usize = 10;

/// Metal's number of `R16Unorm`.
pub const METAL_R16_UNORM: usize = 20;

/// Metal's number of `RG8Unorm`.
pub const METAL_RG8_UNORM: usize = 30;

/// Metal's number of `RG16Unorm`.
pub const METAL_RG16_UNORM: usize = 60;

/// Metal's number of `BGRA8Unorm`.
pub const METAL_BGRA8_UNORM: usize = 80;

/// Metal's number of `RGBA16Float`.
pub const METAL_RGBA16_FLOAT: usize = 115;

/// The number of a drawable format in Metal.
pub fn metal_pixel_format(format: MetalDrawablePixelFormat) -> (number: usize)
    ensures
        number == match format {
            MetalDrawablePixelFormat::Bgra8Unorm => METAL_BGRA8_UNORM,
            MetalDrawablePixelFormat::Rgba16Float => METAL_RGBA16_FLOAT,
        },
{
    match format {
        MetalDrawablePixelFormat::Bgra8Unorm => METAL_BGRA8_UNORM,
        MetalDrawablePixelFormat::Rgba16Float => METAL_RGBA16_FLOAT,
    }
}

/// How samples are stored: eight bits, or ten in the upper bits of sixteen.
#[derive(Debug, Clone, Copy, PartialEq, Eq, Structural)]
pub enum ImportedVideoFormat {
    Nv12,
    P010,
}

/// The texture of one plane.
#[derive(Debug, Clone, Copy, PartialEq, Eq)]
pub struct PlaneMapping {
    pub index: usize,
    /// Metal's number of the texture's format.
    pub pixel_format: usize,
    pub name: &'static str,
}

/// The textures of a two-plane buffer.
#[derive(Debug, Clone, Copy, PartialEq, Eq)]
pub struct PixelBufferMapping {
    pub format: ImportedVideoFormat,
    pub full_range: bool,
    pub planes: [PlaneMapping; 2],
}

impl PlaneMapping {
    /// The mapping of the luma plane.
    pub open spec fn is_luma(self, format: ImportedVideoFormat) -> bool {
        &&& self.index == 0
        &&& match format {
            ImportedVideoFormat::Nv12 => self.pixel_format == METAL_R8_UNORM && self.name@
                == "R8Unorm"@,
            ImportedVideoFormat::P010 => self.pixel_format == METAL_R16_UNORM && self.name@
                == "R16Unorm"@,
        }
    }

    /// The mapping of the interleaved chroma plane.
    pub open spec fn is_chroma(self, format: ImportedVideoFormat) -> bool {
        &&& self.index == 1
        &&& match format {
            ImportedVideoFormat::Nv12 => self.pixel_format == METAL_RG8_UNORM && self.name@
                == "RG8Unorm"@,
            ImportedVideoFormat::P010 => self.pixel_format == METAL_RG16_UNORM && self.name@
                == "RG16Unorm"@,
        }
    }
}

fn planes_of(format: ImportedVideoFormat) -> (planes: [PlaneMapping; 2])
    ensures
        planes@[0].is_luma(format),
        planes@[1].is_chroma(format),
{
    match format {
        ImportedVideoFormat::Nv12 => [
            PlaneMapping { index: 0, pixel_format: METAL_R8_UNORM, name: "R8Unorm" },
            PlaneMapping { index: 1, pixel_format: METAL_RG8_UNORM, name: "RG8Unorm" },
        ],
        ImportedVideoFormat::P010 => [
            PlaneMapping { index: 0, pixel_format: METAL_R16_UNORM, name: "R16Unorm" },
            PlaneMapping { index: 1, pixel_format: METAL_RG16_UNORM, name: "RG16Unorm" },
        ],
    }
}

/// The sample format and range of a Core Video format, where it is supported.
pub open spec fn core_video_format(pixel_format: u32) -> Option<(ImportedVideoFormat, bool)> {
    if pixel_format == CV_420_10_VIDEO_RANGE {
        Some((ImportedVideoFormat::P010, false))
    } else if pixel_format == CV_420_10_FULL_RANGE {
        Some((ImportedVideoFormat::P010, true))
    } else if pixel_format == CV_420_8_VIDEO_RANGE {
        Some((ImportedVideoFormat::Nv12, false))
    } else if pixel_format == CV_420_8_FULL_RANGE {
        Some((ImportedVideoFormat::Nv12, true))
    } else {
        None
    }
}

impl PixelBufferMapping {
    /// The mapping of a sample format and range.
    pub open spec fn maps(self, format: ImportedVideoFormat, full_range: bool) -> bool {
        &&& self.format == format
        &&& self.full_range == full_range
        &&& self.planes@[0].is_luma(format)
        &&& self.planes@[1].is_chroma(format)
    }

    /// The textures of a Core Video format, where it is supported.
    pub fn from_core_video_format(pixel_format: u32) -> (mapping: Option<Self>)
        ensures
            match mapping {
                Some(mapping) => core_video_format(pixel_format) is Some && mapping.maps(
                    core_video_format(pixel_format).unwrap().0,
                    core_video_format(pixel_format).unwrap().1,
                ),
                None => core_video_format(pixel_format) is None,
            },
    {
        let (format, full_range) = match pixel_format {
            CV_420_10_VIDEO_RANGE => (ImportedVideoFormat::P010, false),
            CV_420_10_FULL_RANGE => (ImportedVideoFormat::P010, true),
            CV_420_8_VIDEO_RANGE => (ImportedVideoFormat::Nv12, false),
            CV_420_8_FULL_RANGE => (ImportedVideoFormat::Nv12, true),
            _ => {
                return None;
            },
        };
        Some(PixelBufferMapping { format, full_range, planes: planes_of(format) })
    }

    /// The range as colour handling knows it.
    pub fn color_range(&self) -> (range: ColorRange)
        ensures
            range == if self.full_range {
                ColorRange::Full
            } else {
                ColorRange::Limited
            },
    {
        if self.full_range {
            ColorRange::Full
        } else {
            ColorRange::Limited
        }
    }
}

/// Checks a pixel buffer before its planes are imported. `fourcc` is the
/// format's name in messages.
pub fn check_pixel_buffer(present: bool, pixel_format: u32, plane_count: usize, fourcc: &str) -> (
mapping: Result<PixelBufferMapping, PlayerError>)
    ensures
        match mapping {
            Ok(mapping) => {
                &&& present
                &&& plane_count >= 2
                &&& core_video_format(pixel_format) is Some
                &&& mapping.maps(
                    core_video_format(pixel_format).unwrap().0,
                    core_video_format(pixel_format).unwrap().1,
                )
            },
            Err(error) => if !present {
                error.says("cannot import null CVPixelBuffer"@)
            } else if core_video_format(pixel_format) is None {
                error.says("unsupported CVPixelBuffer format "@ + fourcc@)
            } else {
                &&& plane_count < 2
                &&& error.says(
                    "expected at least 2 planes for "@ + fourcc@ + ", got "@ + decimal(
                        plane_count as nat,
                    ),
                )
            },
        },
{
    if !present {
        return Err(renderer_error("cannot import null CVPixelBuffer"));
    }
    match PixelBufferMapping::from_core_video_format(pixel_format) {
        None => {
            let mut text: String = "unsupported CVPixelBuffer format ".to_owned();
            text.append(fourcc);
            Err(PlayerError::Renderer(text))
        },
        Some(mapping) => {
            if plane_count < 2 {
                let mut text: String = "expected at least 2 planes for ".to_owned();
                text.append(fourcc);
                text.append(", got ");
                push_decimal(&mut text, plane_count as u64);
                return Err(PlayerError::Renderer(text));
            }
            Ok(mapping)
        },
    }
}

/// The size of an imported frame: the larger of what the buffer and the decoder
/// say.
pub fn imported_size(
    buffer_width: usize,
    buffer_height: usize,
    width: u32,
    height: u32,
) -> (size: (usize, usize))
    ensures
        size.0 == if buffer_width >= width {
            buffer_width as int
        } else {
            width as int
        },
        size.1 == if buffer_height >= height {
            buffer_height as int
        } else {
            height as int
        },
{
    let width: usize = width as usize;
    let height: usize = height as usize;
    (
        if buffer_width >= width {
            buffer_width
        } else {
            width
        },
        if buffer_height >= height {
            buffer_height
        } else {
            height
        },
    )
}

/// One plane of an uploaded frame.
#[derive(Debug, Clone, Copy, PartialEq, Eq)]
pub struct PlaneLayout {
    pub mapping: PlaneMapping,
    pub width: u64,
    pub height: u64,
    /// Bytes of one row.
    pub stride: u64,
}

/// Both planes of an uploaded frame.
#[derive(Debug, Clone, Copy, PartialEq, Eq)]
pub struct PlanarLayout {
    pub format: ImportedVideoFormat,
    pub luma: PlaneLayout,
    pub chroma: PlaneLayout,
    pub name: &'static str,
}

/// Bytes of one sample.
pub open spec fn sample_bytes(format: ImportedVideoFormat) -> int {
    match format {
        ImportedVideoFormat::Nv12 => 1,
        ImportedVideoFormat::P010 => 2,
    }
}

/// Half of a length, rounded up.
pub open spec fn half_up(n: int) -> int {
    (n + 1) / 2
}

/// Lays out the planes of a frame that was decoded to memory: chroma has half of
/// the width and height, and two samples for each pixel.
pub fn planar_layout(width: u32, height: u32, format: ImportedVideoFormat) -> (layout: PlanarLayout)
    ensures
        layout.format == format,
        layout.luma.mapping.is_luma(format),
        layout.luma.width == width,
        layout.luma.height == height,
        layout.luma.stride == width * sample_bytes(format),
        layout.chroma.mapping.is_chroma(format),
        layout.chroma.width == half_up(width as int),
        layout.chroma.height == half_up(height as int),
        layout.chroma.stride == half_up(width as int) * 2 * sample_bytes(format),
        layout.name@ == match format {
            ImportedVideoFormat::Nv12 => "NV12"@,
            ImportedVideoFormat::P010 => "P010"@,
        },
{
    let planes: [PlaneMapping; 2] = planes_of(format);
    let width: u64 = width as u64;
    let height: u64 = height as u64;
    let chroma_width: u64 = (width + 1) / 2;
    let chroma_height: u64 = (height + 1) / 2;
    let (luma_stride, chroma_stride, name): (u64, u64, &'static str) = match format {
        ImportedVideoFormat::Nv12 => (width, chroma_width * 2, "NV12"),
        ImportedVideoFormat::P010 => (width * 2, chroma_width * 4, "P010"),
    };
    PlanarLayout {
        format,
        luma: PlaneLayout { mapping: planes[0], width, height, stride: luma_stride },
        chroma: PlaneLayout {
            mapping: planes[1],
            width: chroma_width,
            height: chroma_height,
            stride: chroma_stride,
        },
        name,
    }
}

/// What is wrong with a plane that does not hold exactly its rows.
pub open spec fn plane_fault(plane: PlaneLayout, bytes: int) -> Seq<char> {
    if plane.stride * plane.height > u64::MAX {
        "software video plane dimensions overflow"@
    } else {
        "software video plane has "@ + decimal(bytes as nat) + " bytes, expected "@ + decimal(
            (plane.stride * plane.height) as nat,
        )
    }
}

/// Checks that a plane holds exactly its rows.
pub fn check_plane(plane: &PlaneLayout, bytes: usize) -> (checked: Result<(), PlayerError>)
    ensures
        match checked {
            Ok(()) => bytes == plane.stride * plane.height,
            Err(error) => {
                &&& bytes != plane.stride * plane.height
                &&& error.says(plane_fault(*plane, bytes as int))
            },
        },
{
    match plane.stride.checked_mul(plane.height) {
        None => Err(renderer_error("software video plane dimensions overflow")),
        Some(expected) => {
            if bytes as u64 != expected {
                let mut text: String = "software video plane has ".to_owned();
                push_decimal(&mut text, bytes as u64);
                text.append(" bytes, expected ");
                push_decimal(&mut text, expected);
                return Err(PlayerError::Renderer(text));
            }
            Ok(())
        },
    }
}

/// Checks both planes of an uploaded frame, luma first.
pub fn check_planar_upload(layout: &PlanarLayout, luma_bytes: usize, chroma_bytes: usize) -> (
checked: Result<(), PlayerError>)
    ensures
        match checked {
            Ok(()) => luma_bytes == layout.luma.stride * layout.luma.height && chroma_bytes
                == layout.chroma.stride * layout.chroma.height,
            Err(error) => if luma_bytes != layout.luma.stride * layout.luma.height {
                error.says(plane_fault(layout.luma, luma_bytes as int))
            } else {
                &&& chroma_bytes != layout.chroma.stride * layout.chroma.height
                &&& error.says(plane_fault(layout.chroma, chroma_bytes as int))
            },
        },
{
    match check_plane(&layout.luma, luma_bytes) {
        Ok(()) => check_plane(&layout.chroma, chroma_bytes),
        Err(error) => Err(error),
    }
}

/// Two samples of chroma cover every two by two pixels of luma: no pixel is
/// without chroma, and at most one row and one column of chroma reach past the
/// picture.
pub proof fn law_chroma_covers_luma(width: int)
    requires
        width >= 0,
    ensures
        width <= 2 * half_up(width) <= width + 1,
{
}

} // verus!
