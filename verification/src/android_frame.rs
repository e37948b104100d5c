//! Decoded frames in Android hardware buffers: what makes one acceptable.
use crate::color::{ColorRange, MatrixCoefficients};
use crate::text::{decimal, hexadecimal, push_decimal, push_hexadecimal};
use crate::vulkan::vulkan_formats;
use crate::float::F32;
use crate::product::integer_value;
use crate::quotient::quotient;
use vstd::prelude::*;

verus! {

/// The buffer can be sampled on the graphics processor.
pub const USAGE_GPU_SAMPLED_IMAGE: u64 = 0x100;

/// The buffer holds protected content.
pub const USAGE_PROTECTED_CONTENT: u64 = 0x4000;

/// The format of the texture that a frame is converted to.
#[derive(Debug, Clone, Copy, PartialEq, Eq, Hash, Structural)]
pub enum AndroidAhbIntermediateFormat {
    Rgb10a2Unorm,
    Rgba16Float,
}

impl AndroidAhbIntermediateFormat {
    /// The number of the format in Vulkan.
    pub open spec fn vulkan_number(self) -> i32 {
        match self {
            AndroidAhbIntermediateFormat::Rgb10a2Unorm => 64,
            AndroidAhbIntermediateFormat::Rgba16Float => 97,
        }
    }

    /// The number of the format in Vulkan.
    pub fn vk(self) -> (format: i32)
        ensures
            format == self.vulkan_number(),
    {
        match self {
            AndroidAhbIntermediateFormat::Rgb10a2Unorm => vulkan_formats().a2b10g10r10_unorm,
            AndroidAhbIntermediateFormat::Rgba16Float => vulkan_formats().r16g16b16a16_sfloat,
        }
    }

    pub fn diagnostic_name(self) -> (name: &'static str)
        ensures
            name@ == match self {
                AndroidAhbIntermediateFormat::Rgb10a2Unorm => "rgb10a2unorm"@,
                AndroidAhbIntermediateFormat::Rgba16Float => "rgba16float"@,
            },
    {
        match self {
            AndroidAhbIntermediateFormat::Rgb10a2Unorm => "rgb10a2unorm",
            AndroidAhbIntermediateFormat::Rgba16Float => "rgba16float",
        }
    }

    pub fn bytes_per_pixel(self) -> (bytes: u32)
        ensures
            bytes == match self {
                AndroidAhbIntermediateFormat::Rgb10a2Unorm => 4u32,
                AndroidAhbIntermediateFormat::Rgba16Float => 8u32,
            },
    {
        match self {
            AndroidAhbIntermediateFormat::Rgb10a2Unorm => 4,
            AndroidAhbIntermediateFormat::Rgba16Float => 8,
        }
    }
}

/// The visible part of a buffer; `right` and `bottom` lie outside of it.
#[derive(Debug, Clone, Copy, PartialEq, Eq, Structural)]
pub struct AndroidAhbCrop {
    pub left: u32,
    pub top: u32,
    pub right: u32,
    pub bottom: u32,
}

/// What the decoder says of a frame.
#[derive(Debug, Clone, Copy, PartialEq, Eq, Structural)]
pub struct AndroidAhbFrameDescription {
    pub buffer_width: u32,
    pub buffer_height: u32,
    pub crop: AndroidAhbCrop,
    /// The size of the converted texture, at most that of the crop.
    pub output_width: u32,
    pub output_height: u32,
    pub color_range: ColorRange,
    pub matrix_coefficients: MatrixCoefficients,
    pub output_format: AndroidAhbIntermediateFormat,
}

/// What the system says of a buffer.
#[derive(Debug, Clone, Copy, PartialEq, Eq, Structural)]
pub struct HardwareBufferDescription {
    pub width: u32,
    pub height: u32,
    pub layers: u32,
    pub usage: u64,
}

/// The visible size of a frame, then the size of its texture.
#[derive(Debug, Clone, Copy, PartialEq, Eq, Structural)]
pub struct FrameExtents {
    pub visible_width: u32,
    pub visible_height: u32,
    pub output_width: u32,
    pub output_height: u32,
}

pub open spec fn dims(width: u32, height: u32) -> Seq<char> {
    decimal(width as nat) + "x"@ + decimal(height as nat)
}

/// The crop is a part of the buffer with at least one pixel.
pub open spec fn crop_valid(frame: AndroidAhbFrameDescription) -> bool {
    &&& frame.crop.left < frame.crop.right <= frame.buffer_width
    &&& frame.crop.top < frame.crop.bottom <= frame.buffer_height
}

/// The width of the crop.
pub open spec fn visible_w(frame: AndroidAhbFrameDescription) -> int {
    frame.crop.right - frame.crop.left
}

/// The height of the crop.
pub open spec fn visible_h(frame: AndroidAhbFrameDescription) -> int {
    frame.crop.bottom - frame.crop.top
}

/// The first thing that is wrong with a frame, if anything is.
pub open spec fn frame_fault(
    frame: AndroidAhbFrameDescription,
    buffer: HardwareBufferDescription,
    max_dimension: u32,
) -> Option<Seq<char>> {
    if frame.buffer_width == 0 || frame.buffer_height == 0 {
        Some(
            "stage=validate_ahb_frame reason=zero_buffer_extent width="@ + decimal(
                frame.buffer_width as nat,
            ) + " height="@ + decimal(frame.buffer_height as nat),
        )
    } else if buffer.width != frame.buffer_width || buffer.height != frame.buffer_height {
        Some(
            "stage=validate_ahb_frame reason=descriptor_extent_mismatch expected="@ + dims(
                frame.buffer_width,
                frame.buffer_height,
            ) + " actual="@ + dims(buffer.width, buffer.height),
        )
    } else if buffer.layers != 1 {
        Some(
            "stage=validate_ahb_frame reason=unsupported_layer_count layers="@ + decimal(
                buffer.layers as nat,
            ),
        )
    } else if buffer.usage & USAGE_PROTECTED_CONTENT != 0 {
        Some("stage=validate_ahb_frame reason=protected_content_not_supported"@)
    } else if buffer.usage & USAGE_GPU_SAMPLED_IMAGE == 0 {
        Some(
            "stage=validate_ahb_frame reason=missing_gpu_sampled_usage usage=0x"@ + hexadecimal(
                buffer.usage as nat,
            ),
        )
    } else if !crop_valid(frame) {
        Some(
            "stage=validate_ahb_frame reason=invalid_crop crop="@ + decimal(
                frame.crop.left as nat,
            ) + ","@ + decimal(frame.crop.top as nat) + ","@ + decimal(frame.crop.right as nat)
                + ","@ + decimal(frame.crop.bottom as nat) + " buffer="@ + dims(
                frame.buffer_width,
                frame.buffer_height,
            ),
        )
    } else if frame.output_width == 0 || frame.output_height == 0 {
        Some(
            "stage=validate_ahb_frame reason=zero_output_extent width="@ + decimal(
                frame.output_width as nat,
            ) + " height="@ + decimal(frame.output_height as nat),
        )
    } else if frame.output_width > visible_w(frame) || frame.output_height > visible_h(frame) {
        Some(
            "stage=validate_ahb_frame reason=output_extent_upscales_source output="@ + dims(
                frame.output_width,
                frame.output_height,
            ) + " visible="@ + dims(visible_w(frame) as u32, visible_h(frame) as u32),
        )
    } else if frame.output_width > max_dimension || frame.output_height > max_dimension {
        Some(
            "stage=validate_ahb_frame reason=output_extent_exceeds_device_limit output="@ + dims(
                frame.output_width,
                frame.output_height,
            ) + " max="@ + decimal(max_dimension as nat),
        )
    } else {
        None
    }
}

fn push_dims(text: &mut String, width: u32, height: u32)
    ensures
        final(text)@ == old(text)@ + dims(width, height),
{
    push_decimal(text, width as u64);
    text.append("x");
    push_decimal(text, height as u64);
    proof {
        assert(text@ =~= old(text)@ + dims(width, height));
    }
}

fn crop_text(frame: &AndroidAhbFrameDescription) -> (text: String)
    ensures
        text@ == "stage=validate_ahb_frame reason=invalid_crop crop="@ + decimal(
            frame.crop.left as nat,
        ) + ","@ + decimal(frame.crop.top as nat) + ","@ + decimal(frame.crop.right as nat) + ","@
            + decimal(frame.crop.bottom as nat) + " buffer="@ + dims(
            frame.buffer_width,
            frame.buffer_height,
        ),
{
    let mut text: String = "stage=validate_ahb_frame reason=invalid_crop crop=".to_owned();
    push_decimal(&mut text, frame.crop.left as u64);
    text.append(",");
    push_decimal(&mut text, frame.crop.top as u64);
    text.append(",");
    push_decimal(&mut text, frame.crop.right as u64);
    text.append(",");
    push_decimal(&mut text, frame.crop.bottom as u64);
    text.append(" buffer=");
    push_dims(&mut text, frame.buffer_width, frame.buffer_height);
    text
}

/// Checks a frame against its buffer and the device, and gives its sizes.
pub fn validate_frame_description(
    frame: &AndroidAhbFrameDescription,
    buffer: &HardwareBufferDescription,
    max_dimension: u32,
) -> (extents: Result<FrameExtents, String>)
    ensures
        match extents {
            Ok(extents) => {
                &&& frame_fault(*frame, *buffer, max_dimension) is None
                &&& extents == (FrameExtents {
                    visible_width: visible_w(*frame) as u32,
                    visible_height: visible_h(*frame) as u32,
                    output_width: frame.output_width,
                    output_height: frame.output_height,
                })
            },
            Err(text) => frame_fault(*frame, *buffer, max_dimension) == Some(text@),
        },
{
    if frame.buffer_width == 0 || frame.buffer_height == 0 {
        let mut text: String =
            "stage=validate_ahb_frame reason=zero_buffer_extent width=".to_owned();
        push_decimal(&mut text, frame.buffer_width as u64);
        text.append(" height=");
        push_decimal(&mut text, frame.buffer_height as u64);
        return Err(text);
    }
    if buffer.width != frame.buffer_width || buffer.height != frame.buffer_height {
        let mut text: String =
            "stage=validate_ahb_frame reason=descriptor_extent_mismatch expected=".to_owned();
        push_dims(&mut text, frame.buffer_width, frame.buffer_height);
        text.append(" actual=");
        push_dims(&mut text, buffer.width, buffer.height);
        return Err(text);
    }
    if buffer.layers != 1 {
        let mut text: String =
            "stage=validate_ahb_frame reason=unsupported_layer_count layers=".to_owned();
        push_decimal(&mut text, buffer.layers as u64);
        return Err(text);
    }
    if buffer.usage & USAGE_PROTECTED_CONTENT != 0 {
        return Err("stage=validate_ahb_frame reason=protected_content_not_supported".to_owned());
    }
    if buffer.usage & USAGE_GPU_SAMPLED_IMAGE == 0 {
        let mut text: String =
            "stage=validate_ahb_frame reason=missing_gpu_sampled_usage usage=0x".to_owned();
        push_hexadecimal(&mut text, buffer.usage);
        return Err(text);
    }
    let crop = frame.crop;
    if crop.left >= crop.right || crop.top >= crop.bottom || crop.right > frame.buffer_width
        || crop.bottom > frame.buffer_height {
        return Err(crop_text(frame));
    }
    let visible_width: u32 = crop.right - crop.left;
    let visible_height: u32 = crop.bottom - crop.top;
    if frame.output_width == 0 || frame.output_height == 0 {
        let mut text: String =
            "stage=validate_ahb_frame reason=zero_output_extent width=".to_owned();
        push_decimal(&mut text, frame.output_width as u64);
        text.append(" height=");
        push_decimal(&mut text, frame.output_height as u64);
        return Err(text);
    }
    if frame.output_width > visible_width || frame.output_height > visible_height {
        let mut text: String =
            "stage=validate_ahb_frame reason=output_extent_upscales_source output=".to_owned();
        push_dims(&mut text, frame.output_width, frame.output_height);
        text.append(" visible=");
        push_dims(&mut text, visible_width, visible_height);
        return Err(text);
    }
    if frame.output_width > max_dimension || frame.output_height > max_dimension {
        let mut text: String =
            "stage=validate_ahb_frame reason=output_extent_exceeds_device_limit output=".to_owned();
        push_dims(&mut text, frame.output_width, frame.output_height);
        text.append(" max=");
        push_decimal(&mut text, max_dimension as u64);
        return Err(text);
    }
    Ok(
        FrameExtents {
            visible_width,
            visible_height,
            output_width: frame.output_width,
            output_height: frame.output_height,
        },
    )
}

/// An accepted frame lies in its buffer, has a texture, and is not enlarged.
pub proof fn law_accepted_frames_are_sound(
    frame: AndroidAhbFrameDescription,
    buffer: HardwareBufferDescription,
    max_dimension: u32,
)
    requires
        frame_fault(frame, buffer, max_dimension) is None,
    ensures
        0 < frame.output_width <= visible_w(frame) <= buffer.width,
        0 < frame.output_height <= visible_h(frame) <= buffer.height,
        frame.output_width <= max_dimension,
        frame.output_height <= max_dimension,
        buffer.layers == 1,
{
}

/// The part of the buffer that the crop shows, as fractions of the buffer: left,
/// top, width and height.
pub open spec fn crop_fractions(frame: AndroidAhbFrameDescription) -> Seq<F32> {
    let width = integer_value(frame.buffer_width as int);
    let height = integer_value(frame.buffer_height as int);
    seq![
        quotient(integer_value(frame.crop.left as int), width),
        quotient(integer_value(frame.crop.top as int), height),
        quotient(integer_value(visible_w(frame)), width),
        quotient(integer_value(visible_h(frame)), height),
    ]
}

/// Tells the conversion which part of the buffer is shown.
pub fn crop_transform(frame: &AndroidAhbFrameDescription) -> (transform: [F32; 4])
    requires
        frame.crop.left <= frame.crop.right,
        frame.crop.top <= frame.crop.bottom,
    ensures
        transform@ == crop_fractions(*frame),
{
    let width = F32::from_u32(frame.buffer_width);
    let height = F32::from_u32(frame.buffer_height);
    let transform: [F32; 4] = [
        F32::from_u32(frame.crop.left).over(width),
        F32::from_u32(frame.crop.top).over(height),
        F32::from_u32(frame.crop.right - frame.crop.left).over(width),
        F32::from_u32(frame.crop.bottom - frame.crop.top).over(height),
    ];
    proof {
        assert(transform@ =~= crop_fractions(*frame));
    }
    transform
}

} // verus!
