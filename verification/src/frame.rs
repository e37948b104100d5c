//! Decoded frames as renderers see them.
use crate::color::{ColorPrimaries, ColorRange, MatrixCoefficients, TransferFunction};
use crate::hdr::HdrMetadata;
use crate::modes::LumaUpscalerMode;
use crate::pipeline::{ScalerConfig, ToneMapConfig, VideoRenderPipeline};
use crate::source::{at_least_one, SourceColorState, TargetColorState};
use vstd::prelude::*;

verus! {

/// What is known of a decoded frame without touching the decoder.
#[derive(Debug, Clone, PartialEq, Eq)]
pub struct VideoFrameDescriptor {
    pub width: u32,
    pub height: u32,
    pub raw_pixel_format: i32,
    pub pixel_format: Option<String>,
    pub line_sizes: [i32; 4],
    pub primaries: ColorPrimaries,
    pub transfer: TransferFunction,
    pub range: ColorRange,
    pub matrix: MatrixCoefficients,
    pub hdr_metadata: Option<HdrMetadata>,
}

impl VideoFrameDescriptor {
    /// The source colours of the frame.
    pub open spec fn source(self) -> SourceColorState {
        let plain = SourceColorState::plain(self.primaries, self.transfer);
        SourceColorState {
            range: self.range,
            matrix: self.matrix,
            hdr_metadata: self.hdr_metadata,
            nominal_peak_nits: match self.hdr_metadata {
                Some(hdr) => match hdr.peak() {
                    Some(peak) => at_least_one(peak),
                    None => plain.nominal_peak_nits,
                },
                None => plain.nominal_peak_nits,
            },
            ..plain
        }
    }

    pub fn source_color(&self) -> (source: SourceColorState)
        ensures
            source == self.source(),
    {
        SourceColorState::new(self.primaries, self.transfer).range(self.range).matrix(
            self.matrix,
        ).hdr_metadata(self.hdr_metadata)
    }

    /// The pipeline that shows the frame on a standard-range window.
    pub fn sdr_pipeline(&self) -> (pipeline: VideoRenderPipeline)
        ensures
            pipeline.wf(),
            pipeline.source == self.source(),
            pipeline.target == TargetColorState::standard(ColorPrimaries::Bt709),
            pipeline.tone_map == ToneMapConfig::usual(),
            pipeline.scaler == ScalerConfig::usual(),
            pipeline.luma_upscaler == LumaUpscalerMode::Off,
    {
        VideoRenderPipeline::new(
            self.source_color(),
            TargetColorState::sdr(ColorPrimaries::Bt709),
        )
    }
}

/// Where the pixels of a decoded frame are.
#[derive(Debug, Clone, Copy, PartialEq, Eq, Structural)]
pub enum FrameStorage {
    Memory,
    VideoToolbox,
    D3d11va,
    MediaCodec,
    /// Another hardware decoder.
    OtherHardware,
}

/// A frame that is still the decoder's.
#[derive(Debug, Clone, PartialEq, Eq)]
pub struct DecodedFrame {
    pub descriptor: VideoFrameDescriptor,
    pub storage: FrameStorage,
}

/// A decoded frame that is ready for a renderer. Frames in MediaCodec surfaces
/// leave the decoder at once: they become hardware buffers of their own.
#[derive(Debug, Clone, PartialEq, Eq)]
pub enum VideoFramePayload {
    Decoded(DecodedFrame),
    AndroidHardwareBuffer(VideoFrameDescriptor),
}

impl VideoFramePayload {
    /// What is known of the frame, whatever carries it.
    pub open spec fn described(self) -> VideoFrameDescriptor {
        match self {
            VideoFramePayload::Decoded(frame) => frame.descriptor,
            VideoFramePayload::AndroidHardwareBuffer(descriptor) => descriptor,
        }
    }

    /// The frame that is still the decoder's, if it is.
    pub open spec fn still_decoded(self) -> Option<DecodedFrame> {
        match self {
            VideoFramePayload::Decoded(frame) => Some(frame),
            VideoFramePayload::AndroidHardwareBuffer(_) => None,
        }
    }

    pub fn from_decoded(frame: DecodedFrame) -> (payload: Self)
        ensures
            payload == if frame.storage == FrameStorage::MediaCodec {
                VideoFramePayload::AndroidHardwareBuffer(frame.descriptor)
            } else {
                VideoFramePayload::Decoded(frame)
            },
            payload.described() == frame.descriptor,
    {
        if frame.storage == FrameStorage::MediaCodec {
            return VideoFramePayload::AndroidHardwareBuffer(frame.descriptor);
        }
        VideoFramePayload::Decoded(frame)
    }

    pub fn decoded_frame(&self) -> (frame: Option<&DecodedFrame>)
        ensures
            match frame {
                Some(frame) => self.still_decoded() == Some(*frame),
                None => self.still_decoded() is None,
            },
    {
        match self {
            VideoFramePayload::Decoded(frame) => Some(frame),
            VideoFramePayload::AndroidHardwareBuffer(_) => None,
        }
    }

    pub fn descriptor(&self) -> (descriptor: &VideoFrameDescriptor)
        ensures
            *descriptor == self.described(),
    {
        match self {
            VideoFramePayload::Decoded(frame) => &frame.descriptor,
            VideoFramePayload::AndroidHardwareBuffer(descriptor) => descriptor,
        }
    }

    pub fn width(&self) -> (width: u32)
        ensures
            width == self.described().width,
    {
        self.descriptor().width
    }

    pub fn height(&self) -> (height: u32)
        ensures
            height == self.described().height,
    {
        self.descriptor().height
    }

    /// The name of the pixel format, where it has one.
    pub fn pixel_format(&self) -> (name: &Option<String>)
        ensures
            *name == self.described().pixel_format,
    {
        &self.descriptor().pixel_format
    }

    pub fn raw_pixel_format(&self) -> (format: i32)
        ensures
            format == self.described().raw_pixel_format,
    {
        self.descriptor().raw_pixel_format
    }

    pub fn line_sizes(&self) -> (sizes: [i32; 4])
        ensures
            sizes == self.described().line_sizes,
    {
        self.descriptor().line_sizes
    }

    pub fn color_primaries(&self) -> (primaries: ColorPrimaries)
        ensures
            primaries == self.described().primaries,
    {
        self.descriptor().primaries
    }

    pub fn transfer_function(&self) -> (transfer: TransferFunction)
        ensures
            transfer == self.described().transfer,
    {
        self.descriptor().transfer
    }

    pub fn color_range(&self) -> (range: ColorRange)
        ensures
            range == self.described().range,
    {
        self.descriptor().range
    }

    pub fn matrix_coefficients(&self) -> (matrix: MatrixCoefficients)
        ensures
            matrix == self.described().matrix,
    {
        self.descriptor().matrix
    }

    pub fn hdr_metadata(&self) -> (metadata: Option<HdrMetadata>)
        ensures
            metadata == self.described().hdr_metadata,
    {
        self.descriptor().hdr_metadata
    }

    /// Whether the pixels are in hardware.
    pub fn has_hw_frames_context(&self) -> (hardware: bool)
        ensures
            hardware == match self.still_decoded() {
                Some(frame) => frame.storage != FrameStorage::Memory,
                None => true,
            },
    {
        match self {
            VideoFramePayload::Decoded(frame) => frame.storage != FrameStorage::Memory,
            VideoFramePayload::AndroidHardwareBuffer(_) => true,
        }
    }

    pub fn is_videotoolbox(&self) -> (yes: bool)
        ensures
            yes == (self.still_decoded() is Some && self.still_decoded().unwrap().storage
                == FrameStorage::VideoToolbox),
    {
        match self {
            VideoFramePayload::Decoded(frame) => frame.storage == FrameStorage::VideoToolbox,
            VideoFramePayload::AndroidHardwareBuffer(_) => false,
        }
    }

    pub fn is_d3d11va(&self) -> (yes: bool)
        ensures
            yes == (self.still_decoded() is Some && self.still_decoded().unwrap().storage
                == FrameStorage::D3d11va),
    {
        match self {
            VideoFramePayload::Decoded(frame) => frame.storage == FrameStorage::D3d11va,
            VideoFramePayload::AndroidHardwareBuffer(_) => false,
        }
    }

    pub fn is_mediacodec(&self) -> (yes: bool)
        ensures
            yes == match self.still_decoded() {
                Some(frame) => frame.storage == FrameStorage::MediaCodec,
                None => true,
            },
    {
        match self {
            VideoFramePayload::Decoded(frame) => frame.storage == FrameStorage::MediaCodec,
            VideoFramePayload::AndroidHardwareBuffer(_) => true,
        }
    }
}

} // verus!
