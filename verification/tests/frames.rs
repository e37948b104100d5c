//! Decoded frames as the renderers see them.

use erika::color::{ColorPrimaries, ColorRange, MatrixCoefficients, TransferFunction};
use erika::error::{backpressure_error, renderer_error, PlayerError};
use erika::frame::{DecodedFrame, FrameStorage, VideoFrameDescriptor, VideoFramePayload};
use erika::modes::LumaUpscalerMode;

fn descriptor() -> VideoFrameDescriptor {
    VideoFrameDescriptor {
        width: 1920,
        height: 1080,
        raw_pixel_format: 23,
        pixel_format: Some("nv12".to_owned()),
        line_sizes: [1920, 1920, 0, 0],
        primaries: ColorPrimaries::Bt2020,
        transfer: TransferFunction::Pq,
        range: ColorRange::Full,
        matrix: MatrixCoefficients::Bt2020NonConstantLuminance,
        hdr_metadata: None,
    }
}

#[test]
fn a_payload_describes_its_frame() {
    let payload = VideoFramePayload::from_decoded(DecodedFrame {
        descriptor: descriptor(),
        storage: FrameStorage::D3d11va,
    });
    assert_eq!((payload.width(), payload.height()), (1920, 1080));
    assert_eq!(payload.raw_pixel_format(), 23);
    assert_eq!(payload.pixel_format(), &Some("nv12".to_owned()));
    assert_eq!(payload.line_sizes(), [1920, 1920, 0, 0]);
    assert_eq!(payload.color_primaries(), ColorPrimaries::Bt2020);
    assert_eq!(payload.transfer_function(), TransferFunction::Pq);
    assert_eq!(payload.color_range(), ColorRange::Full);
    assert_eq!(payload.hdr_metadata(), None);
    assert!(payload.has_hw_frames_context());
    assert!(payload.is_d3d11va());
    assert!(!payload.is_videotoolbox());
    assert!(!payload.is_mediacodec());
    assert!(payload.decoded_frame().is_some());
    let shared = VideoFramePayload::AndroidHardwareBuffer(descriptor());
    assert!(shared.decoded_frame().is_none());
}

#[test]
fn a_descriptor_states_the_colours_of_the_source() {
    let source = descriptor().source_color();
    assert_eq!(source.primaries, ColorPrimaries::Bt2020);
    assert_eq!(source.transfer, TransferFunction::Pq);
    assert_eq!(source.range, ColorRange::Full);
    assert_eq!(source.matrix, MatrixCoefficients::Bt2020NonConstantLuminance);
    let pipeline = descriptor().sdr_pipeline();
    assert_eq!(pipeline.source, source);
    assert!(pipeline.requires_tone_mapping());
}

#[test]
fn errors_carry_their_text() {
    assert_eq!(renderer_error("a"), PlayerError::Renderer("a".to_owned()));
    assert_eq!(
        backpressure_error("b"),
        PlayerError::RendererBackpressure("b".to_owned())
    );
    assert_eq!(backpressure_error("b").message(), "b");
}

#[test]
fn modes_have_names() {
    assert!(!LumaUpscalerMode::Off.is_enabled());
    assert!(LumaUpscalerMode::ArtCnnC4F32.is_enabled());
    assert_eq!(LumaUpscalerMode::default(), LumaUpscalerMode::Off);
}
