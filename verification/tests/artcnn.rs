//! The upscaling network: weights, settings, dispatches and both backends.

use erika::artcnn::{
    model_for_mode, no_weights, parse_model_blob, unexpected_header, ArtCnnBlobHeader,
    ArtCnnModelLayout, EmbeddedModels, FrameTokenCache, LayerOffsets, BLOB_HEADER_BYTES,
    BLOB_MAGIC, BLOB_VERSION, HALF4_BYTES,
};
use erika::artcnn_policy::{parse_scalar_block, ArtCnnBackendOverride, ArtCnnExecutionPolicy};
use erika::d3d11_artcnn::{
    feature_texture_size, plan_model, D3d11ArtCnn, D3d11EncodeStep, D3d11Model, D3d11ModelStep,
};
use erika::error::renderer_error;
use erika::metal_upscaler::{
    allocated_bytes, conv_passes, threadgroup_grid, BackendChoice, BuildReport, LumaUpscaler,
    PassTexture, UpscalerBackend, UpscalerBuild, UpscalerResources, UpscalerStep,
};
use erika::modes::{LumaUpscalerBackendStatus, LumaUpscalerMode};
use erika::tiles::{build_dispatch_records, middle_textures, DispatchKind};

/// A blob with a valid header and a payload of one repeated byte.
fn blob(feature_count: u32, payload_bytes: usize, fill: u8) -> Vec<u8> {
    let mut bytes = Vec::new();
    bytes.extend_from_slice(&BLOB_MAGIC.to_le_bytes());
    bytes.extend_from_slice(&BLOB_VERSION.to_le_bytes());
    bytes.extend_from_slice(&feature_count.to_le_bytes());
    bytes.extend_from_slice(&0u32.to_le_bytes());
    bytes.extend(std::iter::repeat(fill).take(payload_bytes));
    bytes
}

#[test]
fn embedded_models_match_the_canonical_layout() {
    let c4f16_blob = blob(16, 24_680, 1);
    let c4f16_ds_blob = blob(16, 24_680, 2);
    let c4f32_blob = blob(32, 95_432, 3);
    let models = EmbeddedModels {
        c4f16: &c4f16_blob,
        c4f16_ds: &c4f16_ds_blob,
        c4f32: &c4f32_blob,
    };

    let c4f16 = model_for_mode(LumaUpscalerMode::ArtCnnC4F16, models).unwrap();
    assert_eq!(c4f16.header.feature_count, 16);
    assert_eq!(c4f16.layout.feature_slices, 4);
    assert_eq!(c4f16.layout.payload_half4, 3_085);
    assert_eq!(c4f16.payload.len(), 24_680);
    assert_eq!(
        c4f16.layout.layer_offsets,
        LayerOffsets {
            conv0_w: 0,
            conv0_b: 36,
            mid_w: [40, 620, 1_200, 1_780, 2_360],
            mid_b: [616, 1_196, 1_776, 2_356, 2_936],
            conv6_w: 2_940,
            conv6_b: 3_084,
        }
    );

    let c4f16_ds = model_for_mode(LumaUpscalerMode::ArtCnnC4F16Ds, models).unwrap();
    assert_eq!(c4f16_ds.header.feature_count, 16);
    assert_eq!(c4f16_ds.layout, c4f16.layout);
    assert_eq!(c4f16_ds.payload.len(), 24_680);
    assert_ne!(c4f16_ds.payload, c4f16.payload);

    let c4f32 = model_for_mode(LumaUpscalerMode::ArtCnnC4F32, models).unwrap();
    assert_eq!(c4f32.header.feature_count, 32);
    assert_eq!(c4f32.layout.feature_slices, 8);
    assert_eq!(c4f32.layout.payload_half4, 11_929);
    assert_eq!(c4f32.payload.len(), 95_432);
    assert_eq!(c4f32.layout.layer_offsets.conv6_w, 11_640);
    assert_eq!(c4f32.layout.layer_offsets.conv6_b, 11_928);
}

#[test]
fn blob_validation_rejects_each_incompatible_contract() {
    let valid = blob(16, 24_680, 7);
    assert!(parse_model_blob(LumaUpscalerMode::ArtCnnC4F16, &valid).is_ok());
    assert_eq!(
        parse_model_blob(LumaUpscalerMode::ArtCnnC4F16, &valid[..12]).unwrap_err(),
        unexpected_header()
    );

    let mut blob = valid.to_vec();
    blob[0] ^= 0xff;
    assert_eq!(
        parse_model_blob(LumaUpscalerMode::ArtCnnC4F16, &blob).unwrap_err(),
        unexpected_header()
    );

    let mut blob = valid.to_vec();
    blob[4..8].copy_from_slice(&(BLOB_VERSION + 1).to_le_bytes());
    assert_eq!(
        parse_model_blob(LumaUpscalerMode::ArtCnnC4F16, &blob).unwrap_err(),
        unexpected_header()
    );

    let mut blob = valid.to_vec();
    blob[12..16].copy_from_slice(&1u32.to_le_bytes());
    assert_eq!(
        parse_model_blob(LumaUpscalerMode::ArtCnnC4F16, &blob).unwrap_err(),
        unexpected_header()
    );

    let mut blob = valid.to_vec();
    blob[8..12].copy_from_slice(&32u32.to_le_bytes());
    let error = parse_model_blob(LumaUpscalerMode::ArtCnnC4F16, &blob).unwrap_err();
    assert!(error.message().contains("feature count 32"));

    let error = parse_model_blob(
        LumaUpscalerMode::ArtCnnC4F16,
        &valid[..valid.len() - HALF4_BYTES],
    )
    .unwrap_err();
    assert!(error
        .message()
        .contains("payload is 24672 bytes, expected 24680"));

    let models = EmbeddedModels {
        c4f16: &valid,
        c4f16_ds: &valid,
        c4f32: &valid,
    };
    assert_eq!(
        model_for_mode(LumaUpscalerMode::Off, models).unwrap_err(),
        no_weights()
    );
}

#[test]
fn headers_are_read_in_little_endian_order() {
    let valid = blob(0x0102_0304, 0, 0);
    assert_eq!(valid.len(), BLOB_HEADER_BYTES);
    let header = ArtCnnBlobHeader::parse(&valid).unwrap();
    assert_eq!(header.magic, 0x4E4E_4341);
    assert_eq!(header.version, 1);
    assert_eq!(header.feature_count, 0x0102_0304);
    assert_eq!(header.reserved, 0);
}

#[test]
fn layouts_fill_their_payload() {
    assert_eq!(LayerOffsets::total_half4(4), 3_085);
    assert_eq!(LayerOffsets::total_half4(8), 11_929);
    assert!(ArtCnnModelLayout::for_mode(LumaUpscalerMode::Off).is_none());
    let layout = ArtCnnModelLayout::for_mode(LumaUpscalerMode::ArtCnnC4F32).unwrap();
    assert_eq!(layout.feature_count, 32);
    assert_eq!(layout.payload_bytes(), 95_432);
}

#[test]
fn execution_policy_preserves_defaults_and_bounded_overrides() {
    let c4f16 = ArtCnnExecutionPolicy::from_overrides(LumaUpscalerMode::ArtCnnC4F16, None, None);
    assert_eq!(c4f16.scalar_block, (2, 2));
    assert_eq!(c4f16.matrix_pixel_fragments, 8);

    let tuned = ArtCnnExecutionPolicy::from_overrides(
        LumaUpscalerMode::ArtCnnC4F32,
        Some("4x3"),
        Some("5"),
    );
    assert_eq!(tuned.scalar_block, (4, 3));
    assert_eq!(tuned.matrix_pixel_fragments, 5);

    let rejected = ArtCnnExecutionPolicy::from_overrides(
        LumaUpscalerMode::ArtCnnC4F32,
        Some("5x2"),
        Some("0"),
    );
    assert_eq!(rejected.scalar_block, (2, 1));
    assert_eq!(rejected.matrix_pixel_fragments, 8);

    assert_eq!(
        ArtCnnBackendOverride::parse("scalar"),
        Some(ArtCnnBackendOverride::Scalar)
    );
    assert_eq!(
        ArtCnnBackendOverride::parse("matmul"),
        Some(ArtCnnBackendOverride::Matrix)
    );
    assert_eq!(ArtCnnBackendOverride::parse("automatic"), None);
}

#[test]
fn block_text_is_read_as_numbers_are_written() {
    assert_eq!(parse_scalar_block("1x1"), Some((1, 1)));
    assert_eq!(parse_scalar_block("+4x04"), Some((4, 4)));
    assert_eq!(parse_scalar_block(" 2 x 1 "), None);
    assert_eq!(parse_scalar_block("2"), None);
    assert_eq!(parse_scalar_block("2x"), None);
    assert_eq!(parse_scalar_block("0x2"), None);
    assert_eq!(parse_scalar_block("2x3x4"), None);
    assert_eq!(parse_scalar_block("99999999999999999999x1"), None);
}

#[test]
fn frame_token_cache_only_reuses_stable_some_tokens() {
    let mut cache = FrameTokenCache::default();
    assert!(!cache.matches(None));
    assert!(!cache.matches(Some(7)));

    // A failed pass leaves the key alone: nothing was committed.
    assert!(!cache.matches(Some(7)));
    cache.commit(Some(7));
    assert!(cache.matches(Some(7)));
    assert!(!cache.matches(Some(8)));

    cache.commit(Some(8));
    assert!(cache.matches(Some(8)));
    assert!(!cache.matches(None));
    cache.commit(None);
    assert!(!cache.matches(None));
    assert!(!cache.matches(Some(8)));

    cache.invalidate();
    assert!(!cache.matches(Some(8)));
}

#[test]
fn caches_of_one_token_are_equal() {
    let mut cleared = FrameTokenCache::default();
    cleared.commit(Some(7));
    assert_ne!(cleared, FrameTokenCache::default());
    cleared.invalidate();
    assert_eq!(cleared, FrameTokenCache::default());
    let (mut once, mut twice) = (FrameTokenCache::default(), FrameTokenCache::default());
    once.commit(Some(3));
    twice.commit(Some(9));
    twice.commit(Some(3));
    assert_eq!(once, twice);
}

#[test]
fn tiled_dispatch_has_seven_passes_per_tile_and_shrinks_halo() {
    let offsets = LayerOffsets::for_slices(4);
    let records = build_dispatch_records(513, 257, &offsets, 4);
    assert_eq!(records.len(), 4 * 7);
    assert_eq!(records[0].params.dispatch, [0, 524, 268, 4]);
    assert_eq!(records[1].params.dispatch, [1, 522, 266, 4]);
    assert_eq!(records[6].params.dispatch, [6, 512, 256, 4]);
    assert_eq!(records[7].params.image_core[2..4], [1, 256]);
}

#[test]
fn tiles_follow_each_other_row_by_row() {
    let offsets = LayerOffsets::for_slices(4);
    let records = build_dispatch_records(513, 257, &offsets, 4);
    assert_eq!(records[0].kind, DispatchKind::Conv0);
    assert_eq!(records[3].kind, DispatchKind::Mid(2));
    assert_eq!(records[6].kind, DispatchKind::Conv6);
    assert_eq!(records[6].workgroups(), (64, 32));
    assert_eq!(records[0].params.image_core, [513, 257, 512, 256]);
    assert_eq!(records[14].params.image_core[2..4], [512, 1]);
    assert_eq!(records[21].params.image_core[2..4], [1, 1]);
    assert_eq!(middle_textures(0), (0, 1));
}

#[test]
fn an_upscaler_starts_switched_off() {
    let upscaler = D3d11ArtCnn::default();
    assert_eq!(upscaler.mode, LumaUpscalerMode::Off);
    assert_eq!(upscaler.status, LumaUpscalerBackendStatus::Off);
    assert!(upscaler.resources.is_none());
    assert!(upscaler.pool.is_none());
    assert_eq!((upscaler.fallback_count, upscaler.upscaled_frames), (0, 0));
}

#[test]
fn an_encoded_frame_is_not_run_again() {
    let mut upscaler = D3d11ArtCnn::default();
    assert!(matches!(upscaler.encode(64, 64, Some(1)), Ok(D3d11EncodeStep::Skip)));
    // A feature level of 11.0 carries the compute shaders.
    let step = upscaler.set_mode(LumaUpscalerMode::ArtCnnC4F16, 0xb000);
    assert!(matches!(step, Ok(D3d11ModelStep::Build)));
    let model = D3d11Model {
        slices: 4,
        offsets: LayerOffsets::for_slices(4),
    };
    assert!(upscaler.model_built(Ok(model)).is_ok());
    assert_eq!(upscaler.status, LumaUpscalerBackendStatus::Scalar);

    match upscaler.encode(64, 64, Some(1)) {
        Ok(D3d11EncodeStep::Run { rebuild_pool, records }) => {
            assert!(rebuild_pool);
            assert_eq!(records.len(), 7);
        }
        _ => panic!("expected a run"),
    }
    upscaler.pool_built(64, 64);
    upscaler.encoded(Some(1));
    assert_eq!(upscaler.upscaled_frames, 1);
    assert!(matches!(upscaler.encode(64, 64, Some(1)), Ok(D3d11EncodeStep::Reuse)));
    assert!(matches!(
        upscaler.encode(64, 64, Some(2)),
        Ok(D3d11EncodeStep::Run { rebuild_pool: false, .. })
    ));
    assert!(matches!(
        upscaler.encode(65, 64, Some(2)),
        Ok(D3d11EncodeStep::Run { rebuild_pool: true, .. })
    ));
    let error = upscaler.encode(0, 64, Some(3)).unwrap_err();
    assert_eq!(error.message(), "d3d11 ArtCNN input dimensions must be non-zero");

    upscaler.record_runtime_failure();
    assert_eq!(upscaler.status, LumaUpscalerBackendStatus::Inactive);
    assert_eq!(upscaler.fallback_count, 1);
}

#[test]
fn an_older_feature_level_is_refused() {
    let mut upscaler = D3d11ArtCnn::default();
    let error = upscaler
        .set_mode(LumaUpscalerMode::ArtCnnC4F32, 0xa100)
        .unwrap_err();
    assert_eq!(error.message(), "d3d11 ArtCNN requires Direct3D feature level 11.0");
    assert_eq!(upscaler.status, LumaUpscalerBackendStatus::Inactive);
    let step = upscaler.set_mode(LumaUpscalerMode::Off, 0xa100);
    assert!(matches!(step, Ok(D3d11ModelStep::Ready)));
    assert_eq!(upscaler.status, LumaUpscalerBackendStatus::Off);
}

#[test]
fn a_failed_model_leaves_the_upscaler_inactive() {
    let mut upscaler = D3d11ArtCnn::default();
    let step = upscaler.attach_device(LumaUpscalerMode::ArtCnnC4F16, 0xb100);
    assert!(matches!(step, Ok(D3d11ModelStep::Build)));
    let error = upscaler.model_built(Err(renderer_error("no memory"))).unwrap_err();
    assert_eq!(error.message(), "no memory");
    assert_eq!(upscaler.status, LumaUpscalerBackendStatus::Inactive);
}

#[test]
fn the_buffer_plan_follows_the_payload() {
    let c4f16 = blob(16, 24_680, 1);
    let c4f32 = blob(32, 95_432, 3);
    let models = EmbeddedModels {
        c4f16: &c4f16,
        c4f16_ds: &c4f16,
        c4f32: &c4f32,
    };
    let plan = plan_model(LumaUpscalerMode::ArtCnnC4F32, models).unwrap();
    assert_eq!(plan.byte_width, 95_432);
    assert_eq!(plan.elements, 11_929);
    assert_eq!(plan_model(LumaUpscalerMode::Off, models).unwrap_err(), no_weights());
    assert_eq!(feature_texture_size(), (524, 268));
}

#[test]
fn metal_passes_read_what_the_pass_before_wrote() {
    let offsets = LayerOffsets::for_slices(4);
    let passes = conv_passes(&offsets);
    assert_eq!(passes.len(), 7);
    assert_eq!(passes[0].source, PassTexture::Luma);
    assert_eq!(passes[6].target, PassTexture::Output);
    for k in 1..7 {
        assert_eq!(passes[k].source, passes[k - 1].target);
    }
    assert_eq!(passes[6].params.weight_offset, 2_940);
    assert_eq!(passes[6].params.bias_offset, 3_084);
}

#[test]
fn metal_grids_cover_the_image() {
    assert_eq!(threadgroup_grid(1920, 1080, (2, 2)), (60, 34));
    assert_eq!(threadgroup_grid(1, 1, (1, 1)), (1, 1));
    assert_eq!(allocated_bytes(10, Some((5, [1, 2, 3]))), 21);
    assert_eq!(allocated_bytes(10, None), 10);
}

fn built(build: UpscalerBuild) -> UpscalerResources {
    UpscalerResources {
        build,
        slices: 4,
        block: (2, 2),
        offsets: LayerOffsets::for_slices(4),
        pool: None,
    }
}

#[test]
fn a_failed_matrix_build_falls_back_to_scalar_kernels() {
    let mut upscaler = LumaUpscaler::default();
    upscaler.set_mode(LumaUpscalerMode::ArtCnnC4F16);
    assert_eq!(upscaler.active_backend(), LumaUpscalerBackendStatus::Inactive);
    let choice = upscaler.backend_choice(None, true);
    assert_eq!(
        choice,
        BackendChoice {
            matmul: true,
            fallback_to_scalar: true
        }
    );
    let build = match upscaler.begin_frame(choice) {
        UpscalerStep::Spawn(build) => build,
        _ => panic!("expected a build"),
    };
    assert!(build.matmul);
    upscaler.build_spawned(build);
    assert_eq!(upscaler.active_backend(), LumaUpscalerBackendStatus::Building);
    let step = upscaler
        .build_polled(choice, BuildReport::Failed(renderer_error("no kernel")))
        .unwrap();
    assert!(!matches!(step, UpscalerStep::Ready));
    assert!(upscaler.auto_matmul_failed);
    assert_eq!(upscaler.auto_matmul_fallbacks, 1);
    assert!(!upscaler.backend_choice(None, true).matmul);
}

#[test]
fn a_finished_build_serves_frames() {
    let mut upscaler = LumaUpscaler::default();
    upscaler.set_mode(LumaUpscalerMode::ArtCnnC4F16);
    upscaler.set_backend(UpscalerBackend::Scalar);
    let choice = upscaler.backend_choice(None, true);
    assert!(!choice.matmul);
    let build = match upscaler.begin_frame(choice) {
        UpscalerStep::Spawn(build) => build,
        _ => panic!("expected a build"),
    };
    upscaler.build_spawned(build);
    assert!(matches!(upscaler.begin_frame(choice), UpscalerStep::Poll));
    let step = upscaler
        .build_polled(choice, BuildReport::Built(built(build)))
        .unwrap();
    assert!(matches!(step, UpscalerStep::Ready));
    assert_eq!(upscaler.active_backend(), LumaUpscalerBackendStatus::Scalar);
    assert!(upscaler.needs_pool(64, 36, 25));
    upscaler.pool_built(64, 36, 25);
    assert!(!upscaler.needs_pool(64, 36, 25));
    assert!(upscaler.needs_pool(64, 37, 25));
    assert!(!upscaler.has_frame(Some(9)));
    upscaler.encoded(Some(9));
    assert!(upscaler.has_frame(Some(9)));
    assert!(!upscaler.has_frame(None));
    upscaler.set_mode(LumaUpscalerMode::Off);
    assert_eq!(upscaler.active_backend(), LumaUpscalerBackendStatus::Off);
    assert!(matches!(upscaler.begin_frame(choice), UpscalerStep::Skip));
}
