//! What the text of the Metal video shader holds. It is the only shader text of
//! the library, so the tests of several shaders look at this one.

use erika::danmaku::{DanmakuBatchInstance, INSTANCE_BYTES};
use erika::metal_shader::video_shader_source;

fn holds(text: &str) -> bool {
    video_shader_source().contains(text)
}

#[test]
fn video_shader_has_bit_depth_aware_range_expansion() {
    assert!(holds("uniforms.is_p010"));
    assert!(holds("64.0 / 1023.0"));
    assert!(holds("512.0 / 1023.0"));
    assert!(holds("1023.0 / 876.0"));
    assert!(holds("1023.0 / 896.0"));
    assert!(holds("16.0 / 255.0"));
    assert!(holds("128.0 / 255.0"));
    assert!(holds("255.0 / 219.0"));
    assert!(holds("255.0 / 224.0"));
}

#[test]
fn video_shader_keeps_source_and_target_transfer_separate() {
    assert!(holds("source_transfer"));
    assert!(holds("target_transfer"));
}

#[test]
fn video_shader_maps_video_quad_from_presentation_layout() {
    assert!(holds("float4 rect"));
    assert!(holds("float4 viewport"));
    assert!(holds("uniforms.rect.xy"));
    assert!(holds("uniforms.rect.zw"));
}

#[test]
fn video_shader_has_edr_output_headroom_clamp() {
    assert!(holds("edr_output"));
    assert!(holds("target_peak_nits(uniforms) / target_reference_white_nits(uniforms)"));
    assert!(holds("return final_output(rgb, alpha, uniforms)"));
}

#[test]
fn overlay_shader_linearizes_the_ui_for_extended_linear_output() {
    assert!(holds("if (ui_nits.y > 0.0)"));
    assert!(holds("float3 linear_rgb = pow(max(rgb, float3(0.0)), float3(2.2))"));
    assert!(holds("max(ui_nits.x, 1.0) / max(ui_nits.y, 1.0)"));
}

#[test]
fn gamut_lut_shader_samples_the_target_black_to_peak_axis() {
    assert!(holds("float lut_min = pq_code(uniforms.tone_map_extra.z)"));
    assert!(holds("clamp((ipt.x - lut_min) / lut_range, 0.0, 1.0)"));
    assert!(holds("pos.y * (31.0 / 32.0) + 0.5 / 32.0"));
    assert!(holds("pos.x * (47.0 / 48.0) + 0.5 / 48.0"));
}

#[test]
fn video_shader_reconstructs_packed_alpha_as_premultiplied_output() {
    assert!(holds("uniforms.video_alpha_mode == 1"));
    assert!(holds("in.tex_coord.x * 0.5"));
    assert!(holds("0.5 + in.tex_coord.x * 0.5"));
    assert!(holds("premultiplied = clamp(rgb"));
    assert!(holds("float4(premultiplied, alpha)"));
}

#[test]
fn video_shader_uses_absolute_nits_for_tone_mapping() {
    let source = video_shader_source();
    assert!(holds("float4 nits"));
    assert!(holds("pq_absolute_peak_nits = 10000.0"));
    assert!(holds("source_reference_to_nits"));
    assert!(holds("tone_map_nits"));
    assert!(holds("target_nits_to_reference_linear"));
    let decode = source
        .find("rgb = transfer_to_source_reference_linear")
        .unwrap();
    let source_nits = source.find("rgb = source_reference_to_nits").unwrap();
    let tone_map = source.find("rgb = tone_map_nits").unwrap();
    let target_reference = source
        .find("rgb = target_nits_to_reference_linear")
        .unwrap();
    let output = source
        .find("rgb = target_reference_linear_to_output")
        .unwrap();
    assert!(decode < source_nits);
    assert!(source_nits < tone_map);
    assert!(tone_map < target_reference);
    assert!(target_reference < output);
}

#[test]
fn video_shader_runs_the_ipt_tone_map_before_gamut_compression() {
    let source = video_shader_source();
    assert!(holds("gamut_matrix_rows"));
    assert!(holds("apply_gamut_map"));
    assert!(holds("ipt_matrix_rows"));
    assert!(holds("st2094_pick_knee"));
    assert!(holds("tone_map_curve_pq"));
    let tone_map = source.find("rgb = tone_map_nits").unwrap();
    let compress = source.find("rgb = gamut_compress").unwrap();
    assert!(tone_map < compress);
    assert!(!holds("rgb = apply_gamut_map"));
}

#[test]
fn overlay_shader_supports_libass_alpha_masks() {
    assert!(holds("overlay_mode"));
    assert!(holds("tex_rect"));
    assert!(holds("constant OverlayUniforms& uniforms [[buffer(0)]]"));
    assert!(holds(
        "out.tex_coord = uniforms.tex_rect.xy + tex_coords[vertex_id] * uniforms.tex_rect.zw"
    ));
    assert!(holds("uniforms.color.a * sampled.r"));
}

#[test]
fn danmaku_shader_selects_its_atlas_per_instance() {
    assert_eq!(std::mem::size_of::<DanmakuBatchInstance>(), 64);
    assert_eq!(INSTANCE_BYTES, 64);
    assert!(holds("uint atlas_texture;"));
    assert!(holds("fill_atlas [[texture(0)]]"));
    assert!(holds("outline_atlas [[texture(1)]]"));
    assert!(holds("out.atlas_texture = glyph.atlas_texture;"));
}

#[test]
fn hlg_decode_formula_is_identical_across_video_shaders() {
    for text in [
        "hlg_inverse_oetf",
        "0.17883277",
        "0.28466892",
        "0.55991073",
        "e * e / 3.0",
        "(exp((e - c) / a) + b) / 12.0",
        "source_transfer == 4",
        "hlg_nominal_peak_nits = 1000.0",
        "hlg_system_gamma = 1.2",
        "pow(scene_luma, hlg_system_gamma - 1.0)",
    ] {
        assert!(holds(text), "{text}");
    }
}

#[test]
fn tone_map_pipeline_is_present_across_video_shaders() {
    for text in [
        "st2094_pick_knee",
        "tone_map_curve_pq",
        "ipt_matrix_rows",
        "tone_map_extra",
        "tone_map_coeffs",
        "0.0975689",
        "tone_map == 4",
        "tone_map == 5",
        "SMPTE ST 2094-10",
        "0.7399",
    ] {
        assert!(holds(text), "{text}");
    }
    assert!(!holds("rgb = apply_gamut_map(rgb)"));
}

#[test]
fn gamut_lut_sampling_is_present_across_video_shaders() {
    for text in [
        "gamut_lut_enabled",
        "0.5 + 0.5 * atan2",
        "ipt_matrix_rows[6].xyz",
        "sampled.y - 0.5",
        "gamut_compress",
    ] {
        assert!(holds(text), "{text}");
    }
}

#[test]
fn gamut_compress_formula_is_present_across_video_shaders() {
    for text in [
        "gamut_compress",
        "smoothstep(0.0, 1.0, outness)",
        "rgb = gamut_compress(rgb)",
    ] {
        assert!(holds(text), "{text}");
    }
}

#[test]
fn overlay_shaders_handle_sdr_ui_for_hdr_targets() {
    for text in [
        "float3 sdr_ui_color_to_target_output",
        "pq_inverse_eotf(nits.r / pq_absolute_peak_nits)",
    ] {
        assert!(holds(text), "{text}");
    }
}

#[test]
fn dovi_formulas_are_present_across_video_shaders() {
    for text in [
        "dovi_flags",
        "dovi_pivots",
        "dovi_bounds",
        "dovi_coefficients",
        "dovi_mmr",
        "dovi_nonlinear_matrix",
        "dovi_nonlinear_offset",
        "dovi_lms_matrix",
        "dovi_reshaped_signal",
        "dovi_signal_to_pq_rgb",
        "dovi_lms_to_rgb",
    ] {
        assert!(holds(text), "{text}");
    }
}
