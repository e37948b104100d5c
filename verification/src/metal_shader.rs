//! The Metal program that draws video, overlays and comments, in pieces.
use vstd::prelude::*;

verus! {

/// Uniforms of the video and the functions between code values and light.
pub const TRANSFER_FUNCTIONS: &'static str = r#"

struct VertexOut {
    float4 position [[position]];
    float2 tex_coord;
};

struct VideoUniforms {
    uint is_p010;
    uint full_range;
    uint source_transfer;
    uint target_transfer;
    uint tone_map;
    uint edr_output;
    uint video_alpha_mode;
    uint reserved1;
    float4 rect;
    float4 viewport;
    float4 nits;
    float4 luma_coefficients;
    float4 gamut_matrix_rows[3];
    float4 ipt_matrix_rows[9];
    float4 tone_map_extra;
    float4 tone_map_coeffs;
    uint gamut_lut_enabled;
    uint gamut_primaries;
    uint gamut_reserved0;
    uint gamut_reserved1;
    float4 dovi_flags;
    float4 dovi_pivots[6];
    float4 dovi_bounds[3];
    float4 dovi_coefficients[24];
    float4 dovi_mmr[144];
    float4 dovi_nonlinear_matrix[3];
    float4 dovi_nonlinear_offset;
    float4 dovi_lms_matrix[3];
};

float source_peak_nits(constant VideoUniforms& uniforms) {
    return max(uniforms.nits.x, 1.0);
}

float target_peak_nits(constant VideoUniforms& uniforms) {
    return max(uniforms.nits.y, 1.0);
}

float source_reference_white_nits(constant VideoUniforms& uniforms) {
    return max(uniforms.nits.z, 1.0);
}

float target_reference_white_nits(constant VideoUniforms& uniforms) {
    return max(uniforms.nits.w, 1.0);
}

float pq_eotf(float encoded) {
    constexpr float m1 = 0.1593017578125;
    constexpr float m2 = 78.84375;
    constexpr float c1 = 0.8359375;
    constexpr float c2 = 18.8515625;
    constexpr float c3 = 18.6875;
    float p = pow(max(encoded, 0.0), 1.0 / m2);
    float num = max(p - c1, 0.0);
    float den = max(c2 - c3 * p, 0.000001);
    return pow(num / den, 1.0 / m1);
}

float pq_inverse_eotf(float normalized_nits) {
    constexpr float m1 = 0.1593017578125;
    constexpr float m2 = 78.84375;
    constexpr float c1 = 0.8359375;
    constexpr float c2 = 18.8515625;
    constexpr float c3 = 18.6875;
    float p = pow(clamp(normalized_nits, 0.0, 1.0), m1);
    return pow((c1 + c2 * p) / max(1.0 + c3 * p, 0.000001), m2);
}

// BT.2100 HLG inverse OETF: nonlinear signal E' to scene linear light in
// [0, 1].
float hlg_inverse_oetf(float encoded) {
    constexpr float a = 0.17883277;
    constexpr float b = 0.28466892;
    constexpr float c = 0.55991073;
    float e = max(encoded, 0.0);
    if (e <= 0.5) {
        return e * e / 3.0;
    }
    return (exp((e - c) / a) + b) / 12.0;
}

float3 transfer_to_source_reference_linear(float3 rgb, constant VideoUniforms& uniforms) {
    rgb = max(rgb, float3(0.0));
    if (uniforms.source_transfer == 3) {
        constexpr float pq_absolute_peak_nits = 10000.0;
        return float3(pq_eotf(rgb.r), pq_eotf(rgb.g), pq_eotf(rgb.b))
            * (pq_absolute_peak_nits / source_reference_white_nits(uniforms));
    }
    if (uniforms.source_transfer == 4) {
        // HLG: inverse OETF to scene linear, then the BT.2100 OOTF (system
        // gamma 1.2 at the 1000 nit nominal peak) to display linear,
        // normalized to source reference white like the PQ branch above.
        constexpr float hlg_nominal_peak_nits = 1000.0;
        constexpr float hlg_system_gamma = 1.2;
        float3 scene = float3(
            hlg_inverse_oetf(rgb.r),
            hlg_inverse_oetf(rgb.g),
            hlg_inverse_oetf(rgb.b)
        );
        float scene_luma = max(dot(uniforms.luma_coefficients.xyz, scene), 0.000001);
        return scene * (hlg_nominal_peak_nits * pow(scene_luma, hlg_system_gamma - 1.0)
            / source_reference_white_nits(uniforms));
    }
    if (uniforms.source_transfer == 1) {
        return pow(rgb, float3(2.2));
    }
    if (uniforms.source_transfer == 2) {
        return pow(rgb, float3(2.4));
    }
    return rgb;
}

float3 source_reference_to_nits(float3 rgb, constant VideoUniforms& uniforms) {
    return max(rgb, float3(0.0)) * source_reference_white_nits(uniforms);
}

float pq_code(float nits) {
    return pq_inverse_eotf(clamp(nits, 0.0, 10000.0) / 10000.0);
}
"#;

/// Helpers of the tone curve.
pub const KNEE: &'static str = r#"
float nits_from_pq(float code) {
    return 10000.0 * pq_eotf(clamp(code, 0.0, 1.0));
}

// Simple primaries conversion (HDR10 output path); the tone-mapped path
// converts primaries inside the IPT roundtrip instead.
float3 apply_gamut_map(float3 rgb, constant VideoUniforms& uniforms) {
    return float3(
        dot(uniforms.gamut_matrix_rows[0].xyz, rgb),
        dot(uniforms.gamut_matrix_rows[1].xyz, rgb),
        dot(uniforms.gamut_matrix_rows[2].xyz, rgb)
    );
}

// Smoothstep with arbitrary edge order (Metal smoothstep has undefined
// results when edge0 >= edge1, and the knee tuning term deliberately uses
// reversed edges).
float sstep(float edge0, float edge1, float x) {
    float t = clamp((x - edge0) / (edge1 - edge0), 0.0, 1.0);
    return t * t * (3.0 - 2.0 * t);
}

// The ST 2094 knee on absolute PQ codes. The source
// pivot follows the scene average luminance when known and stays within
// [10%, 80%] of the range; the destination pivot rescales it into the output
// range and then adapts towards the 1:1 line (knee_adaptation 0.4).
float2 st2094_pick_knee(float src_min, float src_max, float src_avg, float dst_min, float dst_max) {
    constexpr float knee_adaptation = 0.4;
    constexpr float min_knee = 0.1;
    constexpr float max_knee = 0.8;
    constexpr float def_knee = 0.4;
    float src_knee_min = mix(src_min, src_max, min_knee);
    float src_knee_max = mix(src_min, src_max, max_knee);
    float dst_knee_min = mix(dst_min, dst_max, min_knee);
    float dst_knee_max = mix(dst_min, dst_max, max_knee);
    float fallback = mix(src_min, src_max, def_knee);
    float src_knee = clamp(src_avg > 0.0 ? src_avg : fallback, src_knee_min, src_knee_max);
    float target = (src_knee - src_min) / max(src_max - src_min, 0.000001);
    float adapted = mix(dst_min, dst_max, target);
    float tuning = 1.0 - sstep(max_knee, def_knee, target) * sstep(min_knee, def_knee, target);
    float adaptation = mix(knee_adaptation, 1.0, tuning);
    float dst_knee = clamp(mix(src_knee, adapted, adaptation), dst_knee_min, dst_knee_max);
    return float2(src_knee, dst_knee);
}
"#;

/// The tone curve on the intensity axis.
pub const TONE_CURVE: &'static str = r#"
// The tone-map curve evaluated on the IPT intensity axis (PQ codes).
// `param` is the per-operator
// curve parameter from ToneMapConfig::curve_param (0 = operator default).
float tone_map_curve_pq(float x_in, float param, constant VideoUniforms& uniforms) {
    float src_peak = source_peak_nits(uniforms);
    float dst_peak = target_peak_nits(uniforms);
    float src_avg = uniforms.tone_map_extra.y;
    float dst_black = uniforms.tone_map_extra.z;
    float in_min = 0.0;
    float in_max = max(pq_code(src_peak), 0.000001);
    float out_min = pq_code(dst_black);
    float out_max = max(pq_code(dst_peak), 0.000001);
    float out_range = max(out_max - out_min, 0.000001);
    float x = clamp(x_in, in_min, in_max);
    if (uniforms.tone_map == 0) {
        // Clip: values within the source range pass through untouched.
        return x;
    }
    if (uniforms.tone_map == 1) {
        // Reinhard (output-relative).
        float peak = in_max / out_range;
        float contrast = param > 0.0 ? param : 0.5;
        float offset = (1.0 - contrast) / max(contrast, 0.000001);
        float scale = (peak + offset) / peak;
        float t = x / out_range;
        float mapped = t / (t + offset) * scale;
        return mapped * out_range + out_min;
    }
    if (uniforms.tone_map == 2) {
        // Mobius: Mobius transform with a 1:1 linear region below the knee.
        float peak = in_max / out_range;
        float j = param > 0.0 ? param : 0.3;
        float a = -j * j * (peak - 1.0) / (j * j - 2.0 * j + peak);
        float b = (j * j - 2.0 * j * peak + peak) / max(peak - 1.0, 0.000001);
        float scale = (b * b + 2.0 * b * j + j * j) / (b - a);
        float t = x / out_range;
        float mapped = t > j ? scale * (t + a) / (t + b) : t;
        return mapped * out_range + out_min;
    }
    if (uniforms.tone_map == 3) {
        // ITU-R BT.2390 EETF with black-point compensation.
        float knee_offset = param > 0.0 ? param : 1.0;
        float max_lum = clamp(out_max / in_max, 0.0, 1.0);
        float min_lum = out_min / in_max;
        float ks = (1.0 + knee_offset) * max_lum - knee_offset;
        float bp = min(max(1.0 / max(min_lum, 0.000001), 0.0), 4.0);
        float u = x / in_max;
        if (ks < 1.0 && u > ks) {
            float tb = (u - ks) / (1.0 - ks);
            float tb2 = tb * tb;
            float tb3 = tb2 * tb;
            u = (2.0 * tb3 - 3.0 * tb2 + 1.0) * ks
               + (tb3 - 2.0 * tb2 + tb) * (1.0 - ks)
               + (-2.0 * tb3 + 3.0 * tb2) * max_lum;
        }
        if (u < 1.0) {
            u = u + min_lum * pow(1.0 - u, bp);
            float gain = max_lum < 1.0
                ? 1.0 / (1.0 + min_lum / max_lum * pow(1.0 - max_lum, bp))
                : 1.0;
            u = gain * (u - min_lum) + min_lum;
        }
        return u * in_max;
    }
    if (uniforms.tone_map == 4) {
        // Spline: perceptually linear single-pivot polynomial.
        float contrast = param > 0.0 ? param : 0.3;
        float fallback_avg = clamp(0.4 * src_peak, 100.0, 400.0);
        float effective_src_avg = src_avg > 0.0 ? src_avg : fallback_avg;
        float2 knee = st2094_pick_knee(
            in_min,
            in_max,
            pq_code(effective_src_avg),
            out_min,
            out_max
        );
        float src_pivot = knee.x;
        float dst_pivot = knee.y;
        float slope0 = (dst_pivot - out_min) / max(src_pivot - in_min, 0.000001);
        float ratio = clamp(1.5 * (in_max / out_max - 1.0), 0.2, 1.2);
        float slope = pow(slope0, (1.0 - contrast) * ratio);
        float in_min0 = in_min - src_pivot;
        float in_max0 = in_max - src_pivot;
        float out_min0 = out_min - dst_pivot;
        float out_max0 = out_max - dst_pivot;
        float pa = (out_min0 - slope * in_min0) / (in_min0 * in_min0);
        float qa = (slope * in_max0 - out_max0) / (2.0 * in_max0 * in_max0 * in_max0);
        float qb = -3.0 * (slope * in_max0 - out_max0) / (2.0 * in_max0 * in_max0);
        float xr = x - src_pivot;
        float mapped = xr > 0.0
            ? ((qa * xr + qb) * xr + slope) * xr
            : (pa * xr + slope) * xr;
        return mapped + dst_pivot;
    }
    if (uniforms.tone_map == 5) {
        // ITU-R BT.2446 method A: Weber-law log compression from the source
        // peak envelope and a standardized S-curve.
        float phdr = 1.0 + 32.0 * pow(src_peak / 10000.0, 1.0 / 2.4);
        float psdr = 1.0 + 32.0 * pow(dst_peak / 10000.0, 1.0 / 2.4);
        float t = pow(nits_from_pq(x) / max(src_peak, 0.000001), 1.0 / 2.4);
        t = log(1.0 + (phdr - 1.0) * t) / log(phdr);
        if (t <= 0.7399) {
            t = 1.0770 * t;
        } else if (t < 0.9909) {
            t = (-1.1510 * t + 2.7811) * t - 0.6302;
        } else {
            t = 0.5 * t + 0.5;
        }
        t = (pow(psdr, t) - 1.0) / (psdr - 1.0);
        // BT.1886 EOTF from the target black point and peak.
        float lb = pow(max(dst_black, 0.0), 1.0 / 2.4);
        float lw = pow(max(dst_peak, 0.0), 1.0 / 2.4);
        return pq_code(pow((lw - lb) * t + lb, 2.4));
    }
    // SMPTE ST 2094-10 (DolbyVision's dynamic-metadata curve): rational
    // Mobius interpolation in absolute nits; coefficients are solved per
    // frame on the CPU from the same scene pivot.
    float c1 = uniforms.tone_map_coeffs.x;
    float c2 = uniforms.tone_map_coeffs.y;
    float c3 = uniforms.tone_map_coeffs.z;
    float x_nits = nits_from_pq(x);
    float y_nits = (c1 + c2 * x_nits) / max(1.0 + c3 * x_nits, 0.000001);
    return pq_code(clamp(y_nits, 0.0, 10000.0));
}
"#;

/// Tone and gamut mapping of one colour.
pub const TONE_MAP: &'static str = r#"
float3 tone_map_nits(
    float3 input_nits,
    texture3d<float, access::sample> gamut_lut,
    sampler video_sampler,
    constant VideoUniforms& uniforms
) {
    if (uniforms.target_transfer == 3) {
        // HDR10 output: convert primaries by the gamut matrix and clamp to
        // the PQ range (no tone mapping; the display does the HDR mapping).
        return clamp(apply_gamut_map(max(input_nits, float3(0.0)) / source_reference_white_nits(uniforms), uniforms)
            * source_reference_white_nits(uniforms), float3(0.0), float3(10000.0));
    }
    // Color map: RGB in source primaries (absolute nits) to
    // HPE-LMS, PQ-encode, IPT, map the intensity axis and apply the
    // hue-preserving chroma rule, optionally sample the 3D gamut LUT in
    // IPT space, then decode back to RGB in the target primaries (rows 6-8).
    // The primaries conversion and gamut mapping happen in this single IPT pass.
    float3 rgb = max(input_nits, float3(0.0));
    float3 lms = float3(
        dot(uniforms.ipt_matrix_rows[0].xyz, rgb),
        dot(uniforms.ipt_matrix_rows[1].xyz, rgb),
        dot(uniforms.ipt_matrix_rows[2].xyz, rgb)
    );
    float3 lmspq = float3(pq_code(lms.r), pq_code(lms.g), pq_code(lms.b));
    float3 ipt = float3(
        dot(float3(0.4, 0.4, 0.2), lmspq),
        dot(float3(4.455, -4.851, 0.396), lmspq),
        dot(float3(0.8056, 0.3572, -1.1628), lmspq)
    );
    float i_orig = ipt.x;
    ipt.x = tone_map_curve_pq(ipt.x, uniforms.tone_map_extra.x, uniforms);
    // Chroma rule: clamp the saturation boost when brightening
    // and desaturate (by the cubic hull term) when the mapping darkens.
    float2 hull = float2(i_orig, ipt.x);
    float2 hull_c = ((hull - float2(6.0)) * hull + float2(9.0)) * hull;
    float ratio = min(i_orig / max(ipt.x, 0.000001), hull_c.y / max(hull_c.x, 0.000001));
    ipt.yz = ipt.yz * ratio;

    if (uniforms.gamut_lut_enabled != 0) {
        // I axis spans the target's [black, peak] in PQ codes
        // (tone_map_extra.z is the target black in nits, the same value the
        // LUT was generated for).
        float lut_min = pq_code(uniforms.tone_map_extra.z);
        float lut_max = max(pq_code(target_peak_nits(uniforms)), 0.000001);
        float lut_range = max(lut_max - lut_min, 0.000001);
        float3 pos = float3(
            clamp((ipt.x - lut_min) / lut_range, 0.0, 1.0),
            clamp(2.0 * length(ipt.yz), 0.0, 1.0),
            0.5 + 0.5 * atan2(ipt.z, ipt.y) / 3.14159265
        );
        // The lattice position must be remapped to
        // the texel-center coordinate, otherwise the low end of the chroma
        // axis (whose first texel stores zero chroma) leaks in and crushes
        // saturation.
        float3 idx = float3(
            pos.x * (47.0 / 48.0) + 0.5 / 48.0,
            pos.y * (31.0 / 32.0) + 0.5 / 32.0,
            pos.z * (255.0 / 256.0) + 0.5 / 256.0
        );
        float3 sampled = gamut_lut.sample(video_sampler, idx).xyz;
        ipt = float3(sampled.x, sampled.y - 0.5, sampled.z - 0.5);
    }

    float3 lmspq_out = float3(
        dot(float3(1.0, 0.0975689, 0.205226), ipt),
        dot(float3(1.0, -0.113876, 0.133217), ipt),
        dot(float3(1.0, 0.0326151, -0.676887), ipt)
    );
    float3 lms_out = float3(
        nits_from_pq(lmspq_out.r),
        nits_from_pq(lmspq_out.g),
        nits_from_pq(lmspq_out.b)
    );
    return float3(
        dot(uniforms.ipt_matrix_rows[6].xyz, lms_out),
        dot(uniforms.ipt_matrix_rows[7].xyz, lms_out),
        dot(uniforms.ipt_matrix_rows[8].xyz, lms_out)
    );
}
"#;

/// From target light to the values of the drawable.
pub const OUTPUT: &'static str = r#"
// Hue-preserving gamut mapping: the linear gamut matrix can push highly
// saturated wide-gamut colors outside the target gamut (negative
// components). Blending those towards luma shifts hue: BT.2020 primary
// red picks up blue and turns pink. Instead blend towards the naive clip
// by an out-of-gamut smoothstep factor: slightly-out colors stay nearly
// intact, strongly-out primaries land on the pure target primary with
// their hue intact.
// Brightness overshoot (> 1) is left for the tone map.
float3 gamut_compress(float3 rgb) {
    float lo = min(rgb.r, min(rgb.g, rgb.b));
    float outness = max(-lo, 0.0);
    float k = smoothstep(0.0, 1.0, outness);
    return mix(rgb, clamp(rgb, 0.0, 1.0), k);
}

float3 target_nits_to_reference_linear(float3 nits, constant VideoUniforms& uniforms) {
    // The encoding maps [target black, target peak] onto [0, 1] where
    // 1.0 is the target reference white, so the tone-map black-point
    // compensation lands back on true black instead of lifting it.
    float black = uniforms.tone_map_extra.z;
    float peak = target_peak_nits(uniforms);
    float range = max(peak - black, 0.0001);
    return max(nits - float3(black), float3(0.0)) / range
        * (range / target_reference_white_nits(uniforms));
}

float3 target_reference_linear_to_output(float3 rgb, constant VideoUniforms& uniforms) {
    if (uniforms.target_transfer == 3) {
        constexpr float pq_absolute_peak_nits = 10000.0;
        float3 nits = max(rgb, float3(0.0)) * target_reference_white_nits(uniforms);
        return float3(
            pq_inverse_eotf(nits.r / pq_absolute_peak_nits),
            pq_inverse_eotf(nits.g / pq_absolute_peak_nits),
            pq_inverse_eotf(nits.b / pq_absolute_peak_nits)
        );
    }
    if (uniforms.edr_output != 0) {
        return max(rgb, float3(0.0));
    }
    if (uniforms.target_transfer == 1) {
        return pow(max(rgb, float3(0.0)), float3(1.0 / 2.2));
    }
    if (uniforms.target_transfer == 2) {
        return pow(max(rgb, float3(0.0)), float3(1.0 / 2.4));
    }
    return rgb;
}

float4 final_output(float3 rgb, float alpha, constant VideoUniforms& uniforms) {
    float3 premultiplied;
    if (uniforms.target_transfer == 3) {
        premultiplied = clamp(rgb, 0.0, 1.0) * alpha;
        return float4(premultiplied, alpha);
    }
    if (uniforms.edr_output != 0) {
        float headroom = max(target_peak_nits(uniforms) / target_reference_white_nits(uniforms), 1.0);
        premultiplied = clamp(rgb, 0.0, headroom) * alpha;
        return float4(premultiplied, alpha);
    }
    premultiplied = clamp(rgb, 0.0, 1.0) * alpha;
    return float4(premultiplied, alpha);
}

// SDR composites the UI in the output transfer. HDR10 (target_transfer == 3)
// PQ-encodes it against ui_nits.x. An Apple EDR / extended-linear drawable
// holds linear light (ui_nits.y != 0), so the sRGB-encoded UI color must be
// linearized and scaled to the same reference white as the video pass.
float3 sdr_ui_color_to_target_output(float3 rgb, uint target_transfer, float4 ui_nits) {
    if (target_transfer == 3) {
        constexpr float pq_absolute_peak_nits = 10000.0;
        float3 linear = pow(max(rgb, float3(0.0)), float3(2.2));
        float3 nits = linear * max(ui_nits.x, 1.0);
        return float3(
            pq_inverse_eotf(nits.r / pq_absolute_peak_nits),
            pq_inverse_eotf(nits.g / pq_absolute_peak_nits),
            pq_inverse_eotf(nits.b / pq_absolute_peak_nits)
        );
    }
    if (ui_nits.y > 0.0) {
        float3 linear_rgb = pow(max(rgb, float3(0.0)), float3(2.2));
        return linear_rgb * (max(ui_nits.x, 1.0) / max(ui_nits.y, 1.0));
    }
    return rgb;
}

struct RangeExpandedYCbCr {
    float y;
    float2 cbcr;
};
"#;

/// Range expansion and the reshaping of dynamic metadata.
pub const RESHAPING: &'static str = r#"
RangeExpandedYCbCr expand_ycbcr_range(float y, float2 cbcr, constant VideoUniforms& uniforms) {
    if (uniforms.is_p010 != 0) {
        // P010 stores 10-bit codes as code << 6 in a 16-bit UNORM texture.
        constexpr float p010_scale = 65535.0 / 65472.0;
        y *= p010_scale;
        cbcr *= p010_scale;
    }
    if (uniforms.full_range != 0) {
        return RangeExpandedYCbCr { y, cbcr - float2(0.5) };
    }

    if (uniforms.is_p010 != 0) {
        y = (y - (64.0 / 1023.0)) * (1023.0 / 876.0);
        cbcr = (cbcr - float2(512.0 / 1023.0)) * (1023.0 / 896.0);
        return RangeExpandedYCbCr { y, cbcr };
    }

    y = (y - (16.0 / 255.0)) * (255.0 / 219.0);
    cbcr = (cbcr - float2(128.0 / 255.0)) * (255.0 / 224.0);
    return RangeExpandedYCbCr { y, cbcr };
}

// Dolby Vision RPU reshaping. The base-layer signal is
// reshaped per component through piecewise polynomial/MMR curves selected by
// pivot comparison, where MMR coefficients mix all three raw components.
float3 dovi_reshaped_signal(float3 sig_in, constant VideoUniforms& uniforms) {
    float3 sig = clamp(sig_in, 0.0, 1.0);
    float result[3] = { sig.r, sig.g, sig.b };
    float4 flags = uniforms.dovi_flags;
    for (uint c = 0u; c < 3u; c = c + 1u) {
        uint segments = uint(flags[1u + c]);
        if (segments == 0u) {
            continue;
        }
        float s = result[c];
        uint index = 0u;
        for (uint i = 0u; i < 7u; i = i + 1u) {
            float4 pivot_row = uniforms.dovi_pivots[2u * c + i / 4u];
            float pivot = pivot_row[i % 4u];
            if (s >= pivot) {
                index = index + 1u;
            }
        }
        float4 coeff = uniforms.dovi_coefficients[8u * c + index];
        if (coeff.w < 0.5) {
            s = (coeff.z * s + coeff.y) * s + coeff.x;
        } else {
            uint base = 48u * c + uint(coeff.y);
            uint order = uint(coeff.w);
            float4 sig_x = float4(
                sig.x * sig.y,
                sig.x * sig.z,
                sig.y * sig.z,
                sig.x * sig.y * sig.z
            );
            s = coeff.x;
            s = s + dot(uniforms.dovi_mmr[base].xyz, sig);
            s = s + dot(uniforms.dovi_mmr[base + 1u], sig_x);
            if (order >= 2u) {
                float3 sig2 = sig * sig;
                float4 sig_x2 = sig_x * sig_x;
                s = s + dot(uniforms.dovi_mmr[base + 2u].xyz, sig2);
                s = s + dot(uniforms.dovi_mmr[base + 3u], sig_x2);
                if (order >= 3u) {
                    s = s + dot(uniforms.dovi_mmr[base + 4u].xyz, sig2 * sig);
                    s = s + dot(uniforms.dovi_mmr[base + 5u], sig_x2 * sig_x);
                }
            }
        }
        float4 bounds = uniforms.dovi_bounds[c];
        result[c] = clamp(s, bounds.x, bounds.y);
    }
    return float3(result[0], result[1], result[2]);
}

// Reshaped nonlinear signal to PQ-encoded IPT via the RPU's ycc_to_rgb matrix
// and signal offsets. Applying the RPU offsets keeps integer offset codes
// exactly on sample codes (2^bits/(2^bits-1) folded in on the CPU).
float3 dovi_signal_to_pq_rgb(float3 sig, constant VideoUniforms& uniforms) {
    float3 reshaped = dovi_reshaped_signal(sig, uniforms) - uniforms.dovi_nonlinear_offset.xyz;
    return float3(
        dot(uniforms.dovi_nonlinear_matrix[0].xyz, reshaped),
        dot(uniforms.dovi_nonlinear_matrix[1].xyz, reshaped),
        dot(uniforms.dovi_nonlinear_matrix[2].xyz, reshaped)
    );
}

// Linearized BT.2020-referred HPE LMS back to linear RGB, using the composite
// of the fixed HPE inverse with the RPU's rgb_to_lms matrix (premultiplied on
// the CPU).
float3 dovi_lms_to_rgb(float3 linear, constant VideoUniforms& uniforms) {
    return float3(
        dot(uniforms.dovi_lms_matrix[0].xyz, linear),
        dot(uniforms.dovi_lms_matrix[1].xyz, linear),
        dot(uniforms.dovi_lms_matrix[2].xyz, linear)
    );
}
"#;

/// The vertex and fragment stages of the video.
pub const VIDEO_STAGES: &'static str = r#"
vertex VertexOut erika_video_vertex(
    uint vertex_id [[vertex_id]],
    constant VideoUniforms& uniforms [[buffer(0)]]) {
    constexpr float2 unit_positions[4] = {
        float2(0.0, 0.0),
        float2(1.0, 0.0),
        float2(0.0, 1.0),
        float2(1.0, 1.0),
    };
    constexpr float2 tex_coords[4] = {
        float2(0.0, 0.0),
        float2(1.0, 0.0),
        float2(0.0, 1.0),
        float2(1.0, 1.0),
    };
    float2 pixel = uniforms.rect.xy + unit_positions[vertex_id] * uniforms.rect.zw;
    float2 ndc = float2(
        pixel.x / max(uniforms.viewport.x, 1.0) * 2.0 - 1.0,
        1.0 - pixel.y / max(uniforms.viewport.y, 1.0) * 2.0
    );
    VertexOut out;
    out.position = float4(ndc, 0.0, 1.0);
    out.tex_coord = tex_coords[vertex_id];
    return out;
}

fragment float4 erika_video_fragment(
    VertexOut in [[stage_in]],
    texture2d<float, access::sample> luma_texture [[texture(0)]],
    texture2d<float, access::sample> chroma_texture [[texture(1)]],
    texture3d<float, access::sample> gamut_lut [[texture(2)]],
    sampler video_sampler [[sampler(0)]],
    constant VideoUniforms& uniforms [[buffer(0)]]) {
    bool packed_alpha = uniforms.video_alpha_mode == 1;
    float2 color_coord = packed_alpha
        ? float2(in.tex_coord.x * 0.5, in.tex_coord.y)
        : in.tex_coord;
    float2 alpha_coord = float2(0.5 + in.tex_coord.x * 0.5, in.tex_coord.y);
    float y_sample = luma_texture.sample(video_sampler, color_coord).r;
    float2 cbcr_sample = chroma_texture.sample(video_sampler, color_coord).rg;
    bool dovi_enabled = uniforms.dovi_flags.x != 0.0;
    float3 rgb;
    if (dovi_enabled) {
        // The base layer carries the raw 12-bit DV signal (10-bit container,
        // full range); range expansion and the YCbCr matrix are replaced by
        // the RPU reshaping + ycc_to_rgb path.
        float3 sig = float3(y_sample, cbcr_sample.x, cbcr_sample.y);
        if (uniforms.is_p010 != 0) {
            sig *= 65535.0 / 65472.0;
        }
        rgb = dovi_signal_to_pq_rgb(sig, uniforms);
    } else {
        RangeExpandedYCbCr expanded = expand_ycbcr_range(y_sample, cbcr_sample, uniforms);
        float y = expanded.y;
        float2 cbcr = expanded.cbcr;

        float kr = uniforms.luma_coefficients.x;
        float kg = max(uniforms.luma_coefficients.y, 0.000001);
        float kb = uniforms.luma_coefficients.z;
        rgb.r = y + 2.0 * (1.0 - kr) * cbcr.y;
        rgb.b = y + 2.0 * (1.0 - kb) * cbcr.x;
        rgb.g = (y - kr * rgb.r - kb * rgb.b) / kg;
    }
    rgb = transfer_to_source_reference_linear(rgb, uniforms);
    if (dovi_enabled) {
        rgb = dovi_lms_to_rgb(rgb, uniforms);
    }
    rgb = source_reference_to_nits(rgb, uniforms);
    rgb = tone_map_nits(rgb, gamut_lut, video_sampler, uniforms);
    rgb = target_nits_to_reference_linear(rgb, uniforms);
    rgb = gamut_compress(rgb);
    rgb = target_reference_linear_to_output(rgb, uniforms);
    float alpha = 1.0;
    if (packed_alpha) {
        float alpha_sample = luma_texture.sample(video_sampler, alpha_coord).r;
        alpha = clamp(expand_ycbcr_range(alpha_sample, float2(0.5), uniforms).y, 0.0, 1.0);
    }
    return final_output(rgb, alpha, uniforms);
}

struct OverlayUniforms {
    float4 rect;
    float4 tex_rect;
    float2 viewport;
    uint overlay_mode;
    uint target_transfer;
    float4 color;
    float4 ui_nits;
};
"#;

/// The stages of overlays and comments.
pub const OVERLAY_STAGES: &'static str = r#"
vertex VertexOut erika_overlay_vertex(
    uint vertex_id [[vertex_id]],
    constant OverlayUniforms& uniforms [[buffer(0)]]) {
    constexpr float2 unit_positions[4] = {
        float2(0.0, 0.0),
        float2(1.0, 0.0),
        float2(0.0, 1.0),
        float2(1.0, 1.0),
    };
    constexpr float2 tex_coords[4] = {
        float2(0.0, 0.0),
        float2(1.0, 0.0),
        float2(0.0, 1.0),
        float2(1.0, 1.0),
    };

    float2 pixel = uniforms.rect.xy + unit_positions[vertex_id] * uniforms.rect.zw;
    float2 ndc = float2(
        pixel.x / max(uniforms.viewport.x, 1.0) * 2.0 - 1.0,
        1.0 - pixel.y / max(uniforms.viewport.y, 1.0) * 2.0
    );

    VertexOut out;
    out.position = float4(ndc, 0.0, 1.0);
    out.tex_coord = uniforms.tex_rect.xy + tex_coords[vertex_id] * uniforms.tex_rect.zw;
    return out;
}

fragment float4 erika_overlay_fragment(
    VertexOut in [[stage_in]],
    texture2d<float, access::sample> overlay_texture [[texture(0)]],
    sampler overlay_sampler [[sampler(0)]],
    constant OverlayUniforms& uniforms [[buffer(0)]]) {
    float4 sampled = overlay_texture.sample(overlay_sampler, in.tex_coord);
    if (uniforms.overlay_mode == 1) {
        float3 rgb = sdr_ui_color_to_target_output(
            uniforms.color.rgb,
            uniforms.target_transfer,
            uniforms.ui_nits
        );
        return float4(rgb, uniforms.color.a * sampled.r);
    }
    sampled.rgb = sdr_ui_color_to_target_output(
        sampled.rgb,
        uniforms.target_transfer,
        uniforms.ui_nits
    );
    return sampled;
}

struct DanmakuBatchUniforms {
    float2 viewport;
    uint target_transfer;
    uint reserved0;
    float4 ui_nits;
};

struct DanmakuBatchInstance {
    float4 rect;
    float4 tex_rect;
    float4 color;
    uint atlas_texture;
    uint reserved0;
    uint reserved1;
    uint reserved2;
};

struct DanmakuBatchOut {
    float4 position [[position]];
    float2 tex_coord;
    float4 color;
    uint atlas_texture [[flat]];
};

vertex DanmakuBatchOut erika_danmaku_batch_vertex(
    uint vertex_id [[vertex_id]],
    uint instance_id [[instance_id]],
    constant DanmakuBatchInstance* instances [[buffer(0)]],
    constant DanmakuBatchUniforms& uniforms [[buffer(1)]]) {
    constexpr float2 corners[6] = {
        float2(0.0, 0.0),
        float2(1.0, 0.0),
        float2(0.0, 1.0),
        float2(1.0, 0.0),
        float2(1.0, 1.0),
        float2(0.0, 1.0),
    };
    DanmakuBatchInstance glyph = instances[instance_id];
    float2 corner = corners[vertex_id];
    float2 position = glyph.rect.xy + corner * glyph.rect.zw;
    float2 tex_coord = glyph.tex_rect.xy + corner * glyph.tex_rect.zw;
    float2 ndc = float2(
        position.x / max(uniforms.viewport.x, 1.0) * 2.0 - 1.0,
        1.0 - position.y / max(uniforms.viewport.y, 1.0) * 2.0
    );
    DanmakuBatchOut out;
    out.position = float4(ndc, 0.0, 1.0);
    out.tex_coord = tex_coord;
    out.color = glyph.color;
    out.atlas_texture = glyph.atlas_texture;
    return out;
}

fragment float4 erika_danmaku_batch_fragment(
    DanmakuBatchOut in [[stage_in]],
    texture2d<float, access::sample> fill_atlas [[texture(0)]],
    texture2d<float, access::sample> outline_atlas [[texture(1)]],
    sampler atlas_sampler [[sampler(0)]],
    constant DanmakuBatchUniforms& uniforms [[buffer(1)]]) {
    float mask = in.atlas_texture == 0
        ? fill_atlas.sample(atlas_sampler, in.tex_coord).r
        : outline_atlas.sample(atlas_sampler, in.tex_coord).r;
    float3 rgb = sdr_ui_color_to_target_output(
        in.color.rgb,
        uniforms.target_transfer,
        uniforms.ui_nits
    );
    return float4(rgb, in.color.a * mask);
}
"#;

/// The whole program, piece by piece.
pub open spec fn program() -> Seq<char> {
    TRANSFER_FUNCTIONS@ + KNEE@ + TONE_CURVE@ + TONE_MAP@ + OUTPUT@ + RESHAPING@ + VIDEO_STAGES@
        + OVERLAY_STAGES@
}

/// The program, without the line that makes Metal's standard library known and
/// without the namespace of that library.
pub fn video_shader_source() -> (source: String)
    ensures
        source@ == program(),
{
    let mut source: String = TRANSFER_FUNCTIONS.to_owned();
    source.append(KNEE);
    source.append(TONE_CURVE);
    source.append(TONE_MAP);
    source.append(OUTPUT);
    source.append(RESHAPING);
    source.append(VIDEO_STAGES);
    source.append(OVERLAY_STAGES);
    source
}

} // verus!
