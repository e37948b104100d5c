#define FEATURE_SLICES {FEATURE_SLICES}
#define TAP_COUNT 9

cbuffer TileParams : register(b0) {
    uint4 image_core;
    int4 origins;
    uint4 dispatch_info;
    uint4 layer_info;
    float4 luma_coefficients;
};

Texture2DArray<float> input_luma : register(t0);
Texture2DArray<float4> feature_src : register(t1);
Texture2DArray<float4> residual_src : register(t2);
Buffer<float4> weights : register(t3);
RWTexture2DArray<float4> feature_dst : register(u0);
RWTexture2D<float4> packed_output : register(u1);

bool in_image(int2 coord) {
    return coord.x >= 0 && coord.y >= 0
        && coord.x < int(image_core.x) && coord.y < int(image_core.y);
}

int2 local_coord(uint3 gid) {
    int inset = int(dispatch_info.x);
    return int2(gid.xy) + int2(inset, inset);
}

int2 global_coord(int2 local) {
    return origins.zw + local;
}

bool invocation_is_active(uint3 gid) {
    return gid.x < dispatch_info.y && gid.y < dispatch_info.z;
}

float luma_or_zero(int2 coord) {
    if (!in_image(coord)) {
        return 0.0;
    }
    return input_luma.Load(int4(coord, 0, 0)).r;
}

float4 apply_weight_matrix(uint index, float4 value) {
    return weights[index] * value.x
        + weights[index + 1] * value.y
        + weights[index + 2] * value.z
        + weights[index + 3] * value.w;
}

[numthreads(8, 8, 1)]
void artcnn_conv0(uint3 gid : SV_DispatchThreadID) {
    if (!invocation_is_active(gid)) {
        return;
    }
    int2 local = local_coord(gid);
    int2 global = global_coord(local);
    if (!in_image(global)) {
        for (uint slice = 0; slice < FEATURE_SLICES; ++slice) {
            feature_dst[int3(local, int(slice))] = 0.0;
        }
        return;
    }
    for (uint slice = 0; slice < FEATURE_SLICES; ++slice) {
        float4 acc = weights[layer_info.y + slice];
        for (uint tap = 0; tap < TAP_COUNT; ++tap) {
            int2 delta = int2(int(tap % 3) - 1, int(tap / 3) - 1);
            float value = luma_or_zero(global + delta);
            acc += weights[layer_info.x + slice * TAP_COUNT + tap] * value;
        }
        feature_dst[int3(local, int(slice))] = acc;
    }
}

[numthreads(8, 8, 1)]
void artcnn_conv_mid(uint3 gid : SV_DispatchThreadID) {
    if (!invocation_is_active(gid)) {
        return;
    }
    int2 local = local_coord(gid);
    int2 global = global_coord(local);
    if (!in_image(global)) {
        for (uint slice = 0; slice < FEATURE_SLICES; ++slice) {
            feature_dst[int3(local, int(slice))] = 0.0;
        }
        return;
    }

    float4 acc[FEATURE_SLICES];
    for (uint out_slice = 0; out_slice < FEATURE_SLICES; ++out_slice) {
        acc[out_slice] = weights[layer_info.y + out_slice];
    }
    for (uint in_slice = 0; in_slice < FEATURE_SLICES; ++in_slice) {
        for (uint tap = 0; tap < TAP_COUNT; ++tap) {
            int2 delta = int2(int(tap % 3) - 1, int(tap / 3) - 1);
            float4 value = feature_src.Load(int4(local + delta, int(in_slice), 0));
            for (uint out_slice = 0; out_slice < FEATURE_SLICES; ++out_slice) {
                uint matrix_index = layer_info.x
                    + (((out_slice * TAP_COUNT + tap) * FEATURE_SLICES + in_slice) * 4);
                acc[out_slice] += apply_weight_matrix(matrix_index, value);
            }
        }
    }
    for (uint write_slice = 0; write_slice < FEATURE_SLICES; ++write_slice) {
        float4 value = acc[write_slice];
        if (layer_info.w != 0) {
            value += residual_src.Load(int4(local, int(write_slice), 0));
        }
        if (layer_info.z != 0) {
            value = max(value, 0.0);
        }
        feature_dst[int3(local, int(write_slice))] = value;
    }
}

[numthreads(8, 8, 1)]
void artcnn_conv6(uint3 gid : SV_DispatchThreadID) {
    if (!invocation_is_active(gid)) {
        return;
    }
    int2 local = local_coord(gid);
    int2 global = global_coord(local);
    if (!in_image(global)) {
        return;
    }
    float4 acc = weights[layer_info.y];
    for (uint in_slice = 0; in_slice < FEATURE_SLICES; ++in_slice) {
        for (uint tap = 0; tap < TAP_COUNT; ++tap) {
            int2 delta = int2(int(tap % 3) - 1, int(tap / 3) - 1);
            float4 value = feature_src.Load(int4(local + delta, int(in_slice), 0));
            uint matrix_index = layer_info.x + ((tap * FEATURE_SLICES + in_slice) * 4);
            acc += apply_weight_matrix(matrix_index, value);
        }
    }
    packed_output[global] = clamp(acc, 0.0, 1.0);
}
