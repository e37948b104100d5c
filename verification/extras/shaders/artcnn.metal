#include <metal_stdlib>
using namespace metal;

constant constexpr uint S = {SLICES};
constant constexpr uint BX = {BX};
constant constexpr uint BY = {BY};
constant constexpr uint TG = 16;
constant constexpr uint CONV0_W = S * 9 + S;       // taps + bias
constant constexpr uint MID_W = S * 9 * S * 4 + S; // matrices + bias
constant constexpr uint CONV6_W = 9 * S * 4 + 1;   // matrices + bias

struct ConvParams {
    uint weight_offset;
    uint bias_offset;
    uint relu;
    uint add_residual;
};

inline half4x4 weight_matrix(constant half4* weights, uint offset) {
    return half4x4(weights[offset], weights[offset + 1], weights[offset + 2], weights[offset + 3]);
}

kernel void artcnn_conv0(
    texture2d<half, access::read> luma [[texture(0)]],
    texture2d_array<half, access::write> dst [[texture(1)]],
    constant half4* weights [[buffer(0)]],
    constant ConvParams& params [[buffer(1)]],
    uint2 gid [[thread_position_in_grid]])
{
    uint width = luma.get_width();
    uint height = luma.get_height();
    uint2 base = gid * uint2(BX, BY);
    if (base.x >= width || base.y >= height) {
        return;
    }
    constant half4* w = weights + params.weight_offset;
    constant half4* bias = w + S * 9;

    half window[BY + 2][BX + 2];
    for (uint wy = 0; wy < BY + 2; ++wy) {
        for (uint wx = 0; wx < BX + 2; ++wx) {
            int2 coord = int2(base) + int2(int(wx) - 1, int(wy) - 1);
            bool outside = coord.x < 0 || coord.y < 0 || coord.x >= int(width) || coord.y >= int(height);
            window[wy][wx] = outside ? 0.0h : luma.read(uint2(coord)).x;
        }
    }
    half4 acc[S][BY][BX];
    for (uint s = 0; s < S; ++s) {
        for (uint py = 0; py < BY; ++py) {
            for (uint px = 0; px < BX; ++px) {
                acc[s][py][px] = bias[s];
            }
        }
    }
    for (uint s = 0; s < S; ++s) {
        for (uint dy = 0; dy < 3; ++dy) {
            for (uint dx = 0; dx < 3; ++dx) {
                half4 tap_w = w[s * 9 + dy * 3 + dx];
                for (uint py = 0; py < BY; ++py) {
                    for (uint px = 0; px < BX; ++px) {
                        acc[s][py][px] += tap_w * window[py + dy][px + dx];
                    }
                }
            }
        }
    }
    for (uint s = 0; s < S; ++s) {
        for (uint py = 0; py < BY; ++py) {
            for (uint px = 0; px < BX; ++px) {
                uint2 coord = base + uint2(px, py);
                if (coord.x < width && coord.y < height) {
                    dst.write(acc[s][py][px], coord, s);
                }
            }
        }
    }
}

kernel void artcnn_conv(
    texture2d_array<half, access::read> src [[texture(0)]],
    texture2d_array<half, access::write> dst [[texture(1)]],
    texture2d_array<half, access::read> residual [[texture(2)]],
    constant half4* weights [[buffer(0)]],
    constant ConvParams& params [[buffer(1)]],
    uint2 gid [[thread_position_in_grid]])
{
    uint width = src.get_width();
    uint height = src.get_height();
    uint2 base = gid * uint2(BX, BY);
    if (base.x >= width || base.y >= height) {
        return;
    }
    constant half4* w = weights + params.weight_offset;
    constant half4* bias = w + S * 9 * S * 4;

    half4 acc[S][BY][BX];
    for (uint s = 0; s < S; ++s) {
        for (uint py = 0; py < BY; ++py) {
            for (uint px = 0; px < BX; ++px) {
                acc[s][py][px] = bias[s];
            }
        }
    }
    // One input slice at a time: its window stays in registers and every
    // staged weight matrix is reused by all output pixels of the block.
    for (uint i = 0; i < S; ++i) {
        half4 window[BY + 2][BX + 2];
        for (uint wy = 0; wy < BY + 2; ++wy) {
            for (uint wx = 0; wx < BX + 2; ++wx) {
                int2 coord = int2(base) + int2(int(wx) - 1, int(wy) - 1);
                bool outside = coord.x < 0 || coord.y < 0 || coord.x >= int(width) || coord.y >= int(height);
                window[wy][wx] = outside ? half4(0.0h) : src.read(uint2(coord), i);
            }
        }
        for (uint s = 0; s < S; ++s) {
            for (uint dy = 0; dy < 3; ++dy) {
                for (uint dx = 0; dx < 3; ++dx) {
                    // offset(s, tap, i) in half4 units: (((s * 9) + tap) * S + i) * 4
                    half4x4 m = weight_matrix(w, (((s * 9u) + dy * 3 + dx) * S + i) * 4u);
                    for (uint py = 0; py < BY; ++py) {
                        for (uint px = 0; px < BX; ++px) {
                            acc[s][py][px] += m * window[py + dy][px + dx];
                        }
                    }
                }
            }
        }
    }
    for (uint s = 0; s < S; ++s) {
        for (uint py = 0; py < BY; ++py) {
            for (uint px = 0; px < BX; ++px) {
                uint2 coord = base + uint2(px, py);
                if (coord.x >= width || coord.y >= height) {
                    continue;
                }
                half4 value = acc[s][py][px];
                if (params.add_residual != 0) {
                    value += residual.read(coord, s);
                }
                if (params.relu != 0) {
                    value = max(value, half4(0.0h));
                }
                dst.write(value, coord, s);
            }
        }
    }
}

kernel void artcnn_conv6(
    texture2d_array<half, access::read> src [[texture(0)]],
    texture2d<half, access::write> dst [[texture(1)]],
    constant half4* weights [[buffer(0)]],
    constant ConvParams& params [[buffer(1)]],
    uint2 gid [[thread_position_in_grid]])
{
    uint width = src.get_width();
    uint height = src.get_height();
    uint2 base = gid * uint2(BX, BY);
    if (base.x >= width || base.y >= height) {
        return;
    }
    constant half4* w = weights + params.weight_offset;
    half4 bias = w[9 * S * 4];
    half4 acc[BY][BX];
    for (uint py = 0; py < BY; ++py) {
        for (uint px = 0; px < BX; ++px) {
            acc[py][px] = bias;
        }
    }
    for (uint i = 0; i < S; ++i) {
        half4 window[BY + 2][BX + 2];
        for (uint wy = 0; wy < BY + 2; ++wy) {
            for (uint wx = 0; wx < BX + 2; ++wx) {
                int2 coord = int2(base) + int2(int(wx) - 1, int(wy) - 1);
                bool outside = coord.x < 0 || coord.y < 0 || coord.x >= int(width) || coord.y >= int(height);
                window[wy][wx] = outside ? half4(0.0h) : src.read(uint2(coord), i);
            }
        }
        for (uint dy = 0; dy < 3; ++dy) {
            for (uint dx = 0; dx < 3; ++dx) {
                // offset(tap, i) in half4 units: ((tap * S) + i) * 4
                half4x4 m = weight_matrix(w, (((dy * 3 + dx) * S) + i) * 4u);
                for (uint py = 0; py < BY; ++py) {
                    for (uint px = 0; px < BX; ++px) {
                        acc[py][px] += m * window[py + dy][px + dx];
                    }
                }
            }
        }
    }
    // DepthToSpace DCR: channel c maps to subpixel (dx, dy) = (c % 2, c / 2).
    for (uint py = 0; py < BY; ++py) {
        for (uint px = 0; px < BX; ++px) {
            uint2 coord = base + uint2(px, py);
            if (coord.x >= width || coord.y >= height) {
                continue;
            }
            half4 value = clamp(acc[py][px], 0.0h, 1.0h);
            uint2 out = coord * 2;
            dst.write(half4(value.x), out);
            dst.write(half4(value.y), out + uint2(1, 0));
            dst.write(half4(value.z), out + uint2(0, 1));
            dst.write(half4(value.w), out + uint2(1, 1));
        }
    }
}
