//! Texels as bytes: half-precision lookup tables on the way up, captured
//! pixels on the way back.
use crate::float::F32;
use crate::half::{f32_to_f16, half_to_unorm8, narrows_to, unorm8};
use vstd::prelude::*;

verus! {

/// The little-endian number in two bytes.
pub open spec fn le_u16(bytes: Seq<u8>, at: int) -> u16 {
    (bytes[at] + bytes[at + 1] * 0x100) as u16
}

/// Channel `c` of a texel whose fourth channel is `alpha`.
pub open spec fn channel(texel: [F32; 3], alpha: F32, c: int) -> F32 {
    if c < 3 {
        texel@[c]
    } else {
        alpha
    }
}

fn push_half(bytes: &mut Vec<u8>, value: F32)
    ensures
        final(bytes)@.len() == old(bytes)@.len() + 2,
        final(bytes)@.take(old(bytes)@.len() as int) == old(bytes)@,
        narrows_to(value, le_u16(final(bytes)@, old(bytes)@.len() as int)),
{
    let half: u16 = f32_to_f16(value);
    bytes.push((half % 0x100) as u8);
    bytes.push((half / 0x100) as u8);
    proof {
        let n = old(bytes)@.len() as int;
        assert(bytes@.take(n) =~= old(bytes)@);
        assert(le_u16(bytes@, n) == half);
    }
}

/// Interleaves the triples with a constant fourth channel, as half-precision
/// numbers, least significant byte first: eight bytes for each texel.
pub fn pack_rgba16f(texels: &[[F32; 3]], alpha: F32) -> (bytes: Vec<u8>)
    ensures
        bytes@.len() == texels@.len() * 8,
        forall|i: int, c: int|
            0 <= i < texels@.len() && 0 <= c < 4 ==> narrows_to(
                #[trigger] channel(texels@[i], alpha, c),
                le_u16(bytes@, 8 * i + 2 * c),
            ),
{
    let mut bytes: Vec<u8> = Vec::new();
    let mut i: usize = 0;
    while i < texels.len()
        invariant
            i <= texels@.len(),
            bytes@.len() == i * 8,
            forall|k: int, c: int|
                0 <= k < i && 0 <= c < 4 ==> narrows_to(
                    #[trigger] channel(texels@[k], alpha, c),
                    le_u16(bytes@, 8 * k + 2 * c),
                ),
        decreases texels@.len() - i,
    {
        let texel: [F32; 3] = texels[i];
        let ghost b0 = bytes@;
        push_half(&mut bytes, texel[0]);
        let ghost b1 = bytes@;
        push_half(&mut bytes, texel[1]);
        let ghost b2 = bytes@;
        push_half(&mut bytes, texel[2]);
        let ghost b3 = bytes@;
        push_half(&mut bytes, alpha);
        proof {
            let b4 = bytes@;
            assert forall|k: int, c: int|
                0 <= k < i + 1 && 0 <= c < 4 implies narrows_to(
                #[trigger] channel(texels@[k], alpha, c),
                le_u16(bytes@, 8 * k + 2 * c),
            ) by {
                let at = 8 * k + 2 * c;
                assert forall|j: int| 0 <= j < b3.len() implies b4[j] == b3[j] by {
                    assert(b4.take(b3.len() as int)[j] == b3[j]);
                }
                assert forall|j: int| 0 <= j < b2.len() implies b3[j] == b2[j] by {
                    assert(b3.take(b2.len() as int)[j] == b2[j]);
                }
                assert forall|j: int| 0 <= j < b1.len() implies b2[j] == b1[j] by {
                    assert(b2.take(b1.len() as int)[j] == b1[j]);
                }
                assert forall|j: int| 0 <= j < b0.len() implies b1[j] == b0[j] by {
                    assert(b1.take(b0.len() as int)[j] == b0[j]);
                }
                if k < i {
                    assert(le_u16(b4, at) == le_u16(b0, at));
                } else if c == 0 {
                    assert(le_u16(b4, at) == le_u16(b1, at));
                } else if c == 1 {
                    assert(le_u16(b4, at) == le_u16(b2, at));
                } else if c == 2 {
                    assert(le_u16(b4, at) == le_u16(b3, at));
                }
            }
        }
        i = i + 1;
    }
    bytes
}

/// The pixel format of a drawable surface.
#[derive(Debug, Clone, Copy, PartialEq, Eq, Structural)]
pub enum MetalDrawablePixelFormat {
    Bgra8Unorm,
    Rgba16Float,
}

/// Bytes of one pixel.
pub open spec fn pixel_bytes(format: MetalDrawablePixelFormat) -> int {
    match format {
        MetalDrawablePixelFormat::Bgra8Unorm => 4,
        MetalDrawablePixelFormat::Rgba16Float => 8,
    }
}

impl MetalDrawablePixelFormat {
    pub fn bytes_per_pixel(self) -> (bytes: usize)
        ensures
            bytes == pixel_bytes(self),
    {
        match self {
            MetalDrawablePixelFormat::Bgra8Unorm => 4,
            MetalDrawablePixelFormat::Rgba16Float => 8,
        }
    }
}

/// Channel `c` (red, green, blue, alpha) of pixel `p` as an 8-bit level.
pub open spec fn captured(raw: Seq<u8>, format: MetalDrawablePixelFormat, p: int, c: int) -> int {
    match format {
        MetalDrawablePixelFormat::Bgra8Unorm => if c == 0 {
            raw[4 * p + 2] as int
        } else if c == 1 {
            raw[4 * p + 1] as int
        } else if c == 2 {
            raw[4 * p] as int
        } else {
            raw[4 * p + 3] as int
        },
        MetalDrawablePixelFormat::Rgba16Float => unorm8(le_u16(raw, 8 * p + 2 * c)),
    }
}

/// The whole pixels that a read-back buffer holds, at most the image's.
pub open spec fn captured_count(
    len: int,
    width: int,
    height: int,
    format: MetalDrawablePixelFormat,
) -> int {
    if len / pixel_bytes(format) < width * height {
        len / pixel_bytes(format)
    } else {
        width * height
    }
}

fn read_half(raw: &[u8], at: usize) -> (half: u16)
    requires
        at + 1 < raw@.len(),
    ensures
        half == le_u16(raw@, at as int),
{
    raw[at] as u16 + raw[at + 1] as u16 * 0x100
}

/// Converts a read-back surface to 8-bit RGBA.
pub fn convert_capture_to_rgba8(
    raw: &[u8],
    width: usize,
    height: usize,
    format: MetalDrawablePixelFormat,
) -> (rgba: Vec<u8>)
    requires
        width * height * 4 <= usize::MAX,
    ensures
        rgba@.len() == 4 * captured_count(
            raw@.len() as int,
            width as int,
            height as int,
            format,
        ),
        forall|p: int, c: int|
            0 <= p < captured_count(raw@.len() as int, width as int, height as int, format) && 0
                <= c < 4 ==> #[trigger] rgba@[4 * p + c] == captured(raw@, format, p, c),
{
    let each: usize = format.bytes_per_pixel();
    let whole: usize = raw.len() / each;
    proof {
        assert(width * height >= 0) by (nonlinear_arith)
            requires
                width >= 0,
                height >= 0,
        ;
    }
    let wanted: usize = width * height;
    let count: usize = if whole < wanted {
        whole
    } else {
        wanted
    };
    let mut rgba: Vec<u8> = Vec::with_capacity(wanted * 4);
    let mut p: usize = 0;
    while p < count
        invariant
            p <= count,
            each == pixel_bytes(format),
            count <= whole,
            whole == raw@.len() as int / each as int,
            raw@.len() <= usize::MAX,
            rgba@.len() == 4 * p,
            forall|q: int, c: int|
                0 <= q < p && 0 <= c < 4 ==> #[trigger] rgba@[4 * q + c] == captured(
                    raw@,
                    format,
                    q,
                    c,
                ),
        decreases count - p,
    {
        let ghost before = rgba@;
        match format {
            MetalDrawablePixelFormat::Bgra8Unorm => {
                let at: usize = p * 4;
                rgba.push(raw[at + 2]);
                rgba.push(raw[at + 1]);
                rgba.push(raw[at]);
                rgba.push(raw[at + 3]);
            },
            MetalDrawablePixelFormat::Rgba16Float => {
                let at: usize = p * 8;
                rgba.push(half_to_unorm8(read_half(raw, at)));
                rgba.push(half_to_unorm8(read_half(raw, at + 2)));
                rgba.push(half_to_unorm8(read_half(raw, at + 4)));
                rgba.push(half_to_unorm8(read_half(raw, at + 6)));
            },
        }
        proof {
            assert forall|q: int, c: int|
                0 <= q < p + 1 && 0 <= c < 4 implies #[trigger] rgba@[4 * q + c] == captured(
                raw@,
                format,
                q,
                c,
            ) by {
                if q < p {
                    assert(rgba@[4 * q + c] == before[4 * q + c]);
                }
            }
        }
        p = p + 1;
    }
    rgba
}

/// A capture with room for the whole image yields four bytes for each of its
/// pixels.
pub proof fn law_full_capture_yields_every_pixel(
    len: int,
    width: int,
    height: int,
    format: MetalDrawablePixelFormat,
)
    requires
        0 <= width,
        0 <= height,
        len >= width * height * pixel_bytes(format),
    ensures
        captured_count(len, width, height, format) == width * height,
{
    let n = width * height;
    assert(n >= 0) by (nonlinear_arith)
        requires
            n == width * height,
            width >= 0,
            height >= 0,
    ;
    match format {
        MetalDrawablePixelFormat::Bgra8Unorm => {
            assert(n * 4 <= len ==> len / 4 >= n);
        },
        MetalDrawablePixelFormat::Rgba16Float => {
            assert(n * 8 <= len ==> len / 8 >= n);
        },
    }
}

} // verus!
