//! Numbers of the shaders and of the textures.

use erika::float::F32;
use erika::half::{f32_to_f16, half_to_f32, half_to_unorm8};
use erika::texels::{convert_capture_to_rgba8, pack_rgba16f, MetalDrawablePixelFormat};
use erika::text::{is_switched_on, push_decimal, push_hexadecimal, push_signed, text_is};

fn f(value: f32) -> F32 {
    F32::from_bits(value.to_bits())
}

/// A walk over many bit patterns, each kind of number among them.
fn patterns() -> Vec<u32> {
    let mut all = vec![
        0, 1, 2, 0x7f_ffff, 0x80_0000, 0x80_0001, 0x3f80_0000, 0x3f7f_ffff, 0x7f7f_ffff,
        0x7f80_0000, 0x7fc0_0000, 0x7f80_0001,
    ];
    let mut word: u32 = 0x1234_5678;
    for _ in 0..200 {
        word = word.wrapping_mul(1_664_525).wrapping_add(1_013_904_223);
        all.push(word);
    }
    let negative: Vec<u32> = all.iter().map(|bits| bits ^ 0x8000_0000).collect();
    all.extend(negative);
    all
}

fn same(actual: F32, expected: f32) -> bool {
    if expected.is_nan() {
        actual.is_nan()
    } else {
        actual.to_bits() == expected.to_bits()
    }
}

#[test]
fn products_and_quotients_are_those_of_the_processor() {
    for a in patterns() {
        for b in patterns() {
            let (x, y) = (f32::from_bits(a), f32::from_bits(b));
            let product = F32::from_bits(a).times(F32::from_bits(b));
            assert!(same(product, x * y), "{a:#x} * {b:#x}");
            let quotient = F32::from_bits(a).over(F32::from_bits(b));
            assert!(same(quotient, x / y), "{a:#x} / {b:#x}");
        }
    }
}

#[test]
fn order_is_that_of_the_processor() {
    for a in patterns() {
        for b in patterns() {
            let (x, y) = (f32::from_bits(a), f32::from_bits(b));
            let (p, q) = (F32::from_bits(a), F32::from_bits(b));
            assert_eq!(p.less_than(q), x < y);
            assert_eq!(p.same_number(q), x == y);
            assert_eq!(p.is_positive(), x > 0.0);
            assert_eq!(p.is_finite(), x.is_finite());
            assert_eq!(p.is_nan(), x.is_nan());
            if !x.is_nan() && !y.is_nan() && x != y {
                assert!(same(p.min_of(q), x.min(y)));
                assert!(same(p.max_of(q), x.max(y)));
            }
        }
    }
}

#[test]
fn a_floor_replaces_what_is_no_number() {
    assert_eq!(f(f32::NAN).at_least(f(1.0)), f(1.0));
    assert_eq!(f(0.5).at_least(f(1.0)), f(1.0));
    assert_eq!(f(2.5).at_least(f(1.0)), f(2.5));
}

#[test]
fn sums_and_differences_are_those_of_the_processor() {
    for a in patterns() {
        for b in patterns() {
            let (x, y) = (f32::from_bits(a), f32::from_bits(b));
            let (p, q) = (F32::from_bits(a), F32::from_bits(b));
            assert!(same(p.plus(q), x + y), "{a:#x} + {b:#x}");
            assert!(same(p.minus(q), x - y), "{a:#x} - {b:#x}");
        }
    }
    // Numbers of one size, where much cancels out.
    let mut word: u32 = 0x2545_f491;
    for shift in 0..2000u32 {
        word = word.wrapping_mul(1_664_525).wrapping_add(1_013_904_223);
        let a = 0x3f80_0000 ^ (word >> 8);
        let b = 0xbf80_0000 ^ (word >> 9) ^ ((shift % 30) << 23);
        let (x, y) = (f32::from_bits(a), f32::from_bits(b));
        assert!(same(F32::from_bits(a).plus(F32::from_bits(b)), x + y), "{a:#x} + {b:#x}");
    }
}

#[test]
fn numbers_are_clamped_and_negated() {
    assert_eq!(f(2.0).clamp_to(f(0.0), f(1.0)), f(1.0));
    assert_eq!(f(-2.0).clamp_to(f(0.0), f(1.0)), f(0.0));
    assert_eq!(f(0.5).clamp_to(f(0.0), f(1.0)), f(0.5));
    assert!(f(f32::NAN).clamp_to(f(0.0), f(1.0)).is_nan());
    assert_eq!(f(-0.5).abs(), f(0.5));
    assert_eq!(f(0.5).negated(), f(-0.5));
}

#[test]
fn integers_become_the_nearest_numbers() {
    for n in [0u32, 1, 2, 255, 16_777_215, 16_777_217, 16_777_219, u32::MAX] {
        assert!(same(F32::from_u32(n), n as f32));
        assert!(same(F32::from_u64(n as u64), n as f32));
        let signed = n as i32;
        assert!(same(F32::from_i32(signed), signed as f32));
    }
    assert!(same(F32::from_u64(0x3fff_ffff_ffff_ffff), 4.611686e18));
    for n in [1u64 << 63, (1 << 63) + (1 << 39), (1 << 63) + (3 << 39), (1 << 63) + (1 << 39) + 1, u64::MAX] {
        assert!(same(F32::from_u64(n), n as f32));
    }
    assert_eq!(F32::from_u64(u64::MAX).to_bits(), 0x5f80_0000);
    assert!(same(F32::from_i32(i32::MIN), -2147483648.0));
}

#[test]
fn f16_packing_roundtrips_and_matches_half_layout() {
    assert_eq!(f32_to_f16(f(0.0)), 0x0000);
    assert_eq!(f32_to_f16(f(1.0)), 0x3c00);
    assert_eq!(f32_to_f16(f(0.5)), 0x3800);
    assert_eq!(f32_to_f16(f(-0.5)), 0xb800);
    assert_eq!(f32_to_f16(f(10000.0)), 0x70e2);
    assert_eq!(f32_to_f16(f(-1.0)), 0xbc00);
    // Padded alpha keeps the pitch of a texel at eight bytes.
    let packed = pack_rgba16f(&[[f(0.0), f(0.5), f(1.0)]], f(1.0));
    assert_eq!(packed.len(), 8);
    assert_eq!(&packed[0..2], &0x0000_u16.to_le_bytes());
    assert_eq!(&packed[2..4], &0x3800_u16.to_le_bytes());
    assert_eq!(&packed[4..6], &0x3c00_u16.to_le_bytes());
    assert_eq!(&packed[6..8], &0x3c00_u16.to_le_bytes());
}

#[test]
fn halves_round_to_even_and_keep_the_small_numbers() {
    // Half way between two halves the even one is taken.
    assert_eq!(f32_to_f16(f(1.0 + 1.0 / 2048.0)), 0x3c00);
    assert_eq!(f32_to_f16(f(1.0 + 3.0 / 2048.0)), 0x3c02);
    // The largest half, and the first number that is past it.
    assert_eq!(f32_to_f16(f(65504.0)), 0x7bff);
    assert_eq!(f32_to_f16(f(65520.0)), 0x7c00);
    assert_eq!(f32_to_f16(f(f32::INFINITY)), 0x7c00);
    // The smallest half is kept, a quarter of it is not.
    assert_eq!(f32_to_f16(f(5.9604645e-8)), 0x0001);
    assert_eq!(f32_to_f16(f(1.4901161e-8)), 0x0000);
    assert_eq!(f32_to_f16(f(-0.0)), 0x8000);
}

#[test]
fn every_half_survives_the_way_to_a_single_and_back() {
    for half in 0..=u16::MAX {
        let value = half_to_f32(half);
        if value.is_nan() {
            assert!(half & 0x7fff > 0x7c00);
        } else {
            assert_eq!(f32_to_f16(value), half);
        }
    }
    assert_eq!(half_to_f32(0x3555), f(0.33325195));
    assert_eq!(half_to_f32(0x0001), f(5.9604645e-8));
    assert_eq!(half_to_f32(0xfc00), f(f32::NEG_INFINITY));
}

#[test]
fn halves_become_levels() {
    assert_eq!(half_to_unorm8(0x0000), 0);
    assert_eq!(half_to_unorm8(0x3c00), 255);
    assert_eq!(half_to_unorm8(0x3800), 128);
    assert_eq!(half_to_unorm8(0xbc00), 0);
    assert_eq!(half_to_unorm8(0x7c00), 255);
    let mut previous = 0;
    for half in 0..=0x3c00u16 {
        let level = half_to_unorm8(half);
        assert!(level >= previous);
        previous = level;
    }
}

#[test]
fn captures_become_rgba() {
    assert_eq!(MetalDrawablePixelFormat::Bgra8Unorm.bytes_per_pixel(), 4);
    assert_eq!(MetalDrawablePixelFormat::Rgba16Float.bytes_per_pixel(), 8);
    let bgra = [1, 2, 3, 4, 5, 6, 7, 8];
    assert_eq!(
        convert_capture_to_rgba8(&bgra, 2, 1, MetalDrawablePixelFormat::Bgra8Unorm),
        vec![3, 2, 1, 4, 7, 6, 5, 8]
    );
    let halves = [0x00, 0x3c, 0x00, 0x38, 0x00, 0x00, 0x00, 0x3c];
    assert_eq!(
        convert_capture_to_rgba8(&halves, 1, 1, MetalDrawablePixelFormat::Rgba16Float),
        vec![255, 128, 0, 255]
    );
    // A capture that is cut short yields the pixels that are there.
    assert_eq!(
        convert_capture_to_rgba8(&bgra[..7], 2, 1, MetalDrawablePixelFormat::Bgra8Unorm),
        vec![3, 2, 1, 4]
    );
}

#[test]
fn numbers_are_written_as_text() {
    let mut text = String::new();
    push_decimal(&mut text, 0);
    text.push(' ');
    push_decimal(&mut text, u64::MAX);
    text.push(' ');
    push_hexadecimal(&mut text, 0xdead_beef);
    text.push(' ');
    push_hexadecimal(&mut text, 0);
    text.push(' ');
    push_signed(&mut text, i32::MIN);
    text.push(' ');
    push_signed(&mut text, 42);
    assert_eq!(text, "0 18446744073709551615 deadbeef 0 -2147483648 42");
    assert!(text_is("abc", "abc"));
    assert!(!text_is("abc", "abd"));
    assert!(!text_is("abc", "ab"));
}

#[test]
fn switches_are_read_from_text() {
    for on in ["1", "true", "TRUE", "yes", "YES", "on", "ON"] {
        assert!(is_switched_on(on), "{on}");
    }
    for off in ["", "0", "false", "no", "True", "1 "] {
        assert!(!is_switched_on(off), "{off}");
    }
}
