//! What the places of pictures, subtitles and comments mean, in numbers.
use crate::accuracy::{
    large, lemma_exact_sum, lemma_integer_is_close, lemma_product_is_close,
    lemma_quotient_is_close, lemma_signed_is_close, lemma_sum_is_close, lemma_zero_product, rounded,
    size_of, tiny,
};
use crate::danmaku::DanmakuGlyphInstance;
use crate::float::F32;
use crate::overlay_draw::{is_color, is_share, rect_row, viewport_row, OverlayUniforms};
use crate::presentation::PresentationLayout;
use crate::product::{integer_value, product, signed_value};
use crate::quotient::quotient;
use crate::sum::sum;
use vstd::prelude::*;

verus! {

/// A few roundings away at most, for numbers of this size.
pub open spec fn about(x: real, exact: real, size: real) -> bool {
    0x20_0000 as real * size_of(x - exact) <= size + 1 as real / 0x1_0000_0000int as real
}

/// Sixteen million pixels.
pub open spec fn pixels() -> real {
    0x100_0000 as real
}

/// A number of pixels, on either side of zero.
pub open spec fn a_length(x: F32) -> bool {
    x.finite() && size_of(x.value()) <= pixels()
}

/// A length of at least one pixel.
pub open spec fn a_size(x: F32) -> bool {
    x.finite() && 1 as real <= x.value() <= pixels()
}

impl PresentationLayout {
    /// Picture and video area have sizes, and the area lies somewhere.
    pub open spec fn ordinary(self) -> bool {
        &&& a_size(self.source_width)
        &&& a_size(self.source_height)
        &&& a_length(self.target_rect@[0])
        &&& a_length(self.target_rect@[1])
        &&& a_length(self.target_rect@[2])
        &&& a_length(self.target_rect@[3])
    }
}

/// The bounds of one scaling, put together.
#[verifier::spinoff_prover]
proof fn lemma_scaled(x: real, e: real, q: real, p: real, exact: real)
    requires
        size_of(x) <= pixels(),
        rounded(q, e),
        rounded(p, x * q),
        exact == x * e,
    ensures
        0x100_0000 as real * size_of(p - exact) <= 3 as real * size_of(exact) + 1 as real
            / 0x10_0000_0000int as real,
{
    let off = q - e;
    let moved = x * off;
    assert(x * q == exact + moved) by (nonlinear_arith)
        requires
            exact == x * e,
            moved == x * off,
            off == q - e,
    ;
    let n = 0x100_0000 as real;
    assert(n * size_of(moved) == size_of(x) * (n * size_of(off))) by {
        crate::accuracy::lemma_size_of_product(x, off);
        let sx = size_of(x);
        let so = size_of(off);
        let sm = size_of(moved);
        assert(n * sm == sx * (n * so)) by (nonlinear_arith)
            requires
                sm == sx * so,
        ;
    }
    let bound = size_of(e) + tiny();
    let sx = size_of(x);
    let w = n * size_of(off);
    assert(sx * w <= sx * bound) by (nonlinear_arith)
        requires
            w <= bound,
            sx >= 0 as real,
    ;
    crate::accuracy::lemma_size_of_product(x, e);
    let se = size_of(e);
    let t = tiny();
    assert(sx * bound <= size_of(exact) + n * t) by (nonlinear_arith)
        requires
            bound == se + t,
            sx * se == size_of(exact),
            sx <= n,
            t >= 0 as real,
    ;
}

/// A stretch of the picture is scaled as the whole picture is.
#[verifier::spinoff_prover]
proof fn lemma_stretch(x: F32, length: F32, whole: F32, exact: real)
    requires
        a_length(x),
        a_length(length),
        a_size(whole),
        exact * whole.value() == x.value() * length.value(),
    ensures
        ({
            let scaled = product(x, quotient(length, whole));
            &&& scaled.finite()
            &&& 0x100_0000 as real * size_of(scaled.value() - exact) <= 3 as real * size_of(exact)
                + 1 as real / 0x10_0000_0000int as real
            &&& size_of(exact) <= pixels() * pixels()
        }),
{
    let v = x.value();
    let l = length.value();
    let w = whole.value();
    let e = l / w;
    assert(e * w == l) by (nonlinear_arith)
        requires
            e == l / w,
            w >= 1 as real,
    ;
    assert(size_of(e) <= size_of(l)) by (nonlinear_arith)
        requires
            e * w == l,
            w >= 1 as real,
    ;
    lemma_quotient_is_close(length, whole, e);
    let scale = quotient(length, whole);
    let q = scale.value();
    assert(exact == v * e) by (nonlinear_arith)
        requires
            exact * w == v * l,
            e * w == l,
            w >= 1 as real,
    ;
    crate::accuracy::lemma_size_of_product(v, q);
    crate::accuracy::lemma_size_of_product(v, e);
    let sv = size_of(v);
    let sq = size_of(q);
    let se = size_of(e);
    assert(sq <= pixels() + 2 as real);
    assert(sv * sq <= large()) by (nonlinear_arith)
        requires
            0 as real <= sv <= 0x100_0000 as real,
            0 as real <= sq <= 0x100_0002 as real,
            large() == 0x1_0000_0000_0000_0000int as real,
    ;
    assert(sv * se <= pixels() * pixels()) by (nonlinear_arith)
        requires
            0 as real <= sv <= pixels(),
            0 as real <= se <= pixels(),
    ;
    lemma_product_is_close(x, scale);
    lemma_scaled(v, e, q, product(x, scale).value(), exact);
}

/// A point of the picture, at `part` of its `whole` length, lies at the same
/// part of the video area, up to rounding: `exact` is how far that is from the
/// area's edge.
#[verifier::spinoff_prover]
proof fn lemma_point(start: F32, part: F32, length: F32, whole: F32, exact: real)
    requires
        a_length(start),
        a_length(part),
        a_length(length),
        a_size(whole),
        exact * whole.value() == part.value() * length.value(),
    ensures
        ({
            let shown = sum(start, product(part, quotient(length, whole)));
            &&& shown.finite()
            &&& about(
                shown.value(),
                start.value() + exact,
                size_of(start.value()) + size_of(exact),
            )
        }),
{
    lemma_stretch(part, length, whole, exact);
    let scaled = product(part, quotient(length, whole));
    assert(size_of(start.value() + scaled.value()) <= large()) by {
        assert(pixels() * pixels() == 0x1_0000_0000_0000int as real);
    }
    lemma_sum_is_close(start, scaled);
}

/// A rectangle of the picture is shown where the picture is: each of its edges
/// lies at the same part of the video area as of the picture, and its sides have
/// the same part of the area's sides, up to rounding. `left`, `down`, `wide` and
/// `high` are the exact distances and sizes.
pub proof fn law_rectangles_lie_where_the_picture_is(
    layout: PresentationLayout,
    x: F32,
    y: F32,
    width: F32,
    height: F32,
    left: real,
    down: real,
    wide: real,
    high: real,
)
    requires
        layout.ordinary(),
        a_length(x),
        a_length(y),
        a_length(width),
        a_length(height),
        left * layout.source_width.value() == x.value() * layout.target_rect@[2].value(),
        down * layout.source_height.value() == y.value() * layout.target_rect@[3].value(),
        wide * layout.source_width.value() == width.value() * layout.target_rect@[2].value(),
        high * layout.source_height.value() == height.value() * layout.target_rect@[3].value(),
    ensures
        ({
            let rect = layout.mapped(x, y, width, height);
            let area = layout.target_rect@;
            &&& rect.len() == 4
            &&& rect[0].finite() && rect[1].finite() && rect[2].finite() && rect[3].finite()
            &&& about(
                rect[0].value(),
                area[0].value() + left,
                size_of(area[0].value()) + size_of(left),
            )
            &&& about(
                rect[1].value(),
                area[1].value() + down,
                size_of(area[1].value()) + size_of(down),
            )
            &&& about(rect[2].value(), wide, size_of(wide))
            &&& about(rect[3].value(), high, size_of(high))
        }),
{
    let area = layout.target_rect@;
    lemma_point(area[0], x, area[2], layout.source_width, left);
    lemma_point(area[1], y, area[3], layout.source_height, down);
    lemma_stretch(width, area[2], layout.source_width, wide);
    lemma_stretch(height, area[3], layout.source_height, high);
}

/// The whole picture is shown on the whole video area: it begins exactly at the
/// area's corner, wherever that is, and has the area's size up to rounding.
pub proof fn law_the_whole_picture_fills_the_video_area(layout: PresentationLayout)
    requires
        layout.ordinary(),
    ensures
        ({
            let zero = F32 { bits: 0 };
            let rect = layout.mapped(zero, zero, layout.source_width, layout.source_height);
            let area = layout.target_rect@;
            &&& rect[0].finite() && rect[1].finite() && rect[2].finite() && rect[3].finite()
            &&& rect[0].value() == area[0].value()
            &&& rect[1].value() == area[1].value()
            &&& about(rect[2].value(), area[2].value(), size_of(area[2].value()))
            &&& about(rect[3].value(), area[3].value(), size_of(area[3].value()))
        }),
{
    let zero = F32 { bits: 0 };
    let area = layout.target_rect@;
    crate::accuracy::lemma_zero_and_one();
    let w = layout.source_width.value();
    let h = layout.source_height.value();
    let l = area[2].value();
    let m = area[3].value();
    assert(l * w == w * l && m * h == h * m) by (nonlinear_arith);
    law_rectangles_lie_where_the_picture_is(
        layout,
        zero,
        zero,
        layout.source_width,
        layout.source_height,
        0 as real,
        0 as real,
        l,
        m,
    );
    lemma_corner(area[0], area[2], layout.source_width);
    lemma_corner(area[1], area[3], layout.source_height);
}

/// Nothing is added to the start of the area for the start of the picture.
#[verifier::spinoff_prover]
proof fn lemma_corner(start: F32, length: F32, whole: F32)
    requires
        a_length(start),
        a_length(length),
        a_size(whole),
    ensures
        sum(start, product(F32 { bits: 0 }, quotient(length, whole))).value() == start.value(),
{
    let zero = F32 { bits: 0 };
    let l = length.value();
    let w = whole.value();
    let e = l / w;
    assert(e * w == l) by (nonlinear_arith)
        requires
            e == l / w,
            w >= 1 as real,
    ;
    assert(size_of(e) <= size_of(l)) by (nonlinear_arith)
        requires
            e * w == l,
            w >= 1 as real,
    ;
    lemma_quotient_is_close(length, whole, e);
    lemma_zero_product(quotient(length, whole));
    lemma_exact_sum(start, product(zero, quotient(length, whole)), start);
}

/// Where the video area is moved, everything on it moves along: of two layouts
/// that differ in the place of the area alone, rectangles keep their size and
/// move as the area does, each axis by itself, up to rounding.
pub proof fn law_rectangles_move_with_the_video_area(
    a: PresentationLayout,
    b: PresentationLayout,
    x: F32,
    y: F32,
    width: F32,
    height: F32,
)
    requires
        a.ordinary(),
        b.ordinary(),
        a.source_width == b.source_width,
        a.source_height == b.source_height,
        a.target_rect@[2] == b.target_rect@[2],
        a.target_rect@[3] == b.target_rect@[3],
        a_length(x),
        a_length(y),
        size_of(x.value()) <= a.source_width.value(),
        size_of(y.value()) <= a.source_height.value(),
        a_length(width),
        a_length(height),
    ensures
        ({
            let from = a.mapped(x, y, width, height);
            let to = b.mapped(x, y, width, height);
            &&& about(
                to[0].value() - from[0].value(),
                b.target_rect@[0].value() - a.target_rect@[0].value(),
                4 as real * pixels(),
            )
            &&& about(
                to[1].value() - from[1].value(),
                b.target_rect@[1].value() - a.target_rect@[1].value(),
                4 as real * pixels(),
            )
            &&& to[2] == from[2]
            &&& to[3] == from[3]
            &&& a.target_rect@[0] == b.target_rect@[0] ==> to[0] == from[0]
            &&& a.target_rect@[1] == b.target_rect@[1] ==> to[1] == from[1]
        }),
{
    lemma_moves(
        a.target_rect@[0],
        b.target_rect@[0],
        x,
        a.target_rect@[2],
        a.source_width,
    );
    lemma_moves(
        a.target_rect@[1],
        b.target_rect@[1],
        y,
        a.target_rect@[3],
        a.source_height,
    );
}

#[verifier::spinoff_prover]
proof fn lemma_moves(from: F32, to: F32, part: F32, length: F32, whole: F32)
    requires
        a_length(from),
        a_length(to),
        a_length(part),
        a_length(length),
        a_size(whole),
        size_of(part.value()) <= whole.value(),
    ensures
        ({
            let scaled = product(part, quotient(length, whole));
            about(
                sum(to, scaled).value() - sum(from, scaled).value(),
                to.value() - from.value(),
                4 as real * pixels(),
            )
        }),
{
    let p = part.value();
    let l = length.value();
    let w = whole.value();
    let exact = p * l / w;
    assert(exact * w == p * l) by (nonlinear_arith)
        requires
            exact == p * l / w,
            w >= 1 as real,
    ;
    crate::accuracy::lemma_size_of_product(p, l);
    crate::accuracy::lemma_size_of_product(exact, w);
    let se = size_of(exact);
    let sp = size_of(p);
    let sl = size_of(l);
    assert(se <= sl) by (nonlinear_arith)
        requires
            se * w == sp * sl,
            sp <= w,
            w >= 1 as real,
            sl >= 0 as real,
    ;
    lemma_stretch(part, length, whole, exact);
    let scaled = product(part, quotient(length, whole));
    assert(size_of(scaled.value()) <= pixels() + 4 as real);
    lemma_sum_is_close(from, scaled);
    lemma_sum_is_close(to, scaled);
}

/// Across and down do not mix: where a rectangle is shown across depends on its
/// place and size across alone, and down likewise.
pub proof fn law_axes_are_mapped_apart(
    layout: PresentationLayout,
    x: F32,
    y: F32,
    width: F32,
    height: F32,
    other_x: F32,
    other_y: F32,
    other_width: F32,
    other_height: F32,
)
    ensures
        layout.mapped(x, y, width, height)[0] == layout.mapped(
            x,
            other_y,
            other_width,
            other_height,
        )[0],
        layout.mapped(x, y, width, height)[1] == layout.mapped(
            other_x,
            y,
            other_width,
            other_height,
        )[1],
        layout.mapped(x, y, width, height)[2] == layout.mapped(
            other_x,
            other_y,
            width,
            other_height,
        )[2],
        layout.mapped(x, y, width, height)[3] == layout.mapped(
            other_x,
            other_y,
            other_width,
            height,
        )[3],
{
}

/// The shadow of a glyph is the glyph, moved: its corner lies as far from the
/// glyph's as the offset says, each axis by itself, rounded once, and it has the
/// glyph's size.
pub proof fn law_the_shadow_is_the_glyph_moved(glyph: DanmakuGlyphInstance)
    requires
        forall|i: int| 0 <= i < 2 ==> (#[trigger] glyph.rect@[i]).finite(),
        forall|i: int| 0 <= i < 2 ==> (#[trigger] glyph.shadow_offset@[i]).finite(),
        forall|i: int|
            0 <= i < 2 ==> size_of(
                (#[trigger] glyph.rect@[i]).value() + glyph.shadow_offset@[i].value(),
            ) <= large(),
    ensures
        glyph.shadow().len() == 4,
        forall|i: int|
            0 <= i < 2 ==> (#[trigger] glyph.shadow()[i]).finite() && rounded(
                glyph.shadow()[i].value(),
                glyph.rect@[i].value() + glyph.shadow_offset@[i].value(),
            ),
        glyph.shadow()[2] == glyph.rect@[2],
        glyph.shadow()[3] == glyph.rect@[3],
{
    lemma_sum_is_close(glyph.rect@[0], glyph.shadow_offset@[0]);
    lemma_sum_is_close(glyph.rect@[1], glyph.shadow_offset@[1]);
    assert forall|i: int| 0 <= i < 2 implies (#[trigger] glyph.shadow()[i]).finite() && rounded(
        glyph.shadow()[i].value(),
        glyph.rect@[i].value() + glyph.shadow_offset@[i].value(),
    ) by {
        assert(i == 0 || i == 1);
    }
}

/// Where the moved corner is a number, the shadow lies exactly there.
pub proof fn law_the_shadow_is_off_by_its_offset(glyph: DanmakuGlyphInstance, i: int, moved: F32)
    requires
        0 <= i < 2,
        glyph.rect@[i].finite(),
        glyph.shadow_offset@[i].finite(),
        moved.finite(),
        moved.value() == glyph.rect@[i].value() + glyph.shadow_offset@[i].value(),
    ensures
        glyph.shadow()[i].finite(),
        glyph.shadow()[i].value() - glyph.rect@[i].value() == glyph.shadow_offset@[i].value(),
{
    lemma_exact_sum(glyph.rect@[i], glyph.shadow_offset@[i], moved);
    assert(i == 0 || i == 1);
}

/// A shadow without an offset covers its glyph exactly.
pub proof fn law_a_shadow_without_offset_covers_its_glyph(glyph: DanmakuGlyphInstance)
    requires
        glyph.rect@[0].finite(),
        glyph.rect@[1].finite(),
        glyph.shadow_offset@[0] == (F32 { bits: 0 }),
        glyph.shadow_offset@[1] == (F32 { bits: 0 }),
    ensures
        glyph.shadow()[0].value() == glyph.rect@[0].value(),
        glyph.shadow()[1].value() == glyph.rect@[1].value(),
        glyph.shadow()[2] == glyph.rect@[2],
        glyph.shadow()[3] == glyph.rect@[3],
{
    crate::accuracy::lemma_zero_and_one();
    lemma_exact_sum(glyph.rect@[0], glyph.shadow_offset@[0], glyph.rect@[0]);
    lemma_exact_sum(glyph.rect@[1], glyph.shadow_offset@[1], glyph.rect@[1]);
}

/// Glyphs that agree in one axis have shadows that agree in it, whatever the
/// other axis is.
pub proof fn law_shadows_follow_each_axis_apart(
    a: DanmakuGlyphInstance,
    b: DanmakuGlyphInstance,
    i: int,
)
    requires
        0 <= i < 2,
        a.rect@[i] == b.rect@[i],
        a.shadow_offset@[i] == b.shadow_offset@[i],
        a.rect@[i + 2] == b.rect@[i + 2],
    ensures
        a.shadow()[i] == b.shadow()[i],
        a.shadow()[i + 2] == b.shadow()[i + 2],
{
    assert(i == 0 || i == 1);
}

/// A share is a fraction: the part over the whole, up to rounding.
pub proof fn law_a_share_is_a_fraction(part: int, whole: int, value: F32)
    requires
        is_share(part, whole, value),
        0 <= part < 0x100_0000,
        1 <= whole < 0x100_0000,
    ensures
        value.finite(),
        rounded(value.value(), part as real / whole as real),
        part == 0 ==> size_of(value.value()) <= tiny(),
{
    lemma_integer_is_close(part);
    lemma_integer_is_close(whole);
    let p = part as real;
    let w = whole as real;
    let exact = p / w;
    assert(exact * w == p && 0 as real <= exact && exact <= p) by (nonlinear_arith)
        requires
            exact == p / w,
            w >= 1 as real,
            p >= 0 as real,
    ;
    if part == 0 {
        assert(exact == 0 as real) by (nonlinear_arith)
            requires
                exact * w == 0 as real,
                w >= 1 as real,
        ;
    }
    lemma_quotient_is_close(integer_value(part), integer_value(whole), exact);
}

/// The bytes of a colour's word are its channels, red first; the last byte is
/// what its coverage lacks of the whole.
pub proof fn law_colours_are_their_bytes(red: int, green: int, blue: int, lack: int, row: Seq<F32>)
    requires
        0 <= red < 256,
        0 <= green < 256,
        0 <= blue < 256,
        0 <= lack < 256,
        is_color((red * 0x100_0000 + green * 0x1_0000 + blue * 0x100 + lack) as u32, row),
    ensures
        row[0].finite() && row[1].finite() && row[2].finite() && row[3].finite(),
        rounded(row[0].value(), red as real / 255 as real),
        rounded(row[1].value(), green as real / 255 as real),
        rounded(row[2].value(), blue as real / 255 as real),
        rounded(row[3].value(), (255 - lack) as real / 255 as real),
{
    let word = (red * 0x100_0000 + green * 0x1_0000 + blue * 0x100 + lack) as u32;
    assert(word / 0x100_0000 == red);
    assert(word / 0x1_0000 % 0x100 == green);
    assert(word / 0x100 % 0x100 == blue);
    assert(word % 0x100 == lack);
    law_a_share_is_a_fraction(red, 255, row[0]);
    law_a_share_is_a_fraction(green, 255, row[1]);
    law_a_share_is_a_fraction(blue, 255, row[2]);
    law_a_share_is_a_fraction(255 - lack, 255, row[3]);
}

/// Whole pixels of the picture.
pub open spec fn whole_pixels(x: i32, y: i32, width: u32, height: u32) -> bool {
    &&& -0x100_0000 < x < 0x100_0000
    &&& -0x100_0000 < y < 0x100_0000
    &&& width < 0x100_0000
    &&& height < 0x100_0000
}

/// A subtitle or plane lies on the surface where the picture has its place: as
/// far from the edges of the video area as its pixels are from the edges of the
/// picture, on the area's scale. `left`, `down`, `wide` and `high` are the exact
/// distances and sizes.
pub proof fn law_overlays_lie_on_the_picture(
    uniforms: OverlayUniforms,
    layout: PresentationLayout,
    x: i32,
    y: i32,
    width: u32,
    height: u32,
    left: real,
    down: real,
    wide: real,
    high: real,
)
    requires
        uniforms.lies(layout, x, y, width, height),
        layout.ordinary(),
        whole_pixels(x, y, width, height),
        left * layout.source_width.value() == x as real * layout.target_rect@[2].value(),
        down * layout.source_height.value() == y as real * layout.target_rect@[3].value(),
        wide * layout.source_width.value() == width as real * layout.target_rect@[2].value(),
        high * layout.source_height.value() == height as real * layout.target_rect@[3].value(),
    ensures
        ({
            let rect = uniforms.rect@;
            let area = layout.target_rect@;
            &&& about(
                rect[0].value(),
                area[0].value() + left,
                size_of(area[0].value()) + size_of(left),
            )
            &&& about(
                rect[1].value(),
                area[1].value() + down,
                size_of(area[1].value()) + size_of(down),
            )
            &&& about(rect[2].value(), wide, size_of(wide))
            &&& about(rect[3].value(), high, size_of(high))
        }),
        uniforms.viewport@[0] == layout.drawable_width,
        uniforms.viewport@[1] == layout.drawable_height,
{
    lemma_signed_is_close(x as int);
    lemma_signed_is_close(y as int);
    lemma_integer_is_close(width as int);
    lemma_integer_is_close(height as int);
    law_rectangles_lie_where_the_picture_is(
        layout,
        signed_value(x as int),
        signed_value(y as int),
        integer_value(width as int),
        integer_value(height as int),
        left,
        down,
        wide,
        high,
    );
}

/// On Direct3D a rectangle in whole pixels is drawn at exactly those pixels.
pub proof fn law_whole_pixels_are_exact(x: i32, y: i32, width: u32, height: u32)
    requires
        whole_pixels(x, y, width, height),
    ensures
        rect_row(x, y, width, height).len() == 4,
        rect_row(x, y, width, height)[0].value() == x as real,
        rect_row(x, y, width, height)[1].value() == y as real,
        rect_row(x, y, width, height)[2].value() == width as real,
        rect_row(x, y, width, height)[3].value() == height as real,
        width > 0 ==> viewport_row(width, height)[0].value() == width as real,
        height > 0 ==> viewport_row(width, height)[1].value() == height as real,
        width == 0 ==> viewport_row(width, height)[0].value() == 1 as real,
        height == 0 ==> viewport_row(width, height)[1].value() == 1 as real,
{
    lemma_signed_is_close(x as int);
    lemma_signed_is_close(y as int);
    lemma_integer_is_close(width as int);
    lemma_integer_is_close(height as int);
    lemma_integer_is_close(1);
}

} // verus!
