//! Subtitle alpha masks and the single-row atlas that holds them.
use crate::error::{renderer_error, PlayerError};
use crate::text::{decimal, push_decimal};
use vstd::prelude::*;

verus! {

/// Where a subtitle bitmap lies in the source viewport.
#[derive(Debug, Clone, Copy, PartialEq, Eq, Structural)]
pub struct SubtitleBitmapPlacement {
    pub x: i32,
    pub y: i32,
    pub width: u32,
    pub height: u32,
}

impl SubtitleBitmapPlacement {
    pub fn new(x: i32, y: i32, width: u32, height: u32) -> (placement: Self)
        ensures
            placement == (SubtitleBitmapPlacement { x, y, width, height }),
    {
        SubtitleBitmapPlacement { x, y, width, height }
    }
}

/// An 8-bit coverage mask with one colour, as a text shaper produces it.
#[derive(Debug, Clone, PartialEq, Eq)]
pub struct SubtitleAlphaBitmap {
    pub placement: SubtitleBitmapPlacement,
    /// Bytes from the start of one row to the start of the next.
    pub stride: usize,
    /// Colour as `0xRRGGBBTT`, where `TT` is transparency.
    pub color_rgba: u32,
    pub alpha: Vec<u8>,
}

impl SubtitleAlphaBitmap {
    pub fn new(
        placement: SubtitleBitmapPlacement,
        stride: usize,
        color_rgba: u32,
        alpha: Vec<u8>,
    ) -> (bitmap: Self)
        ensures
            bitmap.placement == placement,
            bitmap.stride == stride,
            bitmap.color_rgba == color_rgba,
            bitmap.alpha@ == alpha@,
    {
        SubtitleAlphaBitmap { placement, stride, color_rgba, alpha }
    }

    /// Width in pixels.
    pub open spec fn w(self) -> int {
        self.placement.width as int
    }

    /// Height in pixels.
    pub open spec fn h(self) -> int {
        self.placement.height as int
    }

    /// The bitmap covers at least one pixel.
    pub open spec fn drawn(self) -> bool {
        self.w() > 0 && self.h() > 0
    }

    /// Bytes from the start of the mask to the end of its last row.
    pub open spec fn needed(self) -> int {
        if self.h() == 0 {
            0
        } else {
            (self.h() - 1) * self.stride + self.w()
        }
    }

    /// Every row lies inside the mask's bytes.
    pub open spec fn valid(self) -> bool {
        self.alpha@.len() >= self.needed()
    }

    /// The mask at one pixel.
    pub open spec fn mask(self, row: int, col: int) -> u8 {
        self.alpha@[row * self.stride + col]
    }

    fn needed_wide(&self) -> (needed: u128)
        ensures
            needed == self.needed(),
    {
        if self.placement.height == 0 {
            0
        } else {
            let rows: u128 = (self.placement.height - 1) as u128;
            let stride: u128 = self.stride as u128;
            proof {
                assert(0 <= rows * stride <= 0xffff_ffff * 0xffff_ffff_ffff_ffff) by (nonlinear_arith)
                    requires
                        0 <= rows <= 0xffff_ffff,
                        0 <= stride <= 0xffff_ffff_ffff_ffff,
                ;
            }
            rows * stride + self.placement.width as u128
        }
    }

    /// Bytes that the mask needs, capped at the largest length.
    pub fn required_len(&self) -> (len: usize)
        ensures
            len == if self.needed() <= usize::MAX {
                self.needed()
            } else {
                usize::MAX as int
            },
    {
        let needed: u128 = self.needed_wide();
        if needed <= usize::MAX as u128 {
            needed as usize
        } else {
            usize::MAX
        }
    }

    /// Whether every row lies inside the mask's bytes.
    pub fn is_valid(&self) -> (valid: bool)
        ensures
            valid == self.valid(),
    {
        self.alpha.len() as u128 >= self.needed_wide()
    }
}

/// Where one bitmap of the atlas came from and where it lies.
#[derive(Debug, Clone, Copy, PartialEq, Eq, Structural)]
pub struct OverlayAlphaAtlasPlacement {
    pub bitmap_index: usize,
    pub x: usize,
    pub y: usize,
}

/// One 8-bit image that holds every drawn bitmap side by side.
#[derive(Debug, Clone, PartialEq, Eq)]
pub struct OverlayAlphaAtlasPlan {
    pub width: usize,
    pub height: usize,
    pub stride: usize,
    pub pixels: Vec<u8>,
    pub placements: Vec<OverlayAlphaAtlasPlacement>,
}

/// The sum of all widths.
pub open spec fn total_width(bitmaps: Seq<SubtitleAlphaBitmap>) -> int
    decreases bitmaps.len(),
{
    if bitmaps.len() == 0 {
        0
    } else {
        total_width(bitmaps.drop_last()) + bitmaps.last().w()
    }
}

/// The largest height, zero where there is no bitmap.
pub open spec fn max_height(bitmaps: Seq<SubtitleAlphaBitmap>) -> int
    decreases bitmaps.len(),
{
    if bitmaps.len() == 0 {
        0
    } else {
        let rest = max_height(bitmaps.drop_last());
        if bitmaps.last().h() > rest {
            bitmaps.last().h()
        } else {
            rest
        }
    }
}

/// The column at which the next drawn bitmap starts.
pub open spec fn cursor(bitmaps: Seq<SubtitleAlphaBitmap>) -> int
    decreases bitmaps.len(),
{
    if bitmaps.len() == 0 {
        0
    } else if bitmaps.last().drawn() {
        cursor(bitmaps.drop_last()) + bitmaps.last().w()
    } else {
        cursor(bitmaps.drop_last())
    }
}

/// The drawn bitmaps in order, each at its cursor.
pub open spec fn placements(bitmaps: Seq<SubtitleAlphaBitmap>) -> Seq<OverlayAlphaAtlasPlacement>
    decreases bitmaps.len(),
{
    if bitmaps.len() == 0 {
        seq![]
    } else if bitmaps.last().drawn() {
        placements(bitmaps.drop_last()).push(
            OverlayAlphaAtlasPlacement {
                bitmap_index: (bitmaps.len() - 1) as usize,
                x: cursor(bitmaps.drop_last()) as usize,
                y: 0,
            },
        )
    } else {
        placements(bitmaps.drop_last())
    }
}

/// What the atlas holds at one pixel: the mask that covers it, or zero.
pub open spec fn atlas_pixel(bitmaps: Seq<SubtitleAlphaBitmap>, row: int, col: int) -> u8
    decreases bitmaps.len(),
{
    if bitmaps.len() == 0 {
        0
    } else {
        let start = cursor(bitmaps.drop_last());
        let last = bitmaps.last();
        if last.drawn() && start <= col < start + last.w() {
            if row < last.h() {
                last.mask(row, col - start)
            } else {
                0
            }
        } else {
            atlas_pixel(bitmaps.drop_last(), row, col)
        }
    }
}

/// A bitmap that is drawn but whose rows do not fit its bytes.
pub open spec fn rejected(bitmap: SubtitleAlphaBitmap) -> bool {
    bitmap.drawn() && !bitmap.valid()
}

/// `k` is the first rejected bitmap.
pub open spec fn first_rejected(bitmaps: Seq<SubtitleAlphaBitmap>, k: int) -> bool {
    &&& 0 <= k < bitmaps.len()
    &&& rejected(bitmaps[k])
    &&& forall|j: int| 0 <= j < k ==> !rejected(#[trigger] bitmaps[j])
}

/// The message for a rejected bitmap, behind its first words.
pub open spec fn size_text(start: Seq<char>, bitmap: SubtitleAlphaBitmap) -> Seq<char> {
    start + decimal(bitmap.alpha@.len()) + " bytes, expected at least "@ + decimal(
        if bitmap.needed() <= usize::MAX {
            bitmap.needed() as nat
        } else {
            usize::MAX as nat
        },
    ) + " for "@ + decimal(bitmap.placement.width as nat) + "x"@ + decimal(
        bitmap.placement.height as nat,
    ) + " stride "@ + decimal(bitmap.stride as nat)
}

/// The message for a rejected bitmap.
pub open spec fn rejected_text(bitmap: SubtitleAlphaBitmap) -> Seq<char> {
    size_text("subtitle alpha bitmap has "@, bitmap)
}

/// The message for a rejected bitmap of an atlas without spare room.
pub open spec fn drawn_rejected_text(bitmap: SubtitleAlphaBitmap) -> Seq<char> {
    size_text("d3d11: overlay alpha bitmap has "@, bitmap)
}

pub open spec fn width_overflow_text() -> Seq<char> {
    "overlay alpha atlas width overflow"@
}

pub open spec fn size_overflow_text() -> Seq<char> {
    "overlay alpha atlas size overflow"@
}

impl OverlayAlphaAtlasPlan {
    /// The plan holds exactly these bitmaps.
    pub open spec fn holds(self, bitmaps: Seq<SubtitleAlphaBitmap>) -> bool {
        &&& self.width == total_width(bitmaps)
        &&& self.height == max_height(bitmaps)
        &&& self.stride == self.width
        &&& self.placements@ == placements(bitmaps)
        &&& self.pixels@ == atlas_pixels(bitmaps, self.width as int, self.height as int)
    }
}

proof fn lemma_prefix(bitmaps: Seq<SubtitleAlphaBitmap>, n: int)
    requires
        0 <= n < bitmaps.len(),
    ensures
        bitmaps.take(n + 1).drop_last() == bitmaps.take(n),
        bitmaps.take(n + 1).last() == bitmaps[n],
{
    assert(bitmaps.take(n + 1).drop_last() =~= bitmaps.take(n));
}

proof fn lemma_cursor_within(bitmaps: Seq<SubtitleAlphaBitmap>)
    ensures
        0 <= cursor(bitmaps) <= total_width(bitmaps),
    decreases bitmaps.len(),
{
    if bitmaps.len() > 0 {
        lemma_cursor_within(bitmaps.drop_last());
    }
}

proof fn lemma_prefix_grows(bitmaps: Seq<SubtitleAlphaBitmap>, n: int)
    requires
        0 <= n <= bitmaps.len(),
    ensures
        total_width(bitmaps.take(n)) <= total_width(bitmaps),
        max_height(bitmaps.take(n)) <= max_height(bitmaps),
    decreases bitmaps.len() - n,
{
    if n < bitmaps.len() {
        lemma_prefix(bitmaps, n);
        lemma_prefix_grows(bitmaps, n + 1);
    } else {
        assert(bitmaps.take(n) =~= bitmaps);
    }
}

/// Two cells of a grid with the same linear index are the same cell.
proof fn lemma_cell_unique(width: int, r1: int, c1: int, r2: int, c2: int)
    requires
        0 <= c1 < width,
        0 <= c2 < width,
        r1 * width + c1 == r2 * width + c2,
    ensures
        r1 == r2,
        c1 == c2,
{
    if r1 < r2 {
        assert((r2 - r1) * width >= width) by (nonlinear_arith)
            requires
                r2 - r1 >= 1,
                width > 0,
        ;
        assert(r2 * width - r1 * width == (r2 - r1) * width) by (nonlinear_arith);
    } else if r2 < r1 {
        assert((r1 - r2) * width >= width) by (nonlinear_arith)
            requires
                r1 - r2 >= 1,
                width > 0,
        ;
        assert(r1 * width - r2 * width == (r1 - r2) * width) by (nonlinear_arith);
    }
}

proof fn lemma_cell_in_grid(width: int, height: int, row: int, col: int)
    requires
        0 <= row < height,
        0 <= col < width,
    ensures
        0 <= row * width + col < width * height,
{
    assert(0 <= row * width + col < width * height) by (nonlinear_arith)
        requires
            0 <= row < height,
            0 <= col < width,
    ;
}

proof fn lemma_grid_cell(width: int, height: int, p: int)
    requires
        width > 0,
        0 <= p < width * height,
    ensures
        0 <= p / width < height,
        0 <= p % width < width,
        (p / width) * width + p % width == p,
{
    vstd::arithmetic::div_mod::lemma_fundamental_div_mod(p, width);
    vstd::arithmetic::div_mod::lemma_mod_bound(p, width);
    assert(width * (p / width) == (p / width) * width) by (nonlinear_arith);
    assert(0 <= p / width < height) by (nonlinear_arith)
        requires
            width > 0,
            0 <= p < width * height,
            p == width * (p / width) + p % width,
            0 <= p % width < width,
    ;
}

/// The atlas while the first `k` bitmaps are in place, and of bitmap `k` the
/// rows before `row` and in that row the columns before `col`.
spec fn partly(
    bitmaps: Seq<SubtitleAlphaBitmap>,
    k: int,
    row: int,
    col: int,
    r: int,
    c: int,
) -> u8 {
    let start = cursor(bitmaps.take(k));
    if start <= c < start + bitmaps[k].w() && r < bitmaps[k].h() && (r < row || (r == row && c - start
        < col)) {
        bitmaps[k].mask(r, c - start)
    } else {
        atlas_pixel(bitmaps.take(k), r, c)
    }
}

spec fn grid_is(
    pixels: Seq<u8>,
    width: int,
    height: int,
    bitmaps: Seq<SubtitleAlphaBitmap>,
    k: int,
    row: int,
    col: int,
) -> bool {
    forall|r: int, c: int|
        0 <= r < height && 0 <= c < width ==> #[trigger] pixels[r * width + c] == partly(
            bitmaps,
            k,
            row,
            col,
            r,
            c,
        )
}

spec fn grid_done(
    pixels: Seq<u8>,
    width: int,
    height: int,
    bitmaps: Seq<SubtitleAlphaBitmap>,
    k: int,
) -> bool {
    forall|r: int, c: int|
        0 <= r < height && 0 <= c < width ==> #[trigger] pixels[r * width + c] == atlas_pixel(
            bitmaps.take(k),
            r,
            c,
        )
}

/// Columns at or past the cursor are still empty.
proof fn lemma_past_cursor_empty(bitmaps: Seq<SubtitleAlphaBitmap>, row: int, col: int)
    requires
        col >= cursor(bitmaps),
    ensures
        atlas_pixel(bitmaps, row, col) == 0,
    decreases bitmaps.len(),
{
    if bitmaps.len() > 0 {
        lemma_past_cursor_empty(bitmaps.drop_last(), row, col);
    }
}

fn rejected_error(start: &str, bitmap: &SubtitleAlphaBitmap) -> (error: PlayerError)
    ensures
        error.says(size_text(start@, *bitmap)),
{
    let mut text: String = start.to_owned();
    push_decimal(&mut text, bitmap.alpha.len() as u64);
    text.append(" bytes, expected at least ");
    push_decimal(&mut text, bitmap.required_len() as u64);
    text.append(" for ");
    push_decimal(&mut text, bitmap.placement.width as u64);
    text.append("x");
    push_decimal(&mut text, bitmap.placement.height as u64);
    text.append(" stride ");
    push_decimal(&mut text, bitmap.stride as u64);
    PlayerError::Renderer(text)
}

/// Copies one valid bitmap's mask into the atlas at its cursor.
fn copy_mask(
    pixels: &mut Vec<u8>,
    width: usize,
    height: usize,
    bitmaps: &[SubtitleAlphaBitmap],
    index: usize,
    cursor_x: usize,
)
    requires
        index < bitmaps@.len(),
        bitmaps@[index as int].drawn(),
        bitmaps@[index as int].valid(),
        cursor_x == cursor(bitmaps@.take(index as int)),
        cursor_x + bitmaps@[index as int].w() <= width,
        bitmaps@[index as int].h() <= height,
        old(pixels)@.len() == width * height,
        grid_done(old(pixels)@, width as int, height as int, bitmaps@, index as int),
    ensures
        final(pixels)@.len() == width * height,
        grid_done(final(pixels)@, width as int, height as int, bitmaps@, index + 1),
{
    let bitmap = &bitmaps[index];
    let bitmap_width: usize = bitmap.placement.width as usize;
    let bitmap_height: usize = bitmap.placement.height as usize;
    let mask_len: usize = bitmap.alpha.len();
    let total: usize = pixels.len();
    let ghost all = bitmaps@;
    let ghost k = index as int;
    let mut row: usize = 0;
    while row < bitmap_height
        invariant
            index < all.len(),
            k == index,
            all == bitmaps@,
            *bitmap == all[k],
            bitmap.drawn(),
            bitmap.valid(),
            bitmap_width == bitmap.w(),
            bitmap_height == bitmap.h(),
            cursor_x == cursor(all.take(k)),
            cursor_x + bitmap_width <= width,
            bitmap_height <= height,
            row <= bitmap_height,
            mask_len == bitmap.alpha@.len(),
            total == width * height,
            pixels@.len() == total,
            grid_is(pixels@, width as int, height as int, all, k, row as int, 0),
        decreases bitmap_height - row,
    {
        proof {
            let last = bitmap_height - 1;
            assert(row * bitmap.stride <= last * bitmap.stride) by (nonlinear_arith)
                requires
                    0 <= row <= last,
                    0 <= bitmap.stride,
            ;
            lemma_cell_in_grid(width as int, height as int, row as int, 0);
        }
        let source: usize = row * bitmap.stride;
        let target: usize = row * width;
        let mut col: usize = 0;
        while col < bitmap_width
            invariant
                index < all.len(),
                k == index,
                all == bitmaps@,
                *bitmap == all[k],
                bitmap.drawn(),
                bitmap.valid(),
                bitmap_width == bitmap.w(),
                bitmap_height == bitmap.h(),
                cursor_x == cursor(all.take(k)),
                cursor_x + bitmap_width <= width,
                bitmap_height <= height,
                row < bitmap_height,
                col <= bitmap_width,
                source == row * bitmap.stride,
                source + bitmap_width <= bitmap.alpha@.len(),
                target == row * width,
                mask_len == bitmap.alpha@.len(),
                total == width * height,
                pixels@.len() == total,
                grid_is(pixels@, width as int, height as int, all, k, row as int, col as int),
            decreases bitmap_width - col,
        {
            proof {
                lemma_cell_in_grid(width as int, height as int, row as int, cursor_x + col);
            }
            let value: u8 = bitmap.alpha[source + col];
            let ghost before = pixels@;
            pixels.set(target + cursor_x + col, value);
            proof {
                let wide = width as int;
                assert forall|r: int, c: int|
                    0 <= r < height && 0 <= c < width implies #[trigger] pixels@[r * wide + c]
                    == partly(all, k, row as int, col + 1, r, c) by {
                    lemma_cell_in_grid(wide, height as int, r, c);
                    if r * wide + c == row * wide + (cursor_x + col) {
                        lemma_cell_unique(wide, r, c, row as int, cursor_x + col);
                    } else {
                        assert(pixels@[r * wide + c] == before[r * wide + c]);
                    }
                }
            }
            col = col + 1;
        }
        proof {
            let wide = width as int;
            assert forall|r: int, c: int|
                0 <= r < height && 0 <= c < width implies #[trigger] pixels@[r * wide + c] == partly(
                all,
                k,
                row + 1,
                0,
                r,
                c,
            ) by {}
        }
        row = row + 1;
    }
    proof {
        let wide = width as int;
        lemma_prefix(all, k);
        assert forall|r: int, c: int|
            0 <= r < height && 0 <= c < width implies #[trigger] pixels@[r * wide + c] == atlas_pixel(
            all.take(k + 1),
            r,
            c,
        ) by {
            if c >= cursor_x {
                lemma_past_cursor_empty(all.take(k), r, c);
            }
        }
    }
}

/// The pixels of an atlas of this size with every drawn bitmap at its cursor.
pub open spec fn atlas_pixels(
    bitmaps: Seq<SubtitleAlphaBitmap>,
    width: int,
    height: int,
) -> Seq<u8> {
    Seq::new((width * height) as nat, |p: int| atlas_pixel(bitmaps, p / width, p % width))
}

/// Fills an atlas that has room for every drawn bitmap. Where a bitmap is
/// rejected the first such bitmap is reported.
fn fill_atlas(bitmaps: &[SubtitleAlphaBitmap], width: usize, height: usize) -> (filled: Result<
    (Vec<u8>, Vec<OverlayAlphaAtlasPlacement>),
    usize,
>)
    requires
        0 < width * height <= usize::MAX,
        cursor(bitmaps@) <= width,
        forall|k: int|
            0 <= k < bitmaps@.len() && (#[trigger] bitmaps@[k]).drawn() ==> bitmaps@[k].h()
                <= height,
    ensures
        match filled {
            Ok((pixels, placed)) => {
                &&& forall|k: int| 0 <= k < bitmaps@.len() ==> !rejected(#[trigger] bitmaps@[k])
                &&& pixels@ == atlas_pixels(bitmaps@, width as int, height as int)
                &&& placed@ == placements(bitmaps@)
            },
            Err(index) => first_rejected(bitmaps@, index as int),
        },
{
    let count: usize = bitmaps.len();
    let ghost all = bitmaps@;
    let len: usize = width * height;
    let mut pixels: Vec<u8> = vec![0u8; len];
    let mut placed: Vec<OverlayAlphaAtlasPlacement> = Vec::new();
    let mut cursor_x: usize = 0;
    let mut index: usize = 0;
    proof {
        assert(all.take(0).len() == 0);
        assert forall|r: int, c: int|
            0 <= r < height && 0 <= c < width implies #[trigger] pixels@[r * width as int + c]
            == atlas_pixel(all.take(0), r, c) by {
            lemma_cell_in_grid(width as int, height as int, r, c);
        }
        assert(placed@ =~= placements(all.take(0)));
    }
    while index < count
        invariant
            count == all.len(),
            all == bitmaps@,
            index <= count,
            cursor(all) <= width,
            forall|k: int|
                0 <= k < all.len() && (#[trigger] all[k]).drawn() ==> all[k].h() <= height,
            0 < width * height <= usize::MAX,
            pixels@.len() == width * height,
            cursor_x == cursor(all.take(index as int)),
            placed@ == placements(all.take(index as int)),
            grid_done(pixels@, width as int, height as int, all, index as int),
            forall|k: int| 0 <= k < index ==> !rejected(#[trigger] all[k]),
        decreases count - index,
    {
        let bitmap_width: usize = bitmaps[index].placement.width as usize;
        let bitmap_height: usize = bitmaps[index].placement.height as usize;
        proof {
            lemma_prefix(all, index as int);
            lemma_cursor_grows(all, index + 1);
        }
        if bitmap_width == 0 || bitmap_height == 0 {
            proof {
                assert forall|r: int, c: int|
                    0 <= r < height && 0 <= c < width implies #[trigger] pixels@[r * width as int
                    + c] == atlas_pixel(all.take(index + 1), r, c) by {}
            }
        } else {
            if !bitmaps[index].is_valid() {
                return Err(index);
            }
            copy_mask(&mut pixels, width, height, bitmaps, index, cursor_x);
            placed.push(OverlayAlphaAtlasPlacement { bitmap_index: index, x: cursor_x, y: 0 });
            cursor_x = cursor_x + bitmap_width;
        }
        index = index + 1;
    }
    proof {
        assert(all.take(count as int) =~= all);
        let wide = width as int;
        let tall = height as int;
        let want = atlas_pixels(all, wide, tall);
        assert(wide > 0) by (nonlinear_arith)
            requires
                wide * tall > 0,
                wide >= 0,
        ;
        assert forall|p: int| 0 <= p < pixels@.len() implies pixels@[p] == want[p] by {
            lemma_grid_cell(wide, tall, p);
            assert(pixels@[(p / wide) * wide + p % wide] == atlas_pixel(
                all.take(count as int),
                p / wide,
                p % wide,
            ));
        }
        assert(pixels@ =~= want);
    }
    Ok((pixels, placed))
}

proof fn lemma_cursor_grows(bitmaps: Seq<SubtitleAlphaBitmap>, n: int)
    requires
        0 <= n <= bitmaps.len(),
    ensures
        0 <= cursor(bitmaps.take(n)) <= cursor(bitmaps),
    decreases bitmaps.len() - n,
{
    lemma_cursor_within(bitmaps.take(n));
    if n < bitmaps.len() {
        lemma_prefix(bitmaps, n);
        lemma_cursor_grows(bitmaps, n + 1);
    } else {
        assert(bitmaps.take(n) =~= bitmaps);
    }
}

proof fn lemma_height_bounds(bitmaps: Seq<SubtitleAlphaBitmap>, k: int)
    requires
        0 <= k < bitmaps.len(),
    ensures
        bitmaps[k].h() <= max_height(bitmaps),
    decreases bitmaps.len(),
{
    if k < bitmaps.len() - 1 {
        lemma_height_bounds(bitmaps.drop_last(), k);
    }
}

impl OverlayAlphaAtlasPlan {
    /// Packs the drawn bitmaps into one row. Without any area there is no plan.
    pub fn pack(bitmaps: &[SubtitleAlphaBitmap]) -> (packed: Result<Option<Self>, PlayerError>)
        ensures
            match packed {
                Err(error) => {
                    ||| {
                        &&& total_width(bitmaps@) > usize::MAX
                        &&& error.says(width_overflow_text())
                    }
                    ||| {
                        &&& total_width(bitmaps@) <= usize::MAX
                        &&& total_width(bitmaps@) * max_height(bitmaps@) > usize::MAX
                        &&& error.says(size_overflow_text())
                    }
                    ||| {
                        &&& total_width(bitmaps@) <= usize::MAX
                        &&& 0 < total_width(bitmaps@) * max_height(bitmaps@) <= usize::MAX
                        &&& exists|k: int| #[trigger]
                            first_rejected(bitmaps@, k) && error.says(rejected_text(bitmaps@[k]))
                    }
                },
                Ok(None) => {
                    &&& total_width(bitmaps@) <= usize::MAX
                    &&& total_width(bitmaps@) * max_height(bitmaps@) == 0
                },
                Ok(Some(plan)) => {
                    &&& 0 < total_width(bitmaps@) * max_height(bitmaps@) <= usize::MAX
                    &&& forall|k: int|
                        0 <= k < bitmaps@.len() ==> !rejected(#[trigger] bitmaps@[k])
                    &&& plan.holds(bitmaps@)
                },
            },
    {
        let count: usize = bitmaps.len();
        let ghost all = bitmaps@;
        let mut width: usize = 0;
        let mut height: usize = 0;
        let mut i: usize = 0;
        proof {
            assert(all.take(0).len() == 0);
        }
        while i < count
            invariant
                count == all.len(),
                all == bitmaps@,
                i <= count,
                width == total_width(all.take(i as int)),
            decreases count - i,
        {
            let bitmap_width: usize = bitmaps[i].placement.width as usize;
            proof {
                lemma_prefix(all, i as int);
                lemma_prefix_grows(all, i + 1);
            }
            match width.checked_add(bitmap_width) {
                Some(sum) => {
                    width = sum;
                },
                None => {
                    return Err(renderer_error("overlay alpha atlas width overflow"));
                },
            }
            i = i + 1;
        }
        i = 0;
        while i < count
            invariant
                count == all.len(),
                all == bitmaps@,
                i <= count,
                height == max_height(all.take(i as int)),
            decreases count - i,
        {
            let bitmap_height: usize = bitmaps[i].placement.height as usize;
            proof {
                lemma_prefix(all, i as int);
            }
            if bitmap_height > height {
                height = bitmap_height;
            }
            i = i + 1;
        }
        proof {
            assert(all.take(count as int) =~= all);
        }
        if width == 0 || height == 0 {
            proof {
                assert(width * height == 0) by (nonlinear_arith)
                    requires
                        width == 0 || height == 0,
                ;
            }
            return Ok(None);
        }
        if width.checked_mul(height).is_none() {
            return Err(renderer_error("overlay alpha atlas size overflow"));
        }
        proof {
            assert(width * height > 0) by (nonlinear_arith)
                requires
                    width > 0,
                    height > 0,
            ;
            lemma_cursor_within(all);
            assert forall|k: int|
                0 <= k < all.len() && (#[trigger] all[k]).drawn() implies all[k].h() <= height by {
                lemma_height_bounds(all, k);
            }
        }
        match fill_atlas(bitmaps, width, height) {
            Ok((pixels, placed)) => Ok(
                Some(
                    OverlayAlphaAtlasPlan {
                        width,
                        height,
                        stride: width,
                        pixels,
                        placements: placed,
                    },
                ),
            ),
            Err(index) => Err(rejected_error("subtitle alpha bitmap has ", &bitmaps[index])),
        }
    }

    /// The plan holds exactly the drawn bitmaps, with no room for others.
    pub open spec fn holds_drawn(self, bitmaps: Seq<SubtitleAlphaBitmap>) -> bool {
        &&& self.width == cursor(bitmaps)
        &&& self.height == drawn_height(bitmaps)
        &&& self.stride == self.width
        &&& self.placements@ == placements(bitmaps)
        &&& self.pixels@ == atlas_pixels(bitmaps, self.width as int, self.height as int)
    }

    /// Packs the drawn bitmaps into one row that has no room for the others.
    pub fn pack_drawn(bitmaps: &[SubtitleAlphaBitmap]) -> (packed: Result<
        Option<Self>,
        PlayerError,
    >)
        requires
            cursor(bitmaps@) * drawn_height(bitmaps@) <= usize::MAX,
            cursor(bitmaps@) <= usize::MAX,
        ensures
            match packed {
                Err(error) => {
                    &&& cursor(bitmaps@) > 0
                    &&& exists|k: int| #[trigger]
                        first_rejected(bitmaps@, k) && error.says(
                            drawn_rejected_text(bitmaps@[k]),
                        )
                },
                Ok(None) => cursor(bitmaps@) == 0,
                Ok(Some(plan)) => {
                    &&& cursor(bitmaps@) > 0
                    &&& forall|k: int|
                        0 <= k < bitmaps@.len() ==> !rejected(#[trigger] bitmaps@[k])
                    &&& plan.holds_drawn(bitmaps@)
                },
            },
    {
        let count: usize = bitmaps.len();
        let ghost all = bitmaps@;
        let mut width: usize = 0;
        let mut height: usize = 0;
        let mut i: usize = 0;
        proof {
            assert(all.take(0).len() == 0);
        }
        while i < count
            invariant
                count == all.len(),
                all == bitmaps@,
                i <= count,
                cursor(all) <= usize::MAX,
                width == cursor(all.take(i as int)),
                height == drawn_height(all.take(i as int)),
            decreases count - i,
        {
            let bitmap_width: usize = bitmaps[i].placement.width as usize;
            let bitmap_height: usize = bitmaps[i].placement.height as usize;
            proof {
                lemma_prefix(all, i as int);
                lemma_cursor_grows(all, i + 1);
            }
            if bitmap_width != 0 && bitmap_height != 0 {
                width = width + bitmap_width;
                if bitmap_height > height {
                    height = bitmap_height;
                }
            }
            i = i + 1;
        }
        proof {
            assert(all.take(count as int) =~= all);
            lemma_drawn_height(all);
        }
        if width == 0 || height == 0 {
            return Ok(None);
        }
        proof {
            assert(width * height > 0) by (nonlinear_arith)
                requires
                    width > 0,
                    height > 0,
            ;
        }
        match fill_atlas(bitmaps, width, height) {
            Ok((pixels, placed)) => Ok(
                Some(
                    OverlayAlphaAtlasPlan {
                        width,
                        height,
                        stride: width,
                        pixels,
                        placements: placed,
                    },
                ),
            ),
            Err(index) => Err(
                rejected_error("d3d11: overlay alpha bitmap has ", &bitmaps[index]),
            ),
        }
    }
}

/// The largest height of a drawn bitmap, zero where none is drawn.
pub open spec fn drawn_height(bitmaps: Seq<SubtitleAlphaBitmap>) -> int
    decreases bitmaps.len(),
{
    if bitmaps.len() == 0 {
        0
    } else {
        let rest = drawn_height(bitmaps.drop_last());
        if bitmaps.last().drawn() && bitmaps.last().h() > rest {
            bitmaps.last().h()
        } else {
            rest
        }
    }
}

proof fn lemma_drawn_height(bitmaps: Seq<SubtitleAlphaBitmap>)
    ensures
        cursor(bitmaps) >= 0,
        drawn_height(bitmaps) >= 0,
        cursor(bitmaps) == 0 <==> drawn_height(bitmaps) == 0,
        forall|k: int|
            0 <= k < bitmaps.len() && (#[trigger] bitmaps[k]).drawn() ==> bitmaps[k].h()
                <= drawn_height(bitmaps),
    decreases bitmaps.len(),
{
    if bitmaps.len() > 0 {
        let rest = bitmaps.drop_last();
        lemma_drawn_height(rest);
        assert forall|k: int|
            0 <= k < bitmaps.len() && (#[trigger] bitmaps[k]).drawn() implies bitmaps[k].h()
            <= drawn_height(bitmaps) by {
            if k < rest.len() {
                assert(rest[k] == bitmaps[k]);
            }
        }
    }
}

} // verus!
