//! What holds of every atlas and of every signature.
use crate::overlay::{
    atlas_pixel, cursor, placements, total_width, OverlayAlphaAtlasPlan, SubtitleAlphaBitmap,
};
use crate::overlay_cache::{
    alpha_hash, bitmap_signature, fnv, fnv_step, reuses_cache, row_end, row_present, row_start,
    signatures, visible_bytes, OverlayAlphaAtlasCache, FNV_OFFSET, FNV_PRIME,
};
use vstd::prelude::*;

verus! {

proof fn lemma_take_split(bitmaps: Seq<SubtitleAlphaBitmap>, k: int)
    requires
        0 <= k < bitmaps.len(),
    ensures
        bitmaps.take(k + 1).drop_last() == bitmaps.take(k),
        bitmaps.take(k + 1).last() == bitmaps[k],
{
    assert(bitmaps.take(k + 1).drop_last() =~= bitmaps.take(k));
}

proof fn lemma_cursor_monotone(bitmaps: Seq<SubtitleAlphaBitmap>, j: int, k: int)
    requires
        0 <= j <= k <= bitmaps.len(),
    ensures
        0 <= cursor(bitmaps.take(j)) <= cursor(bitmaps.take(k)) <= total_width(bitmaps.take(k)),
        total_width(bitmaps.take(j)) <= total_width(bitmaps.take(k)),
    decreases k,
{
    if k == 0 {
    } else if j == k {
        lemma_cursor_monotone(bitmaps, j - 1, k - 1);
        lemma_take_split(bitmaps, k - 1);
    } else {
        lemma_cursor_monotone(bitmaps, j, k - 1);
        lemma_take_split(bitmaps, k - 1);
    }
}

/// Drawn bitmaps lie side by side in list order, and inside the atlas: the
/// columns of one end before the columns of any later one start.
pub proof fn law_bitmaps_do_not_overlap(bitmaps: Seq<SubtitleAlphaBitmap>, j: int, k: int)
    requires
        0 <= j < k < bitmaps.len(),
        bitmaps[j].drawn(),
        bitmaps[k].drawn(),
    ensures
        cursor(bitmaps.take(j)) + bitmaps[j].w() <= cursor(bitmaps.take(k)),
        cursor(bitmaps.take(k)) + bitmaps[k].w() <= total_width(bitmaps),
{
    lemma_take_split(bitmaps, j);
    lemma_cursor_monotone(bitmaps, j + 1, k);
    lemma_take_split(bitmaps, k);
    lemma_cursor_monotone(bitmaps, k + 1, bitmaps.len() as int);
    assert(bitmaps.take(bitmaps.len() as int) =~= bitmaps);
}

proof fn lemma_pixel_of_prefix(
    bitmaps: Seq<SubtitleAlphaBitmap>,
    k: int,
    n: int,
    row: int,
    col: int,
)
    requires
        0 <= k < n <= bitmaps.len(),
        bitmaps[k].drawn(),
        0 <= row < bitmaps[k].h(),
        0 <= col < bitmaps[k].w(),
    ensures
        atlas_pixel(bitmaps.take(n), row, cursor(bitmaps.take(k)) + col) == bitmaps[k].mask(
            row,
            col,
        ),
    decreases n,
{
    lemma_take_split(bitmaps, n - 1);
    if n > k + 1 {
        lemma_pixel_of_prefix(bitmaps, k, n - 1, row, col);
        lemma_take_split(bitmaps, k);
        lemma_cursor_monotone(bitmaps, k + 1, n - 1);
    }
}

/// Every pixel of every drawn bitmap stands in the atlas at the bitmap's
/// placement.
pub proof fn law_atlas_shows_each_bitmap(
    plan: OverlayAlphaAtlasPlan,
    bitmaps: Seq<SubtitleAlphaBitmap>,
    k: int,
    row: int,
    col: int,
)
    requires
        plan.holds(bitmaps),
        0 <= k < bitmaps.len(),
        bitmaps[k].drawn(),
        0 <= row < bitmaps[k].h(),
        0 <= col < bitmaps[k].w(),
    ensures
        0 <= row * plan.stride + cursor(bitmaps.take(k)) + col < plan.pixels@.len(),
        plan.pixels@[row * plan.stride + cursor(bitmaps.take(k)) + col] == bitmaps[k].mask(row, col),
{
    let wide = plan.width as int;
    let tall = plan.height as int;
    let x = cursor(bitmaps.take(k)) + col;
    lemma_take_split(bitmaps, k);
    lemma_cursor_monotone(bitmaps, k, k + 1);
    lemma_cursor_monotone(bitmaps, k + 1, bitmaps.len() as int);
    assert(bitmaps.take(bitmaps.len() as int) =~= bitmaps);
    lemma_height_covers(bitmaps, k);
    assert(0 <= x < wide);
    assert(0 <= row * wide + x < wide * tall) by (nonlinear_arith)
        requires
            0 <= row < tall,
            0 <= x < wide,
    ;
    vstd::arithmetic::div_mod::lemma_fundamental_div_mod_converse(row * wide + x, wide, row, x);
    lemma_pixel_of_prefix(bitmaps, k, bitmaps.len() as int, row, col);
}

proof fn lemma_height_covers(bitmaps: Seq<SubtitleAlphaBitmap>, k: int)
    requires
        0 <= k < bitmaps.len(),
    ensures
        bitmaps[k].h() <= crate::overlay::max_height(bitmaps),
    decreases bitmaps.len(),
{
    if k < bitmaps.len() - 1 {
        lemma_height_covers(bitmaps.drop_last(), k);
    }
}

/// The atlas places exactly the drawn bitmaps: there is a placement for each,
/// at the bitmap's cursor in the first row.
pub proof fn law_each_drawn_bitmap_is_placed(bitmaps: Seq<SubtitleAlphaBitmap>, k: int)
    requires
        0 <= k < bitmaps.len(),
        bitmaps.len() <= usize::MAX,
        total_width(bitmaps) <= usize::MAX,
    ensures
        bitmaps[k].drawn() <==> exists|n: int|
            0 <= n < placements(bitmaps).len() && (#[trigger] placements(bitmaps)[n]).bitmap_index
                == k && placements(bitmaps)[n].x == cursor(bitmaps.take(k))
                && placements(bitmaps)[n].y == 0,
    decreases bitmaps.len(),
{
    let rest = bitmaps.drop_last();
    let last = bitmaps.len() - 1;
    assert(bitmaps.take(last) =~= rest);
    lemma_placed_are_earlier(rest);
    lemma_cursor_monotone(bitmaps, last, last);
    lemma_cursor_monotone(bitmaps, last, last + 1);
    assert(bitmaps.take(last + 1) =~= bitmaps);
    if k == last {
        if bitmaps[k].drawn() {
            assert(placements(bitmaps)[placements(bitmaps).len() - 1].bitmap_index == k);
        }
    } else {
        law_each_drawn_bitmap_is_placed(rest, k);
        assert(rest.take(k) =~= bitmaps.take(k));
        assert forall|n: int| 0 <= n < placements(rest).len() implies #[trigger] placements(
            rest,
        )[n] == placements(bitmaps)[n] by {}
        if bitmaps[k].drawn() {
            let n = choose|n: int|
                0 <= n < placements(rest).len() && (#[trigger] placements(rest)[n]).bitmap_index == k
                    && placements(rest)[n].x == cursor(rest.take(k)) && placements(rest)[n].y == 0;
            assert(placements(bitmaps)[n].bitmap_index == k);
        } else if exists|n: int|
            0 <= n < placements(bitmaps).len() && (#[trigger] placements(bitmaps)[n]).bitmap_index
                == k && placements(bitmaps)[n].x == cursor(bitmaps.take(k))
                && placements(bitmaps)[n].y == 0 {
            let n = choose|n: int|
                0 <= n < placements(bitmaps).len() && (#[trigger] placements(
                    bitmaps,
                )[n]).bitmap_index == k && placements(bitmaps)[n].x == cursor(bitmaps.take(k))
                    && placements(bitmaps)[n].y == 0;
            assert(n < placements(rest).len());
            assert(placements(rest)[n].bitmap_index == k);
        }
    }
}

proof fn lemma_placed_are_earlier(bitmaps: Seq<SubtitleAlphaBitmap>)
    requires
        bitmaps.len() <= usize::MAX,
    ensures
        forall|n: int|
            0 <= n < placements(bitmaps).len() ==> (#[trigger] placements(bitmaps)[n]).bitmap_index
                < bitmaps.len(),
    decreases bitmaps.len(),
{
    if bitmaps.len() > 0 {
        let rest = bitmaps.drop_last();
        lemma_placed_are_earlier(rest);
        assert forall|n: int| 0 <= n < placements(bitmaps).len() implies (#[trigger] placements(
            bitmaps,
        )[n]).bitmap_index < bitmaps.len() by {
            if n < placements(rest).len() {
                assert(placements(rest)[n].bitmap_index < rest.len());
            }
        }
    }
}

/// Equal signatures come only from bitmaps with the same placements, strides,
/// colours and mask lengths: a bitmap that moved or changed colour never
/// matches.
pub proof fn law_signature_tracks_layout(
    a: Seq<SubtitleAlphaBitmap>,
    b: Seq<SubtitleAlphaBitmap>,
)
    requires
        signatures(a) == signatures(b),
        forall|k: int| 0 <= k < a.len() ==> (#[trigger] a[k]).alpha@.len() <= usize::MAX,
        forall|k: int| 0 <= k < b.len() ==> (#[trigger] b[k]).alpha@.len() <= usize::MAX,
    ensures
        a.len() == b.len(),
        forall|k: int|
            0 <= k < a.len() ==> {
                &&& (#[trigger] a[k]).placement == b[k].placement
                &&& a[k].stride == b[k].stride
                &&& a[k].color_rgba == b[k].color_rgba
                &&& a[k].alpha@.len() == b[k].alpha@.len()
            },
{
    assert(signatures(a).len() == a.len());
    assert(signatures(b).len() == b.len());
    assert forall|k: int| 0 <= k < a.len() implies {
        &&& (#[trigger] a[k]).placement == b[k].placement
        &&& a[k].stride == b[k].stride
        &&& a[k].color_rgba == b[k].color_rgba
        &&& a[k].alpha@.len() == b[k].alpha@.len()
    } by {
        assert(signatures(a)[k] == bitmap_signature(a[k]));
        assert(signatures(b)[k] == bitmap_signature(b[k]));
        assert(b[k].alpha@.len() <= usize::MAX);
    }
}

/// The two bitmaps are equal in everything that is drawn.
pub open spec fn same_bitmap(a: SubtitleAlphaBitmap, b: SubtitleAlphaBitmap) -> bool {
    &&& a.placement == b.placement
    &&& a.stride == b.stride
    &&& a.color_rgba == b.color_rgba
    &&& a.alpha@ == b.alpha@
}

proof fn lemma_same_visible(a: SubtitleAlphaBitmap, b: SubtitleAlphaBitmap, rows: int)
    requires
        same_bitmap(a, b),
    ensures
        visible_bytes(a, rows) == visible_bytes(b, rows),
    decreases rows,
{
    if rows > 0 {
        lemma_same_visible(a, b, rows - 1);
    }
}

/// An atlas that was built for a list of bitmaps is used again for an equal
/// list, unless the list is reported as changed.
pub proof fn law_equal_bitmaps_reuse_the_atlas(
    cache: OverlayAlphaAtlasCache,
    a: Seq<SubtitleAlphaBitmap>,
    b: Seq<SubtitleAlphaBitmap>,
)
    requires
        cache.reusable_for(a),
        a.len() == b.len(),
        forall|k: int| 0 <= k < a.len() ==> same_bitmap(#[trigger] a[k], b[k]),
    ensures
        reuses_cache(Some(cache), b, false),
        !reuses_cache(Some(cache), b, true),
{
    assert forall|k: int| 0 <= k < a.len() implies #[trigger] signatures(a)[k] == signatures(b)[k] by {
        assert(same_bitmap(a[k], b[k]));
        lemma_same_visible(a[k], b[k], a[k].h());
    }
    assert(signatures(a) =~= signatures(b));
}

proof fn lemma_same_placements(a: Seq<SubtitleAlphaBitmap>, b: Seq<SubtitleAlphaBitmap>)
    requires
        signatures(a) == signatures(b),
    ensures
        placements(a) == placements(b),
        cursor(a) == cursor(b),
    decreases a.len(),
{
    assert(signatures(a).len() == a.len());
    assert(signatures(b).len() == b.len());
    if a.len() > 0 {
        let last = a.len() - 1;
        assert(signatures(a)[last] == bitmap_signature(a[last]));
        assert(signatures(b)[last] == bitmap_signature(b[last]));
        assert(signatures(a.drop_last()) =~= signatures(a).drop_last());
        assert(signatures(b.drop_last()) =~= signatures(b).drop_last());
        lemma_same_placements(a.drop_last(), b.drop_last());
    }
}

/// The placements of an atlas that is used again are those of the bitmaps it is
/// used for: each refers to a bitmap of the list, and to the same place.
pub proof fn law_reused_placements_belong_to_the_bitmaps(
    cache: OverlayAlphaAtlasCache,
    bitmaps: Seq<SubtitleAlphaBitmap>,
)
    requires
        cache.faithful(),
        cache.reusable_for(bitmaps),
        bitmaps.len() <= usize::MAX,
    ensures
        cache.placements@ == placements(bitmaps),
        forall|n: int|
            0 <= n < cache.placements@.len() ==> (#[trigger] cache.placements@[n]).bitmap_index
                < bitmaps.len(),
{
    let built = choose|built: Seq<SubtitleAlphaBitmap>|
        cache.signature.bitmaps@ == signatures(built) && cache.placements@ == #[trigger] placements(
            built,
        );
    lemma_same_placements(built, bitmaps);
    lemma_placed_are_earlier(bitmaps);
}

proof fn lemma_fnv_step_injective(h1: u64, h2: u64, byte: u8)
    requires
        fnv_step(h1, byte) == fnv_step(h2, byte),
    ensures
        h1 == h2,
{
    let b = byte as u64;
    lemma_prime_cancels(h1 ^ b, h2 ^ b);
    assert(h1 == h2) by (bit_vector)
        requires
            h1 ^ b == h2 ^ b,
    ;
}

proof fn lemma_fnv_step_separates(hash: u64, b1: u8, b2: u8)
    requires
        fnv_step(hash, b1) == fnv_step(hash, b2),
    ensures
        b1 == b2,
{
    let w1 = b1 as u64;
    let w2 = b2 as u64;
    lemma_prime_cancels(hash ^ w1, hash ^ w2);
    assert(w1 == w2) by (bit_vector)
        requires
            hash ^ w1 == hash ^ w2,
    ;
}

/// The FNV prime is odd, so a product by it determines the other factor.
proof fn lemma_prime_cancels(a: u64, b: u64)
    requires
        a.wrapping_mul(FNV_PRIME) == b.wrapping_mul(FNV_PRIME),
    ensures
        a == b,
{
    let m: int = 0x1_0000_0000_0000_0000;
    let p: int = FNV_PRIME as int;
    let inv: int = 0xce965057aff6957b;
    assert((a * p) % m == (b * p) % m);
    assert(p * inv == 887285111055 * m + 1);
    lemma_times_inverse(a as int, p, inv, m);
    lemma_times_inverse(b as int, p, inv, m);
    assert(a as int % m == a) by {
        vstd::arithmetic::div_mod::lemma_small_mod(a as nat, m as nat);
    }
    assert(b as int % m == b) by {
        vstd::arithmetic::div_mod::lemma_small_mod(b as nat, m as nat);
    }
}

proof fn lemma_times_inverse(a: int, p: int, inv: int, m: int)
    requires
        m == 0x1_0000_0000_0000_0000,
        p * inv == 887285111055 * m + 1,
    ensures
        (((a * p) % m) * inv) % m == a % m,
{
    vstd::arithmetic::div_mod::lemma_mul_mod_noop_left(a * p, inv, m);
    assert((a * p) * inv == a * (p * inv)) by (nonlinear_arith);
    assert(a * (887285111055 * m + 1) == m * (a * 887285111055) + a) by (nonlinear_arith);
    vstd::arithmetic::div_mod::lemma_mod_multiples_vanish(a * 887285111055, a, m);
}

proof fn lemma_one_byte_changes_fnv(hash: u64, a: Seq<u8>, b: Seq<u8>, at: int)
    requires
        a.len() == b.len(),
        0 <= at < a.len(),
        a[at] != b[at],
        forall|k: int| 0 <= k < a.len() && k != at ==> a[k] == b[k],
    ensures
        fnv(hash, a) != fnv(hash, b),
    decreases a.len(),
{
    let last = a.len() - 1;
    if at == last {
        assert(a.drop_last() =~= b.drop_last());
        if fnv(hash, a) == fnv(hash, b) {
            lemma_fnv_step_separates(fnv(hash, a.drop_last()), a.last(), b.last());
        }
    } else {
        lemma_one_byte_changes_fnv(hash, a.drop_last(), b.drop_last(), at);
        if fnv(hash, a) == fnv(hash, b) {
            lemma_fnv_step_injective(
                fnv(hash, a.drop_last()),
                fnv(hash, b.drop_last()),
                a.last(),
            );
        }
    }
}

/// A change of one visible byte of one mask changes its hash, so the atlas is
/// not taken for the old one.
pub proof fn law_one_changed_byte_changes_the_hash(
    a: SubtitleAlphaBitmap,
    b: SubtitleAlphaBitmap,
    at: int,
)
    requires
        ({
            let va = visible_bytes(a, a.h());
            let vb = visible_bytes(b, b.h());
            &&& va.len() == vb.len()
            &&& 0 <= at < va.len()
            &&& va[at] != vb[at]
            &&& forall|k: int| 0 <= k < va.len() && k != at ==> va[k] == vb[k]
        }),
    ensures
        alpha_hash(a) != alpha_hash(b),
        bitmap_signature(a) != bitmap_signature(b),
{
    lemma_one_byte_changes_fnv(
        FNV_OFFSET,
        visible_bytes(a, a.h()),
        visible_bytes(b, b.h()),
        at,
    );
}

/// Neither the place of a bitmap nor the bytes between the end of a row and the
/// start of the next enter the hash: equal rows give equal hashes.
pub proof fn law_padding_does_not_matter(a: SubtitleAlphaBitmap, b: SubtitleAlphaBitmap)
    requires
        a.placement.width == b.placement.width,
        a.placement.height == b.placement.height,
        forall|row: int|
            0 <= row < a.h() ==> (#[trigger] row_present(a, row)) == row_present(b, row),
        forall|row: int|
            0 <= row < a.h() && #[trigger] row_present(a, row) ==> a.alpha@.subrange(
                row_start(a, row),
                row_end(a, row),
            ) == b.alpha@.subrange(row_start(b, row), row_end(b, row)),
    ensures
        alpha_hash(a) == alpha_hash(b),
{
    lemma_rows_agree(a, b, a.h());
}

proof fn lemma_rows_agree(a: SubtitleAlphaBitmap, b: SubtitleAlphaBitmap, rows: int)
    requires
        0 <= rows <= a.h(),
        forall|row: int|
            0 <= row < a.h() ==> (#[trigger] row_present(a, row)) == row_present(b, row),
        forall|row: int|
            0 <= row < a.h() && #[trigger] row_present(a, row) ==> a.alpha@.subrange(
                row_start(a, row),
                row_end(a, row),
            ) == b.alpha@.subrange(row_start(b, row), row_end(b, row)),
    ensures
        visible_bytes(a, rows) == visible_bytes(b, rows),
    decreases rows,
{
    if rows > 0 {
        lemma_rows_agree(a, b, rows - 1);
        assert(row_present(a, rows - 1) == row_present(b, rows - 1));
    }
}

} // verus!
