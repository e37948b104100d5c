//! Signatures of alpha bitmaps and the reuse of a packed atlas.
use crate::error::{renderer_error, PlayerError};
use crate::overlay::{
    first_rejected, max_height, placements, rejected, rejected_text, size_overflow_text,
    total_width, width_overflow_text, OverlayAlphaAtlasPlacement, OverlayAlphaAtlasPlan,
    SubtitleAlphaBitmap,
};
use vstd::prelude::*;

verus! {

pub const FNV_OFFSET: u64 = 0xcbf29ce484222325;

pub const FNV_PRIME: u64 = 0x100000001b3;

/// One byte taken into a running FNV-1a hash.
pub open spec fn fnv_step(hash: u64, byte: u8) -> u64 {
    (hash ^ (byte as u64)).wrapping_mul(FNV_PRIME)
}

/// A run of bytes taken into a running FNV-1a hash.
pub open spec fn fnv(hash: u64, bytes: Seq<u8>) -> u64
    decreases bytes.len(),
{
    if bytes.len() == 0 {
        hash
    } else {
        fnv_step(fnv(hash, bytes.drop_last()), bytes.last())
    }
}

pub open spec fn capped(value: int) -> int {
    if value <= usize::MAX {
        value
    } else {
        usize::MAX as int
    }
}

/// Where a row of the mask starts.
pub open spec fn row_start(bitmap: SubtitleAlphaBitmap, row: int) -> int {
    capped(row * bitmap.stride)
}

/// Where a row of the mask ends.
pub open spec fn row_end(bitmap: SubtitleAlphaBitmap, row: int) -> int {
    capped(row_start(bitmap, row) + bitmap.w())
}

/// A whole row lies inside the mask's bytes.
pub open spec fn row_present(bitmap: SubtitleAlphaBitmap, row: int) -> bool {
    row_end(bitmap, row) <= bitmap.alpha@.len()
}

/// The visible bytes of the first `rows` rows, without stride padding and
/// without rows that the mask does not hold whole.
pub open spec fn visible_bytes(bitmap: SubtitleAlphaBitmap, rows: int) -> Seq<u8>
    decreases rows,
{
    if rows <= 0 {
        seq![]
    } else if row_present(bitmap, rows - 1) {
        visible_bytes(bitmap, rows - 1) + bitmap.alpha@.subrange(
            row_start(bitmap, rows - 1),
            row_end(bitmap, rows - 1),
        )
    } else {
        visible_bytes(bitmap, rows - 1)
    }
}

/// The hash of the visible bytes.
pub open spec fn alpha_hash(bitmap: SubtitleAlphaBitmap) -> u64 {
    fnv(FNV_OFFSET, visible_bytes(bitmap, bitmap.h()))
}

fn saturating_product(a: usize, b: usize) -> (product: usize)
    ensures
        product == capped(a * b),
{
    match a.checked_mul(b) {
        Some(product) => product,
        None => usize::MAX,
    }
}

proof fn lemma_fnv_concat(hash: u64, a: Seq<u8>, b: Seq<u8>)
    ensures
        fnv(hash, a + b) == fnv(fnv(hash, a), b),
    decreases b.len(),
{
    if b.len() == 0 {
        assert(a + b =~= a);
    } else {
        assert((a + b).drop_last() =~= a + b.drop_last());
        lemma_fnv_concat(hash, a, b.drop_last());
    }
}

proof fn lemma_row_end_grows(bitmap: SubtitleAlphaBitmap, r1: int, r2: int)
    requires
        0 <= r1 <= r2,
    ensures
        row_end(bitmap, r1) <= row_end(bitmap, r2),
{
    assert(r1 * bitmap.stride <= r2 * bitmap.stride) by (nonlinear_arith)
        requires
            0 <= r1 <= r2,
            0 <= bitmap.stride,
    ;
}

proof fn lemma_missing_rows(bitmap: SubtitleAlphaBitmap, row: int, rows: int)
    requires
        0 <= row <= rows,
        !row_present(bitmap, row),
    ensures
        visible_bytes(bitmap, rows) == visible_bytes(bitmap, row),
    decreases rows - row,
{
    if row < rows {
        lemma_row_end_grows(bitmap, row, rows - 1);
        lemma_missing_rows(bitmap, row, rows - 1);
    }
}

/// The FNV-1a hash of the mask's visible bytes.
pub fn hash_alpha_bitmap(bitmap: &SubtitleAlphaBitmap) -> (hash: u64)
    ensures
        hash == alpha_hash(*bitmap),
{
    let mut hash: u64 = FNV_OFFSET;
    let width: usize = bitmap.placement.width as usize;
    let height: usize = bitmap.placement.height as usize;
    let len: usize = bitmap.alpha.len();
    let mut row: usize = 0;
    while row < height
        invariant
            width == bitmap.w(),
            height == bitmap.h(),
            len == bitmap.alpha@.len(),
            row <= height,
            hash == fnv(FNV_OFFSET, visible_bytes(*bitmap, row as int)),
        decreases height - row,
    {
        proof {
            assert(row * bitmap.stride >= 0) by (nonlinear_arith)
                requires
                    row >= 0,
                    bitmap.stride >= 0,
            ;
        }
        let start: usize = saturating_product(row, bitmap.stride);
        let end: usize = start.saturating_add(width);
        if end > len {
            proof {
                lemma_missing_rows(*bitmap, row as int, height as int);
            }
            return hash;
        }
        let ghost before = hash;
        let ghost bytes = bitmap.alpha@.subrange(start as int, end as int);
        let mut at: usize = start;
        proof {
            assert(bitmap.alpha@.subrange(start as int, start as int) =~= seq![]);
        }
        while at < end
            invariant
                len == bitmap.alpha@.len(),
                start <= at <= end <= len,
                bytes == bitmap.alpha@.subrange(start as int, end as int),
                hash == fnv(before, bitmap.alpha@.subrange(start as int, at as int)),
            decreases end - at,
        {
            let byte: u8 = bitmap.alpha[at];
            proof {
                let longer = bitmap.alpha@.subrange(start as int, at + 1);
                assert(longer.drop_last() =~= bitmap.alpha@.subrange(start as int, at as int));
                assert(longer.last() == byte);
            }
            hash = (hash ^ (byte as u64)).wrapping_mul(FNV_PRIME);
            at = at + 1;
        }
        proof {
            lemma_fnv_concat(FNV_OFFSET, visible_bytes(*bitmap, row as int), bytes);
        }
        row = row + 1;
    }
    hash
}

/// What an atlas depends on in one bitmap.
#[derive(Debug, Clone, Copy, PartialEq, Eq, Structural)]
pub struct OverlayAlphaBitmapSignature {
    pub x: i32,
    pub y: i32,
    pub width: u32,
    pub height: u32,
    pub stride: usize,
    pub color_rgba: u32,
    pub alpha_len: usize,
    pub alpha_hash: u64,
}

/// The signature of one bitmap.
pub open spec fn bitmap_signature(bitmap: SubtitleAlphaBitmap) -> OverlayAlphaBitmapSignature {
    OverlayAlphaBitmapSignature {
        x: bitmap.placement.x,
        y: bitmap.placement.y,
        width: bitmap.placement.width,
        height: bitmap.placement.height,
        stride: bitmap.stride,
        color_rgba: bitmap.color_rgba,
        alpha_len: bitmap.alpha@.len() as usize,
        alpha_hash: alpha_hash(bitmap),
    }
}

impl OverlayAlphaBitmapSignature {
    pub fn from_bitmap(bitmap: &SubtitleAlphaBitmap) -> (signature: Self)
        ensures
            signature == bitmap_signature(*bitmap),
    {
        OverlayAlphaBitmapSignature {
            x: bitmap.placement.x,
            y: bitmap.placement.y,
            width: bitmap.placement.width,
            height: bitmap.placement.height,
            stride: bitmap.stride,
            color_rgba: bitmap.color_rgba,
            alpha_len: bitmap.alpha.len(),
            alpha_hash: hash_alpha_bitmap(bitmap),
        }
    }
}

/// What an atlas depends on in a list of bitmaps.
#[derive(Debug, Clone, PartialEq, Eq)]
pub struct OverlayAlphaAtlasSignature {
    pub bitmaps: Vec<OverlayAlphaBitmapSignature>,
}

/// The signatures of a list of bitmaps, in order.
pub open spec fn signatures(bitmaps: Seq<SubtitleAlphaBitmap>) -> Seq<OverlayAlphaBitmapSignature> {
    bitmaps.map_values(|bitmap: SubtitleAlphaBitmap| bitmap_signature(bitmap))
}

impl OverlayAlphaAtlasSignature {
    pub fn from_bitmaps(bitmaps: &[SubtitleAlphaBitmap]) -> (signature: Self)
        ensures
            signature.bitmaps@ == signatures(bitmaps@),
    {
        let mut list: Vec<OverlayAlphaBitmapSignature> = Vec::new();
        let mut i: usize = 0;
        while i < bitmaps.len()
            invariant
                i <= bitmaps@.len(),
                list@.len() == i,
                forall|k: int| 0 <= k < i ==> #[trigger] list@[k] == bitmap_signature(bitmaps@[k]),
            decreases bitmaps@.len() - i,
        {
            list.push(OverlayAlphaBitmapSignature::from_bitmap(&bitmaps[i]));
            i = i + 1;
        }
        proof {
            assert(list@ =~= signatures(bitmaps@));
        }
        OverlayAlphaAtlasSignature { bitmaps: list }
    }

    /// Whether the two signatures are the same.
    pub fn matches(&self, other: &Self) -> (same: bool)
        ensures
            same == (self.bitmaps@ == other.bitmaps@),
    {
        if self.bitmaps.len() != other.bitmaps.len() {
            return false;
        }
        let mut i: usize = 0;
        while i < self.bitmaps.len()
            invariant
                i <= self.bitmaps@.len(),
                self.bitmaps@.len() == other.bitmaps@.len(),
                forall|k: int| 0 <= k < i ==> #[trigger] self.bitmaps@[k] == other.bitmaps@[k],
            decreases self.bitmaps@.len() - i,
        {
            if self.bitmaps[i] != other.bitmaps[i] {
                return false;
            }
            i = i + 1;
        }
        proof {
            assert(self.bitmaps@ =~= other.bitmaps@);
        }
        true
    }
}

/// The layout of the atlas that is on the device.
#[derive(Debug, Clone, PartialEq, Eq)]
pub struct OverlayAlphaAtlasCache {
    pub width: usize,
    pub height: usize,
    pub placements: Vec<OverlayAlphaAtlasPlacement>,
    pub signature: OverlayAlphaAtlasSignature,
}

impl OverlayAlphaAtlasCache {
    pub fn new(plan: OverlayAlphaAtlasPlan, bitmaps: &[SubtitleAlphaBitmap]) -> (cache: Self)
        ensures
            cache.width == plan.width,
            cache.height == plan.height,
            cache.placements@ == plan.placements@,
            cache.signature.bitmaps@ == signatures(bitmaps@),
    {
        OverlayAlphaAtlasCache {
            width: plan.width,
            height: plan.height,
            placements: plan.placements,
            signature: OverlayAlphaAtlasSignature::from_bitmaps(bitmaps),
        }
    }

    /// The placements are those of bitmaps with the cached signatures.
    pub open spec fn faithful(self) -> bool {
        exists|bitmaps: Seq<SubtitleAlphaBitmap>|
            self.signature.bitmaps@ == signatures(bitmaps) && self.placements@
                == #[trigger] placements(bitmaps)
    }

    /// The atlas was built for bitmaps with these signatures.
    pub open spec fn reusable_for(self, bitmaps: Seq<SubtitleAlphaBitmap>) -> bool {
        self.signature.bitmaps@ == signatures(bitmaps)
    }

    pub fn can_reuse_for(&self, bitmaps: &[SubtitleAlphaBitmap]) -> (reusable: bool)
        ensures
            reusable == self.reusable_for(bitmaps@),
    {
        self.signature.matches(&OverlayAlphaAtlasSignature::from_bitmaps(bitmaps))
    }
}

/// What has to happen before the atlas can be drawn from.
#[derive(Debug, Clone, PartialEq, Eq)]
pub enum OverlayAlphaAtlasStep {
    /// The atlas on the device already holds these bitmaps.
    Reuse,
    /// A new atlas has to be uploaded.
    Upload(OverlayAlphaAtlasPlan),
}

/// The atlas on the device, and how often it was reused and replaced.
#[derive(Debug, Clone, PartialEq, Eq)]
pub struct OverlayAlphaAtlasState {
    pub cache: Option<OverlayAlphaAtlasCache>,
    pub reuses: u64,
    pub uploads: u64,
}

/// The cached atlas may be drawn from again.
pub open spec fn reuses_cache(
    cache: Option<OverlayAlphaAtlasCache>,
    bitmaps: Seq<SubtitleAlphaBitmap>,
    changed: bool,
) -> bool {
    !changed && cache is Some && cache.unwrap().reusable_for(bitmaps)
}

impl OverlayAlphaAtlasState {
    pub fn new() -> (state: Self)
        ensures
            state.cache is None,
            state.reuses == 0,
            state.uploads == 0,
    {
        OverlayAlphaAtlasState { cache: None, reuses: 0, uploads: 0 }
    }

    /// Decides how the atlas for these bitmaps comes about. Bitmaps without any
    /// area drop the cached atlas; a rejected bitmap leaves it as it is.
    pub fn prepare(&mut self, bitmaps: &[SubtitleAlphaBitmap], changed: bool) -> (step: Result<
        OverlayAlphaAtlasStep,
        PlayerError,
    >)
        requires
            old(self).reuses < u64::MAX,
        ensures
            final(self).uploads == old(self).uploads,
            reuses_cache(old(self).cache, bitmaps@, changed) ==> {
                &&& step == Ok::<OverlayAlphaAtlasStep, PlayerError>(OverlayAlphaAtlasStep::Reuse)
                &&& final(self).reuses == old(self).reuses + 1
                &&& final(self).cache == old(self).cache
            },
            !reuses_cache(old(self).cache, bitmaps@, changed) ==> {
                &&& final(self).reuses == old(self).reuses
                &&& match step {
                    Ok(OverlayAlphaAtlasStep::Reuse) => false,
                    Ok(OverlayAlphaAtlasStep::Upload(plan)) => {
                        &&& 0 < total_width(bitmaps@) * max_height(bitmaps@) <= usize::MAX
                        &&& forall|k: int|
                            0 <= k < bitmaps@.len() ==> !rejected(#[trigger] bitmaps@[k])
                        &&& plan.holds(bitmaps@)
                        &&& final(self).cache == old(self).cache
                    },
                    Err(error) => {
                        ||| {
                            &&& total_width(bitmaps@) > usize::MAX
                            &&& error.says(width_overflow_text())
                            &&& final(self).cache == old(self).cache
                        }
                        ||| {
                            &&& total_width(bitmaps@) <= usize::MAX
                            &&& total_width(bitmaps@) * max_height(bitmaps@) == 0
                            &&& error.says("cannot prepare empty overlay alpha atlas"@)
                            &&& final(self).cache is None
                        }
                        ||| {
                            &&& total_width(bitmaps@) <= usize::MAX
                            &&& total_width(bitmaps@) * max_height(bitmaps@) > usize::MAX
                            &&& error.says(size_overflow_text())
                            &&& final(self).cache == old(self).cache
                        }
                        ||| {
                            &&& total_width(bitmaps@) <= usize::MAX
                            &&& 0 < total_width(bitmaps@) * max_height(bitmaps@) <= usize::MAX
                            &&& exists|k: int| #[trigger]
                                first_rejected(bitmaps@, k) && error.says(
                                    rejected_text(bitmaps@[k]),
                                )
                            &&& final(self).cache == old(self).cache
                        }
                    },
                }
            },
    {
        if !changed {
            let reusable: bool = match &self.cache {
                Some(cache) => cache.can_reuse_for(bitmaps),
                None => false,
            };
            if reusable {
                self.reuses = self.reuses + 1;
                return Ok(OverlayAlphaAtlasStep::Reuse);
            }
        }
        match OverlayAlphaAtlasPlan::pack(bitmaps) {
            Err(error) => Err(error),
            Ok(None) => {
                self.cache = None;
                Err(renderer_error("cannot prepare empty overlay alpha atlas"))
            },
            Ok(Some(plan)) => Ok(OverlayAlphaAtlasStep::Upload(plan)),
        }
    }

    /// Records that the plan's atlas has been uploaded for these bitmaps.
    pub fn commit(&mut self, plan: OverlayAlphaAtlasPlan, bitmaps: &[SubtitleAlphaBitmap])
        requires
            old(self).uploads < u64::MAX,
            plan.placements@ == placements(bitmaps@),
        ensures
            final(self).reuses == old(self).reuses,
            final(self).uploads == old(self).uploads + 1,
            final(self).cache matches Some(cache) && {
                &&& cache.width == plan.width
                &&& cache.height == plan.height
                &&& cache.placements@ == plan.placements@
                &&& cache.reusable_for(bitmaps@)
                &&& cache.faithful()
            },
    {
        proof {
            assert(plan.placements@ == placements(bitmaps@));
        }
        self.cache = Some(OverlayAlphaAtlasCache::new(plan, bitmaps));
        self.uploads = self.uploads + 1;
    }
}

} // verus!
