//! Scrolling comments: the order in which their glyphs are drawn, and the
//! buffers that carry them to the graphics processor.
use crate::accuracy::{lemma_order_of_values, lemma_zero_and_one};
use crate::error::{renderer_error, PlayerError};
use crate::float::F32;
use crate::sum::sum;
use vstd::prelude::*;

verus! {

/// One glyph of a comment.
#[derive(Debug, Clone, Copy, PartialEq, Eq)]
pub struct DanmakuGlyphInstance {
    /// The comment that the glyph belongs to.
    pub item_id: u64,
    pub rect: [F32; 4],
    pub tex_rect: [F32; 4],
    pub color_rgba: [F32; 4],
    pub outline_rgba: [F32; 4],
    pub shadow_rgba: [F32; 4],
    /// How far the shadow is moved.
    pub shadow_offset: [F32; 2],
}

/// The layers of a comment, from the lowest up.
#[derive(Debug, Clone, Copy, PartialEq, Eq, Structural)]
pub enum DanmakuLayer {
    Shadow,
    Outline,
    Fill,
}

/// One layer of one glyph.
#[derive(Debug, Clone, Copy, PartialEq, Eq, Structural)]
pub struct DanmakuDraw {
    pub item: usize,
    pub layer: DanmakuLayer,
}

pub const DANMAKU_FILL_ATLAS_TEXTURE: u32 = 0;

pub const DANMAKU_OUTLINE_ATLAS_TEXTURE: u32 = 1;

/// What the graphics processor reads for one layer of one glyph.
#[derive(Debug, Clone, Copy, PartialEq, Eq)]
pub struct DanmakuBatchInstance {
    pub rect: [F32; 4],
    pub tex_rect: [F32; 4],
    pub color: [F32; 4],
    pub atlas_texture: u32,
    pub reserved: [u32; 3],
}

/// Bytes of one instance.
pub const INSTANCE_BYTES: usize = 64;

impl DanmakuBatchInstance {
    pub fn new(rect: [F32; 4], tex_rect: [F32; 4], color: [F32; 4], atlas_texture: u32) -> (
    instance: Self)
        ensures
            instance.rect == rect,
            instance.tex_rect == tex_rect,
            instance.color == color,
            instance.atlas_texture == atlas_texture,
            instance.reserved@ == seq![0u32, 0u32, 0u32],
    {
        let instance = DanmakuBatchInstance {
            rect,
            tex_rect,
            color,
            atlas_texture,
            reserved: [0u32, 0u32, 0u32],
        };
        proof {
            assert(instance.reserved@ =~= seq![0u32, 0u32, 0u32]);
        }
        instance
    }
}

impl DanmakuGlyphInstance {
    /// Where the shadow lies: the glyph's place, moved by the offset.
    pub open spec fn shadow(self) -> Seq<F32> {
        seq![
            sum(self.rect@[0], self.shadow_offset@[0]),
            sum(self.rect@[1], self.shadow_offset@[1]),
            self.rect@[2],
            self.rect@[3],
        ]
    }

    pub fn shadow_rect(&self) -> (rect: [F32; 4])
        ensures
            rect@ == self.shadow(),
    {
        let rect: [F32; 4] = [
            self.rect[0].plus(self.shadow_offset[0]),
            self.rect[1].plus(self.shadow_offset[1]),
            self.rect[2],
            self.rect[3],
        ];
        proof {
            assert(rect@ =~= self.shadow());
        }
        rect
    }
}

/// The colour can be seen.
pub open spec fn visible(rgba: [F32; 4]) -> bool {
    (F32 { bits: 0 }).below(rgba@[3])
}

/// The glyph has something on this layer; every glyph has a fill.
pub open spec fn shows(item: DanmakuGlyphInstance, layer: DanmakuLayer) -> bool {
    match layer {
        DanmakuLayer::Shadow => visible(item.shadow_rgba),
        DanmakuLayer::Outline => visible(item.outline_rgba),
        DanmakuLayer::Fill => true,
    }
}

fn shows_layer(item: &DanmakuGlyphInstance, layer: DanmakuLayer) -> (shown: bool)
    ensures
        shown == shows(*item, layer),
{
    match layer {
        DanmakuLayer::Shadow => item.shadow_rgba[3].is_positive(),
        DanmakuLayer::Outline => item.outline_rgba[3].is_positive(),
        DanmakuLayer::Fill => true,
    }
}

/// One layer of the glyphs `lo..hi`, in order.
pub open spec fn layer_draws(
    items: Seq<DanmakuGlyphInstance>,
    lo: int,
    hi: int,
    layer: DanmakuLayer,
) -> Seq<DanmakuDraw>
    decreases hi - lo,
{
    if hi <= lo {
        seq![]
    } else if shows(items[hi - 1], layer) {
        layer_draws(items, lo, hi - 1, layer).push(
            DanmakuDraw { item: (hi - 1) as usize, layer },
        )
    } else {
        layer_draws(items, lo, hi - 1, layer)
    }
}

/// The end of the run of glyphs of one comment that starts at `lo`, looked for
/// from `at` on.
pub open spec fn run_end(items: Seq<DanmakuGlyphInstance>, lo: int, at: int) -> int
    decreases items.len() - at,
{
    if at >= items.len() || items[at].item_id != items[lo].item_id {
        at
    } else {
        run_end(items, lo, at + 1)
    }
}

/// All layers of the glyphs `lo..hi`.
pub open spec fn run_draws(items: Seq<DanmakuGlyphInstance>, lo: int, hi: int) -> Seq<DanmakuDraw> {
    layer_draws(items, lo, hi, DanmakuLayer::Shadow) + layer_draws(
        items,
        lo,
        hi,
        DanmakuLayer::Outline,
    ) + layer_draws(items, lo, hi, DanmakuLayer::Fill)
}

proof fn lemma_run_end(items: Seq<DanmakuGlyphInstance>, lo: int, at: int)
    requires
        0 <= lo <= at <= items.len(),
    ensures
        at <= run_end(items, lo, at) <= items.len(),
    decreases items.len() - at,
{
    if at < items.len() && items[at].item_id == items[lo].item_id {
        lemma_run_end(items, lo, at + 1);
    }
}

/// The draws of the glyphs from `lo` on: comment by comment, and of each
/// comment first all shadows, then all outlines, then all fills.
pub open spec fn draw_order(items: Seq<DanmakuGlyphInstance>, lo: int) -> Seq<DanmakuDraw>
    decreases items.len() - lo,
{
    if lo < 0 || lo >= items.len() {
        seq![]
    } else {
        let end = run_end(items, lo, lo + 1);
        if end <= lo || end > items.len() {
            seq![]
        } else {
            run_draws(items, lo, end) + draw_order(items, end)
        }
    }
}

fn push_layer(
    draws: &mut Vec<DanmakuDraw>,
    items: &[DanmakuGlyphInstance],
    lo: usize,
    hi: usize,
    layer: DanmakuLayer,
)
    requires
        lo <= hi <= items@.len(),
    ensures
        final(draws)@ == old(draws)@ + layer_draws(items@, lo as int, hi as int, layer),
{
    let ghost before = draws@;
    let mut i: usize = lo;
    proof {
        assert(before + layer_draws(items@, lo as int, lo as int, layer) =~= before);
    }
    while i < hi
        invariant
            lo <= i <= hi <= items@.len(),
            draws@ == before + layer_draws(items@, lo as int, i as int, layer),
        decreases hi - i,
    {
        if shows_layer(&items[i], layer) {
            draws.push(DanmakuDraw { item: i, layer });
            proof {
                assert(draws@ =~= before + layer_draws(items@, lo as int, i + 1, layer));
            }
        }
        i = i + 1;
    }
}

/// Lists what is drawn of the glyphs, in order.
pub fn ordered_danmaku_draws(items: &[DanmakuGlyphInstance]) -> (draws: Vec<DanmakuDraw>)
    ensures
        draws@ == draw_order(items@, 0),
{
    let mut draws: Vec<DanmakuDraw> = Vec::new();
    let mut lo: usize = 0;
    proof {
        assert(draws@ + draw_order(items@, 0) =~= draw_order(items@, 0));
    }
    while lo < items.len()
        invariant
            lo <= items@.len(),
            draws@ + draw_order(items@, lo as int) == draw_order(items@, 0),
        decreases items@.len() - lo,
    {
        let mut end: usize = lo + 1;
        while end < items.len() && items[end].item_id == items[lo].item_id
            invariant
                lo < end <= items@.len(),
                run_end(items@, lo as int, lo + 1) == run_end(items@, lo as int, end as int),
            decreases items@.len() - end,
        {
            end = end + 1;
        }
        proof {
            assert(end == run_end(items@, lo as int, lo + 1));
            lemma_run_end(items@, lo as int, lo + 1);
        }
        let ghost before = draws@;
        push_layer(&mut draws, items, lo, end, DanmakuLayer::Shadow);
        push_layer(&mut draws, items, lo, end, DanmakuLayer::Outline);
        push_layer(&mut draws, items, lo, end, DanmakuLayer::Fill);
        proof {
            assert(draws@ + draw_order(items@, end as int) =~= before + draw_order(
                items@,
                lo as int,
            ));
        }
        lo = end;
    }
    proof {
        assert(draws@ =~= draw_order(items@, 0));
    }
    draws
}

/// The instance of one layer of one glyph. Shadows and outlines share a mask.
pub open spec fn is_instance(
    item: DanmakuGlyphInstance,
    layer: DanmakuLayer,
    instance: DanmakuBatchInstance,
) -> bool {
    &&& instance.tex_rect == item.tex_rect
    &&& instance.reserved@ == seq![0u32, 0u32, 0u32]
    &&& match layer {
        DanmakuLayer::Shadow => {
            &&& instance.rect@ == item.shadow()
            &&& instance.color == item.shadow_rgba
            &&& instance.atlas_texture == DANMAKU_OUTLINE_ATLAS_TEXTURE
        },
        DanmakuLayer::Outline => {
            &&& instance.rect == item.rect
            &&& instance.color == item.outline_rgba
            &&& instance.atlas_texture == DANMAKU_OUTLINE_ATLAS_TEXTURE
        },
        DanmakuLayer::Fill => {
            &&& instance.rect == item.rect
            &&& instance.color == item.color_rgba
            &&& instance.atlas_texture == DANMAKU_FILL_ATLAS_TEXTURE
        },
    }
}

proof fn lemma_layer_in_range(
    items: Seq<DanmakuGlyphInstance>,
    lo: int,
    hi: int,
    layer: DanmakuLayer,
)
    requires
        0 <= lo <= hi <= items.len(),
        items.len() <= usize::MAX,
    ensures
        forall|k: int|
            0 <= k < layer_draws(items, lo, hi, layer).len() ==> {
                let draw = #[trigger] layer_draws(items, lo, hi, layer)[k];
                lo <= draw.item < hi && draw.layer == layer && shows(items[draw.item as int], layer)
            },
        forall|j: int, k: int|
            0 <= j < k < layer_draws(items, lo, hi, layer).len() ==> (#[trigger] layer_draws(
                items,
                lo,
                hi,
                layer,
            )[j]).item < (#[trigger] layer_draws(items, lo, hi, layer)[k]).item,
    decreases hi - lo,
{
    if lo < hi {
        lemma_layer_in_range(items, lo, hi - 1, layer);
    }
}

proof fn lemma_order_in_range(items: Seq<DanmakuGlyphInstance>, lo: int)
    requires
        0 <= lo <= items.len(),
        items.len() <= usize::MAX,
    ensures
        forall|k: int|
            0 <= k < draw_order(items, lo).len() ==> lo <= (#[trigger] draw_order(
                items,
                lo,
            )[k]).item < items.len(),
    decreases items.len() - lo,
{
    if lo < items.len() {
        let end = run_end(items, lo, lo + 1);
        lemma_run_end(items, lo, lo + 1);
        lemma_order_in_range(items, end);
        lemma_layer_in_range(items, lo, end, DanmakuLayer::Shadow);
        lemma_layer_in_range(items, lo, end, DanmakuLayer::Outline);
        lemma_layer_in_range(items, lo, end, DanmakuLayer::Fill);
        let first = run_draws(items, lo, end);
        let rest = draw_order(items, end);
        let shadows = layer_draws(items, lo, end, DanmakuLayer::Shadow);
        let outlines = layer_draws(items, lo, end, DanmakuLayer::Outline);
        let fills = layer_draws(items, lo, end, DanmakuLayer::Fill);
        assert forall|k: int| 0 <= k < draw_order(items, lo).len() implies lo <= (
        #[trigger] draw_order(items, lo)[k]).item < items.len() by {
            if k < shadows.len() {
                assert(draw_order(items, lo)[k] == shadows[k]);
            } else if k < shadows.len() + outlines.len() {
                assert(draw_order(items, lo)[k] == outlines[k - shadows.len()]);
            } else if k < first.len() {
                assert(draw_order(items, lo)[k] == fills[k - shadows.len() - outlines.len()]);
            } else {
                assert(draw_order(items, lo)[k] == rest[k - first.len()]);
            }
        }
    }
}

/// Builds the instances of the glyphs, in the order in which they are drawn.
pub fn ordered_danmaku_instances(items: &[DanmakuGlyphInstance]) -> (instances: Vec<
    DanmakuBatchInstance,
>)
    ensures
        instances@.len() == draw_order(items@, 0).len(),
        forall|k: int|
            0 <= k < instances@.len() ==> is_instance(
                items@[draw_order(items@, 0)[k].item as int],
                draw_order(items@, 0)[k].layer,
                #[trigger] instances@[k],
            ),
{
    let count: usize = items.len();
    let draws: Vec<DanmakuDraw> = ordered_danmaku_draws(items);
    let mut instances: Vec<DanmakuBatchInstance> = Vec::new();
    let mut i: usize = 0;
    proof {
        lemma_order_in_range(items@, 0);
    }
    while i < draws.len()
        invariant
            i <= draws@.len(),
            draws@ == draw_order(items@, 0),
            instances@.len() == i,
            forall|k: int| 0 <= k < draws@.len() ==> (#[trigger] draws@[k]).item < items@.len(),
            forall|k: int|
                0 <= k < i ==> is_instance(
                    items@[draws@[k].item as int],
                    draws@[k].layer,
                    #[trigger] instances@[k],
                ),
        decreases draws@.len() - i,
    {
        let draw = draws[i];
        let item = &items[draw.item];
        let instance = match draw.layer {
            DanmakuLayer::Shadow => DanmakuBatchInstance::new(
                item.shadow_rect(),
                item.tex_rect,
                item.shadow_rgba,
                DANMAKU_OUTLINE_ATLAS_TEXTURE,
            ),
            DanmakuLayer::Outline => DanmakuBatchInstance::new(
                item.rect,
                item.tex_rect,
                item.outline_rgba,
                DANMAKU_OUTLINE_ATLAS_TEXTURE,
            ),
            DanmakuLayer::Fill => DanmakuBatchInstance::new(
                item.rect,
                item.tex_rect,
                item.color_rgba,
                DANMAKU_FILL_ATLAS_TEXTURE,
            ),
        };
        instances.push(instance);
        i = i + 1;
    }
    instances
}

/// Glyphs in `lo..hi` that show a layer.
pub open spec fn shown_count(
    items: Seq<DanmakuGlyphInstance>,
    lo: int,
    hi: int,
    layer: DanmakuLayer,
) -> int
    decreases hi - lo,
{
    if hi <= lo {
        0
    } else if shows(items[hi - 1], layer) {
        shown_count(items, lo, hi - 1, layer) + 1
    } else {
        shown_count(items, lo, hi - 1, layer)
    }
}

/// Instances of all the glyphs.
pub open spec fn instance_total(items: Seq<DanmakuGlyphInstance>) -> int {
    shown_count(items, 0, items.len() as int, DanmakuLayer::Shadow) + shown_count(
        items,
        0,
        items.len() as int,
        DanmakuLayer::Outline,
    ) + items.len()
}

proof fn lemma_count_bounds(
    items: Seq<DanmakuGlyphInstance>,
    lo: int,
    hi: int,
    layer: DanmakuLayer,
)
    requires
        lo <= hi,
    ensures
        0 <= shown_count(items, lo, hi, layer) <= hi - lo,
        layer_draws(items, lo, hi, layer).len() == shown_count(items, lo, hi, layer),
        layer == DanmakuLayer::Fill ==> shown_count(items, lo, hi, layer) == hi - lo,
    decreases hi - lo,
{
    if lo < hi {
        lemma_count_bounds(items, lo, hi - 1, layer);
    }
}

proof fn lemma_count_splits(
    items: Seq<DanmakuGlyphInstance>,
    lo: int,
    mid: int,
    hi: int,
    layer: DanmakuLayer,
)
    requires
        lo <= mid <= hi,
    ensures
        shown_count(items, lo, hi, layer) == shown_count(items, lo, mid, layer) + shown_count(
            items,
            mid,
            hi,
            layer,
        ),
    decreases hi - mid,
{
    if mid < hi {
        lemma_count_splits(items, lo, mid, hi - 1, layer);
    }
}

proof fn lemma_order_len(items: Seq<DanmakuGlyphInstance>, lo: int)
    requires
        0 <= lo <= items.len(),
    ensures
        draw_order(items, lo).len() == shown_count(
            items,
            lo,
            items.len() as int,
            DanmakuLayer::Shadow,
        ) + shown_count(items, lo, items.len() as int, DanmakuLayer::Outline) + shown_count(
            items,
            lo,
            items.len() as int,
            DanmakuLayer::Fill,
        ),
    decreases items.len() - lo,
{
    if lo < items.len() {
        let end = run_end(items, lo, lo + 1);
        let n = items.len() as int;
        lemma_run_end(items, lo, lo + 1);
        lemma_order_len(items, end);
        lemma_count_bounds(items, lo, end, DanmakuLayer::Shadow);
        lemma_count_bounds(items, lo, end, DanmakuLayer::Outline);
        lemma_count_bounds(items, lo, end, DanmakuLayer::Fill);
        lemma_count_splits(items, lo, end, n, DanmakuLayer::Shadow);
        lemma_count_splits(items, lo, end, n, DanmakuLayer::Outline);
        lemma_count_splits(items, lo, end, n, DanmakuLayer::Fill);
    }
}

/// As many instances are drawn as are counted: one for each glyph, one more for
/// each visible shadow and one more for each visible outline.
pub proof fn law_every_counted_instance_is_drawn(items: Seq<DanmakuGlyphInstance>)
    ensures
        draw_order(items, 0).len() == instance_total(items),
{
    lemma_order_len(items, 0);
    lemma_count_bounds(items, 0, items.len() as int, DanmakuLayer::Fill);
}

/// The height of a layer.
pub open spec fn height(layer: DanmakuLayer) -> int {
    match layer {
        DanmakuLayer::Shadow => 0,
        DanmakuLayer::Outline => 1,
        DanmakuLayer::Fill => 2,
    }
}

/// `a` is drawn before `b` within one comment: on a lower layer, or before it
/// on the same layer.
pub open spec fn below_in_run(a: DanmakuDraw, b: DanmakuDraw) -> bool {
    height(a.layer) < height(b.layer) || (a.layer == b.layer && a.item < b.item)
}

/// Within a comment all shadows lie below all outlines, and all outlines below
/// all fills; and a comment lies below the next as a whole: no glyph of a later
/// comment is drawn before one of an earlier comment.
pub proof fn law_comments_are_drawn_as_wholes(items: Seq<DanmakuGlyphInstance>, lo: int)
    requires
        0 <= lo < items.len(),
        items.len() <= usize::MAX,
    ensures
        ({
            let end = run_end(items, lo, lo + 1);
            let first = run_draws(items, lo, end);
            let rest = draw_order(items, end);
            &&& draw_order(items, lo) == first + rest
            &&& forall|j: int, k: int|
                0 <= j < k < first.len() ==> below_in_run(#[trigger] first[j], #[trigger] first[k])
            &&& forall|j: int| 0 <= j < first.len() ==> lo <= (#[trigger] first[j]).item < end
            &&& forall|k: int| 0 <= k < rest.len() ==> end <= (#[trigger] rest[k]).item
        }),
{
    let end = run_end(items, lo, lo + 1);
    lemma_run_end(items, lo, lo + 1);
    lemma_order_in_range(items, end);
    lemma_layer_in_range(items, lo, end, DanmakuLayer::Shadow);
    lemma_layer_in_range(items, lo, end, DanmakuLayer::Outline);
    lemma_layer_in_range(items, lo, end, DanmakuLayer::Fill);
    let shadows = layer_draws(items, lo, end, DanmakuLayer::Shadow);
    let outlines = layer_draws(items, lo, end, DanmakuLayer::Outline);
    let fills = layer_draws(items, lo, end, DanmakuLayer::Fill);
    let first = run_draws(items, lo, end);
    let s = shadows.len() as int;
    let o = outlines.len() as int;
    assert forall|j: int| 0 <= j < first.len() implies lo <= (#[trigger] first[j]).item < end && (if j
        < s {
        first[j] == shadows[j]
    } else if j < s + o {
        first[j] == outlines[j - s]
    } else {
        first[j] == fills[j - s - o]
    }) by {
        if j < s {
            assert(first[j] == shadows[j]);
        } else if j < s + o {
            assert(first[j] == outlines[j - s]);
        } else {
            assert(first[j] == fills[j - s - o]);
        }
    }
    assert forall|j: int, k: int| 0 <= j < k < first.len() implies below_in_run(
        #[trigger] first[j],
        #[trigger] first[k],
    ) by {
        if k < s {
            assert(shadows[j].item < shadows[k].item);
        } else if k < s + o {
            if j >= s {
                assert(outlines[j - s].item < outlines[k - s].item);
            }
        } else if j >= s + o {
            assert(fills[j - s - o].item < fills[k - s - o].item);
        }
    }
}

/// A comment is a run of glyphs as long as it can be: all glyphs of the run
/// belong to the comment, and the one behind it belongs to another.
pub proof fn law_a_comment_is_a_whole_run(items: Seq<DanmakuGlyphInstance>, lo: int, at: int)
    requires
        0 <= lo < at <= items.len(),
        forall|k: int| lo <= k < at ==> (#[trigger] items[k]).item_id == items[lo].item_id,
    ensures
        at <= run_end(items, lo, at) <= items.len(),
        forall|k: int|
            lo <= k < run_end(items, lo, at) ==> (#[trigger] items[k]).item_id
                == items[lo].item_id,
        run_end(items, lo, at) < items.len() ==> items[run_end(items, lo, at)].item_id
            != items[lo].item_id,
    decreases items.len() - at,
{
    if at < items.len() && items[at].item_id == items[lo].item_id {
        law_a_comment_is_a_whole_run(items, lo, at + 1);
    }
}

/// The glyph shows this layer: every glyph its fill, the others where their
/// colour is not wholly transparent.
pub open spec fn layer_seen(item: DanmakuGlyphInstance, layer: DanmakuLayer) -> bool {
    match layer {
        DanmakuLayer::Shadow => item.shadow_rgba@[3].value() > 0 as real,
        DanmakuLayer::Outline => item.outline_rgba@[3].value() > 0 as real,
        DanmakuLayer::Fill => true,
    }
}

/// A layer is shown exactly where it can be seen.
pub proof fn law_transparent_layers_are_not_shown(item: DanmakuGlyphInstance, layer: DanmakuLayer)
    requires
        item.shadow_rgba@[3].finite(),
        item.outline_rgba@[3].finite(),
    ensures
        shows(item, layer) <==> layer_seen(item, layer),
{
    let zero = F32 { bits: 0 };
    lemma_zero_and_one();
    lemma_order_of_values(zero, item.shadow_rgba@[3]);
    lemma_order_of_values(zero, item.outline_rgba@[3]);
}

proof fn lemma_layer_has(
    items: Seq<DanmakuGlyphInstance>,
    lo: int,
    hi: int,
    layer: DanmakuLayer,
    i: int,
)
    requires
        0 <= lo <= i < hi <= items.len(),
        items.len() <= usize::MAX,
        shows(items[i], layer),
    ensures
        layer_draws(items, lo, hi, layer).contains(DanmakuDraw { item: i as usize, layer }),
    decreases hi,
{
    let draw = DanmakuDraw { item: i as usize, layer };
    let all = layer_draws(items, lo, hi, layer);
    if i == hi - 1 {
        assert(all.last() == draw);
        assert(all[all.len() - 1] == draw);
    } else {
        lemma_layer_has(items, lo, hi - 1, layer, i);
        let before = layer_draws(items, lo, hi - 1, layer);
        let k = choose|k: int| 0 <= k < before.len() && before[k] == draw;
        assert(all[k] == draw);
    }
}

proof fn lemma_order_has(
    items: Seq<DanmakuGlyphInstance>,
    lo: int,
    layer: DanmakuLayer,
    i: int,
)
    requires
        0 <= lo <= i < items.len(),
        items.len() <= usize::MAX,
        shows(items[i], layer),
    ensures
        draw_order(items, lo).contains(DanmakuDraw { item: i as usize, layer }),
    decreases items.len() - lo,
{
    let draw = DanmakuDraw { item: i as usize, layer };
    let end = run_end(items, lo, lo + 1);
    lemma_run_end(items, lo, lo + 1);
    let shadows = layer_draws(items, lo, end, DanmakuLayer::Shadow);
    let outlines = layer_draws(items, lo, end, DanmakuLayer::Outline);
    let fills = layer_draws(items, lo, end, DanmakuLayer::Fill);
    let first = run_draws(items, lo, end);
    let all = draw_order(items, lo);
    if i < end {
        lemma_layer_has(items, lo, end, layer, i);
        let here = layer_draws(items, lo, end, layer);
        let k = choose|k: int| 0 <= k < here.len() && here[k] == draw;
        let at = match layer {
            DanmakuLayer::Shadow => k,
            DanmakuLayer::Outline => shadows.len() + k,
            DanmakuLayer::Fill => shadows.len() + outlines.len() + k,
        };
        assert(all[at] == draw);
    } else {
        lemma_order_has(items, end, layer, i);
        let rest = draw_order(items, end);
        let k = choose|k: int| 0 <= k < rest.len() && rest[k] == draw;
        assert(all[first.len() + k] == draw);
    }
}

/// Every layer of every glyph that is shown is drawn.
pub proof fn law_every_shown_layer_is_drawn(
    items: Seq<DanmakuGlyphInstance>,
    i: int,
    layer: DanmakuLayer,
)
    requires
        0 <= i < items.len() <= usize::MAX,
        shows(items[i], layer),
    ensures
        draw_order(items, 0).contains(DanmakuDraw { item: i as usize, layer }),
{
    lemma_order_has(items, 0, layer, i);
}

/// The layers of a glyph lie where the glyph lies, but for the shadow, and show
/// the glyph's part of the atlas: the fill of one atlas, the others of the other.
/// Each has its own colour.
pub proof fn law_layers_have_their_own_colours(
    item: DanmakuGlyphInstance,
    shadow: DanmakuBatchInstance,
    outline: DanmakuBatchInstance,
    fill: DanmakuBatchInstance,
)
    requires
        is_instance(item, DanmakuLayer::Shadow, shadow),
        is_instance(item, DanmakuLayer::Outline, outline),
        is_instance(item, DanmakuLayer::Fill, fill),
    ensures
        shadow.color == item.shadow_rgba,
        outline.color == item.outline_rgba,
        fill.color == item.color_rgba,
        outline.rect == item.rect,
        fill.rect == outline.rect,
        shadow.rect@[2] == fill.rect@[2],
        shadow.rect@[3] == fill.rect@[3],
        shadow.tex_rect == item.tex_rect,
        outline.tex_rect == item.tex_rect,
        fill.tex_rect == item.tex_rect,
        shadow.atlas_texture == outline.atlas_texture,
        outline.atlas_texture != fill.atlas_texture,
        fill.atlas_texture == 0,
        outline.atlas_texture == 1,
{
}

/// Counts the instances of all the glyphs.
pub fn danmaku_instance_count(items: &[DanmakuGlyphInstance]) -> (count: Result<
    usize,
    PlayerError,
>)
    ensures
        match count {
            Ok(count) => count == instance_total(items@),
            Err(error) => instance_total(items@) > usize::MAX && error.says(
                "danmaku instance count overflow"@,
            ),
        },
{
    let len: usize = items.len();
    let mut shadows: usize = 0;
    let mut outlines: usize = 0;
    let mut i: usize = 0;
    while i < len
        invariant
            i <= len,
            len == items@.len(),
            shadows == shown_count(items@, 0, i as int, DanmakuLayer::Shadow),
            outlines == shown_count(items@, 0, i as int, DanmakuLayer::Outline),
            shadows <= i,
            outlines <= i,
        decreases len - i,
    {
        if shows_layer(&items[i], DanmakuLayer::Shadow) {
            shadows = shadows + 1;
        }
        if shows_layer(&items[i], DanmakuLayer::Outline) {
            outlines = outlines + 1;
        }
        i = i + 1;
    }
    match shadows.checked_add(outlines) {
        Some(effects) => match effects.checked_add(len) {
            Some(total) => Ok(total),
            None => Err(renderer_error("danmaku instance count overflow")),
        },
        None => Err(renderer_error("danmaku instance count overflow")),
    }
}

/// Bytes of this many instances.
pub fn instance_bytes_len(instance_count: usize) -> (len: Result<usize, PlayerError>)
    ensures
        match len {
            Ok(len) => len == instance_count * 64,
            Err(error) => instance_count * 64 > usize::MAX && error.says(
                "danmaku batch instance buffer overflow"@,
            ),
        },
{
    match instance_count.checked_mul(INSTANCE_BYTES) {
        Some(len) => Ok(len),
        None => Err(renderer_error("danmaku batch instance buffer overflow")),
    }
}

/// Checks that a buffer has room for the instances that are written to it.
pub fn check_instance_room(buffer_len: usize, instance_count: usize) -> (checked: Result<
    (),
    PlayerError,
>)
    ensures
        match checked {
            Ok(()) => instance_count * 64 <= buffer_len,
            Err(error) => if instance_count * 64 > usize::MAX {
                error.says("danmaku batch instance buffer overflow"@)
            } else {
                instance_count * 64 > buffer_len && error.says(
                    "danmaku instance buffer too small"@,
                )
            },
        },
{
    if instance_count == 0 {
        return Ok(());
    }
    match instance_bytes_len(instance_count) {
        Ok(len) => if len > buffer_len {
            Err(renderer_error("danmaku instance buffer too small"))
        } else {
            Ok(())
        },
        Err(error) => Err(error),
    }
}

} // verus!
