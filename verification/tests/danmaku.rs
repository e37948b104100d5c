//! Comments that fly over the video: their order, buffers and glyph atlas.

use erika::danmaku::{
    check_instance_room, danmaku_instance_count, instance_bytes_len, ordered_danmaku_draws,
    ordered_danmaku_instances, DanmakuGlyphInstance, DanmakuLayer, DANMAKU_FILL_ATLAS_TEXTURE,
    DANMAKU_OUTLINE_ATLAS_TEXTURE,
};
use erika::danmaku_buffers::{
    danmaku_atlas_cached, is_reusable, plan_danmaku_atlas, plan_danmaku_batch, update_offset,
    CommandStatus, DanmakuAtlasStep, DanmakuAtlasUpdate, DanmakuGlyphAtlas,
    DanmakuVertexBufferPool,
};
use erika::float::F32;

fn f(value: f32) -> F32 {
    F32::from_bits(value.to_bits())
}

fn v(value: F32) -> f32 {
    f32::from_bits(value.to_bits())
}

fn glyph(
    item_id: u64,
    fill_marker: f32,
    outline_marker: f32,
    shadow_marker: f32,
) -> DanmakuGlyphInstance {
    DanmakuGlyphInstance {
        item_id,
        rect: [0.0, 0.0, 10.0, 10.0].map(f),
        tex_rect: [0.0, 0.0, 1.0, 1.0].map(f),
        color_rgba: [fill_marker, 0.0, 0.0, 1.0].map(f),
        outline_rgba: [outline_marker, 0.0, 0.0, 1.0].map(f),
        shadow_rgba: [shadow_marker, 0.0, 0.0, 1.0].map(f),
        shadow_offset: [1.0, 1.0].map(f),
    }
}

fn atlas(version: u64, update: Option<DanmakuAtlasUpdate>) -> DanmakuGlyphAtlas {
    DanmakuGlyphAtlas {
        version,
        width: 4,
        height: 2,
        stride: 4,
        fill_alpha: vec![1; 8],
        outline_alpha: vec![2; 8],
        update,
    }
}

#[test]
fn danmaku_batch_instances_keep_each_item_effects_below_its_fill() {
    let items = [
        glyph(1, 0.13, 0.12, 0.11),
        glyph(1, 0.23, 0.22, 0.21),
        glyph(2, 0.33, 0.32, 0.31),
    ];
    let instances = ordered_danmaku_instances(&items);
    let order: Vec<(u32, f32)> = instances
        .iter()
        .map(|instance| (instance.atlas_texture, v(instance.color[0])))
        .collect();

    assert_eq!(instances.len(), 9);
    assert_eq!(
        order,
        vec![
            (DANMAKU_OUTLINE_ATLAS_TEXTURE, 0.11),
            (DANMAKU_OUTLINE_ATLAS_TEXTURE, 0.21),
            (DANMAKU_OUTLINE_ATLAS_TEXTURE, 0.12),
            (DANMAKU_OUTLINE_ATLAS_TEXTURE, 0.22),
            (DANMAKU_FILL_ATLAS_TEXTURE, 0.13),
            (DANMAKU_FILL_ATLAS_TEXTURE, 0.23),
            (DANMAKU_OUTLINE_ATLAS_TEXTURE, 0.31),
            (DANMAKU_OUTLINE_ATLAS_TEXTURE, 0.32),
            (DANMAKU_FILL_ATLAS_TEXTURE, 0.33),
        ]
    );
}

#[test]
fn invisible_effects_are_not_drawn() {
    let mut item = glyph(1, 0.5, 0.5, 0.5);
    item.shadow_rgba[3] = f(0.0);
    item.outline_rgba[3] = f(-1.0);
    let items = [item, glyph(1, 0.5, 0.5, 0.5)];
    assert_eq!(danmaku_instance_count(&items), Ok(4));
    let draws = ordered_danmaku_draws(&items);
    let order: Vec<(usize, DanmakuLayer)> =
        draws.iter().map(|draw| (draw.item, draw.layer)).collect();
    assert_eq!(
        order,
        vec![
            (1, DanmakuLayer::Shadow),
            (1, DanmakuLayer::Outline),
            (0, DanmakuLayer::Fill),
            (1, DanmakuLayer::Fill),
        ]
    );
    let instances = ordered_danmaku_instances(&items);
    assert_eq!(instances[0].rect, [1.0, 1.0, 10.0, 10.0].map(f));
    assert_eq!(instances[1].rect, [0.0, 0.0, 10.0, 10.0].map(f));
}

#[test]
fn buffers_have_room_for_their_instances() {
    assert_eq!(instance_bytes_len(3), Ok(192));
    assert_eq!(
        instance_bytes_len(usize::MAX).unwrap_err().message(),
        "danmaku batch instance buffer overflow"
    );
    assert_eq!(check_instance_room(192, 3), Ok(()));
    assert_eq!(
        check_instance_room(191, 3).unwrap_err().message(),
        "danmaku instance buffer too small"
    );
    assert_eq!(check_instance_room(0, 0), Ok(()));
}

#[test]
fn busy_buffers_are_left_alone() {
    let mut pool = DanmakuVertexBufferPool::new();
    let first = pool.select(&[], 100);
    assert_eq!(first.index, 0);
    assert!(first.grew_pool);
    assert_eq!(first.allocate, Some(4096));
    pool.confirm(first);
    let second = pool.select(&[CommandStatus::Unfinished], 5000);
    assert_eq!(second.index, 1);
    assert_eq!(second.allocate, Some(8192));
    pool.confirm(second);
    let third = pool.select(&[CommandStatus::Completed, CommandStatus::Unfinished], 64);
    assert_eq!(third.index, 0);
    assert!(!third.grew_pool);
    assert_eq!(third.allocate, None);
    pool.clear();
    assert!(pool.slots.is_empty());
    assert!(is_reusable(CommandStatus::Idle));
    assert!(is_reusable(CommandStatus::Error));
    assert!(!is_reusable(CommandStatus::Unfinished));
}

#[test]
fn an_unchanged_glyph_atlas_is_not_uploaded_again() {
    let first = atlas(1, None);
    assert!(first.is_valid());
    assert_eq!(first.required_len(), 8);
    assert!(matches!(plan_danmaku_atlas(&None, &first), DanmakuAtlasStep::Recreate));
    let cache = Some(danmaku_atlas_cached(&first));
    assert!(matches!(plan_danmaku_atlas(&cache, &first), DanmakuAtlasStep::Reuse));
    let update = DanmakuAtlasUpdate {
        from_version: 1,
        x: 1,
        y: 1,
        width: 2,
        height: 1,
    };
    let second = atlas(2, Some(update));
    assert!(matches!(
        plan_danmaku_atlas(&cache, &second),
        DanmakuAtlasStep::Update(step) if step == update
    ));
    assert_eq!(update_offset(&second, update), 5);
    let third = atlas(9, None);
    assert!(matches!(plan_danmaku_atlas(&cache, &third), DanmakuAtlasStep::Recreate));
}

#[test]
fn a_short_glyph_atlas_is_refused() {
    let mut short = atlas(1, None);
    short.outline_alpha = vec![0; 7];
    let error = short.check("danmaku glyph atlas has fill=").unwrap_err();
    assert_eq!(
        error.message(),
        "danmaku glyph atlas has fill=8 outline=7 bytes, expected at least 8 for 4x2 stride 4"
    );
    let items = [glyph(1, 0.5, 0.5, 0.5)];
    let error = plan_danmaku_batch(&items, Some(&short)).unwrap_err();
    assert!(error.message().starts_with("danmaku glyph atlas has fill=8"));
    assert!(matches!(plan_danmaku_batch(&items, None), Ok(None)));
    let batch = plan_danmaku_batch(&items, Some(&atlas(1, None))).unwrap().unwrap();
    assert_eq!(batch.instances.len(), 3);
    assert_eq!(batch.bytes, 192);
}
