//! The vertex buffers and the glyph atlas of scrolling comments.
use crate::d3d11_artcnn::counted;
use crate::danmaku::{
    danmaku_instance_count, draw_order, instance_bytes_len, instance_total, is_instance,
    law_every_counted_instance_is_drawn, ordered_danmaku_instances, DanmakuBatchInstance,
    DanmakuGlyphInstance,
};
use crate::error::PlayerError;
use crate::text::{decimal, push_decimal};
use vstd::arithmetic::power2::{lemma_pow2_unfold, pow2};
use vstd::prelude::*;

verus! {

/// One buffer of the pool.
#[derive(Debug, Clone, Copy, PartialEq, Eq, Structural)]
pub struct DanmakuVertexBufferSlot {
    pub capacity: usize,
    /// There is a buffer of that capacity.
    pub allocated: bool,
}

/// Buffers that are used in turn, so that none is written while the graphics
/// processor still reads it.
#[derive(Debug, Clone, PartialEq, Eq)]
pub struct DanmakuVertexBufferPool {
    pub slots: Vec<DanmakuVertexBufferSlot>,
    /// Where the search for a free buffer starts.
    pub cursor: usize,
    pub acquisitions: u64,
}

/// What the commands that last used a buffer are doing.
#[derive(Debug, Clone, Copy, PartialEq, Eq, Structural)]
pub enum CommandStatus {
    /// No commands use the buffer.
    Idle,
    /// The commands are still being recorded, or wait, or run.
    Unfinished,
    Completed,
    Error,
}

/// The buffer may be written again. One whose commands are still being recorded
/// may not: a draw that is recorded already would read what is written now.
pub open spec fn reusable(status: CommandStatus) -> bool {
    status != CommandStatus::Unfinished
}

pub fn is_reusable(status: CommandStatus) -> (yes: bool)
    ensures
        yes == reusable(status),
{
    !matches!(status, CommandStatus::Unfinished)
}

/// The smallest capacity that is handed out.
pub const LEAST_CAPACITY: usize = 4096;

/// What has to happen before a buffer can be written.
#[derive(Debug, Clone, Copy, PartialEq, Eq, Structural)]
pub struct AcquiredSlot {
    pub index: usize,
    pub grew_pool: bool,
    /// The capacity of the buffer to allocate, where the old one is too small.
    pub allocate: Option<usize>,
}

/// `capacity` is the least power of two that holds `len` bytes and is not below
/// the smallest capacity.
pub open spec fn fitting_capacity(len: int, capacity: int) -> bool {
    &&& exists|e: nat| capacity == #[trigger] pow2(e)
    &&& capacity >= len
    &&& capacity >= LEAST_CAPACITY
    &&& capacity > LEAST_CAPACITY ==> capacity / 2 < len
}

/// The slot that the search comes to after `offset` steps.
pub open spec fn slot_at(cursor: int, offset: int, count: int) -> int {
    (cursor + offset) % count
}

/// The first free buffer from the cursor on, if there is one.
pub open spec fn is_first_free(status: Seq<CommandStatus>, cursor: int, index: int) -> bool {
    exists|offset: int|
        0 <= offset < status.len() && index == #[trigger] slot_at(
            cursor,
            offset,
            status.len() as int,
        ) && reusable(status[index]) && forall|o: int|
            0 <= o < offset ==> !reusable(
                status[#[trigger] slot_at(cursor, o, status.len() as int)],
            )
}

/// No buffer is free.
pub open spec fn none_free(status: Seq<CommandStatus>) -> bool {
    forall|i: int| 0 <= i < status.len() ==> !reusable(#[trigger] status[i])
}

fn capacity_for(len: usize) -> (capacity: usize)
    requires
        len <= usize::MAX / 2 + 1,
    ensures
        fitting_capacity(len as int, capacity as int),
{
    let mut capacity: usize = LEAST_CAPACITY;
    let ghost mut e: nat = 12;
    proof {
        vstd::arithmetic::power2::lemma2_to64();
    }
    while capacity < len
        invariant
            len <= usize::MAX / 2 + 1,
            capacity >= LEAST_CAPACITY,
            capacity == pow2(e),
            capacity > LEAST_CAPACITY ==> capacity / 2 < len,
        decreases usize::MAX - capacity,
    {
        proof {
            lemma_pow2_unfold(e + 1);
            e = e + 1;
        }
        capacity = capacity * 2;
    }
    capacity
}

impl DanmakuVertexBufferPool {
    /// The cursor points at a slot, where there is one.
    pub open spec fn wf(self) -> bool {
        self.cursor == 0 || self.cursor < self.slots@.len()
    }

    pub fn new() -> (pool: Self)
        ensures
            pool.wf(),
            pool.slots@.len() == 0,
            pool.cursor == 0,
            pool.acquisitions == 0,
    {
        DanmakuVertexBufferPool { slots: Vec::new(), cursor: 0, acquisitions: 0 }
    }

    /// Gives all buffers up.
    pub fn clear(&mut self)
        ensures
            final(self).wf(),
            final(self).slots@.len() == 0,
            final(self).cursor == 0,
            final(self).acquisitions == 0,
    {
        self.slots.clear();
        self.cursor = 0;
        self.acquisitions = 0;
    }

    fn find_free(&self, status: &[CommandStatus]) -> (found: Option<usize>)
        requires
            self.wf(),
            status@.len() == self.slots@.len(),
        ensures
            match found {
                Some(index) => index < status@.len() && is_first_free(
                    status@,
                    self.cursor as int,
                    index as int,
                ),
                None => none_free(status@),
            },
    {
        let count: usize = status.len();
        let ghost n = count as int;
        let ghost c = self.cursor as int;
        let mut offset: usize = 0;
        let mut index: usize = self.cursor;
        proof {
            if count > 0 {
                vstd::arithmetic::div_mod::lemma_small_mod(c as nat, n as nat);
            }
        }
        while offset < count
            invariant
                count == status@.len(),
                n == count,
                c == self.cursor,
                self.cursor == 0 || self.cursor < count,
                offset <= count,
                offset < count ==> index == slot_at(c, offset as int, n),
                forall|o: int|
                    0 <= o < offset ==> !reusable(status@[#[trigger] slot_at(c, o, n)]),
            decreases count - offset,
        {
            proof {
                vstd::arithmetic::div_mod::lemma_mod_bound(c + offset, n);
            }
            if is_reusable(status[index]) {
                return Some(index);
            }
            proof {
                let here = c + offset;
                if index + 1 == count {
                    assert(slot_at(c, offset + 1, n) == 0) by (nonlinear_arith)
                        requires
                            slot_at(c, offset + 1, n) == (c + (offset + 1)) % n,
                            (c + offset) % n == n - 1,
                            n > 0,
                            c + offset >= 0,
                    ;
                } else {
                    assert(slot_at(c, offset + 1, n) == index + 1) by {
                        vstd::arithmetic::div_mod::lemma_fundamental_div_mod(here, n);
                        vstd::arithmetic::div_mod::lemma_fundamental_div_mod_converse(
                            here + 1,
                            n,
                            here / n,
                            index + 1,
                        );
                    }
                }
            }
            index = if index + 1 == count {
                0
            } else {
                index + 1
            };
            offset = offset + 1;
        }
        proof {
            assert forall|i: int| 0 <= i < n implies !reusable(#[trigger] status@[i]) by {
                let o = if i >= c {
                    i - c
                } else {
                    i - c + n
                };
                assert(slot_at(c, o, n) == i) by {
                    if i >= c {
                        vstd::arithmetic::div_mod::lemma_small_mod(i as nat, n as nat);
                    } else {
                        vstd::arithmetic::div_mod::lemma_mod_add_multiples_vanish(i, n);
                        vstd::arithmetic::div_mod::lemma_small_mod(i as nat, n as nat);
                    }
                }
            }
        }
        None
    }

    /// Selects the buffer for this many bytes: the first free one from the
    /// cursor on, or a new one where none is free.
    pub fn select(&mut self, status: &[CommandStatus], required_len: usize) -> (slot: AcquiredSlot)
        requires
            old(self).wf(),
            status@.len() == old(self).slots@.len(),
            0 < required_len <= usize::MAX / 2 + 1,
            old(self).slots@.len() < usize::MAX,
        ensures
            final(self).wf(),
            final(self).cursor == old(self).cursor,
            final(self).acquisitions == old(self).acquisitions,
            slot.grew_pool == none_free(status@),
            !slot.grew_pool ==> {
                &&& is_first_free(status@, old(self).cursor as int, slot.index as int)
                &&& slot.index < old(self).slots@.len()
                &&& final(self).slots@ == old(self).slots@
            },
            slot.grew_pool ==> {
                &&& slot.index == old(self).slots@.len()
                &&& final(self).slots@ == old(self).slots@.push(
                    DanmakuVertexBufferSlot { capacity: 0, allocated: false },
                )
            },
            ({
                let chosen = final(self).slots@[slot.index as int];
                match slot.allocate {
                    Some(capacity) => {
                        &&& chosen.capacity < required_len || !chosen.allocated
                        &&& fitting_capacity(required_len as int, capacity as int)
                    },
                    None => chosen.capacity >= required_len && chosen.allocated,
                }
            }),
    {
        let found: Option<usize> = self.find_free(status);
        let (index, grew_pool): (usize, bool) = match found {
            Some(index) => (index, false),
            None => {
                self.slots.push(DanmakuVertexBufferSlot { capacity: 0, allocated: false });
                (self.slots.len() - 1, true)
            },
        };
        proof {
            if found is Some {
                assert(reusable(status@[index as int]));
                assert(!none_free(status@));
            }
        }
        let slot = self.slots[index];
        let allocate: Option<usize> = if slot.capacity < required_len || !slot.allocated {
            Some(capacity_for(required_len))
        } else {
            None
        };
        AcquiredSlot { index, grew_pool, allocate }
    }

    /// Takes in that the selected buffer is in use from now on. The next search
    /// starts behind it.
    pub fn confirm(&mut self, slot: AcquiredSlot)
        requires
            old(self).wf(),
            slot.index < old(self).slots@.len(),
        ensures
            final(self).wf(),
            final(self).cursor == if slot.index + 1 == old(self).slots@.len() {
                0
            } else {
                slot.index + 1
            },
            final(self).acquisitions == counted(old(self).acquisitions),
            final(self).slots@ == match slot.allocate {
                Some(capacity) => old(self).slots@.update(
                    slot.index as int,
                    DanmakuVertexBufferSlot { capacity, allocated: true },
                ),
                None => old(self).slots@,
            },
    {
        if let Some(capacity) = slot.allocate {
            self.slots.set(slot.index, DanmakuVertexBufferSlot { capacity, allocated: true });
        }
        let count: usize = self.slots.len();
        self.cursor = if slot.index == count - 1 {
            0
        } else {
            slot.index + 1
        };
        self.acquisitions = self.acquisitions.saturating_add(1);
    }
}

/// A buffer that is handed out is never one that unfinished commands read.
pub proof fn law_busy_buffers_are_never_handed_out(
    status: Seq<CommandStatus>,
    cursor: int,
    index: int,
)
    requires
        is_first_free(status, cursor, index),
    ensures
        status[index] != CommandStatus::Unfinished,
{
}

/// The part of an atlas that changed since an earlier version.
#[derive(Debug, Clone, Copy, PartialEq, Eq, Structural)]
pub struct DanmakuAtlasUpdate {
    pub from_version: u64,
    pub x: u32,
    pub y: u32,
    pub width: u32,
    pub height: u32,
}

/// The masks of all glyphs, once filled and once outlined.
#[derive(Debug, Clone, PartialEq, Eq)]
pub struct DanmakuGlyphAtlas {
    pub version: u64,
    pub width: u32,
    pub height: u32,
    pub stride: usize,
    pub fill_alpha: Vec<u8>,
    pub outline_alpha: Vec<u8>,
    pub update: Option<DanmakuAtlasUpdate>,
}

impl DanmakuGlyphAtlas {
    /// Bytes from the start of a mask to the end of its last row.
    pub open spec fn needed(self) -> int {
        if self.height == 0 {
            0
        } else {
            (self.height - 1) * self.stride + self.width
        }
    }

    /// Both masks hold every row.
    pub open spec fn valid(self) -> bool {
        self.fill_alpha@.len() >= self.needed() && self.outline_alpha@.len() >= self.needed()
    }

    fn needed_wide(&self) -> (needed: u128)
        ensures
            needed == self.needed(),
    {
        if self.height == 0 {
            return 0;
        }
        let rows: u128 = (self.height - 1) as u128;
        let stride: u128 = self.stride as u128;
        proof {
            assert(0 <= rows * stride <= 0xffff_ffff * 0xffff_ffff_ffff_ffff) by (nonlinear_arith)
                requires
                    0 <= rows <= 0xffff_ffff,
                    0 <= stride <= 0xffff_ffff_ffff_ffff,
            ;
        }
        rows * stride + self.width as u128
    }

    /// Bytes that a mask needs, capped at the largest length.
    pub fn required_len(&self) -> (len: usize)
        ensures
            len == if self.needed() <= usize::MAX {
                self.needed()
            } else {
                usize::MAX as int
            },
    {
        let needed: u128 = self.needed_wide();
        if needed <= usize::MAX as u128 {
            needed as usize
        } else {
            usize::MAX
        }
    }

    pub fn is_valid(&self) -> (valid: bool)
        ensures
            valid == self.valid(),
    {
        let needed: u128 = self.needed_wide();
        self.fill_alpha.len() as u128 >= needed && self.outline_alpha.len() as u128 >= needed
    }

    /// The message for an atlas whose masks are too short, behind its first
    /// words.
    pub open spec fn fault(self, start: Seq<char>) -> Seq<char> {
        start + decimal(self.fill_alpha@.len()) + " outline="@ + decimal(
            self.outline_alpha@.len(),
        ) + " bytes, expected at least "@ + decimal(
            if self.needed() <= usize::MAX {
                self.needed() as nat
            } else {
                usize::MAX as nat
            },
        ) + " for "@ + decimal(self.width as nat) + "x"@ + decimal(self.height as nat)
            + " stride "@ + decimal(self.stride as nat)
    }

    /// Checks that both masks hold every row. `start` starts the message.
    pub fn check(&self, start: &str) -> (checked: Result<(), PlayerError>)
        ensures
            match checked {
                Ok(()) => self.valid(),
                Err(error) => !self.valid() && error.says(self.fault(start@)),
            },
    {
        if self.is_valid() {
            return Ok(());
        }
        let mut text: String = start.to_owned();
        push_decimal(&mut text, self.fill_alpha.len() as u64);
        text.append(" outline=");
        push_decimal(&mut text, self.outline_alpha.len() as u64);
        text.append(" bytes, expected at least ");
        push_decimal(&mut text, self.required_len() as u64);
        text.append(" for ");
        push_decimal(&mut text, self.width as u64);
        text.append("x");
        push_decimal(&mut text, self.height as u64);
        text.append(" stride ");
        push_decimal(&mut text, self.stride as u64);
        Err(PlayerError::Renderer(text))
    }
}

/// The atlas that is on the device.
#[derive(Debug, Clone, Copy, PartialEq, Eq, Structural)]
pub struct DanmakuAlphaAtlasCache {
    pub version: u64,
    pub width: u32,
    pub height: u32,
    pub stride: usize,
}

/// What has to happen before the atlas can be drawn from.
#[derive(Debug, Clone, Copy, PartialEq, Eq, Structural)]
pub enum DanmakuAtlasStep {
    /// The device has this version.
    Reuse,
    /// A part has to be uploaded.
    Update(DanmakuAtlasUpdate),
    /// Both textures have to be made anew.
    Recreate,
}

impl DanmakuAlphaAtlasCache {
    /// The device has exactly this atlas.
    pub open spec fn current(self, atlas: DanmakuGlyphAtlas) -> bool {
        self.version == atlas.version && self.shaped_like(atlas)
    }

    /// The textures have the size of the atlas.
    pub open spec fn shaped_like(self, atlas: DanmakuGlyphAtlas) -> bool {
        self.width == atlas.width && self.height == atlas.height && self.stride == atlas.stride
    }

    pub fn can_reuse_for(&self, atlas: &DanmakuGlyphAtlas) -> (reusable: bool)
        ensures
            reusable == self.current(*atlas),
    {
        self.version == atlas.version && self.width == atlas.width && self.height == atlas.height
            && self.stride == atlas.stride
    }
}

/// The step from what the device has to an atlas.
pub open spec fn atlas_step(
    cache: Option<DanmakuAlphaAtlasCache>,
    atlas: DanmakuGlyphAtlas,
) -> DanmakuAtlasStep {
    match cache {
        None => DanmakuAtlasStep::Recreate,
        Some(cache) => if cache.current(atlas) {
            DanmakuAtlasStep::Reuse
        } else {
            match atlas.update {
                Some(update) => if update.from_version == cache.version && cache.shaped_like(
                    atlas,
                ) {
                    DanmakuAtlasStep::Update(update)
                } else {
                    DanmakuAtlasStep::Recreate
                },
                None => DanmakuAtlasStep::Recreate,
            }
        },
    }
}

/// Decides how an atlas gets to the device.
pub fn plan_danmaku_atlas(cache: &Option<DanmakuAlphaAtlasCache>, atlas: &DanmakuGlyphAtlas) -> (
step: DanmakuAtlasStep)
    ensures
        step == atlas_step(*cache, *atlas),
{
    match cache {
        None => DanmakuAtlasStep::Recreate,
        Some(cache) => {
            if cache.can_reuse_for(atlas) {
                return DanmakuAtlasStep::Reuse;
            }
            if let Some(update) = atlas.update {
                if update.from_version == cache.version && cache.width == atlas.width
                    && cache.height == atlas.height && cache.stride == atlas.stride {
                    return DanmakuAtlasStep::Update(update);
                }
            }
            DanmakuAtlasStep::Recreate
        },
    }
}

/// What the device has once a step has been taken.
pub fn danmaku_atlas_cached(atlas: &DanmakuGlyphAtlas) -> (cache: DanmakuAlphaAtlasCache)
    ensures
        cache.current(*atlas),
{
    DanmakuAlphaAtlasCache {
        version: atlas.version,
        width: atlas.width,
        height: atlas.height,
        stride: atlas.stride,
    }
}

/// Once an atlas is on the device it is not uploaded again until it changes.
pub proof fn law_an_unchanged_atlas_is_not_uploaded(
    cache: DanmakuAlphaAtlasCache,
    atlas: DanmakuGlyphAtlas,
)
    requires
        cache.current(atlas),
    ensures
        atlas_step(Some(cache), atlas) == DanmakuAtlasStep::Reuse,
{
}

/// Where the changed part of a mask starts.
pub fn update_offset(atlas: &DanmakuGlyphAtlas, update: DanmakuAtlasUpdate) -> (offset: usize)
    requires
        atlas.valid(),
        update.y < atlas.height,
        update.x <= atlas.width,
    ensures
        offset == update.y * atlas.stride + update.x,
        offset <= atlas.fill_alpha@.len(),
        offset <= atlas.outline_alpha@.len(),
{
    let len: usize = atlas.fill_alpha.len();
    proof {
        let last = atlas.height - 1;
        assert(update.y * atlas.stride <= last * atlas.stride) by (nonlinear_arith)
            requires
                0 <= update.y <= last,
                0 <= atlas.stride,
        ;
        assert(0 <= update.y * atlas.stride) by (nonlinear_arith)
            requires
                0 <= update.y,
                0 <= atlas.stride,
        ;
    }
    update.y as usize * atlas.stride + update.x as usize
}

/// The instances of a frame's comments, with the bytes that they take.
#[derive(Debug, Clone, PartialEq, Eq)]
pub struct DanmakuBatch {
    pub instances: Vec<DanmakuBatchInstance>,
    pub bytes: usize,
}

pub open spec fn metal_atlas_text() -> Seq<char> {
    "danmaku glyph atlas has fill="@
}

/// Plans the comments of a frame: nothing without glyphs or without an atlas.
pub fn plan_danmaku_batch(
    items: &[DanmakuGlyphInstance],
    atlas: Option<&DanmakuGlyphAtlas>,
) -> (batch: Result<Option<DanmakuBatch>, PlayerError>)
    ensures
        match batch {
            Ok(None) => items@.len() == 0 || atlas is None,
            Ok(Some(batch)) => {
                &&& items@.len() > 0
                &&& atlas is Some && atlas.unwrap().valid()
                &&& instance_total(items@) * 64 <= usize::MAX
                &&& batch.bytes == instance_total(items@) * 64
                &&& batch.instances@.len() == instance_total(items@)
                &&& forall|k: int|
                    0 <= k < batch.instances@.len() ==> is_instance(
                        items@[draw_order(items@, 0)[k].item as int],
                        draw_order(items@, 0)[k].layer,
                        #[trigger] batch.instances@[k],
                    )
            },
            Err(error) => {
                &&& items@.len() > 0
                &&& atlas is Some
                &&& if !atlas.unwrap().valid() {
                    error.says(atlas.unwrap().fault(metal_atlas_text()))
                } else if instance_total(items@) > usize::MAX {
                    error.says("danmaku instance count overflow"@)
                } else {
                    &&& instance_total(items@) * 64 > usize::MAX
                    &&& error.says("danmaku batch instance buffer overflow"@)
                }
            },
        },
{
    if items.len() == 0 {
        return Ok(None);
    }
    let atlas = match atlas {
        Some(atlas) => atlas,
        None => {
            return Ok(None);
        },
    };
    match atlas.check("danmaku glyph atlas has fill=") {
        Ok(()) => {},
        Err(error) => {
            return Err(error);
        },
    }
    let count: usize = match danmaku_instance_count(items) {
        Ok(count) => count,
        Err(error) => {
            return Err(error);
        },
    };
    let bytes: usize = match instance_bytes_len(count) {
        Ok(bytes) => bytes,
        Err(error) => {
            return Err(error);
        },
    };
    proof {
        law_every_counted_instance_is_drawn(items@);
    }
    Ok(Some(DanmakuBatch { instances: ordered_danmaku_instances(items), bytes }))
}

} // verus!
