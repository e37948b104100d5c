//! The tiled schedule of the compute luma doubler.
//!
//! The network runs on one bounded tile of the image after another. Each of its
//! seven convolutions needs one more pixel round the tile than the next one, so
//! the halo that a pass computes shrinks to nothing by the last.
use crate::artcnn::{
    first_weights, last_weights, law_sections_tile_the_payload, middle_weights, payload_len,
    LayerOffsets, MIDDLE_LAYER_COUNT,
};
use crate::float::F32;
use vstd::prelude::*;

verus! {

pub const TILE_WIDTH: u32 = 512;

pub const TILE_HEIGHT: u32 = 256;

/// Pixels round a tile that the whole network depends on.
pub const NETWORK_RADIUS: u32 = 7;

/// Pixels round a tile for which features are computed.
pub const FEATURE_HALO: u32 = NETWORK_RADIUS - 1;

pub const WORKGROUP_X: u32 = 8;

pub const WORKGROUP_Y: u32 = 8;

/// What one pass is told: the constant buffer of the compute shaders.
#[derive(Debug, Clone, Copy)]
pub struct TileParams {
    /// Image width and height, core width and height.
    pub image_core: [u32; 4],
    /// Core origin, then the origin of the feature textures.
    pub origins: [i32; 4],
    /// Inset, dispatch width and height, feature slices.
    pub dispatch: [u32; 4],
    /// Weight and bias offset, then the two switches.
    pub layer: [u32; 4],
    pub luma_coefficients: [F32; 4],
}

#[derive(Debug, Clone, Copy, PartialEq, Eq, Structural)]
pub enum DispatchKind {
    Conv0,
    Mid(usize),
    Conv6,
}

#[derive(Debug, Clone, Copy)]
pub struct DispatchRecord {
    pub kind: DispatchKind,
    pub params: TileParams,
}

pub open spec fn ceil_div(a: int, b: int) -> int {
    (a + b - 1) / b
}

/// Tiles in a row.
pub open spec fn tiles_across(width: int) -> int {
    ceil_div(width, 512)
}

/// Rows of tiles.
pub open spec fn tiles_down(height: int) -> int {
    ceil_div(height, 256)
}

/// The size of a tile that starts at `start`.
pub open spec fn core_len(image: int, start: int, tile: int) -> int {
    if image - start < tile {
        image - start
    } else {
        tile
    }
}

pub open spec fn flag(set: bool) -> u32 {
    if set {
        1
    } else {
        0
    }
}

/// Which convolution a pass runs.
pub open spec fn pass_kind(pass: int) -> DispatchKind {
    if pass == 0 {
        DispatchKind::Conv0
    } else if pass == 6 {
        DispatchKind::Conv6
    } else {
        DispatchKind::Mid((pass - 1) as usize)
    }
}

/// Weight offset, bias offset, rectification and residual of a pass: every
/// middle pass but the last rectifies, and the last one adds the residual.
pub open spec fn pass_layer(offsets: LayerOffsets, pass: int) -> Seq<u32> {
    if pass == 0 {
        seq![offsets.conv0_w, offsets.conv0_b, 0, 0]
    } else if pass == 6 {
        seq![offsets.conv6_w, offsets.conv6_b, 0, 0]
    } else {
        seq![
            offsets.mid_w@[pass - 1],
            offsets.mid_b@[pass - 1],
            flag(pass != 5),
            flag(pass == 5),
        ]
    }
}

impl DispatchRecord {
    /// The record runs pass `pass` of the tile in column `tx` and row `ty`.
    pub open spec fn runs(
        self,
        width: int,
        height: int,
        offsets: LayerOffsets,
        slices: u32,
        tx: int,
        ty: int,
        pass: int,
    ) -> bool {
        let core_w = core_len(width, tx * 512, 512);
        let core_h = core_len(height, ty * 256, 256);
        &&& self.kind == pass_kind(pass)
        &&& self.params.image_core@ == seq![
            width as u32,
            height as u32,
            core_w as u32,
            core_h as u32,
        ]
        &&& self.params.origins@ == seq![
            (tx * 512) as i32,
            (ty * 256) as i32,
            (tx * 512 - 6) as i32,
            (ty * 256 - 6) as i32,
        ]
        &&& self.params.dispatch@ == seq![
            pass as u32,
            (core_w + 2 * (6 - pass)) as u32,
            (core_h + 2 * (6 - pass)) as u32,
            slices,
        ]
        &&& self.params.layer@ == pass_layer(offsets, pass)
        &&& self.params.luma_coefficients@ == seq![
            F32 { bits: 0 },
            F32 { bits: 0 },
            F32 { bits: 0 },
            F32 { bits: 0 },
        ]
    }

    /// Thread groups that cover the dispatch, across and down.
    pub fn workgroups(&self) -> (groups: (u32, u32))
        ensures
            groups.0 == ceil_div(self.params.dispatch@[1] as int, 8),
            groups.1 == ceil_div(self.params.dispatch@[2] as int, 8),
    {
        (
            div_up(self.params.dispatch[1], WORKGROUP_X),
            div_up(self.params.dispatch[2], WORKGROUP_Y),
        )
    }
}

fn div_up(a: u32, b: u32) -> (q: u32)
    requires
        b == 512 || b == 256 || b == 8,
    ensures
        q == ceil_div(a as int, b as int),
{
    if a % b == 0 {
        a / b
    } else {
        a / b + 1
    }
}

/// Where a pass stands in the schedule.
pub open spec fn place(across: int, tx: int, ty: int, pass: int) -> int {
    (ty * across + tx) * 7 + pass
}

/// The records so far are those of the tiles before `(tx, ty)` in row order.
spec fn scheduled(
    records: Seq<DispatchRecord>,
    width: int,
    height: int,
    offsets: LayerOffsets,
    slices: u32,
    tx: int,
    ty: int,
) -> bool {
    let across = tiles_across(width);
    forall|x: int, y: int, pass: int|
        0 <= x < across && 0 <= y && (y < ty || (y == ty && x < tx)) && 0 <= pass < 7
            ==> (#[trigger] records[place(across, x, y, pass)]).runs(
            width,
            height,
            offsets,
            slices,
            x,
            y,
            pass,
        )
}

fn pass_record(
    width: u32,
    height: u32,
    core_x: u32,
    core_y: u32,
    inset: u32,
    slices: u32,
    layer: [u32; 4],
    kind: DispatchKind,
) -> (record: DispatchRecord)
    requires
        core_x < width,
        core_y < height,
        core_x <= 0x7fff_fe00,
        core_y <= 0x7fff_ff00,
        inset <= 6,
    ensures
        record.kind == kind,
        record.params.image_core@ == seq![
            width,
            height,
            core_len(width as int, core_x as int, 512) as u32,
            core_len(height as int, core_y as int, 256) as u32,
        ],
        record.params.origins@ == seq![
            core_x as i32,
            core_y as i32,
            (core_x - 6) as i32,
            (core_y - 6) as i32,
        ],
        record.params.dispatch@ == seq![
            inset,
            (core_len(width as int, core_x as int, 512) + 2 * (6 - inset)) as u32,
            (core_len(height as int, core_y as int, 256) + 2 * (6 - inset)) as u32,
            slices,
        ],
        record.params.layer@ == layer@,
        record.params.luma_coefficients@ == seq![
            F32 { bits: 0 },
            F32 { bits: 0 },
            F32 { bits: 0 },
            F32 { bits: 0 },
        ],
{
    let core_width: u32 = if width - core_x < TILE_WIDTH {
        width - core_x
    } else {
        TILE_WIDTH
    };
    let core_height: u32 = if height - core_y < TILE_HEIGHT {
        height - core_y
    } else {
        TILE_HEIGHT
    };
    let halo: u32 = (FEATURE_HALO - inset) * 2;
    DispatchRecord {
        kind,
        params: TileParams {
            image_core: [width, height, core_width, core_height],
            origins: [
                core_x as i32,
                core_y as i32,
                core_x as i32 - FEATURE_HALO as i32,
                core_y as i32 - FEATURE_HALO as i32,
            ],
            dispatch: [inset, core_width + halo, core_height + halo, slices],
            layer,
            luma_coefficients: [
                F32 { bits: 0 },
                F32 { bits: 0 },
                F32 { bits: 0 },
                F32 { bits: 0 },
            ],
        },
    }
}

fn push_tile(
    records: &mut Vec<DispatchRecord>,
    width: u32,
    height: u32,
    offsets: &LayerOffsets,
    slices: u32,
    tx: u32,
    ty: u32,
)
    requires
        width <= 0x8000_0000,
        height <= 0x8000_0000,
        tx < tiles_across(width as int),
        ty < tiles_down(height as int),
    ensures
        final(records)@.len() == old(records)@.len() + 7,
        final(records)@.take(old(records)@.len() as int) == old(records)@,
        forall|pass: int|
            0 <= pass < 7 ==> (#[trigger] final(records)@[old(records)@.len() + pass]).runs(
                width as int,
                height as int,
                *offsets,
                slices,
                tx as int,
                ty as int,
                pass,
            ),
{
    let ghost before = records@;
    let ghost n = records@.len() as int;
    let core_x: u32 = tx * TILE_WIDTH;
    let core_y: u32 = ty * TILE_HEIGHT;
    records.push(
        pass_record(
            width,
            height,
            core_x,
            core_y,
            0,
            slices,
            [offsets.conv0_w, offsets.conv0_b, 0, 0],
            DispatchKind::Conv0,
        ),
    );
    let mut layer: usize = 0;
    while layer < MIDDLE_LAYER_COUNT
        invariant
            layer <= MIDDLE_LAYER_COUNT,
            width <= 0x8000_0000,
            height <= 0x8000_0000,
            tx < tiles_across(width as int),
            ty < tiles_down(height as int),
            core_x == tx * 512,
            core_y == ty * 256,
            n == before.len(),
            records@.len() == n + 1 + layer,
            records@.take(n) == before,
            forall|pass: int|
                0 <= pass < 1 + layer ==> (#[trigger] records@[n + pass]).runs(
                    width as int,
                    height as int,
                    *offsets,
                    slices,
                    tx as int,
                    ty as int,
                    pass,
                ),
        decreases MIDDLE_LAYER_COUNT - layer,
    {
        let last: bool = layer == MIDDLE_LAYER_COUNT - 1;
        let relu: u32 = if last {
            0
        } else {
            1
        };
        let residual: u32 = if last {
            1
        } else {
            0
        };
        let ghost so_far = records@;
        records.push(
            pass_record(
                width,
                height,
                core_x,
                core_y,
                layer as u32 + 1,
                slices,
                [offsets.mid_w[layer], offsets.mid_b[layer], relu, residual],
                DispatchKind::Mid(layer),
            ),
        );
        proof {
            assert(records@.take(n) =~= before);
            let pushed = records@[n + 1 + layer];
            assert(pushed.params.layer@ =~= pass_layer(*offsets, layer + 1));
            assert forall|pass: int| 0 <= pass < 2 + layer implies (#[trigger] records@[n
                + pass]).runs(
                width as int,
                height as int,
                *offsets,
                slices,
                tx as int,
                ty as int,
                pass,
            ) by {
                if pass < 1 + layer {
                    assert(records@[n + pass] == so_far[n + pass]);
                }
            }
        }
        layer = layer + 1;
    }
    let ghost so_far = records@;
    records.push(
        pass_record(
            width,
            height,
            core_x,
            core_y,
            FEATURE_HALO,
            slices,
            [offsets.conv6_w, offsets.conv6_b, 0, 0],
            DispatchKind::Conv6,
        ),
    );
    proof {
        assert(records@.take(n) =~= before);
        assert(records@[n + 6].params.layer@ =~= pass_layer(*offsets, 6));
        assert forall|pass: int| 0 <= pass < 7 implies (#[trigger] records@[n + pass]).runs(
            width as int,
            height as int,
            *offsets,
            slices,
            tx as int,
            ty as int,
            pass,
        ) by {
            if pass < 6 {
                assert(records@[n + pass] == so_far[n + pass]);
            }
        }
    }
}

/// The passes over all tiles, tile by tile in row order.
pub fn build_dispatch_records(
    width: u32,
    height: u32,
    offsets: &LayerOffsets,
    slices: u32,
) -> (records: Vec<DispatchRecord>)
    requires
        width <= 0x8000_0000,
        height <= 0x8000_0000,
    ensures
        records@.len() == tiles_across(width as int) * tiles_down(height as int) * 7,
        forall|tx: int, ty: int, pass: int|
            0 <= tx < tiles_across(width as int) && 0 <= ty < tiles_down(height as int) && 0 <= pass
                < 7 ==> (#[trigger] records@[place(tiles_across(width as int), tx, ty, pass)]).runs(
                width as int,
                height as int,
                *offsets,
                slices,
                tx,
                ty,
                pass,
            ),
        forall|k: int|
            #![trigger records@[k]]
            0 <= k < records@.len() ==> {
                let layer = records@[k].params.layer@;
                &&& layer[3] == 1 <==> k % 7 == 5
                &&& layer[3] == 0 <==> k % 7 != 5
                &&& layer[2] == 1 <==> 1 <= k % 7 <= 4
                &&& layer[2] == 0 <==> !(1 <= k % 7 <= 4)
                &&& k % 7 == 0 ==> layer[0] == offsets.conv0_w && layer[1] == offsets.conv0_b
                &&& 1 <= k % 7 <= 5 ==> layer[0] == offsets.mid_w@[k % 7 - 1] && layer[1]
                    == offsets.mid_b@[k % 7 - 1]
                &&& k % 7 == 6 ==> layer[0] == offsets.conv6_w && layer[1] == offsets.conv6_b
            },
{
    let across: u32 = div_up(width, TILE_WIDTH);
    let down: u32 = div_up(height, TILE_HEIGHT);
    let mut records: Vec<DispatchRecord> = Vec::new();
    let mut ty: u32 = 0;
    while ty < down
        invariant
            ty <= down,
            width <= 0x8000_0000,
            height <= 0x8000_0000,
            across == tiles_across(width as int),
            down == tiles_down(height as int),
            records@.len() == place(across as int, 0, ty as int, 0),
            scheduled(
                records@,
                width as int,
                height as int,
                *offsets,
                slices,
                0,
                ty as int,
            ),
        decreases down - ty,
    {
        let mut tx: u32 = 0;
        while tx < across
            invariant
                tx <= across,
                ty < down,
                width <= 0x8000_0000,
                height <= 0x8000_0000,
                across == tiles_across(width as int),
                down == tiles_down(height as int),
                records@.len() == place(across as int, tx as int, ty as int, 0),
                scheduled(
                    records@,
                    width as int,
                    height as int,
                    *offsets,
                    slices,
                    tx as int,
                    ty as int,
                ),
            decreases across - tx,
        {
            let ghost before = records@;
            let ghost n = records@.len() as int;
            push_tile(&mut records, width, height, offsets, slices, tx, ty);
            proof {
                let wide = across as int;
                assert forall|x: int, y: int, pass: int|
                    0 <= x < wide && 0 <= y && (y < ty || (y == ty && x < tx + 1)) && 0 <= pass
                        < 7 implies (#[trigger] records@[place(wide, x, y, pass)]).runs(
                    width as int,
                    height as int,
                    *offsets,
                    slices,
                    x,
                    y,
                    pass,
                ) by {
                    let at = place(wide, x, y, pass);
                    if y < ty || x < tx {
                        lemma_place_order(wide, x, y, tx as int, ty as int);
                        assert(0 <= at < n);
                        assert(records@.take(n)[at] == before[at]);
                    } else {
                        assert(at == n + pass);
                    }
                }
            }
            tx = tx + 1;
        }
        proof {
            let wide = across as int;
            assert(place(wide, wide, ty as int, 0) == place(wide, 0, ty + 1, 0)) by {
                assert(ty * wide + wide == (ty + 1) * wide) by (nonlinear_arith);
            }
            assert forall|x: int, y: int, pass: int|
                0 <= x < wide && 0 <= y && (y < ty + 1 || (y == ty + 1 && x < 0)) && 0 <= pass
                    < 7 implies (#[trigger] records@[place(wide, x, y, pass)]).runs(
                width as int,
                height as int,
                *offsets,
                slices,
                x,
                y,
                pass,
            ) by {
                assert(y < ty || (y == ty && x < across));
            }
        }
        ty = ty + 1;
    }
    proof {
        assert(place(across as int, 0, down as int, 0) == across * down * 7) by {
            assert(down * across + 0 == across * down) by (nonlinear_arith);
        }
        let wide = across as int;
        let high = down as int;
        assert forall|k: int|
            #![trigger records@[k]]
            0 <= k < records@.len() implies {
            let layer = records@[k].params.layer@;
            &&& layer[3] == 1 <==> k % 7 == 5
            &&& layer[3] == 0 <==> k % 7 != 5
            &&& layer[2] == 1 <==> 1 <= k % 7 <= 4
            &&& layer[2] == 0 <==> !(1 <= k % 7 <= 4)
            &&& k % 7 == 0 ==> layer[0] == offsets.conv0_w && layer[1] == offsets.conv0_b
            &&& 1 <= k % 7 <= 5 ==> layer[0] == offsets.mid_w@[k % 7 - 1] && layer[1]
                == offsets.mid_b@[k % 7 - 1]
            &&& k % 7 == 6 ==> layer[0] == offsets.conv6_w && layer[1] == offsets.conv6_b
        } by {
            let tile = k / 7;
            lemma_tile_of_place(wide, high, tile);
            assert(k == place(wide, tile % wide, tile / wide, k % 7));
            assert(records@[place(wide, tile % wide, tile / wide, k % 7)].runs(
                width as int,
                height as int,
                *offsets,
                slices,
                tile % wide,
                tile / wide,
                k % 7,
            ));
        }
    }
    records
}

/// Every tile number belongs to one column and row.
proof fn lemma_tile_of_place(across: int, down: int, tile: int)
    requires
        0 <= tile < across * down,
        0 <= across,
        0 <= down,
    ensures
        0 <= tile % across < across,
        0 <= tile / across < down,
        (tile / across) * across + tile % across == tile,
{
    assert(across > 0) by (nonlinear_arith)
        requires
            0 <= tile < across * down,
            0 <= across,
    ;
    vstd::arithmetic::div_mod::lemma_fundamental_div_mod(tile, across);
    vstd::arithmetic::div_mod::lemma_mod_bound(tile, across);
    let q = tile / across;
    let r = tile % across;
    assert(0 <= q < down && q * across + r == tile) by (nonlinear_arith)
        requires
            tile == across * q + r,
            0 <= r < across,
            0 <= tile < across * down,
    ;
}

proof fn lemma_place_order(across: int, x: int, y: int, tx: int, ty: int)
    requires
        0 <= x < across,
        0 <= y,
        0 <= tx,
        y < ty || (y == ty && x < tx),
    ensures
        0 <= place(across, x, y, 0),
        place(across, x, y, 7) <= place(across, tx, ty, 0),
{
    if y < ty {
        assert(y * across + x + 1 <= ty * across + tx && 0 <= y * across) by (nonlinear_arith)
            requires
                0 <= y < ty,
                0 <= x < across,
                0 <= tx,
        ;
    } else {
        assert(0 <= y * across) by (nonlinear_arith)
            requires
                0 <= y,
                0 < across,
        ;
    }
}

/// The textures that a middle pass reads from and writes to.
pub open spec fn chain(layer: int) -> (int, int) {
    if layer == 0 {
        (0, 1)
    } else if layer % 2 == 1 {
        (1, 2)
    } else {
        (2, 1)
    }
}

/// The feature textures that a middle pass reads from and writes to.
pub fn middle_textures(layer: usize) -> (textures: (usize, usize))
    requires
        layer < MIDDLE_LAYER_COUNT,
    ensures
        textures.0 == chain(layer as int).0,
        textures.1 == chain(layer as int).1,
{
    if layer == 0 {
        (0, 1)
    } else if layer % 2 == 1 {
        (1, 2)
    } else {
        (2, 1)
    }
}

/// Every middle pass reads what the pass before wrote, writes somewhere else,
/// and leaves the first texture, which holds the residual, alone. The last one
/// writes the texture that the final convolution reads.
pub proof fn law_chain_keeps_the_residual(layer: int)
    requires
        0 <= layer < MIDDLE_LAYER_COUNT,
    ensures
        chain(layer).0 != chain(layer).1,
        chain(layer).1 != 0,
        chain(0).0 == 0,
        layer > 0 ==> chain(layer).0 == chain(layer - 1).1,
        chain(MIDDLE_LAYER_COUNT - 1).1 == 1,
{
}

/// Column and row of the tile whose core holds a pixel.
pub open spec fn tile_of(x: int, y: int) -> (int, int) {
    (x / 512, y / 256)
}

/// The core of a tile holds a pixel.
pub open spec fn core_holds(width: int, height: int, tx: int, ty: int, x: int, y: int) -> bool {
    &&& tx * 512 <= x < tx * 512 + core_len(width, tx * 512, 512)
    &&& ty * 256 <= y < ty * 256 + core_len(height, ty * 256, 256)
}

/// Every pixel of the image lies in the core of exactly one scheduled tile.
pub proof fn law_tiles_partition_the_image(
    width: int,
    height: int,
    x: int,
    y: int,
    tx: int,
    ty: int,
)
    requires
        0 <= x < width,
        0 <= y < height,
    ensures
        0 <= tile_of(x, y).0 < tiles_across(width),
        0 <= tile_of(x, y).1 < tiles_down(height),
        core_holds(width, height, tx, ty, x, y) <==> (tx, ty) == tile_of(x, y),
{
}

/// A pass reads one pixel round what it writes, in the same local coordinates;
/// the pass before has written all of that, and everything fits the textures.
pub proof fn law_each_pass_reads_what_was_written(
    record: DispatchRecord,
    width: int,
    height: int,
    offsets: LayerOffsets,
    slices: u32,
    tx: int,
    ty: int,
    pass: int,
    previous: DispatchRecord,
)
    requires
        0 <= tx < tiles_across(width),
        0 <= ty < tiles_down(height),
        1 <= pass < 7,
        record.runs(width, height, offsets, slices, tx, ty, pass),
        previous.runs(width, height, offsets, slices, tx, ty, pass - 1),
    ensures
        record.params.dispatch@[0] - 1 == previous.params.dispatch@[0],
        record.params.dispatch@[1] + 2 == previous.params.dispatch@[1],
        record.params.dispatch@[2] + 2 == previous.params.dispatch@[2],
        previous.params.dispatch@[0] + previous.params.dispatch@[1] <= TILE_WIDTH + 2
            * FEATURE_HALO,
        previous.params.dispatch@[0] + previous.params.dispatch@[2] <= TILE_HEIGHT + 2
            * FEATURE_HALO,
        pass == 6 ==> record.params.dispatch@[1] == core_len(width, tx * 512, 512),
        pass == 6 ==> record.params.dispatch@[2] == core_len(height, ty * 256, 256),
{
}

/// A tile runs the network once: exactly one of its seven passes adds the
/// residual. It is the last of the middle ones, and it does not rectify; the four
/// middle passes before it do, and no other.
pub proof fn law_one_pass_of_a_tile_adds_the_residual(
    tile: Seq<DispatchRecord>,
    width: int,
    height: int,
    offsets: LayerOffsets,
    slices: u32,
    tx: int,
    ty: int,
)
    requires
        tile.len() == 7,
        forall|pass: int|
            0 <= pass < 7 ==> (#[trigger] tile[pass]).runs(
                width,
                height,
                offsets,
                slices,
                tx,
                ty,
                pass,
            ),
    ensures
        tile.filter(|record: DispatchRecord| record.params.layer@[3] != 0) == seq![tile[5]],
        tile[5].kind == DispatchKind::Mid((MIDDLE_LAYER_COUNT - 1) as usize),
        tile[5].params.layer@[3] == 1,
        tile.filter(|record: DispatchRecord| record.params.layer@[2] != 0) == seq![
            tile[1],
            tile[2],
            tile[3],
            tile[4],
        ],
        forall|pass: int| 1 <= pass < 5 ==> (#[trigger] tile[pass]).params.layer@[2] == 1,
{
    let residual = |record: DispatchRecord| record.params.layer@[3] != 0;
    let rectified = |record: DispatchRecord| record.params.layer@[2] != 0;
    lemma_filter_of_seven(tile, residual);
    lemma_filter_of_seven(tile, rectified);
    assert(tile.filter(residual) =~= seq![tile[5]]);
    assert(tile.filter(rectified) =~= seq![tile[1], tile[2], tile[3], tile[4]]);
}

/// Those of seven things that are picked, one after the other.
pub proof fn lemma_filter_of_seven<A>(things: Seq<A>, pick: spec_fn(A) -> bool)
    requires
        things.len() == 7,
    ensures
        things.filter(pick) == one_if(pick, things[0]) + one_if(pick, things[1]) + one_if(
            pick,
            things[2],
        ) + one_if(pick, things[3]) + one_if(pick, things[4]) + one_if(pick, things[5]) + one_if(
            pick,
            things[6],
        ),
{
    reveal(Seq::filter);
    reveal_with_fuel(Seq::filter, 8);
    let t6 = things.drop_last();
    let t5 = t6.drop_last();
    let t4 = t5.drop_last();
    let t3 = t4.drop_last();
    let t2 = t3.drop_last();
    let t1 = t2.drop_last();
    assert(t1.drop_last().filter(pick) =~= Seq::empty());
    assert(t1.filter(pick) =~= one_if(pick, things[0]));
    assert(t2.filter(pick) =~= t1.filter(pick) + one_if(pick, things[1]));
    assert(t3.filter(pick) =~= t2.filter(pick) + one_if(pick, things[2]));
    assert(t4.filter(pick) =~= t3.filter(pick) + one_if(pick, things[3]));
    assert(t5.filter(pick) =~= t4.filter(pick) + one_if(pick, things[4]));
    assert(t6.filter(pick) =~= t5.filter(pick) + one_if(pick, things[5]));
    assert(things.filter(pick) =~= t6.filter(pick) + one_if(pick, things[6]));
}

/// The thing, where it is picked.
pub open spec fn one_if<A>(pick: spec_fn(A) -> bool, thing: A) -> Seq<A> {
    if pick(thing) {
        seq![thing]
    } else {
        Seq::empty()
    }
}

/// The passes of a tile go through the payload of its network from the front to
/// the back: the sections of each layer begin where those of the layer before
/// end.
pub proof fn law_the_passes_of_a_tile_read_the_whole_payload(
    record: DispatchRecord,
    next: DispatchRecord,
    width: int,
    height: int,
    offsets: LayerOffsets,
    slices: u32,
    tx: int,
    ty: int,
    pass: int,
)
    requires
        offsets.of(slices as int),
        0 <= pass < 6,
        record.runs(width, height, offsets, slices, tx, ty, pass),
        next.runs(width, height, offsets, slices, tx, ty, pass + 1),
    ensures
        pass == 0 ==> record.params.layer@[0] == 0,
        record.params.layer@[0] + (if pass == 0 {
            first_weights(slices as int)
        } else {
            middle_weights(slices as int)
        }) == record.params.layer@[1],
        record.params.layer@[1] + slices == next.params.layer@[0],
        pass == 5 ==> next.params.layer@[0] + last_weights(slices as int)
            == next.params.layer@[1],
        pass == 5 ==> next.params.layer@[1] + 1 == payload_len(slices as int),
{
    law_sections_tile_the_payload(
        offsets,
        slices as int,
        if pass == 0 {
            0
        } else {
            pass - 1
        },
    );
}

/// What a pass computes lies round the core of its tile, by as many pixels as
/// passes are still to come, in the image as in the feature textures.
pub proof fn law_each_pass_surrounds_the_core(
    record: DispatchRecord,
    width: int,
    height: int,
    offsets: LayerOffsets,
    slices: u32,
    tx: int,
    ty: int,
    pass: int,
)
    requires
        0 < width <= 0x8000_0000,
        0 < height <= 0x8000_0000,
        0 <= tx < tiles_across(width),
        0 <= ty < tiles_down(height),
        0 <= pass < 7,
        record.runs(width, height, offsets, slices, tx, ty, pass),
    ensures
        ({
            let params = record.params;
            let left = params.origins@[2] + params.dispatch@[0];
            let top = params.origins@[3] + params.dispatch@[0];
            let margin = 6 - pass;
            &&& left == params.origins@[0] - margin
            &&& top == params.origins@[1] - margin
            &&& left + params.dispatch@[1] == params.origins@[0] + params.image_core@[2] + margin
            &&& top + params.dispatch@[2] == params.origins@[1] + params.image_core@[3] + margin
            &&& params.image_core@[0] == width
            &&& params.image_core@[1] == height
            &&& params.dispatch@[3] == slices
        }),
{
}

/// Every pixel of the image lies in the part that exactly one tile's last pass
/// writes, and no pass writes outside the image.
pub proof fn law_every_pixel_is_written_once(
    record: DispatchRecord,
    width: int,
    height: int,
    offsets: LayerOffsets,
    slices: u32,
    tx: int,
    ty: int,
    x: int,
    y: int,
)
    requires
        0 <= x < width <= 0x8000_0000,
        0 <= y < height <= 0x8000_0000,
        0 <= tx < tiles_across(width),
        0 <= ty < tiles_down(height),
        record.runs(width, height, offsets, slices, tx, ty, 6),
    ensures
        ({
            let left = record.params.origins@[0];
            let top = record.params.origins@[1];
            let right = left + record.params.dispatch@[1];
            let bottom = top + record.params.dispatch@[2];
            &&& (left <= x < right && top <= y < bottom) <==> tx == x / 512 && ty == y / 256
            &&& 0 <= left < right <= width
            &&& 0 <= top < bottom <= height
        }),
{
}

} // verus!
