//! What the overlay shaders are told of each bitmap.
use crate::color::{transfer_code, transfer_number, TransferFunction};
use crate::float::{F32, HUNDRED_BITS, ONE_BITS};
use crate::overlay::{OverlayAlphaAtlasPlacement, SubtitleAlphaBitmap};
use crate::product::{integer_value, signed_value};
use crate::presentation::PresentationLayout;
use crate::quotient::quotient;
use crate::source::{at_least_one, TargetColorState};
use vstd::prelude::*;

verus! {

/// A colour with its coverage.
#[derive(Debug, Clone, Copy, PartialEq, Eq, Structural)]
pub struct AssColor {
    pub red: u8,
    pub green: u8,
    pub blue: u8,
    pub alpha: u8,
}

impl AssColor {
    /// The colour of a word `0xRRGGBBTT`, whose last byte is transparency.
    pub open spec fn of(word: u32) -> Self {
        AssColor {
            red: (word / 0x100_0000) as u8,
            green: (word / 0x1_0000 % 0x100) as u8,
            blue: (word / 0x100 % 0x100) as u8,
            alpha: (255 - word % 0x100) as u8,
        }
    }

    pub fn from_libass_rgba(word: u32) -> (color: Self)
        ensures
            color == AssColor::of(word),
    {
        AssColor {
            red: (word / 0x100_0000) as u8,
            green: (word / 0x1_0000 % 0x100) as u8,
            blue: (word / 0x100 % 0x100) as u8,
            alpha: (255 - word % 0x100) as u8,
        }
    }
}

/// `value` is the share that `part` has of `whole`, which counts as at least
/// one.
pub open spec fn is_share(part: int, whole: int, value: F32) -> bool {
    value == quotient(
        integer_value(part),
        integer_value(
            if whole < 1 {
                1
            } else {
                whole
            },
        ),
    )
}

fn share(part: u64, whole: u64) -> (value: F32)
    ensures
        is_share(part as int, whole as int, value),
{
    let whole: u64 = if whole < 1 {
        1
    } else {
        whole
    };
    F32::from_u64(part).over(F32::from_u64(whole))
}

/// The colour as shares of 255.
pub open spec fn is_color(word: u32, row: Seq<F32>) -> bool {
    &&& row.len() == 4
    &&& is_share(AssColor::of(word).red as int, 255, row[0])
    &&& is_share(AssColor::of(word).green as int, 255, row[1])
    &&& is_share(AssColor::of(word).blue as int, 255, row[2])
    &&& is_share(AssColor::of(word).alpha as int, 255, row[3])
}

fn color_row(word: u32) -> (row: [F32; 4])
    ensures
        is_color(word, row@),
{
    let color = AssColor::from_libass_rgba(word);
    [
        share(color.red as u64, 255),
        share(color.green as u64, 255),
        share(color.blue as u64, 255),
        share(color.alpha as u64, 255),
    ]
}

/// The white that user interface colours are encoded against.
pub open spec fn ui_white(target: TargetColorState) -> F32 {
    if target.transfer == TransferFunction::Pq {
        at_least_one(target.reference_white_nits)
    } else {
        F32 { bits: HUNDRED_BITS }
    }
}

/// The white of a drawable that holds linear light; zero where it does not.
/// Targets of the perceptual quantizer encode the interface in the shader, and
/// those of the standard range compose in the output's own encoding.
pub open spec fn ui_linear_white(target: TargetColorState, edr_output: bool) -> F32 {
    if !edr_output || target.transfer == TransferFunction::Pq {
        F32 { bits: 0 }
    } else {
        at_least_one(target.reference_white_nits)
    }
}

pub fn ui_reference_white_nits(target: &TargetColorState) -> (nits: F32)
    ensures
        nits == ui_white(*target),
{
    if matches!(target.transfer, TransferFunction::Pq) {
        target.reference_white_nits.at_least(F32 { bits: ONE_BITS })
    } else {
        F32 { bits: HUNDRED_BITS }
    }
}

pub fn ui_linear_reference_white_nits(target: &TargetColorState, edr_output: bool) -> (nits: F32)
    ensures
        nits == ui_linear_white(*target, edr_output),
{
    if !edr_output || matches!(target.transfer, TransferFunction::Pq) {
        F32 { bits: 0 }
    } else {
        target.reference_white_nits.at_least(F32 { bits: ONE_BITS })
    }
}

/// Both whites, in one register.
pub fn ui_output_nits(target: &TargetColorState, edr_output: bool) -> (nits: [F32; 4])
    ensures
        nits@ == seq![
            ui_white(*target),
            ui_linear_white(*target, edr_output),
            F32 { bits: 0 },
            F32 { bits: 0 },
        ],
{
    let nits: [F32; 4] = [
        ui_reference_white_nits(target),
        ui_linear_reference_white_nits(target, edr_output),
        F32 { bits: 0 },
        F32 { bits: 0 },
    ];
    proof {
        assert(nits@ =~= seq![
            ui_white(*target),
            ui_linear_white(*target, edr_output),
            F32 { bits: 0 },
            F32 { bits: 0 },
        ]);
    }
    nits
}

/// The uniforms of one overlay quad on Metal.
#[derive(Debug, Clone, Copy, PartialEq, Eq)]
pub struct OverlayUniforms {
    pub rect: [F32; 4],
    pub tex_rect: [F32; 4],
    pub viewport: [F32; 2],
    /// Zero for colours, one for a mask.
    pub overlay_mode: u32,
    pub target_transfer: u32,
    pub color: [F32; 4],
    pub ui_nits: [F32; 4],
}

impl OverlayUniforms {
    /// The parts that depend on the target alone.
    pub open spec fn suits(self, target: TargetColorState, edr_output: bool) -> bool {
        &&& self.target_transfer == transfer_number(target.transfer)
        &&& self.ui_nits@ == seq![
            ui_white(target),
            ui_linear_white(target, edr_output),
            F32 { bits: 0 },
            F32 { bits: 0 },
        ]
    }

    /// The quad lies where the layout puts this rectangle of the picture.
    pub open spec fn lies(
        self,
        layout: PresentationLayout,
        x: i32,
        y: i32,
        width: u32,
        height: u32,
    ) -> bool {
        &&& self.rect@ == layout.mapped(
            signed_value(x as int),
            signed_value(y as int),
            integer_value(width as int),
            integer_value(height as int),
        )
        &&& self.viewport@ == seq![layout.drawable_width, layout.drawable_height]
    }

    /// A plane of colours, drawn whole.
    pub fn from_plane(
        x: i32,
        y: i32,
        width: u32,
        height: u32,
        layout: PresentationLayout,
        target: &TargetColorState,
        edr_output: bool,
    ) -> (uniforms: Self)
        ensures
            uniforms.suits(*target, edr_output),
            uniforms.lies(layout, x, y, width, height),
            uniforms.overlay_mode == 0,
            uniforms.tex_rect@ == seq![
                F32 { bits: 0 },
                F32 { bits: 0 },
                F32 { bits: ONE_BITS },
                F32 { bits: ONE_BITS },
            ],
            forall|k: int| 0 <= k < 4 ==> #[trigger] uniforms.color@[k] == (F32 { bits: ONE_BITS }),
    {
        let zero = F32 { bits: 0 };
        let one = F32 { bits: ONE_BITS };
        let uniforms = OverlayUniforms {
            rect: layout.map_source_rect(
                F32::from_i32(x),
                F32::from_i32(y),
                F32::from_u32(width),
                F32::from_u32(height),
            ),
            tex_rect: [zero, zero, one, one],
            viewport: layout.overlay_viewport(),
            overlay_mode: 0,
            target_transfer: transfer_code(target.transfer),
            color: [one, one, one, one],
            ui_nits: ui_output_nits(target, edr_output),
        };
        proof {
            assert(uniforms.tex_rect@ =~= seq![zero, zero, one, one]);
        }
        uniforms
    }

    /// One mask of an atlas.
    pub fn from_alpha_atlas_bitmap(
        bitmap: &SubtitleAlphaBitmap,
        placement: &OverlayAlphaAtlasPlacement,
        atlas_width: usize,
        atlas_height: usize,
        layout: PresentationLayout,
        target: &TargetColorState,
        edr_output: bool,
    ) -> (uniforms: Self)
        ensures
            uniforms.suits(*target, edr_output),
            uniforms.lies(
                layout,
                bitmap.placement.x,
                bitmap.placement.y,
                bitmap.placement.width,
                bitmap.placement.height,
            ),
            uniforms.overlay_mode == 1,
            is_share(placement.x as int, atlas_width as int, uniforms.tex_rect@[0]),
            is_share(placement.y as int, atlas_height as int, uniforms.tex_rect@[1]),
            is_share(bitmap.w(), atlas_width as int, uniforms.tex_rect@[2]),
            is_share(bitmap.h(), atlas_height as int, uniforms.tex_rect@[3]),
            is_color(bitmap.color_rgba, uniforms.color@),
    {
        OverlayUniforms {
            rect: layout.map_source_rect(
                F32::from_i32(bitmap.placement.x),
                F32::from_i32(bitmap.placement.y),
                F32::from_u32(bitmap.placement.width),
                F32::from_u32(bitmap.placement.height),
            ),
            tex_rect: [
                share(placement.x as u64, atlas_width as u64),
                share(placement.y as u64, atlas_height as u64),
                share(bitmap.placement.width as u64, atlas_width as u64),
                share(bitmap.placement.height as u64, atlas_height as u64),
            ],
            viewport: layout.overlay_viewport(),
            overlay_mode: 1,
            target_transfer: transfer_code(target.transfer),
            color: color_row(bitmap.color_rgba),
            ui_nits: ui_output_nits(target, edr_output),
        }
    }
}

/// The uniforms of all comments of a frame on Metal.
#[derive(Debug, Clone, Copy, PartialEq, Eq)]
pub struct DanmakuBatchUniforms {
    pub viewport: [F32; 2],
    pub target_transfer: u32,
    pub reserved0: u32,
    pub ui_nits: [F32; 4],
}

impl DanmakuBatchUniforms {
    pub fn new(layout: PresentationLayout, target: &TargetColorState, edr_output: bool) -> (
    uniforms: Self)
        ensures
            uniforms.viewport@ == seq![layout.drawable_width, layout.drawable_height],
            uniforms.target_transfer == transfer_number(target.transfer),
            uniforms.reserved0 == 0,
            uniforms.ui_nits@ == seq![
                ui_white(*target),
                ui_linear_white(*target, edr_output),
                F32 { bits: 0 },
                F32 { bits: 0 },
            ],
    {
        DanmakuBatchUniforms {
            viewport: layout.overlay_viewport(),
            target_transfer: transfer_code(target.transfer),
            reserved0: 0,
            ui_nits: ui_output_nits(target, edr_output),
        }
    }
}

/// The uniforms of one overlay quad on Direct3D.
#[derive(Debug, Clone, Copy, PartialEq, Eq)]
pub struct D3d11OverlayUniforms {
    pub rect: [F32; 4],
    pub tex_rect: [F32; 4],
    pub viewport: [F32; 2],
    /// Zero for colours, one for a mask.
    pub overlay_mode: u32,
    pub reserved0: u32,
    pub color: [F32; 4],
}

/// A viewport of at least one pixel.
pub open spec fn viewport_row(width: u32, height: u32) -> Seq<F32> {
    seq![
        integer_value(
            if width < 1 {
                1
            } else {
                width as int
            },
        ),
        integer_value(
            if height < 1 {
                1
            } else {
                height as int
            },
        ),
    ]
}

/// A rectangle in whole pixels.
pub open spec fn rect_row(x: i32, y: i32, width: u32, height: u32) -> Seq<F32> {
    seq![
        signed_value(x as int),
        signed_value(y as int),
        integer_value(width as int),
        integer_value(height as int),
    ]
}

fn viewport_of(width: u32, height: u32) -> (viewport: [F32; 2])
    ensures
        viewport@ == viewport_row(width, height),
{
    let w: u32 = if width < 1 {
        1
    } else {
        width
    };
    let h: u32 = if height < 1 {
        1
    } else {
        height
    };
    let viewport: [F32; 2] = [F32::from_u32(w), F32::from_u32(h)];
    proof {
        assert(viewport@ =~= viewport_row(width, height));
    }
    viewport
}

fn rect_of(x: i32, y: i32, width: u32, height: u32) -> (rect: [F32; 4])
    ensures
        rect@ == rect_row(x, y, width, height),
{
    let rect: [F32; 4] = [
        F32::from_i32(x),
        F32::from_i32(y),
        F32::from_u32(width),
        F32::from_u32(height),
    ];
    proof {
        assert(rect@ =~= rect_row(x, y, width, height));
    }
    rect
}

impl D3d11OverlayUniforms {
    /// A plane of colours, drawn whole.
    pub fn rgba_plane(
        x: i32,
        y: i32,
        width: u32,
        height: u32,
        viewport_w: u32,
        viewport_h: u32,
    ) -> (uniforms: Self)
        ensures
            uniforms.rect@ == rect_row(x, y, width, height),
            uniforms.tex_rect@ == seq![
                F32 { bits: 0 },
                F32 { bits: 0 },
                F32 { bits: ONE_BITS },
                F32 { bits: ONE_BITS },
            ],
            uniforms.viewport@ == viewport_row(viewport_w, viewport_h),
            uniforms.overlay_mode == 0,
            uniforms.reserved0 == 0,
            forall|k: int| 0 <= k < 4 ==> #[trigger] uniforms.color@[k] == (F32 { bits: ONE_BITS }),
    {
        let zero = F32 { bits: 0 };
        let one = F32 { bits: ONE_BITS };
        let uniforms = D3d11OverlayUniforms {
            rect: rect_of(x, y, width, height),
            tex_rect: [zero, zero, one, one],
            viewport: viewport_of(viewport_w, viewport_h),
            overlay_mode: 0,
            reserved0: 0,
            color: [one, one, one, one],
        };
        proof {
            assert(uniforms.tex_rect@ =~= seq![zero, zero, one, one]);
        }
        uniforms
    }

    /// One mask of a single-row atlas.
    pub fn alpha_atlas(
        bitmap: &SubtitleAlphaBitmap,
        atlas_x: u32,
        atlas_w: u32,
        atlas_h: u32,
        viewport_w: u32,
        viewport_h: u32,
    ) -> (uniforms: Self)
        ensures
            uniforms.rect@ == rect_row(
                bitmap.placement.x,
                bitmap.placement.y,
                bitmap.placement.width,
                bitmap.placement.height,
            ),
            is_share(atlas_x as int, atlas_w as int, uniforms.tex_rect@[0]),
            uniforms.tex_rect@[1] == (F32 { bits: 0 }),
            is_share(bitmap.w(), atlas_w as int, uniforms.tex_rect@[2]),
            is_share(bitmap.h(), atlas_h as int, uniforms.tex_rect@[3]),
            uniforms.viewport@ == viewport_row(viewport_w, viewport_h),
            uniforms.overlay_mode == 1,
            uniforms.reserved0 == 0,
            is_color(bitmap.color_rgba, uniforms.color@),
    {
        D3d11OverlayUniforms {
            rect: rect_of(
                bitmap.placement.x,
                bitmap.placement.y,
                bitmap.placement.width,
                bitmap.placement.height,
            ),
            tex_rect: [
                share(atlas_x as u64, atlas_w as u64),
                F32 { bits: 0 },
                share(bitmap.placement.width as u64, atlas_w as u64),
                share(bitmap.placement.height as u64, atlas_h as u64),
            ],
            viewport: viewport_of(viewport_w, viewport_h),
            overlay_mode: 1,
            reserved0: 0,
            color: color_row(bitmap.color_rgba),
        }
    }

    /// One glyph of an atlas.
    pub fn alpha_atlas_rect(
        color: [F32; 4],
        rect: [F32; 4],
        tex_rect: [F32; 4],
        viewport_w: u32,
        viewport_h: u32,
    ) -> (uniforms: Self)
        ensures
            uniforms.rect == rect,
            uniforms.tex_rect == tex_rect,
            uniforms.viewport@ == viewport_row(viewport_w, viewport_h),
            uniforms.overlay_mode == 1,
            uniforms.reserved0 == 0,
            uniforms.color == color,
    {
        D3d11OverlayUniforms {
            rect,
            tex_rect,
            viewport: viewport_of(viewport_w, viewport_h),
            overlay_mode: 1,
            reserved0: 0,
            color,
        }
    }
}

} // verus!
