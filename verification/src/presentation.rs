//! Where the video lies on the surface, and where its overlays lie with it.
use crate::float::F32;
use crate::product::product;
use crate::quotient::quotient;
use crate::sum::sum;
use vstd::prelude::*;

verus! {

#[derive(Debug, Clone, Copy, PartialEq, Eq, Structural)]
pub struct PresentationRect {
    pub x: F32,
    pub y: F32,
    pub width: F32,
    pub height: F32,
}

/// The video fitted into a surface.
#[derive(Debug, Clone, Copy, PartialEq, Eq)]
pub struct PresentationLayout {
    pub source_width: F32,
    pub source_height: F32,
    pub drawable_width: F32,
    pub drawable_height: F32,
    /// Left, top, width and height of the video on the surface.
    pub target_rect: [F32; 4],
}

impl PresentationLayout {
    pub fn presentation_rect(self) -> (rect: PresentationRect)
        ensures
            rect == (PresentationRect {
                x: self.target_rect@[0],
                y: self.target_rect@[1],
                width: self.target_rect@[2],
                height: self.target_rect@[3],
            }),
    {
        PresentationRect {
            x: self.target_rect[0],
            y: self.target_rect[1],
            width: self.target_rect[2],
            height: self.target_rect[3],
        }
    }

    /// The surface, as the video shaders are told.
    pub open spec fn viewport(self) -> Seq<F32> {
        seq![self.drawable_width, self.drawable_height, F32 { bits: 0 }, F32 { bits: 0 }]
    }

    pub fn video_viewport(self) -> (viewport: [F32; 4])
        ensures
            viewport@ == self.viewport(),
    {
        let viewport: [F32; 4] = [
            self.drawable_width,
            self.drawable_height,
            F32 { bits: 0 },
            F32 { bits: 0 },
        ];
        proof {
            assert(viewport@ =~= self.viewport());
        }
        viewport
    }

    pub fn overlay_viewport(self) -> (viewport: [F32; 2])
        ensures
            viewport@ == seq![self.drawable_width, self.drawable_height],
    {
        let viewport: [F32; 2] = [self.drawable_width, self.drawable_height];
        proof {
            assert(viewport@ =~= seq![self.drawable_width, self.drawable_height]);
        }
        viewport
    }

    /// Whether the picture is shown larger than it is.
    pub fn is_source_upscaled(self) -> (upscaled: bool)
        ensures
            upscaled == (self.source_width.below(self.target_rect@[2])
                || self.source_height.below(self.target_rect@[3])),
    {
        self.source_width.less_than(self.target_rect[2]) || self.source_height.less_than(
            self.target_rect[3],
        )
    }

    /// Where a rectangle of the picture lies on the surface: it is moved and
    /// scaled with the picture.
    pub open spec fn mapped(self, x: F32, y: F32, width: F32, height: F32) -> Seq<F32> {
        let scale_x = quotient(self.target_rect@[2], self.source_width);
        let scale_y = quotient(self.target_rect@[3], self.source_height);
        seq![
            sum(self.target_rect@[0], product(x, scale_x)),
            sum(self.target_rect@[1], product(y, scale_y)),
            product(width, scale_x),
            product(height, scale_y),
        ]
    }

    pub fn map_source_rect(self, x: F32, y: F32, width: F32, height: F32) -> (rect: [F32; 4])
        ensures
            rect@ == self.mapped(x, y, width, height),
    {
        let scale_x = self.target_rect[2].over(self.source_width);
        let scale_y = self.target_rect[3].over(self.source_height);
        let rect: [F32; 4] = [
            self.target_rect[0].plus(x.times(scale_x)),
            self.target_rect[1].plus(y.times(scale_y)),
            width.times(scale_x),
            height.times(scale_y),
        ];
        proof {
            assert(rect@ =~= self.mapped(x, y, width, height));
        }
        rect
    }
}

} // verus!
