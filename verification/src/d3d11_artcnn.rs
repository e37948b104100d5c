//! The life of the Direct3D 11 luma doubler: which model it has, which
//! textures, and what each frame asks of the device.
use crate::artcnn::{
    model_for_mode, mode_slices, parse_outcome, payload_len, ArtCnnModel, EmbeddedModels,
    FrameTokenCache, LayerOffsets,
};
use crate::error::{renderer_error, PlayerError};
use crate::modes::{LumaUpscalerBackendStatus, LumaUpscalerMode};
use crate::tiles::{
    build_dispatch_records, place, tiles_across, tiles_down, DispatchRecord, FEATURE_HALO,
    TILE_HEIGHT, TILE_WIDTH,
};
use vstd::prelude::*;

verus! {

/// `D3D_FEATURE_LEVEL_11_0` of the `windows` crate, as its number.
#[verifier::external_body]
fn feature_level_11_0() -> (level: i32)
    ensures
        level == 0xb000,
{
    windows::Win32::Graphics::Direct3D::D3D_FEATURE_LEVEL_11_0.0
}

/// What the device holds of a model.
#[derive(Debug, Clone, Copy)]
pub struct D3d11Model {
    pub slices: u32,
    pub offsets: LayerOffsets,
}

/// The size of the device's textures, and the frame they hold.
#[derive(Debug, Clone, Copy)]
pub struct D3d11Pool {
    pub width: u32,
    pub height: u32,
    pub frame_cache: FrameTokenCache,
}

/// The state of the luma doubler.
#[derive(Debug, Clone, Copy)]
pub struct D3d11ArtCnn {
    pub mode: LumaUpscalerMode,
    pub status: LumaUpscalerBackendStatus,
    pub resources: Option<D3d11Model>,
    pub pool: Option<D3d11Pool>,
    pub fallback_count: u64,
    pub upscaled_frames: u64,
}

/// What a change of mode asks of the device.
#[derive(Debug, Clone, Copy, PartialEq, Eq, Structural)]
pub enum D3d11ModelStep {
    /// Nothing: the model is there, or none is wanted.
    Ready,
    /// The model's buffers and shaders are to be built.
    Build,
}

/// What a frame asks of the device.
#[derive(Debug, Clone)]
pub enum D3d11EncodeStep {
    /// No upscaling.
    Skip,
    /// The textures already hold this frame.
    Reuse,
    /// The passes are to be run, after the textures are built anew where
    /// `rebuild_pool` says so.
    Run { rebuild_pool: bool, records: Vec<DispatchRecord> },
}

/// One more, as far as the counter goes.
pub open spec fn counted(count: u64) -> u64 {
    if count < u64::MAX {
        (count + 1) as u64
    } else {
        count
    }
}

pub open spec fn feature_level_text() -> Seq<char> {
    "d3d11 ArtCNN requires Direct3D feature level 11.0"@
}

pub open spec fn dimensions_text() -> Seq<char> {
    "d3d11 ArtCNN input dimensions must be non-zero"@
}

impl Default for D3d11ArtCnn {
    fn default() -> (artcnn: Self)
        ensures
            artcnn.wf(),
            artcnn == (D3d11ArtCnn {
                mode: LumaUpscalerMode::Off,
                status: LumaUpscalerBackendStatus::Off,
                resources: None,
                pool: None,
                fallback_count: 0,
                upscaled_frames: 0,
            }),
    {
        D3d11ArtCnn {
            mode: LumaUpscalerMode::Off,
            status: LumaUpscalerBackendStatus::Off,
            resources: None,
            pool: None,
            fallback_count: 0,
            upscaled_frames: 0,
        }
    }
}

impl D3d11ArtCnn {
    /// The model is there exactly while the scalar kernels run, textures are
    /// there only then, and without a mode nothing runs.
    pub open spec fn wf(self) -> bool {
        &&& self.status != LumaUpscalerBackendStatus::SimdgroupMatrix
        &&& self.status == LumaUpscalerBackendStatus::Scalar <==> self.resources is Some
        &&& self.pool is Some ==> self.resources is Some
        &&& self.status == LumaUpscalerBackendStatus::Off ==> self.mode == LumaUpscalerMode::Off
        &&& self.status == LumaUpscalerBackendStatus::Building || self.status
            == LumaUpscalerBackendStatus::Scalar ==> self.mode != LumaUpscalerMode::Off
        &&& self.resources matches Some(model) ==> {
            &&& model.slices == mode_slices(self.mode)
            &&& model.offsets.of(mode_slices(self.mode))
        }
    }

    /// The doubler is ready for frames in this mode.
    pub open spec fn settled(self, mode: LumaUpscalerMode) -> bool {
        self.mode == mode && (mode == LumaUpscalerMode::Off || self.resources is Some)
    }

    /// Without its model, after a failure.
    pub open spec fn failed(self, before: Self) -> bool {
        &&& self.mode == before.mode
        &&& self.status == LumaUpscalerBackendStatus::Inactive
        &&& self.resources is None
        &&& self.pool is None
        &&& self.fallback_count == counted(before.fallback_count)
        &&& self.upscaled_frames == before.upscaled_frames
    }

    /// Gives the model up after a failure on the device.
    pub fn record_runtime_failure(&mut self)
        ensures
            final(self).failed(*old(self)),
            final(self).wf(),
    {
        self.status = LumaUpscalerBackendStatus::Inactive;
        self.resources = None;
        self.pool = None;
        self.fallback_count = self.fallback_count.saturating_add(1);
    }

    /// Selects a mode on a device of the given feature level. A mode that is
    /// already running is kept; a device that is too old is an error.
    pub fn set_mode(&mut self, mode: LumaUpscalerMode, feature_level: i32) -> (step: Result<
        D3d11ModelStep,
        PlayerError,
    >)
        requires
            old(self).wf(),
        ensures
            final(self).mode == mode,
            final(self).upscaled_frames == old(self).upscaled_frames,
            old(self).settled(mode) ==> *final(self) == *old(self) && step == Ok::<
                D3d11ModelStep,
                PlayerError,
            >(D3d11ModelStep::Ready),
            !old(self).settled(mode) ==> {
                &&& final(self).resources is None
                &&& final(self).pool is None
                &&& match step {
                    Ok(D3d11ModelStep::Ready) => {
                        &&& mode == LumaUpscalerMode::Off
                        &&& final(self).status == LumaUpscalerBackendStatus::Off
                        &&& final(self).fallback_count == old(self).fallback_count
                    },
                    Ok(D3d11ModelStep::Build) => {
                        &&& mode != LumaUpscalerMode::Off
                        &&& feature_level >= 0xb000
                        &&& final(self).status == LumaUpscalerBackendStatus::Building
                        &&& final(self).fallback_count == old(self).fallback_count
                    },
                    Err(error) => {
                        &&& mode != LumaUpscalerMode::Off
                        &&& feature_level < 0xb000
                        &&& error.says(feature_level_text())
                        &&& final(self).status == LumaUpscalerBackendStatus::Inactive
                        &&& final(self).fallback_count == counted(old(self).fallback_count)
                    },
                }
            },
            final(self).wf(),
    {
        if self.mode == mode && (mode == LumaUpscalerMode::Off || (self.status
            == LumaUpscalerBackendStatus::Scalar && self.resources.is_some())) {
            return Ok(D3d11ModelStep::Ready);
        }
        self.mode = mode;
        self.resources = None;
        self.pool = None;
        if mode == LumaUpscalerMode::Off {
            self.status = LumaUpscalerBackendStatus::Off;
            return Ok(D3d11ModelStep::Ready);
        }
        self.status = LumaUpscalerBackendStatus::Building;
        if feature_level < feature_level_11_0() {
            self.record_runtime_failure();
            return Err(renderer_error("d3d11 ArtCNN requires Direct3D feature level 11.0"));
        }
        Ok(D3d11ModelStep::Build)
    }

    /// Drops what belongs to a previous device and selects a mode on the new
    /// one.
    pub fn attach_device(&mut self, mode: LumaUpscalerMode, feature_level: i32) -> (step: Result<
        D3d11ModelStep,
        PlayerError,
    >)
        ensures
            final(self).wf(),
            final(self).mode == mode,
            final(self).resources is None,
            final(self).pool is None,
            final(self).upscaled_frames == old(self).upscaled_frames,
            match step {
                Ok(D3d11ModelStep::Ready) => {
                    &&& mode == LumaUpscalerMode::Off
                    &&& final(self).status == LumaUpscalerBackendStatus::Off
                    &&& final(self).fallback_count == old(self).fallback_count
                },
                Ok(D3d11ModelStep::Build) => {
                    &&& mode != LumaUpscalerMode::Off
                    &&& feature_level >= 0xb000
                    &&& final(self).status == LumaUpscalerBackendStatus::Building
                    &&& final(self).fallback_count == old(self).fallback_count
                },
                Err(error) => {
                    &&& mode != LumaUpscalerMode::Off
                    &&& feature_level < 0xb000
                    &&& error.says(feature_level_text())
                    &&& final(self).status == LumaUpscalerBackendStatus::Inactive
                    &&& final(self).fallback_count == counted(old(self).fallback_count)
                },
            },
    {
        self.resources = None;
        self.pool = None;
        self.mode = LumaUpscalerMode::Off;
        self.status = LumaUpscalerBackendStatus::Off;
        self.set_mode(mode, feature_level)
    }

    /// Takes in how the build of the model ended.
    pub fn model_built(&mut self, built: Result<D3d11Model, PlayerError>) -> (result: Result<
        (),
        PlayerError,
    >)
        requires
            old(self).wf(),
            old(self).status == LumaUpscalerBackendStatus::Building,
            built matches Ok(model) ==> model.slices == mode_slices(old(self).mode)
                && model.offsets.of(mode_slices(old(self).mode)),
        ensures
            final(self).wf(),
            match built {
                Ok(model) => {
                    &&& result is Ok
                    &&& *final(self) == (D3d11ArtCnn {
                        status: LumaUpscalerBackendStatus::Scalar,
                        resources: Some(model),
                        ..*old(self)
                    })
                },
                Err(error) => {
                    &&& result == Err::<(), PlayerError>(error)
                    &&& final(self).failed(*old(self))
                },
            },
    {
        match built {
            Ok(model) => {
                self.resources = Some(model);
                self.status = LumaUpscalerBackendStatus::Scalar;
                Ok(())
            },
            Err(error) => {
                self.record_runtime_failure();
                Err(error)
            },
        }
    }

    /// The textures already hold the frame with this token.
    pub open spec fn holds_frame(self, token: Option<u64>) -> bool {
        self.pool matches Some(pool) && token is Some && token == pool.frame_cache.token()
    }

    /// The textures have this size.
    pub open spec fn pool_fits(self, width: u32, height: u32) -> bool {
        self.pool matches Some(pool) && pool.width == width && pool.height == height
    }

    /// Decides what a frame asks of the device.
    pub fn encode(&self, width: u32, height: u32, frame_token: Option<u64>) -> (step: Result<
        D3d11EncodeStep,
        PlayerError,
    >)
        requires
            self.wf(),
            width <= 0x8000_0000,
            height <= 0x8000_0000,
        ensures
            match step {
                Ok(D3d11EncodeStep::Skip) => self.status != LumaUpscalerBackendStatus::Scalar,
                Err(error) => {
                    &&& self.status == LumaUpscalerBackendStatus::Scalar
                    &&& width == 0 || height == 0
                    &&& error.says(dimensions_text())
                },
                Ok(D3d11EncodeStep::Reuse) => {
                    &&& self.status == LumaUpscalerBackendStatus::Scalar
                    &&& width > 0 && height > 0
                    &&& self.holds_frame(frame_token)
                },
                Ok(D3d11EncodeStep::Run { rebuild_pool, records }) => {
                    let across = tiles_across(width as int);
                    let down = tiles_down(height as int);
                    let slices = mode_slices(self.mode) as u32;
                    &&& self.status == LumaUpscalerBackendStatus::Scalar
                    &&& width > 0 && height > 0
                    &&& !self.holds_frame(frame_token)
                    &&& rebuild_pool == !self.pool_fits(width, height)
                    &&& records@.len() == across * down * 7
                    &&& forall|tx: int, ty: int, pass: int|
                        0 <= tx < across && 0 <= ty < down && 0 <= pass < 7 ==> (
                        #[trigger] records@[place(across, tx, ty, pass)]).runs(
                            width as int,
                            height as int,
                            self.resources.unwrap().offsets,
                            slices,
                            tx,
                            ty,
                            pass,
                        )
                },
            },
    {
        if self.mode == LumaUpscalerMode::Off || self.status
            != LumaUpscalerBackendStatus::Scalar {
            return Ok(D3d11EncodeStep::Skip);
        }
        if width == 0 || height == 0 {
            return Err(renderer_error("d3d11 ArtCNN input dimensions must be non-zero"));
        }
        let mut rebuild_pool: bool = true;
        if let Some(pool) = self.pool {
            if pool.frame_cache.matches(frame_token) {
                return Ok(D3d11EncodeStep::Reuse);
            }
            rebuild_pool = pool.width != width || pool.height != height;
        }
        match self.resources {
            Some(model) => {
                let records = build_dispatch_records(width, height, &model.offsets, model.slices);
                Ok(D3d11EncodeStep::Run { rebuild_pool, records })
            },
            None => Ok(D3d11EncodeStep::Skip),
        }
    }

    /// Takes in that the textures have been built for this size. They hold no
    /// frame yet.
    pub fn pool_built(&mut self, width: u32, height: u32)
        requires
            old(self).wf(),
            old(self).status == LumaUpscalerBackendStatus::Scalar,
        ensures
            final(self).wf(),
            final(self).pool_fits(width, height),
            final(self).pool.unwrap().frame_cache.token() is None,
            *final(self) == (D3d11ArtCnn { pool: final(self).pool, ..*old(self) }),
    {
        self.pool = Some(D3d11Pool { width, height, frame_cache: FrameTokenCache::default() });
    }

    /// Takes in that the passes of a frame have been run.
    pub fn encoded(&mut self, frame_token: Option<u64>)
        requires
            old(self).wf(),
            old(self).pool is Some,
        ensures
            final(self).wf(),
            final(self).pool_fits(old(self).pool.unwrap().width, old(self).pool.unwrap().height),
            final(self).pool.unwrap().frame_cache.token() == frame_token,
            *final(self) == (D3d11ArtCnn {
                pool: final(self).pool,
                upscaled_frames: counted(old(self).upscaled_frames),
                ..*old(self)
            }),
    {
        if let Some(pool) = self.pool {
            let mut frame_cache: FrameTokenCache = pool.frame_cache;
            frame_cache.commit(frame_token);
            self.pool = Some(D3d11Pool { width: pool.width, height: pool.height, frame_cache });
        }
        self.upscaled_frames = self.upscaled_frames.saturating_add(1);
    }
}

/// A frame with a token is run once: asking again with the same token and size
/// finds it in the textures, until the textures are built anew or the model is
/// given up.
pub proof fn law_an_encoded_frame_is_reused(
    before: D3d11ArtCnn,
    after: D3d11ArtCnn,
    token: u64,
)
    requires
        before.wf(),
        before.status == LumaUpscalerBackendStatus::Scalar,
        before.pool is Some,
        after.pool_fits(before.pool.unwrap().width, before.pool.unwrap().height),
        after.pool.unwrap().frame_cache.token() == Some(token),
        after == (D3d11ArtCnn {
            pool: after.pool,
            upscaled_frames: counted(before.upscaled_frames),
            ..before
        }),
    ensures
        after.wf(),
        after.status == LumaUpscalerBackendStatus::Scalar,
        after.holds_frame(Some(token)),
        !after.holds_frame(None),
        forall|other: u64| other != token ==> !after.holds_frame(Some(other)),
{
}

/// What the device needs for a model: the bytes of its weight buffer and the
/// elements of the buffer's view.
#[derive(Debug, Clone, Copy)]
pub struct D3d11ModelPlan<'a> {
    pub model: ArtCnnModel<'a>,
    pub byte_width: u32,
    pub elements: u32,
}

/// Selects a mode's model and sizes its weight buffer.
pub fn plan_model<'a>(mode: LumaUpscalerMode, models: EmbeddedModels<'a>) -> (plan: Result<
    D3d11ModelPlan<'a>,
    PlayerError,
>)
    ensures
        match plan {
            Ok(plan) => {
                &&& parse_outcome(
                    mode,
                    models.blob(mode),
                    Ok::<ArtCnnModel<'a>, PlayerError>(plan.model),
                )
                &&& plan.byte_width == plan.model.payload@.len()
                &&& plan.elements == plan.model.layout.payload_half4
                &&& plan.byte_width == plan.elements * 8
            },
            Err(error) => parse_outcome(
                mode,
                models.blob(mode),
                Err::<ArtCnnModel<'a>, PlayerError>(error),
            ),
        },
{
    match model_for_mode(mode, models) {
        Ok(model) => {
            proof {
                assert(payload_len(4) == 3085);
                assert(payload_len(8) == 11929);
            }
            Ok(
                D3d11ModelPlan {
                    byte_width: model.payload.len() as u32,
                    elements: model.layout.payload_half4 as u32,
                    model,
                },
            )
        },
        Err(error) => Err(error),
    }
}

/// The size of the feature textures: one tile with its halo.
pub fn feature_texture_size() -> (size: (u32, u32))
    ensures
        size.0 == TILE_WIDTH + 2 * FEATURE_HALO,
        size.1 == TILE_HEIGHT + 2 * FEATURE_HALO,
{
    (TILE_WIDTH + FEATURE_HALO * 2, TILE_HEIGHT + FEATURE_HALO * 2)
}

} // verus!
