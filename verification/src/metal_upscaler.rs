//! The Metal luma doubler: which kernels run, when they are built, and the
//! passes of a frame.
//!
//! Kernels are compiled in the background. Until a build has finished, frames
//! are shown without upscaling.
use crate::artcnn::{
    first_weights, last_weights, law_sections_tile_the_payload, middle_weights, payload_len,
    FrameTokenCache, LayerOffsets, MIDDLE_LAYER_COUNT,
};
use crate::artcnn_policy::ArtCnnBackendOverride;
use crate::d3d11_artcnn::counted;
use crate::error::PlayerError;
use crate::modes::{LumaUpscalerBackendStatus, LumaUpscalerMode};
use crate::tiles::{ceil_div, chain, lemma_filter_of_seven, middle_textures, pass_layer};
use vstd::prelude::*;

verus! {

/// Which kernels are asked for. `Auto` takes the matrix kernels where the
/// device has them and the scalar ones elsewhere.
#[derive(Debug, Clone, Copy, PartialEq, Eq, Structural)]
pub enum UpscalerBackend {
    Auto,
    Scalar,
    SimdgroupMatrix,
}

impl Default for UpscalerBackend {
    fn default() -> (backend: Self)
        ensures
            backend == UpscalerBackend::Auto,
    {
        UpscalerBackend::Auto
    }
}

/// One build of kernels.
#[derive(Debug, Clone, Copy, PartialEq, Eq, Structural)]
pub struct UpscalerBuild {
    pub mode: LumaUpscalerMode,
    pub matmul: bool,
}

/// Which kernels to use, and whether a failure of the matrix kernels leads to
/// the scalar ones.
#[derive(Debug, Clone, Copy, PartialEq, Eq, Structural)]
pub struct BackendChoice {
    pub matmul: bool,
    pub fallback_to_scalar: bool,
}

/// The size and format of the feature and output textures, and their frame.
#[derive(Debug, Clone, Copy)]
pub struct UpscalerPool {
    pub width: usize,
    pub height: usize,
    pub output_format: usize,
    pub frame_cache: FrameTokenCache,
}

/// Kernels that are ready, with the textures they work on.
#[derive(Debug, Clone, Copy)]
pub struct UpscalerResources {
    pub build: UpscalerBuild,
    pub slices: u32,
    pub block: (usize, usize),
    pub offsets: LayerOffsets,
    pub pool: Option<UpscalerPool>,
}

/// The state of the luma doubler.
#[derive(Debug, Clone, Copy)]
pub struct LumaUpscaler {
    pub mode: LumaUpscalerMode,
    pub backend: UpscalerBackend,
    pub resources: Option<UpscalerResources>,
    pub pending: Option<UpscalerBuild>,
    pub auto_matmul_failed: bool,
    pub auto_matmul_fallbacks: u64,
}

/// What a frame asks for before any kernel can run.
#[derive(Debug, Clone, Copy, PartialEq, Eq, Structural)]
pub enum UpscalerStep {
    /// The frame is shown without upscaling.
    Skip,
    /// The kernels are ready.
    Ready,
    /// Ask whether the pending build has finished.
    Poll,
    /// Start this build.
    Spawn(UpscalerBuild),
}

/// How a build stands.
#[derive(Debug, Clone)]
pub enum BuildReport {
    Unfinished,
    Built(UpscalerResources),
    Failed(PlayerError),
}

impl Default for LumaUpscaler {
    fn default() -> (upscaler: Self)
        ensures
            upscaler.wf(),
            upscaler == LumaUpscaler::idle(LumaUpscalerMode::Off),
    {
        LumaUpscaler {
            mode: LumaUpscalerMode::Off,
            backend: UpscalerBackend::Auto,
            resources: None,
            pending: None,
            auto_matmul_failed: false,
            auto_matmul_fallbacks: 0,
        }
    }
}

/// The choice that a request leads to on a device.
pub open spec fn chosen(
    backend: UpscalerBackend,
    request: Option<ArtCnnBackendOverride>,
    device_has_matrix: bool,
    auto_matmul_failed: bool,
) -> BackendChoice {
    match (backend, request) {
        (UpscalerBackend::Scalar, _) => BackendChoice { matmul: false, fallback_to_scalar: false },
        (UpscalerBackend::SimdgroupMatrix, _) => BackendChoice {
            matmul: true,
            fallback_to_scalar: false,
        },
        (UpscalerBackend::Auto, Some(ArtCnnBackendOverride::Scalar)) => BackendChoice {
            matmul: false,
            fallback_to_scalar: false,
        },
        (UpscalerBackend::Auto, Some(ArtCnnBackendOverride::Matrix)) => BackendChoice {
            matmul: true,
            fallback_to_scalar: false,
        },
        (UpscalerBackend::Auto, None) => BackendChoice {
            matmul: !auto_matmul_failed && device_has_matrix,
            fallback_to_scalar: true,
        },
    }
}

impl LumaUpscaler {
    /// With a mode, and nothing built yet.
    pub open spec fn idle(mode: LumaUpscalerMode) -> Self {
        LumaUpscaler {
            mode,
            backend: UpscalerBackend::Auto,
            resources: None,
            pending: None,
            auto_matmul_failed: false,
            auto_matmul_fallbacks: 0,
        }
    }

    pub fn mode(&self) -> (mode: LumaUpscalerMode)
        ensures
            mode == self.mode,
    {
        self.mode
    }

    pub fn backend(&self) -> (backend: UpscalerBackend)
        ensures
            backend == self.backend,
    {
        self.backend
    }

    pub fn auto_matmul_fallbacks(&self) -> (count: u64)
        ensures
            count == self.auto_matmul_fallbacks,
    {
        self.auto_matmul_fallbacks
    }

    /// Kernels, ready or pending, belong to the current mode, and there are
    /// none without a mode.
    pub open spec fn wf(self) -> bool {
        &&& self.resources matches Some(resources) ==> resources.build.mode == self.mode
        &&& self.pending matches Some(pending) ==> pending.mode == self.mode
        &&& self.mode == LumaUpscalerMode::Off ==> self.resources is None && self.pending is None
    }

    /// The ready kernels are the chosen ones.
    pub open spec fn matching(self, choice: BackendChoice) -> bool {
        self.resources matches Some(resources) && resources.build.matmul == choice.matmul
    }

    pub fn set_mode(&mut self, mode: LumaUpscalerMode)
        requires
            old(self).wf(),
        ensures
            final(self).wf(),
            old(self).mode == mode ==> *final(self) == *old(self),
            old(self).mode != mode ==> *final(self) == (LumaUpscaler {
                mode,
                resources: None,
                pending: None,
                auto_matmul_failed: false,
                ..*old(self)
            }),
    {
        if self.mode != mode {
            self.mode = mode;
            self.resources = None;
            self.pending = None;
            self.auto_matmul_failed = false;
        }
    }

    pub fn set_backend(&mut self, backend: UpscalerBackend)
        requires
            old(self).wf(),
        ensures
            final(self).wf(),
            old(self).backend == backend ==> *final(self) == *old(self),
            old(self).backend != backend ==> *final(self) == (LumaUpscaler {
                backend,
                resources: None,
                pending: None,
                auto_matmul_failed: false,
                ..*old(self)
            }),
    {
        if self.backend != backend {
            self.backend = backend;
            self.resources = None;
            self.pending = None;
            self.auto_matmul_failed = false;
        }
    }

    /// What is reported of the kernels.
    pub open spec fn status(self) -> LumaUpscalerBackendStatus {
        if self.mode == LumaUpscalerMode::Off {
            LumaUpscalerBackendStatus::Off
        } else {
            match self.resources {
                Some(resources) => if resources.build.matmul {
                    LumaUpscalerBackendStatus::SimdgroupMatrix
                } else {
                    LumaUpscalerBackendStatus::Scalar
                },
                None => if self.pending is Some {
                    LumaUpscalerBackendStatus::Building
                } else {
                    LumaUpscalerBackendStatus::Inactive
                },
            }
        }
    }

    pub fn active_backend(&self) -> (status: LumaUpscalerBackendStatus)
        ensures
            status == self.status(),
    {
        if self.mode == LumaUpscalerMode::Off {
            return LumaUpscalerBackendStatus::Off;
        }
        match self.resources {
            Some(resources) => if resources.build.matmul {
                LumaUpscalerBackendStatus::SimdgroupMatrix
            } else {
                LumaUpscalerBackendStatus::Scalar
            },
            None => if self.pending.is_some() {
                LumaUpscalerBackendStatus::Building
            } else {
                LumaUpscalerBackendStatus::Inactive
            },
        }
    }

    /// Which kernels to use, given the process's request and what the device
    /// can do.
    pub fn backend_choice(
        &self,
        request: Option<ArtCnnBackendOverride>,
        device_has_matrix: bool,
    ) -> (choice: BackendChoice)
        ensures
            choice == chosen(self.backend, request, device_has_matrix, self.auto_matmul_failed),
    {
        match self.backend {
            UpscalerBackend::Scalar => BackendChoice { matmul: false, fallback_to_scalar: false },
            UpscalerBackend::SimdgroupMatrix => BackendChoice {
                matmul: true,
                fallback_to_scalar: false,
            },
            UpscalerBackend::Auto => match request {
                Some(ArtCnnBackendOverride::Scalar) => BackendChoice {
                    matmul: false,
                    fallback_to_scalar: false,
                },
                Some(ArtCnnBackendOverride::Matrix) => BackendChoice {
                    matmul: true,
                    fallback_to_scalar: false,
                },
                None => BackendChoice {
                    matmul: !self.auto_matmul_failed && device_has_matrix,
                    fallback_to_scalar: true,
                },
            },
        }
    }

    /// Notes that the matrix kernels could not be built; each run of failures
    /// counts once.
    pub fn record_auto_matmul_failure(&mut self)
        ensures
            *final(self) == (LumaUpscaler {
                auto_matmul_failed: true,
                auto_matmul_fallbacks: if old(self).auto_matmul_failed {
                    old(self).auto_matmul_fallbacks
                } else {
                    counted(old(self).auto_matmul_fallbacks)
                },
                ..*old(self)
            }),
    {
        if !self.auto_matmul_failed {
            self.auto_matmul_fallbacks = self.auto_matmul_fallbacks.saturating_add(1);
        }
        self.auto_matmul_failed = true;
    }

    /// Starts a frame: finds out whether the chosen kernels are ready, and
    /// gives up kernels and builds that are not the chosen ones.
    pub fn begin_frame(&mut self, choice: BackendChoice) -> (step: UpscalerStep)
        requires
            old(self).wf(),
        ensures
            final(self).wf(),
            step == if old(self).mode == LumaUpscalerMode::Off {
                UpscalerStep::Skip
            } else if old(self).matching(choice) {
                UpscalerStep::Ready
            } else {
                let wanted = UpscalerBuild { mode: old(self).mode, matmul: choice.matmul };
                if old(self).pending == Some(wanted) {
                    UpscalerStep::Poll
                } else {
                    UpscalerStep::Spawn(wanted)
                }
            },
            step == UpscalerStep::Skip || step == UpscalerStep::Ready ==> *final(self) == *old(
                self,
            ),
            step == UpscalerStep::Poll ==> *final(self) == (LumaUpscaler {
                resources: None,
                ..*old(self)
            }),
            step is Spawn ==> *final(self) == (LumaUpscaler {
                resources: None,
                pending: None,
                ..*old(self)
            }),
    {
        if self.mode == LumaUpscalerMode::Off {
            return UpscalerStep::Skip;
        }
        if let Some(resources) = self.resources {
            if resources.build.matmul == choice.matmul && resources.build.mode == self.mode {
                return UpscalerStep::Ready;
            }
        }
        self.resources = None;
        let wanted = UpscalerBuild { mode: self.mode, matmul: choice.matmul };
        if let Some(pending) = self.pending {
            if pending == wanted {
                return UpscalerStep::Poll;
            }
        }
        self.pending = None;
        UpscalerStep::Spawn(wanted)
    }

    /// Takes in that a build has been started.
    pub fn build_spawned(&mut self, build: UpscalerBuild)
        requires
            old(self).wf(),
            old(self).mode != LumaUpscalerMode::Off,
            build.mode == old(self).mode,
        ensures
            final(self).wf(),
            *final(self) == (LumaUpscaler { pending: Some(build), ..*old(self) }),
    {
        self.pending = Some(build);
    }

    /// Takes in how the polled build stands. Where the matrix kernels failed and
    /// the choice allows it, the scalar kernels are built instead.
    pub fn build_polled(&mut self, choice: BackendChoice, report: BuildReport) -> (step: Result<
        UpscalerStep,
        PlayerError,
    >)
        requires
            old(self).wf(),
            old(self).mode != LumaUpscalerMode::Off,
            old(self).resources is None,
            old(self).pending == Some(
                UpscalerBuild { mode: old(self).mode, matmul: choice.matmul },
            ),
            report matches BuildReport::Built(resources) ==> Some(resources.build) == old(
                self,
            ).pending,
        ensures
            final(self).wf(),
            match report {
                BuildReport::Unfinished => {
                    &&& step == Ok::<UpscalerStep, PlayerError>(UpscalerStep::Skip)
                    &&& *final(self) == *old(self)
                },
                BuildReport::Built(resources) => {
                    &&& step == Ok::<UpscalerStep, PlayerError>(UpscalerStep::Ready)
                    &&& *final(self) == (LumaUpscaler {
                        resources: Some(resources),
                        pending: None,
                        ..*old(self)
                    })
                    &&& final(self).matching(choice)
                },
                BuildReport::Failed(error) => if choice.matmul && choice.fallback_to_scalar {
                    &&& step == Ok::<UpscalerStep, PlayerError>(
                        UpscalerStep::Spawn(
                            UpscalerBuild { mode: old(self).mode, matmul: false },
                        ),
                    )
                    &&& final(self).auto_matmul_failed
                    &&& *final(self) == (LumaUpscaler {
                        pending: None,
                        auto_matmul_failed: true,
                        auto_matmul_fallbacks: if old(self).auto_matmul_failed {
                            old(self).auto_matmul_fallbacks
                        } else {
                            counted(old(self).auto_matmul_fallbacks)
                        },
                        ..*old(self)
                    })
                } else {
                    &&& step == Err::<UpscalerStep, PlayerError>(error)
                    &&& *final(self) == (LumaUpscaler { pending: None, ..*old(self) })
                },
            },
    {
        match report {
            BuildReport::Unfinished => Ok(UpscalerStep::Skip),
            BuildReport::Built(resources) => {
                self.pending = None;
                self.resources = Some(resources);
                Ok(UpscalerStep::Ready)
            },
            BuildReport::Failed(error) => {
                self.pending = None;
                if choice.matmul && choice.fallback_to_scalar {
                    self.record_auto_matmul_failure();
                    Ok(UpscalerStep::Spawn(UpscalerBuild { mode: self.mode, matmul: false }))
                } else {
                    Err(error)
                }
            },
        }
    }

    /// Takes in that the chosen build could not even be started. Like a build
    /// that failed, it gives way to the scalar kernels where the choice allows
    /// it.
    pub fn spawn_failed(&mut self, choice: BackendChoice, error: PlayerError) -> (step: Result<
        UpscalerStep,
        PlayerError,
    >)
        requires
            old(self).wf(),
            old(self).mode != LumaUpscalerMode::Off,
            old(self).resources is None,
            old(self).pending is None,
        ensures
            final(self).wf(),
            if choice.matmul && choice.fallback_to_scalar {
                &&& step == Ok::<UpscalerStep, PlayerError>(
                    UpscalerStep::Spawn(UpscalerBuild { mode: old(self).mode, matmul: false }),
                )
                &&& *final(self) == (LumaUpscaler {
                    auto_matmul_failed: true,
                    auto_matmul_fallbacks: if old(self).auto_matmul_failed {
                        old(self).auto_matmul_fallbacks
                    } else {
                        counted(old(self).auto_matmul_fallbacks)
                    },
                    ..*old(self)
                })
            } else {
                &&& step == Err::<UpscalerStep, PlayerError>(error)
                &&& *final(self) == *old(self)
            },
    {
        if choice.matmul && choice.fallback_to_scalar {
            self.record_auto_matmul_failure();
            Ok(UpscalerStep::Spawn(UpscalerBuild { mode: self.mode, matmul: false }))
        } else {
            Err(error)
        }
    }

    /// Starts a blocking build of the chosen kernels; none where they are ready
    /// or no mode is set.
    pub fn begin_blocking(&mut self, choice: BackendChoice) -> (build: Option<UpscalerBuild>)
        requires
            old(self).wf(),
        ensures
            final(self).wf(),
            old(self).mode == LumaUpscalerMode::Off || old(self).matching(choice) ==> build is None
                && *final(self) == *old(self),
            old(self).mode != LumaUpscalerMode::Off && !old(self).matching(choice) ==> {
                &&& build == Some(UpscalerBuild { mode: old(self).mode, matmul: choice.matmul })
                &&& *final(self) == (LumaUpscaler { pending: None, ..*old(self) })
            },
    {
        if self.mode == LumaUpscalerMode::Off {
            return None;
        }
        if let Some(resources) = self.resources {
            if resources.build.matmul == choice.matmul && resources.build.mode == self.mode {
                return None;
            }
        }
        self.pending = None;
        Some(UpscalerBuild { mode: self.mode, matmul: choice.matmul })
    }

    /// Takes in how a blocking build ended: the kernels are ready, or the scalar
    /// ones are to be built, or the error stands.
    pub fn blocking_built(
        &mut self,
        choice: BackendChoice,
        built: Result<UpscalerResources, PlayerError>,
    ) -> (next: Result<Option<UpscalerBuild>, PlayerError>)
        requires
            old(self).wf(),
            old(self).mode != LumaUpscalerMode::Off,
            built matches Ok(resources) ==> resources.build.mode == old(self).mode
                && resources.build.matmul == choice.matmul,
        ensures
            final(self).wf(),
            match built {
                Ok(resources) => {
                    &&& next == Ok::<Option<UpscalerBuild>, PlayerError>(None)
                    &&& *final(self) == (LumaUpscaler { resources: Some(resources), ..*old(self) })
                    &&& final(self).matching(choice)
                },
                Err(error) => if choice.matmul && choice.fallback_to_scalar {
                    &&& next == Ok::<Option<UpscalerBuild>, PlayerError>(
                        Some(UpscalerBuild { mode: old(self).mode, matmul: false }),
                    )
                    &&& *final(self) == (LumaUpscaler {
                        auto_matmul_failed: true,
                        auto_matmul_fallbacks: if old(self).auto_matmul_failed {
                            old(self).auto_matmul_fallbacks
                        } else {
                            counted(old(self).auto_matmul_fallbacks)
                        },
                        ..*old(self)
                    })
                } else {
                    &&& next == Err::<Option<UpscalerBuild>, PlayerError>(error)
                    &&& *final(self) == *old(self)
                },
            },
    {
        match built {
            Ok(resources) => {
                self.resources = Some(resources);
                Ok(None)
            },
            Err(error) => if choice.matmul && choice.fallback_to_scalar {
                self.record_auto_matmul_failure();
                Ok(Some(UpscalerBuild { mode: self.mode, matmul: false }))
            } else {
                Err(error)
            },
        }
    }

    /// The textures of the ready kernels fit this input.
    pub open spec fn pool_fits(self, width: usize, height: usize, output_format: usize) -> bool {
        self.resources matches Some(resources) && resources.pool matches Some(pool) && pool.width
            == width && pool.height == height && pool.output_format == output_format
    }

    /// The textures of the ready kernels already hold this frame.
    pub open spec fn holds_frame(self, token: Option<u64>) -> bool {
        self.resources matches Some(resources) && resources.pool matches Some(pool) && token is Some
            && token == pool.frame_cache.token()
    }

    /// Whether the textures have to be built anew for this input.
    pub fn needs_pool(&self, width: usize, height: usize, output_format: usize) -> (needed: bool)
        ensures
            needed == !self.pool_fits(width, height, output_format),
    {
        match self.resources {
            Some(resources) => match resources.pool {
                Some(pool) => !(pool.width == width && pool.height == height && pool.output_format
                    == output_format),
                None => true,
            },
            None => true,
        }
    }

    /// Takes in that the textures have been built for this input. They hold no
    /// frame yet.
    pub fn pool_built(&mut self, width: usize, height: usize, output_format: usize)
        requires
            old(self).wf(),
            old(self).resources is Some,
        ensures
            final(self).wf(),
            final(self).pool_fits(width, height, output_format),
            forall|token: Option<u64>| !final(self).holds_frame(token),
            final(self).resources is Some,
            *final(self) == (LumaUpscaler {
                resources: Some(
                    UpscalerResources {
                        pool: final(self).resources.unwrap().pool,
                        ..old(self).resources.unwrap()
                    },
                ),
                ..*old(self)
            }),
    {
        if let Some(resources) = self.resources {
            let frame_cache: FrameTokenCache = FrameTokenCache::default();
            self.resources = Some(
                UpscalerResources {
                    build: resources.build,
                    slices: resources.slices,
                    block: resources.block,
                    offsets: resources.offsets,
                    pool: Some(UpscalerPool { width, height, output_format, frame_cache }),
                },
            );
        }
    }

    /// Whether the output texture already holds this frame.
    pub fn has_frame(&self, frame_token: Option<u64>) -> (held: bool)
        ensures
            held == self.holds_frame(frame_token),
    {
        match self.resources {
            Some(resources) => match resources.pool {
                Some(pool) => pool.frame_cache.matches(frame_token),
                None => false,
            },
            None => false,
        }
    }

    /// Takes in that the passes of a frame have been encoded.
    pub fn encoded(&mut self, frame_token: Option<u64>)
        requires
            old(self).wf(),
            old(self).resources is Some,
            old(self).resources.unwrap().pool is Some,
        ensures
            final(self).wf(),
            forall|token: Option<u64>|
                final(self).holds_frame(token) <==> token is Some && token == frame_token,
            forall|width: usize, height: usize, output_format: usize|
                final(self).pool_fits(width, height, output_format) <==> old(self).pool_fits(
                    width,
                    height,
                    output_format,
                ),
            final(self).resources is Some,
            *final(self) == (LumaUpscaler {
                resources: Some(
                    UpscalerResources {
                        pool: final(self).resources.unwrap().pool,
                        ..old(self).resources.unwrap()
                    },
                ),
                ..*old(self)
            }),
    {
        if let Some(resources) = self.resources {
            if let Some(pool) = resources.pool {
                let mut frame_cache: FrameTokenCache = pool.frame_cache;
                frame_cache.commit(frame_token);
                self.resources = Some(
                    UpscalerResources {
                        build: resources.build,
                        slices: resources.slices,
                        block: resources.block,
                        offsets: resources.offsets,
                        pool: Some(
                            UpscalerPool {
                                width: pool.width,
                                height: pool.height,
                                output_format: pool.output_format,
                                frame_cache,
                            },
                        ),
                    },
                );
            }
        }
    }
}

/// After a failure of the matrix kernels in automatic mode, the next choice is
/// the scalar kernels, whatever the device can do, until the mode or the back
/// end changes.
pub proof fn law_failed_matrix_kernels_are_not_chosen_again(
    upscaler: LumaUpscaler,
    device_has_matrix: bool,
)
    requires
        upscaler.backend == UpscalerBackend::Auto,
        upscaler.auto_matmul_failed,
    ensures
        chosen(upscaler.backend, None, device_has_matrix, upscaler.auto_matmul_failed) == (
        BackendChoice { matmul: false, fallback_to_scalar: true }),
{
}

/// One argument record of a convolution.
#[derive(Debug, Clone, Copy, PartialEq, Eq, Structural)]
pub struct ConvParams {
    pub weight_offset: u32,
    pub bias_offset: u32,
    pub relu: u32,
    pub add_residual: u32,
}

/// A texture that a pass is bound to.
#[derive(Debug, Clone, Copy, PartialEq, Eq, Structural)]
pub enum PassTexture {
    Luma,
    Feature(usize),
    Output,
}

/// One convolution: its arguments and its textures.
#[derive(Debug, Clone, Copy, PartialEq, Eq, Structural)]
pub struct ConvPass {
    pub params: ConvParams,
    pub source: PassTexture,
    pub target: PassTexture,
    pub residual: Option<PassTexture>,
}

/// The textures of a pass: the luma plane goes to the first feature texture,
/// the middle passes swap between the other two, and the last one writes the
/// output.
pub open spec fn pass_textures(pass: int) -> (PassTexture, PassTexture, Option<PassTexture>) {
    if pass == 0 {
        (PassTexture::Luma, PassTexture::Feature(0), None)
    } else if pass == 6 {
        (PassTexture::Feature(1), PassTexture::Output, None)
    } else {
        (
            PassTexture::Feature(chain(pass - 1).0 as usize),
            PassTexture::Feature(chain(pass - 1).1 as usize),
            Some(PassTexture::Feature(0)),
        )
    }
}

impl ConvPass {
    /// The pass is the one with this number.
    pub open spec fn runs(self, offsets: LayerOffsets, pass: int) -> bool {
        &&& seq![
            self.params.weight_offset,
            self.params.bias_offset,
            self.params.relu,
            self.params.add_residual,
        ] == pass_layer(offsets, pass)
        &&& (self.source, self.target, self.residual) == pass_textures(pass)
    }
}

/// The seven passes of a frame.
pub fn conv_passes(offsets: &LayerOffsets) -> (passes: Vec<ConvPass>)
    ensures
        passes@.len() == 7,
        forall|pass: int| 0 <= pass < 7 ==> (#[trigger] passes@[pass]).runs(*offsets, pass),
        forall|pass: int|
            0 <= pass < 7 ==> {
                let params = (#[trigger] passes@[pass]).params;
                &&& params.add_residual == 1 <==> pass == 5
                &&& params.add_residual == 0 <==> pass != 5
                &&& params.relu == 1 <==> 1 <= pass <= 4
                &&& params.relu == 0 <==> !(1 <= pass <= 4)
            },
        passes@[0].params.weight_offset == offsets.conv0_w,
        passes@[0].params.bias_offset == offsets.conv0_b,
        forall|pass: int|
            1 <= pass < 6 ==> (#[trigger] passes@[pass]).params.weight_offset
                == offsets.mid_w@[pass - 1],
        forall|pass: int|
            1 <= pass < 6 ==> (#[trigger] passes@[pass]).params.bias_offset
                == offsets.mid_b@[pass - 1],
        passes@[6].params.weight_offset == offsets.conv6_w,
        passes@[6].params.bias_offset == offsets.conv6_b,
        passes@[0].source == PassTexture::Luma,
        passes@[6].target == PassTexture::Output,
        passes@[5].residual == Some(passes@[0].target),
{
    let mut passes: Vec<ConvPass> = Vec::new();
    passes.push(
        ConvPass {
            params: ConvParams {
                weight_offset: offsets.conv0_w,
                bias_offset: offsets.conv0_b,
                relu: 0,
                add_residual: 0,
            },
            source: PassTexture::Luma,
            target: PassTexture::Feature(0),
            residual: None,
        },
    );
    let mut layer: usize = 0;
    while layer < MIDDLE_LAYER_COUNT
        invariant
            layer <= MIDDLE_LAYER_COUNT,
            passes@.len() == layer + 1,
            forall|pass: int|
                0 <= pass < layer + 1 ==> (#[trigger] passes@[pass]).runs(*offsets, pass),
        decreases MIDDLE_LAYER_COUNT - layer,
    {
        let last: bool = layer == MIDDLE_LAYER_COUNT - 1;
        let (source, target) = middle_textures(layer);
        passes.push(
            ConvPass {
                params: ConvParams {
                    weight_offset: offsets.mid_w[layer],
                    bias_offset: offsets.mid_b[layer],
                    relu: if last {
                        0
                    } else {
                        1
                    },
                    add_residual: if last {
                        1
                    } else {
                        0
                    },
                },
                source: PassTexture::Feature(source),
                target: PassTexture::Feature(target),
                residual: Some(PassTexture::Feature(0)),
            },
        );
        layer = layer + 1;
    }
    passes.push(
        ConvPass {
            params: ConvParams {
                weight_offset: offsets.conv6_w,
                bias_offset: offsets.conv6_b,
                relu: 0,
                add_residual: 0,
            },
            source: PassTexture::Feature(1),
            target: PassTexture::Output,
            residual: None,
        },
    );
    proof {
        assert forall|pass: int| 0 <= pass < 7 implies {
            let params = (#[trigger] passes@[pass]).params;
            let layer = pass_layer(*offsets, pass);
            params.weight_offset == layer[0] && params.bias_offset == layer[1] && params.relu
                == layer[2] && params.add_residual == layer[3]
        } by {
            lemma_arguments(passes@[pass], *offsets, pass);
        }
    }
    passes
}

/// A frame runs the network once: exactly one of its seven passes adds the
/// residual, which is what the first pass wrote. It is the last of the middle
/// ones, and it does not rectify; the four middle passes before it do, and no
/// other.
pub proof fn law_one_pass_adds_the_residual(passes: Seq<ConvPass>, offsets: LayerOffsets)
    requires
        passes.len() == 7,
        forall|pass: int| 0 <= pass < 7 ==> (#[trigger] passes[pass]).runs(offsets, pass),
    ensures
        passes.filter(|pass: ConvPass| pass.params.add_residual != 0) == seq![passes[5]],
        passes[5].params.add_residual == 1,
        passes[5].residual == Some(passes[0].target),
        passes.filter(|pass: ConvPass| pass.params.relu != 0) == seq![
            passes[1],
            passes[2],
            passes[3],
            passes[4],
        ],
        forall|pass: int| 1 <= pass < 5 ==> (#[trigger] passes[pass]).params.relu == 1,
{
    let residual = |pass: ConvPass| pass.params.add_residual != 0;
    let rectified = |pass: ConvPass| pass.params.relu != 0;
    lemma_filter_of_seven(passes, residual);
    lemma_filter_of_seven(passes, rectified);
    assert forall|pass: int| 0 <= pass < 7 implies {
        let params = (#[trigger] passes[pass]).params;
        let layer = pass_layer(offsets, pass);
        params.weight_offset == layer[0] && params.bias_offset == layer[1] && params.relu
            == layer[2] && params.add_residual == layer[3]
    } by {
        lemma_arguments(passes[pass], offsets, pass);
    }
    assert(passes.filter(residual) =~= seq![passes[5]]);
    assert(passes.filter(rectified) =~= seq![passes[1], passes[2], passes[3], passes[4]]);
}

/// The arguments of a pass one by one.
proof fn lemma_arguments(pass: ConvPass, offsets: LayerOffsets, k: int)
    requires
        pass.runs(offsets, k),
    ensures
        pass.params.weight_offset == pass_layer(offsets, k)[0],
        pass.params.bias_offset == pass_layer(offsets, k)[1],
        pass.params.relu == pass_layer(offsets, k)[2],
        pass.params.add_residual == pass_layer(offsets, k)[3],
{
    let arguments = seq![
        pass.params.weight_offset,
        pass.params.bias_offset,
        pass.params.relu,
        pass.params.add_residual,
    ];
    assert(arguments[0] == pass.params.weight_offset);
    assert(arguments[1] == pass.params.bias_offset);
    assert(arguments[2] == pass.params.relu);
    assert(arguments[3] == pass.params.add_residual);
}

/// The passes of a frame are a chain from the luma plane to the output: each
/// reads what the one before wrote and writes another texture, and the features
/// of the first pass are still there when they are added.
pub proof fn law_passes_lead_from_luma_to_output(passes: Seq<ConvPass>, offsets: LayerOffsets)
    requires
        passes.len() == 7,
        forall|pass: int| 0 <= pass < 7 ==> (#[trigger] passes[pass]).runs(offsets, pass),
    ensures
        passes[0].source == PassTexture::Luma,
        passes[6].target == PassTexture::Output,
        forall|pass: int|
            #![trigger passes[pass]]
            1 <= pass < 7 ==> passes[pass].source == passes[pass - 1].target,
        forall|pass: int|
            0 <= pass < 7 ==> (#[trigger] passes[pass]).source != passes[pass].target,
        forall|pass: int|
            1 <= pass < 7 ==> (#[trigger] passes[pass]).target != passes[0].target,
        forall|pass: int|
            0 <= pass < 6 ==> (#[trigger] passes[pass]).target is Feature,
        forall|pass: int|
            0 <= pass < 6 ==> (#[trigger] passes[pass]).target->Feature_0 < 3,
{
    assert forall|pass: int|
        #![trigger passes[pass]]
        1 <= pass < 7 implies passes[pass].source == passes[pass - 1].target by {
        assert(passes[pass - 1].runs(offsets, pass - 1));
    }
}

/// The passes of a frame go through the payload of the network from the front
/// to the back: the sections of each layer begin where those of the layer before
/// end.
pub proof fn law_passes_read_the_whole_payload(
    passes: Seq<ConvPass>,
    offsets: LayerOffsets,
    slices: int,
    pass: int,
)
    requires
        passes.len() == 7,
        forall|pass: int| 0 <= pass < 7 ==> (#[trigger] passes[pass]).runs(offsets, pass),
        offsets.of(slices),
        0 <= slices,
        0 <= pass < 6,
    ensures
        passes[0].params.weight_offset == 0,
        passes[pass].params.weight_offset + (if pass == 0 {
            first_weights(slices)
        } else {
            middle_weights(slices)
        }) == passes[pass].params.bias_offset,
        passes[pass].params.bias_offset + slices == passes[pass + 1].params.weight_offset,
        passes[6].params.weight_offset + last_weights(slices) == passes[6].params.bias_offset,
        passes[6].params.bias_offset + 1 == payload_len(slices),
{
    lemma_arguments(passes[0], offsets, 0);
    lemma_arguments(passes[pass], offsets, pass);
    lemma_arguments(passes[pass + 1], offsets, pass + 1);
    lemma_arguments(passes[6], offsets, 6);
    law_sections_tile_the_payload(
        offsets,
        slices,
        if pass == 0 {
            0
        } else {
            pass - 1
        },
    );
}

/// Threads along each side of a thread group.
pub const THREADGROUP_SIDE: usize = 16;

/// Thread groups that cover an image when each thread computes a block.
pub fn threadgroup_grid(width: usize, height: usize, block: (usize, usize)) -> (grid: (
    usize,
    usize,
))
    requires
        1 <= block.0 <= 4,
        1 <= block.1 <= 4,
    ensures
        grid.0 == ceil_div(width as int, 16 * block.0),
        grid.1 == ceil_div(height as int, 16 * block.1),
{
    (div_ceil(width, THREADGROUP_SIDE * block.0), div_ceil(height, THREADGROUP_SIDE * block.1))
}

fn div_ceil(a: usize, b: usize) -> (q: usize)
    requires
        1 < b,
    ensures
        q == ceil_div(a as int, b as int),
{
    let q: usize = a / b;
    let r: usize = a % b;
    proof {
        vstd::arithmetic::div_mod::lemma_fundamental_div_mod(a as int, b as int);
        let aa = a as int;
        let bb = b as int;
        let qq = q as int;
        assert(bb * qq == qq * bb) by (nonlinear_arith);
        assert((qq + 1) * bb == qq * bb + bb) by (nonlinear_arith);
        if r == 0 {
            vstd::arithmetic::div_mod::lemma_fundamental_div_mod_converse(
                aa + bb - 1,
                bb,
                qq,
                bb - 1,
            );
        } else {
            vstd::arithmetic::div_mod::lemma_fundamental_div_mod_converse(
                aa + bb - 1,
                bb,
                qq + 1,
                r - 1,
            );
            assert(q < usize::MAX) by (nonlinear_arith)
                requires
                    bb * qq + r == aa,
                    bb > 1,
                    r >= 0,
                    aa <= usize::MAX,
                    qq >= 0,
                    q == qq,
            ;
        }
    }
    if r == 0 {
        q
    } else {
        q + 1
    }
}

/// The grid covers the image, and no smaller one does.
pub proof fn law_grid_covers_the_image(len: int, block: int, groups: int)
    requires
        0 <= len,
        1 <= block,
        groups == ceil_div(len, 16 * block),
    ensures
        groups * (16 * block) >= len,
        len > 0 ==> (groups - 1) * (16 * block) < len,
{
    let b = 16 * block;
    vstd::arithmetic::div_mod::lemma_fundamental_div_mod(len + b - 1, b);
    vstd::arithmetic::div_mod::lemma_mod_bound(len + b - 1, b);
    assert(b * groups == groups * b) by (nonlinear_arith);
    assert((groups - 1) * b == groups * b - b) by (nonlinear_arith);
}

/// Bytes that the kernels and textures occupy, as far as the counter goes.
pub fn allocated_bytes(weights: u64, pool: Option<(u64, [u64; 3])>) -> (total: u64)
    ensures
        total == {
            let sum = weights + match pool {
                Some((output, features)) => output + features@[0] + features@[1] + features@[2],
                None => 0,
            };
            if sum <= u64::MAX {
                sum
            } else {
                u64::MAX as int
            }
        },
{
    let pool_bytes: u64 = match pool {
        Some((output, features)) => output.saturating_add(features[0]).saturating_add(
            features[1],
        ).saturating_add(features[2]),
        None => 0,
    };
    weights.saturating_add(pool_bytes)
}

} // verus!
