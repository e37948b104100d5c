//! ArtCNN weights: the serialized blob, its tensor layout and the token of the
//! frame that was last upscaled.
use crate::error::{renderer_error, PlayerError};
use crate::modes::{mode_name, LumaUpscalerMode};
use crate::text::{decimal, push_decimal};
use vstd::prelude::*;

verus! {

/// "ACNN", least significant byte first.
pub const BLOB_MAGIC: u32 = 0x4E4E_4341;

pub const BLOB_VERSION: u32 = 1;

pub const BLOB_HEADER_BYTES: usize = 16;

/// Features that one `half4` holds.
pub const FEATURE_SLICE_WIDTH: usize = 4;

/// Taps of a 3x3 convolution.
pub const CONVOLUTION_TAPS: usize = 9;

pub const MIDDLE_LAYER_COUNT: usize = 5;

pub const HALF4_BYTES: usize = 8;

/// Header stored at the start of every ArtCNN weights blob.
#[derive(Debug, Clone, Copy, PartialEq, Eq, Structural)]
pub struct ArtCnnBlobHeader {
    pub magic: u32,
    pub version: u32,
    pub feature_count: u32,
    pub reserved: u32,
}

/// The little-endian number in four bytes.
pub open spec fn le_u32(bytes: Seq<u8>, offset: int) -> u32 {
    (bytes[offset] + bytes[offset + 1] * 0x100 + bytes[offset + 2] * 0x1_0000 + bytes[offset + 3]
        * 0x100_0000) as u32
}

/// The four fields in the first sixteen bytes.
pub open spec fn header_fields(blob: Seq<u8>) -> ArtCnnBlobHeader {
    ArtCnnBlobHeader {
        magic: le_u32(blob, 0),
        version: le_u32(blob, 4),
        feature_count: le_u32(blob, 8),
        reserved: le_u32(blob, 12),
    }
}

/// The blob starts with a header that this library understands.
pub open spec fn header_accepted(blob: Seq<u8>) -> bool {
    &&& blob.len() >= BLOB_HEADER_BYTES
    &&& header_fields(blob).magic == BLOB_MAGIC
    &&& header_fields(blob).version == BLOB_VERSION
    &&& header_fields(blob).reserved == 0
}

pub open spec fn unexpected_header_text() -> Seq<char> {
    "ArtCNN weights blob has an unexpected header"@
}

pub open spec fn no_weights_text() -> Seq<char> {
    "upscaler mode has no weights"@
}

pub open spec fn feature_count_text(count: u32, mode: LumaUpscalerMode) -> Seq<char> {
    "ArtCNN weights blob feature count "@ + decimal(count as nat) + " does not match mode "@
        + mode_name(mode)
}

pub open spec fn payload_text(actual: nat, expected: nat) -> Seq<char> {
    "ArtCNN weights blob payload is "@ + decimal(actual) + " bytes, expected "@ + decimal(expected)
}

fn read_u32(blob: &[u8], offset: usize) -> (value: u32)
    requires
        offset + 4 <= blob@.len(),
    ensures
        value == le_u32(blob@, offset as int),
{
    blob[offset] as u32 + blob[offset + 1] as u32 * 0x100 + blob[offset + 2] as u32 * 0x1_0000
        + blob[offset + 3] as u32 * 0x100_0000
}

pub fn unexpected_header() -> (error: PlayerError)
    ensures
        error.says(unexpected_header_text()),
{
    renderer_error("ArtCNN weights blob has an unexpected header")
}

pub fn no_weights() -> (error: PlayerError)
    ensures
        error.says(no_weights_text()),
{
    renderer_error("upscaler mode has no weights")
}

impl ArtCnnBlobHeader {
    /// Reads the header of a blob.
    pub fn parse(blob: &[u8]) -> (header: Result<Self, PlayerError>)
        ensures
            match header {
                Ok(header) => header_accepted(blob@) && header == header_fields(blob@),
                Err(error) => !header_accepted(blob@) && error.says(unexpected_header_text()),
            },
    {
        if blob.len() < BLOB_HEADER_BYTES {
            return Err(unexpected_header());
        }
        let header = ArtCnnBlobHeader {
            magic: read_u32(blob, 0),
            version: read_u32(blob, 4),
            feature_count: read_u32(blob, 8),
            reserved: read_u32(blob, 12),
        };
        if header.magic != BLOB_MAGIC || header.version != BLOB_VERSION || header.reserved != 0 {
            return Err(unexpected_header());
        }
        Ok(header)
    }
}

/// Per-layer offsets into the weights payload, in `half4` units.
#[derive(Debug, Clone, Copy, PartialEq, Eq)]
pub struct LayerOffsets {
    pub conv0_w: u32,
    pub conv0_b: u32,
    pub mid_w: [u32; MIDDLE_LAYER_COUNT],
    pub mid_b: [u32; MIDDLE_LAYER_COUNT],
    pub conv6_w: u32,
    pub conv6_b: u32,
}

/// Weights of the first convolution: one luma input per output slice and tap.
pub open spec fn first_weights(slices: int) -> int {
    slices * 9
}

/// Weights of one middle convolution: every input feature of every tap for
/// every output slice.
pub open spec fn middle_weights(slices: int) -> int {
    slices * 9 * slices * 4
}

/// Weights of the last convolution, which yields one slice.
pub open spec fn last_weights(slices: int) -> int {
    9 * slices * 4
}

/// Where middle layer `layer` starts.
pub open spec fn middle_start(slices: int, layer: int) -> int {
    first_weights(slices) + slices + layer * (middle_weights(slices) + slices)
}

/// The length of the whole payload, in `half4` units.
pub open spec fn payload_len(slices: int) -> int {
    middle_start(slices, 5) + last_weights(slices) + 1
}

impl LayerOffsets {
    /// The offsets of a network with this many feature slices: each layer's
    /// weights, then its biases, the layers one after another.
    pub open spec fn of(self, slices: int) -> bool {
        &&& self.conv0_w == 0
        &&& self.conv0_b == first_weights(slices)
        &&& forall|layer: int|
            0 <= layer < MIDDLE_LAYER_COUNT ==> #[trigger] self.mid_w@[layer] == middle_start(
                slices,
                layer,
            )
        &&& forall|layer: int|
            0 <= layer < MIDDLE_LAYER_COUNT ==> #[trigger] self.mid_b@[layer] == middle_start(
                slices,
                layer,
            ) + middle_weights(slices)
        &&& self.conv6_w == middle_start(slices, 5)
        &&& self.conv6_b == middle_start(slices, 5) + last_weights(slices)
    }

    pub fn for_slices(slices: u32) -> (offsets: Self)
        requires
            payload_len(slices as int) <= u32::MAX,
        ensures
            offsets.of(slices as int),
    {
        proof {
            lemma_payload_bounds(slices as int);
        }
        let first: u32 = slices * 9;
        let middle: u32 = slices * 9 * slices * 4;
        let mut mid_w: [u32; MIDDLE_LAYER_COUNT] = [0u32, 0u32, 0u32, 0u32, 0u32];
        let mut mid_b: [u32; MIDDLE_LAYER_COUNT] = [0u32, 0u32, 0u32, 0u32, 0u32];
        let mut cursor: u32 = first + slices;
        let mut layer: usize = 0;
        while layer < MIDDLE_LAYER_COUNT
            invariant
                layer <= MIDDLE_LAYER_COUNT,
                middle == middle_weights(slices as int),
                cursor == middle_start(slices as int, layer as int),
                payload_len(slices as int) <= u32::MAX,
                forall|k: int|
                    0 <= k < layer ==> #[trigger] mid_w@[k] == middle_start(slices as int, k),
                forall|k: int|
                    0 <= k < layer ==> #[trigger] mid_b@[k] == middle_start(slices as int, k)
                        + middle,
            decreases MIDDLE_LAYER_COUNT - layer,
        {
            proof {
                lemma_payload_bounds(slices as int);
                lemma_middle_steps(slices as int, layer as int);
            }
            mid_w[layer] = cursor;
            mid_b[layer] = cursor + middle;
            cursor = cursor + middle + slices;
            layer = layer + 1;
        }
        let conv6_w: u32 = cursor;
        proof {
            lemma_payload_bounds(slices as int);
        }
        LayerOffsets {
            conv0_w: 0,
            conv0_b: first,
            mid_w,
            mid_b,
            conv6_w,
            conv6_b: conv6_w + 9 * slices * 4,
        }
    }

    /// The length of the payload of a network with this many slices.
    pub fn total_half4(slices: u32) -> (len: usize)
        requires
            payload_len(slices as int) <= usize::MAX,
        ensures
            len == payload_len(slices as int),
    {
        proof {
            lemma_payload_bounds(slices as int);
            lemma_middle_steps(slices as int, 0);
            let s = slices as int;
            assert(5 * (middle_weights(s) + s) <= usize::MAX);
        }
        let slices: usize = slices as usize;
        slices * CONVOLUTION_TAPS + slices + MIDDLE_LAYER_COUNT * (slices * CONVOLUTION_TAPS * slices
            * FEATURE_SLICE_WIDTH + slices) + CONVOLUTION_TAPS * slices * FEATURE_SLICE_WIDTH + 1
    }
}

pub proof fn lemma_payload_bounds(slices: int)
    requires
        0 <= slices,
    ensures
        0 <= first_weights(slices) <= payload_len(slices),
        0 <= slices * 9 * slices,
        slices * 9 * slices <= middle_weights(slices) <= payload_len(slices),
        middle_start(slices, 5) == first_weights(slices) + slices + 5 * (middle_weights(slices)
            + slices),
        first_weights(slices) + slices <= middle_start(slices, 5) < payload_len(slices),
        0 <= 9 * slices <= last_weights(slices) < payload_len(slices),
{
    assert(0 <= slices * 9 * slices) by (nonlinear_arith)
        requires
            0 <= slices,
    ;
}

proof fn lemma_middle_steps(slices: int, layer: int)
    requires
        0 <= slices,
        0 <= layer < 5,
    ensures
        middle_start(slices, layer + 1) == middle_start(slices, layer) + middle_weights(slices)
            + slices,
        middle_start(slices, layer) <= middle_start(slices, layer + 1) <= middle_start(slices, 5),
{
    let each = middle_weights(slices) + slices;
    lemma_payload_bounds(slices);
    assert((layer + 1) * each == layer * each + each) by (nonlinear_arith);
    assert((layer + 1) * each <= 5 * each) by (nonlinear_arith)
        requires
            layer + 1 <= 5,
            0 <= each,
    ;
}

/// The layers' sections follow one another without a gap or an overlap, and
/// the last bias ends the payload.
pub proof fn law_sections_tile_the_payload(offsets: LayerOffsets, slices: int, layer: int)
    requires
        offsets.of(slices),
        0 <= slices,
        0 <= layer < MIDDLE_LAYER_COUNT,
    ensures
        offsets.conv0_w + first_weights(slices) == offsets.conv0_b,
        offsets.conv0_b + slices == offsets.mid_w@[0],
        offsets.mid_w@[layer] + middle_weights(slices) == offsets.mid_b@[layer],
        layer + 1 < MIDDLE_LAYER_COUNT ==> offsets.mid_b@[layer] + slices == offsets.mid_w@[layer
            + 1],
        offsets.mid_b@[4] + slices == offsets.conv6_w,
        offsets.conv6_w + last_weights(slices) == offsets.conv6_b,
        offsets.conv6_b + 1 == payload_len(slices),
{
    lemma_middle_steps(slices, layer);
    lemma_middle_steps(slices, 4);
}

/// The tensor layout that one weights blob represents.
#[derive(Debug, Clone, Copy, PartialEq, Eq)]
pub struct ArtCnnModelLayout {
    pub feature_count: usize,
    pub feature_slices: u32,
    pub layer_offsets: LayerOffsets,
    pub payload_half4: usize,
}

/// Features of the network that a mode runs.
pub open spec fn mode_features(mode: LumaUpscalerMode) -> int {
    match mode {
        LumaUpscalerMode::Off => 0,
        LumaUpscalerMode::ArtCnnC4F16 => 16,
        LumaUpscalerMode::ArtCnnC4F16Ds => 16,
        LumaUpscalerMode::ArtCnnC4F32 => 32,
    }
}

/// Slices of the network that a mode runs.
pub open spec fn mode_slices(mode: LumaUpscalerMode) -> int {
    mode_features(mode) / 4
}

impl ArtCnnModelLayout {
    /// The layout is the one of the mode.
    pub open spec fn of_mode(self, mode: LumaUpscalerMode) -> bool {
        &&& self.feature_count == mode_features(mode)
        &&& self.feature_slices == mode_slices(mode)
        &&& self.layer_offsets.of(mode_slices(mode))
        &&& self.payload_half4 == payload_len(mode_slices(mode))
    }

    pub fn for_mode(mode: LumaUpscalerMode) -> (layout: Option<Self>)
        ensures
            layout is None <==> mode == LumaUpscalerMode::Off,
            layout matches Some(layout) ==> layout.of_mode(mode),
    {
        let feature_count: usize = match mode {
            LumaUpscalerMode::Off => {
                return None;
            },
            LumaUpscalerMode::ArtCnnC4F16 => 16,
            LumaUpscalerMode::ArtCnnC4F16Ds => 16,
            LumaUpscalerMode::ArtCnnC4F32 => 32,
        };
        let feature_slices: u32 = (feature_count / FEATURE_SLICE_WIDTH) as u32;
        proof {
            assert(payload_len(4) == 3085);
            assert(payload_len(8) == 11929);
        }
        Some(
            ArtCnnModelLayout {
                feature_count,
                feature_slices,
                layer_offsets: LayerOffsets::for_slices(feature_slices),
                payload_half4: LayerOffsets::total_half4(feature_slices),
            },
        )
    }

    /// The payload's length in bytes.
    pub fn payload_bytes(self) -> (bytes: usize)
        requires
            self.payload_half4 * HALF4_BYTES <= usize::MAX,
        ensures
            bytes == self.payload_half4 * HALF4_BYTES,
    {
        self.payload_half4 * HALF4_BYTES
    }
}

/// A validated view of one weights blob.
#[derive(Debug, Clone, Copy, PartialEq, Eq)]
pub struct ArtCnnModel<'a> {
    pub mode: LumaUpscalerMode,
    pub header: ArtCnnBlobHeader,
    pub layout: ArtCnnModelLayout,
    pub payload: &'a [u8],
}

/// Bytes of payload that a mode's network needs.
pub open spec fn mode_payload_bytes(mode: LumaUpscalerMode) -> int {
    payload_len(mode_slices(mode)) * 8
}

/// The blob is a model of the mode.
pub open spec fn blob_fits(mode: LumaUpscalerMode, blob: Seq<u8>) -> bool {
    &&& mode != LumaUpscalerMode::Off
    &&& header_accepted(blob)
    &&& header_fields(blob).feature_count == mode_features(mode)
    &&& blob.len() == BLOB_HEADER_BYTES + mode_payload_bytes(mode)
}

/// What parsing a blob for a mode gives: the model, or the first thing that is
/// wrong.
pub open spec fn parse_outcome(
    mode: LumaUpscalerMode,
    blob: Seq<u8>,
    model: Result<ArtCnnModel<'_>, PlayerError>,
) -> bool {
    match model {
        Ok(model) => {
            &&& blob_fits(mode, blob)
            &&& model.mode == mode
            &&& model.header == header_fields(blob)
            &&& model.layout.of_mode(mode)
            &&& model.payload@ == blob.skip(BLOB_HEADER_BYTES as int)
        },
        Err(error) => {
            &&& !blob_fits(mode, blob)
            &&& if mode == LumaUpscalerMode::Off {
                error.says(no_weights_text())
            } else if !header_accepted(blob) {
                error.says(unexpected_header_text())
            } else if header_fields(blob).feature_count != mode_features(mode) {
                error.says(feature_count_text(header_fields(blob).feature_count, mode))
            } else {
                error.says(
                    payload_text(
                        (blob.len() - BLOB_HEADER_BYTES) as nat,
                        mode_payload_bytes(mode) as nat,
                    ),
                )
            }
        },
    }
}

/// Parses a blob against the layout of `mode`.
pub fn parse_model_blob<'a>(mode: LumaUpscalerMode, blob: &'a [u8]) -> (model: Result<
    ArtCnnModel<'a>,
    PlayerError,
>)
    ensures
        parse_outcome(mode, blob@, model),
{
    let layout = match ArtCnnModelLayout::for_mode(mode) {
        Some(layout) => layout,
        None => {
            return Err(no_weights());
        },
    };
    let header = match ArtCnnBlobHeader::parse(blob) {
        Ok(header) => header,
        Err(error) => {
            return Err(error);
        },
    };
    if header.feature_count as usize != layout.feature_count {
        let mut text: String = "ArtCNN weights blob feature count ".to_owned();
        push_decimal(&mut text, header.feature_count as u64);
        text.append(" does not match mode ");
        text.append(mode.name());
        return Err(PlayerError::Renderer(text));
    }
    proof {
        assert(payload_len(4) == 3085);
        assert(payload_len(8) == 11929);
    }
    let payload: &[u8] = vstd::slice::slice_subrange(blob, BLOB_HEADER_BYTES, blob.len());
    let expected_bytes: usize = layout.payload_bytes();
    if payload.len() != expected_bytes {
        let mut text: String = "ArtCNN weights blob payload is ".to_owned();
        push_decimal(&mut text, payload.len() as u64);
        text.append(" bytes, expected ");
        push_decimal(&mut text, expected_bytes as u64);
        return Err(PlayerError::Renderer(text));
    }
    proof {
        assert(payload@ =~= blob@.skip(BLOB_HEADER_BYTES as int));
    }
    Ok(ArtCnnModel { mode, header, layout, payload })
}

/// The weights blobs that an application carries, one for each network.
#[derive(Debug, Clone, Copy)]
pub struct EmbeddedModels<'a> {
    pub c4f16: &'a [u8],
    pub c4f16_ds: &'a [u8],
    pub c4f32: &'a [u8],
}

impl<'a> EmbeddedModels<'a> {
    /// The blob of a mode's network; none where no network runs.
    pub open spec fn blob(self, mode: LumaUpscalerMode) -> Seq<u8> {
        match mode {
            LumaUpscalerMode::Off => seq![],
            LumaUpscalerMode::ArtCnnC4F16 => self.c4f16@,
            LumaUpscalerMode::ArtCnnC4F16Ds => self.c4f16_ds@,
            LumaUpscalerMode::ArtCnnC4F32 => self.c4f32@,
        }
    }
}

/// Selects and validates the embedded model for `mode`.
pub fn model_for_mode<'a>(mode: LumaUpscalerMode, models: EmbeddedModels<'a>) -> (model: Result<
    ArtCnnModel<'a>,
    PlayerError,
>)
    ensures
        parse_outcome(mode, models.blob(mode), model),
{
    let blob: &'a [u8] = match mode {
        LumaUpscalerMode::Off => {
            return Err(no_weights());
        },
        LumaUpscalerMode::ArtCnnC4F16 => models.c4f16,
        LumaUpscalerMode::ArtCnnC4F16Ds => models.c4f16_ds,
        LumaUpscalerMode::ArtCnnC4F32 => models.c4f32,
    };
    parse_model_blob(mode, blob)
}

/// The bytes of a number are its digits.
proof fn lemma_number_has_one_spelling(a: Seq<u8>, b: Seq<u8>, offset: int)
    requires
        le_u32(a, offset) == le_u32(b, offset),
    ensures
        forall|k: int| offset <= k < offset + 4 ==> a[k] == b[k],
{
    assert(a[offset] == b[offset]);
    assert(a[offset + 1] == b[offset + 1]);
    assert(a[offset + 2] == b[offset + 2]);
    assert(a[offset + 3] == b[offset + 3]);
}

/// The two narrow networks have one shape and each its own weights: the payload
/// of a mode is that of the mode's own blob, and the payloads differ exactly
/// where the blobs do.
pub proof fn law_each_mode_has_its_own_weights(
    models: EmbeddedModels<'_>,
    a: ArtCnnModel<'_>,
    b: ArtCnnModel<'_>,
)
    requires
        parse_outcome(
            LumaUpscalerMode::ArtCnnC4F16,
            models.blob(LumaUpscalerMode::ArtCnnC4F16),
            Ok(a),
        ),
        parse_outcome(
            LumaUpscalerMode::ArtCnnC4F16Ds,
            models.blob(LumaUpscalerMode::ArtCnnC4F16Ds),
            Ok(b),
        ),
    ensures
        a.mode == LumaUpscalerMode::ArtCnnC4F16,
        b.mode == LumaUpscalerMode::ArtCnnC4F16Ds,
        a.header.feature_count == 16,
        b.header == a.header,
        b.layout == a.layout,
        a.payload@.len() == 24_680,
        b.payload@.len() == 24_680,
        a.payload@ == b.payload@ <==> models.c4f16@ == models.c4f16_ds@,
{
    let x = models.c4f16@;
    let y = models.c4f16_ds@;
    assert(payload_len(4) == 3085);
    assert(a.layout.layer_offsets.mid_w@ =~= b.layout.layer_offsets.mid_w@);
    assert(a.layout.layer_offsets.mid_b@ =~= b.layout.layer_offsets.mid_b@);
    assert(a.layout.layer_offsets.mid_w =~= b.layout.layer_offsets.mid_w);
    assert(a.layout.layer_offsets.mid_b =~= b.layout.layer_offsets.mid_b);
    if a.payload@ == b.payload@ {
        lemma_number_has_one_spelling(x, y, 0);
        lemma_number_has_one_spelling(x, y, 4);
        lemma_number_has_one_spelling(x, y, 8);
        lemma_number_has_one_spelling(x, y, 12);
        assert forall|k: int| 0 <= k < x.len() implies x[k] == y[k] by {
            if k >= BLOB_HEADER_BYTES {
                assert(x.skip(BLOB_HEADER_BYTES as int)[k - BLOB_HEADER_BYTES] == x[k]);
                assert(y.skip(BLOB_HEADER_BYTES as int)[k - BLOB_HEADER_BYTES] == y[k]);
            }
        }
        assert(x =~= y);
    }
}

/// Tracks whether an upscaled output already belongs to a decoded frame.
///
/// `None` never caches: callers without a stable token recompute every time.
#[derive(Debug, Clone, Copy, PartialEq, Eq)]
pub struct FrameTokenCache {
    cached_token: Option<u64>,
}

impl Default for FrameTokenCache {
    fn default() -> (cache: Self)
        ensures
            cache.token() is None,
    {
        FrameTokenCache { cached_token: None }
    }
}

impl FrameTokenCache {
    /// The token of the frame whose output is kept.
    pub closed spec fn token(self) -> Option<u64> {
        self.cached_token
    }

    /// Returns `true` when the existing output belongs to `frame_token`.
    pub fn matches(&self, frame_token: Option<u64>) -> (matching: bool)
        ensures
            matching == (frame_token is Some && frame_token == self.token()),
    {
        match (frame_token, self.cached_token) {
            (Some(frame), Some(cached)) => frame == cached,
            _ => false,
        }
    }

    /// Associates a successfully encoded output with `frame_token`.
    pub fn commit(&mut self, frame_token: Option<u64>)
        ensures
            final(self).token() == frame_token,
    {
        self.cached_token = frame_token;
    }

    pub fn invalidate(&mut self)
        ensures
            final(self).token() is None,
    {
        self.cached_token = None;
    }
}

/// A cache is nothing but its token: caches with equal tokens are equal, so that
/// one that was invalidated is as good as new.
pub proof fn law_a_cache_is_its_token(a: FrameTokenCache, b: FrameTokenCache)
    requires
        a.token() == b.token(),
    ensures
        a == b,
{
}

} // verus!
