//! The conversion of a hardware buffer to an ordinary texture: how it samples,
//! where its memory lies, and what it does to the buffer's ownership.
use crate::android_frame::{AndroidAhbFrameDescription, AndroidAhbIntermediateFormat, FrameExtents};
use crate::color::{ColorRange, MatrixCoefficients};
use crate::text::{
    decimal, hexadecimal, push_decimal, push_hexadecimal, push_signed, signed_decimal,
};
use crate::vulkan::{
    barrier_numbers, contains_bits, device_local, format_features, has_bits, vulkan_formats,
    ycbcr_models, ycbcr_sampling,
};
use vstd::prelude::*;

verus! {

/// What Vulkan says of a hardware buffer, in its own numbers.
#[derive(Debug, Clone, Copy, PartialEq, Eq)]
pub struct AhbProperties {
    pub allocation_size: u64,
    pub memory_type_bits: u32,
    pub format: i32,
    pub external_format: u64,
    pub format_features: u32,
    /// Where red, green, blue and alpha are taken from.
    pub components: [i32; 4],
    pub suggested_model: i32,
    pub suggested_range: i32,
    pub suggested_x_chroma_offset: i32,
    pub suggested_y_chroma_offset: i32,
}

impl AhbProperties {
    /// The format to import the buffer with: none of Vulkan's own where the
    /// buffer has an external one.
    pub open spec fn imported(self) -> i32 {
        if self.external_format != 0 {
            0
        } else {
            self.format
        }
    }

    pub fn import_format(&self) -> (format: i32)
        ensures
            format == self.imported(),
    {
        if self.external_format != 0 {
            vulkan_formats().undefined
        } else {
            self.format
        }
    }
}

/// The device can place chroma samples like this.
pub open spec fn chroma_supported(location: i32, features: u32) -> bool {
    ||| location == 0 && has_bits(features, 0x80_0000)
    ||| location == 1 && has_bits(features, 0x2_0000)
}

pub open spec fn chroma_text(axis: Seq<char>, location: i32, features: u32) -> Seq<char> {
    "stage=validate_ahb_format reason=unsupported_chroma_offset axis="@ + axis + " location="@
        + signed_decimal(location as int) + " features=0x"@ + hexadecimal(features as nat)
}

/// Checks that the device can place chroma samples as the buffer has them.
pub fn validate_chroma_location(axis: &str, location: i32, features: u32) -> (result: Result<
    (),
    String,
>)
    ensures
        match result {
            Ok(()) => chroma_supported(location, features),
            Err(text) => !chroma_supported(location, features) && text@ == chroma_text(
                axis@,
                location,
                features,
            ),
        },
{
    let sampling = ycbcr_sampling();
    let supported: bool = if location == sampling.cosited_even {
        contains_bits(features, format_features().cosited_chroma)
    } else if location == sampling.midpoint {
        contains_bits(features, format_features().midpoint_chroma)
    } else {
        false
    };
    if supported {
        return Ok(());
    }
    let mut text: String =
        "stage=validate_ahb_format reason=unsupported_chroma_offset axis=".to_owned();
    text.append(axis);
    text.append(" location=");
    push_signed(&mut text, location);
    text.append(" features=0x");
    push_hexadecimal(&mut text, features as u64);
    Err(text)
}

/// The first thing that is wrong with a buffer's format, if anything is.
pub open spec fn format_fault(properties: AhbProperties) -> Option<Seq<char>> {
    if properties.allocation_size == 0 {
        Some("stage=validate_ahb_format reason=zero_allocation_size"@)
    } else if properties.memory_type_bits == 0 {
        Some("stage=validate_ahb_format reason=no_memory_types"@)
    } else if properties.external_format == 0 {
        Some(
            "stage=validate_ahb_format reason=missing_external_format vkFormat="@ + signed_decimal(
                properties.format as int,
            ),
        )
    } else if !has_bits(properties.format_features, 0x1) {
        Some(
            "stage=validate_ahb_format reason=not_sampleable features=0x"@ + hexadecimal(
                properties.format_features as nat,
            ),
        )
    } else if !chroma_supported(
        properties.suggested_x_chroma_offset,
        properties.format_features,
    ) {
        Some(
            chroma_text("x"@, properties.suggested_x_chroma_offset, properties.format_features),
        )
    } else if !chroma_supported(
        properties.suggested_y_chroma_offset,
        properties.format_features,
    ) {
        Some(
            chroma_text("y"@, properties.suggested_y_chroma_offset, properties.format_features),
        )
    } else {
        None
    }
}

/// Checks that a buffer can be imported and sampled.
pub fn validate_ahb_format(properties: &AhbProperties) -> (result: Result<(), String>)
    ensures
        match result {
            Ok(()) => format_fault(*properties) is None,
            Err(text) => format_fault(*properties) == Some(text@),
        },
{
    if properties.allocation_size == 0 {
        return Err("stage=validate_ahb_format reason=zero_allocation_size".to_owned());
    }
    if properties.memory_type_bits == 0 {
        return Err("stage=validate_ahb_format reason=no_memory_types".to_owned());
    }
    if properties.external_format == 0 {
        let mut text: String =
            "stage=validate_ahb_format reason=missing_external_format vkFormat=".to_owned();
        push_signed(&mut text, properties.format);
        return Err(text);
    }
    if !contains_bits(properties.format_features, format_features().sampled_image) {
        let mut text: String =
            "stage=validate_ahb_format reason=not_sampleable features=0x".to_owned();
        push_hexadecimal(&mut text, properties.format_features as u64);
        return Err(text);
    }
    match validate_chroma_location(
        "x",
        properties.suggested_x_chroma_offset,
        properties.format_features,
    ) {
        Ok(()) => {},
        Err(text) => {
            return Err(text);
        },
    }
    validate_chroma_location(
        "y",
        properties.suggested_y_chroma_offset,
        properties.format_features,
    )
}

/// How the buffer is sampled, in Vulkan's numbers.
#[derive(Debug, Clone, Copy, PartialEq, Eq, Structural)]
pub struct ConversionParameters {
    pub model: i32,
    pub range: i32,
    pub chroma_filter: i32,
}

/// The conversion model of a matrix; the buffer's own where none is specified.
pub open spec fn model_of(properties: AhbProperties, matrix: MatrixCoefficients) -> i32 {
    match matrix {
        MatrixCoefficients::Unspecified => properties.suggested_model,
        MatrixCoefficients::Identity => 0,
        MatrixCoefficients::Bt601 => 3,
        MatrixCoefficients::Bt709 => 2,
        MatrixCoefficients::Bt2020NonConstantLuminance => 4,
    }
}

/// The range number; the buffer's own where none is specified.
pub open spec fn range_of(properties: AhbProperties, range: ColorRange) -> i32 {
    match range {
        ColorRange::Unspecified => properties.suggested_range,
        ColorRange::Limited => 1,
        ColorRange::Full => 0,
    }
}

/// The filter that the device offers for chroma.
pub open spec fn filter_of(properties: AhbProperties) -> i32 {
    if has_bits(properties.format_features, 0x4_0000) {
        1
    } else {
        0
    }
}

/// The first thing that makes a conversion impossible, if anything does.
pub open spec fn parameters_fault(
    properties: AhbProperties,
    range: ColorRange,
    matrix: MatrixCoefficients,
) -> Option<Seq<char>> {
    let model = model_of(properties, matrix);
    let number = range_of(properties, range);
    if !(0 <= model <= 4) {
        Some(
            "stage=select_ahb_ycbcr_conversion reason=unsupported_model model="@ + signed_decimal(
                model as int,
            ),
        )
    } else if !(0 <= number <= 1) {
        Some(
            "stage=select_ahb_ycbcr_conversion reason=unsupported_range range="@ + signed_decimal(
                number as int,
            ),
        )
    } else {
        None
    }
}

/// Selects how the buffer is sampled.
pub fn conversion_parameters(
    properties: &AhbProperties,
    color_range: ColorRange,
    matrix_coefficients: MatrixCoefficients,
) -> (parameters: Result<ConversionParameters, String>)
    ensures
        match parameters {
            Ok(parameters) => {
                &&& parameters_fault(*properties, color_range, matrix_coefficients) is None
                &&& parameters == (ConversionParameters {
                    model: model_of(*properties, matrix_coefficients),
                    range: range_of(*properties, color_range),
                    chroma_filter: filter_of(*properties),
                })
            },
            Err(text) => parameters_fault(*properties, color_range, matrix_coefficients) == Some(
                text@,
            ),
        },
{
    let models = ycbcr_models();
    let sampling = ycbcr_sampling();
    let model: i32 = match matrix_coefficients {
        MatrixCoefficients::Unspecified => properties.suggested_model,
        MatrixCoefficients::Identity => models.rgb_identity,
        MatrixCoefficients::Bt601 => models.ycbcr_601,
        MatrixCoefficients::Bt709 => models.ycbcr_709,
        MatrixCoefficients::Bt2020NonConstantLuminance => models.ycbcr_2020,
    };
    if model != models.rgb_identity && model != models.ycbcr_identity && model != models.ycbcr_601
        && model != models.ycbcr_709 && model != models.ycbcr_2020 {
        let mut text: String =
            "stage=select_ahb_ycbcr_conversion reason=unsupported_model model=".to_owned();
        push_signed(&mut text, model);
        return Err(text);
    }
    let range: i32 = match color_range {
        ColorRange::Unspecified => properties.suggested_range,
        ColorRange::Limited => sampling.itu_narrow,
        ColorRange::Full => sampling.itu_full,
    };
    if range != sampling.itu_narrow && range != sampling.itu_full {
        let mut text: String =
            "stage=select_ahb_ycbcr_conversion reason=unsupported_range range=".to_owned();
        push_signed(&mut text, range);
        return Err(text);
    }
    let chroma_filter: i32 = if contains_bits(
        properties.format_features,
        format_features().linear_chroma,
    ) {
        sampling.linear
    } else {
        sampling.nearest
    };
    Ok(ConversionParameters { model, range, chroma_filter })
}

/// The buffer may use memory type `i`.
pub open spec fn compatible(memory_type_bits: u32, i: int) -> bool {
    memory_type_bits & (1u32 << (i as u32)) != 0
}

/// Memory types that are looked at.
pub open spec fn type_count(memory_type_count: u32) -> int {
    if memory_type_count < 32 {
        memory_type_count as int
    } else {
        32
    }
}

/// `i` is the first memory type that the buffer may use.
pub open spec fn first_compatible(memory_type_bits: u32, i: int) -> bool {
    &&& compatible(memory_type_bits, i)
    &&& forall|j: int| 0 <= j < i ==> !(#[trigger] compatible(memory_type_bits, j))
}

/// Memory type `i` lies on the device and the buffer may use it.
pub open spec fn local_type(flags: Seq<u32>, memory_type_bits: u32, i: int) -> bool {
    compatible(memory_type_bits, i) && has_bits(flags[i], 0x1)
}

fn find_type(flags: &[u32], count: u32, memory_type_bits: u32, wanted: u32) -> (found: Option<u32>)
    requires
        count <= 32,
        count <= flags@.len(),
    ensures
        match found {
            Some(i) => {
                &&& i < count
                &&& compatible(memory_type_bits, i as int) && has_bits(flags@[i as int], wanted)
                &&& forall|j: int|
                    0 <= j < i ==> !(#[trigger] compatible(memory_type_bits, j) && has_bits(
                        flags@[j],
                        wanted,
                    ))
            },
            None => forall|j: int|
                0 <= j < count ==> !(#[trigger] compatible(memory_type_bits, j) && has_bits(
                    flags@[j],
                    wanted,
                )),
        },
{
    let mut i: u32 = 0;
    while i < count
        invariant
            i <= count <= 32,
            count <= flags@.len(),
            forall|j: int|
                0 <= j < i ==> !(#[trigger] compatible(memory_type_bits, j) && has_bits(
                    flags@[j],
                    wanted,
                )),
        decreases count - i,
    {
        if memory_type_bits & (1u32 << i) != 0 && contains_bits(flags[i as usize], wanted) {
            return Some(i);
        }
        i = i + 1;
    }
    None
}

pub open spec fn memory_type_text(memory_type_bits: u32, count: int) -> Seq<char> {
    "stage=select_ahb_memory_type reason=no_compatible_type bits=0x"@ + hexadecimal(
        memory_type_bits as nat,
    ) + " count="@ + decimal(count as nat)
}

/// Chooses the memory type of an imported buffer: the first on the device that
/// the buffer may use, else the first that it may use at all.
pub fn choose_memory_type(flags: &[u32], memory_type_count: u32, memory_type_bits: u32) -> (
chosen: Result<u32, String>)
    requires
        type_count(memory_type_count) <= flags@.len(),
    ensures
        match chosen {
            Ok(i) => {
                &&& i < type_count(memory_type_count)
                &&& compatible(memory_type_bits, i as int)
                &&& local_type(flags@, memory_type_bits, i as int) ==> forall|j: int|
                    0 <= j < i ==> !(#[trigger] local_type(flags@, memory_type_bits, j))
                &&& !local_type(flags@, memory_type_bits, i as int) ==> {
                    &&& forall|j: int|
                        0 <= j < type_count(memory_type_count) ==> !(#[trigger] local_type(
                            flags@,
                            memory_type_bits,
                            j,
                        ))
                    &&& first_compatible(memory_type_bits, i as int)
                }
            },
            Err(text) => {
                &&& forall|j: int|
                    0 <= j < type_count(memory_type_count) ==> !(#[trigger] compatible(
                        memory_type_bits,
                        j,
                    ))
                &&& text@ == memory_type_text(memory_type_bits, type_count(memory_type_count))
            },
        },
{
    let count: u32 = if memory_type_count < 32 {
        memory_type_count
    } else {
        32
    };
    if let Some(i) = find_type(flags, count, memory_type_bits, device_local()) {
        proof {
            assert forall|j: int| 0 <= j < i implies !(#[trigger] local_type(
                flags@,
                memory_type_bits,
                j,
            )) by {
                assert(!(compatible(memory_type_bits, j) && has_bits(flags@[j], 0x1)));
            }
        }
        return Ok(i);
    }
    proof {
        assert forall|j: int| 0 <= j < count implies !(#[trigger] local_type(
            flags@,
            memory_type_bits,
            j,
        )) by {
            assert(!(compatible(memory_type_bits, j) && has_bits(flags@[j], 0x1)));
        }
        assert forall|f: u32| has_bits(f, 0) by {
            assert(f & 0 == 0) by (bit_vector);
        }
    }
    if let Some(i) = find_type(flags, count, memory_type_bits, 0) {
        proof {
            assert forall|j: int| 0 <= j < i implies !(#[trigger] compatible(
                memory_type_bits,
                j,
            )) by {
                assert(has_bits(flags@[j], 0));
            }
        }
        return Ok(i);
    }
    proof {
        assert forall|j: int| 0 <= j < count implies !(#[trigger] compatible(
            memory_type_bits,
            j,
        )) by {
            assert(has_bits(flags@[j], 0));
        }
    }
    let mut text: String =
        "stage=select_ahb_memory_type reason=no_compatible_type bits=0x".to_owned();
    push_hexadecimal(&mut text, memory_type_bits as u64);
    text.append(" count=");
    push_decimal(&mut text, count as u64);
    Err(text)
}

/// What two conversions must agree in to share their pipeline.
#[derive(Debug, Clone, Copy, PartialEq, Eq, Hash, Structural)]
pub struct ConversionCacheKey {
    pub format: i32,
    pub external_format: u64,
    pub component_r: i32,
    pub component_g: i32,
    pub component_b: i32,
    pub component_a: i32,
    pub model: i32,
    pub range: i32,
    pub x_chroma_offset: i32,
    pub y_chroma_offset: i32,
    pub chroma_filter: i32,
    pub output_format: i32,
}

impl ConversionCacheKey {
    /// The key of a conversion.
    pub open spec fn of(
        properties: AhbProperties,
        parameters: ConversionParameters,
        output_format: AndroidAhbIntermediateFormat,
    ) -> Self {
        ConversionCacheKey {
            format: properties.imported(),
            external_format: properties.external_format,
            component_r: properties.components@[0],
            component_g: properties.components@[1],
            component_b: properties.components@[2],
            component_a: properties.components@[3],
            model: parameters.model,
            range: parameters.range,
            x_chroma_offset: properties.suggested_x_chroma_offset,
            y_chroma_offset: properties.suggested_y_chroma_offset,
            chroma_filter: parameters.chroma_filter,
            output_format: output_format.vulkan_number(),
        }
    }

    pub fn new(
        properties: &AhbProperties,
        parameters: ConversionParameters,
        output_format: AndroidAhbIntermediateFormat,
    ) -> (key: Self)
        ensures
            key == ConversionCacheKey::of(*properties, parameters, output_format),
    {
        ConversionCacheKey {
            format: properties.import_format(),
            external_format: properties.external_format,
            component_r: properties.components[0],
            component_g: properties.components[1],
            component_b: properties.components[2],
            component_a: properties.components[3],
            model: parameters.model,
            range: parameters.range,
            x_chroma_offset: properties.suggested_x_chroma_offset,
            y_chroma_offset: properties.suggested_y_chroma_offset,
            chroma_filter: parameters.chroma_filter,
            output_format: output_format.vk(),
        }
    }
}

/// Conversions that share a key sample alike and write the same format.
pub proof fn law_equal_keys_share_a_pipeline(
    a: AhbProperties,
    pa: ConversionParameters,
    fa: AndroidAhbIntermediateFormat,
    b: AhbProperties,
    pb: ConversionParameters,
    fb: AndroidAhbIntermediateFormat,
)
    requires
        ConversionCacheKey::of(a, pa, fa) == ConversionCacheKey::of(b, pb, fb),
    ensures
        pa == pb,
        fa == fb,
        a.imported() == b.imported(),
        a.external_format == b.external_format,
        a.components@ == b.components@,
        a.suggested_x_chroma_offset == b.suggested_x_chroma_offset,
        a.suggested_y_chroma_offset == b.suggested_y_chroma_offset,
{
    assert(a.components@ =~= b.components@);
}

/// Everything that a conversion needs beside the buffer itself.
#[derive(Debug, Clone, Copy, PartialEq, Eq, Structural)]
pub struct ConversionPlan {
    pub parameters: ConversionParameters,
    pub key: ConversionCacheKey,
    pub import_format: i32,
    pub output_width: u32,
    pub output_height: u32,
}

/// The first thing that makes the conversion of an accepted frame impossible,
/// if anything does.
pub open spec fn plan_fault(
    frame: AndroidAhbFrameDescription,
    properties: AhbProperties,
) -> Option<Seq<char>> {
    if format_fault(properties) is Some {
        format_fault(properties)
    } else {
        parameters_fault(properties, frame.color_range, frame.matrix_coefficients)
    }
}

/// Plans the conversion of an accepted frame. Only where the device filters
/// linearly is the texture made smaller than the visible frame: picking single
/// samples of a larger picture looks worse than none at all.
pub fn plan_conversion(
    frame: &AndroidAhbFrameDescription,
    extents: FrameExtents,
    properties: &AhbProperties,
) -> (plan: Result<ConversionPlan, String>)
    ensures
        match plan {
            Ok(plan) => {
                let parameters = ConversionParameters {
                    model: model_of(*properties, frame.matrix_coefficients),
                    range: range_of(*properties, frame.color_range),
                    chroma_filter: filter_of(*properties),
                };
                &&& plan_fault(*frame, *properties) is None
                &&& plan.parameters == parameters
                &&& plan.key == ConversionCacheKey::of(*properties, parameters, frame.output_format)
                &&& plan.import_format == properties.imported()
                &&& (plan.output_width, plan.output_height) == if filter_of(*properties) == 1 {
                    (extents.output_width, extents.output_height)
                } else {
                    (extents.visible_width, extents.visible_height)
                }
            },
            Err(text) => plan_fault(*frame, *properties) == Some(text@),
        },
{
    match validate_ahb_format(properties) {
        Ok(()) => {},
        Err(text) => {
            return Err(text);
        },
    }
    let parameters = match conversion_parameters(
        properties,
        frame.color_range,
        frame.matrix_coefficients,
    ) {
        Ok(parameters) => parameters,
        Err(text) => {
            return Err(text);
        },
    };
    let (output_width, output_height) = if parameters.chroma_filter != ycbcr_sampling().linear {
        (extents.visible_width, extents.visible_height)
    } else {
        (extents.output_width, extents.output_height)
    };
    Ok(
        ConversionPlan {
            parameters,
            key: ConversionCacheKey::new(properties, parameters, frame.output_format),
            import_format: properties.import_format(),
            output_width,
            output_height,
        },
    )
}

/// A planned conversion never samples through an external format by a format of
/// Vulkan's own.
pub proof fn law_planned_imports_use_the_external_format(
    frame: AndroidAhbFrameDescription,
    properties: AhbProperties,
)
    requires
        plan_fault(frame, properties) is None,
    ensures
        properties.external_format != 0,
        properties.imported() == 0,
{
}

/// One change of an image's owner and layout, with the work that waits for it.
#[derive(Debug, Clone, Copy, PartialEq, Eq, Structural)]
pub struct ImageBarrier {
    pub src_stage: u32,
    pub dst_stage: u32,
    pub src_access: u32,
    pub dst_access: u32,
    pub old_layout: i32,
    pub new_layout: i32,
    pub src_family: u32,
    pub dst_family: u32,
}

/// One command of a conversion.
#[derive(Debug, Clone, Copy, PartialEq, Eq, Structural)]
pub enum ConversionCommand {
    Barrier(ImageBarrier),
    BeginRenderPass { width: u32, height: u32 },
    SetViewport { width: u32, height: u32 },
    SetScissor { width: u32, height: u32 },
    BindPipeline,
    BindDescriptorSet,
    PushCropTransform,
    Draw { vertices: u32 },
    EndRenderPass,
}

/// The buffer comes from its foreign owner to be read by fragment shaders.
pub open spec fn acquire(queue_family: u32) -> ImageBarrier {
    ImageBarrier {
        src_stage: 0x1,
        dst_stage: 0x80,
        src_access: 0,
        dst_access: 0x20,
        old_layout: 1,
        new_layout: 5,
        src_family: 0xffff_fffd,
        dst_family: queue_family,
    }
}

/// The buffer goes back to its foreign owner once it has been read.
pub open spec fn release(queue_family: u32) -> ImageBarrier {
    ImageBarrier {
        src_stage: 0x80,
        dst_stage: 0x2000,
        src_access: 0x20,
        dst_access: 0,
        old_layout: 5,
        new_layout: 1,
        src_family: queue_family,
        dst_family: 0xffff_fffd,
    }
}

/// The commands of a conversion, in order.
pub open spec fn recorded(queue_family: u32, width: u32, height: u32) -> Seq<ConversionCommand> {
    seq![
        ConversionCommand::Barrier(acquire(queue_family)),
        ConversionCommand::BeginRenderPass { width, height },
        ConversionCommand::SetViewport { width, height },
        ConversionCommand::SetScissor { width, height },
        ConversionCommand::BindPipeline,
        ConversionCommand::BindDescriptorSet,
        ConversionCommand::PushCropTransform,
        ConversionCommand::Draw { vertices: 3 },
        ConversionCommand::EndRenderPass,
        ConversionCommand::Barrier(release(queue_family)),
    ]
}

/// Lists the commands of a conversion on a queue family.
pub fn conversion_commands(queue_family: u32, width: u32, height: u32) -> (commands: Vec<
    ConversionCommand,
>)
    ensures
        commands@ == recorded(queue_family, width, height),
{
    let n = barrier_numbers();
    let mut commands: Vec<ConversionCommand> = Vec::new();
    commands.push(
        ConversionCommand::Barrier(
            ImageBarrier {
                src_stage: n.top_of_pipe,
                dst_stage: n.fragment_shader,
                src_access: 0,
                dst_access: n.shader_read,
                old_layout: n.general,
                new_layout: n.shader_read_only,
                src_family: n.foreign_family,
                dst_family: queue_family,
            },
        ),
    );
    commands.push(ConversionCommand::BeginRenderPass { width, height });
    commands.push(ConversionCommand::SetViewport { width, height });
    commands.push(ConversionCommand::SetScissor { width, height });
    commands.push(ConversionCommand::BindPipeline);
    commands.push(ConversionCommand::BindDescriptorSet);
    commands.push(ConversionCommand::PushCropTransform);
    commands.push(ConversionCommand::Draw { vertices: 3 });
    commands.push(ConversionCommand::EndRenderPass);
    commands.push(
        ConversionCommand::Barrier(
            ImageBarrier {
                src_stage: n.fragment_shader,
                dst_stage: n.bottom_of_pipe,
                src_access: n.shader_read,
                dst_access: 0,
                old_layout: n.shader_read_only,
                new_layout: n.general,
                src_family: queue_family,
                dst_family: n.foreign_family,
            },
        ),
    );
    proof {
        assert(commands@ =~= recorded(queue_family, width, height));
    }
    commands
}

/// The conversion leaves the buffer as it found it: the last command gives it
/// back to the owner that the first one took it from, in the layout it had.
pub proof fn law_release_undoes_acquire(queue_family: u32, width: u32, height: u32)
    ensures
        recorded(queue_family, width, height).first() == ConversionCommand::Barrier(
            acquire(queue_family),
        ),
        recorded(queue_family, width, height).last() == ConversionCommand::Barrier(
            release(queue_family),
        ),
        acquire(queue_family).src_family == release(queue_family).dst_family,
        acquire(queue_family).dst_family == release(queue_family).src_family,
        acquire(queue_family).old_layout == release(queue_family).new_layout,
        acquire(queue_family).new_layout == release(queue_family).old_layout,
{
}

} // verus!
