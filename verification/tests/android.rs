//! Frames in Android hardware buffers, and the Vulkan device that samples them.

use erika::android_convert::{
    choose_memory_type, conversion_commands, conversion_parameters, plan_conversion,
    validate_ahb_format, validate_chroma_location, AhbProperties, ConversionCacheKey,
    ConversionCommand,
};
use erika::android_device::{
    android_custom_vulkan_instance_flags, check_device, check_device_extensions, check_instance_extensions,
    choose_adapter, extra_instance_extensions, next_descriptor_budget, required_device_extensions,
    supports_intermediate, ycbcr_descriptor_budget_policy, AdapterKind, AndroidAhbConversionError,
    DescriptorBudget, DescriptorStep, PendingConversionReservation, PendingConversions,
    MAX_PENDING_AHB_CONVERSIONS,
};
use erika::android_frame::{
    crop_transform, validate_frame_description, AndroidAhbCrop, AndroidAhbFrameDescription,
    AndroidAhbIntermediateFormat, FrameExtents, HardwareBufferDescription,
};
use erika::color::{ColorRange, MatrixCoefficients};
use ash::vk;

const API_1_0: u32 = vk::API_VERSION_1_0;
const API_1_1: u32 = vk::API_VERSION_1_1;

fn frame() -> AndroidAhbFrameDescription {
    AndroidAhbFrameDescription {
        buffer_width: 1920,
        buffer_height: 1088,
        crop: AndroidAhbCrop {
            left: 0,
            top: 0,
            right: 1920,
            bottom: 1080,
        },
        output_width: 960,
        output_height: 540,
        color_range: ColorRange::Limited,
        matrix_coefficients: MatrixCoefficients::Bt709,
        output_format: AndroidAhbIntermediateFormat::Rgb10a2Unorm,
    }
}

fn buffer() -> HardwareBufferDescription {
    HardwareBufferDescription {
        width: 1920,
        height: 1088,
        layers: 1,
        usage: 0x100,
    }
}

fn properties() -> AhbProperties {
    AhbProperties {
        allocation_size: 4096,
        memory_type_bits: 0b110,
        format: vk::Format::UNDEFINED.as_raw(),
        external_format: 77,
        format_features: (vk::FormatFeatureFlags::SAMPLED_IMAGE
            | vk::FormatFeatureFlags::MIDPOINT_CHROMA_SAMPLES
            | vk::FormatFeatureFlags::COSITED_CHROMA_SAMPLES
            | vk::FormatFeatureFlags::SAMPLED_IMAGE_YCBCR_CONVERSION_LINEAR_FILTER)
            .as_raw(),
        components: [0; 4],
        suggested_model: vk::SamplerYcbcrModelConversion::YCBCR_601.as_raw(),
        suggested_range: vk::SamplerYcbcrRange::ITU_FULL.as_raw(),
        suggested_x_chroma_offset: vk::ChromaLocation::COSITED_EVEN.as_raw(),
        suggested_y_chroma_offset: vk::ChromaLocation::MIDPOINT.as_raw(),
    }
}

#[test]
fn intermediate_formats_have_vulkan_layouts() {
    assert_eq!(
        AndroidAhbIntermediateFormat::Rgb10a2Unorm.vk(),
        vk::Format::A2B10G10R10_UNORM_PACK32.as_raw()
    );
    assert_eq!(
        AndroidAhbIntermediateFormat::Rgba16Float.vk(),
        vk::Format::R16G16B16A16_SFLOAT.as_raw()
    );
    assert_eq!(AndroidAhbIntermediateFormat::Rgb10a2Unorm.bytes_per_pixel(), 4);
    assert_eq!(AndroidAhbIntermediateFormat::Rgba16Float.bytes_per_pixel(), 8);
    assert_eq!(
        AndroidAhbIntermediateFormat::Rgba16Float.diagnostic_name(),
        "rgba16float"
    );
}

#[test]
fn custom_vulkan_instance_disables_debug_utils_but_keeps_validation() {
    let requested = wgpu::InstanceFlags::DEBUG
        | wgpu::InstanceFlags::VALIDATION
        | wgpu::InstanceFlags::VALIDATION_INDIRECT_CALL
        | wgpu::InstanceFlags::ALLOW_UNDERLYING_NONCOMPLIANT_ADAPTER;

    let actual = wgpu::InstanceFlags::from_bits_retain(android_custom_vulkan_instance_flags(
        requested.bits(),
    ));

    assert!(!actual.contains(wgpu::InstanceFlags::DEBUG));
    assert!(actual.contains(wgpu::InstanceFlags::DISCARD_HAL_LABELS));
    assert!(actual.contains(wgpu::InstanceFlags::VALIDATION));
    assert!(actual.contains(wgpu::InstanceFlags::VALIDATION_INDIRECT_CALL));
    assert!(actual.contains(wgpu::InstanceFlags::ALLOW_UNDERLYING_NONCOMPLIANT_ADAPTER));
}

#[test]
fn descriptor_budget_growth_is_bounded_and_reaches_non_power_of_two_limit() {
    assert_eq!(next_descriptor_budget(1, 7), 2);
    assert_eq!(next_descriptor_budget(2, 7), 4);
    assert_eq!(next_descriptor_budget(4, 7), 7);
    assert_eq!(next_descriptor_budget(7, 7), 7);
}

#[test]
fn budgets_grow_while_the_pool_is_too_small() {
    let out_of_pool = vk::Result::ERROR_OUT_OF_POOL_MEMORY.as_raw();
    let mut search = DescriptorBudget::start(0, 3);
    assert_eq!(search.budget, 1);
    assert_eq!(search.allocated(Some(out_of_pool)), DescriptorStep::Retry);
    assert_eq!(search.allocated(Some(out_of_pool)), DescriptorStep::Retry);
    assert_eq!(search.budget, 3);
    assert_eq!(search.allocated(Some(out_of_pool)), DescriptorStep::Fail);
    assert_eq!(search.allocated(None), DescriptorStep::Done);
    let mut other = DescriptorBudget::start(9, 4);
    assert_eq!(other.budget, 4);
    let lost = vk::Result::ERROR_DEVICE_LOST.as_raw();
    assert_eq!(other.allocated(Some(lost)), DescriptorStep::Fail);
}

#[test]
fn the_largest_budget_that_served_is_remembered() {
    let out_of_pool = vk::Result::ERROR_OUT_OF_POOL_MEMORY.as_raw();
    let mut search = DescriptorBudget::start(2, 8);
    assert_eq!(search.remembered(2), 2);
    assert_eq!(search.allocated(Some(out_of_pool)), DescriptorStep::Retry);
    assert_eq!(search.allocated(None), DescriptorStep::Done);
    assert_eq!(search.remembered(2), 4);
    assert_eq!(search.remembered(4), 4);
    assert_eq!(search.remembered(6), 6);
}

#[test]
fn the_budget_limit_comes_from_the_device() {
    let reported = ycbcr_descriptor_budget_policy(Some(3), [9, 9, 9, 9]);
    assert_eq!((reported.limit, reported.source), (3, "VK_KHR_maintenance6"));
    let invalid = ycbcr_descriptor_budget_policy(Some(0), [9, 8, 7, 6]);
    assert_eq!((invalid.limit, invalid.source), (6, "descriptor layout limits"));
    assert_eq!(ycbcr_descriptor_budget_policy(None, [0, 8, 7, 6]).limit, 1);
}

#[test]
fn frames_are_checked_against_their_buffers() {
    assert_eq!(
        validate_frame_description(&frame(), &buffer(), 4096),
        Ok(FrameExtents {
            visible_width: 1920,
            visible_height: 1080,
            output_width: 960,
            output_height: 540,
        })
    );
    let refuse = |frame: AndroidAhbFrameDescription, buffer: HardwareBufferDescription, max: u32| {
        validate_frame_description(&frame, &buffer, max).unwrap_err()
    };
    let mut changed = frame();
    changed.buffer_width = 0;
    assert_eq!(
        refuse(changed, buffer(), 4096),
        "stage=validate_ahb_frame reason=zero_buffer_extent width=0 height=1088"
    );
    let mut other = buffer();
    other.width = 64;
    assert_eq!(
        refuse(frame(), other, 4096),
        "stage=validate_ahb_frame reason=descriptor_extent_mismatch expected=1920x1088 actual=64x1088"
    );
    let mut other = buffer();
    other.layers = 2;
    assert_eq!(
        refuse(frame(), other, 4096),
        "stage=validate_ahb_frame reason=unsupported_layer_count layers=2"
    );
    let mut other = buffer();
    other.usage = 0x4100;
    assert_eq!(
        refuse(frame(), other, 4096),
        "stage=validate_ahb_frame reason=protected_content_not_supported"
    );
    let mut other = buffer();
    other.usage = 0x33;
    assert_eq!(
        refuse(frame(), other, 4096),
        "stage=validate_ahb_frame reason=missing_gpu_sampled_usage usage=0x33"
    );
    let mut changed = frame();
    changed.crop.right = 1921;
    assert_eq!(
        refuse(changed, buffer(), 4096),
        "stage=validate_ahb_frame reason=invalid_crop crop=0,0,1921,1080 buffer=1920x1088"
    );
    let mut changed = frame();
    changed.output_height = 0;
    assert_eq!(
        refuse(changed, buffer(), 4096),
        "stage=validate_ahb_frame reason=zero_output_extent width=960 height=0"
    );
    let mut changed = frame();
    changed.output_width = 1921;
    assert_eq!(
        refuse(changed, buffer(), 4096),
        "stage=validate_ahb_frame reason=output_extent_upscales_source output=1921x540 visible=1920x1080"
    );
    assert_eq!(
        refuse(frame(), buffer(), 512),
        "stage=validate_ahb_frame reason=output_extent_exceeds_device_limit output=960x540 max=512"
    );
}

#[test]
fn crops_are_fractions_of_the_buffer() {
    let mut cropped = frame();
    cropped.buffer_width = 64;
    cropped.buffer_height = 32;
    cropped.crop = AndroidAhbCrop {
        left: 16,
        top: 8,
        right: 48,
        bottom: 12,
    };
    let transform = crop_transform(&cropped).map(|part| f32::from_bits(part.to_bits()));
    assert_eq!(transform, [0.25, 0.25, 0.5, 0.125]);
}

#[test]
fn formats_are_checked_before_they_are_sampled() {
    assert_eq!(validate_ahb_format(&properties()), Ok(()));
    let mut changed = properties();
    changed.allocation_size = 0;
    assert_eq!(
        validate_ahb_format(&changed).unwrap_err(),
        "stage=validate_ahb_format reason=zero_allocation_size"
    );
    let mut changed = properties();
    changed.memory_type_bits = 0;
    assert_eq!(
        validate_ahb_format(&changed).unwrap_err(),
        "stage=validate_ahb_format reason=no_memory_types"
    );
    let mut changed = properties();
    changed.external_format = 0;
    changed.format = 37;
    assert_eq!(
        validate_ahb_format(&changed).unwrap_err(),
        "stage=validate_ahb_format reason=missing_external_format vkFormat=37"
    );
    let mut changed = properties();
    changed.format_features = 0x20000;
    assert_eq!(
        validate_ahb_format(&changed).unwrap_err(),
        "stage=validate_ahb_format reason=not_sampleable features=0x20000"
    );
    let mut changed = properties();
    changed.format_features = 0x20001;
    assert_eq!(
        validate_ahb_format(&changed).unwrap_err(),
        "stage=validate_ahb_format reason=unsupported_chroma_offset axis=x location=0 features=0x20001"
    );
    assert_eq!(
        validate_chroma_location("y", -2, 0xffff_ffff).unwrap_err(),
        "stage=validate_ahb_format reason=unsupported_chroma_offset axis=y location=-2 features=0xffffffff"
    );
}

#[test]
fn conversions_follow_the_stream_before_the_buffer() {
    let parameters =
        conversion_parameters(&properties(), ColorRange::Limited, MatrixCoefficients::Bt709)
            .unwrap();
    assert_eq!(
        parameters.model,
        vk::SamplerYcbcrModelConversion::YCBCR_709.as_raw()
    );
    assert_eq!(parameters.range, vk::SamplerYcbcrRange::ITU_NARROW.as_raw());
    assert_eq!(parameters.chroma_filter, vk::Filter::LINEAR.as_raw());
    let own = conversion_parameters(
        &properties(),
        ColorRange::Unspecified,
        MatrixCoefficients::Unspecified,
    )
    .unwrap();
    assert_eq!(own.model, vk::SamplerYcbcrModelConversion::YCBCR_601.as_raw());
    assert_eq!(own.range, vk::SamplerYcbcrRange::ITU_FULL.as_raw());
    let mut strange = properties();
    strange.suggested_model = 9;
    assert_eq!(
        conversion_parameters(&strange, ColorRange::Full, MatrixCoefficients::Unspecified)
            .unwrap_err(),
        "stage=select_ahb_ycbcr_conversion reason=unsupported_model model=9"
    );
    let mut strange = properties();
    strange.suggested_range = -1;
    assert_eq!(
        conversion_parameters(&strange, ColorRange::Unspecified, MatrixCoefficients::Bt601)
            .unwrap_err(),
        "stage=select_ahb_ycbcr_conversion reason=unsupported_range range=-1"
    );
}

#[test]
fn memory_on_the_device_is_preferred() {
    let local = vk::MemoryPropertyFlags::DEVICE_LOCAL.as_raw();
    let host = vk::MemoryPropertyFlags::HOST_VISIBLE.as_raw();
    assert_eq!(choose_memory_type(&[local, host, local], 3, 0b110), Ok(2));
    assert_eq!(choose_memory_type(&[local, host, host], 3, 0b110), Ok(1));
    assert_eq!(
        choose_memory_type(&[local, host, host], 3, 0b1000).unwrap_err(),
        "stage=select_ahb_memory_type reason=no_compatible_type bits=0x8 count=3"
    );
}

#[test]
fn frames_shrink_only_through_linear_filters() {
    let extents = FrameExtents {
        visible_width: 1920,
        visible_height: 1080,
        output_width: 960,
        output_height: 540,
    };
    let plan = plan_conversion(&frame(), extents, &properties()).unwrap();
    assert_eq!((plan.output_width, plan.output_height), (960, 540));
    assert_eq!(plan.import_format, vk::Format::UNDEFINED.as_raw());
    assert_eq!(plan.key.external_format, 77);
    let mut nearest = properties();
    nearest.format_features &=
        !vk::FormatFeatureFlags::SAMPLED_IMAGE_YCBCR_CONVERSION_LINEAR_FILTER.as_raw();
    let plan = plan_conversion(&frame(), extents, &nearest).unwrap();
    assert_eq!((plan.output_width, plan.output_height), (1920, 1080));
    assert_eq!(plan.parameters.chroma_filter, vk::Filter::NEAREST.as_raw());
}

#[test]
fn pipelines_are_shared_by_equal_keys() {
    let parameters =
        conversion_parameters(&properties(), ColorRange::Limited, MatrixCoefficients::Bt709)
            .unwrap();
    let key = ConversionCacheKey::new(
        &properties(),
        parameters,
        AndroidAhbIntermediateFormat::Rgb10a2Unorm,
    );
    let mut larger = properties();
    larger.allocation_size = 1 << 30;
    assert_eq!(
        key,
        ConversionCacheKey::new(
            &larger,
            parameters,
            AndroidAhbIntermediateFormat::Rgb10a2Unorm
        )
    );
    assert_ne!(
        key,
        ConversionCacheKey::new(
            &properties(),
            parameters,
            AndroidAhbIntermediateFormat::Rgba16Float
        )
    );
}

#[test]
fn a_conversion_gives_the_buffer_back() {
    let commands = conversion_commands(5, 960, 540);
    assert_eq!(commands.len(), 10);
    assert_eq!(commands[7], ConversionCommand::Draw { vertices: 3 });
    match (commands[0], commands[9]) {
        (ConversionCommand::Barrier(acquire), ConversionCommand::Barrier(release)) => {
            assert_eq!(acquire.src_family, vk::QUEUE_FAMILY_FOREIGN_EXT);
            assert_eq!(acquire.dst_family, 5);
            assert_eq!(acquire.src_family, release.dst_family);
            assert_eq!(acquire.old_layout, release.new_layout);
            assert_eq!(
                acquire.new_layout,
                vk::ImageLayout::SHADER_READ_ONLY_OPTIMAL.as_raw()
            );
        }
        _ => panic!("a conversion starts and ends with a barrier"),
    }
}

#[test]
fn pending_conversions_are_bounded() {
    let mut pending = PendingConversions::new();
    for _ in 0..MAX_PENDING_AHB_CONVERSIONS {
        pending.reserve().unwrap();
    }
    let error = pending.reserve().unwrap_err();
    assert_eq!(error, AndroidAhbConversionError::Backpressure { pending: 3, max: 3 });
    assert_eq!(
        error.message(),
        "stage=reserve_ahb_conversion reason=retirement_capacity_exhausted pending=3 max=3"
    );
    assert_eq!(
        AndroidAhbConversionError::Interop("lost".to_owned()).message(),
        "lost"
    );
    // A reservation that is committed stays; another one is given back.
    let mut kept = PendingConversionReservation::new();
    kept.commit();
    kept.end(&mut pending);
    assert_eq!(pending.count, 3);
    PendingConversionReservation::new().end(&mut pending);
    assert_eq!(pending.count, 2);
    pending.release();
    assert_eq!(pending.count, 1);
}

#[test]
fn adapters_are_ranked() {
    assert_eq!(
        choose_adapter(&[
            AdapterKind::Cpu,
            AdapterKind::Integrated,
            AdapterKind::Discrete,
            AdapterKind::Discrete,
        ]),
        Ok(2)
    );
    assert_eq!(choose_adapter(&[AdapterKind::Cpu, AdapterKind::Other]), Ok(1));
    assert_eq!(
        choose_adapter(&[]).unwrap_err(),
        "custom Vulkan instance found no adapters"
    );
}

#[test]
fn extensions_follow_the_version() {
    let later = required_device_extensions(API_1_1);
    assert_eq!(
        later,
        vec![
            vk::ANDROID_EXTERNAL_MEMORY_ANDROID_HARDWARE_BUFFER_NAME
                .to_str()
                .unwrap(),
            vk::EXT_QUEUE_FAMILY_FOREIGN_NAME.to_str().unwrap(),
        ]
    );
    let first = required_device_extensions(API_1_0);
    assert_eq!(first.len(), 8);
    assert_eq!(check_device_extensions(API_1_0, &first), Ok(first.clone()));
    assert_eq!(
        check_device_extensions(API_1_1, &[]).unwrap_err(),
        "Vulkan adapter lacks Android shared-frame extensions: \
         VK_ANDROID_external_memory_android_hardware_buffer, VK_EXT_queue_family_foreign"
    );
    assert_eq!(check_device(API_1_1, &later, true), Ok(later.clone()));
    assert_eq!(
        check_device(API_1_1, &later, false).unwrap_err(),
        "Vulkan samplerYcbcrConversion feature is unavailable"
    );
    assert_eq!(check_instance_extensions(API_1_1, &[]), Ok(()));
    assert_eq!(
        check_instance_extensions(API_1_0, &[]).unwrap_err(),
        "Vulkan 1.0 adapter lacks required instance extension \
         VK_KHR_get_physical_device_properties2"
    );
    let names = vec![
        "VK_KHR_get_physical_device_properties2".to_owned(),
        "VK_KHR_external_memory_capabilities".to_owned(),
    ];
    assert_eq!(extra_instance_extensions(API_1_0, &names, &names[..1]), names[1..]);
    assert!(extra_instance_extensions(API_1_1, &names, &[]).is_empty());
    assert_eq!(check_instance_extensions(API_1_0, &names), Ok(()));
}

#[test]
fn intermediates_are_drawn_to_and_filtered() {
    let usages =
        (wgpu::TextureUsages::RENDER_ATTACHMENT | wgpu::TextureUsages::TEXTURE_BINDING).bits();
    let filterable = wgpu::TextureFormatFeatureFlags::FILTERABLE.bits();
    assert!(supports_intermediate(usages, filterable));
    assert!(!supports_intermediate(usages, 0));
    assert!(!supports_intermediate(
        wgpu::TextureUsages::TEXTURE_BINDING.bits(),
        filterable
    ));
}

#[test]
fn numbers_of_vulkan_are_the_known_ones() {
    assert_eq!(AndroidAhbIntermediateFormat::Rgb10a2Unorm.vk(), 64);
    assert_eq!(AndroidAhbIntermediateFormat::Rgba16Float.vk(), 97);
    for (matrix, model) in [
        (MatrixCoefficients::Identity, 0),
        (MatrixCoefficients::Bt709, 2),
        (MatrixCoefficients::Bt601, 3),
        (MatrixCoefficients::Bt2020NonConstantLuminance, 4),
    ] {
        let full = conversion_parameters(&properties(), ColorRange::Full, matrix).unwrap();
        assert_eq!((full.model, full.range, full.chroma_filter), (model, 0, 1));
        let limited = conversion_parameters(&properties(), ColorRange::Limited, matrix).unwrap();
        assert_eq!(limited.range, 1);
    }
    let mut identity = properties();
    identity.suggested_model = 1;
    identity.format_features = 0x1;
    let own = conversion_parameters(
        &identity,
        ColorRange::Unspecified,
        MatrixCoefficients::Unspecified,
    )
    .unwrap();
    assert_eq!((own.model, own.range, own.chroma_filter), (1, 0, 0));
    assert_eq!(validate_chroma_location("x", 0, 0x80_0000), Ok(()));
    assert_eq!(validate_chroma_location("x", 1, 0x2_0000), Ok(()));
    assert!(validate_chroma_location("x", 0, 0x2_0000).is_err());
    match (conversion_commands(9, 1, 1)[0], conversion_commands(9, 1, 1)[9]) {
        (ConversionCommand::Barrier(acquire), ConversionCommand::Barrier(release)) => {
            assert_eq!((acquire.src_stage, acquire.dst_stage), (0x1, 0x80));
            assert_eq!((acquire.src_access, acquire.dst_access), (0, 0x20));
            assert_eq!((acquire.old_layout, acquire.new_layout), (1, 5));
            assert_eq!((acquire.src_family, acquire.dst_family), (0xffff_fffd, 9));
            assert_eq!((release.src_stage, release.dst_stage), (0x80, 0x2000));
        }
        _ => panic!("a conversion starts and ends with a barrier"),
    }
    assert_eq!(choose_memory_type(&[0x2, 0x1], 2, 0b11), Ok(1));
    let mut search = DescriptorBudget::start(1, 2);
    assert_eq!(search.allocated(Some(-1_000_069_000)), DescriptorStep::Retry);
    assert_eq!(required_device_extensions(0x40_1000).len(), 2);
    assert_eq!(required_device_extensions(0x40_0fff).len(), 8);
    assert_eq!(
        required_device_extensions(0x40_0000)[2..],
        [
            "VK_KHR_maintenance1",
            "VK_KHR_bind_memory2",
            "VK_KHR_get_memory_requirements2",
            "VK_KHR_sampler_ycbcr_conversion",
            "VK_KHR_external_memory",
            "VK_KHR_dedicated_allocation",
        ]
    );
    assert_eq!(android_custom_vulkan_instance_flags(0x3), 0x6);
    assert!(supports_intermediate(0x14, 0x1));
}

#[test]
fn descriptor_budgets_reach_any_limit_in_thirty_two_steps() {
    for limit in [1, 7, 4096, 0x8000_0001, u32::MAX] {
        let mut budget = 1;
        for _ in 0..32 {
            budget = next_descriptor_budget(budget, limit);
        }
        assert_eq!(budget, limit);
    }
}
