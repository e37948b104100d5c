//! The numbers of the Vulkan interface that decisions are made by.
use vstd::prelude::*;

verus! {

/// Formats of images.
#[derive(Debug, Clone, Copy, PartialEq, Eq, Structural)]
pub struct VulkanFormats {
    pub undefined: i32,
    pub a2b10g10r10_unorm: i32,
    pub r16g16b16a16_sfloat: i32,
}

/// Models of the conversion from luma and chroma.
#[derive(Debug, Clone, Copy, PartialEq, Eq, Structural)]
pub struct YcbcrModels {
    pub rgb_identity: i32,
    pub ycbcr_identity: i32,
    pub ycbcr_709: i32,
    pub ycbcr_601: i32,
    pub ycbcr_2020: i32,
}

/// Ranges, chroma positions and filters of the conversion.
#[derive(Debug, Clone, Copy, PartialEq, Eq, Structural)]
pub struct YcbcrSampling {
    pub itu_full: i32,
    pub itu_narrow: i32,
    pub cosited_even: i32,
    pub midpoint: i32,
    pub nearest: i32,
    pub linear: i32,
}

/// Features that a format can have.
#[derive(Debug, Clone, Copy, PartialEq, Eq, Structural)]
pub struct FormatFeatures {
    pub sampled_image: u32,
    pub cosited_chroma: u32,
    pub midpoint_chroma: u32,
    pub linear_chroma: u32,
}

/// Stages, accesses, layouts and owners of images.
#[derive(Debug, Clone, Copy, PartialEq, Eq, Structural)]
pub struct BarrierNumbers {
    pub top_of_pipe: u32,
    pub fragment_shader: u32,
    pub bottom_of_pipe: u32,
    pub shader_read: u32,
    pub general: i32,
    pub shader_read_only: i32,
    pub foreign_family: u32,
}

/// `vk::Format` of the `ash` crate: three of its constants, as raw numbers.
#[verifier::external_body]
pub(crate) fn vulkan_formats() -> (formats: VulkanFormats)
    ensures
        formats == (VulkanFormats {
            undefined: 0,
            a2b10g10r10_unorm: 64,
            r16g16b16a16_sfloat: 97,
        }),
{
    VulkanFormats {
        undefined: ash::vk::Format::UNDEFINED.as_raw(),
        a2b10g10r10_unorm: ash::vk::Format::A2B10G10R10_UNORM_PACK32.as_raw(),
        r16g16b16a16_sfloat: ash::vk::Format::R16G16B16A16_SFLOAT.as_raw(),
    }
}

/// `vk::SamplerYcbcrModelConversion` of the `ash` crate: its constants, as raw
/// numbers.
#[verifier::external_body]
pub(crate) fn ycbcr_models() -> (models: YcbcrModels)
    ensures
        models == (YcbcrModels {
            rgb_identity: 0,
            ycbcr_identity: 1,
            ycbcr_709: 2,
            ycbcr_601: 3,
            ycbcr_2020: 4,
        }),
{
    YcbcrModels {
        rgb_identity: ash::vk::SamplerYcbcrModelConversion::RGB_IDENTITY.as_raw(),
        ycbcr_identity: ash::vk::SamplerYcbcrModelConversion::YCBCR_IDENTITY.as_raw(),
        ycbcr_709: ash::vk::SamplerYcbcrModelConversion::YCBCR_709.as_raw(),
        ycbcr_601: ash::vk::SamplerYcbcrModelConversion::YCBCR_601.as_raw(),
        ycbcr_2020: ash::vk::SamplerYcbcrModelConversion::YCBCR_2020.as_raw(),
    }
}

/// `vk::SamplerYcbcrRange`, `vk::ChromaLocation` and `vk::Filter` of the `ash`
/// crate: two constants of each, as raw numbers.
#[verifier::external_body]
pub(crate) fn ycbcr_sampling() -> (sampling: YcbcrSampling)
    ensures
        sampling == (YcbcrSampling {
            itu_full: 0,
            itu_narrow: 1,
            cosited_even: 0,
            midpoint: 1,
            nearest: 0,
            linear: 1,
        }),
{
    YcbcrSampling {
        itu_full: ash::vk::SamplerYcbcrRange::ITU_FULL.as_raw(),
        itu_narrow: ash::vk::SamplerYcbcrRange::ITU_NARROW.as_raw(),
        cosited_even: ash::vk::ChromaLocation::COSITED_EVEN.as_raw(),
        midpoint: ash::vk::ChromaLocation::MIDPOINT.as_raw(),
        nearest: ash::vk::Filter::NEAREST.as_raw(),
        linear: ash::vk::Filter::LINEAR.as_raw(),
    }
}

/// `vk::FormatFeatureFlags` of the `ash` crate: four of its bits, as raw
/// numbers.
#[verifier::external_body]
pub(crate) fn format_features() -> (features: FormatFeatures)
    ensures
        features == (FormatFeatures {
            sampled_image: 0x1,
            cosited_chroma: 0x80_0000,
            midpoint_chroma: 0x2_0000,
            linear_chroma: 0x4_0000,
        }),
{
    FormatFeatures {
        sampled_image: ash::vk::FormatFeatureFlags::SAMPLED_IMAGE.as_raw(),
        cosited_chroma: ash::vk::FormatFeatureFlags::COSITED_CHROMA_SAMPLES.as_raw(),
        midpoint_chroma: ash::vk::FormatFeatureFlags::MIDPOINT_CHROMA_SAMPLES.as_raw(),
        linear_chroma: ash::vk::FormatFeatureFlags::SAMPLED_IMAGE_YCBCR_CONVERSION_LINEAR_FILTER.as_raw(),
    }
}

/// `vk::PipelineStageFlags`, `vk::AccessFlags`, `vk::ImageLayout` and the queue
/// family of foreign owners of the `ash` crate, as raw numbers.
#[verifier::external_body]
pub(crate) fn barrier_numbers() -> (numbers: BarrierNumbers)
    ensures
        numbers == (BarrierNumbers {
            top_of_pipe: 0x1,
            fragment_shader: 0x80,
            bottom_of_pipe: 0x2000,
            shader_read: 0x20,
            general: 1,
            shader_read_only: 5,
            foreign_family: 0xffff_fffd,
        }),
{
    BarrierNumbers {
        top_of_pipe: ash::vk::PipelineStageFlags::TOP_OF_PIPE.as_raw(),
        fragment_shader: ash::vk::PipelineStageFlags::FRAGMENT_SHADER.as_raw(),
        bottom_of_pipe: ash::vk::PipelineStageFlags::BOTTOM_OF_PIPE.as_raw(),
        shader_read: ash::vk::AccessFlags::SHADER_READ.as_raw(),
        general: ash::vk::ImageLayout::GENERAL.as_raw(),
        shader_read_only: ash::vk::ImageLayout::SHADER_READ_ONLY_OPTIMAL.as_raw(),
        foreign_family: ash::vk::QUEUE_FAMILY_FOREIGN_EXT,
    }
}

/// `vk::MemoryPropertyFlags::DEVICE_LOCAL` of the `ash` crate, as its raw number.
#[verifier::external_body]
pub(crate) fn device_local() -> (flag: u32)
    ensures
        flag == 0x1,
{
    ash::vk::MemoryPropertyFlags::DEVICE_LOCAL.as_raw()
}

/// `vk::API_VERSION_1_1` of the `ash` crate: the minor version stands from bit
/// 12, the major one from bit 22.
#[verifier::external_body]
pub(crate) fn api_version_1_1() -> (version: u32)
    ensures
        version == 0x40_1000,
{
    ash::vk::API_VERSION_1_1
}

/// `vk::Result::ERROR_OUT_OF_POOL_MEMORY` of the `ash` crate, as its raw number.
#[verifier::external_body]
pub(crate) fn out_of_pool_memory() -> (code: i32)
    ensures
        code == -1_000_069_000,
{
    ash::vk::Result::ERROR_OUT_OF_POOL_MEMORY.as_raw()
}

/// All of these bits are set.
pub open spec fn has_bits(flags: u32, bits: u32) -> bool {
    flags & bits == bits
}

pub fn contains_bits(flags: u32, bits: u32) -> (contained: bool)
    ensures
        contained == has_bits(flags, bits),
{
    flags & bits == bits
}

} // verus!
