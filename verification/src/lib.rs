//! The decisions of a video renderer: colour pipeline, neural luma upscaling,
//! overlay atlases and the platform back ends' frame plans.
pub mod accuracy;
pub mod adaptation_laws;
pub mod anchors;
pub mod android_convert;
pub mod android_device;
pub mod android_frame;
pub mod artcnn;
pub mod artcnn_policy;
pub mod choice_laws;
pub mod color;
pub mod color_laws;
pub mod curve_laws;
pub mod d3d11;
pub mod d3d11_artcnn;
pub mod danmaku;
pub mod danmaku_buffers;
pub mod depth;
pub mod dovi;
pub mod dovi_laws;
pub mod error;
pub mod float;
pub mod frame;
pub mod gamut;
pub mod graph;
pub mod half;
pub mod hdr;
pub mod inverse;
pub mod knee;
pub mod knee_laws;
pub mod matrix;
pub mod matrix_laws;
pub mod metal;
pub mod metal_frame;
pub mod metal_planes;
pub mod metal_shader;
pub mod metal_upscaler;
pub mod modes;
pub mod overlay;
pub mod overlay_cache;
pub mod overlay_draw;
pub mod overlay_laws;
pub mod pipeline;
pub mod placement_laws;
pub mod presentation;
pub mod primaries_laws;
pub mod product;
pub mod quotient;
pub mod source;
pub mod spirv;
pub mod state_laws;
pub mod sum;
pub mod surface_laws;
pub mod texels;
pub mod text;
pub mod tiles;
pub mod uniforms;
pub mod vulkan;
