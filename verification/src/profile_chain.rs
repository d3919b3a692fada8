//! The video profiles that images and buffers are created for.

use crate::buffer::{aligned_size, rounded_up};
use crate::codes::{
    bit_depth_code, subsampling_code, ChromaSubsampling, ComponentBitDepth,
};
use crate::device::{codec_code, VideoCodec};
use crate::session::{codec_profile, profile_of, CodecProfileInfo};
use vstd::prelude::*;

verus! {

/// A video profile, in codes, with what the codec adds to it.
#[derive(Debug, Clone, Copy, PartialEq, Eq, Structural)]
pub struct VideoProfile {
    pub video_codec_operation: u32,
    pub chroma_subsampling: u32,
    pub luma_bit_depth: u32,
    pub chroma_bit_depth: u32,
    pub codec_profile_info: Option<CodecProfileInfo>,
}

/// The profile that images and buffers are created for. For AV1 the codec adds
/// nothing to it.
pub fn resource_profile(
    codec: VideoCodec,
    profile_idc: u32,
    chroma_subsampling: ChromaSubsampling,
    luma_bit_depth: ComponentBitDepth,
    chroma_bit_depth: ComponentBitDepth,
) -> (p: VideoProfile)
    ensures
        p == (VideoProfile {
            video_codec_operation: codec_code(codec),
            chroma_subsampling: subsampling_code(chroma_subsampling),
            luma_bit_depth: bit_depth_code(luma_bit_depth),
            chroma_bit_depth: bit_depth_code(chroma_bit_depth),
            codec_profile_info: if codec == VideoCodec::DecodeAv1 {
                None
            } else {
                Some(profile_of(codec, profile_idc))
            },
        }),
{
    VideoProfile {
        video_codec_operation: codec.to_vk_flag(),
        chroma_subsampling: chroma_subsampling.as_raw(),
        luma_bit_depth: luma_bit_depth.as_raw(),
        chroma_bit_depth: chroma_bit_depth.as_raw(),
        codec_profile_info: match codec {
            VideoCodec::DecodeAv1 => None,
            _ => Some(codec_profile(codec, profile_idc)),
        },
    }
}

/// The profile that capabilities are asked for: that of every codec is complete.
pub fn capability_profile(
    codec: VideoCodec,
    profile_idc: u32,
    chroma_subsampling: ChromaSubsampling,
    luma_bit_depth: ComponentBitDepth,
    chroma_bit_depth: ComponentBitDepth,
) -> (p: VideoProfile)
    ensures
        p == (VideoProfile {
            video_codec_operation: codec_code(codec),
            chroma_subsampling: subsampling_code(chroma_subsampling),
            luma_bit_depth: bit_depth_code(luma_bit_depth),
            chroma_bit_depth: bit_depth_code(chroma_bit_depth),
            codec_profile_info: Some(profile_of(codec, profile_idc)),
        }),
{
    VideoProfile {
        video_codec_operation: codec.to_vk_flag(),
        chroma_subsampling: chroma_subsampling.as_raw(),
        luma_bit_depth: luma_bit_depth.as_raw(),
        chroma_bit_depth: chroma_bit_depth.as_raw(),
        codec_profile_info: Some(codec_profile(codec, profile_idc)),
    }
}

/// The size of the bitstream buffer that a decoder is created with: whole multiples
/// of 256 bytes.
pub fn bitstream_buffer_size(max_frame_size: u64) -> (r: u64)
    requires
        max_frame_size + 255 <= u64::MAX,
    ensures
        r == rounded_up(max_frame_size as int, 256),
{
    aligned_size(max_frame_size, 256)
}

} // verus!
