//! Video sessions: their profiles, their parameters and their memory.

use crate::av1::{
    av1_color_config_of, av1_sequence_header_of, av1_timing_info_of, convert_av1_color_config, convert_av1_sps, convert_av1_timing_info, Av1Sps,
    StdVideoAV1ColorConfig, StdVideoAV1SequenceHeader, StdVideoAV1TimingInfo,
};
use crate::codes::{
    ash_progressive_layout, bit_depth_code, format_code, subsampling_code, ChromaSubsampling,
    ComponentBitDepth, PixelFormat,
};
use crate::device::{codec_code, VideoCodec};
use crate::error::{VideoError, VideoResult};
use crate::h264::{
    convert_h264_pps, convert_h264_sps, h264_pps_of, h264_sps_of, StdVideoH264PictureParameterSet,
    StdVideoH264SequenceParameterSet,
};
use crate::h265::{
    convert_h265_pps, convert_h265_sps, convert_h265_vps, h265_pps_of, is_h265_sps, is_h265_vps,
    StdVideoH265PictureParameterSet, StdVideoH265SequenceParameterSet,
    StdVideoH265VideoParameterSet,
};
use crate::parameter_sets::{H264Pps, H264Sps, H265Pps, H265Sps, H265Vps};
use vstd::prelude::*;
use vstd::string::*;

verus! {

/// A width and a height.
#[derive(Debug, Clone, Copy, PartialEq, Eq, Structural)]
pub struct Extent2D {
    pub width: u32,
    pub height: u32,
}

/// Codec-specific profile information for session creation.
#[derive(Debug, Clone, Copy, PartialEq, Eq, Structural)]
pub enum CodecProfileInfo {
    H264 { std_profile_idc: u32, picture_layout: u32 },
    H265 { std_profile_idc: u32 },
    Av1 { std_profile: u32, film_grain_support: bool },
    Vp9 { std_profile: u32 },
}

/// What a video session is created with.
#[derive(Debug, Clone, Copy, PartialEq, Eq, Structural)]
pub struct VideoSessionParams {
    pub queue_family_index: u32,
    pub picture_format: PixelFormat,
    pub reference_picture_format: PixelFormat,
    pub max_coded_extent: Extent2D,
    pub max_dpb_slots: u32,
    pub max_active_reference_pictures: u32,
    pub codec: VideoCodec,
    pub codec_profile_info: CodecProfileInfo,
    pub chroma_subsampling: ChromaSubsampling,
    pub luma_bit_depth: ComponentBitDepth,
    pub chroma_bit_depth: ComponentBitDepth,
}

/// The profile information of a codec: frames are progressive, and film grain is
/// not asked for.
pub open spec fn profile_of(codec: VideoCodec, profile_idc: u32) -> CodecProfileInfo {
    match codec {
        VideoCodec::DecodeH264 => CodecProfileInfo::H264 {
            std_profile_idc: profile_idc,
            picture_layout: 0,
        },
        VideoCodec::DecodeH265 => CodecProfileInfo::H265 { std_profile_idc: profile_idc },
        VideoCodec::DecodeVp9 => CodecProfileInfo::Vp9 { std_profile: profile_idc },
        VideoCodec::DecodeAv1 => CodecProfileInfo::Av1 {
            std_profile: profile_idc,
            film_grain_support: false,
        },
    }
}

/// The profile information of a codec.
pub fn codec_profile(codec: VideoCodec, profile_idc: u32) -> (r: CodecProfileInfo)
    ensures
        r == profile_of(codec, profile_idc),
{
    match codec {
        VideoCodec::DecodeH264 => CodecProfileInfo::H264 {
            std_profile_idc: profile_idc,
            picture_layout: ash_progressive_layout(),
        },
        VideoCodec::DecodeH265 => CodecProfileInfo::H265 { std_profile_idc: profile_idc },
        VideoCodec::DecodeVp9 => CodecProfileInfo::Vp9 { std_profile: profile_idc },
        VideoCodec::DecodeAv1 => CodecProfileInfo::Av1 {
            std_profile: profile_idc,
            film_grain_support: false,
        },
    }
}

/// The name of the standard header that a codec is decoded by.
pub open spec fn header_name_of(codec: VideoCodec) -> Seq<char> {
    match codec {
        VideoCodec::DecodeH264 => "VK_STD_vulkan_video_codec_h264_decode"@,
        VideoCodec::DecodeH265 => "VK_STD_vulkan_video_codec_h265_decode"@,
        VideoCodec::DecodeVp9 => "VK_STD_vulkan_video_codec_vp9_decode"@,
        VideoCodec::DecodeAv1 => "VK_STD_vulkan_video_codec_av1_decode"@,
    }
}

/// The standard header that a codec is decoded by: its name, and version 1.0.0.
#[derive(Debug, Clone, Copy)]
pub struct StdHeaderVersion {
    pub extension_name: &'static str,
    pub spec_version: u32,
}

/// The standard header that a codec is decoded by.
pub fn build_std_header_version(codec: VideoCodec) -> (r: StdHeaderVersion)
    ensures
        r.extension_name@ == header_name_of(codec),
        r.spec_version == 0x40_0000,
{
    let extension_name: &'static str = match codec {
        VideoCodec::DecodeH264 => "VK_STD_vulkan_video_codec_h264_decode",
        VideoCodec::DecodeH265 => "VK_STD_vulkan_video_codec_h265_decode",
        VideoCodec::DecodeVp9 => "VK_STD_vulkan_video_codec_vp9_decode",
        VideoCodec::DecodeAv1 => "VK_STD_vulkan_video_codec_av1_decode",
    };
    StdHeaderVersion { extension_name, spec_version: 0x40_0000 }
}

// ---------------------------------------------------------------------------
// Session memory
// ---------------------------------------------------------------------------

/// Memory type `i` is allowed.
pub open spec fn allows_type(type_bits: u32, i: u32) -> bool {
    (type_bits >> i) & 1 == 1
}

/// The first memory type that a session's requirement allows; a requirement that
/// allows none is refused.
pub fn session_memory_type(memory_type_bits: u32) -> (r: VideoResult<u32>)
    ensures
        match r {
            Ok(i) => {
                &&& i < 32
                &&& allows_type(memory_type_bits, i)
                &&& forall|j: u32| j < i ==> !#[trigger] allows_type(memory_type_bits, j)
            },
            Err(VideoError::SessionCreation(m)) => memory_type_bits == 0 && m@
                == "Session memory requirement has no valid memory types"@,
            Err(_) => false,
        },
{
    if memory_type_bits == 0 {
        return Err(
            VideoError::SessionCreation(
                "Session memory requirement has no valid memory types".to_owned(),
            ),
        );
    }
    let mut i: u32 = 0;
    while i < 31 && (memory_type_bits >> i) & 1 == 0
        invariant
            i <= 31,
            forall|j: u32| j < i ==> !#[trigger] allows_type(memory_type_bits, j),
        decreases 31 - i,
    {
        i = i + 1;
    }
    proof {
        let bit: u32 = (memory_type_bits >> i) & 1;
        assert(bit == 0 || bit == 1) by (bit_vector)
            requires
                bit == (memory_type_bits >> i) & 1,
        ;
        if bit == 0 {
            lemma_some_bit_is_set(memory_type_bits);
        }
    }
    Ok(i)
}

proof fn lemma_some_bit_is_set(b: u32)
    requires
        forall|j: u32| j < 32 ==> !#[trigger] allows_type(b, j),
    ensures
        b == 0,
{
    assert(!allows_type(b, 0) && !allows_type(b, 1) && !allows_type(b, 2) && !allows_type(b, 3));
    assert(!allows_type(b, 4) && !allows_type(b, 5) && !allows_type(b, 6) && !allows_type(b, 7));
    assert(!allows_type(b, 8) && !allows_type(b, 9) && !allows_type(b, 10) && !allows_type(b, 11));
    assert(!allows_type(b, 12) && !allows_type(b, 13) && !allows_type(b, 14) && !allows_type(
        b,
        15,
    ));
    assert(!allows_type(b, 16) && !allows_type(b, 17) && !allows_type(b, 18) && !allows_type(
        b,
        19,
    ));
    assert(!allows_type(b, 20) && !allows_type(b, 21) && !allows_type(b, 22) && !allows_type(
        b,
        23,
    ));
    assert(!allows_type(b, 24) && !allows_type(b, 25) && !allows_type(b, 26) && !allows_type(
        b,
        27,
    ));
    assert(!allows_type(b, 28) && !allows_type(b, 29) && !allows_type(b, 30) && !allows_type(
        b,
        31,
    ));
    assert((b >> 0) & 1 != 1 && (b >> 1) & 1 != 1 && (b >> 2) & 1 != 1 && (b >> 3) & 1 != 1 && (b
        >> 4) & 1 != 1 && (b >> 5) & 1 != 1 && (b >> 6) & 1 != 1 && (b >> 7) & 1 != 1 && (b >> 8)
        & 1 != 1 && (b >> 9) & 1 != 1 && (b >> 10) & 1 != 1 && (b >> 11) & 1 != 1 && (b >> 12) & 1
        != 1 && (b >> 13) & 1 != 1 && (b >> 14) & 1 != 1 && (b >> 15) & 1 != 1 && (b >> 16) & 1
        != 1 && (b >> 17) & 1 != 1 && (b >> 18) & 1 != 1 && (b >> 19) & 1 != 1 && (b >> 20) & 1
        != 1 && (b >> 21) & 1 != 1 && (b >> 22) & 1 != 1 && (b >> 23) & 1 != 1 && (b >> 24) & 1
        != 1 && (b >> 25) & 1 != 1 && (b >> 26) & 1 != 1 && (b >> 27) & 1 != 1 && (b >> 28) & 1
        != 1 && (b >> 29) & 1 != 1 && (b >> 30) & 1 != 1 && (b >> 31) & 1 != 1 ==> b == 0)
        by (bit_vector);
}

/// What a session asks of one piece of its memory.
#[derive(Debug, Clone, Copy, PartialEq, Eq, Structural)]
pub struct MemoryRequirement {
    pub size: u64,
    pub memory_type_bits: u32,
}

/// A piece of memory that is to be allocated and bound to a session whole.
#[derive(Debug, Clone, Copy, PartialEq, Eq, Structural)]
pub struct MemoryBinding {
    pub memory_bind_index: u32,
    pub memory_type_index: u32,
    pub memory_size: u64,
}

/// The memory serves the requirement of the given index, in the first memory type
/// that it allows.
pub open spec fn serves(b: MemoryBinding, req: MemoryRequirement, i: int) -> bool {
    &&& b.memory_bind_index == i as u32
    &&& b.memory_size == req.size
    &&& b.memory_type_index < 32
    &&& allows_type(req.memory_type_bits, b.memory_type_index)
    &&& forall|j: u32|
        j < b.memory_type_index ==> !#[trigger] allows_type(req.memory_type_bits, j)
}

impl VideoSession {
    /// Decides what memory is allocated for a session's requirements, in their
    /// order. If one of them allows no memory type, the session is refused.
    pub fn bind_session_memory(requirements: &[MemoryRequirement]) -> (r: VideoResult<
        Vec<MemoryBinding>,
    >)
        ensures
            match r {
                Ok(bindings) => {
                    &&& bindings@.len() == requirements@.len()
                    &&& forall|i: int|
                        0 <= i < requirements@.len() ==> serves(
                            #[trigger] bindings@[i],
                            requirements@[i],
                            i,
                        )
                },
                Err(VideoError::SessionCreation(m)) => {
                    &&& m@ == "Session memory requirement has no valid memory types"@
                    &&& exists|i: int|
                        0 <= i < requirements@.len() && (
                        #[trigger] requirements@[i]).memory_type_bits == 0
                },
                Err(_) => false,
            },
    {
        let mut bindings: Vec<MemoryBinding> = Vec::new();
        let mut i: usize = 0;
        while i < requirements.len()
            invariant
                i <= requirements@.len(),
                bindings@.len() == i,
                forall|k: int|
                    0 <= k < i ==> serves(#[trigger] bindings@[k], requirements@[k], k),
            decreases requirements@.len() - i,
        {
            let req: MemoryRequirement = requirements[i];
            assert(requirements@[i as int] == req);
            match session_memory_type(req.memory_type_bits) {
                Ok(memory_type_index) => bindings.push(
                    MemoryBinding {
                        memory_bind_index: i as u32,
                        memory_type_index,
                        memory_size: req.size,
                    },
                ),
                Err(e) => {
                    return Err(e);
                },
            }
            i = i + 1;
        }
        Ok(bindings)
    }
}

/// A requirement that memory can serve allows some memory type.
pub proof fn law_bound_memory_is_allowed(b: MemoryBinding, req: MemoryRequirement, i: int)
    requires
        serves(b, req, i),
    ensures
        req.memory_type_bits != 0,
{
    let bits: u32 = req.memory_type_bits;
    let k: u32 = b.memory_type_index;
    assert(allows_type(bits, k));
    assert((bits >> k) & 1 == 1 ==> bits != 0) by (bit_vector)
        requires
            k < 32,
    ;
}

// ---------------------------------------------------------------------------
// Creation
// ---------------------------------------------------------------------------

/// What the driver is asked to create a session by. Formats, subsampling and bit
/// depths are codes.
#[derive(Debug, Clone, Copy, PartialEq, Eq, Structural)]
pub struct SessionCreateInfo {
    pub flags: u32,
    pub queue_family_index: u32,
    pub video_codec_operation: u32,
    pub codec_profile_info: CodecProfileInfo,
    pub chroma_subsampling: u32,
    pub luma_bit_depth: u32,
    pub chroma_bit_depth: u32,
    pub picture_format: i32,
    pub reference_picture_format: i32,
    pub max_coded_extent: Extent2D,
    pub max_dpb_slots: u32,
    pub max_active_reference_pictures: u32,
}

impl VideoSession {
    /// Decides what the driver is asked to create a session by. The flag stands
    /// for inline queries.
    pub fn create(params: &VideoSessionParams) -> (r: SessionCreateInfo)
        ensures
            r == (SessionCreateInfo {
                flags: 4,
                queue_family_index: params.queue_family_index,
                video_codec_operation: codec_code(params.codec),
                codec_profile_info: params.codec_profile_info,
                chroma_subsampling: subsampling_code(params.chroma_subsampling),
                luma_bit_depth: bit_depth_code(params.luma_bit_depth),
                chroma_bit_depth: bit_depth_code(params.chroma_bit_depth),
                picture_format: format_code(params.picture_format),
                reference_picture_format: format_code(params.reference_picture_format),
                max_coded_extent: params.max_coded_extent,
                max_dpb_slots: params.max_dpb_slots,
                max_active_reference_pictures: params.max_active_reference_pictures,
            }),
    {
        SessionCreateInfo {
            flags: 4,
            queue_family_index: params.queue_family_index,
            video_codec_operation: params.codec.to_vk_flag(),
            codec_profile_info: params.codec_profile_info,
            chroma_subsampling: params.chroma_subsampling.as_raw(),
            luma_bit_depth: params.luma_bit_depth.as_raw(),
            chroma_bit_depth: params.chroma_bit_depth.as_raw(),
            picture_format: params.picture_format.as_raw(),
            reference_picture_format: params.reference_picture_format.as_raw(),
            max_coded_extent: params.max_coded_extent,
            max_dpb_slots: params.max_dpb_slots,
            max_active_reference_pictures: params.max_active_reference_pictures,
        }
    }
}

// ---------------------------------------------------------------------------
// Handles
// ---------------------------------------------------------------------------

/// A Vulkan video session, by its handle; zero stands for none.
#[derive(Debug)]
pub struct VideoSession {
    pub session: u64,
}

impl VideoSession {
    /// The handle.
    pub fn handle(&self) -> (r: u64)
        ensures
            r == self.session,
    {
        self.session
    }

    /// Whether there is a session.
    pub fn is_valid(&self) -> (r: bool)
        ensures
            r == (self.session != 0),
    {
        self.session != 0
    }

    /// Marks the session as destroyed.
    pub fn reset(&mut self)
        ensures
            final(self).session == 0,
    {
        self.session = 0;
    }
}

/// The parameters of a video session, by their handle; zero stands for none.
#[derive(Debug)]
pub struct VideoSessionParameters {
    pub parameters: u64,
}

impl VideoSessionParameters {
    /// The handle.
    pub fn handle(&self) -> (r: u64)
        ensures
            r == self.parameters,
    {
        self.parameters
    }

    /// Whether there are parameters.
    pub fn is_valid(&self) -> (r: bool)
        ensures
            r == (self.parameters != 0),
    {
        self.parameters != 0
    }

    /// Marks the parameters as destroyed.
    pub fn reset(&mut self)
        ensures
            final(self).parameters == 0,
    {
        self.parameters = 0;
    }
}

// ---------------------------------------------------------------------------
// Session parameters
// ---------------------------------------------------------------------------

/// What session parameters are created with.
#[derive(Debug)]
pub enum SessionParametersInfo {
    /// Up to 32 sequence and 256 picture parameter sets.
    H264 {
        max_std_sps_count: u32,
        max_std_pps_count: u32,
        sps: Option<StdVideoH264SequenceParameterSet>,
        pps: Option<StdVideoH264PictureParameterSet>,
    },
    /// Up to 16 video, 32 sequence and 256 picture parameter sets. Only the video
    /// parameter set is there from the start.
    H265 {
        max_std_vps_count: u32,
        max_std_sps_count: u32,
        max_std_pps_count: u32,
        vps: Option<StdVideoH265VideoParameterSet>,
    },
    /// A sequence header with its color configuration and timing information.
    Av1 {
        header: Option<
            (StdVideoAV1SequenceHeader, StdVideoAV1ColorConfig, StdVideoAV1TimingInfo),
        >,
    },
    Vp9,
}

/// What is added to session parameters after their creation.
#[derive(Debug)]
pub enum SessionParametersAddition {
    Sps(StdVideoH265SequenceParameterSet),
    Pps(StdVideoH265PictureParameterSet),
}

/// An addition to session parameters, with its number.
#[derive(Debug)]
pub struct SessionParametersUpdate {
    pub update_sequence_count: u32,
    pub addition: SessionParametersAddition,
}

/// What session parameters are created with, and what is added afterwards.
#[derive(Debug)]
pub struct SessionParametersPlan {
    pub info: SessionParametersInfo,
    pub updates: Vec<SessionParametersUpdate>,
}

/// The parameter sets that a stream begins with.
pub struct StreamSets<'a> {
    pub sps: Option<&'a H264Sps>,
    pub pps: Option<&'a H264Pps>,
    pub vps: Option<&'a H265Vps>,
    pub sps_h265: Option<&'a H265Sps>,
    pub pps_h265: Option<&'a H265Pps>,
    pub sps_av1: Option<&'a Av1Sps>,
}

/// The creation information holds the parameter sets of the codec.
pub open spec fn is_creation_info(
    info: SessionParametersInfo,
    codec: VideoCodec,
    sets: StreamSets,
) -> bool {
    match codec {
        VideoCodec::DecodeH264 => info == (SessionParametersInfo::H264 {
            max_std_sps_count: 32,
            max_std_pps_count: 256,
            sps: match sets.sps {
                Some(s) => Some(h264_sps_of(*s)),
                None => None,
            },
            pps: match sets.pps {
                Some(p) => Some(h264_pps_of(*p)),
                None => None,
            },
        }),
        VideoCodec::DecodeH265 => info matches SessionParametersInfo::H265 {
            max_std_vps_count,
            max_std_sps_count,
            max_std_pps_count,
            vps,
        } && {
            &&& max_std_vps_count == 16
            &&& max_std_sps_count == 32
            &&& max_std_pps_count == 256
            &&& match sets.vps {
                Some(v) => vps matches Some(r) && is_h265_vps(r, *v),
                None => vps is None,
            }
        },
        VideoCodec::DecodeAv1 => info == (SessionParametersInfo::Av1 {
            header: match sets.sps_av1 {
                Some(s) => Some(
                    (
                        av1_sequence_header_of(*s),
                        av1_color_config_of(*s),
                        av1_timing_info_of(*s),
                    ),
                ),
                None => None,
            },
        }),
        VideoCodec::DecodeVp9 => info is Vp9,
    }
}

/// The additions are the H.265 sequence parameter set and then the picture
/// parameter set, as far as there are any, numbered from one on. Other codecs add
/// nothing.
pub open spec fn are_updates(
    updates: Seq<SessionParametersUpdate>,
    codec: VideoCodec,
    sets: StreamSets,
) -> bool {
    if codec == VideoCodec::DecodeH265 {
        let n: int = if sets.sps_h265 is Some {
            1
        } else {
            0
        };
        let m: int = if sets.pps_h265 is Some {
            1
        } else {
            0
        };
        &&& updates.len() == n + m
        &&& forall|i: int|
            0 <= i < updates.len() ==> (#[trigger] updates[i]).update_sequence_count == i + 1
        &&& sets.sps_h265 matches Some(s) ==> (updates[0].addition matches SessionParametersAddition::Sps(r)
            && is_h265_sps(r, *s))
        &&& sets.pps_h265 matches Some(p) ==> updates[n].addition
            == SessionParametersAddition::Pps(h265_pps_of(*p))
    } else {
        updates.len() == 0
    }
}

impl VideoSessionParameters {
    /// Decides what session parameters are created with and what is added
    /// afterwards.
    pub fn create(codec: VideoCodec, sets: &StreamSets) -> (plan: SessionParametersPlan)
        ensures
            is_creation_info(plan.info, codec, *sets),
            are_updates(plan.updates@, codec, *sets),
    {
        let mut updates: Vec<SessionParametersUpdate> = Vec::new();
        let info: SessionParametersInfo = match codec {
            VideoCodec::DecodeH264 => SessionParametersInfo::H264 {
                max_std_sps_count: 32,
                max_std_pps_count: 256,
                sps: match sets.sps {
                    Some(s) => Some(convert_h264_sps(s)),
                    None => None,
                },
                pps: match sets.pps {
                    Some(p) => Some(convert_h264_pps(p)),
                    None => None,
                },
            },
            VideoCodec::DecodeH265 => {
                let mut seq: u32 = 0;
                if let Some(s) = sets.sps_h265 {
                    seq = seq + 1;
                    updates.push(
                        SessionParametersUpdate {
                            update_sequence_count: seq,
                            addition: SessionParametersAddition::Sps(convert_h265_sps(s)),
                        },
                    );
                }
                if let Some(p) = sets.pps_h265 {
                    seq = seq + 1;
                    updates.push(
                        SessionParametersUpdate {
                            update_sequence_count: seq,
                            addition: SessionParametersAddition::Pps(convert_h265_pps(p)),
                        },
                    );
                }
                SessionParametersInfo::H265 {
                    max_std_vps_count: 16,
                    max_std_sps_count: 32,
                    max_std_pps_count: 256,
                    vps: match sets.vps {
                        Some(v) => Some(convert_h265_vps(v)),
                        None => None,
                    },
                }
            },
            VideoCodec::DecodeAv1 => SessionParametersInfo::Av1 {
                header: match sets.sps_av1 {
                    Some(s) => Some(
                        (
                            convert_av1_sps(s),
                            convert_av1_color_config(s),
                            convert_av1_timing_info(s),
                        ),
                    ),
                    None => None,
                },
            },
            VideoCodec::DecodeVp9 => SessionParametersInfo::Vp9,
        };
        SessionParametersPlan { info, updates }
    }
}

// ---------------------------------------------------------------------------
// Laws
// ---------------------------------------------------------------------------

/// A session is of its stream's profile, under the name of its codec; H.264 frames are
/// progressive, and AV1 film grain is not asked for.
pub proof fn law_session_profiles(profile_idc: u32)
    ensures
        profile_of(VideoCodec::DecodeH264, profile_idc) == (CodecProfileInfo::H264 {
            std_profile_idc: profile_idc,
            picture_layout: 0,
        }),
        profile_of(VideoCodec::DecodeH265, profile_idc) == (CodecProfileInfo::H265 {
            std_profile_idc: profile_idc,
        }),
        profile_of(VideoCodec::DecodeVp9, profile_idc) == (CodecProfileInfo::Vp9 {
            std_profile: profile_idc,
        }),
        profile_of(VideoCodec::DecodeAv1, profile_idc) == (CodecProfileInfo::Av1 {
            std_profile: profile_idc,
            film_grain_support: false,
        }),
{
}

/// The standard header of a codec bears its name.
pub proof fn law_standard_headers()
    ensures
        header_name_of(VideoCodec::DecodeH264) == "VK_STD_vulkan_video_codec_h264_decode"@,
        header_name_of(VideoCodec::DecodeH265) == "VK_STD_vulkan_video_codec_h265_decode"@,
        header_name_of(VideoCodec::DecodeVp9) == "VK_STD_vulkan_video_codec_vp9_decode"@,
        header_name_of(VideoCodec::DecodeAv1) == "VK_STD_vulkan_video_codec_av1_decode"@,
{
}

/// The memory of a session serves its requirements one by one, whole, in the lowest type
/// whose bit the requirement has.
pub proof fn law_session_memory(b: MemoryBinding, req: MemoryRequirement, i: u32, j: u32)
    requires
        serves(b, req, i as int),
        j < 32,
        (req.memory_type_bits >> j) & 1 == 1,
    ensures
        b.memory_bind_index == i,
        b.memory_size == req.size,
        b.memory_type_index <= j,
        (req.memory_type_bits >> b.memory_type_index) & 1 == 1,
{
    assert(allows_type(req.memory_type_bits, j));
}

/// Session parameters begin with the parameter sets of their codec: H.264 with both sets,
/// H.265 with the video parameter set, AV1 with the sequence header. H.265 adds its sequence
/// and then its picture parameter set, numbered from one.
pub proof fn law_session_parameters(
    info: SessionParametersInfo,
    updates: Seq<SessionParametersUpdate>,
    codec: VideoCodec,
    sets: StreamSets,
)
    requires
        is_creation_info(info, codec, sets),
        are_updates(updates, codec, sets),
    ensures
        codec == VideoCodec::DecodeH264 ==> (info matches SessionParametersInfo::H264 {
            max_std_sps_count,
            max_std_pps_count,
            sps,
            pps,
        } && max_std_sps_count == 32 && max_std_pps_count == 256 && (sps is Some <==> sets.sps
            is Some) && (pps is Some <==> sets.pps is Some) && updates.len() == 0),
        codec == VideoCodec::DecodeH265 ==> (info matches SessionParametersInfo::H265 {
            max_std_vps_count,
            max_std_sps_count,
            max_std_pps_count,
            vps,
        } && max_std_vps_count == 16 && max_std_sps_count == 32 && max_std_pps_count == 256 && (vps
            is Some <==> sets.vps is Some)),
        codec == VideoCodec::DecodeAv1 ==> (info matches SessionParametersInfo::Av1 { header } && (
        header is Some <==> sets.sps_av1 is Some) && updates.len() == 0),
        codec == VideoCodec::DecodeVp9 ==> info is Vp9 && updates.len() == 0,
        codec == VideoCodec::DecodeH265 && sets.sps_h265 is Some && sets.pps_h265 is Some
            ==> updates.len() == 2 && updates[0].update_sequence_count == 1
            && updates[1].update_sequence_count == 2 && updates[0].addition is Sps
            && updates[1].addition is Pps,
        codec == VideoCodec::DecodeH265 && sets.sps_h265 is None && sets.pps_h265 is Some
            ==> updates.len() == 1 && updates[0].update_sequence_count == 1 && updates[0].addition
            is Pps,
        codec == VideoCodec::DecodeH265 && sets.sps_h265 is Some && sets.pps_h265 is None
            ==> updates.len() == 1 && updates[0].update_sequence_count == 1 && updates[0].addition
            is Sps,
        codec == VideoCodec::DecodeH265 && sets.sps_h265 is None && sets.pps_h265 is None
            ==> updates.len() == 0,
{
    if codec == VideoCodec::DecodeH265 && updates.len() > 0 {
        assert(updates[0].update_sequence_count == 1);
        if updates.len() > 1 {
            assert(updates[1].update_sequence_count == 2);
        }
    }
}

} // verus!
