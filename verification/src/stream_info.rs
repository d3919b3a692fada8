//! What is known of a stream before it is decoded.

use crate::access_unit::{H264OrH265Pps, H264OrH265Sps};
use crate::av1::{av1_bit_depth, bit_depth_of, Av1Sps};
use crate::codes::{ChromaSubsampling, ComponentBitDepth};
use crate::container::{
    byte_seqs, headers_match, is_ivf, looks_like_ivf, owned, split_vp9_bitstream,
    unpack_ivf, vp9_packets, vp9_stream_frames, vp9_stream_packets, Vp9HeaderExtent,
};
use crate::device::VideoCodec;
use crate::error::{VideoError, VideoResult};
use crate::obu::av1_packets;
use crate::parameter_sets::{H264Pps, H264Sps, H265Pps, H265Sps, H265Vps};
use crate::session::Extent2D;
use vstd::arithmetic::power2::pow2;
use vstd::prelude::*;
use vstd::string::*;

verus! {

/// Parsed bitstream information.
#[derive(Debug, Clone)]
pub struct ParsedInfo {
    pub vps: Option<H265Vps>,
    pub sps: Option<H264OrH265Sps>,
    pub pps: Option<H264OrH265Pps>,
    pub coded_width: u32,
    pub coded_height: u32,
    pub display_width: u32,
    pub display_height: u32,
    pub crop_left: u32,
    pub crop_top: u32,
    pub profile_idc: u32,
    pub max_dpb_slots: u32,
    pub chroma_subsampling: ChromaSubsampling,
    pub luma_bit_depth: ComponentBitDepth,
    pub chroma_bit_depth: ComponentBitDepth,
}

/// The chroma subsampling of a chroma format; an unknown one counts as 4:2:0.
pub open spec fn subsampling_of(chroma_format_idc: u8) -> ChromaSubsampling {
    if chroma_format_idc == 0 {
        ChromaSubsampling::Monochrome
    } else if chroma_format_idc == 2 {
        ChromaSubsampling::Type422
    } else if chroma_format_idc == 3 {
        ChromaSubsampling::Type444
    } else {
        ChromaSubsampling::Type420
    }
}

/// The bit depth of samples with the given number of bits; an unknown number
/// counts as eight.
pub open spec fn depth_of(bits: int) -> ComponentBitDepth {
    if bits == 10 {
        ComponentBitDepth::Type10
    } else if bits == 12 {
        ComponentBitDepth::Type12
    } else {
        ComponentBitDepth::Type8
    }
}

/// The samples of a stream have 8, 10 or 12 bits, as its parameter set says by what they
/// have more than 8; any other number counts as 8.
pub open spec fn is_depth(depth: ComponentBitDepth, minus8: u8) -> bool {
    &&& depth == ComponentBitDepth::Type10 <==> minus8 == 2
    &&& depth == ComponentBitDepth::Type12 <==> minus8 == 4
    &&& depth == ComponentBitDepth::Type8 <==> minus8 != 2 && minus8 != 4
}

/// The chroma format of a stream is none, 4:2:0, 4:2:2 or 4:4:4 where its number is 0, 1, 2
/// or 3; any other counts as 4:2:0.
pub open spec fn is_format(c: ChromaSubsampling, chroma_format_idc: u8) -> bool {
    &&& c == ChromaSubsampling::Monochrome <==> chroma_format_idc == 0
    &&& c == ChromaSubsampling::Type422 <==> chroma_format_idc == 2
    &&& c == ChromaSubsampling::Type444 <==> chroma_format_idc == 3
    &&& c == ChromaSubsampling::Type420 <==> chroma_format_idc == 1 || chroma_format_idc > 3
}

fn chroma_subsampling(chroma_format_idc: u8) -> (r: ChromaSubsampling)
    ensures
        r == subsampling_of(chroma_format_idc),
{
    match chroma_format_idc {
        0 => ChromaSubsampling::Monochrome,
        2 => ChromaSubsampling::Type422,
        3 => ChromaSubsampling::Type444,
        _ => ChromaSubsampling::Type420,
    }
}

fn component_bit_depth(bits: u32) -> (r: ComponentBitDepth)
    ensures
        r == depth_of(bits as int),
{
    match bits {
        10 => ComponentBitDepth::Type10,
        12 => ComponentBitDepth::Type12,
        _ => ComponentBitDepth::Type8,
    }
}

// ---------------------------------------------------------------------------
// H.264
// ---------------------------------------------------------------------------

/// The profile that an H.264 stream is decoded by: its own where that is known;
/// baseline for 41; high otherwise.
pub open spec fn h264_profile(profile_idc: u8) -> u32 {
    if profile_idc == 41 {
        66
    } else if profile_idc == 66 || profile_idc == 77 || profile_idc == 88 || profile_idc == 100
        || profile_idc == 110 || profile_idc == 122 || profile_idc == 244 {
        profile_idc as u32
    } else {
        100
    }
}

/// The coded width of an H.264 stream, in whole macroblocks.
pub open spec fn h264_width(sps: H264Sps) -> int {
    (sps.pic_width_in_mbs_minus1 + 1) * 16
}

/// The coded height of an H.264 stream, in whole macroblocks, or pairs of them
/// where there are fields.
pub open spec fn h264_height(sps: H264Sps) -> int {
    (sps.pic_height_in_map_units_minus1 + 1) * if sps.frame_mbs_only_flag {
        16int
    } else {
        32int
    }
}

/// What is known of an H.264 stream from its parameter sets. Without a sequence
/// parameter set the dimensions are zero.
pub open spec fn h264_info(sps: Option<H264Sps>, pps: Option<H264Pps>) -> ParsedInfo {
    let (width, height) = match sps {
        Some(s) => (h264_width(s) as u32, h264_height(s) as u32),
        None => (0u32, 0u32),
    };
    ParsedInfo {
        vps: None,
        sps: match sps {
            Some(s) => Some(H264OrH265Sps::H264(s)),
            None => None,
        },
        pps: match pps {
            Some(p) => Some(H264OrH265Pps::H264(p)),
            None => None,
        },
        coded_width: width,
        coded_height: height,
        display_width: width,
        display_height: height,
        crop_left: 0,
        crop_top: 0,
        profile_idc: match sps {
            Some(s) => h264_profile(s.profile_idc),
            None => 100,
        },
        max_dpb_slots: 16,
        chroma_subsampling: match sps {
            Some(s) => subsampling_of(s.chroma_format_idc),
            None => ChromaSubsampling::Type420,
        },
        luma_bit_depth: match sps {
            Some(s) => depth_of(s.bit_depth_luma_minus8 + 8),
            None => ComponentBitDepth::Type8,
        },
        chroma_bit_depth: match sps {
            Some(s) => depth_of(s.bit_depth_chroma_minus8 + 8),
            None => ComponentBitDepth::Type8,
        },
    }
}

/// What is known of an H.264 stream from its parameter sets.
pub fn parse_h264(sps: Option<H264Sps>, pps: Option<H264Pps>) -> (info: ParsedInfo)
    ensures
        info == h264_info(sps, pps),
        sps matches Some(s) ==> {
            &&& is_depth(info.luma_bit_depth, s.bit_depth_luma_minus8)
            &&& is_depth(info.chroma_bit_depth, s.bit_depth_chroma_minus8)
            &&& is_format(info.chroma_subsampling, s.chroma_format_idc)
            &&& s.bit_depth_luma_minus8 == 0 ==> info.luma_bit_depth == ComponentBitDepth::Type8
            &&& s.bit_depth_luma_minus8 == 2 ==> info.luma_bit_depth == ComponentBitDepth::Type10
            &&& s.bit_depth_luma_minus8 == 4 ==> info.luma_bit_depth == ComponentBitDepth::Type12
            &&& s.bit_depth_chroma_minus8 == 0 ==> info.chroma_bit_depth
                == ComponentBitDepth::Type8
            &&& s.bit_depth_chroma_minus8 == 2 ==> info.chroma_bit_depth
                == ComponentBitDepth::Type10
            &&& s.bit_depth_chroma_minus8 == 4 ==> info.chroma_bit_depth
                == ComponentBitDepth::Type12
        },
{
    let std_pps: Option<H264OrH265Pps> = match pps {
        Some(p) => Some(H264OrH265Pps::H264(p)),
        None => None,
    };
    match sps {
        Some(s) => {
            let width: u32 = (s.pic_width_in_mbs_minus1 as u32 + 1) * 16;
            let height: u32 = if s.frame_mbs_only_flag {
                (s.pic_height_in_map_units_minus1 as u32 + 1) * 16
            } else {
                (s.pic_height_in_map_units_minus1 as u32 + 1) * 16 * 2
            };
            let profile_idc: u32 = match s.profile_idc {
                41 => 66,
                66 | 77 | 88 | 100 | 110 | 122 | 244 => s.profile_idc as u32,
                _ => 100,
            };
            ParsedInfo {
                vps: None,
                sps: Some(H264OrH265Sps::H264(s)),
                pps: std_pps,
                coded_width: width,
                coded_height: height,
                display_width: width,
                display_height: height,
                crop_left: 0,
                crop_top: 0,
                profile_idc,
                max_dpb_slots: 16,
                chroma_subsampling: chroma_subsampling(s.chroma_format_idc),
                luma_bit_depth: component_bit_depth(s.bit_depth_luma_minus8 as u32 + 8),
                chroma_bit_depth: component_bit_depth(s.bit_depth_chroma_minus8 as u32 + 8),
            }
        },
        None => ParsedInfo {
            vps: None,
            sps: None,
            pps: std_pps,
            coded_width: 0,
            coded_height: 0,
            display_width: 0,
            display_height: 0,
            crop_left: 0,
            crop_top: 0,
            profile_idc: 100,
            max_dpb_slots: 16,
            chroma_subsampling: ChromaSubsampling::Type420,
            luma_bit_depth: ComponentBitDepth::Type8,
            chroma_bit_depth: ComponentBitDepth::Type8,
        },
    }
}

// ---------------------------------------------------------------------------
// H.265
// ---------------------------------------------------------------------------

/// The least multiple of 16 that holds `n`.
pub open spec fn up_to_16(n: int) -> int {
    (n + 15) / 16 * 16
}

/// The unit of the conformance window: the smallest coding block's size.
pub open spec fn window_unit(sps: H265Sps) -> u32 {
    pow2((sps.log2_min_luma_coding_block_size_minus3 + 3) as nat) as u32
}

/// The place and the size of what is shown of a length of `full` samples, where
/// `before` and `after` units are cut off.
pub open spec fn shown(full: u16, before: u32, after: u32, unit: u32) -> (u32, u32) {
    let cut = before.wrapping_add(after).wrapping_mul(unit);
    (
        before.wrapping_mul(unit),
        if full < cut {
            0u32
        } else {
            (full - cut) as u32
        },
    )
}

/// What is shown across.
pub open spec fn h265_shown_across(sps: H265Sps) -> (u32, u32) {
    if sps.conformance_window_flag {
        shown(
            sps.pic_width_in_luma_samples,
            sps.conf_win_left_offset,
            sps.conf_win_right_offset,
            window_unit(sps),
        )
    } else {
        (0, sps.pic_width_in_luma_samples as u32)
    }
}

/// What is shown down.
pub open spec fn h265_shown_down(sps: H265Sps) -> (u32, u32) {
    if sps.conformance_window_flag {
        shown(
            sps.pic_height_in_luma_samples,
            sps.conf_win_top_offset,
            sps.conf_win_bottom_offset,
            window_unit(sps),
        )
    } else {
        (0, sps.pic_height_in_luma_samples as u32)
    }
}

/// What is known of an H.265 stream from its parameter sets. Without a sequence
/// parameter set the dimensions are zero.
pub open spec fn h265_info(
    vps: Option<H265Vps>,
    sps: Option<H265Sps>,
    pps: Option<H265Pps>,
) -> ParsedInfo {
    ParsedInfo {
        vps,
        sps: match sps {
            Some(s) => Some(H264OrH265Sps::H265(s)),
            None => None,
        },
        pps: match pps {
            Some(p) => Some(H264OrH265Pps::H265(p)),
            None => None,
        },
        coded_width: match sps {
            Some(s) => up_to_16(s.pic_width_in_luma_samples as int) as u32,
            None => 0,
        },
        coded_height: match sps {
            Some(s) => up_to_16(s.pic_height_in_luma_samples as int) as u32,
            None => 0,
        },
        display_width: match sps {
            Some(s) => h265_shown_across(s).1,
            None => 0,
        },
        display_height: match sps {
            Some(s) => h265_shown_down(s).1,
            None => 0,
        },
        crop_left: match sps {
            Some(s) => h265_shown_across(s).0,
            None => 0,
        },
        crop_top: match sps {
            Some(s) => h265_shown_down(s).0,
            None => 0,
        },
        profile_idc: 1,
        max_dpb_slots: match sps {
            Some(s) => if s.max_num_ref_frames < 4 {
                4
            } else {
                s.max_num_ref_frames as u32
            },
            None => 16,
        },
        chroma_subsampling: match sps {
            Some(s) => subsampling_of(s.chroma_format_idc),
            None => ChromaSubsampling::Type420,
        },
        luma_bit_depth: match sps {
            Some(s) => depth_of(s.bit_depth_luma_minus8 + 8),
            None => ComponentBitDepth::Type8,
        },
        chroma_bit_depth: match sps {
            Some(s) => depth_of(s.bit_depth_chroma_minus8 + 8),
            None => ComponentBitDepth::Type8,
        },
    }
}

fn round_up_to_16(n: u16) -> (r: u32)
    ensures
        r == up_to_16(n as int),
{
    (n as u32 + 15) / 16 * 16
}

fn unit_of(log2_minus3: u8) -> (r: u32)
    requires
        log2_minus3 <= 28,
    ensures
        r == pow2((log2_minus3 + 3) as nat),
{
    let bits: u32 = log2_minus3 as u32 + 3;
    proof {
        vstd::arithmetic::power2::lemma2_to64();
        if bits < 31 {
            vstd::arithmetic::power2::lemma_pow2_strictly_increases(bits as nat, 31);
        }
        vstd::bits::lemma_u32_shl_is_mul(1, bits);
    }
    1u32 << bits
}

fn window(full: u16, before: u32, after: u32, unit: u32) -> (r: (u32, u32))
    ensures
        r == shown(full, before, after, unit),
{
    let cut: u32 = before.wrapping_add(after).wrapping_mul(unit);
    let left: u32 = if (full as u32) < cut {
        0
    } else {
        full as u32 - cut
    };
    (before.wrapping_mul(unit), left)
}

/// What is known of an H.265 stream from its parameter sets.
pub fn parse_h265(vps: Option<H265Vps>, sps: Option<H265Sps>, pps: Option<H265Pps>) -> (info:
    ParsedInfo)
    requires
        sps matches Some(s) ==> s.log2_min_luma_coding_block_size_minus3 <= 28,
    ensures
        info == h265_info(vps, sps, pps),
        sps matches Some(s) ==> {
            &&& is_depth(info.luma_bit_depth, s.bit_depth_luma_minus8)
            &&& is_depth(info.chroma_bit_depth, s.bit_depth_chroma_minus8)
            &&& is_format(info.chroma_subsampling, s.chroma_format_idc)
            &&& s.bit_depth_luma_minus8 == 0 ==> info.luma_bit_depth == ComponentBitDepth::Type8
            &&& s.bit_depth_luma_minus8 == 2 ==> info.luma_bit_depth == ComponentBitDepth::Type10
            &&& s.bit_depth_luma_minus8 == 4 ==> info.luma_bit_depth == ComponentBitDepth::Type12
            &&& s.bit_depth_chroma_minus8 == 0 ==> info.chroma_bit_depth
                == ComponentBitDepth::Type8
            &&& s.bit_depth_chroma_minus8 == 2 ==> info.chroma_bit_depth
                == ComponentBitDepth::Type10
            &&& s.bit_depth_chroma_minus8 == 4 ==> info.chroma_bit_depth
                == ComponentBitDepth::Type12
        },
{
    let std_pps: Option<H264OrH265Pps> = match pps {
        Some(p) => Some(H264OrH265Pps::H265(p)),
        None => None,
    };
    match sps {
        Some(s) => {
            let unit: u32 = unit_of(s.log2_min_luma_coding_block_size_minus3);
            let (across, down): ((u32, u32), (u32, u32)) = if s.conformance_window_flag {
                (
                    window(
                        s.pic_width_in_luma_samples,
                        s.conf_win_left_offset,
                        s.conf_win_right_offset,
                        unit,
                    ),
                    window(
                        s.pic_height_in_luma_samples,
                        s.conf_win_top_offset,
                        s.conf_win_bottom_offset,
                        unit,
                    ),
                )
            } else {
                (
                    (0, s.pic_width_in_luma_samples as u32),
                    (0, s.pic_height_in_luma_samples as u32),
                )
            };
            let slots: u32 = if s.max_num_ref_frames < 4 {
                4
            } else {
                s.max_num_ref_frames as u32
            };
            ParsedInfo {
                vps,
                coded_width: round_up_to_16(s.pic_width_in_luma_samples),
                coded_height: round_up_to_16(s.pic_height_in_luma_samples),
                display_width: across.1,
                display_height: down.1,
                crop_left: across.0,
                crop_top: down.0,
                profile_idc: 1,
                max_dpb_slots: slots,
                chroma_subsampling: chroma_subsampling(s.chroma_format_idc),
                luma_bit_depth: component_bit_depth(s.bit_depth_luma_minus8 as u32 + 8),
                chroma_bit_depth: component_bit_depth(s.bit_depth_chroma_minus8 as u32 + 8),
                sps: Some(H264OrH265Sps::H265(s)),
                pps: std_pps,
            }
        },
        None => ParsedInfo {
            vps,
            sps: None,
            pps: std_pps,
            coded_width: 0,
            coded_height: 0,
            display_width: 0,
            display_height: 0,
            crop_left: 0,
            crop_top: 0,
            profile_idc: 1,
            max_dpb_slots: 16,
            chroma_subsampling: ChromaSubsampling::Type420,
            luma_bit_depth: ComponentBitDepth::Type8,
            chroma_bit_depth: ComponentBitDepth::Type8,
        },
    }
}

/// Where the conformance window cuts off no more than there is, what is shown of
/// an H.265 picture lies within the coded picture.
pub proof fn law_shown_part_lies_in_picture(sps: H265Sps)
    requires
        sps.conformance_window_flag ==> {
            &&& sps.log2_min_luma_coding_block_size_minus3 <= 28
            &&& (sps.conf_win_left_offset + sps.conf_win_right_offset) * window_unit(sps)
                <= sps.pic_width_in_luma_samples
            &&& (sps.conf_win_top_offset + sps.conf_win_bottom_offset) * window_unit(sps)
                <= sps.pic_height_in_luma_samples
        },
    ensures
        h265_shown_across(sps).0 + h265_shown_across(sps).1 <= sps.pic_width_in_luma_samples,
        h265_shown_down(sps).0 + h265_shown_down(sps).1 <= sps.pic_height_in_luma_samples,
        sps.pic_width_in_luma_samples <= up_to_16(sps.pic_width_in_luma_samples as int),
        sps.pic_height_in_luma_samples <= up_to_16(sps.pic_height_in_luma_samples as int),
{
    if sps.conformance_window_flag {
        vstd::arithmetic::power2::lemma2_to64();
        let n = (sps.log2_min_luma_coding_block_size_minus3 + 3) as nat;
        vstd::arithmetic::power2::lemma_pow2_pos(n);
        if n < 31 {
            vstd::arithmetic::power2::lemma_pow2_strictly_increases(n, 31);
        }
        let unit = window_unit(sps);
        assert(unit >= 1);
        lemma_shown(
            sps.pic_width_in_luma_samples,
            sps.conf_win_left_offset,
            sps.conf_win_right_offset,
            unit,
        );
        lemma_shown(
            sps.pic_height_in_luma_samples,
            sps.conf_win_top_offset,
            sps.conf_win_bottom_offset,
            unit,
        );
    }
}

proof fn lemma_shown(full: u16, before: u32, after: u32, unit: u32)
    requires
        unit >= 1,
        (before + after) * unit <= full,
    ensures
        shown(full, before, after, unit).0 + shown(full, before, after, unit).1 <= full,
{
    assert(before + after <= (before + after) * unit) by (nonlinear_arith)
        requires
            unit >= 1,
            before >= 0,
            after >= 0,
    ;
    assert(before * unit <= (before + after) * unit) by (nonlinear_arith)
        requires
            unit >= 1,
            after >= 0,
    ;
    assert(before * unit >= 0) by (nonlinear_arith)
        requires
            unit >= 1,
            before >= 0,
    ;
}

// ---------------------------------------------------------------------------
// How a stream is set up
// ---------------------------------------------------------------------------

/// What a decoder for a stream is set up with.
#[derive(Debug, Clone)]
pub struct StreamSetup {
    pub codec: VideoCodec,
    pub parsed: ParsedInfo,
    /// The number of slots of the session, one of them for the current picture.
    pub session_dpb_slots: u32,
    pub coded_extent: Extent2D,
}

/// The number of slots of an H.264 or H.265 session: at most four references, and
/// the current picture.
pub open spec fn h26x_slots(max_dpb_slots: u32) -> u32 {
    if max_dpb_slots < 4 {
        (max_dpb_slots + 1) as u32
    } else {
        5
    }
}

/// An H.264 or H.265 stream is set up, unless its dimensions are unknown.
pub open spec fn is_h26x_setup(
    r: VideoResult<StreamSetup>,
    codec: VideoCodec,
    parsed: ParsedInfo,
) -> bool {
    if parsed.coded_width == 0 || parsed.coded_height == 0 {
        r matches Err(VideoError::DecoderInit(m)) && m@ == "Failed to parse video dimensions"@
    } else {
        r matches Ok(s) && s == (StreamSetup {
            codec,
            parsed,
            session_dpb_slots: h26x_slots(parsed.max_dpb_slots),
            coded_extent: Extent2D { width: parsed.coded_width, height: parsed.coded_height },
        })
    }
}

/// Sets up an H.264 or H.265 stream.
pub fn set_up_h26x(codec: VideoCodec, parsed: ParsedInfo) -> (r: VideoResult<StreamSetup>)
    ensures
        is_h26x_setup(r, codec, parsed),
{
    if parsed.coded_width == 0 || parsed.coded_height == 0 {
        return Err(VideoError::DecoderInit("Failed to parse video dimensions".to_owned()));
    }
    let session_dpb_slots: u32 = if parsed.max_dpb_slots < 4 {
        parsed.max_dpb_slots + 1
    } else {
        5
    };
    let coded_extent = Extent2D { width: parsed.coded_width, height: parsed.coded_height };
    Ok(StreamSetup { codec, parsed, session_dpb_slots, coded_extent })
}

/// What a VP9 frame's header says of the stream.
#[derive(Debug, Clone, Copy, PartialEq, Eq, Structural)]
pub struct Vp9StreamInfo {
    pub frame_width: u32,
    pub frame_height: u32,
    pub render_width: u32,
    pub render_height: u32,
    pub profile: u8,
    pub bit_depth: u8,
}

/// A stream of 4:2:0 pictures without parameter sets.
pub open spec fn plain_setup(
    codec: VideoCodec,
    coded: Extent2D,
    display: Extent2D,
    profile_idc: u32,
    bits: int,
    max_dpb_slots: u32,
) -> StreamSetup {
    StreamSetup {
        codec,
        parsed: ParsedInfo {
            vps: None,
            sps: None,
            pps: None,
            coded_width: coded.width,
            coded_height: coded.height,
            display_width: display.width,
            display_height: display.height,
            crop_left: 0,
            crop_top: 0,
            profile_idc,
            max_dpb_slots,
            chroma_subsampling: ChromaSubsampling::Type420,
            luma_bit_depth: depth_of(bits),
            chroma_bit_depth: depth_of(bits),
        },
        session_dpb_slots: (max_dpb_slots + 1) as u32,
        coded_extent: coded,
    }
}

fn plain_stream(
    codec: VideoCodec,
    coded: Extent2D,
    display: Extent2D,
    profile_idc: u32,
    bits: u32,
    max_dpb_slots: u32,
) -> (s: StreamSetup)
    requires
        max_dpb_slots < u32::MAX,
    ensures
        s == plain_setup(codec, coded, display, profile_idc, bits as int, max_dpb_slots),
{
    let depth: ComponentBitDepth = component_bit_depth(bits);
    StreamSetup {
        codec,
        parsed: ParsedInfo {
            vps: None,
            sps: None,
            pps: None,
            coded_width: coded.width,
            coded_height: coded.height,
            display_width: display.width,
            display_height: display.height,
            crop_left: 0,
            crop_top: 0,
            profile_idc,
            max_dpb_slots,
            chroma_subsampling: ChromaSubsampling::Type420,
            luma_bit_depth: depth,
            chroma_bit_depth: depth,
        },
        session_dpb_slots: max_dpb_slots + 1,
        coded_extent: coded,
    }
}

/// The frame that a VP9 stream is set up by: its first.
pub fn first_vp9_frame(data: &[u8], headers: &[Vec<Option<Vp9HeaderExtent>>]) -> (r: VideoResult<
    Vec<u8>,
>)
    requires
        !is_ivf(data@) ==> headers_match(vp9_packets(data@), headers@),
    ensures
        match r {
            Ok(frame) => {
                &&& vp9_stream_frames(data@, headers@).len() > 0
                &&& frame@ == vp9_stream_frames(data@, headers@)[0]
            },
            Err(VideoError::DecoderInit(m)) => {
                &&& vp9_stream_frames(data@, headers@).len() == 0
                &&& m@ == "No VP9 frames found"@
            },
            Err(_) => false,
        },
{
    let raw: Vec<Vec<u8>> = if looks_like_ivf(data) {
        unpack_ivf(data)
    } else {
        let packets: Vec<Vec<u8>> = vp9_stream_packets(data);
        split_vp9_bitstream(packets.as_slice(), headers)
    };
    assert(byte_seqs(raw@).len() == raw@.len());
    if raw.len() == 0 {
        return Err(VideoError::DecoderInit("No VP9 frames found".to_owned()));
    }
    assert(byte_seqs(raw@)[0] == raw@[0]@);
    Ok(owned(raw[0].as_slice()))
}

/// Sets up a VP9 stream by what its first frame's header says, or by the message
/// with which the parser refused it. VP9 has eight references.
pub fn parse_vp9_init(first: Result<Vp9StreamInfo, String>) -> (r: VideoResult<StreamSetup>)
    ensures
        match first {
            Ok(f) => if f.frame_width == 0 || f.frame_height == 0 {
                r matches Err(VideoError::DecoderInit(m)) && m@
                    == "Failed to parse VP9 dimensions"@
            } else {
                r matches Ok(s) && s == plain_setup(
                    VideoCodec::DecodeVp9,
                    Extent2D { width: f.frame_width, height: f.frame_height },
                    Extent2D { width: f.render_width, height: f.render_height },
                    f.profile as u32,
                    f.bit_depth as int,
                    8,
                )
            },
            Err(e) => r matches Err(VideoError::DecoderInit(m)) && m@
                == "Failed to parse first VP9 frame: "@ + e@,
        },
{
    match first {
        Ok(f) => {
            if f.frame_width == 0 || f.frame_height == 0 {
                return Err(VideoError::DecoderInit("Failed to parse VP9 dimensions".to_owned()));
            }
            Ok(
                plain_stream(
                    VideoCodec::DecodeVp9,
                    Extent2D { width: f.frame_width, height: f.frame_height },
                    Extent2D { width: f.render_width, height: f.render_height },
                    f.profile as u32,
                    f.bit_depth as u32,
                    8,
                ),
            )
        },
        Err(e) => {
            let mut m: String = "Failed to parse first VP9 frame: ".to_owned();
            m.append(e.as_str());
            Err(VideoError::DecoderInit(m))
        },
    }
}

/// The frame that an AV1 stream is set up by: its first.
pub fn first_av1_frame(data: &[u8]) -> (r: VideoResult<Vec<u8>>)
    ensures
        match r {
            Ok(frame) => av1_packets(data@).len() > 0 && frame@ == av1_packets(data@)[0],
            Err(VideoError::DecoderInit(m)) => av1_packets(data@).len() == 0 && m@
                == "No AV1 frames found"@,
            Err(_) => false,
        },
{
    if looks_like_ivf(data) {
        let raw: Vec<Vec<u8>> = unpack_ivf(data);
        assert(byte_seqs(raw@).len() == raw@.len());
        if raw.len() == 0 {
            return Err(VideoError::DecoderInit("No AV1 frames found".to_owned()));
        }
        assert(byte_seqs(raw@)[0] == raw@[0]@);
        Ok(owned(raw[0].as_slice()))
    } else {
        Ok(owned(data))
    }
}

/// The bytes in which the sequence header of AV1 data is looked for: the first
/// packet of an IVF container, all of the data where there is no such packet; none
/// where there are no data.
pub fn av1_sps_source(data: &[u8]) -> (r: Option<Vec<u8>>)
    ensures
        match r {
            Some(bytes) => data@.len() > 0 && bytes@ == if av1_packets(data@).len() > 0 {
                av1_packets(data@)[0]
            } else {
                data@
            },
            None => data@.len() == 0,
        },
{
    if data.len() == 0 {
        return None;
    }
    match first_av1_frame(data) {
        Ok(frame) => Some(frame),
        Err(_) => Some(owned(data)),
    }
}

/// Sets up an AV1 stream by its sequence header. AV1 has eight references, and
/// one slot more.
pub fn parse_av1_init(sps: Option<Av1Sps>) -> (r: VideoResult<StreamSetup>)
    ensures
        match sps {
            Some(s) => {
                let size = Extent2D {
                    width: (s.max_frame_width_minus_1 + 1) as u32,
                    height: (s.max_frame_height_minus_1 + 1) as u32,
                };
                r matches Ok(setup) && setup == plain_setup(
                    VideoCodec::DecodeAv1,
                    size,
                    size,
                    s.profile as u32,
                    av1_bit_depth(s) as int,
                    9,
                )
            },
            None => r matches Err(VideoError::DecoderInit(m)) && m@
                == "Failed to parse AV1 dimensions"@,
        },
{
    match sps {
        Some(s) => {
            let size = Extent2D {
                width: s.max_frame_width_minus_1 as u32 + 1,
                height: s.max_frame_height_minus_1 as u32 + 1,
            };
            Ok(
                plain_stream(
                    VideoCodec::DecodeAv1,
                    size,
                    size,
                    s.profile as u32,
                    bit_depth_of(&s) as u32,
                    9,
                ),
            )
        },
        None => Err(VideoError::DecoderInit("Failed to parse AV1 dimensions".to_owned())),
    }
}

// ---------------------------------------------------------------------------
// Laws
// ---------------------------------------------------------------------------

/// What is told of an H.264 stream by its sequence parameter set: it is as many
/// macroblocks of 16 samples wide as the set says, and as high, or twice as high where
/// there are fields; it is shown as a whole; its chroma format, bit depths and profile are
/// those of the set, as far as they are known.
pub proof fn law_h264_streams(s: H264Sps, pps: Option<H264Pps>)
    ensures
        ({
            let info = h264_info(Some(s), pps);
            &&& info.coded_width == 16 * (s.pic_width_in_mbs_minus1 + 1)
            &&& s.frame_mbs_only_flag ==> info.coded_height == 16 * (
            s.pic_height_in_map_units_minus1 + 1)
            &&& !s.frame_mbs_only_flag ==> info.coded_height == 32 * (
            s.pic_height_in_map_units_minus1 + 1)
            &&& info.display_width == info.coded_width && info.display_height == info.coded_height
            &&& info.crop_left == 0 && info.crop_top == 0
            &&& info.max_dpb_slots == 16
            &&& is_depth(info.luma_bit_depth, s.bit_depth_luma_minus8)
            &&& is_depth(info.chroma_bit_depth, s.bit_depth_chroma_minus8)
            &&& is_format(info.chroma_subsampling, s.chroma_format_idc)
            &&& info.sps == Some(H264OrH265Sps::H264(s))
            &&& info.vps is None
            &&& pps matches Some(p) ==> info.pps == Some(H264OrH265Pps::H264(p))
            &&& pps is None ==> info.pps is None
            &&& s.profile_idc == 66 || s.profile_idc == 77 || s.profile_idc == 88 || s.profile_idc
                == 100 || s.profile_idc == 110 || s.profile_idc == 122 || s.profile_idc == 244
                ==> info.profile_idc == s.profile_idc
            &&& s.profile_idc == 41 ==> info.profile_idc == 66
            &&& info.profile_idc == 66 || info.profile_idc == 77 || info.profile_idc == 88
                || info.profile_idc == 100 || info.profile_idc == 110 || info.profile_idc == 122
                || info.profile_idc == 244
            &&& s.profile_idc != 41 && info.profile_idc != s.profile_idc ==> info.profile_idc == 100
        }),
{
}

/// What is told of an H.265 stream by its sequence parameter set: its coded size is that of
/// the set, rounded up to 16 samples; what is shown is all that the conformance window does
/// not cut off; its chroma format and bit depths are those of the set; it has as many slots
/// as the set says, and at least four.
pub proof fn law_h265_streams(vps: Option<H265Vps>, s: H265Sps, pps: Option<H265Pps>)
    requires
        s.log2_min_luma_coding_block_size_minus3 <= 28,
    ensures
        ({
            let info = h265_info(vps, Some(s), pps);
            let unit = pow2((s.log2_min_luma_coding_block_size_minus3 + 3) as nat) as int;
            let width = s.pic_width_in_luma_samples as int;
            let height = s.pic_height_in_luma_samples as int;
            &&& info.coded_width % 16 == 0 && width <= info.coded_width < width + 16
            &&& info.coded_height % 16 == 0 && height <= info.coded_height < height + 16
            &&& !s.conformance_window_flag ==> info.display_width == width && info.display_height
                == height && info.crop_left == 0 && info.crop_top == 0
            &&& s.conformance_window_flag && (s.conf_win_left_offset + s.conf_win_right_offset) * unit
                <= width ==> info.crop_left == s.conf_win_left_offset * unit && info.crop_left
                + info.display_width + s.conf_win_right_offset * unit == width
            &&& s.conformance_window_flag && (s.conf_win_top_offset + s.conf_win_bottom_offset) * unit
                <= height ==> info.crop_top == s.conf_win_top_offset * unit && info.crop_top
                + info.display_height + s.conf_win_bottom_offset * unit == height
            &&& is_depth(info.luma_bit_depth, s.bit_depth_luma_minus8)
            &&& is_depth(info.chroma_bit_depth, s.bit_depth_chroma_minus8)
            &&& is_format(info.chroma_subsampling, s.chroma_format_idc)
            &&& s.max_num_ref_frames >= 4 ==> info.max_dpb_slots == s.max_num_ref_frames
            &&& s.max_num_ref_frames < 4 ==> info.max_dpb_slots == 4
            &&& info.profile_idc == 1
            &&& info.sps == Some(H264OrH265Sps::H265(s))
            &&& info.vps == vps
            &&& pps matches Some(p) ==> info.pps == Some(H264OrH265Pps::H265(p))
            &&& pps is None ==> info.pps is None
        }),
{
    vstd::arithmetic::power2::lemma2_to64();
    let n = (s.log2_min_luma_coding_block_size_minus3 + 3) as nat;
    vstd::arithmetic::power2::lemma_pow2_pos(n);
    if n < 31 {
        vstd::arithmetic::power2::lemma_pow2_strictly_increases(n, 31);
    }
    let unit = window_unit(s);
    if s.conformance_window_flag {
        if (s.conf_win_left_offset + s.conf_win_right_offset) * unit
            <= s.pic_width_in_luma_samples {
            lemma_shown_exactly(
                s.pic_width_in_luma_samples,
                s.conf_win_left_offset,
                s.conf_win_right_offset,
                unit,
            );
        }
        if (s.conf_win_top_offset + s.conf_win_bottom_offset) * unit
            <= s.pic_height_in_luma_samples {
            lemma_shown_exactly(
                s.pic_height_in_luma_samples,
                s.conf_win_top_offset,
                s.conf_win_bottom_offset,
                unit,
            );
        }
    }
}

proof fn lemma_shown_exactly(full: u16, before: u32, after: u32, unit: u32)
    requires
        unit >= 1,
        (before + after) * unit <= full,
    ensures
        shown(full, before, after, unit).0 == before * unit,
        shown(full, before, after, unit).0 + shown(full, before, after, unit).1 + after * unit
            == full,
{
    assert(before + after <= (before + after) * unit) by (nonlinear_arith)
        requires
            unit >= 1,
            before >= 0,
            after >= 0,
    ;
    assert((before + after) * unit == before * unit + after * unit) by (nonlinear_arith);
    assert(before * unit >= 0) by (nonlinear_arith)
        requires
            unit >= 1,
            before >= 0,
    ;
    assert(after * unit >= 0) by (nonlinear_arith)
        requires
            unit >= 1,
            after >= 0,
    ;
}

/// Streams without a sequence parameter set have no dimensions, and are refused.
pub proof fn law_streams_without_parameters(
    codec: VideoCodec,
    vps: Option<H265Vps>,
    pps: Option<H264Pps>,
    pps_h265: Option<H265Pps>,
    r: VideoResult<StreamSetup>,
    q: VideoResult<StreamSetup>,
)
    requires
        is_h26x_setup(r, codec, h264_info(None, pps)),
        is_h26x_setup(q, codec, h265_info(vps, None, pps_h265)),
    ensures
        r is Err,
        q is Err,
{
}

/// A session of an H.264 or H.265 stream has a slot for the current picture and for as many
/// references as the stream has, but for no more than four.
pub proof fn law_h26x_sessions(r: VideoResult<StreamSetup>, codec: VideoCodec, parsed: ParsedInfo)
    requires
        is_h26x_setup(r, codec, parsed),
    ensures
        r is Ok <==> parsed.coded_width != 0 && parsed.coded_height != 0,
        r matches Ok(s) ==> {
            &&& s.codec == codec
            &&& s.parsed == parsed
            &&& s.coded_extent.width == parsed.coded_width
            &&& s.coded_extent.height == parsed.coded_height
            &&& parsed.max_dpb_slots <= 4 ==> s.session_dpb_slots == parsed.max_dpb_slots + 1
            &&& parsed.max_dpb_slots > 4 ==> s.session_dpb_slots == 5
        },
{
}

/// A stream of VP9 or AV1 is set up in its own size, shown in its own size, and has one
/// slot more than references.
pub proof fn law_plain_streams(
    codec: VideoCodec,
    coded: Extent2D,
    display: Extent2D,
    profile_idc: u32,
    bits: int,
    max_dpb_slots: u32,
)
    requires
        max_dpb_slots < u32::MAX,
    ensures
        ({
            let s = plain_setup(codec, coded, display, profile_idc, bits, max_dpb_slots);
            &&& s.codec == codec
            &&& s.coded_extent == coded
            &&& s.parsed.coded_width == coded.width && s.parsed.coded_height == coded.height
            &&& s.parsed.display_width == display.width && s.parsed.display_height == display.height
            &&& s.parsed.crop_left == 0 && s.parsed.crop_top == 0
            &&& s.parsed.profile_idc == profile_idc
            &&& s.parsed.max_dpb_slots == max_dpb_slots
            &&& s.session_dpb_slots == max_dpb_slots + 1
            &&& s.parsed.chroma_subsampling == ChromaSubsampling::Type420
            &&& s.parsed.luma_bit_depth == s.parsed.chroma_bit_depth
            &&& s.parsed.luma_bit_depth == ComponentBitDepth::Type10 <==> bits == 10
            &&& s.parsed.luma_bit_depth == ComponentBitDepth::Type12 <==> bits == 12
            &&& s.parsed.sps is None && s.parsed.pps is None && s.parsed.vps is None
        }),
{
}

/// A conformance window that cuts off more than there is leaves nothing to show.
pub proof fn law_windows_can_leave_nothing(full: u16, before: u32, after: u32, unit: u32)
    requires
        before + after <= u32::MAX,
        (before + after) * unit <= u32::MAX,
    ensures
        full < (before + after) * unit ==> shown(full, before, after, unit).1 == 0,
        full >= (before + after) * unit ==> shown(full, before, after, unit).1 == full - (before
            + after) * unit,
        shown(full, before, after, unit).0 == before * unit,
{
    assert(before * unit <= (before + after) * unit) by (nonlinear_arith)
        requires
            before >= 0,
            after >= 0,
            unit >= 0,
    ;
}

} // verus!
