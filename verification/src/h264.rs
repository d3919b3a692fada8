//! H.264 decoding: parameter sets for the session, and what is recorded for a
//! picture.

use crate::codes::ImageLayout;
use crate::commands::{command_barriers, plan_barriers, ImageBarrier, RefImage};
use crate::dpb::LastAccessType;
use crate::error::{VideoError, VideoResult};
use crate::parameter_sets::{H264Pps, H264Sps, H264SpsVui};
use vstd::arithmetic::power2::{lemma2_to64, lemma_pow2_pos, lemma_pow2_strictly_increases, pow2};
use vstd::prelude::*;
use vstd::string::*;

verus! {

/// H.264 video usability information, as the Vulkan session takes it.
#[derive(Debug, Clone, Copy)]
pub struct StdVideoH264SequenceParameterSetVui {
    pub aspect_ratio_info_present_flag: bool,
    pub overscan_info_present_flag: bool,
    pub overscan_appropriate_flag: bool,
    pub video_signal_type_present_flag: bool,
    pub video_full_range_flag: bool,
    pub color_description_present_flag: bool,
    pub chroma_loc_info_present_flag: bool,
    pub timing_info_present_flag: bool,
    pub fixed_frame_rate_flag: bool,
    pub bitstream_restriction_flag: bool,
    pub nal_hrd_parameters_present_flag: bool,
    pub vcl_hrd_parameters_present_flag: bool,
    pub aspect_ratio_idc: u32,
    pub sar_width: u16,
    pub sar_height: u16,
    pub video_format: u8,
    pub colour_primaries: u8,
    pub transfer_characteristics: u8,
    pub matrix_coefficients: u8,
    pub num_units_in_tick: u32,
    pub time_scale: u32,
    pub max_num_reorder_frames: u8,
    pub max_dec_frame_buffering: u8,
    pub chroma_sample_loc_type_top_field: u8,
    pub chroma_sample_loc_type_bottom_field: u8,
}

/// H.264 sequence parameter set, as the Vulkan session takes it.
#[derive(Debug, Clone, Copy)]
pub struct StdVideoH264SequenceParameterSet {
    pub separate_colour_plane_flag: bool,
    pub qpprime_y_zero_transform_bypass_flag: bool,
    pub frame_mbs_only_flag: bool,
    pub direct_8x8_inference_flag: bool,
    pub frame_cropping_flag: bool,
    pub vui_parameters_present_flag: bool,
    pub profile_idc: u32,
    pub level_idc: u32,
    pub chroma_format_idc: u32,
    pub seq_parameter_set_id: u8,
    pub bit_depth_luma_minus8: u8,
    pub bit_depth_chroma_minus8: u8,
    pub log2_max_frame_num_minus4: u8,
    pub pic_order_cnt_type: u32,
    pub offset_for_non_ref_pic: i32,
    pub offset_for_top_to_bottom_field: i32,
    pub log2_max_pic_order_cnt_lsb_minus4: u8,
    pub num_ref_frames_in_pic_order_cnt_cycle: u8,
    pub max_num_ref_frames: u8,
    pub pic_width_in_mbs_minus1: u32,
    pub pic_height_in_map_units_minus1: u32,
    pub frame_crop_left_offset: u32,
    pub frame_crop_right_offset: u32,
    pub frame_crop_top_offset: u32,
    pub frame_crop_bottom_offset: u32,
    pub vui: StdVideoH264SequenceParameterSetVui,
}

/// H.264 picture parameter set, as the Vulkan session takes it.
#[derive(Debug, Clone, Copy)]
pub struct StdVideoH264PictureParameterSet {
    pub weighted_pred_flag: bool,
    pub deblocking_filter_control_present_flag: bool,
    pub redundant_pic_cnt_present_flag: bool,
    pub transform_8x8_mode_flag: bool,
    pub constrained_intra_pred_flag: bool,
    pub seq_parameter_set_id: u8,
    pub pic_parameter_set_id: u8,
    pub num_ref_idx_l0_default_active_minus1: u8,
    pub num_ref_idx_l1_default_active_minus1: u8,
    pub weighted_bipred_idc: u32,
    pub pic_init_qp_minus26: i8,
    pub pic_init_qs_minus26: i8,
    pub chroma_qp_index_offset: i8,
    pub second_chroma_qp_index_offset: i8,
}

/// The usability information that stands for none.
pub open spec fn no_h264_vui() -> StdVideoH264SequenceParameterSetVui {
    StdVideoH264SequenceParameterSetVui {
        aspect_ratio_info_present_flag: false,
        overscan_info_present_flag: false,
        overscan_appropriate_flag: false,
        video_signal_type_present_flag: false,
        video_full_range_flag: false,
        color_description_present_flag: false,
        chroma_loc_info_present_flag: false,
        timing_info_present_flag: false,
        fixed_frame_rate_flag: false,
        bitstream_restriction_flag: false,
        nal_hrd_parameters_present_flag: false,
        vcl_hrd_parameters_present_flag: false,
        aspect_ratio_idc: 0,
        sar_width: 0,
        sar_height: 0,
        video_format: 0,
        colour_primaries: 0,
        transfer_characteristics: 0,
        matrix_coefficients: 0,
        num_units_in_tick: 0,
        time_scale: 0,
        max_num_reorder_frames: 0,
        max_dec_frame_buffering: 0,
        chroma_sample_loc_type_top_field: 0,
        chroma_sample_loc_type_bottom_field: 0,
    }
}

/// The usability information of a sequence, as the Vulkan session takes it.
pub open spec fn h264_vui_of(vui: H264SpsVui) -> StdVideoH264SequenceParameterSetVui {
    StdVideoH264SequenceParameterSetVui {
        aspect_ratio_info_present_flag: vui.aspect_ratio_info_present_flag,
        overscan_info_present_flag: vui.overscan_info_present_flag,
        overscan_appropriate_flag: vui.overscan_appropriate_flag,
        video_signal_type_present_flag: vui.video_signal_type_present_flag,
        video_full_range_flag: vui.video_full_range_flag,
        color_description_present_flag: vui.color_description_present_flag,
        chroma_loc_info_present_flag: vui.chroma_loc_info_present_flag,
        timing_info_present_flag: vui.timing_info_present_flag,
        fixed_frame_rate_flag: vui.fixed_frame_rate_flag,
        bitstream_restriction_flag: vui.bitstream_restriction_flag,
        nal_hrd_parameters_present_flag: vui.nal_hrd_parameters_present_flag,
        vcl_hrd_parameters_present_flag: vui.vcl_hrd_parameters_present_flag,
        aspect_ratio_idc: vui.aspect_ratio_idc as u32,
        sar_width: vui.sar_width,
        sar_height: vui.sar_height,
        video_format: vui.video_format,
        colour_primaries: vui.colour_primaries,
        transfer_characteristics: vui.transfer_characteristics,
        matrix_coefficients: vui.matrix_coefficients,
        num_units_in_tick: vui.num_units_in_tick,
        time_scale: vui.time_scale,
        max_num_reorder_frames: vui.max_num_reorder_frames,
        max_dec_frame_buffering: vui.max_dec_frame_buffering,
        chroma_sample_loc_type_top_field: vui.chroma_sample_loc_type_top_field,
        chroma_sample_loc_type_bottom_field: vui.chroma_sample_loc_type_bottom_field,
    }
}

fn convert_h264_vui(vui: &Option<H264SpsVui>) -> (r: StdVideoH264SequenceParameterSetVui)
    ensures
        r == match *vui {
            Some(v) => h264_vui_of(v),
            None => no_h264_vui(),
        },
{
    match vui {
        Some(vui) => StdVideoH264SequenceParameterSetVui {
            aspect_ratio_info_present_flag: vui.aspect_ratio_info_present_flag,
            overscan_info_present_flag: vui.overscan_info_present_flag,
            overscan_appropriate_flag: vui.overscan_appropriate_flag,
            video_signal_type_present_flag: vui.video_signal_type_present_flag,
            video_full_range_flag: vui.video_full_range_flag,
            color_description_present_flag: vui.color_description_present_flag,
            chroma_loc_info_present_flag: vui.chroma_loc_info_present_flag,
            timing_info_present_flag: vui.timing_info_present_flag,
            fixed_frame_rate_flag: vui.fixed_frame_rate_flag,
            bitstream_restriction_flag: vui.bitstream_restriction_flag,
            nal_hrd_parameters_present_flag: vui.nal_hrd_parameters_present_flag,
            vcl_hrd_parameters_present_flag: vui.vcl_hrd_parameters_present_flag,
            aspect_ratio_idc: vui.aspect_ratio_idc as u32,
            sar_width: vui.sar_width,
            sar_height: vui.sar_height,
            video_format: vui.video_format,
            colour_primaries: vui.colour_primaries,
            transfer_characteristics: vui.transfer_characteristics,
            matrix_coefficients: vui.matrix_coefficients,
            num_units_in_tick: vui.num_units_in_tick,
            time_scale: vui.time_scale,
            max_num_reorder_frames: vui.max_num_reorder_frames,
            max_dec_frame_buffering: vui.max_dec_frame_buffering,
            chroma_sample_loc_type_top_field: vui.chroma_sample_loc_type_top_field,
            chroma_sample_loc_type_bottom_field: vui.chroma_sample_loc_type_bottom_field,
        },
        None => StdVideoH264SequenceParameterSetVui {
            aspect_ratio_info_present_flag: false,
            overscan_info_present_flag: false,
            overscan_appropriate_flag: false,
            video_signal_type_present_flag: false,
            video_full_range_flag: false,
            color_description_present_flag: false,
            chroma_loc_info_present_flag: false,
            timing_info_present_flag: false,
            fixed_frame_rate_flag: false,
            bitstream_restriction_flag: false,
            nal_hrd_parameters_present_flag: false,
            vcl_hrd_parameters_present_flag: false,
            aspect_ratio_idc: 0,
            sar_width: 0,
            sar_height: 0,
            video_format: 0,
            colour_primaries: 0,
            transfer_characteristics: 0,
            matrix_coefficients: 0,
            num_units_in_tick: 0,
            time_scale: 0,
            max_num_reorder_frames: 0,
            max_dec_frame_buffering: 0,
            chroma_sample_loc_type_top_field: 0,
            chroma_sample_loc_type_bottom_field: 0,
        },
    }
}

/// A sequence parameter set as the Vulkan session takes it.
pub open spec fn h264_sps_of(sps: H264Sps) -> StdVideoH264SequenceParameterSet {
    StdVideoH264SequenceParameterSet {
        separate_colour_plane_flag: sps.separate_colour_plane_flag,
        qpprime_y_zero_transform_bypass_flag: sps.qpprime_y_zero_transform_bypass_flag,
        frame_mbs_only_flag: sps.frame_mbs_only_flag,
        direct_8x8_inference_flag: sps.direct_8x8_inference_flag,
        frame_cropping_flag: sps.frame_cropping_flag,
        vui_parameters_present_flag: sps.vui_parameters_present_flag,
        profile_idc: sps.profile_idc as u32,
        level_idc: sps.level_idc as u32,
        chroma_format_idc: sps.chroma_format_idc as u32,
        seq_parameter_set_id: sps.seq_parameter_set_id as u8,
        bit_depth_luma_minus8: sps.bit_depth_luma_minus8,
        bit_depth_chroma_minus8: sps.bit_depth_chroma_minus8,
        log2_max_frame_num_minus4: sps.log2_max_frame_num_minus4,
        pic_order_cnt_type: sps.pic_order_cnt_type as u32,
        offset_for_non_ref_pic: 0,
        offset_for_top_to_bottom_field: 0,
        log2_max_pic_order_cnt_lsb_minus4: sps.log2_max_pic_order_cnt_lsb_minus4,
        num_ref_frames_in_pic_order_cnt_cycle: 0,
        max_num_ref_frames: sps.max_num_ref_frames as u8,
        pic_width_in_mbs_minus1: sps.pic_width_in_mbs_minus1 as u32,
        pic_height_in_map_units_minus1: sps.pic_height_in_map_units_minus1 as u32,
        frame_crop_left_offset: sps.frame_crop_left_offset,
        frame_crop_right_offset: sps.frame_crop_right_offset,
        frame_crop_top_offset: sps.frame_crop_top_offset,
        frame_crop_bottom_offset: sps.frame_crop_bottom_offset,
        vui: match sps.vui {
            Some(v) => h264_vui_of(v),
            None => no_h264_vui(),
        },
    }
}

/// Converts a sequence parameter set. Scaling lists and reference frame offsets
/// are not handed on; absent usability information is handed on as zeros.
pub fn convert_h264_sps(sps: &H264Sps) -> (r: StdVideoH264SequenceParameterSet)
    ensures
        r == h264_sps_of(*sps),
{
    StdVideoH264SequenceParameterSet {
        separate_colour_plane_flag: sps.separate_colour_plane_flag,
        qpprime_y_zero_transform_bypass_flag: sps.qpprime_y_zero_transform_bypass_flag,
        frame_mbs_only_flag: sps.frame_mbs_only_flag,
        direct_8x8_inference_flag: sps.direct_8x8_inference_flag,
        frame_cropping_flag: sps.frame_cropping_flag,
        vui_parameters_present_flag: sps.vui_parameters_present_flag,
        profile_idc: sps.profile_idc as u32,
        level_idc: sps.level_idc as u32,
        chroma_format_idc: sps.chroma_format_idc as u32,
        seq_parameter_set_id: sps.seq_parameter_set_id as u8,
        bit_depth_luma_minus8: sps.bit_depth_luma_minus8,
        bit_depth_chroma_minus8: sps.bit_depth_chroma_minus8,
        log2_max_frame_num_minus4: sps.log2_max_frame_num_minus4,
        pic_order_cnt_type: sps.pic_order_cnt_type as u32,
        offset_for_non_ref_pic: 0,
        offset_for_top_to_bottom_field: 0,
        log2_max_pic_order_cnt_lsb_minus4: sps.log2_max_pic_order_cnt_lsb_minus4,
        num_ref_frames_in_pic_order_cnt_cycle: 0,
        max_num_ref_frames: sps.max_num_ref_frames as u8,
        pic_width_in_mbs_minus1: sps.pic_width_in_mbs_minus1 as u32,
        pic_height_in_map_units_minus1: sps.pic_height_in_map_units_minus1 as u32,
        frame_crop_left_offset: sps.frame_crop_left_offset,
        frame_crop_right_offset: sps.frame_crop_right_offset,
        frame_crop_top_offset: sps.frame_crop_top_offset,
        frame_crop_bottom_offset: sps.frame_crop_bottom_offset,
        vui: convert_h264_vui(&sps.vui),
    }
}

/// A picture parameter set as the Vulkan session takes it.
pub open spec fn h264_pps_of(pps: H264Pps) -> StdVideoH264PictureParameterSet {
    StdVideoH264PictureParameterSet {
        weighted_pred_flag: pps.weighted_pred_flag,
        deblocking_filter_control_present_flag: pps.deblocking_filter_control_present_flag,
        redundant_pic_cnt_present_flag: pps.redundant_pic_cnt_present_flag,
        transform_8x8_mode_flag: pps.transform_8x8_mode_flag,
        constrained_intra_pred_flag: pps.constrained_intra_pred_flag,
        seq_parameter_set_id: pps.seq_parameter_set_id as u8,
        pic_parameter_set_id: pps.pic_parameter_set_id as u8,
        num_ref_idx_l0_default_active_minus1: pps.num_ref_idx_l0_default_active_minus1 as u8,
        num_ref_idx_l1_default_active_minus1: pps.num_ref_idx_l1_default_active_minus1 as u8,
        weighted_bipred_idc: pps.weighted_bipred_idc as u32,
        pic_init_qp_minus26: pps.pic_init_qp_minus26 as i8,
        pic_init_qs_minus26: pps.pic_init_qs_minus26 as i8,
        chroma_qp_index_offset: pps.chroma_qp_index_offset as i8,
        second_chroma_qp_index_offset: pps.second_chroma_qp_index_offset as i8,
    }
}

/// Converts a picture parameter set. Scaling lists are not handed on.
pub fn convert_h264_pps(pps: &H264Pps) -> (r: StdVideoH264PictureParameterSet)
    ensures
        r == h264_pps_of(*pps),
{
    StdVideoH264PictureParameterSet {
        weighted_pred_flag: pps.weighted_pred_flag,
        deblocking_filter_control_present_flag: pps.deblocking_filter_control_present_flag,
        redundant_pic_cnt_present_flag: pps.redundant_pic_cnt_present_flag,
        transform_8x8_mode_flag: pps.transform_8x8_mode_flag,
        constrained_intra_pred_flag: pps.constrained_intra_pred_flag,
        seq_parameter_set_id: pps.seq_parameter_set_id as u8,
        pic_parameter_set_id: pps.pic_parameter_set_id as u8,
        num_ref_idx_l0_default_active_minus1: pps.num_ref_idx_l0_default_active_minus1 as u8,
        num_ref_idx_l1_default_active_minus1: pps.num_ref_idx_l1_default_active_minus1 as u8,
        weighted_bipred_idc: pps.weighted_bipred_idc as u32,
        pic_init_qp_minus26: pps.pic_init_qp_minus26 as i8,
        pic_init_qs_minus26: pps.pic_init_qs_minus26 as i8,
        chroma_qp_index_offset: pps.chroma_qp_index_offset as i8,
        second_chroma_qp_index_offset: pps.second_chroma_qp_index_offset as i8,
    }
}

// ---------------------------------------------------------------------------
// Decode commands
// ---------------------------------------------------------------------------

/// A reference picture of a decode command. `image_view` and `image` are handles.
#[derive(Debug, Clone, Copy)]
pub struct H264DpbRefPicture {
    pub slot_index: u32,
    pub image_view: u64,
    pub image: u64,
    pub frame_num: u32,
    pub pic_order_cnt: [i32; 2],
    pub current_layout: ImageLayout,
    pub last_access: LastAccessType,
}

/// The picture that is decoded into.
#[derive(Debug, Clone, Copy)]
pub struct H264SetupPictureInfo {
    pub slot_index: u32,
    pub image_view: u64,
}

/// What a decode command says of its picture. It is always a whole frame.
#[derive(Debug, Clone, Copy)]
pub struct H264PictureInfo {
    pub frame_num: u16,
    pub pic_order_cnt: [i32; 2],
    pub seq_parameter_set_id: u8,
    pub pic_parameter_set_id: u8,
    pub is_intra: bool,
    pub is_reference: bool,
    pub is_idr: bool,
}

/// What a decode command says of a reference picture. Both of its fields are
/// available for prediction.
#[derive(Debug, Clone, Copy)]
pub struct H264ReferenceInfo {
    pub frame_num: u16,
    pub pic_order_cnt: [i32; 2],
    pub top_field_flag: bool,
    pub bottom_field_flag: bool,
}

/// A slot of a decode command, with what is said of its picture.
#[derive(Debug, Clone, Copy)]
pub struct H264Slot {
    pub slot_index: i32,
    pub image_view: u64,
    pub info: Option<H264ReferenceInfo>,
}

/// What is recorded for one H.264 decode command.
#[derive(Debug)]
pub struct H264DecodePlan {
    pub picture: H264PictureInfo,
    /// Whether the decoder is reset.
    pub reset: bool,
    /// The slots that coding begins with.
    pub begin_slots: Vec<H264Slot>,
    /// The slot of the picture itself.
    pub setup_slot: Option<H264Slot>,
    /// The slots of the reference pictures.
    pub ref_slots: Vec<H264Slot>,
    pub barriers: Vec<ImageBarrier>,
}

/// H.264 decoder state.
#[derive(Debug, Clone, Copy)]
pub struct H264Decoder {
    pub sps: Option<H264Sps>,
    pub pps: Option<H264Pps>,
    pub frame_count: u32,
    pub prev_frame_num: u32,
    pub prev_pic_order_cnt_lsb: u32,
    /// Counts the updates of session parameters.
    pub update_sequence_count: u32,
}

/// An update of session parameters.
#[derive(Debug, Clone, Copy)]
pub struct H264ParametersUpdate {
    pub update_sequence_count: u32,
    pub sps: Option<StdVideoH264SequenceParameterSet>,
    pub pps: Option<StdVideoH264PictureParameterSet>,
}

/// What the stream says of a picture, as far as it is known.
#[derive(Debug, Clone, Copy)]
pub struct H264Known {
    pub frame_num: Option<u32>,
    pub pic_order_cnt: Option<[i32; 2]>,
    pub is_intra: Option<bool>,
    pub is_reference: Option<bool>,
    pub is_idr: Option<bool>,
}

impl H264Known {
    /// Everything is known.
    pub open spec fn is_complete(&self) -> bool {
        &&& self.frame_num is Some
        &&& self.pic_order_cnt is Some
        &&& self.is_intra is Some
        &&& self.is_reference is Some
        &&& self.is_idr is Some
    }
}

/// The number of frame numbers.
pub open spec fn max_frame_num(sps: H264Sps) -> nat {
    pow2((sps.log2_max_frame_num_minus4 + 4) as nat)
}

/// The number of low order counts.
pub open spec fn max_poc_lsb(sps: H264Sps) -> nat {
    pow2((sps.log2_max_pic_order_cnt_lsb_minus4 + 4) as nat)
}

/// The numbers of frame numbers and of low order counts fit in 32 bits.
pub open spec fn sps_is_countable(sps: H264Sps) -> bool {
    sps.log2_max_frame_num_minus4 <= 27 && sps.log2_max_pic_order_cnt_lsb_minus4 <= 27
}

/// Two to the power of `log2 + 4`.
pub fn cycle_of(log2_minus4: u8) -> (r: u32)
    requires
        log2_minus4 <= 27,
    ensures
        r == pow2((log2_minus4 + 4) as nat),
        r > 0,
{
    let bits: u32 = log2_minus4 as u32 + 4;
    proof {
        lemma2_to64();
        lemma_pow2_pos(bits as nat);
        if bits < 31 {
            lemma_pow2_strictly_increases(bits as nat, 31);
        }
        vstd::bits::lemma_u32_shl_is_mul(1, bits);
    }
    1u32 << bits
}

/// What a picture is taken for: what the stream says of it where everything is
/// known; otherwise a reference picture that is counted by the frame counter.
pub struct H264Effective {
    pub frame_num: u32,
    pub pic_order_cnt: Seq<i32>,
    pub is_intra: bool,
    pub is_reference: bool,
    pub is_idr: bool,
}

/// What a picture is taken for.
pub open spec fn effective(known: H264Known, frame_count: u32, sps: H264Sps) -> H264Effective {
    if known.is_complete() {
        H264Effective {
            frame_num: known.frame_num->0,
            pic_order_cnt: known.pic_order_cnt->0@,
            is_intra: known.is_intra->0,
            is_reference: known.is_reference->0,
            is_idr: known.is_idr->0,
        }
    } else {
        let lsb = (frame_count as int % max_poc_lsb(sps) as int) as i32;
        H264Effective {
            frame_num: (frame_count as int % max_frame_num(sps) as int) as u32,
            pic_order_cnt: seq![lsb, lsb],
            is_intra: false,
            is_reference: true,
            is_idr: false,
        }
    }
}

/// The frame number that is recorded: the remainder in the cycle.
pub open spec fn recorded_frame_num(frame_num: u32, sps: H264Sps) -> u16 {
    ((frame_num as int % max_frame_num(sps) as int) as u32) as u16
}

/// What is said of a reference picture.
pub open spec fn is_info(
    info: H264ReferenceInfo,
    frame_num: u32,
    pic_order_cnt: Seq<i32>,
    sps: H264Sps,
) -> bool {
    &&& info.frame_num == recorded_frame_num(frame_num, sps)
    &&& info.pic_order_cnt@ == pic_order_cnt
    &&& info.top_field_flag
    &&& info.bottom_field_flag
}

/// A slot is that of a reference picture.
pub open spec fn is_ref_slot(s: H264Slot, r: H264DpbRefPicture, sps: H264Sps) -> bool {
    &&& s.slot_index == r.slot_index as i32
    &&& s.image_view == r.image_view
    &&& s.info matches Some(info) && is_info(info, r.frame_num, r.pic_order_cnt@, sps)
}

/// A slot is that of the picture itself.
pub open spec fn is_setup_slot(
    s: H264Slot,
    setup: H264SetupPictureInfo,
    e: H264Effective,
    sps: H264Sps,
) -> bool {
    &&& s.slot_index == setup.slot_index as i32
    &&& s.image_view == setup.image_view
    &&& s.info matches Some(info) && is_info(info, e.frame_num, e.pic_order_cnt, sps)
}

/// The slots are those of the reference pictures, one for one.
pub open spec fn are_ref_slots(
    slots: Seq<H264Slot>,
    refs: Seq<H264DpbRefPicture>,
    sps: H264Sps,
) -> bool {
    &&& slots.len() == refs.len()
    &&& forall|i: int| 0 <= i < refs.len() ==> is_ref_slot(#[trigger] slots[i], refs[i], sps)
}

/// The slot that is described on a reset: the picture's own, the first where the
/// picture has none.
pub open spec fn described_slot(setup: Option<H264SetupPictureInfo>) -> int {
    match setup {
        Some(s) => s.slot_index as int,
        None => 0,
    }
}

/// The slots that coding begins with. On the first frame all slots are taken
/// into use, and that of the picture is described; later the references and the
/// picture itself are.
pub open spec fn are_begin_slots(
    slots: Seq<H264Slot>,
    is_first_frame: bool,
    setup: Option<H264SetupPictureInfo>,
    refs: Seq<H264DpbRefPicture>,
    views: Seq<u64>,
    e: H264Effective,
    sps: H264Sps,
) -> bool {
    if is_first_frame {
        &&& slots.len() == views.len()
        &&& forall|i: int|
            0 <= i < views.len() ==> {
                let s = #[trigger] slots[i];
                &&& s.slot_index == i as i32
                &&& s.image_view == views[i]
                &&& match s.info {
                    Some(info) => i == described_slot(setup) && is_info(
                        info,
                        e.frame_num,
                        e.pic_order_cnt,
                        sps,
                    ),
                    None => i != described_slot(setup),
                }
            }
    } else {
        match setup {
            Some(p) => slots.len() == refs.len() + 1 && are_ref_slots(slots.drop_last(), refs, sps)
                && is_setup_slot(slots.last(), p, e, sps),
            None => are_ref_slots(slots, refs, sps),
        }
    }
}

/// The images of the reference pictures; each has an image of its own.
pub open spec fn h264_ref_images(refs: Seq<H264DpbRefPicture>) -> Seq<RefImage> {
    refs.map_values(
        |r: H264DpbRefPicture| RefImage { image: r.image, layout: r.current_layout, layer: 0 },
    )
}

/// What is recorded of the picture.
pub open spec fn is_picture_info(
    p: H264PictureInfo,
    e: H264Effective,
    sps: H264Sps,
    pps: H264Pps,
) -> bool {
    &&& p.frame_num == recorded_frame_num(e.frame_num, sps)
    &&& p.pic_order_cnt@ == e.pic_order_cnt
    &&& p.seq_parameter_set_id == sps.seq_parameter_set_id as u8
    &&& p.pic_parameter_set_id == pps.pic_parameter_set_id as u8
    &&& p.is_intra == e.is_intra
    &&& p.is_reference == e.is_reference
    &&& p.is_idr == e.is_idr
}

impl H264Decoder {
    /// A decoder without parameter sets.
    pub fn new() -> (d: H264Decoder)
        ensures
            d == (H264Decoder {
                sps: None,
                pps: None,
                frame_count: 0,
                prev_frame_num: 0,
                prev_pic_order_cnt_lsb: 0,
                update_sequence_count: 0,
            }),
    {
        H264Decoder {
            sps: None,
            pps: None,
            frame_count: 0,
            prev_frame_num: 0,
            prev_pic_order_cnt_lsb: 0,
            update_sequence_count: 0,
        }
    }

    /// Sets the sequence parameter set.
    pub fn set_sps(&mut self, sps: H264Sps)
        ensures
            *final(self) == (H264Decoder { sps: Some(sps), ..*old(self) }),
    {
        self.sps = Some(sps);
    }

    /// Sets the picture parameter set.
    pub fn set_pps(&mut self, pps: H264Pps)
        ensures
            *final(self) == (H264Decoder { pps: Some(pps), ..*old(self) }),
    {
        self.pps = Some(pps);
    }

    /// Prepares an update of session parameters. The number of an update is always
    /// one more than that of the update before.
    pub fn update_session_parameters(
        &mut self,
        sps: Option<&H264Sps>,
        pps: Option<&H264Pps>,
    ) -> (u: H264ParametersUpdate)
        ensures
            *final(self) == (H264Decoder {
                update_sequence_count: old(self).update_sequence_count.wrapping_add(1),
                ..*old(self)
            }),
            u.update_sequence_count == final(self).update_sequence_count,
            u.sps == match sps {
                Some(s) => Some(h264_sps_of(*s)),
                None => None,
            },
            u.pps == match pps {
                Some(p) => Some(h264_pps_of(*p)),
                None => None,
            },
    {
        let std_sps: Option<StdVideoH264SequenceParameterSet> = match sps {
            Some(s) => Some(convert_h264_sps(s)),
            None => None,
        };
        let std_pps: Option<StdVideoH264PictureParameterSet> = match pps {
            Some(p) => Some(convert_h264_pps(p)),
            None => None,
        };
        self.update_sequence_count = self.update_sequence_count.wrapping_add(1);
        H264ParametersUpdate {
            update_sequence_count: self.update_sequence_count,
            sps: std_sps,
            pps: std_pps,
        }
    }

    fn build_picture_info(
        &self,
        sps: &H264Sps,
        pps: &H264Pps,
        frame_num: u32,
        pic_order_cnt: [i32; 2],
        is_intra: bool,
        is_reference: bool,
        is_idr: bool,
    ) -> (p: H264PictureInfo)
        requires
            sps_is_countable(*sps),
        ensures
            is_picture_info(
                p,
                H264Effective {
                    frame_num,
                    pic_order_cnt: pic_order_cnt@,
                    is_intra,
                    is_reference,
                    is_idr,
                },
                *sps,
                *pps,
            ),
    {
        let cycle: u32 = cycle_of(sps.log2_max_frame_num_minus4);
        H264PictureInfo {
            frame_num: (frame_num % cycle) as u16,
            pic_order_cnt,
            seq_parameter_set_id: sps.seq_parameter_set_id as u8,
            pic_parameter_set_id: pps.pic_parameter_set_id as u8,
            is_intra,
            is_reference,
            is_idr,
        }
    }

    /// Decides what is recorded for a decode command, and counts the picture.
    ///
    /// Where not everything is known of the picture, the decoder counts it by its
    /// frame counter, for which it needs a sequence parameter set.
    pub fn record_decode_command(
        &mut self,
        output_image: u64,
        setup: Option<H264SetupPictureInfo>,
        refs: &[H264DpbRefPicture],
        known: H264Known,
        is_first_frame: bool,
        dpb_views: &[u64],
    ) -> (r: VideoResult<H264DecodePlan>)
        requires
            known.is_complete() ==> old(self).sps is Some,
            old(self).sps is Some ==> old(self).pps is Some && sps_is_countable(old(self).sps->0),
            dpb_views@.len() <= u32::MAX,
        ensures
            r is Ok <==> old(self).sps is Some,
            r matches Err(e) ==> {
                &&& *final(self) == *old(self)
                &&& e matches VideoError::InvalidState(m)
                &&& m@ == "H264 SPS not set before decode"@
            },
            r matches Ok(plan) ==> {
                let sps = old(self).sps->0;
                let e = effective(known, old(self).frame_count, sps);
                &&& is_picture_info(plan.picture, e, sps, old(self).pps->0)
                &&& plan.reset == is_first_frame
                &&& are_begin_slots(
                    plan.begin_slots@,
                    is_first_frame,
                    setup,
                    refs@,
                    dpb_views@,
                    e,
                    sps,
                )
                &&& match setup {
                    Some(p) => plan.setup_slot matches Some(s) && is_setup_slot(s, p, e, sps),
                    None => plan.setup_slot is None,
                }
                &&& are_ref_slots(plan.ref_slots@, refs@, sps)
                &&& plan.barriers@ == command_barriers(
                    output_image,
                    ImageLayout::Undefined,
                    0,
                    setup is Some,
                    h264_ref_images(refs@),
                    false,
                )
                &&& *final(self) == (H264Decoder {
                    prev_frame_num: e.frame_num,
                    prev_pic_order_cnt_lsb: e.pic_order_cnt[0] as u32,
                    frame_count: old(self).frame_count.wrapping_add(1),
                    ..*old(self)
                })
            },
    {
        let sps: H264Sps = match self.sps {
            Some(s) => s,
            None => {
                return Err(
                    VideoError::InvalidState("H264 SPS not set before decode".to_owned()),
                );
            },
        };
        let pps: H264Pps = match self.pps {
            Some(p) => p,
            None => {
                return Err(
                    VideoError::InvalidState("H264 SPS not set before decode".to_owned()),
                );
            },
        };
        let cycle: u32 = cycle_of(sps.log2_max_frame_num_minus4);
        let lsb_cycle: u32 = cycle_of(sps.log2_max_pic_order_cnt_lsb_minus4);
        let (frame_num, poc, is_intra, is_reference, is_idr): (u32, [i32; 2], bool, bool, bool) =
            match (
            known.frame_num,
            known.pic_order_cnt,
            known.is_intra,
            known.is_reference,
            known.is_idr,
        ) {
            (Some(f), Some(p), Some(intra), Some(reference), Some(idr)) => {
                (f, p, intra, reference, idr)
            },
            _ => {
                let lsb: i32 = (self.frame_count % lsb_cycle) as i32;
                (self.frame_count % cycle, [lsb, lsb], false, true, false)
            },
        };
        let ghost e = effective(known, self.frame_count, sps);
        proof {
            assert(poc@ =~= e.pic_order_cnt);
            assert(e == (H264Effective {
                frame_num,
                pic_order_cnt: poc@,
                is_intra,
                is_reference,
                is_idr,
            }));
        }
        let picture: H264PictureInfo = self.build_picture_info(
            &sps,
            &pps,
            frame_num,
            poc,
            is_intra,
            is_reference,
            is_idr,
        );
        let own = H264ReferenceInfo {
            frame_num: (frame_num % cycle) as u16,
            pic_order_cnt: poc,
            top_field_flag: true,
            bottom_field_flag: true,
        };
        let mut images: Vec<RefImage> = Vec::new();
        let mut ref_slots: Vec<H264Slot> = Vec::new();
        let mut begin_slots: Vec<H264Slot> = Vec::new();
        let mut i: usize = 0;
        while i < refs.len()
            invariant
                i <= refs@.len(),
                cycle == max_frame_num(sps),
                cycle > 0,
                images@ == h264_ref_images(refs@.take(i as int)),
                are_ref_slots(ref_slots@, refs@.take(i as int), sps),
                begin_slots@ == if is_first_frame {
                    Seq::empty()
                } else {
                    ref_slots@
                },
            decreases refs@.len() - i,
        {
            let r: &H264DpbRefPicture = &refs[i];
            images.push(RefImage { image: r.image, layout: r.current_layout, layer: 0 });
            assert(images@ =~= h264_ref_images(refs@.take(i + 1)));
            let slot = H264Slot {
                slot_index: r.slot_index as i32,
                image_view: r.image_view,
                info: Some(
                    H264ReferenceInfo {
                        frame_num: (r.frame_num % cycle) as u16,
                        pic_order_cnt: r.pic_order_cnt,
                        top_field_flag: true,
                        bottom_field_flag: true,
                    },
                ),
            };
            let ghost before = ref_slots@;
            ref_slots.push(slot);
            if !is_first_frame {
                begin_slots.push(slot);
            }
            proof {
                let t = refs@.take(i + 1);
                assert forall|k: int| 0 <= k < t.len() implies is_ref_slot(
                    #[trigger] ref_slots@[k],
                    t[k],
                    sps,
                ) by {
                    if k < i {
                        assert(is_ref_slot(before[k], refs@.take(i as int)[k], sps));
                    }
                }
            }
            i = i + 1;
        }
        assert(refs@.take(i as int) =~= refs@);
        let setup_slot: Option<H264Slot> = match setup {
            Some(p) => Some(
                H264Slot {
                    slot_index: p.slot_index as i32,
                    image_view: p.image_view,
                    info: Some(own),
                },
            ),
            None => None,
        };
        if is_first_frame {
            let described: u32 = match setup {
                Some(p) => p.slot_index,
                None => 0,
            };
            let total: u32 = dpb_views.len() as u32;
            let mut k: u32 = 0;
            while k < total
                invariant
                    k <= total == dpb_views@.len(),
                    described == described_slot(setup),
                    is_info(own, e.frame_num, e.pic_order_cnt, sps),
                    begin_slots@.len() == k,
                    forall|j: int|
                        0 <= j < k ==> {
                            let s = #[trigger] begin_slots@[j];
                            &&& s.slot_index == j as i32
                            &&& s.image_view == dpb_views@[j]
                            &&& match s.info {
                                Some(info) => j == described_slot(setup) && is_info(
                                    info,
                                    e.frame_num,
                                    e.pic_order_cnt,
                                    sps,
                                ),
                                None => j != described_slot(setup),
                            }
                        },
                decreases total - k,
            {
                begin_slots.push(
                    H264Slot {
                        slot_index: k as i32,
                        image_view: dpb_views[k as usize],
                        info: if k == described {
                            Some(own)
                        } else {
                            None
                        },
                    },
                );
                k = k + 1;
            }
        } else if let Some(s) = setup_slot {
            begin_slots.push(s);
            assert(begin_slots@.drop_last() =~= ref_slots@);
        }
        let barriers: Vec<ImageBarrier> = plan_barriers(
            output_image,
            ImageLayout::Undefined,
            0,
            setup.is_some(),
            &images,
            false,
        );
        self.prev_frame_num = frame_num;
        self.prev_pic_order_cnt_lsb = poc[0] as u32;
        self.frame_count = self.frame_count.wrapping_add(1);
        Ok(
            H264DecodePlan {
                picture,
                reset: is_first_frame,
                begin_slots,
                setup_slot,
                ref_slots,
                barriers,
            },
        )
    }
}

/// Usability information keeps each of its values under the same name.
pub proof fn law_h264_usability_is_kept(vui: H264SpsVui)
    ensures
        ({
            let r = h264_vui_of(vui);
            &&& r.aspect_ratio_info_present_flag == vui.aspect_ratio_info_present_flag
            &&& r.overscan_info_present_flag == vui.overscan_info_present_flag
            &&& r.overscan_appropriate_flag == vui.overscan_appropriate_flag
            &&& r.video_signal_type_present_flag == vui.video_signal_type_present_flag
            &&& r.video_full_range_flag == vui.video_full_range_flag
            &&& r.color_description_present_flag == vui.color_description_present_flag
            &&& r.chroma_loc_info_present_flag == vui.chroma_loc_info_present_flag
            &&& r.timing_info_present_flag == vui.timing_info_present_flag
            &&& r.fixed_frame_rate_flag == vui.fixed_frame_rate_flag
            &&& r.bitstream_restriction_flag == vui.bitstream_restriction_flag
            &&& r.nal_hrd_parameters_present_flag == vui.nal_hrd_parameters_present_flag
            &&& r.vcl_hrd_parameters_present_flag == vui.vcl_hrd_parameters_present_flag
            &&& r.aspect_ratio_idc == vui.aspect_ratio_idc as u32
            &&& r.sar_width == vui.sar_width
            &&& r.sar_height == vui.sar_height
            &&& r.video_format == vui.video_format
            &&& r.colour_primaries == vui.colour_primaries
            &&& r.transfer_characteristics == vui.transfer_characteristics
            &&& r.matrix_coefficients == vui.matrix_coefficients
            &&& r.num_units_in_tick == vui.num_units_in_tick
            &&& r.time_scale == vui.time_scale
            &&& r.max_num_reorder_frames == vui.max_num_reorder_frames
            &&& r.max_dec_frame_buffering == vui.max_dec_frame_buffering
            &&& r.chroma_sample_loc_type_top_field == vui.chroma_sample_loc_type_top_field
            &&& r.chroma_sample_loc_type_bottom_field == vui.chroma_sample_loc_type_bottom_field
        }),
{
}


/// A sequence parameter set keeps each of its values under the same name.
pub proof fn law_h264_sequence_parameters_are_kept(sps: H264Sps)
    ensures
        ({
            let r = h264_sps_of(sps);
            &&& r.separate_colour_plane_flag == sps.separate_colour_plane_flag
            &&& r.qpprime_y_zero_transform_bypass_flag == sps.qpprime_y_zero_transform_bypass_flag
            &&& r.frame_mbs_only_flag == sps.frame_mbs_only_flag
            &&& r.direct_8x8_inference_flag == sps.direct_8x8_inference_flag
            &&& r.frame_cropping_flag == sps.frame_cropping_flag
            &&& r.vui_parameters_present_flag == sps.vui_parameters_present_flag
            &&& r.profile_idc == sps.profile_idc as u32
            &&& r.level_idc == sps.level_idc as u32
            &&& r.chroma_format_idc == sps.chroma_format_idc as u32
            &&& r.seq_parameter_set_id == sps.seq_parameter_set_id as u8
            &&& r.bit_depth_luma_minus8 == sps.bit_depth_luma_minus8
            &&& r.bit_depth_chroma_minus8 == sps.bit_depth_chroma_minus8
            &&& r.log2_max_frame_num_minus4 == sps.log2_max_frame_num_minus4
            &&& r.pic_order_cnt_type == sps.pic_order_cnt_type as u32
            &&& r.offset_for_non_ref_pic == 0
            &&& r.offset_for_top_to_bottom_field == 0
            &&& r.log2_max_pic_order_cnt_lsb_minus4 == sps.log2_max_pic_order_cnt_lsb_minus4
            &&& r.num_ref_frames_in_pic_order_cnt_cycle == 0
            &&& r.max_num_ref_frames == sps.max_num_ref_frames as u8
            &&& r.pic_width_in_mbs_minus1 == sps.pic_width_in_mbs_minus1 as u32
            &&& r.pic_height_in_map_units_minus1 == sps.pic_height_in_map_units_minus1 as u32
            &&& r.frame_crop_left_offset == sps.frame_crop_left_offset
            &&& r.frame_crop_right_offset == sps.frame_crop_right_offset
            &&& r.frame_crop_top_offset == sps.frame_crop_top_offset
            &&& r.frame_crop_bottom_offset == sps.frame_crop_bottom_offset
            &&& r.vui == match sps.vui {
            Some(v) => h264_vui_of(v),
            None => no_h264_vui(),
        }
        }),
{
}


/// A picture parameter set keeps each of its values under the same name.
pub proof fn law_h264_picture_parameters_are_kept(pps: H264Pps)
    ensures
        ({
            let r = h264_pps_of(pps);
            &&& r.weighted_pred_flag == pps.weighted_pred_flag
            &&& r.deblocking_filter_control_present_flag == pps.deblocking_filter_control_present_flag
            &&& r.redundant_pic_cnt_present_flag == pps.redundant_pic_cnt_present_flag
            &&& r.transform_8x8_mode_flag == pps.transform_8x8_mode_flag
            &&& r.constrained_intra_pred_flag == pps.constrained_intra_pred_flag
            &&& r.seq_parameter_set_id == pps.seq_parameter_set_id as u8
            &&& r.pic_parameter_set_id == pps.pic_parameter_set_id as u8
            &&& r.num_ref_idx_l0_default_active_minus1 == pps.num_ref_idx_l0_default_active_minus1 as u8
            &&& r.num_ref_idx_l1_default_active_minus1 == pps.num_ref_idx_l1_default_active_minus1 as u8
            &&& r.weighted_bipred_idc == pps.weighted_bipred_idc as u32
            &&& r.pic_init_qp_minus26 == pps.pic_init_qp_minus26 as i8
            &&& r.pic_init_qs_minus26 == pps.pic_init_qs_minus26 as i8
            &&& r.chroma_qp_index_offset == pps.chroma_qp_index_offset as i8
            &&& r.second_chroma_qp_index_offset == pps.second_chroma_qp_index_offset as i8
        }),
{
}


/// A picture is told as the stream says it: its frame number in the cycle of frame numbers,
/// its order counts, its parameter sets and its kind.
pub proof fn law_h264_pictures(
    p: H264PictureInfo,
    known: H264Known,
    frame_count: u32,
    sps: H264Sps,
    pps: H264Pps,
)
    requires
        is_picture_info(p, effective(known, frame_count, sps), sps, pps),
        sps.log2_max_frame_num_minus4 <= 12,
        sps.log2_max_pic_order_cnt_lsb_minus4 <= 12,
    ensures
        ({
            let frames = pow2((sps.log2_max_frame_num_minus4 + 4) as nat) as int;
            let counts = pow2((sps.log2_max_pic_order_cnt_lsb_minus4 + 4) as nat) as int;
            &&& known.is_complete() ==> {
                &&& p.frame_num == known.frame_num->0 as int % frames
                &&& p.pic_order_cnt == known.pic_order_cnt->0
                &&& p.is_intra == known.is_intra->0
                &&& p.is_reference == known.is_reference->0
                &&& p.is_idr == known.is_idr->0
            }
            &&& !known.is_complete() ==> {
                &&& p.frame_num == frame_count as int % frames
                &&& p.pic_order_cnt@[0] == frame_count as int % counts
                &&& p.pic_order_cnt@[1] == frame_count as int % counts
                &&& p.is_reference && !p.is_intra && !p.is_idr
            }
            &&& p.seq_parameter_set_id == sps.seq_parameter_set_id as u8
            &&& p.pic_parameter_set_id == pps.pic_parameter_set_id as u8
            &&& known.is_complete() <==> known.frame_num is Some && known.pic_order_cnt is Some
                && known.is_intra is Some && known.is_reference is Some && known.is_idr is Some
        }),
{
    lemma2_to64();
    let a = (sps.log2_max_frame_num_minus4 + 4) as nat;
    let b = (sps.log2_max_pic_order_cnt_lsb_minus4 + 4) as nat;
    lemma_pow2_pos(a);
    lemma_pow2_pos(b);
    if a < 16 {
        lemma_pow2_strictly_increases(a, 16);
    }
    if b < 16 {
        lemma_pow2_strictly_increases(b, 16);
    }
    let n: u32 = if known.is_complete() {
        known.frame_num->0
    } else {
        frame_count
    };
    vstd::arithmetic::div_mod::lemma_mod_bound(n as int, pow2(a) as int);
    vstd::arithmetic::div_mod::lemma_mod_bound(frame_count as int, pow2(b) as int);
    vstd::arithmetic::div_mod::lemma_mod_decreases(frame_count as nat, pow2(a));
    vstd::arithmetic::div_mod::lemma_mod_mod(frame_count as int, pow2(a) as int, 1);
    vstd::arithmetic::div_mod::lemma_mod_twice(frame_count as int, pow2(a) as int);
    if known.is_complete() {
        assert(p.pic_order_cnt@ =~= known.pic_order_cnt->0@);
        assert(p.pic_order_cnt =~= known.pic_order_cnt->0);
    }
}

/// A reference is told by its slot, its view, its frame number in the cycle of frame numbers
/// and its order counts; both of its fields are there.
pub proof fn law_h264_references(s: H264Slot, r: H264DpbRefPicture, sps: H264Sps)
    requires
        is_ref_slot(s, r, sps),
        sps.log2_max_frame_num_minus4 <= 12,
    ensures
        r.slot_index < 0x8000_0000 ==> s.slot_index == r.slot_index,
        s.image_view == r.image_view,
        s.info matches Some(info) && info.frame_num == r.frame_num as int % (pow2(
            (sps.log2_max_frame_num_minus4 + 4) as nat,
        ) as int) && info.pic_order_cnt@ == r.pic_order_cnt@ && info.top_field_flag
            && info.bottom_field_flag,
{
    lemma2_to64();
    let a = (sps.log2_max_frame_num_minus4 + 4) as nat;
    lemma_pow2_pos(a);
    if a < 16 {
        lemma_pow2_strictly_increases(a, 16);
    }
    vstd::arithmetic::div_mod::lemma_mod_bound(r.frame_num as int, pow2(a) as int);
}

/// Coding begins on the first frame with all slots in order, and later with those of the
/// references in order and then that of the picture itself.
pub proof fn law_h264_begin_slots(
    slots: Seq<H264Slot>,
    is_first_frame: bool,
    setup: H264SetupPictureInfo,
    refs: Seq<H264DpbRefPicture>,
    views: Seq<u64>,
    e: H264Effective,
    sps: H264Sps,
    i: int,
)
    requires
        are_begin_slots(slots, is_first_frame, Some(setup), refs, views, e, sps),
    ensures
        is_first_frame ==> slots.len() == views.len() && (0 <= i < views.len() ==> slots[i].image_view
            == views[i] && (i < 0x8000_0000 ==> slots[i].slot_index == i) && (slots[i].info is Some
            <==> i == setup.slot_index)),
        !is_first_frame ==> slots.len() == refs.len() + 1 && slots.last().image_view
            == setup.image_view && slots.last().slot_index == setup.slot_index as i32 && (0 <= i
            < refs.len() ==> slots[i].image_view == refs[i].image_view && slots[i].slot_index
            == refs[i].slot_index as i32 && slots[i].info is Some),
{
    if !is_first_frame && 0 <= i < refs.len() {
        assert(slots.drop_last()[i] == slots[i]);
    }
}

/// The picture itself is told by its slot, its view and its numbers, as a reference is.
pub proof fn law_h264_setup_slots(
    s: H264Slot,
    setup: H264SetupPictureInfo,
    e: H264Effective,
    sps: H264Sps,
)
    requires
        is_setup_slot(s, setup, e, sps),
        sps.log2_max_frame_num_minus4 <= 12,
    ensures
        setup.slot_index < 0x8000_0000 ==> s.slot_index == setup.slot_index,
        s.image_view == setup.image_view,
        s.info matches Some(info) && info.frame_num == e.frame_num as int % (pow2(
            (sps.log2_max_frame_num_minus4 + 4) as nat,
        ) as int) && info.pic_order_cnt@ == e.pic_order_cnt && info.top_field_flag
            && info.bottom_field_flag,
{
    lemma2_to64();
    let a = (sps.log2_max_frame_num_minus4 + 4) as nat;
    lemma_pow2_pos(a);
    if a < 16 {
        lemma_pow2_strictly_increases(a, 16);
    }
    vstd::arithmetic::div_mod::lemma_mod_bound(e.frame_num as int, pow2(a) as int);
}

/// The references of a command have a slot each, in order, and an image of their own.
pub proof fn law_h264_references_have_slots(
    slots: Seq<H264Slot>,
    refs: Seq<H264DpbRefPicture>,
    sps: H264Sps,
    i: int,
)
    requires
        are_ref_slots(slots, refs, sps),
        0 <= i < refs.len(),
    ensures
        slots.len() == refs.len(),
        slots[i].slot_index == refs[i].slot_index as i32,
        slots[i].image_view == refs[i].image_view,
        slots[i].info is Some,
        h264_ref_images(refs).len() == refs.len(),
        h264_ref_images(refs)[i].image == refs[i].image,
        h264_ref_images(refs)[i].layout == refs[i].current_layout,
        h264_ref_images(refs)[i].layer == 0,
{
}

} // verus!
