//! H.265 decoding: parameter sets for the session, and what is recorded for a
//! picture.

use crate::codes::{ash_h265_levels, ImageLayout};
use crate::commands::{command_barriers, plan_barriers, ImageBarrier, RefImage};
use crate::h264::cycle_of;
use crate::parameter_sets::{H265Pps, H265ShortTermRefPicSet, H265Sps, H265SpsVui, H265Vps};
use vstd::arithmetic::power2::pow2;
use vstd::prelude::*;

verus! {

/// H.265 video usability information, as the Vulkan session takes it.
#[derive(Debug, Clone, Copy)]
pub struct StdVideoH265SequenceParameterSetVui {
    pub aspect_ratio_info_present_flag: bool,
    pub overscan_info_present_flag: bool,
    pub overscan_appropriate_flag: bool,
    pub video_signal_type_present_flag: bool,
    pub video_full_range_flag: bool,
    pub colour_description_present_flag: bool,
    pub chroma_loc_info_present_flag: bool,
    pub neutral_chroma_indication_flag: bool,
    pub field_seq_flag: bool,
    pub frame_field_info_present_flag: bool,
    pub default_display_window_flag: bool,
    pub vui_timing_info_present_flag: bool,
    pub vui_poc_proportional_to_timing_flag: bool,
    pub vui_hrd_parameters_present_flag: bool,
    pub bitstream_restriction_flag: bool,
    pub tiles_fixed_structure_flag: bool,
    pub motion_vectors_over_pic_boundaries_flag: bool,
    pub restricted_ref_pic_lists_flag: bool,
    pub aspect_ratio_idc: u32,
    pub sar_width: u16,
    pub sar_height: u16,
    pub video_format: u8,
    pub colour_primaries: u8,
    pub transfer_characteristics: u8,
    pub matrix_coeffs: u8,
    pub chroma_sample_loc_type_top_field: u8,
    pub chroma_sample_loc_type_bottom_field: u8,
    pub def_disp_win_left_offset: u16,
    pub def_disp_win_right_offset: u16,
    pub def_disp_win_top_offset: u16,
    pub def_disp_win_bottom_offset: u16,
    pub vui_num_units_in_tick: u32,
    pub vui_time_scale: u32,
    pub vui_num_ticks_poc_diff_one_minus1: u32,
    pub min_spatial_segmentation_idc: u16,
    pub max_bytes_per_pic_denom: u8,
    pub max_bits_per_min_cu_denom: u8,
    pub log2_max_mv_length_horizontal: u8,
    pub log2_max_mv_length_vertical: u8,
}

/// The profile, tier and level of an H.265 stream.
#[derive(Debug, Clone, Copy)]
pub struct StdVideoH265ProfileTierLevel {
    pub general_tier_flag: bool,
    pub general_profile_idc: u32,
    pub general_level_idc: u32,
}

/// The buffering limits of an H.265 stream, by sub-layer.
#[derive(Debug, Clone, Copy)]
pub struct StdVideoH265DecPicBufMgr {
    pub max_latency_increase_plus1: [u32; 7],
    pub max_dec_pic_buffering_minus1: [u8; 7],
    pub max_num_reorder_pics: [u8; 7],
}

/// The long-term reference pictures of an H.265 sequence.
#[derive(Debug, Clone, Copy)]
pub struct StdVideoH265LongTermRefPicsSps {
    pub used_by_curr_pic_lt_sps_flag: u32,
    pub lt_ref_pic_poc_lsb_sps: [u32; 32],
}

/// H.265 short-term reference picture set, as the Vulkan session takes it.
#[derive(Debug, Clone, Copy)]
pub struct StdVideoH265ShortTermRefPicSet {
    pub inter_ref_pic_set_prediction_flag: bool,
    pub delta_idx_minus1: u32,
    pub use_delta_flag: u16,
    pub abs_delta_rps_minus1: u16,
    pub used_by_curr_pic_flag: u16,
    pub used_by_curr_pic_s0_flag: u16,
    pub used_by_curr_pic_s1_flag: u16,
    pub num_negative_pics: u8,
    pub num_positive_pics: u8,
    pub delta_poc_s0_minus1: [u16; 16],
    pub delta_poc_s1_minus1: [u16; 16],
}

/// H.265 sequence parameter set, as the Vulkan session takes it.
#[derive(Debug)]
pub struct StdVideoH265SequenceParameterSet {
    pub sps_temporal_id_nesting_flag: bool,
    pub separate_colour_plane_flag: bool,
    pub conformance_window_flag: bool,
    pub sps_sub_layer_ordering_info_present_flag: bool,
    pub scaling_list_enabled_flag: bool,
    pub sps_scaling_list_data_present_flag: bool,
    pub amp_enabled_flag: bool,
    pub sample_adaptive_offset_enabled_flag: bool,
    pub sps_temporal_mvp_enabled_flag: bool,
    pub strong_intra_smoothing_enabled_flag: bool,
    pub long_term_ref_pics_present_flag: bool,
    pub pcm_enabled_flag: bool,
    pub pcm_loop_filter_disabled_flag: bool,
    pub vui_parameters_present_flag: bool,
    pub sps_extension_present_flag: bool,
    pub sps_range_extension_flag: bool,
    pub intra_smoothing_disabled_flag: bool,
    pub palette_mode_enabled_flag: bool,
    pub chroma_format_idc: u32,
    pub pic_width_in_luma_samples: u32,
    pub pic_height_in_luma_samples: u32,
    pub sps_video_parameter_set_id: u8,
    pub sps_max_sub_layers_minus1: u8,
    pub sps_seq_parameter_set_id: u8,
    pub bit_depth_luma_minus8: u8,
    pub bit_depth_chroma_minus8: u8,
    pub log2_max_pic_order_cnt_lsb_minus4: u8,
    pub log2_min_luma_coding_block_size_minus3: u8,
    pub log2_diff_max_min_luma_coding_block_size: u8,
    pub log2_min_luma_transform_block_size_minus2: u8,
    pub log2_diff_max_min_luma_transform_block_size: u8,
    pub max_transform_hierarchy_depth_inter: u8,
    pub max_transform_hierarchy_depth_intra: u8,
    pub num_short_term_ref_pic_sets: u8,
    pub num_long_term_ref_pics_sps: u8,
    pub pcm_sample_bit_depth_luma_minus1: u8,
    pub pcm_sample_bit_depth_chroma_minus1: u8,
    pub log2_min_pcm_luma_coding_block_size_minus3: u8,
    pub log2_diff_max_min_pcm_luma_coding_block_size: u8,
    pub palette_max_size: u8,
    pub delta_palette_max_predictor_size: u8,
    pub motion_vector_resolution_control_idc: u8,
    pub sps_num_palette_predictor_initializers_minus1: u8,
    pub conf_win_left_offset: u32,
    pub conf_win_right_offset: u32,
    pub conf_win_top_offset: u32,
    pub conf_win_bottom_offset: u32,
    pub profile_tier_level: StdVideoH265ProfileTierLevel,
    pub dec_pic_buf_mgr: StdVideoH265DecPicBufMgr,
    pub short_term_ref_pic_sets: Vec<StdVideoH265ShortTermRefPicSet>,
    pub long_term_ref_pics_sps: Option<StdVideoH265LongTermRefPicsSps>,
    pub vui: Option<StdVideoH265SequenceParameterSetVui>,
}

/// H.265 picture parameter set, as the Vulkan session takes it.
#[derive(Debug, Clone, Copy)]
pub struct StdVideoH265PictureParameterSet {
    pub dependent_slice_segments_enabled_flag: bool,
    pub output_flag_present_flag: bool,
    pub sign_data_hiding_enabled_flag: bool,
    pub cabac_init_present_flag: bool,
    pub constrained_intra_pred_flag: bool,
    pub transform_skip_enabled_flag: bool,
    pub cu_qp_delta_enabled_flag: bool,
    pub pps_slice_chroma_qp_offsets_present_flag: bool,
    pub weighted_pred_flag: bool,
    pub weighted_bipred_flag: bool,
    pub transquant_bypass_enabled_flag: bool,
    pub tiles_enabled_flag: bool,
    pub entropy_coding_sync_enabled_flag: bool,
    pub uniform_spacing_flag: bool,
    pub loop_filter_across_tiles_enabled_flag: bool,
    pub pps_loop_filter_across_slices_enabled_flag: bool,
    pub deblocking_filter_control_present_flag: bool,
    pub deblocking_filter_override_enabled_flag: bool,
    pub pps_deblocking_filter_disabled_flag: bool,
    pub pps_scaling_list_data_present_flag: bool,
    pub lists_modification_present_flag: bool,
    pub pps_pic_parameter_set_id: u8,
    pub pps_seq_parameter_set_id: u8,
    pub sps_video_parameter_set_id: u8,
    pub num_extra_slice_header_bits: u8,
    pub num_ref_idx_l0_default_active_minus1: u8,
    pub num_ref_idx_l1_default_active_minus1: u8,
    pub init_qp_minus26: i8,
    pub diff_cu_qp_delta_depth: u8,
    pub pps_cb_qp_offset: i8,
    pub pps_cr_qp_offset: i8,
    pub pps_beta_offset_div2: i8,
    pub pps_tc_offset_div2: i8,
    pub log2_parallel_merge_level_minus2: u8,
    pub log2_max_transform_skip_block_size_minus2: u8,
    pub diff_cu_chroma_qp_offset_depth: u8,
    pub chroma_qp_offset_list_len_minus1: u8,
    pub cb_qp_offset_list: [i8; 6],
    pub cr_qp_offset_list: [i8; 6],
    pub log2_sao_offset_scale_luma: u8,
    pub log2_sao_offset_scale_chroma: u8,
    pub pps_act_y_qp_offset_plus5: i8,
    pub pps_act_cb_qp_offset_plus5: i8,
    pub pps_act_cr_qp_offset_plus3: i8,
    pub pps_num_palette_predictor_initializers: u8,
    pub luma_bit_depth_entry_minus8: u8,
    pub chroma_bit_depth_entry_minus8: u8,
    pub num_tile_columns_minus1: u8,
    pub num_tile_rows_minus1: u8,
    pub column_width_minus1: [u16; 19],
    pub row_height_minus1: [u16; 21],
}

/// H.265 video parameter set, as the Vulkan session takes it.
#[derive(Debug, Clone, Copy)]
pub struct StdVideoH265VideoParameterSet {
    pub vps_temporal_id_nesting_flag: bool,
    pub vps_sub_layer_ordering_info_present_flag: bool,
    pub vps_timing_info_present_flag: bool,
    pub vps_video_parameter_set_id: u8,
    pub vps_max_sub_layers_minus1: u8,
    pub vps_num_units_in_tick: u32,
    pub vps_time_scale: u32,
    pub vps_num_ticks_poc_diff_one_minus1: u32,
    pub profile_tier_level: StdVideoH265ProfileTierLevel,
    pub dec_pic_buf_mgr: StdVideoH265DecPicBufMgr,
}

/// The code of an H.265 level, from thirty times its number; an unknown one
/// counts as level 5.1.
pub open spec fn h265_level_code(raw_level_idc: u8) -> u32 {
    if raw_level_idc == 30 {
        0
    } else if raw_level_idc == 60 {
        1
    } else if raw_level_idc == 63 {
        2
    } else if raw_level_idc == 90 {
        3
    } else if raw_level_idc == 93 {
        4
    } else if raw_level_idc == 120 {
        5
    } else if raw_level_idc == 123 {
        6
    } else if raw_level_idc == 150 {
        7
    } else if raw_level_idc == 153 {
        8
    } else if raw_level_idc == 156 {
        9
    } else if raw_level_idc == 180 {
        10
    } else if raw_level_idc == 183 {
        11
    } else if raw_level_idc == 186 {
        12
    } else {
        8
    }
}

/// The code of an H.265 level, from thirty times its number.
pub fn h265_level_idc_to_vulkan(raw_level_idc: u8) -> (r: u32)
    ensures
        r == h265_level_code(raw_level_idc),
{
    let codes: [u32; 13] = ash_h265_levels();
    match raw_level_idc {
        30 => codes[0],
        60 => codes[1],
        63 => codes[2],
        90 => codes[3],
        93 => codes[4],
        120 => codes[5],
        123 => codes[6],
        150 => codes[7],
        153 => codes[8],
        156 => codes[9],
        180 => codes[10],
        183 => codes[11],
        186 => codes[12],
        _ => codes[8],
    }
}

/// Video usability information as the Vulkan session takes it.
pub open spec fn h265_vui_of(vui: H265SpsVui) -> StdVideoH265SequenceParameterSetVui {
    StdVideoH265SequenceParameterSetVui {
        aspect_ratio_info_present_flag: vui.aspect_ratio_info_present_flag,
        overscan_info_present_flag: vui.overscan_info_present_flag,
        overscan_appropriate_flag: vui.overscan_appropriate_flag,
        video_signal_type_present_flag: vui.video_signal_type_present_flag,
        video_full_range_flag: vui.video_full_range_flag,
        colour_description_present_flag: vui.colour_description_present_flag,
        chroma_loc_info_present_flag: vui.chroma_loc_info_present_flag,
        neutral_chroma_indication_flag: vui.neutral_chroma_indication_flag,
        field_seq_flag: vui.field_seq_flag,
        frame_field_info_present_flag: vui.frame_field_info_present_flag,
        default_display_window_flag: vui.default_display_window_flag,
        vui_timing_info_present_flag: vui.vui_timing_info_present_flag,
        vui_poc_proportional_to_timing_flag: vui.vui_poc_proportional_to_timing_flag,
        vui_hrd_parameters_present_flag: vui.vui_hrd_parameters_present_flag,
        bitstream_restriction_flag: vui.bitstream_restriction_flag,
        tiles_fixed_structure_flag: vui.tiles_fixed_structure_flag,
        motion_vectors_over_pic_boundaries_flag: vui.motion_vectors_over_pic_boundaries_flag,
        restricted_ref_pic_lists_flag: vui.restricted_ref_pic_lists_flag,
        aspect_ratio_idc: vui.aspect_ratio_idc as u32,
        sar_width: vui.sar_width,
        sar_height: vui.sar_height,
        video_format: vui.video_format,
        colour_primaries: vui.colour_primaries,
        transfer_characteristics: vui.transfer_characteristics,
        matrix_coeffs: vui.matrix_coeffs,
        chroma_sample_loc_type_top_field: vui.chroma_sample_loc_type_top_field as u8,
        chroma_sample_loc_type_bottom_field: vui.chroma_sample_loc_type_bottom_field as u8,
        def_disp_win_left_offset: vui.def_disp_win_left_offset as u16,
        def_disp_win_right_offset: vui.def_disp_win_right_offset as u16,
        def_disp_win_top_offset: vui.def_disp_win_top_offset as u16,
        def_disp_win_bottom_offset: vui.def_disp_win_bottom_offset as u16,
        vui_num_units_in_tick: vui.vui_num_units_in_tick,
        vui_time_scale: vui.vui_time_scale,
        vui_num_ticks_poc_diff_one_minus1: vui.vui_num_ticks_poc_diff_one_minus1,
        min_spatial_segmentation_idc: vui.min_spatial_segmentation_idc as u16,
        max_bytes_per_pic_denom: vui.max_bytes_per_pic_denom as u8,
        max_bits_per_min_cu_denom: vui.max_bits_per_min_cu_denom as u8,
        log2_max_mv_length_horizontal: vui.log2_max_mv_length_horizontal as u8,
        log2_max_mv_length_vertical: vui.log2_max_mv_length_vertical as u8,
    }
}

/// Converts video usability information.
pub fn convert_h265_vui(vui: &H265SpsVui) -> (r: StdVideoH265SequenceParameterSetVui)
    ensures
        r == h265_vui_of(*vui),
{
    StdVideoH265SequenceParameterSetVui {
        aspect_ratio_info_present_flag: vui.aspect_ratio_info_present_flag,
        overscan_info_present_flag: vui.overscan_info_present_flag,
        overscan_appropriate_flag: vui.overscan_appropriate_flag,
        video_signal_type_present_flag: vui.video_signal_type_present_flag,
        video_full_range_flag: vui.video_full_range_flag,
        colour_description_present_flag: vui.colour_description_present_flag,
        chroma_loc_info_present_flag: vui.chroma_loc_info_present_flag,
        neutral_chroma_indication_flag: vui.neutral_chroma_indication_flag,
        field_seq_flag: vui.field_seq_flag,
        frame_field_info_present_flag: vui.frame_field_info_present_flag,
        default_display_window_flag: vui.default_display_window_flag,
        vui_timing_info_present_flag: vui.vui_timing_info_present_flag,
        vui_poc_proportional_to_timing_flag: vui.vui_poc_proportional_to_timing_flag,
        vui_hrd_parameters_present_flag: vui.vui_hrd_parameters_present_flag,
        bitstream_restriction_flag: vui.bitstream_restriction_flag,
        tiles_fixed_structure_flag: vui.tiles_fixed_structure_flag,
        motion_vectors_over_pic_boundaries_flag: vui.motion_vectors_over_pic_boundaries_flag,
        restricted_ref_pic_lists_flag: vui.restricted_ref_pic_lists_flag,
        aspect_ratio_idc: vui.aspect_ratio_idc as u32,
        sar_width: vui.sar_width,
        sar_height: vui.sar_height,
        video_format: vui.video_format,
        colour_primaries: vui.colour_primaries,
        transfer_characteristics: vui.transfer_characteristics,
        matrix_coeffs: vui.matrix_coeffs,
        chroma_sample_loc_type_top_field: vui.chroma_sample_loc_type_top_field as u8,
        chroma_sample_loc_type_bottom_field: vui.chroma_sample_loc_type_bottom_field as u8,
        def_disp_win_left_offset: vui.def_disp_win_left_offset as u16,
        def_disp_win_right_offset: vui.def_disp_win_right_offset as u16,
        def_disp_win_top_offset: vui.def_disp_win_top_offset as u16,
        def_disp_win_bottom_offset: vui.def_disp_win_bottom_offset as u16,
        vui_num_units_in_tick: vui.vui_num_units_in_tick,
        vui_time_scale: vui.vui_time_scale,
        vui_num_ticks_poc_diff_one_minus1: vui.vui_num_ticks_poc_diff_one_minus1,
        min_spatial_segmentation_idc: vui.min_spatial_segmentation_idc as u16,
        max_bytes_per_pic_denom: vui.max_bytes_per_pic_denom as u8,
        max_bits_per_min_cu_denom: vui.max_bits_per_min_cu_denom as u8,
        log2_max_mv_length_horizontal: vui.log2_max_mv_length_horizontal as u8,
        log2_max_mv_length_vertical: vui.log2_max_mv_length_vertical as u8,
    }
}

/// A short-term reference picture set as the Vulkan session takes it.
pub open spec fn h265_set_of(strps: H265ShortTermRefPicSet) -> StdVideoH265ShortTermRefPicSet {
    StdVideoH265ShortTermRefPicSet {
        inter_ref_pic_set_prediction_flag: strps.inter_ref_pic_set_prediction_flag,
        delta_idx_minus1: strps.delta_idx_minus1,
        use_delta_flag: strps.use_delta_flag,
        abs_delta_rps_minus1: strps.abs_delta_rps_minus1,
        used_by_curr_pic_flag: strps.used_by_curr_pic_flag,
        used_by_curr_pic_s0_flag: strps.used_by_curr_pic_s0_flag,
        used_by_curr_pic_s1_flag: strps.used_by_curr_pic_s1_flag,
        num_negative_pics: strps.num_negative_pics,
        num_positive_pics: strps.num_positive_pics,
        delta_poc_s0_minus1: strps.delta_poc_s0_minus1,
        delta_poc_s1_minus1: strps.delta_poc_s1_minus1,
    }
}

/// Converts a short-term reference picture set.
pub fn convert_h265_short_term_ref_pic_set(strps: &H265ShortTermRefPicSet) -> (r:
    StdVideoH265ShortTermRefPicSet)
    ensures
        r == h265_set_of(*strps),
{
    StdVideoH265ShortTermRefPicSet {
        inter_ref_pic_set_prediction_flag: strps.inter_ref_pic_set_prediction_flag,
        delta_idx_minus1: strps.delta_idx_minus1,
        use_delta_flag: strps.use_delta_flag,
        abs_delta_rps_minus1: strps.abs_delta_rps_minus1,
        used_by_curr_pic_flag: strps.used_by_curr_pic_flag,
        used_by_curr_pic_s0_flag: strps.used_by_curr_pic_s0_flag,
        used_by_curr_pic_s1_flag: strps.used_by_curr_pic_s1_flag,
        num_negative_pics: strps.num_negative_pics,
        num_positive_pics: strps.num_positive_pics,
        delta_poc_s0_minus1: strps.delta_poc_s0_minus1,
        delta_poc_s1_minus1: strps.delta_poc_s1_minus1,
    }
}

/// Buffering limits with wider latencies are the given ones.
pub open spec fn are_limits(
    m: StdVideoH265DecPicBufMgr,
    latency: Seq<u8>,
    buffering: Seq<u8>,
    reorder: Seq<u8>,
) -> bool {
    &&& m.max_latency_increase_plus1@ == Seq::new(7, |i: int| latency[i] as u32)
    &&& m.max_dec_pic_buffering_minus1@ == buffering
    &&& m.max_num_reorder_pics@ == reorder
}

fn limits_of(latency: &[u8; 7], buffering: &[u8; 7], reorder: &[u8; 7]) -> (m:
    StdVideoH265DecPicBufMgr)
    ensures
        are_limits(m, latency@, buffering@, reorder@),
{
    let m = StdVideoH265DecPicBufMgr {
        max_latency_increase_plus1: [
            latency[0] as u32,
            latency[1] as u32,
            latency[2] as u32,
            latency[3] as u32,
            latency[4] as u32,
            latency[5] as u32,
            latency[6] as u32,
        ],
        max_dec_pic_buffering_minus1: *buffering,
        max_num_reorder_pics: *reorder,
    };
    assert(m.max_latency_increase_plus1@ =~= Seq::new(7, |i: int| latency@[i] as u32));
    m
}

/// The short-term reference picture sets of a sequence as the session takes them.
pub open spec fn h265_sets_of(sets: Seq<H265ShortTermRefPicSet>) -> Seq<
    StdVideoH265ShortTermRefPicSet,
> {
    sets.map_values(|s: H265ShortTermRefPicSet| h265_set_of(s))
}

/// A converted sequence parameter set says what the given one says.
pub open spec fn is_h265_sps(r: StdVideoH265SequenceParameterSet, sps: H265Sps) -> bool {
    &&& r.sps_temporal_id_nesting_flag == sps.sps_temporal_id_nesting_flag
    &&& r.separate_colour_plane_flag == sps.separate_colour_plane_flag
    &&& r.conformance_window_flag == sps.conformance_window_flag
    &&& r.sps_sub_layer_ordering_info_present_flag == sps.sps_sub_layer_ordering_info_present_flag
    &&& r.scaling_list_enabled_flag == sps.scaling_list_enabled_flag
    &&& r.sps_scaling_list_data_present_flag == sps.sps_scaling_list_data_present_flag
    &&& r.amp_enabled_flag == sps.amp_enabled_flag
    &&& r.sample_adaptive_offset_enabled_flag == sps.sample_adaptive_offset_enabled_flag
    &&& r.sps_temporal_mvp_enabled_flag == sps.sps_temporal_mvp_enabled_flag
    &&& r.strong_intra_smoothing_enabled_flag == sps.strong_intra_smoothing_enabled_flag
    &&& r.long_term_ref_pics_present_flag == sps.long_term_ref_pics_present_flag
    &&& r.pcm_enabled_flag == sps.pcm_enabled_flag
    &&& r.pcm_loop_filter_disabled_flag == sps.pcm_loop_filter_disabled_flag
    &&& r.vui_parameters_present_flag == sps.vui_parameters_present_flag
    &&& r.sps_extension_present_flag == sps.sps_extension_present_flag
    &&& r.sps_range_extension_flag == sps.sps_range_extension_flag
    &&& r.intra_smoothing_disabled_flag == sps.intra_smoothing_disabled_flag
    &&& r.palette_mode_enabled_flag == sps.palette_mode_enabled_flag
    &&& r.chroma_format_idc == sps.chroma_format_idc as u32
    &&& r.pic_width_in_luma_samples == sps.pic_width_in_luma_samples as u32
    &&& r.pic_height_in_luma_samples == sps.pic_height_in_luma_samples as u32
    &&& r.sps_video_parameter_set_id == sps.sps_video_parameter_set_id
    &&& r.sps_max_sub_layers_minus1 == sps.sps_max_sub_layers_minus1
    &&& r.sps_seq_parameter_set_id == sps.sps_seq_parameter_set_id as u8
    &&& r.bit_depth_luma_minus8 == sps.bit_depth_luma_minus8
    &&& r.bit_depth_chroma_minus8 == sps.bit_depth_chroma_minus8
    &&& r.log2_max_pic_order_cnt_lsb_minus4 == sps.log2_max_pic_order_cnt_lsb_minus4
    &&& r.log2_min_luma_coding_block_size_minus3 == sps.log2_min_luma_coding_block_size_minus3
    &&& r.log2_diff_max_min_luma_coding_block_size == sps.log2_diff_max_min_luma_coding_block_size
    &&& r.log2_min_luma_transform_block_size_minus2 == sps.log2_min_luma_transform_block_size_minus2
    &&& r.log2_diff_max_min_luma_transform_block_size == sps.log2_diff_max_min_luma_transform_block_size
    &&& r.max_transform_hierarchy_depth_inter == sps.max_transform_hierarchy_depth_inter
    &&& r.max_transform_hierarchy_depth_intra == sps.max_transform_hierarchy_depth_intra
    &&& r.num_short_term_ref_pic_sets == sps.num_short_term_ref_pic_sets
    &&& r.num_long_term_ref_pics_sps == sps.num_long_term_ref_pics_sps
    &&& r.pcm_sample_bit_depth_luma_minus1 == sps.pcm_sample_bit_depth_luma_minus1
    &&& r.pcm_sample_bit_depth_chroma_minus1 == sps.pcm_sample_bit_depth_chroma_minus1
    &&& r.log2_min_pcm_luma_coding_block_size_minus3 == sps.log2_min_pcm_luma_coding_block_size_minus3
    &&& r.log2_diff_max_min_pcm_luma_coding_block_size == sps.log2_diff_max_min_pcm_luma_coding_block_size
    &&& r.palette_max_size == sps.palette_max_size
    &&& r.delta_palette_max_predictor_size == sps.delta_palette_max_predictor_size
    &&& r.motion_vector_resolution_control_idc == sps.motion_vector_resolution_control_idc
    &&& r.sps_num_palette_predictor_initializers_minus1 == sps.sps_num_palette_predictor_initializers_minus1
    &&& r.conf_win_left_offset == sps.conf_win_left_offset
    &&& r.conf_win_right_offset == sps.conf_win_right_offset
    &&& r.conf_win_top_offset == sps.conf_win_top_offset
    &&& r.conf_win_bottom_offset == sps.conf_win_bottom_offset
    &&& r.profile_tier_level == (StdVideoH265ProfileTierLevel {
        general_tier_flag: sps.tier_flag,
        general_profile_idc: sps.profile_idc as u32,
        general_level_idc: h265_level_code(sps.level_idc),
    })
    &&& are_limits(
        r.dec_pic_buf_mgr,
        sps.max_latency_increase_plus1@,
        sps.max_dec_pic_buffering_minus1@,
        sps.max_num_reorder_pics@,
    )
    &&& r.short_term_ref_pic_sets@ == h265_sets_of(sps.short_term_ref_pic_sets@)
    &&& r.long_term_ref_pics_sps == if sps.long_term_ref_pics_present_flag
        && sps.num_long_term_ref_pics_sps > 0 {
        Some(
            StdVideoH265LongTermRefPicsSps {
                used_by_curr_pic_lt_sps_flag: sps.used_by_curr_pic_lt_sps_flag,
                lt_ref_pic_poc_lsb_sps: sps.lt_ref_pic_poc_lsb_sps,
            },
        )
    } else {
        None
    }
    &&& r.vui == if sps.vui_parameters_present_flag {
        Some(h265_vui_of(sps.vui))
    } else {
        None
    }
}

/// Converts a sequence parameter set. Long-term reference pictures are handed on
/// where the sequence has any, usability information where it is present;
/// scaling lists and palette entries are not handed on.
pub fn convert_h265_sps(sps: &H265Sps) -> (r: StdVideoH265SequenceParameterSet)
    ensures
        is_h265_sps(r, *sps),
{
    let mut sets: Vec<StdVideoH265ShortTermRefPicSet> = Vec::new();
    let mut i: usize = 0;
    while i < sps.short_term_ref_pic_sets.len()
        invariant
            i <= sps.short_term_ref_pic_sets@.len(),
            sets@ == h265_sets_of(sps.short_term_ref_pic_sets@.take(i as int)),
        decreases sps.short_term_ref_pic_sets@.len() - i,
    {
        sets.push(convert_h265_short_term_ref_pic_set(&sps.short_term_ref_pic_sets[i]));
        assert(sets@ =~= h265_sets_of(sps.short_term_ref_pic_sets@.take(i + 1)));
        i = i + 1;
    }
    assert(sps.short_term_ref_pic_sets@.take(i as int) =~= sps.short_term_ref_pic_sets@);
    let vui: Option<StdVideoH265SequenceParameterSetVui> = if sps.vui_parameters_present_flag {
        Some(convert_h265_vui(&sps.vui))
    } else {
        None
    };
    let long_term: Option<StdVideoH265LongTermRefPicsSps> = if sps.long_term_ref_pics_present_flag
        && sps.num_long_term_ref_pics_sps > 0 {
        Some(
            StdVideoH265LongTermRefPicsSps {
                used_by_curr_pic_lt_sps_flag: sps.used_by_curr_pic_lt_sps_flag,
                lt_ref_pic_poc_lsb_sps: sps.lt_ref_pic_poc_lsb_sps,
            },
        )
    } else {
        None
    };
    StdVideoH265SequenceParameterSet {
        sps_temporal_id_nesting_flag: sps.sps_temporal_id_nesting_flag,
        separate_colour_plane_flag: sps.separate_colour_plane_flag,
        conformance_window_flag: sps.conformance_window_flag,
        sps_sub_layer_ordering_info_present_flag: sps.sps_sub_layer_ordering_info_present_flag,
        scaling_list_enabled_flag: sps.scaling_list_enabled_flag,
        sps_scaling_list_data_present_flag: sps.sps_scaling_list_data_present_flag,
        amp_enabled_flag: sps.amp_enabled_flag,
        sample_adaptive_offset_enabled_flag: sps.sample_adaptive_offset_enabled_flag,
        sps_temporal_mvp_enabled_flag: sps.sps_temporal_mvp_enabled_flag,
        strong_intra_smoothing_enabled_flag: sps.strong_intra_smoothing_enabled_flag,
        long_term_ref_pics_present_flag: sps.long_term_ref_pics_present_flag,
        pcm_enabled_flag: sps.pcm_enabled_flag,
        pcm_loop_filter_disabled_flag: sps.pcm_loop_filter_disabled_flag,
        vui_parameters_present_flag: sps.vui_parameters_present_flag,
        sps_extension_present_flag: sps.sps_extension_present_flag,
        sps_range_extension_flag: sps.sps_range_extension_flag,
        intra_smoothing_disabled_flag: sps.intra_smoothing_disabled_flag,
        palette_mode_enabled_flag: sps.palette_mode_enabled_flag,
        chroma_format_idc: sps.chroma_format_idc as u32,
        pic_width_in_luma_samples: sps.pic_width_in_luma_samples as u32,
        pic_height_in_luma_samples: sps.pic_height_in_luma_samples as u32,
        sps_video_parameter_set_id: sps.sps_video_parameter_set_id,
        sps_max_sub_layers_minus1: sps.sps_max_sub_layers_minus1,
        sps_seq_parameter_set_id: sps.sps_seq_parameter_set_id as u8,
        bit_depth_luma_minus8: sps.bit_depth_luma_minus8,
        bit_depth_chroma_minus8: sps.bit_depth_chroma_minus8,
        log2_max_pic_order_cnt_lsb_minus4: sps.log2_max_pic_order_cnt_lsb_minus4,
        log2_min_luma_coding_block_size_minus3: sps.log2_min_luma_coding_block_size_minus3,
        log2_diff_max_min_luma_coding_block_size: sps.log2_diff_max_min_luma_coding_block_size,
        log2_min_luma_transform_block_size_minus2: sps.log2_min_luma_transform_block_size_minus2,
        log2_diff_max_min_luma_transform_block_size: sps.log2_diff_max_min_luma_transform_block_size,
        max_transform_hierarchy_depth_inter: sps.max_transform_hierarchy_depth_inter,
        max_transform_hierarchy_depth_intra: sps.max_transform_hierarchy_depth_intra,
        num_short_term_ref_pic_sets: sps.num_short_term_ref_pic_sets,
        num_long_term_ref_pics_sps: sps.num_long_term_ref_pics_sps,
        pcm_sample_bit_depth_luma_minus1: sps.pcm_sample_bit_depth_luma_minus1,
        pcm_sample_bit_depth_chroma_minus1: sps.pcm_sample_bit_depth_chroma_minus1,
        log2_min_pcm_luma_coding_block_size_minus3: sps.log2_min_pcm_luma_coding_block_size_minus3,
        log2_diff_max_min_pcm_luma_coding_block_size: sps.log2_diff_max_min_pcm_luma_coding_block_size,
        palette_max_size: sps.palette_max_size,
        delta_palette_max_predictor_size: sps.delta_palette_max_predictor_size,
        motion_vector_resolution_control_idc: sps.motion_vector_resolution_control_idc,
        sps_num_palette_predictor_initializers_minus1: sps.sps_num_palette_predictor_initializers_minus1,
        conf_win_left_offset: sps.conf_win_left_offset,
        conf_win_right_offset: sps.conf_win_right_offset,
        conf_win_top_offset: sps.conf_win_top_offset,
        conf_win_bottom_offset: sps.conf_win_bottom_offset,
        profile_tier_level: StdVideoH265ProfileTierLevel {
            general_tier_flag: sps.tier_flag,
            general_profile_idc: sps.profile_idc as u32,
            general_level_idc: h265_level_idc_to_vulkan(sps.level_idc),
        },
        dec_pic_buf_mgr: limits_of(
            &sps.max_latency_increase_plus1,
            &sps.max_dec_pic_buffering_minus1,
            &sps.max_num_reorder_pics,
        ),
        short_term_ref_pic_sets: sets,
        long_term_ref_pics_sps: long_term,
        vui,
    }
}

/// A picture parameter set as the Vulkan session takes it.
pub open spec fn h265_pps_of(pps: H265Pps) -> StdVideoH265PictureParameterSet {
    StdVideoH265PictureParameterSet {
        dependent_slice_segments_enabled_flag: pps.dependent_slice_segments_enabled_flag,
        output_flag_present_flag: pps.output_flag_present_flag,
        sign_data_hiding_enabled_flag: pps.sign_data_hiding_enabled_flag,
        cabac_init_present_flag: pps.cabac_init_present_flag,
        constrained_intra_pred_flag: pps.constrained_intra_pred_flag,
        transform_skip_enabled_flag: pps.transform_skip_enabled_flag,
        cu_qp_delta_enabled_flag: pps.cu_qp_delta_enabled_flag,
        pps_slice_chroma_qp_offsets_present_flag: pps.pps_slice_chroma_qp_offsets_present_flag,
        weighted_pred_flag: pps.weighted_pred_flag,
        weighted_bipred_flag: pps.weighted_bipred_flag,
        transquant_bypass_enabled_flag: pps.transquant_bypass_enabled_flag,
        tiles_enabled_flag: pps.tiles_enabled_flag,
        entropy_coding_sync_enabled_flag: pps.entropy_coding_sync_enabled_flag,
        uniform_spacing_flag: pps.uniform_spacing_flag,
        loop_filter_across_tiles_enabled_flag: pps.loop_filter_across_tiles_enabled_flag,
        pps_loop_filter_across_slices_enabled_flag: pps.pps_loop_filter_across_slices_enabled_flag,
        deblocking_filter_control_present_flag: pps.deblocking_filter_control_present_flag,
        deblocking_filter_override_enabled_flag: pps.deblocking_filter_override_enabled_flag,
        pps_deblocking_filter_disabled_flag: pps.pps_deblocking_filter_disabled_flag,
        pps_scaling_list_data_present_flag: pps.pps_scaling_list_data_present_flag,
        lists_modification_present_flag: pps.lists_modification_present_flag,
        pps_pic_parameter_set_id: pps.pps_pic_parameter_set_id as u8,
        pps_seq_parameter_set_id: pps.pps_seq_parameter_set_id as u8,
        sps_video_parameter_set_id: pps.sps_video_parameter_set_id,
        num_extra_slice_header_bits: pps.num_extra_slice_header_bits,
        num_ref_idx_l0_default_active_minus1: pps.num_ref_idx_l0_default_active_minus1,
        num_ref_idx_l1_default_active_minus1: pps.num_ref_idx_l1_default_active_minus1,
        init_qp_minus26: pps.pps_init_qp_minus26 as i8,
        diff_cu_qp_delta_depth: pps.diff_cu_qp_delta_depth,
        pps_cb_qp_offset: pps.pps_cb_qp_offset,
        pps_cr_qp_offset: pps.pps_cr_qp_offset,
        pps_beta_offset_div2: pps.pps_beta_offset_div2,
        pps_tc_offset_div2: pps.pps_tc_offset_div2,
        log2_parallel_merge_level_minus2: pps.log2_parallel_merge_level_minus2,
        log2_max_transform_skip_block_size_minus2: pps.log2_max_transform_skip_block_size_minus2,
        diff_cu_chroma_qp_offset_depth: pps.diff_cu_chroma_qp_offset_depth,
        chroma_qp_offset_list_len_minus1: pps.chroma_qp_offset_list_len_minus1,
        cb_qp_offset_list: pps.cb_qp_offset_list,
        cr_qp_offset_list: pps.cr_qp_offset_list,
        log2_sao_offset_scale_luma: pps.log2_sao_offset_scale_luma,
        log2_sao_offset_scale_chroma: pps.log2_sao_offset_scale_chroma,
        pps_act_y_qp_offset_plus5: pps.pps_act_y_qp_offset_plus5,
        pps_act_cb_qp_offset_plus5: pps.pps_act_cb_qp_offset_plus5,
        pps_act_cr_qp_offset_plus3: pps.pps_act_cr_qp_offset_plus3,
        pps_num_palette_predictor_initializers: pps.pps_num_palette_predictor_initializers,
        luma_bit_depth_entry_minus8: pps.luma_bit_depth_entry_minus8,
        chroma_bit_depth_entry_minus8: pps.chroma_bit_depth_entry_minus8,
        num_tile_columns_minus1: pps.num_tile_columns_minus1,
        num_tile_rows_minus1: pps.num_tile_rows_minus1,
        column_width_minus1: pps.column_width_minus1,
        row_height_minus1: pps.row_height_minus1,
    }
}

/// Converts a picture parameter set. Scaling lists and palette entries are not
/// handed on.
pub fn convert_h265_pps(pps: &H265Pps) -> (r: StdVideoH265PictureParameterSet)
    ensures
        r == h265_pps_of(*pps),
{
    StdVideoH265PictureParameterSet {
        dependent_slice_segments_enabled_flag: pps.dependent_slice_segments_enabled_flag,
        output_flag_present_flag: pps.output_flag_present_flag,
        sign_data_hiding_enabled_flag: pps.sign_data_hiding_enabled_flag,
        cabac_init_present_flag: pps.cabac_init_present_flag,
        constrained_intra_pred_flag: pps.constrained_intra_pred_flag,
        transform_skip_enabled_flag: pps.transform_skip_enabled_flag,
        cu_qp_delta_enabled_flag: pps.cu_qp_delta_enabled_flag,
        pps_slice_chroma_qp_offsets_present_flag: pps.pps_slice_chroma_qp_offsets_present_flag,
        weighted_pred_flag: pps.weighted_pred_flag,
        weighted_bipred_flag: pps.weighted_bipred_flag,
        transquant_bypass_enabled_flag: pps.transquant_bypass_enabled_flag,
        tiles_enabled_flag: pps.tiles_enabled_flag,
        entropy_coding_sync_enabled_flag: pps.entropy_coding_sync_enabled_flag,
        uniform_spacing_flag: pps.uniform_spacing_flag,
        loop_filter_across_tiles_enabled_flag: pps.loop_filter_across_tiles_enabled_flag,
        pps_loop_filter_across_slices_enabled_flag: pps.pps_loop_filter_across_slices_enabled_flag,
        deblocking_filter_control_present_flag: pps.deblocking_filter_control_present_flag,
        deblocking_filter_override_enabled_flag: pps.deblocking_filter_override_enabled_flag,
        pps_deblocking_filter_disabled_flag: pps.pps_deblocking_filter_disabled_flag,
        pps_scaling_list_data_present_flag: pps.pps_scaling_list_data_present_flag,
        lists_modification_present_flag: pps.lists_modification_present_flag,
        pps_pic_parameter_set_id: pps.pps_pic_parameter_set_id as u8,
        pps_seq_parameter_set_id: pps.pps_seq_parameter_set_id as u8,
        sps_video_parameter_set_id: pps.sps_video_parameter_set_id,
        num_extra_slice_header_bits: pps.num_extra_slice_header_bits,
        num_ref_idx_l0_default_active_minus1: pps.num_ref_idx_l0_default_active_minus1,
        num_ref_idx_l1_default_active_minus1: pps.num_ref_idx_l1_default_active_minus1,
        init_qp_minus26: pps.pps_init_qp_minus26 as i8,
        diff_cu_qp_delta_depth: pps.diff_cu_qp_delta_depth,
        pps_cb_qp_offset: pps.pps_cb_qp_offset,
        pps_cr_qp_offset: pps.pps_cr_qp_offset,
        pps_beta_offset_div2: pps.pps_beta_offset_div2,
        pps_tc_offset_div2: pps.pps_tc_offset_div2,
        log2_parallel_merge_level_minus2: pps.log2_parallel_merge_level_minus2,
        log2_max_transform_skip_block_size_minus2: pps.log2_max_transform_skip_block_size_minus2,
        diff_cu_chroma_qp_offset_depth: pps.diff_cu_chroma_qp_offset_depth,
        chroma_qp_offset_list_len_minus1: pps.chroma_qp_offset_list_len_minus1,
        cb_qp_offset_list: pps.cb_qp_offset_list,
        cr_qp_offset_list: pps.cr_qp_offset_list,
        log2_sao_offset_scale_luma: pps.log2_sao_offset_scale_luma,
        log2_sao_offset_scale_chroma: pps.log2_sao_offset_scale_chroma,
        pps_act_y_qp_offset_plus5: pps.pps_act_y_qp_offset_plus5,
        pps_act_cb_qp_offset_plus5: pps.pps_act_cb_qp_offset_plus5,
        pps_act_cr_qp_offset_plus3: pps.pps_act_cr_qp_offset_plus3,
        pps_num_palette_predictor_initializers: pps.pps_num_palette_predictor_initializers,
        luma_bit_depth_entry_minus8: pps.luma_bit_depth_entry_minus8,
        chroma_bit_depth_entry_minus8: pps.chroma_bit_depth_entry_minus8,
        num_tile_columns_minus1: pps.num_tile_columns_minus1,
        num_tile_rows_minus1: pps.num_tile_rows_minus1,
        column_width_minus1: pps.column_width_minus1,
        row_height_minus1: pps.row_height_minus1,
    }
}

/// A converted video parameter set says what the given one says.
pub open spec fn is_h265_vps(r: StdVideoH265VideoParameterSet, vps: H265Vps) -> bool {
    &&& r.vps_temporal_id_nesting_flag == vps.vps_temporal_id_nesting_flag
    &&& r.vps_sub_layer_ordering_info_present_flag == vps.vps_sub_layer_ordering_info_present_flag
    &&& r.vps_timing_info_present_flag == vps.vps_timing_info_present_flag
    &&& r.vps_video_parameter_set_id == vps.vps_video_parameter_set_id
    &&& r.vps_max_sub_layers_minus1 == vps.vps_max_sub_layers_minus1
    &&& r.vps_num_units_in_tick == vps.vps_num_units_in_tick
    &&& r.vps_time_scale == vps.vps_time_scale
    &&& r.vps_num_ticks_poc_diff_one_minus1 == vps.vps_num_ticks_poc_diff_one_minus1
    &&& r.profile_tier_level == (StdVideoH265ProfileTierLevel {
        general_tier_flag: vps.tier_flag,
        general_profile_idc: vps.profile_idc as u32,
        general_level_idc: h265_level_code(vps.level_idc),
    })
    &&& are_limits(
        r.dec_pic_buf_mgr,
        vps.max_latency_increase_plus1@,
        vps.max_dec_pic_buffering_minus1@,
        vps.max_num_reorder_pics@,
    )
}

/// Converts a video parameter set.
pub fn convert_h265_vps(vps: &H265Vps) -> (r: StdVideoH265VideoParameterSet)
    ensures
        is_h265_vps(r, *vps),
{
    StdVideoH265VideoParameterSet {
        vps_temporal_id_nesting_flag: vps.vps_temporal_id_nesting_flag,
        vps_sub_layer_ordering_info_present_flag: vps.vps_sub_layer_ordering_info_present_flag,
        vps_timing_info_present_flag: vps.vps_timing_info_present_flag,
        vps_video_parameter_set_id: vps.vps_video_parameter_set_id,
        vps_max_sub_layers_minus1: vps.vps_max_sub_layers_minus1,
        vps_num_units_in_tick: vps.vps_num_units_in_tick,
        vps_time_scale: vps.vps_time_scale,
        vps_num_ticks_poc_diff_one_minus1: vps.vps_num_ticks_poc_diff_one_minus1,
        profile_tier_level: StdVideoH265ProfileTierLevel {
            general_tier_flag: vps.tier_flag,
            general_profile_idc: vps.profile_idc as u32,
            general_level_idc: h265_level_idc_to_vulkan(vps.level_idc),
        },
        dec_pic_buf_mgr: limits_of(
            &vps.max_latency_increase_plus1,
            &vps.max_dec_pic_buffering_minus1,
            &vps.max_num_reorder_pics,
        ),
    }
}

// ---------------------------------------------------------------------------
// Decode commands
// ---------------------------------------------------------------------------

/// A picture of a decode command. `image_view` and `image` are handles.
#[derive(Debug, Clone, Copy, PartialEq, Eq, Structural)]
pub struct H265RefPictureInfo {
    pub slot_index: u32,
    pub pic_order_cnt: i32,
    pub image_view: u64,
    pub image: u64,
    pub current_layout: ImageLayout,
}

/// What a decode command says of its picture.
#[derive(Debug, Clone, Copy)]
pub struct H265PictureInfo {
    pub sps_video_parameter_set_id: u8,
    pub pps_seq_parameter_set_id: u8,
    pub pps_pic_parameter_set_id: u8,
    pub is_irap: bool,
    pub is_idr: bool,
    pub is_reference: bool,
    /// The size of the short-term reference picture set in the slice header.
    pub num_bits_for_st_ref_pic_set_in_slice: u16,
    /// The number of order counts in the set that it is predicted from.
    pub num_delta_pocs_of_ref_rps_idx: u8,
    pub pic_order_cnt_val: i32,
    /// The slots of the references that precede the picture in order, that follow
    /// it, and that are kept for long.
    pub ref_pic_set_st_curr_before: [u8; 8],
    pub ref_pic_set_st_curr_after: [u8; 8],
    pub ref_pic_set_lt_curr: [u8; 8],
}

/// A slot of a decode command, with the order count of its picture.
#[derive(Debug, Clone, Copy, PartialEq, Eq, Structural)]
pub struct H265Slot {
    pub slot_index: i32,
    pub image_view: u64,
    pub pic_order_cnt_val: i32,
}

/// What is recorded for one H.265 decode command.
#[derive(Debug)]
pub struct H265DecodePlan {
    pub picture: H265PictureInfo,
    /// The slots that coding begins with.
    pub begin_slots: Vec<H265Slot>,
    /// The slot of the picture itself.
    pub setup_slot: Option<H265Slot>,
    /// The slots of the reference pictures.
    pub ref_slots: Vec<H265Slot>,
    pub barriers: Vec<ImageBarrier>,
}

/// What the stream says of a picture, as far as it is known.
#[derive(Debug, Clone, Copy, PartialEq, Eq, Structural)]
pub struct H265Known {
    pub pic_order_cnt: Option<i32>,
    pub is_intra: Option<bool>,
    pub is_reference: Option<bool>,
    pub is_idr: Option<bool>,
    pub num_bits_for_st_ref_pic_set_in_slice: Option<i32>,
    pub num_delta_pocs_of_ref_rps_idx: Option<i32>,
}

impl H265Known {
    /// The order count and the kind of the picture are known.
    pub open spec fn is_complete(&self) -> bool {
        &&& self.pic_order_cnt is Some
        &&& self.is_intra is Some
        &&& self.is_reference is Some
        &&& self.is_idr is Some
    }
}

/// The sets that the references of a picture are told in.
#[derive(Debug, Clone, Copy, PartialEq, Eq, Structural)]
pub enum H265RefSet {
    /// References that precede the picture in order.
    StCurrBefore,
    /// References that follow it.
    StCurrAfter,
    /// References that are kept for long.
    LtCurr,
}

/// The set that a reference with the given order count belongs to; none where the
/// count is that of the picture itself.
pub open spec fn set_of(poc: i32, current: i32, long_term: Seq<i32>) -> Option<H265RefSet> {
    if long_term.contains(poc) {
        Some(H265RefSet::LtCurr)
    } else if poc < current {
        Some(H265RefSet::StCurrBefore)
    } else if poc > current {
        Some(H265RefSet::StCurrAfter)
    } else {
        None
    }
}

/// The slot of the first reference from `i` on that has the given order count.
pub open spec fn slot_with_poc(refs: Seq<H265RefPictureInfo>, poc: i32, i: int) -> Option<u8>
    decreases refs.len() - i,
{
    if i >= refs.len() {
        None
    } else if refs[i].pic_order_cnt == poc {
        Some(refs[i].slot_index as u8)
    } else {
        slot_with_poc(refs, poc, i + 1)
    }
}

/// The slots of a set, in the order in which the stream names their order counts. A
/// count that no reference has is passed over.
pub open spec fn set_slots(
    refs: Seq<H265RefPictureInfo>,
    pocs: Seq<i32>,
    long_term: Seq<i32>,
    current: i32,
    which: H265RefSet,
) -> Seq<u8>
    decreases pocs.len(),
{
    if pocs.len() == 0 {
        Seq::empty()
    } else {
        let rest = set_slots(refs, pocs.drop_last(), long_term, current, which);
        match slot_with_poc(refs, pocs.last(), 0) {
            Some(slot) if set_of(pocs.last(), current, long_term) == Some(which) => rest.push(slot),
            _ => rest,
        }
    }
}

/// A set as it is recorded: its first eight slots, and marks for none behind them.
pub open spec fn recorded_set(slots: Seq<u8>) -> Seq<u8> {
    Seq::new(
        8,
        |i: int|
            if i < slots.len() {
                slots[i]
            } else {
                0xFFu8
            },
    )
}

/// Every slot of a set is that of a reference whose order count the stream names and
/// which belongs to the set.
pub proof fn law_sets_hold_references(
    refs: Seq<H265RefPictureInfo>,
    pocs: Seq<i32>,
    long_term: Seq<i32>,
    current: i32,
    which: H265RefSet,
    k: int,
)
    requires
        0 <= k < set_slots(refs, pocs, long_term, current, which).len(),
    ensures
        exists|r: int|
            0 <= r < refs.len() && (#[trigger] refs[r]).slot_index as u8 == set_slots(
                refs,
                pocs,
                long_term,
                current,
                which,
            )[k] && pocs.contains(refs[r].pic_order_cnt) && set_of(
                refs[r].pic_order_cnt,
                current,
                long_term,
            ) == Some(which),
    decreases pocs.len(),
{
    let before = pocs.drop_last();
    let all = set_slots(refs, pocs, long_term, current, which);
    let rest = set_slots(refs, before, long_term, current, which);
    if k < rest.len() {
        law_sets_hold_references(refs, before, long_term, current, which, k);
        let r = choose|r: int|
            0 <= r < refs.len() && (#[trigger] refs[r]).slot_index as u8 == rest[k]
                && before.contains(refs[r].pic_order_cnt) && set_of(
                refs[r].pic_order_cnt,
                current,
                long_term,
            ) == Some(which);
        let j = choose|j: int| 0 <= j < before.len() && before[j] == refs[r].pic_order_cnt;
        assert(pocs[j] == refs[r].pic_order_cnt);
        assert(all[k] == rest[k]);
    } else {
        let r = lemma_slot_with_poc(refs, pocs.last(), 0);
        assert(pocs[pocs.len() - 1] == refs[r].pic_order_cnt);
    }
}

proof fn lemma_slot_with_poc(refs: Seq<H265RefPictureInfo>, poc: i32, i: int) -> (r: int)
    requires
        0 <= i,
        slot_with_poc(refs, poc, i) is Some,
    ensures
        i <= r < refs.len(),
        refs[r].pic_order_cnt == poc,
        slot_with_poc(refs, poc, i) == Some(refs[r].slot_index as u8),
    decreases refs.len() - i,
{
    if refs[i].pic_order_cnt == poc {
        i
    } else {
        lemma_slot_with_poc(refs, poc, i + 1)
    }
}

/// What is recorded of the picture: what the stream says of it where its order count
/// and kind are known; otherwise a reference picture that is counted by the frame
/// counter. What the slice header says of its short-term set is zero where it is
/// unknown. The sets hold the slots of the references whose order counts the stream
/// names in `pocs`; those of them that are in `long_term` are kept for long.
pub open spec fn is_h265_picture(
    p: H265PictureInfo,
    known: H265Known,
    frame_count: u32,
    sps: H265Sps,
    pps: H265Pps,
    refs: Seq<H265RefPictureInfo>,
    pocs: Seq<i32>,
    long_term: Seq<i32>,
) -> bool {
    let slots = |which: H265RefSet|
        set_slots(refs, pocs, long_term, p.pic_order_cnt_val, which);
    let complete = known.is_complete();
    &&& p.sps_video_parameter_set_id == sps.sps_video_parameter_set_id
    &&& p.pps_seq_parameter_set_id == pps.pps_seq_parameter_set_id as u8
    &&& p.pps_pic_parameter_set_id == pps.pps_pic_parameter_set_id as u8
    &&& p.is_irap == (complete && known.is_intra->0)
    &&& p.is_idr == (complete && known.is_idr->0)
    &&& p.is_reference == (!complete || known.is_reference->0)
    &&& p.num_bits_for_st_ref_pic_set_in_slice
        == match known.num_bits_for_st_ref_pic_set_in_slice {
        Some(n) => n as u16,
        None => 0,
    }
    &&& p.num_delta_pocs_of_ref_rps_idx == match known.num_delta_pocs_of_ref_rps_idx {
        Some(n) => n as u8,
        None => 0,
    }
    &&& p.pic_order_cnt_val == if complete {
        known.pic_order_cnt->0
    } else {
        (frame_count as int % pow2(sps.poc_lsb_bits()) as int) as i32
    }
    &&& p.ref_pic_set_st_curr_before@ == recorded_set(slots(H265RefSet::StCurrBefore))
    &&& p.ref_pic_set_st_curr_after@ == recorded_set(slots(H265RefSet::StCurrAfter))
    &&& p.ref_pic_set_lt_curr@ == recorded_set(slots(H265RefSet::LtCurr))
}

/// The slot of a picture.
pub open spec fn h265_slot_of(r: H265RefPictureInfo) -> H265Slot {
    H265Slot {
        slot_index: r.slot_index as i32,
        image_view: r.image_view,
        pic_order_cnt_val: r.pic_order_cnt,
    }
}

/// The slots of pictures.
pub open spec fn h265_slots_of(refs: Seq<H265RefPictureInfo>) -> Seq<H265Slot> {
    refs.map_values(|r: H265RefPictureInfo| h265_slot_of(r))
}

/// The slots that coding begins with: those of the references; that of the
/// picture itself where there are none.
pub open spec fn h265_begin_slots(
    setup: Option<H265RefPictureInfo>,
    refs: Seq<H265RefPictureInfo>,
) -> Seq<H265Slot> {
    if refs.len() > 0 {
        h265_slots_of(refs)
    } else {
        match setup {
            Some(p) => seq![h265_slot_of(p)],
            None => Seq::empty(),
        }
    }
}

/// The images of the reference pictures; each has an image of its own.
pub open spec fn h265_ref_images(refs: Seq<H265RefPictureInfo>) -> Seq<RefImage> {
    refs.map_values(
        |r: H265RefPictureInfo| RefImage { image: r.image, layout: r.current_layout, layer: 0 },
    )
}

/// H.265 decoder state.
#[derive(Debug)]
pub struct H265Decoder {
    pub vps: Option<H265Vps>,
    pub sps: Option<H265Sps>,
    pub pps: Option<H265Pps>,
    pub frame_count: u32,
    pub prev_pic_order_cnt_lsb: u32,
}

/// An update of session parameters.
#[derive(Debug)]
pub struct H265ParametersUpdate {
    pub update_sequence_count: u32,
    pub vps: Option<StdVideoH265VideoParameterSet>,
    pub sps: Option<StdVideoH265SequenceParameterSet>,
    pub pps: Option<StdVideoH265PictureParameterSet>,
}

impl H265Decoder {
    /// A decoder without parameter sets.
    pub fn new() -> (d: H265Decoder)
        ensures
            d == (H265Decoder {
                vps: None,
                sps: None,
                pps: None,
                frame_count: 0,
                prev_pic_order_cnt_lsb: 0,
            }),
    {
        H265Decoder { vps: None, sps: None, pps: None, frame_count: 0, prev_pic_order_cnt_lsb: 0 }
    }

    /// Sets the video parameter set.
    pub fn set_vps(&mut self, vps: H265Vps)
        ensures
            *final(self) == (H265Decoder { vps: Some(vps), ..*old(self) }),
    {
        self.vps = Some(vps);
    }

    /// Sets the sequence parameter set.
    pub fn set_sps(&mut self, sps: H265Sps)
        ensures
            *final(self) == (H265Decoder { sps: Some(sps), ..*old(self) }),
    {
        self.sps = Some(sps);
    }

    /// Sets the picture parameter set.
    pub fn set_pps(&mut self, pps: H265Pps)
        ensures
            *final(self) == (H265Decoder { pps: Some(pps), ..*old(self) }),
    {
        self.pps = Some(pps);
    }

    /// Prepares an update of session parameters. It is always the first.
    pub fn update_session_parameters(
        &self,
        vps: Option<&H265Vps>,
        sps: Option<&H265Sps>,
        pps: Option<&H265Pps>,
    ) -> (u: H265ParametersUpdate)
        ensures
            u.update_sequence_count == 1,
            match vps {
                Some(v) => u.vps matches Some(r) && is_h265_vps(r, *v),
                None => u.vps is None,
            },
            match sps {
                Some(s) => u.sps matches Some(r) && is_h265_sps(r, *s),
                None => u.sps is None,
            },
            u.pps == match pps {
                Some(p) => Some(h265_pps_of(*p)),
                None => None,
            },
    {
        let std_vps: Option<StdVideoH265VideoParameterSet> = match vps {
            Some(v) => Some(convert_h265_vps(v)),
            None => None,
        };
        let std_sps: Option<StdVideoH265SequenceParameterSet> = match sps {
            Some(s) => Some(convert_h265_sps(s)),
            None => None,
        };
        let std_pps: Option<StdVideoH265PictureParameterSet> = match pps {
            Some(p) => Some(convert_h265_pps(p)),
            None => None,
        };
        H265ParametersUpdate {
            update_sequence_count: 1,
            vps: std_vps,
            sps: std_sps,
            pps: std_pps,
        }
    }

    /// Decides what is recorded for a decode command, and counts the picture. Both
    /// parameter sets must be there.
    pub fn record_decode_command(
        &mut self,
        output_image: u64,
        setup: Option<H265RefPictureInfo>,
        refs: &[H265RefPictureInfo],
        known: H265Known,
        ref_pocs: &[i32],
        long_term_pocs: &[i32],
    ) -> (plan: H265DecodePlan)
        requires
            old(self).sps is Some,
            old(self).pps is Some,
            old(self).sps->0.log2_max_pic_order_cnt_lsb_minus4 <= 27,
        ensures
            *final(self) == (H265Decoder {
                frame_count: old(self).frame_count.wrapping_add(1),
                ..*old(self)
            }),
            is_h265_plan(
                plan,
                old(self).sps->0,
                old(self).pps->0,
                old(self).frame_count,
                output_image,
                setup,
                refs@,
                known,
                ref_pocs@,
                long_term_pocs@,
            ),
    {
        let frame_count: u32 = self.frame_count;
        self.frame_count = frame_count.wrapping_add(1);
        let sps: &H265Sps = self.sps.as_ref().unwrap();
        let pps: &H265Pps = self.pps.as_ref().unwrap();
        plan_h265_decode(
            sps,
            pps,
            frame_count,
            output_image,
            setup,
            refs,
            known,
            ref_pocs,
            long_term_pocs,
        )
    }
}

/// What is recorded for a decode command.
pub open spec fn is_h265_plan(
    plan: H265DecodePlan,
    sps: H265Sps,
    pps: H265Pps,
    frame_count: u32,
    output_image: u64,
    setup: Option<H265RefPictureInfo>,
    refs: Seq<H265RefPictureInfo>,
    known: H265Known,
    pocs: Seq<i32>,
    long_term: Seq<i32>,
) -> bool {
    &&& is_h265_picture(plan.picture, known, frame_count, sps, pps, refs, pocs, long_term)
    &&& plan.begin_slots@ == h265_begin_slots(setup, refs)
    &&& plan.setup_slot == match setup {
        Some(p) => Some(h265_slot_of(p)),
        None => None,
    }
    &&& plan.ref_slots@ == h265_slots_of(refs)
    &&& plan.barriers@ == command_barriers(
        output_image,
        ImageLayout::Undefined,
        0,
        setup is Some,
        h265_ref_images(refs),
        false,
    )
}

fn is_among(list: &[i32], poc: i32) -> (r: bool)
    ensures
        r == list@.contains(poc),
{
    let mut i: usize = 0;
    while i < list.len()
        invariant
            i <= list@.len(),
            forall|k: int| 0 <= k < i ==> list@[k] != poc,
        decreases list@.len() - i,
    {
        if list[i] == poc {
            return true;
        }
        i = i + 1;
    }
    false
}

fn find_slot(refs: &[H265RefPictureInfo], poc: i32) -> (r: Option<u8>)
    ensures
        r == slot_with_poc(refs@, poc, 0),
{
    let mut i: usize = 0;
    while i < refs.len()
        invariant
            i <= refs@.len(),
            slot_with_poc(refs@, poc, 0) == slot_with_poc(refs@, poc, i as int),
        decreases refs@.len() - i,
    {
        if refs[i].pic_order_cnt == poc {
            return Some(refs[i].slot_index as u8);
        }
        i = i + 1;
    }
    None
}

fn choose_set(poc: i32, current: i32, long_term: &[i32]) -> (r: Option<H265RefSet>)
    ensures
        r == set_of(poc, current, long_term@),
{
    if is_among(long_term, poc) {
        Some(H265RefSet::LtCurr)
    } else if poc < current {
        Some(H265RefSet::StCurrBefore)
    } else if poc > current {
        Some(H265RefSet::StCurrAfter)
    } else {
        None
    }
}

fn build_set(
    refs: &[H265RefPictureInfo],
    pocs: &[i32],
    long_term: &[i32],
    current: i32,
    which: H265RefSet,
) -> (set: [u8; 8])
    ensures
        set@ == recorded_set(set_slots(refs@, pocs@, long_term@, current, which)),
{
    let mut set: [u8; 8] = [0xFF, 0xFF, 0xFF, 0xFF, 0xFF, 0xFF, 0xFF, 0xFF];
    let mut n: usize = 0;
    let mut i: usize = 0;
    assert(set@ =~= recorded_set(
        set_slots(refs@, pocs@.take(0), long_term@, current, which),
    ));
    while i < pocs.len()
        invariant
            i <= pocs@.len(),
            n <= i,
            n == set_slots(refs@, pocs@.take(i as int), long_term@, current, which).len(),
            set@ == recorded_set(
                set_slots(refs@, pocs@.take(i as int), long_term@, current, which),
            ),
        decreases pocs@.len() - i,
    {
        let poc: i32 = pocs[i];
        let ghost slots = set_slots(refs@, pocs@.take(i as int), long_term@, current, which);
        proof {
            assert(pocs@.take(i + 1).drop_last() =~= pocs@.take(i as int));
            assert(pocs@.take(i + 1).last() == poc);
        }
        let belongs: bool = match choose_set(poc, current, long_term) {
            Some(s) => s == which,
            None => false,
        };
        if belongs {
            if let Some(slot) = find_slot(refs, poc) {
                if n < 8 {
                    set[n] = slot;
                }
                n = n + 1;
                assert(set@ =~= recorded_set(slots.push(slot)));
            }
        }
        i = i + 1;
    }
    assert(pocs@.take(i as int) =~= pocs@);
    set
}

fn build_picture_info(
    sps: &H265Sps,
    pps: &H265Pps,
    frame_count: u32,
    known: H265Known,
    refs: &[H265RefPictureInfo],
    pocs: &[i32],
    long_term: &[i32],
) -> (p: H265PictureInfo)
    requires
        sps.log2_max_pic_order_cnt_lsb_minus4 <= 27,
    ensures
        is_h265_picture(p, known, frame_count, *sps, *pps, refs@, pocs@, long_term@),
{
    let (poc, intra, reference, idr): (i32, bool, bool, bool) = match (
        known.pic_order_cnt,
        known.is_intra,
        known.is_reference,
        known.is_idr,
    ) {
        (Some(p), Some(intra), Some(reference), Some(idr)) => (p, intra, reference, idr),
        _ => {
            let cycle: u32 = cycle_of(sps.log2_max_pic_order_cnt_lsb_minus4);
            ((frame_count % cycle) as i32, false, true, false)
        },
    };
    H265PictureInfo {
        sps_video_parameter_set_id: sps.sps_video_parameter_set_id,
        pps_seq_parameter_set_id: pps.pps_seq_parameter_set_id as u8,
        pps_pic_parameter_set_id: pps.pps_pic_parameter_set_id as u8,
        is_irap: intra,
        is_idr: idr,
        is_reference: reference,
        num_bits_for_st_ref_pic_set_in_slice: match known.num_bits_for_st_ref_pic_set_in_slice {
            Some(n) => #[verifier::truncate]
            (n as u16),
            None => 0,
        },
        num_delta_pocs_of_ref_rps_idx: match known.num_delta_pocs_of_ref_rps_idx {
            Some(n) => #[verifier::truncate]
            (n as u8),
            None => 0,
        },
        pic_order_cnt_val: poc,
        ref_pic_set_st_curr_before: build_set(
            refs,
            pocs,
            long_term,
            poc,
            H265RefSet::StCurrBefore,
        ),
        ref_pic_set_st_curr_after: build_set(
            refs,
            pocs,
            long_term,
            poc,
            H265RefSet::StCurrAfter,
        ),
        ref_pic_set_lt_curr: build_set(refs, pocs, long_term, poc, H265RefSet::LtCurr),
    }
}

/// Decides what is recorded for a decode command. Where not everything is known of
/// the picture, it is counted by `frame_count`.
pub fn plan_h265_decode(
    sps: &H265Sps,
    pps: &H265Pps,
    frame_count: u32,
    output_image: u64,
    setup: Option<H265RefPictureInfo>,
    refs: &[H265RefPictureInfo],
    known: H265Known,
    ref_pocs: &[i32],
    long_term_pocs: &[i32],
) -> (plan: H265DecodePlan)
    requires
        sps.log2_max_pic_order_cnt_lsb_minus4 <= 27,
    ensures
        is_h265_plan(
            plan,
            *sps,
            *pps,
            frame_count,
            output_image,
            setup,
            refs@,
            known,
            ref_pocs@,
            long_term_pocs@,
        ),
{
    let picture: H265PictureInfo = build_picture_info(
        sps,
        pps,
        frame_count,
        known,
        refs,
        ref_pocs,
        long_term_pocs,
    );
    let mut images: Vec<RefImage> = Vec::new();
    let mut ref_slots: Vec<H265Slot> = Vec::new();
    let mut begin_slots: Vec<H265Slot> = Vec::new();
    let mut i: usize = 0;
    while i < refs.len()
        invariant
            i <= refs@.len(),
            images@ == h265_ref_images(refs@.take(i as int)),
            ref_slots@ == h265_slots_of(refs@.take(i as int)),
            begin_slots@ == ref_slots@,
        decreases refs@.len() - i,
    {
        let r: &H265RefPictureInfo = &refs[i];
        images.push(RefImage { image: r.image, layout: r.current_layout, layer: 0 });
        assert(images@ =~= h265_ref_images(refs@.take(i + 1)));
        let slot = H265Slot {
            slot_index: r.slot_index as i32,
            image_view: r.image_view,
            pic_order_cnt_val: r.pic_order_cnt,
        };
        ref_slots.push(slot);
        begin_slots.push(slot);
        assert(ref_slots@ =~= h265_slots_of(refs@.take(i + 1)));
        i = i + 1;
    }
    assert(refs@.take(i as int) =~= refs@);
    let setup_slot: Option<H265Slot> = match setup {
        Some(p) => Some(
            H265Slot {
                slot_index: p.slot_index as i32,
                image_view: p.image_view,
                pic_order_cnt_val: p.pic_order_cnt,
            },
        ),
        None => None,
    };
    if refs.len() == 0 {
        if let Some(s) = setup_slot {
            begin_slots.push(s);
        }
    }
    assert(begin_slots@ =~= h265_begin_slots(setup, refs@));
    let barriers: Vec<ImageBarrier> = plan_barriers(
        output_image,
        ImageLayout::Undefined,
        0,
        setup.is_some(),
        &images,
        false,
    );
    H265DecodePlan { picture, begin_slots, setup_slot, ref_slots, barriers }
}

/// Usability information keeps each of its values under the same name.
pub proof fn law_h265_usability_is_kept(vui: H265SpsVui)
    ensures
        ({
            let r = h265_vui_of(vui);
            &&& r.aspect_ratio_info_present_flag == vui.aspect_ratio_info_present_flag
            &&& r.overscan_info_present_flag == vui.overscan_info_present_flag
            &&& r.overscan_appropriate_flag == vui.overscan_appropriate_flag
            &&& r.video_signal_type_present_flag == vui.video_signal_type_present_flag
            &&& r.video_full_range_flag == vui.video_full_range_flag
            &&& r.colour_description_present_flag == vui.colour_description_present_flag
            &&& r.chroma_loc_info_present_flag == vui.chroma_loc_info_present_flag
            &&& r.neutral_chroma_indication_flag == vui.neutral_chroma_indication_flag
            &&& r.field_seq_flag == vui.field_seq_flag
            &&& r.frame_field_info_present_flag == vui.frame_field_info_present_flag
            &&& r.default_display_window_flag == vui.default_display_window_flag
            &&& r.vui_timing_info_present_flag == vui.vui_timing_info_present_flag
            &&& r.vui_poc_proportional_to_timing_flag == vui.vui_poc_proportional_to_timing_flag
            &&& r.vui_hrd_parameters_present_flag == vui.vui_hrd_parameters_present_flag
            &&& r.bitstream_restriction_flag == vui.bitstream_restriction_flag
            &&& r.tiles_fixed_structure_flag == vui.tiles_fixed_structure_flag
            &&& r.motion_vectors_over_pic_boundaries_flag == vui.motion_vectors_over_pic_boundaries_flag
            &&& r.restricted_ref_pic_lists_flag == vui.restricted_ref_pic_lists_flag
            &&& r.aspect_ratio_idc == vui.aspect_ratio_idc as u32
            &&& r.sar_width == vui.sar_width
            &&& r.sar_height == vui.sar_height
            &&& r.video_format == vui.video_format
            &&& r.colour_primaries == vui.colour_primaries
            &&& r.transfer_characteristics == vui.transfer_characteristics
            &&& r.matrix_coeffs == vui.matrix_coeffs
            &&& r.chroma_sample_loc_type_top_field == vui.chroma_sample_loc_type_top_field as u8
            &&& r.chroma_sample_loc_type_bottom_field == vui.chroma_sample_loc_type_bottom_field as u8
            &&& r.def_disp_win_left_offset == vui.def_disp_win_left_offset as u16
            &&& r.def_disp_win_right_offset == vui.def_disp_win_right_offset as u16
            &&& r.def_disp_win_top_offset == vui.def_disp_win_top_offset as u16
            &&& r.def_disp_win_bottom_offset == vui.def_disp_win_bottom_offset as u16
            &&& r.vui_num_units_in_tick == vui.vui_num_units_in_tick
            &&& r.vui_time_scale == vui.vui_time_scale
            &&& r.vui_num_ticks_poc_diff_one_minus1 == vui.vui_num_ticks_poc_diff_one_minus1
            &&& r.min_spatial_segmentation_idc == vui.min_spatial_segmentation_idc as u16
            &&& r.max_bytes_per_pic_denom == vui.max_bytes_per_pic_denom as u8
            &&& r.max_bits_per_min_cu_denom == vui.max_bits_per_min_cu_denom as u8
            &&& r.log2_max_mv_length_horizontal == vui.log2_max_mv_length_horizontal as u8
            &&& r.log2_max_mv_length_vertical == vui.log2_max_mv_length_vertical as u8
        }),
{
}


/// A reference picture set keeps each of its values under the same name.
pub proof fn law_h265_reference_sets_are_kept(strps: H265ShortTermRefPicSet)
    ensures
        ({
            let r = h265_set_of(strps);
            &&& r.inter_ref_pic_set_prediction_flag == strps.inter_ref_pic_set_prediction_flag
            &&& r.delta_idx_minus1 == strps.delta_idx_minus1
            &&& r.use_delta_flag == strps.use_delta_flag
            &&& r.abs_delta_rps_minus1 == strps.abs_delta_rps_minus1
            &&& r.used_by_curr_pic_flag == strps.used_by_curr_pic_flag
            &&& r.used_by_curr_pic_s0_flag == strps.used_by_curr_pic_s0_flag
            &&& r.used_by_curr_pic_s1_flag == strps.used_by_curr_pic_s1_flag
            &&& r.num_negative_pics == strps.num_negative_pics
            &&& r.num_positive_pics == strps.num_positive_pics
            &&& r.delta_poc_s0_minus1 == strps.delta_poc_s0_minus1
            &&& r.delta_poc_s1_minus1 == strps.delta_poc_s1_minus1
        }),
{
}


/// A picture parameter set keeps each of its values under the same name.
pub proof fn law_h265_picture_parameters_are_kept(pps: H265Pps)
    ensures
        ({
            let r = h265_pps_of(pps);
            &&& r.dependent_slice_segments_enabled_flag == pps.dependent_slice_segments_enabled_flag
            &&& r.output_flag_present_flag == pps.output_flag_present_flag
            &&& r.sign_data_hiding_enabled_flag == pps.sign_data_hiding_enabled_flag
            &&& r.cabac_init_present_flag == pps.cabac_init_present_flag
            &&& r.constrained_intra_pred_flag == pps.constrained_intra_pred_flag
            &&& r.transform_skip_enabled_flag == pps.transform_skip_enabled_flag
            &&& r.cu_qp_delta_enabled_flag == pps.cu_qp_delta_enabled_flag
            &&& r.pps_slice_chroma_qp_offsets_present_flag == pps.pps_slice_chroma_qp_offsets_present_flag
            &&& r.weighted_pred_flag == pps.weighted_pred_flag
            &&& r.weighted_bipred_flag == pps.weighted_bipred_flag
            &&& r.transquant_bypass_enabled_flag == pps.transquant_bypass_enabled_flag
            &&& r.tiles_enabled_flag == pps.tiles_enabled_flag
            &&& r.entropy_coding_sync_enabled_flag == pps.entropy_coding_sync_enabled_flag
            &&& r.uniform_spacing_flag == pps.uniform_spacing_flag
            &&& r.loop_filter_across_tiles_enabled_flag == pps.loop_filter_across_tiles_enabled_flag
            &&& r.pps_loop_filter_across_slices_enabled_flag == pps.pps_loop_filter_across_slices_enabled_flag
            &&& r.deblocking_filter_control_present_flag == pps.deblocking_filter_control_present_flag
            &&& r.deblocking_filter_override_enabled_flag == pps.deblocking_filter_override_enabled_flag
            &&& r.pps_deblocking_filter_disabled_flag == pps.pps_deblocking_filter_disabled_flag
            &&& r.pps_scaling_list_data_present_flag == pps.pps_scaling_list_data_present_flag
            &&& r.lists_modification_present_flag == pps.lists_modification_present_flag
            &&& r.pps_pic_parameter_set_id == pps.pps_pic_parameter_set_id as u8
            &&& r.pps_seq_parameter_set_id == pps.pps_seq_parameter_set_id as u8
            &&& r.sps_video_parameter_set_id == pps.sps_video_parameter_set_id
            &&& r.num_extra_slice_header_bits == pps.num_extra_slice_header_bits
            &&& r.num_ref_idx_l0_default_active_minus1 == pps.num_ref_idx_l0_default_active_minus1
            &&& r.num_ref_idx_l1_default_active_minus1 == pps.num_ref_idx_l1_default_active_minus1
            &&& r.init_qp_minus26 == pps.pps_init_qp_minus26 as i8
            &&& r.diff_cu_qp_delta_depth == pps.diff_cu_qp_delta_depth
            &&& r.pps_cb_qp_offset == pps.pps_cb_qp_offset
            &&& r.pps_cr_qp_offset == pps.pps_cr_qp_offset
            &&& r.pps_beta_offset_div2 == pps.pps_beta_offset_div2
            &&& r.pps_tc_offset_div2 == pps.pps_tc_offset_div2
            &&& r.log2_parallel_merge_level_minus2 == pps.log2_parallel_merge_level_minus2
            &&& r.log2_max_transform_skip_block_size_minus2 == pps.log2_max_transform_skip_block_size_minus2
            &&& r.diff_cu_chroma_qp_offset_depth == pps.diff_cu_chroma_qp_offset_depth
            &&& r.chroma_qp_offset_list_len_minus1 == pps.chroma_qp_offset_list_len_minus1
            &&& r.cb_qp_offset_list == pps.cb_qp_offset_list
            &&& r.cr_qp_offset_list == pps.cr_qp_offset_list
            &&& r.log2_sao_offset_scale_luma == pps.log2_sao_offset_scale_luma
            &&& r.log2_sao_offset_scale_chroma == pps.log2_sao_offset_scale_chroma
            &&& r.pps_act_y_qp_offset_plus5 == pps.pps_act_y_qp_offset_plus5
            &&& r.pps_act_cb_qp_offset_plus5 == pps.pps_act_cb_qp_offset_plus5
            &&& r.pps_act_cr_qp_offset_plus3 == pps.pps_act_cr_qp_offset_plus3
            &&& r.pps_num_palette_predictor_initializers == pps.pps_num_palette_predictor_initializers
            &&& r.luma_bit_depth_entry_minus8 == pps.luma_bit_depth_entry_minus8
            &&& r.chroma_bit_depth_entry_minus8 == pps.chroma_bit_depth_entry_minus8
            &&& r.num_tile_columns_minus1 == pps.num_tile_columns_minus1
            &&& r.num_tile_rows_minus1 == pps.num_tile_rows_minus1
            &&& r.column_width_minus1 == pps.column_width_minus1
            &&& r.row_height_minus1 == pps.row_height_minus1
        }),
{
}


/// A sequence parameter set keeps each of its values under the same name.
pub proof fn law_h265_sequence_parameters_are_kept(r: StdVideoH265SequenceParameterSet, sps: H265Sps)
    requires
        is_h265_sps(r, sps),
    ensures
        r.sps_temporal_id_nesting_flag == sps.sps_temporal_id_nesting_flag,
        r.separate_colour_plane_flag == sps.separate_colour_plane_flag,
        r.conformance_window_flag == sps.conformance_window_flag,
        r.sps_sub_layer_ordering_info_present_flag == sps.sps_sub_layer_ordering_info_present_flag,
        r.scaling_list_enabled_flag == sps.scaling_list_enabled_flag,
        r.sps_scaling_list_data_present_flag == sps.sps_scaling_list_data_present_flag,
        r.amp_enabled_flag == sps.amp_enabled_flag,
        r.sample_adaptive_offset_enabled_flag == sps.sample_adaptive_offset_enabled_flag,
        r.sps_temporal_mvp_enabled_flag == sps.sps_temporal_mvp_enabled_flag,
        r.strong_intra_smoothing_enabled_flag == sps.strong_intra_smoothing_enabled_flag,
        r.long_term_ref_pics_present_flag == sps.long_term_ref_pics_present_flag,
        r.pcm_enabled_flag == sps.pcm_enabled_flag,
        r.pcm_loop_filter_disabled_flag == sps.pcm_loop_filter_disabled_flag,
        r.vui_parameters_present_flag == sps.vui_parameters_present_flag,
        r.sps_extension_present_flag == sps.sps_extension_present_flag,
        r.sps_range_extension_flag == sps.sps_range_extension_flag,
        r.intra_smoothing_disabled_flag == sps.intra_smoothing_disabled_flag,
        r.palette_mode_enabled_flag == sps.palette_mode_enabled_flag,
        r.chroma_format_idc == sps.chroma_format_idc as u32,
        r.pic_width_in_luma_samples == sps.pic_width_in_luma_samples as u32,
        r.pic_height_in_luma_samples == sps.pic_height_in_luma_samples as u32,
        r.sps_video_parameter_set_id == sps.sps_video_parameter_set_id,
        r.sps_max_sub_layers_minus1 == sps.sps_max_sub_layers_minus1,
        r.sps_seq_parameter_set_id == sps.sps_seq_parameter_set_id as u8,
        r.bit_depth_luma_minus8 == sps.bit_depth_luma_minus8,
        r.bit_depth_chroma_minus8 == sps.bit_depth_chroma_minus8,
        r.log2_max_pic_order_cnt_lsb_minus4 == sps.log2_max_pic_order_cnt_lsb_minus4,
        r.log2_min_luma_coding_block_size_minus3 == sps.log2_min_luma_coding_block_size_minus3,
        r.log2_diff_max_min_luma_coding_block_size == sps.log2_diff_max_min_luma_coding_block_size,
        r.log2_min_luma_transform_block_size_minus2 == sps.log2_min_luma_transform_block_size_minus2,
        r.log2_diff_max_min_luma_transform_block_size == sps.log2_diff_max_min_luma_transform_block_size,
        r.max_transform_hierarchy_depth_inter == sps.max_transform_hierarchy_depth_inter,
        r.max_transform_hierarchy_depth_intra == sps.max_transform_hierarchy_depth_intra,
        r.num_short_term_ref_pic_sets == sps.num_short_term_ref_pic_sets,
        r.num_long_term_ref_pics_sps == sps.num_long_term_ref_pics_sps,
        r.pcm_sample_bit_depth_luma_minus1 == sps.pcm_sample_bit_depth_luma_minus1,
        r.pcm_sample_bit_depth_chroma_minus1 == sps.pcm_sample_bit_depth_chroma_minus1,
        r.log2_min_pcm_luma_coding_block_size_minus3 == sps.log2_min_pcm_luma_coding_block_size_minus3,
        r.log2_diff_max_min_pcm_luma_coding_block_size == sps.log2_diff_max_min_pcm_luma_coding_block_size,
        r.palette_max_size == sps.palette_max_size,
        r.delta_palette_max_predictor_size == sps.delta_palette_max_predictor_size,
        r.motion_vector_resolution_control_idc == sps.motion_vector_resolution_control_idc,
        r.sps_num_palette_predictor_initializers_minus1 == sps.sps_num_palette_predictor_initializers_minus1,
        r.conf_win_left_offset == sps.conf_win_left_offset,
        r.conf_win_right_offset == sps.conf_win_right_offset,
        r.conf_win_top_offset == sps.conf_win_top_offset,
        r.conf_win_bottom_offset == sps.conf_win_bottom_offset,
        r.profile_tier_level.general_tier_flag == sps.tier_flag,
        r.profile_tier_level.general_profile_idc == sps.profile_idc,
        r.dec_pic_buf_mgr.max_dec_pic_buffering_minus1@ == sps.max_dec_pic_buffering_minus1@,
        r.dec_pic_buf_mgr.max_num_reorder_pics@ == sps.max_num_reorder_pics@,
        forall|i: int|
            0 <= i < 7 ==> #[trigger] r.dec_pic_buf_mgr.max_latency_increase_plus1@[i]
                == sps.max_latency_increase_plus1@[i],
        r.short_term_ref_pic_sets@.len() == sps.short_term_ref_pic_sets@.len(),
        forall|i: int|
            0 <= i < sps.short_term_ref_pic_sets@.len() ==> #[trigger] r.short_term_ref_pic_sets@[i]
                == h265_set_of(sps.short_term_ref_pic_sets@[i]),
        r.profile_tier_level.general_level_idc == h265_level_code(sps.level_idc),
        r.vui is Some <==> sps.vui_parameters_present_flag,
        r.vui matches Some(v) ==> v == h265_vui_of(sps.vui),
        r.long_term_ref_pics_sps is Some <==> sps.long_term_ref_pics_present_flag
            && sps.num_long_term_ref_pics_sps != 0,
        r.long_term_ref_pics_sps matches Some(l) ==> l.lt_ref_pic_poc_lsb_sps
            == sps.lt_ref_pic_poc_lsb_sps && l.used_by_curr_pic_lt_sps_flag
            == sps.used_by_curr_pic_lt_sps_flag,
{
}


/// A video parameter set keeps each of its values under the same name.
pub proof fn law_h265_video_parameters_are_kept(r: StdVideoH265VideoParameterSet, vps: H265Vps)
    requires
        is_h265_vps(r, vps),
    ensures
        r.vps_temporal_id_nesting_flag == vps.vps_temporal_id_nesting_flag,
        r.vps_sub_layer_ordering_info_present_flag == vps.vps_sub_layer_ordering_info_present_flag,
        r.vps_timing_info_present_flag == vps.vps_timing_info_present_flag,
        r.vps_video_parameter_set_id == vps.vps_video_parameter_set_id,
        r.vps_max_sub_layers_minus1 == vps.vps_max_sub_layers_minus1,
        r.vps_num_units_in_tick == vps.vps_num_units_in_tick,
        r.vps_time_scale == vps.vps_time_scale,
        r.vps_num_ticks_poc_diff_one_minus1 == vps.vps_num_ticks_poc_diff_one_minus1,
        r.profile_tier_level.general_tier_flag == vps.tier_flag,
        r.profile_tier_level.general_profile_idc == vps.profile_idc,
        r.dec_pic_buf_mgr.max_dec_pic_buffering_minus1@ == vps.max_dec_pic_buffering_minus1@,
        r.dec_pic_buf_mgr.max_num_reorder_pics@ == vps.max_num_reorder_pics@,
        forall|i: int|
            0 <= i < 7 ==> #[trigger] r.dec_pic_buf_mgr.max_latency_increase_plus1@[i]
                == vps.max_latency_increase_plus1@[i],
{
}


/// The levels are coded in order: 1, 2, 2.1, 3, 3.1, 4, 4.1, 5, 5.1, 5.2, 6, 6.1, 6.2. A
/// number is thirty times its level, and any other counts as level 5.1.
pub proof fn law_h265_levels_are_coded_in_order(raw_level_idc: u8, k: int)
    ensures
        ({
            let levels = seq![30u8, 60, 63, 90, 93, 120, 123, 150, 153, 156, 180, 183, 186];
            &&& 0 <= k < 13 ==> h265_level_code(levels[k]) == k
            &&& !levels.contains(raw_level_idc) ==> h265_level_code(raw_level_idc)
                == h265_level_code(153)
        }),
{
    let levels = seq![30u8, 60, 63, 90, 93, 120, 123, 150, 153, 156, 180, 183, 186];
    assert(levels[0] == 30 && levels[1] == 60 && levels[2] == 63 && levels[3] == 90 && levels[4]
        == 93 && levels[5] == 120 && levels[6] == 123 && levels[7] == 150 && levels[8] == 153
        && levels[9] == 156 && levels[10] == 180 && levels[11] == 183 && levels[12] == 186);
}

/// A reference belongs to the set that its order count says: of those that are not kept for
/// long, those below the current one precede it, and those above follow it.
pub proof fn law_reference_sets(poc: i32, current: i32, long_term: Seq<i32>)
    ensures
        long_term.contains(poc) <==> set_of(poc, current, long_term) == Some(H265RefSet::LtCurr),
        !long_term.contains(poc) && poc < current <==> set_of(poc, current, long_term) == Some(
            H265RefSet::StCurrBefore,
        ),
        !long_term.contains(poc) && poc > current <==> set_of(poc, current, long_term) == Some(
            H265RefSet::StCurrAfter,
        ),
{
}

/// A picture that the stream names is in its set, as the first reference with its order
/// count.
pub proof fn law_named_references_are_in_their_sets(
    refs: Seq<H265RefPictureInfo>,
    pocs: Seq<i32>,
    long_term: Seq<i32>,
    current: i32,
    which: H265RefSet,
    i: int,
    r: int,
)
    requires
        0 <= i < pocs.len(),
        0 <= r < refs.len(),
        refs[r].pic_order_cnt == pocs[i],
        forall|q: int| 0 <= q < r ==> (#[trigger] refs[q]).pic_order_cnt != pocs[i],
        set_of(pocs[i], current, long_term) == Some(which),
    ensures
        set_slots(refs, pocs, long_term, current, which).contains(refs[r].slot_index as u8),
    decreases pocs.len(),
{
    lemma_first_with_poc(refs, pocs[i], 0, r);
    let before = pocs.drop_last();
    let all = set_slots(refs, pocs, long_term, current, which);
    let rest = set_slots(refs, before, long_term, current, which);
    if i < before.len() {
        law_named_references_are_in_their_sets(refs, before, long_term, current, which, i, r);
        let k = choose|k: int| 0 <= k < rest.len() && rest[k] == refs[r].slot_index as u8;
        assert(all[k] == rest[k]);
    } else {
        assert(all[all.len() - 1] == refs[r].slot_index as u8);
    }
}

proof fn lemma_first_with_poc(refs: Seq<H265RefPictureInfo>, poc: i32, from: int, r: int)
    requires
        0 <= from <= r < refs.len(),
        refs[r].pic_order_cnt == poc,
        forall|q: int| from <= q < r ==> (#[trigger] refs[q]).pic_order_cnt != poc,
    ensures
        slot_with_poc(refs, poc, from) == Some(refs[r].slot_index as u8),
    decreases r - from,
{
    if from < r {
        assert(refs[from].pic_order_cnt != poc);
        lemma_first_with_poc(refs, poc, from + 1, r);
    }
}

/// A set is recorded by its first eight slots, and marked as at its end behind them.
pub proof fn law_recorded_sets(slots: Seq<u8>, i: int)
    requires
        0 <= i < 8,
    ensures
        recorded_set(slots).len() == 8,
        i < slots.len() ==> recorded_set(slots)[i] == slots[i],
        i >= slots.len() ==> recorded_set(slots)[i] == 255,
{
}

/// What is recorded of a picture is what the stream says of it, and otherwise a reference
/// picture that is counted.
pub proof fn law_h265_pictures(
    p: H265PictureInfo,
    known: H265Known,
    frame_count: u32,
    sps: H265Sps,
    pps: H265Pps,
    refs: Seq<H265RefPictureInfo>,
    pocs: Seq<i32>,
    long_term: Seq<i32>,
)
    requires
        is_h265_picture(p, known, frame_count, sps, pps, refs, pocs, long_term),
    ensures
        known.is_complete() ==> p.pic_order_cnt_val == known.pic_order_cnt->0 && p.is_irap
            == known.is_intra->0 && p.is_idr == known.is_idr->0 && p.is_reference
            == known.is_reference->0,
        !known.is_complete() ==> !p.is_irap && !p.is_idr && p.is_reference,
        known.is_complete() <==> known.pic_order_cnt is Some && known.is_intra is Some
            && known.is_reference is Some && known.is_idr is Some,
        p.sps_video_parameter_set_id == sps.sps_video_parameter_set_id,
        p.pps_seq_parameter_set_id == pps.pps_seq_parameter_set_id as u8,
        p.pps_pic_parameter_set_id == pps.pps_pic_parameter_set_id as u8,
        known.num_bits_for_st_ref_pic_set_in_slice is Some && 0 <= known.num_bits_for_st_ref_pic_set_in_slice->0 <= 0xFFFF
            ==> p.num_bits_for_st_ref_pic_set_in_slice == known.num_bits_for_st_ref_pic_set_in_slice->0,
        known.num_bits_for_st_ref_pic_set_in_slice is None
            ==> p.num_bits_for_st_ref_pic_set_in_slice == 0,
        known.num_delta_pocs_of_ref_rps_idx is Some && 0 <= known.num_delta_pocs_of_ref_rps_idx->0 <= 255
            ==> p.num_delta_pocs_of_ref_rps_idx == known.num_delta_pocs_of_ref_rps_idx->0,
        known.num_delta_pocs_of_ref_rps_idx is None ==> p.num_delta_pocs_of_ref_rps_idx == 0,
        p.ref_pic_set_st_curr_before@ == recorded_set(
            set_slots(refs, pocs, long_term, p.pic_order_cnt_val, H265RefSet::StCurrBefore),
        ),
        p.ref_pic_set_st_curr_after@ == recorded_set(
            set_slots(refs, pocs, long_term, p.pic_order_cnt_val, H265RefSet::StCurrAfter),
        ),
        p.ref_pic_set_lt_curr@ == recorded_set(
            set_slots(refs, pocs, long_term, p.pic_order_cnt_val, H265RefSet::LtCurr),
        ),
{
}

/// A slot is told by its number, its view and its order count. Coding begins with those of
/// the references, in order, and with that of the picture itself where there are none.
pub proof fn law_h265_slots(
    setup: H265RefPictureInfo,
    refs: Seq<H265RefPictureInfo>,
    i: int,
)
    requires
        0 <= i < refs.len(),
    ensures
        h265_slots_of(refs).len() == refs.len(),
        h265_slots_of(refs)[i].image_view == refs[i].image_view,
        h265_slots_of(refs)[i].pic_order_cnt_val == refs[i].pic_order_cnt,
        refs[i].slot_index < 0x8000_0000 ==> h265_slots_of(refs)[i].slot_index
            == refs[i].slot_index,
        h265_begin_slots(Some(setup), refs) == h265_slots_of(refs),
        h265_begin_slots(Some(setup), Seq::empty()).len() == 1,
        h265_begin_slots(Some(setup), Seq::empty())[0].image_view == setup.image_view,
        h265_begin_slots(Some(setup), Seq::empty())[0].pic_order_cnt_val == setup.pic_order_cnt,
        h265_begin_slots(Some(setup), Seq::empty())[0].slot_index == setup.slot_index as i32,
        h265_begin_slots(None, Seq::empty()).len() == 0,
        h265_ref_images(refs).len() == refs.len(),
        h265_ref_images(refs)[i].image == refs[i].image,
        h265_ref_images(refs)[i].layout == refs[i].current_layout,
        h265_ref_images(refs)[i].layer == 0,
{
}

/// What is recorded for a decode command besides the picture: a slot for each reference, in
/// order, and that of the picture itself where it becomes one; the output image comes out of
/// no layout.
pub proof fn law_h265_plans(
    plan: H265DecodePlan,
    sps: H265Sps,
    pps: H265Pps,
    frame_count: u32,
    output_image: u64,
    setup: Option<H265RefPictureInfo>,
    refs: Seq<H265RefPictureInfo>,
    known: H265Known,
    pocs: Seq<i32>,
    long_term: Seq<i32>,
    i: int,
)
    requires
        is_h265_plan(
            plan,
            sps,
            pps,
            frame_count,
            output_image,
            setup,
            refs,
            known,
            pocs,
            long_term,
        ),
    ensures
        plan.ref_slots@.len() == refs.len(),
        0 <= i < refs.len() ==> plan.ref_slots@[i].slot_index == refs[i].slot_index as i32
            && plan.ref_slots@[i].image_view == refs[i].image_view
            && plan.ref_slots@[i].pic_order_cnt_val == refs[i].pic_order_cnt,
        plan.setup_slot is Some <==> setup is Some,
        setup is Some ==> {
            &&& plan.setup_slot->0.slot_index == setup->0.slot_index as i32
            &&& plan.setup_slot->0.image_view == setup->0.image_view
            &&& plan.setup_slot->0.pic_order_cnt_val == setup->0.pic_order_cnt
        },
        plan.barriers@.len() >= 1,
        plan.barriers@[0].image == output_image,
        plan.barriers@[0].base_array_layer == 0,
        plan.barriers@[0].old_layout == ImageLayout::Undefined,
        setup is Some ==> plan.barriers@[0].new_layout == ImageLayout::VideoDecodeDpb,
        setup is None ==> plan.barriers@[0].new_layout == ImageLayout::VideoDecodeDst,
{
}

/// A picture of which the stream says nothing is counted in the cycle of order counts.
pub proof fn law_h265_pictures_are_counted(
    p: H265PictureInfo,
    known: H265Known,
    frame_count: u32,
    sps: H265Sps,
    pps: H265Pps,
    refs: Seq<H265RefPictureInfo>,
    pocs: Seq<i32>,
    long_term: Seq<i32>,
)
    requires
        is_h265_picture(p, known, frame_count, sps, pps, refs, pocs, long_term),
        sps.log2_max_pic_order_cnt_lsb_minus4 <= 26,
        known.pic_order_cnt is None || known.is_intra is None || known.is_reference is None
            || known.is_idr is None,
    ensures
        p.pic_order_cnt_val == frame_count as int % (pow2(
            (sps.log2_max_pic_order_cnt_lsb_minus4 + 4) as nat,
        ) as int),
{
    let a = (sps.log2_max_pic_order_cnt_lsb_minus4 + 4) as nat;
    vstd::arithmetic::power2::lemma2_to64();
    vstd::arithmetic::power2::lemma_pow2_pos(a);
    if a < 30 {
        vstd::arithmetic::power2::lemma_pow2_strictly_increases(a, 30);
    }
    vstd::arithmetic::div_mod::lemma_mod_bound(frame_count as int, pow2(a) as int);
}

} // verus!
