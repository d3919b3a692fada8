//! AV1 decoder state: what each frame buffer holds, and the Vulkan flags and
//! structures of a picture.

use crate::codes::{ash_av1_profiles, ImageLayout};
use crate::commands::{command_barriers, plan_barriers, ImageBarrier, RefImage};
use vstd::arithmetic::power2::{lemma2_to64, lemma_pow2_adds, lemma_pow2_strictly_increases, pow2};
use vstd::prelude::*;

verus! {

/// AV1 frame type.
#[derive(Debug, Clone, Copy, PartialEq, Eq, Default, Structural)]
pub enum StdVideoAV1FrameType {
    #[default]
    Key,
    Inter,
    IntraOnly,
    Switch,
}

/// AV1 interpolation filter.
#[derive(Debug, Clone, Copy, PartialEq, Eq, Default, Structural)]
pub enum StdVideoAV1InterpolationFilter {
    #[default]
    Eighttap,
    Switchable,
    Proximity,
    Bilinear,
    EighttapSmooth,
    EighttapSharp,
}

/// AV1 transform mode.
#[derive(Debug, Clone, Copy, PartialEq, Eq, Default, Structural)]
pub enum StdVideoAV1TxMode {
    #[default]
    Only4x4,
    Only8x8,
    Only16x16,
    Only32x32,
    Selected,
}

/// AV1 reference frame names.
#[derive(Debug, Clone, Copy, PartialEq, Eq, Structural)]
pub enum StdVideoAV1RefFrame {
    IntraFrame,
    LastFrame,
    Last2Frame,
    Last3Frame,
    GbilearnFrame,
    GoldenFrame,
    BwdrefFrame,
    Altref2Frame,
    AltrefFrame,
}

/// AV1 tile info.
#[derive(Debug, Clone, Copy, Default)]
pub struct StdVideoAV1TileInfo {
    pub tile_rows_log2_minus1: u8,
    pub tile_cols_log2_minus1: u8,
    pub context_update_tile_id: u8,
}

/// AV1 quantization.
#[derive(Debug, Clone, Copy, Default)]
pub struct StdVideoAV1Quantization {
    pub delta_q_y_ac: i8,
    pub delta_q_uv_ac: i8,
    pub delta_q_uv_dc: i8,
    pub base_q_idx: u8,
    pub using_qmatrix: u8,
    pub qm_y: u8,
    pub qm_uv: u8,
}

/// AV1 segmentation flags.
#[derive(Debug, Clone, Copy, Default)]
pub struct StdVideoAV1SegmentationFlags {
    pub segmentation_update_map: u32,
    pub segmentation_temporal_update: u32,
    pub segmentation_update_data: u32,
    pub segmentation_abs_or_delta_update: u32,
}

/// AV1 segmentation.
#[derive(Debug, Clone, Copy, Default)]
pub struct StdVideoAV1Segmentation {
    pub flags: StdVideoAV1SegmentationFlags,
    pub tree_probs: [u16; 7],
    pub pred_probs: [u16; 3],
    pub feature_enabled: [u8; 8],
    pub feature_data: [[i16; 4]; 8],
}

/// AV1 loop filter flags.
#[derive(Debug, Clone, Copy, Default)]
pub struct StdVideoAV1LoopFilterFlags {
    pub mode_ref_delta_enabled: u32,
    pub mode_ref_delta_update: u32,
}

/// AV1 loop filter.
#[derive(Debug, Clone, Copy, Default)]
pub struct StdVideoAV1LoopFilter {
    pub flags: StdVideoAV1LoopFilterFlags,
    pub loop_filter_level: [u8; 2],
    pub loop_filter_sharpness: u8,
    pub log2_tile_size: u8,
    pub delta_lf_from_base: [i8; 4],
    pub delta_lf_ref_deltas: [i8; 8],
    pub delta_lf_mode_deltas: [i8; 2],
}

/// AV1 constrained directional enhancement filter.
#[derive(Debug, Clone, Copy, Default)]
pub struct StdVideoAV1CDEF {
    pub cdef_damping: u8,
    pub cdef_bits: u8,
    pub y_pri_strength: [u8; 8],
    pub y_sec_strength: [u8; 8],
    pub uv_pri_strength: [u8; 8],
    pub uv_sec_strength: [u8; 8],
}

/// AV1 loop restoration flags.
#[derive(Debug, Clone, Copy, Default)]
pub struct StdVideoAV1LoopRestorationFlags {
    pub y_frame_restoration_type: u32,
    pub uv_frame_restoration_type: u32,
}

/// AV1 loop restoration unit info.
#[derive(Debug, Clone, Copy, Default)]
pub struct StdVideoAV1LoopRestorationUnitInfo {
    pub restoration_left_edge: i16,
    pub restoration_right_edge: i16,
    pub y_ac_fn_type: u8,
    pub uv_ac_fn_type: u8,
    pub y_ac_level: u8,
    pub uv_ac_level: u8,
}

/// AV1 loop restoration.
#[derive(Debug, Clone, Copy, Default)]
pub struct StdVideoAV1LoopRestoration {
    pub flags: StdVideoAV1LoopRestorationFlags,
    pub loop_restoration_unit_info: [StdVideoAV1LoopRestorationUnitInfo; 1],
}

/// AV1 global motion.
#[derive(Debug, Clone, Copy, Default)]
pub struct StdVideoAV1GlobalMotion {
    pub gmodel_type: u8,
}

/// AV1 global motion parameters.
#[derive(Debug, Clone, Copy, Default)]
pub struct StdVideoAV1GlobalMotionParams {
    pub global_motion_param: [i32; 6],
}

/// AV1 film grain.
#[derive(Debug, Clone, Copy, Default)]
pub struct StdVideoAV1FilmGrain {
    pub key_frame_film_grain: u8,
    pub apply_grain: u8,
    pub chroma_scaling_from_luma: u8,
    pub ar_coeff_lag: u8,
    pub ar_coeff_shift_minus8: u8,
    pub grain_scale_shift: u8,
    pub clip_to_restricted_range: u8,
    pub overlap_flag: u8,
    pub grain_scaling_minus8: u8,
    pub ar_coeff_shift: u8,
    pub grain_scale: u16,
    pub random_seed_value: u16,
    pub num_y_points: u8,
    pub num_cb_points: u8,
    pub num_cr_points: u8,
    pub scaling_shift_minus8: u8,
}

// ---------------------------------------------------------------------------
// Picture flags
// ---------------------------------------------------------------------------

/// AV1 decode picture info flags, packed into a single word.
#[derive(Debug, Clone, Copy, PartialEq, Eq, Structural)]
pub struct StdVideoDecodeAV1PictureInfoFlags {
    pub bits: u32,
}

/// The word with bit `k` set to the lowest bit of `val`.
#[verifier::opaque]
pub open spec fn with_bit(bits: u32, k: u32, val: u32) -> u32 {
    (bits & !(1u32 << k)) | ((val & 1) << k)
}

/// Bit `k` of a word.
pub open spec fn word_bit(bits: u32, k: u32) -> u32 {
    (bits >> k) & 1
}

/// Setting a flag sets its bit to the lowest bit of the value and leaves every
/// other bit as it was.
pub proof fn law_setting_a_flag_sets_one_bit(bits: u32, k: u32, val: u32, j: u32)
    requires
        k < 32,
        j < 32,
    ensures
        word_bit(with_bit(bits, k, val), j) == if j == k {
            val & 1
        } else {
            word_bit(bits, j)
        },
{
    reveal(with_bit);
    assert(((((bits & !(1u32 << k)) | ((val & 1) << k)) >> j) & 1) == if j == k {
        val & 1
    } else {
        (bits >> j) & 1
    }) by (bit_vector)
        requires
            k < 32,
            j < 32,
    ;
}

/// Two different flags can be set in either order, and a flag set twice keeps
/// the later value.
pub proof fn law_flags_are_independent(bits: u32, k: u32, a: u32, j: u32, b: u32)
    requires
        k < 32,
        j < 32,
    ensures
        k != j ==> with_bit(with_bit(bits, k, a), j, b) == with_bit(with_bit(bits, j, b), k, a),
        with_bit(with_bit(bits, k, a), k, b) == with_bit(bits, k, b),
{
    reveal(with_bit);
    if k != j {
        assert((((bits & !(1u32 << k)) | ((a & 1) << k)) & !(1u32 << j)) | ((b & 1) << j) == (((bits
            & !(1u32 << j)) | ((b & 1) << j)) & !(1u32 << k)) | ((a & 1) << k)) by (bit_vector)
            requires
                k < 32,
                j < 32,
                k != j,
        ;
    }
    assert((((bits & !(1u32 << k)) | ((a & 1) << k)) & !(1u32 << k)) | ((b & 1) << k) == (bits & !(
    1u32 << k)) | ((b & 1) << k)) by (bit_vector)
        requires
            k < 32,
    ;
}

impl StdVideoDecodeAV1PictureInfoFlags {
    /// No flag is set.
    pub fn new() -> (f: StdVideoDecodeAV1PictureInfoFlags)
        ensures
            f.bits == 0,
    {
        StdVideoDecodeAV1PictureInfoFlags { bits: 0 }
    }

    fn put(&mut self, k: u32, val: u32)
        requires
            k < 32,
        ensures
            final(self).bits == with_bit(old(self).bits, k, val),
    {
        reveal(with_bit);
        self.bits = (self.bits & !(1u32 << k)) | ((val & 1) << k);
    }

    /// Sets the flag `error_resilient_mode`.
    pub fn set_error_resilient_mode(&mut self, val: u32)
        ensures
            final(self).bits == with_bit(old(self).bits, 0, val),
    {
        self.put(0, val);
    }

    /// Sets the flag `disable_cdf_update`.
    pub fn set_disable_cdf_update(&mut self, val: u32)
        ensures
            final(self).bits == with_bit(old(self).bits, 1, val),
    {
        self.put(1, val);
    }

    /// Sets the flag `use_superres`.
    pub fn set_use_superres(&mut self, val: u32)
        ensures
            final(self).bits == with_bit(old(self).bits, 2, val),
    {
        self.put(2, val);
    }

    /// Sets the flag `render_and_frame_size_different`.
    pub fn set_render_and_frame_size_different(&mut self, val: u32)
        ensures
            final(self).bits == with_bit(old(self).bits, 3, val),
    {
        self.put(3, val);
    }

    /// Sets the flag `allow_screen_content_tools`.
    pub fn set_allow_screen_content_tools(&mut self, val: u32)
        ensures
            final(self).bits == with_bit(old(self).bits, 4, val),
    {
        self.put(4, val);
    }

    /// Sets the flag `is_filter_switchable`.
    pub fn set_is_filter_switchable(&mut self, val: u32)
        ensures
            final(self).bits == with_bit(old(self).bits, 5, val),
    {
        self.put(5, val);
    }

    /// Sets the flag `force_integer_mv`.
    pub fn set_force_integer_mv(&mut self, val: u32)
        ensures
            final(self).bits == with_bit(old(self).bits, 6, val),
    {
        self.put(6, val);
    }

    /// Sets the flag `frame_size_override_flag`.
    pub fn set_frame_size_override_flag(&mut self, val: u32)
        ensures
            final(self).bits == with_bit(old(self).bits, 7, val),
    {
        self.put(7, val);
    }

    /// Sets the flag `buffer_removal_time_present_flag`.
    pub fn set_buffer_removal_time_present_flag(&mut self, val: u32)
        ensures
            final(self).bits == with_bit(old(self).bits, 8, val),
    {
        self.put(8, val);
    }

    /// Sets the flag `allow_intrabc`.
    pub fn set_allow_intrabc(&mut self, val: u32)
        ensures
            final(self).bits == with_bit(old(self).bits, 9, val),
    {
        self.put(9, val);
    }

    /// Sets the flag `frame_refs_short_signaling`.
    pub fn set_frame_refs_short_signaling(&mut self, val: u32)
        ensures
            final(self).bits == with_bit(old(self).bits, 10, val),
    {
        self.put(10, val);
    }

    /// Sets the flag `allow_high_precision_mv`.
    pub fn set_allow_high_precision_mv(&mut self, val: u32)
        ensures
            final(self).bits == with_bit(old(self).bits, 11, val),
    {
        self.put(11, val);
    }

    /// Sets the flag `is_motion_mode_switchable`.
    pub fn set_is_motion_mode_switchable(&mut self, val: u32)
        ensures
            final(self).bits == with_bit(old(self).bits, 12, val),
    {
        self.put(12, val);
    }

    /// Sets the flag `use_ref_frame_mvs`.
    pub fn set_use_ref_frame_mvs(&mut self, val: u32)
        ensures
            final(self).bits == with_bit(old(self).bits, 13, val),
    {
        self.put(13, val);
    }

    /// Sets the flag `disable_frame_end_update_cdf`.
    pub fn set_disable_frame_end_update_cdf(&mut self, val: u32)
        ensures
            final(self).bits == with_bit(old(self).bits, 14, val),
    {
        self.put(14, val);
    }

    /// Sets the flag `allow_warped_motion`.
    pub fn set_allow_warped_motion(&mut self, val: u32)
        ensures
            final(self).bits == with_bit(old(self).bits, 15, val),
    {
        self.put(15, val);
    }

    /// Sets the flag `reduced_tx_set`.
    pub fn set_reduced_tx_set(&mut self, val: u32)
        ensures
            final(self).bits == with_bit(old(self).bits, 16, val),
    {
        self.put(16, val);
    }

    /// Sets the flag `reference_select`.
    pub fn set_reference_select(&mut self, val: u32)
        ensures
            final(self).bits == with_bit(old(self).bits, 17, val),
    {
        self.put(17, val);
    }

    /// Sets the flag `skip_mode_present`.
    pub fn set_skip_mode_present(&mut self, val: u32)
        ensures
            final(self).bits == with_bit(old(self).bits, 18, val),
    {
        self.put(18, val);
    }

    /// Sets the flag `delta_q_present`.
    pub fn set_delta_q_present(&mut self, val: u32)
        ensures
            final(self).bits == with_bit(old(self).bits, 19, val),
    {
        self.put(19, val);
    }

    /// Sets the flag `delta_lf_present`.
    pub fn set_delta_lf_present(&mut self, val: u32)
        ensures
            final(self).bits == with_bit(old(self).bits, 20, val),
    {
        self.put(20, val);
    }

    /// Sets the flag `delta_lf_multi`.
    pub fn set_delta_lf_multi(&mut self, val: u32)
        ensures
            final(self).bits == with_bit(old(self).bits, 21, val),
    {
        self.put(21, val);
    }

    /// Sets the flag `segmentation_enabled`.
    pub fn set_segmentation_enabled(&mut self, val: u32)
        ensures
            final(self).bits == with_bit(old(self).bits, 22, val),
    {
        self.put(22, val);
    }

    /// Sets the flag `segmentation_update_map`.
    pub fn set_segmentation_update_map(&mut self, val: u32)
        ensures
            final(self).bits == with_bit(old(self).bits, 23, val),
    {
        self.put(23, val);
    }

    /// Sets the flag `segmentation_temporal_update`.
    pub fn set_segmentation_temporal_update(&mut self, val: u32)
        ensures
            final(self).bits == with_bit(old(self).bits, 24, val),
    {
        self.put(24, val);
    }

    /// Sets the flag `segmentation_update_data`.
    pub fn set_segmentation_update_data(&mut self, val: u32)
        ensures
            final(self).bits == with_bit(old(self).bits, 25, val),
    {
        self.put(25, val);
    }

    /// Sets the flag `uses_lr`.
    pub fn set_uses_lr(&mut self, val: u32)
        ensures
            final(self).bits == with_bit(old(self).bits, 26, val),
    {
        self.put(26, val);
    }

    /// Sets the flag `uses_chroma_lr`.
    pub fn set_uses_chroma_lr(&mut self, val: u32)
        ensures
            final(self).bits == with_bit(old(self).bits, 27, val),
    {
        self.put(27, val);
    }

    /// Sets the flag `apply_grain`.
    pub fn set_apply_grain(&mut self, val: u32)
        ensures
            final(self).bits == with_bit(old(self).bits, 28, val),
    {
        self.put(28, val);
    }
}

impl Default for StdVideoDecodeAV1PictureInfoFlags {
    fn default() -> (f: StdVideoDecodeAV1PictureInfoFlags)
        ensures
            f.bits == 0,
    {
        StdVideoDecodeAV1PictureInfoFlags::new()
    }
}

// ---------------------------------------------------------------------------
// The sequence header
// ---------------------------------------------------------------------------

/// AV1 sequence parameters.
#[derive(Debug, Clone, Copy, Default)]
pub struct Av1Sps {
    pub profile: u8,
    pub level: u8,
    pub still_picture: bool,
    pub reduced_still_picture_header: bool,
    pub use_128x128_superblock: bool,
    pub enable_filter_intra: bool,
    pub enable_intra_edge_filter: bool,
    pub enable_interintra_compound: bool,
    pub enable_masked_compound: bool,
    pub enable_warped_motion: bool,
    pub enable_dual_filter: bool,
    pub enable_order_hint: bool,
    pub enable_jnt_motion: bool,
    pub enable_ref_frame_mvs: bool,
    pub frame_id_numbers_present_flag: bool,
    pub enable_superres: bool,
    pub enable_cdef: bool,
    pub enable_restoration: bool,
    pub film_grain_params_present: bool,
    pub timing_info_present_flag: bool,
    pub initial_display_delay_present_flag: bool,
    pub seq_force_screen_content_tools: u8,
    pub seq_force_integer_mv: u8,
    pub separate_uv_delta_q: bool,
    pub frame_width_bits: u8,
    pub frame_height_bits: u8,
    pub max_frame_width_minus_1: u16,
    pub max_frame_height_minus_1: u16,
    pub delta_frame_id_length_minus2: u8,
    pub additional_frame_id_length_minus1: u8,
    pub order_hint_bits_minus1: u8,
    pub high_bitdepth: bool,
    pub twelve_bit: bool,
    pub mono_chrome: bool,
    pub color_description_present: bool,
    pub color_primaries: u8,
    pub transfer_characteristics: u8,
    pub matrix_coefficients: u8,
    pub color_range: bool,
    pub subsampling_x: u8,
    pub subsampling_y: u8,
    pub chroma_sample_position: u8,
    pub num_units_in_display_tick: u32,
    pub time_scale: u32,
    pub equal_picture_interval: bool,
}

/// AV1 color configuration.
#[derive(Debug, Clone, Copy, PartialEq, Eq, Structural)]
pub struct StdVideoAV1ColorConfig {
    pub mono_chrome: bool,
    pub color_range: bool,
    pub separate_uv_delta_q: bool,
    pub color_description_present_flag: bool,
    pub bit_depth: u8,
    pub subsampling_x: u8,
    pub subsampling_y: u8,
    pub color_primaries: u32,
    pub transfer_characteristics: u32,
    pub matrix_coefficients: u32,
    pub chroma_sample_position: u32,
}

/// AV1 timing information.
#[derive(Debug, Clone, Copy, PartialEq, Eq, Structural)]
pub struct StdVideoAV1TimingInfo {
    pub equal_picture_interval: bool,
    pub num_units_in_display_tick: u32,
    pub time_scale: u32,
    pub num_ticks_per_picture_minus_1: u32,
}

/// AV1 sequence header.
#[derive(Debug, Clone, Copy, PartialEq, Eq, Structural)]
pub struct StdVideoAV1SequenceHeader {
    pub still_picture: bool,
    pub reduced_still_picture_header: bool,
    pub use_128x128_superblock: bool,
    pub enable_filter_intra: bool,
    pub enable_intra_edge_filter: bool,
    pub enable_interintra_compound: bool,
    pub enable_masked_compound: bool,
    pub enable_warped_motion: bool,
    pub enable_dual_filter: bool,
    pub enable_order_hint: bool,
    pub enable_jnt_comp: bool,
    pub enable_ref_frame_mvs: bool,
    pub frame_id_numbers_present_flag: bool,
    pub enable_superres: bool,
    pub enable_cdef: bool,
    pub enable_restoration: bool,
    pub film_grain_params_present: bool,
    pub timing_info_present_flag: bool,
    pub initial_display_delay_present_flag: bool,
    pub seq_profile: u32,
    pub frame_width_bits_minus_1: u8,
    pub frame_height_bits_minus_1: u8,
    pub max_frame_width_minus_1: u16,
    pub max_frame_height_minus_1: u16,
    pub delta_frame_id_length_minus_2: u8,
    pub additional_frame_id_length_minus_1: u8,
    pub order_hint_bits_minus_1: u8,
    pub seq_force_integer_mv: u8,
    pub seq_force_screen_content_tools: u8,
}

/// The number of bits per sample of a sequence.
pub open spec fn av1_bit_depth(sps: Av1Sps) -> u8 {
    if !sps.high_bitdepth {
        8
    } else if sps.twelve_bit {
        12
    } else {
        10
    }
}

/// The number of bits per sample of a sequence.
pub fn bit_depth_of(sps: &Av1Sps) -> (r: u8)
    ensures
        r == av1_bit_depth(*sps),
{
    if sps.high_bitdepth {
        if sps.twelve_bit {
            12
        } else {
            10
        }
    } else {
        8
    }
}

/// The color configuration of a sequence header.
pub open spec fn av1_color_config_of(sps: Av1Sps) -> StdVideoAV1ColorConfig {
    StdVideoAV1ColorConfig {
        mono_chrome: sps.mono_chrome,
        color_range: sps.color_range,
        separate_uv_delta_q: sps.separate_uv_delta_q,
        color_description_present_flag: sps.color_description_present,
        bit_depth: av1_bit_depth(sps),
        subsampling_x: sps.subsampling_x,
        subsampling_y: sps.subsampling_y,
        color_primaries: sps.color_primaries as u32,
        transfer_characteristics: sps.transfer_characteristics as u32,
        matrix_coefficients: sps.matrix_coefficients as u32,
        chroma_sample_position: sps.chroma_sample_position as u32,
    }
}

/// The color configuration of a sequence.
pub fn convert_av1_color_config(sps: &Av1Sps) -> (r: StdVideoAV1ColorConfig)
    ensures
        r == av1_color_config_of(*sps),
{
    StdVideoAV1ColorConfig {
        mono_chrome: sps.mono_chrome,
        color_range: sps.color_range,
        separate_uv_delta_q: sps.separate_uv_delta_q,
        color_description_present_flag: sps.color_description_present,
        bit_depth: bit_depth_of(sps),
        subsampling_x: sps.subsampling_x,
        subsampling_y: sps.subsampling_y,
        color_primaries: sps.color_primaries as u32,
        transfer_characteristics: sps.transfer_characteristics as u32,
        matrix_coefficients: sps.matrix_coefficients as u32,
        chroma_sample_position: sps.chroma_sample_position as u32,
    }
}

/// The timing information of a sequence header.
pub open spec fn av1_timing_info_of(sps: Av1Sps) -> StdVideoAV1TimingInfo {
    StdVideoAV1TimingInfo {
        equal_picture_interval: sps.equal_picture_interval,
        num_units_in_display_tick: sps.num_units_in_display_tick,
        time_scale: sps.time_scale,
        num_ticks_per_picture_minus_1: 0,
    }
}

/// The timing information of a sequence.
pub fn convert_av1_timing_info(sps: &Av1Sps) -> (r: StdVideoAV1TimingInfo)
    ensures
        r == av1_timing_info_of(*sps),
{
    StdVideoAV1TimingInfo {
        equal_picture_interval: sps.equal_picture_interval,
        num_units_in_display_tick: sps.num_units_in_display_tick,
        time_scale: sps.time_scale,
        num_ticks_per_picture_minus_1: 0,
    }
}

/// The code of a profile; an unknown one counts as the main profile.
pub open spec fn av1_profile_code(profile: u8) -> u32 {
    if profile <= 2 {
        profile as u32
    } else {
        0
    }
}

/// A number less one, and zero for zero.
pub open spec fn less_one(n: u8) -> u8 {
    if n == 0 {
        0
    } else {
        (n - 1) as u8
    }
}

/// The standard form of a sequence header.
pub open spec fn av1_sequence_header_of(sps: Av1Sps) -> StdVideoAV1SequenceHeader {
    StdVideoAV1SequenceHeader {
        still_picture: sps.still_picture,
        reduced_still_picture_header: sps.reduced_still_picture_header,
        use_128x128_superblock: sps.use_128x128_superblock,
        enable_filter_intra: sps.enable_filter_intra,
        enable_intra_edge_filter: sps.enable_intra_edge_filter,
        enable_interintra_compound: sps.enable_interintra_compound,
        enable_masked_compound: sps.enable_masked_compound,
        enable_warped_motion: sps.enable_warped_motion,
        enable_dual_filter: sps.enable_dual_filter,
        enable_order_hint: sps.enable_order_hint,
        enable_jnt_comp: sps.enable_jnt_motion,
        enable_ref_frame_mvs: sps.enable_ref_frame_mvs,
        frame_id_numbers_present_flag: sps.frame_id_numbers_present_flag,
        enable_superres: sps.enable_superres,
        enable_cdef: sps.enable_cdef,
        enable_restoration: sps.enable_restoration,
        film_grain_params_present: sps.film_grain_params_present,
        timing_info_present_flag: sps.timing_info_present_flag,
        initial_display_delay_present_flag: sps.initial_display_delay_present_flag,
        seq_profile: av1_profile_code(sps.profile),
        frame_width_bits_minus_1: less_one(sps.frame_width_bits),
        frame_height_bits_minus_1: less_one(sps.frame_height_bits),
        max_frame_width_minus_1: sps.max_frame_width_minus_1,
        max_frame_height_minus_1: sps.max_frame_height_minus_1,
        delta_frame_id_length_minus_2: sps.delta_frame_id_length_minus2,
        additional_frame_id_length_minus_1: sps.additional_frame_id_length_minus1,
        order_hint_bits_minus_1: sps.order_hint_bits_minus1,
        seq_force_integer_mv: sps.seq_force_integer_mv,
        seq_force_screen_content_tools: sps.seq_force_screen_content_tools,
    }
}

/// The sequence header of a sequence. `frame_width_bits` and
/// `frame_height_bits` count bits; the header holds one less.
pub fn convert_av1_sps(sps: &Av1Sps) -> (r: StdVideoAV1SequenceHeader)
    ensures
        r == av1_sequence_header_of(*sps),
{
    let profiles: [u32; 3] = ash_av1_profiles();
    let seq_profile: u32 = match sps.profile {
        0 => profiles[0],
        1 => profiles[1],
        2 => profiles[2],
        _ => profiles[0],
    };
    StdVideoAV1SequenceHeader {
        still_picture: sps.still_picture,
        reduced_still_picture_header: sps.reduced_still_picture_header,
        use_128x128_superblock: sps.use_128x128_superblock,
        enable_filter_intra: sps.enable_filter_intra,
        enable_intra_edge_filter: sps.enable_intra_edge_filter,
        enable_interintra_compound: sps.enable_interintra_compound,
        enable_masked_compound: sps.enable_masked_compound,
        enable_warped_motion: sps.enable_warped_motion,
        enable_dual_filter: sps.enable_dual_filter,
        enable_order_hint: sps.enable_order_hint,
        enable_jnt_comp: sps.enable_jnt_motion,
        enable_ref_frame_mvs: sps.enable_ref_frame_mvs,
        frame_id_numbers_present_flag: sps.frame_id_numbers_present_flag,
        enable_superres: sps.enable_superres,
        enable_cdef: sps.enable_cdef,
        enable_restoration: sps.enable_restoration,
        film_grain_params_present: sps.film_grain_params_present,
        timing_info_present_flag: sps.timing_info_present_flag,
        initial_display_delay_present_flag: sps.initial_display_delay_present_flag,
        seq_profile,
        frame_width_bits_minus_1: sps.frame_width_bits.saturating_sub(1),
        frame_height_bits_minus_1: sps.frame_height_bits.saturating_sub(1),
        max_frame_width_minus_1: sps.max_frame_width_minus_1,
        max_frame_height_minus_1: sps.max_frame_height_minus_1,
        delta_frame_id_length_minus_2: sps.delta_frame_id_length_minus2,
        additional_frame_id_length_minus_1: sps.additional_frame_id_length_minus1,
        order_hint_bits_minus_1: sps.order_hint_bits_minus1,
        seq_force_integer_mv: sps.seq_force_integer_mv,
        seq_force_screen_content_tools: sps.seq_force_screen_content_tools,
    }
}

// ---------------------------------------------------------------------------
// Order hints
// ---------------------------------------------------------------------------

/// The signed distance from `b` to `a` in order-hint space: congruent to their
/// difference, and at least minus and less than two to the power of `ohb`.
pub open spec fn relative_dist(a: int, b: int, ohb: nat) -> int {
    let m = pow2(ohb) as int;
    (a - b + m) % (2 * m) - m
}

/// The relative distance lies in half a cycle either way and differs from the
/// plain difference by whole cycles.
pub proof fn law_relative_dist_is_in_range(a: int, b: int, ohb: nat)
    ensures
        -pow2(ohb) <= relative_dist(a, b, ohb) < pow2(ohb),
        (a - b - relative_dist(a, b, ohb)) % (2 * pow2(ohb) as int) == 0,
{
    let m = pow2(ohb) as int;
    vstd::arithmetic::power2::lemma_pow2_pos(ohb);
    let x = a - b + m;
    let q = x / (2 * m);
    vstd::arithmetic::div_mod::lemma_fundamental_div_mod(x, 2 * m);
    assert(a - b - relative_dist(a, b, ohb) == (2 * m) * q);
    vstd::arithmetic::div_mod::lemma_mod_multiples_basic(q, 2 * m);
    assert(q * (2 * m) == (2 * m) * q) by (nonlinear_arith);
}

/// Order hints that lie less than half a cycle apart keep their plain
/// difference.
pub proof fn law_relative_dist_of_near_hints(a: int, b: int, ohb: nat)
    requires
        -pow2(ohb) <= a - b < pow2(ohb),
    ensures
        relative_dist(a, b, ohb) == a - b,
{
    vstd::arithmetic::power2::lemma_pow2_pos(ohb);
    vstd::arithmetic::div_mod::lemma_small_mod(
        (a - b + pow2(ohb)) as nat,
        (2 * pow2(ohb)) as nat,
    );
}

/// What one AV1 frame buffer holds.
#[derive(Debug, Clone, Copy)]
pub struct FrameBuffer {
    /// The slot of its picture, -1 where it has none.
    pub dpb_slot: i32,
    pub order_hint: u32,
    /// The coded width and height, zero where it was never refreshed.
    pub dims: (u32, u32),
    /// The order hints of the refreshing frame, by reference name.
    pub saved_order_hints: [u8; 8],
    /// The distances of the refreshing frame to its references; the first is
    /// never set.
    pub ref_dist: [i8; 8],
    pub frame_type: u8,
    pub disable_cdf: u8,
    pub seg_enabled: u8,
}

/// A frame buffer that was never refreshed.
pub open spec fn is_blank(b: FrameBuffer) -> bool {
    &&& b.dpb_slot == -1
    &&& b.order_hint == 0
    &&& b.dims == (0u32, 0u32)
    &&& b.saved_order_hints@ == Seq::new(8, |i: int| 0u8)
    &&& b.ref_dist@ == Seq::new(8, |i: int| 0i8)
    &&& b.frame_type == 0
    &&& b.disable_cdf == 0
    &&& b.seg_enabled == 0
}

fn blank_buffer() -> (b: FrameBuffer)
    ensures
        is_blank(b),
{
    let b = FrameBuffer {
        dpb_slot: -1,
        order_hint: 0,
        dims: (0, 0),
        saved_order_hints: [0, 0, 0, 0, 0, 0, 0, 0],
        ref_dist: [0, 0, 0, 0, 0, 0, 0, 0],
        frame_type: 0,
        disable_cdf: 0,
        seg_enabled: 0,
    };
    assert(b.saved_order_hints@ =~= Seq::new(8, |i: int| 0u8));
    assert(b.ref_dist@ =~= Seq::new(8, |i: int| 0i8));
    b
}

/// The signs of distances `from..8` as a mask: bit `r` is set where the distance
/// to reference `r` is not positive.
pub open spec fn sign_bias(ref_dist: Seq<i8>, from: nat) -> u8 {
    sign_bias_up_to(ref_dist, from, 8)
}

/// The signs of the distances `from..n` as a mask.
pub open spec fn sign_bias_up_to(ref_dist: Seq<i8>, from: nat, n: nat) -> u8
    decreases n,
{
    if n <= from {
        0
    } else {
        let rest = sign_bias_up_to(ref_dist, from, (n - 1) as nat);
        if ref_dist[n - 1] <= 0 {
            rest | (1u8 << ((n - 1) as u8))
        } else {
            rest
        }
    }
}

/// A bit of the mask is set exactly where the distance is not positive.
pub proof fn law_sign_bias_bits(ref_dist: Seq<i8>, from: nat, r: nat)
    requires
        from <= r < 8,
    ensures
        (sign_bias(ref_dist, from) >> (r as u8)) & 1 == (if ref_dist[r as int] <= 0 {
            1u8
        } else {
            0u8
        }),
{
    lemma_sign_bias_bits(ref_dist, from, 8, r);
}

proof fn lemma_sign_bias_bits(ref_dist: Seq<i8>, from: nat, n: nat, r: nat)
    requires
        n <= 8,
        r < 8,
    ensures
        (sign_bias_up_to(ref_dist, from, n) >> (r as u8)) & 1 == (if from <= r < n && ref_dist[r as int]
            <= 0 {
            1u8
        } else {
            0u8
        }),
    decreases n,
{
    let k: u8 = r as u8;
    if n <= from {
        assert((0u8 >> k) & 1 == 0) by (bit_vector);
    } else {
        lemma_sign_bias_bits(ref_dist, from, (n - 1) as nat, r);
        let rest = sign_bias_up_to(ref_dist, from, (n - 1) as nat);
        let m: u8 = (n - 1) as u8;
        assert(((rest | (1u8 << m)) >> k) & 1 == if k == m {
            1u8
        } else {
            (rest >> k) & 1
        }) by (bit_vector)
            requires
                k < 8,
                m < 8,
        ;
    }
}

fn bias_of(ref_dist: &[i8; 8], from: usize) -> (bias: u8)
    requires
        from <= 8,
    ensures
        bias == sign_bias(ref_dist@, from as nat),
{
    let mut bias: u8 = 0;
    let mut r: usize = from;
    while r < 8
        invariant
            from <= r <= 8,
            bias == sign_bias_up_to(ref_dist@, from as nat, r as nat),
        decreases 8 - r,
    {
        if ref_dist[r] <= 0 {
            bias = bias | (1u8 << (r as u8));
        }
        r = r + 1;
    }
    bias
}

/// The stored reference information of a frame buffer.
#[derive(Debug, Clone, Copy)]
pub struct FrameBufferRefInfo {
    pub saved_order_hints: [u8; 8],
    pub ref_frame_sign_bias: u8,
    pub frame_type: u8,
    pub disable_cdf: u8,
    pub seg_enabled: u8,
}

/// AV1 decoder state. `session` is a handle, zero where there is none.
#[derive(Debug, Clone, Copy)]
pub struct Av1Decoder {
    pub session: u64,
    pub buffers: [FrameBuffer; 8],
    pub frame_count: u32,
}

/// The frame buffer after the current frame refreshed it with its reference
/// information.
pub open spec fn with_ref_info(
    b: FrameBuffer,
    after: FrameBuffer,
    order_hints: Seq<u8>,
    current_order_hint: u32,
    ohb: u32,
    frame_type: u8,
    disable_cdf: u8,
    seg_enabled: u8,
) -> bool {
    &&& after.dpb_slot == b.dpb_slot
    &&& after.order_hint == b.order_hint
    &&& after.dims == b.dims
    &&& after.saved_order_hints@ == order_hints
    &&& after.ref_dist@.len() == 8
    &&& after.ref_dist@[0] == b.ref_dist@[0]
    &&& forall|r: int|
        1 <= r < 8 ==> #[trigger] after.ref_dist@[r] == relative_dist(
            current_order_hint as i32 as int,
            order_hints[r] as int,
            ohb as nat,
        ) as i8
    &&& after.frame_type == frame_type
    &&& after.disable_cdf == disable_cdf
    &&& after.seg_enabled == seg_enabled
}

/// The reference information is what a frame buffer stores.
pub open spec fn is_info_of(info: FrameBufferRefInfo, b: FrameBuffer) -> bool {
    &&& info.saved_order_hints == b.saved_order_hints
    &&& info.ref_frame_sign_bias == sign_bias(b.ref_dist@, 1)
    &&& info.frame_type == b.frame_type
    &&& info.disable_cdf == b.disable_cdf
    &&& info.seg_enabled == b.seg_enabled
}

/// What was recorded of a frame buffer is read back from it, after any number of calls
/// that concern other buffers: the order hints, the kind and the flags as they were
/// given, and for each reference name a bit that is set where the relative distance is
/// not positive.
///
/// `states` are the decoder after the recording and after each of those calls, and
/// `touched` are the buffers that the calls concern.
pub proof fn law_ref_info_reads_back(
    before: FrameBuffer,
    states: Seq<Av1Decoder>,
    touched: Seq<int>,
    fb: int,
    order_hints: Seq<u8>,
    current_order_hint: u32,
    ohb: u32,
    frame_type: u8,
    disable_cdf: u8,
    seg_enabled: u8,
    info: FrameBufferRefInfo,
)
    requires
        0 <= fb < 8,
        ohb <= 7,
        states.len() == touched.len() + 1,
        with_ref_info(
            before,
            states[0].buffers@[fb],
            order_hints,
            current_order_hint,
            ohb,
            frame_type,
            disable_cdf,
            seg_enabled,
        ),
        forall|k: int|
            0 <= k < touched.len() ==> #[trigger] touched[k] != fb && states[k + 1].same_but(
                &states[k],
                touched[k],
            ),
        is_info_of(info, states.last().buffers@[fb]),
    ensures
        info.saved_order_hints@ == order_hints,
        info.frame_type == frame_type,
        info.disable_cdf == disable_cdf,
        info.seg_enabled == seg_enabled,
        forall|n: u8|
            1 <= n <= 7 ==> #[trigger] ((info.ref_frame_sign_bias >> n) & 1) == (if relative_dist(
                current_order_hint as i32 as int,
                order_hints[n as int] as int,
                ohb as nat,
            ) <= 0 {
                1u8
            } else {
                0u8
            }),
{
    lemma_untouched_buffer_stays(states, touched, fb, touched.len() as int);
    let b = states[0].buffers@[fb];
    lemma2_to64();
    if ohb < 7 {
        lemma_pow2_strictly_increases(ohb as nat, 7);
    }
    assert forall|n: u8| 1 <= n <= 7 implies #[trigger] ((info.ref_frame_sign_bias >> n) & 1) == (
    if relative_dist(
        current_order_hint as i32 as int,
        order_hints[n as int] as int,
        ohb as nat,
    ) <= 0 {
        1u8
    } else {
        0u8
    }) by {
        law_sign_bias_bits(b.ref_dist@, 1, n as nat);
        law_relative_dist_is_in_range(
            current_order_hint as i32 as int,
            order_hints[n as int] as int,
            ohb as nat,
        );
        assert(b.ref_dist@[n as int] == relative_dist(
            current_order_hint as i32 as int,
            order_hints[n as int] as int,
            ohb as nat,
        ) as i8);
    }
}

proof fn lemma_untouched_buffer_stays(
    states: Seq<Av1Decoder>,
    touched: Seq<int>,
    fb: int,
    n: int,
)
    requires
        0 <= fb < 8,
        0 <= n <= touched.len(),
        states.len() == touched.len() + 1,
        forall|k: int|
            0 <= k < touched.len() ==> #[trigger] touched[k] != fb && states[k + 1].same_but(
                &states[k],
                touched[k],
            ),
    ensures
        states[n].buffers@[fb] == states[0].buffers@[fb],
    decreases n,
{
    if n > 0 {
        lemma_untouched_buffer_stays(states, touched, fb, n - 1);
        assert(touched[n - 1] != fb);
        assert(states[n - 1 + 1].same_but(&states[n - 1], touched[n - 1]));
    }
}

/// The first frame buffer whose picture lies in a slot.
pub open spec fn is_first_in_slot(buffers: Seq<FrameBuffer>, slot: i32, r: Option<usize>) -> bool {
    match r {
        Some(i) => {
            &&& i < 8
            &&& buffers[i as int].dpb_slot == slot
            &&& forall|j: int| 0 <= j < i ==> (#[trigger] buffers[j]).dpb_slot != slot
        },
        None => forall|j: int| 0 <= j < 8 ==> (#[trigger] buffers[j]).dpb_slot != slot,
    }
}

/// The slot of a frame buffer, -1 where there is no such buffer.
pub open spec fn slot_of(buffers: Seq<FrameBuffer>, i: int) -> i32 {
    if 0 <= i < 8 {
        buffers[i].dpb_slot
    } else {
        -1i32
    }
}

impl Av1Decoder {
    /// Only frame buffer `i` may differ.
    pub open spec fn same_but(&self, other: &Av1Decoder, i: int) -> bool {
        &&& self.session == other.session
        &&& self.frame_count == other.frame_count
        &&& forall|j: int|
            0 <= j < 8 && j != i ==> #[trigger] self.buffers@[j] == other.buffers@[j]
    }

    /// A decoder whose frame buffers were never refreshed.
    pub fn new() -> (d: Av1Decoder)
        ensures
            d.session == 0,
            d.frame_count == 0,
            forall|i: int| 0 <= i < 8 ==> is_blank(#[trigger] d.buffers@[i]),
    {
        let b: FrameBuffer = blank_buffer();
        Av1Decoder { session: 0, buffers: [b, b, b, b, b, b, b, b], frame_count: 0 }
    }

    /// Sets the session handle.
    pub fn set_session(&mut self, session: u64)
        ensures
            *final(self) == (Av1Decoder { session, ..*old(self) }),
    {
        self.session = session;
    }

    /// The slot of a frame buffer, -1 where it has none.
    pub fn get_pic_idx_for_frame_buffer(&self, frame_buffer_idx: usize) -> (r: i32)
        ensures
            r == slot_of(self.buffers@, frame_buffer_idx as int),
    {
        if frame_buffer_idx < 8 {
            self.buffers[frame_buffer_idx].dpb_slot
        } else {
            -1
        }
    }

    /// Sets the slot of a frame buffer.
    pub fn set_frame_buffer_dpb_slot(&mut self, frame_buffer_idx: usize, dpb_slot: i32)
        ensures
            final(self).same_but(old(self), frame_buffer_idx as int),
            frame_buffer_idx < 8 ==> final(self).buffers@[frame_buffer_idx as int] == (
            FrameBuffer { dpb_slot, ..old(self).buffers@[frame_buffer_idx as int] }),
    {
        if frame_buffer_idx < 8 {
            let mut b: FrameBuffer = self.buffers[frame_buffer_idx];
            b.dpb_slot = dpb_slot;
            self.buffers[frame_buffer_idx] = b;
        }
    }

    /// Sets the order hint of a frame buffer.
    pub fn set_frame_buffer_order_hint(&mut self, frame_buffer_idx: usize, order_hint: u32)
        ensures
            final(self).same_but(old(self), frame_buffer_idx as int),
            frame_buffer_idx < 8 ==> final(self).buffers@[frame_buffer_idx as int] == (
            FrameBuffer { order_hint, ..old(self).buffers@[frame_buffer_idx as int] }),
    {
        if frame_buffer_idx < 8 {
            let mut b: FrameBuffer = self.buffers[frame_buffer_idx];
            b.order_hint = order_hint;
            self.buffers[frame_buffer_idx] = b;
        }
    }

    /// The order hint of a frame buffer.
    pub fn get_frame_buffer_order_hint(&self, frame_buffer_idx: usize) -> (r: u32)
        ensures
            r == if frame_buffer_idx < 8 {
                self.buffers@[frame_buffer_idx as int].order_hint
            } else {
                0
            },
    {
        if frame_buffer_idx < 8 {
            self.buffers[frame_buffer_idx].order_hint
        } else {
            0
        }
    }

    /// Records the coded dimensions of the frame stored in a frame buffer.
    pub fn set_frame_buffer_dims(&mut self, frame_buffer_idx: usize, width: u32, height: u32)
        ensures
            final(self).same_but(old(self), frame_buffer_idx as int),
            frame_buffer_idx < 8 ==> final(self).buffers@[frame_buffer_idx as int] == (
            FrameBuffer { dims: (width, height), ..old(self).buffers@[frame_buffer_idx as int] }),
    {
        if frame_buffer_idx < 8 {
            let mut b: FrameBuffer = self.buffers[frame_buffer_idx];
            b.dims = (width, height);
            self.buffers[frame_buffer_idx] = b;
        }
    }

    /// The coded dimensions of the frame stored in a frame buffer, zero where it
    /// was never refreshed.
    pub fn get_frame_buffer_dims(&self, frame_buffer_idx: usize) -> (r: (u32, u32))
        ensures
            r == if frame_buffer_idx < 8 {
                self.buffers@[frame_buffer_idx as int].dims
            } else {
                (0u32, 0u32)
            },
    {
        if frame_buffer_idx < 8 {
            self.buffers[frame_buffer_idx].dims
        } else {
            (0, 0)
        }
    }

    /// Records the reference information of a frame buffer when the current frame
    /// refreshes it. `order_hints` are the order hints of the current frame by
    /// reference name, `current_order_hint` is its own, and `ohb` is the number of
    /// order hint bits less one.
    pub fn set_frame_buffer_ref_info(
        &mut self,
        frame_buffer_idx: usize,
        order_hints: &[u8; 8],
        current_order_hint: u32,
        ohb: u32,
        frame_type: u8,
        disable_cdf: u8,
        seg_enabled: u8,
    )
        requires
            ohb <= 30,
        ensures
            final(self).same_but(old(self), frame_buffer_idx as int),
            frame_buffer_idx < 8 ==> with_ref_info(
                old(self).buffers@[frame_buffer_idx as int],
                final(self).buffers@[frame_buffer_idx as int],
                order_hints@,
                current_order_hint,
                ohb,
                frame_type,
                disable_cdf,
                seg_enabled,
            ),
    {
        if frame_buffer_idx < 8 {
            let mut b: FrameBuffer = self.buffers[frame_buffer_idx];
            let ghost before = b;
            b.saved_order_hints = *order_hints;
            let mut dist: [i8; 8] = b.ref_dist;
            let mut r: usize = 1;
            while r < 8
                invariant
                    1 <= r <= 8,
                    ohb <= 30,
                    dist@.len() == 8,
                    dist@[0] == before.ref_dist@[0],
                    forall|k: int|
                        1 <= k < r ==> #[trigger] dist@[k] == relative_dist(
                            current_order_hint as i32 as int,
                            order_hints@[k] as int,
                            ohb as nat,
                        ) as i8,
                decreases 8 - r,
            {
                let rel: i32 = Av1Decoder::get_relative_dist(
                    current_order_hint as i32,
                    order_hints[r] as i32,
                    ohb,
                );
                dist[r] = rel as i8;
                r = r + 1;
            }
            b.ref_dist = dist;
            b.frame_type = frame_type;
            b.disable_cdf = disable_cdf;
            b.seg_enabled = seg_enabled;
            self.buffers[frame_buffer_idx] = b;
        }
    }

    /// The stored reference information of a frame buffer.
    pub fn get_frame_buffer_ref_info(&self, frame_buffer_idx: usize) -> (r: Option<
        FrameBufferRefInfo,
    >)
        ensures
            r is Some <==> frame_buffer_idx < 8,
            r matches Some(info) ==> is_info_of(info, self.buffers@[frame_buffer_idx as int]),
    {
        if frame_buffer_idx < 8 {
            let b: FrameBuffer = self.buffers[frame_buffer_idx];
            Some(
                FrameBufferRefInfo {
                    saved_order_hints: b.saved_order_hints,
                    ref_frame_sign_bias: bias_of(&b.ref_dist, 1),
                    frame_type: b.frame_type,
                    disable_cdf: b.disable_cdf,
                    seg_enabled: b.seg_enabled,
                },
            )
        } else {
            None
        }
    }

    /// The first frame buffer whose picture lies in a slot.
    pub fn get_frame_buffer_for_dpb_slot(&self, dpb_slot: i32) -> (r: Option<usize>)
        ensures
            is_first_in_slot(self.buffers@, dpb_slot, r),
    {
        let mut i: usize = 0;
        while i < 8
            invariant
                i <= 8,
                forall|j: int| 0 <= j < i ==> (#[trigger] self.buffers@[j]).dpb_slot != dpb_slot,
            decreases 8 - i,
        {
            if self.buffers[i].dpb_slot == dpb_slot {
                return Some(i);
            }
            i = i + 1;
        }
        None
    }

    /// The signed distance from `b` to `a` in order-hint space of `ohb + 1` bits.
    pub fn get_relative_dist(a: i32, b: i32, ohb: u32) -> (r: i32)
        requires
            ohb <= 30,
        ensures
            r == relative_dist(a as int, b as int, ohb as nat),
    {
        proof {
            lemma2_to64();
            if ohb < 30 {
                lemma_pow2_strictly_increases(ohb as nat, 30);
            }
            vstd::bits::lemma_u64_shl_is_mul(1, ohb as u64);
            vstd::arithmetic::power2::lemma_pow2_pos(ohb as nat);
        }
        let m: u64 = 1u64 << (ohb as u64);
        let shifted: i64 = a as i64 - b as i64 + m as i64 + 0x2_0000_0000;
        let cycle: u64 = 2 * m;
        let rest: u64 = shifted as u64 % cycle;
        proof {
            let k = (32 - ohb) as nat;
            lemma_pow2_adds(ohb as nat, k);
            lemma_pow2_adds(32, 1);
            let c = cycle as int;
            let p = pow2(k) as int;
            assert(c * p == 0x2_0000_0000) by (nonlinear_arith)
                requires
                    c == 2 * m,
                    m * p == 0x1_0000_0000,
            ;
            let x = a - b + m;
            vstd::arithmetic::div_mod::lemma_mod_multiples_vanish(p, x, c);
            assert((c * p + x) % c == x % c);
            assert(shifted == c * p + x);
        }
        (rest as i64 - m as i64) as i32
    }

    /// Forgets all frame buffers (on a key frame or a discontinuity).
    pub fn reset_dpb(&mut self)
        ensures
            final(self).session == old(self).session,
            final(self).frame_count == old(self).frame_count,
            forall|i: int| 0 <= i < 8 ==> is_blank(#[trigger] final(self).buffers@[i]),
    {
        let b: FrameBuffer = blank_buffer();
        self.buffers = [b, b, b, b, b, b, b, b];
    }

    /// The slots that a frame references, by reference name: last, last2, last3,
    /// golden, bwdref, altref2, altref; -1 where a name is not used.
    pub fn compute_reference_name_slot_indices(
        &self,
        is_key_frame: bool,
        ref_frame_idx: &[u8; 7],
        _primary_ref_frame: u8,
    ) -> (r: [i32; 7])
        ensures
            forall|i: int|
                0 <= i < 7 ==> #[trigger] r@[i] == if is_key_frame {
                    -1i32
                } else {
                    slot_of(self.buffers@, ref_frame_idx@[i] as int)
                },
    {
        let mut r: [i32; 7] = [-1, -1, -1, -1, -1, -1, -1];
        if is_key_frame {
            return r;
        }
        let mut i: usize = 0;
        while i < 7
            invariant
                i <= 7,
                forall|k: int|
                    0 <= k < i ==> #[trigger] r@[k] == slot_of(
                        self.buffers@,
                        ref_frame_idx@[k] as int,
                    ),
                forall|k: int| i <= k < 7 ==> #[trigger] r@[k] == -1,
            decreases 7 - i,
        {
            r[i] = self.get_pic_idx_for_frame_buffer(ref_frame_idx[i] as usize);
            i = i + 1;
        }
        r
    }
}

// ---------------------------------------------------------------------------
// Decode commands
// ---------------------------------------------------------------------------

/// A reference picture of a decode command. `image` is a handle.
#[derive(Debug, Clone, Copy, PartialEq, Eq, Structural)]
pub struct Av1RefPicture {
    pub slot_index: i32,
    pub order_hint: u32,
    pub image: u64,
    pub layout: ImageLayout,
}

/// What a decode command says of a reference picture or of its own picture.
#[derive(Debug, Clone, Copy)]
pub struct Av1ReferenceInfo {
    pub order_hint: u8,
    pub saved_order_hints: [u8; 8],
    pub ref_frame_sign_bias: u8,
    pub frame_type: u8,
    pub disable_frame_end_update_cdf: u8,
    pub segmentation_enabled: u8,
}

/// What a decode command says of its own picture.
#[derive(Debug, Clone, Copy)]
pub struct Av1CurrentPicture {
    pub order_hint: u8,
    pub order_hints: [u8; 8],
    pub disable_frame_end_update_cdf: u8,
    pub segmentation_enabled: u8,
}

/// What is recorded for one AV1 decode command.
#[derive(Debug)]
pub struct Av1DecodePlan {
    /// Whether the decoder is reset before the first frame.
    pub reset: bool,
    /// The reference information, one for each reference picture.
    pub ref_infos: Vec<Av1ReferenceInfo>,
    /// The reference information of the picture itself.
    pub setup_info: Option<Av1ReferenceInfo>,
    /// The slots that coding begins with: the references, then the picture's own.
    pub begin_slots: Vec<i32>,
    /// The slots that the decode command refers to: the references alone.
    pub ref_slots: Vec<i32>,
    /// The layout changes: the output image, then the reference images.
    pub barriers: Vec<ImageBarrier>,
}

/// The reference information of a reference picture: what the first frame buffer
/// in its slot remembers, nothing where there is none.
pub open spec fn is_ref_info(
    info: Av1ReferenceInfo,
    r: Av1RefPicture,
    buffers: Seq<FrameBuffer>,
) -> bool {
    &&& info.order_hint == r.order_hint as u8
    &&& exists|f: Option<usize>| #[trigger]
        is_first_in_slot(buffers, r.slot_index, f) && match f {
            Some(i) => {
                let b = buffers[i as int];
                &&& info.saved_order_hints@ == b.saved_order_hints@
                &&& info.ref_frame_sign_bias == sign_bias(b.ref_dist@, 1)
                &&& info.frame_type == b.frame_type
                &&& info.disable_frame_end_update_cdf == b.disable_cdf
                &&& info.segmentation_enabled == b.seg_enabled
            },
            None => {
                &&& info.saved_order_hints@ == Seq::new(8, |k: int| 0u8)
                &&& info.ref_frame_sign_bias == 0
                &&& info.frame_type == 0
                &&& info.disable_frame_end_update_cdf == 0
                &&& info.segmentation_enabled == 0
            },
        }
}

/// The reference information of the picture itself. Its signs are those of the
/// first frame buffer, the first of them included.
pub open spec fn is_setup_info(
    info: Av1ReferenceInfo,
    current: Av1CurrentPicture,
    buffers: Seq<FrameBuffer>,
) -> bool {
    &&& info.order_hint == current.order_hint
    &&& info.saved_order_hints@ == current.order_hints@
    &&& info.ref_frame_sign_bias == sign_bias(buffers[0].ref_dist@, 0)
    &&& info.frame_type == 0
    &&& info.disable_frame_end_update_cdf == current.disable_frame_end_update_cdf
    &&& info.segmentation_enabled == current.segmentation_enabled
}

/// The slots of the references, in order.
pub open spec fn ref_slots_of(refs: Seq<Av1RefPicture>) -> Seq<i32> {
    refs.map_values(|r: Av1RefPicture| r.slot_index)
}

/// The slots that coding begins with: those of the references, in order, then
/// that of the picture where it becomes a reference.
pub open spec fn begin_slots(refs: Seq<Av1RefPicture>, setup: Option<i32>) -> Seq<i32> {
    ref_slots_of(refs) + match setup {
        Some(s) => seq![s],
        None => Seq::empty(),
    }
}

/// The layer of a slot's picture: its own in an image that all slots share, the
/// first in an image of its own.
pub open spec fn layer_of(slot: i32, use_image_array: bool) -> u32 {
    if use_image_array {
        slot as u32
    } else {
        0
    }
}

/// The image of a reference picture.
pub open spec fn ref_image_of(r: Av1RefPicture, use_image_array: bool) -> RefImage {
    RefImage { image: r.image, layout: r.layout, layer: layer_of(r.slot_index, use_image_array) }
}

/// The images of reference pictures.
pub open spec fn ref_images_of(refs: Seq<Av1RefPicture>, use_image_array: bool) -> Seq<RefImage> {
    refs.map_values(|r: Av1RefPicture| ref_image_of(r, use_image_array))
}

impl Av1Decoder {
    fn ref_info(&self, r: &Av1RefPicture) -> (info: Av1ReferenceInfo)
        ensures
            is_ref_info(info, *r, self.buffers@),
    {
        let found: Option<usize> = self.get_frame_buffer_for_dpb_slot(r.slot_index);
        let ghost f = found;
        let info = match found {
            Some(i) => {
                let b: FrameBuffer = self.buffers[i];
                Av1ReferenceInfo {
                    order_hint: r.order_hint as u8,
                    saved_order_hints: b.saved_order_hints,
                    ref_frame_sign_bias: bias_of(&b.ref_dist, 1),
                    frame_type: b.frame_type,
                    disable_frame_end_update_cdf: b.disable_cdf,
                    segmentation_enabled: b.seg_enabled,
                }
            },
            None => {
                let zeros: [u8; 8] = [0, 0, 0, 0, 0, 0, 0, 0];
                assert(zeros@ =~= Seq::new(8, |k: int| 0u8));
                Av1ReferenceInfo {
                    order_hint: r.order_hint as u8,
                    saved_order_hints: zeros,
                    ref_frame_sign_bias: 0,
                    frame_type: 0,
                    disable_frame_end_update_cdf: 0,
                    segmentation_enabled: 0,
                }
            },
        };
        assert(is_first_in_slot(self.buffers@, r.slot_index, f));
        info
    }

    /// Decides what is recorded for an AV1 decode command, and counts the frame.
    ///
    /// `setup` says whether the picture becomes a reference itself; the output
    /// picture lies in slot `output_slot_index` in layout `output_old_layout`.
    pub fn record_decode_command(
        &mut self,
        output_image: u64,
        setup: bool,
        refs: &[Av1RefPicture],
        current: &Av1CurrentPicture,
        is_first_frame: bool,
        output_slot_index: i32,
        output_old_layout: ImageLayout,
        dpb_use_image_array: bool,
    ) -> (plan: Av1DecodePlan)
        ensures
            *final(self) == (Av1Decoder {
                frame_count: old(self).frame_count.wrapping_add(1),
                ..*old(self)
            }),
            plan.reset == is_first_frame,
            plan.ref_infos@.len() == refs@.len(),
            forall|i: int|
                0 <= i < refs@.len() ==> is_ref_info(
                    #[trigger] plan.ref_infos@[i],
                    refs@[i],
                    old(self).buffers@,
                ),
            plan.setup_info is Some <==> setup,
            plan.setup_info matches Some(info) ==> is_setup_info(
                info,
                *current,
                old(self).buffers@,
            ),
            plan.begin_slots@ == begin_slots(
                refs@,
                if setup {
                    Some(output_slot_index)
                } else {
                    None
                },
            ),
            plan.ref_slots@ == ref_slots_of(refs@),
            plan.barriers@ == command_barriers(
                output_image,
                output_old_layout,
                layer_of(output_slot_index, dpb_use_image_array),
                setup,
                ref_images_of(refs@, dpb_use_image_array),
                true,
            ),
    {
        let mut ref_infos: Vec<Av1ReferenceInfo> = Vec::new();
        let mut slots: Vec<i32> = Vec::new();
        let mut ref_slots: Vec<i32> = Vec::new();
        let mut images: Vec<RefImage> = Vec::new();
        let output_layer: u32 = if dpb_use_image_array {
            output_slot_index as u32
        } else {
            0
        };
        let mut i: usize = 0;
        while i < refs.len()
            invariant
                i <= refs@.len(),
                *self == *old(self),
                ref_infos@.len() == i,
                forall|k: int|
                    0 <= k < i ==> is_ref_info(
                        #[trigger] ref_infos@[k],
                        refs@[k],
                        self.buffers@,
                    ),
                slots@ == ref_slots_of(refs@.take(i as int)),
                ref_slots@ == slots@,
                images@ == ref_images_of(refs@.take(i as int), dpb_use_image_array),
            decreases refs@.len() - i,
        {
            let r: &Av1RefPicture = &refs[i];
            let info: Av1ReferenceInfo = self.ref_info(r);
            ref_infos.push(info);
            slots.push(r.slot_index);
            ref_slots.push(r.slot_index);
            assert(slots@ =~= ref_slots_of(refs@.take(i + 1)));
            let layer: u32 = if dpb_use_image_array {
                r.slot_index as u32
            } else {
                0
            };
            images.push(RefImage { image: r.image, layout: r.layout, layer });
            assert(images@ =~= ref_images_of(refs@.take(i + 1), dpb_use_image_array));
            i = i + 1;
        }
        assert(refs@.take(i as int) =~= refs@);
        let setup_info: Option<Av1ReferenceInfo> = if setup {
            slots.push(output_slot_index);
            Some(
                Av1ReferenceInfo {
                    order_hint: current.order_hint,
                    saved_order_hints: current.order_hints,
                    ref_frame_sign_bias: bias_of(&self.buffers[0].ref_dist, 0),
                    frame_type: 0,
                    disable_frame_end_update_cdf: current.disable_frame_end_update_cdf,
                    segmentation_enabled: current.segmentation_enabled,
                },
            )
        } else {
            None
        };
        assert(slots@ =~= begin_slots(
            refs@,
            if setup {
                Some(output_slot_index)
            } else {
                None
            },
        ));
        let barriers: Vec<ImageBarrier> = plan_barriers(
            output_image,
            output_old_layout,
            output_layer,
            setup,
            &images,
            true,
        );
        self.frame_count = self.frame_count.wrapping_add(1);
        Av1DecodePlan {
            reset: is_first_frame,
            ref_infos,
            setup_info,
            begin_slots: slots,
            ref_slots,
            barriers,
        }
    }
}

/// The color configuration keeps each of its values; samples have 8 bits, 10 where they have
/// more, and 12 where that is said.
pub proof fn law_av1_colors_are_kept(sps: Av1Sps)
    ensures
        ({
            let r = av1_color_config_of(sps);
            &&& r.mono_chrome == sps.mono_chrome
            &&& r.color_range == sps.color_range
            &&& r.separate_uv_delta_q == sps.separate_uv_delta_q
            &&& r.color_description_present_flag == sps.color_description_present
            &&& r.bit_depth == (if sps.high_bitdepth && sps.twelve_bit {
                12u8
            } else if sps.high_bitdepth {
                10
            } else {
                8
            })
            &&& r.subsampling_x == sps.subsampling_x
            &&& r.subsampling_y == sps.subsampling_y
            &&& r.color_primaries == sps.color_primaries as u32
            &&& r.transfer_characteristics == sps.transfer_characteristics as u32
            &&& r.matrix_coefficients == sps.matrix_coefficients as u32
            &&& r.chroma_sample_position == sps.chroma_sample_position as u32
        }),
{
}


/// The timing information keeps each of its values.
pub proof fn law_av1_timing_is_kept(sps: Av1Sps)
    ensures
        ({
            let r = av1_timing_info_of(sps);
            &&& r.equal_picture_interval == sps.equal_picture_interval
            &&& r.num_units_in_display_tick == sps.num_units_in_display_tick
            &&& r.time_scale == sps.time_scale
            &&& r.num_ticks_per_picture_minus_1 == 0
        }),
{
}


/// A sequence header keeps each of its values. Numbers of bits are told by one less, and the
/// profiles 0, 1 and 2 by themselves.
pub proof fn law_av1_sequence_headers_are_kept(sps: Av1Sps)
    ensures
        ({
            let r = av1_sequence_header_of(sps);
            &&& r.still_picture == sps.still_picture
            &&& r.reduced_still_picture_header == sps.reduced_still_picture_header
            &&& r.use_128x128_superblock == sps.use_128x128_superblock
            &&& r.enable_filter_intra == sps.enable_filter_intra
            &&& r.enable_intra_edge_filter == sps.enable_intra_edge_filter
            &&& r.enable_interintra_compound == sps.enable_interintra_compound
            &&& r.enable_masked_compound == sps.enable_masked_compound
            &&& r.enable_warped_motion == sps.enable_warped_motion
            &&& r.enable_dual_filter == sps.enable_dual_filter
            &&& r.enable_order_hint == sps.enable_order_hint
            &&& r.enable_jnt_comp == sps.enable_jnt_motion
            &&& r.enable_ref_frame_mvs == sps.enable_ref_frame_mvs
            &&& r.frame_id_numbers_present_flag == sps.frame_id_numbers_present_flag
            &&& r.enable_superres == sps.enable_superres
            &&& r.enable_cdef == sps.enable_cdef
            &&& r.enable_restoration == sps.enable_restoration
            &&& r.film_grain_params_present == sps.film_grain_params_present
            &&& r.timing_info_present_flag == sps.timing_info_present_flag
            &&& r.initial_display_delay_present_flag == sps.initial_display_delay_present_flag
            &&& r.seq_profile == (if sps.profile == 1 {
                1u32
            } else if sps.profile == 2 {
                2
            } else {
                0
            })
            &&& r.frame_width_bits_minus_1 == (if sps.frame_width_bits >= 1 {
                sps.frame_width_bits - 1
            } else {
                0
            })
            &&& r.frame_height_bits_minus_1 == (if sps.frame_height_bits >= 1 {
                sps.frame_height_bits - 1
            } else {
                0
            })
            &&& r.max_frame_width_minus_1 == sps.max_frame_width_minus_1
            &&& r.max_frame_height_minus_1 == sps.max_frame_height_minus_1
            &&& r.delta_frame_id_length_minus_2 == sps.delta_frame_id_length_minus2
            &&& r.additional_frame_id_length_minus_1 == sps.additional_frame_id_length_minus1
            &&& r.order_hint_bits_minus_1 == sps.order_hint_bits_minus1
            &&& r.seq_force_integer_mv == sps.seq_force_integer_mv
            &&& r.seq_force_screen_content_tools == sps.seq_force_screen_content_tools
        }),
{
}


/// A bit of a word of flags is its binary digit.
pub proof fn law_word_bits_are_digits(bits: u32, k: u32)
    requires
        k < 32,
    ensures
        word_bit(bits, k) == (bits as int / pow2(k as nat) as int) % 2,
{
    vstd::bits::lemma_u32_shr_is_div(bits, k);
    let q: u32 = bits >> k;
    assert(q & 1 == q % 2) by (bit_vector);
}

/// A frame buffer that was never refreshed has no slot and remembers nothing.
pub proof fn law_blank_buffers(b: FrameBuffer, i: int)
    requires
        is_blank(b),
        0 <= i < 8,
    ensures
        b.dpb_slot == -1,
        b.order_hint == 0,
        b.dims.0 == 0 && b.dims.1 == 0,
        b.saved_order_hints@[i] == 0,
        b.ref_dist@[i] == 0,
        b.frame_type == 0 && b.disable_cdf == 0 && b.seg_enabled == 0,
{
}

/// A reference picture is told as the first frame buffer in its slot remembers it, with
/// the low bits of its order hint.
pub proof fn law_references_are_remembered(
    info: Av1ReferenceInfo,
    r: Av1RefPicture,
    buffers: Seq<FrameBuffer>,
    i: int,
    name: nat,
)
    requires
        is_ref_info(info, r, buffers),
        0 <= i < 8,
        buffers[i].dpb_slot == r.slot_index,
        forall|j: int| 0 <= j < i ==> (#[trigger] buffers[j]).dpb_slot != r.slot_index,
        1 <= name < 8,
    ensures
        r.order_hint <= 255 ==> info.order_hint == r.order_hint,
        info.saved_order_hints@ == buffers[i].saved_order_hints@,
        (info.ref_frame_sign_bias >> (name as u8)) & 1 == 1u8 <==> buffers[i].ref_dist@[name as int]
            <= 0,
        info.frame_type == buffers[i].frame_type,
        info.disable_frame_end_update_cdf == buffers[i].disable_cdf,
        info.segmentation_enabled == buffers[i].seg_enabled,
{
    let f = choose|f: Option<usize>| #[trigger]
        is_first_in_slot(buffers, r.slot_index, f) && match f {
            Some(k) => {
                let b = buffers[k as int];
                &&& info.saved_order_hints@ == b.saved_order_hints@
                &&& info.ref_frame_sign_bias == sign_bias(b.ref_dist@, 1)
                &&& info.frame_type == b.frame_type
                &&& info.disable_frame_end_update_cdf == b.disable_cdf
                &&& info.segmentation_enabled == b.seg_enabled
            },
            None => true,
        };
    assert(f is Some);
    let k = f->0 as int;
    if k < i {
        assert(buffers[k].dpb_slot != r.slot_index);
    }
    if i < k {
        assert(buffers[i].dpb_slot != r.slot_index);
    }
    assert(k == i);
    law_sign_bias_bits(buffers[i].ref_dist@, 1, name);
}

/// A reference picture in whose slot no frame buffer lies is told by its order hint alone.
pub proof fn law_unknown_references_are_blank(
    info: Av1ReferenceInfo,
    r: Av1RefPicture,
    buffers: Seq<FrameBuffer>,
    k: int,
)
    requires
        is_ref_info(info, r, buffers),
        forall|j: int| 0 <= j < 8 ==> (#[trigger] buffers[j]).dpb_slot != r.slot_index,
        0 <= k < 8,
    ensures
        r.order_hint <= 255 ==> info.order_hint == r.order_hint,
        info.saved_order_hints@[k] == 0,
        info.ref_frame_sign_bias == 0,
        info.frame_type == 0,
        info.disable_frame_end_update_cdf == 0,
        info.segmentation_enabled == 0,
{
}

/// The picture itself is told by its own order hints and flags, as a key frame, and with
/// the signs of the first frame buffer.
pub proof fn law_pictures_tell_themselves(
    info: Av1ReferenceInfo,
    current: Av1CurrentPicture,
    buffers: Seq<FrameBuffer>,
    name: nat,
)
    requires
        is_setup_info(info, current, buffers),
        name < 8,
    ensures
        info.order_hint == current.order_hint,
        info.saved_order_hints@ == current.order_hints@,
        (info.ref_frame_sign_bias >> (name as u8)) & 1 == 1u8 <==> buffers[0].ref_dist@[name as int]
            <= 0,
        info.frame_type == 0,
        info.disable_frame_end_update_cdf == current.disable_frame_end_update_cdf,
        info.segmentation_enabled == current.segmentation_enabled,
{
    law_sign_bias_bits(buffers[0].ref_dist@, 0, name);
}

/// Coding begins with the slots of the references, in order, and ends with that of the
/// picture where it becomes a reference. A picture in an image that all slots share has
/// its slot's layer.
pub proof fn law_av1_slots(refs: Seq<Av1RefPicture>, slot: i32, i: int)
    requires
        0 <= i < refs.len(),
    ensures
        ref_slots_of(refs).len() == refs.len(),
        ref_slots_of(refs)[i] == refs[i].slot_index,
        begin_slots(refs, None) == ref_slots_of(refs),
        begin_slots(refs, Some(slot)).len() == refs.len() + 1,
        begin_slots(refs, Some(slot))[i] == refs[i].slot_index,
        begin_slots(refs, Some(slot)).last() == slot,
        layer_of(slot, false) == 0,
        slot >= 0 ==> layer_of(slot, true) == slot,
        ref_images_of(refs, true).len() == refs.len(),
        ref_images_of(refs, false).len() == refs.len(),
        ref_images_of(refs, false)[i].image == refs[i].image,
        ref_images_of(refs, true)[i].image == refs[i].image,
        ref_images_of(refs, false)[i].layout == refs[i].layout,
        ref_images_of(refs, true)[i].layout == refs[i].layout,
        ref_images_of(refs, false)[i].layer == 0,
        refs[i].slot_index >= 0 ==> ref_images_of(refs, true)[i].layer == refs[i].slot_index,
{
    assert(begin_slots(refs, None) =~= ref_slots_of(refs));
}

/// The slot of a frame buffer is what it says, and -1 where there is no such buffer.
pub proof fn law_slots_of_buffers(buffers: Seq<FrameBuffer>, i: int)
    ensures
        0 <= i < 8 ==> slot_of(buffers, i) == buffers[i].dpb_slot,
        i < 0 || i >= 8 ==> slot_of(buffers, i) == -1,
{
}

} // verus!
