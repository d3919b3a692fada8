//! What the driver is told of an AV1 picture: its frame header, in the driver's
//! terms.

use crate::av1::{
    law_setting_a_flag_sets_one_bit, with_bit, word_bit, Av1Decoder, Av1Sps, FrameBuffer,
    StdVideoDecodeAV1PictureInfoFlags,
};
use crate::codes::ash_av1_frame_types;
use crate::container::least;
use vstd::prelude::*;

verus! {

/// An AV1 frame header.
#[derive(Debug, Clone, Copy)]
pub struct Av1FrameHeader {
    pub show_existing_frame: bool,
    pub frame_to_show_map_idx: u8,
    pub show_frame: bool,
    pub frame_type: u8,
    pub frame_width: u32,
    pub frame_height: u32,
    /// The size of the header in the payload of its unit.
    pub frame_header_size: u32,
    pub order_hint: u32,
    pub primary_ref_frame: u8,
    pub refresh_frame_flags: u8,
    /// The frame buffers that the reference names stand for.
    pub ref_frame_idx: [u8; 7],
    pub coded_denom: u8,
    pub error_resilient_mode: bool,
    pub disable_cdf_update: bool,
    pub use_superres: bool,
    pub render_and_frame_size_different: bool,
    pub allow_screen_content_tools: bool,
    pub is_filter_switchable: bool,
    pub force_integer_mv: bool,
    pub frame_size_override_flag: bool,
    pub allow_intrabc: bool,
    pub frame_refs_short_signaling: bool,
    pub allow_high_precision_mv: bool,
    pub is_motion_mode_switchable: bool,
    pub use_ref_frame_mvs: bool,
    pub disable_frame_end_update_cdf: bool,
    pub allow_warped_motion: bool,
    pub reduced_tx_set: bool,
    pub reference_select: bool,
    pub skip_mode_present: bool,
    pub delta_q_present: bool,
    pub delta_lf_present: bool,
    pub delta_lf_multi: bool,
    pub segmentation_enabled: bool,
    pub segmentation_update_map: bool,
    pub segmentation_temporal_update: bool,
    pub segmentation_update_data: bool,
    pub uses_lr: bool,
    pub apply_grain: bool,
    pub interpolation_filter: u8,
    pub tx_mode: u8,
    pub delta_q_res: u8,
    pub delta_lf_res: u8,
    pub skip_mode_frame: [u8; 2],
    pub uniform_tile_spacing_flag: bool,
    pub tile_count: u32,
    pub tile_cols: u32,
    pub tile_rows: u32,
    pub context_update_tile_id: u32,
    pub tile_size_bytes_minus_1: u32,
    pub tile_width_in_sbs_minus_1: [u16; 64],
    pub tile_height_in_sbs_minus_1: [u16; 64],
    pub tile_mi_col_starts: [u16; 64],
    pub tile_mi_row_starts: [u16; 64],
    pub using_qmatrix: bool,
    pub diff_uv_delta: bool,
    pub base_q_index: u8,
    pub delta_q_y_dc: i8,
    pub delta_q_u_dc: i8,
    pub delta_q_u_ac: i8,
    pub delta_q_v_dc: i8,
    pub delta_q_v_ac: i8,
    pub qm_y: u8,
    pub qm_u: u8,
    pub qm_v: u8,
    pub loop_filter_delta_enabled: bool,
    pub loop_filter_delta_update: bool,
    pub loop_filter_level: [u8; 2],
    pub loop_filter_level_uv: [u8; 2],
    pub loop_filter_sharpness: u8,
    pub loop_filter_ref_deltas: [i8; 8],
    pub loop_filter_mode_deltas: [i8; 2],
    pub segment_feature_enabled: [u8; 8],
    pub segment_feature_data: [[i16; 8]; 8],
    pub cdef_damping: u8,
    pub cdef_bits: u8,
    pub cdef_y_pri_strength: [u8; 8],
    pub cdef_y_sec_strength: [u8; 8],
    pub cdef_uv_pri_strength: [u8; 8],
    pub cdef_uv_sec_strength: [u8; 8],
    pub loop_restoration_type: [u8; 3],
    pub loop_restoration_size: [u16; 3],
    pub global_motion_type: [u8; 7],
    pub global_motion_params: [[i32; 6]; 7],
}

/// What the driver is told of the picture itself.
#[derive(Debug, Clone, Copy)]
pub struct Av1PictureInfo {
    pub flags: StdVideoDecodeAV1PictureInfoFlags,
    pub frame_type: u32,
    pub current_frame_id: u32,
    pub order_hint: u8,
    pub primary_ref_frame: u8,
    pub refresh_frame_flags: u8,
    pub interpolation_filter: u32,
    pub tx_mode: u32,
    pub delta_q_res: u8,
    pub delta_lf_res: u8,
    pub skip_mode_frame: [u8; 2],
    pub coded_denom: u8,
    /// The order hints of the references by name, the first for none.
    pub order_hints: [u8; 8],
    pub expected_frame_id: [u32; 8],
}

/// How the picture is cut into tiles; columns and rows each have their lists.
#[derive(Debug, Clone)]
pub struct Av1TileInfo {
    pub uniform_tile_spacing_flag: bool,
    pub tile_cols: u8,
    pub tile_rows: u8,
    pub context_update_tile_id: u16,
    pub tile_size_bytes_minus_1: u8,
    pub width_in_sbs_minus_1: Vec<u16>,
    pub height_in_sbs_minus_1: Vec<u16>,
    pub mi_col_starts: Vec<u16>,
    pub mi_row_starts: Vec<u16>,
}

/// How the picture is quantized.
#[derive(Debug, Clone, Copy, PartialEq, Eq, Structural)]
pub struct Av1Quantization {
    pub using_qmatrix: bool,
    pub diff_uv_delta: bool,
    pub base_q_idx: u8,
    pub delta_q_y_dc: i8,
    pub delta_q_u_dc: i8,
    pub delta_q_u_ac: i8,
    pub delta_q_v_dc: i8,
    pub delta_q_v_ac: i8,
    pub qm_y: u8,
    pub qm_u: u8,
    pub qm_v: u8,
}

/// The loop filter of the picture.
#[derive(Debug, Clone, Copy)]
pub struct Av1LoopFilter {
    pub loop_filter_delta_enabled: bool,
    pub loop_filter_delta_update: bool,
    pub loop_filter_level: [u8; 4],
    pub loop_filter_sharpness: u8,
    pub update_ref_delta: u8,
    pub loop_filter_ref_deltas: [i8; 8],
    pub update_mode_delta: u8,
    pub loop_filter_mode_deltas: [i8; 2],
}

/// The segments of the picture.
#[derive(Debug, Clone, Copy)]
pub struct Av1Segmentation {
    pub feature_enabled: [u8; 8],
    pub feature_data: [[i16; 8]; 8],
}

/// The constrained directional enhancement filter of the picture.
#[derive(Debug, Clone, Copy)]
pub struct Av1Cdef {
    pub cdef_damping_minus_3: u8,
    pub cdef_bits: u8,
    pub cdef_y_pri_strength: [u8; 8],
    pub cdef_y_sec_strength: [u8; 8],
    pub cdef_uv_pri_strength: [u8; 8],
    pub cdef_uv_sec_strength: [u8; 8],
}

/// The loop restoration of the picture.
#[derive(Debug, Clone, Copy)]
pub struct Av1LoopRestoration {
    pub frame_restoration_type: [u32; 3],
    pub loop_restoration_size: [u16; 3],
}

/// The global motion of the picture by reference name, the first for none.
#[derive(Debug, Clone, Copy)]
pub struct Av1GlobalMotion {
    pub gm_type: [u8; 8],
    pub gm_params: [[i32; 6]; 8],
}

/// All that the driver is told of a picture. Its film grain parameters are zero.
#[derive(Debug, Clone)]
pub struct Av1PictureInfoContainer {
    pub std_picture_info: Av1PictureInfo,
    pub tile_info: Av1TileInfo,
    pub quantization: Av1Quantization,
    pub segmentation: Av1Segmentation,
    pub loop_filter: Av1LoopFilter,
    pub cdef: Av1Cdef,
    pub loop_restoration: Av1LoopRestoration,
    pub global_motion: Av1GlobalMotion,
    /// Where the tile data begin in the bitstream buffer.
    pub tile_offsets: [u32; 1],
    /// How long the tile data are.
    pub tile_sizes: [u32; 1],
}

// ---------------------------------------------------------------------------
// Flags
// ---------------------------------------------------------------------------

/// The flags of a picture by their bits. Chroma is restored where one of its planes
/// is.
pub open spec fn picture_flag(h: Av1FrameHeader, k: nat) -> bool {
    if k == 0 {
        h.error_resilient_mode
    } else if k == 1 {
        h.disable_cdf_update
    } else if k == 2 {
        h.use_superres
    } else if k == 3 {
        h.render_and_frame_size_different
    } else if k == 4 {
        h.allow_screen_content_tools
    } else if k == 5 {
        h.is_filter_switchable
    } else if k == 6 {
        h.force_integer_mv
    } else if k == 7 {
        h.frame_size_override_flag
    } else if k == 8 {
        false
    } else if k == 9 {
        h.allow_intrabc
    } else if k == 10 {
        h.frame_refs_short_signaling
    } else if k == 11 {
        h.allow_high_precision_mv
    } else if k == 12 {
        h.is_motion_mode_switchable
    } else if k == 13 {
        h.use_ref_frame_mvs
    } else if k == 14 {
        h.disable_frame_end_update_cdf
    } else if k == 15 {
        h.allow_warped_motion
    } else if k == 16 {
        h.reduced_tx_set
    } else if k == 17 {
        h.reference_select
    } else if k == 18 {
        h.skip_mode_present
    } else if k == 19 {
        h.delta_q_present
    } else if k == 20 {
        h.delta_lf_present
    } else if k == 21 {
        h.delta_lf_multi
    } else if k == 22 {
        h.segmentation_enabled
    } else if k == 23 {
        h.segmentation_update_map
    } else if k == 24 {
        h.segmentation_temporal_update
    } else if k == 25 {
        h.segmentation_update_data
    } else if k == 26 {
        h.uses_lr
    } else if k == 27 {
        h.loop_restoration_type@[1] != 0 || h.loop_restoration_type@[2] != 0
    } else if k == 28 {
        h.apply_grain
    } else {
        false
    }
}

/// A flag as a number.
pub open spec fn flag_value(b: bool) -> u32 {
    if b {
        1
    } else {
        0
    }
}

/// The word of the first `n` flags.
pub open spec fn flag_word(h: Av1FrameHeader, n: nat) -> u32
    decreases n,
{
    if n == 0 {
        0
    } else {
        with_bit(
            flag_word(h, (n - 1) as nat),
            (n - 1) as u32,
            flag_value(picture_flag(h, (n - 1) as nat)),
        )
    }
}

/// Every flag of a picture is at its place in the word.
pub proof fn law_flag_word_holds_flags(h: Av1FrameHeader, n: nat, k: nat)
    requires
        n <= 32,
        k < n,
    ensures
        word_bit(flag_word(h, n), k as u32) == flag_value(picture_flag(h, k)),
    decreases n,
{
    let m = (n - 1) as nat;
    let rest = flag_word(h, m);
    let v = flag_value(picture_flag(h, m));
    law_setting_a_flag_sets_one_bit(rest, m as u32, v, k as u32);
    if k < m {
        law_flag_word_holds_flags(h, m, k);
    } else {
        assert(v & 1 == v) by (bit_vector)
            requires
                v == 0 || v == 1,
        ;
    }
}

fn flag(b: bool) -> (r: u32)
    ensures
        r == flag_value(b),
{
    if b {
        1
    } else {
        0
    }
}

fn build_flags(h: &Av1FrameHeader) -> (f: StdVideoDecodeAV1PictureInfoFlags)
    ensures
        f.bits == flag_word(*h, 29),
{
    let mut f: StdVideoDecodeAV1PictureInfoFlags = StdVideoDecodeAV1PictureInfoFlags::new();
    assert(f.bits == flag_word(*h, 0));
    f.set_error_resilient_mode(flag(h.error_resilient_mode));
    assert(f.bits == flag_word(*h, 1));
    f.set_disable_cdf_update(flag(h.disable_cdf_update));
    assert(f.bits == flag_word(*h, 2));
    f.set_use_superres(flag(h.use_superres));
    assert(f.bits == flag_word(*h, 3));
    f.set_render_and_frame_size_different(flag(h.render_and_frame_size_different));
    assert(f.bits == flag_word(*h, 4));
    f.set_allow_screen_content_tools(flag(h.allow_screen_content_tools));
    assert(f.bits == flag_word(*h, 5));
    f.set_is_filter_switchable(flag(h.is_filter_switchable));
    assert(f.bits == flag_word(*h, 6));
    f.set_force_integer_mv(flag(h.force_integer_mv));
    assert(f.bits == flag_word(*h, 7));
    f.set_frame_size_override_flag(flag(h.frame_size_override_flag));
    assert(f.bits == flag_word(*h, 8));
    f.set_buffer_removal_time_present_flag(0);
    assert(f.bits == flag_word(*h, 9));
    f.set_allow_intrabc(flag(h.allow_intrabc));
    assert(f.bits == flag_word(*h, 10));
    f.set_frame_refs_short_signaling(flag(h.frame_refs_short_signaling));
    assert(f.bits == flag_word(*h, 11));
    f.set_allow_high_precision_mv(flag(h.allow_high_precision_mv));
    assert(f.bits == flag_word(*h, 12));
    f.set_is_motion_mode_switchable(flag(h.is_motion_mode_switchable));
    assert(f.bits == flag_word(*h, 13));
    f.set_use_ref_frame_mvs(flag(h.use_ref_frame_mvs));
    assert(f.bits == flag_word(*h, 14));
    f.set_disable_frame_end_update_cdf(flag(h.disable_frame_end_update_cdf));
    assert(f.bits == flag_word(*h, 15));
    f.set_allow_warped_motion(flag(h.allow_warped_motion));
    assert(f.bits == flag_word(*h, 16));
    f.set_reduced_tx_set(flag(h.reduced_tx_set));
    assert(f.bits == flag_word(*h, 17));
    f.set_reference_select(flag(h.reference_select));
    assert(f.bits == flag_word(*h, 18));
    f.set_skip_mode_present(flag(h.skip_mode_present));
    assert(f.bits == flag_word(*h, 19));
    f.set_delta_q_present(flag(h.delta_q_present));
    assert(f.bits == flag_word(*h, 20));
    f.set_delta_lf_present(flag(h.delta_lf_present));
    assert(f.bits == flag_word(*h, 21));
    f.set_delta_lf_multi(flag(h.delta_lf_multi));
    assert(f.bits == flag_word(*h, 22));
    f.set_segmentation_enabled(flag(h.segmentation_enabled));
    assert(f.bits == flag_word(*h, 23));
    f.set_segmentation_update_map(flag(h.segmentation_update_map));
    assert(f.bits == flag_word(*h, 24));
    f.set_segmentation_temporal_update(flag(h.segmentation_temporal_update));
    assert(f.bits == flag_word(*h, 25));
    f.set_segmentation_update_data(flag(h.segmentation_update_data));
    assert(f.bits == flag_word(*h, 26));
    f.set_uses_lr(flag(h.uses_lr));
    assert(f.bits == flag_word(*h, 27));
    f.set_uses_chroma_lr(flag(h.loop_restoration_type[1] != 0 || h.loop_restoration_type[2] != 0));
    assert(f.bits == flag_word(*h, 28));
    f.set_apply_grain(flag(h.apply_grain));
    assert(f.bits == flag_word(*h, 29));
    f
}

// ---------------------------------------------------------------------------
// Reference names
// ---------------------------------------------------------------------------

/// The references are not all in the header: they are derived from two of them by
/// order hints.
pub open spec fn refs_are_derived(h: Av1FrameHeader, sps: Av1Sps) -> bool {
    sps.enable_order_hint && h.frame_type != 0 && h.frame_refs_short_signaling
}

/// The frame buffer that reference name `i` stands for: the derived one where
/// references are derived, that of the header otherwise.
pub open spec fn effective_ref(
    h: Av1FrameHeader,
    sps: Av1Sps,
    derived: Seq<i32>,
    i: int,
) -> i32 {
    if refs_are_derived(h, sps) {
        derived[i]
    } else {
        h.ref_frame_idx@[i] as i32
    }
}

/// Whether the references have to be derived.
pub fn needs_derived_refs(h: &Av1FrameHeader, sps: &Av1Sps) -> (r: bool)
    ensures
        r == refs_are_derived(*h, *sps),
{
    sps.enable_order_hint && h.frame_type != 0 && h.frame_refs_short_signaling
}

/// The low eight bits of the order hint of a frame buffer, zero where there is no
/// such buffer.
pub open spec fn hint_of(buffers: Seq<FrameBuffer>, fb: int) -> u8 {
    if 0 <= fb < 8 {
        (buffers[fb].order_hint % 256) as u8
    } else {
        0
    }
}

/// The order hint that is said of reference name `i`, where name 0 stands for none.
pub open spec fn named_hint(
    buffers: Seq<FrameBuffer>,
    h: Av1FrameHeader,
    sps: Av1Sps,
    derived: Seq<i32>,
    i: int,
) -> u8 {
    if 1 <= i < 8 {
        hint_of(buffers, effective_ref(h, sps, derived, i - 1) as int)
    } else {
        0
    }
}

fn build_order_hints(
    decoder: &Av1Decoder,
    h: &Av1FrameHeader,
    sps: &Av1Sps,
    derived: &[i32; 7],
) -> (r: [u8; 8])
    ensures
        r@ == Seq::new(8, |i: int| named_hint(decoder.buffers@, *h, *sps, derived@, i)),
{
    let is_derived: bool = needs_derived_refs(h, sps);
    let mut r: [u8; 8] = [0, 0, 0, 0, 0, 0, 0, 0];
    let mut i: usize = 1;
    while i < 8
        invariant
            1 <= i <= 8,
            r@.len() == 8,
            is_derived == refs_are_derived(*h, *sps),
            forall|k: int|
                0 <= k < i ==> #[trigger] r@[k] == named_hint(
                    decoder.buffers@,
                    *h,
                    *sps,
                    derived@,
                    k,
                ),
            forall|k: int| i <= k < 8 ==> #[trigger] r@[k] == 0,
        decreases 8 - i,
    {
        let fb: i32 = if is_derived {
            derived[i - 1]
        } else {
            h.ref_frame_idx[i - 1] as i32
        };
        if 0 <= fb && fb < 8 {
            r[i] = (decoder.get_frame_buffer_order_hint(fb as usize) % 256) as u8;
        }
        i = i + 1;
    }
    assert(r@ =~= Seq::new(8, |i: int| named_hint(decoder.buffers@, *h, *sps, derived@, i)));
    r
}

// ---------------------------------------------------------------------------
// The picture
// ---------------------------------------------------------------------------

/// The code of a frame type; an unknown one counts as a key frame.
pub open spec fn frame_type_code(frame_type: u8) -> u32 {
    if frame_type <= 3 {
        frame_type as u32
    } else {
        0
    }
}

fn frame_type_of(frame_type: u8) -> (r: u32)
    ensures
        r == frame_type_code(frame_type),
        frame_type == 0 ==> r == 0,
        frame_type == 1 ==> r == 1,
        frame_type == 2 ==> r == 2,
        frame_type == 3 ==> r == 3,
        frame_type > 3 ==> r == 0,
{
    let codes: [u32; 4] = ash_av1_frame_types();
    match frame_type {
        1 => codes[1],
        2 => codes[2],
        3 => codes[3],
        _ => codes[0],
    }
}

/// What the driver is told of the picture itself. Frame ids are not in use.
pub open spec fn is_av1_picture_info(
    p: Av1PictureInfo,
    buffers: Seq<FrameBuffer>,
    h: Av1FrameHeader,
    sps: Av1Sps,
    derived: Seq<i32>,
) -> bool {
    &&& p.flags.bits == flag_word(h, 29)
    &&& p.frame_type == frame_type_code(h.frame_type)
    &&& p.current_frame_id == 0
    &&& p.order_hint == (h.order_hint % 256) as u8
    &&& p.primary_ref_frame == h.primary_ref_frame
    &&& p.refresh_frame_flags == h.refresh_frame_flags
    &&& p.interpolation_filter == h.interpolation_filter
    &&& p.tx_mode == h.tx_mode
    &&& p.delta_q_res == h.delta_q_res
    &&& p.delta_lf_res == h.delta_lf_res
    &&& p.skip_mode_frame == h.skip_mode_frame
    &&& p.coded_denom == h.coded_denom
    &&& p.order_hints@ == Seq::new(8, |i: int| named_hint(buffers, h, sps, derived, i))
    &&& p.expected_frame_id@ == Seq::new(8, |i: int| 0u32)
}

/// How the picture is cut into tiles. The lists hold 64 columns and rows at most,
/// and the size of tile sizes matters only where there are several tiles.
pub open spec fn is_tile_info(t: Av1TileInfo, h: Av1FrameHeader) -> bool {
    let cols = least(h.tile_cols as int, 64);
    let rows = least(h.tile_rows as int, 64);
    &&& t.uniform_tile_spacing_flag == h.uniform_tile_spacing_flag
    &&& t.tile_cols == least(h.tile_cols as int, 255)
    &&& t.tile_rows == least(h.tile_rows as int, 255)
    &&& t.context_update_tile_id == h.context_update_tile_id as u16
    &&& t.tile_size_bytes_minus_1 == if h.tile_count > 1 {
        least(h.tile_size_bytes_minus_1 as int, 255)
    } else {
        0
    }
    &&& t.width_in_sbs_minus_1@ == h.tile_width_in_sbs_minus_1@.take(cols)
    &&& t.height_in_sbs_minus_1@ == h.tile_height_in_sbs_minus_1@.take(rows)
    &&& t.mi_col_starts@ == h.tile_mi_col_starts@.take(cols)
    &&& t.mi_row_starts@ == h.tile_mi_row_starts@.take(rows)
}

/// How the picture is quantized.
pub open spec fn quantization_of(h: Av1FrameHeader) -> Av1Quantization {
    Av1Quantization {
        using_qmatrix: h.using_qmatrix,
        diff_uv_delta: h.diff_uv_delta,
        base_q_idx: h.base_q_index,
        delta_q_y_dc: h.delta_q_y_dc,
        delta_q_u_dc: h.delta_q_u_dc,
        delta_q_u_ac: h.delta_q_u_ac,
        delta_q_v_dc: h.delta_q_v_dc,
        delta_q_v_ac: h.delta_q_v_ac,
        qm_y: h.qm_y,
        qm_u: h.qm_u,
        qm_v: h.qm_v,
    }
}

/// The loop filter of the picture: levels for luma come before those for chroma,
/// and mode deltas count as never updated.
pub open spec fn is_loop_filter(f: Av1LoopFilter, h: Av1FrameHeader) -> bool {
    &&& f.loop_filter_delta_enabled == h.loop_filter_delta_enabled
    &&& f.loop_filter_delta_update == h.loop_filter_delta_update
    &&& f.loop_filter_level@ == h.loop_filter_level@ + h.loop_filter_level_uv@
    &&& f.loop_filter_sharpness == h.loop_filter_sharpness
    &&& f.update_ref_delta == flag_value(h.loop_filter_delta_update)
    &&& f.loop_filter_ref_deltas == h.loop_filter_ref_deltas
    &&& f.update_mode_delta == 0
    &&& f.loop_filter_mode_deltas == h.loop_filter_mode_deltas
}

/// The enhancement filter of the picture.
pub open spec fn cdef_of(h: Av1FrameHeader) -> Av1Cdef {
    Av1Cdef {
        cdef_damping_minus_3: h.cdef_damping,
        cdef_bits: h.cdef_bits,
        cdef_y_pri_strength: h.cdef_y_pri_strength,
        cdef_y_sec_strength: h.cdef_y_sec_strength,
        cdef_uv_pri_strength: h.cdef_uv_pri_strength,
        cdef_uv_sec_strength: h.cdef_uv_sec_strength,
    }
}

/// The loop restoration of the picture.
pub open spec fn is_loop_restoration(l: Av1LoopRestoration, h: Av1FrameHeader) -> bool {
    &&& l.frame_restoration_type@ == Seq::new(3, |i: int| h.loop_restoration_type@[i] as u32)
    &&& l.loop_restoration_size == h.loop_restoration_size
}

/// The global motion of the picture: none for the first name, then what the header
/// says.
pub open spec fn is_global_motion(g: Av1GlobalMotion, h: Av1FrameHeader) -> bool {
    &&& g.gm_type@ == seq![0u8] + h.global_motion_type@
    &&& g.gm_params@.len() == 8
    &&& g.gm_params@[0]@ == Seq::new(6, |i: int| 0i32)
    &&& forall|i: int| 1 <= i < 8 ==> #[trigger] g.gm_params@[i] == h.global_motion_params@[i - 1]
}

/// All that the driver is told of a picture whose unit's payload begins at
/// `payload_start` and has `payload_size` bytes. The tile data are what follows
/// the header in the payload.
pub open spec fn is_av1_picture(
    c: Av1PictureInfoContainer,
    buffers: Seq<FrameBuffer>,
    h: Av1FrameHeader,
    sps: Av1Sps,
    derived: Seq<i32>,
    payload_start: u32,
    payload_size: u32,
) -> bool {
    &&& is_av1_picture_info(c.std_picture_info, buffers, h, sps, derived)
    &&& is_tile_info(c.tile_info, h)
    &&& c.quantization == quantization_of(h)
    &&& c.segmentation == (Av1Segmentation {
        feature_enabled: h.segment_feature_enabled,
        feature_data: h.segment_feature_data,
    })
    &&& is_loop_filter(c.loop_filter, h)
    &&& c.cdef == cdef_of(h)
    &&& is_loop_restoration(c.loop_restoration, h)
    &&& is_global_motion(c.global_motion, h)
    &&& c.tile_offsets@ == seq![payload_start.wrapping_add(h.frame_header_size)]
    &&& c.tile_sizes@ == seq![
        if payload_size < h.frame_header_size {
            0u32
        } else {
            (payload_size - h.frame_header_size) as u32
        },
    ]
}

/// Where the header lies within the payload, header and tile data make up the
/// payload.
pub proof fn law_tile_data_end_with_payload(
    c: Av1PictureInfoContainer,
    buffers: Seq<FrameBuffer>,
    h: Av1FrameHeader,
    sps: Av1Sps,
    derived: Seq<i32>,
    payload_start: u32,
    payload_size: u32,
)
    requires
        is_av1_picture(c, buffers, h, sps, derived, payload_start, payload_size),
        h.frame_header_size <= payload_size,
        payload_start + payload_size <= u32::MAX,
    ensures
        c.tile_offsets@[0] + c.tile_sizes@[0] == payload_start + payload_size,
        payload_start <= c.tile_offsets@[0],
{
}

fn min_u32(a: u32, b: u32) -> (r: u32)
    ensures
        r == least(a as int, b as int),
{
    if a < b {
        a
    } else {
        b
    }
}

fn first_of(list: &[u16; 64], n: usize) -> (r: Vec<u16>)
    requires
        n <= 64,
    ensures
        r@ == list@.take(n as int),
{
    let mut r: Vec<u16> = Vec::new();
    let mut i: usize = 0;
    while i < n
        invariant
            i <= n <= 64,
            r@ == list@.take(i as int),
        decreases n - i,
    {
        r.push(list[i]);
        assert(r@ =~= list@.take(i + 1));
        i = i + 1;
    }
    r
}

fn build_tile_info(h: &Av1FrameHeader) -> (t: Av1TileInfo)
    ensures
        is_tile_info(t, *h),
{
    let cols: usize = min_u32(h.tile_cols, 64) as usize;
    let rows: usize = min_u32(h.tile_rows, 64) as usize;
    Av1TileInfo {
        uniform_tile_spacing_flag: h.uniform_tile_spacing_flag,
        tile_cols: min_u32(h.tile_cols, 255) as u8,
        tile_rows: min_u32(h.tile_rows, 255) as u8,
        context_update_tile_id: h.context_update_tile_id as u16,
        tile_size_bytes_minus_1: if h.tile_count > 1 {
            min_u32(h.tile_size_bytes_minus_1, 255) as u8
        } else {
            0
        },
        width_in_sbs_minus_1: first_of(&h.tile_width_in_sbs_minus_1, cols),
        height_in_sbs_minus_1: first_of(&h.tile_height_in_sbs_minus_1, rows),
        mi_col_starts: first_of(&h.tile_mi_col_starts, cols),
        mi_row_starts: first_of(&h.tile_mi_row_starts, rows),
    }
}

fn build_global_motion(h: &Av1FrameHeader) -> (g: Av1GlobalMotion)
    ensures
        is_global_motion(g, *h),
{
    let t: &[u8; 7] = &h.global_motion_type;
    let p: &[[i32; 6]; 7] = &h.global_motion_params;
    let none: [i32; 6] = [0, 0, 0, 0, 0, 0];
    assert(none@ =~= Seq::new(6, |i: int| 0i32));
    let g = Av1GlobalMotion {
        gm_type: [0, t[0], t[1], t[2], t[3], t[4], t[5], t[6]],
        gm_params: [none, p[0], p[1], p[2], p[3], p[4], p[5], p[6]],
    };
    assert(g.gm_type@ =~= seq![0u8] + h.global_motion_type@);
    g
}

fn build_loop_filter(h: &Av1FrameHeader) -> (f: Av1LoopFilter)
    ensures
        is_loop_filter(f, *h),
{
    let f = Av1LoopFilter {
        loop_filter_delta_enabled: h.loop_filter_delta_enabled,
        loop_filter_delta_update: h.loop_filter_delta_update,
        loop_filter_level: [
            h.loop_filter_level[0],
            h.loop_filter_level[1],
            h.loop_filter_level_uv[0],
            h.loop_filter_level_uv[1],
        ],
        loop_filter_sharpness: h.loop_filter_sharpness,
        update_ref_delta: flag(h.loop_filter_delta_update) as u8,
        loop_filter_ref_deltas: h.loop_filter_ref_deltas,
        update_mode_delta: 0,
        loop_filter_mode_deltas: h.loop_filter_mode_deltas,
    };
    assert(f.loop_filter_level@ =~= h.loop_filter_level@ + h.loop_filter_level_uv@);
    f
}

fn build_loop_restoration(h: &Av1FrameHeader) -> (l: Av1LoopRestoration)
    ensures
        is_loop_restoration(l, *h),
{
    let l = Av1LoopRestoration {
        frame_restoration_type: [
            h.loop_restoration_type[0] as u32,
            h.loop_restoration_type[1] as u32,
            h.loop_restoration_type[2] as u32,
        ],
        loop_restoration_size: h.loop_restoration_size,
    };
    assert(l.frame_restoration_type@ =~= Seq::new(
        3,
        |i: int| h.loop_restoration_type@[i] as u32,
    ));
    l
}

fn build_picture_info(
    decoder: &Av1Decoder,
    h: &Av1FrameHeader,
    sps: &Av1Sps,
    derived: &[i32; 7],
) -> (p: Av1PictureInfo)
    ensures
        is_av1_picture_info(p, decoder.buffers@, *h, *sps, derived@),
{
    let p = Av1PictureInfo {
        flags: build_flags(h),
        frame_type: frame_type_of(h.frame_type),
        current_frame_id: 0,
        order_hint: (h.order_hint % 256) as u8,
        primary_ref_frame: h.primary_ref_frame,
        refresh_frame_flags: h.refresh_frame_flags,
        interpolation_filter: h.interpolation_filter as u32,
        tx_mode: h.tx_mode as u32,
        delta_q_res: h.delta_q_res,
        delta_lf_res: h.delta_lf_res,
        skip_mode_frame: h.skip_mode_frame,
        coded_denom: h.coded_denom,
        order_hints: build_order_hints(decoder, h, sps, derived),
        expected_frame_id: [0, 0, 0, 0, 0, 0, 0, 0],
    };
    assert(p.expected_frame_id@ =~= Seq::new(8, |i: int| 0u32));
    p
}

impl Av1PictureInfoContainer {
    /// Puts together what the driver is told of a picture.
    ///
    /// `derived` are the frame buffers that the reference names stand for where
    /// they have to be derived; see `needs_derived_refs`.
    pub fn new(
        decoder: &Av1Decoder,
        h: &Av1FrameHeader,
        sps: &Av1Sps,
        derived: &[i32; 7],
        payload_start: u32,
        payload_size: u32,
    ) -> (c: Av1PictureInfoContainer)
        ensures
            is_av1_picture(
                c,
                decoder.buffers@,
                *h,
                *sps,
                derived@,
                payload_start,
                payload_size,
            ),
            h.frame_type <= 3 ==> c.std_picture_info.frame_type == h.frame_type,
            h.frame_type > 3 ==> c.std_picture_info.frame_type == 0,
    {
        let tile_size: u32 = if payload_size < h.frame_header_size {
            0
        } else {
            payload_size - h.frame_header_size
        };
        let c = Av1PictureInfoContainer {
            std_picture_info: build_picture_info(decoder, h, sps, derived),
            tile_info: build_tile_info(h),
            quantization: Av1Quantization {
                using_qmatrix: h.using_qmatrix,
                diff_uv_delta: h.diff_uv_delta,
                base_q_idx: h.base_q_index,
                delta_q_y_dc: h.delta_q_y_dc,
                delta_q_u_dc: h.delta_q_u_dc,
                delta_q_u_ac: h.delta_q_u_ac,
                delta_q_v_dc: h.delta_q_v_dc,
                delta_q_v_ac: h.delta_q_v_ac,
                qm_y: h.qm_y,
                qm_u: h.qm_u,
                qm_v: h.qm_v,
            },
            segmentation: Av1Segmentation {
                feature_enabled: h.segment_feature_enabled,
                feature_data: h.segment_feature_data,
            },
            loop_filter: build_loop_filter(h),
            cdef: Av1Cdef {
                cdef_damping_minus_3: h.cdef_damping,
                cdef_bits: h.cdef_bits,
                cdef_y_pri_strength: h.cdef_y_pri_strength,
                cdef_y_sec_strength: h.cdef_y_sec_strength,
                cdef_uv_pri_strength: h.cdef_uv_pri_strength,
                cdef_uv_sec_strength: h.cdef_uv_sec_strength,
            },
            loop_restoration: build_loop_restoration(h),
            global_motion: build_global_motion(h),
            tile_offsets: [payload_start.wrapping_add(h.frame_header_size)],
            tile_sizes: [tile_size],
        };
        assert(c.tile_offsets@ =~= seq![payload_start.wrapping_add(h.frame_header_size)]);
        assert(c.tile_sizes@ =~= seq![tile_size]);
        c
    }
}

// ---------------------------------------------------------------------------
// Laws
// ---------------------------------------------------------------------------

/// The frame types are coded by their numbers: key frames by 0, inter frames by 1,
/// intra-only frames by 2 and switch frames by 3. An unknown type counts as a key frame.
pub proof fn law_frame_types(frame_type: u8)
    ensures
        frame_type_code(0) == 0,
        frame_type_code(1) == 1,
        frame_type_code(2) == 2,
        frame_type_code(3) == 3,
        frame_type > 3 ==> frame_type_code(frame_type) == 0,
{
}

/// Every flag of a header has its own bit in the word of flags, which has no others.
pub proof fn law_flags_have_their_bits(h: Av1FrameHeader)
    ensures
        ({
            let w = flag_word(h, 29);
            &&& (word_bit(w, 0) == 1) == h.error_resilient_mode
            &&& (word_bit(w, 1) == 1) == h.disable_cdf_update
            &&& (word_bit(w, 2) == 1) == h.use_superres
            &&& (word_bit(w, 3) == 1) == h.render_and_frame_size_different
            &&& (word_bit(w, 4) == 1) == h.allow_screen_content_tools
            &&& (word_bit(w, 5) == 1) == h.is_filter_switchable
            &&& (word_bit(w, 6) == 1) == h.force_integer_mv
            &&& (word_bit(w, 7) == 1) == h.frame_size_override_flag
            &&& (word_bit(w, 8) == 1) == false
            &&& (word_bit(w, 9) == 1) == h.allow_intrabc
            &&& (word_bit(w, 10) == 1) == h.frame_refs_short_signaling
            &&& (word_bit(w, 11) == 1) == h.allow_high_precision_mv
            &&& (word_bit(w, 12) == 1) == h.is_motion_mode_switchable
            &&& (word_bit(w, 13) == 1) == h.use_ref_frame_mvs
            &&& (word_bit(w, 14) == 1) == h.disable_frame_end_update_cdf
            &&& (word_bit(w, 15) == 1) == h.allow_warped_motion
            &&& (word_bit(w, 16) == 1) == h.reduced_tx_set
            &&& (word_bit(w, 17) == 1) == h.reference_select
            &&& (word_bit(w, 18) == 1) == h.skip_mode_present
            &&& (word_bit(w, 19) == 1) == h.delta_q_present
            &&& (word_bit(w, 20) == 1) == h.delta_lf_present
            &&& (word_bit(w, 21) == 1) == h.delta_lf_multi
            &&& (word_bit(w, 22) == 1) == h.segmentation_enabled
            &&& (word_bit(w, 23) == 1) == h.segmentation_update_map
            &&& (word_bit(w, 24) == 1) == h.segmentation_temporal_update
            &&& (word_bit(w, 25) == 1) == h.segmentation_update_data
            &&& (word_bit(w, 26) == 1) == h.uses_lr
            &&& (word_bit(w, 27) == 1) == (h.loop_restoration_type@[1] != 0 || h.loop_restoration_type@[2] != 0)
            &&& (word_bit(w, 28) == 1) == h.apply_grain
        }),
{
    law_flag_word_holds_flags(h, 29, 0);
    law_flag_word_holds_flags(h, 29, 1);
    law_flag_word_holds_flags(h, 29, 2);
    law_flag_word_holds_flags(h, 29, 3);
    law_flag_word_holds_flags(h, 29, 4);
    law_flag_word_holds_flags(h, 29, 5);
    law_flag_word_holds_flags(h, 29, 6);
    law_flag_word_holds_flags(h, 29, 7);
    law_flag_word_holds_flags(h, 29, 8);
    law_flag_word_holds_flags(h, 29, 9);
    law_flag_word_holds_flags(h, 29, 10);
    law_flag_word_holds_flags(h, 29, 11);
    law_flag_word_holds_flags(h, 29, 12);
    law_flag_word_holds_flags(h, 29, 13);
    law_flag_word_holds_flags(h, 29, 14);
    law_flag_word_holds_flags(h, 29, 15);
    law_flag_word_holds_flags(h, 29, 16);
    law_flag_word_holds_flags(h, 29, 17);
    law_flag_word_holds_flags(h, 29, 18);
    law_flag_word_holds_flags(h, 29, 19);
    law_flag_word_holds_flags(h, 29, 20);
    law_flag_word_holds_flags(h, 29, 21);
    law_flag_word_holds_flags(h, 29, 22);
    law_flag_word_holds_flags(h, 29, 23);
    law_flag_word_holds_flags(h, 29, 24);
    law_flag_word_holds_flags(h, 29, 25);
    law_flag_word_holds_flags(h, 29, 26);
    law_flag_word_holds_flags(h, 29, 27);
    law_flag_word_holds_flags(h, 29, 28);
}

/// What the driver is told of a picture is what its header says: all numbers as they are,
/// the low bits of its order hint, the order hint of each reference by its name, tiles for
/// as many columns and rows as there are, up to 64, and tile data from behind the header.
pub proof fn law_pictures_tell_their_headers(
    c: Av1PictureInfoContainer,
    buffers: Seq<FrameBuffer>,
    h: Av1FrameHeader,
    sps: Av1Sps,
    derived: Seq<i32>,
    payload_start: u32,
    payload_size: u32,
    i: int,
)
    requires
        is_av1_picture(c, buffers, h, sps, derived, payload_start, payload_size),
        0 <= i < 7,
    ensures
        h.frame_type <= 3 ==> c.std_picture_info.frame_type == h.frame_type,
        c.std_picture_info.order_hint == h.order_hint % 256,
        c.std_picture_info.primary_ref_frame == h.primary_ref_frame,
        c.std_picture_info.refresh_frame_flags == h.refresh_frame_flags,
        c.std_picture_info.interpolation_filter == h.interpolation_filter,
        c.std_picture_info.tx_mode == h.tx_mode,
        c.std_picture_info.delta_q_res == h.delta_q_res,
        c.std_picture_info.delta_lf_res == h.delta_lf_res,
        c.std_picture_info.skip_mode_frame == h.skip_mode_frame,
        c.std_picture_info.coded_denom == h.coded_denom,
        c.std_picture_info.current_frame_id == 0,
        c.std_picture_info.expected_frame_id@[i] == 0,
        c.std_picture_info.order_hints@.len() == 8,
        c.std_picture_info.order_hints@[0] == 0,
        !(sps.enable_order_hint && h.frame_type != 0 && h.frame_refs_short_signaling)
            ==> c.std_picture_info.order_hints@[i + 1] == (if h.ref_frame_idx@[i] < 8 {
            buffers[h.ref_frame_idx@[i] as int].order_hint % 256
        } else {
            0
        }),
        sps.enable_order_hint && h.frame_type != 0 && h.frame_refs_short_signaling
            ==> c.std_picture_info.order_hints@[i + 1] == (if 0 <= derived[i] < 8 {
            buffers[derived[i] as int].order_hint % 256
        } else {
            0
        }),
        c.quantization.using_qmatrix == h.using_qmatrix,
        c.quantization.diff_uv_delta == h.diff_uv_delta,
        c.quantization.base_q_idx == h.base_q_index,
        c.quantization.delta_q_y_dc == h.delta_q_y_dc,
        c.quantization.delta_q_u_dc == h.delta_q_u_dc,
        c.quantization.delta_q_u_ac == h.delta_q_u_ac,
        c.quantization.delta_q_v_dc == h.delta_q_v_dc,
        c.quantization.delta_q_v_ac == h.delta_q_v_ac,
        c.quantization.qm_y == h.qm_y && c.quantization.qm_u == h.qm_u && c.quantization.qm_v
            == h.qm_v,
        c.segmentation.feature_enabled == h.segment_feature_enabled,
        c.segmentation.feature_data == h.segment_feature_data,
        c.loop_filter.loop_filter_delta_enabled == h.loop_filter_delta_enabled,
        c.loop_filter.loop_filter_delta_update == h.loop_filter_delta_update,
        c.loop_filter.loop_filter_level@[0] == h.loop_filter_level@[0],
        c.loop_filter.loop_filter_level@[1] == h.loop_filter_level@[1],
        c.loop_filter.loop_filter_level@[2] == h.loop_filter_level_uv@[0],
        c.loop_filter.loop_filter_level@[3] == h.loop_filter_level_uv@[1],
        c.loop_filter.loop_filter_sharpness == h.loop_filter_sharpness,
        c.loop_filter.update_ref_delta == (if h.loop_filter_delta_update {
            1u8
        } else {
            0
        }),
        c.loop_filter.update_mode_delta == 0,
        c.loop_filter.loop_filter_ref_deltas == h.loop_filter_ref_deltas,
        c.loop_filter.loop_filter_mode_deltas == h.loop_filter_mode_deltas,
        c.cdef.cdef_damping_minus_3 == h.cdef_damping,
        c.cdef.cdef_bits == h.cdef_bits,
        c.cdef.cdef_y_pri_strength == h.cdef_y_pri_strength,
        c.cdef.cdef_y_sec_strength == h.cdef_y_sec_strength,
        c.cdef.cdef_uv_pri_strength == h.cdef_uv_pri_strength,
        c.cdef.cdef_uv_sec_strength == h.cdef_uv_sec_strength,
        i < 3 ==> c.loop_restoration.frame_restoration_type@[i] == h.loop_restoration_type@[i],
        c.loop_restoration.loop_restoration_size == h.loop_restoration_size,
        c.global_motion.gm_type@[0] == 0,
        c.global_motion.gm_type@[i + 1] == h.global_motion_type@[i],
        c.global_motion.gm_params@[i + 1] == h.global_motion_params@[i],
        i < 6 ==> c.global_motion.gm_params@[0]@[i] == 0,
        h.frame_header_size <= payload_size && payload_start + payload_size <= u32::MAX
            ==> c.tile_offsets@[0] == payload_start + h.frame_header_size && c.tile_sizes@[0]
            == payload_size - h.frame_header_size,
        h.frame_header_size > payload_size ==> c.tile_sizes@[0] == 0,
        c.tile_info.uniform_tile_spacing_flag == h.uniform_tile_spacing_flag,
        h.context_update_tile_id <= 0xFFFF ==> c.tile_info.context_update_tile_id
            == h.context_update_tile_id,
        h.tile_count > 1 && h.tile_size_bytes_minus_1 <= 255 ==> c.tile_info.tile_size_bytes_minus_1
            == h.tile_size_bytes_minus_1,
        h.tile_count <= 1 ==> c.tile_info.tile_size_bytes_minus_1 == 0,
{
    assert(c.global_motion.gm_params@[i + 1] == h.global_motion_params@[i + 1 - 1]);
    assert(c.global_motion.gm_type@ == seq![0u8] + h.global_motion_type@);
    assert(c.loop_filter.loop_filter_level@ == h.loop_filter_level@ + h.loop_filter_level_uv@);
}

/// The tiles of a picture are those of its header, as far as 64 columns and 64 rows.
pub proof fn law_tiles_are_those_of_the_header(t: Av1TileInfo, h: Av1FrameHeader, i: int)
    requires
        is_tile_info(t, h),
    ensures
        h.tile_cols <= 255 ==> t.tile_cols == h.tile_cols,
        h.tile_cols > 255 ==> t.tile_cols == 255,
        h.tile_rows <= 255 ==> t.tile_rows == h.tile_rows,
        h.tile_rows > 255 ==> t.tile_rows == 255,
        t.width_in_sbs_minus_1@.len() == t.mi_col_starts@.len(),
        t.height_in_sbs_minus_1@.len() == t.mi_row_starts@.len(),
        h.tile_cols <= 64 ==> t.width_in_sbs_minus_1@.len() == h.tile_cols,
        h.tile_cols > 64 ==> t.width_in_sbs_minus_1@.len() == 64,
        h.tile_rows <= 64 ==> t.height_in_sbs_minus_1@.len() == h.tile_rows,
        h.tile_rows > 64 ==> t.height_in_sbs_minus_1@.len() == 64,
        0 <= i < 64 && i < h.tile_cols ==> t.width_in_sbs_minus_1@[i]
            == h.tile_width_in_sbs_minus_1@[i] && t.mi_col_starts@[i] == h.tile_mi_col_starts@[i],
        0 <= i < 64 && i < h.tile_rows ==> t.height_in_sbs_minus_1@[i]
            == h.tile_height_in_sbs_minus_1@[i] && t.mi_row_starts@[i] == h.tile_mi_row_starts@[i],
{
}

} // verus!
