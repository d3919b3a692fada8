//! Access unit extraction from H.264 and H.265 bitstreams.

use crate::parameter_sets::{
    DecRefPicMarking, H264Pps, H264Sps, H265Pps, H265Sps, H265Vps, SliceHeader, SliceHeaderView,
};
use crate::slice_header::is_irap;
use std::collections::HashSet;
use vstd::prelude::*;

verus! {

broadcast use vstd::std_specs::hash::group_hash_axioms;

/// Codec type for access unit extraction.
#[derive(Debug, Clone, Copy, PartialEq, Eq, Structural)]
pub enum VideoCodec {
    H264,
    H265,
    Vp9,
    Av1,
}

/// An H.264 memory management control operation.
#[derive(Debug, Clone, Copy, PartialEq, Eq, Structural)]
pub enum H264MmcoCommand {
    UnmarkShortTerm { difference_of_pic_nums_minus1: u32 },
    UnmarkLongTerm { long_term_frame_idx: u32 },
    AssignLongTerm { difference_of_pic_nums_minus1: u32, long_term_frame_idx: u32 },
    SetMaxLongTermFrameIdx { max_long_term_frame_idx_plus1: u32 },
    UnmarkAll,
    AssignLongTermToCurrent { long_term_frame_idx: u32 },
}

/// Either an H.264 or an H.265 sequence parameter set.
#[derive(Debug, Clone)]
pub enum H264OrH265Sps {
    H264(H264Sps),
    H265(H265Sps),
}

/// Either an H.264 or an H.265 picture parameter set.
#[derive(Debug, Clone)]
pub enum H264OrH265Pps {
    H264(H264Pps),
    H265(H265Pps),
}

/// An H.265 video parameter set.
#[derive(Debug, Clone)]
pub enum H265VpsOpt {
    H265(H265Vps),
}

/// In-band parameter sets met during access unit extraction.
#[derive(Debug, Clone)]
pub struct InBandParameterSet {
    pub vps: Option<H265VpsOpt>,
    pub sps: Option<H264OrH265Sps>,
    pub pps: Option<H264OrH265Pps>,
}

/// An access unit (single frame) extracted from the bitstream.
#[derive(Debug, Clone)]
pub struct AccessUnit {
    /// Bitstream data (slice NALs with start codes, no SPS/PPS).
    pub data: Vec<u8>,
    /// Offsets of each slice within data (pointing to start codes).
    pub slice_offsets: Vec<u32>,
    /// H.264: frame number from the first slice header. H.265: a running number.
    pub frame_num: u32,
    /// Picture order count [top_field, bottom_field].
    pub pic_order_cnt: [i32; 2],
    /// Whether this is an IDR frame.
    pub is_idr: bool,
    /// Whether this is a reference frame.
    pub is_reference: bool,
    /// H.264: slice type (0=P, 1=B, 2=I, 3=SP, 4=SI). H.265: raw slice type.
    pub slice_type: u32,
    /// H.264: slice header of the first slice (None for other codecs).
    pub h264_slice: Option<SliceHeader>,
    /// H.265: NumBitsForShortTermRPSInSlice from the slice header.
    pub num_bits_for_st_ref_pic_set_in_slice: i32,
    /// H.265: NumDeltaPocsOfRefRpsIdx from the slice header.
    pub num_delta_pocs_of_ref_rps_idx: i32,
    /// H.265: short_term_ref_pic_set_sps_flag from the slice header.
    pub short_term_ref_pic_set_sps_flag: bool,
    /// H.265: reference picture order counts from the reference picture set.
    pub ref_pocs: Vec<i32>,
    /// H.265: those of them that are of long-term reference pictures.
    pub long_term_pocs: Vec<i32>,
    /// H.264: whether marking commands replace the sliding window.
    pub adaptive_ref_pic_marking_mode_flag: bool,
    /// H.264: marking commands of the slice header.
    pub mmco_commands: Vec<H264MmcoCommand>,
    /// no_output_of_prior_pics_flag from the slice header.
    pub no_output_of_prior_pics_flag: bool,
}

/// Items extracted from a bitstream: access units and in-band parameter sets.
#[derive(Debug, Clone)]
pub enum ExtractedItem {
    AccessUnit(AccessUnit),
    ParameterSet(InBandParameterSet),
}

/// An access unit as a mathematical value.
pub struct AccessUnitView {
    pub data: Seq<u8>,
    pub slice_offsets: Seq<u32>,
    pub frame_num: u32,
    pub pic_order_cnt: Seq<i32>,
    pub is_idr: bool,
    pub is_reference: bool,
    pub slice_type: u32,
    pub h264_slice: Option<SliceHeaderView>,
    pub num_bits_for_st_ref_pic_set_in_slice: i32,
    pub num_delta_pocs_of_ref_rps_idx: i32,
    pub short_term_ref_pic_set_sps_flag: bool,
    pub ref_pocs: Seq<i32>,
    pub long_term_pocs: Seq<i32>,
    pub adaptive_ref_pic_marking_mode_flag: bool,
    pub mmco_commands: Seq<H264MmcoCommand>,
    pub no_output_of_prior_pics_flag: bool,
}

/// An optional slice header as a mathematical value.
pub open spec fn slice_view(s: Option<SliceHeader>) -> Option<SliceHeaderView> {
    match s {
        Some(h) => Some(h@),
        None => None,
    }
}

impl View for AccessUnit {
    type V = AccessUnitView;

    open spec fn view(&self) -> AccessUnitView {
        AccessUnitView {
            data: self.data@,
            slice_offsets: self.slice_offsets@,
            frame_num: self.frame_num,
            pic_order_cnt: self.pic_order_cnt@,
            is_idr: self.is_idr,
            is_reference: self.is_reference,
            slice_type: self.slice_type,
            h264_slice: slice_view(self.h264_slice),
            num_bits_for_st_ref_pic_set_in_slice: self.num_bits_for_st_ref_pic_set_in_slice,
            num_delta_pocs_of_ref_rps_idx: self.num_delta_pocs_of_ref_rps_idx,
            short_term_ref_pic_set_sps_flag: self.short_term_ref_pic_set_sps_flag,
            ref_pocs: self.ref_pocs@,
            long_term_pocs: self.long_term_pocs@,
            adaptive_ref_pic_marking_mode_flag: self.adaptive_ref_pic_marking_mode_flag,
            mmco_commands: self.mmco_commands@,
            no_output_of_prior_pics_flag: self.no_output_of_prior_pics_flag,
        }
    }
}

/// An extracted item as a mathematical value.
pub enum ItemView {
    AccessUnit(AccessUnitView),
    ParameterSet(InBandParameterSet),
}

impl View for ExtractedItem {
    type V = ItemView;

    open spec fn view(&self) -> ItemView {
        match *self {
            ExtractedItem::AccessUnit(au) => ItemView::AccessUnit(au@),
            ExtractedItem::ParameterSet(ps) => ItemView::ParameterSet(ps),
        }
    }
}

/// A list of extracted items as mathematical values.
pub open spec fn items_view(items: Seq<ExtractedItem>) -> Seq<ItemView> {
    items.map_values(|i: ExtractedItem| i@)
}

// ---------------------------------------------------------------------------
// What a NAL unit is
// ---------------------------------------------------------------------------

/// The fields of a NAL unit header that extraction reads: `ref_idc` of H.264,
/// `temporal_id_plus1` of H.265.
#[derive(Debug, Clone, Copy, PartialEq, Eq, Structural)]
pub struct NalHeader {
    pub nal_unit_type: u8,
    pub ref_idc: u8,
    pub temporal_id_plus1: u8,
}

/// What a NAL unit does to the access unit under construction.
#[derive(Debug, Clone, Copy, PartialEq, Eq, Structural)]
pub struct NalClass {
    pub nal_type: usize,
    pub is_irap: bool,
    pub is_au_delimiter: bool,
    pub is_slice: bool,
    pub is_params: bool,
}

/// The class of a NAL unit of the given codec. A unit without a readable header
/// and a unit of another codec are passed over.
pub open spec fn nal_class(codec: VideoCodec, header: Option<NalHeader>) -> NalClass {
    let none = NalClass {
        nal_type: 0,
        is_irap: false,
        is_au_delimiter: false,
        is_slice: false,
        is_params: false,
    };
    match (codec, header) {
        (VideoCodec::H264, Some(h)) => NalClass {
            nal_type: h.nal_unit_type as usize,
            is_irap: h.nal_unit_type == 5,
            is_au_delimiter: h.nal_unit_type == 9,
            is_slice: 1 <= h.nal_unit_type <= 5,
            is_params: h.nal_unit_type == 7 || h.nal_unit_type == 8,
        },
        (VideoCodec::H265, Some(h)) => NalClass {
            nal_type: h.nal_unit_type as usize,
            is_irap: is_irap(h.nal_unit_type),
            is_au_delimiter: h.nal_unit_type == 38,
            is_slice: h.nal_unit_type <= 31,
            is_params: 32 <= h.nal_unit_type <= 34,
        },
        _ => none,
    }
}

/// The class of a NAL unit of the given codec.
pub fn classify_nal(codec: VideoCodec, header: Option<NalHeader>) -> (c: NalClass)
    ensures
        c == nal_class(codec, header),
{
    match (codec, header) {
        (VideoCodec::H264, Some(h)) => {
            let t: u8 = h.nal_unit_type;
            NalClass {
                nal_type: t as usize,
                is_irap: t == 5,
                is_au_delimiter: t == 9,
                is_slice: 1 <= t && t <= 5,
                is_params: t == 7 || t == 8,
            }
        },
        (VideoCodec::H265, Some(h)) => {
            let t: u8 = h.nal_unit_type;
            NalClass {
                nal_type: t as usize,
                is_irap: 16 <= t && t <= 23,
                is_au_delimiter: t == 38,
                is_slice: t <= 31,
                is_params: 32 <= t && t <= 34,
            }
        },
        _ => NalClass {
            nal_type: 0,
            is_irap: false,
            is_au_delimiter: false,
            is_slice: false,
            is_params: false,
        },
    }
}

/// A NAL unit is at most one of a delimiter, a parameter set and a slice, and a
/// random access point is always a slice.
pub proof fn law_nal_classes_exclude_each_other(codec: VideoCodec, header: Option<NalHeader>)
    ensures
        ({
            let c = nal_class(codec, header);
            &&& !(c.is_au_delimiter && c.is_params)
            &&& !(c.is_au_delimiter && c.is_slice)
            &&& !(c.is_params && c.is_slice)
            &&& c.is_irap ==> c.is_slice
        }),
{
}

// ---------------------------------------------------------------------------
// Parameter sets
// ---------------------------------------------------------------------------

/// The parameter sets that a parser found in one H.264 NAL unit.
#[derive(Debug, Clone)]
pub struct ParsedH264Sets {
    pub sps: Option<H264Sps>,
    pub pps: Option<H264Pps>,
}

/// The parameter sets that a parser found in one H.265 NAL unit.
#[derive(Debug, Clone)]
pub struct ParsedH265Sets {
    pub vps: Option<H265Vps>,
    pub sps: Option<H265Sps>,
    pub pps: Option<H265Pps>,
}

/// What is reported of H.264 parameter sets: those whose number is new, nothing
/// where none is.
pub open spec fn new_h264_sets(
    nal_len: nat,
    parsed: Option<ParsedH264Sets>,
    seen_sps_ids: Set<u32>,
    seen_pps_ids: Set<u32>,
) -> Option<InBandParameterSet> {
    match parsed {
        Some(p) => {
            let sps = match p.sps {
                Some(s) if !seen_sps_ids.contains(s.seq_parameter_set_id) => Some(
                    H264OrH265Sps::H264(s),
                ),
                _ => None,
            };
            let pps = match p.pps {
                Some(s) if !seen_pps_ids.contains(s.pic_parameter_set_id) => Some(
                    H264OrH265Pps::H264(s),
                ),
                _ => None,
            };
            if nal_len > 0 && (sps is Some || pps is Some) {
                Some(InBandParameterSet { vps: None, sps, pps })
            } else {
                None
            }
        },
        None => None,
    }
}

/// What is reported of H.265 parameter sets: those whose number is new, nothing
/// where none is.
pub open spec fn new_h265_sets(
    nal_len: nat,
    parsed: Option<ParsedH265Sets>,
    seen_vps_ids: Set<u32>,
    seen_sps_ids: Set<u32>,
    seen_pps_ids: Set<u32>,
) -> Option<InBandParameterSet> {
    match parsed {
        Some(p) => {
            let vps = match p.vps {
                Some(s) if !seen_vps_ids.contains(s.vps_video_parameter_set_id as u32) => Some(
                    H265VpsOpt::H265(s),
                ),
                _ => None,
            };
            let sps = match p.sps {
                Some(s) if !seen_sps_ids.contains(s.sps_seq_parameter_set_id) => Some(
                    H264OrH265Sps::H265(s),
                ),
                _ => None,
            };
            let pps = match p.pps {
                Some(s) if !seen_pps_ids.contains(s.pps_pic_parameter_set_id) => Some(
                    H264OrH265Pps::H265(s),
                ),
                _ => None,
            };
            if nal_len > 0 && (vps is Some || sps is Some || pps is Some) {
                Some(InBandParameterSet { vps, sps, pps })
            } else {
                None
            }
        },
        None => None,
    }
}

/// Keeps the H.264 parameter sets of a NAL unit whose numbers are new.
/// `parsed` is what the parser found in the unit, nothing where it found no
/// parameter set.
pub fn parse_h264_inband_params(
    nal_data: &[u8],
    parsed: Option<ParsedH264Sets>,
    seen_sps_ids: &HashSet<u32>,
    seen_pps_ids: &HashSet<u32>,
) -> (r: Option<InBandParameterSet>)
    ensures
        r == new_h264_sets(nal_data@.len(), parsed, seen_sps_ids@, seen_pps_ids@),
{
    if nal_data.len() == 0 {
        return None;
    }
    match parsed {
        Some(p) => {
            let mut sps: Option<H264OrH265Sps> = None;
            let mut pps: Option<H264OrH265Pps> = None;
            if let Some(s) = p.sps {
                if !seen_sps_ids.contains(&s.seq_parameter_set_id) {
                    sps = Some(H264OrH265Sps::H264(s));
                }
            }
            if let Some(s) = p.pps {
                if !seen_pps_ids.contains(&s.pic_parameter_set_id) {
                    pps = Some(H264OrH265Pps::H264(s));
                }
            }
            if sps.is_some() || pps.is_some() {
                Some(InBandParameterSet { vps: None, sps, pps })
            } else {
                None
            }
        },
        None => None,
    }
}

/// Keeps the H.265 parameter sets of a NAL unit whose numbers are new.
/// `parsed` is what the parser found in the unit, nothing where it found no
/// parameter set.
pub fn parse_h265_inband_params(
    nal_data: &[u8],
    parsed: Option<ParsedH265Sets>,
    seen_vps_ids: &HashSet<u32>,
    seen_sps_ids: &HashSet<u32>,
    seen_pps_ids: &HashSet<u32>,
) -> (r: Option<InBandParameterSet>)
    ensures
        r == new_h265_sets(
            nal_data@.len(),
            parsed,
            seen_vps_ids@,
            seen_sps_ids@,
            seen_pps_ids@,
        ),
{
    if nal_data.len() == 0 {
        return None;
    }
    match parsed {
        Some(p) => {
            let mut vps: Option<H265VpsOpt> = None;
            let mut sps: Option<H264OrH265Sps> = None;
            let mut pps: Option<H264OrH265Pps> = None;
            if let Some(s) = p.vps {
                let id: u32 = s.vps_video_parameter_set_id as u32;
                if !seen_vps_ids.contains(&id) {
                    vps = Some(H265VpsOpt::H265(s));
                }
            }
            if let Some(s) = p.sps {
                if !seen_sps_ids.contains(&s.sps_seq_parameter_set_id) {
                    sps = Some(H264OrH265Sps::H265(s));
                }
            }
            if let Some(s) = p.pps {
                if !seen_pps_ids.contains(&s.pps_pic_parameter_set_id) {
                    pps = Some(H264OrH265Pps::H265(s));
                }
            }
            if vps.is_some() || sps.is_some() || pps.is_some() {
                Some(InBandParameterSet { vps, sps, pps })
            } else {
                None
            }
        },
        None => None,
    }
}

// ---------------------------------------------------------------------------
// Marking commands
// ---------------------------------------------------------------------------

/// The command that a marking entry stands for; an unknown operation is none.
pub open spec fn mmco_of(e: DecRefPicMarking) -> Option<H264MmcoCommand> {
    let op = e.memory_management_control_operation;
    if op == 1 {
        Some(H264MmcoCommand::UnmarkShortTerm { difference_of_pic_nums_minus1: e.value })
    } else if op == 2 {
        Some(H264MmcoCommand::UnmarkLongTerm { long_term_frame_idx: e.value })
    } else if op == 3 {
        Some(
            H264MmcoCommand::AssignLongTerm {
                difference_of_pic_nums_minus1: e.value,
                long_term_frame_idx: 0,
            },
        )
    } else if op == 4 {
        Some(H264MmcoCommand::SetMaxLongTermFrameIdx { max_long_term_frame_idx_plus1: e.value })
    } else if op == 5 {
        Some(H264MmcoCommand::UnmarkAll)
    } else if op == 6 {
        Some(H264MmcoCommand::AssignLongTermToCurrent { long_term_frame_idx: e.value })
    } else {
        None
    }
}

/// The commands of a list of marking entries, in order.
pub open spec fn mmcos_of(entries: Seq<DecRefPicMarking>) -> Seq<H264MmcoCommand>
    decreases entries.len(),
{
    if entries.len() == 0 {
        Seq::empty()
    } else {
        let rest = mmcos_of(entries.drop_last());
        match mmco_of(entries.last()) {
            Some(c) => rest.push(c),
            None => rest,
        }
    }
}

/// The commands of a list of marking entries, in order.
pub fn convert_mmco_commands(entries: &Vec<DecRefPicMarking>) -> (r: Vec<H264MmcoCommand>)
    ensures
        r@ == mmcos_of(entries@),
{
    let mut r: Vec<H264MmcoCommand> = Vec::new();
    let mut i: usize = 0;
    while i < entries.len()
        invariant
            i <= entries@.len(),
            r@ == mmcos_of(entries@.take(i as int)),
        decreases entries@.len() - i,
    {
        let e: DecRefPicMarking = entries[i];
        proof {
            assert(entries@.take(i + 1).drop_last() =~= entries@.take(i as int));
        }
        match e.memory_management_control_operation {
            1 => r.push(
                H264MmcoCommand::UnmarkShortTerm { difference_of_pic_nums_minus1: e.value },
            ),
            2 => r.push(H264MmcoCommand::UnmarkLongTerm { long_term_frame_idx: e.value }),
            3 => r.push(
                H264MmcoCommand::AssignLongTerm {
                    difference_of_pic_nums_minus1: e.value,
                    long_term_frame_idx: 0,
                },
            ),
            4 => r.push(
                H264MmcoCommand::SetMaxLongTermFrameIdx { max_long_term_frame_idx_plus1: e.value },
            ),
            5 => r.push(H264MmcoCommand::UnmarkAll),
            6 => r.push(H264MmcoCommand::AssignLongTermToCurrent { long_term_frame_idx: e.value }),
            _ => {},
        }
        i = i + 1;
    }
    assert(entries@.take(i as int) =~= entries@);
    r
}

/// The entry by which a command is written.
pub open spec fn marking_of(cmd: H264MmcoCommand) -> DecRefPicMarking {
    match cmd {
        H264MmcoCommand::UnmarkShortTerm { difference_of_pic_nums_minus1 } => DecRefPicMarking {
            memory_management_control_operation: 1,
            value: difference_of_pic_nums_minus1,
        },
        H264MmcoCommand::UnmarkLongTerm { long_term_frame_idx } => DecRefPicMarking {
            memory_management_control_operation: 2,
            value: long_term_frame_idx,
        },
        H264MmcoCommand::AssignLongTerm { difference_of_pic_nums_minus1, .. } => DecRefPicMarking {
            memory_management_control_operation: 3,
            value: difference_of_pic_nums_minus1,
        },
        H264MmcoCommand::SetMaxLongTermFrameIdx { max_long_term_frame_idx_plus1 } => DecRefPicMarking {
            memory_management_control_operation: 4,
            value: max_long_term_frame_idx_plus1,
        },
        H264MmcoCommand::UnmarkAll => DecRefPicMarking {
            memory_management_control_operation: 5,
            value: 0,
        },
        H264MmcoCommand::AssignLongTermToCurrent { long_term_frame_idx } => DecRefPicMarking {
            memory_management_control_operation: 6,
            value: long_term_frame_idx,
        },
    }
}

/// Commands that were written as marking entries come back, in order. The entry that
/// assigns a long-term number to a frame has no room for the number, which is zero.
pub proof fn law_commands_come_back(cmds: Seq<H264MmcoCommand>)
    requires
        forall|i: int|
            0 <= i < cmds.len() ==> (#[trigger] cmds[i] matches H264MmcoCommand::AssignLongTerm {
                long_term_frame_idx,
                ..
            } ==> long_term_frame_idx == 0),
    ensures
        mmcos_of(cmds.map_values(|c: H264MmcoCommand| marking_of(c))) == cmds,
    decreases cmds.len(),
{
    let all = cmds.map_values(|c: H264MmcoCommand| marking_of(c));
    if cmds.len() > 0 {
        let rest = cmds.drop_last();
        assert forall|i: int| 0 <= i < rest.len() implies (
        #[trigger] rest[i] matches H264MmcoCommand::AssignLongTerm { long_term_frame_idx, .. }
            ==> long_term_frame_idx == 0) by {
            assert(cmds[i] == rest[i]);
        }
        law_commands_come_back(rest);
        assert(all.drop_last() =~= rest.map_values(|c: H264MmcoCommand| marking_of(c)));
        let last = cmds[cmds.len() - 1];
        assert(all.last() == marking_of(last));
        assert(mmco_of(marking_of(last)) == Some(last));
        assert(rest.push(last) =~= cmds);
    } else {
        assert(mmcos_of(all) =~= cmds);
    }
}

/// An entry whose operation is not one of the six stands for no command.
pub proof fn law_unknown_operations_are_passed_over(
    entries: Seq<DecRefPicMarking>,
    e: DecRefPicMarking,
)
    requires
        e.memory_management_control_operation == 0 || e.memory_management_control_operation > 6,
    ensures
        mmcos_of(entries.push(e)) == mmcos_of(entries),
{
    assert(entries.push(e).drop_last() =~= entries);
}

/// The types of NAL units: an H.264 slice has a type from 1 to 5 and is a random access
/// point if it is 5; 7 and 8 are parameter sets, and 9 is a delimiter. An H.265 slice has
/// a type up to 31 and is a random access point from 16 to 23; 32 to 34 are parameter
/// sets, and 38 is a delimiter.
pub proof fn law_nal_types(h: NalHeader)
    ensures
        ({
            let t = h.nal_unit_type;
            let c = nal_class(VideoCodec::H264, Some(h));
            &&& c.nal_type == t
            &&& c.is_slice <==> t == 1 || t == 2 || t == 3 || t == 4 || t == 5
            &&& c.is_irap <==> t == 5
            &&& c.is_params <==> t == 7 || t == 8
            &&& c.is_au_delimiter <==> t == 9
        }),
        ({
            let t = h.nal_unit_type;
            let c = nal_class(VideoCodec::H265, Some(h));
            &&& c.nal_type == t
            &&& c.is_slice <==> t < 32
            &&& c.is_irap <==> 16 <= t && t < 24
            &&& c.is_params <==> t == 32 || t == 33 || t == 34
            &&& c.is_au_delimiter <==> t == 38
        }),
{
}

/// An H.264 parameter set in the stream is reported exactly where its number is new.
pub proof fn law_new_h264_sets_are_reported(
    sps: Option<H264Sps>,
    pps: Option<H264Pps>,
    seen_sps_ids: Set<u32>,
    seen_pps_ids: Set<u32>,
    nal_len: nat,
)
    requires
        nal_len > 0,
    ensures
        ({
            let r = new_h264_sets(
                nal_len,
                Some(ParsedH264Sets { sps, pps }),
                seen_sps_ids,
                seen_pps_ids,
            );
            let new_sps = sps matches Some(s) && !seen_sps_ids.contains(s.seq_parameter_set_id);
            let new_pps = pps matches Some(p) && !seen_pps_ids.contains(p.pic_parameter_set_id);
            &&& r is Some <==> new_sps || new_pps
            &&& r matches Some(ps) ==> {
                &&& ps.vps is None
                &&& if new_sps {
                    ps.sps == Some(H264OrH265Sps::H264(sps->0))
                } else {
                    ps.sps is None
                }
                &&& if new_pps {
                    ps.pps == Some(H264OrH265Pps::H264(pps->0))
                } else {
                    ps.pps is None
                }
            }
        }),
{
}

/// An H.265 parameter set in the stream is reported exactly where its number is new.
pub proof fn law_new_h265_sets_are_reported(
    vps: Option<H265Vps>,
    sps: Option<H265Sps>,
    pps: Option<H265Pps>,
    seen_vps_ids: Set<u32>,
    seen_sps_ids: Set<u32>,
    seen_pps_ids: Set<u32>,
    nal_len: nat,
)
    requires
        nal_len > 0,
    ensures
        ({
            let r = new_h265_sets(
                nal_len,
                Some(ParsedH265Sets { vps, sps, pps }),
                seen_vps_ids,
                seen_sps_ids,
                seen_pps_ids,
            );
            let new_vps = vps matches Some(v) && !seen_vps_ids.contains(
                v.vps_video_parameter_set_id as u32,
            );
            let new_sps = sps matches Some(s) && !seen_sps_ids.contains(s.sps_seq_parameter_set_id);
            let new_pps = pps matches Some(p) && !seen_pps_ids.contains(p.pps_pic_parameter_set_id);
            &&& r is Some <==> new_vps || new_sps || new_pps
            &&& r matches Some(ps) ==> {
                &&& if new_vps {
                    ps.vps == Some(H265VpsOpt::H265(vps->0))
                } else {
                    ps.vps is None
                }
                &&& if new_sps {
                    ps.sps == Some(H264OrH265Sps::H265(sps->0))
                } else {
                    ps.sps is None
                }
                &&& if new_pps {
                    ps.pps == Some(H264OrH265Pps::H265(pps->0))
                } else {
                    ps.pps is None
                }
            }
        }),
{
}

} // verus!
