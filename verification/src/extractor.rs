//! The state machine that gathers NAL units into access units.

use crate::access_unit::{
    classify_nal, convert_mmco_commands, items_view, mmcos_of, nal_class, new_h264_sets,
    new_h265_sets, parse_h264_inband_params, parse_h265_inband_params, slice_view, AccessUnit,
    AccessUnitView, ExtractedItem, H264MmcoCommand, H264OrH265Pps, H264OrH265Sps, H265VpsOpt,
    InBandParameterSet, ItemView, NalClass, NalHeader, ParsedH264Sets, ParsedH265Sets, VideoCodec,
};
use crate::bits::bit_len;
use crate::parameter_sets::{DecRefPicMarking, H264Pps, H264Sps, H265Pps, H265Sps, SliceHeader};
use crate::slice_header::{
    continues_picture, goes_on_with_picture, is_idr_type, is_irap, parse_h265_slice_header,
    slice_header, H265SliceHeader, H265SliceHeaderView,
};
use crate::slice_syntax::{law_slices_have_true_order_counts, slice_bits, WrittenSlice};
use crate::syntax::holds;
use std::collections::HashSet;
use vstd::arithmetic::power2::pow2;
use vstd::prelude::*;

verus! {

broadcast use vstd::std_specs::hash::group_hash_axioms;

/// A NAL unit of a bitstream, with what the bitstream parsers found out of it.
#[derive(Debug, Clone)]
pub struct NalUnit {
    /// Where the unit's start code begins.
    pub start: usize,
    /// The length of the start code.
    pub code_len: usize,
    /// Where the next start code begins, if there is one.
    pub next_start: Option<usize>,
    /// The unit's header, if it can be read.
    pub header: Option<NalHeader>,
    /// H.264: the parameter sets in the unit.
    pub h264_sets: Option<ParsedH264Sets>,
    /// H.265: the parameter sets in the unit.
    pub h265_sets: Option<ParsedH265Sets>,
    /// H.264: the slice header, if it can be read.
    pub h264_slice: Option<SliceHeader>,
    /// H.264: the picture order count, if the slice starts a picture.
    pub poc_top: i32,
    /// H.265: the unit behind its two header bytes, without emulation prevention.
    pub payload: Vec<u8>,
}

impl NalUnit {
    /// Where the unit ends in data of the given length.
    pub open spec fn end(&self, len: nat) -> int {
        match self.next_start {
            Some(s) => s as int,
            None => len as int,
        }
    }

    /// The unit lies within data of the given length.
    pub open spec fn wf(&self, len: nat) -> bool {
        &&& self.start + self.code_len <= self.end(len) <= len
        &&& bit_len(self.payload@) <= usize::MAX
    }

    /// The unit's bytes behind its start code.
    pub open spec fn bytes(&self, data: Seq<u8>) -> Seq<u8> {
        data.subrange(self.start + self.code_len, self.end(data.len()))
    }
}

/// What the extraction has so far, as a mathematical value.
pub struct ExtractorView {
    pub codec: VideoCodec,
    pub items: Seq<ItemView>,
    pub current: AccessUnitView,
    pub in_frame: bool,
    pub prev_frame_num: u32,
    pub prev_pic_order_cnt_lsb: i32,
    pub prev_pic_order_cnt_msb: i32,
    pub seen_h264_sps_ids: Set<u32>,
    pub seen_h264_pps_ids: Set<u32>,
    pub seen_h265_vps_ids: Set<u32>,
    pub seen_h265_sps_ids: Set<u32>,
    pub seen_h265_pps_ids: Set<u32>,
}

/// What the extraction has so far.
pub struct AccessUnitExtractor {
    pub codec: VideoCodec,
    pub items: Vec<ExtractedItem>,
    pub current: AccessUnit,
    pub in_frame: bool,
    pub prev_frame_num: u32,
    pub prev_pic_order_cnt_lsb: i32,
    pub prev_pic_order_cnt_msb: i32,
    pub seen_h264_sps_ids: HashSet<u32>,
    pub seen_h264_pps_ids: HashSet<u32>,
    pub seen_h265_vps_ids: HashSet<u32>,
    pub seen_h265_sps_ids: HashSet<u32>,
    pub seen_h265_pps_ids: HashSet<u32>,
}

impl View for AccessUnitExtractor {
    type V = ExtractorView;

    open spec fn view(&self) -> ExtractorView {
        ExtractorView {
            codec: self.codec,
            items: items_view(self.items@),
            current: self.current@,
            in_frame: self.in_frame,
            prev_frame_num: self.prev_frame_num,
            prev_pic_order_cnt_lsb: self.prev_pic_order_cnt_lsb,
            prev_pic_order_cnt_msb: self.prev_pic_order_cnt_msb,
            seen_h264_sps_ids: self.seen_h264_sps_ids@,
            seen_h264_pps_ids: self.seen_h264_pps_ids@,
            seen_h265_vps_ids: self.seen_h265_vps_ids@,
            seen_h265_sps_ids: self.seen_h265_sps_ids@,
            seen_h265_pps_ids: self.seen_h265_pps_ids@,
        }
    }
}

// ---------------------------------------------------------------------------
// The steps of the extraction
// ---------------------------------------------------------------------------

/// The access unit that extraction starts from.
pub open spec fn blank_unit() -> AccessUnitView {
    AccessUnitView {
        data: Seq::empty(),
        slice_offsets: Seq::empty(),
        frame_num: 0,
        pic_order_cnt: seq![0i32, 0i32],
        is_idr: false,
        is_reference: true,
        slice_type: 0,
        h264_slice: None,
        num_bits_for_st_ref_pic_set_in_slice: 0,
        num_delta_pocs_of_ref_rps_idx: 0,
        short_term_ref_pic_set_sps_flag: true,
        ref_pocs: Seq::empty(),
        long_term_pocs: Seq::empty(),
        adaptive_ref_pic_marking_mode_flag: false,
        mmco_commands: Seq::empty(),
        no_output_of_prior_pics_flag: false,
    }
}

/// The extraction before the first NAL unit: the given parameter sets are known.
pub open spec fn initial(
    codec: VideoCodec,
    sps: Option<H264OrH265Sps>,
    pps: Option<H264OrH265Pps>,
) -> ExtractorView {
    ExtractorView {
        codec,
        items: Seq::empty(),
        current: blank_unit(),
        in_frame: false,
        prev_frame_num: 0,
        prev_pic_order_cnt_lsb: 0,
        prev_pic_order_cnt_msb: 0,
        seen_h264_sps_ids: match sps {
            Some(H264OrH265Sps::H264(s)) => set![s.seq_parameter_set_id],
            _ => Set::empty(),
        },
        seen_h264_pps_ids: match pps {
            Some(H264OrH265Pps::H264(p)) => set![p.pic_parameter_set_id],
            _ => Set::empty(),
        },
        seen_h265_vps_ids: Set::empty(),
        seen_h265_sps_ids: match sps {
            Some(H264OrH265Sps::H265(s)) => set![s.sps_seq_parameter_set_id],
            _ => Set::empty(),
        },
        seen_h265_pps_ids: match pps {
            Some(H264OrH265Pps::H265(p)) => set![p.pps_pic_parameter_set_id],
            _ => Set::empty(),
        },
    }
}

/// Closes the access unit under construction, if it holds anything.
pub open spec fn flushed(s: ExtractorView) -> ExtractorView {
    if s.in_frame && s.current.data.len() > 0 {
        ExtractorView {
            items: s.items.push(ItemView::AccessUnit(s.current)),
            current: AccessUnitView {
                data: Seq::empty(),
                slice_offsets: Seq::empty(),
                mmco_commands: Seq::empty(),
                ..s.current
            },
            ..s
        }
    } else {
        s
    }
}

/// Appends a slice, behind a start code of three bytes.
pub open spec fn appended(s: ExtractorView, nal: Seq<u8>) -> ExtractorView {
    ExtractorView {
        current: AccessUnitView {
            data: s.current.data + seq![0u8, 0u8, 1u8] + nal,
            slice_offsets: s.current.slice_offsets.push(s.current.data.len() as u32),
            ..s.current
        },
        ..s
    }
}

/// Reports parameter sets and remembers their numbers.
pub open spec fn reported(s: ExtractorView, ps: InBandParameterSet) -> ExtractorView {
    ExtractorView {
        items: s.items.push(ItemView::ParameterSet(ps)),
        seen_h264_sps_ids: match ps.sps {
            Some(H264OrH265Sps::H264(x)) => s.seen_h264_sps_ids.insert(x.seq_parameter_set_id),
            _ => s.seen_h264_sps_ids,
        },
        seen_h265_sps_ids: match ps.sps {
            Some(H264OrH265Sps::H265(x)) => s.seen_h265_sps_ids.insert(x.sps_seq_parameter_set_id),
            _ => s.seen_h265_sps_ids,
        },
        seen_h264_pps_ids: match ps.pps {
            Some(H264OrH265Pps::H264(x)) => s.seen_h264_pps_ids.insert(x.pic_parameter_set_id),
            _ => s.seen_h264_pps_ids,
        },
        seen_h265_pps_ids: match ps.pps {
            Some(H264OrH265Pps::H265(x)) => s.seen_h265_pps_ids.insert(x.pps_pic_parameter_set_id),
            _ => s.seen_h265_pps_ids,
        },
        seen_h265_vps_ids: match ps.vps {
            Some(H265VpsOpt::H265(x)) => s.seen_h265_vps_ids.insert(
                x.vps_video_parameter_set_id as u32,
            ),
            None => s.seen_h265_vps_ids,
        },
        ..s
    }
}

/// Whether an H.264 slice starts a picture: nothing is under construction, it
/// holds the first macroblock, its frame number differs from that of the picture under
/// construction, or it is no IDR slice where the picture is.
pub open spec fn h264_starts_picture(
    s: ExtractorView,
    nal_unit_type: u8,
    first_mb_in_slice: u32,
    frame_num: u32,
) -> bool {
    ||| !s.in_frame
    ||| s.current.slice_offsets.len() == 0
    ||| first_mb_in_slice == 0
    ||| frame_num != s.current.frame_num
    ||| s.current.is_idr && nal_unit_type != 5
}

/// Starts an H.264 picture.
pub open spec fn h264_started(
    s: ExtractorView,
    header: NalHeader,
    slice: SliceHeader,
    poc_top: i32,
) -> ExtractorView {
    let f = flushed(s);
    let mmco = mmcos_of(slice.dec_ref_pic_marking@);
    ExtractorView {
        current: AccessUnitView {
            is_idr: header.nal_unit_type == 5,
            is_reference: header.ref_idc != 0,
            frame_num: slice.frame_num,
            pic_order_cnt: seq![poc_top, poc_top],
            slice_type: slice.slice_type,
            adaptive_ref_pic_marking_mode_flag: mmco.len() > 0,
            mmco_commands: mmco,
            h264_slice: Some(slice@),
            no_output_of_prior_pics_flag: slice.no_output_of_prior_pics_flag,
            ..f.current
        },
        in_frame: true,
        ..f
    }
}

/// Takes in an H.264 slice. Without a sequence parameter set or a readable slice
/// header no picture can start with it.
pub open spec fn h264_sliced(
    s: ExtractorView,
    nal: NalUnit,
    bytes: Seq<u8>,
    has_sps: bool,
) -> ExtractorView {
    let begun = match (nal.header, nal.h264_slice) {
        (Some(h), Some(slice)) if has_sps && h264_starts_picture(
            s,
            h.nal_unit_type,
            slice.first_mb_in_slice,
            slice.frame_num,
        ) => h264_started(s, h, slice, nal.poc_top),
        _ => s,
    };
    appended(begun, bytes)
}

/// Takes over what an H.265 slice header says of the picture that it starts.
pub open spec fn h265_header_taken(
    s: ExtractorView,
    header: NalHeader,
    slice: H265SliceHeaderView,
) -> ExtractorView {
    let f = flushed(s);
    let t = header.nal_unit_type;
    let keeps_poc = header.temporal_id_plus1 == 1 && t != 22 && t != 23 && !(t < 16 && t % 2 == 0);
    ExtractorView {
        current: AccessUnitView {
            is_idr: slice.is_idr,
            is_reference: slice.is_reference,
            pic_order_cnt: slice.pic_order_cnt,
            slice_type: slice.slice_type,
            num_bits_for_st_ref_pic_set_in_slice: slice.num_bits_for_st_ref_pic_set_in_slice,
            num_delta_pocs_of_ref_rps_idx: slice.num_delta_pocs_of_ref_rps_idx,
            short_term_ref_pic_set_sps_flag: slice.short_term_ref_pic_set_sps_flag,
            ref_pocs: slice.ref_pocs,
            long_term_pocs: slice.long_term_pocs,
            no_output_of_prior_pics_flag: slice.no_output_of_prior_pics_flag,
            frame_num: s.prev_frame_num.wrapping_add(1),
            ..f.current
        },
        prev_frame_num: s.prev_frame_num.wrapping_add(1),
        prev_pic_order_cnt_lsb: if keeps_poc {
            slice.pic_order_cnt_lsb
        } else {
            s.prev_pic_order_cnt_lsb
        },
        prev_pic_order_cnt_msb: if keeps_poc {
            slice.pic_order_cnt_msb
        } else {
            s.prev_pic_order_cnt_msb
        },
        in_frame: true,
        ..f
    }
}

/// Starts an H.265 picture from its NAL unit type. The slice type is the one
/// that the slice header gives; without a slice header it follows from the type.
pub open spec fn h265_started(s: ExtractorView, header: NalHeader, has_slice: bool) -> ExtractorView {
    let f = flushed(s);
    let t = header.nal_unit_type;
    let idr = is_idr_type(t);
    let reference = is_irap(t) || t % 2 == 1;
    ExtractorView {
        current: AccessUnitView {
            is_idr: idr,
            is_reference: reference,
            frame_num: f.prev_frame_num.wrapping_add(1),
            slice_type: if has_slice {
                f.current.slice_type
            } else if idr {
                2
            } else if reference {
                1
            } else {
                0
            },
            ..f.current
        },
        prev_frame_num: f.prev_frame_num.wrapping_add(1),
        in_frame: true,
        ..f
    }
}

/// The H.265 slice header of a NAL unit, where both parameter sets are given.
pub open spec fn h265_slice_of(
    s: ExtractorView,
    nal: NalUnit,
    nal_len: nat,
    sps: Option<H264OrH265Sps>,
    pps: Option<H264OrH265Pps>,
) -> Option<H265SliceHeaderView> {
    match (nal.header, sps, pps) {
        (
            Some(h),
            Some(H264OrH265Sps::H265(sps)),
            Some(H264OrH265Pps::H265(pps)),
        ) => slice_header(
            nal_len,
            nal.payload@,
            sps,
            pps,
            h.nal_unit_type,
            s.prev_pic_order_cnt_lsb,
            s.prev_pic_order_cnt_msb,
        ),
        _ => None,
    }
}

/// Whether the slice header of an H.265 NAL unit can be told, and says that the slice
/// goes on with the picture under construction.
pub open spec fn h265_continues(
    nal: NalUnit,
    nal_len: nat,
    sps: Option<H264OrH265Sps>,
    pps: Option<H264OrH265Pps>,
) -> bool {
    &&& sps matches Some(H264OrH265Sps::H265(_))
    &&& pps matches Some(H264OrH265Pps::H265(_))
    &&& goes_on_with_picture(nal_len, nal.payload@)
}

/// Takes in an H.265 slice. One with a readable slice header starts a picture, and
/// so does one that finds nothing under construction. One of a random access point
/// does too, unless its header says that it goes on with a picture.
pub open spec fn h265_sliced(
    s: ExtractorView,
    nal: NalUnit,
    bytes: Seq<u8>,
    sps: Option<H264OrH265Sps>,
    pps: Option<H264OrH265Pps>,
) -> ExtractorView {
    let begun = match nal.header {
        Some(h) => {
            let slice = h265_slice_of(s, nal, bytes.len(), sps, pps);
            match slice {
                Some(v) => h265_started(h265_header_taken(s, h, v), h, true),
                None => if !s.in_frame || s.current.slice_offsets.len() == 0 || (is_irap(
                    h.nal_unit_type,
                ) && !h265_continues(nal, bytes.len(), sps, pps)) {
                    h265_started(s, h, false)
                } else {
                    s
                },
            }
        },
        None => s,
    };
    appended(begun, bytes)
}

/// Takes in one NAL unit.
pub open spec fn stepped(
    s: ExtractorView,
    data: Seq<u8>,
    nal: NalUnit,
    sps: Option<H264OrH265Sps>,
    pps: Option<H264OrH265Pps>,
) -> ExtractorView {
    let bytes = nal.bytes(data);
    let class = nal_class(s.codec, nal.header);
    if bytes.len() == 0 {
        s
    } else if class.is_au_delimiter {
        flushed(s)
    } else if class.is_params {
        let found = if s.codec is H264 {
            new_h264_sets(bytes.len(), nal.h264_sets, s.seen_h264_sps_ids, s.seen_h264_pps_ids)
        } else {
            new_h265_sets(
                bytes.len(),
                nal.h265_sets,
                s.seen_h265_vps_ids,
                s.seen_h265_sps_ids,
                s.seen_h265_pps_ids,
            )
        };
        match found {
            Some(ps) => reported(s, ps),
            None => s,
        }
    } else if class.is_slice {
        if s.codec is H264 {
            h264_sliced(s, nal, bytes, sps matches Some(H264OrH265Sps::H264(_)))
        } else {
            h265_sliced(s, nal, bytes, sps, pps)
        }
    } else {
        s
    }
}

/// Whether extraction goes on: there is data left and there are fewer than twice
/// as many items as frames are wanted.
pub open spec fn goes_on(s: ExtractorView, offset: int, len: nat, max_frames: nat) -> bool {
    offset < len && s.items.len() < 2 * max_frames
}

/// The extraction after the first `n` NAL units, and how far it has come.
pub open spec fn extracted(
    s: ExtractorView,
    data: Seq<u8>,
    max_frames: nat,
    nals: Seq<NalUnit>,
    n: nat,
    sps: Option<H264OrH265Sps>,
    pps: Option<H264OrH265Pps>,
) -> (ExtractorView, int)
    decreases n,
{
    if n == 0 {
        (s, 0)
    } else {
        let (t, offset) = extracted(s, data, max_frames, nals, (n - 1) as nat, sps, pps);
        if goes_on(t, offset, data.len(), max_frames) {
            (stepped(t, data, nals[n - 1], sps, pps), nals[n - 1].end(data.len()))
        } else {
            (t, offset)
        }
    }
}

// ---------------------------------------------------------------------------
// Laws
// ---------------------------------------------------------------------------

/// The bytes of slices behind one another, each behind a start code.
pub open spec fn joined(nals: Seq<Seq<u8>>) -> Seq<u8>
    decreases nals.len(),
{
    if nals.len() == 0 {
        Seq::empty()
    } else {
        joined(nals.drop_last()) + seq![0u8, 0u8, 1u8] + nals.last()
    }
}

/// The places of the start codes in joined slices.
pub open spec fn offsets(nals: Seq<Seq<u8>>) -> Seq<u32>
    decreases nals.len(),
{
    if nals.len() == 0 {
        Seq::empty()
    } else {
        offsets(nals.drop_last()).push(joined(nals.drop_last()).len() as u32)
    }
}

/// An access unit's data are the given slices, and its offsets are their places.
pub open spec fn made_of(au: AccessUnitView, nals: Seq<Seq<u8>>) -> bool {
    au.data == joined(nals) && au.slice_offsets == offsets(nals)
}

/// The bytes are those of one of the units, and that unit is a slice.
pub open spec fn is_slice_of(
    bytes: Seq<u8>,
    codec: VideoCodec,
    data: Seq<u8>,
    units: Seq<NalUnit>,
) -> bool {
    exists|i: int|
        #![trigger units[i]]
        0 <= i < units.len() && nal_class(codec, units[i].header).is_slice && bytes
            == units[i].bytes(data)
}

/// An access unit is made of some slices among the given units.
pub open spec fn framed(
    au: AccessUnitView,
    codec: VideoCodec,
    data: Seq<u8>,
    units: Seq<NalUnit>,
) -> bool {
    exists|nals: Seq<Seq<u8>>| #[trigger]
        made_of(au, nals) && forall|k: int|
            0 <= k < nals.len() ==> is_slice_of(#[trigger] nals[k], codec, data, units)
}

/// Every access unit is made of slices, those that are finished of at least one.
pub open spec fn all_framed(s: ExtractorView, data: Seq<u8>, units: Seq<NalUnit>) -> bool {
    &&& framed(s.current, s.codec, data, units)
    &&& forall|i: int|
        0 <= i < s.items.len() ==> match #[trigger] s.items[i] {
            ItemView::AccessUnit(au) => framed(au, s.codec, data, units) && au.data.len() > 0,
            ItemView::ParameterSet(_) => true,
        }
}

proof fn lemma_blank_is_framed(
    au: AccessUnitView,
    codec: VideoCodec,
    data: Seq<u8>,
    units: Seq<NalUnit>,
)
    requires
        au.data.len() == 0,
        au.slice_offsets.len() == 0,
    ensures
        framed(au, codec, data, units),
{
    let none = Seq::<Seq<u8>>::empty();
    assert(au.data =~= joined(none));
    assert(au.slice_offsets =~= offsets(none));
    assert(made_of(au, none));
}

proof fn lemma_flush_keeps_framed(s: ExtractorView, data: Seq<u8>, units: Seq<NalUnit>)
    requires
        all_framed(s, data, units),
    ensures
        all_framed(flushed(s), data, units),
{
    lemma_blank_is_framed(
        AccessUnitView {
            data: Seq::empty(),
            slice_offsets: Seq::empty(),
            mmco_commands: Seq::empty(),
            ..s.current
        },
        s.codec,
        data,
        units,
    );
}

proof fn lemma_append_keeps_framed(
    s: ExtractorView,
    nal: Seq<u8>,
    data: Seq<u8>,
    units: Seq<NalUnit>,
)
    requires
        all_framed(s, data, units),
        is_slice_of(nal, s.codec, data, units),
    ensures
        all_framed(appended(s, nal), data, units),
{
    let nals = choose|nals: Seq<Seq<u8>>| #[trigger]
        made_of(s.current, nals) && forall|k: int|
            0 <= k < nals.len() ==> is_slice_of(#[trigger] nals[k], s.codec, data, units);
    assert(nals.push(nal).drop_last() =~= nals);
    assert(made_of(appended(s, nal).current, nals.push(nal)));
}

/// Two access units with the same slices are framed alike.
proof fn lemma_framed_by_slices(
    a: AccessUnitView,
    b: AccessUnitView,
    codec: VideoCodec,
    data: Seq<u8>,
    units: Seq<NalUnit>,
)
    requires
        framed(a, codec, data, units),
        a.data == b.data,
        a.slice_offsets == b.slice_offsets,
    ensures
        framed(b, codec, data, units),
{
    let nals = choose|nals: Seq<Seq<u8>>| #[trigger]
        made_of(a, nals) && forall|k: int|
            0 <= k < nals.len() ==> is_slice_of(#[trigger] nals[k], codec, data, units);
    assert(made_of(b, nals));
}

/// Taking in a NAL unit keeps every access unit made of slices alone, each
/// behind a start code to which its offset points.
pub proof fn law_step_keeps_units_framed(
    s: ExtractorView,
    data: Seq<u8>,
    units: Seq<NalUnit>,
    i: int,
    sps: Option<H264OrH265Sps>,
    pps: Option<H264OrH265Pps>,
)
    requires
        all_framed(s, data, units),
        0 <= i < units.len(),
    ensures
        all_framed(stepped(s, data, units[i], sps, pps), data, units),
{
    let nal = units[i];
    let bytes = nal.bytes(data);
    lemma_flush_keeps_framed(s, data, units);
    let f = flushed(s);
    if nal_class(s.codec, nal.header).is_slice {
        assert(is_slice_of(bytes, s.codec, data, units));
        if let Some(h) = nal.header {
            if let Some(slice) = nal.h264_slice {
                let b = h264_started(s, h, slice, nal.poc_top);
                lemma_framed_by_slices(f.current, b.current, s.codec, data, units);
                assert(all_framed(b, data, units));
                lemma_append_keeps_framed(b, bytes, data, units);
            }
            let slice = h265_slice_of(s, nal, bytes.len(), sps, pps);
            if let Some(v) = slice {
                let t = h265_header_taken(s, h, v);
                lemma_framed_by_slices(f.current, t.current, s.codec, data, units);
                assert(all_framed(t, data, units));
                lemma_flush_keeps_framed(t, data, units);
                let b = h265_started(t, h, true);
                lemma_framed_by_slices(flushed(t).current, b.current, s.codec, data, units);
                assert(all_framed(b, data, units));
                lemma_append_keeps_framed(b, bytes, data, units);
            }
            let b = h265_started(s, h, false);
            lemma_framed_by_slices(f.current, b.current, s.codec, data, units);
            assert(all_framed(b, data, units));
            lemma_append_keeps_framed(b, bytes, data, units);
        }
        lemma_append_keeps_framed(s, bytes, data, units);
    }
}

/// The slices of an H.265 picture stay together: one that says that it goes on with
/// the picture under construction joins that picture's access unit, whatever its type.
pub proof fn law_h265_slices_stay_together(
    s: ExtractorView,
    data: Seq<u8>,
    nal: NalUnit,
    sps: Option<H264OrH265Sps>,
    pps: Option<H264OrH265Pps>,
)
    requires
        s.codec is H265,
        nal_class(s.codec, nal.header).is_slice,
        s.in_frame,
        s.current.slice_offsets.len() > 0,
        h265_continues(nal, nal.bytes(data).len(), sps, pps),
    ensures
        stepped(s, data, nal, sps, pps) == appended(s, nal.bytes(data)),
{
}

/// The slices of an H.264 picture stay together: one that does not hold the first
/// macroblock, has the picture's frame number, and is an IDR slice if the picture is,
/// joins the access unit under construction.
pub proof fn law_h264_slices_stay_together(
    s: ExtractorView,
    data: Seq<u8>,
    nal: NalUnit,
    sps: Option<H264OrH265Sps>,
    pps: Option<H264OrH265Pps>,
)
    requires
        s.codec is H264,
        nal_class(s.codec, nal.header).is_slice,
        s.in_frame,
        s.current.slice_offsets.len() > 0,
        nal.bytes(data).len() > 0,
        nal.h264_slice matches Some(h) ==> h.first_mb_in_slice != 0 && h.frame_num
            == s.current.frame_num,
        s.current.is_idr ==> nal.header->0.nal_unit_type == 5,
    ensures
        stepped(s, data, nal, sps, pps) == appended(s, nal.bytes(data)),
{
}

/// Taking in a NAL unit adds at most one item and takes none away.
pub proof fn law_step_adds_at_most_one_item(
    s: ExtractorView,
    data: Seq<u8>,
    nal: NalUnit,
    sps: Option<H264OrH265Sps>,
    pps: Option<H264OrH265Pps>,
)
    ensures
        s.items.is_prefix_of(stepped(s, data, nal, sps, pps).items),
        stepped(s, data, nal, sps, pps).items.len() <= s.items.len() + 1,
{
}

/// What holds of every extraction: each access unit is made of slices of the
/// stream and of nothing else, each behind a start code to which its offset
/// points, and there are at most twice as many items as frames are wanted, and
/// one.
pub proof fn law_extraction_is_framed_and_bounded(
    codec: VideoCodec,
    data: Seq<u8>,
    max_frames: nat,
    nals: Seq<NalUnit>,
    n: nat,
    sps: Option<H264OrH265Sps>,
    pps: Option<H264OrH265Pps>,
)
    requires
        n <= nals.len(),
    ensures
        ({
            let s = extracted(initial(codec, sps, pps), data, max_frames, nals, n, sps, pps).0;
            &&& s.codec == codec
            &&& all_framed(s, data, nals)
            &&& all_framed(flushed(s), data, nals)
            &&& s.items.len() <= 2 * max_frames
            &&& flushed(s).items.len() <= 2 * max_frames + 1
        }),
    decreases n,
{
    if n == 0 {
        lemma_blank_is_framed(blank_unit(), codec, data, nals);
        lemma_flush_keeps_framed(initial(codec, sps, pps), data, nals);
    } else {
        law_extraction_is_framed_and_bounded(
            codec,
            data,
            max_frames,
            nals,
            (n - 1) as nat,
            sps,
            pps,
        );
        let (t, offset) = extracted(
            initial(codec, sps, pps),
            data,
            max_frames,
            nals,
            (n - 1) as nat,
            sps,
            pps,
        );
        law_step_keeps_units_framed(t, data, nals, n - 1, sps, pps);
        law_step_adds_at_most_one_item(t, data, nals[n - 1], sps, pps);
        lemma_flush_keeps_framed(stepped(t, data, nals[n - 1], sps, pps), data, nals);
    }
}

/// The data of the access units among items, one behind the other.
pub open spec fn unit_data(items: Seq<ItemView>) -> Seq<u8>
    decreases items.len(),
{
    if items.len() == 0 {
        Seq::empty()
    } else {
        match items.last() {
            ItemView::AccessUnit(au) => unit_data(items.drop_last()) + au.data,
            ItemView::ParameterSet(_) => unit_data(items.drop_last()),
        }
    }
}

/// The bytes of the slices among the first `n` NAL units, in order. An empty unit is
/// none.
pub open spec fn slices_among(
    codec: VideoCodec,
    data: Seq<u8>,
    nals: Seq<NalUnit>,
    n: nat,
) -> Seq<Seq<u8>>
    decreases n,
{
    if n == 0 {
        Seq::empty()
    } else {
        let rest = slices_among(codec, data, nals, (n - 1) as nat);
        let nal = nals[n - 1];
        if nal.bytes(data).len() > 0 && nal_class(codec, nal.header).is_slice {
            rest.push(nal.bytes(data))
        } else {
            rest
        }
    }
}

/// How many of the first `n` NAL units are taken in before extraction stops.
pub open spec fn taken(
    s: ExtractorView,
    data: Seq<u8>,
    max_frames: nat,
    nals: Seq<NalUnit>,
    n: nat,
    sps: Option<H264OrH265Sps>,
    pps: Option<H264OrH265Pps>,
) -> nat
    decreases n,
{
    if n == 0 {
        0
    } else {
        let (t, offset) = extracted(s, data, max_frames, nals, (n - 1) as nat, sps, pps);
        let before = taken(s, data, max_frames, nals, (n - 1) as nat, sps, pps);
        if goes_on(t, offset, data.len(), max_frames) {
            before + 1
        } else {
            before
        }
    }
}

/// The data of all access units, that under construction included.
pub open spec fn all_data(s: ExtractorView) -> Seq<u8> {
    unit_data(s.items) + s.current.data
}

/// What is under construction in an H.265 stream belongs to a picture.
pub open spec fn is_in_picture(s: ExtractorView) -> bool {
    s.codec is H265 && s.current.data.len() > 0 ==> s.in_frame
}

proof fn lemma_flush_keeps_data(s: ExtractorView)
    ensures
        all_data(flushed(s)) == all_data(s),
{
    let f = flushed(s);
    if s.in_frame && s.current.data.len() > 0 {
        assert(f.items.drop_last() =~= s.items);
        assert(all_data(f) =~= all_data(s));
    }
}

proof fn lemma_append_adds_data(s: ExtractorView, nal: Seq<u8>)
    ensures
        all_data(appended(s, nal)) == all_data(s) + seq![0u8, 0u8, 1u8] + nal,
{
    assert(all_data(appended(s, nal)) =~= all_data(s) + seq![0u8, 0u8, 1u8] + nal);
}

/// Taking in a NAL unit loses nothing: a slice is added behind all data, and any other
/// unit leaves the data as they are.
pub proof fn law_step_loses_nothing(
    s: ExtractorView,
    data: Seq<u8>,
    nal: NalUnit,
    sps: Option<H264OrH265Sps>,
    pps: Option<H264OrH265Pps>,
)
    requires
        is_in_picture(s),
    ensures
        is_in_picture(stepped(s, data, nal, sps, pps)),
        all_data(stepped(s, data, nal, sps, pps)) == if nal.bytes(data).len() > 0 && nal_class(
            s.codec,
            nal.header,
        ).is_slice {
            all_data(s) + seq![0u8, 0u8, 1u8] + nal.bytes(data)
        } else {
            all_data(s)
        },
{
    let bytes = nal.bytes(data);
    let class = nal_class(s.codec, nal.header);
    lemma_flush_keeps_data(s);
    if bytes.len() > 0 && class.is_params && !class.is_au_delimiter {
        let t = stepped(s, data, nal, sps, pps);
        if t.items.len() > s.items.len() {
            assert(t.items.drop_last() =~= s.items);
        }
    }
    if bytes.len() > 0 && class.is_slice {
        lemma_append_adds_data(s, bytes);
        if let Some(h) = nal.header {
            if let Some(slice) = nal.h264_slice {
                lemma_append_adds_data(h264_started(s, h, slice, nal.poc_top), bytes);
            }
            if let Some(v) = h265_slice_of(s, nal, bytes.len(), sps, pps) {
                let t = h265_header_taken(s, h, v);
                lemma_flush_keeps_data(t);
                lemma_append_adds_data(h265_started(t, h, true), bytes);
            }
            lemma_append_adds_data(h265_started(s, h, false), bytes);
        }
    }
}

/// H.265 extraction loses no slice: the data of all access units, one behind the other,
/// are all slices that were taken in, in order, each behind a start code. All NAL units
/// are taken in unless extraction stops, for want of data or for enough items.
pub proof fn law_h265_extraction_loses_no_slice(
    data: Seq<u8>,
    max_frames: nat,
    nals: Seq<NalUnit>,
    n: nat,
    sps: Option<H264OrH265Sps>,
    pps: Option<H264OrH265Pps>,
)
    requires
        n <= nals.len(),
    ensures
        ({
            let start = initial(VideoCodec::H265, sps, pps);
            let (s, offset) = extracted(start, data, max_frames, nals, n, sps, pps);
            let m = taken(start, data, max_frames, nals, n, sps, pps);
            &&& m <= n
            &&& m < n ==> !goes_on(s, offset, data.len(), max_frames)
            &&& unit_data(flushed(s).items) == joined(
                slices_among(VideoCodec::H265, data, nals, m),
            )
        }),
{
    lemma_data_are_slices(VideoCodec::H265, data, max_frames, nals, n, sps, pps);
    let s = extracted(
        initial(VideoCodec::H265, sps, pps),
        data,
        max_frames,
        nals,
        n,
        sps,
        pps,
    ).0;
    lemma_flush_keeps_data(s);
    assert(flushed(s).current.data.len() == 0);
    assert(all_data(flushed(s)) =~= unit_data(flushed(s).items));
}

/// No extraction loses a slice: the data of all access units, that under construction
/// included, are all slices that were taken in, in order, each behind a start code.
pub proof fn law_extraction_loses_no_slice(
    codec: VideoCodec,
    data: Seq<u8>,
    max_frames: nat,
    nals: Seq<NalUnit>,
    n: nat,
    sps: Option<H264OrH265Sps>,
    pps: Option<H264OrH265Pps>,
)
    requires
        n <= nals.len(),
    ensures
        all_data(extracted(initial(codec, sps, pps), data, max_frames, nals, n, sps, pps).0)
            == joined(
            slices_among(
                codec,
                data,
                nals,
                taken(initial(codec, sps, pps), data, max_frames, nals, n, sps, pps),
            ),
        ),
{
    lemma_data_are_slices(codec, data, max_frames, nals, n, sps, pps);
}

#[verifier::rlimit(60)]
proof fn lemma_data_are_slices(
    codec: VideoCodec,
    data: Seq<u8>,
    max_frames: nat,
    nals: Seq<NalUnit>,
    n: nat,
    sps: Option<H264OrH265Sps>,
    pps: Option<H264OrH265Pps>,
)
    requires
        n <= nals.len(),
    ensures
        ({
            let start = initial(codec, sps, pps);
            let (s, offset) = extracted(start, data, max_frames, nals, n, sps, pps);
            let m = taken(start, data, max_frames, nals, n, sps, pps);
            &&& s.codec == codec
            &&& is_in_picture(s)
            &&& m <= n
            &&& m < n ==> !goes_on(s, offset, data.len(), max_frames)
            &&& all_data(s) == joined(slices_among(codec, data, nals, m))
        }),
    decreases n,
{
    let start = initial(codec, sps, pps);
    if n == 0 {
        assert(all_data(start) =~= joined(Seq::<Seq<u8>>::empty()));
    } else {
        let k = (n - 1) as nat;
        lemma_data_are_slices(codec, data, max_frames, nals, k, sps, pps);
        let (t, offset) = extracted(start, data, max_frames, nals, k, sps, pps);
        if goes_on(t, offset, data.len(), max_frames) {
            law_step_loses_nothing(t, data, nals[n - 1], sps, pps);
            let rest = slices_among(codec, data, nals, k);
            let bytes = nals[n - 1].bytes(data);
            assert(rest.push(bytes).drop_last() =~= rest);
        }
    }
}

/// A parameter set is reported only once: after it is reported its number is
/// known, and a later one of that number is not reported.
pub proof fn law_reported_sets_are_new(s: ExtractorView, ps: InBandParameterSet, len: nat)
    ensures
        ps.sps matches Some(H264OrH265Sps::H264(x)) ==> new_h264_sets(
            len,
            Some(ParsedH264Sets { sps: Some(x), pps: None }),
            reported(s, ps).seen_h264_sps_ids,
            reported(s, ps).seen_h264_pps_ids,
        ) is None,
        ps.pps matches Some(H264OrH265Pps::H264(x)) ==> new_h264_sets(
            len,
            Some(ParsedH264Sets { sps: None, pps: Some(x) }),
            reported(s, ps).seen_h264_sps_ids,
            reported(s, ps).seen_h264_pps_ids,
        ) is None,
        ps.sps matches Some(H264OrH265Sps::H265(x)) ==> new_h265_sets(
            len,
            Some(ParsedH265Sets { vps: None, sps: Some(x), pps: None }),
            reported(s, ps).seen_h265_vps_ids,
            reported(s, ps).seen_h265_sps_ids,
            reported(s, ps).seen_h265_pps_ids,
        ) is None,
        ps.pps matches Some(H264OrH265Pps::H265(x)) ==> new_h265_sets(
            len,
            Some(ParsedH265Sets { vps: None, sps: None, pps: Some(x) }),
            reported(s, ps).seen_h265_vps_ids,
            reported(s, ps).seen_h265_sps_ids,
            reported(s, ps).seen_h265_pps_ids,
        ) is None,
        ps.vps matches Some(H265VpsOpt::H265(x)) ==> new_h265_sets(
            len,
            Some(ParsedH265Sets { vps: Some(x), sps: None, pps: None }),
            reported(s, ps).seen_h265_vps_ids,
            reported(s, ps).seen_h265_sps_ids,
            reported(s, ps).seen_h265_pps_ids,
        ) is None,
{
}

/// An H.265 picture becomes the one that the next order count is told from exactly if it
/// is of the lowest temporal layer and not one that its layer does not refer to: of the
/// types below 16 the odd ones, and those from 16 to 21.
pub proof fn law_reference_pictures_anchor_order_counts(
    s: ExtractorView,
    data: Seq<u8>,
    nal: NalUnit,
    sps: Option<H264OrH265Sps>,
    pps: Option<H264OrH265Pps>,
    h: NalHeader,
    v: H265SliceHeaderView,
)
    requires
        s.codec is H265,
        nal.bytes(data).len() > 0,
        nal.header == Some(h),
        h.nal_unit_type < 32,
        h265_slice_of(s, nal, nal.bytes(data).len(), sps, pps) == Some(v),
    ensures
        ({
            let t = h.nal_unit_type;
            let after = stepped(s, data, nal, sps, pps);
            let is_odd = t == 1 || t == 3 || t == 5 || t == 7 || t == 9 || t == 11 || t == 13 || t
                == 15;
            let is_even = t == 0 || t == 2 || t == 4 || t == 6 || t == 8 || t == 10 || t == 12 || t
                == 14;
            &&& h.temporal_id_plus1 == 1 && (is_odd || 16 <= t <= 21 || t >= 24)
                ==> after.prev_pic_order_cnt_lsb == v.pic_order_cnt_lsb
                && after.prev_pic_order_cnt_msb == v.pic_order_cnt_msb
            &&& h.temporal_id_plus1 != 1 || is_even || t == 22 || t == 23 ==> after.prev_pic_order_cnt_lsb
                == s.prev_pic_order_cnt_lsb && after.prev_pic_order_cnt_msb
                == s.prev_pic_order_cnt_msb
        }),
{
}

/// An H.265 picture that begins with a readable slice header is one of its own: what was
/// under construction is finished, and the new access unit has what the header says.
pub proof fn law_h265_headers_start_pictures(
    s: ExtractorView,
    data: Seq<u8>,
    nal: NalUnit,
    sps: Option<H264OrH265Sps>,
    pps: Option<H264OrH265Pps>,
    h: NalHeader,
    v: H265SliceHeaderView,
)
    requires
        s.codec is H265,
        nal.bytes(data).len() > 0,
        nal.header == Some(h),
        h.nal_unit_type < 32,
        h265_slice_of(s, nal, nal.bytes(data).len(), sps, pps) == Some(v),
        s.current.data.len() == 0 <==> s.current.slice_offsets.len() == 0,
    ensures
        ({
            let t = h.nal_unit_type;
            let after = stepped(s, data, nal, sps, pps);
            let au = after.current;
            &&& after.in_frame
            &&& s.in_frame && s.current.data.len() > 0 ==> after.items == s.items.push(
                ItemView::AccessUnit(s.current),
            ) && au.data == seq![0u8, 0u8, 1u8] + nal.bytes(data) && au.slice_offsets == seq![0u32]
            &&& s.current.data.len() == 0 ==> after.items == s.items && au.data == seq![0u8, 0u8, 1u8]
                + nal.bytes(data) && au.slice_offsets == seq![0u32]
            &&& au.pic_order_cnt == v.pic_order_cnt
            &&& au.slice_type == v.slice_type
            &&& au.ref_pocs == v.ref_pocs
            &&& au.long_term_pocs == v.long_term_pocs
            &&& au.num_bits_for_st_ref_pic_set_in_slice == v.num_bits_for_st_ref_pic_set_in_slice
            &&& au.num_delta_pocs_of_ref_rps_idx == v.num_delta_pocs_of_ref_rps_idx
            &&& au.short_term_ref_pic_set_sps_flag == v.short_term_ref_pic_set_sps_flag
            &&& au.no_output_of_prior_pics_flag == v.no_output_of_prior_pics_flag
            &&& au.is_idr == (t == 19 || t == 20)
            &&& au.is_reference == (16 <= t <= 23 || t % 2 == 1)
            &&& s.prev_frame_num < 0xFFFF_FFFE ==> au.frame_num == s.prev_frame_num + 2
                && after.prev_frame_num == au.frame_num
        }),
{
    let t = h265_header_taken(s, h, v);
    let f = h265_started(t, h, true);
    let bytes = nal.bytes(data);
    let after = stepped(s, data, nal, sps, pps);
    assert(after == appended(f, bytes));
    if s.in_frame || s.current.data.len() == 0 {
        assert(f.current.data.len() == 0);
        assert(f.current.data + seq![0u8, 0u8, 1u8] + bytes =~= seq![0u8, 0u8, 1u8] + bytes);
        assert(f.current.slice_offsets.len() == 0);
        assert(f.current.slice_offsets.push(0u32) =~= seq![0u32]);
    }
}

/// An H.265 slice without a readable header starts a picture where nothing is under
/// construction, and one of a random access point without parameter sets always does. It
/// tells its picture by its type; the slice type is 2 for an IDR picture, 1 for another
/// reference picture and 0 for the others.
pub proof fn law_h265_types_start_pictures(
    s: ExtractorView,
    data: Seq<u8>,
    nal: NalUnit,
    sps: Option<H264OrH265Sps>,
    pps: Option<H264OrH265Pps>,
    h: NalHeader,
)
    requires
        s.codec is H265,
        nal.bytes(data).len() > 0,
        nal.header == Some(h),
        h.nal_unit_type < 32,
        h265_slice_of(s, nal, nal.bytes(data).len(), sps, pps) is None,
    ensures
        ({
            let t = h.nal_unit_type;
            let after = stepped(s, data, nal, sps, pps);
            let starts = !s.in_frame || s.current.slice_offsets.len() == 0 || (16 <= t <= 23 && (sps
                is None || pps is None));
            let goes_on = s.in_frame && s.current.slice_offsets.len() > 0 && !(16 <= t <= 23);
            &&& starts ==> {
                &&& after.in_frame
                &&& after.current.is_idr == (t == 19 || t == 20)
                &&& after.current.is_reference == (16 <= t <= 23 || t % 2 == 1)
                &&& after.current.slice_type == (if t == 19 || t == 20 {
                    2u32
                } else if 16 <= t <= 23 || t % 2 == 1 {
                    1
                } else {
                    0
                })
                &&& after.prev_pic_order_cnt_lsb == s.prev_pic_order_cnt_lsb
                &&& after.prev_pic_order_cnt_msb == s.prev_pic_order_cnt_msb
                &&& s.prev_frame_num < u32::MAX ==> after.current.frame_num == s.prev_frame_num + 1
                    && after.prev_frame_num == after.current.frame_num
            }
            &&& starts && s.in_frame && s.current.data.len() > 0 ==> after.items == s.items.push(
                ItemView::AccessUnit(s.current),
            )
            &&& goes_on ==> after.items == s.items && after.current.pic_order_cnt
                == s.current.pic_order_cnt && after.current.is_idr == s.current.is_idr
        }),
{
}

/// An H.264 slice with a readable header starts a picture exactly where nothing is under
/// construction, where it holds the first macroblock, where its frame number is another,
/// or where it is no IDR slice and the picture is an IDR picture. The new access unit has
/// what the header says.
pub proof fn law_h264_headers_start_pictures(
    s: ExtractorView,
    data: Seq<u8>,
    nal: NalUnit,
    sps: H264OrH265Sps,
    pps: Option<H264OrH265Pps>,
    h: NalHeader,
    slice: SliceHeader,
)
    requires
        s.codec is H264,
        sps is H264,
        nal.bytes(data).len() > 0,
        nal.header == Some(h),
        1 <= h.nal_unit_type <= 5,
        nal.h264_slice == Some(slice),
    ensures
        ({
            let after = stepped(s, data, nal, Some(sps), pps);
            let au = after.current;
            let starts = !s.in_frame || s.current.slice_offsets.len() == 0
                || slice.first_mb_in_slice == 0 || slice.frame_num != s.current.frame_num || (
            s.current.is_idr && h.nal_unit_type != 5);
            &&& !starts ==> after.items == s.items && au.pic_order_cnt == s.current.pic_order_cnt
                && au.is_idr == s.current.is_idr && au.frame_num == s.current.frame_num
                && au.slice_offsets.len() == s.current.slice_offsets.len() + 1
            &&& starts && s.in_frame && s.current.data.len() > 0 ==> after.items == s.items.push(
                ItemView::AccessUnit(s.current),
            ) && au.slice_offsets.len() == 1
            &&& starts ==> {
                &&& after.in_frame
                &&& au.is_idr == (h.nal_unit_type == 5)
                &&& au.is_reference == (h.ref_idc != 0)
                &&& au.frame_num == slice.frame_num
                &&& au.pic_order_cnt == seq![nal.poc_top, nal.poc_top]
                &&& au.slice_type == slice.slice_type
                &&& au.h264_slice == Some(slice@)
                &&& au.no_output_of_prior_pics_flag == slice.no_output_of_prior_pics_flag
                &&& au.mmco_commands == mmcos_of(slice.dec_ref_pic_marking@)
                &&& au.adaptive_ref_pic_marking_mode_flag == (au.mmco_commands.len() > 0)
            }
        }),
{
}

/// A delimiter finishes the access unit under construction, and a parameter set leaves it
/// as it is.
pub proof fn law_delimiters_finish_units(
    s: ExtractorView,
    data: Seq<u8>,
    nal: NalUnit,
    sps: Option<H264OrH265Sps>,
    pps: Option<H264OrH265Pps>,
    h: NalHeader,
)
    requires
        s.codec is H264 || s.codec is H265,
        nal.bytes(data).len() > 0,
        nal.header == Some(h),
    ensures
        ({
            let after = stepped(s, data, nal, sps, pps);
            let t = h.nal_unit_type;
            &&& t == (if s.codec is H264 {
                9u8
            } else {
                38
            }) && s.in_frame && s.current.data.len() > 0 ==> after.items == s.items.push(
                ItemView::AccessUnit(s.current),
            ) && after.current.data.len() == 0 && after.current.slice_offsets.len() == 0
            &&& (s.codec is H264 && (t == 7 || t == 8)) || (s.codec is H265 && 32 <= t <= 34)
                ==> after.current == s.current
        }),
{
}

/// The extraction after NAL units, however many items there are.
pub open spec fn all_taken(
    s: ExtractorView,
    data: Seq<u8>,
    nals: Seq<NalUnit>,
    n: nat,
    sps: Option<H264OrH265Sps>,
    pps: Option<H264OrH265Pps>,
) -> ExtractorView
    decreases n,
{
    if n == 0 {
        s
    } else {
        stepped(all_taken(s, data, nals, (n - 1) as nat, sps, pps), data, nals[n - 1], sps, pps)
    }
}

/// The next order count is told from a picture of the given true one.
pub open spec fn is_anchored(s: ExtractorView, cycle: int, count: int) -> bool {
    &&& s.prev_pic_order_cnt_lsb == count % cycle
    &&& s.prev_pic_order_cnt_msb == count - count % cycle
}

/// A NAL unit is the one slice of a trailing reference picture, and holds the low part of
/// the picture's order count.
pub open spec fn is_trailing_picture(
    nal: NalUnit,
    data: Seq<u8>,
    w: WrittenSlice,
    sps: H265Sps,
    pps: H265Pps,
    count: int,
) -> bool {
    &&& nal.bytes(data).len() >= 3
    &&& nal.header matches Some(h) && h.nal_unit_type == 1 && h.temporal_id_plus1 == 1
    &&& w.wf(sps, pps)
    &&& holds(nal.payload@, 0, slice_bits(w, sps, pps, 1))
    &&& w.lsb == count % (pow2((sps.log2_max_pic_order_cnt_lsb_minus4 + 4) as nat) as int)
    &&& -0x4000_0000 <= count < 0x4000_0000
}

/// In a run of trailing reference pictures whose order counts differ by less than half a
/// cycle each, every access unit has its picture's true order count.
///
/// `counts[0]` is the order count of the picture before the run, and `counts[k + 1]` that
/// of the `k`-th picture of the run.
#[verifier::rlimit(60)]
pub proof fn law_runs_have_true_order_counts(
    s: ExtractorView,
    data: Seq<u8>,
    nals: Seq<NalUnit>,
    n: nat,
    written: Seq<WrittenSlice>,
    counts: Seq<int>,
    sps: H265Sps,
    pps: H265Pps,
)
    requires
        s.codec is H265,
        sps.wf(),
        sps.log2_max_pic_order_cnt_lsb_minus4 <= 26,
        n <= nals.len(),
        written.len() == nals.len(),
        counts.len() == nals.len() + 1,
        s.current.data.len() == 0,
        -0x4000_0000 <= counts[0] < 0x4000_0000,
        is_anchored(
            s,
            pow2((sps.log2_max_pic_order_cnt_lsb_minus4 + 4) as nat) as int,
            counts[0],
        ),
        forall|k: int|
            0 <= k < nals.len() ==> is_trailing_picture(
                #[trigger] nals[k],
                data,
                written[k],
                sps,
                pps,
                counts[k + 1],
            ),
        forall|k: int|
            0 <= k < nals.len() ==> {
                let half = pow2((sps.log2_max_pic_order_cnt_lsb_minus4 + 4) as nat) as int / 2;
                -half < counts[k + 1] - #[trigger] counts[k] < half
            },
    ensures
        ({
            let after = all_taken(
                s,
                data,
                nals,
                n,
                Some(H264OrH265Sps::H265(sps)),
                Some(H264OrH265Pps::H265(pps)),
            );
            &&& after.codec is H265
            &&& is_anchored(
                after,
                pow2((sps.log2_max_pic_order_cnt_lsb_minus4 + 4) as nat) as int,
                counts[n as int],
            )
            &&& n > 0 ==> after.in_frame && after.current.data.len() > 0
                && after.current.pic_order_cnt =~= seq![
                counts[n as int] as i32,
                counts[n as int] as i32,
            ]
            &&& n == 0 ==> after == s
            &&& n > 0 ==> after.items.len() == s.items.len() + n - 1
            &&& forall|k: int|
                0 <= k < n - 1 ==> (#[trigger] after.items[s.items.len() + k] matches ItemView::AccessUnit(
                    au,
                ) && au.pic_order_cnt =~= seq![counts[k + 1] as i32, counts[k + 1] as i32])
        }),
    decreases n,
{
    let gs = Some(H264OrH265Sps::H265(sps));
    let gp = Some(H264OrH265Pps::H265(pps));
    if n > 0 {
        let k = (n - 1) as nat;
        law_runs_have_true_order_counts(s, data, nals, k, written, counts, sps, pps);
        let before = all_taken(s, data, nals, k, gs, gp);
        let nal = nals[k as int];
        assert(is_trailing_picture(nal, data, written[k as int], sps, pps, counts[k as int + 1]));
        assert(counts[k as int] == counts[k as int]);
        if k > 0 {
            assert(is_trailing_picture(
                nals[k - 1],
                data,
                written[k - 1],
                sps,
                pps,
                counts[k - 1 + 1],
            ));
        }
        lemma_trailing_picture_is_taken(
            before,
            data,
            nal,
            written[k as int],
            sps,
            pps,
            counts[k as int],
            counts[k as int + 1],
        );
        let after = all_taken(s, data, nals, n, gs, gp);
        assert(after == stepped(before, data, nal, gs, gp));
        if k > 0 {
            assert(after.items == before.items.push(ItemView::AccessUnit(before.current)));
            assert forall|j: int| 0 <= j < n - 1 implies (
            #[trigger] after.items[s.items.len() + j] matches ItemView::AccessUnit(au)
                && au.pic_order_cnt =~= seq![counts[j + 1] as i32, counts[j + 1] as i32]) by {
                if j < k - 1 {
                    assert(after.items[s.items.len() + j] == before.items[s.items.len() + j]);
                } else {
                    assert(after.items[s.items.len() + j] == ItemView::AccessUnit(before.current));
                }
            }
        }
    }
}

/// One more picture of the run is taken in.
#[verifier::rlimit(60)]
proof fn lemma_trailing_picture_is_taken(
    before: ExtractorView,
    data: Seq<u8>,
    nal: NalUnit,
    w: WrittenSlice,
    sps: H265Sps,
    pps: H265Pps,
    prev: int,
    count: int,
)
    requires
        before.codec is H265,
        sps.wf(),
        sps.log2_max_pic_order_cnt_lsb_minus4 <= 26,
        before.current.data.len() > 0 ==> before.in_frame,
        -0x4000_0000 <= prev < 0x4000_0000,
        is_anchored(
            before,
            pow2((sps.log2_max_pic_order_cnt_lsb_minus4 + 4) as nat) as int,
            prev,
        ),
        is_trailing_picture(nal, data, w, sps, pps, count),
        ({
            let half = pow2((sps.log2_max_pic_order_cnt_lsb_minus4 + 4) as nat) as int / 2;
            -half < count - prev < half
        }),
    ensures
        ({
            let after = stepped(
                before,
                data,
                nal,
                Some(H264OrH265Sps::H265(sps)),
                Some(H264OrH265Pps::H265(pps)),
            );
            &&& after.codec is H265
            &&& is_anchored(
                after,
                pow2((sps.log2_max_pic_order_cnt_lsb_minus4 + 4) as nat) as int,
                count,
            )
            &&& after.in_frame
            &&& after.current.data.len() > 0
            &&& after.current.pic_order_cnt == seq![count as i32, count as i32]
            &&& before.current.data.len() > 0 ==> after.items == before.items.push(
                ItemView::AccessUnit(before.current),
            )
            &&& before.current.data.len() == 0 ==> after.items == before.items
        }),
{
    let gs = Some(H264OrH265Sps::H265(sps));
    let gp = Some(H264OrH265Pps::H265(pps));
    let bytes = nal.bytes(data);
    let h = nal.header->0;
    law_slices_have_true_order_counts(bytes.len(), nal.payload@, w, sps, pps, 1, prev, count);
    let v = h265_slice_of(before, nal, bytes.len(), gs, gp)->0;
    assert(h265_slice_of(before, nal, bytes.len(), gs, gp) == Some(v));
    law_reference_pictures_anchor_order_counts(before, data, nal, gs, gp, h, v);
    let t = h265_header_taken(before, h, v);
    let f = h265_started(t, h, true);
    let after = stepped(before, data, nal, gs, gp);
    assert(after == appended(f, bytes));
    assert(after.current.pic_order_cnt == v.pic_order_cnt);
    assert(f.current.data.len() == 0);
    assert(after.current.data.len() > 0);
}

// ---------------------------------------------------------------------------
// The extractor
// ---------------------------------------------------------------------------

fn copy_pocs(v: &Vec<i32>) -> (r: Vec<i32>)
    ensures
        r@ == v@,
{
    let r: Vec<i32> = v.clone();
    assert(r@ =~= v@);
    r
}

fn copy_slice(s: &Option<SliceHeader>) -> (r: Option<SliceHeader>)
    ensures
        slice_view(r) == slice_view(*s),
{
    match s {
        Some(h) => {
            let marking: Vec<DecRefPicMarking> = h.dec_ref_pic_marking.clone();
            assert(marking@ =~= h.dec_ref_pic_marking@);
            Some(
                SliceHeader {
                    first_mb_in_slice: h.first_mb_in_slice,
                    frame_num: h.frame_num,
                    slice_type: h.slice_type,
                    no_output_of_prior_pics_flag: h.no_output_of_prior_pics_flag,
                    dec_ref_pic_marking: marking,
                },
            )
        },
        None => None,
    }
}

impl AccessUnitExtractor {
    /// Starts an extraction in which the given parameter sets are known.
    pub fn new(
        codec: VideoCodec,
        sps: Option<&H264OrH265Sps>,
        pps: Option<&H264OrH265Pps>,
    ) -> (e: AccessUnitExtractor)
        ensures
            e@ == initial(
                codec,
                match sps {
                    Some(s) => Some(*s),
                    None => None,
                },
                match pps {
                    Some(p) => Some(*p),
                    None => None,
                },
            ),
    {
        let mut e = AccessUnitExtractor {
            codec,
            items: Vec::new(),
            current: AccessUnit {
                data: Vec::new(),
                slice_offsets: Vec::new(),
                frame_num: 0,
                pic_order_cnt: [0, 0],
                is_idr: false,
                is_reference: true,
                slice_type: 0,
                h264_slice: None,
                num_bits_for_st_ref_pic_set_in_slice: 0,
                num_delta_pocs_of_ref_rps_idx: 0,
                short_term_ref_pic_set_sps_flag: true,
                ref_pocs: Vec::new(),
                long_term_pocs: Vec::new(),
                adaptive_ref_pic_marking_mode_flag: false,
                mmco_commands: Vec::new(),
                no_output_of_prior_pics_flag: false,
            },
            in_frame: false,
            prev_frame_num: 0,
            prev_pic_order_cnt_lsb: 0,
            prev_pic_order_cnt_msb: 0,
            seen_h264_sps_ids: HashSet::new(),
            seen_h264_pps_ids: HashSet::new(),
            seen_h265_vps_ids: HashSet::new(),
            seen_h265_sps_ids: HashSet::new(),
            seen_h265_pps_ids: HashSet::new(),
        };
        match sps {
            Some(H264OrH265Sps::H264(s)) => {
                e.seen_h264_sps_ids.insert(s.seq_parameter_set_id);
            },
            Some(H264OrH265Sps::H265(s)) => {
                e.seen_h265_sps_ids.insert(s.sps_seq_parameter_set_id);
            },
            None => {},
        }
        match pps {
            Some(H264OrH265Pps::H264(p)) => {
                e.seen_h264_pps_ids.insert(p.pic_parameter_set_id);
            },
            Some(H264OrH265Pps::H265(p)) => {
                e.seen_h265_pps_ids.insert(p.pps_pic_parameter_set_id);
            },
            None => {},
        }
        assert(e@.items =~= Seq::empty());
        assert(e@.current.pic_order_cnt =~= seq![0i32, 0i32]);
        e
    }

    /// Whether extraction goes on from `offset` in data of length `len`.
    pub fn wants_more(&self, offset: usize, len: usize, max_frames: usize) -> (r: bool)
        ensures
            r == goes_on(self@, offset as int, len as nat, max_frames as nat),
    {
        let n: usize = self.items.len();
        offset < len && (n / 2 < max_frames)
    }

    /// Closes the access unit under construction, if it holds anything.
    pub fn flush(&mut self)
        ensures
            final(self)@ == flushed(old(self)@),
    {
        if self.in_frame && self.current.data.len() > 0 {
            let mut data: Vec<u8> = Vec::new();
            let mut slice_offsets: Vec<u32> = Vec::new();
            let mut mmco_commands: Vec<H264MmcoCommand> = Vec::new();
            core::mem::swap(&mut self.current.data, &mut data);
            core::mem::swap(&mut self.current.slice_offsets, &mut slice_offsets);
            core::mem::swap(&mut self.current.mmco_commands, &mut mmco_commands);
            let au = AccessUnit {
                data,
                slice_offsets,
                frame_num: self.current.frame_num,
                pic_order_cnt: self.current.pic_order_cnt,
                is_idr: self.current.is_idr,
                is_reference: self.current.is_reference,
                slice_type: self.current.slice_type,
                h264_slice: copy_slice(&self.current.h264_slice),
                num_bits_for_st_ref_pic_set_in_slice: self.current.num_bits_for_st_ref_pic_set_in_slice,
                num_delta_pocs_of_ref_rps_idx: self.current.num_delta_pocs_of_ref_rps_idx,
                short_term_ref_pic_set_sps_flag: self.current.short_term_ref_pic_set_sps_flag,
                ref_pocs: copy_pocs(&self.current.ref_pocs),
                long_term_pocs: copy_pocs(&self.current.long_term_pocs),
                adaptive_ref_pic_marking_mode_flag: self.current.adaptive_ref_pic_marking_mode_flag,
                mmco_commands,
                no_output_of_prior_pics_flag: self.current.no_output_of_prior_pics_flag,
            };
            assert(au@ == old(self)@.current);
            self.items.push(ExtractedItem::AccessUnit(au));
            assert(self@.items =~= flushed(old(self)@).items);
        }
    }

    /// Appends a slice, behind a start code of three bytes.
    fn append_slice(&mut self, nal: &[u8])
        ensures
            final(self)@ == appended(old(self)@, nal@),
    {
        let slice_offset: usize = self.current.data.len();
        self.current.data.push(0u8);
        self.current.data.push(0u8);
        self.current.data.push(1u8);
        self.current.data.extend_from_slice(nal);
        self.current.slice_offsets.push(slice_offset as u32);
        assert(self@.current.data =~= old(self)@.current.data + seq![0u8, 0u8, 1u8] + nal@);
    }

    /// Reports parameter sets and remembers their numbers.
    fn report(&mut self, ps: InBandParameterSet)
        ensures
            final(self)@ == reported(old(self)@, ps),
    {
        match &ps.sps {
            Some(H264OrH265Sps::H264(s)) => {
                self.seen_h264_sps_ids.insert(s.seq_parameter_set_id);
            },
            Some(H264OrH265Sps::H265(s)) => {
                self.seen_h265_sps_ids.insert(s.sps_seq_parameter_set_id);
            },
            None => {},
        }
        match &ps.pps {
            Some(H264OrH265Pps::H264(p)) => {
                self.seen_h264_pps_ids.insert(p.pic_parameter_set_id);
            },
            Some(H264OrH265Pps::H265(p)) => {
                self.seen_h265_pps_ids.insert(p.pps_pic_parameter_set_id);
            },
            None => {},
        }
        match &ps.vps {
            Some(H265VpsOpt::H265(v)) => {
                self.seen_h265_vps_ids.insert(v.vps_video_parameter_set_id as u32);
            },
            None => {},
        }
        self.items.push(ExtractedItem::ParameterSet(ps));
        assert(self@.items =~= old(self)@.items.push(ItemView::ParameterSet(ps)));
    }

    /// Whether an H.264 slice starts a picture.
    pub fn starts_h264_picture(
        &self,
        nal_unit_type: u8,
        first_mb_in_slice: u32,
        frame_num: u32,
    ) -> (r: bool)
        ensures
            r == h264_starts_picture(self@, nal_unit_type, first_mb_in_slice, frame_num),
    {
        !self.in_frame || self.current.slice_offsets.len() == 0 || first_mb_in_slice == 0
            || frame_num != self.current.frame_num || (self.current.is_idr && nal_unit_type != 5)
    }

    fn start_h264_picture(&mut self, header: NalHeader, slice: SliceHeader, poc_top: i32)
        ensures
            final(self)@ == h264_started(old(self)@, header, slice, poc_top),
    {
        let mmco_commands: Vec<H264MmcoCommand> = convert_mmco_commands(&slice.dec_ref_pic_marking);
        self.flush();
        self.current.is_idr = header.nal_unit_type == 5;
        self.current.is_reference = header.ref_idc != 0;
        self.current.frame_num = slice.frame_num;
        self.current.pic_order_cnt = [poc_top, poc_top];
        self.current.slice_type = slice.slice_type;
        self.current.adaptive_ref_pic_marking_mode_flag = mmco_commands.len() > 0;
        self.current.mmco_commands = mmco_commands;
        self.current.no_output_of_prior_pics_flag = slice.no_output_of_prior_pics_flag;
        self.current.h264_slice = Some(slice);
        self.in_frame = true;
        assert(self@.current.pic_order_cnt =~= seq![poc_top, poc_top]);
    }

    fn take_h265_header(&mut self, header: NalHeader, slice: H265SliceHeader)
        ensures
            final(self)@ == h265_header_taken(old(self)@, header, slice@),
    {
        self.flush();
        self.current.is_idr = slice.is_idr;
        self.current.is_reference = slice.is_reference;
        self.current.pic_order_cnt = slice.pic_order_cnt;
        self.current.slice_type = slice.slice_type;
        self.current.num_bits_for_st_ref_pic_set_in_slice =
        slice.num_bits_for_st_ref_pic_set_in_slice;
        self.current.num_delta_pocs_of_ref_rps_idx = slice.num_delta_pocs_of_ref_rps_idx;
        self.current.short_term_ref_pic_set_sps_flag = slice.short_term_ref_pic_set_sps_flag;
        self.current.ref_pocs = slice.ref_pocs;
        self.current.long_term_pocs = slice.long_term_pocs;
        self.current.no_output_of_prior_pics_flag = slice.no_output_of_prior_pics_flag;
        self.prev_frame_num = self.prev_frame_num.wrapping_add(1);
        self.current.frame_num = self.prev_frame_num;
        let t: u8 = header.nal_unit_type;
        let sub_layer_non_ref: bool = t < 16 && t % 2 == 0;
        if header.temporal_id_plus1 == 1 && t != 22 && t != 23 && !sub_layer_non_ref {
            self.prev_pic_order_cnt_lsb = slice.pic_order_cnt_lsb;
            self.prev_pic_order_cnt_msb = slice.pic_order_cnt_msb;
        }
        self.in_frame = true;
    }

    fn start_h265_picture(&mut self, header: NalHeader, has_slice: bool)
        ensures
            final(self)@ == h265_started(old(self)@, header, has_slice),
    {
        self.flush();
        let t: u8 = header.nal_unit_type;
        let idr: bool = t == 19 || t == 20;
        let reference: bool = (16 <= t && t <= 23) || t % 2 == 1;
        self.current.is_idr = idr;
        self.current.is_reference = reference;
        self.prev_frame_num = self.prev_frame_num.wrapping_add(1);
        self.current.frame_num = self.prev_frame_num;
        if !has_slice {
            self.current.slice_type = if idr {
                2
            } else if reference {
                1
            } else {
                0
            };
        }
        self.in_frame = true;
    }

    fn take_h265_slice(
        &mut self,
        header: NalHeader,
        payload: &Vec<u8>,
        bytes: &[u8],
        sps: Option<&H264OrH265Sps>,
        pps: Option<&H264OrH265Pps>,
        Ghost(nal): Ghost<NalUnit>,
    )
        requires
            bit_len(payload@) <= usize::MAX,
            sps matches Some(H264OrH265Sps::H265(s)) ==> s.wf(),
            nal.header == Some(header),
            nal.payload == *payload,
        ensures
            final(self)@ == h265_sliced(
                old(self)@,
                nal,
                bytes@,
                match sps {
                    Some(s) => Some(*s),
                    None => None,
                },
                match pps {
                    Some(p) => Some(*p),
                    None => None,
                },
            ),
    {
        let t: u8 = header.nal_unit_type;
        let slice: Option<H265SliceHeader> = match (sps, pps) {
            (
                Some(H264OrH265Sps::H265(sps)),
                Some(H264OrH265Pps::H265(pps)),
            ) => parse_h265_slice_header(
                bytes.len(),
                payload.as_slice(),
                sps,
                pps,
                t,
                self.prev_pic_order_cnt_lsb,
                self.prev_pic_order_cnt_msb,
            ),
            _ => None,
        };
        let continues: bool = match (sps, pps) {
            (
                Some(H264OrH265Sps::H265(_)),
                Some(H264OrH265Pps::H265(_)),
            ) => continues_picture(bytes.len(), payload.as_slice()),
            _ => false,
        };
        match slice {
            Some(v) => {
                self.take_h265_header(header, v);
                self.start_h265_picture(header, true);
            },
            None => {
                if !self.in_frame || self.current.slice_offsets.len() == 0 || (16 <= t && t <= 23
                    && !continues) {
                    self.start_h265_picture(header, false);
                }
            },
        }
        self.append_slice(bytes);
    }

    /// Takes in one NAL unit.
    pub fn step(
        &mut self,
        data: &[u8],
        nal: NalUnit,
        sps: Option<&H264OrH265Sps>,
        pps: Option<&H264OrH265Pps>,
    )
        requires
            nal.wf(data@.len()),
            sps matches Some(H264OrH265Sps::H265(s)) ==> s.wf(),
        ensures
            final(self)@ == stepped(
                old(self)@,
                data@,
                nal,
                match sps {
                    Some(s) => Some(*s),
                    None => None,
                },
                match pps {
                    Some(p) => Some(*p),
                    None => None,
                },
            ),
    {
        let end: usize = match nal.next_start {
            Some(s) => s,
            None => data.len(),
        };
        let begin: usize = nal.start + nal.code_len;
        if begin == end {
            return;
        }
        let bytes: &[u8] = vstd::slice::slice_subrange(data, begin, end);
        let class: NalClass = classify_nal(self.codec, nal.header);
        if class.is_au_delimiter {
            self.flush();
        } else if class.is_params {
            let found: Option<InBandParameterSet> = if self.codec == VideoCodec::H264 {
                parse_h264_inband_params(
                    bytes,
                    nal.h264_sets,
                    &self.seen_h264_sps_ids,
                    &self.seen_h264_pps_ids,
                )
            } else {
                parse_h265_inband_params(
                    bytes,
                    nal.h265_sets,
                    &self.seen_h265_vps_ids,
                    &self.seen_h265_sps_ids,
                    &self.seen_h265_pps_ids,
                )
            };
            match found {
                Some(ps) => self.report(ps),
                None => {},
            }
        } else if class.is_slice {
            let ghost whole = nal;
            match nal.header {
                Some(header) => {
                    if self.codec == VideoCodec::H264 {
                        let has_sps: bool = match sps {
                            Some(H264OrH265Sps::H264(_)) => true,
                            _ => false,
                        };
                        match nal.h264_slice {
                            Some(slice) => {
                                if has_sps && self.starts_h264_picture(
                                    header.nal_unit_type,
                                    slice.first_mb_in_slice,
                                    slice.frame_num,
                                ) {
                                    self.start_h264_picture(header, slice, nal.poc_top);
                                }
                            },
                            None => {},
                        }
                        self.append_slice(bytes);
                    } else {
                        self.take_h265_slice(header, &nal.payload, bytes, sps, pps, Ghost(whole));
                    }
                },
                None => {},
            }
        }
    }
}

// ---------------------------------------------------------------------------
// Where H.264 pictures start
// ---------------------------------------------------------------------------

/// What decides whether an H.264 slice starts a picture.
#[derive(Debug, Clone, Copy, PartialEq, Eq, Structural)]
pub struct PictureState {
    pub in_frame: bool,
    pub has_slices: bool,
    pub frame_num: u32,
    pub is_idr: bool,
}

/// What an extraction holds of it.
pub open spec fn picture_state(s: ExtractorView) -> PictureState {
    PictureState {
        in_frame: s.in_frame,
        has_slices: s.current.slice_offsets.len() > 0,
        frame_num: s.current.frame_num,
        is_idr: s.current.is_idr,
    }
}

/// A NAL unit starts an H.264 picture.
pub open spec fn starts_picture(p: PictureState, nal: NalUnit, len: nat, has_sps: bool) -> bool {
    &&& has_sps
    &&& nal.start + nal.code_len < nal.end(len)
    &&& nal_class(VideoCodec::H264, nal.header).is_slice
    &&& nal.h264_slice matches Some(slice) && {
        ||| !p.in_frame
        ||| !p.has_slices
        ||| slice.first_mb_in_slice == 0
        ||| slice.frame_num != p.frame_num
        ||| p.is_idr && nal.header->0.nal_unit_type != 5
    }
}

/// What is known once a NAL unit was taken in.
pub open spec fn picture_state_after(
    p: PictureState,
    nal: NalUnit,
    len: nat,
    has_sps: bool,
) -> PictureState {
    let class = nal_class(VideoCodec::H264, nal.header);
    if nal.start + nal.code_len >= nal.end(len) {
        p
    } else if class.is_au_delimiter {
        PictureState { has_slices: p.has_slices && !p.in_frame, ..p }
    } else if class.is_params || !class.is_slice {
        p
    } else if starts_picture(p, nal, len, has_sps) {
        PictureState {
            in_frame: true,
            has_slices: true,
            frame_num: nal.h264_slice->0.frame_num,
            is_idr: nal.header->0.nal_unit_type == 5,
        }
    } else {
        PictureState { has_slices: true, ..p }
    }
}

/// What is known before the `n`-th NAL unit.
pub open spec fn picture_state_at(
    nals: Seq<NalUnit>,
    n: nat,
    len: nat,
    has_sps: bool,
) -> PictureState
    decreases n,
{
    if n == 0 {
        PictureState { in_frame: false, has_slices: false, frame_num: 0, is_idr: false }
    } else {
        picture_state_after(
            picture_state_at(nals, (n - 1) as nat, len, has_sps),
            nals[n - 1],
            len,
            has_sps,
        )
    }
}

/// An access unit under construction holds data exactly where it holds slices.
pub open spec fn holds_slices(s: ExtractorView) -> bool {
    s.current.data.len() == 0 <==> s.current.slice_offsets.len() == 0
}

proof fn lemma_picture_state_after(
    s: ExtractorView,
    data: Seq<u8>,
    nal: NalUnit,
    sps: Option<H264OrH265Sps>,
    pps: Option<H264OrH265Pps>,
)
    requires
        s.codec == VideoCodec::H264,
        holds_slices(s),
        nal.wf(data.len()),
    ensures
        ({
            let t = stepped(s, data, nal, sps, pps);
            &&& t.codec == VideoCodec::H264
            &&& holds_slices(t)
            &&& picture_state(t) == picture_state_after(
                picture_state(s),
                nal,
                data.len(),
                sps matches Some(H264OrH265Sps::H264(_)),
            )
        }),
{
}

/// Where H.264 pictures start is the same with and without their order counts: as long
/// as extraction goes on, what decides it is what `picture_state_at` says.
#[verifier::rlimit(60)]
pub proof fn law_picture_starts_are_known(
    data: Seq<u8>,
    max_frames: nat,
    nals: Seq<NalUnit>,
    n: nat,
    sps: Option<H264OrH265Sps>,
    pps: Option<H264OrH265Pps>,
)
    requires
        n <= nals.len(),
        forall|i: int| 0 <= i < nals.len() ==> (#[trigger] nals[i]).wf(data.len()),
        forall|k: nat|
            k < n ==> {
                let (s, offset) = #[trigger] extracted(
                    initial(VideoCodec::H264, sps, pps),
                    data,
                    max_frames,
                    nals,
                    k,
                    sps,
                    pps,
                );
                goes_on(s, offset, data.len(), max_frames)
            },
    ensures
        ({
            let s = extracted(
                initial(VideoCodec::H264, sps, pps),
                data,
                max_frames,
                nals,
                n,
                sps,
                pps,
            ).0;
            &&& s.codec == VideoCodec::H264
            &&& holds_slices(s)
            &&& picture_state(s) == picture_state_at(
                nals,
                n,
                data.len(),
                sps matches Some(H264OrH265Sps::H264(_)),
            )
        }),
    decreases n,
{
    if n > 0 {
        let k = (n - 1) as nat;
        law_picture_starts_are_known(data, max_frames, nals, k, sps, pps);
        assert(nals[n - 1].wf(data.len()));
        let s = extracted(initial(VideoCodec::H264, sps, pps), data, max_frames, nals, k, sps, pps).0;
        lemma_picture_state_after(s, data, nals[n - 1], sps, pps);
    }
}

/// Which of the NAL units of an H.264 stream start a picture. The order count of a
/// picture is told by the slice that starts it.
pub fn h264_picture_starts(len: usize, nals: &[NalUnit], has_sps: bool) -> (r: Vec<bool>)
    requires
        forall|i: int| 0 <= i < nals@.len() ==> (#[trigger] nals@[i]).wf(len as nat),
    ensures
        r@.len() == nals@.len(),
        forall|i: int|
            0 <= i < nals@.len() ==> #[trigger] r@[i] == starts_picture(
                picture_state_at(nals@, i as nat, len as nat, has_sps),
                nals@[i],
                len as nat,
                has_sps,
            ),
{
    let mut r: Vec<bool> = Vec::new();
    let mut p = PictureState { in_frame: false, has_slices: false, frame_num: 0, is_idr: false };
    let mut i: usize = 0;
    while i < nals.len()
        invariant
            i <= nals@.len(),
            r@.len() == i,
            forall|k: int| 0 <= k < nals@.len() ==> (#[trigger] nals@[k]).wf(len as nat),
            p == picture_state_at(nals@, i as nat, len as nat, has_sps),
            forall|k: int|
                0 <= k < i ==> #[trigger] r@[k] == starts_picture(
                    picture_state_at(nals@, k as nat, len as nat, has_sps),
                    nals@[k],
                    len as nat,
                    has_sps,
                ),
        decreases nals@.len() - i,
    {
        let nal: &NalUnit = &nals[i];
        assert(nals@[i as int].wf(len as nat));
        let end: usize = match nal.next_start {
            Some(s) => s,
            None => len,
        };
        let class: NalClass = classify_nal(VideoCodec::H264, nal.header);
        let is_slice: bool = nal.start + nal.code_len < end && class.is_slice;
        let is_idr: bool = match nal.header {
            Some(h) => h.nal_unit_type == 5,
            None => false,
        };
        let frame_num: Option<u32> = match &nal.h264_slice {
            Some(slice) => {
                if has_sps && is_slice && (!p.in_frame || !p.has_slices || slice.first_mb_in_slice
                    == 0 || slice.frame_num != p.frame_num || (p.is_idr && !is_idr)) {
                    Some(slice.frame_num)
                } else {
                    None
                }
            },
            None => None,
        };
        r.push(frame_num.is_some());
        p = match frame_num {
            Some(n) => PictureState { in_frame: true, has_slices: true, frame_num: n, is_idr },
            None => {
                if is_slice {
                    PictureState { has_slices: true, ..p }
                } else if nal.start + nal.code_len < end && class.is_au_delimiter {
                    PictureState { has_slices: p.has_slices && !p.in_frame, ..p }
                } else {
                    p
                }
            },
        };
        i = i + 1;
    }
    r
}

/// Extracts all access units and in-band parameter sets from the bitstream.
///
/// `nals` are the NAL units of `data` in order, as the bitstream parsers cut and
/// read them; `sps` and `pps` are the parameter sets known from the start.
pub fn extract_all_access_units(
    data: &[u8],
    codec: VideoCodec,
    max_frames: usize,
    sps: Option<&H264OrH265Sps>,
    pps: Option<&H264OrH265Pps>,
    nals: Vec<NalUnit>,
) -> (items: Vec<ExtractedItem>)
    requires
        forall|i: int| 0 <= i < nals@.len() ==> (#[trigger] nals@[i]).wf(data@.len()),
        sps matches Some(H264OrH265Sps::H265(s)) ==> s.wf(),
    ensures
        ({
            let sps = match sps {
                Some(s) => Some(*s),
                None => None,
            };
            let pps = match pps {
                Some(p) => Some(*p),
                None => None,
            };
            items_view(items@) == flushed(
                extracted(
                    initial(codec, sps, pps),
                    data@,
                    max_frames as nat,
                    nals@,
                    nals@.len(),
                    sps,
                    pps,
                ).0,
            ).items
        }),
{
    let mut e = AccessUnitExtractor::new(codec, sps, pps);
    let mut offset: usize = 0;
    let ghost gsps = match sps {
        Some(s) => Some(*s),
        None => None,
    };
    let ghost gpps = match pps {
        Some(p) => Some(*p),
        None => None,
    };
    let ghost all = nals@;
    for nal in it: nals
        invariant
            it.seq() == all,
            forall|i: int| 0 <= i < all.len() ==> (#[trigger] all[i]).wf(data@.len()),
            sps matches Some(H264OrH265Sps::H265(s)) ==> s.wf(),
            gsps == (match sps {
                Some(s) => Some(*s),
                None => None,
            }),
            gpps == (match pps {
                Some(p) => Some(*p),
                None => None,
            }),
            (e@, offset as int) == extracted(
                initial(codec, gsps, gpps),
                data@,
                max_frames as nat,
                all,
                it.index() as nat,
                gsps,
                gpps,
            ),
    {
        if e.wants_more(offset, data.len(), max_frames) {
            let end: usize = match nal.next_start {
                Some(s) => s,
                None => data.len(),
            };
            e.step(data, nal, sps, pps);
            offset = end;
        }
    }
    e.flush();
    e.items
}

/// Before the first NAL unit nothing is extracted, and the given parameter sets are known.
pub proof fn law_extraction_begins(
    codec: VideoCodec,
    sps: Option<H264OrH265Sps>,
    pps: Option<H264OrH265Pps>,
    id: u32,
    h264_sps: H264Sps,
    h265_sps: H265Sps,
    h264_pps: H264Pps,
    h265_pps: H265Pps,
)
    ensures
        ({
            let s = initial(codec, sps, pps);
            &&& s.codec == codec
            &&& s.items.len() == 0
            &&& !s.in_frame
            &&& s.current.data.len() == 0 && s.current.slice_offsets.len() == 0
            &&& s.current.mmco_commands.len() == 0 && s.current.ref_pocs.len() == 0
            &&& s.prev_frame_num == 0
            &&& s.prev_pic_order_cnt_lsb == 0 && s.prev_pic_order_cnt_msb == 0
            &&& !s.seen_h265_vps_ids.contains(id)
            &&& sps is None ==> !s.seen_h264_sps_ids.contains(id) && !s.seen_h265_sps_ids.contains(
                id,
            )
            &&& pps is None ==> !s.seen_h264_pps_ids.contains(id) && !s.seen_h265_pps_ids.contains(
                id,
            )
            &&& sps == Some(H264OrH265Sps::H264(h264_sps)) ==> (s.seen_h264_sps_ids.contains(id)
                <==> id == h264_sps.seq_parameter_set_id)
            &&& sps == Some(H264OrH265Sps::H265(h265_sps)) ==> (s.seen_h265_sps_ids.contains(id)
                <==> id == h265_sps.sps_seq_parameter_set_id)
            &&& pps == Some(H264OrH265Pps::H264(h264_pps)) ==> (s.seen_h264_pps_ids.contains(id)
                <==> id == h264_pps.pic_parameter_set_id)
            &&& pps == Some(H264OrH265Pps::H265(h265_pps)) ==> (s.seen_h265_pps_ids.contains(id)
                <==> id == h265_pps.pps_pic_parameter_set_id)
        }),
{
}

/// A slice is the last of the access unit under construction once it was taken in, behind a
/// start code whose place is the last of the offsets.
pub proof fn law_slices_are_appended(
    s: ExtractorView,
    data: Seq<u8>,
    nal: NalUnit,
    sps: Option<H264OrH265Sps>,
    pps: Option<H264OrH265Pps>,
    h: NalHeader,
)
    requires
        nal.bytes(data).len() > 0,
        nal.header == Some(h),
        s.codec is H264 && 1 <= h.nal_unit_type <= 5 || s.codec is H265 && h.nal_unit_type < 32,
    ensures
        ({
            let au = stepped(s, data, nal, sps, pps).current;
            let bytes = nal.bytes(data);
            let place = au.data.len() - bytes.len() - 3;
            &&& place >= 0
            &&& au.data.skip(place) == seq![0u8, 0u8, 1u8] + bytes
            &&& au.slice_offsets.len() > 0
            &&& place <= u32::MAX ==> au.slice_offsets.last() == place
        }),
{
    let au = stepped(s, data, nal, sps, pps).current;
    let bytes = nal.bytes(data);
    let place = au.data.len() - bytes.len() - 3;
    assert(place >= 0);
    assert(au.data.skip(place) =~= seq![0u8, 0u8, 1u8] + bytes);
}

/// A NAL unit that is neither a slice nor a parameter set nor a delimiter changes nothing,
/// and neither does an empty one.
pub proof fn law_other_units_change_nothing(
    s: ExtractorView,
    data: Seq<u8>,
    nal: NalUnit,
    sps: Option<H264OrH265Sps>,
    pps: Option<H264OrH265Pps>,
    h: NalHeader,
)
    requires
        nal.header == Some(h),
    ensures
        nal.bytes(data).len() == 0 ==> stepped(s, data, nal, sps, pps) == s,
        s.codec is H264 && (h.nal_unit_type == 0 || h.nal_unit_type == 6 || h.nal_unit_type >= 10)
            ==> stepped(s, data, nal, sps, pps) == s,
        s.codec is H265 && (35 <= h.nal_unit_type <= 37 || h.nal_unit_type >= 39) ==> stepped(
            s,
            data,
            nal,
            sps,
            pps,
        ) == s,
{
}

/// As long as data are left and fewer than twice as many items as frames are wanted were
/// extracted, every NAL unit is taken in.
pub proof fn law_extraction_goes_on(
    s: ExtractorView,
    data: Seq<u8>,
    max_frames: nat,
    nals: Seq<NalUnit>,
    n: nat,
    sps: Option<H264OrH265Sps>,
    pps: Option<H264OrH265Pps>,
)
    requires
        0 < n <= nals.len(),
        data.len() > 0,
        all_taken(s, data, nals, (n - 1) as nat, sps, pps).items.len() < 2 * max_frames,
        forall|k: int| 0 <= k < n - 1 ==> (#[trigger] nals[k]).end(data.len()) < data.len(),
    ensures
        extracted(s, data, max_frames, nals, n, sps, pps).0 == all_taken(
            s,
            data,
            nals,
            n,
            sps,
            pps,
        ),
        extracted(s, data, max_frames, nals, n, sps, pps).1 == nals[n - 1].end(data.len()),
    decreases n,
{
    if n > 1 {
        let m = (n - 1) as nat;
        law_step_adds_at_most_one_item(
            all_taken(s, data, nals, (m - 1) as nat, sps, pps),
            data,
            nals[m - 1],
            sps,
            pps,
        );
        law_extraction_goes_on(s, data, max_frames, nals, m, sps, pps);
        assert(nals[m - 1].end(data.len()) < data.len());
    } else {
        assert(extracted(s, data, max_frames, nals, 0, sps, pps) == (s, 0int));
        assert(all_taken(s, data, nals, 0, sps, pps) == s);
    }
}

} // verus!
