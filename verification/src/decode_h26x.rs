//! Decoding H.264 and H.265 streams: which slot a picture goes into, what is
//! recorded for it, and what becomes of the references.

use crate::access_unit::{
    AccessUnit, ExtractedItem, H264OrH265Pps, H264OrH265Sps, H265VpsOpt, InBandParameterSet,
};
use crate::buffer::{bitstream_range, decode_size, BitstreamRange};
use crate::codes::ImageLayout;
use crate::commands::command_barriers;
use crate::container::least;
use crate::decoder::VideoDecoder;
use crate::device::VideoCodec;
use crate::dpb::{
    at_least_one, count_other_references, entry_after_mmcos, forgotten, is_next_slot,
    is_recyclable, law_sliding_window_makes_room, slid, DpbEntry, DpbManager, LastAccessType,
};
use crate::error::{VideoError, VideoResult};
use crate::h264::{
    are_begin_slots, are_ref_slots, h264_pps_of, h264_ref_images, h264_sps_of, is_picture_info,
    is_setup_slot, sps_is_countable, H264DecodePlan, H264Decoder, H264DpbRefPicture,
    H264Effective, H264Known, H264ParametersUpdate, H264SetupPictureInfo,
};
use crate::h265::{
    h265_pps_of, is_h265_plan, is_h265_sps, is_h265_vps, plan_h265_decode, H265DecodePlan,
    H265Decoder, H265Known, H265ParametersUpdate, H265RefPictureInfo,
};
use crate::parameter_sets::{H264Pps, H264Sps, H265Pps, H265Sps, H265Vps};
use crate::presentation::DecodedFrame;
use crate::readback::DecodedPixels;
use crate::stream_info::ParsedInfo;
use vstd::prelude::*;
use vstd::string::*;

verus! {

/// How far the decoding of a stream has come.
#[derive(Debug, Clone, Copy, PartialEq, Eq, Structural)]
pub struct H26xProgress {
    pub is_first_frame: bool,
    pub access_unit_count: usize,
}

impl H26xProgress {
    /// Nothing is decoded yet.
    pub fn new() -> (p: H26xProgress)
        ensures
            p == (H26xProgress { is_first_frame: true, access_unit_count: 0 }),
    {
        H26xProgress { is_first_frame: true, access_unit_count: 0 }
    }
}

/// The items of a stream that are decoded: twice as many as frames are wanted at
/// most. A stream without items is refused.
pub fn limit_items(items: Vec<ExtractedItem>, max_frames: usize) -> (r: VideoResult<
    Vec<ExtractedItem>,
>)
    ensures
        match r {
            Ok(kept) => {
                &&& items@.len() > 0
                &&& kept@ == items@.take(least(items@.len() as int, 2 * max_frames))
            },
            Err(VideoError::DecoderInit(m)) => items@.len() == 0 && m@ == "No access units found"@,
            Err(_) => false,
        },
{
    if items.len() == 0 {
        return Err(VideoError::DecoderInit("No access units found".to_owned()));
    }
    let mut kept: Vec<ExtractedItem> = items;
    if max_frames <= usize::MAX / 2 && max_frames * 2 < kept.len() {
        kept.truncate(max_frames * 2);
    }
    assert(kept@ =~= items@.take(least(items@.len() as int, 2 * max_frames)));
    Ok(kept)
}

// ---------------------------------------------------------------------------
// Parameter sets in the stream
// ---------------------------------------------------------------------------

/// An update of session parameters.
#[derive(Debug)]
pub enum H26xUpdate {
    H264(H264ParametersUpdate),
    H265(H265ParametersUpdate),
}

/// Nothing is in the sets.
pub open spec fn is_nothing(ps: InBandParameterSet) -> bool {
    ps.vps is None && ps.sps is None && ps.pps is None
}

/// The known parameter sets, with those of the stream in the place of older ones.
pub open spec fn with_sets(parsed: ParsedInfo, ps: InBandParameterSet) -> ParsedInfo {
    ParsedInfo {
        vps: match ps.vps {
            Some(H265VpsOpt::H265(v)) => Some(v),
            None => parsed.vps,
        },
        sps: match ps.sps {
            Some(s) => Some(s),
            None => parsed.sps,
        },
        pps: match ps.pps {
            Some(p) => Some(p),
            None => parsed.pps,
        },
        ..parsed
    }
}

/// An update of session parameters brings all parameter sets of the codec that are
/// known.
pub open spec fn is_update(u: H26xUpdate, codec: VideoCodec, parsed: ParsedInfo) -> bool {
    match u {
        H26xUpdate::H264(u) => {
            &&& codec == VideoCodec::DecodeH264
            &&& u.update_sequence_count == 1
            &&& u.sps == match parsed.sps {
                Some(H264OrH265Sps::H264(s)) => Some(h264_sps_of(s)),
                _ => None,
            }
            &&& u.pps == match parsed.pps {
                Some(H264OrH265Pps::H264(p)) => Some(h264_pps_of(p)),
                _ => None,
            }
        },
        H26xUpdate::H265(u) => {
            &&& codec == VideoCodec::DecodeH265
            &&& u.update_sequence_count == 1
            &&& match parsed.vps {
                Some(v) => u.vps matches Some(r) && is_h265_vps(r, v),
                None => u.vps is None,
            }
            &&& match parsed.sps {
                Some(H264OrH265Sps::H265(s)) => u.sps matches Some(r) && is_h265_sps(r, s),
                _ => u.sps is None,
            }
            &&& u.pps == match parsed.pps {
                Some(H264OrH265Pps::H265(p)) => Some(h265_pps_of(p)),
                _ => None,
            }
        },
    }
}

impl VideoDecoder {
    /// Takes in parameter sets of the stream, and decides by what the session
    /// parameters are updated, if there are any.
    pub fn handle_inband_parameter_set(
        &mut self,
        ps: InBandParameterSet,
        has_session_params: bool,
    ) -> (r: Option<H26xUpdate>)
        ensures
            *final(self) == (VideoDecoder {
                parsed: with_sets(old(self).parsed, ps),
                ..*old(self)
            }),
            match r {
                Some(u) => {
                    &&& has_session_params
                    &&& !is_nothing(ps)
                    &&& is_update(u, old(self).codec, final(self).parsed)
                },
                None => is_nothing(ps) || !has_session_params || (old(self).codec
                    != VideoCodec::DecodeH264 && old(self).codec != VideoCodec::DecodeH265),
            },
    {
        if ps.vps.is_none() && ps.sps.is_none() && ps.pps.is_none() {
            assert(with_sets(self.parsed, ps) == self.parsed);
            return None;
        }
        if let Some(H265VpsOpt::H265(v)) = ps.vps {
            self.parsed.vps = Some(v);
        }
        if let Some(s) = ps.sps {
            self.parsed.sps = Some(s);
        }
        if let Some(p) = ps.pps {
            self.parsed.pps = Some(p);
        }
        if !has_session_params {
            return None;
        }
        match self.codec {
            VideoCodec::DecodeH264 => {
                let sps: Option<&H264Sps> = match &self.parsed.sps {
                    Some(H264OrH265Sps::H264(s)) => Some(s),
                    _ => None,
                };
                let pps: Option<&H264Pps> = match &self.parsed.pps {
                    Some(H264OrH265Pps::H264(p)) => Some(p),
                    _ => None,
                };
                let mut decoder: H264Decoder = H264Decoder::new();
                Some(H26xUpdate::H264(decoder.update_session_parameters(sps, pps)))
            },
            VideoCodec::DecodeH265 => {
                let sps: Option<&H265Sps> = match &self.parsed.sps {
                    Some(H264OrH265Sps::H265(s)) => Some(s),
                    _ => None,
                };
                let pps: Option<&H265Pps> = match &self.parsed.pps {
                    Some(H264OrH265Pps::H265(p)) => Some(p),
                    _ => None,
                };
                let decoder: H265Decoder = H265Decoder::new();
                Some(
                    H26xUpdate::H265(
                        decoder.update_session_parameters(self.parsed.vps.as_ref(), sps, pps),
                    ),
                )
            },
            _ => None,
        }
    }
}

// ---------------------------------------------------------------------------
// The slot of a picture
// ---------------------------------------------------------------------------

/// The order counts of the valid entries, both of them where they differ.
pub open spec fn held_pocs(entries: Seq<DpbEntry>) -> Seq<i32>
    decreases entries.len(),
{
    if entries.len() == 0 {
        Seq::empty()
    } else {
        let rest = held_pocs(entries.drop_last());
        let e = entries.last();
        if !e.is_valid {
            rest
        } else if e.pic_order_cnt@[0] == e.pic_order_cnt@[1] {
            rest.push(e.pic_order_cnt@[0])
        } else {
            rest.push(e.pic_order_cnt@[0]).push(e.pic_order_cnt@[1])
        }
    }
}

/// The order counts that access units refer to.
pub open spec fn needed_pocs(items: Seq<ExtractedItem>) -> Seq<i32>
    decreases items.len(),
{
    if items.len() == 0 {
        Seq::empty()
    } else {
        let rest = needed_pocs(items.drop_last());
        match items.last() {
            ExtractedItem::AccessUnit(au) => rest + au.ref_pocs@,
            ExtractedItem::ParameterSet(_) => rest,
        }
    }
}

/// The order counts whose pictures are not to be given up for an access unit. For
/// H.264 they are those of all valid entries. For H.265 they are those that the
/// unit or one that follows refers to.
pub open spec fn protected_pocs(
    codec: VideoCodec,
    entries: Seq<DpbEntry>,
    au: AccessUnit,
    rest: Seq<ExtractedItem>,
) -> Seq<i32> {
    if codec == VideoCodec::DecodeH264 {
        held_pocs(entries)
    } else {
        au.ref_pocs@ + needed_pocs(rest)
    }
}

/// All earlier pictures are given up with an access unit.
pub open spec fn clears_references(au: AccessUnit) -> bool {
    au.is_idr || au.no_output_of_prior_pics_flag
}

/// The slot that an access unit is decoded into. One that gives up all earlier
/// pictures goes into the first slot; any other into the next slot, the first
/// where all are protected.
pub open spec fn is_output_slot(
    codec: VideoCodec,
    entries: Seq<DpbEntry>,
    au: AccessUnit,
    rest: Seq<ExtractedItem>,
    slot: u32,
) -> bool {
    if clears_references(au) {
        slot == 0
    } else {
        let pocs = protected_pocs(codec, entries, au, rest);
        is_next_slot(entries, pocs, Some(slot)) || (slot == 0 && is_next_slot(entries, pocs, None))
    }
}

/// A picture that an H.265 access unit or a later one refers to is overwritten
/// only if no slot is free and every slot holds such a picture.
pub proof fn law_needed_pictures_are_kept(
    entries: Seq<DpbEntry>,
    au: AccessUnit,
    rest: Seq<ExtractedItem>,
    slot: u32,
)
    requires
        is_output_slot(VideoCodec::DecodeH265, entries, au, rest, slot),
        !clears_references(au),
        exists|i: int|
            0 <= i < entries.len() && (!(#[trigger] entries[i]).is_valid || is_recyclable(
                entries[i],
                protected_pocs(VideoCodec::DecodeH265, entries, au, rest),
            )),
    ensures
        slot < entries.len(),
        entries[slot as int].is_valid ==> !protected_pocs(
            VideoCodec::DecodeH265,
            entries,
            au,
            rest,
        ).contains(entries[slot as int].pic_order_cnt@[0]),
{
}

/// An H.264 picture goes into a free slot if there is one, and into the first slot
/// otherwise.
pub proof fn law_h264_pictures_take_free_slots(
    entries: Seq<DpbEntry>,
    au: AccessUnit,
    rest: Seq<ExtractedItem>,
    slot: u32,
)
    requires
        is_output_slot(VideoCodec::DecodeH264, entries, au, rest, slot),
        !clears_references(au),
    ensures
        if exists|i: int| 0 <= i < entries.len() && !(#[trigger] entries[i]).is_valid {
            slot < entries.len() && !entries[slot as int].is_valid
        } else {
            slot == 0
        },
{
    if forall|i: int| 0 <= i < entries.len() ==> (#[trigger] entries[i]).is_valid {
        if slot < entries.len() && is_recyclable(entries[slot as int], held_pocs(entries)) {
            lemma_held_pocs_hold(entries, slot as int);
        }
    }
}

proof fn lemma_held_pocs_hold(entries: Seq<DpbEntry>, i: int)
    requires
        0 <= i < entries.len(),
        entries[i].is_valid,
    ensures
        held_pocs(entries).contains(entries[i].pic_order_cnt@[0]),
    decreases entries.len(),
{
    let all = held_pocs(entries);
    let rest = held_pocs(entries.drop_last());
    if i < entries.len() - 1 {
        lemma_held_pocs_hold(entries.drop_last(), i);
        let k = choose|k: int| 0 <= k < rest.len() && rest[k] == entries[i].pic_order_cnt@[0];
        assert(all[k] == rest[k]);
    } else {
        assert(all[rest.len() as int] == entries[i].pic_order_cnt@[0]);
    }
}

fn collect_held_pocs(entries: &Vec<DpbEntry>) -> (pocs: Vec<i32>)
    ensures
        pocs@ == held_pocs(entries@),
{
    let mut pocs: Vec<i32> = Vec::new();
    let mut i: usize = 0;
    while i < entries.len()
        invariant
            i <= entries@.len(),
            pocs@ == held_pocs(entries@.take(i as int)),
        decreases entries@.len() - i,
    {
        assert(entries@.take(i + 1).drop_last() =~= entries@.take(i as int));
        let e: DpbEntry = entries[i];
        if e.is_valid {
            pocs.push(e.pic_order_cnt[0]);
            if e.pic_order_cnt[0] != e.pic_order_cnt[1] {
                pocs.push(e.pic_order_cnt[1]);
            }
        }
        i = i + 1;
    }
    assert(entries@.take(i as int) =~= entries@);
    pocs
}

fn append_all(pocs: &mut Vec<i32>, more: &Vec<i32>)
    ensures
        final(pocs)@ == old(pocs)@ + more@,
{
    let mut i: usize = 0;
    let ghost before = pocs@;
    assert(before + more@.take(0) =~= before);
    while i < more.len()
        invariant
            i <= more@.len(),
            pocs@ == before + more@.take(i as int),
        decreases more@.len() - i,
    {
        pocs.push(more[i]);
        assert(pocs@ =~= before + more@.take(i + 1));
        i = i + 1;
    }
    assert(more@.take(i as int) =~= more@);
}

fn collect_needed_pocs(au: &AccessUnit, rest: &[ExtractedItem]) -> (pocs: Vec<i32>)
    ensures
        pocs@ == au.ref_pocs@ + needed_pocs(rest@),
{
    let mut pocs: Vec<i32> = Vec::new();
    append_all(&mut pocs, &au.ref_pocs);
    let mut i: usize = 0;
    assert(Seq::<i32>::empty() + au.ref_pocs@ =~= au.ref_pocs@);
    assert(au.ref_pocs@ + needed_pocs(rest@.take(0)) =~= au.ref_pocs@);
    while i < rest.len()
        invariant
            i <= rest@.len(),
            pocs@ == au.ref_pocs@ + needed_pocs(rest@.take(i as int)),
        decreases rest@.len() - i,
    {
        let ghost before = needed_pocs(rest@.take(i as int));
        assert(rest@.take(i + 1).drop_last() =~= rest@.take(i as int));
        if let ExtractedItem::AccessUnit(next) = &rest[i] {
            append_all(&mut pocs, &next.ref_pocs);
            assert(au.ref_pocs@ + before + next.ref_pocs@ =~= au.ref_pocs@ + (before
                + next.ref_pocs@));
        }
        i = i + 1;
    }
    assert(rest@.take(i as int) =~= rest@);
    pocs
}

// ---------------------------------------------------------------------------
// What is recorded
// ---------------------------------------------------------------------------

/// The valid entries outside of a slot, in order.
pub open spec fn references_but(entries: Seq<DpbEntry>, slot: u32) -> Seq<DpbEntry>
    decreases entries.len(),
{
    if entries.len() == 0 {
        Seq::empty()
    } else {
        let rest = references_but(entries.drop_last(), slot);
        let e = entries.last();
        if e.is_valid && e.slot_index != slot {
            rest.push(e)
        } else {
            rest
        }
    }
}

/// The references of a decode command are valid entries, and none of them lies in
/// the slot that is decoded into.
pub proof fn law_references_lie_outside_of_output(entries: Seq<DpbEntry>, slot: u32, k: int)
    requires
        0 <= k < references_but(entries, slot).len(),
    ensures
        references_but(entries, slot)[k].is_valid,
        references_but(entries, slot)[k].slot_index != slot,
        entries.contains(references_but(entries, slot)[k]),
    decreases entries.len(),
{
    let rest = references_but(entries.drop_last(), slot);
    let all = references_but(entries, slot);
    if k < rest.len() {
        law_references_lie_outside_of_output(entries.drop_last(), slot, k);
        let i = choose|i: int|
            0 <= i < entries.drop_last().len() && entries.drop_last()[i] == rest[k];
        assert(entries[i] == all[k]);
    } else {
        assert(entries[entries.len() - 1] == all[k]);
    }
}

/// A unit that gives up all earlier pictures refers to none of them.
pub proof fn law_clearing_units_have_no_references(
    entries: Seq<DpbEntry>,
    au: AccessUnit,
    slot: u32,
)
    requires
        clears_references(au),
    ensures
        references_but(entries_for(entries, au), slot).len() == 0,
    decreases entries.len(),
{
    if entries.len() > 0 {
        law_clearing_units_have_no_references(entries.drop_last(), au, slot);
        assert(entries_for(entries, au).drop_last() =~= entries_for(entries.drop_last(), au));
    }
}

/// An entry as a reference of an H.264 decode command.
pub open spec fn h264_ref_of(e: DpbEntry) -> H264DpbRefPicture {
    H264DpbRefPicture {
        slot_index: e.slot_index,
        image_view: e.image_view,
        image: e.image,
        frame_num: e.frame_num,
        pic_order_cnt: e.pic_order_cnt,
        current_layout: e.current_layout,
        last_access: e.last_access,
    }
}

/// An entry as a reference of an H.265 decode command.
pub open spec fn h265_ref_of(e: DpbEntry) -> H265RefPictureInfo {
    H265RefPictureInfo {
        slot_index: e.slot_index,
        pic_order_cnt: e.pic_order_cnt@[0],
        image_view: e.image_view,
        image: e.image,
        current_layout: e.current_layout,
    }
}

/// The references of an H.264 decode command.
pub open spec fn h264_refs(entries: Seq<DpbEntry>, slot: u32) -> Seq<H264DpbRefPicture> {
    references_but(entries, slot).map_values(|e: DpbEntry| h264_ref_of(e))
}

/// The references of an H.265 decode command.
pub open spec fn h265_refs(entries: Seq<DpbEntry>, slot: u32) -> Seq<H265RefPictureInfo> {
    references_but(entries, slot).map_values(|e: DpbEntry| h265_ref_of(e))
}

/// What an H.264 access unit is taken for. Slices of type I and SI are intra
/// coded.
pub open spec fn h264_effective(au: AccessUnit) -> H264Effective {
    H264Effective {
        frame_num: au.frame_num,
        pic_order_cnt: au.pic_order_cnt@,
        is_intra: au.slice_type == 2 || au.slice_type == 4,
        is_reference: au.is_reference,
        is_idr: au.is_idr,
    }
}

/// What is recorded for an H.264 access unit.
pub open spec fn is_h264_command(
    plan: H264DecodePlan,
    sps: H264Sps,
    pps: H264Pps,
    d: VideoDecoder,
    au: AccessUnit,
    slot: u32,
    is_first_frame: bool,
) -> bool {
    let e = h264_effective(au);
    let setup = H264SetupPictureInfo { slot_index: slot, image_view: d.dpb_views@[slot as int] };
    let refs = h264_refs(d.dpb_manager.entries@, slot);
    &&& is_picture_info(plan.picture, e, sps, pps)
    &&& plan.reset == is_first_frame
    &&& are_begin_slots(
        plan.begin_slots@,
        is_first_frame,
        Some(setup),
        refs,
        d.dpb_views@,
        e,
        sps,
    )
    &&& plan.setup_slot matches Some(s) && is_setup_slot(s, setup, e, sps)
    &&& are_ref_slots(plan.ref_slots@, refs, sps)
    &&& plan.barriers@ == command_barriers(
        d.dpb_images@[slot as int],
        ImageLayout::Undefined,
        0,
        true,
        h264_ref_images(refs),
        false,
    )
}

/// What is known of an H.265 access unit. An IDR unit counts as intra coded, and so
/// does one whose slice type is 2.
pub open spec fn h265_known(au: AccessUnit) -> H265Known {
    H265Known {
        pic_order_cnt: Some(au.pic_order_cnt@[0]),
        is_intra: Some(au.is_idr || au.slice_type == 2),
        is_reference: Some(au.is_reference),
        is_idr: Some(au.is_idr),
        num_bits_for_st_ref_pic_set_in_slice: Some(au.num_bits_for_st_ref_pic_set_in_slice),
        num_delta_pocs_of_ref_rps_idx: Some(au.num_delta_pocs_of_ref_rps_idx),
    }
}

/// What is recorded for an H.265 access unit.
pub open spec fn is_h265_command(
    plan: H265DecodePlan,
    sps: H265Sps,
    pps: H265Pps,
    d: VideoDecoder,
    au: AccessUnit,
    slot: u32,
) -> bool {
    is_h265_plan(
        plan,
        sps,
        pps,
        0,
        d.dpb_images@[slot as int],
        Some(
            H265RefPictureInfo {
                slot_index: slot,
                pic_order_cnt: au.pic_order_cnt@[0],
                image_view: d.dpb_views@[slot as int],
                image: d.dpb_images@[slot as int],
                current_layout: ImageLayout::Undefined,
            },
        ),
        h265_refs(d.dpb_manager.entries@, slot),
        h265_known(au),
        au.ref_pocs@,
        au.long_term_pocs@,
    )
}

/// A decode command.
#[derive(Debug)]
pub enum H26xCommand {
    H264(H264DecodePlan),
    H265(H265DecodePlan),
}

/// What is recorded for an access unit: a command of the decoder's codec, or the
/// error that one of its parameter sets is missing.
pub open spec fn is_h26x_command(
    r: VideoResult<H26xCommand>,
    d: VideoDecoder,
    au: AccessUnit,
    slot: u32,
    is_first_frame: bool,
) -> bool {
    if d.codec == VideoCodec::DecodeH264 {
        match (d.parsed.sps, d.parsed.pps) {
            (
                Some(H264OrH265Sps::H264(sps)),
                Some(H264OrH265Pps::H264(pps)),
            ) => r matches Ok(H26xCommand::H264(plan)) && is_h264_command(
                plan,
                sps,
                pps,
                d,
                au,
                slot,
                is_first_frame,
            ),
            (Some(H264OrH265Sps::H264(sps)), _) => r matches Err(VideoError::DecoderInit(m)) && m@
                == "H264 PPS not found"@,
            _ => r matches Err(VideoError::DecoderInit(m)) && m@ == "H264 SPS not found"@,
        }
    } else {
        match (d.parsed.sps, d.parsed.pps) {
            (
                Some(H264OrH265Sps::H265(sps)),
                Some(H264OrH265Pps::H265(pps)),
            ) => r matches Ok(H26xCommand::H265(plan)) && is_h265_command(
                plan,
                sps,
                pps,
                d,
                au,
                slot,
            ),
            (Some(H264OrH265Sps::H265(sps)), _) => r matches Err(VideoError::DecoderInit(m)) && m@
                == "H265 PPS not found"@,
            _ => r matches Err(VideoError::DecoderInit(m)) && m@ == "H265 SPS not found"@,
        }
    }
}

/// The counts of the known sequence parameter set fit in 32 bits.
pub open spec fn is_countable(parsed: ParsedInfo) -> bool {
    match parsed.sps {
        Some(H264OrH265Sps::H264(s)) => sps_is_countable(s),
        Some(H264OrH265Sps::H265(s)) => s.log2_max_pic_order_cnt_lsb_minus4 <= 27,
        None => true,
    }
}

impl VideoDecoder {
    /// Decides what is recorded for an H.264 access unit.
    fn record_h264_decode(&self, au: &AccessUnit, slot: u32, is_first_frame: bool) -> (r:
        VideoResult<H26xCommand>)
        requires
            self.wf(),
            is_countable(self.parsed),
            self.codec == VideoCodec::DecodeH264,
            slot < self.session_dpb_slots,
        ensures
            is_h26x_command(r, *self, *au, slot, is_first_frame),
    {
        let sps: H264Sps = match &self.parsed.sps {
            Some(H264OrH265Sps::H264(s)) => *s,
            _ => {
                return Err(VideoError::DecoderInit("H264 SPS not found".to_owned()));
            },
        };
        let pps: H264Pps = match &self.parsed.pps {
            Some(H264OrH265Pps::H264(p)) => *p,
            _ => {
                return Err(VideoError::DecoderInit("H264 PPS not found".to_owned()));
            },
        };
        let mut decoder: H264Decoder = H264Decoder::new();
        decoder.set_sps(sps);
        decoder.set_pps(pps);
        let mut refs: Vec<H264DpbRefPicture> = Vec::new();
        let entries: &Vec<DpbEntry> = &self.dpb_manager.entries;
        let mut i: usize = 0;
        assert(refs@ =~= h264_refs(entries@.take(0), slot));
        while i < entries.len()
            invariant
                i <= entries@.len(),
                refs@ == h264_refs(entries@.take(i as int), slot),
            decreases entries@.len() - i,
        {
            let e: DpbEntry = entries[i];
            assert(entries@.take(i + 1).drop_last() =~= entries@.take(i as int));
            if e.is_valid && e.slot_index != slot {
                refs.push(
                    H264DpbRefPicture {
                        slot_index: e.slot_index,
                        image_view: e.image_view,
                        image: e.image,
                        frame_num: e.frame_num,
                        pic_order_cnt: e.pic_order_cnt,
                        current_layout: e.current_layout,
                        last_access: e.last_access,
                    },
                );
            }
            assert(refs@ =~= h264_refs(entries@.take(i + 1), slot));
            i = i + 1;
        }
        assert(entries@.take(i as int) =~= entries@);
        let setup = H264SetupPictureInfo {
            slot_index: slot,
            image_view: self.dpb_views[slot as usize],
        };
        let known = H264Known {
            frame_num: Some(au.frame_num),
            pic_order_cnt: Some(au.pic_order_cnt),
            is_intra: Some(au.slice_type == 2 || au.slice_type == 4),
            is_reference: Some(au.is_reference),
            is_idr: Some(au.is_idr),
        };
        match decoder.record_decode_command(
            self.dpb_images[slot as usize],
            Some(setup),
            refs.as_slice(),
            known,
            is_first_frame,
            self.dpb_views.as_slice(),
        ) {
            Ok(plan) => Ok(H26xCommand::H264(plan)),
            Err(e) => Err(e),
        }
    }

    /// Decides what is recorded for an H.265 access unit.
    fn record_h265_decode(&self, au: &AccessUnit, slot: u32) -> (r: VideoResult<H26xCommand>)
        requires
            self.wf(),
            is_countable(self.parsed),
            self.codec == VideoCodec::DecodeH265,
            slot < self.session_dpb_slots,
        ensures
            forall|first: bool| #[trigger] is_h26x_command(r, *self, *au, slot, first),
    {
        let sps: &H265Sps = match &self.parsed.sps {
            Some(H264OrH265Sps::H265(s)) => s,
            _ => {
                return Err(VideoError::DecoderInit("H265 SPS not found".to_owned()));
            },
        };
        let pps: &H265Pps = match &self.parsed.pps {
            Some(H264OrH265Pps::H265(p)) => p,
            _ => {
                return Err(VideoError::DecoderInit("H265 PPS not found".to_owned()));
            },
        };
        let mut refs: Vec<H265RefPictureInfo> = Vec::new();
        let entries: &Vec<DpbEntry> = &self.dpb_manager.entries;
        let mut i: usize = 0;
        assert(refs@ =~= h265_refs(entries@.take(0), slot));
        while i < entries.len()
            invariant
                i <= entries@.len(),
                refs@ == h265_refs(entries@.take(i as int), slot),
            decreases entries@.len() - i,
        {
            let e: DpbEntry = entries[i];
            assert(entries@.take(i + 1).drop_last() =~= entries@.take(i as int));
            if e.is_valid && e.slot_index != slot {
                refs.push(
                    H265RefPictureInfo {
                        slot_index: e.slot_index,
                        pic_order_cnt: e.pic_order_cnt[0],
                        image_view: e.image_view,
                        image: e.image,
                        current_layout: e.current_layout,
                    },
                );
            }
            assert(refs@ =~= h265_refs(entries@.take(i + 1), slot));
            i = i + 1;
        }
        assert(entries@.take(i as int) =~= entries@);
        let image: u64 = self.dpb_images[slot as usize];
        let setup = H265RefPictureInfo {
            slot_index: slot,
            pic_order_cnt: au.pic_order_cnt[0],
            image_view: self.dpb_views[slot as usize],
            image,
            current_layout: ImageLayout::Undefined,
        };
        let known = H265Known {
            pic_order_cnt: Some(au.pic_order_cnt[0]),
            is_intra: Some(au.is_idr || au.slice_type == 2),
            is_reference: Some(au.is_reference),
            is_idr: Some(au.is_idr),
            num_bits_for_st_ref_pic_set_in_slice: Some(au.num_bits_for_st_ref_pic_set_in_slice),
            num_delta_pocs_of_ref_rps_idx: Some(au.num_delta_pocs_of_ref_rps_idx),
        };
        let plan: H265DecodePlan = plan_h265_decode(
            sps,
            pps,
            0,
            image,
            Some(setup),
            refs.as_slice(),
            known,
            au.ref_pocs.as_slice(),
            au.long_term_pocs.as_slice(),
        );
        Ok(H26xCommand::H265(plan))
    }
}

// ---------------------------------------------------------------------------
// Decoding an access unit
// ---------------------------------------------------------------------------

/// How an access unit is decoded.
#[derive(Debug)]
pub struct H26xDecode {
    /// How its data lie in the bitstream buffer.
    pub range: BitstreamRange,
    pub output_slot: u32,
    pub output_view: u64,
    pub output_image: u64,
    pub command: H26xCommand,
}

/// The entries that an access unit is decoded against.
pub open spec fn entries_for(entries: Seq<DpbEntry>, au: AccessUnit) -> Seq<DpbEntry> {
    if clears_references(au) {
        entries.map_values(|e: DpbEntry| forgotten(e))
    } else {
        entries
    }
}

/// The entry of a slot that a picture was decoded into.
pub open spec fn written_entry(e: DpbEntry) -> DpbEntry {
    DpbEntry {
        current_layout: ImageLayout::VideoDecodeDpb,
        last_access: LastAccessType::DecodeWrite,
        ..e
    }
}

/// The entry of a reference picture.
pub open spec fn reference_entry(au: AccessUnit, slot: u32, view: u64, image: u64) -> DpbEntry {
    DpbEntry {
        frame_num: au.frame_num,
        pic_order_cnt: au.pic_order_cnt,
        slot_index: slot,
        is_valid: true,
        image_view: view,
        image,
        current_layout: ImageLayout::VideoDecodeDpb,
        last_access: LastAccessType::DecodeWrite,
    }
}

/// What becomes of the entries once an access unit is decoded. A picture that is
/// no reference only leaves its layout. A reference takes its slot, and then
/// marking follows: by commands where there are any, by the sliding window
/// otherwise.
pub open spec fn are_marked(
    before: Seq<DpbEntry>,
    after: Seq<DpbEntry>,
    m: DpbManager,
    au: AccessUnit,
    slot: u32,
    view: u64,
    image: u64,
) -> bool {
    if au.is_reference {
        let stored = before.update(slot as int, reference_entry(au, slot, view, image));
        if au.adaptive_ref_pic_marking_mode_flag && au.mmco_commands@.len() > 0 {
            after == stored.map_values(
                |e: DpbEntry|
                    entry_after_mmcos(
                        e,
                        au.mmco_commands@,
                        au.mmco_commands@.len(),
                        m.max_frame_num,
                        au.frame_num,
                    ),
            )
        } else {
            slid(stored, after, m.max_num_ref_frames, m.max_frame_num, au.frame_num)
        }
    } else {
        after == before.update(slot as int, written_entry(before[slot as int]))
    }
}

/// A reference that is followed by the sliding window stays marked itself.
pub proof fn law_new_reference_is_kept(
    before: Seq<DpbEntry>,
    after: Seq<DpbEntry>,
    m: DpbManager,
    au: AccessUnit,
    slot: u32,
    view: u64,
    image: u64,
)
    requires
        slot < before.len(),
        are_marked(before, after, m, au, slot, view, image),
        au.is_reference,
        !au.adaptive_ref_pic_marking_mode_flag || au.mmco_commands@.len() == 0,
    ensures
        after.len() == before.len(),
        after[slot as int] == reference_entry(au, slot, view, image),
{
}

proof fn lemma_storing_adds_no_other(
    before: Seq<DpbEntry>,
    slot: int,
    e: DpbEntry,
    current: u32,
)
    requires
        0 <= slot < before.len(),
        e.frame_num == current,
    ensures
        count_other_references(before.update(slot, e), current) <= count_other_references(
            before,
            current,
        ),
    decreases before.len(),
{
    let after = before.update(slot, e);
    if slot == before.len() - 1 {
        assert(after.drop_last() =~= before.drop_last());
    } else {
        assert(after.drop_last() =~= before.drop_last().update(slot, e));
        lemma_storing_adds_no_other(before.drop_last(), slot, e, current);
    }
}

proof fn lemma_others_of_another_number(
    entries: Seq<DpbEntry>,
    current: u32,
    slot: int,
    n: u32,
)
    requires
        forall|i: int|
            0 <= i < entries.len() && i != slot && (#[trigger] entries[i]).is_valid
                ==> entries[i].frame_num != current,
    ensures
        count_other_references(entries, n) <= count_other_references(entries, current) + if 0
            <= slot < entries.len() {
            1nat
        } else {
            0nat
        },
    decreases entries.len(),
{
    if entries.len() > 0 {
        let rest = entries.drop_last();
        assert forall|i: int|
            0 <= i < rest.len() && i != slot && (#[trigger] rest[i]).is_valid implies rest[i].frame_num
            != current by {
            assert(rest[i] == entries[i]);
        }
        lemma_others_of_another_number(rest, current, slot, n);
        let last = entries[entries.len() - 1];
        assert(last == entries.last());
    }
}

/// The sliding window keeps the number of references within its limit: as long as
/// frame numbers are told apart and stay below two to the power of 31, there are
/// never more references than the limit allows, seen from whatever frame comes next.
pub proof fn law_references_stay_within_limit(
    before: Seq<DpbEntry>,
    after: Seq<DpbEntry>,
    m: DpbManager,
    au: AccessUnit,
    slot: u32,
    view: u64,
    image: u64,
    next: u32,
)
    requires
        slot < before.len(),
        are_marked(before, after, m, au, slot, view, image),
        au.is_reference,
        !au.adaptive_ref_pic_marking_mode_flag || au.mmco_commands@.len() == 0,
        count_other_references(before, au.frame_num) <= at_least_one(m.max_num_ref_frames),
        au.frame_num < 0x7FFF_FFFF,
        m.max_frame_num < 0x8000_0000,
        forall|i: int|
            0 <= i < before.len() ==> (#[trigger] before[i]).frame_num < 0x7FFF_FFFF && (i != slot
                && before[i].is_valid ==> before[i].frame_num != au.frame_num),
    ensures
        count_other_references(after, au.frame_num) < at_least_one(m.max_num_ref_frames),
        count_other_references(after, next) <= at_least_one(m.max_num_ref_frames),
{
    let e = reference_entry(au, slot, view, image);
    let stored = before.update(slot as int, e);
    lemma_storing_adds_no_other(before, slot as int, e, au.frame_num);
    assert forall|i: int| 0 <= i < stored.len() implies (#[trigger] stored[i]).frame_num
        < 0x7FFF_FFFF by {
        assert(before[i].frame_num < 0x7FFF_FFFF);
    }
    law_sliding_window_makes_room(
        stored,
        after,
        m.max_num_ref_frames,
        m.max_frame_num,
        au.frame_num,
    );
    assert forall|i: int|
        0 <= i < after.len() && i != slot && (#[trigger] after[i]).is_valid implies after[i].frame_num
        != au.frame_num by {
        assert(before[i].frame_num < 0x7FFF_FFFF);
    }
    lemma_others_of_another_number(after, au.frame_num, slot as int, next);
}

/// Every entry bears the number of its slot.
pub open spec fn are_numbered(entries: Seq<DpbEntry>) -> bool {
    forall|i: int| 0 <= i < entries.len() ==> (#[trigger] entries[i]).slot_index == i
}

/// Decoding an access unit leaves every entry with the number of its slot, so that
/// references are told apart from the picture that is being decoded.
pub proof fn law_decoding_keeps_numbers(
    before: Seq<DpbEntry>,
    after: Seq<DpbEntry>,
    m: DpbManager,
    au: AccessUnit,
    slot: u32,
    view: u64,
    image: u64,
)
    requires
        slot < before.len(),
        are_numbered(before),
        are_marked(entries_for(before, au), after, m, au, slot, view, image),
    ensures
        are_numbered(after),
{
    let e = entries_for(before, au);
    assert(are_numbered(e));
    if au.is_reference {
        let stored = e.update(slot as int, reference_entry(au, slot, view, image));
        assert(are_numbered(stored));
        if au.adaptive_ref_pic_marking_mode_flag && au.mmco_commands@.len() > 0 {
            assert forall|i: int| 0 <= i < after.len() implies (#[trigger] after[i]).slot_index
                == i by {
                crate::dpb::law_mmco_only_unmarks(
                    stored[i],
                    au.mmco_commands@,
                    au.mmco_commands@.len(),
                    m.max_frame_num,
                    au.frame_num,
                );
            }
        }
    }
}

/// The frame that an access unit gives.
pub open spec fn frame_of(d: VideoDecoder, au: AccessUnit, pixels: DecodedPixels) -> DecodedFrame {
    DecodedFrame {
        poc: au.pic_order_cnt@[0],
        frame_num: au.frame_num,
        is_idr: au.is_idr,
        is_reference: au.is_reference,
        pixels,
        coded_width: d.coded_extent.width,
        coded_height: d.coded_extent.height,
        display_width: d.parsed.display_width,
        display_height: d.parsed.display_height,
        crop_left: d.parsed.crop_left,
        crop_top: d.parsed.crop_top,
    }
}

impl VideoDecoder {
    /// Only the entries of the slots may differ.
    pub open spec fn same_but_entries(&self, other: &VideoDecoder) -> bool {
        &&& *self == (VideoDecoder { dpb_manager: self.dpb_manager, ..*other })
        &&& self.dpb_manager.same_limits(&other.dpb_manager)
        &&& self.dpb_manager.entries@.len() == other.dpb_manager.entries@.len()
    }

    fn choose_output_slot(&mut self, au: &AccessUnit, rest: &[ExtractedItem]) -> (slot: u32)
        requires
            old(self).wf(),
        ensures
            final(self).same_but_entries(old(self)),
            final(self).dpb_manager.entries@ == entries_for(old(self).dpb_manager.entries@, *au),
            is_output_slot(
                old(self).codec,
                old(self).dpb_manager.entries@,
                *au,
                rest@,
                slot,
            ),
            slot < old(self).session_dpb_slots,
    {
        if au.is_idr || au.no_output_of_prior_pics_flag {
            self.dpb_manager.invalidate_all();
            return 0;
        }
        let protected: Vec<i32> = match self.codec {
            VideoCodec::DecodeH264 => collect_held_pocs(&self.dpb_manager.entries),
            _ => collect_needed_pocs(au, rest),
        };
        match self.dpb_manager.find_or_recycle_slot(protected.as_slice()) {
            Some(s) => s,
            None => 0,
        }
    }

    /// Begins to decode an access unit, where `rest` are the items that follow it.
    /// Nothing comes back once as many frames as are wanted have been decoded.
    pub fn begin_access_unit(
        &mut self,
        progress: &mut H26xProgress,
        au: &AccessUnit,
        rest: &[ExtractedItem],
        max_frames: usize,
    ) -> (r: VideoResult<Option<H26xDecode>>)
        requires
            old(self).wf(),
            old(self).codec == VideoCodec::DecodeH264 || old(self).codec == VideoCodec::DecodeH265,
            old(progress).access_unit_count < max_frames ==> {
                &&& is_countable(old(self).parsed)
                &&& au.data@.len() + old(self).bs_buffer_size_alignment - 1 <= u64::MAX
                &&& decode_size(au.data@.len() as int, old(self).bs_buffer_size_alignment as int)
                    >= au.data@.len()
            },
        ensures
            final(self).wf(),
            final(self).same_but_entries(old(self)),
            r is Ok && r->Ok_0 is None <==> old(progress).access_unit_count >= max_frames,
            r is Ok && r->Ok_0 is None ==> *final(self) == *old(self) && *final(progress) == *old(
                progress,
            ),
            old(progress).access_unit_count < max_frames ==> {
                &&& final(self).dpb_manager.entries@ == entries_for(
                    old(self).dpb_manager.entries@,
                    *au,
                )
                &&& *final(progress) == (H26xProgress {
                    access_unit_count: (old(progress).access_unit_count + 1) as usize,
                    ..*old(progress)
                })
                &&& match r {
                    Ok(Some(d)) => {
                        &&& is_output_slot(
                            old(self).codec,
                            old(self).dpb_manager.entries@,
                            *au,
                            rest@,
                            d.output_slot,
                        )
                        &&& d.output_slot < old(self).session_dpb_slots
                        &&& d.range.padding_start == au.data@.len()
                        &&& d.range.aligned_size == decode_size(
                            au.data@.len() as int,
                            old(self).bs_buffer_size_alignment as int,
                        )
                        &&& d.range.padding_size == d.range.aligned_size - au.data@.len()
                        &&& d.output_view == old(self).dpb_views@[d.output_slot as int]
                        &&& d.output_image == old(self).dpb_images@[d.output_slot as int]
                        &&& is_h26x_command(
                            Ok(d.command),
                            *final(self),
                            *au,
                            d.output_slot,
                            old(progress).is_first_frame,
                        )
                    },
                    Ok(None) => false,
                    Err(e) => is_h26x_command(
                        Err(e),
                        *final(self),
                        *au,
                        0,
                        old(progress).is_first_frame,
                    ),
                }
            },
    {
        if progress.access_unit_count >= max_frames {
            return Ok(None);
        }
        progress.access_unit_count = progress.access_unit_count + 1;
        let range: BitstreamRange = bitstream_range(
            au.data.len() as u64,
            self.bs_buffer_size_alignment,
        );
        let output_slot: u32 = self.choose_output_slot(au, rest);
        let output_view: u64 = self.dpb_views[output_slot as usize];
        let output_image: u64 = self.dpb_images[output_slot as usize];
        let recorded: VideoResult<H26xCommand> = match self.codec {
            VideoCodec::DecodeH264 => self.record_h264_decode(
                au,
                output_slot,
                progress.is_first_frame,
            ),
            _ => self.record_h265_decode(au, output_slot),
        };
        assert(is_h26x_command(recorded, *self, *au, output_slot, progress.is_first_frame));
        match recorded {
            Ok(command) => Ok(
                Some(H26xDecode { range, output_slot, output_view, output_image, command }),
            ),
            Err(e) => Err(e),
        }
    }

    /// Marks references once an access unit has been decoded into a slot.
    pub fn finish_decode(&mut self, progress: &mut H26xProgress, au: &AccessUnit, output_slot: u32)
        requires
            old(self).wf(),
            output_slot < old(self).session_dpb_slots,
        ensures
            final(self).wf(),
            final(self).same_but_entries(old(self)),
            *final(progress) == (H26xProgress { is_first_frame: false, ..*old(progress) }),
            are_marked(
                old(self).dpb_manager.entries@,
                final(self).dpb_manager.entries@,
                old(self).dpb_manager,
                *au,
                output_slot,
                old(self).dpb_views@[output_slot as int],
                old(self).dpb_images@[output_slot as int],
            ),
    {
        progress.is_first_frame = false;
        let ghost before = self.dpb_manager.entries@;
        self.dpb_manager.set_slot_layout(output_slot, ImageLayout::VideoDecodeDpb);
        self.dpb_manager.set_slot_last_access(output_slot, LastAccessType::DecodeWrite);
        assert(self.dpb_manager.entries@ =~= before.update(
            output_slot as int,
            written_entry(before[output_slot as int]),
        ));
        if au.is_reference {
            let entry = DpbEntry {
                frame_num: au.frame_num,
                pic_order_cnt: au.pic_order_cnt,
                slot_index: output_slot,
                is_valid: true,
                image_view: self.dpb_views[output_slot as usize],
                image: self.dpb_images[output_slot as usize],
                current_layout: ImageLayout::VideoDecodeDpb,
                last_access: LastAccessType::DecodeWrite,
            };
            self.dpb_manager.entries.set(output_slot as usize, entry);
            assert(self.dpb_manager.entries@ =~= before.update(output_slot as int, entry));
            if au.adaptive_ref_pic_marking_mode_flag && au.mmco_commands.len() > 0 {
                self.dpb_manager.apply_mmco(
                    au.frame_num,
                    output_slot,
                    au.mmco_commands.as_slice(),
                );
            } else {
                self.dpb_manager.apply_sliding_window(au.frame_num);
            }
        }
    }

    /// Gives the frame of an access unit once its pixels have been read back.
    pub fn finish_readback(&mut self, au: &AccessUnit, output_slot: u32, pixels: DecodedPixels) -> (
    frame: DecodedFrame)
        requires
            old(self).wf(),
            output_slot < old(self).session_dpb_slots,
        ensures
            final(self).wf(),
            final(self).same_but_entries(old(self)),
            final(self).dpb_manager.entries@ == old(self).dpb_manager.entries@.update(
                output_slot as int,
                DpbEntry {
                    current_layout: ImageLayout::VideoDecodeDpb,
                    last_access: LastAccessType::TransferRead,
                    ..old(self).dpb_manager.entries@[output_slot as int]
                },
            ),
            frame == frame_of(*old(self), *au, pixels),
    {
        let ghost before = self.dpb_manager.entries@;
        self.dpb_manager.set_slot_layout(output_slot, ImageLayout::VideoDecodeDpb);
        self.dpb_manager.set_slot_last_access(output_slot, LastAccessType::TransferRead);
        assert(self.dpb_manager.entries@ =~= before.update(
            output_slot as int,
            DpbEntry {
                current_layout: ImageLayout::VideoDecodeDpb,
                last_access: LastAccessType::TransferRead,
                ..before[output_slot as int]
            },
        ));
        DecodedFrame {
            poc: au.pic_order_cnt[0],
            frame_num: au.frame_num,
            is_idr: au.is_idr,
            is_reference: au.is_reference,
            pixels,
            coded_width: self.coded_extent.width,
            coded_height: self.coded_extent.height,
            display_width: self.parsed.display_width,
            display_height: self.parsed.display_height,
            crop_left: self.parsed.crop_left,
            crop_top: self.parsed.crop_top,
        }
    }
}

/// Parameter sets of the stream take the place of older ones of their kind; all else that
/// is known of the stream stays.
pub proof fn law_new_sets_replace_old_ones(parsed: ParsedInfo, ps: InBandParameterSet, vps: H265Vps)
    ensures
        ({
            let p = with_sets(parsed, ps);
            &&& ps.vps == Some(H265VpsOpt::H265(vps)) ==> p.vps == Some(vps)
            &&& ps.vps is None ==> p.vps == parsed.vps
            &&& ps.sps is Some ==> p.sps == ps.sps
            &&& ps.sps is None ==> p.sps == parsed.sps
            &&& ps.pps is Some ==> p.pps == ps.pps
            &&& ps.pps is None ==> p.pps == parsed.pps
            &&& p.display_width == parsed.display_width
            &&& p.display_height == parsed.display_height
            &&& p.crop_left == parsed.crop_left
            &&& p.crop_top == parsed.crop_top
        }),
{
}

/// Which order counts are protected: for H.264 those of every valid entry, for H.265 those
/// that the unit or one that follows refers to.
pub proof fn law_protected_pictures(
    entries: Seq<DpbEntry>,
    au: AccessUnit,
    rest: Seq<ExtractedItem>,
    poc: i32,
)
    ensures
        protected_pocs(VideoCodec::DecodeH264, entries, au, rest).contains(poc) <==> exists|i: int|
            0 <= i < entries.len() && (#[trigger] entries[i]).is_valid && (
            entries[i].pic_order_cnt@[0] == poc || entries[i].pic_order_cnt@[1] == poc),
        protected_pocs(VideoCodec::DecodeH265, entries, au, rest).contains(poc) <==> (
        au.ref_pocs@.contains(poc) || exists|i: int|
            0 <= i < rest.len() && is_unit_referring_to(#[trigger] rest[i], poc)),
{
    lemma_held_pocs_are(entries, poc);
    lemma_needed_pocs_are(rest, poc);
    let a = au.ref_pocs@;
    let b = needed_pocs(rest);
    assert((a + b).contains(poc) <==> a.contains(poc) || b.contains(poc)) by {
        if a.contains(poc) {
            let k = choose|k: int| 0 <= k < a.len() && a[k] == poc;
            assert((a + b)[k] == poc);
        }
        if b.contains(poc) {
            let k = choose|k: int| 0 <= k < b.len() && b[k] == poc;
            assert((a + b)[a.len() + k] == poc);
        }
        if (a + b).contains(poc) {
            let k = choose|k: int| 0 <= k < (a + b).len() && (a + b)[k] == poc;
            if k < a.len() {
                assert(a[k] == poc);
            } else {
                assert(b[k - a.len()] == poc);
            }
        }
    }
}

/// An item is an access unit that refers to an order count.
pub open spec fn is_unit_referring_to(item: ExtractedItem, poc: i32) -> bool {
    item matches ExtractedItem::AccessUnit(au) && au.ref_pocs@.contains(poc)
}

proof fn lemma_held_pocs_are(entries: Seq<DpbEntry>, poc: i32)
    ensures
        held_pocs(entries).contains(poc) <==> exists|i: int|
            0 <= i < entries.len() && (#[trigger] entries[i]).is_valid && (
            entries[i].pic_order_cnt@[0] == poc || entries[i].pic_order_cnt@[1] == poc),
    decreases entries.len(),
{
    let all = held_pocs(entries);
    if entries.len() > 0 {
        let before = entries.drop_last();
        let rest = held_pocs(before);
        let e = entries.last();
        lemma_held_pocs_are(before, poc);
        if rest.contains(poc) {
            let k = choose|k: int| 0 <= k < rest.len() && rest[k] == poc;
            assert(all[k] == poc);
            let i = choose|i: int|
                0 <= i < before.len() && (#[trigger] before[i]).is_valid && (
                before[i].pic_order_cnt@[0] == poc || before[i].pic_order_cnt@[1] == poc);
            assert(entries[i] == before[i]);
        } else {
            if exists|i: int|
                0 <= i < entries.len() && (#[trigger] entries[i]).is_valid && (
                entries[i].pic_order_cnt@[0] == poc || entries[i].pic_order_cnt@[1] == poc) {
                let i = choose|i: int|
                    0 <= i < entries.len() && (#[trigger] entries[i]).is_valid && (
                    entries[i].pic_order_cnt@[0] == poc || entries[i].pic_order_cnt@[1] == poc);
                if i < before.len() {
                    assert(before[i] == entries[i]);
                }
                if e.pic_order_cnt@[0] == poc {
                    assert(all[rest.len() as int] == poc);
                } else {
                    assert(all[rest.len() as int + 1] == poc);
                }
            }
            if all.contains(poc) {
                let k = choose|k: int| 0 <= k < all.len() && all[k] == poc;
                if k < rest.len() {
                    assert(rest[k] == poc);
                }
                assert(entries[entries.len() - 1] == e);
            }
        }
    }
}

proof fn lemma_needed_pocs_are(items: Seq<ExtractedItem>, poc: i32)
    ensures
        needed_pocs(items).contains(poc) <==> exists|i: int|
            0 <= i < items.len() && is_unit_referring_to(#[trigger] items[i], poc),
    decreases items.len(),
{
    let all = needed_pocs(items);
    if items.len() > 0 {
        let before = items.drop_last();
        let rest = needed_pocs(before);
        lemma_needed_pocs_are(before, poc);
        if rest.contains(poc) {
            let k = choose|k: int| 0 <= k < rest.len() && rest[k] == poc;
            assert(all[k] == poc);
            let i = choose|i: int|
                0 <= i < before.len() && is_unit_referring_to(#[trigger] before[i], poc);
            assert(items[i] == before[i]);
        } else {
            if exists|i: int| 0 <= i < items.len() && is_unit_referring_to(#[trigger] items[i], poc) {
                let i = choose|i: int|
                    0 <= i < items.len() && is_unit_referring_to(#[trigger] items[i], poc);
                if i < before.len() {
                    assert(before[i] == items[i]);
                }
                let pocs = items.last()->AccessUnit_0.ref_pocs@;
                let k = choose|k: int| 0 <= k < pocs.len() && pocs[k] == poc;
                assert(all[rest.len() + k] == poc);
            }
            if all.contains(poc) {
                let k = choose|k: int| 0 <= k < all.len() && all[k] == poc;
                if k < rest.len() {
                    assert(rest[k] == poc);
                }
                let pocs = items.last()->AccessUnit_0.ref_pocs@;
                assert(pocs[k - rest.len()] == poc);
                assert(is_unit_referring_to(items[items.len() - 1], poc));
            }
        }
    }
}

/// A unit gives up all earlier pictures exactly where it is an IDR unit or says that they
/// are not to be put out; it then goes into the first slot.
pub proof fn law_clearing_units(
    codec: VideoCodec,
    entries: Seq<DpbEntry>,
    au: AccessUnit,
    rest: Seq<ExtractedItem>,
    slot: u32,
    i: int,
)
    requires
        0 <= i < entries.len(),
    ensures
        au.is_idr || au.no_output_of_prior_pics_flag ==> {
            &&& is_output_slot(codec, entries, au, rest, slot) <==> slot == 0
            &&& entries_for(entries, au).len() == entries.len()
            &&& !entries_for(entries, au)[i].is_valid
            &&& entries_for(entries, au)[i].current_layout == ImageLayout::Undefined
            &&& entries_for(entries, au)[i].last_access == LastAccessType::NoAccess
            &&& entries_for(entries, au)[i].slot_index == entries[i].slot_index
        },
        !au.is_idr && !au.no_output_of_prior_pics_flag ==> entries_for(entries, au) == entries,
{
}

/// A unit refers to a slot exactly where the slot holds a picture and is not the one that
/// the unit is decoded into.
pub proof fn law_units_refer_to_held_pictures(entries: Seq<DpbEntry>, slot: u32, e: DpbEntry)
    ensures
        references_but(entries, slot).contains(e) <==> entries.contains(e) && e.is_valid
            && e.slot_index != slot,
    decreases entries.len(),
{
    let all = references_but(entries, slot);
    if entries.len() > 0 {
        let before = entries.drop_last();
        let rest = references_but(before, slot);
        let last = entries.last();
        law_units_refer_to_held_pictures(before, slot, e);
        if rest.contains(e) {
            let k = choose|k: int| 0 <= k < rest.len() && rest[k] == e;
            assert(all[k] == e);
            let i = choose|i: int| 0 <= i < before.len() && before[i] == e;
            assert(entries[i] == e);
        } else {
            if all.contains(e) {
                let k = choose|k: int| 0 <= k < all.len() && all[k] == e;
                if k < rest.len() {
                    assert(rest[k] == e);
                }
                assert(entries[entries.len() - 1] == e);
            }
            if entries.contains(e) && e.is_valid && e.slot_index != slot {
                let i = choose|i: int| 0 <= i < entries.len() && entries[i] == e;
                if i < before.len() {
                    assert(before[i] == e);
                }
                assert(all[all.len() - 1] == e);
            }
        }
    }
}

/// A reference is told as its entry has it.
pub proof fn law_references_are_told_as_held(entries: Seq<DpbEntry>, slot: u32, i: int)
    requires
        0 <= i < references_but(entries, slot).len(),
    ensures
        h264_refs(entries, slot).len() == references_but(entries, slot).len(),
        h265_refs(entries, slot).len() == references_but(entries, slot).len(),
        ({
            let e = references_but(entries, slot)[i];
            let a = h264_refs(entries, slot)[i];
            let b = h265_refs(entries, slot)[i];
            &&& a.slot_index == e.slot_index && b.slot_index == e.slot_index
            &&& a.image_view == e.image_view && b.image_view == e.image_view
            &&& a.image == e.image && b.image == e.image
            &&& a.frame_num == e.frame_num
            &&& a.pic_order_cnt@ == e.pic_order_cnt@
            &&& b.pic_order_cnt == e.pic_order_cnt@[0]
            &&& a.current_layout == e.current_layout && b.current_layout == e.current_layout
            &&& a.last_access == e.last_access
        }),
{
}

/// What the codecs take a unit for is what it says; slice types 2 and 4 are intra coded in
/// H.264, and type 2 and IDR units in H.265.
pub proof fn law_units_are_taken_as_they_are(au: AccessUnit)
    ensures
        h264_effective(au).frame_num == au.frame_num,
        h264_effective(au).pic_order_cnt == au.pic_order_cnt@,
        h264_effective(au).is_intra <==> au.slice_type == 2 || au.slice_type == 4,
        h264_effective(au).is_reference == au.is_reference,
        h264_effective(au).is_idr == au.is_idr,
        h265_known(au).pic_order_cnt == Some(au.pic_order_cnt@[0]),
        h265_known(au).is_intra == Some(au.is_idr || au.slice_type == 2),
        h265_known(au).is_reference == Some(au.is_reference),
        h265_known(au).is_idr == Some(au.is_idr),
        h265_known(au).num_bits_for_st_ref_pic_set_in_slice == Some(
            au.num_bits_for_st_ref_pic_set_in_slice,
        ),
        h265_known(au).num_delta_pocs_of_ref_rps_idx == Some(au.num_delta_pocs_of_ref_rps_idx),
{
}

/// What is recorded for an H.264 unit: its numbers in the picture, its slot in the setup,
/// and a slot for every picture that is held elsewhere.
pub proof fn law_h264_commands(
    plan: H264DecodePlan,
    sps: H264Sps,
    pps: H264Pps,
    d: VideoDecoder,
    au: AccessUnit,
    slot: u32,
    is_first_frame: bool,
    i: int,
)
    requires
        is_h264_command(plan, sps, pps, d, au, slot, is_first_frame),
        0 <= i < references_but(d.dpb_manager.entries@, slot).len(),
    ensures
        plan.reset == is_first_frame,
        plan.picture.pic_order_cnt@ == au.pic_order_cnt@,
        plan.picture.is_idr == au.is_idr,
        plan.picture.is_reference == au.is_reference,
        plan.picture.is_intra == (au.slice_type == 2 || au.slice_type == 4),
        plan.setup_slot matches Some(s) && s.slot_index == slot as i32 && s.image_view
            == d.dpb_views@[slot as int],
        plan.ref_slots@.len() == references_but(d.dpb_manager.entries@, slot).len(),
        ({
            let e = references_but(d.dpb_manager.entries@, slot)[i];
            &&& plan.ref_slots@[i].slot_index == e.slot_index as i32
            &&& plan.ref_slots@[i].image_view == e.image_view
            &&& plan.ref_slots@[i].info matches Some(info) && info.pic_order_cnt@
                == e.pic_order_cnt@
        }),
        plan.barriers@.len() >= 1,
        plan.barriers@[0].image == d.dpb_images@[slot as int],
        plan.barriers@[0].old_layout == ImageLayout::Undefined,
        plan.barriers@[0].new_layout == ImageLayout::VideoDecodeDpb,
{
}

/// What is recorded for an H.265 unit: its numbers in the picture and its slot in the setup.
pub proof fn law_h265_commands(
    plan: H265DecodePlan,
    sps: H265Sps,
    pps: H265Pps,
    d: VideoDecoder,
    au: AccessUnit,
    slot: u32,
)
    requires
        is_h265_command(plan, sps, pps, d, au, slot),
    ensures
        plan.picture.pic_order_cnt_val == au.pic_order_cnt@[0],
        plan.picture.is_idr == au.is_idr,
        plan.picture.is_irap == (au.is_idr || au.slice_type == 2),
        plan.picture.is_reference == au.is_reference,
        plan.setup_slot matches Some(s) && s.slot_index == slot as i32 && s.image_view
            == d.dpb_views@[slot as int] && s.pic_order_cnt_val == au.pic_order_cnt@[0],
        plan.barriers@.len() >= 1,
        plan.barriers@[0].image == d.dpb_images@[slot as int],
{
}

/// A reference picture takes its slot with its numbers; any other only leaves its layout.
pub proof fn law_decoded_pictures_are_stored(
    before: Seq<DpbEntry>,
    after: Seq<DpbEntry>,
    m: DpbManager,
    au: AccessUnit,
    slot: u32,
    view: u64,
    image: u64,
    i: int,
)
    requires
        slot < before.len(),
        0 <= i < before.len(),
        are_marked(before, after, m, au, slot, view, image),
    ensures
        after.len() == before.len(),
        after[slot as int].current_layout == ImageLayout::VideoDecodeDpb,
        after[slot as int].last_access == LastAccessType::DecodeWrite,
        !au.is_reference ==> after[slot as int].is_valid == before[slot as int].is_valid,
        !au.is_reference && i != slot ==> after[i] == before[i],
        au.is_reference ==> after[slot as int].frame_num == au.frame_num && after[slot as int].pic_order_cnt
            == au.pic_order_cnt && after[slot as int].slot_index == slot
            && after[slot as int].image_view == view && after[slot as int].image == image,
        i != slot ==> after[i].frame_num == before[i].frame_num && after[i].pic_order_cnt
            == before[i].pic_order_cnt && after[i].slot_index == before[i].slot_index && (
        after[i].is_valid ==> before[i].is_valid),
{
    if au.is_reference && au.adaptive_ref_pic_marking_mode_flag && au.mmco_commands@.len() > 0 {
        let stored = before.update(slot as int, reference_entry(au, slot, view, image));
        let n = au.mmco_commands@.len();
        lemma_commands_keep_entries(stored[slot as int], au, n, m.max_frame_num);
        lemma_commands_keep_entries(stored[i], au, n, m.max_frame_num);
    }
}

proof fn lemma_commands_keep_entries(e: DpbEntry, au: AccessUnit, n: nat, max_frame_num: u32)
    requires
        n <= au.mmco_commands@.len(),
    ensures
        ({
            let r = entry_after_mmcos(e, au.mmco_commands@, n, max_frame_num, au.frame_num);
            r == DpbEntry { is_valid: r.is_valid, ..e } && (r.is_valid ==> e.is_valid)
        }),
    decreases n,
{
    if n > 0 {
        lemma_commands_keep_entries(e, au, (n - 1) as nat, max_frame_num);
    }
}

/// The frame of an access unit has the unit's numbers and the stream's extents.
pub proof fn law_frames_of_units(d: VideoDecoder, au: AccessUnit, pixels: DecodedPixels)
    ensures
        ({
            let f = frame_of(d, au, pixels);
            &&& f.poc == au.pic_order_cnt@[0]
            &&& f.frame_num == au.frame_num
            &&& f.is_idr == au.is_idr
            &&& f.is_reference == au.is_reference
            &&& f.pixels == pixels
            &&& f.coded_width == d.coded_extent.width
            &&& f.coded_height == d.coded_extent.height
            &&& f.display_width == d.parsed.display_width
            &&& f.display_height == d.parsed.display_height
            &&& f.crop_left == d.parsed.crop_left
            &&& f.crop_top == d.parsed.crop_top
        }),
{
}

/// A unit is decoded by its codec's command where both parameter sets are known, and is
/// refused otherwise, first for want of the sequence parameter set.
pub proof fn law_units_need_parameter_sets(
    r: VideoResult<H26xCommand>,
    d: VideoDecoder,
    au: AccessUnit,
    slot: u32,
    is_first_frame: bool,
)
    requires
        is_h26x_command(r, d, au, slot, is_first_frame),
        d.codec == VideoCodec::DecodeH264 || d.codec == VideoCodec::DecodeH265,
    ensures
        ({
            let h264 = d.codec == VideoCodec::DecodeH264;
            let has_sps = d.parsed.sps is Some && (d.parsed.sps->0 is H264 <==> h264);
            let has_pps = d.parsed.pps is Some && (d.parsed.pps->0 is H264 <==> h264);
            &&& r is Ok <==> has_sps && has_pps
            &&& r is Ok && h264 ==> r->Ok_0 is H264
            &&& r is Ok && !h264 ==> r->Ok_0 is H265
            &&& !has_sps ==> (r matches Err(VideoError::DecoderInit(m)) && m@ == if h264 {
                "H264 SPS not found"@
            } else {
                "H265 SPS not found"@
            })
            &&& has_sps && !has_pps ==> (r matches Err(VideoError::DecoderInit(m)) && m@ == if h264 {
                "H264 PPS not found"@
            } else {
                "H265 PPS not found"@
            })
        }),
{
}

/// An update of session parameters is one of the decoder's codec, the first, and brings a
/// set exactly where one is known.
pub proof fn law_updates_bring_known_sets(u: H26xUpdate, codec: VideoCodec, parsed: ParsedInfo)
    requires
        is_update(u, codec, parsed),
    ensures
        u is H264 <==> codec == VideoCodec::DecodeH264,
        u is H265 <==> codec == VideoCodec::DecodeH265,
        u matches H26xUpdate::H264(a) ==> {
            &&& a.update_sequence_count == 1
            &&& a.sps is Some <==> parsed.sps is Some && parsed.sps->0 is H264
            &&& a.pps is Some <==> parsed.pps is Some && parsed.pps->0 is H264
        },
        u matches H26xUpdate::H265(a) ==> {
            &&& a.update_sequence_count == 1
            &&& a.vps is Some <==> parsed.vps is Some
            &&& a.sps is Some <==> parsed.sps is Some && parsed.sps->0 is H265
            &&& a.pps is Some <==> parsed.pps is Some && parsed.pps->0 is H265
        },
{
}

} // verus!
