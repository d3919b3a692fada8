//! Decoding AV1 streams: which pictures a frame refers to, what becomes of the
//! frame buffers, and which frames are shown.

use crate::av1::{
    begin_slots, is_blank, is_ref_info, is_setup_info, layer_of, ref_images_of, ref_slots_of,
    slot_of, with_ref_info, Av1CurrentPicture, Av1DecodePlan, Av1Decoder, Av1RefPicture,
    Av1Sps, FrameBuffer,
};
use crate::av1_picture::{is_av1_picture, Av1FrameHeader, Av1PictureInfoContainer};
use crate::buffer::{decode_size, padded_size};
use crate::codes::ImageLayout;
use crate::commands::command_barriers;
use crate::container::least;
use crate::decode_vp9::{
    pictures_of, usable_slots, vp9_entries_for, ReadbackSource, SlotPicture,
};
use crate::decoder::{base_layer, VideoDecoder};
use crate::dpb::DpbEntry;
use crate::error::{VideoError, VideoResult};
use crate::obu::{
    av1_packets, extract_av1_frames, frames_are, max_obus, packet_spans, Av1Frame,
};
use crate::presentation::{law_ordered_frames_stay, presented, DecodedFrame};
use crate::readback::DecodedPixels;
use crate::session::Extent2D;
use vstd::arithmetic::power2::pow2;
use vstd::prelude::*;
use vstd::string::*;

verus! {

/// How far the decoding of an AV1 stream has come.
#[derive(Debug)]
pub struct Av1Stream {
    pub decoder: Av1Decoder,
    pub is_first_frame: bool,
    /// How many frames were decoded.
    pub frame_count: u32,
    /// How many frames were shown.
    pub display_count: usize,
    /// How many frames are wanted.
    pub max_frames: usize,
    /// The frames that were shown.
    pub frames: Vec<DecodedFrame>,
    /// Whether as many frames as are wanted were shown.
    pub is_done: bool,
}

impl Av1Stream {
    /// Every frame buffer that has a picture has it in one of the slots, and none has
    /// one before the first frame. The frames that were shown are counted, and their
    /// order counts are their places.
    pub open spec fn wf(&self, slots: int) -> bool {
        &&& forall|i: int|
            0 <= i < 8 ==> -1 <= (#[trigger] self.decoder.buffers@[i]).dpb_slot < slots
        &&& self.is_first_frame ==> forall|i: int|
            0 <= i < 8 ==> (#[trigger] self.decoder.buffers@[i]).dpb_slot == -1
        &&& self.display_count == self.frames@.len()
        &&& forall|i: int| 0 <= i < self.frames@.len() ==> (#[trigger] self.frames@[i]).poc == i as i32
    }

    /// Nothing is decoded yet of a stream of which so many frames are wanted.
    pub fn new(session: u64, max_frames: usize) -> (s: Av1Stream)
        ensures
            is_new_stream(s, session, max_frames),
            forall|slots: int| slots >= 0 ==> #[trigger] s.wf(slots),
    {
        let mut decoder: Av1Decoder = Av1Decoder::new();
        decoder.set_session(session);
        Av1Stream {
            decoder,
            is_first_frame: true,
            frame_count: 0,
            display_count: 0,
            max_frames,
            frames: Vec::new(),
            is_done: false,
        }
    }
}

/// Nothing is decoded yet.
pub open spec fn is_new_stream(s: Av1Stream, session: u64, max_frames: usize) -> bool {
    &&& s.decoder.session == session
    &&& s.decoder.frame_count == 0
    &&& forall|i: int| 0 <= i < 8 ==> is_blank(#[trigger] s.decoder.buffers@[i])
    &&& s.is_first_frame
    &&& s.frame_count == 0
    &&& s.display_count == 0
    &&& s.max_frames == max_frames
    &&& s.frames@.len() == 0
    &&& !s.is_done
}

/// The frames of an AV1 stream that are decoded. A stream without frames is
/// refused, and so is one without a sequence header.
pub fn av1_frames_to_decode(data: &[u8], max_frames: usize, has_sps: bool) -> (r: VideoResult<
    Vec<Av1Frame>,
>)
    ensures
        ({
            let spans = packet_spans(av1_packets(data@), av1_packets(data@).len());
            if spans.len() == 0 {
                r matches Err(VideoError::DecoderInit(m)) && m@ == "No AV1 frames found"@
            } else if !has_sps {
                r matches Err(VideoError::DecoderInit(m)) && m@ == "AV1 SPS not available"@
            } else {
                r matches Ok(frames) && {
                    &&& frames@.len() == least(spans.len() as int, max_obus(max_frames))
                    &&& frames_are(frames@, spans)
                }
            }
        }),
{
    let frames: Vec<Av1Frame> = extract_av1_frames(data, max_frames);
    if frames.len() == 0 {
        return Err(VideoError::DecoderInit("No AV1 frames found".to_owned()));
    }
    if !has_sps {
        return Err(VideoError::DecoderInit("AV1 SPS not available".to_owned()));
    }
    Ok(frames)
}

// ---------------------------------------------------------------------------
// References
// ---------------------------------------------------------------------------

/// One of the reference names stands for the picture in a slot.
pub open spec fn is_active(buffers: Seq<FrameBuffer>, refs: Seq<u8>, slot: i32) -> bool {
    slot >= 0 && exists|r: int| 0 <= r < 7 && #[trigger] slot_of(buffers, refs[r] as int) == slot
}

/// The slots of the first `n` frame buffers that a reference name stands for.
pub open spec fn active_slots(buffers: Seq<FrameBuffer>, refs: Seq<u8>, n: nat) -> Seq<i32>
    decreases n,
{
    if n == 0 {
        Seq::empty()
    } else {
        let rest = active_slots(buffers, refs, (n - 1) as nat);
        let s = buffers[n - 1].dpb_slot;
        if is_active(buffers, refs, s) {
            rest.push(s)
        } else {
            rest
        }
    }
}

/// The slots that an AV1 frame refers to: those of the frame buffers that its
/// reference names stand for, in the order of the buffers.
pub open spec fn av1_slots(
    entries: Seq<DpbEntry>,
    output_slot: u32,
    is_key_frame: bool,
    buffers: Seq<FrameBuffer>,
    refs: Seq<u8>,
) -> Seq<i32> {
    if is_key_frame {
        Seq::empty()
    } else {
        usable_slots(entries, output_slot, active_slots(buffers, refs, 8))
    }
}

/// The slots that the reference names stand for, less than zero where a name is
/// not in use.
pub open spec fn name_slots(
    buffers: Seq<FrameBuffer>,
    refs: Seq<u8>,
    is_key_frame: bool,
) -> Seq<i32> {
    Seq::new(
        7,
        |i: int|
            if is_key_frame {
                -1i32
            } else {
                slot_of(buffers, refs[i] as int)
            },
    )
}

/// The order hint of the picture in a slot: that of the frame buffer which the
/// first name from `i` on stands for whose slot it is.
pub open spec fn slot_hint(
    buffers: Seq<FrameBuffer>,
    refs: Seq<u8>,
    names: Seq<i32>,
    slot: i32,
    i: int,
) -> u32
    decreases 7 - i,
{
    if i >= 7 {
        0
    } else if names[i] == slot {
        if refs[i] < 8 {
            buffers[refs[i] as int].order_hint
        } else {
            0
        }
    } else {
        slot_hint(buffers, refs, names, slot, i + 1)
    }
}

/// The references of a decode command.
pub open spec fn av1_refs(
    pictures: Seq<SlotPicture>,
    buffers: Seq<FrameBuffer>,
    refs: Seq<u8>,
    names: Seq<i32>,
) -> Seq<Av1RefPicture> {
    pictures.map_values(
        |p: SlotPicture|
            Av1RefPicture {
                slot_index: p.slot_index,
                order_hint: slot_hint(buffers, refs, names, p.slot_index, 0),
                image: p.image,
                layout: p.layout,
            },
    )
}

fn has_name(decoder: &Av1Decoder, refs: &[u8; 7], slot: i32) -> (r: bool)
    ensures
        r == is_active(decoder.buffers@, refs@, slot),
{
    if slot < 0 {
        return false;
    }
    let mut i: usize = 0;
    while i < 7
        invariant
            i <= 7,
            slot >= 0,
            forall|k: int|
                0 <= k < i ==> #[trigger] slot_of(decoder.buffers@, refs@[k] as int) != slot,
        decreases 7 - i,
    {
        if decoder.get_pic_idx_for_frame_buffer(refs[i] as usize) == slot {
            assert(slot_of(decoder.buffers@, refs@[i as int] as int) == slot);
            return true;
        }
        i = i + 1;
    }
    false
}

fn collect_active_slots(decoder: &Av1Decoder, refs: &[u8; 7]) -> (r: Vec<i32>)
    ensures
        r@ == active_slots(decoder.buffers@, refs@, 8),
{
    let mut r: Vec<i32> = Vec::new();
    let mut i: usize = 0;
    while i < 8
        invariant
            i <= 8,
            r@ == active_slots(decoder.buffers@, refs@, i as nat),
        decreases 8 - i,
    {
        let s: i32 = decoder.buffers[i].dpb_slot;
        if has_name(decoder, refs, s) {
            r.push(s);
        }
        i = i + 1;
    }
    r
}

fn hint_of_slot(decoder: &Av1Decoder, refs: &[u8; 7], names: &[i32; 7], slot: i32) -> (r: u32)
    ensures
        r == slot_hint(decoder.buffers@, refs@, names@, slot, 0),
{
    let mut i: usize = 0;
    while i < 7
        invariant
            i <= 7,
            slot_hint(decoder.buffers@, refs@, names@, slot, 0) == slot_hint(
                decoder.buffers@,
                refs@,
                names@,
                slot,
                i as int,
            ),
        decreases 7 - i,
    {
        if names[i] == slot {
            return decoder.get_frame_buffer_order_hint(refs[i] as usize);
        }
        i = i + 1;
    }
    0
}

/// A picture that an AV1 frame refers to is one that a reference name stands for,
/// and it is never in the slot that the frame is decoded into.
pub proof fn law_av1_references_are_named(
    entries: Seq<DpbEntry>,
    output_slot: u32,
    is_key_frame: bool,
    buffers: Seq<FrameBuffer>,
    refs: Seq<u8>,
    slot: i32,
)
    requires
        av1_slots(entries, output_slot, is_key_frame, buffers, refs).contains(slot),
    ensures
        !is_key_frame,
        slot != output_slot,
        is_active(buffers, refs, slot),
        0 <= slot < entries.len(),
        entries[slot as int].is_valid,
{
    let names = active_slots(buffers, refs, 8);
    crate::decode_vp9::law_referred_slots_are_usable(entries, output_slot, names);
    assert(names.contains(slot));
    lemma_active_slots(buffers, refs, 8, slot);
}

proof fn lemma_active_slots(buffers: Seq<FrameBuffer>, refs: Seq<u8>, n: nat, slot: i32)
    requires
        active_slots(buffers, refs, n).contains(slot),
    ensures
        is_active(buffers, refs, slot),
    decreases n,
{
    let all = active_slots(buffers, refs, n);
    if n > 0 {
        let rest = active_slots(buffers, refs, (n - 1) as nat);
        let k = choose|k: int| 0 <= k < all.len() && all[k] == slot;
        if k < rest.len() {
            assert(rest[k] == slot);
            lemma_active_slots(buffers, refs, (n - 1) as nat, slot);
        }
    }
}

// ---------------------------------------------------------------------------
// Frame buffers
// ---------------------------------------------------------------------------

/// A frame refreshes frame buffer `i`.
pub open spec fn refreshes(flags: u8, i: int) -> bool {
    flags & (1u8 << (i as u8)) != 0
}

/// A frame buffer after a frame in a slot has refreshed it.
pub open spec fn is_refreshed(
    before: FrameBuffer,
    after: FrameBuffer,
    slot: u32,
    h: Av1FrameHeader,
    order_hints: Seq<u8>,
    ohb: u32,
) -> bool {
    with_ref_info(
        FrameBuffer {
            dpb_slot: slot as i32,
            order_hint: h.order_hint,
            dims: (h.frame_width, h.frame_height),
            ..before
        },
        after,
        order_hints,
        h.order_hint,
        ohb,
        h.frame_type,
        if h.disable_cdf_update {
            1
        } else {
            0
        },
        if h.segmentation_enabled {
            1
        } else {
            0
        },
    )
}

/// The frame buffers after a frame in a slot: those that it refreshes hold it, and
/// the others are as before.
pub open spec fn are_refreshed(
    before: Seq<FrameBuffer>,
    after: Seq<FrameBuffer>,
    slot: u32,
    h: Av1FrameHeader,
    order_hints: Seq<u8>,
    ohb: u32,
) -> bool {
    forall|i: int|
        0 <= i < 8 ==> if refreshes(h.refresh_frame_flags, i) {
            is_refreshed(before[i], #[trigger] after[i], slot, h, order_hints, ohb)
        } else {
            after[i] == before[i]
        }
}

/// No frame buffer has its picture in a slot.
pub open spec fn is_unheld(buffers: Seq<FrameBuffer>, slot: u32) -> bool {
    forall|k: int| 0 <= k < 8 ==> (#[trigger] buffers[k]).dpb_slot != slot
}

/// Where no frame buffer had its picture in the slot that a frame was decoded into,
/// afterwards exactly those that the frame refreshes have it there: no picture that
/// a frame buffer still holds was overwritten.
pub proof fn law_unheld_slot_spares_frame_buffers(
    before: Seq<FrameBuffer>,
    after: Seq<FrameBuffer>,
    slot: u32,
    h: Av1FrameHeader,
    order_hints: Seq<u8>,
    ohb: u32,
    i: int,
)
    requires
        are_refreshed(before, after, slot, h, order_hints, ohb),
        is_unheld(before, slot),
        slot <= 0x7FFF_FFFF,
        0 <= i < 8,
    ensures
        after[i].dpb_slot == slot <==> refreshes(h.refresh_frame_flags, i),
        !refreshes(h.refresh_frame_flags, i) ==> after[i] == before[i],
{
    assert(before[i].dpb_slot != slot);
    assert(after[i] == after[i]);
}

fn show_frame(stream: &mut Av1Stream, frame: DecodedFrame)
    requires
        old(stream).display_count == old(stream).frames@.len(),
    ensures
        one_shown(*old(stream), *final(stream), frame),
        final(stream).display_count == final(stream).frames@.len(),
        final(stream).decoder == old(stream).decoder,
        final(stream).is_first_frame == old(stream).is_first_frame,
        final(stream).frame_count == old(stream).frame_count,
{
    stream.frames.push(frame);
    let _count: usize = stream.frames.len();
    stream.display_count = stream.display_count.wrapping_add(1);
    stream.is_done = stream.display_count >= stream.max_frames;
}

fn refresh_frame_buffers(
    decoder: &mut Av1Decoder,
    slot: u32,
    h: &Av1FrameHeader,
    order_hints: &[u8; 8],
    ohb: u32,
)
    requires
        ohb <= 30,
    ensures
        final(decoder).session == old(decoder).session,
        final(decoder).frame_count == old(decoder).frame_count,
        are_refreshed(
            old(decoder).buffers@,
            final(decoder).buffers@,
            slot,
            *h,
            order_hints@,
            ohb,
        ),
{
    let disable_cdf: u8 = if h.disable_cdf_update {
        1
    } else {
        0
    };
    let seg_enabled: u8 = if h.segmentation_enabled {
        1
    } else {
        0
    };
    let ghost before = decoder.buffers@;
    let mut i: usize = 0;
    while i < 8
        invariant
            i <= 8,
            ohb <= 30,
            before == old(decoder).buffers@,
            disable_cdf == if h.disable_cdf_update {
                1u8
            } else {
                0u8
            },
            seg_enabled == if h.segmentation_enabled {
                1u8
            } else {
                0u8
            },
            decoder.session == old(decoder).session,
            decoder.frame_count == old(decoder).frame_count,
            forall|k: int|
                0 <= k < i ==> if refreshes(h.refresh_frame_flags, k) {
                    is_refreshed(
                        before[k],
                        #[trigger] decoder.buffers@[k],
                        slot,
                        *h,
                        order_hints@,
                        ohb,
                    )
                } else {
                    decoder.buffers@[k] == before[k]
                },
            forall|k: int| i <= k < 8 ==> #[trigger] decoder.buffers@[k] == before[k],
        decreases 8 - i,
    {
        if h.refresh_frame_flags & (1u8 << (i as u8)) != 0 {
            decoder.set_frame_buffer_dpb_slot(i, slot as i32);
            decoder.set_frame_buffer_order_hint(i, h.order_hint);
            decoder.set_frame_buffer_dims(i, h.frame_width, h.frame_height);
            decoder.set_frame_buffer_ref_info(
                i,
                order_hints,
                h.order_hint,
                ohb,
                h.frame_type,
                disable_cdf,
                seg_enabled,
            );
        }
        i = i + 1;
    }
}

// ---------------------------------------------------------------------------
// Decoding a frame
// ---------------------------------------------------------------------------

/// How an AV1 frame is decoded.
#[derive(Debug)]
pub struct Av1Decode {
    /// How much of the bitstream buffer is prepared.
    pub bitstream_size: u64,
    /// How much the decoder reads of it.
    pub bitstream_range: u64,
    /// Where the decoder finds the frame header.
    pub frame_header_offset: u32,
    /// How many pieces of tile data there are.
    pub tile_count: u32,
    /// The slots that the reference names stand for.
    pub reference_name_slot_indices: [i32; 7],
    /// Whether the slots are all free again to be allocated.
    pub frees_slots: bool,
    pub output_slot: u32,
    pub output_view: u64,
    pub output_image: u64,
    pub references: Vec<SlotPicture>,
    pub picture: Av1PictureInfoContainer,
    pub plan: Av1DecodePlan,
}

/// The frame buffers that a frame is decoded against: a key frame forgets them all.
pub open spec fn are_buffers_for(
    before: Seq<FrameBuffer>,
    after: Seq<FrameBuffer>,
    is_key_frame: bool,
) -> bool {
    if is_key_frame {
        forall|i: int| 0 <= i < 8 ==> is_blank(#[trigger] after[i])
    } else {
        after == before
    }
}

/// What is recorded for an AV1 frame.
pub open spec fn is_av1_plan(
    plan: Av1DecodePlan,
    c: Av1PictureInfoContainer,
    h: Av1FrameHeader,
    refs: Seq<Av1RefPicture>,
    buffers: Seq<FrameBuffer>,
    is_first_frame: bool,
    output_slot: u32,
    output_image: u64,
    old_layout: ImageLayout,
    use_image_array: bool,
) -> bool {
    &&& plan.reset == is_first_frame
    &&& plan.ref_infos@.len() == refs.len()
    &&& forall|i: int|
        0 <= i < refs.len() ==> is_ref_info(#[trigger] plan.ref_infos@[i], refs[i], buffers)
    &&& plan.setup_info matches Some(info) && is_setup_info(
        info,
        Av1CurrentPicture {
            order_hint: c.std_picture_info.order_hint,
            order_hints: c.std_picture_info.order_hints,
            disable_frame_end_update_cdf: if h.disable_frame_end_update_cdf {
                1
            } else {
                0
            },
            segmentation_enabled: if h.segmentation_enabled {
                1
            } else {
                0
            },
        },
        buffers,
    )
    &&& plan.begin_slots@ == begin_slots(refs, Some(output_slot as i32))
    &&& plan.ref_slots@ == ref_slots_of(refs)
    &&& plan.barriers@ == command_barriers(
        output_image,
        old_layout,
        layer_of(output_slot as i32, use_image_array),
        true,
        ref_images_of(refs, use_image_array),
        true,
    )
}

/// The frame that is shown next.
pub open spec fn av1_frame_of(
    d: VideoDecoder,
    s: Av1Stream,
    is_key_frame: bool,
    is_reference: bool,
    extent: Extent2D,
    pixels: DecodedPixels,
) -> DecodedFrame {
    DecodedFrame {
        poc: s.display_count as i32,
        frame_num: s.frame_count,
        is_idr: is_key_frame,
        is_reference,
        pixels,
        coded_width: extent.width,
        coded_height: extent.height,
        display_width: d.parsed.display_width,
        display_height: d.parsed.display_height,
        crop_left: d.parsed.crop_left,
        crop_top: d.parsed.crop_top,
    }
}

/// The extent in which an existing frame is shown: that of its frame buffer, that
/// of the stream where the buffer's is unknown.
pub open spec fn shown_extent(d: VideoDecoder, dims: (u32, u32)) -> Extent2D {
    if dims.0 == 0 || dims.1 == 0 {
        d.coded_extent
    } else {
        Extent2D { width: dims.0, height: dims.1 }
    }
}

// ---------------------------------------------------------------------------
// The run of a stream
// ---------------------------------------------------------------------------

/// What is done with the next frame of a stream.
#[derive(Debug, Clone, Copy, PartialEq, Eq, Structural)]
pub enum Av1Action {
    /// As many frames as are wanted were shown.
    Stop,
    /// The frame is passed over.
    Skip,
    /// An existing frame is read back and shown.
    Show { source: ReadbackSource, extent: Extent2D },
    /// The frame is decoded.
    Decode,
}

/// Where the picture of a frame buffer is read back from, and in which extent; nothing
/// where the buffer has none.
pub open spec fn existing_frame(d: VideoDecoder, s: Av1Stream, idx: u8) -> Option<
    (ReadbackSource, Extent2D),
> {
    let slot = slot_of(s.decoder.buffers@, idx as int);
    if slot >= 0 {
        Some(
            (
                ReadbackSource {
                    slot: slot as u32,
                    image: d.dpb_images@[slot as int],
                    layer: base_layer(d, slot as u32),
                },
                shown_extent(d, s.decoder.buffers@[idx as int].dims),
            ),
        )
    } else {
        None
    }
}

/// What is done with the next frame of a stream. A frame whose header cannot be read is
/// passed over, and so is one that shows a frame buffer without a picture.
pub open spec fn av1_action(d: VideoDecoder, s: Av1Stream, h: Option<Av1FrameHeader>) -> Av1Action {
    if s.is_done {
        Av1Action::Stop
    } else {
        match h {
            None => Av1Action::Skip,
            Some(h) => if h.show_existing_frame {
                match existing_frame(d, s, h.frame_to_show_map_idx) {
                    Some((source, extent)) => Av1Action::Show { source, extent },
                    None => Av1Action::Skip,
                }
            } else {
                Av1Action::Decode
            },
        }
    }
}

/// Nothing was shown between two states of a stream.
pub open spec fn nothing_shown(before: Av1Stream, after: Av1Stream) -> bool {
    &&& after.frames@ == before.frames@
    &&& after.display_count == before.display_count
    &&& after.max_frames == before.max_frames
    &&& after.is_done == before.is_done
}

/// One frame was shown between two states of a stream.
pub open spec fn one_shown(before: Av1Stream, after: Av1Stream, f: DecodedFrame) -> bool {
    &&& after.frames@ == before.frames@.push(f)
    &&& after.display_count == before.display_count.wrapping_add(1)
    &&& after.max_frames == before.max_frames
    &&& after.is_done == (after.display_count >= after.max_frames)
}

/// A frame can have been shown for a header: an existing one, which is neither a key
/// frame nor a reference, or the decoded one itself.
pub open spec fn is_shown_for(f: DecodedFrame, h: Option<Av1FrameHeader>) -> bool {
    h matches Some(h) && if h.show_existing_frame {
        !f.is_idr && !f.is_reference
    } else {
        h.show_frame && f.is_reference && f.is_idr == (h.frame_type == 0)
    }
}

/// What becomes of a stream with one of its frames.
pub open spec fn is_av1_step(
    before: Av1Stream,
    after: Av1Stream,
    h: Option<Av1FrameHeader>,
) -> bool {
    let shows = h matches Some(h) && if h.show_existing_frame {
        slot_of(before.decoder.buffers@, h.frame_to_show_map_idx as int) >= 0
    } else {
        h.show_frame
    };
    if shows {
        let f = after.frames@.last();
        &&& one_shown(before, after, f)
        &&& f.poc == before.display_count as i32
        &&& is_shown_for(f, h)
    } else {
        nothing_shown(before, after)
    }
}

/// A frame that is passed over, with the stream as it was, is such a step.
pub proof fn law_skipping_is_a_step(d: VideoDecoder, s: Av1Stream, h: Option<Av1FrameHeader>)
    requires
        av1_action(d, s, h) == Av1Action::Skip,
    ensures
        is_av1_step(s, s, h),
{
}

/// A frame that is decoded is such a step: `begun` is the stream once decoding has
/// begun, `decoded` once it is finished, and `after` once the frame is shown, if it is.
pub proof fn law_decoding_is_a_step(
    before: Av1Stream,
    begun: Av1Stream,
    decoded: Av1Stream,
    after: Av1Stream,
    h: Av1FrameHeader,
    f: DecodedFrame,
)
    requires
        !h.show_existing_frame,
        nothing_shown(before, begun),
        nothing_shown(begun, decoded),
        if h.show_frame {
            &&& one_shown(decoded, after, f)
            &&& f.poc == decoded.display_count as i32
            &&& is_shown_for(f, Some(h))
        } else {
            after == decoded
        },
    ensures
        is_av1_step(before, after, Some(h)),
{
}

/// The states that a stream goes through with its frames, as long as more are wanted.
pub open spec fn is_av1_run(states: Seq<Av1Stream>, headers: Seq<Option<Av1FrameHeader>>) -> bool {
    &&& states.len() == headers.len() + 1
    &&& forall|k: int|
        0 <= k < headers.len() ==> !states[k].is_done && is_av1_step(
            states[k],
            states[k + 1],
            #[trigger] headers[k],
        )
}

/// What holds of a whole run: no more frames are shown than are wanted; the order count
/// of each is its place, so that presentation keeps their order; and each was shown for
/// a header that says so, an existing one neither as a key frame nor as a reference.
pub proof fn law_av1_run(
    states: Seq<Av1Stream>,
    headers: Seq<Option<Av1FrameHeader>>,
    session: u64,
    max_frames: usize,
)
    requires
        max_frames >= 1,
        is_av1_run(states, headers),
        is_new_stream(states[0], session, max_frames),
    ensures
        states.last().frames@.len() <= max_frames,
        forall|i: int|
            0 <= i < states.last().frames@.len() ==> (#[trigger] states.last().frames@[i]).poc
                == i as i32,
        forall|i: int|
            0 <= i < states.last().frames@.len() ==> was_shown(
                #[trigger] states.last().frames@[i],
                headers,
            ),
        states.last().frames@.len() <= 0x8000_0000 ==> presented(states.last().frames@)
            == states.last().frames@,
{
    lemma_av1_run(states, headers, session, max_frames, headers.len() as int);
    let frames = states.last().frames@;
    if frames.len() <= 0x8000_0000 {
        assert forall|i: int, j: int| 0 <= i <= j < frames.len() implies frames[i].poc
            <= frames[j].poc by {
            assert(frames[i].poc == i as i32);
            assert(frames[j].poc == j as i32);
        }
        law_ordered_frames_stay(frames);
    }
}

/// A frame was shown for one of the headers.
pub open spec fn was_shown(f: DecodedFrame, headers: Seq<Option<Av1FrameHeader>>) -> bool {
    exists|k: int| 0 <= k < headers.len() && is_shown_for(f, #[trigger] headers[k])
}

proof fn lemma_av1_run(
    states: Seq<Av1Stream>,
    headers: Seq<Option<Av1FrameHeader>>,
    session: u64,
    max_frames: usize,
    n: int,
)
    requires
        max_frames >= 1,
        is_av1_run(states, headers),
        is_new_stream(states[0], session, max_frames),
        0 <= n <= headers.len(),
    ensures
        states[n].max_frames == max_frames,
        states[n].display_count == states[n].frames@.len(),
        states[n].is_done == (states[n].display_count >= max_frames),
        states[n].frames@.len() <= max_frames,
        forall|i: int|
            0 <= i < states[n].frames@.len() ==> (#[trigger] states[n].frames@[i]).poc == i as i32,
        forall|i: int|
            0 <= i < states[n].frames@.len() ==> was_shown(
                #[trigger] states[n].frames@[i],
                headers,
            ),
    decreases n,
{
    if n > 0 {
        lemma_av1_run(states, headers, session, max_frames, n - 1);
        let h = headers[n - 1];
        let before = states[n - 1];
        let after = states[n];
        assert(!before.is_done && is_av1_step(before, states[n - 1 + 1], h));
        assert forall|i: int| 0 <= i < after.frames@.len() implies was_shown(
            #[trigger] after.frames@[i],
            headers,
        ) by {
            if i < before.frames@.len() {
                assert(after.frames@[i] == before.frames@[i]);
            } else {
                assert(is_shown_for(after.frames@[i], headers[n - 1]));
            }
        }
        assert forall|i: int| 0 <= i < after.frames@.len() implies (#[trigger] after.frames@[i]).poc
            == i as i32 by {
            if i < before.frames@.len() {
                assert(after.frames@[i] == before.frames@[i]);
            }
        }
    }
}

impl VideoDecoder {
    /// Decides what is done with the next frame of a stream, by its header if that can be
    /// read.
    pub fn next_av1_action(&self, stream: &Av1Stream, h: Option<&Av1FrameHeader>) -> (a:
        Av1Action)
        requires
            self.wf(),
            stream.wf(self.session_dpb_slots as int),
        ensures
            a == av1_action(
                *self,
                *stream,
                match h {
                    Some(h) => Some(*h),
                    None => None,
                },
            ),
    {
        if stream.is_done {
            return Av1Action::Stop;
        }
        match h {
            None => Av1Action::Skip,
            Some(h) => {
                if !h.show_existing_frame {
                    Av1Action::Decode
                } else {
                    match self.existing_av1_frame(stream, h.frame_to_show_map_idx) {
                        Some((source, extent)) => Av1Action::Show { source, extent },
                        None => Av1Action::Skip,
                    }
                }
            },
        }
    }

    /// Where an existing frame is read back from, and in which extent; nothing where
    /// its frame buffer has no picture.
    pub fn existing_av1_frame(&self, stream: &Av1Stream, frame_to_show_map_idx: u8) -> (r: Option<
        (ReadbackSource, Extent2D),
    >)
        requires
            self.wf(),
            stream.wf(self.session_dpb_slots as int),
        ensures
            r == existing_frame(*self, *stream, frame_to_show_map_idx),
    {
        let idx: usize = frame_to_show_map_idx as usize;
        let slot: i32 = stream.decoder.get_pic_idx_for_frame_buffer(idx);
        proof {
            if idx < 8 {
                assert(stream.decoder.buffers@[idx as int].dpb_slot < self.session_dpb_slots);
            }
        }
        match self.existing_picture(slot) {
            Some(source) => {
                let (width, height): (u32, u32) = stream.decoder.get_frame_buffer_dims(idx);
                let extent: Extent2D = if width == 0 || height == 0 {
                    self.coded_extent
                } else {
                    Extent2D { width, height }
                };
                Some((source, extent))
            },
            None => None,
        }
    }

    /// Shows an existing frame that was read back in the given extent.
    pub fn show_av1_frame(
        &self,
        stream: &mut Av1Stream,
        h: &Av1FrameHeader,
        extent: Extent2D,
        pixels: DecodedPixels,
    )
        requires
            self.wf(),
            old(stream).wf(self.session_dpb_slots as int),
            av1_action(*self, *old(stream), Some(*h)) matches Av1Action::Show { extent: e, .. }
                && e == extent,
        ensures
            final(stream).wf(self.session_dpb_slots as int),
            one_shown(
                *old(stream),
                *final(stream),
                av1_frame_of(*self, *old(stream), false, false, extent, pixels),
            ),
            is_av1_step(*old(stream), *final(stream), Some(*h)),
            final(stream).decoder == old(stream).decoder,
            final(stream).is_first_frame == old(stream).is_first_frame,
            final(stream).frame_count == old(stream).frame_count,
    {
        let frame = DecodedFrame {
            poc: stream.display_count as i32,
            frame_num: stream.frame_count,
            is_idr: false,
            is_reference: false,
            pixels,
            coded_width: extent.width,
            coded_height: extent.height,
            display_width: self.parsed.display_width,
            display_height: self.parsed.display_height,
            crop_left: self.parsed.crop_left,
            crop_top: self.parsed.crop_top,
        };
        show_frame(stream, frame);
        assert(stream.frames@.last() == frame);
    }

    /// Begins to decode an AV1 frame.
    ///
    /// `len` is the size of the packet that holds it; `payload_start` and
    /// `payload_size` say where its unit's payload lies in the packet. `allocated`
    /// is the slot that is allocated to it, which no frame buffer holds, unless it is a
    /// key frame or the first: these go into the first slot. `derived` are the frame buffers that the
    /// reference names stand for where they have to be derived.
    pub fn begin_av1_frame(
        &mut self,
        stream: &mut Av1Stream,
        h: &Av1FrameHeader,
        sps: &Av1Sps,
        len: u64,
        payload_start: u32,
        payload_size: u32,
        allocated: u32,
        derived: &[i32; 7],
    ) -> (r: Av1Decode)
        requires
            old(self).wf(),
            old(stream).wf(old(self).session_dpb_slots as int),
            !old(stream).is_done,
            !h.show_existing_frame,
            h.frame_type == 0 || old(stream).is_first_frame || (allocated < old(
                self,
            ).session_dpb_slots && is_unheld(old(stream).decoder.buffers@, allocated)),
            len + old(self).bs_buffer_size_alignment - 1 <= u64::MAX,
        ensures
            final(self).wf(),
            final(self).same_but_entries(old(self)),
            final(self).dpb_manager.entries@ == vp9_entries_for(
                old(self).dpb_manager.entries@,
                h.frame_type == 0,
            ),
            final(stream).wf(old(self).session_dpb_slots as int),
            !final(stream).is_first_frame,
            final(stream).frame_count == old(stream).frame_count,
            nothing_shown(*old(stream), *final(stream)),
            final(stream).decoder.session == old(stream).decoder.session,
            final(stream).decoder.frame_count == old(stream).decoder.frame_count.wrapping_add(1),
            are_buffers_for(
                old(stream).decoder.buffers@,
                final(stream).decoder.buffers@,
                h.frame_type == 0,
            ),
            r.bitstream_size == decode_size(len as int, old(self).bs_buffer_size_alignment as int),
            r.bitstream_range == len,
            r.frame_header_offset == 0,
            r.tile_count == 1,
            r.reference_name_slot_indices@ == name_slots(
                old(stream).decoder.buffers@,
                h.ref_frame_idx@,
                h.frame_type == 0,
            ),
            r.frees_slots == (h.frame_type == 0 || old(stream).is_first_frame),
            r.output_slot == if h.frame_type == 0 || old(stream).is_first_frame {
                0
            } else {
                allocated
            },
            is_unheld(final(stream).decoder.buffers@, r.output_slot),
            r.output_view == old(self).dpb_views@[r.output_slot as int],
            r.output_image == old(self).dpb_images@[r.output_slot as int],
            r.references@ == pictures_of(
                *final(self),
                av1_slots(
                    final(self).dpb_manager.entries@,
                    r.output_slot,
                    h.frame_type == 0,
                    final(stream).decoder.buffers@,
                    h.ref_frame_idx@,
                ),
            ),
            is_av1_picture(
                r.picture,
                final(stream).decoder.buffers@,
                *h,
                *sps,
                derived@,
                payload_start,
                payload_size,
            ),
            is_av1_plan(
                r.plan,
                r.picture,
                *h,
                av1_refs(
                    r.references@,
                    final(stream).decoder.buffers@,
                    h.ref_frame_idx@,
                    r.reference_name_slot_indices@,
                ),
                final(stream).decoder.buffers@,
                old(stream).is_first_frame,
                r.output_slot,
                r.output_image,
                final(self).dpb_manager.entries@[r.output_slot as int].current_layout,
                old(self).dpb_use_image_array,
            ),
    {
        let is_key_frame: bool = h.frame_type == 0;
        let is_first_frame: bool = stream.is_first_frame;
        let bitstream_size: u64 = padded_size(len, self.bs_buffer_size_alignment);
        let names: [i32; 7] = stream.decoder.compute_reference_name_slot_indices(
            is_key_frame,
            &h.ref_frame_idx,
            h.primary_ref_frame,
        );
        assert(names@ =~= name_slots(
            stream.decoder.buffers@,
            h.ref_frame_idx@,
            h.frame_type == 0,
        ));
        let output_slot: u32 = if is_key_frame || is_first_frame {
            0
        } else {
            allocated
        };
        if is_key_frame {
            self.dpb_manager.invalidate_all();
            stream.decoder.reset_dpb();
        }
        let references: Vec<SlotPicture> = if is_key_frame {
            Vec::new()
        } else {
            let active: Vec<i32> = collect_active_slots(&stream.decoder, &h.ref_frame_idx);
            self.referred_pictures(output_slot, active.as_slice())
        };
        assert(references@ =~= pictures_of(
            *self,
            av1_slots(
                self.dpb_manager.entries@,
                output_slot,
                is_key_frame,
                stream.decoder.buffers@,
                h.ref_frame_idx@,
            ),
        ));
        let mut refs: Vec<Av1RefPicture> = Vec::new();
        let ghost buffers = stream.decoder.buffers@;
        let mut i: usize = 0;
        assert(refs@ =~= av1_refs(references@.take(0), buffers, h.ref_frame_idx@, names@));
        while i < references.len()
            invariant
                i <= references@.len(),
                buffers == stream.decoder.buffers@,
                refs@ == av1_refs(
                    references@.take(i as int),
                    buffers,
                    h.ref_frame_idx@,
                    names@,
                ),
            decreases references@.len() - i,
        {
            let p: SlotPicture = references[i];
            refs.push(
                Av1RefPicture {
                    slot_index: p.slot_index,
                    order_hint: hint_of_slot(
                        &stream.decoder,
                        &h.ref_frame_idx,
                        &names,
                        p.slot_index,
                    ),
                    image: p.image,
                    layout: p.layout,
                },
            );
            assert(refs@ =~= av1_refs(
                references@.take(i + 1),
                buffers,
                h.ref_frame_idx@,
                names@,
            ));
            i = i + 1;
        }
        assert(references@.take(i as int) =~= references@);
        let picture: Av1PictureInfoContainer = Av1PictureInfoContainer::new(
            &stream.decoder,
            h,
            sps,
            derived,
            payload_start,
            payload_size,
        );
        let current = Av1CurrentPicture {
            order_hint: picture.std_picture_info.order_hint,
            order_hints: picture.std_picture_info.order_hints,
            disable_frame_end_update_cdf: if h.disable_frame_end_update_cdf {
                1
            } else {
                0
            },
            segmentation_enabled: if h.segmentation_enabled {
                1
            } else {
                0
            },
        };
        let output_image: u64 = self.dpb_images[output_slot as usize];
        let plan: Av1DecodePlan = stream.decoder.record_decode_command(
            output_image,
            true,
            refs.as_slice(),
            &current,
            is_first_frame,
            output_slot as i32,
            self.dpb_manager.get_slot_layout(output_slot),
            self.dpb_use_image_array,
        );
        stream.is_first_frame = false;
        Av1Decode {
            bitstream_size,
            bitstream_range: len,
            frame_header_offset: 0,
            tile_count: 1,
            reference_name_slot_indices: names,
            frees_slots: is_key_frame || is_first_frame,
            output_slot,
            output_view: self.dpb_views[output_slot as usize],
            output_image,
            references,
            picture,
            plan,
        }
    }

    /// Refreshes the frame buffers and registers the frame that was decoded into a
    /// slot, and says whether it is shown. A frame that is not shown is counted at once.
    pub fn finish_av1_decode(
        &mut self,
        stream: &mut Av1Stream,
        h: &Av1FrameHeader,
        sps: &Av1Sps,
        order_hints: &[u8; 8],
        output_slot: u32,
    ) -> (is_shown: bool)
        requires
            old(self).wf(),
            old(stream).wf(old(self).session_dpb_slots as int),
            !old(stream).is_first_frame,
            output_slot < old(self).session_dpb_slots <= 0x7FFF_FFFF,
            sps.order_hint_bits_minus1 <= 30,
        ensures
            final(self).wf(),
            final(self).same_but_entries(old(self)),
            final(self).dpb_manager.entries@ == old(self).dpb_manager.entries@.update(
                output_slot as int,
                DpbEntry {
                    is_valid: true,
                    frame_num: old(stream).frame_count,
                    slot_index: output_slot,
                    current_layout: ImageLayout::VideoDecodeDpb,
                    ..old(self).dpb_manager.entries@[output_slot as int]
                },
            ),
            final(stream).wf(old(self).session_dpb_slots as int),
            are_refreshed(
                old(stream).decoder.buffers@,
                final(stream).decoder.buffers@,
                output_slot,
                *h,
                order_hints@,
                sps.order_hint_bits_minus1 as u32,
            ),
            final(stream).decoder.session == old(stream).decoder.session,
            final(stream).decoder.frame_count == old(stream).decoder.frame_count,
            final(stream).is_first_frame == old(stream).is_first_frame,
            nothing_shown(*old(stream), *final(stream)),
            is_shown == h.show_frame,
            final(stream).frame_count == if h.show_frame {
                old(stream).frame_count
            } else {
                old(stream).frame_count.wrapping_add(1)
            },
    {
        let ghost before = self.dpb_manager.entries@;
        refresh_frame_buffers(
            &mut stream.decoder,
            output_slot,
            h,
            order_hints,
            sps.order_hint_bits_minus1 as u32,
        );
        self.dpb_manager.register_frame(output_slot, stream.frame_count);
        self.dpb_manager.set_slot_layout(output_slot, ImageLayout::VideoDecodeDpb);
        assert(self.dpb_manager.entries@ =~= before.update(
            output_slot as int,
            DpbEntry {
                is_valid: true,
                frame_num: old(stream).frame_count,
                slot_index: output_slot,
                current_layout: ImageLayout::VideoDecodeDpb,
                ..before[output_slot as int]
            },
        ));
        assert forall|i: int| 0 <= i < 8 implies -1 <= (
        #[trigger] stream.decoder.buffers@[i]).dpb_slot < self.session_dpb_slots by {
            assert(-1 <= old(stream).decoder.buffers@[i].dpb_slot < self.session_dpb_slots);
        }
        if !h.show_frame {
            stream.frame_count = stream.frame_count.wrapping_add(1);
        }
        h.show_frame
    }

    /// Shows the frame that was decoded once its pixels have been read back.
    pub fn finish_av1_readback(
        &mut self,
        stream: &mut Av1Stream,
        h: &Av1FrameHeader,
        output_slot: u32,
        pixels: DecodedPixels,
    )
        requires
            old(self).wf(),
            old(stream).wf(old(self).session_dpb_slots as int),
            !old(stream).is_done,
            !h.show_existing_frame,
            h.show_frame,
            output_slot < old(self).session_dpb_slots,
        ensures
            final(self).wf(),
            final(self).same_but_entries(old(self)),
            final(self).dpb_manager.entries@ == old(self).dpb_manager.entries@.update(
                output_slot as int,
                DpbEntry {
                    current_layout: ImageLayout::VideoDecodeDpb,
                    ..old(self).dpb_manager.entries@[output_slot as int]
                },
            ),
            final(stream).wf(old(self).session_dpb_slots as int),
            one_shown(
                *old(stream),
                *final(stream),
                av1_frame_of(
                    *old(self),
                    *old(stream),
                    h.frame_type == 0,
                    true,
                    Extent2D { width: h.frame_width, height: h.frame_height },
                    pixels,
                ),
            ),
            is_av1_step(*old(stream), *final(stream), Some(*h)),
            final(stream).decoder == old(stream).decoder,
            final(stream).is_first_frame == old(stream).is_first_frame,
            final(stream).frame_count == old(stream).frame_count.wrapping_add(1),
    {
        self.dpb_manager.set_slot_layout(output_slot, ImageLayout::VideoDecodeDpb);
        let frame = DecodedFrame {
            poc: stream.display_count as i32,
            frame_num: stream.frame_count,
            is_idr: h.frame_type == 0,
            is_reference: true,
            pixels,
            coded_width: h.frame_width,
            coded_height: h.frame_height,
            display_width: self.parsed.display_width,
            display_height: self.parsed.display_height,
            crop_left: self.parsed.crop_left,
            crop_top: self.parsed.crop_top,
        };
        stream.frame_count = stream.frame_count.wrapping_add(1);
        show_frame(stream, frame);
        assert(stream.frames@.last() == frame);
    }
}

/// The slots that frame buffers lend to a frame: exactly those in which one of them has a
/// picture that a reference name stands for.
pub proof fn law_active_slots(buffers: Seq<FrameBuffer>, refs: Seq<u8>, slot: i32, r: int)
    requires
        0 <= r < 7,
    ensures
        0 <= refs[r] < 8 && buffers[refs[r] as int].dpb_slot >= 0 ==> active_slots(
            buffers,
            refs,
            8,
        ).contains(buffers[refs[r] as int].dpb_slot),
        active_slots(buffers, refs, 8).contains(slot) ==> slot >= 0 && exists|q: int|
            0 <= q < 7 && (#[trigger] refs[q]) < 8 && buffers[refs[q] as int].dpb_slot == slot,
{
    if 0 <= refs[r] < 8 && buffers[refs[r] as int].dpb_slot >= 0 {
        let s = buffers[refs[r] as int].dpb_slot;
        assert(slot_of(buffers, refs[r] as int) == s);
        lemma_active_slots_hold(buffers, refs, 8, refs[r] as int);
    }
    if active_slots(buffers, refs, 8).contains(slot) {
        lemma_active_slots_are_active(buffers, refs, 8, slot);
        let q = choose|q: int|
            0 <= q < 7 && #[trigger] slot_of(buffers, refs[q] as int) == slot;
        assert(refs[q] < 8 && buffers[refs[q] as int].dpb_slot == slot);
    }
}

proof fn lemma_active_slots_hold(buffers: Seq<FrameBuffer>, refs: Seq<u8>, n: nat, i: int)
    requires
        0 <= i < n,
        is_active(buffers, refs, buffers[i].dpb_slot),
    ensures
        active_slots(buffers, refs, n).contains(buffers[i].dpb_slot),
    decreases n,
{
    let rest = active_slots(buffers, refs, (n - 1) as nat);
    let all = active_slots(buffers, refs, n);
    let s = buffers[i].dpb_slot;
    if i < n - 1 {
        lemma_active_slots_hold(buffers, refs, (n - 1) as nat, i);
        let k = choose|k: int| 0 <= k < rest.len() && rest[k] == s;
        assert(all[k] == s);
    } else {
        assert(all[all.len() - 1] == s);
    }
}

proof fn lemma_active_slots_are_active(
    buffers: Seq<FrameBuffer>,
    refs: Seq<u8>,
    n: nat,
    slot: i32,
)
    requires
        active_slots(buffers, refs, n).contains(slot),
    ensures
        is_active(buffers, refs, slot),
    decreases n,
{
    let all = active_slots(buffers, refs, n);
    let k = choose|k: int| 0 <= k < all.len() && all[k] == slot;
    if n > 0 {
        let rest = active_slots(buffers, refs, (n - 1) as nat);
        if k < rest.len() {
            assert(rest[k] == slot);
            lemma_active_slots_are_active(buffers, refs, (n - 1) as nat, slot);
        }
    }
}

/// A reference name stands for the slot of its frame buffer, and for none in a key frame.
/// Where its slot is that of a picture and no name before it has that slot, the picture's
/// order hint is that of its frame buffer.
pub proof fn law_reference_names(
    buffers: Seq<FrameBuffer>,
    refs: Seq<u8>,
    names: Seq<i32>,
    slot: i32,
    r: int,
)
    requires
        0 <= r < 7,
    ensures
        name_slots(buffers, refs, true)[r] == -1,
        refs[r] < 8 ==> name_slots(buffers, refs, false)[r] == buffers[refs[r] as int].dpb_slot,
        refs[r] >= 8 ==> name_slots(buffers, refs, false)[r] == -1,
        refs[r] < 8 && names[r] == slot && (forall|q: int| 0 <= q < r ==> #[trigger] names[q] != slot)
            ==> slot_hint(buffers, refs, names, slot, 0) == buffers[refs[r] as int].order_hint,
        (forall|q: int| 0 <= q < 7 ==> #[trigger] names[q] != slot) ==> slot_hint(
            buffers,
            refs,
            names,
            slot,
            0,
        ) == 0,
{
    if names[r] == slot && (forall|q: int| 0 <= q < r ==> #[trigger] names[q] != slot) {
        lemma_slot_hint_is(buffers, refs, names, slot, 0, r);
    }
    if forall|q: int| 0 <= q < 7 ==> #[trigger] names[q] != slot {
        lemma_no_slot_hint(buffers, refs, names, slot, 0);
    }
}

proof fn lemma_slot_hint_is(
    buffers: Seq<FrameBuffer>,
    refs: Seq<u8>,
    names: Seq<i32>,
    slot: i32,
    from: int,
    r: int,
)
    requires
        0 <= from <= r < 7,
        names[r] == slot,
        forall|q: int| from <= q < r ==> #[trigger] names[q] != slot,
    ensures
        refs[r] < 8 ==> slot_hint(buffers, refs, names, slot, from)
            == buffers[refs[r] as int].order_hint,
    decreases r - from,
{
    if from < r {
        assert(names[from] != slot);
        lemma_slot_hint_is(buffers, refs, names, slot, from + 1, r);
    }
}

proof fn lemma_no_slot_hint(
    buffers: Seq<FrameBuffer>,
    refs: Seq<u8>,
    names: Seq<i32>,
    slot: i32,
    from: int,
)
    requires
        0 <= from <= 7,
        forall|q: int| from <= q < 7 ==> #[trigger] names[q] != slot,
    ensures
        slot_hint(buffers, refs, names, slot, from) == 0,
    decreases 7 - from,
{
    if from < 7 {
        assert(names[from] != slot);
        lemma_no_slot_hint(buffers, refs, names, slot, from + 1);
    }
}

/// A frame refreshes the frame buffers whose binary digits are set in its mask.
pub proof fn law_refresh_masks_are_digits(flags: u8)
    ensures
        refreshes(flags, 0) <==> flags as int % 2 == 1,
        refreshes(flags, 1) <==> flags as int / 2 % 2 == 1,
        refreshes(flags, 2) <==> flags as int / 4 % 2 == 1,
        refreshes(flags, 3) <==> flags as int / 8 % 2 == 1,
        refreshes(flags, 4) <==> flags as int / 16 % 2 == 1,
        refreshes(flags, 5) <==> flags as int / 32 % 2 == 1,
        refreshes(flags, 6) <==> flags as int / 64 % 2 == 1,
        refreshes(flags, 7) <==> flags as int / 128 % 2 == 1,
{
    assert((flags & (1u8 << 0u8) != 0) == (flags % 2 == 1) && (flags & (1u8 << 1u8) != 0) == (flags
        / 2 % 2 == 1) && (flags & (1u8 << 2u8) != 0) == (flags / 4 % 2 == 1) && (flags & (1u8
        << 3u8) != 0) == (flags / 8 % 2 == 1) && (flags & (1u8 << 4u8) != 0) == (flags / 16 % 2
        == 1) && (flags & (1u8 << 5u8) != 0) == (flags / 32 % 2 == 1) && (flags & (1u8 << 6u8) != 0)
        == (flags / 64 % 2 == 1) && (flags & (1u8 << 7u8) != 0) == (flags / 128 % 2 == 1))
        by (bit_vector);
}

/// A frame buffer that a frame refreshes holds what the frame's header says, in the
/// frame's slot; another one stays as it was.
pub proof fn law_refreshed_buffers_hold_the_frame(
    before: Seq<FrameBuffer>,
    after: Seq<FrameBuffer>,
    slot: u32,
    h: Av1FrameHeader,
    order_hints: Seq<u8>,
    ohb: u32,
    i: int,
    name: int,
)
    requires
        are_refreshed(before, after, slot, h, order_hints, ohb),
        0 <= i < 8,
        1 <= name < 8,
        ohb <= 7,
    ensures
        !refreshes(h.refresh_frame_flags, i) ==> after[i] == before[i],
        refreshes(h.refresh_frame_flags, i) ==> {
            &&& slot < 0x8000_0000 ==> after[i].dpb_slot == slot
            &&& after[i].order_hint == h.order_hint
            &&& after[i].dims.0 == h.frame_width
            &&& after[i].dims.1 == h.frame_height
            &&& after[i].saved_order_hints@ == order_hints
            &&& after[i].frame_type == h.frame_type
            &&& after[i].disable_cdf == 1 <==> h.disable_cdf_update
            &&& after[i].seg_enabled == 1 <==> h.segmentation_enabled
            &&& after[i].ref_dist@[0] == before[i].ref_dist@[0]
            &&& -pow2(ohb as nat) <= h.order_hint - order_hints[name] < pow2(ohb as nat)
                ==> after[i].ref_dist@[name] == h.order_hint - order_hints[name]
        },
{
    if refreshes(h.refresh_frame_flags, i) {
        assert(is_refreshed(before[i], after[i], slot, h, order_hints, ohb));
        if -pow2(ohb as nat) <= h.order_hint - order_hints[name] < pow2(ohb as nat) {
            vstd::arithmetic::power2::lemma2_to64();
            if ohb < 7 {
                vstd::arithmetic::power2::lemma_pow2_strictly_increases(ohb as nat, 7);
            }
            crate::av1::law_relative_dist_of_near_hints(
                h.order_hint as int,
                order_hints[name] as int,
                ohb as nat,
            );
        }
    }
}

/// A key frame forgets all frame buffers, and any other frame keeps them.
pub proof fn law_key_frames_forget_buffers(
    before: Seq<FrameBuffer>,
    after: Seq<FrameBuffer>,
    i: int,
)
    requires
        0 <= i < 8,
    ensures
        are_buffers_for(before, after, true) ==> after[i].dpb_slot == -1 && after[i].order_hint == 0
            && after[i].dims == (0u32, 0u32),
        are_buffers_for(before, after, false) ==> after == before,
{
}

/// A frame is shown in its own extent, with the numbers of the stream.
pub proof fn law_shown_frames(
    d: VideoDecoder,
    s: Av1Stream,
    is_key_frame: bool,
    is_reference: bool,
    extent: Extent2D,
    pixels: DecodedPixels,
    dims: (u32, u32),
)
    ensures
        ({
            let f = av1_frame_of(d, s, is_key_frame, is_reference, extent, pixels);
            &&& s.display_count <= 0x7FFF_FFFF ==> f.poc == s.display_count
            &&& f.frame_num == s.frame_count
            &&& f.is_idr == is_key_frame
            &&& f.is_reference == is_reference
            &&& f.pixels == pixels
            &&& f.coded_width == extent.width && f.coded_height == extent.height
            &&& f.display_width == d.parsed.display_width
            &&& f.display_height == d.parsed.display_height
            &&& f.crop_left == d.parsed.crop_left
            &&& f.crop_top == d.parsed.crop_top
        }),
        dims.0 > 0 && dims.1 > 0 ==> shown_extent(d, dims).width == dims.0 && shown_extent(
            d,
            dims,
        ).height == dims.1,
        dims.0 == 0 || dims.1 == 0 ==> shown_extent(d, dims) == d.coded_extent,
{
}

/// What is done with the next frame: nothing once enough were shown; one whose header is
/// unknown, or that shows a frame buffer without a picture, is passed over; an existing
/// one is read back from the slot of its frame buffer; any other is decoded.
pub proof fn law_next_frames(d: VideoDecoder, s: Av1Stream, h: Av1FrameHeader)
    ensures
        s.is_done ==> av1_action(d, s, Some(h)) == Av1Action::Stop && av1_action(d, s, None)
            == Av1Action::Stop,
        !s.is_done ==> av1_action(d, s, None) == Av1Action::Skip,
        !s.is_done && !h.show_existing_frame ==> av1_action(d, s, Some(h)) == Av1Action::Decode,
        !s.is_done && h.show_existing_frame && (h.frame_to_show_map_idx >= 8
            || s.decoder.buffers@[h.frame_to_show_map_idx as int].dpb_slot < 0) ==> av1_action(
            d,
            s,
            Some(h),
        ) == Av1Action::Skip,
        !s.is_done && h.show_existing_frame && h.frame_to_show_map_idx < 8 ==> {
            let b = s.decoder.buffers@[h.frame_to_show_map_idx as int];
            b.dpb_slot >= 0 ==> (av1_action(d, s, Some(h)) matches Av1Action::Show {
                source,
                extent,
            } && source.slot == b.dpb_slot && source.image == d.dpb_images@[b.dpb_slot as int] && (
            b.dims.0 > 0 && b.dims.1 > 0 ==> extent.width == b.dims.0 && extent.height == b.dims.1))
        },
{
}

/// The slots that a frame refers to: none in a key frame, and otherwise exactly those that
/// hold a picture which a reference name stands for, but for the one decoded into.
pub proof fn law_av1_slots_are_named(
    entries: Seq<DpbEntry>,
    output_slot: u32,
    buffers: Seq<FrameBuffer>,
    refs: Seq<u8>,
    slot: i32,
)
    ensures
        av1_slots(entries, output_slot, true, buffers, refs).len() == 0,
        av1_slots(entries, output_slot, false, buffers, refs).contains(slot) <==> {
            &&& 0 <= slot < entries.len()
            &&& slot != output_slot
            &&& entries[slot as int].is_valid
            &&& exists|r: int|
                0 <= r < 7 && (#[trigger] refs[r]) < 8 && buffers[refs[r] as int].dpb_slot == slot
        },
        av1_slots(entries, output_slot, false, buffers, refs).no_duplicates(),
{
    crate::decode_vp9::law_frames_refer_to_usable_slots(
        entries,
        output_slot,
        active_slots(buffers, refs, 8),
        slot,
    );
    law_active_slots(buffers, refs, slot, 0);
    if slot >= 0 && exists|r: int|
        0 <= r < 7 && (#[trigger] refs[r]) < 8 && buffers[refs[r] as int].dpb_slot == slot {
        let r = choose|r: int|
            0 <= r < 7 && (#[trigger] refs[r]) < 8 && buffers[refs[r] as int].dpb_slot == slot;
        law_active_slots(buffers, refs, slot, r);
    }
}

/// The references of a command are the pictures, one for one, each with the order hint of
/// its slot.
pub proof fn law_av1_references(
    pictures: Seq<SlotPicture>,
    buffers: Seq<FrameBuffer>,
    refs: Seq<u8>,
    names: Seq<i32>,
    i: int,
)
    requires
        0 <= i < pictures.len(),
    ensures
        av1_refs(pictures, buffers, refs, names).len() == pictures.len(),
        ({
            let r = av1_refs(pictures, buffers, refs, names)[i];
            &&& r.slot_index == pictures[i].slot_index
            &&& r.image == pictures[i].image
            &&& r.layout == pictures[i].layout
            &&& r.order_hint == slot_hint(buffers, refs, names, pictures[i].slot_index, 0)
        }),
{
}

/// What is recorded for a frame: it becomes a reference with its own order hints and flags,
/// coding begins with the slots of its references and its own, and its image comes first.
pub proof fn law_av1_plans(
    plan: Av1DecodePlan,
    c: Av1PictureInfoContainer,
    h: Av1FrameHeader,
    refs: Seq<Av1RefPicture>,
    buffers: Seq<FrameBuffer>,
    is_first_frame: bool,
    output_slot: u32,
    output_image: u64,
    old_layout: ImageLayout,
    use_image_array: bool,
    i: int,
)
    requires
        is_av1_plan(
            plan,
            c,
            h,
            refs,
            buffers,
            is_first_frame,
            output_slot,
            output_image,
            old_layout,
            use_image_array,
        ),
        output_slot < 0x8000_0000,
    ensures
        plan.reset == is_first_frame,
        plan.setup_info matches Some(info) && {
            &&& info.order_hint == c.std_picture_info.order_hint
            &&& info.saved_order_hints@ == c.std_picture_info.order_hints@
            &&& info.frame_type == 0
            &&& info.disable_frame_end_update_cdf == 1 <==> h.disable_frame_end_update_cdf
            &&& info.segmentation_enabled == 1 <==> h.segmentation_enabled
        },
        plan.ref_infos@.len() == refs.len(),
        plan.ref_slots@.len() == refs.len(),
        plan.begin_slots@.len() == refs.len() + 1,
        plan.begin_slots@.last() == output_slot,
        0 <= i < refs.len() ==> plan.ref_slots@[i] == refs[i].slot_index && plan.begin_slots@[i]
            == refs[i].slot_index && (refs[i].order_hint <= 255 ==> plan.ref_infos@[i].order_hint
            == refs[i].order_hint),
        plan.barriers@.len() >= 1,
        plan.barriers@[0].image == output_image,
        plan.barriers@[0].old_layout == old_layout,
        plan.barriers@[0].new_layout == ImageLayout::VideoDecodeDpb,
        use_image_array ==> plan.barriers@[0].base_array_layer == output_slot,
        !use_image_array ==> plan.barriers@[0].base_array_layer == 0,
{
    if 0 <= i < refs.len() {
        assert(is_ref_info(plan.ref_infos@[i], refs[i], buffers));
    }
}

} // verus!
