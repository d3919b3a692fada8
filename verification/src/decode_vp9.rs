//! Decoding VP9 streams: which slot a frame goes into and which slots it refers
//! to.

use crate::buffer::{decode_size, padded_size};
use crate::codes::ImageLayout;
use crate::container::{
    extract_vp9_frames, headers_match, is_ivf, least, vp9_packets, vp9_stream_frames, Vp9Frame,
    Vp9HeaderExtent,
};
use crate::decoder::{base_layer, VideoDecoder};
use crate::dpb::{
    forgotten, is_allowed, is_next_allowed_slot, is_recyclable_slot, DpbEntry, LastAccessType,
};
use crate::error::{VideoError, VideoResult};
use crate::presentation::DecodedFrame;
use crate::readback::DecodedPixels;
use crate::session::Extent2D;
use vstd::prelude::*;
use vstd::string::*;

verus! {

/// How far the decoding of a VP9 stream has come.
#[derive(Debug, Clone, Copy, PartialEq, Eq, Structural)]
pub struct Vp9Progress {
    pub is_first_frame: bool,
    pub frame_count: u32,
}

impl Vp9Progress {
    /// Nothing is decoded yet.
    pub fn new() -> (p: Vp9Progress)
        ensures
            p == (Vp9Progress { is_first_frame: true, frame_count: 0 }),
    {
        Vp9Progress { is_first_frame: true, frame_count: 0 }
    }
}

/// The frames of a VP9 stream that are decoded. A stream without frames is refused.
///
/// `headers` are the parse results for the packets of `vp9_stream_packets`; they
/// do not matter for an IVF container.
pub fn vp9_frames_to_decode(
    data: &[u8],
    max_frames: usize,
    headers: &[Vec<Option<Vp9HeaderExtent>>],
) -> (r: VideoResult<Vec<Vp9Frame>>)
    requires
        !is_ivf(data@) ==> headers_match(vp9_packets(data@), headers@),
    ensures
        ({
            let all = vp9_stream_frames(data@, headers@);
            match r {
                Ok(frames) => {
                    &&& frames@.len() == least(all.len() as int, max_frames as int)
                    &&& frames@.len() > 0
                    &&& forall|i: int|
                        0 <= i < frames@.len() ==> (#[trigger] frames@[i]).data@ == all[i]
                            && frames@[i].frame_count == i as u32
                },
                Err(VideoError::DecoderInit(m)) => (all.len() == 0 || max_frames == 0) && m@
                    == "No VP9 frames found"@,
                Err(_) => false,
            }
        }),
{
    let frames: Vec<Vp9Frame> = extract_vp9_frames(data, max_frames, headers);
    if frames.len() == 0 {
        return Err(VideoError::DecoderInit("No VP9 frames found".to_owned()));
    }
    Ok(frames)
}

// ---------------------------------------------------------------------------
// References
// ---------------------------------------------------------------------------

/// A slot can serve as a reference of a frame that is decoded into `output_slot`.
pub open spec fn is_usable(entries: Seq<DpbEntry>, output_slot: u32, slot: i32) -> bool {
    0 <= slot < entries.len() && slot != output_slot && entries[slot as int].is_valid
}

/// The slots that a frame refers to, in the order of the names that stand for
/// them: those that can serve as references, each once.
pub open spec fn usable_slots(
    entries: Seq<DpbEntry>,
    output_slot: u32,
    names: Seq<i32>,
) -> Seq<i32>
    decreases names.len(),
{
    if names.len() == 0 {
        Seq::empty()
    } else {
        let rest = usable_slots(entries, output_slot, names.drop_last());
        let s = names.last();
        if is_usable(entries, output_slot, s) && !rest.contains(s) {
            rest.push(s)
        } else {
            rest
        }
    }
}

/// No slot is referred to twice, all of them can serve as references, and so the
/// slot that is decoded into is none of them.
pub proof fn law_referred_slots_are_usable(
    entries: Seq<DpbEntry>,
    output_slot: u32,
    names: Seq<i32>,
)
    ensures
        usable_slots(entries, output_slot, names).no_duplicates(),
        forall|s: i32| #[trigger]
            usable_slots(entries, output_slot, names).contains(s) <==> names.contains(s)
                && is_usable(entries, output_slot, s),
    decreases names.len(),
{
    if names.len() > 0 {
        let before = names.drop_last();
        law_referred_slots_are_usable(entries, output_slot, before);
        let rest = usable_slots(entries, output_slot, before);
        let all = usable_slots(entries, output_slot, names);
        let last = names.last();
        assert forall|s: i32| #[trigger]
            all.contains(s) <==> names.contains(s) && is_usable(entries, output_slot, s) by {
            if all.contains(s) {
                let k = choose|k: int| 0 <= k < all.len() && all[k] == s;
                if k < rest.len() {
                    assert(rest[k] == s);
                    assert(rest.contains(s));
                    let j = choose|j: int| 0 <= j < before.len() && before[j] == s;
                    assert(names[j] == s);
                } else {
                    assert(names[names.len() - 1] == s);
                }
            }
            if names.contains(s) && is_usable(entries, output_slot, s) {
                let j = choose|j: int| 0 <= j < names.len() && names[j] == s;
                if j < before.len() {
                    assert(before[j] == s);
                    assert(before.contains(s));
                }
                if rest.contains(s) {
                    let k = choose|k: int| 0 <= k < rest.len() && rest[k] == s;
                    assert(all[k] == s);
                } else {
                    assert(s == last);
                    assert(all[all.len() - 1] == s);
                }
            }
        }
    }
}

/// A reference of a decode command. `image_view` and `image` are handles.
#[derive(Debug, Clone, Copy, PartialEq, Eq, Structural)]
pub struct SlotPicture {
    pub slot_index: i32,
    pub image_view: u64,
    pub image: u64,
    pub layout: ImageLayout,
}

/// The picture of a slot.
pub open spec fn picture_of(d: VideoDecoder, slot: i32) -> SlotPicture {
    SlotPicture {
        slot_index: slot,
        image_view: d.dpb_views@[slot as int],
        image: d.dpb_images@[slot as int],
        layout: d.dpb_manager.entries@[slot as int].current_layout,
    }
}

/// The pictures of slots.
pub open spec fn pictures_of(d: VideoDecoder, slots: Seq<i32>) -> Seq<SlotPicture> {
    slots.map_values(|s: i32| picture_of(d, s))
}

fn holds_slot(pictures: &Vec<SlotPicture>, slot: i32) -> (r: bool)
    ensures
        r == exists|k: int|
            0 <= k < pictures@.len() && (#[trigger] pictures@[k]).slot_index == slot,
{
    let mut i: usize = 0;
    while i < pictures.len()
        invariant
            i <= pictures@.len(),
            forall|k: int| 0 <= k < i ==> (#[trigger] pictures@[k]).slot_index != slot,
        decreases pictures@.len() - i,
    {
        if pictures[i].slot_index == slot {
            return true;
        }
        i = i + 1;
    }
    false
}

impl VideoDecoder {
    /// The pictures that a frame refers to by the slots of its names. A slot that
    /// cannot serve as a reference is passed over, and none is named twice.
    pub fn referred_pictures(&self, output_slot: u32, names: &[i32]) -> (r: Vec<SlotPicture>)
        requires
            self.wf(),
        ensures
            r@ == pictures_of(
                *self,
                usable_slots(self.dpb_manager.entries@, output_slot, names@),
            ),
    {
        let entries: &Vec<DpbEntry> = &self.dpb_manager.entries;
        let mut r: Vec<SlotPicture> = Vec::new();
        let mut i: usize = 0;
        assert(r@ =~= pictures_of(*self, usable_slots(entries@, output_slot, names@.take(0))));
        while i < names.len()
            invariant
                i <= names@.len(),
                self.wf(),
                entries@ == self.dpb_manager.entries@,
                r@ == pictures_of(
                    *self,
                    usable_slots(entries@, output_slot, names@.take(i as int)),
                ),
            decreases names@.len() - i,
        {
            let s: i32 = names[i];
            let ghost rest = usable_slots(entries@, output_slot, names@.take(i as int));
            proof {
                assert(names@.take(i + 1).drop_last() =~= names@.take(i as int));
                assert(names@.take(i + 1).last() == s);
                if rest.contains(s) {
                    let k = choose|k: int| 0 <= k < rest.len() && rest[k] == s;
                    assert(r@[k].slot_index == s);
                }
                if exists|k: int| 0 <= k < r@.len() && (#[trigger] r@[k]).slot_index == s {
                    let k = choose|k: int| 0 <= k < r@.len() && (#[trigger] r@[k]).slot_index == s;
                    assert(rest[k] == s);
                }
            }
            if s >= 0 && (s as usize) < entries.len() && s as u32 != output_slot
                && entries[s as usize].is_valid && !holds_slot(&r, s) {
                let slot: usize = s as usize;
                r.push(
                    SlotPicture {
                        slot_index: s,
                        image_view: self.dpb_views[slot],
                        image: self.dpb_images[slot],
                        layout: entries[slot].current_layout,
                    },
                );
                assert(r@ =~= pictures_of(*self, rest.push(s)));
            }
            i = i + 1;
        }
        assert(names@.take(i as int) =~= names@);
        r
    }
}

// ---------------------------------------------------------------------------
// Decoding a frame
// ---------------------------------------------------------------------------

/// How a VP9 frame is decoded.
#[derive(Debug)]
pub struct Vp9Decode {
    /// How much the decoder reads of the bitstream buffer.
    pub bitstream_size: u64,
    /// Whether all frame buffers are forgotten.
    pub forgets_frame_buffers: bool,
    pub output_slot: u32,
    pub output_view: u64,
    pub output_image: u64,
    pub output_old_layout: ImageLayout,
    pub references: Vec<SlotPicture>,
    /// Whether the decoder is reset.
    pub reset: bool,
}

/// The slots that are named: those that are no less than zero.
pub open spec fn named_slots(names: Seq<i32>) -> Seq<i32>
    decreases names.len(),
{
    if names.len() == 0 {
        Seq::empty()
    } else if names.last() >= 0 {
        named_slots(names.drop_last()).push(names.last())
    } else {
        named_slots(names.drop_last())
    }
}

/// The slot that a VP9 frame is decoded into: the first for a key frame and for
/// the first frame; otherwise the next one that is not named, the first where all
/// are.
pub open spec fn is_vp9_slot(
    entries: Seq<DpbEntry>,
    is_key_frame: bool,
    is_first_frame: bool,
    names: Seq<i32>,
    slot: u32,
) -> bool {
    if is_key_frame || is_first_frame {
        slot == 0
    } else {
        is_next_allowed_slot(entries, named_slots(names), Some(slot)) || (slot == 0
            && is_next_allowed_slot(entries, named_slots(names), None))
    }
}

/// The entries that a VP9 frame is decoded against: a key frame gives up all
/// earlier frames.
pub open spec fn vp9_entries_for(entries: Seq<DpbEntry>, is_key_frame: bool) -> Seq<DpbEntry> {
    if is_key_frame {
        entries.map_values(|e: DpbEntry| forgotten(e))
    } else {
        entries
    }
}

proof fn lemma_named_slots(names: Seq<i32>, s: i32)
    requires
        names.contains(s),
        s >= 0,
    ensures
        named_slots(names).contains(s),
    decreases names.len(),
{
    let j = choose|j: int| 0 <= j < names.len() && names[j] == s;
    let all = named_slots(names);
    let rest = named_slots(names.drop_last());
    if j < names.len() - 1 {
        assert(names.drop_last()[j] == s);
        lemma_named_slots(names.drop_last(), s);
        let k = choose|k: int| 0 <= k < rest.len() && rest[k] == s;
        assert(all[k] == s);
    } else {
        assert(all[all.len() - 1] == s);
    }
}

/// A frame that is no key frame, nor the first, never overwrites a slot that it
/// names, as long as there is a slot to use that it does not name.
pub proof fn law_vp9_references_are_spared(entries: Seq<DpbEntry>, names: Seq<i32>, slot: u32)
    requires
        is_vp9_slot(entries, false, false, names, slot),
        entries.len() <= 0x7FFF_FFFF,
        exists|i: int|
            0 <= i < entries.len() && #[trigger] is_allowed(i, named_slots(names)) && (
            entries[i].is_valid ==> entries[i].frame_num < u32::MAX),
    ensures
        slot < entries.len(),
        !names.contains(slot as i32),
{
    let i = choose|i: int|
        0 <= i < entries.len() && #[trigger] is_allowed(i, named_slots(names)) && (
        entries[i].is_valid ==> entries[i].frame_num < u32::MAX);
    assert(entries[i].is_valid ==> is_recyclable_slot(entries, named_slots(names), i));
    if names.contains(slot as i32) {
        lemma_named_slots(names, slot as i32);
    }
}

/// The frame that was decoded.
pub open spec fn vp9_frame_of(
    d: VideoDecoder,
    frame_count: u32,
    is_key_frame: bool,
    is_reference: bool,
    extent: Extent2D,
    pixels: DecodedPixels,
) -> DecodedFrame {
    DecodedFrame {
        poc: frame_count as i32,
        frame_num: frame_count,
        is_idr: is_key_frame,
        is_reference,
        pixels,
        coded_width: extent.width,
        coded_height: extent.height,
        display_width: d.parsed.display_width,
        display_height: d.parsed.display_height,
        crop_left: d.parsed.crop_left,
        crop_top: d.parsed.crop_top,
    }
}

/// Where an image is read back from.
#[derive(Debug, Clone, Copy, PartialEq, Eq, Structural)]
pub struct ReadbackSource {
    pub slot: u32,
    pub image: u64,
    pub layer: u32,
}

impl VideoDecoder {
    /// Where a frame buffer is read back from whose picture is in `pic_idx`;
    /// nothing where it has none.
    pub fn existing_picture(&self, pic_idx: i32) -> (r: Option<ReadbackSource>)
        requires
            self.wf(),
            pic_idx < self.session_dpb_slots,
        ensures
            r == if pic_idx >= 0 {
                Some(
                    ReadbackSource {
                        slot: pic_idx as u32,
                        image: self.dpb_images@[pic_idx as int],
                        layer: base_layer(*self, pic_idx as u32),
                    },
                )
            } else {
                None
            },
    {
        if pic_idx >= 0 {
            let slot: u32 = pic_idx as u32;
            Some(
                ReadbackSource {
                    slot,
                    image: self.dpb_images[slot as usize],
                    layer: self.dpb_base_layer(slot),
                },
            )
        } else {
            None
        }
    }

    /// The frame that shows an earlier one again.
    pub fn show_vp9_frame(&self, progress: &Vp9Progress, extent: Extent2D, pixels: DecodedPixels) -> (
    frame: DecodedFrame)
        ensures
            frame == vp9_frame_of(*self, progress.frame_count, false, false, extent, pixels),
    {
        DecodedFrame {
            poc: progress.frame_count as i32,
            frame_num: progress.frame_count,
            is_idr: false,
            is_reference: false,
            pixels,
            coded_width: extent.width,
            coded_height: extent.height,
            display_width: self.parsed.display_width,
            display_height: self.parsed.display_height,
            crop_left: self.parsed.crop_left,
            crop_top: self.parsed.crop_top,
        }
    }

    /// Begins to decode a VP9 frame of `len` bytes that refers to the slots
    /// `names`, less than zero where a name is not in use.
    pub fn begin_vp9_frame(
        &mut self,
        progress: &mut Vp9Progress,
        len: u64,
        is_key_frame: bool,
        names: &[i32; 3],
    ) -> (r: Vp9Decode)
        requires
            old(self).wf(),
            len + old(self).bs_buffer_size_alignment - 1 <= u64::MAX,
        ensures
            final(self).wf(),
            final(self).same_but_entries(old(self)),
            final(self).dpb_manager.entries@ == vp9_entries_for(
                old(self).dpb_manager.entries@,
                is_key_frame,
            ),
            *final(progress) == (Vp9Progress { is_first_frame: false, ..*old(progress) }),
            r.bitstream_size == decode_size(len as int, old(self).bs_buffer_size_alignment as int),
            r.forgets_frame_buffers == is_key_frame,
            is_vp9_slot(
                old(self).dpb_manager.entries@,
                is_key_frame,
                old(progress).is_first_frame,
                names@,
                r.output_slot,
            ),
            r.output_slot < old(self).session_dpb_slots,
            r.output_view == old(self).dpb_views@[r.output_slot as int],
            r.output_image == old(self).dpb_images@[r.output_slot as int],
            r.output_old_layout
                == final(self).dpb_manager.entries@[r.output_slot as int].current_layout,
            r.references@ == if is_key_frame {
                Seq::empty()
            } else {
                pictures_of(
                    *final(self),
                    usable_slots(final(self).dpb_manager.entries@, r.output_slot, names@),
                )
            },
            r.reset == old(progress).is_first_frame,
    {
        let bitstream_size: u64 = padded_size(len, self.bs_buffer_size_alignment);
        let reset: bool = progress.is_first_frame;
        let output_slot: u32 = if is_key_frame || progress.is_first_frame {
            if is_key_frame {
                self.dpb_manager.invalidate_all();
            }
            0
        } else {
            let mut exclude: Vec<i32> = Vec::new();
            let mut i: usize = 0;
            while i < 3
                invariant
                    i <= 3,
                    exclude@ == named_slots(names@.take(i as int)),
                decreases 3 - i,
            {
                assert(names@.take(i + 1).drop_last() =~= names@.take(i as int));
                if names[i] >= 0 {
                    exclude.push(names[i]);
                }
                i = i + 1;
            }
            assert(names@.take(3) =~= names@);
            match self.dpb_manager.find_or_recycle_slot_excluding(exclude.as_slice()) {
                Some(s) => s,
                None => 0,
            }
        };
        progress.is_first_frame = false;
        let references: Vec<SlotPicture> = if is_key_frame {
            Vec::new()
        } else {
            let list: &[i32] = names.as_slice();
            self.referred_pictures(output_slot, list)
        };
        Vp9Decode {
            bitstream_size,
            forgets_frame_buffers: is_key_frame,
            output_slot,
            output_view: self.dpb_views[output_slot as usize],
            output_image: self.dpb_images[output_slot as usize],
            output_old_layout: self.dpb_manager.get_slot_layout(output_slot),
            references,
            reset,
        }
    }

    /// Registers the frame that was decoded into a slot.
    pub fn finish_vp9_decode(&mut self, progress: &Vp9Progress, output_slot: u32)
        requires
            old(self).wf(),
            output_slot < old(self).session_dpb_slots,
        ensures
            final(self).wf(),
            final(self).same_but_entries(old(self)),
            final(self).dpb_manager.entries@ == old(self).dpb_manager.entries@.update(
                output_slot as int,
                DpbEntry {
                    is_valid: true,
                    frame_num: progress.frame_count,
                    slot_index: output_slot,
                    current_layout: ImageLayout::VideoDecodeDpb,
                    ..old(self).dpb_manager.entries@[output_slot as int]
                },
            ),
    {
        let ghost before = self.dpb_manager.entries@;
        self.dpb_manager.register_frame(output_slot, progress.frame_count);
        self.dpb_manager.set_slot_layout(output_slot, ImageLayout::VideoDecodeDpb);
        assert(self.dpb_manager.entries@ =~= before.update(
            output_slot as int,
            DpbEntry {
                is_valid: true,
                frame_num: progress.frame_count,
                slot_index: output_slot,
                current_layout: ImageLayout::VideoDecodeDpb,
                ..before[output_slot as int]
            },
        ));
    }

    /// Gives the frame that was decoded once its pixels have been read back, and
    /// counts it.
    pub fn finish_vp9_readback(
        &mut self,
        progress: &mut Vp9Progress,
        output_slot: u32,
        is_key_frame: bool,
        extent: Extent2D,
        pixels: DecodedPixels,
    ) -> (frame: DecodedFrame)
        requires
            old(self).wf(),
            output_slot < old(self).session_dpb_slots,
        ensures
            final(self).wf(),
            final(self).same_but_entries(old(self)),
            final(self).dpb_manager.entries@ == old(self).dpb_manager.entries@.update(
                output_slot as int,
                DpbEntry {
                    current_layout: ImageLayout::VideoDecodeDpb,
                    ..old(self).dpb_manager.entries@[output_slot as int]
                },
            ),
            *final(progress) == (Vp9Progress {
                frame_count: old(progress).frame_count.wrapping_add(1),
                ..*old(progress)
            }),
            frame == vp9_frame_of(
                *old(self),
                old(progress).frame_count,
                is_key_frame,
                true,
                extent,
                pixels,
            ),
    {
        self.dpb_manager.set_slot_layout(output_slot, ImageLayout::VideoDecodeDpb);
        let frame_count: u32 = progress.frame_count;
        progress.frame_count = frame_count.wrapping_add(1);
        DecodedFrame {
            poc: frame_count as i32,
            frame_num: frame_count,
            is_idr: is_key_frame,
            is_reference: true,
            pixels,
            coded_width: extent.width,
            coded_height: extent.height,
            display_width: self.parsed.display_width,
            display_height: self.parsed.display_height,
            crop_left: self.parsed.crop_left,
            crop_top: self.parsed.crop_top,
        }
    }
}

/// A frame refers to a slot exactly where one of its names stands for it, the slot exists,
/// holds a frame and is not the one that is decoded into; and to each of these once.
pub proof fn law_frames_refer_to_usable_slots(
    entries: Seq<DpbEntry>,
    output_slot: u32,
    names: Seq<i32>,
    slot: i32,
)
    ensures
        usable_slots(entries, output_slot, names).contains(slot) <==> names.contains(slot) && 0
            <= slot < entries.len() && slot != output_slot && entries[slot as int].is_valid,
        usable_slots(entries, output_slot, names).no_duplicates(),
    decreases names.len(),
{
    let all = usable_slots(entries, output_slot, names);
    if names.len() > 0 {
        let before = names.drop_last();
        let rest = usable_slots(entries, output_slot, before);
        let s = names.last();
        law_frames_refer_to_usable_slots(entries, output_slot, before, slot);
        assert(names =~= before.push(s));
        assert(names.contains(slot) <==> before.contains(slot) || slot == s) by {
            if before.contains(slot) {
                let k = choose|k: int| 0 <= k < before.len() && before[k] == slot;
                assert(names[k] == slot);
            }
            if names.contains(slot) && slot != s {
                let k = choose|k: int| 0 <= k < names.len() && names[k] == slot;
                assert(before[k] == slot);
            }
            if slot == s {
                assert(names[names.len() - 1] == slot);
            }
        }
        if all != rest {
            assert(all == rest.push(s));
            assert(all.contains(slot) <==> rest.contains(slot) || slot == s) by {
                if rest.contains(slot) {
                    let k = choose|k: int| 0 <= k < rest.len() && rest[k] == slot;
                    assert(all[k] == slot);
                }
                if all.contains(slot) && slot != s {
                    let k = choose|k: int| 0 <= k < all.len() && all[k] == slot;
                    assert(rest[k] == slot);
                }
                if slot == s {
                    assert(all[all.len() - 1] == slot);
                }
            }
        }
    }
}

/// The picture of a slot has the slot's view, image and layout.
pub proof fn law_pictures_of_slots(d: VideoDecoder, slots: Seq<i32>, i: int)
    requires
        0 <= i < slots.len(),
    ensures
        pictures_of(d, slots).len() == slots.len(),
        ({
            let p = pictures_of(d, slots)[i];
            let s = slots[i] as int;
            &&& p.slot_index == s
            &&& p.image_view == d.dpb_views@[s]
            &&& p.image == d.dpb_images@[s]
            &&& p.layout == d.dpb_manager.entries@[s].current_layout
        }),
{
}

/// The slots that are named are those of the names that are not below zero.
pub proof fn law_named_slots(names: Seq<i32>, slot: i32)
    ensures
        named_slots(names).contains(slot) <==> names.contains(slot) && slot >= 0,
    decreases names.len(),
{
    let all = named_slots(names);
    if names.contains(slot) && slot >= 0 {
        lemma_named_slots(names, slot);
    }
    if all.contains(slot) {
        let rest = named_slots(names.drop_last());
        let k = choose|k: int| 0 <= k < all.len() && all[k] == slot;
        if k < rest.len() {
            assert(rest[k] == slot);
            law_named_slots(names.drop_last(), slot);
            let j = choose|j: int|
                0 <= j < names.drop_last().len() && names.drop_last()[j] == slot;
            assert(names[j] == slot);
        } else {
            assert(names[names.len() - 1] == slot);
        }
    }
}

/// The slot that a frame is decoded into: the first for a key frame and for the first
/// frame, and otherwise one that no name stands for and that holds no frame, where there
/// is such a slot.
pub proof fn law_vp9_slots(entries: Seq<DpbEntry>, names: Seq<i32>, slot: u32, i: int)
    requires
        entries.len() <= 0x7FFF_FFFF,
    ensures
        is_vp9_slot(entries, true, false, names, slot) ==> slot == 0,
        is_vp9_slot(entries, false, true, names, slot) ==> slot == 0,
        is_vp9_slot(entries, true, true, names, slot) ==> slot == 0,
        is_vp9_slot(entries, false, false, names, slot) && 0 <= i < entries.len()
            && !entries[i].is_valid && !names.contains(i as i32) ==> slot <= i
            && !entries[slot as int].is_valid && !names.contains(slot as i32),
{
    if is_vp9_slot(entries, false, false, names, slot) && 0 <= i < entries.len()
        && !entries[i].is_valid && !names.contains(i as i32) {
        law_named_slots(names, i as i32);
        law_named_slots(names, slot as i32);
        assert(is_allowed(i, named_slots(names)));
    }
}

/// A key frame gives up all earlier frames, and any other frame keeps them.
pub proof fn law_key_frames_give_up_earlier_ones(entries: Seq<DpbEntry>, i: int)
    requires
        0 <= i < entries.len(),
    ensures
        vp9_entries_for(entries, false) == entries,
        vp9_entries_for(entries, true).len() == entries.len(),
        !vp9_entries_for(entries, true)[i].is_valid,
        vp9_entries_for(entries, true)[i].current_layout == ImageLayout::Undefined,
        vp9_entries_for(entries, true)[i].last_access == LastAccessType::NoAccess,
        vp9_entries_for(entries, true)[i].slot_index == entries[i].slot_index,
{
}

/// A decoded frame is numbered in decoding order, and shown as the stream says.
pub proof fn law_vp9_frames(
    d: VideoDecoder,
    frame_count: u32,
    is_key_frame: bool,
    is_reference: bool,
    extent: Extent2D,
    pixels: DecodedPixels,
)
    ensures
        ({
            let f = vp9_frame_of(d, frame_count, is_key_frame, is_reference, extent, pixels);
            &&& frame_count <= 0x7FFF_FFFF ==> f.poc == frame_count
            &&& f.frame_num == frame_count
            &&& f.is_idr == is_key_frame
            &&& f.is_reference == is_reference
            &&& f.pixels == pixels
            &&& f.coded_width == extent.width && f.coded_height == extent.height
            &&& f.display_width == d.parsed.display_width
            &&& f.display_height == d.parsed.display_height
            &&& f.crop_left == d.parsed.crop_left
            &&& f.crop_top == d.parsed.crop_top
        }),
{
}

} // verus!
