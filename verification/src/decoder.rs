//! The state of a decoder, and how it is set up for a stream and a device.

use crate::access_unit::{
    items_view, AccessUnitView, ExtractedItem, H264OrH265Pps, H264OrH265Sps, InBandParameterSet,
    ItemView, VideoCodec as StreamCodec,
};
use crate::av1::Av1Sps;
use crate::buffer::{align_up, rounded_up};
use crate::codes::{
    ash_separate_reference_images, contains_flags, has_flags, ImageLayout, PixelFormat,
};
use crate::container::{
    extract_vp9_frames, headers_match, is_ivf, least, vp9_packets, vp9_stream_frames, Vp9Frame,
    Vp9HeaderExtent,
};
use crate::device::VideoCodec;
use crate::dpb::{blank_entry, DpbManager};
use crate::error::{VideoError, VideoResult};
use crate::h264::{cycle_of, max_frame_num};
use crate::obu::{
    av1_packets, extract_av1_frames, frame_is, frames_are, max_obus, packet_spans, Av1Frame,
    PacketSpan,
};
use crate::parameter_sets::H264Sps;
use crate::session::{
    are_updates, build_std_header_version, codec_profile, header_name_of, is_creation_info,
    profile_of, Extent2D, SessionParametersPlan, StdHeaderVersion, StreamSets,
    VideoSessionParameters, VideoSessionParams,
};
use crate::stream_info::{ParsedInfo, StreamSetup};
use crate::text::{decimal, decimal_text};
use vstd::arithmetic::power2::pow2;
use vstd::prelude::*;
use vstd::string::*;

verus! {

/// What a device can decode.
#[derive(Debug, Clone, Copy, PartialEq, Eq, Structural)]
pub struct DecodeCapabilities {
    pub flags: u32,
    pub min_bitstream_buffer_size_alignment: u64,
    pub picture_access_granularity: Extent2D,
    pub max_coded_extent: Extent2D,
}

/// A decoder for one stream. Views and images are handles, one for each slot; in
/// an image array all slots have the same image.
pub struct VideoDecoder {
    pub codec: VideoCodec,
    pub parsed: ParsedInfo,
    pub decode_queue_family: u32,
    pub coded_extent: Extent2D,
    /// The extent of the session and of its images.
    pub session_coded_extent: Extent2D,
    pub session_dpb_slots: u32,
    pub dpb_manager: DpbManager,
    pub dpb_views: Vec<u64>,
    pub dpb_images: Vec<u64>,
    /// Whether the slots are the layers of one image.
    pub dpb_use_image_array: bool,
    pub bs_buffer_size_alignment: u64,
    pub picture_access_granularity: Extent2D,
}

/// What is said of a stream that the device cannot decode.
pub open spec fn too_large_message(coded: Extent2D, limit: Extent2D) -> Seq<char> {
    "Stream resolution "@ + decimal(coded.width as nat) + "x"@ + decimal(coded.height as nat)
        + " exceeds hardware max_coded_extent "@ + decimal(limit.width as nat) + "x"@ + decimal(
        limit.height as nat,
    )
}

/// An extent rounded up to a granularity.
pub open spec fn rounded_extent(e: Extent2D, g: Extent2D) -> Extent2D {
    Extent2D {
        width: rounded_up(e.width as int, g.width as int) as u32,
        height: rounded_up(e.height as int, g.height as int) as u32,
    }
}

/// An extent can be rounded up to a granularity.
pub open spec fn can_round(e: Extent2D, g: Extent2D) -> bool {
    &&& g.width > 0
    &&& g.height > 0
    &&& e.width + g.width - 1 <= u32::MAX
    &&& e.height + g.height - 1 <= u32::MAX
}

/// The stream's H.264 sequence parameter set, if it has one.
pub open spec fn h264_sps(parsed: ParsedInfo) -> Option<H264Sps> {
    match parsed.sps {
        Some(H264OrH265Sps::H264(s)) => Some(s),
        _ => None,
    }
}

/// The reference frames that a decoder begins with: free slots, under the limits
/// that an H.264 stream sets.
pub open spec fn is_first_dpb(m: DpbManager, setup: StreamSetup) -> bool {
    &&& m.wf()
    &&& m.max_dpb_slots == setup.session_dpb_slots
    &&& m.entries@ == Seq::new(setup.session_dpb_slots as nat, |i: int| blank_entry(i))
    &&& m.next_slot == 0
    &&& match h264_sps(setup.parsed) {
        Some(s) => m.max_num_ref_frames == s.max_num_ref_frames && m.max_frame_num
            == max_frame_num(s),
        None => m.max_num_ref_frames == 16 && m.max_frame_num == 64,
    }
}

/// The decoder that is set up for a stream on a device.
pub open spec fn is_new_decoder(
    d: VideoDecoder,
    setup: StreamSetup,
    family: u32,
    caps: DecodeCapabilities,
) -> bool {
    &&& d.codec == setup.codec
    &&& d.parsed == setup.parsed
    &&& d.decode_queue_family == family
    &&& d.coded_extent == setup.coded_extent
    &&& d.session_coded_extent == rounded_extent(
        setup.coded_extent,
        caps.picture_access_granularity,
    )
    &&& d.session_dpb_slots == setup.session_dpb_slots
    &&& is_first_dpb(d.dpb_manager, setup)
    &&& d.dpb_views@.len() == 0
    &&& d.dpb_images@.len() == 0
    &&& d.dpb_use_image_array == !has_flags(caps.flags, 2)
    &&& d.bs_buffer_size_alignment == caps.min_bitstream_buffer_size_alignment
    &&& d.picture_access_granularity == caps.picture_access_granularity
}

/// An extent is larger than a limit.
pub open spec fn exceeds(e: Extent2D, limit: Extent2D) -> bool {
    e.width > limit.width || e.height > limit.height
}

fn round_length(n: u32, g: u32) -> (r: u32)
    requires
        g > 0,
        n + g - 1 <= u32::MAX,
    ensures
        r == rounded_up(n as int, g as int),
{
    let up: u64 = align_up(n as u64, g as u64);
    proof {
        let x: u64 = (n + g - 1) as u64;
        let m: u64 = (g - 1) as u64;
        assert(x & !m <= x) by (bit_vector);
    }
    up as u32
}

fn too_large(coded: Extent2D, limit: Extent2D) -> (m: String)
    ensures
        m@ == too_large_message(coded, limit),
{
    let mut m: String = "Stream resolution ".to_owned();
    m.append(decimal_text(coded.width as u64).as_str());
    m.append("x");
    m.append(decimal_text(coded.height as u64).as_str());
    m.append(" exceeds hardware max_coded_extent ");
    m.append(decimal_text(limit.width as u64).as_str());
    m.append("x");
    m.append(decimal_text(limit.height as u64).as_str());
    m
}

fn new_dpb(setup: &StreamSetup) -> (m: DpbManager)
    requires
        h264_sps(setup.parsed) matches Some(s) ==> s.log2_max_frame_num_minus4 <= 27,
    ensures
        is_first_dpb(m, *setup),
{
    let mut m: DpbManager = DpbManager::new(setup.session_dpb_slots);
    if let Some(H264OrH265Sps::H264(s)) = &setup.parsed.sps {
        m.set_max_num_ref_frames(s.max_num_ref_frames);
        m.set_max_frame_num(cycle_of(s.log2_max_frame_num_minus4));
    }
    m
}

impl VideoDecoder {
    /// There is a slot, with a view and an image, for each entry of the reference
    /// frames.
    pub open spec fn wf(&self) -> bool {
        &&& self.dpb_manager.wf()
        &&& self.dpb_manager.max_dpb_slots == self.session_dpb_slots
        &&& self.session_dpb_slots > 0
        &&& self.dpb_views@.len() == self.session_dpb_slots
        &&& self.dpb_images@.len() == self.session_dpb_slots
    }

    /// Sets up a decoder for a stream on a device with the given decode queue. It
    /// has no images yet.
    ///
    /// Slots share one image unless the device can hold references in separate
    /// images.
    pub fn new(setup: StreamSetup, video_decode: Option<u32>, caps: &DecodeCapabilities) -> (r:
        VideoResult<VideoDecoder>)
        requires
            video_decode is Some && !exceeds(setup.coded_extent, caps.max_coded_extent) ==> {
                &&& can_round(setup.coded_extent, caps.picture_access_granularity)
                &&& h264_sps(setup.parsed) matches Some(s) ==> s.log2_max_frame_num_minus4 <= 27
            },
        ensures
            match r {
                Ok(d) => {
                    &&& video_decode is Some
                    &&& !exceeds(setup.coded_extent, caps.max_coded_extent)
                    &&& is_new_decoder(d, setup, video_decode->0, *caps)
                },
                Err(VideoError::VideoNotSupported(m)) => video_decode is None && m@
                    == "No decode queue"@,
                Err(VideoError::DecoderInit(m)) => {
                    &&& video_decode is Some
                    &&& exceeds(setup.coded_extent, caps.max_coded_extent)
                    &&& m@ == too_large_message(setup.coded_extent, caps.max_coded_extent)
                },
                Err(_) => false,
            },
    {
        let decode_queue_family: u32 = match video_decode {
            Some(f) => f,
            None => {
                return Err(VideoError::VideoNotSupported("No decode queue".to_owned()));
            },
        };
        let coded: Extent2D = setup.coded_extent;
        if coded.width > caps.max_coded_extent.width || coded.height
            > caps.max_coded_extent.height {
            return Err(VideoError::DecoderInit(too_large(coded, caps.max_coded_extent)));
        }
        let granularity: Extent2D = caps.picture_access_granularity;
        let session_coded_extent = Extent2D {
            width: round_length(coded.width, granularity.width),
            height: round_length(coded.height, granularity.height),
        };
        let dpb_manager: DpbManager = new_dpb(&setup);
        let separate: bool = contains_flags(caps.flags, ash_separate_reference_images());
        Ok(
            VideoDecoder {
                codec: setup.codec,
                decode_queue_family,
                coded_extent: coded,
                session_coded_extent,
                session_dpb_slots: setup.session_dpb_slots,
                dpb_manager,
                dpb_views: Vec::new(),
                dpb_images: Vec::new(),
                dpb_use_image_array: !separate,
                bs_buffer_size_alignment: caps.min_bitstream_buffer_size_alignment,
                picture_access_granularity: granularity,
                parsed: setup.parsed,
            },
        )
    }

    /// Takes the image of a new slot.
    pub fn add_dpb_image(&mut self, view: u64, image: u64)
        ensures
            final(self).dpb_views@ == old(self).dpb_views@.push(view),
            final(self).dpb_images@ == old(self).dpb_images@.push(image),
            *final(self) == (VideoDecoder {
                dpb_views: final(self).dpb_views,
                dpb_images: final(self).dpb_images,
                ..*old(self)
            }),
    {
        self.dpb_views.push(view);
        self.dpb_images.push(image);
    }

    /// Whether there is an image for each slot, and a slot at all.
    pub fn is_complete(&self) -> (r: bool)
        requires
            self.dpb_manager.wf(),
            self.dpb_manager.max_dpb_slots == self.session_dpb_slots,
        ensures
            r == self.wf(),
    {
        self.session_dpb_slots > 0 && self.dpb_views.len() == self.session_dpb_slots as usize
            && self.dpb_images.len() == self.session_dpb_slots as usize
    }

    /// The layer of a slot in its image.
    pub fn dpb_base_layer(&self, slot: u32) -> (layer: u32)
        ensures
            layer == base_layer(*self, slot),
    {
        if self.dpb_use_image_array {
            slot
        } else {
            0
        }
    }
}

/// The layer of a slot in its image: in an image array each slot has its own.
pub open spec fn base_layer(d: VideoDecoder, slot: u32) -> u32 {
    if d.dpb_use_image_array {
        slot
    } else {
        0
    }
}

/// No two slots of a decoder lie in the same layer of the same image, provided
/// that slots in separate images have different ones.
pub proof fn law_slots_do_not_overlap(d: VideoDecoder, i: u32, j: u32)
    requires
        i < d.dpb_images@.len(),
        j < d.dpb_images@.len(),
        i != j,
        !d.dpb_use_image_array ==> d.dpb_images@[i as int] != d.dpb_images@[j as int],
    ensures
        (d.dpb_images@[i as int], base_layer(d, i)) != (d.dpb_images@[j as int], base_layer(d, j)),
{
}

// ---------------------------------------------------------------------------
// The session
// ---------------------------------------------------------------------------

/// What the session of a decoder is created with. VP9 has no session parameters.
pub struct SessionSetup {
    pub params: VideoSessionParams,
    pub std_header_version: StdHeaderVersion,
    pub parameters: Option<SessionParametersPlan>,
}

/// The parameter sets that a session begins with: those of its codec.
pub open spec fn session_sets_of<'a>(
    codec: VideoCodec,
    parsed: &'a ParsedInfo,
    av1_sps: Option<&'a Av1Sps>,
) -> StreamSets<'a> {
    StreamSets {
        sps: match (codec, &parsed.sps) {
            (VideoCodec::DecodeH264, Some(H264OrH265Sps::H264(s))) => Some(s),
            _ => None,
        },
        pps: match (codec, &parsed.pps) {
            (VideoCodec::DecodeH264, Some(H264OrH265Pps::H264(p))) => Some(p),
            _ => None,
        },
        vps: match (codec, &parsed.vps) {
            (VideoCodec::DecodeH265, Some(v)) => Some(v),
            _ => None,
        },
        sps_h265: match (codec, &parsed.sps) {
            (VideoCodec::DecodeH265, Some(H264OrH265Sps::H265(s))) => Some(s),
            _ => None,
        },
        pps_h265: match (codec, &parsed.pps) {
            (VideoCodec::DecodeH265, Some(H264OrH265Pps::H265(p))) => Some(p),
            _ => None,
        },
        sps_av1: av1_sps,
    }
}

fn session_sets<'a>(
    codec: VideoCodec,
    parsed: &'a ParsedInfo,
    av1_sps: Option<&'a Av1Sps>,
) -> (sets: StreamSets<'a>)
    ensures
        sets == session_sets_of(codec, parsed, av1_sps),
{
    let is_h264: bool = match codec {
        VideoCodec::DecodeH264 => true,
        _ => false,
    };
    let is_h265: bool = match codec {
        VideoCodec::DecodeH265 => true,
        _ => false,
    };
    let mut sets = StreamSets {
        sps: None,
        pps: None,
        vps: None,
        sps_h265: None,
        pps_h265: None,
        sps_av1: av1_sps,
    };
    match &parsed.sps {
        Some(H264OrH265Sps::H264(s)) => {
            if is_h264 {
                sets.sps = Some(s);
            }
        },
        Some(H264OrH265Sps::H265(s)) => {
            if is_h265 {
                sets.sps_h265 = Some(s);
            }
        },
        None => {},
    }
    match &parsed.pps {
        Some(H264OrH265Pps::H264(p)) => {
            if is_h264 {
                sets.pps = Some(p);
            }
        },
        Some(H264OrH265Pps::H265(p)) => {
            if is_h265 {
                sets.pps_h265 = Some(p);
            }
        },
        None => {},
    }
    match &parsed.vps {
        Some(v) => {
            if is_h265 {
                sets.vps = Some(v);
            }
        },
        None => {},
    }
    sets
}

/// The number of pictures that a picture of a session may refer to: all slots but
/// that of the picture itself.
pub open spec fn active_references(slots: u32) -> u32 {
    if slots == 0 {
        0
    } else {
        (slots - 1) as u32
    }
}

/// A session always leaves a slot for the picture that is being decoded.
pub proof fn law_session_leaves_a_slot(d: VideoDecoder, params: VideoSessionParams)
    requires
        d.wf(),
        params == session_params_of(d),
    ensures
        params.max_active_reference_pictures < params.max_dpb_slots,
{
}

/// What the session of a decoder is created with.
pub open spec fn session_params_of(d: VideoDecoder) -> VideoSessionParams {
    VideoSessionParams {
        queue_family_index: d.decode_queue_family,
        picture_format: PixelFormat::Nv12,
        reference_picture_format: PixelFormat::Nv12,
        max_coded_extent: d.session_coded_extent,
        max_dpb_slots: d.session_dpb_slots,
        max_active_reference_pictures: active_references(d.session_dpb_slots),
        codec: d.codec,
        codec_profile_info: profile_of(d.codec, d.parsed.profile_idc),
        chroma_subsampling: d.parsed.chroma_subsampling,
        luma_bit_depth: d.parsed.luma_bit_depth,
        chroma_bit_depth: d.parsed.chroma_bit_depth,
    }
}

impl VideoDecoder {
    /// Decides what the session of the decoder is created with.
    pub fn create_video_session(&self, av1_sps: Option<&Av1Sps>) -> (s: SessionSetup)
        ensures
            s.params == session_params_of(*self),
            s.std_header_version.extension_name@ == header_name_of(self.codec),
            s.std_header_version.spec_version == 0x40_0000,
            s.parameters is None <==> self.codec == VideoCodec::DecodeVp9,
            s.parameters matches Some(plan) ==> {
                let sets = session_sets_of(self.codec, &self.parsed, av1_sps);
                &&& is_creation_info(plan.info, self.codec, sets)
                &&& are_updates(plan.updates@, self.codec, sets)
            },
    {
        let max_active_reference_pictures: u32 = if self.session_dpb_slots == 0 {
            0
        } else {
            self.session_dpb_slots - 1
        };
        let params = VideoSessionParams {
            queue_family_index: self.decode_queue_family,
            picture_format: PixelFormat::Nv12,
            reference_picture_format: PixelFormat::Nv12,
            max_coded_extent: self.session_coded_extent,
            max_dpb_slots: self.session_dpb_slots,
            max_active_reference_pictures,
            codec: self.codec,
            codec_profile_info: codec_profile(self.codec, self.parsed.profile_idc),
            chroma_subsampling: self.parsed.chroma_subsampling,
            luma_bit_depth: self.parsed.luma_bit_depth,
            chroma_bit_depth: self.parsed.chroma_bit_depth,
        };
        let std_header_version: StdHeaderVersion = build_std_header_version(self.codec);
        let parameters: Option<SessionParametersPlan> = match self.codec {
            VideoCodec::DecodeVp9 => None,
            _ => {
                let sets: StreamSets = session_sets(self.codec, &self.parsed, av1_sps);
                Some(VideoSessionParameters::create(self.codec, &sets))
            },
        };
        SessionSetup { params, std_header_version, parameters }
    }
}

// ---------------------------------------------------------------------------
// Sizes
// ---------------------------------------------------------------------------

/// `r` is the greatest of the numbers, zero where there are none.
pub open spec fn is_greatest(r: int, numbers: Seq<int>) -> bool {
    &&& forall|i: int| 0 <= i < numbers.len() ==> #[trigger] numbers[i] <= r
    &&& if numbers.len() == 0 {
        r == 0
    } else {
        numbers.contains(r)
    }
}

/// The sizes of the first `n` pieces of data.
pub open spec fn sizes(pieces: Seq<Seq<u8>>, n: int) -> Seq<int> {
    Seq::new(n as nat, |i: int| pieces[i].len() as int)
}

/// The sizes of the access units among extracted items, in order.
pub open spec fn unit_sizes(items: Seq<ItemView>) -> Seq<int>
    decreases items.len(),
{
    if items.len() == 0 {
        Seq::empty()
    } else {
        match items.last() {
            ItemView::AccessUnit(au) => unit_sizes(items.drop_last()).push(au.data.len() as int),
            ItemView::ParameterSet(_) => unit_sizes(items.drop_last()),
        }
    }
}

/// The size of the largest of the access units among extracted items.
pub fn extract_max_au_size(items: &[ExtractedItem]) -> (r: usize)
    ensures
        is_greatest(r as int, unit_sizes(items_view(items@))),
{
    let mut most: usize = 0;
    let mut i: usize = 0;
    assert(items_view(items@.take(0)) =~= Seq::empty());
    while i < items.len()
        invariant
            i <= items@.len(),
            is_greatest(most as int, unit_sizes(items_view(items@.take(i as int)))),
        decreases items@.len() - i,
    {
        let ghost before = unit_sizes(items_view(items@.take(i as int)));
        proof {
            let now = items_view(items@.take(i + 1));
            assert(now.drop_last() =~= items_view(items@.take(i as int)));
            assert(now.last() == items@[i as int]@);
        }
        if let ExtractedItem::AccessUnit(au) = &items[i] {
            let ghost now = before.push(au.data@.len() as int);
            assert(unit_sizes(items_view(items@.take(i + 1))) == now);
            let ghost old_most = most as int;
            if most < au.data.len() {
                most = au.data.len();
            }
            proof {
                assert(now[now.len() - 1] == au.data@.len());
                if before.len() > 0 {
                    let k = choose|k: int| 0 <= k < before.len() && before[k] == old_most;
                    assert(now[k] == old_most);
                }
            }
        }
        i = i + 1;
    }
    assert(items@.take(i as int) =~= items@);
    most
}

/// The size of the largest frame of a stream, of at most the given number of
/// frames. For H.264 and H.265 it is that of all data.
///
/// `headers` are the parse results for the packets of `vp9_stream_packets`; they
/// matter for a VP9 stream without a container alone.
pub fn extract_max_frame_size(
    data: &[u8],
    codec: StreamCodec,
    max_frames: usize,
    headers: &[Vec<Option<Vp9HeaderExtent>>],
) -> (r: usize)
    requires
        codec == StreamCodec::Vp9 && !is_ivf(data@) ==> headers_match(
            vp9_packets(data@),
            headers@,
        ),
    ensures
        match codec {
            StreamCodec::H264 | StreamCodec::H265 => r == data@.len(),
            StreamCodec::Vp9 => {
                let frames = vp9_stream_frames(data@, headers@);
                is_greatest(
                    r as int,
                    sizes(frames, least(frames.len() as int, max_frames as int)),
                )
            },
            StreamCodec::Av1 => {
                let spans = packet_spans(av1_packets(data@), av1_packets(data@).len());
                is_greatest(
                    r as int,
                    sizes(
                        spans.map_values(|p: PacketSpan| p.packet),
                        least(spans.len() as int, max_obus(max_frames)),
                    ),
                )
            },
        },
{
    match codec {
        StreamCodec::H264 | StreamCodec::H265 => data.len(),
        StreamCodec::Vp9 => {
            let frames: Vec<Vp9Frame> = extract_vp9_frames(data, max_frames, headers);
            let ghost pieces = vp9_stream_frames(data@, headers@);
            let mut most: usize = 0;
            let mut i: usize = 0;
            while i < frames.len()
                invariant
                    i <= frames@.len() <= pieces.len(),
                    forall|k: int|
                        0 <= k < frames@.len() ==> (#[trigger] frames@[k]).data@ == pieces[k],
                    is_greatest(most as int, sizes(pieces, i as int)),
                decreases frames@.len() - i,
            {
                let size: usize = frames[i].data.len();
                proof {
                    lemma_greatest_of_more(most as int, size as int, pieces, i as int);
                }
                if most < size {
                    most = size;
                }
                i = i + 1;
            }
            most
        },
        StreamCodec::Av1 => {
            let frames: Vec<Av1Frame> = extract_av1_frames(data, max_frames);
            let ghost spans = packet_spans(av1_packets(data@), av1_packets(data@).len());
            let ghost pieces = spans.map_values(|p: PacketSpan| p.packet);
            let mut most: usize = 0;
            let mut i: usize = 0;
            while i < frames.len()
                invariant
                    i <= frames@.len() <= spans.len(),
                    frames_are(frames@, spans),
                    pieces == spans.map_values(|p: PacketSpan| p.packet),
                    is_greatest(most as int, sizes(pieces, i as int)),
                decreases frames@.len() - i,
            {
                let size: usize = frames[i].data.len();
                proof {
                    assert(frame_is(frames@[i as int], spans[i as int], i as int));
                    lemma_greatest_of_more(most as int, size as int, pieces, i as int);
                }
                if most < size {
                    most = size;
                }
                i = i + 1;
            }
            most
        },
    }
}

proof fn lemma_greatest_of_more(most: int, size: int, pieces: Seq<Seq<u8>>, i: int)
    requires
        0 <= i < pieces.len(),
        size == pieces[i].len(),
        is_greatest(most, sizes(pieces, i)),
    ensures
        is_greatest(
            if most < size {
                size
            } else {
                most
            },
            sizes(pieces, i + 1),
        ),
{
    let before = sizes(pieces, i);
    let now = sizes(pieces, i + 1);
    assert(now[i] == size);
    assert forall|k: int| 0 <= k < now.len() implies #[trigger] now[k] <= if most < size {
        size
    } else {
        most
    } by {
        if k < i {
            assert(before[k] == now[k]);
        }
    }
    if most < size || before.len() == 0 {
    } else {
        let k = choose|k: int| 0 <= k < before.len() && before[k] == most;
        assert(now[k] == most);
    }
}

// ---------------------------------------------------------------------------
// Images that are given back
// ---------------------------------------------------------------------------

/// The handles without those that occurred before, in order.
pub open spec fn distinct(handles: Seq<u64>) -> Seq<u64>
    decreases handles.len(),
{
    if handles.len() == 0 {
        Seq::empty()
    } else {
        let rest = distinct(handles.drop_last());
        if rest.contains(handles.last()) {
            rest
        } else {
            rest.push(handles.last())
        }
    }
}

/// Of the distinct handles none occurs twice, and they are those of the list.
pub proof fn law_distinct_handles(handles: Seq<u64>)
    ensures
        distinct(handles).no_duplicates(),
        forall|h: u64| #[trigger] distinct(handles).contains(h) <==> handles.contains(h),
    decreases handles.len(),
{
    if handles.len() > 0 {
        law_distinct_handles(handles.drop_last());
        let rest = distinct(handles.drop_last());
        let all = distinct(handles);
        assert forall|h: u64| #[trigger] all.contains(h) <==> handles.contains(h) by {
            if handles.contains(h) {
                let k = choose|k: int| 0 <= k < handles.len() && handles[k] == h;
                if k < handles.len() - 1 {
                    assert(handles.drop_last()[k] == h);
                    assert(handles.drop_last().contains(h));
                    assert(rest.contains(h));
                    let m = choose|m: int| 0 <= m < rest.len() && rest[m] == h;
                    assert(all[m] == h);
                } else if !rest.contains(h) {
                    assert(all[all.len() - 1] == h);
                }
            }
            if all.contains(h) {
                let m = choose|m: int| 0 <= m < all.len() && all[m] == h;
                if m < rest.len() {
                    assert(rest[m] == h);
                    assert(rest.contains(h));
                    let k = choose|k: int|
                        0 <= k < handles.drop_last().len() && handles.drop_last()[k] == h;
                    assert(handles[k] == h);
                } else {
                    assert(handles[handles.len() - 1] == h);
                }
            }
        }
    }
}

impl VideoDecoder {
    /// The images of the slots, each once: those that are destroyed with the
    /// decoder.
    pub fn images_to_destroy(&self) -> (r: Vec<u64>)
        ensures
            r@ == distinct(self.dpb_images@),
    {
        let mut r: Vec<u64> = Vec::new();
        let mut i: usize = 0;
        while i < self.dpb_images.len()
            invariant
                i <= self.dpb_images@.len(),
                r@ == distinct(self.dpb_images@.take(i as int)),
            decreases self.dpb_images@.len() - i,
        {
            let h: u64 = self.dpb_images[i];
            proof {
                let now = self.dpb_images@.take(i + 1);
                assert(now.drop_last() =~= self.dpb_images@.take(i as int));
                assert(now.last() == h);
            }
            if !holds(&r, h) {
                r.push(h);
            }
            i = i + 1;
        }
        assert(self.dpb_images@.take(i as int) =~= self.dpb_images@);
        r
    }
}

fn holds(list: &Vec<u64>, h: u64) -> (r: bool)
    ensures
        r == list@.contains(h),
{
    let mut i: usize = 0;
    while i < list.len()
        invariant
            i <= list@.len(),
            forall|k: int| 0 <= k < i ==> list@[k] != h,
        decreases list@.len() - i,
    {
        if list[i] == h {
            return true;
        }
        i = i + 1;
    }
    false
}

/// A decoder begins with the stream's extent and slots, all of them free, and with the
/// limits that an H.264 stream sets for references; its slots share one image unless the
/// device keeps reference images apart.
pub proof fn law_new_decoders(
    d: VideoDecoder,
    setup: StreamSetup,
    family: u32,
    caps: DecodeCapabilities,
    sps: H264Sps,
    i: int,
)
    requires
        is_new_decoder(d, setup, family, caps),
        0 <= i < setup.session_dpb_slots,
    ensures
        d.codec == setup.codec,
        d.parsed == setup.parsed,
        d.decode_queue_family == family,
        d.coded_extent == setup.coded_extent,
        d.session_dpb_slots == setup.session_dpb_slots,
        d.dpb_manager.max_dpb_slots == setup.session_dpb_slots,
        d.dpb_manager.entries@.len() == setup.session_dpb_slots,
        !d.dpb_manager.entries@[i].is_valid,
        d.dpb_manager.entries@[i].slot_index == i,
        d.dpb_manager.entries@[i].current_layout == ImageLayout::Undefined,
        setup.parsed.sps == Some(H264OrH265Sps::H264(sps)) ==> d.dpb_manager.max_num_ref_frames
            == sps.max_num_ref_frames && d.dpb_manager.max_frame_num == pow2(
            (sps.log2_max_frame_num_minus4 + 4) as nat,
        ),
        setup.parsed.sps is None || setup.parsed.sps->0 is H265
            ==> d.dpb_manager.max_num_ref_frames == 16 && d.dpb_manager.max_frame_num == 64,
        d.dpb_views@.len() == 0 && d.dpb_images@.len() == 0,
        d.dpb_use_image_array <==> caps.flags as int / 2 % 2 == 0,
        d.bs_buffer_size_alignment == caps.min_bitstream_buffer_size_alignment,
        d.picture_access_granularity == caps.picture_access_granularity,
{
    let flags = caps.flags;
    assert((flags & 2 == 2) == (flags / 2 % 2 == 1)) by (bit_vector);
}

/// The extent of a session is the least one that holds the stream's and is a multiple of
/// the granularity, where that is a power of two.
pub proof fn law_session_extents(e: Extent2D, g: Extent2D, a: nat, b: nat)
    requires
        can_round(e, g),
        g.width == pow2(a),
        g.height == pow2(b),
        a < 32,
        b < 32,
    ensures
        ({
            let r = rounded_extent(e, g);
            &&& e.width <= r.width < e.width + g.width
            &&& e.height <= r.height < e.height + g.height
            &&& r.width as int % g.width as int == 0
            &&& r.height as int % g.height as int == 0
        }),
{
    crate::buffer::law_alignment_rounds_up(e.width as u64, a);
    crate::buffer::law_alignment_rounds_up(e.height as u64, b);
}

/// A stream is too large where one of its lengths is above the limit.
pub proof fn law_streams_can_be_too_large(e: Extent2D, limit: Extent2D)
    ensures
        e.width > limit.width ==> exceeds(e, limit),
        e.height > limit.height ==> exceeds(e, limit),
        e.width <= limit.width && e.height <= limit.height ==> !exceeds(e, limit),
{
}

/// In an image array each slot has its own layer, and in an image of its own the first.
pub proof fn law_layers_of_slots(d: VideoDecoder, slot: u32)
    ensures
        d.dpb_use_image_array ==> base_layer(d, slot) == slot,
        !d.dpb_use_image_array ==> base_layer(d, slot) == 0,
{
}

/// A session is created for what the stream is, with all slots but one for references.
pub proof fn law_session_parameters_are_those_of_the_stream(d: VideoDecoder)
    ensures
        ({
            let p = session_params_of(d);
            &&& p.queue_family_index == d.decode_queue_family
            &&& p.picture_format == PixelFormat::Nv12
            &&& p.reference_picture_format == PixelFormat::Nv12
            &&& p.max_coded_extent == d.session_coded_extent
            &&& p.max_dpb_slots == d.session_dpb_slots
            &&& d.session_dpb_slots > 0 ==> p.max_active_reference_pictures
                == d.session_dpb_slots - 1
            &&& d.session_dpb_slots == 0 ==> p.max_active_reference_pictures == 0
            &&& p.codec == d.codec
            &&& p.chroma_subsampling == d.parsed.chroma_subsampling
            &&& p.luma_bit_depth == d.parsed.luma_bit_depth
            &&& p.chroma_bit_depth == d.parsed.chroma_bit_depth
            &&& p.codec_profile_info == profile_of(d.codec, d.parsed.profile_idc)
        }),
{
}

/// The sizes of extracted items are those of their access units, in order.
pub proof fn law_unit_sizes(items: Seq<ItemView>, au: AccessUnitView, ps: InBandParameterSet)
    ensures
        unit_sizes(Seq::empty()) == Seq::<int>::empty(),
        unit_sizes(items.push(ItemView::AccessUnit(au))) == unit_sizes(items).push(
            au.data.len() as int,
        ),
        unit_sizes(items.push(ItemView::ParameterSet(ps))) == unit_sizes(items),
{
    assert(items.push(ItemView::AccessUnit(au)).drop_last() =~= items);
    assert(items.push(ItemView::ParameterSet(ps)).drop_last() =~= items);
}

/// A session begins with the parameter sets of its codec, and with no others of H.264 or
/// H.265.
pub proof fn law_session_sets(parsed: &ParsedInfo, av1_sps: Option<&Av1Sps>)
    ensures
        ({
            let a = session_sets_of(VideoCodec::DecodeH264, parsed, av1_sps);
            &&& a.sps is Some <==> parsed.sps is Some && parsed.sps->0 is H264
            &&& a.sps is Some ==> H264OrH265Sps::H264(*a.sps->0) == parsed.sps->0
            &&& a.pps is Some <==> parsed.pps is Some && parsed.pps->0 is H264
            &&& a.pps is Some ==> H264OrH265Pps::H264(*a.pps->0) == parsed.pps->0
            &&& a.vps is None && a.sps_h265 is None && a.pps_h265 is None
            &&& a.sps_av1 == av1_sps
        }),
        ({
            let a = session_sets_of(VideoCodec::DecodeH265, parsed, av1_sps);
            &&& a.vps is Some <==> parsed.vps is Some
            &&& a.vps is Some ==> *a.vps->0 == parsed.vps->0
            &&& a.sps_h265 is Some <==> parsed.sps is Some && parsed.sps->0 is H265
            &&& a.sps_h265 is Some ==> H264OrH265Sps::H265(*a.sps_h265->0) == parsed.sps->0
            &&& a.pps_h265 is Some <==> parsed.pps is Some && parsed.pps->0 is H265
            &&& a.pps_h265 is Some ==> H264OrH265Pps::H265(*a.pps_h265->0) == parsed.pps->0
            &&& a.sps is None && a.pps is None
            &&& a.sps_av1 == av1_sps
        }),
{
}

/// The greatest of some numbers is one of them, and none is greater.
pub proof fn law_greatest_numbers(r: int, numbers: Seq<int>, i: int)
    requires
        is_greatest(r, numbers),
    ensures
        0 <= i < numbers.len() ==> numbers[i] <= r,
        numbers.len() > 0 ==> numbers.contains(r),
        numbers.len() == 0 ==> r == 0,
{
}

/// What is said of a stream that is too large: its extent and the limit, width first.
pub proof fn law_too_large_streams_are_told(coded: Extent2D, limit: Extent2D)
    ensures
        too_large_message(coded, limit) == "Stream resolution "@ + decimal(coded.width as nat)
            + "x"@ + decimal(coded.height as nat) + " exceeds hardware max_coded_extent "@
            + decimal(limit.width as nat) + "x"@ + decimal(limit.height as nat),
{
}

} // verus!
