//! The state of a decode pipeline that runs frame by frame.

use crate::av1::{is_blank, ref_images_of, Av1CurrentPicture, Av1DecodePlan, Av1Decoder, Av1RefPicture};
use crate::codes::{ImageLayout, PixelFormat};
use crate::commands::command_barriers;
use crate::decode_h26x::H26xUpdate;
use crate::decode_vp9::{SlotPicture, Vp9Decode};
use crate::device::VideoCodec;
use crate::error::{VideoError, VideoResult};
use crate::h264::{
    effective, h264_pps_of, h264_ref_images, h264_sps_of, is_picture_info, sps_is_countable,
    H264DecodePlan, H264Decoder, H264DpbRefPicture, H264Known,
};
use crate::h265::{
    h265_pps_of, is_h265_plan, is_h265_sps, is_h265_vps, H265DecodePlan, H265Decoder, H265Known,
    H265RefPictureInfo,
};
use crate::image::y_size;
use crate::parameter_sets::H264Sps;
use crate::session::{StreamSets, VideoSession, VideoSessionParameters};
use vstd::arithmetic::power2::pow2;
use vstd::prelude::*;
use vstd::string::*;

verus! {

/// What a pipeline is set up with.
#[derive(Debug, Clone, Copy)]
pub struct VideoPipelineConfig {
    pub codec: VideoCodec,
    pub picture_format: PixelFormat,
    pub reference_picture_format: PixelFormat,
    pub max_coded_extent: (u32, u32),
    pub max_dpb_slots: u32,
    pub max_active_reference_pictures: u32,
    pub bitstream_buffer_size: u64,
    pub bitstream_buffer_pool_size: usize,
}

/// The usual set-up for a codec.
pub open spec fn usual_config(codec: VideoCodec) -> VideoPipelineConfig {
    VideoPipelineConfig {
        codec,
        picture_format: PixelFormat::Nv12,
        reference_picture_format: PixelFormat::Nv12,
        max_coded_extent: (1920, 1088),
        max_dpb_slots: 16,
        max_active_reference_pictures: 16,
        bitstream_buffer_size: 1_048_576,
        bitstream_buffer_pool_size: 4,
    }
}

impl Default for VideoPipelineConfig {
    fn default() -> (c: VideoPipelineConfig)
        ensures
            c == usual_config(VideoCodec::DecodeH264),
    {
        VideoPipelineConfig {
            codec: VideoCodec::DecodeH264,
            picture_format: PixelFormat::Nv12,
            reference_picture_format: PixelFormat::Nv12,
            max_coded_extent: (1920, 1088),
            max_dpb_slots: 16,
            max_active_reference_pictures: 16,
            bitstream_buffer_size: 1_048_576,
            bitstream_buffer_pool_size: 4,
        }
    }
}

/// An output image, by its handles.
#[derive(Debug, Clone, Copy, PartialEq, Eq, Structural)]
pub struct OutputImageInfo {
    pub image: u64,
    pub image_view: u64,
    pub memory: u64,
}

/// The decoder of a pipeline. That of VP9 keeps no state here.
pub enum DecoderWrapper {
    H264(H264Decoder),
    H265(H265Decoder),
    Av1(Av1Decoder),
    Vp9,
}

/// A video decode pipeline.
pub struct VideoPipeline {
    pub decode_queue_family: u32,
    pub session: Option<VideoSession>,
    pub session_parameters: Option<VideoSessionParameters>,
    /// The number of bitstream buffers, once there are any.
    pub bitstream_buffers: Option<usize>,
    pub decoder: Option<DecoderWrapper>,
    pub output_images: Vec<OutputImageInfo>,
    pub config: VideoPipelineConfig,
    pub frame_count: u32,
}

/// The decoder is a new one of the codec: it has no parameter sets, has counted
/// nothing, and its frame buffers were never refreshed.
pub open spec fn is_new_decoder_of(d: DecoderWrapper, codec: VideoCodec, session: u64) -> bool {
    match codec {
        VideoCodec::DecodeH264 => d == DecoderWrapper::H264(
            H264Decoder {
                sps: None,
                pps: None,
                frame_count: 0,
                prev_frame_num: 0,
                prev_pic_order_cnt_lsb: 0,
                update_sequence_count: 0,
            },
        ),
        VideoCodec::DecodeH265 => d == DecoderWrapper::H265(
            H265Decoder {
                vps: None,
                sps: None,
                pps: None,
                frame_count: 0,
                prev_pic_order_cnt_lsb: 0,
            },
        ),
        VideoCodec::DecodeAv1 => d matches DecoderWrapper::Av1(a) && {
            &&& a.session == session
            &&& a.frame_count == 0
            &&& forall|i: int| 0 <= i < 8 ==> is_blank(#[trigger] a.buffers@[i])
        },
        VideoCodec::DecodeVp9 => d is Vp9,
    }
}

/// What is recorded for a frame.
#[derive(Debug)]
pub enum PipelineCommand {
    H264(H264DecodePlan),
    H265(H265DecodePlan),
    Av1(Av1DecodePlan),
    Nothing,
}

/// A decoder can record a command: an H.264 decoder that has a sequence parameter
/// set has a picture parameter set too, and an H.265 decoder has both.
pub open spec fn can_record(d: DecoderWrapper) -> bool {
    match d {
        DecoderWrapper::H264(h) => h.sps is Some ==> h.pps is Some && sps_is_countable(h.sps->0),
        DecoderWrapper::H265(h) => h.sps is Some && h.pps is Some
            && h.sps->0.log2_max_pic_order_cnt_lsb_minus4 <= 27,
        _ => true,
    }
}

/// The decoder is one for H.264 without a sequence parameter set.
pub open spec fn lacks_h264_sps(d: Option<DecoderWrapper>) -> bool {
    d matches Some(DecoderWrapper::H264(h)) && h.sps is None
}

/// What is known of a frame of which the stream says nothing.
pub open spec fn nothing_known() -> H264Known {
    H264Known {
        frame_num: None,
        pic_order_cnt: None,
        is_intra: None,
        is_reference: None,
        is_idr: None,
    }
}

/// A decoder has counted one more frame of which the stream says nothing.
pub open spec fn has_counted(d: DecoderWrapper, before: DecoderWrapper) -> bool {
    match (d, before) {
        (DecoderWrapper::H264(a), DecoderWrapper::H264(b)) => {
            let e = effective(nothing_known(), b.frame_count, b.sps->0);
            a == (H264Decoder {
                frame_count: b.frame_count.wrapping_add(1),
                prev_frame_num: e.frame_num,
                prev_pic_order_cnt_lsb: e.pic_order_cnt[0] as u32,
                ..b
            })
        },
        (DecoderWrapper::H265(a), DecoderWrapper::H265(b)) => a == (H265Decoder {
            frame_count: b.frame_count.wrapping_add(1),
            ..b
        }),
        (DecoderWrapper::Av1(a), DecoderWrapper::Av1(b)) => a == (Av1Decoder {
            frame_count: b.frame_count.wrapping_add(1),
            ..b
        }),
        (DecoderWrapper::Vp9, DecoderWrapper::Vp9) => true,
        _ => false,
    }
}

/// A decoder that could record a command can record another once it has counted the
/// frame, so that a pipeline decodes frame after frame.
pub proof fn law_counting_decoders_go_on(d: DecoderWrapper, before: DecoderWrapper)
    requires
        can_record(before),
        has_counted(d, before),
    ensures
        can_record(d),
        lacks_h264_sps(Some(d)) == lacks_h264_sps(Some(before)),
{
}

/// What is recorded for a frame of which the stream says nothing.
pub open spec fn is_pipeline_command(
    c: PipelineCommand,
    d: Option<DecoderWrapper>,
    image: u64,
) -> bool {
    let barriers = command_barriers(
        image,
        ImageLayout::Undefined,
        0,
        false,
        Seq::empty(),
        false,
    );
    match d {
        Some(DecoderWrapper::H264(h)) => c matches PipelineCommand::H264(plan) && {
            &&& h.sps is Some
            &&& is_picture_info(
                plan.picture,
                effective(nothing_known(), h.frame_count, h.sps->0),
                h.sps->0,
                h.pps->0,
            )
            &&& !plan.reset
            &&& plan.begin_slots@.len() == 0
            &&& plan.setup_slot is None
            &&& plan.ref_slots@.len() == 0
            &&& plan.barriers@ == barriers
        },
        Some(DecoderWrapper::H265(h)) => c matches PipelineCommand::H265(plan) && is_h265_plan(
            plan,
            h.sps->0,
            h.pps->0,
            h.frame_count,
            image,
            None,
            Seq::empty(),
            H265Known {
                pic_order_cnt: None,
                is_intra: None,
                is_reference: None,
                is_idr: None,
                num_bits_for_st_ref_pic_set_in_slice: None,
                num_delta_pocs_of_ref_rps_idx: None,
            },
            Seq::empty(),
            Seq::empty(),
        ),
        Some(DecoderWrapper::Av1(_)) => c matches PipelineCommand::Av1(plan) && {
            &&& !plan.reset
            &&& plan.ref_infos@.len() == 0
            &&& plan.setup_info is None
            &&& plan.begin_slots@.len() == 0
            &&& plan.ref_slots@.len() == 0
            &&& plan.barriers@ == barriers
        },
        _ => c is Nothing,
    }
}

impl VideoPipeline {
    /// A pipeline for a codec on a device with the given decode queue.
    pub fn new(video_decode: Option<u32>, codec: VideoCodec) -> (r: VideoResult<VideoPipeline>)
        ensures
            match r {
                Ok(p) => {
                    &&& video_decode == Some(p.decode_queue_family)
                    &&& p.session is None
                    &&& p.session_parameters is None
                    &&& p.bitstream_buffers is None
                    &&& p.decoder is None
                    &&& p.output_images@.len() == 0
                    &&& p.config == usual_config(codec)
                    &&& p.frame_count == 0
                },
                Err(VideoError::VideoNotSupported(m)) => video_decode is None && m@
                    == "No decode queue"@,
                Err(_) => false,
            },
    {
        let mut config: VideoPipelineConfig = VideoPipelineConfig::default();
        config.codec = codec;
        match video_decode {
            Some(decode_queue_family) => Ok(
                VideoPipeline {
                    decode_queue_family,
                    session: None,
                    session_parameters: None,
                    bitstream_buffers: None,
                    decoder: None,
                    output_images: Vec::new(),
                    config,
                    frame_count: 0,
                },
            ),
            None => Err(VideoError::VideoNotSupported("No decode queue".to_owned())),
        }
    }

    /// Takes what was created for the pipeline, and gives it a decoder of its codec.
    pub fn init(
        &mut self,
        session: VideoSession,
        session_parameters: VideoSessionParameters,
        bitstream_buffers: usize,
    )
        ensures
            final(self).session == Some(session),
            final(self).session_parameters == Some(session_parameters),
            final(self).bitstream_buffers == Some(bitstream_buffers),
            final(self).decoder matches Some(d) && is_new_decoder_of(
                d,
                old(self).config.codec,
                session.session,
            ),
            final(self).decode_queue_family == old(self).decode_queue_family,
            final(self).output_images == old(self).output_images,
            final(self).config == old(self).config,
            final(self).frame_count == old(self).frame_count,
    {
        let decoder: DecoderWrapper = match self.config.codec {
            VideoCodec::DecodeH264 => DecoderWrapper::H264(H264Decoder::new()),
            VideoCodec::DecodeH265 => DecoderWrapper::H265(H265Decoder::new()),
            VideoCodec::DecodeAv1 => {
                let mut d: Av1Decoder = Av1Decoder::new();
                d.set_session(session.handle());
                DecoderWrapper::Av1(d)
            },
            VideoCodec::DecodeVp9 => DecoderWrapper::Vp9,
        };
        self.session = Some(session);
        self.session_parameters = Some(session_parameters);
        self.bitstream_buffers = Some(bitstream_buffers);
        self.decoder = Some(decoder);
    }

    /// Takes one more output image.
    pub fn add_output_image(&mut self, image: OutputImageInfo)
        ensures
            final(self).output_images@ == old(self).output_images@.push(image),
            *final(self) == (VideoPipeline {
                output_images: final(self).output_images,
                ..*old(self)
            }),
    {
        self.output_images.push(image);
    }

    /// Decides by what the session parameters are updated. Only H.264 and H.265 have
    /// any update.
    pub fn update_session_parameters(&mut self, sets: &StreamSets) -> (r: VideoResult<
        Option<H26xUpdate>,
    >)
        ensures
            r is Err <==> old(self).session_parameters is None,
            r matches Err(e) ==> {
                &&& *final(self) == *old(self)
                &&& e matches VideoError::InvalidState(m)
                &&& m@ == "No session parameters"@
            },
            r matches Ok(update) ==> match (old(self).config.codec, old(self).decoder) {
                (VideoCodec::DecodeH264, Some(DecoderWrapper::H264(d))) => {
                    let n = d.update_sequence_count.wrapping_add(1);
                    &&& *final(self) == (VideoPipeline {
                        decoder: Some(
                            DecoderWrapper::H264(H264Decoder { update_sequence_count: n, ..d }),
                        ),
                        ..*old(self)
                    })
                    &&& update matches Some(H26xUpdate::H264(u))
                    &&& u.update_sequence_count == n
                    &&& u.sps == match sets.sps {
                        Some(s) => Some(h264_sps_of(*s)),
                        None => None,
                    }
                    &&& u.pps == match sets.pps {
                        Some(p) => Some(h264_pps_of(*p)),
                        None => None,
                    }
                },
                (VideoCodec::DecodeH265, Some(DecoderWrapper::H265(d))) => {
                    &&& *final(self) == *old(self)
                    &&& update matches Some(H26xUpdate::H265(u))
                    &&& u.update_sequence_count == 1
                    &&& match sets.vps {
                        Some(v) => u.vps matches Some(x) && is_h265_vps(x, *v),
                        None => u.vps is None,
                    }
                    &&& match sets.sps_h265 {
                        Some(s) => u.sps matches Some(x) && is_h265_sps(x, *s),
                        None => u.sps is None,
                    }
                    &&& u.pps == match sets.pps_h265 {
                        Some(p) => Some(h265_pps_of(*p)),
                        None => None,
                    }
                },
                _ => *final(self) == *old(self) && update is None,
            },
    {
        if self.session_parameters.is_none() {
            return Err(VideoError::InvalidState("No session parameters".to_owned()));
        }
        match self.config.codec {
            VideoCodec::DecodeH264 => {
                if let Some(DecoderWrapper::H264(d)) = &self.decoder {
                    let mut next: H264Decoder = *d;
                    let u = next.update_session_parameters(sets.sps, sets.pps);
                    self.decoder = Some(DecoderWrapper::H264(next));
                    return Ok(Some(H26xUpdate::H264(u)));
                }
            },
            VideoCodec::DecodeH265 => {
                if let Some(DecoderWrapper::H265(d)) = &self.decoder {
                    return Ok(
                        Some(
                            H26xUpdate::H265(
                                d.update_session_parameters(
                                    sets.vps,
                                    sets.sps_h265,
                                    sets.pps_h265,
                                ),
                            ),
                        ),
                    );
                }
            },
            _ => {},
        }
        Ok(None)
    }

    /// The pipeline has all that decoding needs.
    pub open spec fn is_ready(&self) -> bool {
        self.session is Some && self.session_parameters is Some && self.bitstream_buffers is Some
            && self.bitstream_buffers->0 > 0
    }

    /// What the pipeline lacks first.
    pub open spec fn missing(&self) -> Seq<char> {
        if self.session is None {
            "No video session"@
        } else if self.session_parameters is None {
            "No session parameters"@
        } else if self.bitstream_buffers is None {
            "No bitstream buffers"@
        } else {
            "No bitstream buffer available"@
        }
    }

    /// The output image of a frame: frames take turns in the output images.
    pub open spec fn image_of(&self, frame_index: u32) -> OutputImageInfo {
        self.output_images@[frame_index as int % self.output_images@.len() as int]
    }

    /// The output image of a frame, once the pipeline has all that decoding needs:
    /// frames take turns in the output images.
    pub fn output_image(&self, frame_index: u32) -> (r: VideoResult<OutputImageInfo>)
        requires
            self.session is Some && self.session_parameters is Some ==> self.output_images@.len()
                > 0,
        ensures
            r is Ok <==> self.is_ready(),
            r matches Ok(image) ==> image == self.image_of(frame_index),
            r matches Err(e) ==> e matches VideoError::InvalidState(m) && m@ == self.missing(),
    {
        if self.session.is_none() {
            return Err(VideoError::InvalidState("No video session".to_owned()));
        }
        if self.session_parameters.is_none() {
            return Err(VideoError::InvalidState("No session parameters".to_owned()));
        }
        let count: usize = match self.bitstream_buffers {
            Some(n) => n,
            None => {
                return Err(VideoError::InvalidState("No bitstream buffers".to_owned()));
            },
        };
        if count == 0 {
            return Err(VideoError::InvalidState("No bitstream buffer available".to_owned()));
        }
        let i: usize = frame_index as usize % self.output_images.len();
        Ok(self.output_images[i])
    }

    /// The output image of a frame, and what is recorded for it. The stream says
    /// nothing of the frame here, so that the decoder counts it; it refers to no
    /// other and becomes no reference. VP9 frames need more than that, and nothing
    /// is recorded for them.
    pub fn decode_frame(&mut self, frame_index: u32) -> (r: VideoResult<
        (OutputImageInfo, PipelineCommand),
    >)
        requires
            old(self).session is Some && old(self).session_parameters is Some ==> old(
                self,
            ).output_images@.len() > 0,
            old(self).is_ready() ==> (old(self).decoder matches Some(d) ==> can_record(d)),
        ensures
            match r {
                Ok((image, command)) => {
                    &&& old(self).is_ready()
                    &&& image == old(self).image_of(frame_index)
                    &&& is_pipeline_command(command, old(self).decoder, image.image)
                    &&& match (old(self).decoder, final(self).decoder) {
                        (Some(b), Some(d)) => has_counted(d, b),
                        (None, None) => true,
                        _ => false,
                    }
                },
                Err(e) => {
                    &&& final(self).decoder == old(self).decoder
                    &&& e matches VideoError::InvalidState(m)
                    &&& m@ == if !old(self).is_ready() {
                        old(self).missing()
                    } else {
                        "H264 SPS not set before decode"@
                    }
                    &&& old(self).is_ready() ==> lacks_h264_sps(old(self).decoder)
                },
            },
            lacks_h264_sps(old(self).decoder) ==> r is Err,
            *final(self) == (VideoPipeline { decoder: final(self).decoder, ..*old(self) }),
    {
        let image: OutputImageInfo = match self.output_image(frame_index) {
            Ok(i) => i,
            Err(e) => {
                return Err(e);
            },
        };
        let mut decoder: Option<DecoderWrapper> = None;
        core::mem::swap(&mut self.decoder, &mut decoder);
        match decoder {
            Some(DecoderWrapper::H264(d)) => {
                let mut next: H264Decoder = d;
                let unknown = H264Known {
                    frame_num: None,
                    pic_order_cnt: None,
                    is_intra: None,
                    is_reference: None,
                    is_idr: None,
                };
                let refs: Vec<H264DpbRefPicture> = Vec::new();
                let views: Vec<u64> = Vec::new();
                let recorded = next.record_decode_command(
                    image.image,
                    None,
                    refs.as_slice(),
                    unknown,
                    false,
                    views.as_slice(),
                );
                assert(h264_ref_images(refs@) =~= Seq::empty());
                self.decoder = Some(DecoderWrapper::H264(next));
                match recorded {
                    Ok(plan) => Ok((image, PipelineCommand::H264(plan))),
                    Err(e) => Err(e),
                }
            },
            Some(DecoderWrapper::H265(d)) => {
                let mut next: H265Decoder = d;
                let unknown = H265Known {
                    pic_order_cnt: None,
                    is_intra: None,
                    is_reference: None,
                    is_idr: None,
                    num_bits_for_st_ref_pic_set_in_slice: None,
                    num_delta_pocs_of_ref_rps_idx: None,
                };
                let refs: Vec<H265RefPictureInfo> = Vec::new();
                let pocs: Vec<i32> = Vec::new();
                let plan = next.record_decode_command(
                    image.image,
                    None,
                    refs.as_slice(),
                    unknown,
                    pocs.as_slice(),
                    pocs.as_slice(),
                );
                assert(refs@ =~= Seq::empty());
                assert(pocs@ =~= Seq::empty());
                self.decoder = Some(DecoderWrapper::H265(next));
                Ok((image, PipelineCommand::H265(plan)))
            },
            Some(DecoderWrapper::Av1(d)) => {
                let mut next: Av1Decoder = d;
                let current = Av1CurrentPicture {
                    order_hint: 0,
                    order_hints: [0, 0, 0, 0, 0, 0, 0, 0],
                    disable_frame_end_update_cdf: 0,
                    segmentation_enabled: 0,
                };
                let refs: Vec<Av1RefPicture> = Vec::new();
                let plan = next.record_decode_command(
                    image.image,
                    false,
                    refs.as_slice(),
                    &current,
                    false,
                    0,
                    ImageLayout::Undefined,
                    false,
                );
                assert(ref_images_of(refs@, false) =~= Seq::empty());
                self.decoder = Some(DecoderWrapper::Av1(next));
                Ok((image, PipelineCommand::Av1(plan)))
            },
            Some(DecoderWrapper::Vp9) => {
                self.decoder = Some(DecoderWrapper::Vp9);
                Ok((image, PipelineCommand::Nothing))
            },
            None => Ok((image, PipelineCommand::Nothing)),
        }
    }

    /// The output image of a VP9 frame of which the stream has been parsed, and how it is
    /// decoded. Where the pipeline is not one for VP9, nothing is recorded.
    ///
    /// The frame has `len` bytes, refers to `references` and is decoded into slot
    /// `output_slot`.
    pub fn decode_vp9_frame(
        &self,
        frame_index: u32,
        len: u64,
        references: Vec<SlotPicture>,
        output_slot: u32,
        is_first_frame: bool,
    ) -> (r: VideoResult<(OutputImageInfo, Option<Vp9Decode>)>)
        requires
            self.session is Some && self.session_parameters is Some ==> self.is_ready()
                && self.output_images@.len() > 0,
        ensures
            r is Ok <==> self.is_ready(),
            r matches Err(e) ==> e matches VideoError::InvalidState(m) && m@ == self.missing(),
            r matches Ok((image, command)) ==> {
                &&& image == self.image_of(frame_index)
                &&& command is Some <==> self.decoder == Some(DecoderWrapper::Vp9)
                &&& command matches Some(step) ==> step == (Vp9Decode {
                    bitstream_size: len,
                    forgets_frame_buffers: false,
                    output_slot,
                    output_view: image.image_view,
                    output_image: image.image,
                    output_old_layout: ImageLayout::Undefined,
                    references,
                    reset: is_first_frame,
                })
            },
    {
        let image: OutputImageInfo = match self.output_image(frame_index) {
            Ok(i) => i,
            Err(e) => {
                return Err(e);
            },
        };
        match &self.decoder {
            Some(DecoderWrapper::Vp9) => Ok(
                (
                    image,
                    Some(
                        Vp9Decode {
                            bitstream_size: len,
                            forgets_frame_buffers: false,
                            output_slot,
                            output_view: image.image_view,
                            output_image: image.image,
                            output_old_layout: ImageLayout::Undefined,
                            references,
                            reset: is_first_frame,
                        },
                    ),
                ),
            ),
            _ => Ok((image, None)),
        }
    }

    /// Blank planes of a frame's size.
    pub fn readback_frame(&self, width: u32, height: u32) -> (r: (Vec<u8>, Vec<u8>))
        requires
            y_size(width, height) <= u32::MAX,
        ensures
            r.0@ == Seq::new(y_size(width, height) as nat, |i: int| 0u8),
            r.1@ == Seq::new(
                ((width as int / 2) * (height as int / 2) * 2) as nat,
                |i: int| 0u8,
            ),
    {
        proof {
            let w = width as int;
            let h = height as int;
            assert((w / 2) * (h / 2) * 2 <= w * h && 0 <= (w / 2) * (h / 2)) by (nonlinear_arith)
                requires
                    w >= 0,
                    h >= 0,
                    2 * (w / 2) <= w,
                    2 * (h / 2) <= h,
                    w / 2 >= 0,
                    h / 2 >= 0,
            ;
        }
        (
            zeros((width * height) as usize),
            zeros(((width / 2) * (height / 2) * 2) as usize),
        )
    }

    /// Counts a frame.
    pub fn next_frame(&mut self)
        ensures
            *final(self) == (VideoPipeline {
                frame_count: old(self).frame_count.wrapping_add(1),
                ..*old(self)
            }),
    {
        self.frame_count = self.frame_count.wrapping_add(1);
    }
}

fn zeros(n: usize) -> (r: Vec<u8>)
    ensures
        r@ == Seq::new(n as nat, |i: int| 0u8),
{
    let mut r: Vec<u8> = Vec::new();
    let mut i: usize = 0;
    while i < n
        invariant
            i <= n,
            r@ == Seq::new(i as nat, |k: int| 0u8),
        decreases n - i,
    {
        r.push(0);
        assert(r@ =~= Seq::new((i + 1) as nat, |k: int| 0u8));
        i = i + 1;
    }
    r
}

/// The usual set-up: full high definition in NV12, sixteen slots, and four bitstream buffers
/// of one mebibyte.
pub proof fn law_usual_config(codec: VideoCodec)
    ensures
        ({
            let c = usual_config(codec);
            &&& c.codec == codec
            &&& c.picture_format == PixelFormat::Nv12
            &&& c.reference_picture_format == PixelFormat::Nv12
            &&& c.max_coded_extent.0 == 1920
            &&& c.max_coded_extent.1 == 1088
            &&& c.max_dpb_slots == 16
            &&& c.max_active_reference_pictures == 16
            &&& c.bitstream_buffer_size == 1024 * 1024
            &&& c.bitstream_buffer_pool_size == 4
        }),
{
}

/// Frames take turns in the output images: each of the first ones has its own, and a later
/// one has that of the frame which is as many frames earlier as there are images.
pub proof fn law_frames_take_turns(p: VideoPipeline, frame_index: u32)
    requires
        p.output_images@.len() > 0,
    ensures
        frame_index < p.output_images@.len() ==> p.image_of(frame_index)
            == p.output_images@[frame_index as int],
        frame_index >= p.output_images@.len() ==> p.image_of(frame_index) == p.image_of(
            (frame_index - p.output_images@.len()) as u32,
        ),
{
    let n = p.output_images@.len() as int;
    if frame_index >= n {
        vstd::arithmetic::div_mod::lemma_mod_sub_multiples_vanish(frame_index as int, n);
    } else {
        vstd::arithmetic::div_mod::lemma_small_mod(frame_index as nat, n as nat);
    }
}

/// What a pipeline that is not ready lacks is said in the order of set-up.
pub proof fn law_missing_parts(p: VideoPipeline)
    ensures
        p.session is None ==> p.missing() == "No video session"@,
        p.session is Some && p.session_parameters is None ==> p.missing()
            == "No session parameters"@,
        p.session is Some && p.session_parameters is Some && p.bitstream_buffers is None
            ==> p.missing() == "No bitstream buffers"@,
        p.bitstream_buffers == Some(0usize) && p.session is Some && p.session_parameters is Some
            ==> p.missing() == "No bitstream buffer available"@,
        p.is_ready() <==> p.session is Some && p.session_parameters is Some
            && p.bitstream_buffers is Some && p.bitstream_buffers->0 > 0,
{
}

/// A decoder that has counted a frame has counted one more, and an H.264 one remembers the
/// numbers that stood for it.
pub proof fn law_counted_frames(a: H264Decoder, b: H264Decoder, sps: H264Sps)
    requires
        has_counted(DecoderWrapper::H264(a), DecoderWrapper::H264(b)),
        b.sps == Some(sps),
        sps.log2_max_frame_num_minus4 <= 12,
        sps.log2_max_pic_order_cnt_lsb_minus4 <= 12,
    ensures
        b.frame_count < u32::MAX ==> a.frame_count == b.frame_count + 1,
        a.prev_frame_num == b.frame_count as int % (pow2(
            (sps.log2_max_frame_num_minus4 + 4) as nat,
        ) as int),
        a.prev_pic_order_cnt_lsb == b.frame_count as int % (pow2(
            (sps.log2_max_pic_order_cnt_lsb_minus4 + 4) as nat,
        ) as int),
        a.sps == b.sps && a.pps == b.pps,
        a.update_sequence_count == b.update_sequence_count,
{
    vstd::arithmetic::power2::lemma2_to64();
    let m = (sps.log2_max_frame_num_minus4 + 4) as nat;
    let n = (sps.log2_max_pic_order_cnt_lsb_minus4 + 4) as nat;
    vstd::arithmetic::power2::lemma_pow2_pos(m);
    vstd::arithmetic::power2::lemma_pow2_pos(n);
    if m < 16 {
        vstd::arithmetic::power2::lemma_pow2_strictly_increases(m, 16);
    }
    if n < 16 {
        vstd::arithmetic::power2::lemma_pow2_strictly_increases(n, 16);
    }
    vstd::arithmetic::div_mod::lemma_mod_bound(b.frame_count as int, pow2(m) as int);
    vstd::arithmetic::div_mod::lemma_mod_bound(b.frame_count as int, pow2(n) as int);
}

/// What is recorded for a frame of which the stream says nothing: the output image comes out
/// of no layout into that of output, and nothing is referred to.
pub proof fn law_pipeline_commands(
    plan: H264DecodePlan,
    h: H264Decoder,
    av1: Av1DecodePlan,
    a: Av1Decoder,
    image: u64,
)
    ensures
        is_pipeline_command(PipelineCommand::H264(plan), Some(DecoderWrapper::H264(h)), image) ==> {
            &&& !plan.reset
            &&& plan.setup_slot is None
            &&& plan.ref_slots@.len() == 0
            &&& plan.begin_slots@.len() == 0
            &&& plan.barriers@.len() == 1
            &&& plan.barriers@[0].image == image
            &&& plan.barriers@[0].old_layout == ImageLayout::Undefined
            &&& plan.barriers@[0].new_layout == ImageLayout::VideoDecodeDst
            &&& plan.picture.is_reference && !plan.picture.is_idr && !plan.picture.is_intra
        },
        is_pipeline_command(PipelineCommand::Av1(av1), Some(DecoderWrapper::Av1(a)), image) ==> {
            &&& !av1.reset
            &&& av1.setup_info is None
            &&& av1.ref_slots@.len() == 0
            &&& av1.begin_slots@.len() == 0
            &&& av1.ref_infos@.len() == 0
            &&& av1.barriers@.len() == 1
            &&& av1.barriers@[0].image == image
            &&& av1.barriers@[0].new_layout == ImageLayout::VideoDecodeDst
        },
{
}

} // verus!
