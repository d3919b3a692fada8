use vk_video_vulkan::codes::{ImageLayout, PixelFormat};
use vk_video_vulkan::decode_h26x::H26xUpdate;
use vk_video_vulkan::decode_vp9::SlotPicture;
use vk_video_vulkan::device::VideoCodec;
use vk_video_vulkan::error::VideoError;
use vk_video_vulkan::parameter_sets::{H264Pps, H264Sps, H265Pps, H265Sps};
use vk_video_vulkan::pipeline::{
    DecoderWrapper, OutputImageInfo, PipelineCommand, VideoPipeline, VideoPipelineConfig,
};
use vk_video_vulkan::session::{StreamSets, VideoSession, VideoSessionParameters};

fn image(i: u64) -> OutputImageInfo {
    OutputImageInfo {
        image: i,
        image_view: i + 1,
        memory: i + 2,
    }
}

fn no_sets<'a>() -> StreamSets<'a> {
    StreamSets {
        sps: None,
        pps: None,
        vps: None,
        sps_h265: None,
        pps_h265: None,
        sps_av1: None,
    }
}

fn ready(codec: VideoCodec) -> VideoPipeline {
    let mut p = VideoPipeline::new(Some(1), codec).unwrap();
    p.init(VideoSession { session: 5 }, VideoSessionParameters { parameters: 6 }, 4);
    p
}

#[test]
fn the_usual_configuration() {
    let c = VideoPipelineConfig::default();
    assert_eq!(c.codec, VideoCodec::DecodeH264);
    assert_eq!(c.picture_format, PixelFormat::Nv12);
    assert_eq!(c.max_coded_extent, (1920, 1088));
    assert_eq!((c.max_dpb_slots, c.max_active_reference_pictures), (16, 16));
    assert_eq!((c.bitstream_buffer_size, c.bitstream_buffer_pool_size), (1 << 20, 4));
}

#[test]
fn pipelines_need_a_decode_queue() {
    match VideoPipeline::new(None, VideoCodec::DecodeAv1) {
        Err(VideoError::VideoNotSupported(m)) => assert_eq!(m, "No decode queue"),
        _ => panic!("no error"),
    }
    let p = VideoPipeline::new(Some(3), VideoCodec::DecodeAv1).unwrap();
    assert_eq!(p.decode_queue_family, 3);
    assert_eq!(p.config.codec, VideoCodec::DecodeAv1);
}

#[test]
fn pipelines_have_a_decoder_of_their_codec() {
    assert!(matches!(ready(VideoCodec::DecodeH264).decoder, Some(DecoderWrapper::H264(_))));
    assert!(matches!(ready(VideoCodec::DecodeH265).decoder, Some(DecoderWrapper::H265(_))));
    assert!(matches!(ready(VideoCodec::DecodeVp9).decoder, Some(DecoderWrapper::Vp9)));
    match ready(VideoCodec::DecodeAv1).decoder {
        Some(DecoderWrapper::Av1(d)) => {
            assert_eq!((d.session, d.frame_count), (5, 0));
            assert_eq!(d.get_pic_idx_for_frame_buffer(0), -1);
        }
        _ => panic!("another codec"),
    }
}

#[test]
fn frames_take_turns_in_the_output_images() {
    let mut p = ready(VideoCodec::DecodeH264);
    p.add_output_image(image(10));
    p.add_output_image(image(20));
    p.add_output_image(image(30));
    assert_eq!(p.output_image(0).unwrap(), image(10));
    assert_eq!(p.output_image(5).unwrap(), image(30));
    p.next_frame();
    p.next_frame();
    assert_eq!(p.frame_count, 2);
}

#[test]
fn pipelines_say_what_is_missing() {
    let mut p = VideoPipeline::new(Some(1), VideoCodec::DecodeH264).unwrap();
    let reason = |p: &VideoPipeline| match p.output_image(0) {
        Err(VideoError::InvalidState(m)) => m,
        _ => panic!("no error"),
    };
    assert_eq!(reason(&p), "No video session");
    assert!(p.decode_frame(0).is_err());
    p.session = Some(VideoSession { session: 1 });
    assert_eq!(reason(&p), "No session parameters");
    p.add_output_image(image(10));
    p.session_parameters = Some(VideoSessionParameters { parameters: 1 });
    assert_eq!(reason(&p), "No bitstream buffers");
    p.bitstream_buffers = Some(0);
    assert_eq!(reason(&p), "No bitstream buffer available");
    p.bitstream_buffers = Some(1);
    assert!(p.output_image(0).is_ok());
}

#[test]
fn pipelines_update_their_session_parameters() {
    let mut p = VideoPipeline::new(Some(1), VideoCodec::DecodeH264).unwrap();
    match p.update_session_parameters(&no_sets()) {
        Err(VideoError::InvalidState(m)) => assert_eq!(m, "No session parameters"),
        _ => panic!("no error"),
    }
    let mut p = ready(VideoCodec::DecodeH264);
    let sps = H264Sps::default();
    let sets = StreamSets {
        sps: Some(&sps),
        ..no_sets()
    };
    for n in 1..3 {
        match p.update_session_parameters(&sets).unwrap() {
            Some(H26xUpdate::H264(u)) => {
                assert_eq!(u.update_sequence_count, n);
                assert!(u.sps.is_some() && u.pps.is_none());
            }
            _ => panic!("no update"),
        }
    }
    let mut p = ready(VideoCodec::DecodeH265);
    let pps = H265Pps::default();
    let sets = StreamSets {
        pps_h265: Some(&pps),
        ..no_sets()
    };
    match p.update_session_parameters(&sets).unwrap() {
        Some(H26xUpdate::H265(u)) => assert!(u.pps.is_some() && u.sps.is_none()),
        _ => panic!("no update"),
    }
    assert!(ready(VideoCodec::DecodeVp9).update_session_parameters(&no_sets()).unwrap().is_none());
}

#[test]
fn frames_of_which_nothing_is_known_are_counted() {
    let mut p = ready(VideoCodec::DecodeH264);
    p.add_output_image(image(10));
    match p.decode_frame(0) {
        Err(VideoError::InvalidState(m)) => assert_eq!(m, "H264 SPS not set before decode"),
        _ => panic!("no error"),
    }
    if let Some(DecoderWrapper::H264(d)) = &mut p.decoder {
        d.set_sps(H264Sps::default());
        d.set_pps(H264Pps::default());
    }
    for n in 0..2 {
        match p.decode_frame(n) {
            Ok((output, PipelineCommand::H264(plan))) => {
                assert_eq!(output, image(10));
                assert_eq!(u32::from(plan.picture.frame_num), n);
                assert!(plan.setup_slot.is_none() && plan.begin_slots.is_empty());
                assert_eq!(plan.barriers.len(), 1);
            }
            _ => panic!("no command"),
        }
    }
    let mut p = ready(VideoCodec::DecodeH265);
    p.add_output_image(image(10));
    if let Some(DecoderWrapper::H265(d)) = &mut p.decoder {
        d.set_sps(H265Sps::default());
        d.set_pps(H265Pps::default());
    }
    for n in 0..3 {
        match p.decode_frame(n) {
            Ok((_, PipelineCommand::H265(plan))) => {
                assert_eq!(plan.picture.pic_order_cnt_val, n as i32);
            }
            _ => panic!("no command"),
        }
    }
    let mut p = ready(VideoCodec::DecodeAv1);
    p.add_output_image(image(10));
    for n in 0..3 {
        assert!(matches!(p.decode_frame(n), Ok((_, PipelineCommand::Av1(_)))));
        match &p.decoder {
            Some(DecoderWrapper::Av1(d)) => assert_eq!(d.frame_count, n + 1),
            _ => panic!("another codec"),
        }
    }
    let mut p = ready(VideoCodec::DecodeVp9);
    p.add_output_image(image(10));
    assert!(matches!(p.decode_frame(3), Ok((_, PipelineCommand::Nothing))));
    p.bitstream_buffers = None;
    assert!(p.decode_frame(3).is_err());
}

#[test]
fn parsed_vp9_frames_are_decoded_into_output_images() {
    let mut p = VideoPipeline::new(Some(1), VideoCodec::DecodeVp9).unwrap();
    match p.decode_vp9_frame(0, 9, Vec::new(), 0, true) {
        Err(VideoError::InvalidState(m)) => assert_eq!(m, "No video session"),
        _ => panic!("no error"),
    }
    p.init(VideoSession { session: 5 }, VideoSessionParameters { parameters: 6 }, 4);
    p.add_output_image(image(10));
    p.add_output_image(image(20));
    let reference = SlotPicture {
        slot_index: 2,
        image_view: 7,
        image: 8,
        layout: ImageLayout::VideoDecodeDpb,
    };
    let (output, step) = p.decode_vp9_frame(3, 9, vec![reference], 1, true).unwrap();
    assert_eq!(output, image(20));
    let step = step.unwrap();
    assert_eq!((step.bitstream_size, step.output_slot, step.reset), (9, 1, true));
    assert_eq!((step.output_image, step.output_view), (20, 21));
    assert_eq!(step.references, vec![reference]);
    // another codec records nothing
    let mut p = ready(VideoCodec::DecodeAv1);
    p.add_output_image(image(10));
    assert!(p.decode_vp9_frame(0, 9, Vec::new(), 0, false).unwrap().1.is_none());
}

#[test]
fn blank_planes_have_the_size_of_a_frame() {
    let p = ready(VideoCodec::DecodeH264);
    let (y, uv) = p.readback_frame(5, 3);
    assert_eq!(y, vec![0; 15]);
    assert_eq!(uv, vec![0; 4]);
}
