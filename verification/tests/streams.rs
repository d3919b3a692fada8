use vk_video_vulkan::access_unit::{AccessUnit, ExtractedItem, H264OrH265Sps, VideoCodec};
use vk_video_vulkan::av1::Av1Sps;
use vk_video_vulkan::codes::{ChromaSubsampling, ComponentBitDepth};
use vk_video_vulkan::container::Vp9HeaderExtent;
use vk_video_vulkan::decoder::{
    extract_max_au_size, extract_max_frame_size, DecodeCapabilities, VideoDecoder,
};
use vk_video_vulkan::detect::detect_codec_from_data;
use vk_video_vulkan::device::VideoCodec as DeviceCodec;
use vk_video_vulkan::error::VideoError;
use vk_video_vulkan::parameter_sets::{H264Pps, H264Sps, H265Pps, H265Sps, H265Vps};
use vk_video_vulkan::session::Extent2D;
use vk_video_vulkan::stream_info::{
    av1_sps_source, first_av1_frame, first_vp9_frame, parse_av1_init, parse_h264, parse_h265,
    parse_vp9_init, set_up_h26x, StreamSetup, Vp9StreamInfo,
};

fn ivf(fourcc: &[u8; 4], packets: &[&[u8]]) -> Vec<u8> {
    let mut data = b"DKIF".to_vec();
    data.extend_from_slice(&[0, 0, 32, 0]);
    data.extend_from_slice(fourcc);
    data.resize(32, 0);
    for p in packets {
        data.extend_from_slice(&(p.len() as u32).to_le_bytes());
        data.extend_from_slice(&[0; 8]);
        data.extend_from_slice(p);
    }
    data
}

#[test]
fn containers_name_their_codec() {
    assert_eq!(detect_codec_from_data(&ivf(b"AV01", &[&[1]])), VideoCodec::Av1);
    assert_eq!(detect_codec_from_data(&ivf(b"VP90", &[&[1]])), VideoCodec::Vp9);
    assert_eq!(detect_codec_from_data(&ivf(b"VP80", &[&[1]])), VideoCodec::Vp9);
}

#[test]
fn vp9_is_told_by_its_marker() {
    assert_eq!(detect_codec_from_data(&[0x82, 1, 2]), VideoCodec::Vp9);
    assert_eq!(detect_codec_from_data(&[0, 0, 0xBF]), VideoCodec::Vp9);
    let mut late = vec![0u8; 255];
    late.push(0x82);
    assert_eq!(detect_codec_from_data(&late), VideoCodec::Vp9);
    let mut too_late = vec![0u8; 256];
    too_late.push(0x82);
    assert_eq!(detect_codec_from_data(&too_late), VideoCodec::H264);
}

#[test]
fn h264_parameter_sets_decide() {
    assert_eq!(detect_codec_from_data(&[0, 0, 0, 1, 0x67, 1]), VideoCodec::H264);
    // a unit that speaks for the other codec, but is no parameter set, comes first
    let data = [0, 0, 1, 0x2C, 1, 0, 0, 1, 0x68, 1];
    assert_eq!(detect_codec_from_data(&data), VideoCodec::H264);
}

#[test]
fn h265_parameter_sets_decide() {
    // a video parameter set, then an IDR slice whose low five bits are those of an
    // H.264 picture parameter set
    let data = [0, 0, 0, 1, 0x40, 0x01, 0x0C, 0, 0, 0, 1, 0x28, 0x01];
    assert_eq!(detect_codec_from_data(&data), VideoCodec::H265);
    // sequence and picture parameter sets too
    assert_eq!(detect_codec_from_data(&[0, 0, 1, 0x42, 1, 0, 0, 1, 0x28, 1]), VideoCodec::H265);
    assert_eq!(detect_codec_from_data(&[0, 0, 1, 0x44, 1, 0, 0, 1, 0x28, 1]), VideoCodec::H265);
    // an H.264 slice whose six type bits are those of a video parameter set is none
    let data = [0, 0, 1, 0x41, 0x9A, 0, 0, 1, 0x67, 0x42];
    assert_eq!(detect_codec_from_data(&data), VideoCodec::H264);
    assert_eq!(detect_codec_from_data(&[0, 0, 1, 0x41, 0x9A]), VideoCodec::H264);
    // of two parameter sets the first decides
    assert_eq!(detect_codec_from_data(&[0, 0, 1, 0x40, 1, 0, 0, 1, 0x68, 1]), VideoCodec::H265);
    assert_eq!(detect_codec_from_data(&[0, 0, 1, 0x68, 1, 0, 0, 1, 0x40, 1]), VideoCodec::H264);
}

#[test]
fn the_first_telling_unit_decides() {
    // the low five bits are zero
    assert_eq!(detect_codec_from_data(&[0, 0, 0, 1, 0x00, 1]), VideoCodec::H265);
    assert_eq!(detect_codec_from_data(&[0, 0, 1, 0x2C, 1]), VideoCodec::H265);
    assert_eq!(detect_codec_from_data(&[0, 0, 1, 0x65, 1]), VideoCodec::H264);
    assert_eq!(detect_codec_from_data(&[0, 0, 1, 0x09, 1]), VideoCodec::H264);
    // no unit is telling
    assert_eq!(detect_codec_from_data(&[0, 0, 1, 0x0A, 1]), VideoCodec::H264);
    assert_eq!(detect_codec_from_data(&[]), VideoCodec::H264);
    assert_eq!(detect_codec_from_data(&[0, 0, 1]), VideoCodec::H264);
}

fn h264_sps() -> H264Sps {
    H264Sps {
        pic_width_in_mbs_minus1: 119,
        pic_height_in_map_units_minus1: 67,
        frame_mbs_only_flag: true,
        profile_idc: 77,
        chroma_format_idc: 1,
        max_num_ref_frames: 3,
        log2_max_frame_num_minus4: 2,
        ..H264Sps::default()
    }
}

#[test]
fn h264_streams_are_described_by_their_parameter_sets() {
    let info = parse_h264(Some(h264_sps()), Some(H264Pps::default()));
    assert_eq!((info.coded_width, info.coded_height), (1920, 1088));
    assert_eq!((info.display_width, info.display_height), (1920, 1088));
    assert_eq!((info.profile_idc, info.max_dpb_slots), (77, 16));
    assert_eq!(info.chroma_subsampling, ChromaSubsampling::Type420);
    assert!(info.sps.is_some() && info.pps.is_some() && info.vps.is_none());
    let fields = H264Sps {
        frame_mbs_only_flag: false,
        profile_idc: 41,
        chroma_format_idc: 3,
        bit_depth_luma_minus8: 2,
        bit_depth_chroma_minus8: 4,
        ..h264_sps()
    };
    let info = parse_h264(Some(fields), None);
    assert_eq!(info.coded_height, 2176);
    assert_eq!(info.profile_idc, 66);
    assert_eq!(info.chroma_subsampling, ChromaSubsampling::Type444);
    assert_eq!(info.luma_bit_depth, ComponentBitDepth::Type10);
    assert_eq!(info.chroma_bit_depth, ComponentBitDepth::Type12);
    let odd = H264Sps {
        profile_idc: 5,
        chroma_format_idc: 9,
        bit_depth_luma_minus8: 1,
        ..h264_sps()
    };
    let info = parse_h264(Some(odd), None);
    assert_eq!(info.profile_idc, 100);
    assert_eq!(info.chroma_subsampling, ChromaSubsampling::Type420);
    assert_eq!(info.luma_bit_depth, ComponentBitDepth::Type8);
    let info = parse_h264(None, None);
    assert_eq!((info.coded_width, info.coded_height, info.profile_idc), (0, 0, 100));
}

#[test]
fn h265_streams_are_cropped_by_their_window() {
    let sps = H265Sps {
        pic_width_in_luma_samples: 1920,
        pic_height_in_luma_samples: 1080,
        chroma_format_idc: 0,
        max_num_ref_frames: 6,
        ..H265Sps::default()
    };
    let info = parse_h265(Some(H265Vps::default()), Some(sps.clone()), Some(H265Pps::default()));
    assert_eq!((info.coded_width, info.coded_height), (1920, 1088));
    assert_eq!((info.display_width, info.display_height), (1920, 1080));
    assert_eq!((info.crop_left, info.crop_top), (0, 0));
    assert_eq!((info.profile_idc, info.max_dpb_slots), (1, 6));
    assert_eq!(info.chroma_subsampling, ChromaSubsampling::Monochrome);
    let windowed = H265Sps {
        conformance_window_flag: true,
        conf_win_left_offset: 1,
        conf_win_right_offset: 2,
        conf_win_top_offset: 3,
        conf_win_bottom_offset: 1,
        max_num_ref_frames: 0,
        ..sps.clone()
    };
    let info = parse_h265(None, Some(windowed.clone()), None);
    assert_eq!((info.crop_left, info.crop_top), (8, 24));
    assert_eq!((info.display_width, info.display_height), (1896, 1048));
    assert_eq!(info.max_dpb_slots, 4);
    let too_much = H265Sps {
        conf_win_right_offset: 1000,
        ..windowed
    };
    assert_eq!(parse_h265(None, Some(too_much), None).display_width, 0);
    let info = parse_h265(None, None, None);
    assert_eq!((info.coded_width, info.max_dpb_slots), (0, 16));
}

#[test]
fn streams_without_dimensions_are_refused() {
    match set_up_h26x(DeviceCodec::DecodeH264, parse_h264(None, None)) {
        Err(VideoError::DecoderInit(m)) => assert_eq!(m, "Failed to parse video dimensions"),
        _ => panic!("no error"),
    }
    let s = set_up_h26x(DeviceCodec::DecodeH264, parse_h264(Some(h264_sps()), None)).unwrap();
    assert_eq!(s.session_dpb_slots, 5);
    assert_eq!(s.coded_extent.width, 1920);
    let info = Vp9StreamInfo {
        frame_width: 0,
        frame_height: 10,
        render_width: 1,
        render_height: 1,
        profile: 0,
        bit_depth: 8,
    };
    match parse_vp9_init(Ok(info)) {
        Err(VideoError::DecoderInit(m)) => assert_eq!(m, "Failed to parse VP9 dimensions"),
        _ => panic!("no error"),
    }
    match parse_vp9_init(Err("bad".to_string())) {
        Err(VideoError::DecoderInit(m)) => assert_eq!(m, "Failed to parse first VP9 frame: bad"),
        _ => panic!("no error"),
    }
    match parse_av1_init(None) {
        Err(VideoError::DecoderInit(m)) => assert_eq!(m, "Failed to parse AV1 dimensions"),
        _ => panic!("no error"),
    }
}

#[test]
fn vp9_and_av1_streams_are_set_up() {
    let info = Vp9StreamInfo {
        frame_width: 640,
        frame_height: 360,
        render_width: 320,
        render_height: 180,
        profile: 2,
        bit_depth: 10,
    };
    let s = parse_vp9_init(Ok(info)).unwrap();
    assert_eq!((s.parsed.coded_width, s.parsed.display_width), (640, 320));
    assert_eq!((s.parsed.max_dpb_slots, s.session_dpb_slots), (8, 9));
    assert_eq!(s.parsed.luma_bit_depth, ComponentBitDepth::Type10);
    let sps = Av1Sps {
        max_frame_width_minus_1: 319,
        max_frame_height_minus_1: 239,
        high_bitdepth: true,
        twelve_bit: true,
        ..Av1Sps::default()
    };
    let s = parse_av1_init(Some(sps)).unwrap();
    assert_eq!((s.coded_extent.width, s.coded_extent.height), (320, 240));
    assert_eq!((s.parsed.max_dpb_slots, s.session_dpb_slots), (9, 10));
    assert_eq!(s.parsed.chroma_bit_depth, ComponentBitDepth::Type12);
}

#[test]
fn streams_are_set_up_by_their_first_frame() {
    let data = ivf(b"VP90", &[&[0x82, 1], &[0x82, 2]]);
    assert_eq!(first_vp9_frame(&data, &[]).unwrap(), vec![0x82, 1]);
    let plain = vec![0x82, 1, 2];
    let mut headers: Vec<Option<Vp9HeaderExtent>> = vec![None; 3];
    match first_vp9_frame(&plain, &[headers.clone()]) {
        Err(VideoError::DecoderInit(m)) => assert_eq!(m, "No VP9 frames found"),
        _ => panic!("no error"),
    }
    headers[0] = Some(Vp9HeaderExtent {
        compressed_header_offset: 1,
        compressed_header_size: 1,
    });
    assert_eq!(first_vp9_frame(&plain, &[headers]).unwrap(), plain);
    let data = ivf(b"AV01", &[&[1, 2], &[3]]);
    assert_eq!(first_av1_frame(&data).unwrap(), vec![1, 2]);
    assert_eq!(first_av1_frame(&[7]).unwrap(), vec![7]);
    assert_eq!(av1_sps_source(&data), Some(vec![1, 2]));
    assert_eq!(av1_sps_source(&[7]), Some(vec![7]));
    assert_eq!(av1_sps_source(&[]), None);
}

fn caps(flags: u32) -> DecodeCapabilities {
    DecodeCapabilities {
        flags,
        min_bitstream_buffer_size_alignment: 256,
        picture_access_granularity: Extent2D {
            width: 16,
            height: 64,
        },
        max_coded_extent: Extent2D {
            width: 4096,
            height: 2160,
        },
    }
}

fn setup() -> StreamSetup {
    set_up_h26x(
        DeviceCodec::DecodeH264,
        parse_h264(Some(h264_sps()), Some(H264Pps::default())),
    )
    .unwrap()
}

#[test]
fn decoders_are_set_up_for_a_device() {
    let d = VideoDecoder::new(setup(), Some(3), &caps(0)).unwrap();
    assert_eq!(d.decode_queue_family, 3);
    assert_eq!((d.session_coded_extent.width, d.session_coded_extent.height), (1920, 1088));
    assert!(d.dpb_use_image_array);
    assert_eq!(d.dpb_manager.max_num_ref_frames, 3);
    assert_eq!(d.dpb_manager.max_frame_num, 64);
    assert_eq!(d.dpb_manager.entries.len(), 5);
    assert_eq!(d.bs_buffer_size_alignment, 256);
    assert_eq!(d.dpb_base_layer(4), 4);
    let d = VideoDecoder::new(setup(), Some(3), &caps(2)).unwrap();
    assert!(!d.dpb_use_image_array);
    assert_eq!(d.dpb_base_layer(4), 0);
}

#[test]
fn devices_that_cannot_decode_are_refused() {
    match VideoDecoder::new(setup(), None, &caps(0)) {
        Err(VideoError::VideoNotSupported(m)) => assert_eq!(m, "No decode queue"),
        _ => panic!("no error"),
    }
    let mut small = caps(0);
    small.max_coded_extent.height = 720;
    match VideoDecoder::new(setup(), Some(0), &small) {
        Err(VideoError::DecoderInit(m)) => assert_eq!(
            m,
            "Stream resolution 1920x1088 exceeds hardware max_coded_extent 4096x720"
        ),
        _ => panic!("no error"),
    }
}

#[test]
fn decoders_are_complete_with_all_images() {
    let mut d = VideoDecoder::new(setup(), Some(3), &caps(0)).unwrap();
    assert!(!d.is_complete());
    for i in 0..5 {
        d.add_dpb_image(10 + i, 99);
    }
    assert!(d.is_complete());
    assert_eq!(d.images_to_destroy(), vec![99]);
    let mut d = VideoDecoder::new(setup(), Some(3), &caps(2)).unwrap();
    for i in 0..3 {
        d.add_dpb_image(10 + i, 50 + i % 2);
    }
    assert_eq!(d.images_to_destroy(), vec![50, 51]);
}

#[test]
fn sessions_leave_a_slot_for_the_picture() {
    let d = VideoDecoder::new(setup(), Some(3), &caps(0)).unwrap();
    let s = d.create_video_session(None);
    assert_eq!(s.params.max_dpb_slots, 5);
    assert_eq!(s.params.max_active_reference_pictures, 4);
    assert_eq!(s.params.queue_family_index, 3);
    assert_eq!(s.std_header_version.extension_name, "VK_STD_vulkan_video_codec_h264_decode");
    assert!(s.parameters.is_some());
    let info = Vp9StreamInfo {
        frame_width: 64,
        frame_height: 64,
        render_width: 64,
        render_height: 64,
        profile: 0,
        bit_depth: 8,
    };
    let d = VideoDecoder::new(parse_vp9_init(Ok(info)).unwrap(), Some(0), &caps(0)).unwrap();
    assert!(d.create_video_session(None).parameters.is_none());
}

fn unit(len: usize) -> ExtractedItem {
    ExtractedItem::AccessUnit(AccessUnit {
        data: vec![0; len],
        slice_offsets: Vec::new(),
        frame_num: 0,
        pic_order_cnt: [0, 0],
        is_idr: false,
        is_reference: false,
        slice_type: 0,
        h264_slice: None,
        num_bits_for_st_ref_pic_set_in_slice: 0,
        num_delta_pocs_of_ref_rps_idx: 0,
        short_term_ref_pic_set_sps_flag: false,
        ref_pocs: Vec::new(),
        long_term_pocs: Vec::new(),
        adaptive_ref_pic_marking_mode_flag: false,
        mmco_commands: Vec::new(),
        no_output_of_prior_pics_flag: false,
    })
}

#[test]
fn the_largest_frame_decides_the_buffer() {
    assert_eq!(extract_max_frame_size(&[1, 2, 3], VideoCodec::H264, 1, &[]), 3);
    let data = ivf(b"VP90", &[&[1], &[1, 2, 3], &[1, 2, 3, 4]]);
    assert_eq!(extract_max_frame_size(&data, VideoCodec::Vp9, 2, &[]), 3);
    assert_eq!(extract_max_frame_size(&data, VideoCodec::Vp9, 9, &[]), 4);
    assert_eq!(extract_max_frame_size(&data, VideoCodec::Vp9, 0, &[]), 0);
    let data = ivf(b"AV01", &[&[0x32, 1, 7], &[0x32, 2, 7, 8]]);
    assert_eq!(extract_max_frame_size(&data, VideoCodec::Av1, 1, &[]), 4);
    assert_eq!(extract_max_au_size(&[unit(4), unit(9), unit(2)]), 9);
    assert_eq!(extract_max_au_size(&[]), 0);
}

#[test]
fn parameter_sets_keep_their_codec() {
    assert!(matches!(
        parse_h264(Some(h264_sps()), None).sps,
        Some(H264OrH265Sps::H264(_))
    ));
    assert!(matches!(
        parse_h265(None, Some(H265Sps::default()), None).sps,
        Some(H264OrH265Sps::H265(_))
    ));
}
