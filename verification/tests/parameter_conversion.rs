use vk_video_vulkan::av1::{
    convert_av1_color_config, convert_av1_sps, convert_av1_timing_info, Av1Sps,
};
use vk_video_vulkan::codes::ImageLayout;
use vk_video_vulkan::device::VideoCodec;
use vk_video_vulkan::dpb::LastAccessType;
use vk_video_vulkan::error::VideoError;
use vk_video_vulkan::h264::{
    convert_h264_pps, convert_h264_sps, cycle_of, H264Decoder, H264DpbRefPicture, H264Known,
    H264SetupPictureInfo,
};
use vk_video_vulkan::h265::{
    convert_h265_pps, convert_h265_short_term_ref_pic_set, convert_h265_sps, convert_h265_vps,
    convert_h265_vui, h265_level_idc_to_vulkan, H265Decoder, H265Known, H265RefPictureInfo,
};
use vk_video_vulkan::parameter_sets::{
    H264Pps, H264Sps, H264SpsVui, H265Pps, H265ShortTermRefPicSet, H265Sps, H265SpsVui, H265Vps,
};
use vk_video_vulkan::session::{
    build_std_header_version, codec_profile, session_memory_type, CodecProfileInfo, Extent2D,
    MemoryRequirement, SessionParametersAddition, SessionParametersInfo, StreamSets, VideoSession,
    VideoSessionParameters, VideoSessionParams,
};

#[test]
fn h264_sequence_parameters_are_converted() {
    let sps = H264Sps {
        frame_mbs_only_flag: true,
        profile_idc: 100,
        level_idc: 41,
        chroma_format_idc: 1,
        seq_parameter_set_id: 2,
        log2_max_frame_num_minus4: 3,
        max_num_ref_frames: 4,
        pic_width_in_mbs_minus1: 119,
        pic_height_in_map_units_minus1: 67,
        frame_crop_bottom_offset: 4,
        ..H264Sps::default()
    };
    let r = convert_h264_sps(&sps);
    assert!(r.frame_mbs_only_flag && !r.vui_parameters_present_flag);
    assert_eq!((r.profile_idc, r.level_idc, r.chroma_format_idc), (100, 41, 1));
    assert_eq!((r.seq_parameter_set_id, r.log2_max_frame_num_minus4), (2, 3));
    assert_eq!((r.max_num_ref_frames, r.pic_width_in_mbs_minus1), (4, 119));
    assert_eq!((r.pic_height_in_map_units_minus1, r.frame_crop_bottom_offset), (67, 4));
    assert_eq!(r.vui.time_scale, 0);
    let with_vui = H264Sps {
        vui_parameters_present_flag: true,
        vui: Some(H264SpsVui {
            time_scale: 50,
            ..H264SpsVui::default()
        }),
        ..sps
    };
    assert_eq!(convert_h264_sps(&with_vui).vui.time_scale, 50);
}

#[test]
fn h264_picture_parameters_are_converted() {
    let pps = H264Pps {
        weighted_pred_flag: true,
        pic_parameter_set_id: 7,
        seq_parameter_set_id: 1,
        weighted_bipred_idc: 2,
        pic_init_qp_minus26: -3,
        chroma_qp_index_offset: 5,
        ..H264Pps::default()
    };
    let r = convert_h264_pps(&pps);
    assert!(r.weighted_pred_flag);
    assert_eq!((r.pic_parameter_set_id, r.seq_parameter_set_id), (7, 1));
    assert_eq!((r.weighted_bipred_idc, r.pic_init_qp_minus26, r.chroma_qp_index_offset), (2, -3, 5));
}

#[test]
fn h265_levels_have_their_codes() {
    assert_eq!(h265_level_idc_to_vulkan(30), 0);
    assert_eq!(h265_level_idc_to_vulkan(93), 4);
    assert_eq!(h265_level_idc_to_vulkan(120), 5);
    assert_eq!(h265_level_idc_to_vulkan(153), 8);
    assert_eq!(h265_level_idc_to_vulkan(186), 12);
    assert_eq!(h265_level_idc_to_vulkan(1), 8);
}

#[test]
fn h265_parameter_sets_are_converted() {
    let set = H265ShortTermRefPicSet {
        num_negative_pics: 2,
        ..H265ShortTermRefPicSet::default()
    };
    assert_eq!(convert_h265_short_term_ref_pic_set(&set).num_negative_pics, 2);
    let sps = H265Sps {
        level_idc: 120,
        profile_idc: 1,
        pic_width_in_luma_samples: 1920,
        num_short_term_ref_pic_sets: 1,
        short_term_ref_pic_sets: vec![set],
        max_dec_pic_buffering_minus1: [4, 0, 0, 0, 0, 0, 0],
        ..H265Sps::default()
    };
    let r = convert_h265_sps(&sps);
    assert_eq!(r.profile_tier_level.general_level_idc, 5);
    assert_eq!(r.pic_width_in_luma_samples, 1920);
    assert_eq!(r.short_term_ref_pic_sets.len(), 1);
    assert_eq!(r.dec_pic_buf_mgr.max_dec_pic_buffering_minus1[0], 4);
    assert!(r.long_term_ref_pics_sps.is_none() && r.vui.is_none());
    let sps = H265Sps {
        long_term_ref_pics_present_flag: true,
        num_long_term_ref_pics_sps: 1,
        vui_parameters_present_flag: true,
        ..sps
    };
    let r = convert_h265_sps(&sps);
    assert!(r.long_term_ref_pics_sps.is_some() && r.vui.is_some());
    let pps = H265Pps {
        pps_pic_parameter_set_id: 3,
        num_tile_columns_minus1: 2,
        ..H265Pps::default()
    };
    let r = convert_h265_pps(&pps);
    assert_eq!((r.pps_pic_parameter_set_id, r.num_tile_columns_minus1), (3, 2));
    let vps = H265Vps {
        vps_video_parameter_set_id: 5,
        level_idc: 30,
        max_latency_increase_plus1: [9, 0, 0, 0, 0, 0, 0],
        ..H265Vps::default()
    };
    let r = convert_h265_vps(&vps);
    assert_eq!(r.vps_video_parameter_set_id, 5);
    assert_eq!(r.profile_tier_level.general_level_idc, 0);
    assert_eq!(r.dec_pic_buf_mgr.max_latency_increase_plus1[0], 9);
    let vui = H265SpsVui {
        vui_time_scale: 60,
        ..H265SpsVui::default()
    };
    assert_eq!(convert_h265_vui(&vui).vui_time_scale, 60);
}

#[test]
fn av1_sequence_headers_are_converted() {
    let sps = Av1Sps {
        profile: 1,
        high_bitdepth: true,
        max_frame_width_minus_1: 1919,
        frame_width_bits: 11,
        order_hint_bits_minus1: 6,
        enable_order_hint: true,
        mono_chrome: true,
        time_scale: 30,
        ..Av1Sps::default()
    };
    let r = convert_av1_sps(&sps);
    assert_eq!((r.seq_profile, r.max_frame_width_minus_1), (1, 1919));
    assert_eq!((r.frame_width_bits_minus_1, r.frame_height_bits_minus_1), (10, 0));
    assert!(r.enable_order_hint);
    assert_eq!(convert_av1_sps(&Av1Sps { profile: 9, ..sps }).seq_profile, 0);
    let c = convert_av1_color_config(&sps);
    assert_eq!(c.bit_depth, 10);
    assert!(c.mono_chrome);
    let c = convert_av1_color_config(&Av1Sps {
        twelve_bit: true,
        ..sps
    });
    assert_eq!(c.bit_depth, 12);
    assert_eq!(convert_av1_color_config(&Av1Sps::default()).bit_depth, 8);
    let t = convert_av1_timing_info(&sps);
    assert_eq!((t.time_scale, t.num_ticks_per_picture_minus_1), (30, 0));
}

fn h264_ref(slot: u32) -> H264DpbRefPicture {
    H264DpbRefPicture {
        slot_index: slot,
        image_view: 100 + slot as u64,
        image: 200 + slot as u64,
        frame_num: 17 + slot,
        pic_order_cnt: [2, 2],
        current_layout: ImageLayout::TransferSrcOptimal,
        last_access: LastAccessType::TransferRead,
    }
}

fn h264_decoder() -> H264Decoder {
    let mut d = H264Decoder::new();
    d.set_sps(H264Sps::default());
    d.set_pps(H264Pps {
        pic_parameter_set_id: 6,
        ..H264Pps::default()
    });
    d
}

#[test]
fn h264_commands_without_parameter_sets_are_refused() {
    let mut d = H264Decoder::new();
    let unknown = H264Known {
        frame_num: None,
        pic_order_cnt: None,
        is_intra: None,
        is_reference: None,
        is_idr: None,
    };
    match d.record_decode_command(1, None, &[], unknown, false, &[]) {
        Err(VideoError::InvalidState(m)) => assert_eq!(m, "H264 SPS not set before decode"),
        _ => panic!("no error"),
    }
}

#[test]
fn h264_commands_name_references_and_setup() {
    let mut d = h264_decoder();
    let known = H264Known {
        frame_num: Some(18),
        pic_order_cnt: Some([8, 9]),
        is_intra: Some(false),
        is_reference: Some(true),
        is_idr: Some(false),
    };
    let setup = H264SetupPictureInfo {
        slot_index: 2,
        image_view: 102,
    };
    let plan = d
        .record_decode_command(202, Some(setup), &[h264_ref(0), h264_ref(1)], known, false, &[100, 101, 102])
        .unwrap();
    // sixteen frame numbers
    assert_eq!(plan.picture.frame_num, 2);
    assert_eq!(plan.picture.pic_order_cnt, [8, 9]);
    assert_eq!(plan.picture.pic_parameter_set_id, 6);
    assert!(!plan.reset);
    let begun: Vec<i32> = plan.begin_slots.iter().map(|s| s.slot_index).collect();
    assert_eq!(begun, vec![0, 1, 2]);
    assert_eq!(plan.ref_slots[1].info.unwrap().frame_num, 2);
    assert_eq!(plan.setup_slot.unwrap().info.unwrap().pic_order_cnt, [8, 9]);
    assert_eq!(plan.barriers.len(), 3);
    assert_eq!(plan.barriers[0].image, 202);
    assert_eq!(d.frame_count, 1);
    assert_eq!(d.prev_frame_num, 18);
}

#[test]
fn the_first_h264_command_takes_all_slots_into_use() {
    let mut d = h264_decoder();
    let unknown = H264Known {
        frame_num: None,
        pic_order_cnt: None,
        is_intra: None,
        is_reference: None,
        is_idr: None,
    };
    let setup = H264SetupPictureInfo {
        slot_index: 1,
        image_view: 101,
    };
    let plan = d
        .record_decode_command(201, Some(setup), &[], unknown, true, &[100, 101, 102])
        .unwrap();
    assert!(plan.reset);
    assert_eq!(plan.begin_slots.len(), 3);
    assert!(plan.begin_slots[0].info.is_none());
    assert!(plan.begin_slots[1].info.is_some());
    assert_eq!(plan.begin_slots[2].image_view, 102);
    assert!(plan.picture.is_reference && !plan.picture.is_idr);
}

#[test]
fn h264_parameter_updates_are_numbered() {
    let mut d = h264_decoder();
    let sps = H264Sps::default();
    let u = d.update_session_parameters(Some(&sps), None);
    assert_eq!(u.update_sequence_count, 1);
    assert!(u.sps.is_some() && u.pps.is_none());
    assert_eq!(d.update_session_parameters(None, None).update_sequence_count, 2);
    assert_eq!(cycle_of(0), 16);
    assert_eq!(cycle_of(12), 65536);
}

#[test]
fn h265_commands_begin_with_their_references() {
    let mut d = H265Decoder::new();
    d.set_vps(H265Vps::default());
    d.set_sps(H265Sps::default());
    d.set_pps(H265Pps {
        pps_pic_parameter_set_id: 4,
        ..H265Pps::default()
    });
    let picture = |slot: u32, poc: i32| H265RefPictureInfo {
        slot_index: slot,
        pic_order_cnt: poc,
        image_view: 100 + slot as u64,
        image: 200 + slot as u64,
        current_layout: ImageLayout::VideoDecodeDpb,
    };
    let known = H265Known {
        pic_order_cnt: Some(12),
        is_intra: Some(false),
        is_reference: Some(true),
        is_idr: Some(false),
        num_bits_for_st_ref_pic_set_in_slice: Some(21),
        num_delta_pocs_of_ref_rps_idx: Some(3),
    };
    let refs = [picture(0, 4), picture(1, 8), picture(5, 20), picture(6, 2)];
    // order count 7 is that of no reference, and 2 is one of the long-term ones
    let plan =
        d.record_decode_command(203, Some(picture(3, 12)), &refs, known, &[8, 7, 4, 20, 2], &[2]);
    assert_eq!(plan.picture.pic_order_cnt_val, 12);
    assert_eq!(plan.picture.pps_pic_parameter_set_id, 4);
    assert_eq!(plan.picture.num_bits_for_st_ref_pic_set_in_slice, 21);
    assert_eq!(plan.picture.num_delta_pocs_of_ref_rps_idx, 3);
    let none = 0xFF;
    let before = [1, 0, none, none, none, none, none, none];
    assert_eq!(plan.picture.ref_pic_set_st_curr_before, before);
    let after = [5, none, none, none, none, none, none, none];
    assert_eq!(plan.picture.ref_pic_set_st_curr_after, after);
    let long_term = [6, none, none, none, none, none, none, none];
    assert_eq!(plan.picture.ref_pic_set_lt_curr, long_term);
    let begun: Vec<i32> = plan.begin_slots.iter().map(|s| s.slot_index).collect();
    assert_eq!(begun, vec![0, 1, 5, 6]);
    assert_eq!(plan.setup_slot.unwrap().pic_order_cnt_val, 12);
    assert_eq!(plan.ref_slots[1].pic_order_cnt_val, 8);
    assert_eq!(plan.barriers.len(), 1);
    // without references coding begins with the picture itself
    let plan = d.record_decode_command(203, Some(picture(3, 12)), &[], known, &[8], &[]);
    assert_eq!(plan.picture.ref_pic_set_st_curr_before, [none; 8]);
    assert_eq!(plan.begin_slots[0].slot_index, 3);
    // what is not known is counted
    let unknown = H265Known {
        is_idr: None,
        num_bits_for_st_ref_pic_set_in_slice: None,
        num_delta_pocs_of_ref_rps_idx: None,
        ..known
    };
    let plan = d.record_decode_command(203, None, &[], unknown, &[], &[]);
    assert_eq!(plan.picture.num_bits_for_st_ref_pic_set_in_slice, 0);
    assert_eq!(plan.picture.num_delta_pocs_of_ref_rps_idx, 0);
    assert_eq!(plan.picture.pic_order_cnt_val, 2);
    assert!(plan.picture.is_reference && !plan.picture.is_irap);
    assert_eq!(plan.barriers[0].new_layout, ImageLayout::VideoDecodeDst);
    assert_eq!(d.frame_count, 3);
    assert_eq!(d.update_session_parameters(None, None, None).update_sequence_count, 1);
}

fn no_sets<'a>() -> StreamSets<'a> {
    StreamSets {
        sps: None,
        pps: None,
        vps: None,
        sps_h265: None,
        pps_h265: None,
        sps_av1: None,
    }
}

#[test]
fn sessions_are_created_by_codes() {
    let params = VideoSessionParams {
        queue_family_index: 3,
        picture_format: vk_video_vulkan::codes::PixelFormat::Nv12,
        reference_picture_format: vk_video_vulkan::codes::PixelFormat::P010,
        max_coded_extent: Extent2D {
            width: 1920,
            height: 1088,
        },
        max_dpb_slots: 5,
        max_active_reference_pictures: 4,
        codec: VideoCodec::DecodeH265,
        codec_profile_info: codec_profile(VideoCodec::DecodeH265, 1),
        chroma_subsampling: vk_video_vulkan::codes::ChromaSubsampling::Type420,
        luma_bit_depth: vk_video_vulkan::codes::ComponentBitDepth::Type8,
        chroma_bit_depth: vk_video_vulkan::codes::ComponentBitDepth::Type8,
    };
    let info = VideoSession::create(&params);
    assert_eq!(info.flags, 4);
    assert_eq!(info.video_codec_operation, 2);
    assert_eq!((info.picture_format, info.reference_picture_format), (1_000_156_003, 1_000_156_013));
    assert_eq!((info.max_dpb_slots, info.max_active_reference_pictures), (5, 4));
    assert_eq!(info.codec_profile_info, CodecProfileInfo::H265 { std_profile_idc: 1 });
}

#[test]
fn profiles_and_headers_of_codecs() {
    assert_eq!(
        codec_profile(VideoCodec::DecodeH264, 77),
        CodecProfileInfo::H264 {
            std_profile_idc: 77,
            picture_layout: 0
        }
    );
    assert_eq!(codec_profile(VideoCodec::DecodeVp9, 2), CodecProfileInfo::Vp9 { std_profile: 2 });
    let name = |c| build_std_header_version(c).extension_name;
    assert_eq!(name(VideoCodec::DecodeH264), "VK_STD_vulkan_video_codec_h264_decode");
    assert_eq!(name(VideoCodec::DecodeH265), "VK_STD_vulkan_video_codec_h265_decode");
    assert_eq!(name(VideoCodec::DecodeVp9), "VK_STD_vulkan_video_codec_vp9_decode");
    assert_eq!(name(VideoCodec::DecodeAv1), "VK_STD_vulkan_video_codec_av1_decode");
    assert_eq!(build_std_header_version(VideoCodec::DecodeAv1).spec_version, 1 << 22);
}

#[test]
fn session_memory_is_of_the_first_allowed_type() {
    assert_eq!(session_memory_type(0b1000).unwrap(), 3);
    assert_eq!(session_memory_type(0b1001).unwrap(), 0);
    assert_eq!(session_memory_type(1 << 31).unwrap(), 31);
    let reqs = [
        MemoryRequirement {
            size: 100,
            memory_type_bits: 4,
        },
        MemoryRequirement {
            size: 200,
            memory_type_bits: 2,
        },
    ];
    let b = VideoSession::bind_session_memory(&reqs).unwrap();
    assert_eq!(b.len(), 2);
    assert_eq!((b[0].memory_bind_index, b[0].memory_type_index, b[0].memory_size), (0, 2, 100));
    assert_eq!((b[1].memory_bind_index, b[1].memory_type_index, b[1].memory_size), (1, 1, 200));
    let bad = [MemoryRequirement {
        size: 1,
        memory_type_bits: 0,
    }];
    match VideoSession::bind_session_memory(&bad) {
        Err(VideoError::SessionCreation(m)) => {
            assert_eq!(m, "Session memory requirement has no valid memory types")
        }
        _ => panic!("no error"),
    }
    assert!(VideoSession::bind_session_memory(&[]).unwrap().is_empty());
}

#[test]
fn session_handles_are_valid_until_reset() {
    let mut s = VideoSession { session: 9 };
    assert!(s.is_valid());
    assert_eq!(s.handle(), 9);
    s.reset();
    assert!(!s.is_valid());
    let mut p = VideoSessionParameters { parameters: 8 };
    assert!(p.is_valid());
    assert_eq!(p.handle(), 8);
    p.reset();
    assert!(!p.is_valid());
}

#[test]
fn h264_session_parameters_come_at_once() {
    let sps = H264Sps {
        seq_parameter_set_id: 2,
        ..H264Sps::default()
    };
    let plan = VideoSessionParameters::create(
        VideoCodec::DecodeH264,
        &StreamSets {
            sps: Some(&sps),
            ..no_sets()
        },
    );
    match plan.info {
        SessionParametersInfo::H264 {
            max_std_sps_count,
            max_std_pps_count,
            sps,
            pps,
        } => {
            assert_eq!((max_std_sps_count, max_std_pps_count), (32, 256));
            assert_eq!(sps.unwrap().seq_parameter_set_id, 2);
            assert!(pps.is_none());
        }
        _ => panic!("another codec"),
    }
    assert!(plan.updates.is_empty());
}

#[test]
fn h265_session_parameters_are_added_in_order() {
    let vps = H265Vps::default();
    let sps = H265Sps::default();
    let pps = H265Pps::default();
    let plan = VideoSessionParameters::create(
        VideoCodec::DecodeH265,
        &StreamSets {
            vps: Some(&vps),
            sps_h265: Some(&sps),
            pps_h265: Some(&pps),
            ..no_sets()
        },
    );
    match plan.info {
        SessionParametersInfo::H265 {
            max_std_vps_count,
            max_std_sps_count,
            max_std_pps_count,
            vps,
        } => {
            assert_eq!((max_std_vps_count, max_std_sps_count, max_std_pps_count), (16, 32, 256));
            assert!(vps.is_some());
        }
        _ => panic!("another codec"),
    }
    assert_eq!(plan.updates.len(), 2);
    assert_eq!(plan.updates[0].update_sequence_count, 1);
    assert!(matches!(plan.updates[0].addition, SessionParametersAddition::Sps(_)));
    assert_eq!(plan.updates[1].update_sequence_count, 2);
    assert!(matches!(plan.updates[1].addition, SessionParametersAddition::Pps(_)));
    let plan = VideoSessionParameters::create(
        VideoCodec::DecodeH265,
        &StreamSets {
            pps_h265: Some(&pps),
            ..no_sets()
        },
    );
    assert_eq!(plan.updates.len(), 1);
    assert_eq!(plan.updates[0].update_sequence_count, 1);
}

#[test]
fn av1_and_vp9_session_parameters() {
    let sps = Av1Sps {
        twelve_bit: true,
        high_bitdepth: true,
        ..Av1Sps::default()
    };
    let plan = VideoSessionParameters::create(
        VideoCodec::DecodeAv1,
        &StreamSets {
            sps_av1: Some(&sps),
            ..no_sets()
        },
    );
    match plan.info {
        SessionParametersInfo::Av1 { header: Some((_, color, _)) } => assert_eq!(color.bit_depth, 12),
        _ => panic!("no header"),
    }
    let plan = VideoSessionParameters::create(VideoCodec::DecodeVp9, &no_sets());
    assert!(matches!(plan.info, SessionParametersInfo::Vp9));
}
