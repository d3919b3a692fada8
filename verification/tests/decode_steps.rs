use vk_video_vulkan::access_unit::{
    AccessUnit, ExtractedItem, H264MmcoCommand, H264OrH265Pps, H264OrH265Sps, H265VpsOpt,
    InBandParameterSet,
};
use vk_video_vulkan::codes::ImageLayout;
use vk_video_vulkan::decode_h26x::{limit_items, H26xCommand, H26xProgress, H26xUpdate};
use vk_video_vulkan::decode_vp9::{vp9_frames_to_decode, Vp9Progress};
use vk_video_vulkan::decoder::{DecodeCapabilities, VideoDecoder};
use vk_video_vulkan::device::VideoCodec;
use vk_video_vulkan::dpb::LastAccessType;
use vk_video_vulkan::error::VideoError;
use vk_video_vulkan::parameter_sets::{H264Pps, H264Sps, H265Pps, H265Sps, H265Vps};
use vk_video_vulkan::readback::DecodedPixels;
use vk_video_vulkan::session::Extent2D;
use vk_video_vulkan::stream_info::{
    parse_h264, parse_h265, parse_vp9_init, set_up_h26x, StreamSetup, Vp9StreamInfo,
};

fn pixels() -> DecodedPixels {
    DecodedPixels {
        y_plane: vec![1],
        u_plane: vec![2],
        v_plane: vec![3],
    }
}

fn unit(frame_num: u32, poc: i32) -> AccessUnit {
    AccessUnit {
        data: vec![0; 100],
        slice_offsets: vec![0],
        frame_num,
        pic_order_cnt: [poc, poc],
        is_idr: false,
        is_reference: true,
        slice_type: 0,
        h264_slice: None,
        num_bits_for_st_ref_pic_set_in_slice: 0,
        num_delta_pocs_of_ref_rps_idx: 0,
        short_term_ref_pic_set_sps_flag: false,
        ref_pocs: Vec::new(),
        long_term_pocs: Vec::new(),
        adaptive_ref_pic_marking_mode_flag: false,
        mmco_commands: Vec::new(),
        no_output_of_prior_pics_flag: false,
    }
}

fn complete(setup: StreamSetup, flags: u32) -> VideoDecoder {
    let caps = DecodeCapabilities {
        flags,
        min_bitstream_buffer_size_alignment: 64,
        picture_access_granularity: Extent2D {
            width: 16,
            height: 16,
        },
        max_coded_extent: Extent2D {
            width: 4096,
            height: 4096,
        },
    };
    let mut d = VideoDecoder::new(setup, Some(0), &caps).unwrap();
    for i in 0..d.session_dpb_slots as u64 {
        d.add_dpb_image(100 + i, 200 + i);
    }
    assert!(d.is_complete());
    d
}

fn h264() -> VideoDecoder {
    let sps = H264Sps {
        pic_width_in_mbs_minus1: 3,
        pic_height_in_map_units_minus1: 3,
        frame_mbs_only_flag: true,
        max_num_ref_frames: 2,
        ..H264Sps::default()
    };
    complete(
        set_up_h26x(
            VideoCodec::DecodeH264,
            parse_h264(Some(sps), Some(H264Pps::default())),
        )
        .unwrap(),
        2,
    )
}

fn h265() -> VideoDecoder {
    let sps = H265Sps {
        pic_width_in_luma_samples: 64,
        pic_height_in_luma_samples: 64,
        ..H265Sps::default()
    };
    complete(
        set_up_h26x(
            VideoCodec::DecodeH265,
            parse_h265(Some(H265Vps::default()), Some(sps), Some(H265Pps::default())),
        )
        .unwrap(),
        2,
    )
}

fn run(d: &mut VideoDecoder, p: &mut H26xProgress, au: &AccessUnit, rest: &[ExtractedItem]) -> u32 {
    let step = d.begin_access_unit(p, au, rest, 100).unwrap().unwrap();
    d.finish_decode(p, au, step.output_slot);
    d.finish_readback(au, step.output_slot, pixels());
    step.output_slot
}

#[test]
fn streams_without_items_are_refused() {
    match limit_items(Vec::new(), 4) {
        Err(VideoError::DecoderInit(m)) => assert_eq!(m, "No access units found"),
        _ => panic!("no error"),
    }
    let items: Vec<ExtractedItem> = (0..9).map(|i| ExtractedItem::AccessUnit(unit(i, 0))).collect();
    assert_eq!(limit_items(items.clone(), 2).unwrap().len(), 4);
    assert_eq!(limit_items(items.clone(), 0).unwrap().len(), 0);
    assert_eq!(limit_items(items, usize::MAX).unwrap().len(), 9);
}

#[test]
fn an_h264_idr_unit_goes_into_the_first_slot() {
    let mut d = h264();
    let mut p = H26xProgress::new();
    let idr = AccessUnit {
        is_idr: true,
        slice_type: 2,
        ..unit(0, 0)
    };
    let step = d.begin_access_unit(&mut p, &idr, &[], 10).unwrap().unwrap();
    assert_eq!(step.output_slot, 0);
    assert_eq!((step.output_view, step.output_image), (100, 200));
    assert_eq!((step.range.padding_size, step.range.aligned_size), (28, 128));
    match &step.command {
        H26xCommand::H264(plan) => {
            assert!(plan.reset && plan.picture.is_intra && plan.picture.is_idr);
            assert_eq!(plan.begin_slots.len(), 5);
            assert!(plan.ref_slots.is_empty());
        }
        H26xCommand::H265(_) => panic!("another codec"),
    }
    assert!(p.is_first_frame);
    assert_eq!(p.access_unit_count, 1);
    d.finish_decode(&mut p, &idr, 0);
    assert!(!p.is_first_frame);
    assert!(d.dpb_manager.entries[0].is_valid);
    assert_eq!(d.dpb_manager.get_slot_last_access(0), LastAccessType::DecodeWrite);
    let f = d.finish_readback(&idr, 0, pixels());
    assert_eq!(d.dpb_manager.get_slot_last_access(0), LastAccessType::TransferRead);
    assert_eq!(d.dpb_manager.get_slot_layout(0), ImageLayout::VideoDecodeDpb);
    assert_eq!((f.poc, f.frame_num, f.is_idr, f.is_reference), (0, 0, true, true));
    assert_eq!((f.coded_width, f.display_width), (64, 64));
    assert_eq!(f.pixels.v_plane, vec![3]);
}

#[test]
fn h264_references_slide() {
    let mut d = h264();
    let mut p = H26xProgress::new();
    let idr = AccessUnit {
        is_idr: true,
        ..unit(0, 0)
    };
    assert_eq!(run(&mut d, &mut p, &idr, &[]), 0);
    assert_eq!(run(&mut d, &mut p, &unit(1, 2), &[]), 1);
    assert_eq!(run(&mut d, &mut p, &unit(2, 4), &[]), 2);
    // two others are allowed: the first has been given up
    let slots: Vec<u32> = d.dpb_manager.get_references().iter().map(|e| e.slot_index).collect();
    assert_eq!(slots, vec![1, 2]);
    // its slot is used next
    let next = unit(3, 6);
    let step = d.begin_access_unit(&mut p, &next, &[], 100).unwrap().unwrap();
    assert_eq!(step.output_slot, 0);
    match &step.command {
        H26xCommand::H264(plan) => {
            let refs: Vec<i32> = plan.ref_slots.iter().map(|s| s.slot_index).collect();
            assert_eq!(refs, vec![1, 2]);
            assert!(!plan.reset && !plan.picture.is_intra);
        }
        H26xCommand::H265(_) => panic!("another codec"),
    }
}

#[test]
fn h264_slices_of_type_i_and_si_are_intra_coded() {
    let intra = |slice_type: u32| {
        let mut d = h264();
        let au = AccessUnit {
            slice_type,
            ..unit(0, 0)
        };
        match d
            .begin_access_unit(&mut H26xProgress::new(), &au, &[], 1)
            .unwrap()
            .unwrap()
            .command
        {
            H26xCommand::H264(plan) => plan.picture.is_intra,
            H26xCommand::H265(_) => panic!("another codec"),
        }
    };
    assert_eq!((0..5).map(intra).collect::<Vec<bool>>(), vec![false, false, true, false, true]);
}

#[test]
fn h264_marking_commands_replace_the_window() {
    let mut d = h264();
    let mut p = H26xProgress::new();
    run(&mut d, &mut p, &unit(0, 0), &[]);
    run(&mut d, &mut p, &unit(1, 2), &[]);
    let marking = AccessUnit {
        adaptive_ref_pic_marking_mode_flag: true,
        mmco_commands: vec![H264MmcoCommand::UnmarkShortTerm {
            difference_of_pic_nums_minus1: 0,
        }],
        ..unit(2, 4)
    };
    run(&mut d, &mut p, &marking, &[]);
    let slots: Vec<u32> = d.dpb_manager.get_references().iter().map(|e| e.slot_index).collect();
    assert_eq!(slots, vec![0, 2]);
}

#[test]
fn pictures_that_are_no_references_leave_their_slot_free() {
    let mut d = h264();
    let mut p = H26xProgress::new();
    let b = AccessUnit {
        is_reference: false,
        ..unit(1, 2)
    };
    assert_eq!(run(&mut d, &mut p, &b, &[]), 0);
    assert!(d.dpb_manager.get_references().is_empty());
    assert_eq!(d.dpb_manager.get_slot_layout(0), ImageLayout::VideoDecodeDpb);
    assert_eq!(run(&mut d, &mut p, &b, &[]), 0);
}

#[test]
fn h265_pictures_that_are_needed_later_are_kept() {
    let mut d = h265();
    let mut p = H26xProgress::new();
    for i in 0..5 {
        assert_eq!(run(&mut d, &mut p, &unit(i, 10 - i as i32), &[]), i);
    }
    // all slots are taken; the lowest order count is 6, which a later unit needs
    let later = ExtractedItem::AccessUnit(AccessUnit {
        ref_pocs: vec![6],
        ..unit(9, 30)
    });
    let au = AccessUnit {
        ref_pocs: vec![8],
        ..unit(6, 20)
    };
    let step = d.begin_access_unit(&mut p, &au, &[later], 100).unwrap().unwrap();
    // order count 7 lies in slot 3
    assert_eq!(step.output_slot, 3);
    match &step.command {
        H26xCommand::H265(plan) => {
            let refs: Vec<i32> = plan.ref_slots.iter().map(|s| s.slot_index).collect();
            assert_eq!(refs, vec![0, 1, 2, 4]);
            assert_eq!(plan.picture.pic_order_cnt_val, 20);
            // order count 8 lies in slot 2
            assert_eq!(plan.picture.ref_pic_set_st_curr_before[..2], [2, 0xFF]);
            assert_eq!(plan.picture.ref_pic_set_st_curr_after, [0xFF; 8]);
        }
        H26xCommand::H264(_) => panic!("another codec"),
    }
}

#[test]
fn a_unit_can_give_up_all_pictures_without_being_idr() {
    let mut d = h265();
    let mut p = H26xProgress::new();
    run(&mut d, &mut p, &unit(0, 0), &[]);
    run(&mut d, &mut p, &unit(1, 1), &[]);
    let au = AccessUnit {
        no_output_of_prior_pics_flag: true,
        ..unit(2, 2)
    };
    let step = d.begin_access_unit(&mut p, &au, &[], 100).unwrap().unwrap();
    assert_eq!(step.output_slot, 0);
    assert!(d.dpb_manager.get_references().is_empty());
}

#[test]
fn decoding_stops_at_the_wanted_number() {
    let mut d = h264();
    let mut p = H26xProgress::new();
    assert!(d.begin_access_unit(&mut p, &unit(0, 0), &[], 1).unwrap().is_some());
    assert!(d.begin_access_unit(&mut p, &unit(1, 1), &[], 1).unwrap().is_none());
    assert_eq!(p.access_unit_count, 1);
}

fn refusal(d: &mut VideoDecoder) -> String {
    match d.begin_access_unit(&mut H26xProgress::new(), &unit(0, 0), &[], 1) {
        Err(VideoError::DecoderInit(m)) => m,
        _ => panic!("no error"),
    }
}

#[test]
fn missing_parameter_sets_are_named() {
    let mut d = h264();
    d.parsed.pps = None;
    assert_eq!(refusal(&mut d), "H264 PPS not found");
    d.parsed.sps = None;
    assert_eq!(refusal(&mut d), "H264 SPS not found");
    let mut d = h265();
    d.parsed.pps = Some(H264OrH265Pps::H264(H264Pps::default()));
    assert_eq!(refusal(&mut d), "H265 PPS not found");
    d.parsed.sps = Some(H264OrH265Sps::H264(H264Sps::default()));
    assert_eq!(refusal(&mut d), "H265 SPS not found");
}

#[test]
fn parameter_sets_in_the_stream_are_taken_over() {
    let mut d = h264();
    let none = InBandParameterSet {
        vps: None,
        sps: None,
        pps: None,
    };
    assert!(d.handle_inband_parameter_set(none.clone(), true).is_none());
    let ps = InBandParameterSet {
        pps: Some(H264OrH265Pps::H264(H264Pps {
            pic_parameter_set_id: 9,
            ..H264Pps::default()
        })),
        ..none.clone()
    };
    match d.handle_inband_parameter_set(ps.clone(), true) {
        Some(H26xUpdate::H264(u)) => {
            assert_eq!(u.update_sequence_count, 1);
            assert!(u.sps.is_some());
            assert_eq!(u.pps.unwrap().pic_parameter_set_id, 9);
        }
        _ => panic!("no update"),
    }
    assert!(d.handle_inband_parameter_set(ps, false).is_none());
    let mut d = h265();
    let ps = InBandParameterSet {
        vps: Some(H265VpsOpt::H265(H265Vps {
            vps_video_parameter_set_id: 3,
            ..H265Vps::default()
        })),
        ..none
    };
    match d.handle_inband_parameter_set(ps, true) {
        Some(H26xUpdate::H265(u)) => {
            assert_eq!(u.vps.unwrap().vps_video_parameter_set_id, 3);
            assert!(u.sps.is_some() && u.pps.is_some());
        }
        _ => panic!("no update"),
    }
    assert_eq!(d.parsed.vps.unwrap().vps_video_parameter_set_id, 3);
}

fn vp9() -> VideoDecoder {
    let info = Vp9StreamInfo {
        frame_width: 64,
        frame_height: 64,
        render_width: 60,
        render_height: 50,
        profile: 0,
        bit_depth: 8,
    };
    complete(parse_vp9_init(Ok(info)).unwrap(), 0)
}

const EXTENT: Extent2D = Extent2D {
    width: 64,
    height: 48,
};

#[test]
fn vp9_key_frames_go_into_the_first_slot() {
    let mut d = vp9();
    let mut p = Vp9Progress::new();
    let step = d.begin_vp9_frame(&mut p, 100, true, &[-1, -1, -1]);
    assert_eq!((step.output_slot, step.bitstream_size), (0, 128));
    assert!(step.forgets_frame_buffers && step.reset);
    assert!(step.references.is_empty());
    assert_eq!(step.output_old_layout, ImageLayout::Undefined);
    d.finish_vp9_decode(&p, 0);
    assert!(d.dpb_manager.entries[0].is_valid);
    let f = d.finish_vp9_readback(&mut p, 0, true, EXTENT, pixels());
    assert_eq!((f.poc, f.is_idr, f.is_reference), (0, true, true));
    assert_eq!((f.coded_height, f.display_height), (48, 50));
    assert_eq!(p.frame_count, 1);
    assert!(!p.is_first_frame);
}

#[test]
fn vp9_frames_spare_the_slots_that_they_name() {
    let mut d = vp9();
    let mut p = Vp9Progress::new();
    for i in 0..9u32 {
        let names = if i == 0 { [-1, -1, -1] } else { [0, 0, -1] };
        let step = d.begin_vp9_frame(&mut p, 10, i == 0, &names);
        assert_eq!(step.output_slot, i);
        d.finish_vp9_decode(&p, i);
        d.finish_vp9_readback(&mut p, i, i == 0, EXTENT, pixels());
    }
    // all slots are taken; the oldest that is not named is recycled
    let step = d.begin_vp9_frame(&mut p, 10, false, &[0, 1, 1]);
    assert_eq!(step.output_slot, 2);
    let refs: Vec<i32> = step.references.iter().map(|r| r.slot_index).collect();
    assert_eq!(refs, vec![0, 1]);
    assert_eq!(step.references[1].image_view, 101);
    assert_eq!(step.references[1].image, 201);
    assert_eq!(step.references[1].layout, ImageLayout::VideoDecodeDpb);
}

#[test]
fn vp9_references_must_hold_a_picture() {
    let mut d = vp9();
    let mut p = Vp9Progress::new();
    d.begin_vp9_frame(&mut p, 10, true, &[-1, -1, -1]);
    d.finish_vp9_decode(&p, 0);
    let step = d.begin_vp9_frame(&mut p, 10, false, &[0, 5, 77]);
    let refs: Vec<i32> = step.references.iter().map(|r| r.slot_index).collect();
    assert_eq!(refs, vec![0]);
}

#[test]
fn vp9_frames_can_be_shown_again() {
    let d = vp9();
    let p = Vp9Progress {
        is_first_frame: false,
        frame_count: 7,
    };
    let source = d.existing_picture(3).unwrap();
    assert_eq!((source.slot, source.image, source.layer), (3, 203, 3));
    assert!(d.existing_picture(-1).is_none());
    let f = d.show_vp9_frame(&p, EXTENT, pixels());
    assert_eq!((f.poc, f.frame_num, f.is_idr, f.is_reference), (7, 7, false, false));
}

#[test]
fn vp9_streams_without_frames_are_refused() {
    match vp9_frames_to_decode(&[0, 0], 5, &[vec![None, None]]) {
        Err(VideoError::DecoderInit(m)) => assert_eq!(m, "No VP9 frames found"),
        _ => panic!("no error"),
    }
}
