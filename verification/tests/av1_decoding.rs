use vk_video_vulkan::av1::{
    Av1CurrentPicture, Av1Decoder, Av1RefPicture, Av1Sps, StdVideoDecodeAV1PictureInfoFlags,
};
use vk_video_vulkan::av1_picture::{
    needs_derived_refs, Av1FrameHeader, Av1PictureInfoContainer,
};
use vk_video_vulkan::codes::ImageLayout;
use vk_video_vulkan::decode_av1::{av1_frames_to_decode, Av1Action, Av1Stream};
use vk_video_vulkan::decoder::{DecodeCapabilities, VideoDecoder};
use vk_video_vulkan::error::VideoError;
use vk_video_vulkan::readback::DecodedPixels;
use vk_video_vulkan::session::Extent2D;
use vk_video_vulkan::stream_info::parse_av1_init;

fn header() -> Av1FrameHeader {
    Av1FrameHeader {
        show_existing_frame: false,
        frame_to_show_map_idx: 0,
        show_frame: true,
        frame_type: 1,
        frame_width: 320,
        frame_height: 240,
        frame_header_size: 10,
        order_hint: 0,
        primary_ref_frame: 7,
        refresh_frame_flags: 0,
        ref_frame_idx: [0; 7],
        coded_denom: 0,
        error_resilient_mode: false,
        disable_cdf_update: false,
        use_superres: false,
        render_and_frame_size_different: false,
        allow_screen_content_tools: false,
        is_filter_switchable: false,
        force_integer_mv: false,
        frame_size_override_flag: false,
        allow_intrabc: false,
        frame_refs_short_signaling: false,
        allow_high_precision_mv: false,
        is_motion_mode_switchable: false,
        use_ref_frame_mvs: false,
        disable_frame_end_update_cdf: false,
        allow_warped_motion: false,
        reduced_tx_set: false,
        reference_select: false,
        skip_mode_present: false,
        delta_q_present: false,
        delta_lf_present: false,
        delta_lf_multi: false,
        segmentation_enabled: false,
        segmentation_update_map: false,
        segmentation_temporal_update: false,
        segmentation_update_data: false,
        uses_lr: false,
        apply_grain: false,
        interpolation_filter: 0,
        tx_mode: 0,
        delta_q_res: 0,
        delta_lf_res: 0,
        skip_mode_frame: [0, 0],
        uniform_tile_spacing_flag: false,
        tile_count: 1,
        tile_cols: 1,
        tile_rows: 1,
        context_update_tile_id: 0,
        tile_size_bytes_minus_1: 3,
        tile_width_in_sbs_minus_1: [0; 64],
        tile_height_in_sbs_minus_1: [0; 64],
        tile_mi_col_starts: [0; 64],
        tile_mi_row_starts: [0; 64],
        using_qmatrix: false,
        diff_uv_delta: false,
        base_q_index: 0,
        delta_q_y_dc: 0,
        delta_q_u_dc: 0,
        delta_q_u_ac: 0,
        delta_q_v_dc: 0,
        delta_q_v_ac: 0,
        qm_y: 0,
        qm_u: 0,
        qm_v: 0,
        loop_filter_delta_enabled: false,
        loop_filter_delta_update: false,
        loop_filter_level: [0, 0],
        loop_filter_level_uv: [0, 0],
        loop_filter_sharpness: 0,
        loop_filter_ref_deltas: [0; 8],
        loop_filter_mode_deltas: [0, 0],
        segment_feature_enabled: [0; 8],
        segment_feature_data: [[0; 8]; 8],
        cdef_damping: 0,
        cdef_bits: 0,
        cdef_y_pri_strength: [0; 8],
        cdef_y_sec_strength: [0; 8],
        cdef_uv_pri_strength: [0; 8],
        cdef_uv_sec_strength: [0; 8],
        loop_restoration_type: [0; 3],
        loop_restoration_size: [0; 3],
        global_motion_type: [0; 7],
        global_motion_params: [[0; 6]; 7],
    }
}

fn sps() -> Av1Sps {
    Av1Sps {
        max_frame_width_minus_1: 319,
        max_frame_height_minus_1: 239,
        enable_order_hint: true,
        order_hint_bits_minus1: 6,
        ..Av1Sps::default()
    }
}

fn decoder() -> VideoDecoder {
    let caps = DecodeCapabilities {
        flags: 0,
        min_bitstream_buffer_size_alignment: 64,
        picture_access_granularity: Extent2D {
            width: 16,
            height: 16,
        },
        max_coded_extent: Extent2D {
            width: 4096,
            height: 4096,
        },
    };
    let mut d = VideoDecoder::new(parse_av1_init(Some(sps())).unwrap(), Some(0), &caps).unwrap();
    for i in 0..d.session_dpb_slots as u64 {
        d.add_dpb_image(100 + i, 200);
    }
    assert!(d.is_complete());
    d
}

fn pixels() -> DecodedPixels {
    DecodedPixels {
        y_plane: vec![1],
        u_plane: vec![2],
        v_plane: vec![3],
    }
}

const NO_REFS: [i32; 7] = [0; 7];

#[test]
fn flags_are_bits_of_a_word() {
    let mut f = StdVideoDecodeAV1PictureInfoFlags::new();
    f.set_error_resilient_mode(1);
    f.set_apply_grain(1);
    f.set_use_superres(3);
    assert_eq!(f.bits, 1 | (1 << 28) | (1 << 2));
    f.set_error_resilient_mode(0);
    f.set_use_superres(2);
    assert_eq!(f.bits, 1 << 28);
    assert_eq!(StdVideoDecodeAV1PictureInfoFlags::default().bits, 0);
}

#[test]
fn relative_distances_wrap() {
    assert_eq!(Av1Decoder::get_relative_dist(5, 3, 6), 2);
    assert_eq!(Av1Decoder::get_relative_dist(3, 5, 6), -2);
    assert_eq!(Av1Decoder::get_relative_dist(1, 127, 6), 2);
    assert_eq!(Av1Decoder::get_relative_dist(127, 1, 6), -2);
    assert_eq!(Av1Decoder::get_relative_dist(64, 0, 6), -64);
}

#[test]
fn frame_buffers_are_remembered() {
    let mut d = Av1Decoder::new();
    d.set_session(5);
    assert_eq!(d.session, 5);
    assert_eq!(d.get_pic_idx_for_frame_buffer(0), -1);
    assert_eq!(d.get_pic_idx_for_frame_buffer(9), -1);
    d.set_frame_buffer_dpb_slot(2, 4);
    d.set_frame_buffer_dpb_slot(3, 4);
    d.set_frame_buffer_order_hint(2, 11);
    d.set_frame_buffer_dims(2, 64, 32);
    d.set_frame_buffer_dpb_slot(8, 1);
    assert_eq!(d.get_pic_idx_for_frame_buffer(2), 4);
    assert_eq!(d.get_frame_buffer_order_hint(2), 11);
    assert_eq!(d.get_frame_buffer_order_hint(8), 0);
    assert_eq!(d.get_frame_buffer_dims(2), (64, 32));
    assert_eq!(d.get_frame_buffer_dims(1), (0, 0));
    assert_eq!(d.get_frame_buffer_for_dpb_slot(4), Some(2));
    assert_eq!(d.get_frame_buffer_for_dpb_slot(1), None);
    assert_eq!(
        d.compute_reference_name_slot_indices(false, &[2, 3, 0, 8, 2, 2, 2], 0),
        [4, 4, -1, -1, 4, 4, 4]
    );
    assert_eq!(d.compute_reference_name_slot_indices(true, &[2; 7], 0), [-1; 7]);
    d.reset_dpb();
    assert_eq!(d.get_pic_idx_for_frame_buffer(2), -1);
    assert_eq!(d.get_frame_buffer_dims(2), (0, 0));
}

#[test]
fn frame_buffers_remember_the_signs_of_their_references() {
    let mut d = Av1Decoder::new();
    let hints = [0, 4, 6, 8, 4, 9, 4, 4];
    d.set_frame_buffer_ref_info(1, &hints, 6, 6, 1, 1, 0);
    let info = d.get_frame_buffer_ref_info(1).unwrap();
    assert_eq!(info.saved_order_hints, hints);
    assert_eq!((info.frame_type, info.disable_cdf, info.seg_enabled), (1, 1, 0));
    // names 2, 3 and 5 are not before the frame
    assert_eq!(info.ref_frame_sign_bias, 0b0010_1100);
    assert!(d.get_frame_buffer_ref_info(8).is_none());
}

#[test]
fn av1_commands_describe_their_references() {
    let mut d = Av1Decoder::new();
    d.set_frame_buffer_dpb_slot(3, 2);
    d.set_frame_buffer_ref_info(3, &[1; 8], 5, 6, 2, 0, 1);
    let refs = [Av1RefPicture {
        slot_index: 2,
        order_hint: 5,
        image: 200,
        layout: ImageLayout::VideoDecodeDst,
    }];
    let current = Av1CurrentPicture {
        order_hint: 9,
        order_hints: [0, 1, 2, 3, 4, 5, 6, 7],
        disable_frame_end_update_cdf: 1,
        segmentation_enabled: 0,
    };
    let plan = d.record_decode_command(200, true, &refs, &current, true, 4, ImageLayout::Undefined, true);
    assert!(plan.reset);
    assert_eq!(plan.begin_slots, vec![2, 4]);
    assert_eq!(plan.ref_slots, vec![2]);
    assert_eq!(plan.ref_infos[0].order_hint, 5);
    assert_eq!(plan.ref_infos[0].frame_type, 2);
    assert_eq!(plan.ref_infos[0].segmentation_enabled, 1);
    let setup = plan.setup_info.unwrap();
    assert_eq!((setup.order_hint, setup.disable_frame_end_update_cdf), (9, 1));
    assert_eq!(plan.barriers.len(), 2);
    assert_eq!(plan.barriers[0].base_array_layer, 4);
    assert_eq!(plan.barriers[1].base_array_layer, 2);
    assert_eq!(d.frame_count, 1);
    let plan = d.record_decode_command(200, false, &[], &current, false, 4, ImageLayout::Undefined, false);
    assert!(plan.setup_info.is_none() && plan.begin_slots.is_empty());
    assert_eq!(plan.barriers[0].new_layout, ImageLayout::VideoDecodeDst);
    assert_eq!(plan.barriers[0].base_array_layer, 0);
}

#[test]
fn pictures_are_told_from_their_header() {
    let mut d = Av1Decoder::new();
    d.set_frame_buffer_order_hint(3, 260);
    let mut h = Av1FrameHeader {
        frame_type: 3,
        order_hint: 0x1FE,
        refresh_frame_flags: 0xA5,
        error_resilient_mode: true,
        uses_lr: true,
        tile_cols: 300,
        tile_rows: 2,
        tile_count: 600,
        tile_size_bytes_minus_1: 700,
        loop_filter_delta_update: true,
        loop_filter_level: [1, 2],
        loop_filter_level_uv: [3, 4],
        base_q_index: 77,
        cdef_damping: 6,
        loop_restoration_type: [0, 0, 2],
        loop_restoration_size: [1, 2, 3],
        global_motion_type: [9, 8, 7, 6, 5, 4, 3],
        ..header()
    };
    h.ref_frame_idx = [3, 0, 0, 0, 0, 0, 9];
    h.tile_mi_row_starts[1] = 40;
    h.global_motion_params[0] = [1, 2, 3, 4, 5, 6];
    h.segment_feature_data[2][3] = -4;
    let c = Av1PictureInfoContainer::new(&d, &h, &sps(), &NO_REFS, 20, 100);
    let p = &c.std_picture_info;
    assert_eq!((p.frame_type, p.order_hint, p.refresh_frame_flags), (3, 0xFE, 0xA5));
    assert_eq!(p.order_hints, [0, 4, 0, 0, 0, 0, 0, 0]);
    // error resilience, loop restoration, chroma restoration
    assert_eq!(p.flags.bits, 1 | (1 << 26) | (1 << 27));
    assert_eq!((c.tile_info.tile_cols, c.tile_info.tile_rows), (255, 2));
    assert_eq!(c.tile_info.tile_size_bytes_minus_1, 255);
    assert_eq!(c.tile_info.mi_col_starts.len(), 64);
    assert_eq!(c.tile_info.mi_row_starts, vec![0, 40]);
    assert_eq!(c.quantization.base_q_idx, 77);
    assert_eq!(c.loop_filter.loop_filter_level, [1, 2, 3, 4]);
    assert_eq!((c.loop_filter.update_ref_delta, c.loop_filter.update_mode_delta), (1, 0));
    assert_eq!(c.cdef.cdef_damping_minus_3, 6);
    assert_eq!(c.loop_restoration.frame_restoration_type, [0, 0, 2]);
    assert_eq!(c.global_motion.gm_type, [0, 9, 8, 7, 6, 5, 4, 3]);
    assert_eq!(c.global_motion.gm_params[0], [0; 6]);
    assert_eq!(c.global_motion.gm_params[1], [1, 2, 3, 4, 5, 6]);
    assert_eq!(c.segmentation.feature_data[2][3], -4);
    assert_eq!((c.tile_offsets[0], c.tile_sizes[0]), (30, 90));
}

#[test]
fn single_tiles_and_short_payloads() {
    let d = Av1Decoder::new();
    let h = Av1FrameHeader {
        frame_type: 9,
        ..header()
    };
    let c = Av1PictureInfoContainer::new(&d, &h, &sps(), &NO_REFS, 5, 3);
    assert_eq!(c.std_picture_info.frame_type, 0);
    assert_eq!(c.tile_info.tile_size_bytes_minus_1, 0);
    assert_eq!((c.tile_offsets[0], c.tile_sizes[0]), (15, 0));
}

#[test]
fn references_are_derived_on_short_signaling() {
    let mut d = Av1Decoder::new();
    d.set_frame_buffer_order_hint(5, 42);
    let h = Av1FrameHeader {
        frame_refs_short_signaling: true,
        ..header()
    };
    assert!(needs_derived_refs(&h, &sps()));
    let derived = [5, -1, 8, 5, 5, 5, 5];
    let c = Av1PictureInfoContainer::new(&d, &h, &sps(), &derived, 0, 0);
    assert_eq!(c.std_picture_info.order_hints, [0, 42, 0, 0, 42, 42, 42, 42]);
    assert!(!needs_derived_refs(&Av1FrameHeader { frame_type: 0, ..h }, &sps()));
    assert!(!needs_derived_refs(&h, &Av1Sps { enable_order_hint: false, ..sps() }));
    assert!(!needs_derived_refs(&header(), &sps()));
}

#[test]
fn av1_streams_without_frames_or_header_are_refused() {
    let message = |data: &[u8], has_sps: bool| match av1_frames_to_decode(data, 5, has_sps) {
        Err(VideoError::DecoderInit(m)) => m,
        _ => panic!("no error"),
    };
    assert_eq!(message(&[0x12, 0], true), "No AV1 frames found");
    assert_eq!(message(&[0x32, 1, 7], false), "AV1 SPS not available");
    assert_eq!(av1_frames_to_decode(&[0x32, 1, 7], 5, true).unwrap().len(), 1);
}

#[test]
fn a_key_frame_fills_the_frame_buffers() {
    let mut d = decoder();
    let mut s = Av1Stream::new(7, 2);
    assert_eq!(s.decoder.session, 7);
    let key = Av1FrameHeader {
        frame_type: 0,
        order_hint: 3,
        refresh_frame_flags: 0xFF,
        ..header()
    };
    let step = d.begin_av1_frame(&mut s, &key, &sps(), 100, 20, 50, 5, &NO_REFS);
    assert_eq!((step.output_slot, step.bitstream_size), (0, 128));
    assert_eq!((step.bitstream_range, step.frame_header_offset, step.tile_count), (100, 0, 1));
    assert!(step.frees_slots && step.plan.reset);
    assert!(step.references.is_empty());
    assert_eq!(step.reference_name_slot_indices, [-1; 7]);
    assert_eq!(step.plan.begin_slots, vec![0]);
    let hints = step.picture.std_picture_info.order_hints;
    assert!(d.finish_av1_decode(&mut s, &key, &sps(), &hints, 0));
    for i in 0..8 {
        assert_eq!(s.decoder.get_pic_idx_for_frame_buffer(i), 0);
        assert_eq!(s.decoder.get_frame_buffer_order_hint(i), 3);
        assert_eq!(s.decoder.get_frame_buffer_dims(i), (320, 240));
    }
    d.finish_av1_readback(&mut s, &key, 0, pixels());
    assert!(!s.is_done);
    let f = &s.frames[0];
    assert_eq!((f.poc, f.frame_num, f.is_idr, f.is_reference), (0, 0, true, true));
    assert_eq!((s.frame_count, s.display_count), (1, 1));
}

fn after_key_frame(max_frames: usize) -> (VideoDecoder, Av1Stream) {
    let mut d = decoder();
    let mut s = Av1Stream::new(7, max_frames);
    let key = Av1FrameHeader {
        frame_type: 0,
        refresh_frame_flags: 0xFF,
        ..header()
    };
    let step = d.begin_av1_frame(&mut s, &key, &sps(), 100, 20, 50, 0, &NO_REFS);
    let hints = step.picture.std_picture_info.order_hints;
    d.finish_av1_decode(&mut s, &key, &sps(), &hints, 0);
    d.finish_av1_readback(&mut s, &key, 0, pixels());
    (d, s)
}

#[test]
fn inter_frames_refresh_some_frame_buffers() {
    let (mut d, mut s) = after_key_frame(100);
    let inter = Av1FrameHeader {
        order_hint: 4,
        refresh_frame_flags: 0b0000_0110,
        show_frame: false,
        ..header()
    };
    let step = d.begin_av1_frame(&mut s, &inter, &sps(), 100, 20, 50, 3, &NO_REFS);
    assert_eq!(step.output_slot, 3);
    assert!(!step.frees_slots && !step.plan.reset);
    // all names stand for the one picture in slot 0
    assert_eq!(step.reference_name_slot_indices, [0; 7]);
    assert_eq!(step.references.len(), 1);
    assert_eq!(step.references[0].image_view, 100);
    assert_eq!(step.plan.begin_slots, vec![0, 3]);
    assert_eq!(step.plan.ref_slots, vec![0]);
    assert_eq!(step.plan.barriers[0].base_array_layer, 3);
    let hints = step.picture.std_picture_info.order_hints;
    assert!(!d.finish_av1_decode(&mut s, &inter, &sps(), &hints, 3));
    let slots: Vec<i32> = (0..8).map(|i| s.decoder.get_pic_idx_for_frame_buffer(i)).collect();
    assert_eq!(slots, vec![0, 3, 3, 0, 0, 0, 0, 0]);
    // it is not shown, but counted
    assert_eq!((s.frame_count, s.display_count), (2, 1));
    // the next frame refers to both, in the order of the frame buffers
    let next = Av1FrameHeader {
        order_hint: 5,
        ref_frame_idx: [1, 0, 0, 0, 0, 0, 0],
        ..header()
    };
    let step = d.begin_av1_frame(&mut s, &next, &sps(), 100, 20, 50, 4, &NO_REFS);
    let refs: Vec<i32> = step.references.iter().map(|r| r.slot_index).collect();
    assert_eq!(refs, vec![0, 3]);
    assert_eq!(step.plan.ref_infos[1].order_hint, 4);
    assert_eq!(step.picture.std_picture_info.order_hints[1], 4);
}

#[test]
fn the_output_slot_is_no_reference() {
    let mut d = decoder();
    let mut s = Av1Stream::new(7, 100);
    // the first frame goes into the first slot, though it is no key frame
    let step = d.begin_av1_frame(&mut s, &header(), &sps(), 100, 20, 50, 5, &NO_REFS);
    assert_eq!(step.output_slot, 0);
    assert!(step.references.is_empty());
    assert!(step.plan.ref_slots.is_empty());
    assert_eq!(step.plan.begin_slots, vec![0]);
}

#[test]
fn existing_frames_are_shown_again() {
    let (d, mut s) = after_key_frame(2);
    let again = Av1FrameHeader {
        show_existing_frame: true,
        frame_to_show_map_idx: 2,
        ..header()
    };
    let (source, extent) = d.existing_av1_frame(&s, 2).unwrap();
    assert_eq!((source.slot, source.image, source.layer), (0, 200, 0));
    assert_eq!((extent.width, extent.height), (320, 240));
    assert!(d.existing_av1_frame(&s, 9).is_none());
    assert_eq!(d.next_av1_action(&s, Some(&again)), Av1Action::Show { source, extent });
    d.show_av1_frame(&mut s, &again, extent, pixels());
    assert!(s.is_done);
    let f = &s.frames[1];
    assert_eq!((f.poc, f.frame_num, f.is_idr, f.is_reference), (1, 1, false, false));
    assert_eq!((s.frame_count, s.display_count), (1, 2));
    // where the dimensions are unknown, those of the stream count
    s.decoder.set_frame_buffer_dims(2, 0, 5);
    let (_, extent) = d.existing_av1_frame(&s, 2).unwrap();
    assert_eq!((extent.width, extent.height), (320, 240));
    let fresh = Av1Stream::new(1, 2);
    assert!(d.existing_av1_frame(&fresh, 0).is_none());
    // a frame buffer without a picture is not shown
    assert_eq!(d.next_av1_action(&fresh, Some(&again)), Av1Action::Skip);
}

#[test]
fn a_run_shows_the_wanted_frames_in_order() {
    let (mut d, mut s) = after_key_frame(3);
    assert_eq!(d.next_av1_action(&s, None), Av1Action::Skip);
    let hidden = Av1FrameHeader {
        show_frame: false,
        refresh_frame_flags: 2,
        ..header()
    };
    let shown = Av1FrameHeader {
        refresh_frame_flags: 4,
        ..header()
    };
    for (slot, h) in [(1, hidden), (2, shown)] {
        assert_eq!(d.next_av1_action(&s, Some(&h)), Av1Action::Decode);
        let step = d.begin_av1_frame(&mut s, &h, &sps(), 100, 20, 50, slot, &NO_REFS);
        let hints = step.picture.std_picture_info.order_hints;
        if d.finish_av1_decode(&mut s, &h, &sps(), &hints, slot) {
            d.finish_av1_readback(&mut s, &h, slot, pixels());
        }
    }
    let again = Av1FrameHeader {
        show_existing_frame: true,
        frame_to_show_map_idx: 1,
        ..header()
    };
    match d.next_av1_action(&s, Some(&again)) {
        Av1Action::Show { source, extent } => {
            assert_eq!(source.slot, 1);
            d.show_av1_frame(&mut s, &again, extent, pixels());
        }
        _ => panic!("not shown"),
    }
    assert_eq!(d.next_av1_action(&s, Some(&shown)), Av1Action::Stop);
    let frames: Vec<(i32, bool, bool)> =
        s.frames.iter().map(|f| (f.poc, f.is_idr, f.is_reference)).collect();
    assert_eq!(frames, vec![(0, true, true), (1, false, true), (2, false, false)]);
    let ordered = VideoDecoder::reorder_to_presentation(s.frames);
    let pocs: Vec<i32> = ordered.iter().map(|f| f.poc).collect();
    assert_eq!(pocs, vec![0, 1, 2]);
}

#[test]
fn reference_information_outlives_calls_for_other_buffers() {
    let mut d = Av1Decoder::new();
    let hints = [0, 1, 9, 6, 7, 5, 2, 3];
    d.set_frame_buffer_ref_info(4, &hints, 6, 6, 1, 1, 0);
    for i in 0..8 {
        if i != 4 {
            d.set_frame_buffer_ref_info(i, &[i as u8; 8], 20, 6, 3, 0, 1);
            d.set_frame_buffer_order_hint(i, 50);
            d.set_frame_buffer_dpb_slot(i, 2);
        }
    }
    let info = d.get_frame_buffer_ref_info(4).unwrap();
    assert_eq!(info.saved_order_hints, hints);
    assert_eq!((info.frame_type, info.disable_cdf, info.seg_enabled), (1, 1, 0));
    // order hints 9, 6 and 7 do not precede 6
    assert_eq!(info.ref_frame_sign_bias, 0b0001_1100);
}
