use std::collections::HashSet;
use vk_video_vulkan::access_unit::{
    classify_nal, convert_mmco_commands, parse_h264_inband_params, parse_h265_inband_params,
    AccessUnit, ExtractedItem, H264MmcoCommand, H264OrH265Pps, H264OrH265Sps, H265VpsOpt,
    NalHeader, ParsedH264Sets, ParsedH265Sets, VideoCodec,
};
use vk_video_vulkan::extractor::{
    extract_all_access_units, h264_picture_starts, AccessUnitExtractor, NalUnit,
};
use vk_video_vulkan::parameter_sets::{
    DecRefPicMarking, H264Pps, H264Sps, H265Pps, H265Sps, H265Vps, SliceHeader,
};

fn header(nal_unit_type: u8, ref_idc: u8) -> Option<NalHeader> {
    Some(NalHeader {
        nal_unit_type,
        ref_idc,
        temporal_id_plus1: 1,
    })
}

fn h264_slice(first_mb: u32, frame_num: u32, slice_type: u32) -> SliceHeader {
    SliceHeader {
        first_mb_in_slice: first_mb,
        frame_num,
        slice_type,
        no_output_of_prior_pics_flag: false,
        dec_ref_pic_marking: Vec::new(),
    }
}

/// Puts units behind start codes of three bytes, one after the other.
fn stream(units: Vec<(Vec<u8>, NalUnit)>) -> (Vec<u8>, Vec<NalUnit>) {
    let mut data = Vec::new();
    let mut nals: Vec<NalUnit> = Vec::new();
    let n = units.len();
    for (i, (bytes, nal)) in units.into_iter().enumerate() {
        let start = data.len();
        data.extend_from_slice(&[0, 0, 1]);
        data.extend_from_slice(&bytes);
        let next_start = if i + 1 < n { Some(data.len()) } else { None };
        nals.push(NalUnit {
            start,
            code_len: 3,
            next_start,
            ..nal
        });
    }
    (data, nals)
}

fn unit(nal_header: Option<NalHeader>) -> NalUnit {
    NalUnit {
        start: 0,
        code_len: 3,
        next_start: None,
        header: nal_header,
        h264_sets: None,
        h265_sets: None,
        h264_slice: None,
        poc_top: 0,
        payload: Vec::new(),
    }
}

fn unit_of(item: &ExtractedItem) -> &AccessUnit {
    match item {
        ExtractedItem::AccessUnit(au) => au,
        ExtractedItem::ParameterSet(_) => panic!("a parameter set"),
    }
}

#[test]
fn h264_units_have_one_class() {
    let c = classify_nal(VideoCodec::H264, header(5, 1));
    assert!(c.is_slice && c.is_irap && !c.is_params && !c.is_au_delimiter);
    assert_eq!(c.nal_type, 5);
    assert!(classify_nal(VideoCodec::H264, header(1, 0)).is_slice);
    assert!(classify_nal(VideoCodec::H264, header(7, 1)).is_params);
    assert!(classify_nal(VideoCodec::H264, header(8, 1)).is_params);
    assert!(classify_nal(VideoCodec::H264, header(9, 0)).is_au_delimiter);
    let none = classify_nal(VideoCodec::H264, header(6, 0));
    assert!(!none.is_slice && !none.is_params && !none.is_au_delimiter && !none.is_irap);
}

#[test]
fn h265_units_have_one_class() {
    assert!(classify_nal(VideoCodec::H265, header(0, 0)).is_slice);
    assert!(classify_nal(VideoCodec::H265, header(31, 0)).is_slice);
    let c = classify_nal(VideoCodec::H265, header(21, 0));
    assert!(c.is_slice && c.is_irap);
    assert!(classify_nal(VideoCodec::H265, header(16, 0)).is_irap);
    assert!(classify_nal(VideoCodec::H265, header(23, 0)).is_irap);
    assert!(!classify_nal(VideoCodec::H265, header(24, 0)).is_irap);
    for t in 32..=34 {
        assert!(classify_nal(VideoCodec::H265, header(t, 0)).is_params);
    }
    assert!(classify_nal(VideoCodec::H265, header(38, 0)).is_au_delimiter);
    let none = classify_nal(VideoCodec::H265, None);
    assert!(!none.is_slice && !none.is_params && !none.is_au_delimiter);
    assert_eq!(none.nal_type, 0);
    assert!(!classify_nal(VideoCodec::Vp9, header(1, 0)).is_slice);
}

#[test]
fn marking_commands_are_converted() {
    let entries: Vec<DecRefPicMarking> = (0..=7)
        .map(|op| DecRefPicMarking {
            memory_management_control_operation: op,
            value: 10 + op,
        })
        .collect();
    let cmds = convert_mmco_commands(&entries);
    assert_eq!(cmds.len(), 6);
    assert_eq!(
        cmds[0],
        H264MmcoCommand::UnmarkShortTerm {
            difference_of_pic_nums_minus1: 11
        }
    );
    assert_eq!(
        cmds[1],
        H264MmcoCommand::UnmarkLongTerm {
            long_term_frame_idx: 12
        }
    );
    assert!(matches!(cmds[2], H264MmcoCommand::AssignLongTerm { .. }));
    assert!(matches!(cmds[3], H264MmcoCommand::SetMaxLongTermFrameIdx { .. }));
    assert_eq!(cmds[4], H264MmcoCommand::UnmarkAll);
    assert!(matches!(cmds[5], H264MmcoCommand::AssignLongTermToCurrent { .. }));
}

#[test]
fn only_new_h264_sets_are_reported() {
    let sps = H264Sps {
        seq_parameter_set_id: 3,
        ..H264Sps::default()
    };
    let pps = H264Pps {
        pic_parameter_set_id: 4,
        ..H264Pps::default()
    };
    let parsed = || {
        Some(ParsedH264Sets {
            sps: Some(sps),
            pps: Some(pps),
        })
    };
    let none: HashSet<u32> = HashSet::new();
    let three: HashSet<u32> = HashSet::from([3]);
    let four: HashSet<u32> = HashSet::from([4]);
    let both = parse_h264_inband_params(&[1], parsed(), &none, &none).unwrap();
    assert!(both.sps.is_some() && both.pps.is_some() && both.vps.is_none());
    let one = parse_h264_inband_params(&[1], parsed(), &three, &none).unwrap();
    assert!(one.sps.is_none() && one.pps.is_some());
    assert!(parse_h264_inband_params(&[1], parsed(), &three, &four).is_none());
    assert!(parse_h264_inband_params(&[], parsed(), &none, &none).is_none());
    assert!(parse_h264_inband_params(&[1], None, &none, &none).is_none());
}

#[test]
fn only_new_h265_sets_are_reported() {
    let parsed = || {
        Some(ParsedH265Sets {
            vps: Some(H265Vps {
                vps_video_parameter_set_id: 1,
                ..H265Vps::default()
            }),
            sps: Some(H265Sps {
                sps_seq_parameter_set_id: 2,
                ..H265Sps::default()
            }),
            pps: Some(H265Pps {
                pps_pic_parameter_set_id: 3,
                ..H265Pps::default()
            }),
        })
    };
    let none: HashSet<u32> = HashSet::new();
    let one: HashSet<u32> = HashSet::from([1]);
    let two: HashSet<u32> = HashSet::from([2]);
    let three: HashSet<u32> = HashSet::from([3]);
    let all = parse_h265_inband_params(&[1], parsed(), &none, &none, &none).unwrap();
    assert!(all.vps.is_some() && all.sps.is_some() && all.pps.is_some());
    let last = parse_h265_inband_params(&[1], parsed(), &one, &two, &none).unwrap();
    assert!(last.vps.is_none() && last.sps.is_none() && last.pps.is_some());
    assert!(parse_h265_inband_params(&[1], parsed(), &one, &two, &three).is_none());
    assert!(parse_h265_inband_params(&[], parsed(), &none, &none, &none).is_none());
}

#[test]
fn h264_slices_make_up_pictures() {
    let sps = H264OrH265Sps::H264(H264Sps::default());
    let idr = |first: u32| NalUnit {
        h264_slice: Some(h264_slice(first, 0, 2)),
        poc_top: 0,
        ..unit(header(5, 3))
    };
    let p = NalUnit {
        h264_slice: Some(h264_slice(0, 1, 0)),
        poc_top: 4,
        ..unit(header(1, 2))
    };
    let b = NalUnit {
        h264_slice: Some(h264_slice(0, 2, 1)),
        poc_top: 2,
        ..unit(header(1, 0))
    };
    let (data, nals) = stream(vec![
        (vec![0x65, 1, 2], idr(0)),
        (vec![0x65, 3], idr(9)),
        (vec![0x41, 4], p),
        (vec![0x01, 5, 6], b),
    ]);
    let items = extract_all_access_units(&data, VideoCodec::H264, 10, Some(&sps), None, nals);
    assert_eq!(items.len(), 3);
    let first = unit_of(&items[0]);
    assert_eq!(first.data, vec![0, 0, 1, 0x65, 1, 2, 0, 0, 1, 0x65, 3]);
    assert_eq!(first.slice_offsets, vec![0, 6]);
    assert!(first.is_idr && first.is_reference);
    assert_eq!(first.slice_type, 2);
    let second = unit_of(&items[1]);
    assert_eq!(second.data, vec![0, 0, 1, 0x41, 4]);
    assert_eq!(second.pic_order_cnt, [4, 4]);
    assert_eq!(second.frame_num, 1);
    assert!(!second.is_idr && second.is_reference);
    let third = unit_of(&items[2]);
    assert_eq!(third.pic_order_cnt, [2, 2]);
    assert!(!third.is_reference);
    assert_eq!(third.slice_type, 1);
}

#[test]
fn h264_marking_commands_go_with_their_picture() {
    let sps = H264OrH265Sps::H264(H264Sps::default());
    let mut slice = h264_slice(0, 5, 0);
    slice.dec_ref_pic_marking.push(DecRefPicMarking {
        memory_management_control_operation: 1,
        value: 2,
    });
    let p = NalUnit {
        h264_slice: Some(slice),
        ..unit(header(1, 2))
    };
    let q = NalUnit {
        h264_slice: Some(h264_slice(0, 6, 0)),
        ..unit(header(1, 2))
    };
    let (data, nals) = stream(vec![(vec![0x41], p), (vec![0x41], q)]);
    let items = extract_all_access_units(&data, VideoCodec::H264, 10, Some(&sps), None, nals);
    let first = unit_of(&items[0]);
    assert!(first.adaptive_ref_pic_marking_mode_flag);
    assert_eq!(
        first.mmco_commands,
        vec![H264MmcoCommand::UnmarkShortTerm {
            difference_of_pic_nums_minus1: 2
        }]
    );
    let second = unit_of(&items[1]);
    assert!(!second.adaptive_ref_pic_marking_mode_flag);
    assert!(second.mmco_commands.is_empty());
}

#[test]
fn delimiters_close_a_unit_and_sets_are_reported_once() {
    let sps = H264Sps {
        seq_parameter_set_id: 0,
        ..H264Sps::default()
    };
    let known = H264OrH265Sps::H264(sps);
    let new_sps = H264Sps {
        seq_parameter_set_id: 1,
        ..sps
    };
    let set = |s: H264Sps| NalUnit {
        h264_sets: Some(ParsedH264Sets {
            sps: Some(s),
            pps: None,
        }),
        ..unit(header(7, 3))
    };
    let idr = NalUnit {
        h264_slice: Some(h264_slice(0, 0, 2)),
        ..unit(header(5, 3))
    };
    let (data, nals) = stream(vec![
        (vec![0x67], set(sps)),
        (vec![0x67], set(new_sps)),
        (vec![0x67], set(new_sps)),
        (vec![0x65, 1], idr),
        (vec![0x09], unit(header(9, 0))),
    ]);
    let items = extract_all_access_units(&data, VideoCodec::H264, 10, Some(&known), None, nals);
    assert_eq!(items.len(), 2);
    match &items[0] {
        ExtractedItem::ParameterSet(ps) => match &ps.sps {
            Some(H264OrH265Sps::H264(s)) => assert_eq!(s.seq_parameter_set_id, 1),
            _ => panic!("no sequence parameter set"),
        },
        ExtractedItem::AccessUnit(_) => panic!("an access unit"),
    }
    assert_eq!(unit_of(&items[1]).data, vec![0, 0, 1, 0x65, 1]);
}

#[test]
fn extraction_stops_at_twice_the_frames() {
    let sps = H264OrH265Sps::H264(H264Sps::default());
    let units: Vec<(Vec<u8>, NalUnit)> = (0..20)
        .map(|i| {
            (
                vec![0x41, i as u8],
                NalUnit {
                    h264_slice: Some(h264_slice(0, i, 0)),
                    ..unit(header(1, 2))
                },
            )
        })
        .collect();
    let (data, nals) = stream(units);
    let items =
        extract_all_access_units(&data, VideoCodec::H264, 2, Some(&sps), None, nals.clone());
    // four items, and the unit under construction when they were complete
    assert_eq!(items.len(), 5);
    let items = extract_all_access_units(&data, VideoCodec::H264, 0, Some(&sps), None, nals);
    assert!(items.is_empty());
}

#[test]
fn slices_without_parameter_sets_start_no_h264_picture() {
    let p = NalUnit {
        h264_slice: Some(h264_slice(0, 1, 0)),
        ..unit(header(1, 2))
    };
    let (data, nals) = stream(vec![(vec![0x41, 4], p)]);
    let items = extract_all_access_units(&data, VideoCodec::H264, 10, None, None, nals);
    assert!(items.is_empty());
}

#[test]
fn h265_slices_with_headers_start_pictures() {
    let sps = H264OrH265Sps::H265(H265Sps {
        log2_max_pic_order_cnt_lsb_minus4: 0,
        ..H265Sps::default()
    });
    let pps = H264OrH265Pps::H265(H265Pps::default());
    // first slice, no output kept, parameter set 0, slice type 2
    let idr = NalUnit {
        payload: vec![0b1010_1110],
        ..unit(header(19, 0))
    };
    // first slice, parameter set 0, slice type 1, order count 3, explicit empty set
    let p = NalUnit {
        payload: vec![0b1101_0001, 0b1011_1000],
        ..unit(header(1, 0))
    };
    let (data, nals) = stream(vec![(vec![0x26, 1, 7], idr), (vec![0x02, 1, 8], p)]);
    let items =
        extract_all_access_units(&data, VideoCodec::H265, 10, Some(&sps), Some(&pps), nals);
    assert_eq!(items.len(), 2);
    let first = unit_of(&items[0]);
    assert!(first.is_idr && first.is_reference);
    assert_eq!(first.slice_type, 2);
    assert_eq!(first.pic_order_cnt, [0, 0]);
    assert_eq!(first.frame_num, 2);
    assert_eq!(first.data, vec![0, 0, 1, 0x26, 1, 7]);
    let second = unit_of(&items[1]);
    assert!(!second.is_idr && second.is_reference);
    // the raw slice type of the header
    assert_eq!(second.slice_type, 1);
    assert_eq!(second.pic_order_cnt, [3, 3]);
    assert_eq!(second.frame_num, 4);
}

#[test]
fn an_idr_picture_of_two_slices_is_one_unit() {
    let sps = H264OrH265Sps::H265(H265Sps::default());
    let pps = H264OrH265Pps::H265(H265Pps::default());
    // the first bit says whether a slice is the first of its picture
    let first = NalUnit {
        payload: vec![0b1010_1110],
        ..unit(header(19, 0))
    };
    let second = NalUnit {
        payload: vec![0b0010_1110],
        ..unit(header(19, 0))
    };
    let units = vec![
        (vec![0x26, 1, 7], first.clone()),
        (vec![0x26, 1, 8], second),
        (vec![0x26, 1, 9], first),
    ];
    let (data, nals) = stream(units);
    let items = extract_all_access_units(
        &data,
        VideoCodec::H265,
        10,
        Some(&sps),
        Some(&pps),
        nals.clone(),
    );
    assert_eq!(items.len(), 2);
    let unit = unit_of(&items[0]);
    assert!(unit.is_idr);
    assert_eq!(unit.slice_offsets, vec![0, 6]);
    assert_eq!(unit.data, vec![0, 0, 1, 0x26, 1, 7, 0, 0, 1, 0x26, 1, 8]);
    // the units together hold all slices of the stream, in order
    let joined: Vec<u8> = items.iter().flat_map(|i| unit_of(i).data.clone()).collect();
    assert_eq!(joined, data);
    // without parameter sets the type alone decides
    let items = extract_all_access_units(&data, VideoCodec::H265, 10, None, None, nals);
    assert_eq!(items.len(), 3);
}

#[test]
fn slices_of_a_picture_that_is_no_reference_stay_together() {
    let sps = H264OrH265Sps::H264(H264Sps::default());
    let slice = |first: u32, frame_num: u32, ref_idc: u8| NalUnit {
        h264_slice: Some(h264_slice(first, frame_num, 0)),
        ..unit(header(1, ref_idc))
    };
    let (data, nals) = stream(vec![
        (vec![0x41, 1], slice(0, 1, 2)),
        (vec![0x01, 2], slice(0, 2, 0)),
        (vec![0x01, 3], slice(9, 2, 0)),
        (vec![0x09], unit(header(9, 0))),
        (vec![0x01, 4], slice(9, 2, 0)),
        (vec![0x01, 5], slice(9, 3, 0)),
    ]);
    // a slice starts a picture behind a delimiter, and where its frame number differs
    let starts = vec![true, true, false, false, true, true];
    assert_eq!(h264_picture_starts(data.len(), &nals, true), starts);
    assert_eq!(h264_picture_starts(data.len(), &nals, false), vec![false; 6]);
    let items = extract_all_access_units(&data, VideoCodec::H264, 10, Some(&sps), None, nals);
    let counts: Vec<usize> = items.iter().map(|i| unit_of(i).slice_offsets.len()).collect();
    assert_eq!(counts, vec![1, 2, 1, 1]);
}

#[test]
fn h265_slices_without_headers_go_by_their_type() {
    let (data, nals) = stream(vec![
        (vec![0x26, 1, 7], unit(header(19, 0))),
        (vec![0x02, 1, 8], unit(header(1, 0))),
        (vec![0x2A, 1, 9], unit(header(21, 0))),
    ]);
    let items = extract_all_access_units(&data, VideoCodec::H265, 10, None, None, nals);
    // the second slice goes on with the first picture
    assert_eq!(items.len(), 2);
    let first = unit_of(&items[0]);
    assert_eq!(first.slice_type, 2);
    assert_eq!(first.slice_offsets, vec![0, 6]);
    let second = unit_of(&items[1]);
    assert_eq!(second.slice_type, 1);
    assert!(!second.is_idr && second.is_reference);
}

#[test]
fn h265_sets_are_reported() {
    let set = NalUnit {
        h265_sets: Some(ParsedH265Sets {
            vps: Some(H265Vps::default()),
            sps: None,
            pps: None,
        }),
        ..unit(header(32, 0))
    };
    let (data, nals) = stream(vec![(vec![0x40, 1], set.clone()), (vec![0x40, 1], set)]);
    let items = extract_all_access_units(&data, VideoCodec::H265, 10, None, None, nals);
    assert_eq!(items.len(), 1);
    match &items[0] {
        ExtractedItem::ParameterSet(ps) => {
            assert!(matches!(ps.vps, Some(H265VpsOpt::H265(_))));
            assert!(ps.sps.is_none() && ps.pps.is_none());
        }
        ExtractedItem::AccessUnit(_) => panic!("an access unit"),
    }
}

#[test]
fn an_extractor_wants_no_more_at_the_end() {
    let e = AccessUnitExtractor::new(VideoCodec::H264, None, None);
    assert!(e.wants_more(0, 10, 1));
    assert!(!e.wants_more(10, 10, 1));
    assert!(!e.wants_more(0, 10, 0));
}
