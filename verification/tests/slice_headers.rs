use vk_video_vulkan::parameter_sets::{H265Pps, H265ShortTermRefPicSet, H265Sps};
use vk_video_vulkan::slice_header::{ceil_log2_u8, parse_h265_slice_header};

struct Bits {
    bits: Vec<u8>,
}

impl Bits {
    fn new() -> Bits {
        Bits { bits: Vec::new() }
    }

    fn put(mut self, value: u32, n: u32) -> Bits {
        for k in (0..n).rev() {
            self.bits.push(((value >> k) & 1) as u8);
        }
        self
    }

    fn ue(self, value: u32) -> Bits {
        let v = value + 1;
        let len = 32 - v.leading_zeros();
        self.put(0, len - 1).put(v, len)
    }

    fn bytes(mut self) -> Vec<u8> {
        self.bits.push(1);
        while self.bits.len() % 8 != 0 {
            self.bits.push(0);
        }
        self.bits
            .chunks(8)
            .map(|c| c.iter().fold(0u8, |a, b| (a << 1) | b))
            .collect()
    }
}

fn sps() -> H265Sps {
    H265Sps {
        log2_max_pic_order_cnt_lsb_minus4: 4,
        ..H265Sps::default()
    }
}

#[test]
fn idr_slices_start_anew() {
    let data = Bits::new().put(1, 1).put(1, 1).ue(0).ue(2).bytes();
    let h = parse_h265_slice_header(10, &data, &sps(), &H265Pps::default(), 19, 200, 512).unwrap();
    assert!(h.first_slice_segment_in_pic_flag);
    assert!(h.no_output_of_prior_pics_flag);
    assert!(h.is_idr);
    assert!(h.is_reference);
    assert_eq!(h.slice_type, 2);
    assert_eq!(h.pic_order_cnt_lsb, 0);
    assert_eq!(h.pic_order_cnt_msb, 0);
    assert_eq!(h.pic_order_cnt, [0, 0]);
    assert!(!h.short_term_ref_pic_set_sps_flag);
    assert!(h.ref_pocs.is_empty());
}

#[test]
fn short_units_and_later_segments_have_no_header() {
    let data = Bits::new().put(1, 1).ue(0).ue(1).put(5, 8).bytes();
    assert!(parse_h265_slice_header(2, &data, &sps(), &H265Pps::default(), 1, 0, 0).is_none());
    assert!(parse_h265_slice_header(3, &data, &sps(), &H265Pps::default(), 1, 0, 0).is_some());
    let data = Bits::new().put(0, 1).ue(0).ue(1).put(5, 8).bytes();
    assert!(parse_h265_slice_header(9, &data, &sps(), &H265Pps::default(), 1, 0, 0).is_none());
    let empty: [u8; 0] = [];
    assert!(parse_h265_slice_header(9, &empty, &sps(), &H265Pps::default(), 1, 0, 0).is_none());
}

#[test]
fn a_missing_order_count_is_refused() {
    let data = [0b1100_0000u8];
    // first slice, parameter set 0, then too few bits for an order count
    assert!(parse_h265_slice_header(9, &data, &sps(), &H265Pps::default(), 1, 0, 0).is_none());
}

#[test]
fn explicit_sets_count_from_the_current_picture() {
    // two before (-1 used, -3 unused), one behind (+2 used)
    let data = Bits::new()
        .put(1, 1)
        .ue(0)
        .ue(1)
        .put(10, 8)
        .put(0, 1)
        .ue(2)
        .ue(1)
        .ue(0)
        .put(1, 1)
        .ue(1)
        .put(0, 1)
        .ue(1)
        .put(1, 1)
        .bytes();
    let h = parse_h265_slice_header(20, &data, &sps(), &H265Pps::default(), 1, 8, 256).unwrap();
    assert_eq!(h.pic_order_cnt, [266, 266]);
    assert!(h.is_reference);
    assert!(!h.is_idr);
    assert_eq!(h.slice_type, 1);
    assert!(!h.short_term_ref_pic_set_sps_flag);
    assert_eq!(h.ref_pocs, vec![265, 268]);
    // ue(2)=3, ue(1)=3, ue(0)=1+1, ue(1)=3+1, ue(1)=3+1 bits
    assert_eq!(h.num_bits_for_st_ref_pic_set_in_slice, 16);
    assert_eq!(h.num_delta_pocs_of_ref_rps_idx, 0);
}

#[test]
fn order_counts_wrap_to_the_nearest() {
    let data = |lsb: u32| Bits::new().put(1, 1).ue(0).ue(1).put(lsb, 8).put(1, 1).bytes();
    let poc = |lsb: u32, prev_lsb: i32, prev_msb: i32| {
        parse_h265_slice_header(20, &data(lsb), &sps(), &H265Pps::default(), 1, prev_lsb, prev_msb)
            .unwrap()
            .pic_order_cnt[0]
    };
    assert_eq!(poc(2, 250, 256), 514);
    assert_eq!(poc(250, 2, 256), 250);
    assert_eq!(poc(100, 90, 256), 356);
    // half a cycle back goes on, half a cycle ahead stays
    assert_eq!(poc(0, 128, 0), 256);
    assert_eq!(poc(128, 0, 0), 128);
}

#[test]
fn stored_sets_are_named_by_index() {
    let mut set = H265ShortTermRefPicSet {
        num_negative_pics: 2,
        num_positive_pics: 1,
        used_by_curr_pic_s0_flag: 0b11,
        used_by_curr_pic_s1_flag: 0b1,
        ..H265ShortTermRefPicSet::default()
    };
    set.delta_poc_s0_minus1[0] = 65535; // -1
    set.delta_poc_s0_minus1[1] = 65533; // -3
    set.delta_poc_s1_minus1[0] = 4;
    let other = H265ShortTermRefPicSet::default();
    let s = H265Sps {
        num_short_term_ref_pic_sets: 3,
        short_term_ref_pic_sets: vec![other, other, set],
        ..sps()
    };
    let data = Bits::new().put(1, 1).ue(0).ue(0).put(50, 8).put(1, 1).put(2, 2).bytes();
    let h = parse_h265_slice_header(20, &data, &s, &H265Pps::default(), 0, 48, 0).unwrap();
    assert!(h.short_term_ref_pic_set_sps_flag);
    assert!(!h.is_reference);
    assert_eq!(h.ref_pocs, vec![49, 47, 54]);
    assert_eq!(h.num_bits_for_st_ref_pic_set_in_slice, 0);
}

#[test]
fn predicted_sets_shift_a_stored_one() {
    let mut set = H265ShortTermRefPicSet {
        num_negative_pics: 1,
        num_positive_pics: 1,
        ..H265ShortTermRefPicSet::default()
    };
    set.delta_poc_s0_minus1[0] = 65534; // -2
    set.delta_poc_s1_minus1[0] = 3;
    let s = H265Sps {
        num_short_term_ref_pic_sets: 1,
        short_term_ref_pic_sets: vec![set],
        ..sps()
    };
    // predicted from the set before, shifted by -1; all three are used
    let data = Bits::new()
        .put(1, 1)
        .ue(0)
        .ue(1)
        .put(20, 8)
        .put(0, 1)
        .put(1, 1)
        .ue(0)
        .put(1, 1)
        .ue(0)
        .put(0b111, 3)
        .bytes();
    let h = parse_h265_slice_header(20, &data, &s, &H265Pps::default(), 1, 20, 0).unwrap();
    assert_eq!(h.num_delta_pocs_of_ref_rps_idx, 2);
    // the picture itself moves to -1, the one before to -3, the one behind to +2
    assert_eq!(h.ref_pocs, vec![19, 17, 22]);
    assert!(h.long_term_pocs.is_empty());
    assert_eq!(h.num_bits_for_st_ref_pic_set_in_slice, 7);
}

#[test]
fn long_term_pictures_are_named_by_low_order_counts() {
    let mut s = H265Sps {
        long_term_ref_pics_present_flag: true,
        num_long_term_ref_pics_sps: 3,
        ..sps()
    };
    s.lt_ref_pic_poc_lsb_sps[2] = 77;
    // no stored short-term set; one long-term picture by index, one of its own
    let data = Bits::new()
        .put(1, 1)
        .ue(0)
        .ue(1)
        .put(9, 8)
        .put(0, 1)
        .ue(0)
        .ue(0)
        .ue(1)
        .ue(1)
        .put(2, 2)
        .put(1, 1)
        .ue(4)
        .put(33, 8)
        .put(1, 1)
        .put(0, 1)
        .bytes();
    let h = parse_h265_slice_header(20, &data, &s, &H265Pps::default(), 1, 8, 0).unwrap();
    assert_eq!(h.ref_pocs, vec![77, 33]);
    assert_eq!(h.long_term_pocs, vec![77, 33]);
}

#[test]
fn optional_parts_of_the_header_are_passed_over() {
    let p = H265Pps {
        num_extra_slice_header_bits: 2,
        output_flag_present_flag: true,
        ..H265Pps::default()
    };
    let s = H265Sps {
        separate_colour_plane_flag: true,
        ..sps()
    };
    let data = Bits::new()
        .put(1, 1)
        .ue(0)
        .put(3, 2)
        .ue(0)
        .put(1, 1)
        .put(1, 2)
        .put(7, 8)
        .put(1, 1)
        .bytes();
    let h = parse_h265_slice_header(20, &data, &s, &p, 1, 0, 0).unwrap();
    assert_eq!(h.slice_type, 0);
    assert_eq!(h.pic_order_cnt, [7, 7]);
}

#[test]
fn bits_needed_for_an_index() {
    assert_eq!(ceil_log2_u8(0), 0);
    assert_eq!(ceil_log2_u8(1), 0);
    assert_eq!(ceil_log2_u8(2), 1);
    assert_eq!(ceil_log2_u8(3), 2);
    assert_eq!(ceil_log2_u8(64), 6);
    assert_eq!(ceil_log2_u8(65), 7);
    assert_eq!(ceil_log2_u8(255), 8);
}
