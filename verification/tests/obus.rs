use vk_video_vulkan::obu::{
    extract_av1_frames, extract_frame_obus_from_packet, find_av1_frame_header_offset,
};

const DELIMITER: [u8; 2] = [0x12, 0x00];

#[test]
fn frame_units_are_found_in_a_packet() {
    // a temporal delimiter, a frame of 3 bytes, a frame of 2 bytes
    let packet = [0x12, 0x00, 0x32, 3, 1, 2, 3, 0x32, 2, 4, 5];
    let obus = extract_frame_obus_from_packet(&packet);
    assert_eq!(obus.len(), 2);
    assert_eq!(obus[0].payload, vec![1, 2, 3]);
    assert_eq!(obus[0].payload_start, 4);
    assert_eq!(obus[0].payload_size, 3);
    assert_eq!(obus[1].payload, vec![4, 5]);
    assert_eq!(obus[1].payload_start, 9);
}

#[test]
fn header_units_count_where_they_show_a_frame() {
    // frame header units: one shows an existing frame, one does not
    let packet = [0x1A, 1, 0x80, 0x1A, 1, 0x10, 0x32, 1, 7];
    let obus = extract_frame_obus_from_packet(&packet);
    assert_eq!(obus.len(), 2);
    assert_eq!(obus[0].payload, vec![0x80]);
    assert_eq!(obus[1].payload, vec![7]);
}

#[test]
fn unit_sizes_are_little_endian_in_groups_of_seven() {
    let mut packet = vec![0x32, 0x82, 0x01];
    packet.extend((0..130).map(|i| i as u8));
    let obus = extract_frame_obus_from_packet(&packet);
    assert_eq!(obus.len(), 1);
    assert_eq!(obus[0].payload.len(), 130);
    assert_eq!(obus[0].payload_start, 3);
}

#[test]
fn a_unit_that_is_cut_off_ends_with_the_packet() {
    let packet = [0x32, 9, 1, 2];
    let obus = extract_frame_obus_from_packet(&packet);
    assert_eq!(obus.len(), 1);
    assert_eq!(obus[0].payload, vec![1, 2]);
    assert!(extract_frame_obus_from_packet(&[]).is_empty());
    assert!(extract_frame_obus_from_packet(&[0x32]).is_empty());
}

#[test]
fn units_with_an_extension_have_a_longer_header() {
    let packet = [0x36, 0x00, 2, 8, 9];
    let obus = extract_frame_obus_from_packet(&packet);
    assert_eq!(obus[0].payload, vec![8, 9]);
    assert_eq!(obus[0].payload_start, 3);
}

#[test]
fn av1_frames_carry_their_packet() {
    let mut data = DELIMITER.to_vec();
    data.extend_from_slice(&[0x32, 2, 1, 2, 0x32, 1, 3]);
    let frames = extract_av1_frames(&data, 10);
    assert_eq!(frames.len(), 2);
    assert_eq!(frames[0].data, data);
    assert_eq!(frames[1].data, data);
    assert_eq!(frames[1].frame_count, 1);
    assert_eq!(frames[1].frame_obu_payload, vec![3]);
    assert_eq!(frames[1].payload_start, 8);
    assert_eq!(frames[1].payload_size, 1);
}

#[test]
fn at_least_64_frame_units_are_taken() {
    let mut data = Vec::new();
    for _ in 0..100 {
        data.extend_from_slice(&[0x32, 1, 7]);
    }
    assert_eq!(extract_av1_frames(&data, 1).len(), 64);
    assert_eq!(extract_av1_frames(&data, 7).len(), 70);
    assert_eq!(extract_av1_frames(&data, usize::MAX).len(), 100);
}

#[test]
fn frame_header_offsets() {
    assert_eq!(find_av1_frame_header_offset(&[]), 0);
    assert_eq!(find_av1_frame_header_offset(&[0x32]), 0);
    // a frame with a size, one without
    assert_eq!(find_av1_frame_header_offset(&[0x32, 2, 1, 2]), 2);
    assert_eq!(find_av1_frame_header_offset(&[0x32, 0x82, 1, 1, 2]), 3);
    assert_eq!(find_av1_frame_header_offset(&[0x30, 1, 2]), 1);
    // behind a temporal delimiter
    assert_eq!(find_av1_frame_header_offset(&[0x12, 0, 0x32, 2, 1, 2]), 4);
    // nowhere
    assert_eq!(find_av1_frame_header_offset(&[0x12, 0, 0x12, 0]), 0);
}
