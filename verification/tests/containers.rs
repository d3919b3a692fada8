use vk_video_vulkan::container::{
    expand_superframes, extract_vp9_frames, looks_like_ivf, parse_ivf_container,
    split_vp9_bitstream, unpack_ivf, vp9_stream_packets, Vp9HeaderExtent,
};

fn ivf(fourcc: &[u8; 4], packets: &[&[u8]]) -> Vec<u8> {
    let mut data = b"DKIF".to_vec();
    data.extend_from_slice(&[0, 0, 32, 0]);
    data.extend_from_slice(fourcc);
    data.resize(32, 0);
    for p in packets {
        data.extend_from_slice(&(p.len() as u32).to_le_bytes());
        data.extend_from_slice(&[9; 8]);
        data.extend_from_slice(p);
    }
    data
}

#[test]
fn ivf_packets_are_read_back() {
    let data = ivf(b"VP90", &[&[1, 2, 3], &[4], &[5, 6]]);
    assert!(looks_like_ivf(&data));
    let packets = parse_ivf_container(&data).unwrap();
    assert_eq!(packets, vec![vec![1, 2, 3], vec![4], vec![5, 6]]);
    assert_eq!(unpack_ivf(&data), packets);
}

#[test]
fn ivf_packets_end_at_one_that_is_cut_off() {
    let mut data = ivf(b"VP90", &[&[1, 2, 3], &[4, 5]]);
    data.pop();
    assert_eq!(parse_ivf_container(&data).unwrap(), vec![vec![1, 2, 3]]);
    let data = ivf(b"VP90", &[&[1], &[], &[2]]);
    assert_eq!(parse_ivf_container(&data).unwrap(), vec![vec![1]]);
}

#[test]
fn other_data_are_no_container() {
    assert!(parse_ivf_container(&[1, 2, 3]).is_err());
    let data = vec![7u8; 40];
    assert!(!looks_like_ivf(&data));
    assert!(parse_ivf_container(&data).is_err());
    assert_eq!(unpack_ivf(&data), vec![data]);
}

#[test]
fn superframes_are_taken_apart() {
    // two frames of 2 and 3 bytes, sizes of one byte
    let packet = vec![0x82, 1, 0x83, 2, 3, 0xC1, 2, 3, 0xC1];
    let frames = expand_superframes(&[packet]);
    assert_eq!(frames, vec![vec![0x82, 1], vec![0x83, 2, 3]]);
    let plain = vec![0x82, 1, 2];
    assert_eq!(expand_superframes(&[plain.clone()]), vec![plain]);
}

#[test]
fn frames_are_told_apart_by_their_headers() {
    // a frame at 0 whose compressed header ends at 4, another at 6
    let packet = vec![0x82, 0, 0, 0, 1, 1, 0x83, 2, 2];
    let mut headers: Vec<Option<Vp9HeaderExtent>> = vec![None; packet.len()];
    headers[0] = Some(Vp9HeaderExtent {
        compressed_header_offset: 2,
        compressed_header_size: 2,
    });
    headers[6] = Some(Vp9HeaderExtent {
        compressed_header_offset: 1,
        compressed_header_size: 1,
    });
    let frames = split_vp9_bitstream(&[packet.clone()], &[headers.clone()]);
    assert_eq!(frames, vec![packet[0..6].to_vec(), packet[6..].to_vec()]);
    let all = extract_vp9_frames(&packet, 1, &[headers]);
    assert_eq!(all.len(), 1);
    assert_eq!(all[0].frame_count, 0);
    assert_eq!(all[0].data, packet[0..6].to_vec());
}

#[test]
fn frames_of_a_container_are_its_packets() {
    let data = ivf(b"VP90", &[&[0x82, 1], &[0x82, 2], &[0x82, 3]]);
    let frames = extract_vp9_frames(&data, 2, &[]);
    assert_eq!(frames.len(), 2);
    assert_eq!(frames[1].data, vec![0x82, 2]);
    assert_eq!(frames[1].frame_count, 1);
    assert_eq!(extract_vp9_frames(&data, 100, &[]).len(), 3);
}

#[test]
fn a_stream_without_container_is_expanded_first() {
    let data = vec![0x82, 1, 0x83, 2, 3, 0xC1, 2, 3, 0xC1];
    assert_eq!(vp9_stream_packets(&data), vec![vec![0x82, 1], vec![0x83, 2, 3]]);
}

#[test]
fn refused_containers_say_why() {
    let good = ivf(b"VP90", &[&[1]]);
    let reason = |data: &[u8]| parse_ivf_container(data).unwrap_err();
    assert_eq!(reason(&good[..31]), "File too small for IVF header");
    let mut bad = good.clone();
    bad[0] = b'X';
    assert_eq!(reason(&bad), "Invalid IVF magic");
    let mut bad = good.clone();
    bad[4] = 7;
    assert_eq!(reason(&bad), "Unsupported IVF version: 7 (expected 0)");
    let mut bad = good.clone();
    bad[6] = 31;
    assert_eq!(reason(&bad), "Invalid IVF header_size: 31 (expected 32)");
    let mut bad = good.clone();
    bad[6] = 1;
    bad[7] = 1;
    assert_eq!(reason(&bad), "Invalid IVF header_size: 257 (expected 32)");
    let mut bad = good.clone();
    bad[6] = 200;
    assert_eq!(reason(&bad), "File too small for IVF header");
    assert_eq!(reason(&good[..32]), "No frames found in IVF container");
}

#[test]
fn superframe_pieces_that_reach_into_the_index_are_left_out() {
    // the second frame claims nine bytes
    let packet = vec![0x82, 1, 0x83, 2, 3, 0xC1, 2, 9, 0xC1];
    assert_eq!(expand_superframes(&[packet]), vec![vec![0x82, 1]]);
    // sizes of two bytes
    let packet = vec![0x82, 0x83, 0xC9, 1, 0, 1, 0, 0xC9];
    assert_eq!(expand_superframes(&[packet]), vec![vec![0x82], vec![0x83]]);
    // the index does not begin with its marker
    let packet = vec![0x82, 1, 0x83, 2, 3, 0xC0, 2, 3, 0xC1];
    assert_eq!(expand_superframes(&[packet.clone()]), vec![packet]);
}
