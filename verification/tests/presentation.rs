use vk_video_vulkan::{DecodedFrame, DecodedPixels, VideoDecoder};

fn frame(poc: i32, is_idr: bool, frame_num: u32) -> DecodedFrame {
    DecodedFrame {
        poc,
        frame_num,
        is_idr,
        is_reference: true,
        pixels: DecodedPixels {
            y_plane: vec![frame_num as u8],
            u_plane: Vec::new(),
            v_plane: Vec::new(),
        },
        coded_width: 16,
        coded_height: 16,
        display_width: 16,
        display_height: 16,
        crop_left: 0,
        crop_top: 0,
    }
}

fn shown(frames: Vec<DecodedFrame>) -> Vec<u32> {
    VideoDecoder::reorder_to_presentation(frames)
        .iter()
        .map(|f| f.frame_num)
        .collect()
}

#[test]
fn one_group_is_sorted_by_order_count() {
    let frames = vec![frame(0, true, 0), frame(8, false, 1), frame(4, false, 2), frame(2, false, 3)];
    assert_eq!(shown(frames), vec![0, 3, 2, 1]);
}

#[test]
fn groups_are_not_mixed() {
    let frames = vec![
        frame(0, true, 0),
        frame(4, false, 1),
        frame(2, false, 2),
        frame(0, true, 3),
        frame(6, false, 4),
        frame(3, false, 5),
        frame(0, true, 6),
    ];
    assert_eq!(shown(frames), vec![0, 2, 1, 3, 5, 4, 6]);
}

#[test]
fn equal_order_counts_stay_in_order() {
    let frames = vec![frame(1, false, 0), frame(1, false, 1), frame(0, false, 2), frame(1, false, 3)];
    assert_eq!(shown(frames), vec![2, 0, 1, 3]);
}

#[test]
fn a_group_may_begin_without_an_idr_frame() {
    let frames = vec![frame(5, false, 0), frame(3, false, 1), frame(0, true, 2), frame(-1, false, 3)];
    assert_eq!(shown(frames), vec![1, 0, 3, 2]);
}

#[test]
fn ordered_frames_stay_as_they_are() {
    let frames: Vec<DecodedFrame> = (0..6).map(|i| frame(i, i == 3, i as u32)).collect();
    assert_eq!(shown(frames), vec![0, 1, 2, 3, 4, 5]);
    assert!(shown(Vec::new()).is_empty());
}

#[test]
fn pixels_go_with_their_frame() {
    let frames = vec![frame(2, true, 7), frame(1, false, 9)];
    let r = VideoDecoder::reorder_to_presentation(frames);
    assert_eq!(r[0].pixels.y_plane, vec![9]);
    assert_eq!(r[1].pixels.y_plane, vec![7]);
}
