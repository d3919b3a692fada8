use vk_video_vulkan::access_unit::H264MmcoCommand;
use vk_video_vulkan::codes::ImageLayout;
use vk_video_vulkan::dpb::{contains_i32, DpbManager, LastAccessType};

fn filled(frames: &[(u32, i32)]) -> DpbManager {
    let mut m = DpbManager::new(frames.len() as u32);
    for (i, (frame_num, poc)) in frames.iter().enumerate() {
        m.register_frame(i as u32, *frame_num);
        m.entries[i].pic_order_cnt = [*poc, *poc];
    }
    m
}

fn valid(m: &DpbManager) -> Vec<u32> {
    m.get_references().iter().map(|e| e.slot_index).collect()
}

#[test]
fn a_new_manager_has_free_slots() {
    let m = DpbManager::new(3);
    assert_eq!(m.entries.len(), 3);
    assert_eq!(m.max_num_ref_frames, 16);
    assert_eq!(m.max_frame_num, 64);
    assert!(m.entries.iter().all(|e| !e.is_valid));
    assert_eq!(m.entries[2].slot_index, 2);
    assert_eq!(m.get_slot_layout(1), ImageLayout::Undefined);
    assert_eq!(m.get_slot_last_access(1), LastAccessType::NoAccess);
}

#[test]
fn frame_numbers_wrap_around() {
    let mut m = DpbManager::new(1);
    m.set_max_frame_num(16);
    assert_eq!(m.frame_num_wrap(3, 5), 3);
    assert_eq!(m.frame_num_wrap(5, 5), 5);
    assert_eq!(m.frame_num_wrap(15, 2), -1);
}

#[test]
fn the_sliding_window_drops_the_oldest() {
    let mut m = filled(&[(14, 0), (15, 1), (1, 2), (2, 3)]);
    m.set_max_frame_num(16);
    m.set_max_num_ref_frames(3);
    m.apply_sliding_window(2);
    assert_eq!(valid(&m), vec![1, 2, 3]);
    // room is left
    m.apply_sliding_window(2);
    assert_eq!(valid(&m), vec![1, 2, 3]);
    // none allowed counts as one
    m.set_max_num_ref_frames(0);
    m.apply_sliding_window(2);
    assert_eq!(valid(&m), vec![2, 3]);
}

#[test]
fn the_sliding_window_spares_the_current_frame() {
    let mut m = filled(&[(1, 0), (9, 1)]);
    m.set_max_num_ref_frames(1);
    m.apply_sliding_window(1);
    assert_eq!(valid(&m), vec![0]);
}

#[test]
fn marking_commands_unmark() {
    let mut m = filled(&[(3, 0), (4, 1), (5, 2)]);
    m.apply_mmco(
        5,
        2,
        &[H264MmcoCommand::UnmarkShortTerm {
            difference_of_pic_nums_minus1: 0,
        }],
    );
    assert_eq!(valid(&m), vec![0, 2]);
    m.apply_mmco(
        5,
        2,
        &[H264MmcoCommand::UnmarkLongTerm {
            long_term_frame_idx: 0,
        }],
    );
    assert_eq!(valid(&m), vec![0, 2]);
    m.apply_mmco(5, 2, &[H264MmcoCommand::UnmarkAll]);
    assert!(valid(&m).is_empty());
}

#[test]
fn picture_numbers_count_back() {
    let mut m = DpbManager::new(1);
    m.set_max_frame_num(16);
    assert_eq!(m.compute_pic_num(5, 0), 4);
    assert_eq!(m.compute_pic_num(5, 4), 0);
    assert_eq!(m.compute_pic_num(0, 0), 15);
    assert_eq!(m.compute_pic_num(2, 4), 13);
}

#[test]
fn free_slots_come_before_recycled_ones() {
    let mut m = filled(&[(1, 4), (2, 2), (3, 3)]);
    assert_eq!(m.find_or_recycle_slot(&[]), Some(1));
    assert_eq!(m.find_or_recycle_slot(&[2]), Some(2));
    assert_eq!(m.find_or_recycle_slot(&[2, 3, 4]), None);
    m.entries[2].is_valid = false;
    assert_eq!(m.find_or_recycle_slot(&[]), Some(2));
}

#[test]
fn excluded_slots_are_not_used() {
    let mut m = filled(&[(7, 0), (5, 0), (6, 0)]);
    assert_eq!(m.find_or_recycle_slot_excluding(&[]), Some(1));
    assert_eq!(m.find_or_recycle_slot_excluding(&[1]), Some(2));
    assert_eq!(m.find_or_recycle_slot_excluding(&[0, 1, 2]), None);
    m.entries[1].is_valid = false;
    assert_eq!(m.find_or_recycle_slot_excluding(&[1]), Some(2));
    assert_eq!(m.find_or_recycle_slot_excluding(&[0]), Some(1));
}

#[test]
fn forgetting_frees_every_slot() {
    let mut m = filled(&[(1, 4), (2, 2)]);
    m.set_slot_layout(0, ImageLayout::VideoDecodeDpb);
    m.set_slot_last_access(0, LastAccessType::DecodeWrite);
    assert_eq!(m.get_slot_layout(0), ImageLayout::VideoDecodeDpb);
    assert_eq!(m.get_slot_last_access(0), LastAccessType::DecodeWrite);
    m.invalidate_all();
    assert!(valid(&m).is_empty());
    assert_eq!(m.get_slot_layout(0), ImageLayout::Undefined);
    assert_eq!(m.get_slot_last_access(0), LastAccessType::NoAccess);
    assert_eq!(m.entries[0].frame_num, 1);
    assert_eq!(m.find_or_recycle_slot(&[4, 2]), Some(0));
}

#[test]
fn frames_are_found_by_number() {
    let mut m = filled(&[(1, 4), (2, 2), (2, 5)]);
    assert_eq!(m.find_by_frame_num(2).map(|(i, _)| i), Some(1));
    m.entries[1].is_valid = false;
    assert_eq!(m.find_by_frame_num(2).map(|(i, _)| i), Some(2));
    assert!(m.find_by_frame_num(9).is_none());
    assert_eq!(m.get_references_mut(), vec![0, 2]);
}

#[test]
fn registering_beyond_the_slots_does_nothing() {
    let mut m = DpbManager::new(2);
    m.register_frame(5, 9);
    assert!(valid(&m).is_empty());
    m.register_frame(1, 9);
    assert_eq!(valid(&m), vec![1]);
    assert_eq!(m.entries[1].frame_num, 9);
}

#[test]
fn lists_of_numbers() {
    assert!(contains_i32(&[1, -2], -2));
    assert!(!contains_i32(&[1, -2], 2));
    assert!(!contains_i32(&[], 0));
}
