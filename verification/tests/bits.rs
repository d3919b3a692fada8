use vk_video_vulkan::bits::SliceBitReader;
use vk_video_vulkan::text::{decimal_text, text_with_number};

#[test]
fn bits_are_read_from_the_highest_on() {
    let data = [0b1010_0000u8, 0xFF];
    let mut r = SliceBitReader::new(&data);
    assert_eq!(r.read_bit(), Some(1));
    assert_eq!(r.read_bit(), Some(0));
    assert_eq!(r.read_bits(3), Some(0b100));
    assert_eq!(r.pos(), 5);
    assert_eq!(r.read_bits(11), Some(0b000_1111_1111));
    assert_eq!(r.read_bit(), None);
    assert_eq!(r.pos(), 16);
}

#[test]
fn reading_no_bits_gives_zero() {
    let data: [u8; 0] = [];
    let mut r = SliceBitReader::new(&data);
    assert_eq!(r.read_bits(0), Some(0));
    assert_eq!(r.read_bits(1), None);
}

#[test]
fn a_read_in_two_parts_gives_the_same_bits() {
    let data = [0xCA, 0xFE, 0xBA];
    let mut whole = SliceBitReader::new(&data);
    let mut parts = SliceBitReader::new(&data);
    let all = whole.read_bits(20).unwrap();
    let high = parts.read_bits(7).unwrap();
    let low = parts.read_bits(13).unwrap();
    assert_eq!(all, (high << 13) | low);
    assert_eq!(all, 0xCAFEB);
}

#[test]
fn a_failed_read_keeps_what_was_passed() {
    let data = [0xF0];
    let mut r = SliceBitReader::new(&data);
    assert_eq!(r.read_bits(12), None);
    assert_eq!(r.pos(), 8);
}

#[test]
fn exponential_golomb_codes() {
    // 1 | 010 | 011 | 00100 | 00111 | 0001000 ...
    let data = [0b1010_0110, 0b0100_0011, 0b1000_1000];
    let mut r = SliceBitReader::new(&data);
    assert_eq!(r.read_ue(), Some(0));
    assert_eq!(r.read_ue(), Some(1));
    assert_eq!(r.read_ue(), Some(2));
    assert_eq!(r.read_ue(), Some(3));
    assert_eq!(r.read_ue(), Some(6));
    assert_eq!(r.read_ue(), Some(7));
}

#[test]
fn the_longest_golomb_code() {
    // 31 zeros, a one, 31 ones.
    let data = [0, 0, 0, 1, 0xFF, 0xFF, 0xFF, 0xFE];
    let mut r = SliceBitReader::new(&data);
    assert_eq!(r.read_ue(), Some(0xFFFF_FFFE));
    // 32 zeros are too many.
    let data = [0, 0, 0, 0, 0xFF];
    let mut r = SliceBitReader::new(&data);
    assert_eq!(r.read_ue(), None);
    assert_eq!(r.pos(), 32);
}

#[test]
fn a_golomb_code_that_is_cut_off() {
    let data = [0b0001_0000u8];
    let mut r = SliceBitReader::new(&data);
    assert_eq!(r.read_ue(), Some(7));
    assert_eq!(r.read_ue(), None);
}

#[test]
fn signed_golomb_codes_take_turns() {
    // codes 0, 1, 2, 3, 4: 1 | 010 | 011 | 00100 | 00101
    let data = [0b1010_0110, 0b0100_0010, 0b1000_0000];
    let mut r = SliceBitReader::new(&data);
    assert_eq!(r.read_se(), Some(0));
    assert_eq!(r.read_se(), Some(1));
    assert_eq!(r.read_se(), Some(-1));
    assert_eq!(r.read_se(), Some(2));
    assert_eq!(r.read_se(), Some(-2));
}

#[test]
fn numbers_as_text() {
    assert_eq!(decimal_text(0), "0");
    assert_eq!(decimal_text(9), "9");
    assert_eq!(decimal_text(10), "10");
    assert_eq!(decimal_text(1_234_567_890), "1234567890");
    assert_eq!(decimal_text(u64::MAX), u64::MAX.to_string());
    assert_eq!(text_with_number("a ", 42, " b"), "a 42 b");
}
