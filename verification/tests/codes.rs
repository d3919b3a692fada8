use vk_video_vulkan::codes::{
    contains_flags, ChromaSubsampling, ComponentBitDepth, ImageLayout, PixelFormat,
};

#[test]
fn image_layouts_have_their_codes() {
    assert_eq!(ImageLayout::Undefined.as_raw(), 0);
    assert_eq!(ImageLayout::TransferSrcOptimal.as_raw(), 6);
    assert_eq!(ImageLayout::VideoDecodeDst.as_raw(), 1_000_024_000);
    assert_eq!(ImageLayout::VideoDecodeDpb.as_raw(), 1_000_024_002);
}

#[test]
fn formats_have_their_codes() {
    assert_eq!(PixelFormat::Nv12.as_raw(), 1_000_156_003);
    assert_eq!(PixelFormat::P010.as_raw(), 1_000_156_013);
    assert_eq!(PixelFormat::P012.as_raw(), 1_000_156_023);
    assert_eq!(PixelFormat::Other { code: 37 }.as_raw(), 37);
    assert_eq!(PixelFormat::from_raw(1_000_156_003), PixelFormat::Nv12);
    assert_eq!(PixelFormat::from_raw(1_000_156_013), PixelFormat::P010);
    assert_eq!(PixelFormat::from_raw(1_000_156_023), PixelFormat::P012);
    assert_eq!(PixelFormat::from_raw(9), PixelFormat::Other { code: 9 });
}

#[test]
fn subsamplings_and_bit_depths_have_their_codes() {
    assert_eq!(ChromaSubsampling::Monochrome.as_raw(), 1);
    assert_eq!(ChromaSubsampling::Type420.as_raw(), 2);
    assert_eq!(ChromaSubsampling::Type422.as_raw(), 4);
    assert_eq!(ChromaSubsampling::Type444.as_raw(), 8);
    assert_eq!(ComponentBitDepth::Type8.as_raw(), 1);
    assert_eq!(ComponentBitDepth::Type10.as_raw(), 4);
    assert_eq!(ComponentBitDepth::Type12.as_raw(), 16);
}

#[test]
fn all_wanted_flags_must_be_there() {
    assert!(contains_flags(0b110, 0b100));
    assert!(contains_flags(0b110, 0b110));
    assert!(!contains_flags(0b010, 0b110));
    assert!(contains_flags(0, 0));
}
