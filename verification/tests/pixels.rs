use vk_video_vulkan::codes::PixelFormat;
use vk_video_vulkan::image::{DecodedImage, StagingImage};
use vk_video_vulkan::readback::{
    hdr_source_for_format, planes_from_nv12, planes_from_samples, readback_layout, scale_to_8,
    HdrSource,
};
use vk_video_vulkan::session::Extent2D;

#[test]
fn formats_with_more_than_eight_bits() {
    assert_eq!(hdr_source_for_format(PixelFormat::Nv12), None);
    assert_eq!(
        hdr_source_for_format(PixelFormat::P010),
        Some(HdrSource::B16 { bits: 10 })
    );
    assert_eq!(
        hdr_source_for_format(PixelFormat::P012),
        Some(HdrSource::B16 { bits: 12 })
    );
    assert_eq!(hdr_source_for_format(PixelFormat::Other { code: 1 }), None);
}

#[test]
fn readback_sizes_round_chroma_up() {
    let l = readback_layout(5, 3, PixelFormat::Nv12);
    assert_eq!((l.uv_width, l.uv_height), (3, 2));
    assert_eq!((l.y_size, l.uv_size, l.total_size), (15, 12, 27));
    let l = readback_layout(1920, 1080, PixelFormat::P010);
    assert_eq!(l.y_size, 1920 * 1080 * 2);
    assert_eq!(l.total_size, 1920 * 1080 * 3);
}

#[test]
fn samples_are_rounded_to_eight_bits() {
    assert_eq!(scale_to_8(0, 10), 0);
    assert_eq!(scale_to_8(1023 << 6, 10), 255);
    assert_eq!(scale_to_8(512 << 6, 10), 128);
    assert_eq!(scale_to_8(1 << 6, 10), 0);
    assert_eq!(scale_to_8(2 << 6, 10), 1);
    assert_eq!(scale_to_8(4095 << 4, 12), 255);
    assert_eq!(scale_to_8(100 << 4, 12), 6);
    for v in 0..1023u16 {
        assert!(scale_to_8(v << 6, 10) <= scale_to_8((v + 1) << 6, 10));
    }
}

#[test]
fn eight_bit_planes_are_taken_apart() {
    // 2 x 2 luma, one chroma pair
    let p = planes_from_nv12(&[1, 2, 3, 4, 5, 6], 2, 2);
    assert_eq!(p.y_plane, vec![1, 2, 3, 4]);
    assert_eq!(p.u_plane, vec![5]);
    assert_eq!(p.v_plane, vec![6]);
    // 3 x 1 luma, two chroma pairs
    let p = planes_from_nv12(&[1, 2, 3, 10, 20, 11, 21], 3, 1);
    assert_eq!(p.y_plane, vec![1, 2, 3]);
    assert_eq!(p.u_plane, vec![10, 11]);
    assert_eq!(p.v_plane, vec![20, 21]);
}

#[test]
fn deep_planes_are_scaled() {
    let s = [0u16, 1023 << 6, 512 << 6, 2 << 6, 1023 << 6, 0];
    let p = planes_from_samples(&s, 10, 2, 2);
    assert_eq!(p.y_plane, vec![0, 255, 128, 1]);
    assert_eq!(p.u_plane, vec![255]);
    assert_eq!(p.v_plane, vec![0]);
}

#[test]
fn row_pitches_of_an_image() {
    let image = DecodedImage {
        image: 1,
        image_view: 2,
        memory: 3,
        format: PixelFormat::Nv12,
        extent: Extent2D {
            width: 7,
            height: 4,
        },
    };
    assert_eq!(image.y_row_pitch(), 7);
    assert_eq!(image.uv_row_pitch(), 6);
}

#[test]
fn planes_of_a_staging_image() {
    let mut image = StagingImage {
        image: 1,
        memory: 2,
        mapped: Some((0..24).collect()),
        extent: Extent2D {
            width: 4,
            height: 4,
        },
    };
    assert_eq!(image.get_y_plane(4, 4), Some((0..16).collect()));
    assert_eq!(image.get_uv_plane(4, 4), Some((16..24).collect()));
    // three by three: nine luma, and 3 / 2 * 3 / 2 * 2 chroma samples
    assert_eq!(image.get_uv_plane(3, 3), Some(vec![9, 10]));
    image.mapped = None;
    assert_eq!(image.get_y_plane(4, 4), None);
    assert_eq!(image.get_uv_plane(4, 4), None);
}
