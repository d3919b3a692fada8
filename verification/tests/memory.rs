use vk_video_vulkan::buffer::{
    align_up, aligned_size, bitstream_range, find_memory_type, flush_size, memory_type_for,
    padded_size, MemoryUse,
};
use vk_video_vulkan::codes::{ChromaSubsampling, ComponentBitDepth, ImageLayout};
use vk_video_vulkan::commands::{plan_barriers, ImageBarrier, RefImage};
use vk_video_vulkan::device::VideoCodec;
use vk_video_vulkan::error::{AppInfo, VideoError};
use vk_video_vulkan::profile_chain::{bitstream_buffer_size, capability_profile, resource_profile};
use vk_video_vulkan::session::CodecProfileInfo;

#[test]
fn sizes_are_rounded_up() {
    assert_eq!(align_up(0, 256), 0);
    assert_eq!(align_up(1, 256), 256);
    assert_eq!(align_up(256, 256), 256);
    assert_eq!(align_up(257, 256), 512);
    assert_eq!(aligned_size(1000, 1), 1000);
    assert_eq!(aligned_size(1000, 16), 1008);
    assert_eq!(bitstream_buffer_size(1000), 1024);
}

#[test]
fn frames_are_padded_in_the_bitstream_buffer() {
    let r = bitstream_range(1000, 256);
    assert_eq!((r.padding_start, r.padding_size, r.aligned_size), (1000, 24, 1024));
    let r = bitstream_range(0, 64);
    assert_eq!((r.padding_start, r.padding_size, r.aligned_size), (0, 64, 64));
    let r = bitstream_range(10, 0);
    assert_eq!((r.padding_size, r.aligned_size), (0, 10));
    assert_eq!(padded_size(0, 0), 1);
    assert_eq!(padded_size(513, 512), 1024);
}

#[test]
fn a_flush_of_nothing_is_one_of_all() {
    assert_eq!(flush_size(0), u64::MAX);
    assert_eq!(flush_size(12), 12);
}

#[test]
fn memory_types_must_be_allowed_and_suitable() {
    let types = [1, 2, 6, 7];
    assert_eq!(find_memory_type(&types, 0b1111, 1), Some(0));
    assert_eq!(find_memory_type(&types, 0b1110, 1), Some(3));
    assert_eq!(find_memory_type(&types, 0b1111, 6), Some(2));
    assert_eq!(find_memory_type(&types, 0b0011, 4), None);
    assert_eq!(memory_type_for(&types, 0b1111, MemoryUse::DeviceLocal), Some(0));
    assert_eq!(memory_type_for(&types, 0b1111, MemoryUse::HostWrite), Some(2));
    assert_eq!(memory_type_for(&types, 0b0011, MemoryUse::HostWrite), None);
    assert_eq!(memory_type_for(&types, 0b1111, MemoryUse::HostRead), Some(2));
    assert_eq!(memory_type_for(&types, 0b0011, MemoryUse::HostRead), Some(1));
}

#[test]
fn images_change_to_the_layout_of_references() {
    let refs = vec![
        RefImage {
            image: 7,
            layout: ImageLayout::TransferSrcOptimal,
            layer: 2,
        },
        RefImage {
            image: 8,
            layout: ImageLayout::VideoDecodeDpb,
            layer: 0,
        },
        RefImage {
            image: 0,
            layout: ImageLayout::Undefined,
            layer: 0,
        },
    ];
    let barriers = plan_barriers(5, ImageLayout::Undefined, 1, true, &refs, true);
    assert_eq!(
        barriers,
        vec![
            ImageBarrier {
                image: 5,
                old_layout: ImageLayout::Undefined,
                new_layout: ImageLayout::VideoDecodeDpb,
                base_array_layer: 1,
                is_written: true,
                waits_for_decoding: false,
            },
            ImageBarrier {
                image: 7,
                old_layout: ImageLayout::TransferSrcOptimal,
                new_layout: ImageLayout::VideoDecodeDpb,
                base_array_layer: 2,
                is_written: false,
                waits_for_decoding: true,
            },
        ]
    );
    let barriers = plan_barriers(5, ImageLayout::Undefined, 0, false, &Vec::new(), false);
    assert_eq!(barriers[0].new_layout, ImageLayout::VideoDecodeDst);
}

#[test]
fn errors_say_what_failed() {
    let e = |f: fn(String) -> VideoError| f("x".to_string()).message();
    assert_eq!(e(VideoError::VulkanInit), "Vulkan initialization failed: x");
    assert_eq!(e(VideoError::VideoNotSupported), "Video decode not supported: x");
    assert_eq!(e(VideoError::DeviceCreation), "Device creation failed: x");
    assert_eq!(e(VideoError::SessionCreation), "Session creation failed: x");
    assert_eq!(e(VideoError::BufferAllocation), "Buffer allocation failed: x");
    assert_eq!(e(VideoError::MemoryAllocation), "Memory allocation failed: x");
    assert_eq!(e(VideoError::ImageCreation), "Image creation failed: x");
    assert_eq!(e(VideoError::CommandBufferRecording), "Command buffer recording failed: x");
    assert_eq!(e(VideoError::QueueSubmission), "Queue submission failed: x");
    assert_eq!(e(VideoError::FenceWait), "Fence wait failed: x");
    assert_eq!(e(VideoError::DecoderInit), "Decoder initialization failed: x");
    assert_eq!(e(VideoError::FormatNotSupported), "Format not supported: x");
    assert_eq!(e(VideoError::CapabilityNotAvailable), "Capability not available: x");
    assert_eq!(e(VideoError::CodecNotSupported), "Codec not supported: x");
    assert_eq!(e(VideoError::InvalidState), "Invalid state: x");
    assert_eq!(e(VideoError::Io), "IO error: x");
}

#[test]
fn the_application_has_a_name() {
    let a = AppInfo::default();
    assert_eq!(a.name, "vk-video");
    assert_eq!(a.engine_name, "vk-video-vulkan");
    assert_eq!(a.api_version, 0x0040_2000);
}

#[test]
fn profiles_of_resources_and_capabilities() {
    let of = |codec| {
        resource_profile(
            codec,
            100,
            ChromaSubsampling::Type420,
            ComponentBitDepth::Type8,
            ComponentBitDepth::Type10,
        )
    };
    let p = of(VideoCodec::DecodeH264);
    assert_eq!(p.video_codec_operation, 1);
    assert_eq!(p.chroma_subsampling, 2);
    assert_eq!((p.luma_bit_depth, p.chroma_bit_depth), (1, 4));
    assert_eq!(
        p.codec_profile_info,
        Some(CodecProfileInfo::H264 {
            std_profile_idc: 100,
            picture_layout: 0
        })
    );
    assert_eq!(of(VideoCodec::DecodeAv1).codec_profile_info, None);
    let p = capability_profile(
        VideoCodec::DecodeAv1,
        0,
        ChromaSubsampling::Type420,
        ComponentBitDepth::Type8,
        ComponentBitDepth::Type8,
    );
    assert_eq!(
        p.codec_profile_info,
        Some(CodecProfileInfo::Av1 {
            std_profile: 0,
            film_grain_support: false
        })
    );
}
