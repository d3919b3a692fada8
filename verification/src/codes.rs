//! The Vulkan values that the decoder decides on, and the codes that the Vulkan
//! bindings give them.

use ash::vk;
use ash::vk::native;
use vstd::prelude::*;

verus! {

/// The layout of an image as far as decoding tells layouts apart.
#[derive(Debug, Clone, Copy, PartialEq, Eq, Structural)]
pub enum ImageLayout {
    Undefined,
    TransferSrcOptimal,
    VideoDecodeDst,
    VideoDecodeDpb,
}

/// The format of a picture as far as decoding tells formats apart.
#[derive(Debug, Clone, Copy, PartialEq, Eq, Structural)]
pub enum PixelFormat {
    /// Two planes, 8 bits per sample.
    Nv12,
    /// Two planes, 10 bits in the high bits of 16 per sample.
    P010,
    /// Two planes, 12 bits in the high bits of 16 per sample.
    P012,
    /// Any other format, by its code.
    Other { code: i32 },
}

/// How chroma samples relate to luma samples.
#[derive(Debug, Clone, Copy, PartialEq, Eq, Structural)]
pub enum ChromaSubsampling {
    Monochrome,
    Type420,
    Type422,
    Type444,
}

/// How many bits a sample has.
#[derive(Debug, Clone, Copy, PartialEq, Eq, Structural)]
pub enum ComponentBitDepth {
    Type8,
    Type10,
    Type12,
}

/// The code of an image layout.
pub open spec fn layout_code(l: ImageLayout) -> i32 {
    match l {
        ImageLayout::Undefined => 0,
        ImageLayout::TransferSrcOptimal => 6,
        ImageLayout::VideoDecodeDst => 1_000_024_000,
        ImageLayout::VideoDecodeDpb => 1_000_024_002,
    }
}

/// The code of a picture format.
pub open spec fn format_code(f: PixelFormat) -> i32 {
    match f {
        PixelFormat::Nv12 => 1_000_156_003,
        PixelFormat::P010 => 1_000_156_013,
        PixelFormat::P012 => 1_000_156_023,
        PixelFormat::Other { code } => code,
    }
}

/// The code of a chroma subsampling.
pub open spec fn subsampling_code(c: ChromaSubsampling) -> u32 {
    match c {
        ChromaSubsampling::Monochrome => 1,
        ChromaSubsampling::Type420 => 2,
        ChromaSubsampling::Type422 => 4,
        ChromaSubsampling::Type444 => 8,
    }
}

/// The code of a bit depth.
pub open spec fn bit_depth_code(d: ComponentBitDepth) -> u32 {
    match d {
        ComponentBitDepth::Type8 => 1,
        ComponentBitDepth::Type10 => 4,
        ComponentBitDepth::Type12 => 16,
    }
}

/// The constants `UNDEFINED`, `TRANSFER_SRC_OPTIMAL`, `VIDEO_DECODE_DST_KHR` and
/// `VIDEO_DECODE_DPB_KHR` of `ash::vk::ImageLayout`, by `as_raw`: their codes.
#[verifier::external_body]
fn ash_image_layouts() -> (r: [i32; 4])
    ensures
        r@ == seq![0i32, 6i32, 1_000_024_000i32, 1_000_024_002i32],
{
    [
        vk::ImageLayout::UNDEFINED.as_raw(),
        vk::ImageLayout::TRANSFER_SRC_OPTIMAL.as_raw(),
        vk::ImageLayout::VIDEO_DECODE_DST_KHR.as_raw(),
        vk::ImageLayout::VIDEO_DECODE_DPB_KHR.as_raw(),
    ]
}

/// The constants of `ash::vk::Format` for two-plane 4:2:0 pictures of 8, 10 and
/// 12 bits, by `as_raw`: their codes.
#[verifier::external_body]
fn ash_formats() -> (r: [i32; 3])
    ensures
        r@ == seq![1_000_156_003i32, 1_000_156_013i32, 1_000_156_023i32],
{
    [
        vk::Format::G8_B8R8_2PLANE_420_UNORM.as_raw(),
        vk::Format::G10X6_B10X6R10X6_2PLANE_420_UNORM_3PACK16.as_raw(),
        vk::Format::G12X4_B12X4R12X4_2PLANE_420_UNORM_3PACK16.as_raw(),
    ]
}

/// The constants `MONOCHROME`, `TYPE_420`, `TYPE_422` and `TYPE_444` of
/// `ash::vk::VideoChromaSubsamplingFlagsKHR`, by `as_raw`: their codes.
#[verifier::external_body]
fn ash_subsamplings() -> (r: [u32; 4])
    ensures
        r@ == seq![1u32, 2u32, 4u32, 8u32],
{
    [
        vk::VideoChromaSubsamplingFlagsKHR::MONOCHROME.as_raw(),
        vk::VideoChromaSubsamplingFlagsKHR::TYPE_420.as_raw(),
        vk::VideoChromaSubsamplingFlagsKHR::TYPE_422.as_raw(),
        vk::VideoChromaSubsamplingFlagsKHR::TYPE_444.as_raw(),
    ]
}

/// The constants `TYPE_8`, `TYPE_10` and `TYPE_12` of
/// `ash::vk::VideoComponentBitDepthFlagsKHR`, by `as_raw`: their codes.
#[verifier::external_body]
fn ash_bit_depths() -> (r: [u32; 3])
    ensures
        r@ == seq![1u32, 4u32, 16u32],
{
    [
        vk::VideoComponentBitDepthFlagsKHR::TYPE_8.as_raw(),
        vk::VideoComponentBitDepthFlagsKHR::TYPE_10.as_raw(),
        vk::VideoComponentBitDepthFlagsKHR::TYPE_12.as_raw(),
    ]
}

/// The constants `DECODE_H264`, `DECODE_H265` and `DECODE_AV1` of
/// `ash::vk::VideoCodecOperationFlagsKHR`, by `as_raw`: their codes.
#[verifier::external_body]
pub(crate) fn ash_codec_operations() -> (r: [u32; 3])
    ensures
        r@ == seq![1u32, 2u32, 4u32],
{
    [
        vk::VideoCodecOperationFlagsKHR::DECODE_H264.as_raw(),
        vk::VideoCodecOperationFlagsKHR::DECODE_H265.as_raw(),
        vk::VideoCodecOperationFlagsKHR::DECODE_AV1.as_raw(),
    ]
}

/// The constants `GRAPHICS`, `TRANSFER` and `VIDEO_DECODE_KHR` of
/// `ash::vk::QueueFlags`, by `as_raw`: their codes.
#[verifier::external_body]
pub(crate) fn ash_queue_flags() -> (r: [u32; 3])
    ensures
        r@ == seq![1u32, 4u32, 32u32],
{
    [
        vk::QueueFlags::GRAPHICS.as_raw(),
        vk::QueueFlags::TRANSFER.as_raw(),
        vk::QueueFlags::VIDEO_DECODE_KHR.as_raw(),
    ]
}

/// The constants `DEVICE_LOCAL`, `HOST_VISIBLE` and `HOST_COHERENT` of
/// `ash::vk::MemoryPropertyFlags`, by `as_raw`: their codes.
#[verifier::external_body]
pub(crate) fn ash_memory_properties() -> (r: [u32; 3])
    ensures
        r@ == seq![1u32, 2u32, 4u32],
{
    [
        vk::MemoryPropertyFlags::DEVICE_LOCAL.as_raw(),
        vk::MemoryPropertyFlags::HOST_VISIBLE.as_raw(),
        vk::MemoryPropertyFlags::HOST_COHERENT.as_raw(),
    ]
}

/// The constant `SEPARATE_REFERENCE_IMAGES` of
/// `ash::vk::VideoCapabilityFlagsKHR`, by `as_raw`: its code.
#[verifier::external_body]
pub(crate) fn ash_separate_reference_images() -> (r: u32)
    ensures
        r == 2,
{
    vk::VideoCapabilityFlagsKHR::SEPARATE_REFERENCE_IMAGES.as_raw()
}

/// The constant `PROGRESSIVE` of
/// `ash::vk::VideoDecodeH264PictureLayoutFlagsKHR`, by `as_raw`: its code.
#[verifier::external_body]
pub(crate) fn ash_progressive_layout() -> (r: u32)
    ensures
        r == 0,
{
    vk::VideoDecodeH264PictureLayoutFlagsKHR::PROGRESSIVE.as_raw()
}

/// The constant `ash::vk::API_VERSION_1_2`: major version 1 in the bits from 22
/// on and minor version 2 in those from 12 on.
#[verifier::external_body]
pub(crate) fn ash_api_version_1_2() -> (r: u32)
    ensures
        r == 0x40_2000,
{
    vk::API_VERSION_1_2
}

/// The constants `StdVideoH265LevelIdc_STD_VIDEO_H265_LEVEL_IDC_1_0` to
/// `.._6_2` of `ash::vk::native`: the levels are numbered in order.
#[verifier::external_body]
pub(crate) fn ash_h265_levels() -> (r: [u32; 13])
    ensures
        r@ == Seq::new(13, |i: int| i as u32),
{
    [
        native::StdVideoH265LevelIdc_STD_VIDEO_H265_LEVEL_IDC_1_0,
        native::StdVideoH265LevelIdc_STD_VIDEO_H265_LEVEL_IDC_2_0,
        native::StdVideoH265LevelIdc_STD_VIDEO_H265_LEVEL_IDC_2_1,
        native::StdVideoH265LevelIdc_STD_VIDEO_H265_LEVEL_IDC_3_0,
        native::StdVideoH265LevelIdc_STD_VIDEO_H265_LEVEL_IDC_3_1,
        native::StdVideoH265LevelIdc_STD_VIDEO_H265_LEVEL_IDC_4_0,
        native::StdVideoH265LevelIdc_STD_VIDEO_H265_LEVEL_IDC_4_1,
        native::StdVideoH265LevelIdc_STD_VIDEO_H265_LEVEL_IDC_5_0,
        native::StdVideoH265LevelIdc_STD_VIDEO_H265_LEVEL_IDC_5_1,
        native::StdVideoH265LevelIdc_STD_VIDEO_H265_LEVEL_IDC_5_2,
        native::StdVideoH265LevelIdc_STD_VIDEO_H265_LEVEL_IDC_6_0,
        native::StdVideoH265LevelIdc_STD_VIDEO_H265_LEVEL_IDC_6_1,
        native::StdVideoH265LevelIdc_STD_VIDEO_H265_LEVEL_IDC_6_2,
    ]
}

/// The constants `StdVideoAV1FrameType_STD_VIDEO_AV1_FRAME_TYPE_KEY`, `.._INTER`,
/// `.._INTRA_ONLY` and `.._SWITCH` of `ash::vk::native`: numbered in order.
#[verifier::external_body]
pub(crate) fn ash_av1_frame_types() -> (r: [u32; 4])
    ensures
        r@ == seq![0u32, 1u32, 2u32, 3u32],
{
    [
        native::StdVideoAV1FrameType_STD_VIDEO_AV1_FRAME_TYPE_KEY,
        native::StdVideoAV1FrameType_STD_VIDEO_AV1_FRAME_TYPE_INTER,
        native::StdVideoAV1FrameType_STD_VIDEO_AV1_FRAME_TYPE_INTRA_ONLY,
        native::StdVideoAV1FrameType_STD_VIDEO_AV1_FRAME_TYPE_SWITCH,
    ]
}

/// The constants `StdVideoAV1Profile_STD_VIDEO_AV1_PROFILE_MAIN`, `.._HIGH` and
/// `.._PROFESSIONAL` of `ash::vk::native`: numbered in order.
#[verifier::external_body]
pub(crate) fn ash_av1_profiles() -> (r: [u32; 3])
    ensures
        r@ == seq![0u32, 1u32, 2u32],
{
    [
        native::StdVideoAV1Profile_STD_VIDEO_AV1_PROFILE_MAIN,
        native::StdVideoAV1Profile_STD_VIDEO_AV1_PROFILE_HIGH,
        native::StdVideoAV1Profile_STD_VIDEO_AV1_PROFILE_PROFESSIONAL,
    ]
}

impl ImageLayout {
    /// The layout's code.
    pub fn as_raw(self) -> (r: i32)
        ensures
            r == layout_code(self),
    {
        let codes: [i32; 4] = ash_image_layouts();
        match self {
            ImageLayout::Undefined => codes[0],
            ImageLayout::TransferSrcOptimal => codes[1],
            ImageLayout::VideoDecodeDst => codes[2],
            ImageLayout::VideoDecodeDpb => codes[3],
        }
    }
}

impl PixelFormat {
    /// The format's code.
    pub fn as_raw(self) -> (r: i32)
        ensures
            r == format_code(self),
    {
        let codes: [i32; 3] = ash_formats();
        match self {
            PixelFormat::Nv12 => codes[0],
            PixelFormat::P010 => codes[1],
            PixelFormat::P012 => codes[2],
            PixelFormat::Other { code } => code,
        }
    }

    /// The format of a code.
    pub fn from_raw(code: i32) -> (r: PixelFormat)
        ensures
            format_code(r) == code,
            r matches PixelFormat::Other { code: c } ==> c != format_code(PixelFormat::Nv12) && c
                != format_code(PixelFormat::P010) && c != format_code(PixelFormat::P012),
    {
        let codes: [i32; 3] = ash_formats();
        if code == codes[0] {
            PixelFormat::Nv12
        } else if code == codes[1] {
            PixelFormat::P010
        } else if code == codes[2] {
            PixelFormat::P012
        } else {
            PixelFormat::Other { code }
        }
    }
}

impl ChromaSubsampling {
    /// The subsampling's code.
    pub fn as_raw(self) -> (r: u32)
        ensures
            r == subsampling_code(self),
    {
        let codes: [u32; 4] = ash_subsamplings();
        match self {
            ChromaSubsampling::Monochrome => codes[0],
            ChromaSubsampling::Type420 => codes[1],
            ChromaSubsampling::Type422 => codes[2],
            ChromaSubsampling::Type444 => codes[3],
        }
    }
}

impl ComponentBitDepth {
    /// The bit depth's code.
    pub fn as_raw(self) -> (r: u32)
        ensures
            r == bit_depth_code(self),
    {
        let codes: [u32; 3] = ash_bit_depths();
        match self {
            ComponentBitDepth::Type8 => codes[0],
            ComponentBitDepth::Type10 => codes[1],
            ComponentBitDepth::Type12 => codes[2],
        }
    }
}

/// Whether all the flags of `wanted` are among `flags`.
pub open spec fn has_flags(flags: u32, wanted: u32) -> bool {
    flags & wanted == wanted
}

/// Whether all the flags of `wanted` are among `flags`.
pub fn contains_flags(flags: u32, wanted: u32) -> (r: bool)
    ensures
        r == has_flags(flags, wanted),
{
    flags & wanted == wanted
}

/// Two layouts with the same code are the same layout, and so it is with chroma
/// subsamplings, bit depths, and formats that are known by name.
pub proof fn law_codes_tell_values_apart(
    l: (ImageLayout, ImageLayout),
    c: (ChromaSubsampling, ChromaSubsampling),
    d: (ComponentBitDepth, ComponentBitDepth),
    f: (PixelFormat, PixelFormat),
)
    ensures
        layout_code(l.0) == layout_code(l.1) ==> l.0 == l.1,
        subsampling_code(c.0) == subsampling_code(c.1) ==> c.0 == c.1,
        bit_depth_code(d.0) == bit_depth_code(d.1) ==> d.0 == d.1,
        !(f.0 is Other) && !(f.1 is Other) && format_code(f.0) == format_code(f.1) ==> f.0 == f.1,
{
}

/// The codes: image layouts, formats with 8, 10 and 12 bits, subsamplings and bit depths.
pub proof fn law_codes(code: i32)
    ensures
        layout_code(ImageLayout::Undefined) == 0,
        layout_code(ImageLayout::TransferSrcOptimal) == 6,
        layout_code(ImageLayout::VideoDecodeDst) == 1_000_024_000,
        layout_code(ImageLayout::VideoDecodeDpb) == 1_000_024_002,
        format_code(PixelFormat::Nv12) == 1_000_156_003,
        format_code(PixelFormat::P010) == 1_000_156_013,
        format_code(PixelFormat::P012) == 1_000_156_023,
        format_code(PixelFormat::Other { code }) == code,
        subsampling_code(ChromaSubsampling::Monochrome) == 1,
        subsampling_code(ChromaSubsampling::Type420) == 2,
        subsampling_code(ChromaSubsampling::Type422) == 4,
        subsampling_code(ChromaSubsampling::Type444) == 8,
        bit_depth_code(ComponentBitDepth::Type8) == 1,
        bit_depth_code(ComponentBitDepth::Type10) == 4,
        bit_depth_code(ComponentBitDepth::Type12) == 16,
{
}

/// All flags of a word are among another exactly if every bit of the one is set in the
/// other.
pub proof fn law_flags_are_bits(flags: u32, wanted: u32)
    ensures
        has_flags(flags, wanted) <==> forall|k: u32|
            k < 32 && #[trigger] ((wanted >> k) & 1) == 1 ==> (flags >> k) & 1 == 1,
{
    if has_flags(flags, wanted) {
        assert forall|k: u32| k < 32 && #[trigger] ((wanted >> k) & 1) == 1 implies (flags >> k) & 1
            == 1 by {
            assert((flags >> k) & 1 == 1) by (bit_vector)
                requires
                    flags & wanted == wanted,
                    (wanted >> k) & 1 == 1,
                    k < 32,
            ;
        }
    } else {
        let missing: u32 = wanted & !flags;
        assert(missing != 0) by (bit_vector)
            requires
                missing == wanted & !flags,
                flags & wanted != wanted,
        ;
        let k = lemma_some_bit(missing, 32);
        assert((wanted >> k) & 1 == 1 && (flags >> k) & 1 == 0) by (bit_vector)
            requires
                missing == wanted & !flags,
                (missing >> k) & 1 == 1,
                k < 32,
        ;
    }
}

proof fn lemma_some_bit(word: u32, n: u32) -> (k: u32)
    requires
        word != 0,
        1 <= n <= 32,
        n < 32 ==> word < (1u32 << n),
    ensures
        k < 32,
        (word >> k) & 1 == 1,
    decreases n,
{
    let m: u32 = (n - 1) as u32;
    if (word >> m) & 1 == 1 {
        m
    } else {
        assert(word < (1u32 << m)) by (bit_vector)
            requires
                m < 32,
                (word >> m) & 1 != 1,
                m < 31 ==> word < (1u32 << ((m + 1) as u32)),
        ;
        assert(word != 0 && m == 0 ==> false) by (bit_vector)
            requires
                word < (1u32 << m),
        ;
        lemma_some_bit(word, m)
    }
}

} // verus!
