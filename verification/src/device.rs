//! Which device, queues and extensions decoding needs.

use crate::codes::{
    ash_api_version_1_2, ash_codec_operations, ash_queue_flags, contains_flags, has_flags,
};
use crate::error::{AppInfo, VideoError, VideoResult};
use vstd::prelude::*;
use vstd::string::*;

verus! {

/// Queue family indices found during device selection.
#[derive(Debug, Clone, Copy, Default, PartialEq, Eq, Structural)]
pub struct QueueFamilies {
    pub graphics: Option<u32>,
    pub compute: Option<u32>,
    pub transfer: Option<u32>,
    pub video_decode: Option<u32>,
    pub video_encode: Option<u32>,
    pub present: Option<u32>,
}

/// Video codec type.
#[derive(Debug, Clone, Copy, PartialEq, Eq, Structural)]
pub enum VideoCodec {
    DecodeH264,
    DecodeH265,
    DecodeAv1,
    DecodeVp9,
}

/// The code of VP9 decoding, which the Vulkan bindings do not hold.
pub const DECODE_VP9: u32 = 8;

/// The code of a codec's decoding.
pub open spec fn codec_code(c: VideoCodec) -> u32 {
    match c {
        VideoCodec::DecodeH264 => 1,
        VideoCodec::DecodeH265 => 2,
        VideoCodec::DecodeAv1 => 4,
        VideoCodec::DecodeVp9 => 8,
    }
}

impl VideoCodec {
    /// The code of the codec's decoding.
    pub fn to_vk_flag(self) -> (r: u32)
        ensures
            r == codec_code(self),
    {
        let codes: [u32; 3] = ash_codec_operations();
        match self {
            VideoCodec::DecodeH264 => codes[0],
            VideoCodec::DecodeH265 => codes[1],
            VideoCodec::DecodeAv1 => codes[2],
            VideoCodec::DecodeVp9 => DECODE_VP9,
        }
    }
}

/// No two codecs have the same code.
pub proof fn law_codec_codes_differ(a: VideoCodec, b: VideoCodec)
    requires
        codec_code(a) == codec_code(b),
    ensures
        a == b,
{
}

/// What a device is built for.
#[derive(Debug)]
pub struct VideoDeviceBuilder {
    pub app_info: AppInfo,
    pub enable_validation: bool,
    pub video_codecs: u32,
    pub num_decode_queues: usize,
    pub create_graphics_queue: bool,
    pub create_transfer_queue: bool,
}

impl VideoDeviceBuilder {
    /// A device for all codecs with one decode queue, without validation.
    pub fn new() -> (b: VideoDeviceBuilder)
        ensures
            b.app_info.name@ == "vk-video"@,
            b.app_info.engine_name@ == "vk-video-vulkan"@,
            b.app_info.api_version == 0x40_2000,
            !b.enable_validation,
            b.video_codecs == 15,
            b.num_decode_queues == 1,
            !b.create_graphics_queue,
            !b.create_transfer_queue,
    {
        let codes: [u32; 3] = ash_codec_operations();
        assert(((1u32 | 2u32) | 4u32) | 8u32 == 15u32) by (bit_vector);
        VideoDeviceBuilder {
            app_info: AppInfo::default(),
            enable_validation: false,
            video_codecs: ((codes[0] | codes[1]) | codes[2]) | DECODE_VP9,
            num_decode_queues: 1,
            create_graphics_queue: false,
            create_transfer_queue: false,
        }
    }

    /// Sets the application information.
    pub fn with_app_info(self, info: AppInfo) -> (b: VideoDeviceBuilder)
        ensures
            b == (VideoDeviceBuilder { app_info: info, ..self }),
    {
        VideoDeviceBuilder { app_info: info, ..self }
    }

    /// Asks for validation, or not.
    pub fn with_validation(self, enable: bool) -> (b: VideoDeviceBuilder)
        ensures
            b == (VideoDeviceBuilder { enable_validation: enable, ..self }),
    {
        VideoDeviceBuilder { enable_validation: enable, ..self }
    }

    /// Sets the codecs, by their codes.
    pub fn with_video_codecs(self, codecs: u32) -> (b: VideoDeviceBuilder)
        ensures
            b == (VideoDeviceBuilder { video_codecs: codecs, ..self }),
    {
        VideoDeviceBuilder { video_codecs: codecs, ..self }
    }

    /// Sets the number of decode queues.
    pub fn with_num_decode_queues(self, count: usize) -> (b: VideoDeviceBuilder)
        ensures
            b == (VideoDeviceBuilder { num_decode_queues: count, ..self }),
    {
        VideoDeviceBuilder { num_decode_queues: count, ..self }
    }

    /// Asks for a graphics queue, or not.
    pub fn with_graphics_queue(self, enable: bool) -> (b: VideoDeviceBuilder)
        ensures
            b == (VideoDeviceBuilder { create_graphics_queue: enable, ..self }),
    {
        VideoDeviceBuilder { create_graphics_queue: enable, ..self }
    }
}

impl Default for VideoDeviceBuilder {
    fn default() -> (b: VideoDeviceBuilder)
        ensures
            b.app_info.name@ == "vk-video"@,
            b.app_info.engine_name@ == "vk-video-vulkan"@,
            b.app_info.api_version == 0x40_2000,
            !b.enable_validation,
            b.video_codecs == 15,
            b.num_decode_queues == 1,
            !b.create_graphics_queue,
            !b.create_transfer_queue,
    {
        VideoDeviceBuilder::new()
    }
}

// ---------------------------------------------------------------------------
// The instance
// ---------------------------------------------------------------------------

/// Whether a list of names holds a name.
pub open spec fn lists(names: Seq<String>, name: Seq<char>) -> bool {
    exists|i: int| 0 <= i < names.len() && (#[trigger] names[i])@ == name
}

/// Whether a list of names holds a name.
pub fn has_name(names: &[String], name: &str) -> (r: bool)
    ensures
        r == lists(names@, name@),
{
    let wanted: String = name.to_owned();
    let mut i: usize = 0;
    while i < names.len()
        invariant
            i <= names@.len(),
            wanted@ == name@,
            forall|k: int| 0 <= k < i ==> (#[trigger] names@[k])@ != name@,
        decreases names@.len() - i,
    {
        if names[i] == wanted {
            return true;
        }
        i = i + 1;
    }
    false
}

/// A list of names as texts.
pub open spec fn texts(names: Seq<String>) -> Seq<Seq<char>> {
    names.map_values(|s: String| s@)
}

/// What an instance is created with.
#[derive(Debug)]
pub struct InstancePlan {
    pub api_version: u32,
    pub extensions: Vec<String>,
    pub layers: Vec<String>,
    /// Whether validation messages will come.
    pub has_validation: bool,
}

/// The extensions that an instance is created with: two always, and the one for
/// validation messages where validation is asked for and it is there.
pub open spec fn instance_extensions(enable_validation: bool, available: Seq<String>) -> Seq<
    Seq<char>,
> {
    let base = seq!["VK_KHR_surface"@, "VK_KHR_get_physical_device_properties2"@];
    if enable_validation && lists(available, "VK_EXT_debug_utils"@) {
        base.push("VK_EXT_debug_utils"@)
    } else {
        base
    }
}

/// The layers that an instance is created with: that for validation where it is
/// asked for and there.
pub open spec fn instance_layers(enable_validation: bool, available: Seq<String>) -> Seq<Seq<char>> {
    if enable_validation && lists(available, "VK_LAYER_KHRONOS_validation"@) {
        seq!["VK_LAYER_KHRONOS_validation"@]
    } else {
        Seq::empty()
    }
}

/// Decides what an instance is created with. The version is never above 1.2;
/// validation messages come where validation is asked for and both the layer and
/// the extension are there.
pub fn plan_instance(
    builder: &VideoDeviceBuilder,
    available_layers: &[String],
    available_extensions: &[String],
) -> (p: InstancePlan)
    ensures
        p.api_version == if builder.app_info.api_version < 0x40_2000 {
            builder.app_info.api_version
        } else {
            0x40_2000
        },
        texts(p.extensions@) == instance_extensions(
            builder.enable_validation,
            available_extensions@,
        ),
        texts(p.layers@) == instance_layers(builder.enable_validation, available_layers@),
        p.has_validation == (builder.enable_validation && lists(
            available_layers@,
            "VK_LAYER_KHRONOS_validation"@,
        ) && lists(available_extensions@, "VK_EXT_debug_utils"@)),
{
    let limit: u32 = ash_api_version_1_2();
    let api_version: u32 = if builder.app_info.api_version < limit {
        builder.app_info.api_version
    } else {
        limit
    };
    let mut extensions: Vec<String> = Vec::new();
    extensions.push("VK_KHR_surface".to_owned());
    extensions.push("VK_KHR_get_physical_device_properties2".to_owned());
    let mut layers: Vec<String> = Vec::new();
    let mut has_validation: bool = false;
    if builder.enable_validation {
        if has_name(available_layers, "VK_LAYER_KHRONOS_validation") {
            layers.push("VK_LAYER_KHRONOS_validation".to_owned());
            has_validation = true;
        }
        if has_name(available_extensions, "VK_EXT_debug_utils") {
            extensions.push("VK_EXT_debug_utils".to_owned());
        } else {
            has_validation = false;
        }
    }
    assert(texts(extensions@) =~= instance_extensions(
        builder.enable_validation,
        available_extensions@,
    ));
    assert(texts(layers@) =~= instance_layers(builder.enable_validation, available_layers@));
    InstancePlan { api_version, extensions, layers, has_validation }
}

// ---------------------------------------------------------------------------
// The physical device
// ---------------------------------------------------------------------------

/// The first queue family with the wanted flags.
pub open spec fn is_first_family(flags: Seq<u32>, wanted: u32, r: Option<u32>) -> bool {
    match r {
        Some(i) => {
            &&& i < flags.len()
            &&& has_flags(flags[i as int], wanted)
            &&& forall|j: int| 0 <= j < i ==> !has_flags(#[trigger] flags[j], wanted)
        },
        None => forall|j: int| 0 <= j < flags.len() ==> !has_flags(#[trigger] flags[j], wanted),
    }
}

/// The first queue family with the wanted flags; `flags` gives those of each.
pub fn first_family(flags: &[u32], wanted: u32) -> (r: Option<u32>)
    requires
        flags@.len() <= u32::MAX,
    ensures
        is_first_family(flags@, wanted, r),
{
    let total: u32 = flags.len() as u32;
    let mut i: u32 = 0;
    while i < total
        invariant
            i <= total == flags@.len(),
            forall|j: int| 0 <= j < i ==> !has_flags(#[trigger] flags@[j], wanted),
        decreases total - i,
    {
        if contains_flags(flags[i as usize], wanted) {
            return Some(i);
        }
        i = i + 1;
    }
    None
}

/// The queue families of a device, nothing where it cannot decode video. Where
/// there is no family for transfers, that for decoding serves.
pub open spec fn are_queue_families(flags: Seq<u32>, r: Option<QueueFamilies>) -> bool {
    match r {
        Some(q) => {
            &&& q.video_decode is Some
            &&& is_first_family(flags, 32, q.video_decode)
            &&& is_first_family(flags, 1, q.graphics)
            &&& q.transfer is Some
            &&& is_first_family(flags, 4, q.transfer) || (is_first_family(flags, 4, None)
                && q.transfer == q.video_decode)
            &&& q.compute is None
            &&& q.video_encode is None
            &&& q.present is None
        },
        None => is_first_family(flags, 32, None),
    }
}

/// The queue families of a device; `flags` gives what each family can do.
pub fn select_queue_families(flags: &[u32]) -> (r: Option<QueueFamilies>)
    requires
        flags@.len() <= u32::MAX,
    ensures
        are_queue_families(flags@, r),
{
    let codes: [u32; 3] = ash_queue_flags();
    let decode: Option<u32> = first_family(flags, codes[2]);
    let graphics: Option<u32> = first_family(flags, codes[0]);
    let transfer: Option<u32> = first_family(flags, codes[1]);
    match decode {
        Some(_) => Some(
            QueueFamilies {
                graphics,
                compute: None,
                transfer: if transfer.is_some() {
                    transfer
                } else {
                    decode
                },
                video_decode: decode,
                video_encode: None,
                present: None,
            },
        ),
        None => None,
    }
}

/// Selects the first device that can decode video; `devices` gives for each what
/// its queue families can do.
pub fn select_physical_device(devices: &[Vec<u32>]) -> (r: VideoResult<(usize, QueueFamilies)>)
    requires
        forall|i: int| 0 <= i < devices@.len() ==> (#[trigger] devices@[i])@.len() <= u32::MAX,
    ensures
        match r {
            Ok((i, q)) => {
                &&& i < devices@.len()
                &&& are_queue_families(devices@[i as int]@, Some(q))
                &&& forall|j: int|
                    0 <= j < i ==> are_queue_families((#[trigger] devices@[j])@, None)
            },
            Err(VideoError::VulkanInit(m)) => devices@.len() == 0 && m@
                == "No physical devices found"@,
            Err(VideoError::VideoNotSupported(m)) => {
                &&& devices@.len() > 0
                &&& forall|j: int|
                    0 <= j < devices@.len() ==> are_queue_families((#[trigger] devices@[j])@, None)
                &&& m@ == "No physical device with video decode queue found"@
            },
            Err(_) => false,
        },
{
    if devices.len() == 0 {
        return Err(VideoError::VulkanInit("No physical devices found".to_owned()));
    }
    let mut i: usize = 0;
    while i < devices.len()
        invariant
            i <= devices@.len(),
            forall|k: int| 0 <= k < devices@.len() ==> (#[trigger] devices@[k])@.len() <= u32::MAX,
            forall|j: int| 0 <= j < i ==> are_queue_families((#[trigger] devices@[j])@, None),
        decreases devices@.len() - i,
    {
        match select_queue_families(devices[i].as_slice()) {
            Some(q) => {
                return Ok((i, q));
            },
            None => {},
        }
        i = i + 1;
    }
    Err(
        VideoError::VideoNotSupported(
            "No physical device with video decode queue found".to_owned(),
        ),
    )
}

// ---------------------------------------------------------------------------
// The logical device
// ---------------------------------------------------------------------------

/// The extensions that decoding asks for, whatever the codec, in order.
pub open spec fn common_extensions() -> Seq<Seq<char>> {
    seq![
        "VK_KHR_video_queue"@,
        "VK_KHR_video_decode_queue"@,
        "VK_KHR_video_maintenance1"@,
        "VK_KHR_sampler_ycbcr_conversion"@,
        "VK_KHR_synchronization2"@,
        "VK_KHR_video_maintenance2"@,
    ]
}

/// The extension that decoding a codec asks for.
pub open spec fn codec_extension(c: VideoCodec) -> Seq<char> {
    match c {
        VideoCodec::DecodeH264 => "VK_KHR_video_decode_h264"@,
        VideoCodec::DecodeH265 => "VK_KHR_video_decode_h265"@,
        VideoCodec::DecodeAv1 => "VK_KHR_video_decode_av1"@,
        VideoCodec::DecodeVp9 => "VK_KHR_video_decode_vp9"@,
    }
}

/// The codecs in the order in which their extensions are asked for.
pub open spec fn codec_order() -> Seq<VideoCodec> {
    seq![
        VideoCodec::DecodeH264,
        VideoCodec::DecodeH265,
        VideoCodec::DecodeAv1,
        VideoCodec::DecodeVp9,
    ]
}

/// The names among `wanted` that are available, in order.
pub open spec fn those_available(wanted: Seq<Seq<char>>, available: Seq<String>) -> Seq<Seq<char>>
    decreases wanted.len(),
{
    if wanted.len() == 0 {
        Seq::empty()
    } else {
        let rest = those_available(wanted.drop_last(), available);
        if lists(available, wanted.last()) {
            rest.push(wanted.last())
        } else {
            rest
        }
    }
}

/// The extensions of the wanted codecs, in order.
pub open spec fn codec_extensions(codecs: u32, order: Seq<VideoCodec>) -> Seq<Seq<char>>
    decreases order.len(),
{
    if order.len() == 0 {
        Seq::empty()
    } else {
        let rest = codec_extensions(codecs, order.drop_last());
        if has_flags(codecs, codec_code(order.last())) {
            rest.push(codec_extension(order.last()))
        } else {
            rest
        }
    }
}

/// The extensions that a device is created with: those that decoding asks for
/// and those of the wanted codecs, as far as they are available.
pub open spec fn device_extensions(codecs: u32, available: Seq<String>) -> Seq<Seq<char>> {
    those_available(common_extensions() + codec_extensions(codecs, codec_order()), available)
}

/// A device is created only with extensions that are available.
pub proof fn law_device_extensions_are_available(
    wanted: Seq<Seq<char>>,
    available: Seq<String>,
    i: int,
)
    requires
        0 <= i < those_available(wanted, available).len(),
    ensures
        lists(available, those_available(wanted, available)[i]),
        wanted.contains(those_available(wanted, available)[i]),
    decreases wanted.len(),
{
    let rest = those_available(wanted.drop_last(), available);
    let all = those_available(wanted, available);
    if i < rest.len() {
        law_device_extensions_are_available(wanted.drop_last(), available, i);
        assert(all[i] == rest[i]);
        let k = choose|k: int| 0 <= k < wanted.drop_last().len() && wanted.drop_last()[k] == rest[i];
        assert(wanted[k] == all[i]);
    } else {
        assert(wanted[wanted.len() - 1] == all[i]);
    }
}

fn push_if_available(
    out: &mut Vec<String>,
    name: &str,
    available: &[String],
    Ghost(wanted): Ghost<Seq<Seq<char>>>,
)
    requires
        texts(old(out)@) == those_available(wanted, available@),
    ensures
        texts(final(out)@) == those_available(wanted.push(name@), available@),
{
    proof {
        assert(wanted.push(name@).drop_last() =~= wanted);
    }
    if has_name(available, name) {
        let ghost before = texts(out@);
        out.push(name.to_owned());
        assert(texts(out@) =~= before.push(name@));
    }
}

fn extension_name(c: VideoCodec) -> (s: &'static str)
    ensures
        s@ == codec_extension(c),
{
    match c {
        VideoCodec::DecodeH264 => "VK_KHR_video_decode_h264",
        VideoCodec::DecodeH265 => "VK_KHR_video_decode_h265",
        VideoCodec::DecodeAv1 => "VK_KHR_video_decode_av1",
        VideoCodec::DecodeVp9 => "VK_KHR_video_decode_vp9",
    }
}

/// Decides which extensions a device is created with.
pub fn select_device_extensions(codecs: u32, available: &[String]) -> (out: Vec<String>)
    ensures
        texts(out@) == device_extensions(codecs, available@),
{
    let names: [&'static str; 6] = [
        "VK_KHR_video_queue",
        "VK_KHR_video_decode_queue",
        "VK_KHR_video_maintenance1",
        "VK_KHR_sampler_ycbcr_conversion",
        "VK_KHR_synchronization2",
        "VK_KHR_video_maintenance2",
    ];
    let mut out: Vec<String> = Vec::new();
    let ghost mut wanted = Seq::<Seq<char>>::empty();
    assert(texts(out@) =~= those_available(wanted, available@));
    let mut i: usize = 0;
    while i < 6
        invariant
            i <= 6,
            names@ == seq![
                "VK_KHR_video_queue",
                "VK_KHR_video_decode_queue",
                "VK_KHR_video_maintenance1",
                "VK_KHR_sampler_ycbcr_conversion",
                "VK_KHR_synchronization2",
                "VK_KHR_video_maintenance2",
            ],
            wanted == common_extensions().take(i as int),
            texts(out@) == those_available(wanted, available@),
        decreases 6 - i,
    {
        push_if_available(&mut out, names[i], available, Ghost(wanted));
        proof {
            wanted = wanted.push(names@[i as int]@);
            assert(wanted =~= common_extensions().take(i + 1));
        }
        i = i + 1;
    }
    let order: [VideoCodec; 4] = [
        VideoCodec::DecodeH264,
        VideoCodec::DecodeH265,
        VideoCodec::DecodeAv1,
        VideoCodec::DecodeVp9,
    ];
    proof {
        assert(common_extensions().take(6) =~= common_extensions());
        assert(wanted =~= common_extensions() + codec_extensions(codecs, codec_order().take(0)));
    }
    let mut k: usize = 0;
    while k < 4
        invariant
            k <= 4,
            order@ == codec_order(),
            wanted == common_extensions() + codec_extensions(codecs, codec_order().take(k as int)),
            texts(out@) == those_available(wanted, available@),
        decreases 4 - k,
    {
        let c: VideoCodec = order[k];
        proof {
            assert(codec_order().take(k + 1).drop_last() =~= codec_order().take(k as int));
            assert(codec_order().take(k + 1).last() == c);
        }
        if contains_flags(codecs, c.to_vk_flag()) {
            push_if_available(&mut out, extension_name(c), available, Ghost(wanted));
            proof {
                let e = codec_extension(c);
                assert(wanted.push(e) =~= common_extensions() + codec_extensions(
                    codecs,
                    codec_order().take(k + 1),
                ));
                wanted = wanted.push(e);
            }
        }
        k = k + 1;
    }
    assert(codec_order().take(4) =~= codec_order());
    out
}

/// Queues to create: their family, and how many.
#[derive(Debug, Clone, Copy, PartialEq, Eq, Structural)]
pub struct QueuePlan {
    pub family: u32,
    pub count: usize,
}

/// The queues that a device is created with: the decode queues; a graphics queue
/// where one is asked for and can be had; a transfer queue where one is asked for
/// and its family is not that for decoding.
pub open spec fn device_queues(
    q: QueueFamilies,
    num_decode_queues: usize,
    graphics: bool,
    transfer: bool,
) -> Seq<QueuePlan> {
    (match q.video_decode {
        Some(f) => seq![QueuePlan { family: f, count: num_decode_queues }],
        None => Seq::empty(),
    }) + (match q.graphics {
        Some(f) if graphics => seq![QueuePlan { family: f, count: 1 }],
        _ => Seq::empty(),
    }) + (match q.transfer {
        Some(f) if transfer && q.video_decode != Some(f) => seq![QueuePlan { family: f, count: 1 }],
        _ => Seq::empty(),
    })
}

/// Decides which queues a device is created with.
pub fn plan_queues(builder: &VideoDeviceBuilder, families: &QueueFamilies) -> (r: Vec<QueuePlan>)
    ensures
        r@ == device_queues(
            *families,
            builder.num_decode_queues,
            builder.create_graphics_queue,
            builder.create_transfer_queue,
        ),
{
    let mut r: Vec<QueuePlan> = Vec::new();
    if let Some(f) = families.video_decode {
        r.push(QueuePlan { family: f, count: builder.num_decode_queues });
    }
    if builder.create_graphics_queue {
        if let Some(f) = families.graphics {
            r.push(QueuePlan { family: f, count: 1 });
        }
    }
    if builder.create_transfer_queue {
        if let Some(f) = families.transfer {
            let same: bool = match families.video_decode {
                Some(d) => d == f,
                None => false,
            };
            if !same {
                r.push(QueuePlan { family: f, count: 1 });
            }
        }
    }
    assert(r@ =~= device_queues(
        *families,
        builder.num_decode_queues,
        builder.create_graphics_queue,
        builder.create_transfer_queue,
    ));
    r
}

// ---------------------------------------------------------------------------
// Laws
// ---------------------------------------------------------------------------

/// The codes of decoding H.264, H.265, AV1 and VP9 are the four lowest bits, in that order.
pub proof fn law_codec_codes()
    ensures
        codec_code(VideoCodec::DecodeH264) == 1,
        codec_code(VideoCodec::DecodeH265) == 2,
        codec_code(VideoCodec::DecodeAv1) == 4,
        codec_code(VideoCodec::DecodeVp9) == 8,
{
}

/// A name is wanted for decoding codecs.
pub open spec fn is_wanted(codecs: u32, name: Seq<char>) -> bool {
    ||| name == "VK_KHR_video_queue"@
    ||| name == "VK_KHR_video_decode_queue"@
    ||| name == "VK_KHR_video_maintenance1"@
    ||| name == "VK_KHR_sampler_ycbcr_conversion"@
    ||| name == "VK_KHR_synchronization2"@
    ||| name == "VK_KHR_video_maintenance2"@
    ||| codecs & 1 == 1 && name == "VK_KHR_video_decode_h264"@
    ||| codecs & 2 == 2 && name == "VK_KHR_video_decode_h265"@
    ||| codecs & 4 == 4 && name == "VK_KHR_video_decode_av1"@
    ||| codecs & 8 == 8 && name == "VK_KHR_video_decode_vp9"@
}

proof fn lemma_those_available(wanted: Seq<Seq<char>>, available: Seq<String>, name: Seq<char>)
    ensures
        those_available(wanted, available).contains(name) <==> wanted.contains(name) && lists(
            available,
            name,
        ),
    decreases wanted.len(),
{
    let all = those_available(wanted, available);
    if wanted.len() > 0 {
        let before = wanted.drop_last();
        lemma_those_available(before, available, name);
        let rest = those_available(before, available);
        if all.contains(name) {
            let k = choose|k: int| 0 <= k < all.len() && all[k] == name;
            if k < rest.len() {
                assert(rest[k] == name);
                assert(rest.contains(name));
                let j = choose|j: int| 0 <= j < before.len() && before[j] == name;
                assert(wanted[j] == name);
            } else {
                assert(wanted[wanted.len() - 1] == name);
            }
        }
        if wanted.contains(name) && lists(available, name) {
            let j = choose|j: int| 0 <= j < wanted.len() && wanted[j] == name;
            if j < before.len() {
                assert(before[j] == name);
                assert(before.contains(name));
                let k = choose|k: int| 0 <= k < rest.len() && rest[k] == name;
                assert(all[k] == name);
            } else {
                assert(all[all.len() - 1] == name);
            }
        }
    }
}

/// A device is created with exactly those extensions that are available and that decoding,
/// or one of the wanted codecs, asks for.
pub proof fn law_wanted_extensions_are_enabled(
    codecs: u32,
    available: Seq<String>,
    name: Seq<char>,
)
    ensures
        device_extensions(codecs, available).contains(name) <==> lists(available, name) && is_wanted(
            codecs,
            name,
        ),
{
    let order = codec_order();
    let o3 = order.drop_last();
    let o2 = o3.drop_last();
    let o1 = o2.drop_last();
    let o0 = o1.drop_last();
    assert(o0.len() == 0);
    let e0 = codec_extensions(codecs, o0);
    let e1 = codec_extensions(codecs, o1);
    let e2 = codec_extensions(codecs, o2);
    let e3 = codec_extensions(codecs, o3);
    let e4 = codec_extensions(codecs, order);
    assert(e0 =~= Seq::empty());
    assert(!e0.contains(name));
    lemma_one_more(e0, e1, codecs & 1 == 1, "VK_KHR_video_decode_h264"@, name);
    lemma_one_more(e1, e2, codecs & 2 == 2, "VK_KHR_video_decode_h265"@, name);
    lemma_one_more(e2, e3, codecs & 4 == 4, "VK_KHR_video_decode_av1"@, name);
    lemma_one_more(e3, e4, codecs & 8 == 8, "VK_KHR_video_decode_vp9"@, name);
    let c = common_extensions();
    let all = c + e4;
    assert(c[0] == "VK_KHR_video_queue"@ && c[1] == "VK_KHR_video_decode_queue"@ && c[2]
        == "VK_KHR_video_maintenance1"@ && c[3] == "VK_KHR_sampler_ycbcr_conversion"@ && c[4]
        == "VK_KHR_synchronization2"@ && c[5] == "VK_KHR_video_maintenance2"@);
    assert(all.contains(name) <==> c.contains(name) || e4.contains(name)) by {
        if all.contains(name) {
            let k = choose|k: int| 0 <= k < all.len() && all[k] == name;
            if k < c.len() {
                assert(c[k] == name);
            } else {
                assert(e4[k - c.len()] == name);
            }
        }
        if c.contains(name) {
            let k = choose|k: int| 0 <= k < c.len() && c[k] == name;
            assert(all[k] == name);
        }
        if e4.contains(name) {
            let k = choose|k: int| 0 <= k < e4.len() && e4[k] == name;
            assert(all[c.len() + k] == name);
        }
    }
    lemma_those_available(all, available, name);
}

proof fn lemma_one_more(
    before: Seq<Seq<char>>,
    after: Seq<Seq<char>>,
    adds: bool,
    added: Seq<char>,
    name: Seq<char>,
)
    requires
        after == if adds {
            before.push(added)
        } else {
            before
        },
    ensures
        after.contains(name) <==> before.contains(name) || (adds && name == added),
{
    if adds {
        if after.contains(name) {
            let k = choose|k: int| 0 <= k < after.len() && after[k] == name;
            if k < before.len() {
                assert(before[k] == name);
            }
        }
        if before.contains(name) {
            let k = choose|k: int| 0 <= k < before.len() && before[k] == name;
            assert(after[k] == name);
        }
        assert(after[before.len() as int] == added);
    }
}

/// A device can decode if one of its queue families can: it has the sixth lowest bit of the
/// flags. The first such family decodes; the first with the lowest bit draws; the first with
/// the third lowest bit transfers, and that for decoding where there is none.
pub proof fn law_queue_families(flags: Seq<u32>, r: Option<QueueFamilies>, i: int)
    requires
        are_queue_families(flags, r),
        0 <= i < flags.len() <= u32::MAX,
    ensures
        flags[i] & 32 == 32 ==> r is Some,
        r matches Some(q) ==> {
            &&& q.video_decode matches Some(d) && d < flags.len() && flags[d as int] & 32 == 32 && (
            flags[i] & 32 == 32 ==> d <= i)
            &&& q.graphics matches Some(g) ==> g < flags.len() && flags[g as int] & 1 == 1
            &&& flags[i] & 1 == 1 ==> (q.graphics matches Some(g) && g <= i)
            &&& flags[i] & 4 == 4 ==> (q.transfer matches Some(t) && t <= i && flags[t as int] & 4
                == 4)
            &&& (forall|j: int| 0 <= j < flags.len() ==> #[trigger] flags[j] & 4 != 4) ==> q.transfer
                == q.video_decode
            &&& q.compute is None && q.video_encode is None && q.present is None
        },
        r is None ==> flags[i] & 32 != 32,
{
    if r is Some {
        let q = r->0;
        if forall|j: int| 0 <= j < flags.len() ==> #[trigger] flags[j] & 4 != 4 {
            assert(flags[i] & 4 != 4);
        }
    }
}

/// An instance is created with two extensions, and with that for validation messages and the
/// layer for validation exactly where validation is asked for and they are there.
pub proof fn law_instances(enable_validation: bool, extensions: Seq<String>, layers: Seq<String>)
    ensures
        instance_extensions(enable_validation, extensions).contains("VK_KHR_surface"@),
        instance_extensions(enable_validation, extensions).contains(
            "VK_KHR_get_physical_device_properties2"@,
        ),
        instance_extensions(enable_validation, extensions).len() == (if enable_validation && lists(
            extensions,
            "VK_EXT_debug_utils"@,
        ) {
            3int
        } else {
            2
        }),
        enable_validation && lists(extensions, "VK_EXT_debug_utils"@) ==> instance_extensions(
            enable_validation,
            extensions,
        )[2] == "VK_EXT_debug_utils"@,
        instance_layers(enable_validation, layers).contains("VK_LAYER_KHRONOS_validation"@)
            <==> enable_validation && lists(layers, "VK_LAYER_KHRONOS_validation"@),
        instance_layers(enable_validation, layers).len() <= 1,
{
    let e = instance_extensions(enable_validation, extensions);
    assert(e[0] == "VK_KHR_surface"@);
    assert(e[1] == "VK_KHR_get_physical_device_properties2"@);
    let l = instance_layers(enable_validation, layers);
    if l.len() > 0 {
        assert(l[0] == "VK_LAYER_KHRONOS_validation"@);
    }
}

/// The queues of a device: as many decode queues as are asked for come first; then one for
/// drawing and one for transfers, where they are asked for and can be had, but none for
/// transfers in the family that decodes.
pub proof fn law_device_queues(
    q: QueueFamilies,
    n: usize,
    graphics: bool,
    transfer: bool,
    d: u32,
)
    requires
        q.video_decode == Some(d),
    ensures
        ({
            let r = device_queues(q, n, graphics, transfer);
            let draws = graphics && q.graphics is Some;
            let transfers = transfer && q.transfer is Some && q.transfer != Some(d);
            &&& r[0].family == d && r[0].count == n
            &&& r.len() == 1 + (if draws {
                1int
            } else {
                0
            }) + (if transfers {
                1int
            } else {
                0
            })
            &&& draws ==> Some(r[1].family) == q.graphics && r[1].count == 1
            &&& transfers ==> Some(r.last().family) == q.transfer && r.last().count == 1
        }),
{
}

/// Where all extensions that are wanted are available, they are enabled in order: those of
/// every codec first, and then those of H.264, H.265, AV1 and VP9.
pub proof fn law_extensions_come_in_order(codecs: u32, available: Seq<String>)
    requires
        forall|name: Seq<char>| #[trigger] is_wanted(codecs, name) ==> lists(available, name),
    ensures
        ({
            let none: Seq<Seq<char>> = Seq::empty();
            let all = seq![
                "VK_KHR_video_queue"@,
                "VK_KHR_video_decode_queue"@,
                "VK_KHR_video_maintenance1"@,
                "VK_KHR_sampler_ycbcr_conversion"@,
                "VK_KHR_synchronization2"@,
                "VK_KHR_video_maintenance2"@,
            ] + (if codecs & 1 == 1 {
                seq!["VK_KHR_video_decode_h264"@]
            } else {
                none
            }) + (if codecs & 2 == 2 {
                seq!["VK_KHR_video_decode_h265"@]
            } else {
                none
            }) + (if codecs & 4 == 4 {
                seq!["VK_KHR_video_decode_av1"@]
            } else {
                none
            }) + (if codecs & 8 == 8 {
                seq!["VK_KHR_video_decode_vp9"@]
            } else {
                none
            });
            device_extensions(codecs, available) =~= all
        }),
{
    let order = codec_order();
    let o3 = order.drop_last();
    let o2 = o3.drop_last();
    let o1 = o2.drop_last();
    let o0 = o1.drop_last();
    assert(o0.len() == 0);
    assert(codec_extensions(codecs, o0) =~= Seq::empty());
    let e1 = codec_extensions(codecs, o1);
    let e2 = codec_extensions(codecs, o2);
    let e3 = codec_extensions(codecs, o3);
    let e4 = codec_extensions(codecs, order);
    assert(e1 =~= if codecs & 1 == 1 {
        seq!["VK_KHR_video_decode_h264"@]
    } else {
        Seq::empty()
    });
    assert(e2 == if codecs & 2 == 2 {
        e1.push("VK_KHR_video_decode_h265"@)
    } else {
        e1
    });
    assert(e3 == if codecs & 4 == 4 {
        e2.push("VK_KHR_video_decode_av1"@)
    } else {
        e2
    });
    assert(e4 == if codecs & 8 == 8 {
        e3.push("VK_KHR_video_decode_vp9"@)
    } else {
        e3
    });
    let wanted = common_extensions() + e4;
    assert forall|k: int| 0 <= k < wanted.len() implies lists(available, #[trigger] wanted[k]) by {
        assert(is_wanted(codecs, wanted[k]));
    }
    lemma_all_are_available(wanted, available);
}

proof fn lemma_all_are_available(wanted: Seq<Seq<char>>, available: Seq<String>)
    requires
        forall|k: int| 0 <= k < wanted.len() ==> lists(available, #[trigger] wanted[k]),
    ensures
        those_available(wanted, available) == wanted,
    decreases wanted.len(),
{
    if wanted.len() > 0 {
        let before = wanted.drop_last();
        assert forall|k: int| 0 <= k < before.len() implies lists(
            available,
            #[trigger] before[k],
        ) by {
            assert(before[k] == wanted[k]);
        }
        lemma_all_are_available(before, available);
        assert(wanted.last() == wanted[wanted.len() - 1]);
        assert(before.push(wanted.last()) =~= wanted);
    } else {
        assert(wanted =~= Seq::empty());
    }
}

} // verus!
