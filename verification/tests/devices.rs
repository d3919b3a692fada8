use vk_video_vulkan::device::{
    first_family, has_name, plan_instance, plan_queues, select_device_extensions,
    select_physical_device, select_queue_families, VideoCodec, VideoDeviceBuilder,
};
use vk_video_vulkan::error::{AppInfo, VideoError};

fn names(list: &[&str]) -> Vec<String> {
    list.iter().map(|s| s.to_string()).collect()
}

#[test]
fn codecs_have_their_codes() {
    assert_eq!(VideoCodec::DecodeH264.to_vk_flag(), 1);
    assert_eq!(VideoCodec::DecodeH265.to_vk_flag(), 2);
    assert_eq!(VideoCodec::DecodeAv1.to_vk_flag(), 4);
    assert_eq!(VideoCodec::DecodeVp9.to_vk_flag(), 8);
}

#[test]
fn builders_keep_what_they_are_told() {
    let b = VideoDeviceBuilder::new();
    assert_eq!(b.video_codecs, 15);
    assert_eq!(b.num_decode_queues, 1);
    assert!(!b.enable_validation && !b.create_graphics_queue && !b.create_transfer_queue);
    let usual = VideoDeviceBuilder::default().app_info;
    assert_eq!((usual.name.as_str(), usual.engine_name.as_str()), ("vk-video", "vk-video-vulkan"));
    let b = VideoDeviceBuilder::default()
        .with_validation(true)
        .with_video_codecs(3)
        .with_num_decode_queues(2)
        .with_graphics_queue(true)
        .with_app_info(AppInfo {
            name: "n".to_string(),
            engine_name: "e".to_string(),
            api_version: 5,
        });
    assert!(b.enable_validation && b.create_graphics_queue);
    assert_eq!(b.video_codecs, 3);
    assert_eq!(b.num_decode_queues, 2);
    assert_eq!(b.app_info.name, "n");
}

#[test]
fn names_are_compared_whole() {
    let list = names(&["VK_a", "VK_b"]);
    assert!(has_name(&list, "VK_b"));
    assert!(!has_name(&list, "VK_"));
    assert!(!has_name(&list, "VK_bb"));
    assert!(!has_name(&[], "VK_a"));
}

#[test]
fn validation_needs_layer_and_extension() {
    let b = VideoDeviceBuilder::new().with_validation(true);
    let layer = names(&["VK_LAYER_KHRONOS_validation"]);
    let ext = names(&["VK_EXT_debug_utils"]);
    let p = plan_instance(&b, &layer, &ext);
    assert!(p.has_validation);
    assert_eq!(p.layers, layer);
    assert_eq!(
        p.extensions,
        names(&[
            "VK_KHR_surface",
            "VK_KHR_get_physical_device_properties2",
            "VK_EXT_debug_utils"
        ])
    );
    let p = plan_instance(&b, &layer, &[]);
    assert!(!p.has_validation);
    assert_eq!(p.layers.len(), 1);
    assert_eq!(p.extensions.len(), 2);
    let p = plan_instance(&b, &[], &ext);
    assert!(!p.has_validation);
    let p = plan_instance(&VideoDeviceBuilder::new(), &layer, &ext);
    assert!(!p.has_validation);
    assert!(p.layers.is_empty());
    assert_eq!(p.extensions.len(), 2);
}

#[test]
fn instances_are_of_version_1_2_at_most() {
    let with = |api_version: u32| {
        let b = VideoDeviceBuilder::new().with_app_info(AppInfo {
            name: String::new(),
            engine_name: String::new(),
            api_version,
        });
        plan_instance(&b, &[], &[]).api_version
    };
    assert_eq!(with(0x0040_1000), 0x0040_1000);
    assert_eq!(with(0x0040_2000), 0x0040_2000);
    assert_eq!(with(0x0040_3000), 0x0040_2000);
}

#[test]
fn queue_families_are_the_first_of_their_kind() {
    assert_eq!(first_family(&[1, 5, 4], 4), Some(1));
    assert_eq!(first_family(&[1, 1], 4), None);
    let q = select_queue_families(&[7, 4, 36]).unwrap();
    assert_eq!(q.video_decode, Some(2));
    assert_eq!(q.graphics, Some(0));
    assert_eq!(q.transfer, Some(0));
    assert_eq!((q.compute, q.video_encode, q.present), (None, None, None));
    let q = select_queue_families(&[1, 32]).unwrap();
    assert_eq!(q.transfer, Some(1));
    assert!(select_queue_families(&[7, 4]).is_none());
}

#[test]
fn the_first_device_that_decodes_is_used() {
    let (i, q) = select_physical_device(&[vec![7], vec![1, 32], vec![32]]).unwrap();
    assert_eq!(i, 1);
    assert_eq!(q.video_decode, Some(1));
    match select_physical_device(&[]) {
        Err(VideoError::VulkanInit(m)) => assert_eq!(m, "No physical devices found"),
        _ => panic!("no error"),
    }
    match select_physical_device(&[vec![7]]) {
        Err(VideoError::VideoNotSupported(m)) => {
            assert_eq!(m, "No physical device with video decode queue found")
        }
        _ => panic!("no error"),
    }
}

#[test]
fn extensions_are_asked_for_where_available() {
    let all = names(&[
        "VK_KHR_video_decode_vp9",
        "VK_KHR_video_decode_h264",
        "VK_KHR_video_queue",
        "VK_KHR_video_decode_queue",
        "VK_KHR_swapchain",
    ]);
    assert_eq!(
        select_device_extensions(15, &all),
        names(&[
            "VK_KHR_video_queue",
            "VK_KHR_video_decode_queue",
            "VK_KHR_video_decode_h264",
            "VK_KHR_video_decode_vp9"
        ])
    );
    assert_eq!(
        select_device_extensions(2, &all),
        names(&["VK_KHR_video_queue", "VK_KHR_video_decode_queue"])
    );
}

#[test]
fn queues_of_a_device() {
    let mut b = VideoDeviceBuilder::new().with_num_decode_queues(3).with_graphics_queue(true);
    b.create_transfer_queue = true;
    let q = select_queue_families(&[1, 4, 32]).unwrap();
    let plan: Vec<(u32, usize)> = plan_queues(&b, &q).iter().map(|p| (p.family, p.count)).collect();
    assert_eq!(plan, vec![(2, 3), (0, 1), (1, 1)]);
    let q = select_queue_families(&[32]).unwrap();
    let plan: Vec<(u32, usize)> = plan_queues(&b, &q).iter().map(|p| (p.family, p.count)).collect();
    assert_eq!(plan, vec![(0, 3)]);
}
