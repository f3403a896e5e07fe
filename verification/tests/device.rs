use ash::vk;

use viewport_vulkan::device::{
    minimum_version, optional_extensions, required_extensions, Choice, Device, DrmNode, Extension,
    NodeType, PhysicalDevice, Version,
};

const NODE: DrmNode = DrmNode {
    dev: 0xe280,
    ty: NodeType::Render,
};

fn gpu(name: &str, render_node: Option<DrmNode>) -> PhysicalDevice {
    let mut extensions = required_extensions();
    extensions.extend(optional_extensions());
    PhysicalDevice {
        name: name.to_owned(),
        api_version: Version {
            variant: 0,
            major: 1,
            minor: 3,
            patch: 281,
        },
        extensions,
        queue_families: vec![
            vk::QueueFlags::TRANSFER.as_raw(),
            (vk::QueueFlags::GRAPHICS | vk::QueueFlags::COMPUTE).as_raw(),
            vk::QueueFlags::GRAPHICS.as_raw(),
        ],
        memory_types: Vec::new(),
        formats: Vec::new(),
        render_node,
        primary_node: None,
        ycbcr: true,
    }
}

#[test]
fn a_device_can_be_opened_on_the_render_node() {
    let device = Device::for_node(vec![gpu("navi", Some(NODE))], NODE).expect("device");
    assert!(!device.name().is_empty());
    assert_eq!(device.queue_family(), 1);
    // 1.2 is the floor, and timeline semaphores are core there.
    assert!(
        device.supports_timeline_semaphores(),
        "a 1.2 device without timeline semaphores"
    );
}

#[test]
fn the_device_matches_the_node_it_was_asked_for() {
    // The whole point of selecting by node: importing a client's DMA-BUF into a
    // device on a different card fails or copies over PCIe.
    let other = DrmNode {
        dev: 0xe281,
        ty: NodeType::Render,
    };
    let device = Device::for_node(
        vec![gpu("other", Some(other)), gpu("navi", Some(NODE))],
        NODE,
    )
    .expect("device");

    let render = device.physical().render_node;
    let primary = device.physical().primary_node;
    assert!(
        render == Some(NODE) || primary == Some(NODE),
        "opened {:?}/{:?}, asked for {NODE:?}",
        render,
        primary
    );
}

#[test]
fn a_device_without_a_node_is_used_where_nothing_else_is() {
    let choice = Device::pick(&vec![gpu("llvmpipe", None)], NODE).expect("choice");
    assert_eq!(
        choice,
        Choice {
            index: 0,
            fallback: true
        }
    );
    let mut primary = gpu("navi", None);
    primary.primary_node = Some(NODE);
    let choice = Device::pick(&vec![gpu("llvmpipe", None), primary], NODE).expect("choice");
    assert_eq!(
        choice,
        Choice {
            index: 1,
            fallback: false
        }
    );
}

#[test]
fn the_first_device_behind_the_node_is_opened() {
    let devices = vec![
        gpu("llvmpipe", None),
        gpu("navi", Some(NODE)),
        gpu("twin", Some(NODE)),
    ];
    let device = Device::for_node(devices, NODE).expect("device");
    assert_eq!(device.name(), "navi");
    for extension in required_extensions() {
        assert!(device.enabled.contains(&extension), "{extension:?}");
    }
    for extension in &device.enabled {
        assert!(device.physical().has_device_extension(*extension));
    }
    let family = device.physical().queue_families[device.queue_family() as usize];
    assert!(vk::QueueFlags::from_raw(family).contains(vk::QueueFlags::GRAPHICS));
}

#[test]
fn no_device_at_all_is_an_error_that_says_what_to_install() {
    let error = Device::for_node(Vec::new(), NODE).expect_err("there is no device");
    let message = error.message();
    assert!(message.contains("no Vulkan device at all"), "{message}");
    assert!(message.contains("vulkan-radeon"), "{message}");
}

#[test]
fn an_old_device_is_refused_by_its_version() {
    let mut old = gpu("old", Some(NODE));
    old.api_version = Version {
        variant: 0,
        major: 1,
        minor: 1,
        patch: 300,
    };
    let error = Device::open(old).expect_err("1.1 is below the floor");
    assert_eq!(
        error.message(),
        "old reports Vulkan Version { variant: 0, major: 1, minor: 1, patch: 300 }, \
         need at least Version { variant: 0, major: 1, minor: 2, patch: 0 }"
    );

    // The floor itself is enough.
    let mut floor = gpu("floor", Some(NODE));
    floor.api_version = minimum_version();
    assert!(Device::open(floor).is_ok());
}

#[test]
fn missing_extensions_are_named() {
    let mut bare = gpu("bare", Some(NODE));
    bare.extensions.retain(|e| {
        *e != Extension::ExtImageDrmFormatModifier && *e != Extension::KhrPushDescriptor
    });
    let error = Device::open(bare).expect_err("the modifier extension is required");
    assert_eq!(
        error.message(),
        "bare is missing VK_EXT_image_drm_format_modifier, VK_KHR_push_descriptor"
    );
}

#[test]
fn optional_extensions_are_enabled_only_where_they_exist() {
    let full = Device::open(gpu("full", Some(NODE))).expect("device");
    assert_eq!(full.enabled.len(), 9);
    assert_eq!(full.enabled[8], Extension::KhrTimelineSemaphore);

    let mut less = gpu("less", Some(NODE));
    less.extensions
        .retain(|e| *e != Extension::KhrTimelineSemaphore);
    let less = Device::open(less).expect("device");
    assert_eq!(less.enabled, required_extensions());
    assert!(less.supports_timeline_semaphores());
}

#[test]
fn a_device_that_cannot_draw_is_refused() {
    let mut mute = gpu("mute", Some(NODE));
    mute.queue_families = vec![vk::QueueFlags::COMPUTE.as_raw(), 0];
    let error = Device::open(mute).expect_err("there is no graphics queue");
    assert_eq!(error.message(), "mute has no graphics queue");
}

#[test]
fn extensions_have_the_names_vulkan_gives_them() {
    let names = [
        (Extension::KhrExternalMemoryFd, ash::khr::external_memory_fd::NAME),
        (
            Extension::ExtExternalMemoryDmaBuf,
            ash::ext::external_memory_dma_buf::NAME,
        ),
        (
            Extension::ExtImageDrmFormatModifier,
            ash::ext::image_drm_format_modifier::NAME,
        ),
        (Extension::KhrImageFormatList, ash::khr::image_format_list::NAME),
        (
            Extension::ExtQueueFamilyForeign,
            ash::ext::queue_family_foreign::NAME,
        ),
        (
            Extension::KhrExternalSemaphoreFd,
            ash::khr::external_semaphore_fd::NAME,
        ),
        (Extension::KhrDynamicRendering, ash::khr::dynamic_rendering::NAME),
        (Extension::KhrPushDescriptor, ash::khr::push_descriptor::NAME),
        (
            Extension::KhrTimelineSemaphore,
            ash::khr::timeline_semaphore::NAME,
        ),
    ];
    for (extension, name) in names {
        assert_eq!(extension.name().as_bytes(), name.to_bytes());
    }
}

fn memory(types: Vec<vk::MemoryPropertyFlags>) -> Device {
    let mut gpu = gpu("navi", Some(NODE));
    gpu.memory_types = types.into_iter().map(|t| t.as_raw()).collect();
    Device::open(gpu).expect("device")
}

#[test]
fn imported_memory_is_device_local_where_it_can_be() {
    let local = vk::MemoryPropertyFlags::DEVICE_LOCAL;
    let visible = vk::MemoryPropertyFlags::HOST_VISIBLE;
    let device = memory(vec![visible, local, local | visible, visible]);
    // Everything allowed: the last of the local ones.
    assert_eq!(device.memory_type(0b1111, 0b1111), Some(2));
    // What the fd is not compatible with is never used.
    assert_eq!(device.memory_type(0b1111, 0b0011), Some(1));
    // No local type among the candidates: the last of them.
    assert_eq!(device.memory_type(0b1001, 0b1111), Some(3));
    assert_eq!(device.memory_type(0b0001, 0b1110), None);
    assert_eq!(device.memory_type(0b1_0000, 0b1_0000), None);
}

#[test]
fn allocated_memory_is_the_first_with_the_property() {
    let local = vk::MemoryPropertyFlags::DEVICE_LOCAL;
    let visible = vk::MemoryPropertyFlags::HOST_VISIBLE;
    let coherent = vk::MemoryPropertyFlags::HOST_COHERENT;
    let device = memory(vec![visible, local, visible | coherent, local | visible | coherent]);
    assert_eq!(device.device_local_type(0b1111), Some(1));
    assert_eq!(device.device_local_type(0b1000), Some(3));
    assert_eq!(device.device_local_type(0b0101), None);
    assert_eq!(device.host_coherent_type(0b1111), Some(2));
    assert_eq!(device.host_coherent_type(0b1001), Some(3));
    assert_eq!(device.host_coherent_type(0b0011), None);
    assert_eq!(device.memory_type_with(0b1110, |flags| flags & 2 != 0), Some(2));
}
