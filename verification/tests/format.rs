use ash::vk;

use viewport_vulkan::device::{FormatModifiers, PhysicalDevice, Version};
use viewport_vulkan::format::{
    chroma_swizzle, common_formats, has_alpha, importable, is_yuv, modifiers, renderable,
    to_vulkan, ComponentSwizzle, Format, Fourcc, ModifierProperties, ModifierSupport, VkFormat,
};

/// `YUYV`, packed YUV.
const YUYV: u32 = 0x5659_5559;

#[test]
fn argb_maps_to_bgra_not_rgba() {
    // The mapping everyone gets wrong. DRM names channels from the least
    // significant byte, Vulkan names them in memory order, so the two read in
    // opposite directions.
    assert_eq!(to_vulkan(Fourcc::Argb8888), Some(VkFormat::B8G8R8A8Unorm));
    assert_eq!(to_vulkan(Fourcc::Abgr8888), Some(VkFormat::R8G8B8A8Unorm));
}

#[test]
fn opaque_and_alpha_variants_share_a_vulkan_format() {
    // Which is why has_alpha exists: the Vulkan format cannot tell them apart,
    // and blending depends on the difference.
    assert_eq!(to_vulkan(Fourcc::Xrgb8888), to_vulkan(Fourcc::Argb8888));
    assert!(has_alpha(Fourcc::Argb8888));
    assert!(!has_alpha(Fourcc::Xrgb8888));
}

#[test]
fn ten_bit_formats_are_mapped() {
    // HDR needs more than eight bits per channel, so these must not be silently
    // unsupported.
    assert_eq!(
        to_vulkan(Fourcc::Abgr2101010),
        Some(VkFormat::A2B10G10R10UnormPack32)
    );
    assert_eq!(
        to_vulkan(Fourcc::Abgr16161616f),
        Some(VkFormat::R16G16B16A16Sfloat)
    );
    assert!(common_formats().contains(&Fourcc::Abgr2101010));
}

#[test]
fn an_unknown_fourcc_is_none_rather_than_a_guess() {
    // Packed YUV, which has no multi-planar Vulkan format and so is not mapped,
    // unlike the planar ones below.
    let yuyv = Fourcc::from_code(YUYV);
    assert_eq!(to_vulkan(yuyv), None);
    assert!(!has_alpha(yuyv));
    assert!(!is_yuv(yuyv));
}

#[test]
fn the_video_formats_map_to_their_multi_planar_equivalents() {
    // What a hardware decoder hands over. Mapping one to a single-plane format
    // would sample the luma plane as if it were colour: a greyscale picture,
    // with nothing anywhere reporting an error.
    assert_eq!(
        to_vulkan(Fourcc::Nv12),
        Some(VkFormat::G8B8R82Plane420Unorm)
    );
    assert_eq!(
        to_vulkan(Fourcc::Yuv420),
        Some(VkFormat::G8B8R83Plane420Unorm)
    );
    assert!(common_formats().contains(&Fourcc::Nv12));
    assert!(common_formats().contains(&Fourcc::P010));
}

#[test]
fn p010_keeps_its_ten_bits_in_the_top_of_a_sixteen_bit_word() {
    // The `10X6` in the Vulkan name is the six unused low bits, which is
    // exactly how P010 is laid out. Mapping it to a plain 16-bit format would
    // read the padding as picture and come out a stop too dark.
    assert_eq!(
        to_vulkan(Fourcc::P010),
        Some(VkFormat::G10X6B10X6R10X62Plane420Unorm3Pack16)
    );
    assert_eq!(
        to_vulkan(Fourcc::P016),
        Some(VkFormat::G16B16R162Plane420Unorm)
    );
}

#[test]
fn the_chroma_swapped_formats_share_a_vulkan_format_and_differ_by_swizzle() {
    // Vulkan has no NV21. It is NV12 with Cb and Cr the other way round, and
    // the only place that can be said is the conversion's swizzle; get it wrong
    // and faces come out blue.
    assert_eq!(to_vulkan(Fourcc::Nv21), to_vulkan(Fourcc::Nv12));
    assert_eq!(to_vulkan(Fourcc::Yvu420), to_vulkan(Fourcc::Yuv420));

    let swapped = chroma_swizzle(Fourcc::Nv21);
    assert_eq!(swapped.r, ComponentSwizzle::B);
    assert_eq!(swapped.b, ComponentSwizzle::R);
    let plain = chroma_swizzle(Fourcc::Nv12);
    assert_eq!(plain.r, ComponentSwizzle::Identity);
    assert_eq!(plain.b, ComponentSwizzle::Identity);
}

#[test]
fn yuv_has_no_alpha_and_is_recognised_as_yuv() {
    // Nothing in the YUV set carries alpha, so every one of them composites
    // opaque. `has_alpha` returning true here would blend a video against
    // whatever is behind it using undefined bytes.
    for code in common_formats().iter().copied().filter(|&c| is_yuv(c)) {
        assert!(!has_alpha(code), "{code:?} must not claim alpha");
        assert!(to_vulkan(code).is_some(), "{code:?} must map");
    }
    assert!(is_yuv(Fourcc::Nv12));
    assert!(!is_yuv(Fourcc::Argb8888));
}

#[test]
fn ycbcr_sampling_needs_more_than_a_sampleable_modifier() {
    // SAMPLED_IMAGE on a multi-planar format only says the planes can be read.
    // Without a chroma siting the device can reconstruct, they cannot be
    // assembled into colour at all.
    let mut support = ModifierSupport {
        modifier: 0,
        planes: 2,
        sampling: true,
        rendering: false,
        transfer_src: false,
        transfer_dst: false,
        cosited_chroma: false,
        midpoint_chroma: false,
        linear_chroma: false,
        disjoint: false,
    };
    assert!(!support.ycbcr_sampling());
    support.midpoint_chroma = true;
    assert!(support.ycbcr_sampling());
    support.sampling = false;
    assert!(!support.ycbcr_sampling());
}

fn gpu(formats: Vec<FormatModifiers>) -> PhysicalDevice {
    PhysicalDevice {
        name: "test".to_owned(),
        api_version: Version {
            variant: 0,
            major: 1,
            minor: 3,
            patch: 0,
        },
        extensions: Vec::new(),
        queue_families: Vec::new(),
        memory_types: Vec::new(),
        formats,
        render_node: None,
        primary_node: None,
        ycbcr: true,
    }
}

fn listed(modifier: u64, planes: u32, features: vk::FormatFeatureFlags) -> ModifierProperties {
    ModifierProperties {
        modifier,
        planes,
        features: features.as_raw(),
    }
}

#[test]
fn the_drivers_bits_are_read_one_by_one() {
    let nothing = ModifierSupport {
        modifier: 7,
        planes: 1,
        sampling: false,
        rendering: false,
        transfer_src: false,
        transfer_dst: false,
        cosited_chroma: false,
        midpoint_chroma: false,
        linear_chroma: false,
        disjoint: false,
    };
    let cases = [
        (vk::FormatFeatureFlags::empty(), nothing),
        (
            vk::FormatFeatureFlags::SAMPLED_IMAGE,
            ModifierSupport {
                sampling: true,
                ..nothing
            },
        ),
        (
            vk::FormatFeatureFlags::COLOR_ATTACHMENT,
            ModifierSupport {
                rendering: true,
                ..nothing
            },
        ),
        (
            vk::FormatFeatureFlags::TRANSFER_SRC,
            ModifierSupport {
                transfer_src: true,
                ..nothing
            },
        ),
        (
            vk::FormatFeatureFlags::TRANSFER_DST,
            ModifierSupport {
                transfer_dst: true,
                ..nothing
            },
        ),
        (
            vk::FormatFeatureFlags::COSITED_CHROMA_SAMPLES,
            ModifierSupport {
                cosited_chroma: true,
                ..nothing
            },
        ),
        (
            vk::FormatFeatureFlags::MIDPOINT_CHROMA_SAMPLES,
            ModifierSupport {
                midpoint_chroma: true,
                ..nothing
            },
        ),
        (
            vk::FormatFeatureFlags::SAMPLED_IMAGE_YCBCR_CONVERSION_LINEAR_FILTER,
            ModifierSupport {
                linear_chroma: true,
                ..nothing
            },
        ),
        (
            vk::FormatFeatureFlags::DISJOINT,
            ModifierSupport {
                disjoint: true,
                ..nothing
            },
        ),
        // A bit nothing here asks about.
        (vk::FormatFeatureFlags::BLIT_SRC, nothing),
    ];
    for (features, expected) in cases {
        let gpu = gpu(vec![FormatModifiers {
            format: VkFormat::B8G8R8A8Unorm,
            properties: vec![listed(7, 1, features)],
        }]);
        assert_eq!(modifiers(&gpu, Fourcc::Xrgb8888), vec![expected]);
    }
}

#[test]
fn a_format_the_device_does_not_list_has_no_modifiers() {
    let gpu = gpu(vec![FormatModifiers {
        format: VkFormat::B8G8R8A8Unorm,
        properties: vec![listed(0, 1, vk::FormatFeatureFlags::SAMPLED_IMAGE)],
    }]);
    assert_eq!(modifiers(&gpu, Fourcc::Abgr8888), Vec::new());
    assert_eq!(modifiers(&gpu, Fourcc::from_code(YUYV)), Vec::new());
}

#[test]
fn colour_is_held_to_one_plane_and_yuv_to_a_siting() {
    let sampled = vk::FormatFeatureFlags::SAMPLED_IMAGE;
    let rendered = vk::FormatFeatureFlags::COLOR_ATTACHMENT;
    let gpu = gpu(vec![
        FormatModifiers {
            format: VkFormat::B8G8R8A8Unorm,
            properties: vec![
                listed(1, 1, sampled | rendered),
                // A compressed layout with an auxiliary plane.
                listed(2, 2, sampled | rendered),
                listed(3, 1, rendered),
                listed(4, 1, sampled),
            ],
        },
        FormatModifiers {
            format: VkFormat::G8B8R82Plane420Unorm,
            properties: vec![
                listed(5, 2, sampled),
                listed(6, 2, sampled | vk::FormatFeatureFlags::COSITED_CHROMA_SAMPLES),
            ],
        },
    ]);
    let formats = [Fourcc::Nv12, Fourcc::Argb8888];
    assert_eq!(
        importable(&gpu, &formats),
        vec![
            Format {
                code: Fourcc::Nv12,
                modifier: 6
            },
            Format {
                code: Fourcc::Argb8888,
                modifier: 1
            },
            Format {
                code: Fourcc::Argb8888,
                modifier: 4
            },
        ]
    );
    assert_eq!(
        renderable(&gpu, &formats),
        vec![
            Format {
                code: Fourcc::Argb8888,
                modifier: 1
            },
            Format {
                code: Fourcc::Argb8888,
                modifier: 3
            },
        ]
    );
}

#[test]
fn every_format_reads_as_vulkan_names_it() {
    let formats = [
        (VkFormat::B8G8R8A8Unorm, vk::Format::B8G8R8A8_UNORM),
        (VkFormat::R8G8B8A8Unorm, vk::Format::R8G8B8A8_UNORM),
        (
            VkFormat::A2B10G10R10UnormPack32,
            vk::Format::A2B10G10R10_UNORM_PACK32,
        ),
        (
            VkFormat::A2R10G10B10UnormPack32,
            vk::Format::A2R10G10B10_UNORM_PACK32,
        ),
        (VkFormat::R16G16B16A16Sfloat, vk::Format::R16G16B16A16_SFLOAT),
        (VkFormat::R5G6B5UnormPack16, vk::Format::R5G6B5_UNORM_PACK16),
        (VkFormat::R8Unorm, vk::Format::R8_UNORM),
        (VkFormat::R8G8Unorm, vk::Format::R8G8_UNORM),
        (
            VkFormat::G8B8R82Plane420Unorm,
            vk::Format::G8_B8R8_2PLANE_420_UNORM,
        ),
        (
            VkFormat::G8B8R82Plane422Unorm,
            vk::Format::G8_B8R8_2PLANE_422_UNORM,
        ),
        (
            VkFormat::G8B8R83Plane420Unorm,
            vk::Format::G8_B8_R8_3PLANE_420_UNORM,
        ),
        (
            VkFormat::G8B8R83Plane422Unorm,
            vk::Format::G8_B8_R8_3PLANE_422_UNORM,
        ),
        (
            VkFormat::G8B8R83Plane444Unorm,
            vk::Format::G8_B8_R8_3PLANE_444_UNORM,
        ),
        (
            VkFormat::G10X6B10X6R10X62Plane420Unorm3Pack16,
            vk::Format::G10X6_B10X6R10X6_2PLANE_420_UNORM_3PACK16,
        ),
        (
            VkFormat::G16B16R162Plane420Unorm,
            vk::Format::G16_B16R16_2PLANE_420_UNORM,
        ),
    ];
    for (format, vulkan) in formats {
        assert_eq!(format.name(), format!("{vulkan:?}"));
    }
}

#[test]
fn fourcc_codes_are_four_characters() {
    let cases = [
        (Fourcc::Argb8888, "AR24"),
        (Fourcc::Xrgb8888, "XR24"),
        (Fourcc::Abgr8888, "AB24"),
        (Fourcc::Xbgr8888, "XB24"),
        (Fourcc::Abgr2101010, "AB30"),
        (Fourcc::Xbgr2101010, "XB30"),
        (Fourcc::Argb2101010, "AR30"),
        (Fourcc::Xrgb2101010, "XR30"),
        (Fourcc::Abgr16161616f, "AB4H"),
        (Fourcc::Xbgr16161616f, "XB4H"),
        (Fourcc::Rgb565, "RG16"),
        (Fourcc::R8, "R8  "),
        (Fourcc::Gr88, "GR88"),
        (Fourcc::Nv12, "NV12"),
        (Fourcc::Nv21, "NV21"),
        (Fourcc::Nv16, "NV16"),
        (Fourcc::Yuv420, "YU12"),
        (Fourcc::Yvu420, "YV12"),
        (Fourcc::Yuv422, "YU16"),
        (Fourcc::Yuv444, "YU24"),
        (Fourcc::P010, "P010"),
        (Fourcc::P016, "P016"),
    ];
    for (fourcc, name) in cases {
        let bytes = name.as_bytes();
        let code = u32::from_le_bytes([bytes[0], bytes[1], bytes[2], bytes[3]]);
        assert_eq!(fourcc.code(), code, "{name}");
        assert_eq!(Fourcc::from_code(code), fourcc, "{name}");
    }
    assert_eq!(Fourcc::from_code(YUYV), Fourcc::Other(YUYV));
    let mut text = String::new();
    Fourcc::Argb8888.append_to(&mut text);
    Fourcc::R8.append_to(&mut text);
    assert_eq!(text, "DrmFourcc(AR24)DrmFourcc(R8  )");
}
