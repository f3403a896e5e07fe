use ash::vk;

use viewport_vulkan::device::{
    required_extensions, Device, FormatModifiers, PhysicalDevice, Version,
};
use viewport_vulkan::error::Error;
use viewport_vulkan::format::{
    modifiers, Fourcc, ModifierProperties, ModifierSupport, VkFormat,
};
use viewport_vulkan::geometry::Size;
use viewport_vulkan::image::{distinct_allocations, Dmabuf, Identity, Image, Plane, Purpose};
use viewport_vulkan::import::{ycbcr_key, Import};
use viewport_vulkan::staging::Staging;
use viewport_vulkan::vulkan::{
    Access, Call, ChromaLocation, Filter, ImageLayout, Object, PlaneLayout, Progress, Reply,
    Tiling, Usage, YcbcrModel, YcbcrRange, QUEUE_FAMILY_FOREIGN_EXT, QUEUE_FAMILY_IGNORED,
};

const LINEAR: u64 = 0;
const TILED: u64 = 0x0100_0000_0000_0002;

fn properties(modifier: u64, planes: u32, features: vk::FormatFeatureFlags) -> ModifierProperties {
    ModifierProperties {
        modifier,
        planes,
        features: features.as_raw(),
    }
}

fn gpu() -> PhysicalDevice {
    let colour = vk::FormatFeatureFlags::SAMPLED_IMAGE | vk::FormatFeatureFlags::COLOR_ATTACHMENT;
    let transfer = vk::FormatFeatureFlags::TRANSFER_SRC | vk::FormatFeatureFlags::TRANSFER_DST;
    let video = colour | transfer | vk::FormatFeatureFlags::COSITED_CHROMA_SAMPLES;
    PhysicalDevice {
        name: "navi".to_owned(),
        api_version: Version {
            variant: 0,
            major: 1,
            minor: 3,
            patch: 0,
        },
        extensions: required_extensions(),
        queue_families: vec![0, vk::QueueFlags::GRAPHICS.as_raw()],
        memory_types: vec![
            vk::MemoryPropertyFlags::HOST_VISIBLE.as_raw(),
            vk::MemoryPropertyFlags::DEVICE_LOCAL.as_raw(),
        ],
        formats: vec![
            FormatModifiers {
                format: VkFormat::B8G8R8A8Unorm,
                properties: vec![
                    properties(LINEAR, 1, colour | transfer),
                    properties(TILED, 1, colour | vk::FormatFeatureFlags::TRANSFER_SRC),
                    properties(3, 1, vk::FormatFeatureFlags::empty()),
                ],
            },
            FormatModifiers {
                format: VkFormat::G8B8R82Plane420Unorm,
                properties: vec![
                    properties(LINEAR, 2, video),
                    properties(TILED, 2, colour),
                    properties(4, 2, video | vk::FormatFeatureFlags::DISJOINT),
                ],
            },
            FormatModifiers {
                format: VkFormat::R8Unorm,
                properties: vec![properties(
                    LINEAR,
                    5,
                    colour | vk::FormatFeatureFlags::DISJOINT,
                )],
            },
        ],
        render_node: None,
        primary_node: None,
        ycbcr: true,
    }
}

fn device() -> Device {
    Device::open(gpu()).expect("device")
}

fn plane(fd: i32, offset: u32, stride: u32, ino: u64) -> Plane {
    Plane {
        fd,
        offset,
        stride,
        identity: Ok(Identity { dev: 12, ino }),
    }
}

fn dmabuf(code: Fourcc, w: i32, h: i32) -> Dmabuf {
    Dmabuf {
        code,
        modifier: LINEAR,
        size: Size { w, h },
        planes: vec![plane(10, 0, w as u32 * 4, 1)],
    }
}

/// Linear NV12 over one allocation: two descriptors onto one file.
fn linear_nv12(w: i32, h: i32) -> Dmabuf {
    Dmabuf {
        code: Fourcc::Nv12,
        modifier: LINEAR,
        size: Size { w, h },
        planes: vec![
            plane(10, 0, w as u32, 1),
            plane(11, w as u32 * h as u32, w as u32, 1),
        ],
    }
}

/// An answer for every request, which makes handles from 100 up.
fn answer(call: &Call, next: u64) -> Reply {
    match call {
        Call::CreateImage(_)
        | Call::Conversion(_)
        | Call::AllocateMemory { .. }
        | Call::ImportMemory { .. }
        | Call::CreateView { .. }
        | Call::CreateBuffer { .. }
        | Call::MapMemory { .. } => Reply::Handle(next),
        Call::ImageRequirements { .. } | Call::BufferRequirements { .. } => Reply::Requirements {
            size: 4096,
            memory_types: 0b11,
        },
        Call::FdMemoryTypes { .. } => Reply::MemoryTypes(0b10),
        Call::DuplicateFd { fd } => Reply::Fd(fd + 100),
        _ => Reply::Done,
    }
}

/// Carry an import out, up to a request that fails.
fn carry_out(
    device: &Device,
    import: Import,
    mut fails: impl FnMut(&Call) -> Option<Reply>,
) -> (Vec<Call>, Result<Image, (Vec<Object>, Error)>) {
    let mut import = import;
    let mut calls = Vec::new();
    loop {
        let call = import.call();
        let reply = fails(&call).unwrap_or_else(|| answer(&call, 100 + calls.len() as u64));
        calls.push(call);
        match import.reply(device, reply) {
            Progress::Next(next) => import = next,
            Progress::Done(image) => return (calls, Ok(image)),
            Progress::Failed { release, error } => return (calls, Err((release, error))),
        }
    }
}

fn import(device: &Device, buffer: &Dmabuf, purpose: Purpose) -> Result<Image, Error> {
    let import = Image::import(device, buffer, purpose)?;
    match carry_out(device, import, |_| None).1 {
        Ok(image) => Ok(image),
        Err((_, error)) => Err(error),
    }
}

#[test]
fn a_gbm_buffer_can_be_imported_as_a_sampleable_image() {
    let device = device();
    // The modifiers the device actually advertises, rather than a guess: an
    // implicit-modifier buffer cannot be imported explicitly.
    let supported: Vec<u64> = modifiers(device.physical(), Fourcc::Argb8888)
        .into_iter()
        .filter(|s| s.sampling && s.planes == 1)
        .map(|s| s.modifier)
        .collect();
    assert!(
        !supported.is_empty(),
        "{} advertises no sampleable ARGB8888 modifier",
        device.name()
    );
    for modifier in supported {
        let mut buffer = dmabuf(Fourcc::Argb8888, 64, 64);
        buffer.modifier = modifier;
        let image = import(&device, &buffer, Purpose::Sample).expect("import");
        assert_eq!(image.width(), 64);
        assert_eq!(image.height(), 64);
        assert_eq!(image.format(), VkFormat::B8G8R8A8Unorm);
        assert!(image.has_alpha());
        assert_ne!(image.view(), 0);
    }
}

#[test]
fn a_render_target_can_be_imported() {
    let device = device();
    let image = import(&device, &dmabuf(Fourcc::Xrgb8888, 128, 64), Purpose::Render)
        .expect("import");
    assert_eq!((image.width(), image.height()), (128, 64));
    // XRGB and ARGB are the same Vulkan format; only the alpha flag differs.
    assert_eq!(image.format(), VkFormat::B8G8R8A8Unorm);
    assert!(!image.has_alpha());
    assert_eq!(image.fourcc(), Fourcc::Xrgb8888);
    assert_eq!(image.purpose(), Purpose::Render);
}

#[test]
fn the_first_acquire_takes_the_image_from_the_foreign_queue() {
    let device = device();
    let mut image = import(&device, &dmabuf(Fourcc::Argb8888, 32, 32), Purpose::Sample)
        .expect("import");

    let first = image.acquire_barrier(ImageLayout::ShaderReadOnlyOptimal);
    assert_eq!(
        first.src_queue_family, QUEUE_FAMILY_FOREIGN_EXT,
        "the first acquire must claim the image from outside"
    );
    assert_eq!(first.dst_access, Access::ShaderRead);
    assert_eq!(first.old_layout, ImageLayout::General);

    // Once claimed it is ours, and claiming it again would be a needless
    // ownership transfer the driver has to honour.
    let second = image.acquire_barrier(ImageLayout::ShaderReadOnlyOptimal);
    assert_eq!(second.src_queue_family, device.queue_family());
}

#[test]
fn a_released_image_is_foreign_again() {
    let device = device();
    let mut image = import(&device, &dmabuf(Fourcc::Argb8888, 32, 32), Purpose::Render)
        .expect("import");

    // Frame one, whole: claim it, draw, hand it back.
    image.acquire_barrier(ImageLayout::ColorAttachmentOptimal);
    let release = image.release_barrier(ImageLayout::ColorAttachmentOptimal);
    assert_eq!(release.dst_queue_family, QUEUE_FAMILY_FOREIGN_EXT);

    // Frame two starts where frame one left it.
    let again = image.acquire_barrier(ImageLayout::ColorAttachmentOptimal);
    assert_eq!(
        again.src_queue_family, QUEUE_FAMILY_FOREIGN_EXT,
        "a target released to the foreign queue has to be claimed back"
    );
    assert_eq!(again.dst_access, Access::ColorAttachmentWrite);
}

#[test]
fn a_transition_moves_no_ownership() {
    let device = device();
    let mut image = import(&device, &dmabuf(Fourcc::Argb8888, 32, 32), Purpose::Sample)
        .expect("import");
    let barrier = image.transition(
        ImageLayout::General,
        ImageLayout::TransferSrcOptimal,
        Access::Empty,
        Access::TransferRead,
    );
    assert_eq!(barrier.src_queue_family, QUEUE_FAMILY_IGNORED);
    assert_eq!(barrier.dst_queue_family, QUEUE_FAMILY_IGNORED);
    assert_eq!(barrier.image, image.handle());
    // And an acquire can start from somewhere else.
    let barrier = image.acquire_barrier_from(
        ImageLayout::Undefined,
        ImageLayout::ShaderReadOnlyOptimal,
    );
    assert_eq!(barrier.old_layout, ImageLayout::Undefined);
    assert_eq!(barrier.dst_queue_family, device.queue_family());
}

#[test]
fn an_nv12_buffer_imports_as_one_image_sampled_through_a_conversion() {
    // The whole point of the multi-planar path: a frame shaped like what a
    // hardware decoder produces, imported without a CPU convert.
    let device = device();
    let buffer = linear_nv12(256, 64);
    assert_eq!(buffer.planes.len(), 2, "NV12 is two planes");

    let image = import(&device, &buffer, Purpose::Sample).expect("import");
    assert_eq!((image.width(), image.height()), (256, 64));
    assert_eq!(image.format(), VkFormat::G8B8R82Plane420Unorm);
    // No alpha, so it composites opaque rather than blending against undefined
    // bytes.
    assert!(!image.has_alpha());
    // The conversion is what makes it sample as colour.
    let key = image
        .ycbcr()
        .expect("an NV12 image must carry a conversion");
    assert_eq!(key.format, VkFormat::G8B8R82Plane420Unorm);
    assert!(!key.swapped_chroma);
    assert_eq!(key.range, YcbcrRange::ItuNarrow);
    assert_ne!(image.view(), 0);
}

#[test]
fn standard_definition_gets_the_matrix_it_was_encoded_with() {
    // 601 below PAL's active height, 709 above it. Using one matrix for both is
    // the difference between correct colour and a green cast on everything old,
    // and neither the buffer nor the protocol says which.
    let device = device();
    let model = |height| {
        import(&device, &linear_nv12(256, height), Purpose::Sample)
            .expect("import")
            .ycbcr()
            .expect("a conversion")
            .model
    };
    assert_eq!(model(480), YcbcrModel::Ycbcr601);
    assert_eq!(model(720), YcbcrModel::Ycbcr709);
    // The edge itself is still standard definition.
    assert_eq!(model(576), YcbcrModel::Ycbcr601);
    assert_eq!(model(577), YcbcrModel::Ycbcr709);
}

#[test]
fn chroma_is_sited_and_filtered_as_the_device_can() {
    let mut support = ModifierSupport {
        modifier: LINEAR,
        planes: 2,
        sampling: true,
        rendering: false,
        transfer_src: false,
        transfer_dst: false,
        cosited_chroma: true,
        midpoint_chroma: true,
        linear_chroma: true,
        disjoint: false,
    };
    let format = VkFormat::G8B8R82Plane420Unorm;
    let key = ycbcr_key(Fourcc::Nv21, format, 1080, &support);
    assert_eq!(key.x_offset, ChromaLocation::CositedEven);
    assert_eq!(key.y_offset, ChromaLocation::Midpoint);
    assert_eq!(key.filter, Filter::Linear);
    assert!(key.swapped_chroma);
    // Without vertical subsampling there is nothing to choose between.
    let key = ycbcr_key(Fourcc::Nv16, VkFormat::G8B8R82Plane422Unorm, 1080, &support);
    assert_eq!(key.y_offset, ChromaLocation::CositedEven);
    assert!(!key.swapped_chroma);

    support.cosited_chroma = false;
    support.linear_chroma = false;
    let key = ycbcr_key(Fourcc::Nv12, format, 1080, &support);
    assert_eq!(key.x_offset, ChromaLocation::Midpoint);
    assert_eq!(key.filter, Filter::Nearest);
}

#[test]
fn a_video_frame_is_never_offered_as_a_render_target() {
    // Nothing composites into YUV, and an image the rest of the renderer treats
    // as an RGB colour attachment is one it will happily clear and blend in a
    // colour space that does not exist.
    let device = device();
    let error = Image::import(&device, &linear_nv12(256, 64), Purpose::Render)
        .expect_err("YUV must not be a render target");
    let message = error.message();
    assert!(
        message.contains("render target") || message.contains("cannot be rendered into"),
        "unexpected error: {message}"
    );
    assert_eq!(message, "DrmFourcc(NV12) cannot be a render target");
}

#[test]
fn an_imported_video_frame_cannot_be_copied_out_of() {
    // A copy on a multi-planar image names one plane aspect at a time, and
    // every transfer in this renderer covers the whole image. Claiming the
    // usage would make a screenshot of a video succeed and return a third of
    // the picture.
    let device = device();
    let image = import(&device, &linear_nv12(256, 64), Purpose::Sample).expect("import");
    assert!(!image.is_readable());
    assert!(!image.is_writable());
    // A colour buffer takes what its modifier offers, and no more.
    let mut buffer = dmabuf(Fourcc::Argb8888, 8, 8);
    let image = import(&device, &buffer, Purpose::Sample).expect("import");
    assert!(image.is_readable() && image.is_writable());
    buffer.modifier = TILED;
    let image = import(&device, &buffer, Purpose::Sample).expect("import");
    assert!(image.is_readable() && !image.is_writable());
}

#[test]
fn planes_in_one_allocation_are_not_mistaken_for_a_disjoint_image() {
    // The two planes are two fds onto the same buffer, which are two different
    // numbers. Comparing the descriptors would call this disjoint and bind each
    // plane its own allocation, on a device that mostly does not support
    // disjoint at all, so the import would simply fail.
    let buffer = linear_nv12(256, 64);
    let fds: Vec<i32> = buffer.planes.iter().map(|p| p.fd).collect();
    assert_eq!(fds.len(), 2);
    assert_ne!(fds[0], fds[1], "the planes must be separate descriptors");
    assert_eq!(
        distinct_allocations(&buffer).expect("stat"),
        vec![0, 0],
        "both planes live in one allocation"
    );
}

#[test]
fn planes_are_told_apart_by_the_file_behind_them() {
    let mut buffer = linear_nv12(256, 64);
    buffer.planes = vec![
        plane(1, 0, 4, 7),
        plane(2, 0, 4, 8),
        plane(3, 0, 4, 7),
        plane(4, 0, 4, 9),
    ];
    assert_eq!(distinct_allocations(&buffer).expect("stat"), vec![0, 1, 0, 2]);
    // The same inode on another device is another file.
    buffer.planes[2].identity = Ok(Identity { dev: 13, ino: 7 });
    assert_eq!(distinct_allocations(&buffer).expect("stat"), vec![0, 1, 2, 3]);

    buffer.planes[1].identity = Err("Bad file descriptor (os error 9)".to_owned());
    assert_eq!(
        distinct_allocations(&buffer).expect_err("stat").message(),
        "fstat on a dmabuf plane: Bad file descriptor (os error 9)"
    );
    buffer.planes.clear();
    assert_eq!(
        distinct_allocations(&buffer).expect_err("planes").message(),
        "dmabuf has no planes"
    );
}

#[test]
fn an_unadvertised_modifier_is_refused_before_vulkan_sees_it() {
    let device = device();
    // A real buffer, relabelled with a modifier no driver implements. Importing
    // it would create an image whose memory layout does not match its contents,
    // which produces garbage rather than an error, so this has to be caught
    // before vkCreateImage.
    let mut mislabelled = dmabuf(Fourcc::Argb8888, 32, 32);
    mislabelled.modifier = 0x00ff_ffff_ffff_fffe;
    let error = Image::import(&device, &mislabelled, Purpose::Sample)
        .expect_err("an unadvertised modifier must not be imported");
    assert!(
        error.message().contains("does not support"),
        "unexpected error: {}",
        error.message()
    );
    assert_eq!(
        error.message(),
        "navi does not support DrmFourcc(AR24) with modifier 0xfffffffffffffe"
    );
}

#[test]
fn an_import_says_why_it_cannot_be_done() {
    let device = device();
    let refused = |buffer: &Dmabuf, purpose| {
        Image::import(&device, buffer, purpose)
            .expect_err("refused")
            .message()
    };
    assert_eq!(
        refused(&dmabuf(Fourcc::from_code(0x5659_5559), 8, 8), Purpose::Sample),
        "no Vulkan format for DrmFourcc(YUYV)"
    );
    let mut buffer = dmabuf(Fourcc::Argb8888, 8, 8);
    buffer.modifier = 3;
    assert_eq!(
        refused(&buffer, Purpose::Sample),
        "DrmFourcc(AR24) modifier 0x3 cannot be sampled"
    );
    assert_eq!(
        refused(&buffer, Purpose::Render),
        "DrmFourcc(AR24) modifier 0x3 cannot be rendered into"
    );
    let mut video = linear_nv12(8, 8);
    video.modifier = TILED;
    assert_eq!(
        refused(&video, Purpose::Sample),
        "DrmFourcc(NV12) modifier 0x100000000000002 cannot be sampled through a YCbCr conversion"
    );
    video.modifier = LINEAR;
    video.planes.pop();
    assert_eq!(
        refused(&video, Purpose::Sample),
        "buffer has 1 plane(s), modifier 0x0 describes 2"
    );
    let mut split = linear_nv12(8, 8);
    split.planes[1].identity = Ok(Identity { dev: 12, ino: 2 });
    assert_eq!(
        refused(&split, Purpose::Sample),
        "DrmFourcc(NV12) modifier 0x0 spans 2 separate allocations, \
         which this device cannot bind disjointly"
    );
    let mut blind = gpu();
    blind.ycbcr = false;
    let blind = Device::open(blind).expect("device");
    assert_eq!(
        Image::import(&blind, &linear_nv12(8, 8), Purpose::Sample)
            .expect_err("no conversion")
            .message(),
        "navi cannot sample multi-planar YUV"
    );
}

#[test]
fn an_import_asks_for_the_layout_the_buffer_has() {
    let device = device();
    let buffer = linear_nv12(256, 64);
    let start = Image::import(&device, &buffer, Purpose::Sample).expect("import");
    let (calls, image) = carry_out(&device, start, |_| None);
    let image = image.expect("image");
    match &calls[0] {
        Call::CreateImage(info) => {
            assert_eq!(info.format, VkFormat::G8B8R82Plane420Unorm);
            assert_eq!((info.width, info.height), (256, 64));
            assert_eq!(info.tiling, Tiling::Modifier(LINEAR));
            assert_eq!(
                info.usage,
                Usage {
                    sampled: true,
                    color_attachment: false,
                    transfer_src: false,
                    transfer_dst: false
                }
            );
            assert_eq!(
                info.planes,
                vec![
                    PlaneLayout {
                        offset: 0,
                        row_pitch: 256
                    },
                    PlaneLayout {
                        offset: 256 * 64,
                        row_pitch: 256
                    },
                ]
            );
            assert!(!info.disjoint);
        }
        other => panic!("{other:?}"),
    }
    let key = image.ycbcr().expect("a conversion");
    assert!(matches!(&calls[1], Call::Conversion(k) if *k == key));
    assert!(matches!(
        calls[2],
        Call::ImageRequirements {
            image: 100,
            plane: None
        }
    ));
    assert!(matches!(calls[3], Call::FdMemoryTypes { fd: 10 }));
    assert!(matches!(calls[4], Call::DuplicateFd { fd: 10 }));
    assert!(matches!(
        calls[5],
        Call::ImportMemory {
            size: 4096,
            memory_type: 1,
            image: 100,
            fd: 110
        }
    ));
    assert!(matches!(
        calls[6],
        Call::BindImage {
            image: 100,
            memory: 105
        }
    ));
    assert!(matches!(calls[7], Call::Conversion(_)));
    assert!(matches!(
        calls[8],
        Call::CreateView {
            image: 100,
            conversion: Some(107),
            ..
        }
    ));
    assert_eq!(calls.len(), 9);
    assert_eq!(
        image.release(),
        vec![
            Object::ImageView(108),
            Object::Image(100),
            Object::Memory(105)
        ]
    );
}

/// NV12 in two files, with a modifier that can bind them.
fn disjoint_nv12() -> Dmabuf {
    let mut buffer = linear_nv12(8, 8);
    buffer.modifier = 4;
    buffer.planes[1].identity = Ok(Identity { dev: 12, ino: 2 });
    buffer
}

#[test]
fn a_disjoint_image_is_bound_plane_by_plane() {
    let device = device();
    let start = Image::import(&device, &disjoint_nv12(), Purpose::Sample).expect("import");
    let (calls, image) = carry_out(&device, start, |_| None);
    let image = image.expect("image");
    assert_eq!(image.memory.len(), 2);
    assert!(matches!(&calls[0], Call::CreateImage(info) if info.disjoint));
    let planes: Vec<Option<u32>> = calls
        .iter()
        .filter_map(|c| match c {
            Call::ImageRequirements { plane, .. } => Some(*plane),
            _ => None,
        })
        .collect();
    assert_eq!(planes, vec![Some(0), Some(1)]);
    let fds: Vec<i32> = calls
        .iter()
        .filter_map(|c| match c {
            Call::DuplicateFd { fd } => Some(*fd),
            _ => None,
        })
        .collect();
    assert_eq!(fds, vec![10, 11]);
    assert!(calls
        .iter()
        .any(|c| matches!(c, Call::BindPlanes { memory, .. } if *memory == image.memory)));
}

#[test]
fn more_planes_than_vulkan_has_names_for_are_refused() {
    let device = device();
    let mut buffer = dmabuf(Fourcc::R8, 8, 8);
    buffer.planes = (0..5).map(|i| plane(10 + i, 0, 8, i as u64)).collect();
    let start = Image::import(&device, &buffer, Purpose::Sample).expect("import");
    let (_, result) = carry_out(&device, start, |_| None);
    let (release, error) = result.expect_err("five planes");
    assert_eq!(
        error.message(),
        "a dmabuf with 5 planes is more than Vulkan describes"
    );
    assert_eq!(release, vec![Object::Image(100)]);
}

#[test]
fn an_import_that_fails_leaves_nothing_behind() {
    let device = device();
    let code = vk::Result::ERROR_OUT_OF_DEVICE_MEMORY.as_raw();
    let reason = vk::Result::ERROR_OUT_OF_DEVICE_MEMORY.to_string();
    // What fails, and what is said and released then.
    let cases: Vec<(fn(&Call) -> bool, Reply, String, Vec<Object>)> = vec![
        (
            |c| matches!(c, Call::CreateImage(_)),
            Reply::Failed(code),
            format!("vkCreateImage: {reason}"),
            vec![],
        ),
        (
            |c| matches!(c, Call::Conversion(_)),
            Reply::Refused("vkCreateSamplerYcbcrConversion: no".to_owned()),
            "vkCreateSamplerYcbcrConversion: no".to_owned(),
            vec![Object::Image(100)],
        ),
        (
            |c| matches!(c, Call::FdMemoryTypes { .. }),
            Reply::Failed(code),
            format!("vkGetMemoryFdPropertiesKHR: {reason}"),
            vec![Object::Image(100)],
        ),
        (
            |c| matches!(c, Call::FdMemoryTypes { .. }),
            Reply::MemoryTypes(0),
            "no memory type can back this dmabuf".to_owned(),
            vec![Object::Image(100)],
        ),
        (
            |c| matches!(c, Call::DuplicateFd { .. }),
            Reply::Refused("Too many open files (os error 24)".to_owned()),
            "dup dmabuf fd: Too many open files (os error 24)".to_owned(),
            vec![Object::Image(100)],
        ),
        (
            |c| matches!(c, Call::ImportMemory { .. }),
            Reply::Failed(code),
            format!("vkAllocateMemory: {reason}"),
            vec![Object::Fd(110), Object::Image(100)],
        ),
        (
            |c| matches!(c, Call::BindPlanes { .. }),
            Reply::Failed(code),
            format!("vkBindImageMemory2: {reason}"),
            vec![
                Object::Memory(105),
                Object::Memory(109),
                Object::Image(100),
            ],
        ),
        (
            |c| matches!(c, Call::CreateView { .. }),
            Reply::Failed(code),
            format!("vkCreateImageView: {reason}"),
            vec![
                Object::Memory(105),
                Object::Memory(109),
                Object::Image(100),
            ],
        ),
    ];
    for (fails, reply, message, expected) in cases {
        let mut reply = Some(reply);
        let start = Image::import(&device, &disjoint_nv12(), Purpose::Sample).expect("import");
        let (_, result) = carry_out(&device, start, |c| if fails(c) { reply.take() } else { None });
        let (release, error) = result.expect_err("refused");
        assert_eq!(error.message(), message);
        assert_eq!(release, expected, "{message}");
    }

    let start = Image::import(&device, &dmabuf(Fourcc::Argb8888, 8, 8), Purpose::Sample)
        .expect("import");
    let (_, result) = carry_out(&device, start, |c| {
        matches!(c, Call::BindImage { .. }).then_some(Reply::Failed(code))
    });
    let (_, error) = result.expect_err("refused");
    assert_eq!(error.message(), format!("vkBindImageMemory: {reason}"));
}

#[test]
fn an_allocated_image_is_readable_and_writable() {
    let device = device();
    let mut allocation = Image::allocate(&device, 8, 4, Fourcc::Xrgb8888).expect("allocation");
    let mut next = 99;
    let image = loop {
        let call = allocation.call();
        next += 1;
        match allocation.reply(&device, answer(&call, next)) {
            Progress::Next(n) => allocation = n,
            Progress::Done(image) => break image,
            Progress::Failed { error, .. } => panic!("{}", error.message()),
        }
    };
    assert_eq!((image.width(), image.height()), (8, 4));
    assert_eq!(image.format(), VkFormat::B8G8R8A8Unorm);
    assert!(!image.has_alpha());
    assert!(image.is_readable() && image.is_writable());
    assert_eq!(image.ycbcr(), None);
    assert!(!image.foreign);

    let error = Image::allocate(&device, 8, 4, Fourcc::Other(0)).expect_err("no format");
    assert!(error.message().starts_with("no Vulkan format for "));
}

#[test]
fn an_allocation_needs_memory_on_the_device() {
    let device = device();
    let allocation = Image::allocate(&device, 8, 4, Fourcc::Argb8888).expect("allocation");
    let allocation = match allocation.reply(&device, Reply::Handle(100)) {
        Progress::Next(next) => next,
        other => panic!("{other:?}"),
    };
    // Only memory the host sees would do.
    match allocation.reply(
        &device,
        Reply::Requirements {
            size: 128,
            memory_types: 0b01,
        },
    ) {
        Progress::Failed { release, error } => {
            assert_eq!(error.message(), "no device-local memory type");
            assert_eq!(release, vec![Object::Image(100)]);
        }
        other => panic!("{other:?}"),
    }
}

#[test]
fn a_staging_write_stays_inside_its_buffer() {
    let staging = Staging {
        buffer: 1,
        memory: 2,
        mapped: 3,
        size: 16,
    };
    assert!(staging.write(0, &[0; 16]).is_ok());
    assert!(staging.write(12, &[0; 4]).is_ok());
    assert!(staging.write(16, &[]).is_ok());
    assert_eq!(
        staging.write(12, &[0; 5]).expect_err("over the end").message(),
        "staging write of 5 bytes at 12 exceeds the 16 byte buffer"
    );
    assert_eq!(
        staging
            .write(usize::MAX, &[0; 1])
            .expect_err("past the end of everything")
            .message(),
        "staging write overflows"
    );
    assert_eq!(
        staging.release(),
        vec![Object::Mapping(2), Object::Buffer(1), Object::Memory(2)]
    );
    assert_eq!((staging.handle(), staging.size()), (1, 16));
    assert_eq!(
        Staging::new(0).expect_err("nothing").message(),
        "a zero-sized staging buffer"
    );
}

#[test]
fn a_staging_buffer_that_cannot_be_made_is_given_back() {
    let device = device();
    // No memory type here is both visible and coherent.
    let setup = Staging::new(64).expect("setup");
    assert!(matches!(setup.call(), Call::CreateBuffer { size: 64 }));
    let setup = match setup.reply(&device, Reply::Handle(5)) {
        Progress::Next(next) => next,
        other => panic!("{other:?}"),
    };
    match setup.reply(
        &device,
        Reply::Requirements {
            size: 64,
            memory_types: 0b11,
        },
    ) {
        Progress::Failed { release, error } => {
            assert_eq!(error.message(), "no host-visible coherent memory type");
            assert_eq!(release, vec![Object::Buffer(5)]);
        }
        other => panic!("{other:?}"),
    }
}
