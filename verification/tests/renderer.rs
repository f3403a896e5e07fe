//! The renderer from end to end, on a GPU made of arrays.
//!
//! The driver here answers every request and carries out every command on
//! memory it owns, so what a frame records can be looked at as pixels. It also
//! checks what a real driver would not say anything about: that an image is in
//! the layout a command names, that nothing is drawn outside rendering, and
//! that everything that is made is given back once.

use std::cell::RefCell;
use std::collections::HashMap;
use std::rc::Rc;
use std::sync::Arc;

use ash::vk;

use viewport_vulkan::color::{Description, Quotients, TransferFunction};
use viewport_vulkan::command::{CommandProgress, CommandStage, Outcome};
use viewport_vulkan::device::{
    required_extensions, Device, DrmNode, FormatModifiers, NodeType, PhysicalDevice, Version,
};
use viewport_vulkan::error::Error;
use viewport_vulkan::format::{modifiers, Format, Fourcc, ModifierProperties, VkFormat};
use viewport_vulkan::geometry::{Point, Rectangle, Size, Transform};
use viewport_vulkan::image::{Dmabuf, Identity, Image, Plane, Purpose};
use viewport_vulkan::pipeline::{
    Constants, Kind, Matrix, PipelineInfo, Pipelines, Push, ShaderMap, Shaders, ONE, ZERO,
};
use viewport_vulkan::render::Frame;
use viewport_vulkan::renderer::{
    acquire_now, blit, can_read_texture, completion, copy_framebuffer, copy_texture,
    import_memory, interrupted, mem_formats, update_damage, update_memory, wait_for, Completion,
    Conversion, Download, Upload, VulkanFrame, VulkanMapping, VulkanRenderer, VulkanTexture, WaitPlan,
};
use viewport_vulkan::staging::Staging;
use viewport_vulkan::transform::Source;
use viewport_vulkan::vulkan::{
    Barrier, Call, Command, Filter, ImageLayout, LoadOp, Object, Progress, Reply, Tiling, Vec4,
    QUEUE_FAMILY_FOREIGN_EXT, QUEUE_FAMILY_IGNORED,
};
use viewport_vulkan::wayland::{ShmBuffer, ShmPixels, ShmPlan};
use viewport_vulkan::Commands;

/// The linear layout.
const LINEAR: u64 = 0;

/// The queue family of the one device there is.
const FAMILY: u32 = 0;

#[derive(Clone)]
struct SimImage {
    width: u32,
    height: u32,
    offset: usize,
    pitch: usize,
    file: Option<usize>,
    layout: ImageLayout,
    foreign: bool,
}

#[derive(Default)]
struct Gpu {
    next: u64,
    files: Vec<Vec<u8>>,
    fds: HashMap<i32, usize>,
    next_fd: i32,
    memory: HashMap<u64, usize>,
    images: HashMap<u64, SimImage>,
    views: HashMap<u64, u64>,
    buffers: HashMap<u64, (u64, Option<usize>)>,
    pipelines: HashMap<u64, Kind>,
    /// Everything made and not given back.
    live: Vec<Object>,
    /// The semaphores each submission waited on.
    submissions: Vec<Vec<u64>>,
}

impl Gpu {
    fn handle(&mut self) -> u64 {
        self.next += 1;
        self.next
    }

    fn made(&mut self, object: fn(u64) -> Object) -> Reply {
        let handle = self.handle();
        self.live.push(object(handle));
        Reply::Handle(handle)
    }

    fn file(&mut self, bytes: usize) -> usize {
        self.files.push(vec![0; bytes]);
        self.files.len() - 1
    }

    fn descriptor(&mut self, file: usize) -> i32 {
        self.next_fd += 1;
        self.fds.insert(self.next_fd, file);
        self.next_fd
    }

    fn release(&mut self, objects: &[Object]) {
        for object in objects {
            let at = self
                .live
                .iter()
                .position(|o| o == object)
                .unwrap_or_else(|| panic!("{object:?} was not there to give back"));
            self.live.remove(at);
        }
    }

    fn call(&mut self, call: Call) -> Reply {
        match call {
            Call::CreateImage(info) => {
                let handle = self.handle();
                self.live.push(Object::Image(handle));
                let (offset, pitch) = match info.tiling {
                    Tiling::Modifier(_) => (
                        info.planes[0].offset as usize,
                        info.planes[0].row_pitch as usize,
                    ),
                    Tiling::Optimal => (0, info.width as usize * 4),
                };
                self.images.insert(
                    handle,
                    SimImage {
                        width: info.width,
                        height: info.height,
                        offset,
                        pitch,
                        file: None,
                        layout: match info.tiling {
                            Tiling::Modifier(_) => ImageLayout::General,
                            Tiling::Optimal => ImageLayout::Undefined,
                        },
                        foreign: matches!(info.tiling, Tiling::Modifier(_)),
                    },
                );
                Reply::Handle(handle)
            }
            Call::ImageRequirements { image, .. } => {
                let image = &self.images[&image];
                Reply::Requirements {
                    size: (image.pitch * image.height as usize) as u64,
                    memory_types: 0b11,
                }
            }
            Call::BufferRequirements { buffer } => Reply::Requirements {
                size: self.buffers[&buffer].0,
                memory_types: 0b11,
            },
            Call::FdMemoryTypes { .. } => Reply::MemoryTypes(0b11),
            Call::DuplicateFd { fd } => {
                let file = self.fds[&fd];
                let fd = self.descriptor(file);
                self.live.push(Object::Fd(fd));
                Reply::Fd(fd)
            }
            Call::AllocateMemory { size, .. } => {
                let file = self.file(size as usize);
                let handle = self.handle();
                self.memory.insert(handle, file);
                self.live.push(Object::Memory(handle));
                Reply::Handle(handle)
            }
            Call::ImportMemory { fd, .. } => {
                // The descriptor belongs to the driver from here on.
                self.release(&[Object::Fd(fd)]);
                let file = self.fds.remove(&fd).expect("a descriptor");
                let handle = self.handle();
                self.memory.insert(handle, file);
                self.live.push(Object::Memory(handle));
                Reply::Handle(handle)
            }
            Call::BindImage { image, memory } => {
                self.images.get_mut(&image).expect("an image").file = Some(self.memory[&memory]);
                Reply::Done
            }
            Call::BindBuffer { buffer, memory } => {
                self.buffers.get_mut(&buffer).expect("a buffer").1 = Some(self.memory[&memory]);
                Reply::Done
            }
            Call::BindPlanes { .. } => Reply::Done,
            Call::Conversion(_) => Reply::Handle(self.handle()),
            Call::CreateView { image, .. } => {
                let handle = self.handle();
                self.views.insert(handle, image);
                self.live.push(Object::ImageView(handle));
                Reply::Handle(handle)
            }
            Call::CreateBuffer { size } => {
                let handle = self.handle();
                self.buffers.insert(handle, (size, None));
                self.live.push(Object::Buffer(handle));
                Reply::Handle(handle)
            }
            Call::MapMemory { memory, .. } => {
                self.live.push(Object::Mapping(memory));
                Reply::Handle(self.memory[&memory] as u64)
            }
            Call::CreateCommandPool { .. } => self.made(Object::CommandPool),
            Call::AllocateCommandBuffer { .. } => Reply::Handle(self.handle()),
            Call::CreateFence => self.made(Object::Fence),
            Call::CreateSemaphore { .. } => self.made(Object::Semaphore),
            Call::ImportSemaphore { fd, .. } => {
                self.release(&[Object::Fd(fd)]);
                Reply::Done
            }
            Call::Submit { waits, .. } => {
                self.submissions.push(waits);
                Reply::Done
            }
            Call::ExportSemaphore { .. } => {
                let fd = self.descriptor(0);
                self.live.push(Object::Fd(fd));
                Reply::Fd(fd)
            }
            Call::WaitForFence { .. }
            | Call::ResetCommandBuffer { .. }
            | Call::BeginCommandBuffer { .. }
            | Call::EndCommandBuffer { .. }
            | Call::ResetFence { .. } => Reply::Done,
            Call::CreateShaderModule { .. } => self.made(Object::ShaderModule),
            Call::CreateSampler => self.made(Object::Sampler),
            Call::CreateDescriptorSetLayout => self.made(Object::DescriptorSetLayout),
            Call::CreatePipelineLayout { .. } => self.made(Object::PipelineLayout),
        }
    }

    fn read(&self, image: u64, x: i32, y: i32) -> [u8; 4] {
        let image = &self.images[&image];
        let at = image.offset + y as usize * image.pitch + x as usize * 4;
        let bytes = &self.files[image.file.expect("bound")];
        [bytes[at], bytes[at + 1], bytes[at + 2], bytes[at + 3]]
    }

    fn write(&mut self, image: u64, x: i32, y: i32, pixel: [u8; 4]) {
        let image = &self.images[&image];
        let at = image.offset + y as usize * image.pitch + x as usize * 4;
        let file = image.file.expect("bound");
        self.files[file][at..at + 4].copy_from_slice(&pixel);
    }

    fn barrier(&mut self, barrier: &Barrier) {
        let image = self.images.get_mut(&barrier.image).expect("an image");
        assert!(
            barrier.old_layout == ImageLayout::Undefined || barrier.old_layout == image.layout,
            "a barrier from {:?} on an image in {:?}",
            barrier.old_layout,
            image.layout
        );
        if barrier.src_queue_family != barrier.dst_queue_family {
            if barrier.src_queue_family == QUEUE_FAMILY_FOREIGN_EXT {
                assert!(image.foreign, "claimed from outside while it was here");
                image.foreign = false;
            } else {
                assert!(!image.foreign, "released while it was not ours");
                image.foreign = true;
            }
        }
        image.layout = barrier.new_layout;
    }

    fn run(&mut self, commands: &[Command]) {
        let mut target: Option<u64> = None;
        let mut scissor = (0, 0, 0, 0);
        let mut kind = None;
        let mut texture = None;
        let mut push = None;
        for command in commands {
            match command {
                Command::Barrier { barrier, .. } => {
                    assert!(target.is_none(), "a barrier inside rendering");
                    self.barrier(barrier);
                }
                Command::Barriers { first, second, .. } => {
                    assert!(target.is_none(), "a barrier inside rendering");
                    self.barrier(first);
                    self.barrier(second);
                }
                Command::CopyBufferToImage {
                    buffer,
                    image,
                    layout,
                    region,
                } => {
                    assert!(target.is_none());
                    assert_eq!(self.images[image].layout, *layout);
                    let file = self.buffers[buffer].1.expect("bound");
                    for y in 0..region.height as i32 {
                        for x in 0..region.width as i32 {
                            let row = region.buffer_row_length as usize * 4;
                            let at = region.buffer_offset as usize + y as usize * row
                                + x as usize * 4;
                            let b = &self.files[file];
                            let pixel = [b[at], b[at + 1], b[at + 2], b[at + 3]];
                            self.write(
                                *image,
                                region.image_offset.x + x,
                                region.image_offset.y + y,
                                pixel,
                            );
                        }
                    }
                }
                Command::CopyImageToBuffer {
                    image,
                    layout,
                    buffer,
                    region,
                } => {
                    assert!(target.is_none());
                    assert_eq!(self.images[image].layout, *layout);
                    let file = self.buffers[buffer].1.expect("bound");
                    for y in 0..region.height as i32 {
                        for x in 0..region.width as i32 {
                            let pixel = self.read(
                                *image,
                                region.image_offset.x + x,
                                region.image_offset.y + y,
                            );
                            let at = (y as usize * region.width as usize + x as usize) * 4;
                            self.files[file][at..at + 4].copy_from_slice(&pixel);
                        }
                    }
                }
                Command::BlitImage {
                    source,
                    source_layout,
                    target: to,
                    target_layout,
                    region,
                    ..
                } => {
                    assert!(target.is_none());
                    assert_eq!(self.images[source].layout, *source_layout);
                    assert_eq!(self.images[to].layout, *target_layout);
                    let (w, h) = (
                        region.dst_to.x - region.dst_from.x,
                        region.dst_to.y - region.dst_from.y,
                    );
                    let (sw, sh) = (
                        region.src_to.x - region.src_from.x,
                        region.src_to.y - region.src_from.y,
                    );
                    for y in 0..h {
                        for x in 0..w {
                            let pixel = self.read(
                                *source,
                                region.src_from.x + x * sw / w,
                                region.src_from.y + y * sh / h,
                            );
                            self.write(*to, region.dst_from.x + x, region.dst_from.y + y, pixel);
                        }
                    }
                }
                Command::BeginRendering {
                    view, layout, load, ..
                } => {
                    assert!(target.is_none(), "rendering is under way");
                    let image = self.views[view];
                    assert_eq!(self.images[&image].layout, *layout);
                    assert!(!self.images[&image].foreign, "drawing into another's image");
                    if let LoadOp::Clear(color) = load {
                        for y in 0..self.images[&image].height as i32 {
                            for x in 0..self.images[&image].width as i32 {
                                self.write(image, x, y, bgra(floats(*color)));
                            }
                        }
                    }
                    target = Some(image);
                }
                Command::EndRendering => {
                    target.take().expect("rendering was under way");
                }
                Command::SetViewport { width, height } => {
                    let image = &self.images[&target.expect("rendering")];
                    assert_eq!((*width, *height), (image.width, image.height));
                }
                Command::SetScissor { area } => {
                    scissor = (area.x, area.y, area.width as i32, area.height as i32);
                }
                Command::BindPipeline { pipeline } => kind = Some(self.pipelines[pipeline]),
                Command::PushTexture {
                    view, image_layout, ..
                } => {
                    let image = self.views[view];
                    assert_eq!(self.images[&image].layout, *image_layout);
                    texture = Some(image);
                }
                Command::PushConstants { constants, .. } => push = Some(block(constants)),
                Command::Draw => self.draw(
                    target.expect("a draw outside rendering"),
                    scissor,
                    kind.expect("a pipeline"),
                    texture,
                    push.expect("constants"),
                ),
            }
        }
        assert!(target.is_none(), "rendering was never ended");
    }

    /// One quad, by looking at the middle of each pixel inside the scissor.
    fn draw(
        &mut self,
        target: u64,
        scissor: (i32, i32, i32, i32),
        kind: Kind,
        texture: Option<u64>,
        push: Push,
    ) {
        let (width, height) = (
            self.images[&target].width as i32,
            self.images[&target].height as i32,
        );
        let a = floats(push.pos_a);
        let b = floats(push.pos_b);
        let t = floats(push.tex_a);
        let det = a[0] * a[3] - a[2] * a[1];
        for y in scissor.1..(scissor.1 + scissor.3).min(height) {
            for x in scissor.0..(scissor.0 + scissor.2).min(width) {
                let cx = (x as f32 + 0.5) / width as f32 * 2.0 - 1.0 - b[0];
                let cy = (y as f32 + 0.5) / height as f32 * 2.0 - 1.0 - b[1];
                let u = (cx * a[3] - a[2] * cy) / det;
                let v = (a[0] * cy - a[1] * cx) / det;
                if !(0.0..1.0).contains(&u) || !(0.0..1.0).contains(&v) {
                    continue;
                }
                let source = match kind {
                    Kind::Solid => floats(push.color),
                    Kind::Texture => {
                        let image = texture.expect("a texture");
                        let (w, h) = (
                            self.images[&image].width as f32,
                            self.images[&image].height as f32,
                        );
                        let s = t[0] * u + t[2] * v + b[2];
                        let r = t[1] * u + t[3] * v + b[3];
                        let p = self.read(image, (s * w) as i32, (r * h) as i32);
                        let mut c = [
                            p[2] as f32 / 255.0,
                            p[1] as f32 / 255.0,
                            p[0] as f32 / 255.0,
                            p[3] as f32 / 255.0,
                        ];
                        if push.csc0.w == ONE {
                            c[3] = 1.0;
                        }
                        let alpha = f32::from_bits(push.misc.x);
                        c.map(|n| n * alpha)
                    }
                };
                let p = self.read(target, x, y);
                let under = [
                    p[2] as f32 / 255.0,
                    p[1] as f32 / 255.0,
                    p[0] as f32 / 255.0,
                    p[3] as f32 / 255.0,
                ];
                let mut out = [0.0; 4];
                for i in 0..4 {
                    out[i] = source[i] + under[i] * (1.0 - source[3]);
                }
                self.write(target, x, y, bgra(out));
            }
        }
    }
}

/// The map whose three corners are given.
fn from_corners(origin: (f32, f32), right: (f32, f32), down: (f32, f32)) -> ShaderMap {
    ShaderMap {
        a: vec4([
            right.0 - origin.0,
            right.1 - origin.1,
            down.0 - origin.0,
            down.1 - origin.1,
        ]),
        b: vec4([origin.0, origin.1, 0.0, 0.0]),
    }
}

/// The block a draw is given, with its two maps in single precision.
fn block(constants: &Constants) -> Push {
    let place = constants.position;
    let corner = |u, v| {
        let (x, y) = place.apply(u, v);
        (x as f32 / place.width as f32, y as f32 / place.height as f32)
    };
    let position = from_corners(
        corner(false, false),
        corner(true, false),
        corner(false, true),
    );
    let texture = constants.sampling.as_ref().map(|map| {
        let src = [map.source.x, map.source.y, map.source.w, map.source.h];
        let [x, y, w, h] = src.map(f64::from_bits);
        let corner = |u, v| {
            let (column, row) = map.part.apply(u, v);
            (
                ((x + column as f64 * w) / map.width as f64) as f32,
                ((y + row as f64 * h) / map.height as f64) as f32,
            )
        };
        from_corners(
            corner(false, false),
            corner(true, false),
            corner(false, true),
        )
    });
    constants.push(position, texture)
}

fn floats(v: Vec4) -> [f32; 4] {
    [v.x, v.y, v.z, v.w].map(f32::from_bits)
}

fn vec4(v: [f32; 4]) -> Vec4 {
    let [x, y, z, w] = v.map(f32::to_bits);
    Vec4 { x, y, z, w }
}

/// Red, green, blue and alpha as they sit in memory.
fn bgra(c: [f32; 4]) -> [u8; 4] {
    let byte = |n: f32| (n.clamp(0.0, 1.0) * 255.0).round() as u8;
    [byte(c[2]), byte(c[1]), byte(c[0]), byte(c[3])]
}

fn size(w: i32, h: i32) -> Size {
    Size { w, h }
}

fn rect(x: i32, y: i32, w: i32, h: i32) -> Rectangle {
    Rectangle {
        loc: Point { x, y },
        size: Size { w, h },
    }
}

/// The whole of a rectangle, as damage.
///
/// Damage is stated explicitly in every test rather than left empty. An empty
/// damage list means "draw nothing".
fn all(w: i32, h: i32) -> [Rectangle; 1] {
    [rect(0, 0, w, h)]
}

fn features(transfer: bool) -> u32 {
    let mut features =
        vk::FormatFeatureFlags::SAMPLED_IMAGE | vk::FormatFeatureFlags::COLOR_ATTACHMENT;
    if transfer {
        features |= vk::FormatFeatureFlags::TRANSFER_SRC | vk::FormatFeatureFlags::TRANSFER_DST;
    }
    features.as_raw()
}

fn device(transfer: bool) -> Device {
    let gpu = PhysicalDevice {
        name: "arrays".to_owned(),
        api_version: Version {
            variant: 0,
            major: 1,
            minor: 3,
            patch: 0,
        },
        extensions: required_extensions(),
        queue_families: vec![vk::QueueFlags::GRAPHICS.as_raw()],
        memory_types: vec![
            vk::MemoryPropertyFlags::DEVICE_LOCAL.as_raw(),
            (vk::MemoryPropertyFlags::HOST_VISIBLE | vk::MemoryPropertyFlags::HOST_COHERENT)
                .as_raw(),
        ],
        formats: vec![
            FormatModifiers {
                format: VkFormat::B8G8R8A8Unorm,
                properties: vec![ModifierProperties {
                    modifier: LINEAR,
                    planes: 1,
                    features: features(transfer),
                }],
            },
            FormatModifiers {
                format: VkFormat::G8B8R82Plane420Unorm,
                properties: vec![ModifierProperties {
                    modifier: LINEAR,
                    planes: 2,
                    features: features(transfer)
                        | vk::FormatFeatureFlags::COSITED_CHROMA_SAMPLES.as_raw(),
                }],
            },
        ],
        render_node: Some(DrmNode {
            dev: 0xe280,
            ty: NodeType::Render,
        }),
        primary_node: None,
        ycbcr: true,
    };
    Device::open(gpu).expect("device")
}

struct Buffer {
    id: u64,
    file: usize,
    stride: usize,
    dmabuf: Dmabuf,
}

type Target = Rc<RefCell<Image>>;

struct Harness {
    gpu: Gpu,
    renderer: VulkanRenderer<(), Target>,
    next_buffer: u64,
}

fn commands(gpu: &mut Gpu, device: &Device) -> Commands {
    let mut stage = Commands::new(device);
    loop {
        let reply = gpu.call(stage.call());
        match stage.reply(reply) {
            Progress::Next(next) => stage = next,
            Progress::Done(commands) => return commands,
            Progress::Failed { error, .. } => panic!("{}", error.message()),
        }
    }
}

fn pipelines(gpu: &mut Gpu) -> Pipelines {
    let shaders = Shaders {
        vertex: vec![0; 4],
        solid: vec![0; 4],
        texture: vec![0; 4],
    };
    let mut stage = Pipelines::new();
    loop {
        let call = stage.call(&shaders).expect("a request");
        let reply = gpu.call(call);
        match stage.reply(reply) {
            Progress::Next(next) => stage = next,
            Progress::Done(pipelines) => return pipelines,
            Progress::Failed { error, .. } => panic!("{}", error.message()),
        }
    }
}

fn harness_with(transfer: bool, allocator: bool) -> Harness {
    let mut gpu = Gpu::default();
    let device = device(transfer);
    let commands = commands(&mut gpu, &device);
    let pipelines = pipelines(&mut gpu);
    Harness {
        gpu,
        renderer: if allocator {
            VulkanRenderer::with_allocator(device, commands, pipelines)
        } else {
            VulkanRenderer::new(device, commands, pipelines)
        },
        next_buffer: 0,
    }
}

fn harness() -> Harness {
    harness_with(true, false)
}

impl Harness {
    fn buffer_of(&mut self, code: Fourcc, w: i32, h: i32) -> Buffer {
        // A pitch that is not the width, so nothing gets away with confusing
        // the two.
        let stride = w as usize * 4 + 64;
        let file = self.gpu.file(stride * h as usize);
        let fd = self.gpu.descriptor(file);
        self.next_buffer += 1;
        Buffer {
            id: self.next_buffer,
            file,
            stride,
            dmabuf: Dmabuf {
                code,
                modifier: LINEAR,
                size: size(w, h),
                planes: vec![Plane {
                    fd,
                    offset: 0,
                    stride: stride as u32,
                    identity: Ok(Identity {
                        dev: 1,
                        ino: file as u64,
                    }),
                }],
            },
        }
    }

    fn buffer(&mut self, w: i32, h: i32) -> Buffer {
        self.buffer_of(Fourcc::Argb8888, w, h)
    }

    /// One pixel as it sits in memory: B, G, R, A.
    fn pixel(&self, buffer: &Buffer, x: usize, y: usize) -> [u8; 4] {
        let bytes = &self.gpu.files[buffer.file];
        let at = y * buffer.stride + x * 4;
        [bytes[at], bytes[at + 1], bytes[at + 2], bytes[at + 3]]
    }

    fn fill(&mut self, buffer: &Buffer, color: [u8; 4], from: usize, to: usize, h: usize) {
        let bytes = &mut self.gpu.files[buffer.file];
        for y in 0..h {
            for x in from..to {
                let at = y * buffer.stride + x * 4;
                bytes[at..at + 4].copy_from_slice(&color);
            }
        }
    }

    fn drive(&mut self, stage: CommandStage) -> Result<Outcome, Error> {
        let mut stage = stage;
        loop {
            let call = self.renderer.commands.call(stage);
            let reply = self.gpu.call(call);
            match self.renderer.commands.reply(stage, reply) {
                CommandProgress::Next { stage: next, release } => {
                    self.gpu.release(&release);
                    stage = next;
                }
                CommandProgress::Done { outcome, release } => {
                    self.gpu.release(&release);
                    return Ok(outcome);
                }
                CommandProgress::Failed { error, release } => {
                    self.gpu.release(&release);
                    return Err(error);
                }
            }
        }
    }

    fn submit(&mut self, commands: &[Command]) {
        let begin = self.renderer.commands.begin();
        match self.drive(begin).expect("begin") {
            Outcome::Recording(buffer) => {
                assert_eq!(buffer, self.renderer.commands.buffer());
            }
            other => panic!("{other:?}"),
        }
        self.gpu.run(commands);
        let submit = self.renderer.commands.submit();
        self.drive(submit).expect("submit");
    }

    fn export(&mut self) -> Result<Outcome, Error> {
        match self.renderer.commands.export_fence() {
            Some(stage) => self.drive(stage),
            None => Ok(Outcome::NoFence),
        }
    }

    fn wait(&mut self) {
        if let Some(stage) = self.renderer.commands.wait(u64::MAX) {
            self.drive(stage).expect("wait");
        }
    }

    fn import(&mut self, dmabuf: &Dmabuf, purpose: Purpose) -> Result<Image, Error> {
        let mut import = Image::import(&self.renderer.device, dmabuf, purpose)?;
        loop {
            let reply = self.gpu.call(import.call());
            match import.reply(&self.renderer.device, reply) {
                Progress::Next(next) => import = next,
                Progress::Done(image) => return Ok(image),
                Progress::Failed { release, error } => {
                    self.gpu.release(&release);
                    return Err(error);
                }
            }
        }
    }

    fn import_dmabuf(&mut self, buffer: &Buffer) -> Result<VulkanTexture, Error> {
        if let Some(held) = self.renderer.import_dmabuf(&Vec::new(), buffer.id) {
            return Ok(held.texture.clone());
        }
        let mut image = self.import(&buffer.dmabuf, Purpose::Sample)?;
        let acquire = acquire_now(&mut image, ImageLayout::ShaderReadOnlyOptimal);
        self.submit(&acquire);
        let texture = VulkanTexture::imported(Arc::new(image));
        self.renderer.imported(buffer.id, texture.image.clone(), ());
        Ok(texture)
    }

    fn bind(&mut self, buffer: &Buffer) -> Target {
        if let Some(target) = self.renderer.bind(&Vec::new(), buffer.id) {
            return target.clone();
        }
        let image = self.import(&buffer.dmabuf, Purpose::Render).expect("bind");
        let target = Rc::new(RefCell::new(image));
        self.renderer.bound(buffer.id, target.clone());
        target
    }

    fn staging(&mut self, bytes: u64) -> Staging {
        let mut setup = Staging::new(bytes).expect("staging");
        loop {
            let reply = self.gpu.call(setup.call());
            match setup.reply(&self.renderer.device, reply) {
                Progress::Next(next) => setup = next,
                Progress::Done(staging) => return staging,
                Progress::Failed { release, error } => {
                    self.gpu.release(&release);
                    panic!("{}", error.message());
                }
            }
        }
    }

    fn upload(&mut self, upload: Upload, data: &[u8]) {
        let staging = self.staging(upload.needed);
        staging.write(0, upload.staged(data)).expect("room");
        let staged = upload.staged(data).to_vec();
        self.gpu.files[staging.mapped as usize][..staged.len()].copy_from_slice(&staged);
        self.submit(&upload.commands(staging.handle()));
        self.wait();
        let release = staging.release();
        self.gpu.release(&release);
    }

    fn import_memory(
        &mut self,
        data: &[u8],
        code: Fourcc,
        extent: Size,
        flipped: bool,
    ) -> Result<VulkanTexture, Error> {
        let (w, h) = import_memory(extent)?;
        let mut allocation = Image::allocate(&self.renderer.device, w, h, code)?;
        let image = loop {
            let reply = self.gpu.call(allocation.call());
            match allocation.reply(&self.renderer.device, reply) {
                Progress::Next(next) => allocation = next,
                Progress::Done(image) => break image,
                Progress::Failed { release, error } => {
                    self.gpu.release(&release);
                    return Err(error);
                }
            }
        };
        let plan = Upload::plan(
            &image,
            data,
            Rectangle::from_size(extent),
            ImageLayout::Undefined,
        );
        let plan = match plan {
            Ok(plan) => plan,
            Err(error) => {
                self.gpu.release(&image.release());
                return Err(error);
            }
        };
        self.upload(plan, data);
        Ok(VulkanTexture::allocated(Arc::new(image), flipped))
    }

    /// Carry a read-back out, and hand over the bytes.
    fn download(&mut self, download: Download) -> (VulkanMapping, Vec<u8>) {
        let staging = self.staging(download.mapping.len);
        self.submit(&download.commands(staging.handle()));
        self.wait();
        let len = download.mapping.len as usize;
        let bytes = self.gpu.files[staging.mapped as usize][..len].to_vec();
        let release = staging.release();
        self.gpu.release(&release);
        (download.mapping, bytes)
    }

    fn render(&self, target: &Target, output: Size, transform: Transform) -> Recorded {
        let (frame, commands) = VulkanFrame::begin(&mut target.borrow_mut(), output, transform);
        Recorded {
            frame,
            commands,
            target: target.clone(),
        }
    }

    fn finish(&mut self, frame: Recorded) -> Result<Outcome, Error> {
        let Recorded {
            mut frame,
            mut commands,
            target,
        } = frame;
        commands.extend(frame.finish(&mut target.borrow_mut()));
        assert_eq!(frame.abandon(), None);
        self.submit(&commands);
        self.export()
    }

    fn built(&mut self, info: PipelineInfo, kind: Kind) {
        let handle = self.gpu.handle();
        self.gpu.pipelines.insert(handle, kind);
        self.gpu.live.push(Object::Pipeline(handle));
        self.renderer
            .pipelines
            .built(info.format, kind, Reply::Handle(handle))
            .expect("pipeline");
    }
}

/// A frame, with what it has recorded so far.
struct Recorded {
    frame: VulkanFrame,
    commands: Vec<Command>,
    target: Target,
}

impl Recorded {
    fn clear(&mut self, h: &mut Harness, color: [f32; 4], at: &[Rectangle]) {
        loop {
            let pipelines = &h.renderer.pipelines;
            match self.frame.clear(pipelines, vec4(color), at) {
                Ok(commands) => return self.commands.extend(commands),
                Err(info) => h.built(info, Kind::Solid),
            }
        }
    }

    fn draw_solid(
        &mut self,
        h: &mut Harness,
        dst: Rectangle,
        damage: &[Rectangle],
        color: [f32; 4],
    ) {
        loop {
            let pipelines = &h.renderer.pipelines;
            match self.frame.draw_solid(pipelines, dst, damage, vec4(color)) {
                Ok(commands) => return self.commands.extend(commands),
                Err(info) => h.built(info, Kind::Solid),
            }
        }
    }

    fn render_texture(
        &mut self,
        h: &mut Harness,
        texture: &VulkanTexture,
        src: (f32, f32, f32, f32),
        dst: Rectangle,
        damage: &[Rectangle],
        transform: Transform,
        alpha: f32,
    ) {
        let source = Source {
            x: f64::from(src.0).to_bits(),
            y: f64::from(src.1).to_bits(),
            w: f64::from(src.2).to_bits(),
            h: f64::from(src.3).to_bits(),
        };
        let conversion = Conversion {
            quotients: Quotients {
                reference_over_reference: ONE,
                reference_over_peak: (203.0f32 / 10_000.0).to_bits(),
                peak_over_reference: (10_000.0f32 / 203.0).to_bits(),
            },
            matrix: Matrix {
                row0: vec4([1.0, 0.0, 0.0, 0.0]),
                row1: vec4([0.0, 1.0, 0.0, 0.0]),
                row2: vec4([0.0, 0.0, 1.0, 0.0]),
            },
        };
        loop {
            match self.frame.render_texture_from_to(
                &h.renderer.pipelines,
                texture,
                h.renderer.output_description(),
                source,
                dst,
                damage,
                transform,
                alpha.to_bits(),
                conversion,
            ) {
                Ok(commands) => return self.commands.extend(commands),
                Err(info) => h.built(info, Kind::Texture),
            }
        }
    }
}

#[test]
fn errors_carry_their_cause() {
    let error = Error::Unsupported("output transform 90 is not implemented".to_owned());
    assert!(error.message().contains("transform"));
}

#[test]
fn a_clear_reaches_the_buffer() {
    let mut h = harness();
    let buffer = h.buffer(64, 64);
    let mut image = h.import(&buffer.dmabuf, Purpose::Render).expect("import");

    let red = vec4([1.0, 0.0, 0.0, 1.0]);
    let recording = h.renderer.commands.buffer();
    let (frame, mut commands) = Frame::begin(recording, &mut image, Some(red)).expect("clear");
    assert_eq!(frame.command_buffer(), recording);
    commands.extend(frame.finish(&mut image));
    h.submit(&commands);
    h.wait();

    // ARGB8888 is B, G, R, A in memory. A stride that was mishandled, or an
    // image bound at the wrong offset, shows up as a few rows of something else.
    for (x, y) in [(0, 0), (63, 0), (0, 63), (63, 63), (32, 32)] {
        assert_eq!(
            h.pixel(&buffer, x, y),
            [0, 0, 255, 255],
            "pixel at {x},{y} is not red"
        );
    }
}

#[test]
fn a_second_clear_overwrites_the_first() {
    let mut h = harness();
    let buffer = h.buffer(32, 32);
    let mut image = h.import(&buffer.dmabuf, Purpose::Render).expect("import");
    for color in [[1.0, 0.0, 0.0, 1.0], [0.0, 0.0, 1.0, 1.0]] {
        let recording = h.renderer.commands.buffer();
        let (frame, mut commands) =
            Frame::begin(recording, &mut image, Some(vec4(color))).expect("clear");
        commands.extend(frame.finish(&mut image));
        h.submit(&commands);
        h.wait();
    }
    // Blue is byte 0.
    assert_eq!(
        h.pixel(&buffer, 0, 0),
        [255, 0, 0, 255],
        "the second clear did not land"
    );
}

#[test]
fn a_sampling_image_cannot_be_rendered_into() {
    let mut h = harness();
    let buffer = h.buffer(32, 32);
    let mut image = h.import(&buffer.dmabuf, Purpose::Sample).expect("import");
    // The image lacks COLOR_ATTACHMENT usage, so this would be a validation
    // error rather than an error here if it were not caught.
    let recording = h.renderer.commands.buffer();
    let error = Frame::begin(recording, &mut image, Some(vec4([0.0; 4])))
        .expect_err("a sampled image is not a render target");
    assert!(
        error.message().contains("imported for sampling"),
        "unexpected error: {}",
        error.message()
    );
    assert_eq!(
        error.message(),
        "Image { size: (32, 32), format: B8G8R8A8_UNORM, purpose: Sample } \
         was imported for sampling, not rendering"
    );
    // And nothing was claimed on the way.
    assert!(image.foreign);
}

#[test]
fn a_frame_through_the_trait_api_clears_and_draws() {
    let mut h = harness();
    let target = h.buffer(64, 64);

    let framebuffer = h.bind(&target);
    let mut frame = h.render(&framebuffer, size(64, 64), Transform::Normal);
    let output = frame.frame.output_size();
    frame.clear(&mut h, [0.0, 0.0, 0.0, 1.0], &all(output.w, output.h));
    frame.draw_solid(&mut h, rect(0, 0, 32, 32), &all(32, 32), [0.0, 1.0, 0.0, 1.0]);
    h.finish(frame).expect("finish");

    // Green is byte 1. Checked either side of the edge, so an off-by-one or a
    // vertical flip fails rather than looking plausible.
    assert_eq!(h.pixel(&target, 0, 0), [0, 255, 0, 255], "inside");
    assert_eq!(h.pixel(&target, 31, 31), [0, 255, 0, 255], "inside, corner");
    assert_eq!(h.pixel(&target, 32, 0), [0, 0, 0, 255], "right of it");
    assert_eq!(h.pixel(&target, 0, 32), [0, 0, 0, 255], "below it");
}

#[test]
fn an_imported_dmabuf_can_be_rendered() {
    let mut h = harness();

    let source = h.buffer(32, 32);
    // B, G, R, A: pure blue.
    h.fill(&source, [255, 0, 0, 255], 0, 32, 32);
    let texture = h.import_dmabuf(&source).expect("import");
    assert_eq!(texture.width(), 32);
    assert_eq!(texture.format(), Some(Fourcc::Argb8888));

    let target = h.buffer(64, 64);
    let framebuffer = h.bind(&target);
    let mut frame = h.render(&framebuffer, size(64, 64), Transform::Normal);
    let output = frame.frame.output_size();
    frame.clear(&mut h, [0.0, 0.0, 0.0, 1.0], &all(output.w, output.h));
    frame.render_texture(
        &mut h,
        &texture,
        (0.0, 0.0, 32.0, 32.0),
        rect(16, 16, 32, 32),
        &all(32, 32),
        Transform::Normal,
        1.0,
    );
    h.finish(frame).expect("finish");

    assert_eq!(h.pixel(&target, 32, 32), [255, 0, 0, 255], "middle of texture");
    assert_eq!(h.pixel(&target, 8, 8), [0, 0, 0, 255], "outside it");
}

#[test]
fn a_texture_at_a_negative_offset_shows_its_far_side() {
    let mut h = harness();

    // Two halves, so which part landed on screen is visible in the pixel and
    // not just whether anything did.
    let source = h.buffer(64, 32);
    h.fill(&source, [255, 0, 0, 255], 0, 64, 32);
    // Green: the right half.
    h.fill(&source, [0, 255, 0, 255], 32, 64, 32);
    let texture = h.import_dmabuf(&source).expect("import");

    // A 32-wide "output" showing the second half of a 64-wide buffer.
    let target = h.buffer(32, 32);
    let framebuffer = h.bind(&target);
    let mut frame = h.render(&framebuffer, size(32, 32), Transform::Normal);
    let output = frame.frame.output_size();
    frame.clear(&mut h, [0.0, 0.0, 1.0, 1.0], &all(output.w, output.h));
    frame.render_texture(
        &mut h,
        &texture,
        (0.0, 0.0, 64.0, 32.0),
        rect(-32, 0, 64, 32),
        &all(64, 32),
        Transform::Normal,
        1.0,
    );
    h.finish(frame).expect("finish");

    // Green everywhere: this output shows the buffer's right half only.
    for x in [1usize, 16, 30] {
        assert_eq!(
            h.pixel(&target, x, 16),
            [0, 255, 0, 255],
            "x={x} should be the texture's right half, not the clear colour"
        );
    }
}

#[test]
fn an_x_format_buffer_is_opaque_whatever_its_fourth_byte_says() {
    let mut h = harness();

    let source = h.buffer_of(Fourcc::Xrgb8888, 32, 32);
    // Blue, with the ignored byte left at zero as a client leaves it.
    h.fill(&source, [255, 0, 0, 0], 0, 32, 32);

    let texture = h.import_dmabuf(&source).expect("import");
    assert_eq!(texture.format(), Some(Fourcc::Xrgb8888));

    let target = h.buffer(32, 32);
    let framebuffer = h.bind(&target);
    let mut frame = h.render(&framebuffer, size(32, 32), Transform::Normal);
    let output = frame.frame.output_size();
    // Red underneath, so a transparent draw is obvious rather than black.
    frame.clear(&mut h, [1.0, 0.0, 0.0, 1.0], &all(output.w, output.h));
    frame.render_texture(
        &mut h,
        &texture,
        (0.0, 0.0, 32.0, 32.0),
        rect(0, 0, 32, 32),
        &all(32, 32),
        Transform::Normal,
        1.0,
    );
    h.finish(frame).expect("finish");

    assert_eq!(
        h.pixel(&target, 16, 16),
        [255, 0, 0, 255],
        "the buffer is opaque blue, not the red behind it"
    );
}

#[test]
fn every_damage_rectangle_is_drawn_not_just_the_first() {
    let mut h = harness();

    let source = h.buffer(64, 64);
    h.fill(&source, [0, 255, 0, 255], 0, 64, 64);
    let texture = h.import_dmabuf(&source).expect("import");

    let target = h.buffer(64, 64);
    let framebuffer = h.bind(&target);
    let mut frame = h.render(&framebuffer, size(64, 64), Transform::Normal);
    let output = frame.frame.output_size();
    frame.clear(&mut h, [0.0, 0.0, 1.0, 1.0], &all(output.w, output.h));

    // A frame around a hole, as the visible part of the shell is when a window
    // covers its middle.
    let damage = [
        rect(0, 0, 64, 8),
        rect(0, 56, 64, 8),
        rect(0, 8, 8, 48),
        rect(56, 8, 8, 48),
    ];
    frame.render_texture(
        &mut h,
        &texture,
        (0.0, 0.0, 64.0, 64.0),
        rect(0, 0, 64, 64),
        &damage,
        Transform::Normal,
        1.0,
    );
    h.finish(frame).expect("finish");

    // Every side of the frame.
    for (x, y, side) in [
        (32usize, 4usize, "top"),
        (32, 60, "bottom"),
        (4, 32, "left"),
        (60, 32, "right"),
    ] {
        assert_eq!(
            h.pixel(&target, x, y),
            [0, 255, 0, 255],
            "the {side} damage rectangle was not drawn"
        );
    }
    // The hole is not damaged, so it keeps the clear colour.
    assert_eq!(
        h.pixel(&target, 32, 32),
        [255, 0, 0, 255],
        "undamaged middle"
    );
}

#[test]
fn a_clear_with_no_damage_leaves_the_frame_alone() {
    let mut h = harness();
    let target = h.buffer(32, 32);

    // A frame worth keeping.
    let framebuffer = h.bind(&target);
    let mut frame = h.render(&framebuffer, size(32, 32), Transform::Normal);
    frame.clear(&mut h, [0.0, 1.0, 0.0, 1.0], &all(32, 32));
    h.finish(frame).expect("finish");
    assert_eq!(
        h.pixel(&target, 16, 16),
        [0, 255, 0, 255],
        "the frame before"
    );

    // A frame with nothing to clear must not touch it.
    let framebuffer = h.bind(&target);
    let mut frame = h.render(&framebuffer, size(32, 32), Transform::Normal);
    frame.clear(&mut h, [1.0, 0.0, 0.0, 1.0], &[]);
    h.finish(frame).expect("finish");
    assert_eq!(
        h.pixel(&target, 16, 16),
        [0, 255, 0, 255],
        "an empty clear wiped the frame"
    );
}

#[test]
fn importing_the_same_buffer_twice_reuses_the_image() {
    // Without this the renderer would allocate a fresh image and a fresh memory
    // import for every surface, every frame.
    let mut h = harness();
    let source = h.buffer(16, 16);

    let first = h.import_dmabuf(&source).expect("first");
    let second = h.import_dmabuf(&source).expect("second");

    assert!(
        Arc::ptr_eq(&first.image, &second.image),
        "the second import allocated a second image"
    );
}

#[test]
fn what_is_kept_of_a_buffer_is_as_it_was_imported() {
    let mut h = harness();
    let source = h.buffer(16, 16);
    let first = h.import_dmabuf(&source).expect("first");
    // Saying what one handle's pixels mean says nothing of the buffer.
    let _ = first.clone().with_description(Description {
        transfer: TransferFunction::Pq,
        ..Description::default()
    });
    let (submitted, live) = (h.gpu.submissions.len(), h.gpu.live.len());
    let second = h.import_dmabuf(&source).expect("second");
    assert!(!second.is_flipped() && !second.uploadable);
    assert_eq!(*second.description(), Description::default());
    assert_eq!(h.gpu.submissions.len(), submitted);
    assert_eq!(h.gpu.live.len(), live);
}

#[test]
fn a_buffer_of_the_same_shape_is_updated_in_place() {
    let mut h = harness();
    let pixels = |w: i32, fourcc, color: [u8; 4]| ShmPixels {
        fourcc,
        width: w,
        height: 4,
        pixels: color.repeat(w as usize * 4),
    };
    let argb = Fourcc::Argb8888;
    let (red, blue) = ([0, 0, 255, 255], [255, 0, 0, 255]);
    let first = pixels(8, argb, red);
    let plan = h.renderer.import_shm_buffer(7, &first, &[]);
    assert!(matches!(plan, ShmPlan::Create));
    let other = h
        .import_memory(&first.pixels, argb, size(8, 4), false)
        .expect("import_memory");
    h.renderer.keep_shm_buffer(6, other.image.clone(), ());
    let texture = h
        .import_memory(&first.pixels, argb, size(8, 4), false)
        .expect("import_memory");
    h.renderer.keep_shm_buffer(7, texture.image.clone(), ());

    // No damage: nothing changed, and nothing is uploaded.
    match h.renderer.import_shm_buffer(7, &first, &[]) {
        ShmPlan::Update { index, updates } => {
            assert_eq!(index, 1);
            assert!(updates.uploads.is_empty() && updates.refused.is_none());
        }
        other => panic!("{other:?}"),
    }

    // One copy for each damaged region, in order, and only those change.
    let second = pixels(8, argb, blue);
    let damage = [rect(0, 0, 2, 1), rect(5, 2, 3, 2)];
    let updates = match h.renderer.import_shm_buffer(7, &second, &damage) {
        ShmPlan::Update { index: 1, updates } => updates,
        other => panic!("{other:?}"),
    };
    assert!(updates.refused.is_none());
    assert_eq!(updates.uploads.len(), 2);
    for (upload, region) in updates.uploads.into_iter().zip(damage) {
        assert_eq!(upload, update_memory(&texture, &second.pixels, region).expect("update"));
        h.upload(upload, &second.pixels);
    }
    let held = h.renderer.shm.entries[1].value.texture.clone();
    assert!(Arc::ptr_eq(&held.image, &texture.image));
    assert!(!held.flipped && held.uploadable);
    let download = copy_texture(&held, rect(0, 0, 8, 4), argb).expect("copy_texture");
    let (_, bytes) = h.download(download);
    for y in 0..4usize {
        for x in 0..8usize {
            let damaged = y == 0 && x < 2 || y >= 2 && x >= 5;
            let at = 4 * (y * 8 + x);
            assert_eq!(bytes[at..at + 4], if damaged { blue } else { red }, "{x},{y}");
        }
    }

    // What comes before a region that is refused is still carried out.
    let damage = [rect(0, 0, 1, 1), rect(0, 0, 9, 1), rect(1, 1, 1, 1)];
    match h.renderer.import_shm_buffer(7, &second, &damage) {
        ShmPlan::Update { updates, .. } => {
            assert_eq!(updates.uploads.len(), 1);
            let error = updates.refused.expect("a region outside");
            assert!(error.message().contains("is outside the 8x4 texture"));
        }
        other => panic!("{other:?}"),
    }

    // Another shape or another format needs another texture, in place of the
    // first.
    for changed in [pixels(9, argb, red), pixels(8, Fourcc::Xrgb8888, red)] {
        let plan = h.renderer.import_shm_buffer(7, &changed, &damage);
        assert!(matches!(plan, ShmPlan::Create));
    }
    let again = h
        .import_memory(&second.pixels, argb, size(8, 4), false)
        .expect("import_memory");
    h.renderer.keep_shm_buffer(7, again.image.clone(), ());
    assert_eq!(h.renderer.shm.len(), 2);
    let kept = h.renderer.shm.get(7).expect("kept");
    assert!(Arc::ptr_eq(&kept.texture.image, &again.image));

    h.renderer.forget_shm_buffer(7);
    assert_eq!(h.renderer.shm.len(), 1);
    assert!(h.renderer.shm.get(7).is_none());
    let kept = h.renderer.shm.get(6).expect("kept");
    assert!(Arc::ptr_eq(&kept.texture.image, &other.image));
}

#[test]
fn a_dmabuf_takes_no_damage() {
    let mut h = harness();
    let source = h.buffer(8, 8);
    let texture = h.import_dmabuf(&source).expect("import");
    let updates = update_damage(&texture, &[0; 256], &[rect(0, 0, 1, 1)]);
    assert!(updates.uploads.is_empty());
    let error = updates.refused.expect("not ours");
    assert_eq!(
        error.message(),
        "this texture was imported from a dmabuf and cannot be uploaded into"
    );
}

#[test]
fn a_texture_does_not_outlive_its_buffer() {
    let mut h = harness();
    let (one, two) = (h.buffer(16, 16), h.buffer(16, 16));
    h.import_dmabuf(&one).expect("one");
    h.import_dmabuf(&two).expect("two");
    h.bind(&one);
    assert_eq!((h.renderer.imported.len(), h.renderer.targets.len()), (2, 1));

    // The first buffer is gone by the time the second is asked for again.
    let kept = h.renderer.import_dmabuf(&vec![one.id], two.id).is_some();
    assert!(kept);
    assert_eq!((h.renderer.imported.len(), h.renderer.targets.len()), (1, 0));
    assert!(h.renderer.import_dmabuf(&Vec::new(), one.id).is_none());
    assert!(h.renderer.bind(&Vec::new(), one.id).is_none());
}

#[test]
fn a_rotated_output_puts_pixels_where_the_rotation_says() {
    let mut h = harness();
    let target = h.buffer(32, 16);

    let framebuffer = h.bind(&target);
    let mut frame = h.render(&framebuffer, size(32, 16), Transform::_90);
    assert_eq!(frame.frame.transformation(), Transform::_90);
    assert_eq!(
        frame.frame.output_size(),
        size(16, 32),
        "a rotated frame reports the desktop it holds"
    );

    let output = frame.frame.output_size();
    frame.clear(&mut h, [0.0, 0.0, 0.0, 1.0], &all(output.w, output.h));
    frame.draw_solid(&mut h, rect(0, 0, 16, 8), &all(16, 8), [0.0, 1.0, 0.0, 1.0]);
    h.finish(frame).expect("finish");

    // Green is byte 1.
    assert_eq!(
        h.pixel(&target, 29, 2),
        [0, 255, 0, 255],
        "inside the rotated strip"
    );
    assert_eq!(h.pixel(&target, 4, 2), [0, 0, 0, 255], "left of it");

    // The two pixels where a rotated and an unrotated draw disagree.
    assert_eq!(
        h.pixel(&target, 28, 12),
        [0, 255, 0, 255],
        "an unrotated draw would have missed this"
    );
    assert_eq!(
        h.pixel(&target, 4, 4),
        [0, 0, 0, 255],
        "an unrotated draw would have covered this"
    );
}

#[test]
fn every_output_transform_clears_the_whole_target() {
    let mut h = harness();
    for transform in [
        Transform::Normal,
        Transform::_90,
        Transform::_180,
        Transform::_270,
        Transform::Flipped,
        Transform::Flipped90,
        Transform::Flipped180,
        Transform::Flipped270,
    ] {
        // Square, so one buffer works for every transform.
        let target = h.buffer(32, 32);
        let framebuffer = h.bind(&target);
        let mut frame = h.render(&framebuffer, size(32, 32), transform);
        let output = frame.frame.output_size();
        frame.clear(&mut h, [1.0, 0.0, 0.0, 1.0], &all(output.w, output.h));
        h.finish(frame).expect("finish");

        for (x, y) in [(0, 0), (31, 0), (0, 31), (31, 31), (16, 16)] {
            assert_eq!(
                h.pixel(&target, x, y),
                [0, 0, 255, 255],
                "{transform:?} left {x},{y} unclear"
            );
        }
    }
}

#[test]
fn a_flipped_rotation_draws_where_the_scissor_is() {
    let mut h = harness();
    for (transform, inside, outside) in [
        (Transform::Normal, (2, 2), (29, 2)),
        (Transform::_90, (29, 2), (2, 2)),
        (Transform::_180, (29, 13), (2, 2)),
        (Transform::_270, (2, 13), (29, 13)),
        (Transform::Flipped, (29, 2), (2, 2)),
        (Transform::Flipped90, (29, 13), (29, 2)),
        (Transform::Flipped180, (2, 13), (2, 2)),
        (Transform::Flipped270, (2, 2), (29, 13)),
    ] {
        let target = h.buffer(32, 16);
        let framebuffer = h.bind(&target);
        let mut frame = h.render(&framebuffer, size(32, 16), transform);
        let output = frame.frame.output_size();
        frame.clear(&mut h, [0.0, 0.0, 0.0, 1.0], &all(output.w, output.h));
        frame.draw_solid(&mut h, rect(0, 0, 6, 6), &all(6, 6), [0.0, 1.0, 0.0, 1.0]);
        h.finish(frame).expect("finish");
        assert_eq!(
            h.pixel(&target, inside.0, inside.1),
            [0, 255, 0, 255],
            "{transform:?}"
        );
        assert_eq!(
            h.pixel(&target, outside.0, outside.1),
            [0, 0, 0, 255],
            "{transform:?}"
        );
    }
}

#[test]
fn a_framebuffer_can_be_copied_back_into_memory() {
    let mut h = harness();
    let target = h.buffer(32, 32);

    let framebuffer = h.bind(&target);
    let mut frame = h.render(&framebuffer, size(32, 32), Transform::Normal);
    let output = frame.frame.output_size();
    frame.clear(&mut h, [0.0, 0.0, 0.0, 1.0], &all(output.w, output.h));
    frame.draw_solid(&mut h, rect(0, 0, 16, 32), &all(16, 32), [1.0, 0.0, 0.0, 1.0]);
    h.finish(frame).expect("finish");

    let download = copy_framebuffer(
        &framebuffer.borrow(),
        rect(0, 0, 32, 32),
        Fourcc::Argb8888,
    )
    .expect("copy_framebuffer");
    let (mapping, pixels) = h.download(download);
    assert_eq!(mapping.width(), 32);
    assert_eq!(mapping.height(), 32);
    assert_eq!(mapping.format(), Some(Fourcc::Argb8888));
    assert!(!mapping.flipped());

    // Tightly packed, so the stride is the width.
    assert_eq!(pixels.len(), 32 * 32 * 4);
    let at = |x: usize, y: usize| {
        let i = (y * 32 + x) * 4;
        [pixels[i], pixels[i + 1], pixels[i + 2], pixels[i + 3]]
    };
    // Red is byte 2 in ARGB8888.
    assert_eq!(at(4, 4), [0, 0, 255, 255], "the drawn half");
    assert_eq!(at(24, 4), [0, 0, 0, 255], "the cleared half");

    // Not destructive: the framebuffer still holds what was drawn, and is where
    // it was.
    assert_eq!(h.pixel(&target, 4, 4), [0, 0, 255, 255]);
    let handle = framebuffer.borrow().handle();
    assert_eq!(h.gpu.images[&handle].layout, ImageLayout::General);
}

#[test]
fn a_sub_region_copies_only_that_region() {
    let mut h = harness();
    let target = h.buffer(32, 32);
    let framebuffer = h.bind(&target);
    let mut frame = h.render(&framebuffer, size(32, 32), Transform::Normal);
    let output = frame.frame.output_size();
    frame.clear(&mut h, [0.0, 0.0, 1.0, 1.0], &all(output.w, output.h));
    h.finish(frame).expect("finish");

    let download = copy_framebuffer(&framebuffer.borrow(), rect(8, 8, 4, 4), Fourcc::Argb8888)
        .expect("copy");
    let (_, pixels) = h.download(download);
    assert_eq!(pixels.len(), 4 * 4 * 4, "only the region is copied");
    // Blue is byte 0.
    assert_eq!(&pixels[0..4], &[255, 0, 0, 255]);
}

#[test]
fn an_shm_texture_can_be_read_back() {
    let mut h = harness();

    // Allocated by this renderer, so it always has transfer support.
    let pixels: Vec<u8> = (0..8 * 8).flat_map(|_| [0u8, 255, 0, 255]).collect();
    let shm = h
        .import_memory(&pixels, Fourcc::Argb8888, size(8, 8), false)
        .expect("import_memory");
    assert!(can_read_texture(&shm));

    let download = copy_texture(&shm, rect(0, 0, 8, 8), Fourcc::Argb8888).expect("copy_texture");
    let (_, out) = h.download(download);
    assert_eq!(&out[0..4], &[0, 255, 0, 255], "green survived the round trip");
    assert_eq!(out, pixels);
}

#[test]
fn dmabuf_readability_matches_what_the_modifier_advertises() {
    for transfer in [true, false] {
        let mut h = harness_with(transfer, false);
        let source = h.buffer(8, 8);
        let texture = h.import_dmabuf(&source).expect("import");

        let advertised = modifiers(h.renderer.device().physical(), Fourcc::Argb8888)
            .into_iter()
            .find(|s| s.modifier == LINEAR)
            .expect("linear ARGB8888 is supported, the harness checked")
            .transfer_src;
        assert_eq!(advertised, transfer);

        let reported = can_read_texture(&texture);
        assert_eq!(
            reported, advertised,
            "can_read_texture disagrees with the modifier's TRANSFER_SRC feature"
        );

        let result = copy_texture(&texture, rect(0, 0, 8, 8), Fourcc::Argb8888);
        assert_eq!(
            result.is_ok(),
            advertised,
            "copy_texture and can_read_texture must agree"
        );
    }
}

#[test]
fn waiting_on_a_fence_defers_to_the_gpu() {
    let mut h = harness();

    // A real, not-yet-signalled fence: render into a buffer and take the sync
    // point without waiting for it.
    let source = h.buffer(64, 64);
    let framebuffer = h.bind(&source);
    let mut frame = h.render(&framebuffer, size(64, 64), Transform::Normal);
    let output = frame.frame.output_size();
    frame.clear(&mut h, [1.0, 0.0, 0.0, 1.0], &all(output.w, output.h));
    let exported = h.finish(frame);
    let fd = match completion(&exported) {
        Completion::Fence(fd) => fd,
        other => panic!("the frame did not produce a fence: {other:?}"),
    };

    // Handing it over must queue a semaphore rather than block.
    assert_eq!(h.renderer.commands.pending_waits(), 0);
    match wait_for(false, Some(fd)) {
        WaitPlan::Queue(fd) => {
            let stage = h.renderer.commands.wait_on(fd);
            h.drive(stage).expect("wait");
        }
        other => panic!("the fence was waited on by the CPU: {other:?}"),
    }
    assert_eq!(
        h.renderer.commands.pending_waits(),
        1,
        "the fence was waited on by the CPU instead of the queue"
    );
    let semaphore = h.renderer.commands.waits[0];

    // The next submission consumes it and still produces correct pixels.
    let target = h.buffer(64, 64);
    let framebuffer = h.bind(&target);
    let mut frame = h.render(&framebuffer, size(64, 64), Transform::Normal);
    let output = frame.frame.output_size();
    frame.clear(&mut h, [0.0, 1.0, 0.0, 1.0], &all(output.w, output.h));
    h.finish(frame).expect("finish");
    assert_eq!(h.gpu.submissions.last(), Some(&vec![semaphore]));
    // The semaphore is not given back while the queue may still wait on it.
    assert!(h.gpu.live.contains(&Object::Semaphore(semaphore)));
    h.wait();
    assert!(!h.gpu.live.contains(&Object::Semaphore(semaphore)));

    assert_eq!(
        h.renderer.commands.pending_waits(),
        0,
        "the wait was not consumed by the submission"
    );
    assert_eq!(h.pixel(&target, 32, 32), [0, 255, 0, 255]);
}

#[test]
fn an_already_signalled_sync_point_queues_nothing() {
    let h = harness();
    assert_eq!(wait_for(true, None), WaitPlan::Nothing);
    assert_eq!(wait_for(true, Some(5)), WaitPlan::Nothing);
    assert_eq!(h.renderer.commands.pending_waits(), 0);
    // Without a fence there is nothing to hand to the GPU.
    assert_eq!(wait_for(false, None), WaitPlan::Block);
    assert_eq!(
        interrupted().message(),
        "interrupted waiting for a sync point"
    );
}

#[test]
fn a_submission_without_a_fence_is_done_or_waited_for() {
    assert_eq!(completion(&Ok(Outcome::Fence(9))), Completion::Fence(9));
    assert_eq!(completion(&Ok(Outcome::NoFence)), Completion::Reached);
    // A driver that cannot export leaves the wait to the CPU.
    assert_eq!(completion(&Ok(Outcome::CannotExport)), Completion::WaitOnCpu);
    assert_eq!(
        completion(&Err(Error::Other("vkGetSemaphoreFdKHR".to_owned()))),
        Completion::WaitOnCpu
    );
}

#[test]
fn a_texture_defaults_to_sdr_srgb() {
    // What a client that says nothing is assumed to have sent.
    let mut h = harness();
    let source = h.buffer(8, 8);
    let texture = h.import_dmabuf(&source).expect("import");
    assert_eq!(*texture.description(), Description::default());
    assert_eq!(*h.renderer.output_description(), Description::default());

    let described = texture.clone().with_description(Description {
        reference_luminance: 100.0f32.to_bits(),
        ..Description::default()
    });
    assert_eq!(described.description().reference_luminance, 100.0f32.to_bits());
    assert!(Arc::ptr_eq(&described.image, &texture.image));
    h.renderer.set_output_description(*described.description());
    assert_eq!(h.renderer.output_description(), described.description());
}

#[test]
fn an_hdr_output_is_handed_the_scale_of_its_content() {
    // SDR white is 203 of the 10,000 nits that PQ's one stands for.
    let mut h = harness();
    let source = h.buffer(8, 8);
    let texture = h.import_dmabuf(&source).expect("import");
    let pq = Description {
        transfer: TransferFunction::Pq,
        ..Description::default()
    };
    for (content, output, scale) in [
        (Description::default(), Description::default(), 1.0),
        (Description::default(), pq, 203.0 / 10_000.0),
        (pq, Description::default(), 10_000.0 / 203.0),
        (pq, pq, 1.0),
    ] {
        h.renderer.set_output_description(output);
        let described = texture.clone().with_description(content);
        let target = h.buffer(8, 8);
        let framebuffer = h.bind(&target);
        let mut frame = h.render(&framebuffer, size(8, 8), Transform::Normal);
        frame.render_texture(
            &mut h,
            &described,
            (0.0, 0.0, 8.0, 8.0),
            rect(0, 0, 8, 8),
            &all(8, 8),
            Transform::Normal,
            1.0,
        );
        let pushed: Vec<Push> = frame
            .commands
            .iter()
            .filter_map(|c| match c {
                Command::PushConstants { constants, .. } => Some(block(constants)),
                _ => None,
            })
            .collect();
        assert_eq!(pushed.len(), 1);
        assert_eq!(f32::from_bits(pushed[0].misc.w), scale);
        h.finish(frame).expect("finish");
        h.wait();
    }
}

#[test]
fn offscreen_needs_an_allocator_and_says_so() {
    let h = harness();
    assert!(!h.renderer.can_allocate());

    let error = h
        .renderer
        .create_buffer(Fourcc::Argb8888, size(16, 16))
        .expect_err("a renderer without an allocator cannot create buffers");
    assert!(error.message().contains("allocator"), "{}", error.message());
}

#[test]
fn a_renderer_with_an_allocator_creates_its_own_targets() {
    let mut h = harness_with(true, true);
    assert!(h.renderer.can_allocate());

    let request = h
        .renderer
        .create_buffer(Fourcc::Argb8888, size(32, 16))
        .expect("create_buffer");
    assert_eq!(request.width, 32);
    assert_eq!(request.height, 16);
    assert_eq!(request.modifiers, vec![LINEAR]);
    let created = h.buffer_of(request.format, request.width as i32, request.height as i32);

    // And it is a real render target: binding and drawing into it works.
    let framebuffer = h.bind(&created);
    let mut frame = h.render(&framebuffer, size(32, 16), Transform::Normal);
    let output = frame.frame.output_size();
    frame.clear(&mut h, [0.0, 1.0, 0.0, 1.0], &all(output.w, output.h));
    h.finish(frame).expect("finish");
    assert_eq!(h.pixel(&created, 31, 15), [0, 255, 0, 255]);

    // A format that cannot be rendered into is refused with or without one.
    let error = h
        .renderer
        .create_buffer(Fourcc::Abgr8888, size(32, 16))
        .expect_err("nothing is listed for ABGR8888");
    assert_eq!(
        error.message(),
        "DrmFourcc(AB24) cannot be rendered into on arrays"
    );
    // What is negative is nothing.
    let request = h
        .renderer
        .create_buffer(Fourcc::Argb8888, size(-1, -2))
        .expect("create_buffer");
    assert_eq!((request.width, request.height), (0, 0));
}

#[test]
fn a_capture_reads_back_the_format_it_rendered() {
    let mut h = harness_with(true, true);
    let target = h.buffer_of(Fourcc::Xrgb8888, 32, 16);
    let framebuffer = h.bind(&target);
    let mut frame = h.render(&framebuffer, size(32, 16), Transform::Normal);
    frame.clear(&mut h, [0.0, 0.0, 1.0, 1.0], &all(32, 16));
    h.finish(frame).expect("finish");

    let download = copy_framebuffer(
        &framebuffer.borrow(),
        rect(0, 0, 32, 16),
        Fourcc::Xrgb8888,
    )
    .expect("reading back the same format it was rendered in");
    let (_, pixels) = h.download(download);
    assert_eq!(pixels.len(), 32 * 16 * 4);
    // Blue, as it was cleared: BGRA in memory, so the first byte.
    assert_eq!(pixels[0], 255, "blue channel");
    assert_eq!(pixels[1], 0);
    assert_eq!(pixels[2], 0);

    // And the mistake itself, so it cannot come back quietly: asking for a
    // different format is refused rather than converted.
    let error = copy_framebuffer(&framebuffer.borrow(), rect(0, 0, 32, 16), Fourcc::Argb8888)
        .expect_err("a conversion this renderer cannot do was accepted");
    assert_eq!(
        error.message(),
        "cannot convert DrmFourcc(XR24) to DrmFourcc(AR24) while copying"
    );
}

#[test]
fn a_blit_copies_between_framebuffers() {
    let mut h = harness();

    // Fill the source by rendering into it, and the target another way.
    let source = h.buffer(32, 32);
    let target = h.buffer(32, 32);
    for (buffer, color) in [
        (&source, [1.0, 0.0, 0.0, 1.0]),
        (&target, [0.0, 0.0, 1.0, 1.0]),
    ] {
        let framebuffer = h.bind(buffer);
        let mut frame = h.render(&framebuffer, size(32, 32), Transform::Normal);
        let output = frame.frame.output_size();
        frame.clear(&mut h, color, &all(output.w, output.h));
        h.finish(frame).expect("finish");
    }

    // Blit the top-left quarter of the source into the bottom-right of the
    // target, scaling on the way, which is the reason to use a blit rather than
    // a copy.
    let from = h.bind(&source);
    let to = h.bind(&target);
    let commands = blit(
        &from.borrow(),
        &to.borrow(),
        rect(0, 0, 16, 16),
        rect(16, 16, 16, 16),
        Filter::Linear,
    )
    .expect("blit");
    h.submit(&commands);
    h.wait();

    // Red where the blit landed, blue everywhere else.
    assert_eq!(
        h.pixel(&target, 24, 24),
        [0, 0, 255, 255],
        "the blitted region"
    );
    assert_eq!(h.pixel(&target, 4, 4), [255, 0, 0, 255], "untouched");
    // Non-destructive: the source still holds red.
    assert_eq!(
        h.pixel(&source, 4, 4),
        [0, 0, 255, 255],
        "the source survived"
    );

    // And both can still be drawn into.
    let mut frame = h.render(&from, size(32, 32), Transform::Normal);
    frame.clear(&mut h, [0.0, 1.0, 0.0, 1.0], &all(32, 32));
    h.finish(frame).expect("finish");
}

#[test]
fn a_blit_says_why_it_cannot_be_done() {
    let mut h = harness();
    let target = h.buffer(8, 8);
    let image = h.bind(&target);
    let area = rect(0, 0, 8, 8);
    let error = blit(
        &image.borrow(),
        &image.borrow(),
        area,
        area,
        Filter::Nearest,
    )
    .expect_err("one image");
    assert_eq!(
        error.message(),
        "the source and destination framebuffers are the same image"
    );

    let mut poor = harness_with(false, false);
    let (one, two) = (poor.buffer(8, 8), poor.buffer(8, 8));
    let (one, two) = (poor.bind(&one), poor.bind(&two));
    let error = blit(&one.borrow(), &two.borrow(), area, area, Filter::Nearest)
        .expect_err("no transfer source");
    assert_eq!(
        error.message(),
        "the source framebuffer's modifier does not support being copied from"
    );
    one.borrow_mut().usage.transfer_src = true;
    let error = blit(&one.borrow(), &two.borrow(), area, area, Filter::Nearest)
        .expect_err("no transfer destination");
    assert_eq!(
        error.message(),
        "the destination framebuffer's modifier does not support being copied into"
    );
}

#[test]
fn a_format_conversion_is_refused_rather_than_producing_wrong_bytes() {
    let mut h = harness();
    let target = h.buffer(16, 16);
    let framebuffer = h.bind(&target);

    let error = copy_framebuffer(
        &framebuffer.borrow(),
        rect(0, 0, 16, 16),
        // The buffer is Argb8888; this would need a shader pass.
        Fourcc::Abgr8888,
    )
    .expect_err("a conversion this renderer cannot do must be refused");
    assert!(error.message().contains("convert"), "{}", error.message());
}

#[test]
fn a_read_back_says_why_it_cannot_be_done() {
    let mut h = harness();
    let target = h.buffer(16, 8);
    let framebuffer = h.bind(&target);
    let image = framebuffer.borrow();
    let error = copy_framebuffer(&image, rect(0, 0, 0, 8), Fourcc::Argb8888)
        .expect_err("an empty region");
    assert_eq!(error.message(), "an empty copy region");
    let error = copy_framebuffer(&image, rect(10, 0, 7, 8), Fourcc::Argb8888)
        .expect_err("over the edge");
    assert_eq!(
        error.message(),
        "region Rectangle<smithay::utils::geometry::Buffer> \
         { x: 10, y: 0, width: 7, height: 8 } is outside the 16x8 image"
    );
    drop(image);

    let mut poor = harness_with(false, false);
    let target = poor.buffer(16, 8);
    let framebuffer = poor.bind(&target);
    let error = copy_framebuffer(&framebuffer.borrow(), rect(0, 0, 16, 8), Fourcc::Argb8888)
        .expect_err("no transfer support");
    assert_eq!(
        error.message(),
        "this image was imported without transfer support and cannot be read back"
    );
}

#[test]
fn the_advertised_formats_are_ones_that_can_actually_be_imported() {
    // Advertising a format the renderer would reject produces buffers it has to
    // refuse later, which a client experiences as a black window rather than as
    // a negotiation failure.
    let mut h = harness();
    let formats = h.renderer.dmabuf_formats();
    assert!(!formats.is_empty(), "no importable formats at all");
    // Video frames are among them.
    assert!(formats.contains(&Format {
        code: Fourcc::Nv12,
        modifier: LINEAR
    }));
    for format in &formats {
        assert!(
            h.renderer.has_dmabuf_format(*format),
            "advertised {format:?} but would not accept it"
        );
    }
    assert!(!h.renderer.has_dmabuf_format(Format {
        code: Fourcc::Argb8888,
        modifier: 1
    }));
    // And what it accepts it imports.
    for code in [Fourcc::Argb8888, Fourcc::Xrgb8888] {
        let buffer = h.buffer_of(code, 8, 8);
        h.import_dmabuf(&buffer).expect("import");
    }
    assert_eq!(
        h.renderer.supported_formats(),
        vec![
            Format {
                code: Fourcc::Argb8888,
                modifier: LINEAR
            },
            Format {
                code: Fourcc::Xrgb8888,
                modifier: LINEAR
            },
        ]
    );
    assert_eq!(
        mem_formats(),
        vec![
            Fourcc::Argb8888,
            Fourcc::Xrgb8888,
            Fourcc::Abgr8888,
            Fourcc::Xbgr8888
        ]
    );
}

#[test]
fn part_of_a_texture_is_replaced_and_the_rest_survives() {
    let mut h = harness();
    let mut pixels: Vec<u8> = (0..8 * 4).flat_map(|_| [0u8, 255, 0, 255]).collect();
    let texture = h
        .import_memory(&pixels, Fourcc::Argb8888, size(8, 4), false)
        .expect("import_memory");
    for y in 1..3 {
        for x in 2..5 {
            let at = (y * 8 + x) * 4;
            pixels[at..at + 4].copy_from_slice(&[255, 0, 0, 255]);
        }
    }
    // Everything else in the new pixels is something the texture never was.
    let mut data = vec![7u8; pixels.len()];
    for y in 1..3 {
        for x in 2..5 {
            let at = (y * 8 + x) * 4;
            data[at..at + 4].copy_from_slice(&[255, 0, 0, 255]);
        }
    }
    let plan = update_memory(&texture, &data, rect(2, 1, 3, 2)).expect("update");
    assert_eq!(plan.region.buffer_offset, (8 + 2) * 4);
    assert_eq!(plan.needed, 8 * 4 * 4);
    h.upload(plan, &data);
    let download = copy_texture(&texture, rect(0, 0, 8, 4), Fourcc::Argb8888).expect("copy");
    let (_, out) = h.download(download);
    assert_eq!(out, pixels);
}

#[test]
fn a_padded_client_buffer_is_sampled_where_it_was_written() {
    let mut h = harness();
    // Three columns and two rows, starting eight bytes in, with four bytes of
    // padding after each row.
    let (offset, stride) = (8, 16);
    let bytes: Vec<u8> = (0..offset + 2 * stride).map(|b| b as u8).collect();
    let pixels = ShmBuffer {
        fourcc: Some(Fourcc::Argb8888),
        format: "Argb8888".to_owned(),
        width: 3,
        height: 2,
        offset: offset as i32,
        stride: stride as i32,
    }
    .unpack(&bytes)
    .expect("unpack");
    let texture = h
        .import_memory(&pixels.pixels, pixels.fourcc, size(3, 2), false)
        .expect("import_memory");
    for y in 0..2 {
        for x in 0..3 {
            let download = copy_texture(
                &texture,
                rect(x as i32, y as i32, 1, 1),
                Fourcc::Argb8888,
            )
            .expect("copy");
            let (_, pixel) = h.download(download);
            let at = offset + y * stride + x * 4;
            assert_eq!(pixel, &bytes[at..at + 4], "the pixel at {x},{y} moved");
        }
    }
}

#[test]
fn an_upload_says_why_it_cannot_be_done() {
    let mut h = harness();
    let texture = h
        .import_memory(&[0; 128], Fourcc::Argb8888, size(8, 4), false)
        .expect("import_memory");
    let error = update_memory(&texture, &[0; 128], rect(0, 0, 0, 4)).expect_err("empty");
    assert_eq!(error.message(), "an empty upload region");
    let error = update_memory(&texture, &[0; 128], rect(0, 1, 8, 4)).expect_err("outside");
    assert_eq!(
        error.message(),
        "region Rectangle<smithay::utils::geometry::Buffer> \
         { x: 0, y: 1, width: 8, height: 4 } is outside the 8x4 texture"
    );
    let error = update_memory(&texture, &[0; 127], rect(0, 0, 8, 4)).expect_err("short");
    assert_eq!(
        error.message(),
        "127 bytes of pixels for a 8x4 texture that needs 128"
    );

    let source = h.buffer(8, 4);
    let imported = h.import_dmabuf(&source).expect("import");
    let error = update_memory(&imported, &[0; 128], rect(0, 0, 8, 4)).expect_err("not ours");
    assert_eq!(
        error.message(),
        "this texture was imported from a dmabuf and cannot be uploaded into"
    );

    let error = h
        .import_memory(&[], Fourcc::Argb8888, size(0, 4), false)
        .expect_err("nothing there");
    assert_eq!(error.message(), "a zero-sized memory import");
    let before = h.gpu.live.len();
    let error = h
        .import_memory(&[0; 4], Fourcc::Argb8888, size(2, 2), false)
        .expect_err("too little");
    assert_eq!(
        error.message(),
        "4 bytes of pixels for a 2x2 texture that needs 16"
    );
    assert_eq!(h.gpu.live.len(), before);
}

#[test]
fn a_flipped_texture_is_drawn_the_right_way_up() {
    let mut h = harness();
    // The first row in memory is the last row of the picture.
    let mut pixels = Vec::new();
    for y in 0..8 {
        for _ in 0..8 {
            pixels.extend_from_slice(if y < 4 {
                &[255, 0, 0, 255]
            } else {
                &[0, 255, 0, 255]
            });
        }
    }
    let texture = h
        .import_memory(&pixels, Fourcc::Argb8888, size(8, 8), true)
        .expect("import_memory");
    let target = h.buffer(8, 8);
    let framebuffer = h.bind(&target);
    let mut frame = h.render(&framebuffer, size(8, 8), Transform::Normal);
    frame.render_texture(
        &mut h,
        &texture,
        (0.0, 0.0, 8.0, 8.0),
        rect(0, 0, 8, 8),
        &all(8, 8),
        Transform::Normal,
        1.0,
    );
    h.finish(frame).expect("finish");
    assert_eq!(h.pixel(&target, 4, 1), [0, 255, 0, 255]);
    assert_eq!(h.pixel(&target, 4, 6), [255, 0, 0, 255]);
}

#[test]
fn damage_outside_a_draw_draws_nothing() {
    let mut h = harness();
    let target = h.buffer(32, 32);
    let framebuffer = h.bind(&target);
    let mut frame = h.render(&framebuffer, size(32, 32), Transform::Normal);
    let before = frame.commands.len();
    frame.draw_solid(
        &mut h,
        rect(0, 0, 8, 8),
        &[rect(8, 0, 4, 4), rect(-9, -9, 9, 9)],
        [1.0; 4],
    );
    assert_eq!(frame.commands.len(), before);
    // Nothing had to be built for it either.
    assert_eq!(h.renderer.pipelines.by_format.len(), 0);
    // And damage that reaches over the edge is cut down to the draw.
    assert_eq!(
        frame
            .frame
            .scissors_within(rect(4, 4, 8, 8), &[rect(6, 6, 40, 40)]),
        vec![rect(10, 10, 2, 2)]
    );
    h.finish(frame).expect("finish");
}

#[test]
fn an_abandoned_frame_ends_its_rendering() {
    let mut h = harness();
    let target = h.buffer(8, 8);
    let framebuffer = h.bind(&target);
    let frame = h.render(&framebuffer, size(8, 8), Transform::Normal);
    let mut commands = frame.commands;
    assert_eq!(frame.frame.abandon(), Some(Command::EndRendering));
    commands.extend(frame.frame.abandon());
    h.submit(&commands);
}

#[test]
fn everything_that_is_made_is_given_back() {
    let mut h = harness();
    let source = h.buffer(16, 16);
    let target = h.buffer(16, 16);
    let texture = h.import_dmabuf(&source).expect("import");
    let framebuffer = h.bind(&target);
    let mut frame = h.render(&framebuffer, size(16, 16), Transform::Normal);
    frame.clear(&mut h, [0.0; 4], &all(16, 16));
    frame.render_texture(
        &mut h,
        &texture,
        (0.0, 0.0, 16.0, 16.0),
        rect(0, 0, 16, 16),
        &all(16, 16),
        Transform::Normal,
        1.0,
    );
    let fd = match h.finish(frame).expect("finish") {
        Outcome::Fence(fd) => fd,
        other => panic!("the frame did not produce a fence: {other:?}"),
    };
    let stage = h.renderer.commands.wait_on(fd);
    h.drive(stage).expect("wait");
    h.submit(&[]);
    h.wait();

    let image = texture.image().release();
    h.gpu.release(&image);
    let image = framebuffer.borrow().release();
    h.gpu.release(&image);
    let pipelines = h.renderer.pipelines.release();
    h.gpu.release(&pipelines);
    let commands = h.renderer.commands.release();
    h.gpu.release(&commands);
    assert_eq!(h.gpu.live, Vec::new());
}

#[test]
fn vulkan_names_the_same_queue_families() {
    assert_eq!(QUEUE_FAMILY_IGNORED, vk::QUEUE_FAMILY_IGNORED);
    assert_eq!(QUEUE_FAMILY_FOREIGN_EXT, vk::QUEUE_FAMILY_FOREIGN_EXT);
    assert_eq!(device(true).queue_family(), FAMILY);
    assert_eq!(ZERO, 0);
}
