//! The part of Vulkan this renderer speaks, as plain data.
//!
//! Nothing here calls the driver. Recording a frame produces a list of
//! commands, and creating or destroying an object is a request that is carried
//! out elsewhere. Every handle is the driver's own number for the object.
use vstd::prelude::*;

use crate::error::Error;
use crate::format::VkFormat;
use crate::geometry::Point;
use crate::pipeline::Constants;

verus! {

/// "No queue family": a barrier that moves no ownership.
pub const QUEUE_FAMILY_IGNORED: u32 = 0xffff_ffff;

/// Whoever is outside this device: another API, the display, the CPU.
pub const QUEUE_FAMILY_FOREIGN_EXT: u32 = 0xffff_fffd;

/// How an image's memory is arranged.
#[derive(Debug, Clone, Copy, PartialEq, Eq, Structural)]
pub enum ImageLayout {
    /// Whatever is there may be thrown away.
    Undefined,
    General,
    ColorAttachmentOptimal,
    ShaderReadOnlyOptimal,
    TransferSrcOptimal,
    TransferDstOptimal,
}

/// The kind of access a barrier waits for or makes visible.
#[derive(Debug, Clone, Copy, PartialEq, Eq, Structural)]
pub enum Access {
    Empty,
    ShaderRead,
    ColorAttachmentWrite,
    TransferRead,
    TransferWrite,
}

/// The pipeline stages on one side of a barrier.
#[derive(Debug, Clone, Copy, PartialEq, Eq, Structural)]
pub enum Stages {
    TopOfPipe,
    Transfer,
    FragmentShader,
    ColorAttachmentOutput,
    /// Both of the two stages an image may first be used in.
    FragmentShaderOrColorAttachmentOutput,
    BottomOfPipe,
}

/// How pixels between samples are made up.
#[derive(Debug, Clone, Copy, PartialEq, Eq, Structural)]
pub enum Filter {
    Linear,
    Nearest,
}

/// An image memory barrier over the whole colour aspect of an image.
#[derive(Debug, Clone, Copy, PartialEq, Eq, Structural)]
pub struct Barrier {
    pub src_access: Access,
    pub dst_access: Access,
    pub old_layout: ImageLayout,
    pub new_layout: ImageLayout,
    pub src_queue_family: u32,
    pub dst_queue_family: u32,
    pub image: u64,
}

/// A rectangle of a render target.
#[derive(Debug, Clone, Copy, PartialEq, Eq, Structural)]
pub struct Area {
    pub x: i32,
    pub y: i32,
    pub width: u32,
    pub height: u32,
}

/// Which part of a buffer and which part of an image a copy connects.
#[derive(Debug, Clone, Copy, PartialEq, Eq, Structural)]
pub struct BufferImageCopy {
    pub buffer_offset: u64,
    /// Pixels in a row of the buffer; zero means as many as are copied.
    pub buffer_row_length: u32,
    /// Rows in the buffer; zero means as many as are copied.
    pub buffer_image_height: u32,
    pub image_offset: Point,
    pub width: u32,
    pub height: u32,
}

/// Opposite corners of the region a blit reads and of the one it fills.
#[derive(Debug, Clone, Copy, PartialEq, Eq, Structural)]
pub struct ImageBlit {
    pub src_from: Point,
    pub src_to: Point,
    pub dst_from: Point,
    pub dst_to: Point,
}

/// Four numbers of a shader, each by the bits of its single-precision form.
#[derive(Debug, Clone, Copy, PartialEq, Eq, Structural)]
pub struct Vec4 {
    pub x: u32,
    pub y: u32,
    pub z: u32,
    pub w: u32,
}

/// What happens to a target's contents when rendering starts.
#[derive(Debug, Clone, Copy, PartialEq, Eq, Structural)]
pub enum LoadOp {
    /// They survive.
    Load,
    /// They are replaced by a colour: red, green, blue, alpha.
    Clear(Vec4),
}

/// One recorded command.
#[derive(Debug, Clone, Copy, PartialEq, Eq, Structural)]
#[allow(inconsistent_fields)]
pub enum Command {
    /// A barrier on one image.
    Barrier { src: Stages, dst: Stages, barrier: Barrier },
    /// One barrier command over two images.
    Barriers { src: Stages, dst: Stages, first: Barrier, second: Barrier },
    CopyBufferToImage { buffer: u64, image: u64, layout: ImageLayout, region: BufferImageCopy },
    CopyImageToBuffer { image: u64, layout: ImageLayout, buffer: u64, region: BufferImageCopy },
    BlitImage {
        source: u64,
        source_layout: ImageLayout,
        target: u64,
        target_layout: ImageLayout,
        region: ImageBlit,
        filter: Filter,
    },
    /// Start rendering into one attachment, keeping what is drawn.
    BeginRendering { view: u64, layout: ImageLayout, load: LoadOp, area: Area },
    EndRendering,
    /// The viewport from the origin, over the whole depth range.
    SetViewport { width: u32, height: u32 },
    SetScissor { area: Area },
    BindPipeline { pipeline: u64 },
    /// Push the one texture a draw samples.
    PushTexture { layout: u64, sampler: u64, view: u64, image_layout: ImageLayout },
    PushConstants { layout: u64, constants: Constants },
    /// One quad, as a strip of four vertices.
    Draw,
}

/// What an image may be used for.
#[derive(Debug, Clone, Copy, PartialEq, Eq, Structural)]
pub struct Usage {
    pub sampled: bool,
    pub color_attachment: bool,
    pub transfer_src: bool,
    pub transfer_dst: bool,
}

/// How an image's pixels are laid out in memory.
#[derive(Debug, Clone, Copy, PartialEq, Eq, Structural)]
pub enum Tiling {
    /// As a DRM format modifier says.
    Modifier(u64),
    /// As the driver likes.
    Optimal,
}

/// Where one plane of an image lies in its memory.
#[derive(Debug, Clone, Copy, PartialEq, Eq, Structural)]
pub struct PlaneLayout {
    pub offset: u64,
    pub row_pitch: u64,
}

/// A two-dimensional, single-layer image to create, of exclusive sharing and
/// undefined initial layout.
#[derive(Debug)]
pub struct ImageInfo {
    pub format: VkFormat,
    pub width: u32,
    pub height: u32,
    pub usage: Usage,
    pub tiling: Tiling,
    /// One entry for each plane, where the tiling is a modifier's.
    pub planes: Vec<PlaneLayout>,
    /// The planes are bound to separate allocations.
    pub disjoint: bool,
}

/// The matrix a YUV image is decoded with.
#[derive(Debug, Clone, Copy, PartialEq, Eq, Structural)]
pub enum YcbcrModel {
    Ycbcr601,
    Ycbcr709,
}

/// The range a YUV image's values span.
#[derive(Debug, Clone, Copy, PartialEq, Eq, Structural)]
pub enum YcbcrRange {
    ItuNarrow,
}

/// Where a chroma sample sits between luma samples.
#[derive(Debug, Clone, Copy, PartialEq, Eq, Structural)]
pub enum ChromaLocation {
    CositedEven,
    Midpoint,
}

/// A YCbCr conversion, by everything that tells it from another.
#[derive(Debug, Clone, Copy, PartialEq, Eq, Structural)]
pub struct YcbcrKey {
    pub format: VkFormat,
    pub model: YcbcrModel,
    pub range: YcbcrRange,
    pub x_offset: ChromaLocation,
    pub y_offset: ChromaLocation,
    pub filter: Filter,
    pub swapped_chroma: bool,
}

/// Something that has to be given back to the driver or the system.
#[derive(Debug, Clone, Copy, PartialEq, Eq, Structural)]
pub enum Object {
    Image(u64),
    ImageView(u64),
    Memory(u64),
    Buffer(u64),
    /// Memory that is mapped, by its handle.
    Mapping(u64),
    /// A file descriptor nobody has taken over.
    Fd(i32),
    Semaphore(u64),
    Fence(u64),
    CommandPool(u64),
    Pipeline(u64),
    PipelineLayout(u64),
    DescriptorSetLayout(u64),
    Sampler(u64),
    ShaderModule(u64),
}

/// A request to the driver or the system, made while something is being built.
#[derive(Debug)]
#[allow(inconsistent_fields)]
pub enum Call {
    CreateImage(ImageInfo),
    /// Make sure a conversion exists, and name it.
    Conversion(YcbcrKey),
    /// What memory an image needs, as a whole or for one of its memory planes.
    ImageRequirements { image: u64, plane: Option<u32> },
    /// Which memory types a DMA-BUF can back.
    FdMemoryTypes { fd: i32 },
    DuplicateFd { fd: i32 },
    AllocateMemory { size: u64, memory_type: u32 },
    /// Memory over a DMA-BUF, dedicated to an image. The descriptor changes
    /// hands on success.
    ImportMemory { size: u64, memory_type: u32, image: u64, fd: i32 },
    BindImage { image: u64, memory: u64 },
    /// Bind each memory plane of an image to its own allocation, in order.
    BindPlanes { image: u64, memory: Vec<u64> },
    /// A view of the whole image, through a conversion where there is one.
    CreateView { image: u64, format: VkFormat, conversion: Option<u64> },
    /// A buffer that copies read from.
    CreateBuffer { size: u64 },
    BufferRequirements { buffer: u64 },
    BindBuffer { buffer: u64, memory: u64 },
    MapMemory { memory: u64, size: u64 },
    /// A pool whose buffers can be recorded again.
    CreateCommandPool { queue_family: u32 },
    AllocateCommandBuffer { pool: u64 },
    /// A fence that is not signalled yet.
    CreateFence,
    /// A semaphore, exportable as a sync_file or not.
    CreateSemaphore { exportable: bool },
    /// Give a semaphore the payload of a sync_file, for one wait. The
    /// descriptor changes hands on success.
    ImportSemaphore { semaphore: u64, fd: i32 },
    WaitForFence { fence: u64, timeout: u64 },
    ResetCommandBuffer { buffer: u64 },
    /// Start recording for a single submission.
    BeginCommandBuffer { buffer: u64 },
    EndCommandBuffer { buffer: u64 },
    ResetFence { fence: u64 },
    /// Submit a command buffer that waits for some semaphores before any of its
    /// commands run, and signals a semaphore and a fence once they are done.
    Submit { buffer: u64, waits: Vec<u64>, signal: u64, fence: u64 },
    /// Take a semaphore's payload out as a sync_file.
    ExportSemaphore { semaphore: u64 },
    CreateShaderModule { code: Vec<u32> },
    /// A sampler that filters linearly and clamps to the edge.
    CreateSampler,
    /// One pushed texture, read by the fragment shader.
    CreateDescriptorSetLayout,
    /// A layout with one set and a block of constants for both shaders.
    CreatePipelineLayout { set_layout: u64, push_size: u32 },
}

/// How a request went.
#[derive(Debug)]
pub enum Reply {
    /// It made something, or named it.
    Handle(u64),
    /// It is done, and there is nothing to hand back.
    Done,
    Requirements { size: u64, memory_types: u32 },
    MemoryTypes(u32),
    Fd(i32),
    /// The driver refused, with its result code.
    Failed(i32),
    /// It was refused for a reason that is not a result code.
    Refused(String),
}

/// What comes after a reply, while something is being built in several steps.
#[derive(Debug)]
pub enum Progress<S, T> {
    /// There is another request to make.
    Next(S),
    /// It is built.
    Done(T),
    /// It cannot be built. What was made on the way has to be released, in this
    /// order.
    Failed { release: Vec<Object>, error: Error },
}

/// What a command buffer has brought about so far: whether rendering has been
/// started, and the layout of every image.
#[verifier::ext_equal]
pub struct Recording {
    pub rendering: bool,
    pub layouts: Map<u64, ImageLayout>,
}

impl Recording {
    /// Whether a barrier names the layout its image is in. `Undefined` fits
    /// every layout.
    pub open spec fn fits(self, barrier: Barrier) -> bool {
        barrier.old_layout is Undefined || (self.layouts.contains_key(barrier.image)
            && self.layouts[barrier.image] == barrier.old_layout)
    }

    /// The image of a barrier, moved to its new layout.
    pub open spec fn after(self, barrier: Barrier) -> Recording {
        Recording {
            rendering: self.rendering,
            layouts: self.layouts.insert(barrier.image, barrier.new_layout),
        }
    }

    /// Whether an image is in a layout.
    pub open spec fn has(self, image: u64, layout: ImageLayout) -> bool {
        self.layouts.contains_key(image) && self.layouts[image] == layout
    }

    /// What one command brings about, or `None` where Vulkan forbids it:
    /// barriers and transfers belong outside rendering and draws inside it, and
    /// every image has to be in the layout a command says it is in.
    pub open spec fn step(self, command: Command) -> Option<Recording> {
        match command {
            Command::Barrier { barrier, .. } => if !self.rendering && self.fits(barrier) {
                Some(self.after(barrier))
            } else {
                None
            },
            Command::Barriers { first, second, .. } => if !self.rendering && self.fits(first)
                && self.after(first).fits(second) {
                Some(self.after(first).after(second))
            } else {
                None
            },
            Command::CopyBufferToImage { image, layout, .. } => if !self.rendering && self.has(
                image,
                layout,
            ) {
                Some(self)
            } else {
                None
            },
            Command::CopyImageToBuffer { image, layout, .. } => if !self.rendering && self.has(
                image,
                layout,
            ) {
                Some(self)
            } else {
                None
            },
            Command::BlitImage { source, source_layout, target, target_layout, .. } => if
                !self.rendering && self.has(source, source_layout) && self.has(
                target,
                target_layout,
            ) {
                Some(self)
            } else {
                None
            },
            Command::BeginRendering { .. } => if !self.rendering {
                Some(Recording { rendering: true, layouts: self.layouts })
            } else {
                None
            },
            Command::EndRendering => if self.rendering {
                Some(Recording { rendering: false, layouts: self.layouts })
            } else {
                None
            },
            Command::Draw => if self.rendering {
                Some(self)
            } else {
                None
            },
            _ => Some(self),
        }
    }

    /// What a list of commands brings about, or `None` where Vulkan forbids one
    /// of them.
    pub open spec fn run(self, commands: Seq<Command>) -> Option<Recording>
        decreases commands.len(),
    {
        if commands.len() == 0 {
            Some(self)
        } else {
            match self.run(commands.drop_last()) {
                Some(before) => before.step(commands.last()),
                None => None,
            }
        }
    }
}

/// Recording two lists one after the other is recording them joined.
pub proof fn lemma_run_joined(start: Recording, first: Seq<Command>, second: Seq<Command>)
    ensures
        start.run(first + second) == (match start.run(first) {
            Some(between) => between.run(second),
            None => None,
        }),
    decreases second.len(),
{
    if second.len() == 0 {
        assert(first + second =~= first);
    } else {
        assert((first + second).drop_last() =~= first + second.drop_last());
        lemma_run_joined(start, first, second.drop_last());
    }
}

} // verus!
