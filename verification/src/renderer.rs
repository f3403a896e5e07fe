//! What the renderer decides: which formats it takes, how pixels get in and
//! out, and what a frame records.
//!
//! Textures are handed over during a frame, but Vulkan forbids layout
//! transitions and queue ownership transfers inside rendering, so a texture
//! first seen mid-frame could not legally be acquired. It is acquired at import
//! time instead, and left ready to sample.
use std::sync::Arc;

use vstd::prelude::*;

use crate::cache::{
    a_buffer_imported_twice_is_found_again, lemma_index_in_range, lemma_without, without,
    BufferCache, Entry,
};
use crate::color::{sdr, Description, Quotients};
use crate::command::{Commands, Outcome};
use crate::device::Device;
use crate::error::Error;
use crate::format::{
    alpha, common, common_formats, fourcc_video, importable, importable_formats, modifiers,
    renderable, renderable_formats, supports, Format, Fourcc, ModifierSupport, VkFormat,
};
use crate::geometry::{Point, Rectangle, Size, Transform};
use crate::image::{moving, Image};
use crate::pipeline::{
    single, ColorConversion, Constants, Kind, Lookup, Matrix, PipelineInfo, Pipelines, ShaderMap,
    ONE, ZERO,
};
use crate::render::{close_target, closing, draws, open_target, opening, whole, Color};
use crate::text::{append_decimal, append_signed, decimal};
use crate::transform::{
    framebuffer_rect, landed, placement, position, sampling, Source,
};
use crate::vulkan::{
    Access, Area, Barrier, BufferImageCopy, Command, Filter, ImageBlit, ImageLayout, LoadOp,
    Recording, Stages, Vec4,
};

verus! {

/// A client buffer, imported and ready to sample.
///
/// Cloning is cheap and shares the underlying image.
#[derive(Debug, Clone)]
pub struct VulkanTexture {
    pub image: Arc<Image>,
    /// The buffer's y axis runs the other way. The flip is applied when
    /// sampling rather than by copying the rows in a different order.
    pub flipped: bool,
    /// Only images this renderer allocated can be uploaded into. A DMA-BUF is
    /// the client's memory and writing to it would be a data race.
    pub uploadable: bool,
    /// What the pixels in this buffer mean.
    pub description: Description,
}

impl VulkanTexture {
    /// A texture over an imported DMA-BUF: the right way up, the client's to
    /// write, and in the colours of a client that says nothing of them.
    pub open spec fn over_dmabuf(image: Arc<Image>) -> VulkanTexture {
        VulkanTexture { image, flipped: false, uploadable: false, description: sdr() }
    }

    /// A texture over an image this renderer allocated.
    pub open spec fn over_memory(image: Arc<Image>, flipped: bool) -> VulkanTexture {
        VulkanTexture { image, flipped, uploadable: true, description: sdr() }
    }

    /// A texture over an imported DMA-BUF.
    pub fn imported(image: Arc<Image>) -> (texture: VulkanTexture)
        ensures
            texture == VulkanTexture::over_dmabuf(image),
    {
        VulkanTexture {
            image,
            flipped: false,
            uploadable: false,
            description: Description::default(),
        }
    }

    /// A texture over an image this renderer allocated.
    pub fn allocated(image: Arc<Image>, flipped: bool) -> (texture: VulkanTexture)
        ensures
            texture == VulkanTexture::over_memory(image, flipped),
    {
        VulkanTexture { image, flipped, uploadable: true, description: Description::default() }
    }

    /// The image behind the texture.
    pub fn image(&self) -> (image: &Image)
        ensures
            *image == *self.image,
    {
        &self.image
    }

    pub fn is_flipped(&self) -> (flipped: bool)
        ensures
            flipped == self.flipped,
    {
        self.flipped
    }

    /// What the pixels in this buffer mean.
    pub fn description(&self) -> (description: &Description)
        ensures
            *description == self.description,
    {
        &self.description
    }

    /// Say what this buffer's pixels mean.
    ///
    /// Taken by value because a texture is a cheap handle: the caller gets a
    /// second view of the same image with a different description.
    pub fn with_description(self, description: Description) -> (texture: VulkanTexture)
        ensures
            texture == (VulkanTexture { description, ..self }),
    {
        let mut texture = self;
        texture.description = description;
        texture
    }

    pub fn width(&self) -> (width: u32)
        ensures
            width == self.image.width,
    {
        self.image.width
    }

    pub fn height(&self) -> (height: u32)
        ensures
            height == self.image.height,
    {
        self.image.height
    }

    pub fn format(&self) -> (format: Option<Fourcc>)
        ensures
            format == Some(self.image.fourcc),
    {
        Some(self.image.fourcc)
    }
}

/// A texture that is kept for a buffer, with whatever gives its image back once
/// nobody holds it any more.
#[derive(Debug, Clone)]
pub struct Held<G> {
    pub texture: VulkanTexture,
    pub guard: G,
}

impl<G> Held<G> {
    /// What is kept for an imported DMA-BUF.
    pub open spec fn is_dmabuf(self) -> bool {
        self.texture == VulkanTexture::over_dmabuf(self.texture.image)
    }

    /// What is kept for a buffer in shared memory.
    pub open spec fn is_memory(self) -> bool {
        self.texture == VulkanTexture::over_memory(self.texture.image, false)
    }
}

/// Whether a client's buffer of this format would be accepted.
pub open spec fn accepted(device: Device, format: Format) -> bool {
    exists|i: int|
        0 <= i < supports(device.physical, format.code).len() && (#[trigger] supports(
            device.physical,
            format.code,
        )[i]).modifier == format.modifier && supports(device.physical, format.code)[i].accepts(
            format.code,
        )
}

/// The formats pixels in memory may have: the four every Wayland compositor is
/// expected to take, all of four bytes per pixel.
pub fn mem_formats() -> (formats: Vec<Fourcc>)
    ensures
        formats@ == seq![
            Fourcc::Argb8888,
            Fourcc::Xrgb8888,
            Fourcc::Abgr8888,
            Fourcc::Xbgr8888,
        ],
{
    let formats = vec![Fourcc::Argb8888, Fourcc::Xrgb8888, Fourcc::Abgr8888, Fourcc::Xbgr8888];
    assert(formats@ =~= seq![
        Fourcc::Argb8888,
        Fourcc::Xrgb8888,
        Fourcc::Abgr8888,
        Fourcc::Xbgr8888,
    ]);
    formats
}

/// The modifiers of a format that can be rendered into, in the order the device
/// lists them.
pub open spec fn renderable_modifiers(device: Device, format: Fourcc) -> Seq<u64> {
    supports(device.physical, format).filter(|s: ModifierSupport| s.renders()).map_values(
        |s: ModifierSupport| s.modifier,
    )
}

/// An offscreen buffer to be allocated.
#[derive(Debug)]
pub struct BufferRequest {
    pub width: u32,
    pub height: u32,
    pub format: Fourcc,
    pub modifiers: Vec<u64>,
}

/// An extent that is not negative.
pub open spec fn extent(n: i32) -> u32 {
    if n < 0 {
        0
    } else {
        n as u32
    }
}

/// An extent that is not negative.
fn to_extent(n: i32) -> (clamped: u32)
    ensures
        clamped == extent(n),
{
    if n < 0 {
        0
    } else {
        n as u32
    }
}

/// Why an offscreen buffer cannot be had, or `None` where an allocator can be
/// asked.
pub open spec fn offscreen_refusal(device: Device, format: Fourcc, can_allocate: bool) -> Option<
    Seq<char>,
> {
    if renderable_modifiers(device, format).len() == 0 {
        Some(format.text() + " cannot be rendered into on "@ + device.physical.name@)
    } else if !can_allocate {
        Some(
            "this renderer was built without an allocator; use VulkanRenderer::with_allocator"@,
        )
    } else {
        None
    }
}

/// A renderer: a device, what is recorded and built on it, and what is kept for
/// the buffers it has seen.
///
/// `G` is what gives the image of a texture back, and `R` is how a render target
/// is held.
#[derive(Debug)]
pub struct VulkanRenderer<G, R> {
    pub device: Device,
    pub commands: Commands,
    pub pipelines: Pipelines,
    /// Imported client buffers, so a surface is not imported again every frame.
    pub imported: BufferCache<Held<G>>,
    /// Render targets, kept the same way. Binding the same output buffer each
    /// frame is the common case.
    pub targets: BufferCache<R>,
    /// Textures for buffers in shared memory, so a surface that commits every
    /// frame is updated in place.
    pub shm: BufferCache<Held<G>>,
    /// Whether buffers can be allocated. A renderer does not need to: buffers
    /// normally arrive from clients or from the compositor's own swapchain.
    pub allocates: bool,
    /// What the output expects. Every textured draw converts into this.
    pub output: Description,
}

impl<G, R> VulkanRenderer<G, R> {
    /// What a renderer keeps for buffers is listed once for each, and is what
    /// was made of the buffer when it was first seen.
    pub open spec fn is_valid(self) -> bool {
        &&& self.imported.is_valid()
        &&& self.targets.is_valid()
        &&& self.shm.is_valid()
        &&& self.commands.is_valid()
        &&& forall|i: int|
            0 <= i < self.imported.entries@.len() ==> (
            #[trigger] self.imported.entries@[i]).value.is_dmabuf()
        &&& forall|i: int|
            0 <= i < self.shm.entries@.len() ==> (
            #[trigger] self.shm.entries@[i]).value.is_memory()
    }

    /// A renderer that takes the buffers it is given.
    pub fn new(device: Device, commands: Commands, pipelines: Pipelines) -> (renderer:
        VulkanRenderer<G, R>)
        requires
            commands.is_valid(),
        ensures
            renderer.device == device,
            renderer.commands == commands,
            renderer.pipelines == pipelines,
            renderer.imported.entries@.len() == 0,
            renderer.targets.entries@.len() == 0,
            renderer.shm.entries@.len() == 0,
            !renderer.allocates,
            renderer.output == sdr(),
            renderer.is_valid(),
    {
        VulkanRenderer {
            device,
            commands,
            pipelines,
            imported: BufferCache::new(),
            targets: BufferCache::new(),
            shm: BufferCache::new(),
            allocates: false,
            output: Description::default(),
        }
    }

    /// A renderer that can also allocate its own render targets.
    pub fn with_allocator(device: Device, commands: Commands, pipelines: Pipelines) -> (renderer:
        VulkanRenderer<G, R>)
        requires
            commands.is_valid(),
        ensures
            renderer.device == device,
            renderer.commands == commands,
            renderer.pipelines == pipelines,
            renderer.imported.entries@.len() == 0,
            renderer.targets.entries@.len() == 0,
            renderer.shm.entries@.len() == 0,
            renderer.allocates,
            renderer.output == sdr(),
            renderer.is_valid(),
    {
        let mut renderer = VulkanRenderer::new(device, commands, pipelines);
        renderer.allocates = true;
        renderer
    }

    /// What the output expects; textures are converted into it.
    pub fn output_description(&self) -> (description: &Description)
        ensures
            *description == self.output,
    {
        &self.output
    }

    /// Set what the output expects.
    ///
    /// Everything drawn is converted into this, which is what lets an SDR and
    /// an HDR surface share a screen without one of them being wrong.
    pub fn set_output_description(&mut self, description: Description)
        ensures
            *final(self) == (VulkanRenderer { output: description, ..*old(self) }),
    {
        self.output = description;
    }

    /// Whether buffers can be allocated.
    pub fn can_allocate(&self) -> (can: bool)
        ensures
            can == self.allocates,
    {
        self.allocates
    }

    pub fn device(&self) -> (device: &Device)
        ensures
            *device == self.device,
    {
        &self.device
    }

    /// The formats clients may use.
    pub fn dmabuf_formats(&self) -> (formats: Vec<Format>)
        ensures
            formats@ == importable_formats(self.device.physical, common()),
    {
        importable(self.device.physical(), common_formats().as_slice())
    }

    /// The formats an output buffer may use.
    pub fn supported_formats(&self) -> (formats: Vec<Format>)
        ensures
            formats@ == renderable_formats(self.device.physical, common()),
    {
        renderable(self.device.physical(), common_formats().as_slice())
    }

    /// Whether a client's buffer of this format would be accepted.
    pub fn has_dmabuf_format(&self, format: Format) -> (has: bool)
        ensures
            has == accepted(self.device, format),
    {
        let supported = modifiers(self.device.physical(), format.code);
        for i in 0..supported.len()
            invariant
                supported@ == supports(self.device.physical, format.code),
                forall|j: int|
                    0 <= j < i ==> !((#[trigger] supported@[j]).modifier == format.modifier
                        && supported@[j].accepts(format.code)),
        {
            if supported[i].modifier == format.modifier && supported[i].is_importable(format.code) {
                return true;
            }
        }
        false
    }

    /// What to ask an allocator for, to get an offscreen buffer.
    ///
    /// Renderable modifiers only: the whole point of an offscreen buffer is
    /// that something will be drawn into it.
    pub fn create_buffer(&self, format: Fourcc, size: Size) -> (request: Result<
        BufferRequest,
        Error,
    >)
        ensures
            match request {
                Ok(request) => {
                    &&& offscreen_refusal(self.device, format, self.allocates) is None
                    &&& request.width == extent(size.w)
                    &&& request.height == extent(size.h)
                    &&& request.format == format
                    &&& request.modifiers@ == renderable_modifiers(self.device, format)
                },
                Err(error) => error is Unsupported && offscreen_refusal(
                    self.device,
                    format,
                    self.allocates,
                ) == Some(error.text()),
            },
    {
        let supported = modifiers(self.device.physical(), format);
        let ghost test = |s: ModifierSupport| s.renders();
        let ghost name = |s: ModifierSupport| s.modifier;
        let mut found: Vec<u64> = Vec::new();
        proof {
            reveal(Seq::filter);
        }
        for i in 0..supported.len()
            invariant
                test == (|s: ModifierSupport| s.renders()),
                name == (|s: ModifierSupport| s.modifier),
                found@ =~= supported@.take(i as int).filter(test).map_values(name),
        {
            proof {
                reveal(Seq::filter);
                assert(supported@.take(i + 1).drop_last() =~= supported@.take(i as int));
            }
            if supported[i].is_renderable() {
                found.push(supported[i].modifier);
            }
        }
        assert(supported@.take(supported@.len() as int) =~= supported@);
        if found.len() == 0 {
            let mut text = String::new();
            format.append_to(&mut text);
            text.append(" cannot be rendered into on ");
            text.append(self.device.name());
            assert(text@ =~= format.text() + " cannot be rendered into on "@
                + self.device.physical.name@);
            return Err(Error::Unsupported(text));
        }
        if !self.allocates {
            return Err(
                Error::Unsupported(
                    "this renderer was built without an allocator; use VulkanRenderer::with_allocator".to_owned(),
                ),
            );
        }
        Ok(
            BufferRequest {
                width: to_extent(size.w),
                height: to_extent(size.h),
                format,
                modifiers: found,
            },
        )
    }

    /// Drop what is kept for buffers that are gone.
    pub fn reap(&mut self, gone: &Vec<u64>)
        ensures
            final(self).reaped(*old(self), gone@),
    {
        self.imported.forget(gone);
        self.targets.forget(gone);
        proof {
            if old(self).is_valid() {
                lemma_without(old(self).imported.entries@, gone@);
                assert forall|i: int| 0 <= i < self.imported.entries@.len() implies (
                #[trigger] self.imported.entries@[i]).value.is_dmabuf() by {
                    assert(old(self).imported.entries@.contains(self.imported.entries@[i]));
                }
            }
        }
    }

    /// Nothing is kept for buffers that are gone, and all else is as it was.
    pub open spec fn reaped(self, before: VulkanRenderer<G, R>, gone: Seq<u64>) -> bool {
        &&& self == (VulkanRenderer { imported: self.imported, targets: self.targets, ..before })
        &&& self.imported.entries@ == without(before.imported.entries@, gone)
        &&& self.targets.entries@ == without(before.targets.entries@, gone)
        &&& before.is_valid() ==> self.is_valid()
    }

    /// Find the texture of a buffer that was imported before, after dropping
    /// what is kept for buffers that are gone.
    ///
    /// Where there is one, it has been acquired already. The client may have
    /// painted into it since, but the image and its memory are the same;
    /// importing it again would allocate a second image over the same memory.
    pub fn import_dmabuf(&mut self, gone: &Vec<u64>, buffer: u64) -> (found: Option<&Held<G>>)
        ensures
            final(self).reaped(*old(self), gone@),
            match found {
                Some(held) => {
                    &&& final(self).imported.kept(buffer) == Some(*held)
                    &&& old(self).is_valid() ==> held.is_dmabuf()
                },
                None => final(self).imported.kept(buffer) is None,
            },
    {
        self.reap(gone);
        proof {
            lemma_index_in_range(self.imported.entries@, buffer);
        }
        self.imported.get(buffer)
    }

    /// Keep the texture over the image of a buffer that has just been imported.
    pub fn imported(&mut self, buffer: u64, image: Arc<Image>, guard: G)
        requires
            old(self).imported.kept(buffer) is None,
        ensures
            final(self).keeps(
                *old(self),
                buffer,
                Held { texture: VulkanTexture::over_dmabuf(image), guard },
            ),
            old(self).is_valid() ==> final(self).is_valid(),
    {
        self.imported.insert(buffer, Held { texture: VulkanTexture::imported(image), guard });
    }

    /// A texture is kept for one more imported buffer, and all else is as it was.
    pub open spec fn keeps(
        self,
        before: VulkanRenderer<G, R>,
        buffer: u64,
        held: Held<G>,
    ) -> bool {
        &&& self == (VulkanRenderer { imported: self.imported, ..before })
        &&& self.imported.entries@ == before.imported.entries@.push(
            Entry { key: buffer, value: held },
        )
    }

    /// Find the target of a buffer that was bound before, after dropping what
    /// is kept for buffers that are gone.
    pub fn bind(&mut self, gone: &Vec<u64>, buffer: u64) -> (found: Option<&R>)
        ensures
            final(self).reaped(*old(self), gone@),
            match found {
                Some(target) => final(self).targets.kept(buffer) == Some(*target),
                None => final(self).targets.kept(buffer) is None,
            },
    {
        self.reap(gone);
        self.targets.get(buffer)
    }

    /// Keep the target of a buffer that has just been imported to be rendered
    /// into.
    pub fn bound(&mut self, buffer: u64, target: R)
        requires
            old(self).targets.kept(buffer) is None,
        ensures
            *final(self) == (VulkanRenderer { targets: final(self).targets, ..*old(self) }),
            final(self).targets.entries@ == old(self).targets.entries@.push(
                Entry { key: buffer, value: target },
            ),
            old(self).is_valid() ==> final(self).is_valid(),
    {
        self.targets.insert(buffer, target);
    }
}

/// Importing the same buffer twice reuses the image: what was made of it the
/// first time is found for as long as the buffer is there, the right way up and
/// in the colours of a client that says nothing. Nothing is made or submitted
/// for it.
pub proof fn importing_the_same_buffer_twice_reuses_the_image<G, R>(
    before: VulkanRenderer<G, R>,
    after: VulkanRenderer<G, R>,
    later: VulkanRenderer<G, R>,
    buffer: u64,
    image: Arc<Image>,
    guard: G,
    gone: Seq<u64>,
)
    requires
        before.is_valid(),
        before.imported.kept(buffer) is None,
        after.keeps(before, buffer, Held { texture: VulkanTexture::over_dmabuf(image), guard }),
        later.reaped(after, gone),
        !gone.contains(buffer),
    ensures
        later.imported.kept(buffer) matches Some(held) && {
            &&& held.texture.image == image
            &&& held.guard == guard
            &&& !held.texture.flipped
            &&& held.texture.description == sdr()
        },
        later.commands == before.commands,
        later.pipelines == before.pipelines,
        later.imported.entries@.len() <= before.imported.entries@.len() + 1,
{
    let held = Held { texture: VulkanTexture::over_dmabuf(image), guard };
    a_buffer_imported_twice_is_found_again(
        before.imported,
        after.imported,
        later.imported,
        buffer,
        held,
        gone,
    );
    let test = |e: Entry<Held<G>>| !gone.contains(e.key);
    after.imported.entries@.lemma_filter_len(test);
}

/// Whatever is kept for an imported buffer is the right way up, is the client's
/// to write, and is in the colours of a client that says nothing.
pub proof fn what_is_kept_of_a_buffer_is_as_it_was_imported<G, R>(
    renderer: VulkanRenderer<G, R>,
    buffer: u64,
)
    requires
        renderer.is_valid(),
    ensures
        renderer.imported.kept(buffer) matches Some(held) ==> {
            &&& !held.texture.flipped
            &&& !held.texture.uploadable
            &&& held.texture.description == sdr()
        },
{
    lemma_index_in_range(renderer.imported.entries@, buffer);
}

/// A rectangle of a buffer as it reads in a message.
pub open spec fn region_text(region: Rectangle) -> Seq<char> {
    "Rectangle<smithay::utils::geometry::Buffer> { x: "@ + decimal(region.loc.x as int) + ", y: "@
        + decimal(region.loc.y as int) + ", width: "@ + decimal(region.size.w as int)
        + ", height: "@ + decimal(region.size.h as int) + " }"@
}

/// What is said of a region that does not fit.
pub open spec fn outside_text(region: Rectangle, width: u32, height: u32, what: Seq<char>) -> Seq<
    char,
> {
    "region "@ + region_text(region) + " is outside the "@ + decimal(width as int) + "x"@ + decimal(
        height as int,
    ) + what
}

/// An error about a region that does not fit.
fn outside_error(region: Rectangle, width: u32, height: u32, what: &str) -> (error: Error)
    ensures
        error is Unsupported,
        error.text() == outside_text(region, width, height, what@),
{
    let mut text = String::new();
    text.append("region ");
    text.append("Rectangle<smithay::utils::geometry::Buffer> { x: ");
    append_signed(&mut text, region.loc.x);
    text.append(", y: ");
    append_signed(&mut text, region.loc.y);
    text.append(", width: ");
    append_signed(&mut text, region.size.w);
    text.append(", height: ");
    append_signed(&mut text, region.size.h);
    text.append(" }");
    text.append(" is outside the ");
    append_decimal(&mut text, width as u64);
    text.append("x");
    append_decimal(&mut text, height as u64);
    text.append(what);
    assert(text@ =~= outside_text(region, width, height, what@));
    Error::Unsupported(text)
}

/// Whether a region has an area, once what is negative is taken as zero.
pub open spec fn has_area(region: Rectangle) -> bool {
    region.size.w > 0 && region.size.h > 0
}

/// Whether a region stays inside an extent, once what is negative is taken as
/// zero.
pub open spec fn stays_inside(region: Rectangle, width: u32, height: u32) -> bool {
    &&& extent(region.loc.x) + extent(region.size.w) <= width
    &&& extent(region.loc.y) + extent(region.size.h) <= height
}

/// The bytes of a tightly packed image of four bytes per pixel.
pub open spec fn packed_bytes(width: u32, height: u32) -> int {
    width * 4 * height
}

/// Why pixels cannot be copied into a region of an image, or `None` where they
/// can.
pub open spec fn upload_refusal(image: Image, len: int, region: Rectangle) -> Option<Seq<char>> {
    if !has_area(region) {
        Some("an empty upload region"@)
    } else if !stays_inside(region, image.width, image.height) {
        Some(outside_text(region, image.width, image.height, " texture"@))
    } else if len < packed_bytes(image.width, image.height) {
        Some(
            decimal(len) + " bytes of pixels for a "@ + decimal(image.width as int) + "x"@
                + decimal(image.height as int) + " texture that needs "@ + decimal(
                packed_bytes(image.width, image.height),
            ),
        )
    } else {
        None
    }
}

/// A copy of CPU pixels into an image this renderer owns.
#[derive(Debug, Clone, Copy, PartialEq, Eq, Structural)]
pub struct Upload {
    pub image: u64,
    /// The layout the image is in before the copy.
    pub from_layout: ImageLayout,
    /// The bytes to stage: the whole image even for a partial update, so the
    /// copy can use the source stride directly instead of packing rows.
    pub needed: u64,
    pub region: BufferImageCopy,
}

/// The copy for a region of an image.
pub open spec fn upload_region(image: Image, region: Rectangle) -> BufferImageCopy {
    let x = extent(region.loc.x);
    let y = extent(region.loc.y);
    BufferImageCopy {
        buffer_offset: (y * (image.width * 4) + x * 4) as u64,
        buffer_row_length: image.width,
        buffer_image_height: image.height,
        image_offset: Point { x: x as i32, y: y as i32 },
        width: extent(region.size.w),
        height: extent(region.size.h),
    }
}

/// The commands of an upload out of a staging buffer.
pub open spec fn upload_commands(upload: Upload, staging: u64) -> Seq<Command> {
    seq![
        Command::Barrier {
            src: Stages::TopOfPipe,
            dst: Stages::Transfer,
            barrier: moving(
                upload.image,
                upload.from_layout,
                ImageLayout::TransferDstOptimal,
                Access::Empty,
                Access::TransferWrite,
            ),
        },
        Command::CopyBufferToImage {
            buffer: staging,
            image: upload.image,
            layout: ImageLayout::TransferDstOptimal,
            region: upload.region,
        },
        Command::Barrier {
            src: Stages::Transfer,
            dst: Stages::FragmentShader,
            barrier: moving(
                upload.image,
                ImageLayout::TransferDstOptimal,
                ImageLayout::ShaderReadOnlyOptimal,
                Access::TransferWrite,
                Access::ShaderRead,
            ),
        },
    ]
}

proof fn lemma_offset_inside(x: int, y: int, w: int, h: int, width: int, height: int)
    by (nonlinear_arith)
    requires
        0 <= x,
        0 <= y,
        0 < w,
        0 < h,
        x + w <= width,
        y + h <= height,
    ensures
        0 <= y * (width * 4),
        y * (width * 4) + x * 4 + (h - 1) * (width * 4) + w * 4 <= width * 4 * height,
        0 <= (h - 1) * (width * 4),
{
}

impl Upload {
    /// Decide how to copy `data` into `region` of an image, or why not.
    ///
    /// Too small is an error and beyond is ignored.
    pub fn plan(image: &Image, data: &[u8], region: Rectangle, from_layout: ImageLayout) -> (upload:
        Result<Upload, Error>)
        requires
            packed_bytes(image.width, image.height) <= u64::MAX,
        ensures
            match upload {
                Ok(upload) => {
                    &&& upload_refusal(*image, data@.len() as int, region) is None
                    &&& upload.image == image.image
                    &&& upload.from_layout == from_layout
                    &&& upload.needed == packed_bytes(image.width, image.height)
                    &&& upload.region == upload_region(*image, region)
                },
                Err(error) => error is Unsupported && upload_refusal(
                    *image,
                    data@.len() as int,
                    region,
                ) == Some(error.text()),
            },
    {
        let x: u32 = to_extent(region.loc.x);
        let y: u32 = to_extent(region.loc.y);
        let w: u32 = to_extent(region.size.w);
        let h: u32 = to_extent(region.size.h);
        if w == 0 || h == 0 {
            return Err(Error::Unsupported("an empty upload region".to_owned()));
        }
        if x + w > image.width || y + h > image.height {
            return Err(outside_error(region, image.width, image.height, " texture"));
        }
        // Four bytes per pixel: every format pixels in memory may have is that.

        let stride: u64 = image.width as u64 * 4;
        assert(stride * image.height == packed_bytes(image.width, image.height));
        let needed: u64 = stride * image.height as u64;
        if (data.len() as u64) < needed {
            let mut text = String::new();
            append_decimal(&mut text, data.len() as u64);
            text.append(" bytes of pixels for a ");
            append_decimal(&mut text, image.width as u64);
            text.append("x");
            append_decimal(&mut text, image.height as u64);
            text.append(" texture that needs ");
            append_decimal(&mut text, needed);
            assert(text@ =~= decimal(data@.len() as int) + " bytes of pixels for a "@ + decimal(
                image.width as int,
            ) + "x"@ + decimal(image.height as int) + " texture that needs "@ + decimal(
                needed as int,
            ));
            return Err(Error::Unsupported(text));
        }
        proof {
            lemma_offset_inside(
                x as int,
                y as int,
                w as int,
                h as int,
                image.width as int,
                image.height as int,
            );
        }
        let copy = BufferImageCopy {
            // Where the region starts within the staged buffer.
            buffer_offset: y as u64 * stride + x as u64 * 4,
            // In pixels, not bytes: this is how a partial update reads the
            // right rows out of a full-size source.
            buffer_row_length: image.width,
            buffer_image_height: image.height,
            image_offset: Point { x: x as i32, y: y as i32 },
            width: w,
            height: h,
        };
        Ok(Upload { image: image.image, from_layout, needed, region: copy })
    }

    /// The part of the pixels that is staged.
    pub fn staged<'a>(&self, data: &'a [u8]) -> (staged: &'a [u8])
        requires
            self.needed <= data@.len(),
        ensures
            staged@ == data@.take(self.needed as int),
    {
        let len: usize = data.len();
        assert(self.needed <= len);
        let end: usize = self.needed as usize;
        assert(data@.subrange(0, end as int) =~= data@.take(end as int));
        vstd::slice::slice_subrange(data, 0, end)
    }

    /// What to record, once the pixels are in a staging buffer.
    pub fn commands(&self, staging: u64) -> (commands: Vec<Command>)
        ensures
            commands@ == upload_commands(*self, staging),
    {
        let commands = vec![
            Command::Barrier {
                src: Stages::TopOfPipe,
                dst: Stages::Transfer,
                barrier: transition(
                    self.image,
                    self.from_layout,
                    ImageLayout::TransferDstOptimal,
                    Access::Empty,
                    Access::TransferWrite,
                ),
            },
            Command::CopyBufferToImage {
                buffer: staging,
                image: self.image,
                layout: ImageLayout::TransferDstOptimal,
                region: self.region,
            },
            Command::Barrier {
                src: Stages::Transfer,
                dst: Stages::FragmentShader,
                barrier: transition(
                    self.image,
                    ImageLayout::TransferDstOptimal,
                    ImageLayout::ShaderReadOnlyOptimal,
                    Access::TransferWrite,
                    Access::ShaderRead,
                ),
            },
        ];
        assert(commands@ =~= upload_commands(*self, staging));
        commands
    }
}

/// A layout transition that moves no ownership.
fn transition(
    image: u64,
    from: ImageLayout,
    to: ImageLayout,
    src_access: Access,
    dst_access: Access,
) -> (barrier: Barrier)
    ensures
        barrier == moving(image, from, to, src_access, dst_access),
{
    Barrier {
        src_access,
        dst_access,
        old_layout: from,
        new_layout: to,
        src_queue_family: crate::vulkan::QUEUE_FAMILY_IGNORED,
        dst_queue_family: crate::vulkan::QUEUE_FAMILY_IGNORED,
        image,
    }
}

/// An upload reads nothing beyond the pixels that were staged: the last byte of
/// the last row of the region is among them.
pub proof fn an_upload_stays_inside_the_staged_pixels(image: Image, len: int, region: Rectangle)
    requires
        packed_bytes(image.width, image.height) <= u64::MAX,
        upload_refusal(image, len, region) is None,
    ensures
        ({
            let copy = upload_region(image, region);
            copy.buffer_offset + (copy.height - 1) * (copy.buffer_row_length * 4) + copy.width * 4
                <= packed_bytes(image.width, image.height)
        }),
        packed_bytes(image.width, image.height) <= len,
        upload_region(image, region).image_offset.x + upload_region(image, region).width
            <= image.width,
        upload_region(image, region).image_offset.y + upload_region(image, region).height
            <= image.height,
{
    lemma_offset_inside(
        extent(region.loc.x) as int,
        extent(region.loc.y) as int,
        extent(region.size.w) as int,
        extent(region.size.h) as int,
        image.width as int,
        image.height as int,
    );
}

/// An upload is a recording Vulkan allows, and leaves its image ready to be
/// sampled and every other image alone.
pub proof fn an_upload_leaves_its_image_ready_to_sample(
    upload: Upload,
    staging: u64,
    start: Recording,
)
    requires
        !start.rendering,
        upload.from_layout is Undefined || start.has(upload.image, upload.from_layout),
    ensures
        start.run(upload_commands(upload, staging)) == Some(
            (Recording {
                rendering: false,
                layouts: start.layouts.insert(upload.image, ImageLayout::ShaderReadOnlyOptimal),
            }),
        ),
{
    let c = upload_commands(upload, staging);
    reveal_with_fuel(Recording::run, 4);
    assert(c.drop_last() =~= seq![c[0], c[1]]);
    assert(c.drop_last().drop_last() =~= seq![c[0]]);
    assert(c.drop_last().drop_last().drop_last() =~= Seq::empty());
    let moved = start.layouts.insert(upload.image, ImageLayout::TransferDstOptimal);
    assert(moved.insert(upload.image, ImageLayout::ShaderReadOnlyOptimal) =~= start.layouts.insert(
        upload.image,
        ImageLayout::ShaderReadOnlyOptimal,
    ));
}

/// The size of an image for pixels in memory, or why there is none.
pub fn import_memory(size: Size) -> (extents: Result<(u32, u32), Error>)
    ensures
        match extents {
            Ok((width, height)) => size.w > 0 && size.h > 0 && width == size.w && height == size.h,
            Err(error) => (size.w <= 0 || size.h <= 0) && error is Unsupported && error.text()
                == "a zero-sized memory import"@,
        },
{
    let width: u32 = to_extent(size.w);
    let height: u32 = to_extent(size.h);
    if width == 0 || height == 0 {
        return Err(Error::Unsupported("a zero-sized memory import".to_owned()));
    }
    Ok((width, height))
}

/// Why part of a texture's pixels cannot be replaced, or `None` where it can.
pub open spec fn update_refusal(texture: VulkanTexture, len: int, region: Rectangle) -> Option<
    Seq<char>,
> {
    if !texture.uploadable {
        Some("this texture was imported from a dmabuf and cannot be uploaded into"@)
    } else {
        upload_refusal(*texture.image, len, region)
    }
}

/// The copy that replaces part of a texture's pixels.
pub open spec fn update(texture: VulkanTexture, region: Rectangle) -> Upload {
    Upload {
        image: texture.image.image,
        from_layout: ImageLayout::ShaderReadOnlyOptimal,
        needed: packed_bytes(texture.image.width, texture.image.height) as u64,
        region: upload_region(*texture.image, region),
    }
}

/// Decide how to replace part of a texture's pixels, or why not.
///
/// The texture is ready to be sampled from the previous upload, and its
/// contents outside the region have to survive.
pub fn update_memory(texture: &VulkanTexture, data: &[u8], region: Rectangle) -> (upload: Result<
    Upload,
    Error,
>)
    requires
        packed_bytes(texture.image.width, texture.image.height) <= u64::MAX,
    ensures
        match upload {
            Ok(upload) => update_refusal(*texture, data@.len() as int, region) is None && upload
                == update(*texture, region),
            Err(error) => error is Unsupported && update_refusal(
                *texture,
                data@.len() as int,
                region,
            ) == Some(error.text()),
        },
{
    if !texture.uploadable {
        return Err(
            Error::Unsupported(
                "this texture was imported from a dmabuf and cannot be uploaded into".to_owned(),
            ),
        );
    }
    Upload::plan(&texture.image, data, region, ImageLayout::ShaderReadOnlyOptimal)
}

/// What a list of damaged regions of a texture comes to.
#[derive(Debug)]
pub struct Updates {
    /// One copy for each region, in order, up to the first that is refused.
    pub uploads: Vec<Upload>,
    /// Why a region is refused. The copies before it are still carried out.
    pub refused: Option<Error>,
}

impl Updates {
    /// Whether this is what the damage of a texture comes to, for so many bytes
    /// of pixels.
    pub open spec fn follow(self, texture: VulkanTexture, len: int, damage: Seq<Rectangle>) -> bool {
        let done = self.uploads@.len() as int;
        &&& forall|i: int|
            0 <= i < done ==> update_refusal(texture, len, damage[i]) is None
                && #[trigger] self.uploads@[i] == update(texture, damage[i])
        &&& match self.refused {
            None => done == damage.len(),
            Some(error) => done < damage.len() && error is Unsupported && update_refusal(
                texture,
                len,
                damage[done],
            ) == Some(error.text()),
        }
    }
}

/// Decide how to replace the damaged parts of a texture's pixels.
///
/// No damage means that nothing changed, and then nothing is uploaded.
pub fn update_damage(texture: &VulkanTexture, data: &[u8], damage: &[Rectangle]) -> (updates:
    Updates)
    requires
        packed_bytes(texture.image.width, texture.image.height) <= u64::MAX,
    ensures
        updates.follow(*texture, data@.len() as int, damage@),
{
    let mut uploads: Vec<Upload> = Vec::new();
    for i in 0..damage.len()
        invariant
            packed_bytes(texture.image.width, texture.image.height) <= u64::MAX,
            uploads@.len() == i,
            forall|j: int|
                0 <= j < i ==> update_refusal(*texture, data@.len() as int, damage@[j]) is None
                    && #[trigger] uploads@[j] == update(*texture, damage@[j]),
    {
        match update_memory(texture, data, damage[i]) {
            Ok(upload) => {
                uploads.push(upload);
            },
            Err(error) => {
                return Updates { uploads, refused: Some(error) };
            },
        }
    }
    Updates { uploads, refused: None }
}

/// Pixels downloaded from the GPU.
#[derive(Debug, Clone, Copy, PartialEq, Eq, Structural)]
pub struct VulkanMapping {
    pub width: u32,
    pub height: u32,
    pub fourcc: Fourcc,
    /// Bytes actually occupied, which is less than the buffer where the
    /// allocator rounded the size up.
    pub len: u64,
}

impl VulkanMapping {
    pub fn width(&self) -> (width: u32)
        ensures
            width == self.width,
    {
        self.width
    }

    pub fn height(&self) -> (height: u32)
        ensures
            height == self.height,
    {
        self.height
    }

    pub fn format(&self) -> (format: Option<Fourcc>)
        ensures
            format == Some(self.fourcc),
    {
        Some(self.fourcc)
    }

    /// The copy reads rows in image order, so what comes out is the same way up
    /// as what went in.
    pub fn flipped(&self) -> (flipped: bool)
        ensures
            !flipped,
    {
        false
    }
}

/// Why a region of an image cannot be read back, or `None` where it can.
pub open spec fn download_refusal(image: Image, region: Rectangle, format: Fourcc) -> Option<
    Seq<char>,
> {
    if !image.usage.transfer_src {
        Some(
            "this image was imported without transfer support and cannot be read back"@,
        )
    } else if format != image.fourcc {
        Some(
            "cannot convert "@ + image.fourcc.text() + " to "@ + format.text()
                + " while copying"@,
        )
    } else if !has_area(region) {
        Some("an empty copy region"@)
    } else if !stays_inside(region, image.width, image.height) {
        Some(outside_text(region, image.width, image.height, " image"@))
    } else {
        None
    }
}

/// A copy of part of an image back into host memory.
#[derive(Debug, Clone, Copy, PartialEq, Eq, Structural)]
pub struct Download {
    pub image: u64,
    /// The layout the image is in, before the copy and after it.
    pub from_layout: ImageLayout,
    pub region: BufferImageCopy,
    pub mapping: VulkanMapping,
}

/// The commands of a download into a buffer.
pub open spec fn download_commands(download: Download, buffer: u64) -> Seq<Command> {
    seq![
        Command::Barrier {
            src: Stages::TopOfPipe,
            dst: Stages::Transfer,
            barrier: moving(
                download.image,
                download.from_layout,
                ImageLayout::TransferSrcOptimal,
                Access::Empty,
                Access::TransferRead,
            ),
        },
        Command::CopyImageToBuffer {
            image: download.image,
            layout: ImageLayout::TransferSrcOptimal,
            buffer,
            region: download.region,
        },
        Command::Barrier {
            src: Stages::Transfer,
            dst: Stages::BottomOfPipe,
            barrier: moving(
                download.image,
                ImageLayout::TransferSrcOptimal,
                download.from_layout,
                Access::TransferRead,
                Access::Empty,
            ),
        },
    ]
}

impl Download {
    /// Whether this is the read-back of a region of an image.
    pub open spec fn reads(self, image: Image, region: Rectangle, from_layout: ImageLayout) -> bool {
        let w = extent(region.size.w);
        let h = extent(region.size.h);
        &&& self.image == image.image
        &&& self.from_layout == from_layout
        &&& self.region == (BufferImageCopy {
            buffer_offset: 0,
            buffer_row_length: 0,
            buffer_image_height: 0,
            image_offset: Point {
                x: extent(region.loc.x) as i32,
                y: extent(region.loc.y) as i32,
            },
            width: w,
            height: h,
        })
        &&& self.mapping.width == w
        &&& self.mapping.height == h
        &&& self.mapping.fourcc == image.fourcc
        &&& self.mapping.len == packed_bytes(w, h)
    }

    /// Decide how to read back `region` of an image, or why not.
    ///
    /// Converting formats during the copy would mean a shader pass, so a caller
    /// gets the format the image already has or nothing.
    pub fn plan(image: &Image, region: Rectangle, format: Fourcc, from_layout: ImageLayout)
        -> (download: Result<Download, Error>)
        ensures
            match download {
                Ok(download) => download_refusal(*image, region, format) is None && download.reads(
                    *image,
                    region,
                    from_layout,
                ),
                Err(error) => error is Unsupported && download_refusal(*image, region, format)
                    == Some(error.text()),
            },
    {
        if !image.is_readable() {
            return Err(
                Error::Unsupported(
                    "this image was imported without transfer support and cannot be read back".to_owned(),
                ),
            );
        }
        if format != image.fourcc {
            let mut text = String::new();
            text.append("cannot convert ");
            image.fourcc.append_to(&mut text);
            text.append(" to ");
            format.append_to(&mut text);
            text.append(" while copying");
            assert(text@ =~= "cannot convert "@ + image.fourcc.text() + " to "@ + format.text()
                + " while copying"@);
            return Err(Error::Unsupported(text));
        }
        let x: u32 = to_extent(region.loc.x);
        let y: u32 = to_extent(region.loc.y);
        let w: u32 = to_extent(region.size.w);
        let h: u32 = to_extent(region.size.h);
        if w == 0 || h == 0 {
            return Err(Error::Unsupported("an empty copy region".to_owned()));
        }
        if x + w > image.width || y + h > image.height {
            return Err(outside_error(region, image.width, image.height, " image"));
        }
        // Tightly packed: the mapping's stride is its width.

        proof {
            assert(w * 4 * h <= 0x7fff_ffff * 4 * 0x7fff_ffff) by (nonlinear_arith)
                requires
                    0 <= w <= 0x7fff_ffff,
                    0 <= h <= 0x7fff_ffff,
            ;
        }
        let len: u64 = w as u64 * 4 * h as u64;
        Ok(
            Download {
                image: image.image,
                from_layout,
                region: BufferImageCopy {
                    buffer_offset: 0,
                    // Zero means tightly packed to the image extent.
                    buffer_row_length: 0,
                    buffer_image_height: 0,
                    image_offset: Point { x: x as i32, y: y as i32 },
                    width: w,
                    height: h,
                },
                mapping: VulkanMapping { width: w, height: h, fourcc: format, len },
            },
        )
    }

    /// What to record, once there is a buffer to copy into.
    ///
    /// The image is put back into the layout it was in, because a copy must not
    /// be destructive: the framebuffer may be scanned out and the texture may
    /// be drawn again.
    pub fn commands(&self, buffer: u64) -> (commands: Vec<Command>)
        ensures
            commands@ == download_commands(*self, buffer),
    {
        let commands = vec![
            Command::Barrier {
                src: Stages::TopOfPipe,
                dst: Stages::Transfer,
                barrier: transition(
                    self.image,
                    self.from_layout,
                    ImageLayout::TransferSrcOptimal,
                    Access::Empty,
                    Access::TransferRead,
                ),
            },
            Command::CopyImageToBuffer {
                image: self.image,
                layout: ImageLayout::TransferSrcOptimal,
                buffer,
                region: self.region,
            },
            Command::Barrier {
                src: Stages::Transfer,
                dst: Stages::BottomOfPipe,
                barrier: transition(
                    self.image,
                    ImageLayout::TransferSrcOptimal,
                    self.from_layout,
                    Access::TransferRead,
                    Access::Empty,
                ),
            },
        ];
        assert(commands@ =~= download_commands(*self, buffer));
        commands
    }
}

/// Read back part of a framebuffer, which others have left in the layout they
/// use it in.
pub fn copy_framebuffer(target: &Image, region: Rectangle, format: Fourcc) -> (download: Result<
    Download,
    Error,
>)
    ensures
        match download {
            Ok(download) => download_refusal(*target, region, format) is None && download.reads(
                *target,
                region,
                ImageLayout::General,
            ),
            Err(error) => error is Unsupported && download_refusal(*target, region, format) == Some(
                error.text(),
            ),
        },
{
    Download::plan(target, region, format, ImageLayout::General)
}

/// Read back part of a texture, which is ready to be sampled.
pub fn copy_texture(texture: &VulkanTexture, region: Rectangle, format: Fourcc) -> (download:
    Result<Download, Error>)
    ensures
        match download {
            Ok(download) => download_refusal(*texture.image, region, format) is None
                && download.reads(*texture.image, region, ImageLayout::ShaderReadOnlyOptimal),
            Err(error) => error is Unsupported && download_refusal(*texture.image, region, format)
                == Some(error.text()),
        },
{
    Download::plan(&texture.image, region, format, ImageLayout::ShaderReadOnlyOptimal)
}

/// Whether a texture can be read back at all.
pub fn can_read_texture(texture: &VulkanTexture) -> (can: bool)
    ensures
        can == texture.image.usage.transfer_src,
{
    texture.image.is_readable()
}

/// A read-back is a recording Vulkan allows, and leaves every image, its own
/// among them, as it found it.
pub proof fn a_read_back_is_not_destructive(download: Download, buffer: u64, start: Recording)
    requires
        !start.rendering,
        start.has(download.image, download.from_layout),
    ensures
        start.run(download_commands(download, buffer)) == Some(start),
{
    let c = download_commands(download, buffer);
    reveal_with_fuel(Recording::run, 4);
    assert(c.drop_last() =~= seq![c[0], c[1]]);
    assert(c.drop_last().drop_last() =~= seq![c[0]]);
    assert(c.drop_last().drop_last().drop_last() =~= Seq::empty());
    let moved = start.layouts.insert(download.image, ImageLayout::TransferSrcOptimal);
    assert(moved.insert(download.image, download.from_layout) =~= start.layouts);
}

/// Copying a texture succeeds only where asking beforehand said it would, and
/// where it would, only the format and the region can stand in the way.
pub proof fn copying_agrees_with_asking(texture: VulkanTexture, region: Rectangle)
    requires
        has_area(region),
        stays_inside(region, texture.image.width, texture.image.height),
    ensures
        download_refusal(*texture.image, region, texture.image.fourcc) is None
            <==> texture.image.usage.transfer_src,
{
}

/// Whether a blit's corners stay within the coordinate range.
pub open spec fn corners_fit(rect: Rectangle) -> bool {
    &&& i32::MIN <= rect.loc.x + rect.size.w <= i32::MAX
    &&& i32::MIN <= rect.loc.y + rect.size.h <= i32::MAX
}

/// Why one framebuffer cannot be copied into another, or `None` where it can.
pub open spec fn blit_refusal(source: Image, target: Image) -> Option<Seq<char>> {
    if source.image == target.image {
        Some("the source and destination framebuffers are the same image"@)
    } else if !source.usage.transfer_src {
        Some(
            "the source framebuffer's modifier does not support being copied from"@,
        )
    } else if !target.usage.transfer_dst {
        Some(
            "the destination framebuffer's modifier does not support being copied into"@,
        )
    } else {
        None
    }
}

/// The commands of a blit. Both images start and end in `General`, which is
/// where a released image is and where an externally written one is.
pub open spec fn blit_commands(
    source: u64,
    target: u64,
    src: Rectangle,
    dst: Rectangle,
    filter: Filter,
) -> Seq<Command> {
    seq![
        Command::Barriers {
            src: Stages::TopOfPipe,
            dst: Stages::Transfer,
            first: moving(
                source,
                ImageLayout::General,
                ImageLayout::TransferSrcOptimal,
                Access::Empty,
                Access::TransferRead,
            ),
            second: moving(
                target,
                ImageLayout::General,
                ImageLayout::TransferDstOptimal,
                Access::Empty,
                Access::TransferWrite,
            ),
        },
        Command::BlitImage {
            source,
            source_layout: ImageLayout::TransferSrcOptimal,
            target,
            target_layout: ImageLayout::TransferDstOptimal,
            region: ImageBlit {
                src_from: src.loc,
                src_to: Point {
                    x: (src.loc.x + src.size.w) as i32,
                    y: (src.loc.y + src.size.h) as i32,
                },
                dst_from: dst.loc,
                dst_to: Point {
                    x: (dst.loc.x + dst.size.w) as i32,
                    y: (dst.loc.y + dst.size.h) as i32,
                },
            },
            filter,
        },
        Command::Barriers {
            src: Stages::Transfer,
            dst: Stages::BottomOfPipe,
            first: moving(
                source,
                ImageLayout::TransferSrcOptimal,
                ImageLayout::General,
                Access::TransferRead,
                Access::Empty,
            ),
            second: moving(
                target,
                ImageLayout::TransferDstOptimal,
                ImageLayout::General,
                Access::TransferWrite,
                Access::Empty,
            ),
        },
    ]
}

/// Copy part of one framebuffer into part of another, scaling on the way: what
/// to record, or why not.
///
/// Reading and writing one image in a single blit is undefined, so that is
/// refused, and so is an image whose modifier does not support the copy.
pub fn blit(
    source: &Image,
    target: &Image,
    src: Rectangle,
    dst: Rectangle,
    filter: Filter,
) -> (commands: Result<Vec<Command>, Error>)
    requires
        blit_refusal(*source, *target) is None ==> corners_fit(src) && corners_fit(dst),
    ensures
        match commands {
            Ok(commands) => blit_refusal(*source, *target) is None && commands@ == blit_commands(
                source.image,
                target.image,
                src,
                dst,
                filter,
            ),
            Err(error) => error is Unsupported && blit_refusal(*source, *target) == Some(
                error.text(),
            ),
        },
{
    if source.image == target.image {
        return Err(
            Error::Unsupported(
                "the source and destination framebuffers are the same image".to_owned(),
            ),
        );
    }
    if !source.is_readable() {
        return Err(
            Error::Unsupported(
                "the source framebuffer's modifier does not support being copied from".to_owned(),
            ),
        );
    }
    if !target.is_writable() {
        return Err(
            Error::Unsupported(
                "the destination framebuffer's modifier does not support being copied into".to_owned(),
            ),
        );
    }
    let to_src = source.transition(
        ImageLayout::General,
        ImageLayout::TransferSrcOptimal,
        Access::Empty,
        Access::TransferRead,
    );
    let to_dst = target.transition(
        ImageLayout::General,
        ImageLayout::TransferDstOptimal,
        Access::Empty,
        Access::TransferWrite,
    );
    // Put both back: a blit must leave the source intact and the destination
    // usable by whoever holds it.
    let restore_src = source.transition(
        ImageLayout::TransferSrcOptimal,
        ImageLayout::General,
        Access::TransferRead,
        Access::Empty,
    );
    let restore_dst = target.transition(
        ImageLayout::TransferDstOptimal,
        ImageLayout::General,
        Access::TransferWrite,
        Access::Empty,
    );
    let region = ImageBlit {
        src_from: src.loc,
        src_to: Point { x: src.loc.x + src.size.w, y: src.loc.y + src.size.h },
        dst_from: dst.loc,
        dst_to: Point { x: dst.loc.x + dst.size.w, y: dst.loc.y + dst.size.h },
    };
    let commands = vec![
        Command::Barriers {
            src: Stages::TopOfPipe,
            dst: Stages::Transfer,
            first: to_src,
            second: to_dst,
        },
        Command::BlitImage {
            source: source.image,
            source_layout: ImageLayout::TransferSrcOptimal,
            target: target.image,
            target_layout: ImageLayout::TransferDstOptimal,
            region,
            filter,
        },
        Command::Barriers {
            src: Stages::Transfer,
            dst: Stages::BottomOfPipe,
            first: restore_src,
            second: restore_dst,
        },
    ];
    assert(commands@ =~= blit_commands(source.image, target.image, src, dst, filter));
    Ok(commands)
}

/// A blit is a recording Vulkan allows, and leaves both images, and every other
/// one, in the layout it found them in.
pub proof fn a_blit_leaves_both_images_usable(
    source: Image,
    target: Image,
    src: Rectangle,
    dst: Rectangle,
    filter: Filter,
    start: Recording,
)
    requires
        blit_refusal(source, target) is None,
        !start.rendering,
        start.has(source.image, ImageLayout::General),
        start.has(target.image, ImageLayout::General),
    ensures
        start.run(blit_commands(source.image, target.image, src, dst, filter)) == Some(start),
{
    let c = blit_commands(source.image, target.image, src, dst, filter);
    reveal_with_fuel(Recording::run, 4);
    assert(c.drop_last() =~= seq![c[0], c[1]]);
    assert(c.drop_last().drop_last() =~= seq![c[0]]);
    assert(c.drop_last().drop_last().drop_last() =~= Seq::empty());
    let moved = start.layouts.insert(source.image, ImageLayout::TransferSrcOptimal).insert(
        target.image,
        ImageLayout::TransferDstOptimal,
    );
    assert(moved.insert(source.image, ImageLayout::General).insert(
        target.image,
        ImageLayout::General,
    ) =~= start.layouts);
}

/// The command that takes an imported image from outside, once, and leaves it
/// ready to sample. Recorded on its own rather than within a frame, because
/// this has to happen outside any rendering.
pub fn acquire_now(image: &mut Image, layout: ImageLayout) -> (commands: Vec<Command>)
    ensures
        commands@ == seq![
            Command::Barrier {
                src: Stages::TopOfPipe,
                dst: Stages::FragmentShaderOrColorAttachmentOutput,
                barrier: old(image).acquiring(ImageLayout::General, layout),
            },
        ],
        !final(image).foreign,
        final(image).same_image(*old(image)),
{
    let barrier = image.acquire_barrier(layout);
    let commands = vec![
        Command::Barrier {
            src: Stages::TopOfPipe,
            dst: Stages::FragmentShaderOrColorAttachmentOutput,
            barrier,
        },
    ];
    assert(commands@ =~= seq![
        Command::Barrier {
            src: Stages::TopOfPipe,
            dst: Stages::FragmentShaderOrColorAttachmentOutput,
            barrier,
        },
    ]);
    commands
}

/// How to wait for a sync point.
#[derive(Debug, Clone, Copy, PartialEq, Eq, Structural)]
pub enum WaitPlan {
    /// It has been reached.
    Nothing,
    /// The next submission waits on this fence, so nothing blocks here.
    Queue(i32),
    /// There is no fence to hand to the GPU, which leaves no choice but to wait
    /// on the CPU.
    Block,
}

/// How to wait for a sync point, on the GPU where possible.
///
/// `exported` is the fence behind the sync point, if it has one that can be
/// exported; it matters only where the point has not been reached.
pub fn wait_for(reached: bool, exported: Option<i32>) -> (plan: WaitPlan)
    ensures
        plan == (if reached {
            WaitPlan::Nothing
        } else {
            match exported {
                Some(fd) => WaitPlan::Queue(fd),
                None => WaitPlan::Block,
            }
        }),
{
    if reached {
        return WaitPlan::Nothing;
    }
    match exported {
        Some(fd) => WaitPlan::Queue(fd),
        None => WaitPlan::Block,
    }
}

/// What is said where a wait on the CPU was cut short.
pub fn interrupted() -> (error: Error)
    ensures
        error is Unsupported,
        error.text() == "interrupted waiting for a sync point"@,
{
    Error::Unsupported("interrupted waiting for a sync point".to_owned())
}

/// What a submission hands back to say when it is done.
#[derive(Debug, Clone, Copy, PartialEq, Eq, Structural)]
pub enum Completion {
    /// A fence the caller passes on. Nothing on the CPU blocks.
    Fence(i32),
    /// It is done already.
    Reached,
    /// There is no fence to be had: wait on the CPU, which is slower and still
    /// correct.
    WaitOnCpu,
}

/// What a submission hands back, given how exporting its fence went.
///
/// A fence is passed on, and work that is already complete needs none. Whatever
/// else came of it, there is nothing to pass on, and the work may still be under
/// way.
pub fn completion(exported: &Result<Outcome, Error>) -> (completion: Completion)
    ensures
        completion == (match *exported {
            Ok(Outcome::Fence(fd)) => Completion::Fence(fd),
            Ok(Outcome::NoFence) => Completion::Reached,
            _ => Completion::WaitOnCpu,
        }),
{
    match exported {
        Ok(Outcome::Fence(fd)) => Completion::Fence(*fd),
        Ok(Outcome::NoFence) => Completion::Reached,
        _ => Completion::WaitOnCpu,
    }
}

/// A frame in progress.
#[derive(Debug, Clone, Copy, PartialEq, Eq, Structural)]
pub struct VulkanFrame {
    /// The framebuffer, in pixels.
    pub output_size: Size,
    /// The same framebuffer as the desktop sees it: the output size with the
    /// transform applied. Every rectangle a caller hands in is in this space.
    pub logical_size: Size,
    /// The output transform this frame was begun with.
    pub transform: Transform,
    /// The extent and the format of the target.
    pub width: u32,
    pub height: u32,
    pub format: VkFormat,
    pub finished: bool,
}

/// One damage rectangle of a draw, in the space of the desktop: moved to where
/// the draw is, and cut down to it.
pub open spec fn clipped(dst: Rectangle, rect: Rectangle) -> Option<Rectangle> {
    if rect.moved(dst.loc).meets(dst) {
        Some(rect.moved(dst.loc).shared(dst))
    } else {
        None
    }
}

/// The framebuffer rectangles a draw is restricted to, one for each damage
/// rectangle that touches it, in order.
pub open spec fn scissors(
    dst: Rectangle,
    damage: Seq<Rectangle>,
    output_size: Size,
    transform: Transform,
) -> Seq<Rectangle>
    decreases damage.len(),
{
    if damage.len() == 0 {
        Seq::empty()
    } else {
        let before = scissors(dst, damage.drop_last(), output_size, transform);
        match clipped(dst, damage.last()) {
            Some(rect) => before.push(landed(rect, output_size, transform)),
            None => before,
        }
    }
}

/// A scissor as the driver takes it: nothing negative.
pub open spec fn scissor_area(rect: Rectangle) -> Area {
    Area {
        x: extent(rect.loc.x) as i32,
        y: extent(rect.loc.y) as i32,
        width: extent(rect.size.w),
        height: extent(rect.size.h),
    }
}

/// One draw for each rectangle, each under a scissor of its own.
pub open spec fn quads(rects: Seq<Rectangle>) -> Seq<Command>
    decreases rects.len(),
{
    if rects.len() == 0 {
        Seq::empty()
    } else {
        quads(rects.drop_last()).push(
            Command::SetScissor { area: scissor_area(rects.last()) },
        ).push(Command::Draw)
    }
}

/// What of the conversion from a texture's colours to the output's is computed
/// in floating point.
#[derive(Debug, Clone, Copy, PartialEq, Eq, Structural)]
pub struct Conversion {
    pub quotients: Quotients,
    /// From the source's primaries to the destination's.
    pub matrix: Matrix,
}

impl VulkanFrame {
    /// The sizes of a frame are extents.
    pub open spec fn is_valid(self) -> bool {
        self.output_size.is_valid() && self.logical_size == self.transform.sized(self.output_size)
    }

    /// Begin rendering into a target: the frame and what to record.
    ///
    /// What was there survives: a clear is asked for explicitly, and
    /// damage-tracked rendering depends on it.
    pub fn begin(target: &mut Image, output_size: Size, transform: Transform) -> (begun: (
        VulkanFrame,
        Vec<Command>,
    ))
        requires
            output_size.is_valid(),
        ensures
            begun.0 == (VulkanFrame {
                output_size,
                logical_size: transform.sized(output_size),
                transform,
                width: old(target).width,
                height: old(target).height,
                format: old(target).format,
                finished: false,
            }),
            begun.0.is_valid(),
            begun.1@ == opening(*old(target), LoadOp::Load),
            !final(target).foreign,
            final(target).same_image(*old(target)),
    {
        let frame = VulkanFrame {
            output_size,
            logical_size: transform.transform_size(output_size),
            transform,
            width: target.width,
            height: target.height,
            format: target.format,
            finished: false,
        };
        (frame, open_target(target, LoadOp::Load))
    }

    /// The output transform this frame was begun with.
    pub fn transformation(&self) -> (transform: Transform)
        ensures
            transform == self.transform,
    {
        self.transform
    }

    /// The size of the desktop this frame holds. A caller that clears the whole
    /// of it on a rotated screen is asking for the whole desktop, not the whole
    /// framebuffer.
    pub fn output_size(&self) -> (size: Size)
        ensures
            size == self.logical_size,
    {
        self.logical_size
    }

    /// Scissor a draw to its damage.
    ///
    /// Damage rectangles are relative to `dst`, not to the framebuffer. No
    /// damage means nothing to draw: reading it as "the whole destination"
    /// would wipe the output on every frame that has nothing to clear.
    pub fn scissors_within(&self, dst: Rectangle, damage: &[Rectangle]) -> (rects: Vec<Rectangle>)
        requires
            self.is_valid(),
            dst.size.is_valid(),
            forall|i: int| 0 <= i < damage@.len() ==> (#[trigger] damage@[i]).size.is_valid(),
        ensures
            rects@ == scissors(dst, damage@, self.output_size, self.transform),
    {
        let mut rects: Vec<Rectangle> = Vec::new();
        for i in 0..damage.len()
            invariant
                self.is_valid(),
                dst.size.is_valid(),
                forall|j: int| 0 <= j < damage@.len() ==> (#[trigger] damage@[j]).size.is_valid(),
                rects@ == scissors(
                    dst,
                    damage@.take(i as int),
                    self.output_size,
                    self.transform,
                ),
        {
            proof {
                assert(damage@.take(i + 1).drop_last() =~= damage@.take(i as int));
                assert(damage@.take(i + 1).last() == damage@[i as int]);
            }
            let rect = damage[i];
            match rect.translate(dst.loc).intersection(dst) {
                Some(rect) => {
                    rects.push(framebuffer_rect(rect, self.output_size, self.transform));
                },
                None => {},
            }
        }
        assert(damage@.take(damage@.len() as int) =~= damage@);
        rects
    }

    /// The one scissor the pipeline has: a rectangle, or the whole target.
    ///
    /// Damage arrives as several rectangles the moment a window sits in front
    /// of something, and a pipeline with one scissor silently ignores every
    /// other, so the caller draws once per rectangle instead.
    pub fn set_scissor(&self, rect: Option<Rectangle>) -> (command: Command)
        ensures
            command == (Command::SetScissor {
                area: match rect {
                    Some(rect) => scissor_area(rect),
                    None => whole(self.width, self.height),
                },
            }),
    {
        let area = match rect {
            Some(rect) => Area {
                x: to_extent(rect.loc.x) as i32,
                y: to_extent(rect.loc.y) as i32,
                width: to_extent(rect.size.w),
                height: to_extent(rect.size.h),
            },
            None => Area { x: 0, y: 0, width: self.width, height: self.height },
        };
        Command::SetScissor { area }
    }

    /// Add one draw for each rectangle, and then the scissor over the whole
    /// target again.
    fn append_quads(&self, commands: &mut Vec<Command>, rects: &Vec<Rectangle>)
        ensures
            final(commands)@ == old(commands)@ + quads(rects@) + seq![
                Command::SetScissor { area: whole(self.width, self.height) },
            ],
    {
        let ghost before = commands@;
        for i in 0..rects.len()
            invariant
                commands@ == before + quads(rects@.take(i as int)),
        {
            proof {
                assert(rects@.take(i + 1).drop_last() =~= rects@.take(i as int));
            }
            commands.push(self.set_scissor(Some(rects[i])));
            commands.push(Command::Draw);
            assert(commands@ =~= before + quads(rects@.take(i + 1)));
        }
        assert(rects@.take(rects@.len() as int) =~= rects@);
        commands.push(self.set_scissor(None));
        assert(commands@ =~= before + quads(rects@) + seq![
            Command::SetScissor { area: whole(self.width, self.height) },
        ]);
    }

    /// What a solid draw is given: the quad over `dst`, and the colour.
    pub open spec fn solid_constants(self, dst: Rectangle, color: Color) -> Constants {
        Constants {
            position: placement(dst, self.output_size, self.transform),
            sampling: None,
            color,
            alpha: ONE,
            conversion: None,
            opaque: false,
        }
    }

    /// The commands of a solid draw with a pipeline.
    pub open spec fn solid_commands(
        self,
        layout: u64,
        pipeline: u64,
        dst: Rectangle,
        damage: Seq<Rectangle>,
        color: Color,
    ) -> Seq<Command> {
        let rects = scissors(dst, damage, self.output_size, self.transform);
        if rects.len() == 0 {
            Seq::empty()
        } else {
            seq![
                Command::BindPipeline { pipeline },
                Command::PushConstants { layout, constants: self.solid_constants(dst, color) },
            ] + quads(rects) + seq![
                Command::SetScissor { area: whole(self.width, self.height) },
            ]
        }
    }

    /// Draw a rectangle of one colour: what to record, or the pipeline that has
    /// to be built first. The colour is premultiplied.
    pub fn draw_solid(
        &self,
        pipelines: &Pipelines,
        dst: Rectangle,
        damage: &[Rectangle],
        color: Color,
    ) -> (drawn: Result<Vec<Command>, PipelineInfo>)
        requires
            self.is_valid(),
            dst.size.is_valid(),
            forall|i: int| 0 <= i < damage@.len() ==> (#[trigger] damage@[i]).size.is_valid(),
        ensures
            match drawn {
                Ok(commands) => {
                    ||| scissors(dst, damage@, self.output_size, self.transform).len() == 0
                        && commands@.len() == 0
                    ||| pipelines.kept(self.format, Kind::Solid) matches Some(pipeline)
                        && commands@ == self.solid_commands(
                        pipelines.layout,
                        pipeline,
                        dst,
                        damage@,
                        color,
                    )
                },
                Err(info) => {
                    &&& scissors(dst, damage@, self.output_size, self.transform).len() > 0
                    &&& pipelines.kept(self.format, Kind::Solid) is None
                    &&& info == pipelines.recipe(self.format, Kind::Solid)
                },
            },
    {
        let rects = self.scissors_within(dst, damage);
        let mut commands: Vec<Command> = Vec::new();
        if rects.len() == 0 {
            return Ok(commands);
        }
        let pipeline: u64 = match pipelines.get(self.format, Kind::Solid) {
            Lookup::Built(pipeline) => pipeline,
            Lookup::Missing(info) => {
                return Err(info);
            },
        };
        let constants = Constants {
            position: position(dst, self.output_size, self.transform),
            sampling: None,
            color,
            alpha: ONE,
            conversion: None,
            opaque: false,
        };
        commands.push(Command::BindPipeline { pipeline });
        commands.push(Command::PushConstants { layout: pipelines.layout, constants });
        self.append_quads(&mut commands, &rects);
        assert(commands@ =~= self.solid_commands(
            pipelines.layout,
            pipeline,
            dst,
            damage@,
            color,
        ));
        Ok(commands)
    }

    /// The commands of a clear of several regions.
    pub open spec fn clear_commands(
        self,
        layout: u64,
        pipeline: u64,
        at: Seq<Rectangle>,
        color: Color,
    ) -> Seq<Command>
        decreases at.len(),
    {
        if at.len() == 0 {
            Seq::empty()
        } else {
            self.clear_commands(layout, pipeline, at.drop_last(), color) + self.solid_commands(
                layout,
                pipeline,
                self.desktop(),
                seq![at.last()],
                color,
            )
        }
    }

    /// The whole desktop, as a rectangle.
    pub open spec fn desktop(self) -> Rectangle {
        Rectangle { loc: Point { x: 0, y: 0 }, size: self.logical_size }
    }

    /// Whether a clear has anything to do.
    pub open spec fn clears(self, at: Seq<Rectangle>) -> bool {
        exists|i: int|
            0 <= i < at.len() && #[trigger] scissors(
                self.desktop(),
                seq![at[i]],
                self.output_size,
                self.transform,
            ).len() > 0
    }

    /// Clear some regions of the output to a colour: what to record, or the
    /// pipeline that has to be built first.
    ///
    /// A solid draw: for an opaque colour, which is what a clear always is in
    /// practice, the result is identical. The destination is the whole desktop
    /// and each region is its damage, so a clear of several regions is several
    /// draws of the same quad. Nothing to clear is not the same as "clear
    /// everything".
    pub fn clear(
        &self,
        pipelines: &Pipelines,
        color: Color,
        at: &[Rectangle],
    ) -> (drawn: Result<Vec<Command>, PipelineInfo>)
        requires
            self.is_valid(),
            forall|i: int| 0 <= i < at@.len() ==> (#[trigger] at@[i]).size.is_valid(),
        ensures
            match drawn {
                Ok(commands) => {
                    ||| !self.clears(at@) && commands@.len() == 0
                    ||| pipelines.kept(self.format, Kind::Solid) matches Some(pipeline)
                        && commands@ == self.clear_commands(
                        pipelines.layout,
                        pipeline,
                        at@,
                        color,
                    )
                },
                Err(info) => {
                    &&& self.clears(at@)
                    &&& pipelines.kept(self.format, Kind::Solid) is None
                    &&& info == pipelines.recipe(self.format, Kind::Solid)
                },
            },
    {
        let mut commands: Vec<Command> = Vec::new();
        let desktop = Rectangle::from_size(self.logical_size);
        for i in 0..at.len()
            invariant
                self.is_valid(),
                desktop == self.desktop(),
                forall|j: int| 0 <= j < at@.len() ==> (#[trigger] at@[j]).size.is_valid(),
                match pipelines.kept(self.format, Kind::Solid) {
                    Some(pipeline) => commands@ == self.clear_commands(
                        pipelines.layout,
                        pipeline,
                        at@.take(i as int),
                        color,
                    ),
                    None => commands@.len() == 0 && forall|j: int|
                        0 <= j < i ==> #[trigger] scissors(
                            self.desktop(),
                            seq![at@[j]],
                            self.output_size,
                            self.transform,
                        ).len() == 0,
                },
        {
            let one: Vec<Rectangle> = vec![at[i]];
            proof {
                assert(one@ =~= seq![at@[i as int]]);
                assert(at@.take(i + 1).drop_last() =~= at@.take(i as int));
                assert(at@.take(i + 1).last() == at@[i as int]);
            }
            let mut drawn = match self.draw_solid(pipelines, desktop, one.as_slice(), color) {
                Ok(drawn) => drawn,
                Err(info) => {
                    return Err(info);
                },
            };
            commands.append(&mut drawn);
        }
        assert(at@.take(at@.len() as int) =~= at@);
        Ok(commands)
    }

    /// What a textured draw is given: the quad over `dst`, the part of the
    /// texture it samples, and how its colours become those of `output`. The
    /// tint is white.
    pub open spec fn texture_constants(
        self,
        texture: VulkanTexture,
        output: Description,
        src: Source,
        dst: Rectangle,
        src_transform: Transform,
        alpha: u32,
        conversion: Conversion,
    ) -> Constants {
        Constants {
            position: placement(dst, self.output_size, self.transform),
            sampling: Some(
                sampling(
                    src,
                    texture.image.width,
                    texture.image.height,
                    src_transform,
                    texture.flipped,
                ),
            ),
            color: Vec4 { x: ONE, y: ONE, z: ONE, w: ONE },
            alpha,
            conversion: Some(
                ColorConversion {
                    from: texture.description.transfer,
                    to: output.transfer,
                    quotients: conversion.quotients,
                    matrix: conversion.matrix,
                },
            ),
            opaque: !texture.image.has_alpha,
        }
    }

    /// The commands of a textured draw with a pipeline.
    pub open spec fn texture_commands(
        self,
        layout: u64,
        sampler: u64,
        pipeline: u64,
        view: u64,
        dst: Rectangle,
        damage: Seq<Rectangle>,
        constants: Constants,
    ) -> Seq<Command> {
        let rects = scissors(dst, damage, self.output_size, self.transform);
        if rects.len() == 0 {
            Seq::empty()
        } else {
            seq![
                Command::BindPipeline { pipeline },
                Command::PushTexture {
                    layout,
                    sampler,
                    view,
                    image_layout: ImageLayout::ShaderReadOnlyOptimal,
                },
                Command::PushConstants { layout, constants },
            ] + quads(rects) + seq![
                Command::SetScissor { area: whole(self.width, self.height) },
            ]
        }
    }

    /// Draw a texture into a rectangle: what to record, or the pipeline that
    /// has to be built first.
    ///
    /// `src` is the part of the texture to draw, in its pixels, and
    /// `src_transform` how the buffer is turned against the surface.
    /// `conversion` goes from the texture's colours to those of `output`, and
    /// the tint is white: the texture's own colours, scaled by alpha.
    pub fn render_texture_from_to(
        &self,
        pipelines: &Pipelines,
        texture: &VulkanTexture,
        output: &Description,
        src: Source,
        dst: Rectangle,
        damage: &[Rectangle],
        src_transform: Transform,
        alpha: u32,
        conversion: Conversion,
    ) -> (drawn: Result<Vec<Command>, PipelineInfo>)
        requires
            self.is_valid(),
            dst.size.is_valid(),
            forall|i: int| 0 <= i < damage@.len() ==> (#[trigger] damage@[i]).size.is_valid(),
        ensures
            match drawn {
                Ok(commands) => {
                    ||| scissors(dst, damage@, self.output_size, self.transform).len() == 0
                        && commands@.len() == 0
                    ||| pipelines.kept(self.format, Kind::Texture) matches Some(pipeline)
                        && commands@ == self.texture_commands(
                        pipelines.layout,
                        pipelines.sampler,
                        pipeline,
                        texture.image.view,
                        dst,
                        damage@,
                        self.texture_constants(
                            *texture,
                            *output,
                            src,
                            dst,
                            src_transform,
                            alpha,
                            conversion,
                        ),
                    )
                },
                Err(info) => {
                    &&& scissors(dst, damage@, self.output_size, self.transform).len() > 0
                    &&& pipelines.kept(self.format, Kind::Texture) is None
                    &&& info == pipelines.recipe(self.format, Kind::Texture)
                },
            },
    {
        let rects = self.scissors_within(dst, damage);
        let mut commands: Vec<Command> = Vec::new();
        if rects.len() == 0 {
            return Ok(commands);
        }
        let image = texture.image();
        let constants = Constants {
            position: position(dst, self.output_size, self.transform),
            sampling: Some(
                crate::transform::texture(
                    src,
                    image.width,
                    image.height,
                    src_transform,
                    texture.flipped,
                ),
            ),
            color: Vec4 { x: ONE, y: ONE, z: ONE, w: ONE },
            alpha,
            conversion: Some(
                ColorConversion {
                    from: texture.description.transfer,
                    to: output.transfer,
                    quotients: conversion.quotients,
                    matrix: conversion.matrix,
                },
            ),
            opaque: !image.has_alpha,
        };
        let pipeline: u64 = match pipelines.get(self.format, Kind::Texture) {
            Lookup::Built(pipeline) => pipeline,
            Lookup::Missing(info) => {
                return Err(info);
            },
        };
        commands.push(Command::BindPipeline { pipeline });
        commands.push(
            Command::PushTexture {
                layout: pipelines.layout,
                sampler: pipelines.sampler,
                view: texture.image.view,
                image_layout: ImageLayout::ShaderReadOnlyOptimal,
            },
        );
        commands.push(Command::PushConstants { layout: pipelines.layout, constants });
        self.append_quads(&mut commands, &rects);
        assert(commands@ =~= self.texture_commands(
            pipelines.layout,
            pipelines.sampler,
            pipeline,
            texture.image.view,
            dst,
            damage@,
            constants,
        ));
        Ok(commands)
    }

    /// End the frame and hand the target on: what to record before submitting.
    pub fn finish(&mut self, target: &mut Image) -> (commands: Vec<Command>)
        ensures
            commands@ == closing(*old(target)),
            *final(self) == (VulkanFrame { finished: true, ..*old(self) }),
            final(target).foreign,
            final(target).same_image(*old(target)),
    {
        self.finished = true;
        close_target(target)
    }

    /// What to record before submitting where a frame is dropped unfinished, or
    /// `None` where it was finished.
    ///
    /// A dropped frame has rendering under way and a command buffer that was
    /// not submitted. Ending and submitting is the least surprising thing to
    /// do: the alternative leaves the next frame recording over it.
    pub fn abandon(&self) -> (command: Option<Command>)
        ensures
            command == (if self.finished {
                None
            } else {
                Some(Command::EndRendering)
            }),
    {
        if self.finished {
            return None;
        }
        Some(Command::EndRendering)
    }
}

/// Where the scissor and the draw of each rectangle are.
pub proof fn lemma_quads(rects: Seq<Rectangle>)
    ensures
        quads(rects).len() == 2 * rects.len(),
        forall|k: int|
            0 <= k < rects.len() ==> quads(rects)[2 * k] == (Command::SetScissor {
                area: scissor_area(#[trigger] rects[k]),
            }) && quads(rects)[2 * k + 1] == Command::Draw,
        draws(quads(rects)),
    decreases rects.len(),
{
    if rects.len() > 0 {
        let rest = rects.drop_last();
        lemma_quads(rest);
        let before = quads(rest);
        let all = quads(rects);
        assert forall|k: int| 0 <= k < rects.len() implies all[2 * k] == (Command::SetScissor {
            area: scissor_area(#[trigger] rects[k]),
        }) && all[2 * k + 1] == Command::Draw by {
            if k < rest.len() {
                assert(rest[k] == rects[k]);
                assert(all[2 * k] == before[2 * k]);
                assert(all[2 * k + 1] == before[2 * k + 1]);
            }
        }
        assert forall|j: int| 0 <= j < all.len() implies match #[trigger] all[j] {
            Command::SetViewport { .. } => true,
            Command::SetScissor { .. } => true,
            Command::BindPipeline { .. } => true,
            Command::PushTexture { .. } => true,
            Command::PushConstants { .. } => true,
            Command::Draw => true,
            _ => false,
        } by {
            if j < before.len() {
                assert(all[j] == before[j]);
            }
        }
    }
}

/// Two lists of drawing commands, one after the other, draw.
proof fn lemma_draws_joined(first: Seq<Command>, second: Seq<Command>)
    requires
        draws(first),
        draws(second),
    ensures
        draws(first + second),
{
    let all = first + second;
    assert forall|j: int| 0 <= j < all.len() implies match #[trigger] all[j] {
        Command::SetViewport { .. } => true,
        Command::SetScissor { .. } => true,
        Command::BindPipeline { .. } => true,
        Command::PushTexture { .. } => true,
        Command::PushConstants { .. } => true,
        Command::Draw => true,
        _ => false,
    } by {
        if j < first.len() {
            assert(all[j] == first[j]);
        } else {
            assert(all[j] == second[j - first.len()]);
        }
    }
}

/// Every draw belongs inside rendering: it moves no image and ends nothing, so
/// a frame made of draws is a recording Vulkan allows.
pub proof fn every_draw_belongs_inside_rendering(
    frame: VulkanFrame,
    layout: u64,
    sampler: u64,
    pipeline: u64,
    view: u64,
    dst: Rectangle,
    damage: Seq<Rectangle>,
    color: Color,
    constants: Constants,
)
    ensures
        draws(frame.solid_commands(layout, pipeline, dst, damage, color)),
        draws(frame.texture_commands(layout, sampler, pipeline, view, dst, damage, constants)),
        draws(frame.clear_commands(layout, pipeline, damage, color)),
    decreases damage.len(),
{
    let rects = scissors(dst, damage, frame.output_size, frame.transform);
    lemma_quads(rects);
    let end = seq![Command::SetScissor { area: whole(frame.width, frame.height) }];
    let solid = seq![
        Command::BindPipeline { pipeline },
        Command::PushConstants { layout, constants: frame.solid_constants(dst, color) },
    ];
    let texture = seq![
        Command::BindPipeline { pipeline },
        Command::PushTexture {
            layout,
            sampler,
            view,
            image_layout: ImageLayout::ShaderReadOnlyOptimal,
        },
        Command::PushConstants { layout, constants },
    ];
    lemma_draws_joined(solid, quads(rects));
    lemma_draws_joined(solid + quads(rects), end);
    lemma_draws_joined(texture, quads(rects));
    lemma_draws_joined(texture + quads(rects), end);
    if damage.len() > 0 {
        every_draw_belongs_inside_rendering(
            frame,
            layout,
            sampler,
            pipeline,
            view,
            dst,
            damage.drop_last(),
            color,
            constants,
        );
        let one = seq![damage.last()];
        let last = scissors(frame.desktop(), one, frame.output_size, frame.transform);
        lemma_quads(last);
        lemma_draws_joined(solid, quads(last));
        lemma_draws_joined(solid + quads(last), end);
        lemma_draws_joined(
            frame.clear_commands(layout, pipeline, damage.drop_last(), color),
            frame.solid_commands(layout, pipeline, frame.desktop(), one, color),
        );
    }
}

/// A texture without an alpha channel is drawn opaque, whatever its fourth byte
/// says, and every other one is blended; the shader is told the curves the
/// texture and the output were described with, and what full scale on one side
/// is worth on the other.
pub proof fn a_texture_is_drawn_as_it_was_described(
    frame: VulkanFrame,
    texture: VulkanTexture,
    output: Description,
    src: Source,
    dst: Rectangle,
    src_transform: Transform,
    opacity: u32,
    conversion: Conversion,
    position: ShaderMap,
    coordinates: ShaderMap,
)
    requires
        texture.image.has_alpha == alpha(texture.image.fourcc),
    ensures
        ({
            let block = frame.texture_constants(
                texture,
                output,
                src,
                dst,
                src_transform,
                opacity,
                conversion,
            ).block(position, Some(coordinates));
            let from = texture.description.transfer;
            let to = output.transfer;
            &&& block.csc0.w == (if alpha(texture.image.fourcc) {
                ZERO
            } else {
                ONE
            })
            &&& block.misc.y == single(from.code())
            &&& block.misc.z == single(to.code())
            &&& block.misc.w == conversion.quotients.between(from, to)
        }),
{
}

/// Every damage rectangle that touches the destination is drawn, not just the
/// first: it has a scissor of its own, followed by a draw of its own.
pub proof fn every_damage_rectangle_is_drawn(
    frame: VulkanFrame,
    dst: Rectangle,
    damage: Seq<Rectangle>,
    i: int,
)
    requires
        0 <= i < damage.len(),
        clipped(dst, damage[i]) is Some,
    ensures
        ({
            let rects = scissors(dst, damage, frame.output_size, frame.transform);
            exists|k: int|
                0 <= k < rects.len() && (#[trigger] rects[k]) == landed(
                    clipped(dst, damage[i])->0,
                    frame.output_size,
                    frame.transform,
                ) && quads(rects)[2 * k] == (Command::SetScissor { area: scissor_area(rects[k]) })
                    && quads(rects)[2 * k + 1] == Command::Draw
        }),
{
    let rects = scissors(dst, damage, frame.output_size, frame.transform);
    lemma_quads(rects);
    lemma_scissor_of(dst, damage, frame.output_size, frame.transform, i);
    let k = choose|k: int|
        0 <= k < rects.len() && (#[trigger] rects[k]) == landed(
            clipped(dst, damage[i])->0,
            frame.output_size,
            frame.transform,
        );
    assert(quads(rects)[2 * k] == (Command::SetScissor { area: scissor_area(rects[k]) }));
}

proof fn lemma_scissor_of(
    dst: Rectangle,
    damage: Seq<Rectangle>,
    output_size: Size,
    transform: Transform,
    i: int,
)
    requires
        0 <= i < damage.len(),
        clipped(dst, damage[i]) is Some,
    ensures
        exists|k: int|
            0 <= k < scissors(dst, damage, output_size, transform).len() && (#[trigger] scissors(
                dst,
                damage,
                output_size,
                transform,
            )[k]) == landed(clipped(dst, damage[i])->0, output_size, transform),
    decreases damage.len(),
{
    let rest = damage.drop_last();
    let before = scissors(dst, rest, output_size, transform);
    let all = scissors(dst, damage, output_size, transform);
    if i < rest.len() {
        assert(rest[i] == damage[i]);
        lemma_scissor_of(dst, rest, output_size, transform, i);
        let k = choose|k: int|
            0 <= k < before.len() && (#[trigger] before[k]) == landed(
                clipped(dst, damage[i])->0,
                output_size,
                transform,
            );
        assert(all[k] == before[k]);
    } else {
        assert(all[all.len() - 1] == landed(
            clipped(dst, damage[i])->0,
            output_size,
            transform,
        ));
    }
}

/// No damage means nothing to draw, and for a clear that is the whole
/// difference between a desktop and a blank screen. Damage that does not touch
/// the destination is no damage either.
pub proof fn nothing_is_drawn_without_damage(
    frame: VulkanFrame,
    layout: u64,
    sampler: u64,
    pipeline: u64,
    view: u64,
    dst: Rectangle,
    damage: Seq<Rectangle>,
    color: Color,
    constants: Constants,
)
    requires
        forall|i: int| 0 <= i < damage.len() ==> clipped(dst, #[trigger] damage[i]) is None,
    ensures
        frame.solid_commands(layout, pipeline, dst, damage, color).len() == 0,
        frame.texture_commands(layout, sampler, pipeline, view, dst, damage, constants).len() == 0,
        frame.clear_commands(layout, pipeline, Seq::empty(), color).len() == 0,
{
    lemma_no_scissors(dst, damage, frame.output_size, frame.transform);
}

proof fn lemma_no_scissors(
    dst: Rectangle,
    damage: Seq<Rectangle>,
    output_size: Size,
    transform: Transform,
)
    requires
        forall|i: int| 0 <= i < damage.len() ==> clipped(dst, #[trigger] damage[i]) is None,
    ensures
        scissors(dst, damage, output_size, transform).len() == 0,
    decreases damage.len(),
{
    if damage.len() > 0 {
        assert(clipped(dst, damage[damage.len() - 1]) is None);
        assert forall|i: int| 0 <= i < damage.drop_last().len() implies clipped(
            dst,
            #[trigger] damage.drop_last()[i],
        ) is None by {
            assert(damage.drop_last()[i] == damage[i]);
        }
        lemma_no_scissors(dst, damage.drop_last(), output_size, transform);
    }
}

/// A draw stays where it belongs: what is left of a damage rectangle lies
/// within the destination, covers nothing the damage did not, and where the
/// destination lies within the desktop, its scissor lies within the
/// framebuffer.
pub proof fn a_scissor_stays_within_its_destination(
    frame: VulkanFrame,
    dst: Rectangle,
    rect: Rectangle,
    x: int,
    y: int,
)
    requires
        frame.is_valid(),
        dst.size.is_valid(),
        rect.size.is_valid(),
        clipped(dst, rect) is Some,
    ensures
        clipped(dst, rect)->0.covers(x, y) <==> rect.moved(dst.loc).covers(x, y) && dst.covers(
            x,
            y,
        ),
        crate::transform::inside(dst, frame.logical_size) ==> crate::transform::inside(
            landed(clipped(dst, rect)->0, frame.output_size, frame.transform),
            frame.output_size,
        ),
{
    crate::geometry::the_intersection_is_what_both_cover(rect.moved(dst.loc), dst);
    if crate::transform::inside(dst, frame.logical_size) {
        let moved = rect.moved(dst.loc);
        let c = clipped(dst, rect)->0;
        let right = if moved.right() <= dst.right() { moved.right() } else { dst.right() };
        let bottom = if moved.bottom() <= dst.bottom() { moved.bottom() } else { dst.bottom() };
        assert(0 <= right - c.loc.x <= i32::MAX);
        assert(0 <= bottom - c.loc.y <= i32::MAX);
        assert(crate::transform::inside(c, frame.logical_size));
        crate::transform::the_desktop_lands_on_the_framebuffer(c, frame.output_size, frame.transform);
    }
}

/// A clear of the whole desktop covers the whole framebuffer, whatever the
/// transform.
pub proof fn every_output_transform_clears_the_whole_target(frame: VulkanFrame)
    requires
        frame.is_valid(),
        frame.output_size.w > 0,
        frame.output_size.h > 0,
    ensures
        scissors(frame.desktop(), seq![frame.desktop()], frame.output_size, frame.transform)
            == seq![(Rectangle { loc: Point { x: 0, y: 0 }, size: frame.output_size })],
{
    let desktop = frame.desktop();
    let damage = seq![desktop];
    assert(damage.drop_last() =~= Seq::empty());
    assert(clipped(desktop, desktop) == Some(desktop));
    reveal_with_fuel(scissors, 2);
    crate::transform::the_desktop_lands_on_the_framebuffer(
        desktop,
        frame.output_size,
        frame.transform,
    );
    assert(scissors(desktop, damage, frame.output_size, frame.transform) =~= seq![
        (Rectangle { loc: Point { x: 0, y: 0 }, size: frame.output_size }),
    ]);
}

/// The advertised formats are ones that are accepted when they come back, and
/// of the fourccs worth advertising, every one that is accepted is advertised.
pub proof fn what_is_advertised_is_what_is_accepted(device: Device, format: Format)
    requires
        common().contains(format.code),
    ensures
        importable_formats(device.physical, common()).contains(format) <==> accepted(
            device,
            format,
        ),
{
    lemma_importable(device, common(), format);
    lemma_importable_reversed(device, common(), format);
}

proof fn lemma_importable(device: Device, codes: Seq<Fourcc>, format: Format)
    ensures
        importable_formats(device.physical, codes).contains(format) ==> accepted(device, format)
            && codes.contains(format.code),
    decreases codes.len(),
{
    let all = importable_formats(device.physical, codes);
    if codes.len() > 0 && all.contains(format) {
        let code = codes.last();
        let rest = codes.drop_last();
        lemma_importable(device, rest, format);
        let before = importable_formats(device.physical, rest);
        let supported = supports(device.physical, code);
        let test = |s: ModifierSupport| s.accepts(code);
        let added = crate::format::passing(supported, code, test);
        let k = choose|k: int| 0 <= k < all.len() && all[k] == format;
        if k < before.len() {
            assert(before[k] == format);
            let j = choose|j: int| 0 <= j < rest.len() && rest[j] == format.code;
            assert(codes[j] == format.code);
        } else {
            let m = k - before.len();
            assert(added[m] == format);
            let s = supported.filter(test)[m];
            assert(added[m] == Format { code, modifier: s.modifier });
            supported.lemma_filter_pred(test, m);
            assert(supported.filter(test).contains(s));
            supported.lemma_filter_contains_rev(test, s);
            let n = choose|n: int| 0 <= n < supported.len() && supported[n] == s;
            assert(supported[n].modifier == format.modifier);
            assert(codes[codes.len() - 1] == format.code);
        }
    }
}

proof fn lemma_importable_reversed(device: Device, codes: Seq<Fourcc>, format: Format)
    ensures
        accepted(device, format) && codes.contains(format.code) ==> importable_formats(
            device.physical,
            codes,
        ).contains(format),
    decreases codes.len(),
{
    if codes.len() > 0 && accepted(device, format) && codes.contains(format.code) {
        let code = codes.last();
        let rest = codes.drop_last();
        lemma_importable_reversed(device, rest, format);
        let before = importable_formats(device.physical, rest);
        let all = importable_formats(device.physical, codes);
        if code == format.code {
            let supported = supports(device.physical, code);
            let test = |s: ModifierSupport| s.accepts(code);
            let added = crate::format::passing(supported, code, test);
            let n = choose|n: int|
                0 <= n < supported.len() && (#[trigger] supported[n]).modifier == format.modifier
                    && supported[n].accepts(format.code);
            assert(test(supported[n]));
            supported.lemma_filter_contains(test, n);
            let m = choose|m: int|
                0 <= m < supported.filter(test).len() && supported.filter(test)[m] == supported[n];
            assert(added[m] == format);
            assert(all[before.len() + m] == format);
        } else {
            let j = choose|j: int| 0 <= j < codes.len() && codes[j] == format.code;
            assert(rest[j] == format.code);
            let k = choose|k: int| 0 <= k < before.len() && before[k] == format;
            assert(all[k] == format);
        }
    }
}

/// Whether a modifier of a format is one that a device can render into, in one
/// plane.
pub open spec fn can_be_output(device: Device, format: Fourcc, modifier: u64) -> bool {
    exists|i: int|
        0 <= i < supports(device.physical, format).len() && (#[trigger] supports(
            device.physical,
            format,
        )[i]).modifier == modifier && supports(device.physical, format)[i].rendering && supports(
            device.physical,
            format,
        )[i].planes == 1
}

/// An allocator is asked for the modifiers that can be rendered into, all of them
/// and no other, and it is asked exactly where there is one and there is an
/// allocator.
pub proof fn an_allocator_is_asked_for_what_can_be_rendered_into(
    device: Device,
    format: Fourcc,
    modifier: u64,
    can_allocate: bool,
)
    ensures
        renderable_modifiers(device, format).contains(modifier) <==> can_be_output(
            device,
            format,
            modifier,
        ),
        offscreen_refusal(device, format, can_allocate) is None <==> can_allocate && exists|m: u64|
            #[trigger] can_be_output(device, format, m),
{
    let all = supports(device.physical, format);
    let test = |s: ModifierSupport| s.renders();
    let passed = all.filter(test);
    let found = renderable_modifiers(device, format);
    assert forall|m: u64| found.contains(m) <==> #[trigger] can_be_output(device, format, m) by {
        if found.contains(m) {
            let k = choose|k: int| 0 <= k < found.len() && found[k] == m;
            let s = passed[k];
            all.lemma_filter_pred(test, k);
            assert(passed.contains(s));
            all.lemma_filter_contains_rev(test, s);
            let n = choose|n: int| 0 <= n < all.len() && all[n] == s;
            assert(all[n].modifier == m);
        }
        if can_be_output(device, format, m) {
            let n = choose|n: int|
                0 <= n < all.len() && (#[trigger] all[n]).modifier == m && all[n].rendering
                    && all[n].planes == 1;
            assert(test(all[n]));
            all.lemma_filter_contains(test, n);
            let k = choose|k: int| 0 <= k < passed.len() && passed[k] == all[n];
            assert(found[k] == m);
        }
    }
    if found.len() > 0 {
        assert(found.contains(found[0]));
        assert(can_be_output(device, format, found[0]));
    }
    if exists|m: u64| #[trigger] can_be_output(device, format, m) {
        let m = choose|m: u64| #[trigger] can_be_output(device, format, m);
        assert(found.contains(m));
    }
}

/// A client's buffer is accepted exactly where its modifier is one the device can
/// sample: in one plane for colour, and with a siting it can reconstruct for
/// colour difference.
pub proof fn a_buffer_is_accepted_where_it_can_be_sampled(device: Device, format: Format)
    ensures
        accepted(device, format) <==> exists|i: int|
            0 <= i < supports(device.physical, format.code).len() && (#[trigger] supports(
                device.physical,
                format.code,
            )[i]).modifier == format.modifier && supports(device.physical, format.code)[i].sampling
                && (if fourcc_video(format.code) is Some {
                supports(device.physical, format.code)[i].cosited_chroma || supports(
                    device.physical,
                    format.code,
                )[i].midpoint_chroma
            } else {
                supports(device.physical, format.code)[i].planes == 1
            }),
{
    let all = supports(device.physical, format.code);
    if accepted(device, format) {
        let i = choose|i: int|
            0 <= i < all.len() && (#[trigger] all[i]).modifier == format.modifier && all[i].accepts(
                format.code,
            );
        assert(all[i].sampling);
    }
    if exists|i: int|
        0 <= i < all.len() && (#[trigger] all[i]).modifier == format.modifier && all[i].sampling
            && (if fourcc_video(format.code) is Some {
            all[i].cosited_chroma || all[i].midpoint_chroma
        } else {
            all[i].planes == 1
        }) {
        let i = choose|i: int|
            0 <= i < all.len() && (#[trigger] all[i]).modifier == format.modifier && all[i].sampling
                && (if fourcc_video(format.code) is Some {
                all[i].cosited_chroma || all[i].midpoint_chroma
            } else {
                all[i].planes == 1
            });
        assert(all[i].accepts(format.code));
    }
}

/// A texture is what it is made over. One over a client's buffer is the client's
/// to write and the right way up; one over pixels in memory can be written, and
/// is the way up that was said. Neither says anything of its colours that the
/// client did not.
pub proof fn a_texture_is_what_it_is_made_over(image: Arc<Image>, flipped: bool)
    ensures
        ({
            let buffer = VulkanTexture::over_dmabuf(image);
            let memory = VulkanTexture::over_memory(image, flipped);
            &&& buffer.image == image && memory.image == image
            &&& !buffer.uploadable && memory.uploadable
            &&& !buffer.flipped && memory.flipped == flipped
            &&& buffer.description == memory.description
            &&& buffer.description.transfer is Srgb
        }),
{
}

} // verus!
