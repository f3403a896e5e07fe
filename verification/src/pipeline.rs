//! Pipelines, and the block of constants a draw is given.
//!
//! A compositor draws rectangles: a solid one for the background and anything
//! it draws itself, and a textured one per surface. That is the whole pipeline
//! inventory. There are no vertex buffers: drawing a surface is a push constant
//! and a draw call with nothing to allocate or synchronise.
use std::collections::HashMap;

use vstd::prelude::*;

use crate::color::{Quotients, TransferFunction};
use crate::error::{call_failure, Error};
use crate::format::VkFormat;
use crate::transform::{Affine, Sampling};
use crate::vulkan::{Call, Object, Progress, Reply, Vec4};

verus! {

broadcast use vstd::std_specs::hash::group_hash_axioms;

/// The number one, by the bits of its single-precision form.
pub const ONE: u32 = 0x3f80_0000;

/// The number zero, by the bits of its single-precision form.
pub const ZERO: u32 = 0;

/// A small whole number, by the bits of its single-precision form.
pub open spec fn single(n: u32) -> u32 {
    if n == 0 {
        ZERO
    } else if n == 1 {
        ONE
    } else if n == 2 {
        0x4000_0000
    } else if n == 3 {
        0x4040_0000
    } else if n == 4 {
        0x4080_0000
    } else {
        0x40a0_0000
    }
}

/// A small whole number, by the bits of its single-precision form.
fn to_single(n: u32) -> (bits: u32)
    requires
        n <= 5,
    ensures
        bits == single(n),
{
    if n == 0 {
        ZERO
    } else if n == 1 {
        ONE
    } else if n == 2 {
        0x4000_0000
    } else if n == 3 {
        0x4040_0000
    } else if n == 4 {
        0x4080_0000
    } else {
        0x40a0_0000
    }
}

/// A map from the unit square, as the shader wants it.
///
/// `a` holds the two basis vectors and the first half of `b` the origin.
#[derive(Debug, Clone, Copy, PartialEq, Eq, Structural)]
pub struct ShaderMap {
    pub a: Vec4,
    pub b: Vec4,
}

/// A matrix of a shader, by rows. The fourth number of each row is ignored.
#[derive(Debug, Clone, Copy, PartialEq, Eq, Structural)]
pub struct Matrix {
    pub row0: Vec4,
    pub row1: Vec4,
    pub row2: Vec4,
}

/// The push constant block: eight rows of four numbers.
///
/// Exactly 128 bytes, which is the largest block every Vulkan implementation is
/// required to support. That budget is why the texture coordinate origin rides
/// in `pos_b`'s spare half rather than having a row of its own.
#[derive(Debug, Clone, Copy, PartialEq, Eq, Structural)]
pub struct Push {
    /// Unit quad corner to clip space, the two basis vectors.
    pub pos_a: Vec4,
    /// `xy`: position origin. `zw`: texture coordinate origin.
    pub pos_b: Vec4,
    /// Corner to texture coordinate, the two basis vectors.
    pub tex_a: Vec4,
    /// Premultiplied colour, or a tint for the textured pipeline.
    pub color: Vec4,
    /// `x`: alpha. `y`: source transfer. `z`: destination transfer.
    /// `w`: luminance scale.
    pub misc: Vec4,
    /// Source primaries to destination primaries, by row. `csc0.w` carries the
    /// ignore-alpha flag; the other two fourth components are padding.
    pub csc0: Vec4,
    pub csc1: Vec4,
    pub csc2: Vec4,
}

/// The size of the push constant block, in bytes.
pub const PUSH_BYTES: u32 = 128;

impl Push {
    /// A block with no colour conversion.
    pub open spec fn plain(position: ShaderMap, texture: ShaderMap, color: Vec4, alpha: u32) -> Push {
        let linear = single(TransferFunction::Linear.code());
        Push {
            pos_a: position.a,
            pos_b: Vec4 { x: position.b.x, y: position.b.y, z: texture.b.x, w: texture.b.y },
            tex_a: texture.a,
            color,
            misc: Vec4 { x: alpha, y: linear, z: linear, w: ONE },
            csc0: Vec4 { x: ONE, y: ZERO, z: ZERO, w: ZERO },
            csc1: Vec4 { x: ZERO, y: ONE, z: ZERO, w: ZERO },
            csc2: Vec4 { x: ZERO, y: ZERO, z: ONE, w: ZERO },
        }
    }

    /// Build with no colour conversion: what the solid pipeline wants, and what
    /// a texture already in the output's space wants too.
    pub fn new(position: ShaderMap, texture: ShaderMap, color: Vec4, alpha: u32) -> (push: Push)
        ensures
            push == Push::plain(position, texture, color, alpha),
    {
        let linear: u32 = to_single(TransferFunction::Linear.as_code());
        Push {
            pos_a: position.a,
            // The texture origin rides in the spare half.
            pos_b: Vec4 { x: position.b.x, y: position.b.y, z: texture.b.x, w: texture.b.y },
            tex_a: texture.a,
            color,
            misc: Vec4 { x: alpha, y: linear, z: linear, w: ONE },
            csc0: Vec4 { x: ONE, y: ZERO, z: ZERO, w: ZERO },
            csc1: Vec4 { x: ZERO, y: ONE, z: ZERO, w: ZERO },
            csc2: Vec4 { x: ZERO, y: ZERO, z: ONE, w: ZERO },
        }
    }

    /// The block with a colour conversion.
    pub open spec fn converted(
        self,
        from: TransferFunction,
        to: TransferFunction,
        quotients: Quotients,
        matrix: Matrix,
    ) -> Push {
        Push {
            misc: Vec4 {
                x: self.misc.x,
                y: single(from.code()),
                z: single(to.code()),
                w: match (from is Pq, to is Pq) {
                    (false, false) => quotients.reference_over_reference,
                    (true, true) => ONE,
                    (false, true) => quotients.reference_over_peak,
                    (true, false) => quotients.peak_over_reference,
                },
            },
            csc0: Vec4 { w: ZERO, ..matrix.row0 },
            csc1: Vec4 { w: ZERO, ..matrix.row1 },
            csc2: Vec4 { w: ZERO, ..matrix.row2 },
            ..self
        }
    }

    /// Add a colour space conversion: the two curves, what full scale on one
    /// side is worth on the other, and the matrix between the primaries.
    ///
    /// The scale is the one [`crate::color::luminance_scale`] names. Where only
    /// one side is PQ, full scale means something else on each, and taking them
    /// to agree would encode SDR white as the PQ peak.
    pub fn with_color(
        self,
        from: TransferFunction,
        to: TransferFunction,
        quotients: Quotients,
        matrix: Matrix,
    ) -> (push: Push)
        ensures
            push == self.converted(from, to, quotients, matrix),
    {
        let mut push = self;
        push.misc.y = to_single(from.as_code());
        push.misc.z = to_single(to.as_code());
        push.misc.w = quotients.scale(from, to);
        push.csc0 = Vec4 { x: matrix.row0.x, y: matrix.row0.y, z: matrix.row0.z, w: ZERO };
        push.csc1 = Vec4 { x: matrix.row1.x, y: matrix.row1.y, z: matrix.row1.z, w: ZERO };
        push.csc2 = Vec4 { x: matrix.row2.x, y: matrix.row2.y, z: matrix.row2.z, w: ZERO };
        push
    }

    /// The block with the alpha flag set or cleared.
    pub open spec fn flagged(self, opaque: bool) -> Push {
        Push {
            csc0: Vec4 {
                w: if opaque {
                    ONE
                } else {
                    ZERO
                },
                ..self.csc0
            },
            ..self
        }
    }

    /// Take the buffer's alpha channel as fully opaque.
    ///
    /// An X-format buffer has no alpha, and Vulkan has no X formats, so it is
    /// imported as the matching A format and the undefined byte is sampled as
    /// alpha. Clients leave it zero, so a window that declared itself opaque
    /// would come out completely transparent.
    pub fn with_opaque(self, opaque: bool) -> (push: Push)
        ensures
            push == self.flagged(opaque),
    {
        let mut push = self;
        push.csc0.w = if opaque {
            ONE
        } else {
            ZERO
        };
        push
    }

    /// The rows of the block, in the order the shader declares them.
    pub open spec fn rows(self) -> Seq<Vec4> {
        seq![
            self.pos_a,
            self.pos_b,
            self.tex_a,
            self.color,
            self.misc,
            self.csc0,
            self.csc1,
            self.csc2,
        ]
    }

    /// The block as the words it occupies, in order.
    pub fn words(&self) -> (words: Vec<u32>)
        ensures
            words@.len() * 4 == PUSH_BYTES,
            forall|i: int|
                0 <= i < 8 ==> words@[4 * i] == (#[trigger] self.rows()[i]).x && words@[4 * i + 1]
                    == self.rows()[i].y && words@[4 * i + 2] == self.rows()[i].z && words@[4 * i
                    + 3] == self.rows()[i].w,
    {
        vec![
            self.pos_a.x,
            self.pos_a.y,
            self.pos_a.z,
            self.pos_a.w,
            self.pos_b.x,
            self.pos_b.y,
            self.pos_b.z,
            self.pos_b.w,
            self.tex_a.x,
            self.tex_a.y,
            self.tex_a.z,
            self.tex_a.w,
            self.color.x,
            self.color.y,
            self.color.z,
            self.color.w,
            self.misc.x,
            self.misc.y,
            self.misc.z,
            self.misc.w,
            self.csc0.x,
            self.csc0.y,
            self.csc0.z,
            self.csc0.w,
            self.csc1.x,
            self.csc1.y,
            self.csc1.z,
            self.csc1.w,
            self.csc2.x,
            self.csc2.y,
            self.csc2.z,
            self.csc2.w,
        ]
    }
}

/// A map nothing reads: the solid pipeline has no texture, but the block is one
/// shape.
pub open spec fn no_texture() -> ShaderMap {
    ShaderMap {
        a: Vec4 { x: ONE, y: ZERO, z: ZERO, w: ONE },
        b: Vec4 { x: ZERO, y: ZERO, z: ZERO, w: ZERO },
    }
}

/// A conversion from one description's colours to another's.
#[derive(Debug, Clone, Copy, PartialEq, Eq, Structural)]
pub struct ColorConversion {
    pub from: TransferFunction,
    pub to: TransferFunction,
    pub quotients: Quotients,
    pub matrix: Matrix,
}

/// What a draw is given: the push constant block before its two maps have been
/// put into floating point.
#[derive(Debug, Clone, Copy, PartialEq, Eq, Structural)]
pub struct Constants {
    /// Where the quad goes.
    pub position: Affine,
    /// What of a texture it samples, if it samples one.
    pub sampling: Option<Sampling>,
    /// Premultiplied colour, or a tint for the textured pipeline.
    pub color: Vec4,
    pub alpha: u32,
    pub conversion: Option<ColorConversion>,
    /// Whether the texture's alpha channel is to be ignored.
    pub opaque: bool,
}

impl Constants {
    /// The block, given the two maps in floating point.
    pub open spec fn block(self, position: ShaderMap, texture: Option<ShaderMap>) -> Push {
        let plain = Push::plain(
            position,
            match texture {
                Some(texture) => texture,
                None => no_texture(),
            },
            self.color,
            self.alpha,
        );
        match self.conversion {
            Some(c) => plain.converted(c.from, c.to, c.quotients, c.matrix),
            None => plain,
        }.flagged(self.opaque)
    }

    /// The block, given the two maps in floating point: `position` is that of
    /// [`Constants::position`] and `texture` that of [`Constants::sampling`]. A
    /// draw that samples nothing is given the identity.
    pub fn push(&self, position: ShaderMap, texture: Option<ShaderMap>) -> (push: Push)
        ensures
            push == self.block(position, texture),
    {
        let texture = match texture {
            Some(texture) => texture,
            None => ShaderMap {
                a: Vec4 { x: ONE, y: ZERO, z: ZERO, w: ONE },
                b: Vec4 { x: ZERO, y: ZERO, z: ZERO, w: ZERO },
            },
        };
        let plain = Push::new(position, texture, self.color, self.alpha);
        let converted = match self.conversion {
            Some(c) => plain.with_color(c.from, c.to, c.quotients, c.matrix),
            None => plain,
        };
        converted.with_opaque(self.opaque)
    }
}

/// A colour conversion and the alpha flag leave the geometry, the tint and the
/// alpha of a draw alone, and the flag leaves the conversion alone.
pub proof fn conversion_and_opacity_keep_the_geometry(
    push: Push,
    from: TransferFunction,
    to: TransferFunction,
    quotients: Quotients,
    matrix: Matrix,
    opaque: bool,
)
    ensures
        ({
            let done = push.converted(from, to, quotients, matrix).flagged(opaque);
            &&& done.pos_a == push.pos_a && done.pos_b == push.pos_b && done.tex_a == push.tex_a
            &&& done.color == push.color && done.misc.x == push.misc.x
            &&& done.misc == push.converted(from, to, quotients, matrix).misc
            &&& (done.csc0.x, done.csc0.y, done.csc0.z) == (
                matrix.row0.x,
                matrix.row0.y,
                matrix.row0.z,
            )
            &&& done.csc0.w == if opaque { ONE } else { ZERO }
        }),
{
}

/// Which pipeline a draw uses.
#[derive(Debug, Clone, Copy, PartialEq, Eq, Hash, Structural)]
pub enum Kind {
    Solid,
    Texture,
}

/// Four bytes of a module as a word, lowest byte first.
pub open spec fn word(bytes: Seq<u8>, i: int) -> int {
    bytes[4 * i] + 0x100 * bytes[4 * i + 1] + 0x1_0000 * bytes[4 * i + 2] + 0x100_0000 * bytes[4 * i
        + 3]
}

/// A SPIR-V module as the words the driver wants.
pub fn spirv_words(bytes: &Vec<u8>) -> (words: Result<Vec<u32>, Error>)
    ensures
        match words {
            Ok(words) => {
                &&& bytes@.len() == 4 * words@.len()
                &&& forall|i: int| 0 <= i < words@.len() ==> #[trigger] words@[i] == word(bytes@, i)
            },
            Err(error) => bytes@.len() % 4 != 0 && error is Other && error.text()
                == "SPIR-V is not a whole number of words"@,
        },
{
    if bytes.len() % 4 != 0 {
        return Err(Error::Other("SPIR-V is not a whole number of words".to_owned()));
    }
    let count: usize = bytes.len() / 4;
    let mut words: Vec<u32> = Vec::new();
    for i in 0..count
        invariant
            bytes@.len() == 4 * count,
            bytes@.len() <= usize::MAX,
            words@.len() == i,
            forall|j: int| 0 <= j < i ==> #[trigger] words@[j] == word(bytes@, j),
    {
        let word: u32 = bytes[4 * i] as u32 + 0x100 * (bytes[4 * i + 1] as u32) + 0x1_0000 * (bytes[
        4 * i + 2] as u32) + 0x100_0000 * (bytes[4 * i + 3] as u32);
        words.push(word);
    }
    Ok(words)
}

/// Where the making of the pipelines' shared objects has got to: the request
/// that comes next.
#[derive(Debug, Clone, Copy, PartialEq, Eq, Structural)]
#[allow(inconsistent_fields)]
pub enum PipelinesStage {
    Vertex,
    Solid { vertex: u64 },
    Texture { vertex: u64, solid: u64 },
    Sampler { vertex: u64, solid: u64, texture: u64 },
    SetLayout { vertex: u64, solid: u64, texture: u64, sampler: u64 },
    Layout { vertex: u64, solid: u64, texture: u64, sampler: u64, set_layout: u64 },
}

/// The shaders, as the bytes of their modules.
#[derive(Debug)]
pub struct Shaders {
    pub vertex: Vec<u8>,
    pub solid: Vec<u8>,
    pub texture: Vec<u8>,
}

impl PipelinesStage {
    /// The module this stage makes, if it makes one.
    pub open spec fn module(self, shaders: Shaders) -> Option<Seq<u8>> {
        match self {
            PipelinesStage::Vertex => Some(shaders.vertex@),
            PipelinesStage::Solid { .. } => Some(shaders.solid@),
            PipelinesStage::Texture { .. } => Some(shaders.texture@),
            _ => None,
        }
    }

    /// The next request. A module that is not a whole number of words is not
    /// handed to the driver.
    pub fn call(&self, shaders: &Shaders) -> (call: Result<Call, Error>)
        ensures
            match self.module(*shaders) {
                Some(bytes) => match call {
                    Ok(call) => {
                        &&& call matches Call::CreateShaderModule { code }
                        &&& bytes.len() == 4 * code@.len()
                        &&& forall|i: int|
                            0 <= i < code@.len() ==> #[trigger] code@[i] == word(bytes, i)
                    },
                    Err(error) => bytes.len() % 4 != 0 && error is Other && error.text()
                        == "SPIR-V is not a whole number of words"@,
                },
                None => call matches Ok(call) && call == (match *self {
                    PipelinesStage::Sampler { .. } => Call::CreateSampler,
                    PipelinesStage::SetLayout { .. } => Call::CreateDescriptorSetLayout,
                    PipelinesStage::Layout { set_layout, .. } => Call::CreatePipelineLayout {
                        set_layout,
                        push_size: PUSH_BYTES,
                    },
                    _ => call,
                }),
            },
    {
        let bytes = match *self {
            PipelinesStage::Vertex => &shaders.vertex,
            PipelinesStage::Solid { .. } => &shaders.solid,
            PipelinesStage::Texture { .. } => &shaders.texture,
            PipelinesStage::Sampler { .. } => {
                return Ok(Call::CreateSampler);
            },
            PipelinesStage::SetLayout { .. } => {
                return Ok(Call::CreateDescriptorSetLayout);
            },
            PipelinesStage::Layout { set_layout, .. } => {
                return Ok(Call::CreatePipelineLayout { set_layout, push_size: PUSH_BYTES });
            },
        };
        match spirv_words(bytes) {
            Ok(code) => Ok(Call::CreateShaderModule { code }),
            Err(error) => Err(error),
        }
    }

    /// The name of the call behind the request.
    pub open spec fn name(self) -> Seq<char> {
        match self {
            PipelinesStage::Vertex => "vkCreateShaderModule"@,
            PipelinesStage::Solid { .. } => "vkCreateShaderModule"@,
            PipelinesStage::Texture { .. } => "vkCreateShaderModule"@,
            PipelinesStage::Sampler { .. } => "vkCreateSampler"@,
            PipelinesStage::SetLayout { .. } => "vkCreateDescriptorSetLayout"@,
            PipelinesStage::Layout { .. } => "vkCreatePipelineLayout"@,
        }
    }

    /// The stage after a request that made something, or `None` after the last.
    pub open spec fn after(self, handle: u64) -> Option<PipelinesStage> {
        match self {
            PipelinesStage::Vertex => Some(PipelinesStage::Solid { vertex: handle }),
            PipelinesStage::Solid { vertex } => Some(
                PipelinesStage::Texture { vertex, solid: handle },
            ),
            PipelinesStage::Texture { vertex, solid } => Some(
                PipelinesStage::Sampler { vertex, solid, texture: handle },
            ),
            PipelinesStage::Sampler { vertex, solid, texture } => Some(
                PipelinesStage::SetLayout { vertex, solid, texture, sampler: handle },
            ),
            PipelinesStage::SetLayout { vertex, solid, texture, sampler } => Some(
                PipelinesStage::Layout { vertex, solid, texture, sampler, set_layout: handle },
            ),
            PipelinesStage::Layout { .. } => None,
        }
    }

    /// What a reply leads to. Where a request fails, what was made before it is
    /// kept until the device itself goes.
    pub open spec fn leads_to(
        self,
        reply: Reply,
        progress: Progress<PipelinesStage, Pipelines>,
    ) -> bool {
        match reply {
            Reply::Handle(handle) => match self.after(handle) {
                Some(next) => progress == Progress::<PipelinesStage, Pipelines>::Next(next),
                None => {
                    &&& self matches PipelinesStage::Layout {
                        vertex,
                        solid,
                        texture,
                        sampler,
                        set_layout,
                    }
                    &&& progress matches Progress::Done(pipelines)
                    &&& pipelines.vertex == vertex
                    &&& pipelines.solid == solid
                    &&& pipelines.texture == texture
                    &&& pipelines.sampler == sampler
                    &&& pipelines.set_layout == set_layout
                    &&& pipelines.layout == handle
                    &&& pipelines.by_format@ == Map::<u64, u64>::empty()
                },
            },
            Reply::Failed(code) => {
                &&& progress matches Progress::Failed { release, error }
                &&& error is Other
                &&& error.text() == call_failure(self.name(), code)
                &&& release@.len() == 0
            },
            _ => true,
        }
    }

    /// Take the reply to this stage's request.
    pub fn reply(self, reply: Reply) -> (progress: Progress<PipelinesStage, Pipelines>)
        requires
            reply is Handle || reply is Failed,
        ensures
            self.leads_to(reply, progress),
    {
        match (self, reply) {
            (PipelinesStage::Vertex, Reply::Handle(handle)) => Progress::Next(
                PipelinesStage::Solid { vertex: handle },
            ),
            (PipelinesStage::Solid { vertex }, Reply::Handle(handle)) => Progress::Next(
                PipelinesStage::Texture { vertex, solid: handle },
            ),
            (PipelinesStage::Texture { vertex, solid }, Reply::Handle(handle)) => Progress::Next(
                PipelinesStage::Sampler { vertex, solid, texture: handle },
            ),
            (PipelinesStage::Sampler { vertex, solid, texture }, Reply::Handle(handle)) => {
                Progress::Next(PipelinesStage::SetLayout { vertex, solid, texture, sampler: handle })
            },
            (
                PipelinesStage::SetLayout { vertex, solid, texture, sampler },
                Reply::Handle(handle),
            ) => Progress::Next(
                PipelinesStage::Layout { vertex, solid, texture, sampler, set_layout: handle },
            ),
            (
                PipelinesStage::Layout { vertex, solid, texture, sampler, set_layout },
                Reply::Handle(handle),
            ) => Progress::Done(
                Pipelines {
                    vertex,
                    solid,
                    texture,
                    sampler,
                    set_layout,
                    layout: handle,
                    by_format: HashMap::new(),
                },
            ),
            (_, Reply::Failed(code)) => {
                let name = match self {
                    PipelinesStage::Vertex
                    | PipelinesStage::Solid { .. }
                    | PipelinesStage::Texture { .. } => "vkCreateShaderModule",
                    PipelinesStage::Sampler { .. } => "vkCreateSampler",
                    PipelinesStage::SetLayout { .. } => "vkCreateDescriptorSetLayout",
                    PipelinesStage::Layout { .. } => "vkCreatePipelineLayout",
                };
                Progress::Failed { release: Vec::new(), error: Error::call(name, code) }
            },
            _ => {
                assert(false);
                Progress::Next(self)
            },
        }
    }
}

/// How a colour already there and a colour drawn over it are mixed.
#[derive(Debug, Clone, Copy, PartialEq, Eq, Structural)]
pub enum BlendFactor {
    One,
    OneMinusSrcAlpha,
}

/// A graphics pipeline to build: a triangle strip without vertex buffers, filled
/// and never culled, into one attachment. Viewport and scissor are set while
/// recording.
#[derive(Debug, Clone, Copy, PartialEq, Eq, Structural)]
pub struct PipelineInfo {
    pub vertex: u64,
    pub fragment: u64,
    pub layout: u64,
    /// The format of the attachment.
    pub format: VkFormat,
    pub viewport_count: u32,
    pub scissor_count: u32,
    /// For colour and for alpha alike, added up.
    pub src_factor: BlendFactor,
    pub dst_factor: BlendFactor,
}

/// The number a format and a kind of draw are kept under.
pub open spec fn pipeline_key(format: VkFormat, kind: Kind) -> u64 {
    let base: u64 = match format {
        VkFormat::B8G8R8A8Unorm => 0,
        VkFormat::R8G8B8A8Unorm => 2,
        VkFormat::A2B10G10R10UnormPack32 => 4,
        VkFormat::A2R10G10B10UnormPack32 => 6,
        VkFormat::R16G16B16A16Sfloat => 8,
        VkFormat::R5G6B5UnormPack16 => 10,
        VkFormat::R8Unorm => 12,
        VkFormat::R8G8Unorm => 14,
        VkFormat::G8B8R82Plane420Unorm => 16,
        VkFormat::G8B8R82Plane422Unorm => 18,
        VkFormat::G8B8R83Plane420Unorm => 20,
        VkFormat::G8B8R83Plane422Unorm => 22,
        VkFormat::G8B8R83Plane444Unorm => 24,
        VkFormat::G10X6B10X6R10X62Plane420Unorm3Pack16 => 26,
        VkFormat::G16B16R162Plane420Unorm => 28,
    };
    match kind {
        Kind::Solid => base,
        Kind::Texture => (base + 1) as u64,
    }
}

/// No two pipelines share a number.
pub proof fn pipeline_keys_are_distinct(a: VkFormat, k: Kind, b: VkFormat, l: Kind)
    requires
        pipeline_key(a, k) == pipeline_key(b, l),
    ensures
        a == b,
        k == l,
{
}

/// The number a format and a kind of draw are kept under.
fn to_key(format: VkFormat, kind: Kind) -> (key: u64)
    ensures
        key == pipeline_key(format, kind),
{
    let base: u64 = match format {
        VkFormat::B8G8R8A8Unorm => 0,
        VkFormat::R8G8B8A8Unorm => 2,
        VkFormat::A2B10G10R10UnormPack32 => 4,
        VkFormat::A2R10G10B10UnormPack32 => 6,
        VkFormat::R16G16B16A16Sfloat => 8,
        VkFormat::R5G6B5UnormPack16 => 10,
        VkFormat::R8Unorm => 12,
        VkFormat::R8G8Unorm => 14,
        VkFormat::G8B8R82Plane420Unorm => 16,
        VkFormat::G8B8R82Plane422Unorm => 18,
        VkFormat::G8B8R83Plane420Unorm => 20,
        VkFormat::G8B8R83Plane422Unorm => 22,
        VkFormat::G8B8R83Plane444Unorm => 24,
        VkFormat::G10X6B10X6R10X62Plane420Unorm3Pack16 => 26,
        VkFormat::G16B16R162Plane420Unorm => 28,
    };
    match kind {
        Kind::Solid => base,
        Kind::Texture => base + 1,
    }
}

/// Shader modules, the sampler, and the layouts, and the pipelines built from
/// them.
#[derive(Debug)]
pub struct Pipelines {
    pub vertex: u64,
    pub solid: u64,
    pub texture: u64,
    pub sampler: u64,
    pub set_layout: u64,
    pub layout: u64,
    /// Pipelines are tied to the format they render into. Built on demand and
    /// kept, because there are only ever a handful of formats.
    pub by_format: HashMap<u64, u64>,
}

/// What is known of a pipeline that is asked for.
#[derive(Debug, Clone, Copy, PartialEq, Eq, Structural)]
pub enum Lookup {
    Built(u64),
    /// It has not been needed before, and this is how to build it.
    Missing(PipelineInfo),
}

impl Pipelines {
    /// Start making the shader modules, the sampler and the layouts.
    pub fn new() -> (stage: PipelinesStage)
        ensures
            stage is Vertex,
    {
        PipelinesStage::Vertex
    }

    /// The layout every pipeline has.
    pub fn layout(&self) -> (layout: u64)
        ensures
            layout == self.layout,
    {
        self.layout
    }

    /// The sampler every texture is read through.
    pub fn sampler(&self) -> (sampler: u64)
        ensures
            sampler == self.sampler,
    {
        self.sampler
    }

    /// The pipeline kept for a draw, if it has been built.
    pub open spec fn kept(self, format: VkFormat, kind: Kind) -> Option<u64> {
        if self.by_format@.contains_key(pipeline_key(format, kind)) {
            Some(self.by_format@[pipeline_key(format, kind)])
        } else {
            None
        }
    }

    /// How to build the pipeline for a draw.
    pub open spec fn recipe(self, format: VkFormat, kind: Kind) -> PipelineInfo {
        PipelineInfo {
            vertex: self.vertex,
            fragment: match kind {
                Kind::Solid => self.solid,
                Kind::Texture => self.texture,
            },
            layout: self.layout,
            format,
            viewport_count: 1,
            scissor_count: 1,
            src_factor: BlendFactor::One,
            dst_factor: BlendFactor::OneMinusSrcAlpha,
        }
    }

    /// The pipeline for this kind of draw into this format, or how to build it
    /// if it has not been needed before.
    pub fn get(&self, format: VkFormat, kind: Kind) -> (lookup: Lookup)
        ensures
            lookup == (match self.kept(format, kind) {
                Some(pipeline) => Lookup::Built(pipeline),
                None => Lookup::Missing(self.recipe(format, kind)),
            }),
    {
        match self.by_format.get(&to_key(format, kind)) {
            Some(pipeline) => Lookup::Built(*pipeline),
            None => Lookup::Missing(self.build(format, kind)),
        }
    }

    /// How to build the pipeline for a draw.
    fn build(&self, format: VkFormat, kind: Kind) -> (info: PipelineInfo)
        ensures
            info == self.recipe(format, kind),
    {
        let fragment: u64 = match kind {
            Kind::Solid => self.solid,
            Kind::Texture => self.texture,
        };
        PipelineInfo {
            vertex: self.vertex,
            fragment,
            layout: self.layout,
            format,
            // Both are dynamic, set per frame from the render area.
            viewport_count: 1,
            scissor_count: 1,
            // Premultiplied alpha: Wayland buffers are premultiplied, and
            // multiplying by alpha again looks like dark halos around
            // translucent edges.
            src_factor: BlendFactor::One,
            dst_factor: BlendFactor::OneMinusSrcAlpha,
        }
    }

    /// Everything but the pipelines that have been built.
    pub open spec fn same_objects(self, other: Pipelines) -> bool {
        &&& self.vertex == other.vertex
        &&& self.solid == other.solid
        &&& self.texture == other.texture
        &&& self.sampler == other.sampler
        &&& self.set_layout == other.set_layout
        &&& self.layout == other.layout
    }

    /// Keep a pipeline that was built, or say why it was not.
    pub fn built(&mut self, format: VkFormat, kind: Kind, reply: Reply) -> (pipeline: Result<
        u64,
        Error,
    >)
        requires
            reply is Handle || reply is Failed,
        ensures
            final(self).same_objects(*old(self)),
            match (reply, pipeline) {
                (Reply::Handle(handle), Ok(pipeline)) => pipeline == handle && final(self).by_format@
                    == old(self).by_format@.insert(pipeline_key(format, kind), handle),
                (Reply::Failed(code), Err(error)) => error is Other && error.text() == call_failure(
                    "vkCreateGraphicsPipelines"@,
                    code,
                ) && final(self).by_format@ == old(self).by_format@,
                _ => false,
            },
    {
        match reply {
            Reply::Handle(handle) => {
                self.by_format.insert(to_key(format, kind), handle);
                Ok(handle)
            },
            Reply::Failed(code) => Err(Error::call("vkCreateGraphicsPipelines", code)),
            _ => {
                assert(false);
                Ok(0)
            },
        }
    }

    /// What has to be given back after the pipelines themselves, in order.
    pub open spec fn shared(self) -> Seq<Object> {
        seq![
            Object::PipelineLayout(self.layout),
            Object::DescriptorSetLayout(self.set_layout),
            Object::Sampler(self.sampler),
            Object::ShaderModule(self.vertex),
            Object::ShaderModule(self.solid),
            Object::ShaderModule(self.texture),
        ]
    }

    /// What has to be given back when the pipelines go: every one that was
    /// built, in no particular order, and then what they share.
    pub fn release(&self) -> (objects: Vec<Object>)
        ensures
            ({
                let built = self.by_format@.dom().len() as int;
                &&& objects@.len() == built + self.shared().len()
                &&& objects@.skip(built) == self.shared()
                &&& forall|i: int|
                    0 <= i < built ==> #[trigger] objects@[i] is Pipeline
                        && self.by_format@.values().contains(objects@[i]->Pipeline_0)
                &&& forall|pipeline: u64| #[trigger]
                    self.by_format@.values().contains(pipeline) ==> objects@.take(built).contains(
                        Object::Pipeline(pipeline),
                    )
            }),
    {
        let mut objects: Vec<Object> = Vec::new();
        let ghost order = vstd::std_specs::iter::IteratorSpec::remaining(
            &vstd::std_specs::hash::spec_values_iter(&self.by_format),
        );
        for pipeline in values: self.by_format.values()
            invariant
                values.seq() == order,
                objects@.len() == values.index(),
                forall|i: int|
                    0 <= i < values.index() ==> #[trigger] objects@[i] == Object::Pipeline(
                        *values.seq()[i],
                    ),
        {
            objects.push(Object::Pipeline(*pipeline));
        }
        let ghost built = objects@;
        proof {
            assert(order.unref().to_set() == self.by_format@.values());
            assert forall|i: int| 0 <= i < built.len() implies self.by_format@.values().contains(
                *order[i],
            ) by {
                assert(order.unref()[i] == *order[i]);
                assert(order.unref().to_set().contains(*order[i]));
            }
            assert forall|pipeline: u64| #[trigger]
                self.by_format@.values().contains(pipeline) implies built.contains(
                Object::Pipeline(pipeline),
            ) by {
                assert(order.unref().contains(pipeline));
                let i = choose|i: int| 0 <= i < order.unref().len() && order.unref()[i] == pipeline;
                assert(built[i] == Object::Pipeline(pipeline));
            }
        }
        objects.push(Object::PipelineLayout(self.layout));
        objects.push(Object::DescriptorSetLayout(self.set_layout));
        objects.push(Object::Sampler(self.sampler));
        objects.push(Object::ShaderModule(self.vertex));
        objects.push(Object::ShaderModule(self.solid));
        objects.push(Object::ShaderModule(self.texture));
        assert(objects@.skip(built.len() as int) =~= self.shared());
        assert(objects@.take(built.len() as int) =~= built);
        objects
    }
}

/// A pipeline that was built is found again, and building one leaves every
/// other where it was.
pub proof fn a_built_pipeline_is_found_again(
    before: Pipelines,
    after: Pipelines,
    format: VkFormat,
    kind: Kind,
    pipeline: u64,
    other_format: VkFormat,
    other_kind: Kind,
)
    requires
        after.by_format@ == before.by_format@.insert(pipeline_key(format, kind), pipeline),
    ensures
        after.kept(format, kind) == Some(pipeline),
        (other_format, other_kind) != (format, kind) ==> after.kept(other_format, other_kind)
            == before.kept(other_format, other_kind),
{
    if (other_format, other_kind) != (format, kind) {
        if pipeline_key(other_format, other_kind) == pipeline_key(format, kind) {
            pipeline_keys_are_distinct(other_format, other_kind, format, kind);
        }
    }
}

/// The block a shader reads says what the draw was given, word for word: the
/// opacity that was asked for, whatever it is; the colour; where the quad goes
/// and what it samples; whether alpha counts; and the conversion, or one that
/// changes nothing.
pub proof fn a_block_says_what_the_draw_was_given(
    constants: Constants,
    position: ShaderMap,
    texture: Option<ShaderMap>,
)
    ensures
        ({
            let block = constants.block(position, texture);
            &&& block.misc.x == constants.alpha
            &&& block.color == constants.color
            &&& block.pos_a == position.a
            &&& (block.pos_b.x, block.pos_b.y) == (position.b.x, position.b.y)
            &&& texture matches Some(map) ==> block.tex_a == map.a && (block.pos_b.z, block.pos_b.w)
                == (map.b.x, map.b.y)
            &&& texture is None ==> block.tex_a == (Vec4 { x: ONE, y: ZERO, z: ZERO, w: ONE }) && (
            block.pos_b.z, block.pos_b.w) == (ZERO, ZERO)
            &&& block.csc0.w == ONE <==> constants.opaque
            &&& block.csc0.w == ZERO <==> !constants.opaque
            &&& match constants.conversion {
                Some(c) => {
                    &&& (block.csc0.x, block.csc0.y, block.csc0.z) == (
                        c.matrix.row0.x,
                        c.matrix.row0.y,
                        c.matrix.row0.z,
                    )
                    &&& (block.csc1.x, block.csc1.y, block.csc1.z) == (
                        c.matrix.row1.x,
                        c.matrix.row1.y,
                        c.matrix.row1.z,
                    )
                    &&& (block.csc2.x, block.csc2.y, block.csc2.z) == (
                        c.matrix.row2.x,
                        c.matrix.row2.y,
                        c.matrix.row2.z,
                    )
                    &&& is_single(block.misc.y, c.from.code() as int)
                    &&& is_single(block.misc.z, c.to.code() as int)
                    &&& block.misc.w == (if c.from is Pq && c.to is Pq {
                        ONE
                    } else if c.from is Pq {
                        c.quotients.peak_over_reference
                    } else if c.to is Pq {
                        c.quotients.reference_over_peak
                    } else {
                        c.quotients.reference_over_reference
                    })
                },
                None => {
                    &&& (block.csc0.x, block.csc0.y, block.csc0.z) == (ONE, ZERO, ZERO)
                    &&& (block.csc1.x, block.csc1.y, block.csc1.z) == (ZERO, ONE, ZERO)
                    &&& (block.csc2.x, block.csc2.y, block.csc2.z) == (ZERO, ZERO, ONE)
                    &&& is_single(block.misc.y, TransferFunction::Linear.code() as int)
                    &&& is_single(block.misc.z, TransferFunction::Linear.code() as int)
                    &&& block.misc.w == ONE
                },
            }
        }),
{
    if let Some(c) = constants.conversion {
        small_numbers_are_single_precision(c.from.code());
        small_numbers_are_single_precision(c.to.code());
    }
    small_numbers_are_single_precision(TransferFunction::Linear.code());
}

/// Two draws that differ in opacity differ in that one word of their blocks.
pub proof fn opacity_changes_one_word(
    constants: Constants,
    opacity: u32,
    position: ShaderMap,
    texture: Option<ShaderMap>,
)
    ensures
        ({
            let one = constants.block(position, texture);
            let other = (Constants { alpha: opacity, ..constants }).block(position, texture);
            other == (Push { misc: Vec4 { x: opacity, ..one.misc }, ..one })
        }),
{
}

/// Whether some bits are a whole number in single precision: a sign of zero, an
/// exponent with its bias taken off, and a fraction whose leading one is left
/// out.
pub open spec fn is_single(bits: u32, n: int) -> bool {
    let exponent = bits as int / 0x80_0000;
    let fraction = bits as int % 0x80_0000;
    if n == 0 {
        bits == 0
    } else {
        ||| exponent == 127 && 0x80_0000 + fraction == n * 0x80_0000
        ||| exponent == 128 && (0x80_0000 + fraction) * 2 == n * 0x80_0000
        ||| exponent == 129 && (0x80_0000 + fraction) * 4 == n * 0x80_0000
    }
}

/// The number of a curve reaches the shader as that number.
pub proof fn small_numbers_are_single_precision(n: u32)
    requires
        n <= 5,
    ensures
        is_single(single(n), n as int),
        is_single(ONE, 1),
        is_single(ZERO, 0),
{
}

/// The rows reach the shader in the order it declares them, all of them.
pub proof fn the_rows_are_in_the_order_of_the_shader(push: Push)
    ensures
        push.rows().len() == 8,
        push.rows()[0] == push.pos_a && push.rows()[1] == push.pos_b,
        push.rows()[2] == push.tex_a && push.rows()[3] == push.color,
        push.rows()[4] == push.misc && push.rows()[5] == push.csc0,
        push.rows()[6] == push.csc1 && push.rows()[7] == push.csc2,
{
}

/// A pipeline is built for the draw it is for: its own fragment shader over the
/// shared vertex shader and layout, into the format that was asked for. What is
/// drawn is premultiplied already, so it is added as it is to what its alpha
/// leaves of what was there.
pub proof fn a_pipeline_is_built_for_its_draw(
    pipelines: Pipelines,
    format: VkFormat,
    kind: Kind,
)
    ensures
        ({
            let info = pipelines.recipe(format, kind);
            &&& info.format == format
            &&& info.vertex == pipelines.vertex
            &&& info.layout == pipelines.layout
            &&& kind is Solid ==> info.fragment == pipelines.solid
            &&& kind is Texture ==> info.fragment == pipelines.texture
            &&& info.src_factor is One
            &&& info.dst_factor is OneMinusSrcAlpha
            &&& info.viewport_count == 1 && info.scissor_count == 1
        }),
{
}

/// Every shared object is made once, each shader module out of its own code, and
/// ends up in its own place; the last to be made is the layout.
pub proof fn every_shared_object_ends_up_in_its_place(
    shaders: Shaders,
    handles: Seq<u64>,
    progress: Progress<PipelinesStage, Pipelines>,
)
    requires
        handles.len() == 6,
        (PipelinesStage::Layout {
            vertex: handles[0],
            solid: handles[1],
            texture: handles[2],
            sampler: handles[3],
            set_layout: handles[4],
        }).leads_to(Reply::Handle(handles[5]), progress),
    ensures
        ({
            let first = PipelinesStage::Vertex;
            let second = first.after(handles[0])->0;
            let third = second.after(handles[1])->0;
            let fourth = third.after(handles[2])->0;
            let fifth = fourth.after(handles[3])->0;
            let sixth = fifth.after(handles[4])->0;
            &&& first.module(shaders) == Some(shaders.vertex@)
            &&& second.module(shaders) == Some(shaders.solid@)
            &&& third.module(shaders) == Some(shaders.texture@)
            &&& fourth is Sampler && fifth is SetLayout && sixth is Layout
            &&& sixth == (PipelinesStage::Layout {
                vertex: handles[0],
                solid: handles[1],
                texture: handles[2],
                sampler: handles[3],
                set_layout: handles[4],
            })
        }),
        progress matches Progress::Done(made) && {
            &&& made.vertex == handles[0] && made.solid == handles[1] && made.texture == handles[2]
            &&& made.sampler == handles[3] && made.set_layout == handles[4] && made.layout
                == handles[5]
            &&& made.by_format@.dom().len() == 0
        },
{
}

/// What the pipelines share is given back whole, and what is made from something
/// goes before it.
pub proof fn every_shared_object_is_given_back(pipelines: Pipelines)
    ensures
        pipelines.shared().len() == 6,
        pipelines.shared()[0] == Object::PipelineLayout(pipelines.layout),
        pipelines.shared()[1] == Object::DescriptorSetLayout(pipelines.set_layout),
        pipelines.shared()[2] == Object::Sampler(pipelines.sampler),
        pipelines.shared().skip(3).to_multiset().count(Object::ShaderModule(pipelines.vertex)) > 0,
        pipelines.shared().skip(3).to_multiset().count(Object::ShaderModule(pipelines.solid)) > 0,
        pipelines.shared().skip(3).to_multiset().count(Object::ShaderModule(pipelines.texture)) > 0,
{
    broadcast use vstd::seq_lib::group_to_multiset_ensures;

    let rest = pipelines.shared().skip(3);
    assert(rest[0] == Object::ShaderModule(pipelines.vertex));
    assert(rest[1] == Object::ShaderModule(pipelines.solid));
    assert(rest[2] == Object::ShaderModule(pipelines.texture));
    assert(rest.contains(Object::ShaderModule(pipelines.vertex)));
    assert(rest.contains(Object::ShaderModule(pipelines.solid)));
    assert(rest.contains(Object::ShaderModule(pipelines.texture)));
}

/// A word of a module takes its bytes lowest first, each at its own weight.
pub proof fn a_word_holds_its_four_bytes(bytes: Seq<u8>, i: int)
    requires
        0 <= i,
        4 * i + 3 < bytes.len(),
    ensures
        word(bytes, i) % 0x100 == bytes[4 * i],
        word(bytes, i) / 0x100 % 0x100 == bytes[4 * i + 1],
        word(bytes, i) / 0x1_0000 % 0x100 == bytes[4 * i + 2],
        word(bytes, i) / 0x100_0000 == bytes[4 * i + 3],
{
}

} // verus!
