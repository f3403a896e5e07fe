//! Importing a DMA-BUF, step by step.
//!
//! The import is a conversation with the driver: create the image, ask what
//! memory it needs, ask which memory each descriptor can back, bind the two,
//! and view the result. [`Image::import`] makes every check that needs no
//! driver, and [`Import`] then says which request comes next and what each
//! reply leads to.
use vstd::prelude::*;

use vstd::multiset::Multiset;

use crate::device::Device;
use crate::error::{call_failure, caused, Error};
use crate::format::{
    alpha, chroma_swapped, fourcc_video, has_alpha, is_yuv, modifiers, supports, to_vulkan,
    vulkan_format, yuv, Fourcc, ModifierSupport, VkFormat,
};
use crate::image::{
    append_memories, distinct_allocations, firsts, lemma_firsts, memories, Dmabuf, Image, Plane,
    Purpose,
};
use crate::text::{append_decimal, append_hexadecimal, decimal, hexadecimal};
use crate::vulkan::{
    Call, ChromaLocation, Filter, ImageInfo, Object, PlaneLayout, Progress, Reply, Tiling, Usage,
    YcbcrKey, YcbcrModel, YcbcrRange,
};

verus! {

/// Whether a format has half as many rows of chroma as of luma.
pub open spec fn subsampled_vertically(code: Fourcc) -> bool {
    code is Nv12 || code is Nv21 || code is Yuv420 || code is Yvu420 || code is P010 || code is P016
}

/// The tallest standard-definition picture, PAL's active height.
pub const STANDARD_DEFINITION: u32 = 576;

/// The conversion a YUV buffer of this shape needs.
pub open spec fn conversion_for(
    code: Fourcc,
    format: VkFormat,
    height: u32,
    support: ModifierSupport,
) -> YcbcrKey {
    YcbcrKey {
        format,
        model: if height <= STANDARD_DEFINITION {
            YcbcrModel::Ycbcr601
        } else {
            YcbcrModel::Ycbcr709
        },
        range: YcbcrRange::ItuNarrow,
        x_offset: if support.cosited_chroma {
            ChromaLocation::CositedEven
        } else {
            ChromaLocation::Midpoint
        },
        y_offset: if subsampled_vertically(code) && support.midpoint_chroma {
            ChromaLocation::Midpoint
        } else {
            ChromaLocation::CositedEven
        },
        filter: if support.linear_chroma {
            Filter::Linear
        } else {
            Filter::Nearest
        },
        swapped_chroma: chroma_swapped(code),
    }
}

/// The conversion a YUV buffer of this shape needs.
///
/// Neither the matrix nor the range is carried by a DMA-BUF, so both are
/// inferred. Height decides the matrix: anything of standard-definition height
/// was almost certainly encoded with BT.601, and everything taller was not. The
/// range is taken as narrow because that is what every hardware decoder
/// defaults to. The siting is whichever of the two the device says it can
/// reconstruct, preferring the one the MPEG family uses.
pub fn ycbcr_key(code: Fourcc, format: VkFormat, height: u32, support: &ModifierSupport) -> (key:
    YcbcrKey)
    ensures
        key == conversion_for(code, format, height, *support),
{
    let model = if height <= STANDARD_DEFINITION {
        YcbcrModel::Ycbcr601
    } else {
        YcbcrModel::Ycbcr709
    };
    // Horizontally the MPEG family sites chroma on the left-hand luma sample.
    let x_offset = if support.cosited_chroma {
        ChromaLocation::CositedEven
    } else {
        ChromaLocation::Midpoint
    };
    // Vertically, only a 4:2:0 format has a choice to make: without vertical
    // subsampling the chroma sample sits on the luma row by definition.
    let vertically = matches!(
        code,
        Fourcc::Nv12
            | Fourcc::Nv21
            | Fourcc::Yuv420
            | Fourcc::Yvu420
            | Fourcc::P010
            | Fourcc::P016
    );
    let y_offset = if vertically && support.midpoint_chroma {
        ChromaLocation::Midpoint
    } else {
        ChromaLocation::CositedEven
    };
    // Chroma is filtered linearly only where the device says it can be. Where
    // it cannot, luma has to drop to nearest with it.
    let filter = if support.linear_chroma {
        Filter::Linear
    } else {
        Filter::Nearest
    };
    YcbcrKey {
        format,
        model,
        range: YcbcrRange::ItuNarrow,
        x_offset,
        y_offset,
        filter,
        swapped_chroma: matches!(code, Fourcc::Nv21 | Fourcc::Yvu420),
    }
}

/// The place of a modifier in a list, or where the list ends.
pub open spec fn modifier_index(supported: Seq<ModifierSupport>, modifier: u64) -> int
    decreases supported.len(),
{
    if supported.len() == 0 || supported[0].modifier == modifier {
        0
    } else {
        1 + modifier_index(supported.skip(1), modifier)
    }
}

/// What a device offers for a fourcc with a modifier.
pub open spec fn support_for(device: Device, code: Fourcc, modifier: u64) -> Option<
    ModifierSupport,
> {
    let supported = supports(device.physical, code);
    let index = modifier_index(supported, modifier);
    if index < supported.len() {
        Some(supported[index])
    } else {
        None
    }
}

/// What a device offers for a fourcc with a modifier.
pub fn find_support(device: &Device, code: Fourcc, modifier: u64) -> (found: Option<
    ModifierSupport,
>)
    ensures
        found == support_for(*device, code, modifier),
{
    let supported = modifiers(device.physical(), code);
    proof {
        assert(supported@.skip(0) =~= supported@);
    }
    for i in 0..supported.len()
        invariant
            supported@ == supports(device.physical, code),
            modifier_index(supported@, modifier) == i + modifier_index(
                supported@.skip(i as int),
                modifier,
            ),
    {
        proof {
            assert(supported@.skip(i as int).skip(1) =~= supported@.skip(i + 1));
        }
        if supported[i].modifier == modifier {
            return Some(supported[i]);
        }
    }
    None
}

/// A format and a modifier, as they read together in a message.
pub open spec fn with_modifier(code: Fourcc, modifier: u64) -> Seq<char> {
    code.text() + " modifier "@ + hexadecimal(modifier as int)
}

/// Why a buffer cannot be imported for a purpose, or `None` where the driver
/// can be asked.
pub open spec fn refusal(device: Device, buffer: Dmabuf, purpose: Purpose) -> Option<Seq<char>> {
    let code = buffer.code;
    let modifier = buffer.modifier;
    if vulkan_format(code) is None {
        Some("no Vulkan format for "@ + code.text())
    } else if support_for(device, code, modifier) is None {
        Some(
            device.physical.name@ + " does not support "@ + code.text() + " with modifier "@
                + hexadecimal(modifier as int),
        )
    } else {
        let support = support_for(device, code, modifier)->0;
        if purpose is Sample && yuv(code) && !support.assembles() {
            Some(with_modifier(code, modifier) + " cannot be sampled through a YCbCr conversion"@)
        } else if purpose is Sample && !support.sampling {
            Some(with_modifier(code, modifier) + " cannot be sampled"@)
        } else if purpose is Render && !support.rendering {
            Some(with_modifier(code, modifier) + " cannot be rendered into"@)
        } else if yuv(code) && purpose is Render {
            Some(code.text() + " cannot be a render target"@)
        } else if yuv(code) && !device.physical.ycbcr {
            Some(device.physical.name@ + " cannot sample multi-planar YUV"@)
        } else if buffer.planes@.len() as u32 != support.planes {
            Some(
                "buffer has "@ + decimal(buffer.planes@.len() as int) + " plane(s), modifier "@
                    + hexadecimal(modifier as int) + " describes "@ + decimal(
                    support.planes as int,
                ),
            )
        } else if buffer.confusion() is Some {
            buffer.confusion()
        } else if buffer.allocations() > 1 && !support.disjoint {
            Some(
                with_modifier(code, modifier) + " spans "@ + decimal(buffer.allocations())
                    + " separate allocations, which this device cannot bind disjointly"@,
            )
        } else {
            None
        }
    }
}

/// Where an import has got to: the request that comes next.
#[derive(Debug, Clone, Copy, PartialEq, Eq, Structural)]
#[allow(inconsistent_fields)]
pub enum ImportStage {
    CreateImage,
    /// Made before anything is bound, so that a device that cannot make it
    /// fails the import.
    CreateConversion,
    Requirements,
    FdProperties { size: u64, memory_types: u32 },
    DuplicateFd { size: u64, memory_type: u32 },
    Allocate { size: u64, memory_type: u32, fd: i32 },
    Bind,
    FindConversion,
    CreateView { conversion: Option<u64> },
}

/// An import under way.
#[derive(Debug)]
pub struct Import {
    pub fourcc: Fourcc,
    pub modifier: u64,
    pub width: u32,
    pub height: u32,
    pub format: VkFormat,
    pub usage: Usage,
    pub purpose: Purpose,
    pub ycbcr: Option<YcbcrKey>,
    /// Whether each plane has an allocation of its own.
    pub disjoint: bool,
    /// The descriptor and the layout of each plane.
    pub fds: Vec<i32>,
    pub layouts: Vec<PlaneLayout>,
    pub queue_family: u32,
    /// The image, once it has been created.
    pub image: u64,
    /// The allocations made so far.
    pub memory: Vec<u64>,
    pub stage: ImportStage,
}

/// The layout the allocator used, plane by plane.
pub open spec fn plane_layouts(planes: Seq<Plane>) -> Seq<PlaneLayout> {
    planes.map_values(
        |p: Plane| PlaneLayout { offset: p.offset as u64, row_pitch: p.stride as u64 },
    )
}

/// The usage an imported image gets: what its purpose needs and those transfers
/// its modifier offers, which for YUV is none.
pub open spec fn imported_usage(purpose: Purpose, code: Fourcc, support: ModifierSupport) -> Usage {
    Usage {
        transfer_src: support.transfer_src && !yuv(code),
        transfer_dst: support.transfer_dst && !yuv(code),
        ..purpose.needs()
    }
}

impl Image {
    /// Start importing a DMA-BUF.
    ///
    /// A modifier the device did not advertise is refused here rather than by
    /// the driver, which would say something less informative.
    pub fn import(device: &Device, buffer: &Dmabuf, purpose: Purpose) -> (import: Result<
        Import,
        Error,
    >)
        requires
            buffer.size.is_valid(),
        ensures
            match import {
                Ok(import) => refusal(*device, *buffer, purpose) is None && import.imports(
                    *device,
                    *buffer,
                    purpose,
                ),
                Err(error) => error is Other && refusal(*device, *buffer, purpose) == Some(
                    error.text(),
                ),
            },
    {
        let code = buffer.code;
        let modifier: u64 = buffer.modifier;
        let format = match to_vulkan(code) {
            Some(format) => format,
            None => {
                let mut text = String::new();
                text.append("no Vulkan format for ");
                code.append_to(&mut text);
                assert(text@ =~= "no Vulkan format for "@ + code.text());
                return Err(Error::Other(text));
            },
        };
        let support = match find_support(device, code, modifier) {
            Some(support) => support,
            None => {
                let mut text = device.physical.name.clone();
                text.append(" does not support ");
                code.append_to(&mut text);
                text.append(" with modifier ");
                append_hexadecimal(&mut text, modifier);
                return Err(Error::Other(text));
            },
        };
        let yuv = is_yuv(code);
        match purpose {
            Purpose::Sample => {
                // `sampling` on a multi-planar format only says the planes can
                // be read. Assembling them into colour is a separate feature.
                if yuv && !support.ycbcr_sampling() {
                    return Err(
                        modifier_error(
                            code,
                            modifier,
                            " cannot be sampled through a YCbCr conversion",
                        ),
                    );
                }
                if !support.sampling {
                    return Err(modifier_error(code, modifier, " cannot be sampled"));
                }
            },
            Purpose::Render => {
                if !support.rendering {
                    return Err(modifier_error(code, modifier, " cannot be rendered into"));
                }
                if yuv {
                    let mut text = String::new();
                    code.append_to(&mut text);
                    text.append(" cannot be a render target");
                    assert(text@ =~= code.text() + " cannot be a render target"@);
                    return Err(Error::Other(text));
                }
            },
        }
        if yuv && !device.has_ycbcr() {
            let mut text = device.physical.name.clone();
            text.append(" cannot sample multi-planar YUV");
            return Err(Error::Other(text));
        }
        // Take the transfer usages the modifier advertises, and no more. Never
        // for YUV: a copy involving a multi-planar image names one plane at a
        // time, and every transfer here covers the whole image.

        let mut usage = purpose.usage();
        if support.transfer_src && !yuv {
            usage.transfer_src = true;
        }
        if support.transfer_dst && !yuv {
            usage.transfer_dst = true;
        }
        let count: usize = buffer.planes.len();
        if #[verifier::truncate] (count as u32) != support.planes {
            let mut text = String::new();
            text.append("buffer has ");
            append_decimal(&mut text, count as u64);
            text.append(" plane(s), modifier ");
            append_hexadecimal(&mut text, modifier);
            text.append(" describes ");
            append_decimal(&mut text, support.planes as u64);
            assert(text@ =~= "buffer has "@ + decimal(count as int) + " plane(s), modifier "@
                + hexadecimal(modifier as int) + " describes "@ + decimal(support.planes as int));
            return Err(Error::Other(text));
        }
        // How many allocations are behind the planes. Two planes at two offsets
        // into one buffer are both in the first allocation, and that is the
        // common case.

        let which = match distinct_allocations(buffer) {
            Ok(which) => which,
            Err(error) => {
                return Err(error);
            },
        };
        let distinct: usize = count_allocations(buffer, &which);
        let disjoint = distinct > 1;
        if disjoint && !support.disjoint {
            let mut text = String::new();
            code.append_to(&mut text);
            text.append(" modifier ");
            append_hexadecimal(&mut text, modifier);
            text.append(" spans ");
            append_decimal(&mut text, distinct as u64);
            text.append(" separate allocations, which this device cannot bind disjointly");
            assert(text@ =~= with_modifier(code, modifier) + " spans "@ + decimal(distinct as int)
                + " separate allocations, which this device cannot bind disjointly"@);
            return Err(Error::Other(text));
        }
        let mut fds: Vec<i32> = Vec::new();
        let mut layouts: Vec<PlaneLayout> = Vec::new();
        for i in 0..buffer.planes.len()
            invariant
                fds@ =~= buffer.planes@.take(i as int).map_values(|p: Plane| p.fd),
                layouts@ =~= plane_layouts(buffer.planes@.take(i as int)),
        {
            let plane = &buffer.planes[i];
            fds.push(plane.fd);
            layouts.push(
                PlaneLayout { offset: plane.offset as u64, row_pitch: plane.stride as u64 },
            );
        }
        assert(buffer.planes@.take(buffer.planes@.len() as int) =~= buffer.planes@);
        let height: u32 = buffer.size.h as u32;
        let ycbcr = if yuv {
            Some(ycbcr_key(code, format, height, &support))
        } else {
            None
        };
        Ok(
            Import {
                fourcc: code,
                modifier,
                width: buffer.size.w as u32,
                height,
                format,
                usage,
                purpose,
                ycbcr,
                disjoint,
                fds,
                layouts,
                queue_family: device.queue_family(),
                image: 0,
                memory: Vec::new(),
                stage: ImportStage::CreateImage,
            },
        )
    }
}

/// An error about a format with a modifier.
fn modifier_error(code: Fourcc, modifier: u64, what: &str) -> (error: Error)
    ensures
        error is Other,
        error.text() == with_modifier(code, modifier) + what@,
{
    let mut text = String::new();
    code.append_to(&mut text);
    text.append(" modifier ");
    append_hexadecimal(&mut text, modifier);
    text.append(what);
    assert(text@ =~= with_modifier(code, modifier) + what@);
    Error::Other(text)
}

/// How many separate allocations the planes of a buffer live in: one more than
/// the highest number any of them was given.
fn count_allocations(buffer: &Dmabuf, which: &Vec<usize>) -> (count: usize)
    requires
        which@.len() == buffer.planes@.len(),
        which@.len() > 0,
        forall|i: int|
            0 <= i < which@.len() ==> 0 <= #[trigger] which@[i] < buffer.allocations() && firsts(
                buffer.identities(),
            )[which@[i] as int] == buffer.identities()[i],
    ensures
        count == buffer.allocations(),
{
    let mut highest: usize = which[0];
    for i in 0..which.len()
        invariant
            which@.len() == buffer.planes@.len(),
            which@.len() > 0,
            exists|k: int| 0 <= k < which@.len() && which@[k] == highest,
            forall|k: int| 0 <= k < i ==> which@[k] <= highest,
    {
        if which[i] > highest {
            highest = which[i];
        }
    }
    proof {
        let ids = buffer.identities();
        lemma_firsts(ids);
        let last = firsts(ids).len() - 1;
        assert(ids.contains(ids[0]));
        assert(firsts(ids).contains(ids[0]));
        assert(ids.contains(firsts(ids)[last]));
        let k = choose|k: int| 0 <= k < ids.len() && ids[k] == firsts(ids)[last];
        assert(firsts(ids)[which@[k] as int] == firsts(ids)[last]);
        assert(which@[k] == last);
    }
    highest + 1
}

impl Import {
    /// Whether this is the import of a buffer for a purpose, about to start.
    pub open spec fn imports(self, device: Device, buffer: Dmabuf, purpose: Purpose) -> bool {
        let support = support_for(device, buffer.code, buffer.modifier)->0;
        &&& self.fourcc == buffer.code
        &&& self.modifier == buffer.modifier
        &&& self.width == buffer.size.w
        &&& self.height == buffer.size.h
        &&& Some(self.format) == vulkan_format(buffer.code)
        &&& self.usage == imported_usage(purpose, buffer.code, support)
        &&& self.purpose == purpose
        &&& self.ycbcr == (if yuv(buffer.code) {
            Some(conversion_for(buffer.code, self.format, self.height, support))
        } else {
            None
        })
        &&& self.disjoint == (buffer.allocations() > 1)
        &&& self.fds@ == buffer.planes@.map_values(|p: Plane| p.fd)
        &&& self.layouts@ == plane_layouts(buffer.planes@)
        &&& self.queue_family == device.queue_family
        &&& self.memory@.len() == 0
        &&& self.stage is CreateImage
        &&& self.is_valid()
    }

    /// What holds of an import at every stage.
    pub open spec fn is_valid(self) -> bool {
        &&& self.fds@.len() > 0
        &&& self.stage is CreateImage ==> self.memory@.len() == 0
        &&& self.stage is CreateConversion ==> self.memory@.len() == 0 && self.ycbcr is Some
        &&& self.stage is Requirements || self.stage is FdProperties || self.stage is DuplicateFd
            || self.stage is Allocate ==> self.memory@.len() < self.fds@.len() && (!self.disjoint
            ==> self.memory@.len() == 0) && (self.disjoint ==> self.fds@.len() <= 4)
        &&& self.stage is Bind ==> self.memory@.len() == (if self.disjoint {
            self.fds@.len()
        } else {
            1
        })
        &&& self.stage is FindConversion ==> self.ycbcr is Some
    }

    /// What two stages of one import have in common.
    pub open spec fn same_plan(self, other: Import) -> bool {
        &&& self.fourcc == other.fourcc
        &&& self.modifier == other.modifier
        &&& self.width == other.width
        &&& self.height == other.height
        &&& self.format == other.format
        &&& self.usage == other.usage
        &&& self.purpose == other.purpose
        &&& self.ycbcr == other.ycbcr
        &&& self.disjoint == other.disjoint
        &&& self.fds == other.fds
        &&& self.layouts == other.layouts
        &&& self.queue_family == other.queue_family
    }

    /// The next request.
    pub fn call(&self) -> (call: Call)
        requires
            self.is_valid(),
        ensures
            self.asks(call),
    {
        match self.stage {
            ImportStage::CreateImage => Call::CreateImage(
                ImageInfo {
                    format: self.format,
                    width: self.width,
                    height: self.height,
                    usage: self.usage,
                    tiling: Tiling::Modifier(self.modifier),
                    planes: self.layouts.clone(),
                    disjoint: self.disjoint,
                },
            ),
            ImportStage::CreateConversion | ImportStage::FindConversion => Call::Conversion(
                self.ycbcr.unwrap(),
            ),
            ImportStage::Requirements => Call::ImageRequirements {
                image: self.image,
                plane: if self.disjoint {
                    Some(self.memory.len() as u32)
                } else {
                    None
                },
            },
            ImportStage::FdProperties { .. } => Call::FdMemoryTypes {
                fd: self.fds[self.memory.len()],
            },
            ImportStage::DuplicateFd { .. } => Call::DuplicateFd { fd: self.fds[self.memory.len()] },
            ImportStage::Allocate { size, memory_type, fd } => Call::ImportMemory {
                size,
                memory_type,
                image: self.image,
                fd,
            },
            ImportStage::Bind => if self.disjoint {
                Call::BindPlanes { image: self.image, memory: self.memory.clone() }
            } else {
                Call::BindImage { image: self.image, memory: self.memory[0] }
            },
            ImportStage::CreateView { conversion } => Call::CreateView {
                image: self.image,
                format: self.format,
                conversion,
            },
        }
    }

    /// Whether a request is the one this stage makes.
    pub open spec fn asks(self, call: Call) -> bool {
        match self.stage {
            ImportStage::CreateImage => call matches Call::CreateImage(info) && info.format
                == self.format && info.width == self.width && info.height == self.height
                && info.usage == self.usage && info.tiling == Tiling::Modifier(self.modifier)
                && info.planes@ == self.layouts@ && info.disjoint == self.disjoint,
            ImportStage::CreateConversion | ImportStage::FindConversion => call
                == Call::Conversion(self.ycbcr->0),
            ImportStage::Requirements => call == Call::ImageRequirements {
                image: self.image,
                plane: if self.disjoint {
                    Some(self.memory@.len() as u32)
                } else {
                    None
                },
            },
            ImportStage::FdProperties { .. } => call == Call::FdMemoryTypes {
                fd: self.fds@[self.memory@.len() as int],
            },
            ImportStage::DuplicateFd { .. } => call == Call::DuplicateFd {
                fd: self.fds@[self.memory@.len() as int],
            },
            ImportStage::Allocate { size, memory_type, fd } => call == Call::ImportMemory {
                size,
                memory_type,
                image: self.image,
                fd,
            },
            ImportStage::Bind => if self.disjoint {
                call matches Call::BindPlanes { image, memory } && image == self.image && memory@
                    == self.memory@
            } else {
                call == Call::BindImage { image: self.image, memory: self.memory@[0] }
            },
            ImportStage::CreateView { conversion } => call == Call::CreateView {
                image: self.image,
                format: self.format,
                conversion,
            },
        }
    }

    /// Whether a reply is one that this stage's request can get.
    pub open spec fn fits(self, reply: Reply) -> bool {
        match self.stage {
            ImportStage::CreateImage
            | ImportStage::Allocate { .. }
            | ImportStage::CreateView { .. } => reply is Handle || reply is Failed,
            ImportStage::CreateConversion | ImportStage::FindConversion => reply is Handle || reply
                is Refused,
            ImportStage::Requirements => reply is Requirements,
            ImportStage::FdProperties { .. } => reply is MemoryTypes || reply is Failed,
            ImportStage::DuplicateFd { .. } => reply is Fd || reply is Refused,
            ImportStage::Bind => reply is Done || reply is Failed,
        }
    }

    /// Whether there are more disjoint planes than Vulkan has names for.
    pub open spec fn has_too_many_planes(self) -> bool {
        self.disjoint && self.fds@.len() > 4
    }

    /// What is said of too many planes.
    pub open spec fn too_many_planes(self) -> Seq<char> {
        "a dmabuf with "@ + decimal(self.fds@.len() as int)
            + " planes is more than Vulkan describes"@
    }

    /// Why a reply ends the import, or `None` where it does not.
    pub open spec fn failure(self, device: Device, reply: Reply) -> Option<Seq<char>> {
        match (self.stage, reply) {
            (ImportStage::CreateImage, Reply::Failed(code)) => Some(
                call_failure("vkCreateImage"@, code),
            ),
            (ImportStage::CreateImage, _) => if self.ycbcr is None && self.has_too_many_planes() {
                Some(self.too_many_planes())
            } else {
                None
            },
            (ImportStage::CreateConversion, Reply::Refused(text)) => Some(text@),
            (ImportStage::CreateConversion, _) => if self.has_too_many_planes() {
                Some(self.too_many_planes())
            } else {
                None
            },
            (ImportStage::FdProperties { .. }, Reply::Failed(code)) => Some(
                call_failure("vkGetMemoryFdPropertiesKHR"@, code),
            ),
            (
                ImportStage::FdProperties { memory_types, .. },
                Reply::MemoryTypes(allowed),
            ) => if device.backs(memory_types, allowed, None) {
                Some("no memory type can back this dmabuf"@)
            } else {
                None
            },
            (ImportStage::DuplicateFd { .. }, Reply::Refused(cause)) => Some(
                caused("dup dmabuf fd"@, cause@),
            ),
            (ImportStage::Allocate { .. }, Reply::Failed(code)) => Some(
                call_failure("vkAllocateMemory"@, code),
            ),
            (ImportStage::Bind, Reply::Failed(code)) => Some(
                call_failure(
                    if self.disjoint {
                        "vkBindImageMemory2"@
                    } else {
                        "vkBindImageMemory"@
                    },
                    code,
                ),
            ),
            (ImportStage::FindConversion, Reply::Refused(text)) => Some(text@),
            (ImportStage::CreateView { .. }, Reply::Failed(code)) => Some(
                call_failure("vkCreateImageView"@, code),
            ),
            _ => None,
        }
    }

    /// The image after a reply.
    pub open spec fn image_after(self, reply: Reply) -> u64 {
        match (self.stage, reply) {
            (ImportStage::CreateImage, Reply::Handle(image)) => image,
            _ => self.image,
        }
    }

    /// The allocations after a reply.
    pub open spec fn memory_after(self, reply: Reply) -> Seq<u64> {
        match (self.stage, reply) {
            (ImportStage::Allocate { .. }, Reply::Handle(memory)) => self.memory@.push(memory),
            _ => self.memory@,
        }
    }

    /// Whether a stage is the one a reply leads to.
    pub open spec fn reaches(self, device: Device, reply: Reply, stage: ImportStage) -> bool {
        match (self.stage, reply) {
            (ImportStage::CreateImage, Reply::Handle(_)) => stage == (if self.ycbcr is Some {
                ImportStage::CreateConversion
            } else {
                ImportStage::Requirements
            }),
            (ImportStage::CreateConversion, Reply::Handle(_)) => stage is Requirements,
            (ImportStage::Requirements, Reply::Requirements { size, memory_types }) => stage
                == ImportStage::FdProperties { size, memory_types },
            (
                ImportStage::FdProperties { size, memory_types },
                Reply::MemoryTypes(allowed),
            ) => stage matches ImportStage::DuplicateFd { size: s, memory_type } && s == size
                && device.backs(memory_types, allowed, Some(memory_type)),
            (ImportStage::DuplicateFd { size, memory_type }, Reply::Fd(fd)) => stage
                == ImportStage::Allocate { size, memory_type, fd },
            (ImportStage::Allocate { .. }, Reply::Handle(_)) => stage == (if self.disjoint
                && self.memory@.len() + 1 < self.fds@.len() {
                ImportStage::Requirements
            } else {
                ImportStage::Bind
            }),
            (ImportStage::Bind, Reply::Done) => stage == (if self.ycbcr is Some {
                ImportStage::FindConversion
            } else {
                ImportStage::CreateView { conversion: None }
            }),
            (ImportStage::FindConversion, Reply::Handle(conversion)) => stage
                == ImportStage::CreateView { conversion: Some(conversion) },
            _ => false,
        }
    }

    /// What has been made so far and not been handed over, in the order it is
    /// released in.
    pub open spec fn held(self) -> Seq<Object> {
        (match self.stage {
            ImportStage::Allocate { fd, .. } => seq![Object::Fd(fd)],
            _ => Seq::empty(),
        }) + memories(self.memory@) + (if self.stage is CreateImage {
            Seq::empty()
        } else {
            seq![Object::Image(self.image)]
        })
    }

    /// What is released where a reply ends the import.
    pub open spec fn released(self, reply: Reply) -> Seq<Object> {
        match (self.stage, reply) {
            (ImportStage::CreateImage, Reply::Handle(image)) => seq![Object::Image(image)],
            _ => self.held(),
        }
    }

    /// Whether an image is the one this import was for, viewed through `view`.
    pub open spec fn finishes(self, view: u64, image: Image) -> bool {
        &&& image.image == self.image
        &&& image.memory@ == self.memory@
        &&& image.view == view
        &&& image.ycbcr == self.ycbcr
        &&& image.width == self.width
        &&& image.height == self.height
        &&& image.format == self.format
        &&& image.fourcc == self.fourcc
        &&& image.has_alpha == alpha(self.fourcc)
        &&& image.purpose == self.purpose
        &&& image.usage == self.usage
        &&& image.foreign
        &&& image.queue_family == self.queue_family
    }

    /// What a reply leads to.
    pub open spec fn leads_to(
        self,
        device: Device,
        reply: Reply,
        progress: Progress<Import, Image>,
    ) -> bool {
        match progress {
            Progress::Next(next) => {
                &&& self.failure(device, reply) is None
                &&& self.reaches(device, reply, next.stage)
                &&& next.same_plan(self)
                &&& next.image == self.image_after(reply)
                &&& next.memory@ == self.memory_after(reply)
                &&& next.is_valid()
            },
            Progress::Done(image) => {
                &&& self.failure(device, reply) is None
                &&& self.stage is CreateView
                &&& reply matches Reply::Handle(view)
                &&& self.finishes(view, image)
            },
            Progress::Failed { release, error } => {
                &&& error is Other
                &&& self.failure(device, reply) == Some(error.text())
                &&& release@ == self.released(reply)
            },
        }
    }

    /// What has been made so far and not been handed over.
    fn holdings(&self) -> (objects: Vec<Object>)
        ensures
            objects@ == self.held(),
    {
        let mut objects: Vec<Object> = Vec::new();
        match self.stage {
            ImportStage::Allocate { fd, .. } => {
                objects.push(Object::Fd(fd));
            },
            _ => {},
        }
        append_memories(&mut objects, &self.memory);
        match self.stage {
            ImportStage::CreateImage => {},
            _ => {
                objects.push(Object::Image(self.image));
            },
        }
        assert(objects@ =~= self.held());
        objects
    }

    /// End the import, giving back everything that was made on the way.
    fn fail(&self, error: Error) -> (progress: Progress<Import, Image>)
        ensures
            progress matches Progress::Failed { release, error: e } && release@ == self.held() && e
                == error,
    {
        Progress::Failed { release: self.holdings(), error }
    }

    /// What is said of too many planes, as an error.
    fn planes_error(&self) -> (error: Error)
        ensures
            error is Other,
            error.text() == self.too_many_planes(),
    {
        let mut text = String::new();
        text.append("a dmabuf with ");
        append_decimal(&mut text, self.fds.len() as u64);
        text.append(" planes is more than Vulkan describes");
        assert(text@ =~= self.too_many_planes());
        Error::Other(text)
    }

    /// Take the reply to this stage's request.
    pub fn reply(self, device: &Device, reply: Reply) -> (progress: Progress<Import, Image>)
        requires
            device.physical.is_valid(),
            self.is_valid(),
            self.fits(reply),
        ensures
            self.leads_to(*device, reply, progress),
    {
        let mut next = self;
        match (next.stage, reply) {
            (ImportStage::CreateImage, Reply::Handle(image)) => {
                next.image = image;
                next.stage = if next.ycbcr.is_some() {
                    ImportStage::CreateConversion
                } else {
                    ImportStage::Requirements
                };
                if next.ycbcr.is_none() && next.disjoint && next.fds.len() > 4 {
                    assert(next.held() =~= self.released(reply));
                    return next.fail(next.planes_error());
                }
                Progress::Next(next)
            },
            (ImportStage::CreateImage, Reply::Failed(code)) => next.fail(
                Error::call("vkCreateImage", code),
            ),
            (ImportStage::CreateConversion, Reply::Handle(_)) => {
                if next.disjoint && next.fds.len() > 4 {
                    return next.fail(next.planes_error());
                }
                next.stage = ImportStage::Requirements;
                Progress::Next(next)
            },
            (ImportStage::CreateConversion, Reply::Refused(text)) => next.fail(Error::Other(text)),
            (ImportStage::Requirements, Reply::Requirements { size, memory_types }) => {
                next.stage = ImportStage::FdProperties { size, memory_types };
                Progress::Next(next)
            },
            (ImportStage::FdProperties { size, memory_types }, Reply::MemoryTypes(allowed)) => {
                match device.memory_type(memory_types, allowed) {
                    Some(memory_type) => {
                        next.stage = ImportStage::DuplicateFd { size, memory_type };
                        Progress::Next(next)
                    },
                    None => next.fail(
                        Error::Other("no memory type can back this dmabuf".to_owned()),
                    ),
                }
            },
            (ImportStage::FdProperties { .. }, Reply::Failed(code)) => next.fail(
                Error::call("vkGetMemoryFdPropertiesKHR", code),
            ),
            // The driver consumes the descriptor on success, so it is handed a
            // copy.
            (ImportStage::DuplicateFd { size, memory_type }, Reply::Fd(fd)) => {
                next.stage = ImportStage::Allocate { size, memory_type, fd };
                Progress::Next(next)
            },
            (ImportStage::DuplicateFd { .. }, Reply::Refused(cause)) => next.fail(
                Error::because("dup dmabuf fd", cause.as_str()),
            ),
            (ImportStage::Allocate { .. }, Reply::Handle(memory)) => {
                next.memory.push(memory);
                next.stage = if next.disjoint && next.memory.len() < next.fds.len() {
                    ImportStage::Requirements
                } else {
                    ImportStage::Bind
                };
                Progress::Next(next)
            },
            (ImportStage::Allocate { .. }, Reply::Failed(code)) => next.fail(
                Error::call("vkAllocateMemory", code),
            ),
            (ImportStage::Bind, Reply::Done) => {
                next.stage = if next.ycbcr.is_some() {
                    ImportStage::FindConversion
                } else {
                    ImportStage::CreateView { conversion: None }
                };
                Progress::Next(next)
            },
            (ImportStage::Bind, Reply::Failed(code)) => {
                let name = if next.disjoint {
                    "vkBindImageMemory2"
                } else {
                    "vkBindImageMemory"
                };
                next.fail(Error::call(name, code))
            },
            (ImportStage::FindConversion, Reply::Handle(conversion)) => {
                next.stage = ImportStage::CreateView { conversion: Some(conversion) };
                Progress::Next(next)
            },
            (ImportStage::FindConversion, Reply::Refused(text)) => next.fail(Error::Other(text)),
            (ImportStage::CreateView { .. }, Reply::Handle(view)) => {
                let has_alpha = has_alpha(next.fourcc);
                Progress::Done(
                    Image {
                        image: next.image,
                        memory: next.memory,
                        view,
                        ycbcr: next.ycbcr,
                        width: next.width,
                        height: next.height,
                        format: next.format,
                        fourcc: next.fourcc,
                        has_alpha,
                        purpose: next.purpose,
                        usage: next.usage,
                        foreign: true,
                        queue_family: next.queue_family,
                    },
                )
            },
            (ImportStage::CreateView { .. }, Reply::Failed(code)) => next.fail(
                Error::call("vkCreateImageView", code),
            ),
            _ => {
                assert(false);
                next.fail(Error::Other(String::new()))
            },
        }
    }
}

/// What a reply says the request made.
pub open spec fn made(stage: ImportStage, reply: Reply) -> Multiset<Object> {
    match (stage, reply) {
        (ImportStage::CreateImage, Reply::Handle(image)) => Multiset::singleton(
            Object::Image(image),
        ),
        (ImportStage::DuplicateFd { .. }, Reply::Fd(fd)) => Multiset::singleton(Object::Fd(fd)),
        (ImportStage::Allocate { .. }, Reply::Handle(memory)) => Multiset::singleton(
            Object::Memory(memory),
        ),
        (ImportStage::CreateView { .. }, Reply::Handle(view)) => Multiset::singleton(
            Object::ImageView(view),
        ),
        _ => Multiset::empty(),
    }
}

/// What the driver took over with a reply: an imported descriptor.
pub open spec fn taken(stage: ImportStage, reply: Reply) -> Multiset<Object> {
    match (stage, reply) {
        (ImportStage::Allocate { fd, .. }, Reply::Handle(_)) => Multiset::singleton(
            Object::Fd(fd),
        ),
        _ => Multiset::empty(),
    }
}

/// An import loses nothing. Whatever it holds, and whatever a request made, is
/// held at the next stage, owned by the finished image, or released when the
/// import fails; the only thing that is not ours any more is a descriptor that
/// the driver took over. So a failed import leaves nothing behind, and a
/// finished one has released nothing.
pub proof fn an_import_loses_nothing(
    import: Import,
    device: Device,
    reply: Reply,
    progress: Progress<Import, Image>,
)
    requires
        import.is_valid(),
        import.fits(reply),
        import.leads_to(device, reply, progress),
    ensures
        ({
            let kept = import.held().to_multiset().add(made(import.stage, reply)).sub(
                taken(import.stage, reply),
            );
            match progress {
                Progress::Next(next) => next.held().to_multiset() == kept,
                Progress::Done(image) => image.owned().to_multiset() == kept,
                Progress::Failed { release, .. } => release@.to_multiset() == kept,
            }
        }),
{
    broadcast use vstd::seq_lib::group_to_multiset_ensures;

    let kept = import.held().to_multiset().add(made(import.stage, reply)).sub(
        taken(import.stage, reply),
    );
    match progress {
        Progress::Next(next) => {
            match (import.stage, reply) {
                (ImportStage::CreateImage, Reply::Handle(image)) => {
                    assert(import.held() =~= Seq::empty());
                    assert(next.held() =~= Seq::empty().push(Object::Image(image)));
                    assert(next.held().to_multiset() =~= kept);
                },
                (ImportStage::DuplicateFd { .. }, Reply::Fd(fd)) => {
                    assert(next.held() =~= seq![Object::Fd(fd)] + import.held());
                    lemma_joined(seq![Object::Fd(fd)], import.held());
                    assert(seq![Object::Fd(fd)] =~= Seq::empty().push(Object::Fd(fd)));
                    assert(next.held().to_multiset() =~= kept);
                },
                (ImportStage::Allocate { fd, .. }, Reply::Handle(memory)) => {
                    let before = memories(import.memory@);
                    let image = seq![Object::Image(import.image)];
                    assert(import.held() =~= seq![Object::Fd(fd)] + (before + image));
                    assert(next.held() =~= before + (seq![Object::Memory(memory)] + image));
                    lemma_joined(seq![Object::Fd(fd)], before + image);
                    lemma_joined(before, image);
                    lemma_joined(before, seq![Object::Memory(memory)] + image);
                    lemma_joined(seq![Object::Memory(memory)], image);
                    assert(seq![Object::Fd(fd)] =~= Seq::empty().push(Object::Fd(fd)));
                    assert(seq![Object::Memory(memory)] =~= Seq::empty().push(
                        Object::Memory(memory),
                    ));
                    assert(next.held().to_multiset() =~= kept);
                },
                _ => {
                    assert(next.held() =~= import.held());
                    assert(next.held().to_multiset() =~= kept);
                },
            }
        },
        Progress::Done(image) => {
            let view = seq![Object::ImageView(image.view)];
            let first = seq![Object::Image(image.image)];
            let rest = memories(image.memory@);
            assert(image.owned() =~= view + (first + rest));
            assert(import.held() =~= rest + first);
            lemma_joined(view, first + rest);
            lemma_joined(first, rest);
            lemma_joined(rest, first);
            assert(view =~= Seq::empty().push(Object::ImageView(image.view)));
            assert(image.owned().to_multiset() =~= kept);
        },
        Progress::Failed { release, .. } => {
            match (import.stage, reply) {
                (ImportStage::CreateImage, Reply::Handle(image)) => {
                    assert(import.held() =~= Seq::empty());
                    assert(release@ =~= Seq::empty().push(Object::Image(image)));
                    assert(release@.to_multiset() =~= kept);
                },
                _ => {
                    assert(release@.to_multiset() =~= kept);
                },
            }
        },
    }
}

/// Whether a device lists each modifier of a format once.
pub open spec fn lists_once(device: Device, code: Fourcc) -> bool {
    forall|i: int, j: int|
        0 <= i < j < supports(device.physical, code).len() ==> (#[trigger] supports(
            device.physical,
            code,
        )[i]).modifier != (#[trigger] supports(device.physical, code)[j]).modifier
}

/// Whether a buffer is put together the way its modifier describes.
pub open spec fn matches_modifier(buffer: Dmabuf, support: ModifierSupport) -> bool {
    &&& buffer.planes@.len() as u32 == support.planes
    &&& buffer.confusion() is None
    &&& buffer.allocations() <= 1 || support.disjoint
}

/// A modifier that is listed once is found where it is listed.
proof fn lemma_modifier_found(supported: Seq<ModifierSupport>, index: int)
    requires
        0 <= index < supported.len(),
        forall|i: int, j: int|
            0 <= i < j < supported.len() ==> (#[trigger] supported[i]).modifier != (
            #[trigger] supported[j]).modifier,
    ensures
        modifier_index(supported, supported[index].modifier) == index,
    decreases supported.len(),
{
    if index > 0 {
        assert(supported[0].modifier != supported[index].modifier);
        assert(supported.skip(1)[index - 1] == supported[index]);
        lemma_modifier_found(supported.skip(1), index - 1);
    }
}

/// A format and modifier the renderer would accept can be imported: a client
/// that was told it could use them, and made its buffer that way, is not
/// refused before the driver is asked.
pub proof fn an_accepted_buffer_is_imported(device: Device, buffer: Dmabuf, index: int)
    requires
        0 <= index < supports(device.physical, buffer.code).len(),
        supports(device.physical, buffer.code)[index].modifier == buffer.modifier,
        supports(device.physical, buffer.code)[index].accepts(buffer.code),
        lists_once(device, buffer.code),
        matches_modifier(buffer, supports(device.physical, buffer.code)[index]),
        yuv(buffer.code) ==> device.physical.ycbcr,
    ensures
        refusal(device, buffer, Purpose::Sample) is None,
{
    lemma_modifier_found(supports(device.physical, buffer.code), index);
}

/// A format and modifier that can be rendered into can be a render target,
/// unless it is YUV.
pub proof fn a_renderable_buffer_is_bound(device: Device, buffer: Dmabuf, index: int)
    requires
        0 <= index < supports(device.physical, buffer.code).len(),
        supports(device.physical, buffer.code)[index].modifier == buffer.modifier,
        supports(device.physical, buffer.code)[index].renders(),
        lists_once(device, buffer.code),
        matches_modifier(buffer, supports(device.physical, buffer.code)[index]),
        !yuv(buffer.code),
    ensures
        refusal(device, buffer, Purpose::Render) is None,
{
    lemma_modifier_found(supports(device.physical, buffer.code), index);
}

/// A modifier the device does not list is refused, whatever it is wanted for.
pub proof fn an_unlisted_modifier_is_refused(device: Device, buffer: Dmabuf, purpose: Purpose)
    requires
        forall|i: int|
            0 <= i < supports(device.physical, buffer.code).len() ==> (#[trigger] supports(
                device.physical,
                buffer.code,
            )[i]).modifier != buffer.modifier,
    ensures
        refusal(device, buffer, purpose) is Some,
{
    lemma_modifier_missing(supports(device.physical, buffer.code), buffer.modifier);
}

proof fn lemma_modifier_missing(supported: Seq<ModifierSupport>, modifier: u64)
    requires
        forall|i: int| 0 <= i < supported.len() ==> (#[trigger] supported[i]).modifier != modifier,
    ensures
        modifier_index(supported, modifier) == supported.len(),
    decreases supported.len(),
{
    if supported.len() > 0 {
        assert forall|i: int| 0 <= i < supported.skip(1).len() implies (#[trigger] supported.skip(
            1,
        )[i]).modifier != modifier by {
            assert(supported.skip(1)[i] == supported[i + 1]);
        }
        lemma_modifier_missing(supported.skip(1), modifier);
    }
}

/// A video frame is never a render target: YUV is refused whatever the modifier
/// offers.
pub proof fn a_video_frame_is_never_a_render_target(device: Device, buffer: Dmabuf)
    requires
        yuv(buffer.code),
    ensures
        refusal(device, buffer, Purpose::Render) is Some,
{
}

/// An imported image takes part in exactly the copies its modifier offers, and
/// a video frame in none.
pub proof fn readability_is_what_the_modifier_offers(
    device: Device,
    buffer: Dmabuf,
    purpose: Purpose,
    start: Import,
    end: Import,
    view: u64,
    image: Image,
)
    requires
        start.imports(device, buffer, purpose),
        end.same_plan(start),
        end.finishes(view, image),
    ensures
        ({
            let support = support_for(device, buffer.code, buffer.modifier)->0;
            &&& image.usage.transfer_src == (support.transfer_src && !yuv(buffer.code))
            &&& image.usage.transfer_dst == (support.transfer_dst && !yuv(buffer.code))
        }),
{
}

/// How many requests an import can still make.
pub open spec fn remaining(import: Import) -> int {
    let planes = (if import.disjoint { import.fds@.len() as int } else { 1 })
        - import.memory@.len();
    match import.stage {
        ImportStage::CreateImage => 4 * planes + 5,
        ImportStage::CreateConversion => 4 * planes + 4,
        ImportStage::Requirements => 4 * planes + 3,
        ImportStage::FdProperties { .. } => 4 * planes + 2,
        ImportStage::DuplicateFd { .. } => 4 * planes + 1,
        ImportStage::Allocate { .. } => 4 * planes,
        ImportStage::Bind => 3,
        ImportStage::FindConversion => 2,
        ImportStage::CreateView { .. } => 1,
    }
}

/// Every reply brings an import closer to its end.
pub proof fn an_import_ends(import: Import, device: Device, reply: Reply, next: Import)
    requires
        import.is_valid(),
        import.fits(reply),
        import.leads_to(device, reply, Progress::Next(next)),
    ensures
        0 < remaining(next) < remaining(import),
{
}

/// Joining two sequences adds up what they hold.
proof fn lemma_joined(a: Seq<Object>, b: Seq<Object>)
    ensures
        (a + b).to_multiset() == a.to_multiset().add(b.to_multiset()),
{
    vstd::seq_lib::lemma_multiset_commutative(a, b);
}

/// A video frame is decoded as it was encoded, as far as can be told: by the
/// matrix of its height, with its colour difference where the device says it can
/// reconstruct it, filtered only where the device can, and the right way round.
/// Vertically there is a choice only where there are half as many rows of colour
/// difference.
pub proof fn a_video_frame_is_decoded_as_it_was_encoded(
    code: Fourcc,
    format: VkFormat,
    height: u32,
    support: ModifierSupport,
)
    ensures
        ({
            let key = conversion_for(code, format, height, support);
            &&& key.format == format
            &&& key.model is Ycbcr601 <==> height <= 576
            &&& key.range is ItuNarrow
            &&& key.x_offset is CositedEven <==> support.cosited_chroma
            &&& key.y_offset is Midpoint <==> support.midpoint_chroma && (fourcc_video(
                code,
            ) matches Some(video) && video.half_height)
            &&& key.filter is Linear <==> support.linear_chroma
            &&& key.swapped_chroma == chroma_swapped(code)
        }),
{
}

/// Whether every plane of a buffer is in one file.
pub open spec fn in_one_file(buffer: Dmabuf) -> bool {
    forall|i: int, j: int|
        0 <= i < buffer.planes@.len() && 0 <= j < buffer.planes@.len() ==> (
        #[trigger] buffer.planes@[i]).identity == (#[trigger] buffer.planes@[j]).identity
}

/// A buffer has one allocation exactly where all its planes are in one file.
pub proof fn planes_in_one_file_are_one_allocation(buffer: Dmabuf)
    requires
        buffer.planes@.len() > 0,
        forall|i: int|
            0 <= i < buffer.planes@.len() ==> (#[trigger] buffer.planes@[i]).identity is Ok,
    ensures
        buffer.allocations() > 1 <==> !in_one_file(buffer),
{
    let ids = buffer.identities();
    let first = firsts(ids);
    lemma_firsts(ids);
    if in_one_file(buffer) {
        if first.len() > 1 {
            assert(ids.contains(first[0]) && ids.contains(first[1]));
            let a = choose|a: int| 0 <= a < ids.len() && ids[a] == first[0];
            let b = choose|b: int| 0 <= b < ids.len() && ids[b] == first[1];
            assert(buffer.planes@[a].identity == buffer.planes@[b].identity);
            assert(first[0] == first[1]);
        }
    } else {
        let (i, j) = choose|i: int, j: int|
            0 <= i < buffer.planes@.len() && 0 <= j < buffer.planes@.len() && (
            #[trigger] buffer.planes@[i]).identity != (#[trigger] buffer.planes@[j]).identity;
        assert(first.contains(ids[i]) && first.contains(ids[j]));
        let a = choose|a: int| 0 <= a < first.len() && first[a] == ids[i];
        let b = choose|b: int| 0 <= b < first.len() && first[b] == ids[j];
        assert(ids[i] != ids[j]);
        assert(a != b);
    }
}

/// An import is planned from what the buffer says of itself: its size, its
/// format and modifier, and for each plane the descriptor, the offset and the
/// stride it has there. The image can do what it is for, and its planes are bound
/// one by one exactly where they are in different files.
pub proof fn an_import_is_planned_from_its_buffer(
    device: Device,
    buffer: Dmabuf,
    purpose: Purpose,
    import: Import,
    i: int,
)
    requires
        buffer.size.is_valid(),
        import.imports(device, buffer, purpose),
        buffer.confusion() is None,
        0 <= i < buffer.planes@.len(),
    ensures
        import.width == buffer.size.w && import.height == buffer.size.h,
        import.fourcc == buffer.code && import.modifier == buffer.modifier,
        import.layouts@.len() == buffer.planes@.len(),
        import.fds@.len() == buffer.planes@.len(),
        import.layouts@[i].offset == buffer.planes@[i].offset,
        import.layouts@[i].row_pitch == buffer.planes@[i].stride,
        import.fds@[i] == buffer.planes@[i].fd,
        import.usage.sampled <==> purpose is Sample,
        import.usage.color_attachment <==> purpose is Render,
        import.ycbcr is Some <==> fourcc_video(buffer.code) is Some,
        import.disjoint <==> !in_one_file(buffer),
        import.queue_family == device.queue_family,
{
    crate::image::planes_are_told_apart_where_every_file_is_named(buffer);
    planes_in_one_file_are_one_allocation(buffer);
}

/// A buffer can be imported exactly where the device offers what it is wanted
/// for with its modifier, can assemble it where it is video, and the planes are
/// as many as the modifier has, each in a file that has a name, and bound one by
/// one only where the device can.
pub proof fn a_buffer_is_imported_exactly_where_it_can_be(
    device: Device,
    buffer: Dmabuf,
    purpose: Purpose,
    index: int,
)
    requires
        0 <= index < supports(device.physical, buffer.code).len(),
        supports(device.physical, buffer.code)[index].modifier == buffer.modifier,
        forall|i: int|
            0 <= i < index ==> (#[trigger] supports(device.physical, buffer.code)[i]).modifier
                != buffer.modifier,
    ensures
        ({
            let support = supports(device.physical, buffer.code)[index];
            let video = fourcc_video(buffer.code) is Some;
            refusal(device, buffer, purpose) is None <==> {
                &&& purpose is Sample ==> support.sampling && (video ==> support.cosited_chroma
                    || support.midpoint_chroma)
                &&& purpose is Render ==> support.rendering && !video
                &&& video ==> device.physical.ycbcr
                &&& buffer.planes@.len() as u32 == support.planes
                &&& buffer.planes@.len() > 0
                &&& forall|i: int|
                    0 <= i < buffer.planes@.len() ==> (#[trigger] buffer.planes@[i]).identity is Ok
                &&& in_one_file(buffer) || support.disjoint
            }
        }),
{
    lemma_first_modifier(supports(device.physical, buffer.code), buffer.modifier, index);
    crate::image::planes_are_told_apart_where_every_file_is_named(buffer);
    if buffer.confusion() is None {
        planes_in_one_file_are_one_allocation(buffer);
    }
}

proof fn lemma_first_modifier(supported: Seq<ModifierSupport>, modifier: u64, index: int)
    requires
        0 <= index < supported.len(),
        supported[index].modifier == modifier,
        forall|i: int| 0 <= i < index ==> (#[trigger] supported[i]).modifier != modifier,
    ensures
        modifier_index(supported, modifier) == index,
    decreases index,
{
    if index > 0 {
        assert(supported[0].modifier != modifier);
        let rest = supported.skip(1);
        assert forall|i: int| 0 <= i < index - 1 implies (#[trigger] rest[i]).modifier
            != modifier by {
            assert(rest[i] == supported[i + 1]);
        }
        assert(rest[index - 1] == supported[index]);
        lemma_first_modifier(rest, modifier, index - 1);
    }
}

/// An import asks for what it was planned for. The image is created with the
/// buffer's own layout; each allocation is made over the descriptor of the plane
/// it is for, or over the first where one allocation holds them all; what is
/// bound is what was allocated; and the view goes through the conversion of the
/// video frame, if it is one.
pub proof fn an_import_asks_for_what_it_was_planned_for(import: Import, call: Call)
    requires
        import.is_valid(),
        import.asks(call),
    ensures
        ({
            let plane = import.memory@.len() as int;
            match import.stage {
                ImportStage::CreateImage => {
                    &&& call matches Call::CreateImage(info)
                    &&& info.width == import.width && info.height == import.height
                    &&& info.format == import.format && info.usage == import.usage
                    &&& info.tiling == Tiling::Modifier(import.modifier)
                    &&& info.planes@ == import.layouts@ && info.disjoint == import.disjoint
                },
                ImportStage::CreateConversion | ImportStage::FindConversion => {
                    &&& call matches Call::Conversion(key)
                    &&& import.ycbcr == Some(key)
                },
                ImportStage::Requirements => {
                    &&& call matches Call::ImageRequirements { image, plane: asked }
                    &&& image == import.image
                    &&& asked is Some <==> import.disjoint
                    &&& asked matches Some(n) ==> n == plane
                },
                ImportStage::FdProperties { .. } => {
                    &&& call matches Call::FdMemoryTypes { fd }
                    &&& fd == import.fds@[plane]
                    &&& !import.disjoint ==> plane == 0
                },
                ImportStage::DuplicateFd { .. } => {
                    &&& call matches Call::DuplicateFd { fd }
                    &&& fd == import.fds@[plane]
                    &&& !import.disjoint ==> plane == 0
                },
                ImportStage::Allocate { size, memory_type, fd } => {
                    &&& call matches Call::ImportMemory {
                        size: s,
                        memory_type: m,
                        image,
                        fd: f,
                    }
                    &&& s == size && m == memory_type && f == fd && image == import.image
                },
                ImportStage::Bind => if import.disjoint {
                    &&& call matches Call::BindPlanes { image, memory }
                    &&& image == import.image && memory@ == import.memory@ && memory@.len()
                        == import.fds@.len()
                } else {
                    &&& call matches Call::BindImage { image, memory }
                    &&& image == import.image && import.memory@ == seq![memory]
                },
                ImportStage::CreateView { conversion } => {
                    &&& call matches Call::CreateView { image, format, conversion: c }
                    &&& image == import.image && format == import.format && c == conversion
                },
            }
        }),
{
}

/// An import goes on with what it was told. The memory of a plane is of the size
/// the image needs and of a type that both the image and the descriptor allow; it
/// is imported over a copy of the descriptor that was asked about; every plane of
/// a disjoint image gets memory of its own before any is bound; and a video frame
/// is viewed through the conversion that was named.
pub proof fn an_import_goes_on_with_what_it_was_told(
    import: Import,
    device: Device,
    reply: Reply,
    next: Import,
)
    requires
        device.physical.is_valid(),
        import.is_valid(),
        import.fits(reply),
        import.leads_to(device, reply, Progress::Next(next)),
    ensures
        next.width == import.width && next.height == import.height,
        next.fds == import.fds && next.layouts == import.layouts,
        next.format == import.format && next.usage == import.usage,
        next.ycbcr == import.ycbcr && next.disjoint == import.disjoint,
        import.stage is CreateImage ==> reply == Reply::Handle(next.image),
        !(import.stage is CreateImage) ==> next.image == import.image,
        import.stage is Requirements ==> {
            &&& next.stage matches ImportStage::FdProperties { size, memory_types }
            &&& reply == (Reply::Requirements { size, memory_types })
        },
        import.stage matches ImportStage::FdProperties { size, memory_types } ==> {
            &&& next.stage matches ImportStage::DuplicateFd { size: s, memory_type }
            &&& reply matches Reply::MemoryTypes(allowed)
            &&& s == size
            &&& memory_type < device.physical.memory_types@.len()
            &&& memory_types & (1u32 << memory_type) != 0
            &&& allowed & (1u32 << memory_type) != 0
        },
        import.stage matches ImportStage::DuplicateFd { size, memory_type } ==> {
            &&& next.stage matches ImportStage::Allocate { size: s, memory_type: m, fd }
            &&& s == size && m == memory_type && reply == Reply::Fd(fd)
        },
        import.stage is Allocate ==> {
            &&& reply matches Reply::Handle(memory)
            &&& next.memory@ == import.memory@.push(memory)
            &&& next.stage is Bind <==> !import.disjoint || next.memory@.len() == import.fds@.len()
        },
        !(import.stage is Allocate) ==> next.memory@ == import.memory@,
        next.stage is CreateConversion ==> import.stage is CreateImage && import.ycbcr is Some,
        import.stage is CreateImage && import.ycbcr is Some ==> next.stage is CreateConversion,
        next.stage matches ImportStage::CreateView { conversion } ==> {
            &&& conversion is Some <==> import.ycbcr is Some
            &&& conversion matches Some(handle) ==> reply == Reply::Handle(handle)
        },
{
    match (import.stage, reply) {
        (ImportStage::FdProperties { memory_types, .. }, Reply::MemoryTypes(allowed)) => {
            let i = next.stage->DuplicateFd_memory_type;
            assert(memory_types & (1u32 << i) != 0 && allowed & (1u32 << i) != 0) by (bit_vector)
                requires
                    (memory_types & allowed) & (1u32 << i) != 0,
            ;
        },
        _ => {},
    }
}

/// A finished image is the buffer it was imported from: of its size and format,
/// with the alpha its format has, over the memory that was imported for it, and
/// still in the hands of whoever made it.
pub proof fn an_imported_image_is_its_buffer(
    device: Device,
    buffer: Dmabuf,
    purpose: Purpose,
    start: Import,
    end: Import,
    view: u64,
    image: Image,
)
    requires
        buffer.size.is_valid(),
        start.imports(device, buffer, purpose),
        end.same_plan(start),
        end.finishes(view, image),
    ensures
        image.width == buffer.size.w && image.height == buffer.size.h,
        image.fourcc == buffer.code,
        Some(image.format) == vulkan_format(buffer.code),
        image.has_alpha == alpha(buffer.code),
        image.view == view && image.image == end.image && image.memory@ == end.memory@,
        image.purpose == purpose,
        image.usage.sampled <==> purpose is Sample,
        image.usage.color_attachment <==> purpose is Render,
        image.ycbcr is Some <==> fourcc_video(buffer.code) is Some,
        image.foreign,
        image.queue_family == device.queue_family,
{
}

} // verus!
