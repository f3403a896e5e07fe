//! DRM formats, Vulkan formats, and the modifiers that connect them.
//!
//! A DMA-BUF describes its contents with a DRM fourcc and a modifier; a Vulkan
//! image describes them with a format and a tiling. Importing one as the other
//! means agreeing on both, and the modifier is the part that matters: two
//! images with the same fourcc and different modifiers have entirely different
//! memory layouts.
use vstd::prelude::*;

use crate::device::PhysicalDevice;
use crate::text::{append_four_characters, four_characters};

verus! {

/// A DRM pixel format.
///
/// The formats this renderer tells apart have names of their own; every other
/// one is kept by its code.
#[derive(Debug, Clone, Copy, PartialEq, Eq, Structural)]
pub enum Fourcc {
    Argb8888,
    Xrgb8888,
    Abgr8888,
    Xbgr8888,
    Abgr2101010,
    Xbgr2101010,
    Argb2101010,
    Xrgb2101010,
    Abgr16161616f,
    Xbgr16161616f,
    Rgb565,
    R8,
    Gr88,
    Nv12,
    Nv21,
    Nv16,
    Yuv420,
    Yvu420,
    Yuv422,
    Yuv444,
    P010,
    P016,
    Other(u32),
}

impl Fourcc {
    /// The four characters of the format, lowest byte first.
    pub open spec fn number(self) -> u32 {
        match self {
            Fourcc::Argb8888 => 0x3432_5241,
            Fourcc::Xrgb8888 => 0x3432_5258,
            Fourcc::Abgr8888 => 0x3432_4241,
            Fourcc::Xbgr8888 => 0x3432_4258,
            Fourcc::Abgr2101010 => 0x3033_4241,
            Fourcc::Xbgr2101010 => 0x3033_4258,
            Fourcc::Argb2101010 => 0x3033_5241,
            Fourcc::Xrgb2101010 => 0x3033_5258,
            Fourcc::Abgr16161616f => 0x4834_4241,
            Fourcc::Xbgr16161616f => 0x4834_4258,
            Fourcc::Rgb565 => 0x3631_4752,
            Fourcc::R8 => 0x2020_3852,
            Fourcc::Gr88 => 0x3838_5247,
            Fourcc::Nv12 => 0x3231_564e,
            Fourcc::Nv21 => 0x3132_564e,
            Fourcc::Nv16 => 0x3631_564e,
            Fourcc::Yuv420 => 0x3231_5559,
            Fourcc::Yvu420 => 0x3231_5659,
            Fourcc::Yuv422 => 0x3631_5559,
            Fourcc::Yuv444 => 0x3432_5559,
            Fourcc::P010 => 0x3031_3050,
            Fourcc::P016 => 0x3631_3050,
            Fourcc::Other(code) => code,
        }
    }

    /// A format with a name of its own is never kept by its code.
    pub open spec fn is_canonical(self) -> bool {
        self matches Fourcc::Other(code) ==> forall|named: Fourcc|
            named is Other || #[trigger] named.number() != code
    }

    /// The format as it reads in a message.
    pub open spec fn text(self) -> Seq<char> {
        "DrmFourcc("@ + four_characters(self.number()) + ")"@
    }

    /// The code of the format.
    pub fn code(self) -> (code: u32)
        ensures
            code == self.number(),
    {
        match self {
            Fourcc::Argb8888 => 0x3432_5241,
            Fourcc::Xrgb8888 => 0x3432_5258,
            Fourcc::Abgr8888 => 0x3432_4241,
            Fourcc::Xbgr8888 => 0x3432_4258,
            Fourcc::Abgr2101010 => 0x3033_4241,
            Fourcc::Xbgr2101010 => 0x3033_4258,
            Fourcc::Argb2101010 => 0x3033_5241,
            Fourcc::Xrgb2101010 => 0x3033_5258,
            Fourcc::Abgr16161616f => 0x4834_4241,
            Fourcc::Xbgr16161616f => 0x4834_4258,
            Fourcc::Rgb565 => 0x3631_4752,
            Fourcc::R8 => 0x2020_3852,
            Fourcc::Gr88 => 0x3838_5247,
            Fourcc::Nv12 => 0x3231_564e,
            Fourcc::Nv21 => 0x3132_564e,
            Fourcc::Nv16 => 0x3631_564e,
            Fourcc::Yuv420 => 0x3231_5559,
            Fourcc::Yvu420 => 0x3231_5659,
            Fourcc::Yuv422 => 0x3631_5559,
            Fourcc::Yuv444 => 0x3432_5559,
            Fourcc::P010 => 0x3031_3050,
            Fourcc::P016 => 0x3631_3050,
            Fourcc::Other(code) => code,
        }
    }

    /// The format with this code.
    pub fn from_code(code: u32) -> (fourcc: Fourcc)
        ensures
            fourcc.number() == code,
            fourcc.is_canonical(),
    {
        match code {
            0x3432_5241 => Fourcc::Argb8888,
            0x3432_5258 => Fourcc::Xrgb8888,
            0x3432_4241 => Fourcc::Abgr8888,
            0x3432_4258 => Fourcc::Xbgr8888,
            0x3033_4241 => Fourcc::Abgr2101010,
            0x3033_4258 => Fourcc::Xbgr2101010,
            0x3033_5241 => Fourcc::Argb2101010,
            0x3033_5258 => Fourcc::Xrgb2101010,
            0x4834_4241 => Fourcc::Abgr16161616f,
            0x4834_4258 => Fourcc::Xbgr16161616f,
            0x3631_4752 => Fourcc::Rgb565,
            0x2020_3852 => Fourcc::R8,
            0x3838_5247 => Fourcc::Gr88,
            0x3231_564e => Fourcc::Nv12,
            0x3132_564e => Fourcc::Nv21,
            0x3631_564e => Fourcc::Nv16,
            0x3231_5559 => Fourcc::Yuv420,
            0x3231_5659 => Fourcc::Yvu420,
            0x3631_5559 => Fourcc::Yuv422,
            0x3432_5559 => Fourcc::Yuv444,
            0x3031_3050 => Fourcc::P010,
            0x3631_3050 => Fourcc::P016,
            _ => Fourcc::Other(code),
        }
    }

    /// Add the format, as it reads in a message, at the end of `text`.
    pub fn append_to(self, text: &mut String)
        ensures
            final(text)@ == old(text)@ + self.text(),
    {
        text.append("DrmFourcc(");
        append_four_characters(text, self.code());
        text.append(")");
    }
}

/// Every code names one format, and every format in its canonical form has a
/// code of its own.
pub proof fn fourcc_codes_are_distinct(a: Fourcc, b: Fourcc)
    requires
        a.is_canonical(),
        b.is_canonical(),
        a.number() == b.number(),
    ensures
        a == b,
{
}

/// The Vulkan formats this renderer uses.
#[derive(Debug, Clone, Copy, PartialEq, Eq, Structural)]
pub enum VkFormat {
    B8G8R8A8Unorm,
    R8G8B8A8Unorm,
    A2B10G10R10UnormPack32,
    A2R10G10B10UnormPack32,
    R16G16B16A16Sfloat,
    R5G6B5UnormPack16,
    R8Unorm,
    R8G8Unorm,
    G8B8R82Plane420Unorm,
    G8B8R82Plane422Unorm,
    G8B8R83Plane420Unorm,
    G8B8R83Plane422Unorm,
    G8B8R83Plane444Unorm,
    G10X6B10X6R10X62Plane420Unorm3Pack16,
    G16B16R162Plane420Unorm,
}

impl VkFormat {
    /// The format as it reads in a message.
    pub open spec fn text(self) -> Seq<char> {
        match self {
            VkFormat::B8G8R8A8Unorm => "B8G8R8A8_UNORM"@,
            VkFormat::R8G8B8A8Unorm => "R8G8B8A8_UNORM"@,
            VkFormat::A2B10G10R10UnormPack32 => "A2B10G10R10_UNORM_PACK32"@,
            VkFormat::A2R10G10B10UnormPack32 => "A2R10G10B10_UNORM_PACK32"@,
            VkFormat::R16G16B16A16Sfloat => "R16G16B16A16_SFLOAT"@,
            VkFormat::R5G6B5UnormPack16 => "R5G6B5_UNORM_PACK16"@,
            VkFormat::R8Unorm => "R8_UNORM"@,
            VkFormat::R8G8Unorm => "R8G8_UNORM"@,
            VkFormat::G8B8R82Plane420Unorm => "G8_B8R8_2PLANE_420_UNORM"@,
            VkFormat::G8B8R82Plane422Unorm => "G8_B8R8_2PLANE_422_UNORM"@,
            VkFormat::G8B8R83Plane420Unorm => "G8_B8_R8_3PLANE_420_UNORM"@,
            VkFormat::G8B8R83Plane422Unorm => "G8_B8_R8_3PLANE_422_UNORM"@,
            VkFormat::G8B8R83Plane444Unorm => "G8_B8_R8_3PLANE_444_UNORM"@,
            VkFormat::G10X6B10X6R10X62Plane420Unorm3Pack16 =>
                "G10X6_B10X6R10X6_2PLANE_420_UNORM_3PACK16"@,
            VkFormat::G16B16R162Plane420Unorm => "G16_B16R16_2PLANE_420_UNORM"@,
        }
    }

    /// The format as it reads in a message.
    pub fn name(self) -> (name: &'static str)
        ensures
            name@ == self.text(),
    {
        match self {
            VkFormat::B8G8R8A8Unorm => "B8G8R8A8_UNORM",
            VkFormat::R8G8B8A8Unorm => "R8G8B8A8_UNORM",
            VkFormat::A2B10G10R10UnormPack32 => "A2B10G10R10_UNORM_PACK32",
            VkFormat::A2R10G10B10UnormPack32 => "A2R10G10B10_UNORM_PACK32",
            VkFormat::R16G16B16A16Sfloat => "R16G16B16A16_SFLOAT",
            VkFormat::R5G6B5UnormPack16 => "R5G6B5_UNORM_PACK16",
            VkFormat::R8Unorm => "R8_UNORM",
            VkFormat::R8G8Unorm => "R8G8_UNORM",
            VkFormat::G8B8R82Plane420Unorm => "G8_B8R8_2PLANE_420_UNORM",
            VkFormat::G8B8R82Plane422Unorm => "G8_B8R8_2PLANE_422_UNORM",
            VkFormat::G8B8R83Plane420Unorm => "G8_B8_R8_3PLANE_420_UNORM",
            VkFormat::G8B8R83Plane422Unorm => "G8_B8_R8_3PLANE_422_UNORM",
            VkFormat::G8B8R83Plane444Unorm => "G8_B8_R8_3PLANE_444_UNORM",
            VkFormat::G10X6B10X6R10X62Plane420Unorm3Pack16 =>
                "G10X6_B10X6R10X6_2PLANE_420_UNORM_3PACK16",
            VkFormat::G16B16R162Plane420Unorm => "G16_B16R16_2PLANE_420_UNORM",
        }
    }
}

/// The Vulkan format matching a DRM fourcc.
///
/// DRM fourccs name channels from the least significant byte up, so `ARGB8888`
/// is B, G, R, A in memory.
pub open spec fn vulkan_format(fourcc: Fourcc) -> Option<VkFormat> {
    match fourcc {
        Fourcc::Argb8888 | Fourcc::Xrgb8888 => Some(VkFormat::B8G8R8A8Unorm),
        Fourcc::Abgr8888 | Fourcc::Xbgr8888 => Some(VkFormat::R8G8B8A8Unorm),
        Fourcc::Abgr2101010 | Fourcc::Xbgr2101010 => Some(VkFormat::A2B10G10R10UnormPack32),
        Fourcc::Argb2101010 | Fourcc::Xrgb2101010 => Some(VkFormat::A2R10G10B10UnormPack32),
        Fourcc::Abgr16161616f | Fourcc::Xbgr16161616f => Some(VkFormat::R16G16B16A16Sfloat),
        Fourcc::Rgb565 => Some(VkFormat::R5G6B5UnormPack16),
        Fourcc::R8 => Some(VkFormat::R8Unorm),
        Fourcc::Gr88 => Some(VkFormat::R8G8Unorm),
        Fourcc::Nv12 | Fourcc::Nv21 => Some(VkFormat::G8B8R82Plane420Unorm),
        Fourcc::Nv16 => Some(VkFormat::G8B8R82Plane422Unorm),
        Fourcc::Yuv420 | Fourcc::Yvu420 => Some(VkFormat::G8B8R83Plane420Unorm),
        Fourcc::Yuv422 => Some(VkFormat::G8B8R83Plane422Unorm),
        Fourcc::Yuv444 => Some(VkFormat::G8B8R83Plane444Unorm),
        Fourcc::P010 => Some(VkFormat::G10X6B10X6R10X62Plane420Unorm3Pack16),
        Fourcc::P016 => Some(VkFormat::G16B16R162Plane420Unorm),
        Fourcc::Other(_) => None,
    }
}

/// Whether a format is colour-difference encoded.
pub open spec fn yuv(fourcc: Fourcc) -> bool {
    fourcc is Nv12 || fourcc is Nv21 || fourcc is Nv16 || fourcc is Yuv420 || fourcc is Yvu420
        || fourcc is Yuv422 || fourcc is Yuv444 || fourcc is P010 || fourcc is P016
}

/// Whether a format holds Cr where its sibling holds Cb.
pub open spec fn chroma_swapped(fourcc: Fourcc) -> bool {
    fourcc is Nv21 || fourcc is Yvu420
}

/// Whether a format has an alpha channel.
pub open spec fn alpha(fourcc: Fourcc) -> bool {
    fourcc is Argb8888 || fourcc is Abgr8888 || fourcc is Abgr2101010 || fourcc is Argb2101010
        || fourcc is Abgr16161616f
}

/// The Vulkan format matching a DRM fourcc.
///
/// Getting the channel order backwards swaps red and blue, which is the classic
/// symptom.
pub fn to_vulkan(fourcc: Fourcc) -> (format: Option<VkFormat>)
    ensures
        format == vulkan_format(fourcc),
{
    match fourcc {
        Fourcc::Argb8888 | Fourcc::Xrgb8888 => Some(VkFormat::B8G8R8A8Unorm),
        Fourcc::Abgr8888 | Fourcc::Xbgr8888 => Some(VkFormat::R8G8B8A8Unorm),
        // Ten bits per channel, which is where HDR starts.
        Fourcc::Abgr2101010 | Fourcc::Xbgr2101010 => Some(VkFormat::A2B10G10R10UnormPack32),
        Fourcc::Argb2101010 | Fourcc::Xrgb2101010 => Some(VkFormat::A2R10G10B10UnormPack32),
        // Half float, for scRGB and anything with values outside 0..1.
        Fourcc::Abgr16161616f | Fourcc::Xbgr16161616f => Some(VkFormat::R16G16B16A16Sfloat),
        Fourcc::Rgb565 => Some(VkFormat::R5G6B5UnormPack16),
        Fourcc::R8 => Some(VkFormat::R8Unorm),
        Fourcc::Gr88 => Some(VkFormat::R8G8Unorm),
        // Multi-planar YUV, which is what a hardware video decoder produces.
        // The two formats of a pair differ only in the order of the chroma
        // channels, which `chroma_swizzle` puts right.
        Fourcc::Nv12 | Fourcc::Nv21 => Some(VkFormat::G8B8R82Plane420Unorm),
        Fourcc::Nv16 => Some(VkFormat::G8B8R82Plane422Unorm),
        Fourcc::Yuv420 | Fourcc::Yvu420 => Some(VkFormat::G8B8R83Plane420Unorm),
        Fourcc::Yuv422 => Some(VkFormat::G8B8R83Plane422Unorm),
        Fourcc::Yuv444 => Some(VkFormat::G8B8R83Plane444Unorm),
        // P010 carries its ten bits in the top of a sixteen-bit word; the `X6`
        // is the six unused low bits.
        Fourcc::P010 => Some(VkFormat::G10X6B10X6R10X62Plane420Unorm3Pack16),
        Fourcc::P016 => Some(VkFormat::G16B16R162Plane420Unorm),
        Fourcc::Other(_) => None,
    }
}

/// Whether sampling this format needs a YCbCr conversion.
///
/// Not a property of the plane count: a compressed RGB modifier has auxiliary
/// planes and is still sampled as ordinary colour. What decides it is the
/// format being colour-difference encoded.
pub fn is_yuv(fourcc: Fourcc) -> (is: bool)
    ensures
        is == yuv(fourcc),
{
    matches!(
        fourcc,
        Fourcc::Nv12
            | Fourcc::Nv21
            | Fourcc::Nv16
            | Fourcc::Yuv420
            | Fourcc::Yvu420
            | Fourcc::Yuv422
            | Fourcc::Yuv444
            | Fourcc::P010
            | Fourcc::P016
    )
}

/// Where one component of a sample is taken from.
#[derive(Debug, Clone, Copy, PartialEq, Eq, Structural)]
pub enum ComponentSwizzle {
    Identity,
    R,
    B,
}

/// Where each component of a sample is taken from.
#[derive(Debug, Clone, Copy, PartialEq, Eq, Structural)]
pub struct ComponentMapping {
    pub r: ComponentSwizzle,
    pub g: ComponentSwizzle,
    pub b: ComponentSwizzle,
    pub a: ComponentSwizzle,
}

/// The component swizzle a YUV format needs on top of its Vulkan format.
///
/// Vulkan assigns the chroma planes to fixed components, B for Cb and R for Cr,
/// so the only way to describe the swap is to exchange those two components in
/// the conversion. Getting it wrong is not subtle: faces come out blue.
pub fn chroma_swizzle(fourcc: Fourcc) -> (mapping: ComponentMapping)
    ensures
        mapping.g is Identity && mapping.a is Identity,
        chroma_swapped(fourcc) ==> mapping.r is B && mapping.b is R,
        !chroma_swapped(fourcc) ==> mapping.r is Identity && mapping.b is Identity,
{
    match fourcc {
        Fourcc::Nv21 | Fourcc::Yvu420 => ComponentMapping {
            r: ComponentSwizzle::B,
            g: ComponentSwizzle::Identity,
            b: ComponentSwizzle::R,
            a: ComponentSwizzle::Identity,
        },
        _ => ComponentMapping {
            r: ComponentSwizzle::Identity,
            g: ComponentSwizzle::Identity,
            b: ComponentSwizzle::Identity,
            a: ComponentSwizzle::Identity,
        },
    }
}

/// Whether a fourcc has an alpha channel.
///
/// `Xrgb8888` and `Argb8888` are the same Vulkan format, so this is the only
/// thing that distinguishes them, and it decides whether a surface is
/// composited with blending or drawn opaque.
pub fn has_alpha(fourcc: Fourcc) -> (has: bool)
    ensures
        has == alpha(fourcc),
{
    matches!(
        fourcc,
        Fourcc::Argb8888
            | Fourcc::Abgr8888
            | Fourcc::Abgr2101010
            | Fourcc::Argb2101010
            | Fourcc::Abgr16161616f
    )
}

/// Nothing colour-difference encoded carries alpha, and all of it has a Vulkan
/// format, so every video frame composites opaque.
pub proof fn yuv_has_no_alpha_and_maps(fourcc: Fourcc)
    requires
        yuv(fourcc),
    ensures
        !alpha(fourcc),
        vulkan_format(fourcc) is Some,
{
}

/// Two formats with one Vulkan format differ in alpha, in the order of their
/// chroma, or not at all.
pub proof fn a_shared_vulkan_format_leaves_one_difference(a: Fourcc, b: Fourcc)
    requires
        vulkan_format(a) is Some,
        vulkan_format(a) == vulkan_format(b),
        alpha(a) == alpha(b),
        chroma_swapped(a) == chroma_swapped(b),
    ensures
        a == b,
{
}

/// A format feature a modifier may offer.
#[derive(Debug, Clone, Copy, PartialEq, Eq, Structural)]
pub enum Feature {
    SampledImage,
    ColorAttachment,
    TransferSrc,
    TransferDst,
    CositedChromaSamples,
    MidpointChromaSamples,
    YcbcrLinearFilter,
    Disjoint,
}

impl Feature {
    /// The bit Vulkan gives the feature.
    pub open spec fn bit(self) -> u32 {
        match self {
            Feature::SampledImage => 0x1,
            Feature::ColorAttachment => 0x80,
            Feature::TransferSrc => 0x4000,
            Feature::TransferDst => 0x8000,
            Feature::MidpointChromaSamples => 0x2_0000,
            Feature::YcbcrLinearFilter => 0x4_0000,
            Feature::Disjoint => 0x40_0000,
            Feature::CositedChromaSamples => 0x80_0000,
        }
    }
}

/// Whether a set of feature bits holds a feature.
pub open spec fn offers(features: u32, feature: Feature) -> bool {
    features & feature.bit() == feature.bit()
}

/// Whether a set of feature bits holds a feature.
///
/// Calls `ash::vk::FormatFeatureFlags::contains`, which says whether every bit
/// of its argument is set; the bits themselves are the constants of that type.
#[verifier::external_body]
fn has_feature(features: u32, feature: Feature) -> (has: bool)
    ensures
        has == offers(features, feature),
{
    let wanted = match feature {
        Feature::SampledImage => ash::vk::FormatFeatureFlags::SAMPLED_IMAGE,
        Feature::ColorAttachment => ash::vk::FormatFeatureFlags::COLOR_ATTACHMENT,
        Feature::TransferSrc => ash::vk::FormatFeatureFlags::TRANSFER_SRC,
        Feature::TransferDst => ash::vk::FormatFeatureFlags::TRANSFER_DST,
        Feature::CositedChromaSamples => ash::vk::FormatFeatureFlags::COSITED_CHROMA_SAMPLES,
        Feature::MidpointChromaSamples => ash::vk::FormatFeatureFlags::MIDPOINT_CHROMA_SAMPLES,
        Feature::YcbcrLinearFilter => ash::vk::FormatFeatureFlags::SAMPLED_IMAGE_YCBCR_CONVERSION_LINEAR_FILTER,
        Feature::Disjoint => ash::vk::FormatFeatureFlags::DISJOINT,
    };
    ash::vk::FormatFeatureFlags::from_raw(features).contains(wanted)
}

/// What the driver reports about one modifier of a format.
#[derive(Debug, Clone, Copy, PartialEq, Eq, Structural)]
pub struct ModifierProperties {
    pub modifier: u64,
    pub planes: u32,
    /// The tiling features, as the driver's bits.
    pub features: u32,
}

/// What a format can be used for on this device.
#[derive(Debug, Clone, Copy, PartialEq, Eq, Structural)]
pub struct ModifierSupport {
    pub modifier: u64,
    /// Planes in the layout. A multi-planar modifier needs one fd per plane.
    pub planes: u32,
    /// Can be sampled from: an imported client buffer needs this.
    pub sampling: bool,
    /// Can be rendered into: an output buffer needs this.
    pub rendering: bool,
    /// Can be the source of a copy, which is what read-back needs.
    pub transfer_src: bool,
    /// Can be the destination of a copy, which is what a blit needs.
    pub transfer_dst: bool,
    /// Chroma siting the device can reconstruct. A YUV modifier that offers
    /// neither cannot be sampled through a conversion at all, whatever
    /// `sampling` says.
    pub cosited_chroma: bool,
    pub midpoint_chroma: bool,
    /// Chroma can be filtered linearly. Where it cannot, the luma filter has to
    /// drop to nearest with it.
    pub linear_chroma: bool,
    /// The planes may live in separate allocations.
    pub disjoint: bool,
}

impl ModifierSupport {
    /// What the driver's bits say about one modifier.
    pub open spec fn of(properties: ModifierProperties) -> ModifierSupport {
        ModifierSupport {
            modifier: properties.modifier,
            planes: properties.planes,
            sampling: offers(properties.features, Feature::SampledImage),
            rendering: offers(properties.features, Feature::ColorAttachment),
            transfer_src: offers(properties.features, Feature::TransferSrc),
            transfer_dst: offers(properties.features, Feature::TransferDst),
            cosited_chroma: offers(properties.features, Feature::CositedChromaSamples),
            midpoint_chroma: offers(properties.features, Feature::MidpointChromaSamples),
            linear_chroma: offers(properties.features, Feature::YcbcrLinearFilter),
            disjoint: offers(properties.features, Feature::Disjoint),
        }
    }

    /// Whether a YUV buffer with this modifier can be sampled as colour.
    pub open spec fn assembles(self) -> bool {
        self.sampling && (self.cosited_chroma || self.midpoint_chroma)
    }

    /// Whether a buffer of this format and modifier can be imported to be
    /// sampled.
    pub open spec fn accepts(self, fourcc: Fourcc) -> bool {
        if yuv(fourcc) {
            self.assembles()
        } else {
            self.sampling && self.planes == 1
        }
    }

    /// Whether a buffer with this modifier can be an output.
    pub open spec fn renders(self) -> bool {
        self.rendering && self.planes == 1
    }

    /// Whether a YUV buffer with this modifier can actually be sampled.
    pub fn ycbcr_sampling(&self) -> (sampling: bool)
        ensures
            sampling == self.assembles(),
    {
        self.sampling && (self.cosited_chroma || self.midpoint_chroma)
    }

    /// Whether a buffer of this format and modifier can be imported to be
    /// sampled.
    ///
    /// Colour formats are held to a single plane: a multi-planar RGB modifier
    /// is a compression scheme with an auxiliary plane, and the import does not
    /// understand the pairing. YUV is the opposite case: multiple planes are
    /// the format, and the extra requirement there is that the device can
    /// assemble them.
    pub fn is_importable(&self, fourcc: Fourcc) -> (importable: bool)
        ensures
            importable == self.accepts(fourcc),
    {
        if is_yuv(fourcc) {
            self.ycbcr_sampling()
        } else {
            self.sampling && self.planes == 1
        }
    }

    /// Whether a buffer with this modifier can be an output.
    pub fn is_renderable(&self) -> (renderable: bool)
        ensures
            renderable == self.renders(),
    {
        self.rendering && self.planes == 1
    }
}

/// A fourcc and the modifier that says how it is laid out.
#[derive(Debug, Clone, Copy, PartialEq, Eq, Structural)]
pub struct Format {
    pub code: Fourcc,
    pub modifier: u64,
}

/// The formats worth advertising to clients, in preference order.
pub open spec fn common() -> Seq<Fourcc> {
    seq![
        Fourcc::Argb8888,
        Fourcc::Xrgb8888,
        Fourcc::Abgr8888,
        Fourcc::Xbgr8888,
        Fourcc::Abgr2101010,
        Fourcc::Xbgr2101010,
        Fourcc::Abgr16161616f,
        Fourcc::Nv12,
        Fourcc::Nv21,
        Fourcc::Nv16,
        Fourcc::P010,
        Fourcc::P016,
        Fourcc::Yuv420,
        Fourcc::Yvu420,
        Fourcc::Yuv422,
        Fourcc::Yuv444,
    ]
}

/// The formats worth advertising to clients, in preference order.
///
/// The YUV entries are what a hardware video decoder hands out. Without them a
/// player has to convert every frame on the CPU before it can hand the
/// compositor something importable.
pub fn common_formats() -> (formats: Vec<Fourcc>)
    ensures
        formats@ == common(),
{
    let formats = vec![
        Fourcc::Argb8888,
        Fourcc::Xrgb8888,
        Fourcc::Abgr8888,
        Fourcc::Xbgr8888,
        Fourcc::Abgr2101010,
        Fourcc::Xbgr2101010,
        Fourcc::Abgr16161616f,
        Fourcc::Nv12,
        Fourcc::Nv21,
        Fourcc::Nv16,
        Fourcc::P010,
        Fourcc::P016,
        Fourcc::Yuv420,
        Fourcc::Yvu420,
        Fourcc::Yuv422,
        Fourcc::Yuv444,
    ];
    assert(formats@ =~= common());
    formats
}

/// What the device offers for a fourcc, one entry for each modifier.
pub open spec fn supports(physical: PhysicalDevice, fourcc: Fourcc) -> Seq<ModifierSupport> {
    match vulkan_format(fourcc) {
        Some(format) => physical.properties(format).map_values(
            |p: ModifierProperties| ModifierSupport::of(p),
        ),
        None => Seq::empty(),
    }
}

/// Every modifier this device supports for `fourcc`.
///
/// Empty for a format the device does not know, or for which it reports no
/// modifiers at all: in both cases there is nothing importable.
pub fn modifiers(physical: &PhysicalDevice, fourcc: Fourcc) -> (supported: Vec<ModifierSupport>)
    ensures
        supported@ == supports(*physical, fourcc),
{
    let mut supported: Vec<ModifierSupport> = Vec::new();
    let format = match to_vulkan(fourcc) {
        Some(format) => format,
        None => {
            return supported;
        },
    };
    let index = match physical.find_format(format) {
        Some(index) => index,
        None => {
            assert(supports(*physical, fourcc) =~= Seq::empty());
            return supported;
        },
    };
    let properties = &physical.formats[index].properties;
    for i in 0..properties.len()
        invariant
            supported@.len() == i,
            forall|j: int| 0 <= j < i ==> supported@[j] == ModifierSupport::of(properties@[j]),
    {
        let p = properties[i];
        supported.push(
            ModifierSupport {
                modifier: p.modifier,
                planes: p.planes,
                sampling: has_feature(p.features, Feature::SampledImage),
                rendering: has_feature(p.features, Feature::ColorAttachment),
                // Asked about rather than taken for granted: requesting a usage
                // the modifier does not support makes the driver refuse a
                // buffer that would otherwise have imported fine.
                transfer_src: has_feature(p.features, Feature::TransferSrc),
                transfer_dst: has_feature(p.features, Feature::TransferDst),
                cosited_chroma: has_feature(p.features, Feature::CositedChromaSamples),
                midpoint_chroma: has_feature(p.features, Feature::MidpointChromaSamples),
                linear_chroma: has_feature(p.features, Feature::YcbcrLinearFilter),
                disjoint: has_feature(p.features, Feature::Disjoint),
            },
        );
    }
    assert(supported@ =~= supports(*physical, fourcc));
    supported
}

/// The modifiers of one fourcc that pass a test, as formats, in the order the
/// device lists them.
pub open spec fn passing(
    supported: Seq<ModifierSupport>,
    code: Fourcc,
    test: spec_fn(ModifierSupport) -> bool,
) -> Seq<Format> {
    supported.filter(test).map_values(|s: ModifierSupport| Format { code, modifier: s.modifier })
}

/// The formats that can be imported, of a list of fourccs, in its order.
pub open spec fn importable_formats(physical: PhysicalDevice, formats: Seq<Fourcc>) -> Seq<Format>
    decreases formats.len(),
{
    if formats.len() == 0 {
        Seq::empty()
    } else {
        let code = formats.last();
        importable_formats(physical, formats.drop_last()) + passing(
            supports(physical, code),
            code,
            |s: ModifierSupport| s.accepts(code),
        )
    }
}

/// The formats that can be rendered into, of a list of fourccs, in its order.
pub open spec fn renderable_formats(physical: PhysicalDevice, formats: Seq<Fourcc>) -> Seq<Format>
    decreases formats.len(),
{
    if formats.len() == 0 {
        Seq::empty()
    } else {
        let code = formats.last();
        renderable_formats(physical, formats.drop_last()) + passing(
            supports(physical, code),
            code,
            |s: ModifierSupport| s.renders(),
        )
    }
}

/// The formats a client may advertise.
///
/// Only sampleable combinations: a compositor advertising a modifier it cannot
/// sample from produces buffers it has to reject later, which the client
/// experiences as a black window rather than a negotiation failure.
pub fn importable(physical: &PhysicalDevice, formats: &[Fourcc]) -> (accepted: Vec<Format>)
    ensures
        accepted@ == importable_formats(*physical, formats@),
{
    let mut accepted: Vec<Format> = Vec::new();
    for i in 0..formats.len()
        invariant
            accepted@ == importable_formats(*physical, formats@.take(i as int)),
    {
        let code = formats[i];
        let supported = modifiers(physical, code);
        let ghost before = accepted@;
        let ghost test = |s: ModifierSupport| s.accepts(code);
        for j in 0..supported.len()
            invariant
                test == (|s: ModifierSupport| s.accepts(code)),
                accepted@ == before + passing(supported@.take(j as int), code, test),
        {
            let support = supported[j];
            proof {
                lemma_passing_push(supported@, j as int, code, test);
            }
            if support.is_importable(code) {
                accepted.push(Format { code, modifier: support.modifier });
            }
        }
        assert(supported@.take(supported@.len() as int) =~= supported@);
        assert(formats@.take(i + 1).drop_last() =~= formats@.take(i as int));
    }
    assert(formats@.take(formats@.len() as int) =~= formats@);
    accepted
}

/// The formats an output buffer may use: renderable rather than sampleable.
pub fn renderable(physical: &PhysicalDevice, formats: &[Fourcc]) -> (accepted: Vec<Format>)
    ensures
        accepted@ == renderable_formats(*physical, formats@),
{
    let mut accepted: Vec<Format> = Vec::new();
    for i in 0..formats.len()
        invariant
            accepted@ == renderable_formats(*physical, formats@.take(i as int)),
    {
        let code = formats[i];
        let supported = modifiers(physical, code);
        let ghost before = accepted@;
        let ghost test = |s: ModifierSupport| s.renders();
        for j in 0..supported.len()
            invariant
                test == (|s: ModifierSupport| s.renders()),
                accepted@ == before + passing(supported@.take(j as int), code, test),
        {
            let support = supported[j];
            proof {
                lemma_passing_push(supported@, j as int, code, test);
            }
            if support.is_renderable() {
                accepted.push(Format { code, modifier: support.modifier });
            }
        }
        assert(supported@.take(supported@.len() as int) =~= supported@);
        assert(formats@.take(i + 1).drop_last() =~= formats@.take(i as int));
    }
    assert(formats@.take(formats@.len() as int) =~= formats@);
    accepted
}

/// One more modifier adds its format exactly where it passes.
proof fn lemma_passing_push(
    supported: Seq<ModifierSupport>,
    j: int,
    code: Fourcc,
    test: spec_fn(ModifierSupport) -> bool,
)
    requires
        0 <= j < supported.len(),
    ensures
        passing(supported.take(j + 1), code, test) == (if test(supported[j]) {
            passing(supported.take(j), code, test).push(
                Format { code, modifier: supported[j].modifier },
            )
        } else {
            passing(supported.take(j), code, test)
        }),
        passing(supported.take(0), code, test) == Seq::<Format>::empty(),
{
    reveal(Seq::filter);
    assert(supported.take(j + 1).drop_last() =~= supported.take(j));
    assert(passing(supported.take(0), code, test) =~= Seq::<Format>::empty());
    if test(supported[j]) {
        assert(passing(supported.take(j + 1), code, test) =~= passing(
            supported.take(j),
            code,
            test,
        ).push(Format { code, modifier: supported[j].modifier }));
    }
}

/// A run of bits: the lowest of them, and how many there are.
pub type Bits = (int, int);

/// Where the channels of a pixel lie in it, taken as one number with its lowest
/// byte first in memory.
pub struct Channels {
    pub red: Option<Bits>,
    pub green: Option<Bits>,
    pub blue: Option<Bits>,
    /// Alpha, or bits nothing is kept in.
    pub rest: Option<Bits>,
}

/// The channels of a fourcc. Its name lists them from the highest bit down.
pub open spec fn fourcc_channels(fourcc: Fourcc) -> Option<Channels> {
    match fourcc {
        Fourcc::Argb8888 | Fourcc::Xrgb8888 => Some(
            Channels {
                rest: Some((24, 8)),
                red: Some((16, 8)),
                green: Some((8, 8)),
                blue: Some((0, 8)),
            },
        ),
        Fourcc::Abgr8888 | Fourcc::Xbgr8888 => Some(
            Channels {
                rest: Some((24, 8)),
                blue: Some((16, 8)),
                green: Some((8, 8)),
                red: Some((0, 8)),
            },
        ),
        Fourcc::Argb2101010 | Fourcc::Xrgb2101010 => Some(
            Channels {
                rest: Some((30, 2)),
                red: Some((20, 10)),
                green: Some((10, 10)),
                blue: Some((0, 10)),
            },
        ),
        Fourcc::Abgr2101010 | Fourcc::Xbgr2101010 => Some(
            Channels {
                rest: Some((30, 2)),
                blue: Some((20, 10)),
                green: Some((10, 10)),
                red: Some((0, 10)),
            },
        ),
        Fourcc::Abgr16161616f | Fourcc::Xbgr16161616f => Some(
            Channels {
                rest: Some((48, 16)),
                blue: Some((32, 16)),
                green: Some((16, 16)),
                red: Some((0, 16)),
            },
        ),
        Fourcc::Rgb565 => Some(
            Channels { red: Some((11, 5)), green: Some((5, 6)), blue: Some((0, 5)), rest: None },
        ),
        Fourcc::R8 => Some(Channels { red: Some((0, 8)), green: None, blue: None, rest: None }),
        Fourcc::Gr88 => Some(
            Channels { green: Some((8, 8)), red: Some((0, 8)), blue: None, rest: None },
        ),
        _ => None,
    }
}

/// The channels of a Vulkan format. A packed format lists them from the highest
/// bit down, every other one in the order they have in memory.
pub open spec fn vulkan_channels(format: VkFormat) -> Option<Channels> {
    match format {
        VkFormat::B8G8R8A8Unorm => Some(
            Channels {
                blue: Some((0, 8)),
                green: Some((8, 8)),
                red: Some((16, 8)),
                rest: Some((24, 8)),
            },
        ),
        VkFormat::R8G8B8A8Unorm => Some(
            Channels {
                red: Some((0, 8)),
                green: Some((8, 8)),
                blue: Some((16, 8)),
                rest: Some((24, 8)),
            },
        ),
        VkFormat::A2B10G10R10UnormPack32 => Some(
            Channels {
                rest: Some((30, 2)),
                blue: Some((20, 10)),
                green: Some((10, 10)),
                red: Some((0, 10)),
            },
        ),
        VkFormat::A2R10G10B10UnormPack32 => Some(
            Channels {
                rest: Some((30, 2)),
                red: Some((20, 10)),
                green: Some((10, 10)),
                blue: Some((0, 10)),
            },
        ),
        VkFormat::R16G16B16A16Sfloat => Some(
            Channels {
                red: Some((0, 16)),
                green: Some((16, 16)),
                blue: Some((32, 16)),
                rest: Some((48, 16)),
            },
        ),
        VkFormat::R5G6B5UnormPack16 => Some(
            Channels { red: Some((11, 5)), green: Some((5, 6)), blue: Some((0, 5)), rest: None },
        ),
        VkFormat::R8Unorm => Some(
            Channels { red: Some((0, 8)), green: None, blue: None, rest: None },
        ),
        VkFormat::R8G8Unorm => Some(
            Channels { red: Some((0, 8)), green: Some((8, 8)), blue: None, rest: None },
        ),
        _ => None,
    }
}

/// How a picture of brightness and colour difference is put together.
pub struct Video {
    /// One of brightness, and one of colour difference or two.
    pub planes: int,
    /// Whether there is half as much colour difference along a row, and half as
    /// many rows of it.
    pub half_width: bool,
    pub half_height: bool,
    /// The bits a value is kept in, and how many of the highest it uses.
    pub kept: int,
    pub used: int,
}

/// How the pictures of a fourcc are put together.
pub open spec fn fourcc_video(fourcc: Fourcc) -> Option<Video> {
    match fourcc {
        Fourcc::Nv12 | Fourcc::Nv21 => Some(
            Video { planes: 2, half_width: true, half_height: true, kept: 8, used: 8 },
        ),
        Fourcc::Nv16 => Some(
            Video { planes: 2, half_width: true, half_height: false, kept: 8, used: 8 },
        ),
        Fourcc::Yuv420 | Fourcc::Yvu420 => Some(
            Video { planes: 3, half_width: true, half_height: true, kept: 8, used: 8 },
        ),
        Fourcc::Yuv422 => Some(
            Video { planes: 3, half_width: true, half_height: false, kept: 8, used: 8 },
        ),
        Fourcc::Yuv444 => Some(
            Video { planes: 3, half_width: false, half_height: false, kept: 8, used: 8 },
        ),
        Fourcc::P010 => Some(
            Video { planes: 2, half_width: true, half_height: true, kept: 16, used: 10 },
        ),
        Fourcc::P016 => Some(
            Video { planes: 2, half_width: true, half_height: true, kept: 16, used: 16 },
        ),
        _ => None,
    }
}

/// How the pictures of a Vulkan format are put together.
pub open spec fn vulkan_video(format: VkFormat) -> Option<Video> {
    match format {
        VkFormat::G8B8R82Plane420Unorm => Some(
            Video { planes: 2, half_width: true, half_height: true, kept: 8, used: 8 },
        ),
        VkFormat::G8B8R82Plane422Unorm => Some(
            Video { planes: 2, half_width: true, half_height: false, kept: 8, used: 8 },
        ),
        VkFormat::G8B8R83Plane420Unorm => Some(
            Video { planes: 3, half_width: true, half_height: true, kept: 8, used: 8 },
        ),
        VkFormat::G8B8R83Plane422Unorm => Some(
            Video { planes: 3, half_width: true, half_height: false, kept: 8, used: 8 },
        ),
        VkFormat::G8B8R83Plane444Unorm => Some(
            Video { planes: 3, half_width: false, half_height: false, kept: 8, used: 8 },
        ),
        VkFormat::G10X6B10X6R10X62Plane420Unorm3Pack16 => Some(
            Video { planes: 2, half_width: true, half_height: true, kept: 16, used: 10 },
        ),
        VkFormat::G16B16R162Plane420Unorm => Some(
            Video { planes: 2, half_width: true, half_height: true, kept: 16, used: 16 },
        ),
        _ => None,
    }
}

/// A Vulkan format has its channels where the fourcc has them, bit for bit, and
/// its planes as the fourcc has them. Every format with a name has one, and a
/// format that is only known by its code has none.
pub proof fn a_vulkan_format_keeps_every_channel_in_its_place(fourcc: Fourcc)
    ensures
        vulkan_format(fourcc) is None <==> fourcc is Other,
        vulkan_format(fourcc) matches Some(format) ==> {
            &&& vulkan_channels(format) == fourcc_channels(fourcc)
            &&& vulkan_video(format) == fourcc_video(fourcc)
            &&& format is R16G16B16A16Sfloat <==> fourcc is Abgr16161616f || fourcc
                is Xbgr16161616f
        },
        yuv(fourcc) <==> fourcc_video(fourcc) is Some,
        !yuv(fourcc) && !(fourcc is Other) ==> fourcc_channels(fourcc) is Some,
{
}

/// A format with alpha and the one without it are the same Vulkan format, and
/// only the first of them is blended.
pub proof fn an_opaque_variant_differs_in_alpha_alone(with: Fourcc, without: Fourcc)
    requires
        ({
            ||| (with, without) == (Fourcc::Argb8888, Fourcc::Xrgb8888)
            ||| (with, without) == (Fourcc::Abgr8888, Fourcc::Xbgr8888)
            ||| (with, without) == (Fourcc::Argb2101010, Fourcc::Xrgb2101010)
            ||| (with, without) == (Fourcc::Abgr2101010, Fourcc::Xbgr2101010)
            ||| (with, without) == (Fourcc::Abgr16161616f, Fourcc::Xbgr16161616f)
        }),
    ensures
        vulkan_format(with) == vulkan_format(without),
        alpha(with),
        !alpha(without),
        // The code starts with an `X` in place of an `A`.
        without.number() - with.number() == 0x58 - 0x41,
{
}

/// A format has alpha exactly where its name starts with it, and its colour
/// difference is the other way round exactly where its name says so.
pub proof fn a_name_says_what_a_format_holds(fourcc: Fourcc)
    ensures
        alpha(fourcc) <==> !(fourcc is Other) && fourcc.number() % 0x100 == 0x41,
        chroma_swapped(fourcc) <==> !(fourcc is Other) && (fourcc.number() == 0x3132_564e
            || fourcc.number() == 0x3231_5659),
        chroma_swapped(fourcc) ==> yuv(fourcc),
        // `P` for the two with more than eight bits, `Y` for three planes, `N` for
        // two.
        yuv(fourcc) <==> !(fourcc is Other) && (fourcc.number() % 0x100 == 0x4e || fourcc.number()
            % 0x100 == 0x50 || fourcc.number() % 0x100 == 0x59),
        fourcc_video(fourcc) matches Some(video) && video.planes == 3 <==> !(fourcc is Other)
            && fourcc.number() % 0x100 == 0x59,
{
}

/// Each thing a modifier can be used for is a bit of its own among those the
/// driver reports, and the modifier and its planes are as reported.
pub proof fn every_capability_is_a_bit_of_its_own(p: ModifierProperties)
    ensures
        ({
            let s = ModifierSupport::of(p);
            &&& s.modifier == p.modifier
            &&& s.planes == p.planes
            &&& s.sampling <==> p.features & 0x1 == 0x1
            &&& s.rendering <==> p.features & 0x80 == 0x80
            &&& s.transfer_src <==> p.features & 0x4000 == 0x4000
            &&& s.transfer_dst <==> p.features & 0x8000 == 0x8000
            &&& s.midpoint_chroma <==> p.features & 0x2_0000 == 0x2_0000
            &&& s.linear_chroma <==> p.features & 0x4_0000 == 0x4_0000
            &&& s.disjoint <==> p.features & 0x40_0000 == 0x40_0000
            &&& s.cosited_chroma <==> p.features & 0x80_0000 == 0x80_0000
        }),
{
}

/// What is offered for a fourcc is what the driver reports of its Vulkan format,
/// modifier by modifier, and nothing is left out.
pub proof fn every_reported_modifier_is_offered(
    physical: PhysicalDevice,
    fourcc: Fourcc,
    index: int,
)
    requires
        0 <= index < physical.formats@.len(),
        vulkan_format(fourcc) == Some(physical.formats@[index].format),
        forall|i: int|
            0 <= i < index ==> (#[trigger] physical.formats@[i]).format
                != physical.formats@[index].format,
    ensures
        ({
            let reported = physical.formats@[index].properties@;
            let offered = supports(physical, fourcc);
            &&& offered.len() == reported.len()
            &&& forall|i: int|
                0 <= i < offered.len() ==> (#[trigger] offered[i]).modifier == reported[i].modifier
                    && offered[i].planes == reported[i].planes && (offered[i].sampling
                    <==> reported[i].features & 0x1 == 0x1) && (offered[i].rendering
                    <==> reported[i].features & 0x80 == 0x80)
        }),
{
    crate::device::the_first_report_of_a_format_counts(
        physical,
        physical.formats@[index].format,
        index,
    );
}

/// One modifier of a list, as a format that passes a test.
proof fn lemma_passing_contains(
    supported: Seq<ModifierSupport>,
    code: Fourcc,
    test: spec_fn(ModifierSupport) -> bool,
    format: Format,
)
    ensures
        passing(supported, code, test).contains(format) <==> format.code == code && exists|i: int|
            0 <= i < supported.len() && (#[trigger] supported[i]).modifier == format.modifier
                && test(supported[i]),
{
    let passed = supported.filter(test);
    let all = passing(supported, code, test);
    if all.contains(format) {
        let m = choose|m: int| 0 <= m < all.len() && all[m] == format;
        let s = passed[m];
        assert(all[m] == Format { code, modifier: s.modifier });
        supported.lemma_filter_pred(test, m);
        assert(passed.contains(s));
        supported.lemma_filter_contains_rev(test, s);
        let n = choose|n: int| 0 <= n < supported.len() && supported[n] == s;
        assert(supported[n].modifier == format.modifier);
    }
    if format.code == code && exists|i: int|
        0 <= i < supported.len() && (#[trigger] supported[i]).modifier == format.modifier && test(
            supported[i],
        ) {
        let n = choose|i: int|
            0 <= i < supported.len() && (#[trigger] supported[i]).modifier == format.modifier
                && test(supported[i]);
        supported.lemma_filter_contains(test, n);
        let m = choose|m: int| 0 <= m < passed.len() && passed[m] == supported[n];
        assert(all[m] == format);
    }
}

/// The formats offered for outputs are those of the list with a modifier that
/// can be rendered into, in one plane, and no other.
pub proof fn an_output_format_can_be_rendered_into(
    physical: PhysicalDevice,
    codes: Seq<Fourcc>,
    format: Format,
)
    ensures
        renderable_formats(physical, codes).contains(format) <==> codes.contains(format.code)
            && exists|i: int|
            0 <= i < supports(physical, format.code).len() && (#[trigger] supports(
                physical,
                format.code,
            )[i]).modifier == format.modifier && supports(physical, format.code)[i].rendering
                && supports(physical, format.code)[i].planes == 1,
    decreases codes.len(),
{
    if codes.len() > 0 {
        let rest = codes.drop_last();
        let code = codes.last();
        an_output_format_can_be_rendered_into(physical, rest, format);
        let test = |s: ModifierSupport| s.renders();
        lemma_passing_contains(supports(physical, code), code, test, format);
        lemma_listed(codes, format.code);
        lemma_joined_contains(
            renderable_formats(physical, rest),
            passing(supports(physical, code), code, test),
            format,
        );
    }
}

/// The formats offered to clients are those of the list with a modifier that can
/// be sampled: in one plane for colour, and with a siting the device can
/// reconstruct for colour difference. No other is offered.
pub proof fn a_client_format_can_be_sampled(
    physical: PhysicalDevice,
    codes: Seq<Fourcc>,
    format: Format,
)
    ensures
        importable_formats(physical, codes).contains(format) <==> codes.contains(format.code)
            && exists|i: int|
            0 <= i < supports(physical, format.code).len() && (#[trigger] supports(
                physical,
                format.code,
            )[i]).modifier == format.modifier && supports(physical, format.code)[i].sampling && (
            if fourcc_video(format.code) is Some {
                supports(physical, format.code)[i].cosited_chroma || supports(
                    physical,
                    format.code,
                )[i].midpoint_chroma
            } else {
                supports(physical, format.code)[i].planes == 1
            }),
    decreases codes.len(),
{
    if codes.len() > 0 {
        let rest = codes.drop_last();
        let code = codes.last();
        a_client_format_can_be_sampled(physical, rest, format);
        let test = |s: ModifierSupport| s.accepts(code);
        lemma_passing_contains(supports(physical, code), code, test, format);
        lemma_listed(codes, format.code);
        lemma_joined_contains(
            importable_formats(physical, rest),
            passing(supports(physical, code), code, test),
            format,
        );
    }
}

proof fn lemma_listed(codes: Seq<Fourcc>, code: Fourcc)
    requires
        codes.len() > 0,
    ensures
        codes.contains(code) <==> codes.drop_last().contains(code) || codes.last() == code,
{
    let rest = codes.drop_last();
    if codes.contains(code) {
        let k = choose|k: int| 0 <= k < codes.len() && codes[k] == code;
        if k < rest.len() {
            assert(rest[k] == code);
        }
    }
    if rest.contains(code) {
        let k = choose|k: int| 0 <= k < rest.len() && rest[k] == code;
        assert(codes[k] == code);
    }
    if codes.last() == code {
        assert(codes[codes.len() - 1] == code);
    }
}

proof fn lemma_joined_contains(a: Seq<Format>, b: Seq<Format>, format: Format)
    ensures
        (a + b).contains(format) <==> a.contains(format) || b.contains(format),
{
    let all = a + b;
    if all.contains(format) {
        let k = choose|k: int| 0 <= k < all.len() && all[k] == format;
        if k < a.len() {
            assert(a[k] == format);
        } else {
            assert(b[k - a.len()] == format);
        }
    }
    if a.contains(format) {
        let k = choose|k: int| 0 <= k < a.len() && a[k] == format;
        assert(all[k] == format);
    }
    if b.contains(format) {
        let k = choose|k: int| 0 <= k < b.len() && b[k] == format;
        assert(all[a.len() + k] == format);
    }
}

/// What is offered keeps the order of the list it is made from: the formats of
/// what comes first in it come first.
pub proof fn formats_are_offered_in_order(
    physical: PhysicalDevice,
    first: Seq<Fourcc>,
    second: Seq<Fourcc>,
)
    ensures
        importable_formats(physical, first + second) == importable_formats(physical, first)
            + importable_formats(physical, second),
        renderable_formats(physical, first + second) == renderable_formats(physical, first)
            + renderable_formats(physical, second),
    decreases second.len(),
{
    if second.len() == 0 {
        assert(first + second =~= first);
        assert(importable_formats(physical, first) + importable_formats(physical, second)
            =~= importable_formats(physical, first));
        assert(renderable_formats(physical, first) + renderable_formats(physical, second)
            =~= renderable_formats(physical, first));
    } else {
        let rest = second.drop_last();
        let code = second.last();
        formats_are_offered_in_order(physical, first, rest);
        assert((first + second).drop_last() =~= first + rest);
        assert(importable_formats(physical, first + second) =~= importable_formats(
            physical,
            first,
        ) + importable_formats(physical, second));
        assert(renderable_formats(physical, first + second) =~= renderable_formats(
            physical,
            first,
        ) + renderable_formats(physical, second));
    }
}

/// What is worth advertising has a Vulkan format, is listed once, and leaves out
/// no video format and none of the formats of eight bits a channel. The format
/// every client can draw into comes first.
pub proof fn what_is_advertised_is_complete(fourcc: Fourcc, i: int, j: int)
    requires
        0 <= i < j < common().len(),
    ensures
        common()[i] != common()[j],
        vulkan_format(common()[i]) is Some,
        vulkan_format(common()[j]) is Some,
        common()[0] == Fourcc::Argb8888,
        fourcc_video(fourcc) is Some ==> common().contains(fourcc),
        fourcc_channels(fourcc) matches Some(channels) && channels.rest == Some((24int, 8int))
            ==> common().contains(fourcc),
        alpha(fourcc) && !(fourcc is Argb2101010) ==> common().contains(fourcc),
        fourcc is Xbgr2101010 ==> common().contains(fourcc),
{
    let all = common();
    assert(all[0] == Fourcc::Argb8888 && all[1] == Fourcc::Xrgb8888);
    assert(all[2] == Fourcc::Abgr8888 && all[3] == Fourcc::Xbgr8888);
    assert(all[4] == Fourcc::Abgr2101010 && all[5] == Fourcc::Xbgr2101010);
    assert(all[6] == Fourcc::Abgr16161616f && all[7] == Fourcc::Nv12);
    assert(all[8] == Fourcc::Nv21 && all[9] == Fourcc::Nv16);
    assert(all[10] == Fourcc::P010 && all[11] == Fourcc::P016);
    assert(all[12] == Fourcc::Yuv420 && all[13] == Fourcc::Yvu420);
    assert(all[14] == Fourcc::Yuv422 && all[15] == Fourcc::Yuv444);
}

} // verus!
