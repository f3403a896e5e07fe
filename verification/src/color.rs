//! Transfer functions, primaries, and what a buffer's pixels mean.
//!
//! Compositing an HDR surface next to an SDR one means every surface has to be
//! decoded to light, moved into a shared set of primaries, and encoded again
//! for the output. What is here says which curve and which scale apply; the
//! curves themselves are evaluated in floating point, outside this library.
//! A number of such a curve is carried by the bits of its single-precision
//! form.
use vstd::arithmetic::power2::{lemma2_to64, pow2};
use vstd::prelude::*;

use crate::pipeline::ONE;

verus! {

/// How encoded values relate to light.
///
/// The names are the ones `wp_color_management_v1` uses, because that is what
/// clients describe their buffers with.
#[derive(Debug, Clone, Copy, PartialEq, Eq, Structural)]
pub enum TransferFunction {
    /// The sRGB piecewise curve. What almost every SDR buffer is.
    Srgb,
    /// Already light-linear. What an intermediate buffer usually is.
    Linear,
    /// A pure power curve, used by some displays and by BT.1886 content.
    Gamma22,
    Gamma28,
    /// SMPTE ST 2084, the perceptual quantiser. Absolute: its top value is a
    /// fixed luminance, not "as bright as the display goes".
    Pq,
    /// Hybrid log-gamma. Relative, unlike PQ.
    Hlg,
}

impl Default for TransferFunction {
    fn default() -> (transfer: TransferFunction)
        ensures
            transfer == TransferFunction::Srgb,
    {
        TransferFunction::Srgb
    }
}

impl TransferFunction {
    /// The number the shader knows this curve by.
    pub open spec fn code(self) -> u32 {
        match self {
            TransferFunction::Linear => 0,
            TransferFunction::Srgb => 1,
            TransferFunction::Gamma22 => 2,
            TransferFunction::Gamma28 => 3,
            TransferFunction::Pq => 4,
            TransferFunction::Hlg => 5,
        }
    }

    /// Whether this curve carries real luminance rather than a fraction of a
    /// reference white.
    ///
    /// PQ does, whatever the display. Everything else here is relative, and
    /// the two cannot be mixed without saying what full scale is worth on each
    /// side.
    pub fn is_absolute(self) -> (absolute: bool)
        ensures
            absolute <==> self == TransferFunction::Pq,
    {
        matches!(self, TransferFunction::Pq)
    }

    /// What the shader is told, since GLSL has no enums.
    pub fn as_code(self) -> (code: u32)
        ensures
            code == self.code(),
    {
        match self {
            TransferFunction::Linear => 0,
            TransferFunction::Srgb => 1,
            TransferFunction::Gamma22 => 2,
            TransferFunction::Gamma28 => 3,
            TransferFunction::Pq => 4,
            TransferFunction::Hlg => 5,
        }
    }
}

/// No two curves share a code, so the shader never applies the wrong one.
pub proof fn transfer_codes_are_distinct(a: TransferFunction, b: TransferFunction)
    ensures
        a.code() == b.code() ==> a == b,
{
}

/// What full scale is worth on one side of a conversion, against the other.
#[derive(Debug, Clone, Copy, PartialEq, Eq, Structural)]
pub enum LuminanceScale {
    /// The source's reference white over the destination's.
    ReferenceOverReference,
    /// Nothing to change.
    Unity,
    /// The source's reference white over the PQ peak.
    ReferenceOverPeak,
    /// The PQ peak over the destination's reference white.
    PeakOverReference,
}

/// The scale between two curves' linear values.
///
/// PQ is absolute, and every other transfer function here is relative to a
/// reference white. Converting between the two means changing what full scale
/// means, and treating them as if they already agreed drives every pixel to the
/// panel's limit.
pub fn luminance_scale(from: TransferFunction, to: TransferFunction) -> (scale: LuminanceScale)
    ensures
        scale == (match (from is Pq, to is Pq) {
            (false, false) => LuminanceScale::ReferenceOverReference,
            (true, true) => LuminanceScale::Unity,
            (false, true) => LuminanceScale::ReferenceOverPeak,
            (true, false) => LuminanceScale::PeakOverReference,
        }),
{
    match (from.is_absolute(), to.is_absolute()) {
        // Both relative, or both absolute: only the reference whites differ.
        (false, false) => LuminanceScale::ReferenceOverReference,
        (true, true) => LuminanceScale::Unity,
        // Relative into absolute: SDR white is so many nits, and PQ wants that
        // as a fraction of its peak.
        (false, true) => LuminanceScale::ReferenceOverPeak,
        // Absolute into relative: the other way about.
        (true, false) => LuminanceScale::PeakOverReference,
    }
}

/// What full scale is worth on one side of a conversion against the other, for
/// each way to compare the two: quotients of luminances, each by the bits of its
/// single-precision form.
#[derive(Debug, Clone, Copy, PartialEq, Eq, Structural)]
pub struct Quotients {
    /// The source's reference white over the destination's.
    pub reference_over_reference: u32,
    /// The source's reference white over the PQ peak.
    pub reference_over_peak: u32,
    /// The PQ peak over the destination's reference white.
    pub peak_over_reference: u32,
}

impl Quotients {
    /// The scale between two curves' linear values.
    pub open spec fn between(self, from: TransferFunction, to: TransferFunction) -> u32 {
        match (from is Pq, to is Pq) {
            (false, false) => self.reference_over_reference,
            (true, true) => ONE,
            (false, true) => self.reference_over_peak,
            (true, false) => self.peak_over_reference,
        }
    }

    /// The scale between two curves' linear values.
    pub fn scale(&self, from: TransferFunction, to: TransferFunction) -> (bits: u32)
        ensures
            bits == self.between(from, to),
    {
        match luminance_scale(from, to) {
            LuminanceScale::ReferenceOverReference => self.reference_over_reference,
            LuminanceScale::Unity => ONE,
            LuminanceScale::ReferenceOverPeak => self.reference_over_peak,
            LuminanceScale::PeakOverReference => self.peak_over_reference,
        }
    }
}

/// A CIE xy pair, each by the bits of its single-precision form.
#[derive(Debug, Clone, Copy, PartialEq, Eq, Structural)]
pub struct Chromaticity {
    pub x: u32,
    pub y: u32,
}

/// The chromaticities of a colour space.
#[derive(Debug, Clone, Copy, PartialEq, Eq, Structural)]
pub struct Primaries {
    pub red: Chromaticity,
    pub green: Chromaticity,
    pub blue: Chromaticity,
    pub white: Chromaticity,
}

/// D65, the white point almost everything uses: 0.3127, 0.3290.
pub open spec fn d65() -> Chromaticity {
    Chromaticity { x: 0x3ea0_1a37, y: 0x3ea8_72b0 }
}

/// BT.709: red 0.640, 0.330; green 0.300, 0.600; blue 0.150, 0.060.
pub open spec fn bt709() -> Primaries {
    Primaries {
        red: Chromaticity { x: 0x3f23_d70a, y: 0x3ea8_f5c3 },
        green: Chromaticity { x: 0x3e99_999a, y: 0x3f19_999a },
        blue: Chromaticity { x: 0x3e19_999a, y: 0x3d75_c28f },
        white: d65(),
    }
}

/// BT.2020: red 0.708, 0.292; green 0.170, 0.797; blue 0.131, 0.046.
pub open spec fn wide_gamut() -> Primaries {
    Primaries {
        red: Chromaticity { x: 0x3f35_3f7d, y: 0x3e95_8106 },
        green: Chromaticity { x: 0x3e2e_147b, y: 0x3f4c_0831 },
        blue: Chromaticity { x: 0x3e06_24dd, y: 0x3d3c_6a7f },
        white: d65(),
    }
}

/// Display P3: red 0.680, 0.320; green 0.265, 0.690; blue 0.150, 0.060.
pub open spec fn p3() -> Primaries {
    Primaries {
        red: Chromaticity { x: 0x3f2e_147b, y: 0x3ea3_d70a },
        green: Chromaticity { x: 0x3e87_ae14, y: 0x3f30_a3d7 },
        blue: Chromaticity { x: 0x3e19_999a, y: 0x3d75_c28f },
        white: d65(),
    }
}

/// Adobe RGB: red 0.640, 0.330; green 0.210, 0.710; blue 0.150, 0.060.
pub open spec fn adobe() -> Primaries {
    Primaries {
        red: Chromaticity { x: 0x3f23_d70a, y: 0x3ea8_f5c3 },
        green: Chromaticity { x: 0x3e57_0a3d, y: 0x3f35_c28f },
        blue: Chromaticity { x: 0x3e19_999a, y: 0x3d75_c28f },
        white: d65(),
    }
}

impl Primaries {
    /// BT.709, which is also sRGB's. The SDR default.
    pub fn srgb() -> (primaries: Primaries)
        ensures
            primaries == bt709(),
    {
        Primaries {
            red: Chromaticity { x: 0x3f23_d70a, y: 0x3ea8_f5c3 },
            green: Chromaticity { x: 0x3e99_999a, y: 0x3f19_999a },
            blue: Chromaticity { x: 0x3e19_999a, y: 0x3d75_c28f },
            white: Chromaticity { x: 0x3ea0_1a37, y: 0x3ea8_72b0 },
        }
    }

    /// BT.2020. The wide gamut HDR content is usually graded in.
    pub fn bt2020() -> (primaries: Primaries)
        ensures
            primaries == wide_gamut(),
    {
        Primaries {
            red: Chromaticity { x: 0x3f35_3f7d, y: 0x3e95_8106 },
            green: Chromaticity { x: 0x3e2e_147b, y: 0x3f4c_0831 },
            blue: Chromaticity { x: 0x3e06_24dd, y: 0x3d3c_6a7f },
            white: Chromaticity { x: 0x3ea0_1a37, y: 0x3ea8_72b0 },
        }
    }

    /// Display P3: DCI-P3 primaries with a D65 white point, which is what
    /// consumer displays actually use.
    pub fn display_p3() -> (primaries: Primaries)
        ensures
            primaries == p3(),
    {
        Primaries {
            red: Chromaticity { x: 0x3f2e_147b, y: 0x3ea3_d70a },
            green: Chromaticity { x: 0x3e87_ae14, y: 0x3f30_a3d7 },
            blue: Chromaticity { x: 0x3e19_999a, y: 0x3d75_c28f },
            white: Chromaticity { x: 0x3ea0_1a37, y: 0x3ea8_72b0 },
        }
    }

    /// Adobe RGB.
    pub fn adobe_rgb() -> (primaries: Primaries)
        ensures
            primaries == adobe(),
    {
        Primaries {
            red: Chromaticity { x: 0x3f23_d70a, y: 0x3ea8_f5c3 },
            green: Chromaticity { x: 0x3e57_0a3d, y: 0x3f35_c28f },
            blue: Chromaticity { x: 0x3e19_999a, y: 0x3d75_c28f },
            white: Chromaticity { x: 0x3ea0_1a37, y: 0x3ea8_72b0 },
        }
    }
}

/// Everything the renderer needs to know about one image's colour.
#[derive(Debug, Clone, Copy, PartialEq, Eq, Structural)]
pub struct Description {
    pub transfer: TransferFunction,
    pub primaries: Primaries,
    /// The luminance, in cd/m2, that full scale represents. Only meaningful for
    /// relative transfer functions.
    pub reference_luminance: u32,
}

/// Plain SDR sRGB with a reference white of 203 cd/m2: what a buffer is when
/// the client says nothing.
pub open spec fn sdr() -> Description {
    Description {
        transfer: TransferFunction::Srgb,
        primaries: bt709(),
        reference_luminance: 0x434b_0000,
    }
}

impl Default for Description {
    fn default() -> (description: Description)
        ensures
            description == sdr(),
    {
        Description {
            transfer: TransferFunction::Srgb,
            primaries: Primaries::srgb(),
            reference_luminance: 0x434b_0000,
        }
    }
}

/// What a surface's buffers contain, by what the surface has declared.
///
/// A client that has not said anything is required to be treated as sRGB.
pub fn description_in(declared: Option<Description>) -> (description: Description)
    ensures
        description == (match declared {
            Some(description) => description,
            None => sdr(),
        }),
{
    match declared {
        Some(description) => description,
        None => Description::default(),
    }
}

/// The numbers of the curves are those the shader switches on: zero is the curve
/// that changes nothing, then sRGB, the two powers in order, PQ and HLG.
pub proof fn the_shader_knows_each_curve_by_its_number(curve: TransferFunction)
    ensures
        curve.code() <= 5,
        curve.code() == 0 <==> curve is Linear,
        curve.code() == 1 <==> curve is Srgb,
        curve.code() == 2 <==> curve is Gamma22,
        curve.code() == 3 <==> curve is Gamma28,
        curve.code() == 4 <==> curve is Pq,
        curve.code() == 5 <==> curve is Hlg,
{
}

/// The scale between two curves is a comparison of what full scale is worth on
/// each side: reference whites where both are relative, nothing to compare where
/// both are absolute, and the PQ peak on whichever side is absolute.
pub proof fn the_scale_compares_what_full_scale_is_worth(
    quotients: Quotients,
    from: TransferFunction,
    to: TransferFunction,
)
    ensures
        !(from is Pq) && !(to is Pq) ==> quotients.between(from, to)
            == quotients.reference_over_reference,
        from is Pq && to is Pq ==> quotients.between(from, to) == ONE,
        !(from is Pq) && to is Pq ==> quotients.between(from, to) == quotients.reference_over_peak,
        from is Pq && !(to is Pq) ==> quotients.between(from, to) == quotients.peak_over_reference,
{
}

/// Whether some bits are the single-precision number nearest to `n` parts of
/// `parts`: an exponent with its bias taken off, a fraction whose leading one is
/// left out, and no more than half a step of the fraction away.
pub open spec fn is_nearest(bits: u32, n: int, parts: int) -> bool {
    let exponent = bits as int / 0x80_0000;
    let whole = 0x80_0000 + bits as int % 0x80_0000;
    let scale = pow2((150 - exponent) as nat);
    &&& 0 < exponent <= 150
    &&& -parts <= 2 * (whole * parts - n * scale) <= parts
}

/// Whether a chromaticity is the one published for it, in ten thousandths.
pub open spec fn is_published(c: Chromaticity, x: int, y: int) -> bool {
    is_nearest(c.x, x, 10000) && is_nearest(c.y, y, 10000)
}

/// The colour spaces are the published ones: each of their chromaticities is the
/// nearest there is to the decimal fraction it is given by, and all of them are
/// seen under the white of D65.
pub proof fn every_colour_space_is_the_published_one()
    ensures
        is_published(bt709().red, 6400, 3300) && is_published(bt709().green, 3000, 6000)
            && is_published(bt709().blue, 1500, 600),
        is_published(wide_gamut().red, 7080, 2920) && is_published(wide_gamut().green, 1700, 7970)
            && is_published(wide_gamut().blue, 1310, 460),
        is_published(p3().red, 6800, 3200) && is_published(p3().green, 2650, 6900)
            && is_published(p3().blue, 1500, 600),
        is_published(adobe().red, 6400, 3300) && is_published(adobe().green, 2100, 7100)
            && is_published(adobe().blue, 1500, 600),
        is_published(bt709().white, 3127, 3290) && bt709().white == wide_gamut().white
            && bt709().white == p3().white && bt709().white == adobe().white,
{
    lemma2_to64();
}

/// A buffer nobody has said anything of is sRGB: its curve, its primaries, and a
/// reference white of 203 candelas to the square metre.
pub proof fn a_buffer_is_sdr_where_nothing_is_said()
    ensures
        sdr().transfer is Srgb,
        sdr().primaries == bt709(),
        is_nearest(sdr().reference_luminance, 203, 1),
{
    lemma2_to64();
}

} // verus!
