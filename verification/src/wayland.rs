//! Client buffers in shared memory.
//!
//! The shared memory a client wrote is described by a stride and an offset that
//! need not match how the rows are wanted for an upload.
use std::borrow::Cow;
use std::sync::Arc;

use vstd::prelude::*;

use crate::cache::{
    lemma_present, lemma_without, lemma_without_keeps_distinct, nothing_outlives_its_buffer,
    without, BufferCache, Entry,
};
use crate::error::Error;
use crate::format::Fourcc;
use crate::geometry::Rectangle;
use crate::image::Image;
use crate::renderer::{
    has_area, stays_inside, update_damage, update_refusal, Held, Updates, VulkanRenderer,
    VulkanTexture,
};
use crate::text::{append_decimal, decimal};

verus! {

/// The product of two sizes, or the largest size there is.
pub open spec fn saturated_product(a: int, b: int) -> int {
    if a * b > usize::MAX {
        usize::MAX as int
    } else {
        a * b
    }
}

/// The bytes a buffer has to have for its rows to be read: up to the last byte
/// of the last row.
pub open spec fn needed_bytes(offset: int, stride: int, width: int, height: int) -> int {
    offset + saturated_product(stride, if height == 0 { 0 } else { height - 1 }) + width * 4
}

/// Why a buffer's rows cannot be read, or `None` where they can.
pub open spec fn repack_refusal(len: int, offset: int, stride: int, width: int, height: int)
    -> Option<Seq<char>> {
    let needed = needed_bytes(offset, stride, width, height);
    if needed > usize::MAX {
        Some("shm buffer dimensions overflow"@)
    } else if len < needed {
        Some(
            "shm buffer is "@ + decimal(len) + " bytes; "@ + decimal(width) + "x"@ + decimal(height)
                + " at stride "@ + decimal(stride) + " needs "@ + decimal(needed),
        )
    } else {
        None
    }
}

/// The rows of a buffer, one after the other with nothing in between.
pub open spec fn packed_rows(src: Seq<u8>, offset: int, stride: int, packed: int, rows: int) -> Seq<
    u8,
>
    decreases rows,
{
    if rows <= 0 {
        Seq::empty()
    } else {
        packed_rows(src, offset, stride, packed, rows - 1) + src.subrange(
            offset + (rows - 1) * stride,
            offset + (rows - 1) * stride + packed,
        )
    }
}

proof fn lemma_row_inside(row: int, stride: int, height: int)
    by (nonlinear_arith)
    requires
        0 <= row < height,
        0 <= stride,
    ensures
        0 <= row * stride <= stride * (height - 1),
        row * stride + stride == (row + 1) * stride,
{
}

/// Rows without gaps are the start of the buffer itself.
proof fn lemma_rows_without_gaps(src: Seq<u8>, packed: int, rows: int)
    requires
        0 <= packed,
        0 <= rows,
        packed * rows <= src.len(),
    ensures
        0 <= packed * rows,
        packed_rows(src, 0, packed, packed, rows) == src.take(packed * rows),
    decreases rows,
{
    if rows > 0 {
        lemma_row_inside(rows - 1, packed, rows);
        assert((rows - 1) * packed == packed * (rows - 1)) by (nonlinear_arith);
        assert(rows * packed == packed * rows) by (nonlinear_arith);
        lemma_rows_without_gaps(src, packed, rows - 1);
        assert(src.take(packed * (rows - 1)) + src.subrange(
            (rows - 1) * packed,
            (rows - 1) * packed + packed,
        ) =~= src.take(packed * rows));
    } else {
        assert(packed * rows == 0) by (nonlinear_arith)
            requires
                rows == 0,
        ;
        assert(src.take(0) =~= Seq::empty());
    }
}

/// Repack `src` into tightly packed rows of four bytes per pixel.
///
/// A client's shm buffer has whatever stride it chose, often padded for
/// alignment. Returning a borrow in the common case where the rows already
/// agree keeps the copy out of the path most clients take.
pub fn repack(src: &[u8], offset: usize, stride: usize, width: usize, height: usize) -> (packed:
    Result<Cow<'_, [u8]>, Error>)
    requires
        src@.len() <= isize::MAX,
        width * 4 <= usize::MAX,
        repack_refusal(
            src@.len() as int,
            offset as int,
            stride as int,
            width as int,
            height as int,
        ) is None ==> width * 4 * height <= isize::MAX,
    ensures
        match packed {
            Ok(packed) => {
                &&& repack_refusal(
                    src@.len() as int,
                    offset as int,
                    stride as int,
                    width as int,
                    height as int,
                ) is None
                &&& (packed is Borrowed) == (stride == width * 4 && offset == 0)
                &&& bytes_of(packed) == packed_rows(
                    src@,
                    offset as int,
                    stride as int,
                    width * 4,
                    height as int,
                )
            },
            Err(error) => error is Unsupported && repack_refusal(
                src@.len() as int,
                offset as int,
                stride as int,
                width as int,
                height as int,
            ) == Some(error.text()),
        },
{
    let row: usize = width * 4;
    let last: usize = if height == 0 {
        0
    } else {
        height - 1
    };
    let skipped: usize = match stride.checked_mul(last) {
        Some(skipped) => skipped,
        None => usize::MAX,
    };
    let needed: usize = match offset.checked_add(skipped) {
        Some(start) => match start.checked_add(row) {
            Some(needed) => needed,
            None => {
                return Err(Error::Unsupported("shm buffer dimensions overflow".to_owned()));
            },
        },
        None => {
            return Err(Error::Unsupported("shm buffer dimensions overflow".to_owned()));
        },
    };
    if src.len() < needed {
        let mut text = String::new();
        text.append("shm buffer is ");
        append_decimal(&mut text, src.len() as u64);
        text.append(" bytes; ");
        append_decimal(&mut text, width as u64);
        text.append("x");
        append_decimal(&mut text, height as u64);
        text.append(" at stride ");
        append_decimal(&mut text, stride as u64);
        text.append(" needs ");
        append_decimal(&mut text, needed as u64);
        assert(text@ =~= "shm buffer is "@ + decimal(src@.len() as int) + " bytes; "@ + decimal(
            width as int,
        ) + "x"@ + decimal(height as int) + " at stride "@ + decimal(stride as int) + " needs "@
            + decimal(needed as int));
        return Err(Error::Unsupported(text));
    }
    if stride == row && offset == 0 {
        proof {
            if height > 0 {
                lemma_row_inside(height - 1, row as int, height as int);
                assert(height * row == row * height) by (nonlinear_arith);
            } else {
                assert(row * height == 0) by (nonlinear_arith)
                    requires
                        height == 0,
                ;
            }
            lemma_rows_without_gaps(src@, row as int, height as int);
            assert(src@.subrange(0, row * height) =~= src@.take(row * height));
        }
        return Ok(Cow::Borrowed(vstd::slice::slice_subrange(src, 0, row * height)));
    }
    let mut out: Vec<u8> = Vec::new();
    for line in 0..height
        invariant
            row == width * 4,
            0 < height ==> stride * (height - 1) <= skipped,
            offset + skipped + row <= src@.len(),
            src@.len() <= isize::MAX,
            out@ == packed_rows(src@, offset as int, stride as int, row as int, line as int),
    {
        proof {
            lemma_row_inside(line as int, stride as int, height as int);
            assert((line + 1 - 1) * stride == line * stride);
        }
        let start: usize = offset + line * stride;
        let slice = vstd::slice::slice_subrange(src, start, start + row);
        out.extend_from_slice(slice);
        assert(out@ =~= packed_rows(
            src@,
            offset as int,
            stride as int,
            row as int,
            line as int,
        ) + src@.subrange(start as int, start + row));
    }
    Ok(Cow::Owned(out))
}

/// The bytes of a borrowed or an owned slice.
pub open spec fn bytes_of(bytes: Cow<'_, [u8]>) -> Seq<u8> {
    match bytes {
        Cow::Borrowed(slice) => slice@,
        Cow::Owned(vec) => vec@,
    }
}

proof fn lemma_packed_place(row: int, byte: int, packed: int, rows: int)
    by (nonlinear_arith)
    requires
        0 <= row < rows,
        0 <= byte < packed,
    ensures
        0 <= row * packed + byte < packed * rows,
        packed * (rows - 1) + packed == packed * rows,
        row < rows - 1 ==> row * packed + byte < packed * (rows - 1),
        row == rows - 1 ==> row * packed == packed * (rows - 1),
{
}

/// Repacking keeps every pixel: each byte of a row is found at the same place
/// of the same row, and rows follow one another without a gap.
pub proof fn repacking_keeps_every_pixel(
    src: Seq<u8>,
    offset: int,
    stride: int,
    packed: int,
    rows: int,
    row: int,
    byte: int,
)
    requires
        0 <= offset,
        0 <= stride,
        0 <= packed,
        0 <= rows,
        rows > 0 ==> offset + stride * (rows - 1) + packed <= src.len(),
    ensures
        packed_rows(src, offset, stride, packed, rows).len() == packed * rows,
        0 <= row < rows && 0 <= byte < packed ==> packed_rows(src, offset, stride, packed, rows)[row
            * packed + byte] == src[offset + row * stride + byte],
    decreases rows,
{
    if rows > 0 {
        lemma_row_inside(rows - 1, stride, rows);
        assert((rows - 1) * stride == stride * (rows - 1)) by (nonlinear_arith);
        assert(packed * (rows - 1) + packed == packed * rows) by (nonlinear_arith);
        if rows > 1 {
            lemma_row_inside(rows - 2, stride, rows - 1);
            assert(stride * (rows - 2) <= stride * (rows - 1)) by (nonlinear_arith)
                requires
                    0 <= stride,
                    2 <= rows,
            ;
        }
        repacking_keeps_every_pixel(src, offset, stride, packed, rows - 1, row, byte);
        if 0 <= row < rows && 0 <= byte < packed {
            lemma_packed_place(row, byte, packed, rows);
        }
    } else {
        assert(packed * rows == 0) by (nonlinear_arith)
            requires
                rows == 0,
        ;
    }
}

/// A buffer without padding comes out as it went in.
pub proof fn a_tightly_packed_buffer_is_unchanged(src: Seq<u8>, packed: int, rows: int)
    requires
        0 <= packed,
        0 <= rows,
        packed * rows <= src.len(),
    ensures
        0 <= packed * rows,
        packed_rows(src, 0, packed, packed, rows) == src.take(packed * rows),
{
    lemma_rows_without_gaps(src, packed, rows);
}

/// How a client describes a buffer in shared memory.
#[derive(Debug)]
pub struct ShmBuffer {
    /// The pixel format, where there is a fourcc for it.
    pub fourcc: Option<Fourcc>,
    /// What the client called the format.
    pub format: String,
    pub width: i32,
    pub height: i32,
    pub offset: i32,
    pub stride: i32,
}

/// Pixels taken out of shared memory, without padding.
#[derive(Debug)]
pub struct ShmPixels {
    pub fourcc: Fourcc,
    pub width: i32,
    pub height: i32,
    pub pixels: Vec<u8>,
}

/// A size or an offset that is not negative.
pub open spec fn at_least_zero(n: i32) -> int {
    if n < 0 {
        0
    } else {
        n as int
    }
}

fn clamp(n: i32) -> (clamped: usize)
    ensures
        clamped == at_least_zero(n),
{
    if n < 0 {
        0
    } else {
        n as usize
    }
}

impl ShmBuffer {
    /// Why the pixels cannot be taken out, or `None` where they can.
    pub open spec fn refusal(self, len: int) -> Option<Seq<char>> {
        if self.fourcc is None {
            Some("no fourcc for shm format "@ + self.format@)
        } else if self.width <= 0 || self.height <= 0 {
            Some("a zero-sized shm buffer"@)
        } else {
            repack_refusal(
                len,
                at_least_zero(self.offset),
                at_least_zero(self.stride),
                self.width as int,
                self.height as int,
            )
        }
    }

    /// Take the pixels out of shared memory.
    pub fn unpack(&self, bytes: &[u8]) -> (pixels: Result<ShmPixels, Error>)
        requires
            bytes@.len() <= isize::MAX,
            self.width * 4 <= usize::MAX,
            self.refusal(bytes@.len() as int) is None ==> self.width * 4 * self.height
                <= isize::MAX,
        ensures
            match pixels {
                Ok(pixels) => {
                    &&& self.refusal(bytes@.len() as int) is None
                    &&& Some(pixels.fourcc) == self.fourcc
                    &&& pixels.width == self.width
                    &&& pixels.height == self.height
                    &&& pixels.pixels@.len() == self.width * 4 * self.height
                    &&& pixels.pixels@ == packed_rows(
                        bytes@,
                        at_least_zero(self.offset),
                        at_least_zero(self.stride),
                        self.width * 4,
                        self.height as int,
                    )
                },
                Err(error) => error is Unsupported && self.refusal(bytes@.len() as int) == Some(
                    error.text(),
                ),
            },
    {
        let fourcc = match self.fourcc {
            Some(fourcc) => fourcc,
            None => {
                let mut text = String::new();
                text.append("no fourcc for shm format ");
                text.append(self.format.as_str());
                assert(text@ =~= "no fourcc for shm format "@ + self.format@);
                return Err(Error::Unsupported(text));
            },
        };
        if self.width <= 0 || self.height <= 0 {
            return Err(Error::Unsupported("a zero-sized shm buffer".to_owned()));
        }
        let packed = match repack(
            bytes,
            clamp(self.offset),
            clamp(self.stride),
            self.width as usize,
            self.height as usize,
        ) {
            Ok(packed) => packed,
            Err(error) => {
                return Err(error);
            },
        };
        proof {
            repacking_keeps_every_pixel(
                bytes@,
                at_least_zero(self.offset),
                at_least_zero(self.stride),
                self.width * 4,
                self.height as int,
                0,
                0,
            );
        }
        let pixels = match packed {
            Cow::Borrowed(slice) => vstd::slice::slice_to_vec(slice),
            Cow::Owned(pixels) => pixels,
        };
        Ok(ShmPixels { fourcc, width: self.width, height: self.height, pixels })
    }
}

impl VulkanTexture {
    /// Whether the texture has the shape of these pixels.
    pub open spec fn fits(self, pixels: ShmPixels) -> bool {
        &&& self.image.width == pixels.width
        &&& self.image.height == pixels.height
        &&& self.image.fourcc == pixels.fourcc
    }
}

/// How pixels get into a texture.
#[derive(Debug)]
pub enum ShmPlan {
    /// The texture at this place of the cache has the right shape: only what
    /// was damaged is uploaded, and nothing at all where nothing was.
    Update { index: usize, updates: Updates },
    /// A new texture has to be made, and kept in place of any other for the
    /// buffer.
    Create,
}

/// An image no side of which is negative as a signed number has bytes that can
/// be counted.
proof fn lemma_countable(width: u32, height: u32)
    by (nonlinear_arith)
    requires
        width <= i32::MAX,
        height <= i32::MAX,
    ensures
        width * 4 * height <= u64::MAX,
{
}

impl<G, R> VulkanRenderer<G, R> {
    /// Decide whether a buffer's texture can be updated in place, and how.
    ///
    /// Making a new image per commit would mean an allocation and a full upload
    /// every frame for every shm surface.
    pub fn import_shm_buffer(&self, id: u64, pixels: &ShmPixels, damage: &[Rectangle]) -> (plan:
        ShmPlan)
        requires
            self.is_valid(),
        ensures
            match plan {
                ShmPlan::Update { index, updates } => {
                    &&& index < self.shm.entries@.len()
                    &&& self.shm.kept(id) == Some(self.shm.entries@[index as int].value)
                    &&& self.shm.entries@[index as int].value.texture.fits(*pixels)
                    &&& updates.follow(
                        self.shm.entries@[index as int].value.texture,
                        pixels.pixels@.len() as int,
                        damage@,
                    )
                },
                ShmPlan::Create => !(self.shm.kept(id) matches Some(held) && held.texture.fits(
                    *pixels,
                )),
            },
    {
        match self.shm.find(id) {
            Some(index) => {
                let texture = &self.shm.entries[index].value.texture;
                if pixels.width >= 0 && pixels.height >= 0 && texture.width() == pixels.width as u32
                    && texture.height() == pixels.height as u32 && texture.image().fourcc()
                    == pixels.fourcc {
                    proof {
                        lemma_countable(texture.image.width, texture.image.height);
                    }
                    let updates = update_damage(texture, pixels.pixels.as_slice(), damage);
                    ShmPlan::Update { index, updates }
                } else {
                    ShmPlan::Create
                }
            },
            None => ShmPlan::Create,
        }
    }

    /// Keep the texture over an image that was made for a buffer in shared
    /// memory, in place of any other for the buffer.
    pub fn keep_shm_buffer(&mut self, id: u64, image: Arc<Image>, guard: G)
        ensures
            *final(self) == (VulkanRenderer { shm: final(self).shm, ..*old(self) }),
            final(self).shm.entries@ == without(old(self).shm.entries@, seq![id]).push(
                Entry {
                    key: id,
                    value: Held { texture: VulkanTexture::over_memory(image, false), guard },
                },
            ),
            old(self).is_valid() ==> final(self).is_valid(),
    {
        self.shm.replace(id, Held { texture: VulkanTexture::allocated(image, false), guard });
        proof {
            if old(self).is_valid() {
                lemma_without(old(self).shm.entries@, seq![id]);
                let rest = without(old(self).shm.entries@, seq![id]);
                assert forall|i: int| 0 <= i < self.shm.entries@.len() implies (
                #[trigger] self.shm.entries@[i]).value.is_memory() by {
                    if i < rest.len() {
                        assert(old(self).shm.entries@.contains(rest[i]));
                    }
                }
            }
        }
    }

    /// Forget the texture kept for a buffer.
    ///
    /// Called when the buffer is destroyed; without it the cache grows for the
    /// lifetime of the compositor.
    pub fn forget_shm_buffer(&mut self, id: u64)
        ensures
            *final(self) == (VulkanRenderer { shm: final(self).shm, ..*old(self) }),
            final(self).shm.entries@ == without(old(self).shm.entries@, seq![id]),
            final(self).shm.kept(id) is None,
            old(self).is_valid() ==> final(self).is_valid(),
    {
        let ids: Vec<u64> = vec![id];
        assert(ids@ =~= seq![id]);
        self.shm.forget(&ids);
        proof {
            assert(seq![id].contains(id)) by {
                assert(seq![id][0] == id);
            }
            nothing_outlives_its_buffer(old(self).shm.entries@, seq![id], id);
            if old(self).is_valid() {
                lemma_without(old(self).shm.entries@, seq![id]);
                assert forall|i: int| 0 <= i < self.shm.entries@.len() implies (
                #[trigger] self.shm.entries@[i]).value.is_memory() by {
                    assert(old(self).shm.entries@.contains(self.shm.entries@[i]));
                }
            }
        }
    }
}

/// An update in place is refused only for a region that has no area or does not
/// stay inside the texture: the pixels fit, so there are enough of them.
pub proof fn an_update_in_place_is_refused_only_by_its_region<G>(
    held: Held<G>,
    pixels: ShmPixels,
    region: Rectangle,
)
    requires
        held.is_memory(),
        held.texture.fits(pixels),
        pixels.pixels@.len() == pixels.width * 4 * pixels.height,
    ensures
        update_refusal(held.texture, pixels.pixels@.len() as int, region) is None <==> has_area(
            region,
        ) && stays_inside(region, held.texture.image.width, held.texture.image.height),
{
}

/// A surface that commits pixels of one shape again and again keeps its texture:
/// what was made for the buffer is what is found and what the pixels fit.
pub proof fn a_buffer_of_the_same_shape_is_updated_in_place<G>(
    before: BufferCache<Held<G>>,
    after: BufferCache<Held<G>>,
    id: u64,
    held: Held<G>,
    pixels: ShmPixels,
)
    requires
        before.is_valid(),
        after.entries@ == without(before.entries@, seq![id]).push(Entry { key: id, value: held }),
        held.texture.fits(pixels),
    ensures
        after.kept(id) == Some(held),
        after.kept(id) matches Some(found) && found.texture.fits(pixels),
{
    let rest = without(before.entries@, seq![id]);
    lemma_without_keeps_distinct(before.entries@, seq![id]);
    lemma_without(before.entries@, seq![id]);
    assert(seq![id].contains(id)) by {
        assert(seq![id][0] == id);
    }
    assert forall|a: int, b: int| 0 <= a < b < after.entries@.len() implies (
    #[trigger] after.entries@[a]).key != (#[trigger] after.entries@[b]).key by {
        if b < rest.len() {
            assert(rest[a].key != rest[b].key);
        } else {
            assert(!seq![id].contains(rest[a].key));
        }
    }
    lemma_present(after.entries@, rest.len() as int);
}

/// The rows of a buffer are read exactly where the last byte of the last of them
/// is inside it, wherever they start and however far apart they are.
pub proof fn rows_are_read_where_the_last_is_inside(
    len: int,
    offset: int,
    stride: int,
    width: int,
    height: int,
)
    requires
        0 <= len <= isize::MAX,
        0 <= offset,
        0 <= stride,
        0 <= width,
        0 < height,
    ensures
        repack_refusal(len, offset, stride, width, height) is None <==> offset + stride * (height
            - 1) + width * 4 <= len,
{
    assert(0 <= stride * (height - 1)) by (nonlinear_arith)
        requires
            0 <= stride,
            0 < height,
    ;
}

/// Pixels are taken out of shared memory exactly where their format is known, the
/// buffer has a size, and its rows are inside. A negative offset or stride counts
/// as zero.
pub proof fn pixels_are_taken_out_where_they_are(buffer: ShmBuffer, len: int)
    requires
        0 <= len <= isize::MAX,
    ensures
        ({
            let offset = if buffer.offset < 0 { 0 } else { buffer.offset as int };
            let stride = if buffer.stride < 0 { 0 } else { buffer.stride as int };
            buffer.refusal(len) is None <==> {
                &&& buffer.fourcc is Some
                &&& buffer.width > 0 && buffer.height > 0
                &&& offset + stride * (buffer.height - 1) + buffer.width * 4 <= len
            }
        }),
{
    if buffer.width > 0 && buffer.height > 0 {
        rows_are_read_where_the_last_is_inside(
            len,
            at_least_zero(buffer.offset),
            at_least_zero(buffer.stride),
            buffer.width as int,
            buffer.height as int,
        );
    }
}

/// A texture is used again only for pixels of its own size and format.
pub proof fn a_texture_fits_pixels_of_its_own_shape(texture: VulkanTexture, pixels: ShmPixels)
    ensures
        texture.fits(pixels) <==> texture.image.width == pixels.width && texture.image.height
            == pixels.height && texture.image.fourcc == pixels.fourcc,
{
}

} // verus!
