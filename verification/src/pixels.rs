//! Where pixels go.
//!
//! What is planned elsewhere are copies between buffers and images. Here is what
//! such a copy does to the pixels, and what follows for a client: what it wrote
//! is what is sampled, and what was written is what is read back.
use vstd::prelude::*;

use crate::format::Fourcc;
use crate::geometry::{Point, Rectangle};
use crate::image::Image;
use crate::renderer::{
    blit_commands, blit_refusal, corners_fit, download_commands, download_refusal, extent,
    packed_bytes, update, update_refusal, upload_commands, upload_refusal, upload_region, Download,
    Upload, VulkanTexture,
};
use crate::vulkan::{BufferImageCopy, Command, Filter, ImageBlit, ImageLayout};
use crate::wayland::{packed_rows, repack_refusal, repacking_keeps_every_pixel};

verus! {

impl BufferImageCopy {
    /// Pixels from one row of the buffer to the next.
    pub open spec fn pitch(self) -> int {
        if self.buffer_row_length == 0 {
            self.width as int
        } else {
            self.buffer_row_length as int
        }
    }

    /// Whether a pixel of the image is part of the copy.
    pub open spec fn covers(self, x: int, y: int) -> bool {
        &&& self.image_offset.x <= x < self.image_offset.x + self.width
        &&& self.image_offset.y <= y < self.image_offset.y + self.height
    }

    /// Where in the buffer a pixel of the image is kept, of four bytes each.
    pub open spec fn place(self, x: int, y: int) -> int {
        self.buffer_offset + 4 * ((y - self.image_offset.y) * self.pitch() + (x
            - self.image_offset.x))
    }

    /// The image after a copy out of a buffer. A pixel is four bytes.
    pub open spec fn filled(
        self,
        image: spec_fn(int, int) -> Seq<u8>,
        buffer: Seq<u8>,
    ) -> spec_fn(int, int) -> Seq<u8> {
        |x: int, y: int|
            if self.covers(x, y) {
                buffer.subrange(self.place(x, y), self.place(x, y) + 4)
            } else {
                image(x, y)
            }
    }

    /// Whether a buffer holds what a copy out of an image leaves there.
    pub open spec fn holds(self, buffer: Seq<u8>, image: spec_fn(int, int) -> Seq<u8>) -> bool {
        forall|x: int, y: int| #[trigger]
            self.covers(x, y) ==> buffer.subrange(self.place(x, y), self.place(x, y) + 4) == image(
                x,
                y,
            )
    }
}

/// One pixel of an image that is kept row after row, of four bytes each.
pub open spec fn pixel(bytes: Seq<u8>, width: int, x: int, y: int) -> Seq<u8> {
    bytes.subrange(4 * (y * width + x), 4 * (y * width + x) + 4)
}

/// Whether a pixel is inside a region, once what is negative is taken as zero.
pub open spec fn inside(region: Rectangle, x: int, y: int) -> bool {
    &&& extent(region.loc.x) <= x < extent(region.loc.x) + extent(region.size.w)
    &&& extent(region.loc.y) <= y < extent(region.loc.y) + extent(region.size.h)
}

/// The texture after an upload of `data` into `region`.
pub open spec fn uploaded(
    image: Image,
    region: Rectangle,
    data: Seq<u8>,
    before: spec_fn(int, int) -> Seq<u8>,
) -> spec_fn(int, int) -> Seq<u8> {
    upload_region(image, region).filled(
        before,
        data.take(packed_bytes(image.width, image.height)),
    )
}

/// A pixel inside an image lies inside its bytes.
proof fn lemma_pixel_inside(x: int, y: int, width: int, height: int)
    by (nonlinear_arith)
    requires
        0 <= x < width,
        0 <= y < height,
    ensures
        0 <= 4 * (y * width + x),
        4 * (y * width + x) + 4 <= width * 4 * height,
{
}

/// Where a row and a column start, added up from the corner of a region.
proof fn lemma_from_the_corner(x: int, y: int, left: int, top: int, width: int)
    by (nonlinear_arith)
    ensures
        top * (width * 4) + left * 4 + 4 * ((y - top) * width + (x - left)) == 4 * (y * width + x),
{
}

/// An upload replaces the pixels of its region by those the client keeps at the
/// same place, and leaves every other pixel alone.
pub proof fn an_upload_replaces_exactly_its_region(
    image: Image,
    region: Rectangle,
    data: Seq<u8>,
    before: spec_fn(int, int) -> Seq<u8>,
    x: int,
    y: int,
)
    requires
        packed_bytes(image.width, image.height) <= u64::MAX,
        upload_refusal(image, data.len() as int, region) is None,
    ensures
        uploaded(image, region, data, before)(x, y) == (if inside(region, x, y) {
            pixel(data, image.width as int, x, y)
        } else {
            before(x, y)
        }),
{
    let copy = upload_region(image, region);
    let left = extent(region.loc.x) as int;
    let top = extent(region.loc.y) as int;
    let width = image.width as int;
    let needed = packed_bytes(image.width, image.height);
    assert(copy.covers(x, y) <==> inside(region, x, y));
    if inside(region, x, y) {
        lemma_pixel_inside(left, top, width, image.height as int);
        lemma_from_the_corner(left, top, left, top, width);
        lemma_pixel_inside(x, y, width, image.height as int);
        lemma_from_the_corner(x, y, left, top, width);
        assert(copy.place(x, y) == 4 * (y * width + x));
        assert(data.take(needed).subrange(copy.place(x, y), copy.place(x, y) + 4) =~= pixel(
            data,
            width,
            x,
            y,
        ));
    }
}

/// The texture after its damaged regions were uploaded one after the other.
pub open spec fn updated(
    image: Image,
    damage: Seq<Rectangle>,
    data: Seq<u8>,
    before: spec_fn(int, int) -> Seq<u8>,
) -> spec_fn(int, int) -> Seq<u8>
    decreases damage.len(),
{
    if damage.len() == 0 {
        before
    } else {
        uploaded(image, damage.last(), data, updated(image, damage.drop_last(), data, before))
    }
}

/// An update in place replaces what was damaged by what the client has there
/// now, and nothing else. Without damage, nothing changes.
pub proof fn an_update_replaces_exactly_the_damage(
    image: Image,
    damage: Seq<Rectangle>,
    data: Seq<u8>,
    before: spec_fn(int, int) -> Seq<u8>,
    x: int,
    y: int,
)
    requires
        packed_bytes(image.width, image.height) <= u64::MAX,
        forall|i: int|
            0 <= i < damage.len() ==> upload_refusal(
                image,
                data.len() as int,
                #[trigger] damage[i],
            ) is None,
    ensures
        updated(image, damage, data, before)(x, y) == (if exists|i: int|
            0 <= i < damage.len() && inside(#[trigger] damage[i], x, y) {
            pixel(data, image.width as int, x, y)
        } else {
            before(x, y)
        }),
        damage.len() == 0 ==> updated(image, damage, data, before) == before,
    decreases damage.len(),
{
    if damage.len() > 0 {
        let rest = damage.drop_last();
        let last = damage.len() - 1;
        assert forall|i: int| 0 <= i < rest.len() implies upload_refusal(
            image,
            data.len() as int,
            #[trigger] rest[i],
        ) is None by {
            assert(rest[i] == damage[i]);
        }
        an_update_replaces_exactly_the_damage(image, rest, data, before, x, y);
        an_upload_replaces_exactly_its_region(
            image,
            damage.last(),
            data,
            updated(image, rest, data, before),
            x,
            y,
        );
        if exists|i: int| 0 <= i < rest.len() && inside(#[trigger] rest[i], x, y) {
            let i = choose|i: int| 0 <= i < rest.len() && inside(#[trigger] rest[i], x, y);
            assert(inside(damage[i], x, y));
        }
        if exists|i: int| 0 <= i < damage.len() && inside(#[trigger] damage[i], x, y) {
            let i = choose|i: int| 0 <= i < damage.len() && inside(#[trigger] damage[i], x, y);
            if i < last {
                assert(inside(rest[i], x, y));
            }
        }
    }
}

/// What is read back is what was written: a pixel that an upload replaced is
/// found, at its place in the region that is read, with the bytes the client
/// gave it. `x` and `y` count from the corner of what is read.
pub proof fn a_read_back_gives_what_was_uploaded(
    image: Image,
    written: Rectangle,
    data: Seq<u8>,
    before: spec_fn(int, int) -> Seq<u8>,
    read: Rectangle,
    layout: ImageLayout,
    download: Download,
    mapped: Seq<u8>,
    x: int,
    y: int,
)
    requires
        packed_bytes(image.width, image.height) <= u64::MAX,
        upload_refusal(image, data.len() as int, written) is None,
        download_refusal(image, read, image.fourcc) is None,
        download.reads(image, read, layout),
        download.region.holds(mapped, uploaded(image, written, data, before)),
        0 <= x < download.mapping.width,
        0 <= y < download.mapping.height,
        inside(written, extent(read.loc.x) + x, extent(read.loc.y) + y),
    ensures
        pixel(mapped, download.mapping.width as int, x, y) == pixel(
            data,
            image.width as int,
            extent(read.loc.x) + x,
            extent(read.loc.y) + y,
        ),
{
    let column = extent(read.loc.x) + x;
    let row = extent(read.loc.y) + y;
    assert(download.region.covers(column, row));
    assert(download.region.place(column, row) == 4 * (y * download.mapping.width + x));
    an_upload_replaces_exactly_its_region(image, written, data, before, column, row);
}

/// A read-back fills its mapping: every pixel of the region that is read has four
/// bytes of its own there, and together they are all of it.
pub proof fn a_read_back_fills_its_mapping(
    image: Image,
    read: Rectangle,
    layout: ImageLayout,
    download: Download,
    byte: int,
)
    requires
        download_refusal(image, read, image.fourcc) is None,
        download.reads(image, read, layout),
        0 <= byte < download.mapping.len,
    ensures
        ({
            let width = download.mapping.width as int;
            let x = byte / 4 % width;
            let y = byte / 4 / width;
            &&& 0 <= x < width
            &&& 0 <= y < download.mapping.height
            &&& download.region.covers(extent(read.loc.x) + x, extent(read.loc.y) + y)
            &&& download.region.place(extent(read.loc.x) + x, extent(read.loc.y) + y) == byte - byte
                % 4
        }),
{
    let width = download.mapping.width as int;
    let height = download.mapping.height as int;
    let index = byte / 4;
    lemma_row_and_column(index, width, height, byte);
}

/// A pixel counted row after row, as its row and its column.
proof fn lemma_row_and_column(index: int, width: int, height: int, byte: int)
    by (nonlinear_arith)
    requires
        0 < width,
        0 < height,
        0 <= byte < width * 4 * height,
        index == byte / 4,
    ensures
        0 <= index % width < width,
        0 <= index / width < height,
        (index / width) * width + index % width == index,
{
    assert(index < width * height);
    assert(index / width * width + index % width == index);
    if index / width >= height {
        assert(index / width * width >= height * width);
    }
}

/// A texture that is filled and then read back whole comes out as it went in.
pub proof fn a_whole_texture_reads_back_as_it_was_written(
    image: Image,
    whole: Rectangle,
    data: Seq<u8>,
    before: spec_fn(int, int) -> Seq<u8>,
    layout: ImageLayout,
    download: Download,
    mapped: Seq<u8>,
)
    requires
        whole.loc == (Point { x: 0, y: 0 }),
        whole.size.w == image.width,
        whole.size.h == image.height,
        packed_bytes(image.width, image.height) <= u64::MAX,
        upload_refusal(image, data.len() as int, whole) is None,
        download_refusal(image, whole, image.fourcc) is None,
        download.reads(image, whole, layout),
        download.region.holds(mapped, uploaded(image, whole, data, before)),
        mapped.len() == download.mapping.len,
    ensures
        mapped == data.take(packed_bytes(image.width, image.height)),
{
    let width = image.width as int;
    let needed = packed_bytes(image.width, image.height);
    assert forall|byte: int| 0 <= byte < needed implies mapped[byte] == data[byte] by {
        let x = byte / 4 % width;
        let y = byte / 4 / width;
        a_read_back_fills_its_mapping(image, whole, layout, download, byte);
        a_read_back_gives_what_was_uploaded(
            image,
            whole,
            data,
            before,
            whole,
            layout,
            download,
            mapped,
            x,
            y,
        );
        lemma_pixel_inside(x, y, width, image.height as int);
        let start = byte - byte % 4;
        assert(start == 4 * (y * width + x));
        assert(pixel(mapped, width, x, y)[byte - start] == mapped[byte]);
        assert(pixel(data, width, x, y)[byte - start] == data[byte]);
    }
    assert(mapped =~= data.take(needed));
}

/// What a client wrote is what is sampled: a pixel of a buffer in shared memory,
/// wherever its rows start and however they are padded, is the pixel of the
/// texture in the same row and column.
pub proof fn a_client_pixel_is_sampled_where_it_was_written(
    image: Image,
    whole: Rectangle,
    src: Seq<u8>,
    offset: int,
    stride: int,
    before: spec_fn(int, int) -> Seq<u8>,
    x: int,
    y: int,
)
    requires
        whole.loc == (Point { x: 0, y: 0 }),
        whole.size.w == image.width,
        whole.size.h == image.height,
        packed_bytes(image.width, image.height) <= u64::MAX,
        0 <= offset,
        0 <= stride,
        src.len() <= isize::MAX,
        repack_refusal(
            src.len() as int,
            offset,
            stride,
            image.width as int,
            image.height as int,
        ) is None,
        0 <= x < image.width,
        0 <= y < image.height,
    ensures
        ({
            let packed = packed_rows(src, offset, stride, image.width * 4, image.height as int);
            &&& upload_refusal(image, packed.len() as int, whole) is None
            &&& uploaded(image, whole, packed, before)(x, y) == src.subrange(
                offset + y * stride + 4 * x,
                offset + y * stride + 4 * x + 4,
            )
        }),
{
    let width = image.width as int;
    let rows = image.height as int;
    let packed = packed_rows(src, offset, stride, width * 4, rows);
    repacking_keeps_every_pixel(src, offset, stride, width * 4, rows, y, 4 * x);
    an_upload_replaces_exactly_its_region(image, whole, packed, before, x, y);
    lemma_pixel_inside(x, y, width, rows);
    lemma_padded_row(y, stride, rows, width, x);
    let found = pixel(packed, width, x, y);
    let written = src.subrange(offset + y * stride + 4 * x, offset + y * stride + 4 * x + 4);
    assert forall|k: int| 0 <= k < 4 implies found[k] == written[k] by {
        repacking_keeps_every_pixel(src, offset, stride, width * 4, rows, y, 4 * x + k);
    }
    assert(found =~= written);
}

/// A row of pixels inside a padded row.
proof fn lemma_padded_row(y: int, stride: int, rows: int, width: int, x: int)
    by (nonlinear_arith)
    requires
        0 <= y < rows,
        0 <= stride,
        0 <= x < width,
    ensures
        0 <= y * stride <= stride * (rows - 1),
        y * (width * 4) == 4 * (y * width),
{
}

impl ImageBlit {
    /// Whether a pixel of the target is filled: it lies between the two corners,
    /// whichever comes first.
    pub open spec fn fills(self, x: int, y: int) -> bool {
        &&& self.dst_from.x <= x < self.dst_to.x || self.dst_to.x <= x < self.dst_from.x
        &&& self.dst_from.y <= y < self.dst_to.y || self.dst_to.y <= y < self.dst_from.y
    }

    /// Where a pixel of the target is read: as far from the first corner of the
    /// source to the second as the middle of the pixel is between those of the
    /// target. Numerators, over [`ImageBlit::over`].
    pub open spec fn reads(self, x: int, y: int) -> (int, int) {
        (
            self.src_from.x * self.over().0 + (2 * (x - self.dst_from.x) + 1) * (self.src_to.x
                - self.src_from.x),
            self.src_from.y * self.over().1 + (2 * (y - self.dst_from.y) + 1) * (self.src_to.y
                - self.src_from.y),
        )
    }

    /// What the numerators of [`ImageBlit::reads`] are over.
    pub open spec fn over(self) -> (int, int) {
        (2 * (self.dst_to.x - self.dst_from.x), 2 * (self.dst_to.y - self.dst_from.y))
    }
}

/// A blit copies `src` of the source over `dst` of the target, scaled and the
/// same way round. It fills the pixels of `dst` and no other; each of them is
/// read at the place in `src` that the middle of the pixel has in `dst`, counted
/// from the same corner. Pixels move once, from the source to the target and
/// through the filter that was asked for, and nothing else in the recording
/// touches a pixel.
pub proof fn a_blit_fills_its_destination_from_its_source(
    source: u64,
    target: u64,
    src: Rectangle,
    dst: Rectangle,
    filter: Filter,
    x: int,
    y: int,
)
    requires
        corners_fit(src),
        corners_fit(dst),
    ensures
        ({
            let commands = blit_commands(source, target, src, dst, filter);
            &&& exists|i: int| 0 <= i < commands.len() && (#[trigger] commands[i]) is BlitImage
            &&& forall|i: int, j: int|
                0 <= i < commands.len() && 0 <= j < commands.len() && (#[trigger] commands[i])
                    is BlitImage && (#[trigger] commands[j]) is BlitImage ==> i == j
            &&& forall|i: int|
                0 <= i < commands.len() ==> match #[trigger] commands[i] {
                    Command::Barriers { first, second, .. } => !(first.old_layout is Undefined)
                        && !(second.old_layout is Undefined),
                    Command::BlitImage { source: s, target: t, region, filter: f, .. } => {
                        &&& s == source
                        &&& t == target
                        &&& f == filter
                        &&& (region.src_from.x, region.src_from.y) == (src.loc.x, src.loc.y)
                        &&& region.src_to.x == src.loc.x + src.size.w
                        &&& region.src_to.y == src.loc.y + src.size.h
                        &&& (region.dst_from.x, region.dst_from.y) == (dst.loc.x, dst.loc.y)
                        &&& region.dst_to.x == dst.loc.x + dst.size.w
                        &&& region.dst_to.y == dst.loc.y + dst.size.h
                        &&& dst.size.w >= 0 && dst.size.h >= 0 ==> (region.fills(x, y) <==> (
                        dst.loc.x <= x < dst.loc.x + dst.size.w && dst.loc.y <= y < dst.loc.y
                            + dst.size.h))
                        &&& region.over() == (2 * dst.size.w, 2 * dst.size.h)
                        &&& region.reads(x, y) == (
                            src.loc.x * (2 * dst.size.w) + (2 * (x - dst.loc.x) + 1) * src.size.w,
                            src.loc.y * (2 * dst.size.h) + (2 * (y - dst.loc.y) + 1) * src.size.h,
                        )
                    },
                    _ => false,
                }
        }),
{
    let commands = blit_commands(source, target, src, dst, filter);
    assert(commands[1] is BlitImage);
}

/// A blit that neither scales nor moves copies every pixel to its own place: the
/// middle of the pixel is read at the middle of the same pixel.
pub proof fn a_blit_onto_the_same_place_keeps_every_pixel(
    source: u64,
    target: u64,
    rect: Rectangle,
    filter: Filter,
    x: int,
    y: int,
)
    requires
        corners_fit(rect),
    ensures
        blit_commands(source, target, rect, rect, filter)[1] matches Command::BlitImage {
            region,
            ..
        } && region.reads(x, y) == ((2 * x + 1) * rect.size.w, (2 * y + 1) * rect.size.h)
            && region.over() == (2 * rect.size.w, 2 * rect.size.h),
{
    lemma_same_place(rect.loc.x as int, rect.size.w as int, x);
    lemma_same_place(rect.loc.y as int, rect.size.h as int, y);
}

proof fn lemma_same_place(start: int, length: int, x: int)
    by (nonlinear_arith)
    ensures
        start * (2 * length) + (2 * (x - start) + 1) * length == (2 * x + 1) * length,
{
}

/// An upload moves pixels once: out of the staging buffer and into its image, as
/// it was planned. What the copy wrote is there for whoever samples the image
/// after it.
pub proof fn an_upload_is_carried_out_as_planned(upload: Upload, staging: u64)
    ensures
        ({
            let commands = upload_commands(upload, staging);
            &&& commands.len() == 3
            &&& commands[0] matches Command::Barrier { dst, barrier, .. } && dst is Transfer
                && barrier.dst_access is TransferWrite && barrier.image == upload.image
                && barrier.old_layout == upload.from_layout
            &&& commands[1] matches Command::CopyBufferToImage { buffer, image, region, .. }
                && buffer == staging && image == upload.image && region == upload.region
            &&& commands[2] matches Command::Barrier { src, dst, barrier } && src is Transfer && dst
                is FragmentShader && barrier.src_access is TransferWrite && barrier.dst_access
                is ShaderRead && barrier.image == upload.image && !(barrier.old_layout
                is Undefined)
        }),
{
}

/// A read-back moves pixels once: out of its image and into the buffer, as it was
/// planned, and loses none of the image's.
pub proof fn a_read_back_is_carried_out_as_planned(download: Download, into: u64)
    ensures
        ({
            let commands = download_commands(download, into);
            &&& commands.len() == 3
            &&& commands[0] matches Command::Barrier { dst, barrier, .. } && dst is Transfer
                && barrier.dst_access is TransferRead && barrier.image == download.image
                && barrier.old_layout == download.from_layout
            &&& commands[1] matches Command::CopyImageToBuffer { image, buffer, region, .. }
                && buffer == into && image == download.image && region == download.region
            &&& commands[2] matches Command::Barrier { src, barrier, .. } && src is Transfer
                && barrier.src_access is TransferRead && barrier.image == download.image
                && !(barrier.old_layout is Undefined) && barrier.new_layout
                == download.from_layout
        }),
{
}

/// A blit waits for nothing it does not use and lets go of nothing it still
/// uses: what it reads and what it writes are each claimed before it and given
/// up after it.
pub proof fn a_blit_claims_both_images(
    source: u64,
    target: u64,
    src: Rectangle,
    dst: Rectangle,
    filter: Filter,
)
    ensures
        ({
            let commands = blit_commands(source, target, src, dst, filter);
            &&& commands.len() == 3
            &&& commands[0] matches Command::Barriers { dst: to, first, second, .. } && to
                is Transfer && first.image == source && first.dst_access is TransferRead
                && second.image == target && second.dst_access is TransferWrite
            &&& commands[2] matches Command::Barriers { src: from, first, second, .. } && from
                is Transfer && first.image == source && first.src_access is TransferRead
                && second.image == target && second.src_access is TransferWrite
        }),
{
}

/// Pixels are copied in exactly where they are asked for inside the image and
/// there are enough of them: four bytes for every pixel of the image. A corner
/// that is negative is taken as zero.
pub proof fn an_upload_is_refused_only_for_its_region_or_its_length(
    image: Image,
    len: int,
    region: Rectangle,
)
    ensures
        upload_refusal(image, len, region) is None <==> {
            &&& region.size.w > 0 && region.size.h > 0
            &&& (if region.loc.x > 0 { region.loc.x as int } else { 0 }) + region.size.w
                <= image.width
            &&& (if region.loc.y > 0 { region.loc.y as int } else { 0 }) + region.size.h
                <= image.height
            &&& len >= image.width * 4 * image.height
        },
{
}

/// A texture is updated exactly where the renderer allocated it and the pixels
/// can be copied in. The update is the copy into that texture, which is ready to
/// be sampled before and keeps what is outside the region.
pub proof fn an_update_is_an_upload_into_its_own_texture(
    texture: VulkanTexture,
    len: int,
    region: Rectangle,
)
    requires
        packed_bytes(texture.image.width, texture.image.height) <= u64::MAX,
    ensures
        update_refusal(texture, len, region) is None <==> texture.uploadable && upload_refusal(
            *texture.image,
            len,
            region,
        ) is None,
        update(texture, region).image == texture.image.image,
        update(texture, region).from_layout is ShaderReadOnlyOptimal,
        update(texture, region).needed == texture.image.width * 4 * texture.image.height,
        update(texture, region).region == upload_region(*texture.image, region),
{
}

/// A region is read back exactly where its image can be copied from, it is asked
/// for in the image's own format, and it lies inside.
pub proof fn a_read_back_is_refused_only_for_what_it_asks(
    image: Image,
    region: Rectangle,
    format: Fourcc,
)
    ensures
        download_refusal(image, region, format) is None <==> {
            &&& image.usage.transfer_src
            &&& format == image.fourcc
            &&& region.size.w > 0 && region.size.h > 0
            &&& (if region.loc.x > 0 { region.loc.x as int } else { 0 }) + region.size.w
                <= image.width
            &&& (if region.loc.y > 0 { region.loc.y as int } else { 0 }) + region.size.h
                <= image.height
        },
{
}

/// A read-back is of the region that was asked for, of the image that was asked
/// for: a pixel of the image is part of it exactly where it lies in the region,
/// and the mapping is as large as the region and packed without gaps.
pub proof fn a_read_back_is_of_its_region(
    image: Image,
    region: Rectangle,
    layout: ImageLayout,
    download: Download,
    x: int,
    y: int,
)
    requires
        download_refusal(image, region, image.fourcc) is None,
        download.reads(image, region, layout),
    ensures
        download.image == image.image,
        download.from_layout == layout,
        download.region.covers(x, y) <==> inside(region, x, y),
        download.region.pitch() == region.size.w,
        download.region.buffer_offset == 0,
        download.mapping.width == region.size.w,
        download.mapping.height == region.size.h,
        download.mapping.fourcc == image.fourcc,
        download.mapping.len == 4 * (region.size.w * region.size.h),
{
    let w = region.size.w as int;
    let h = region.size.h as int;
    assert(w * 4 * h == 4 * (w * h)) by (nonlinear_arith);
}

/// One framebuffer is copied into another exactly where they are two images, the
/// first can be copied from and the second into.
pub proof fn a_blit_is_refused_only_for_its_images(source: Image, target: Image)
    ensures
        blit_refusal(source, target) is None <==> {
            &&& source.image != target.image
            &&& source.usage.transfer_src
            &&& target.usage.transfer_dst
        },
{
}

} // verus!
