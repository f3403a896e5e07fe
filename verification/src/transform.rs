//! Where rectangles of the desktop land in a framebuffer, and which corner of a
//! texture each corner of a quad samples.
//!
//! The vertex shader draws a unit quad and knows nothing else: one map takes a
//! corner to clip space, the other takes the same corner to a texture
//! coordinate. Everything about rotation, flipping, source rectangles and output
//! size is resolved here, in exact numbers.
use vstd::prelude::*;

use crate::geometry::{saturate, saturated, Point, Rectangle, Size, Transform};

verus! {

/// The framebuffer pixel that a point of the desktop lands on.
///
/// `output_size` is the framebuffer. The point is in the space after the
/// transform: a framebuffer on a display turned by a quarter holds a desktop
/// with the two extents exchanged.
///
/// `Flipped90` and `Flipped270` are a transpose and a half turn, which is where
/// this differs from `Transform::placed`.
pub open spec fn pixel(x: int, y: int, output_size: Size, transform: Transform) -> (int, int) {
    let w = output_size.w as int;
    let h = output_size.h as int;
    match transform {
        Transform::Normal => (x, y),
        Transform::_90 => (w - y, x),
        Transform::_180 => (w - x, h - y),
        Transform::_270 => (y, h - x),
        Transform::Flipped => (w - x, y),
        Transform::Flipped90 => (w - y, h - x),
        Transform::Flipped180 => (x, h - y),
        Transform::Flipped270 => (y, x),
    }
}

/// The lesser of two coordinates.
pub open spec fn least(a: int, b: int) -> int {
    if a <= b { a } else { b }
}

/// The distance between two coordinates.
pub open spec fn distance(a: int, b: int) -> int {
    if a <= b { b - a } else { a - b }
}

/// The framebuffer rectangle between the images of two opposite corners.
///
/// A framebuffer without an extent has no pixels to name: the rectangle is empty
/// at the origin there.
pub open spec fn landed(rect: Rectangle, output_size: Size, transform: Transform) -> Rectangle {
    let p = pixel(rect.loc.x as int, rect.loc.y as int, output_size, transform);
    let q = pixel(
        rect.loc.x + rect.size.w,
        rect.loc.y + rect.size.h,
        output_size,
        transform,
    );
    if output_size.w == 0 || output_size.h == 0 {
        Rectangle { loc: Point { x: 0, y: 0 }, size: Size { w: 0, h: 0 } }
    } else {
        Rectangle {
            loc: Point {
                x: saturated(least(p.0, q.0)) as i32,
                y: saturated(least(p.1, q.1)) as i32,
            },
            size: Size {
                w: saturated(distance(p.0, q.0)) as i32,
                h: saturated(distance(p.1, q.1)) as i32,
            },
        }
    }
}

/// The framebuffer pixel that a point of the desktop lands on.
fn place(x: i64, y: i64, output_size: Size, transform: Transform) -> (at: (i64, i64))
    requires
        -0x1_0000_0000 <= x <= 0x1_0000_0000,
        -0x1_0000_0000 <= y <= 0x1_0000_0000,
    ensures
        (at.0 as int, at.1 as int) == pixel(x as int, y as int, output_size, transform),
        -0x2_0000_0000 <= at.0 <= 0x2_0000_0000,
        -0x2_0000_0000 <= at.1 <= 0x2_0000_0000,
{
    let w: i64 = output_size.w as i64;
    let h: i64 = output_size.h as i64;
    match transform {
        Transform::Normal => (x, y),
        Transform::_90 => (w - y, x),
        Transform::_180 => (w - x, h - y),
        Transform::_270 => (y, h - x),
        Transform::Flipped => (w - x, y),
        Transform::Flipped90 => (w - y, h - x),
        Transform::Flipped180 => (x, h - y),
        Transform::Flipped270 => (y, x),
    }
}

/// Where a rectangle of the desktop lands in the framebuffer.
///
/// The scissor is in framebuffer pixels, and everything else is in the space
/// the transform produced, so this is the one place that has to go back the
/// other way. Two opposite corners are enough: every transform is axis-aligned,
/// so the image of a rectangle is a rectangle.
pub fn framebuffer_rect(rect: Rectangle, output_size: Size, transform: Transform) -> (scissor:
    Rectangle)
    requires
        rect.loc.x + rect.size.w <= i32::MAX,
        rect.loc.y + rect.size.h <= i32::MAX,
        rect.size.is_valid(),
        output_size.is_valid(),
    ensures
        scissor == landed(rect, output_size, transform),
{
    if output_size.w == 0 || output_size.h == 0 {
        return Rectangle { loc: Point { x: 0, y: 0 }, size: Size { w: 0, h: 0 } };
    }
    let (x0, y0) = place(rect.loc.x as i64, rect.loc.y as i64, output_size, transform);
    let (x1, y1) = place(
        rect.loc.x as i64 + rect.size.w as i64,
        rect.loc.y as i64 + rect.size.h as i64,
        output_size,
        transform,
    );
    let x: i32 = saturate(if x0 <= x1 { x0 } else { x1 });
    let y: i32 = saturate(if y0 <= y1 { y0 } else { y1 });
    let w: i32 = saturate(if x0 <= x1 { x1 - x0 } else { x0 - x1 });
    let h: i32 = saturate(if y0 <= y1 { y1 - y0 } else { y0 - y1 });
    Rectangle { loc: Point { x, y }, size: Size { w, h } }
}

/// A pair of numerators, one for each axis.
#[derive(Debug, Clone, Copy, PartialEq, Eq, Structural)]
pub struct Vector {
    pub x: i64,
    pub y: i64,
}

/// An affine map from the unit square to somewhere, in exact numbers.
///
/// The image of a point is `right * u + down * v + origin` on each axis. All six
/// numbers are numerators: horizontally over `width`, vertically over `height`.
/// In a map to clip space these are the extents of the framebuffer, so that clip
/// space runs from minus the extent to the extent.
#[derive(Debug, Clone, Copy, PartialEq, Eq, Structural)]
pub struct Affine {
    /// The image of (1, 0), relative to the origin.
    pub right: Vector,
    /// The image of (0, 1), relative to the origin.
    pub down: Vector,
    /// The image of (0, 0).
    pub origin: Vector,
    pub width: i32,
    pub height: i32,
}

impl Affine {
    /// The image of a point of the unit square, as numerators.
    pub open spec fn image(self, u: int, v: int) -> (int, int) {
        (
            self.right.x * u + self.down.x * v + self.origin.x,
            self.right.y * u + self.down.y * v + self.origin.y,
        )
    }

    /// The image of the point `u / q`, `v / q`, as numerators over `q` times
    /// `width` and `q` times `height`.
    pub open spec fn spread(self, u: int, v: int, q: int) -> (int, int) {
        (
            self.right.x * u + self.down.x * v + self.origin.x * q,
            self.right.y * u + self.down.y * v + self.origin.y * q,
        )
    }

    /// The image of a corner of the unit square, as numerators over `width` and
    /// `height`.
    pub fn apply(&self, u: bool, v: bool) -> (image: (i64, i64))
        requires
            self.is_bounded(),
        ensures
            (image.0 as int, image.1 as int) == self.image(
                if u { 1 } else { 0 },
                if v { 1 } else { 0 },
            ),
    {
        let mut x: i64 = self.origin.x;
        let mut y: i64 = self.origin.y;
        if u {
            x = x + self.right.x;
            y = y + self.right.y;
        }
        if v {
            x = x + self.down.x;
            y = y + self.down.y;
        }
        (x, y)
    }

    /// Every coefficient stays far inside the range of its type.
    pub open spec fn is_bounded(self) -> bool {
        &&& bounded(self.right.x as int) && bounded(self.right.y as int)
        &&& bounded(self.down.x as int) && bounded(self.down.y as int)
        &&& bounded(self.origin.x as int) && bounded(self.origin.y as int)
    }
}

/// A bound on the numbers in an [`Affine`].
pub open spec fn bounded(n: int) -> bool {
    -0x10_0000_0000 <= n <= 0x10_0000_0000
}

/// A framebuffer pixel in clip space, as numerators over the framebuffer's
/// extents.
pub open spec fn clip(x: int, y: int, output_size: Size, transform: Transform) -> (int, int) {
    let p = pixel(x, y, output_size, transform);
    (2 * p.0 - output_size.w, 2 * p.1 - output_size.h)
}

/// The map from a unit quad to clip space, for a rectangle of the desktop.
pub open spec fn placement(dst: Rectangle, output_size: Size, transform: Transform) -> Affine {
    let origin = clip(dst.loc.x as int, dst.loc.y as int, output_size, transform);
    let right = clip(dst.loc.x + dst.size.w, dst.loc.y as int, output_size, transform);
    let down = clip(dst.loc.x as int, dst.loc.y + dst.size.h, output_size, transform);
    Affine {
        right: Vector { x: (right.0 - origin.0) as i64, y: (right.1 - origin.1) as i64 },
        down: Vector { x: (down.0 - origin.0) as i64, y: (down.1 - origin.1) as i64 },
        origin: Vector { x: origin.0 as i64, y: origin.1 as i64 },
        width: output_size.w,
        height: output_size.h,
    }
}

/// The map from a unit quad to clip space, for a rectangle of the desktop.
///
/// `output_size` is the framebuffer, and `dst` is in the space after the
/// transform. The two differ whenever the transform swaps axes.
pub fn position(dst: Rectangle, output_size: Size, transform: Transform) -> (map: Affine)
    ensures
        map == placement(dst, output_size, transform),
        map.is_bounded(),
{
    let left: i64 = dst.loc.x as i64;
    let top: i64 = dst.loc.y as i64;
    let origin = place(left, top, output_size, transform);
    let right = place(left + dst.size.w as i64, top, output_size, transform);
    let down = place(left, top + dst.size.h as i64, output_size, transform);
    Affine {
        right: Vector { x: 2 * (right.0 - origin.0), y: 2 * (right.1 - origin.1) },
        down: Vector { x: 2 * (down.0 - origin.0), y: 2 * (down.1 - origin.1) },
        origin: Vector {
            x: 2 * origin.0 - output_size.w as i64,
            y: 2 * origin.1 - output_size.h as i64,
        },
        width: output_size.w,
        height: output_size.h,
    }
}

/// A quad is drawn where its rectangle is: each of its corners goes to the
/// corner of the rectangle, in clip space.
pub proof fn a_quad_is_drawn_where_its_rectangle_is(
    dst: Rectangle,
    output_size: Size,
    transform: Transform,
    u: bool,
    v: bool,
)
    ensures
        placement(dst, output_size, transform).image(
            far(u, 1),
            far(v, 1),
        ) == clip(
            dst.loc.x + far(u, dst.size.w as int),
            dst.loc.y + far(v, dst.size.h as int),
            output_size,
            transform,
        ),
        placement(dst, output_size, transform).width == output_size.w,
        placement(dst, output_size, transform).height == output_size.h,
{
}

/// Which corner of its source a corner of a textured quad samples.
pub open spec fn sampled(u: int, v: int, transform: Transform, flipped: bool) -> (int, int) {
    transform.inverse().placed(u, if flipped { 1 - v } else { v }, 1, 1)
}

/// Which corner of its source a corner of a textured quad samples: zero for the
/// near side on that axis, one for the far side.
///
/// `transform` is the surface's buffer transform, and is applied inverted: it
/// says how the buffer is oriented relative to the surface, and this goes the
/// other way. `flipped` is the separate notion of a buffer whose rows run
/// bottom-up.
pub fn texture_corner(u: bool, v: bool, transform: Transform, flipped: bool) -> (corner: Point)
    ensures
        (corner.x as int, corner.y as int) == sampled(
            if u { 1 } else { 0 },
            if v { 1 } else { 0 },
            transform,
            flipped,
        ),
        corner.x == 0 || corner.x == 1,
        corner.y == 0 || corner.y == 1,
{
    let x: i32 = if u { 1 } else { 0 };
    let y: i32 = if v != flipped { 1 } else { 0 };
    transform.invert().transform_point_in(Point { x, y }, Size { w: 1, h: 1 })
}

/// A rectangle of a texture, in pixels, that may start and end between two of
/// them: each number by the bits of its double-precision form.
#[derive(Debug, Clone, Copy, PartialEq, Eq, Structural)]
pub struct Source {
    pub x: u64,
    pub y: u64,
    pub w: u64,
    pub h: u64,
}

/// The map from a unit quad to normalised texture coordinates, in exact numbers.
#[derive(Debug, Clone, Copy, PartialEq, Eq, Structural)]
pub struct Sampling {
    pub source: Source,
    /// The extent of the texture, in pixels.
    pub width: u32,
    pub height: u32,
    /// Which part of the source a point of the quad samples: the map to the unit
    /// square over it.
    pub part: Affine,
}

impl Sampling {
    /// The texture coordinate of the point `u / q`, `v / q` of the quad.
    ///
    /// `read` says what the numbers of the source are, in any fraction of a
    /// pixel that makes them whole. The result is in the same fraction, over `q`
    /// times the width and `q` times the height of the texture.
    pub open spec fn coordinate(self, read: spec_fn(u64) -> int, u: int, v: int, q: int) -> (
        int,
        int,
    ) {
        let part = self.part.spread(u, v, q);
        (
            read(self.source.x) * q + part.0 * read(self.source.w),
            read(self.source.y) * q + part.1 * read(self.source.h),
        )
    }
}

/// The map from a unit quad to normalised texture coordinates.
pub open spec fn sampling(
    source: Source,
    width: u32,
    height: u32,
    transform: Transform,
    flipped: bool,
) -> Sampling {
    let origin = sampled(0, 0, transform, flipped);
    let right = sampled(1, 0, transform, flipped);
    let down = sampled(0, 1, transform, flipped);
    Sampling {
        source,
        width,
        height,
        part: Affine {
            right: Vector { x: (right.0 - origin.0) as i64, y: (right.1 - origin.1) as i64 },
            down: Vector { x: (down.0 - origin.0) as i64, y: (down.1 - origin.1) as i64 },
            origin: Vector { x: origin.0 as i64, y: origin.1 as i64 },
            width: 1,
            height: 1,
        },
    }
}

/// The map from a unit quad to normalised texture coordinates.
///
/// `source` is the part of the texture to sample, and the rest is as for
/// [`texture_corner`].
pub fn texture(source: Source, width: u32, height: u32, transform: Transform, flipped: bool) -> (map:
    Sampling)
    ensures
        map == sampling(source, width, height, transform, flipped),
        map.part.is_bounded(),
{
    let origin = texture_corner(false, false, transform, flipped);
    let right = texture_corner(true, false, transform, flipped);
    let down = texture_corner(false, true, transform, flipped);
    Sampling {
        source,
        width,
        height,
        part: Affine {
            right: Vector { x: (right.x - origin.x) as i64, y: (right.y - origin.y) as i64 },
            down: Vector { x: (down.x - origin.x) as i64, y: (down.y - origin.y) as i64 },
            origin: Vector { x: origin.x as i64, y: origin.y as i64 },
            width: 1,
            height: 1,
        },
    }
}

/// A buffer whose rows run bottom-up is sampled bottom-up: each point of the
/// quad gets what the point mirrored top to bottom would get of a buffer the
/// right way up.
pub proof fn a_flipped_buffer_samples_bottom_up(
    source: Source,
    width: u32,
    height: u32,
    transform: Transform,
    read: spec_fn(u64) -> int,
    u: int,
    v: int,
    q: int,
)
    ensures
        sampling(source, width, height, transform, true).coordinate(read, u, v, q) == sampling(
            source,
            width,
            height,
            transform,
            false,
        ).coordinate(read, u, q - v, q),
{
    let f = sampling(source, width, height, transform, true).part;
    let n = sampling(source, width, height, transform, false).part;
    assert(f.right == n.right && f.down.x == -n.down.x && f.down.y == -n.down.y);
    assert(f.origin.x == n.origin.x + n.down.x && f.origin.y == n.origin.y + n.down.y);
    lemma_mirrored(n.right.x as int, n.down.x as int, n.origin.x as int, u, v, q);
    lemma_mirrored(n.right.y as int, n.down.y as int, n.origin.y as int, u, v, q);
}

proof fn lemma_mirrored(right: int, down: int, origin: int, u: int, v: int, q: int)
    by (nonlinear_arith)
    ensures
        right * u + (-down) * v + (origin + down) * q == right * u + down * (q - v) + origin * q,
{
}

/// The quad samples exactly its source: its four corners are sampled at the four
/// corners of the source, over the extent of the texture, each of them once.
pub proof fn a_quad_samples_exactly_its_source(
    source: Source,
    width: u32,
    height: u32,
    transform: Transform,
    flipped: bool,
    read: spec_fn(u64) -> int,
    right: bool,
    bottom: bool,
)
    requires
        read(source.w) > 0,
        read(source.h) > 0,
    ensures
        ({
            let map = sampling(source, width, height, transform, flipped);
            let hit = |u: int, v: int|
                map.coordinate(read, u, v, 1) == (
                    read(source.x) + far(right, read(source.w)),
                    read(source.y) + far(bottom, read(source.h)),
                );
            &&& map.width == width
            &&& map.height == height
            &&& {
                ||| hit(0, 0) && !hit(1, 0) && !hit(0, 1) && !hit(1, 1)
                ||| !hit(0, 0) && hit(1, 0) && !hit(0, 1) && !hit(1, 1)
                ||| !hit(0, 0) && !hit(1, 0) && hit(0, 1) && !hit(1, 1)
                ||| !hit(0, 0) && !hit(1, 0) && !hit(0, 1) && hit(1, 1)
            }
        }),
{
    every_surface_transform_samples_the_whole_texture_exactly_once(
        transform,
        flipped,
        far(right, 1),
        far(bottom, 1),
    );
    lemma_corner_of_source(source, width, height, transform, flipped, read, false, false);
    lemma_corner_of_source(source, width, height, transform, flipped, read, true, false);
    lemma_corner_of_source(source, width, height, transform, flipped, read, false, true);
    lemma_corner_of_source(source, width, height, transform, flipped, read, true, true);
}

/// Where in the texture a corner of the quad is sampled.
proof fn lemma_corner_of_source(
    source: Source,
    width: u32,
    height: u32,
    transform: Transform,
    flipped: bool,
    read: spec_fn(u64) -> int,
    u: bool,
    v: bool,
)
    ensures
        ({
            let at = sampled(far(u, 1), far(v, 1), transform, flipped);
            &&& at.0 == 0 || at.0 == 1
            &&& at.1 == 0 || at.1 == 1
            &&& sampling(source, width, height, transform, flipped).coordinate(
                read,
                far(u, 1),
                far(v, 1),
                1,
            ) == (
                read(source.x) + far(at.0 == 1, read(source.w)),
                read(source.y) + far(at.1 == 1, read(source.h)),
            )
        }),
{
    let part = sampling(source, width, height, transform, flipped).part;
    let at = sampled(far(u, 1), far(v, 1), transform, flipped);
    assert(part.spread(far(u, 1), far(v, 1), 1) == at) by {
        if u && v {
            assert(part.spread(1, 1, 1) == at);
        } else if u {
            assert(part.spread(1, 0, 1) == at);
        } else if v {
            assert(part.spread(0, 1, 1) == at);
        } else {
            assert(part.spread(0, 0, 1) == at);
        }
    }
    lemma_edge(at.0, read(source.w));
    lemma_edge(at.1, read(source.h));
}

proof fn lemma_edge(at: int, length: int)
    by (nonlinear_arith)
    requires
        at == 0 || at == 1,
    ensures
        at * length == if at == 1 { length } else { 0 },
{
}

/// Whatever the rotation, the four corners of a quad over the whole desktop are
/// the four corners of clip space: every one of them is hit, and no two corners
/// of the quad land on the same one.
pub proof fn every_output_transform_covers_the_framebuffer_exactly_once(
    output_size: Size,
    transform: Transform,
    right: bool,
    bottom: bool,
)
    requires
        output_size.w > 0,
        output_size.h > 0,
    ensures
        ({
            let area = transform.sized(output_size);
            let hit = |u: bool, v: bool|
                clip(far(u, area.w as int), far(v, area.h as int), output_size, transform) == (
                    if right { output_size.w as int } else { -output_size.w },
                    if bottom { output_size.h as int } else { -output_size.h },
                );
            ||| hit(false, false) && !hit(true, false) && !hit(false, true) && !hit(true, true)
            ||| !hit(false, false) && hit(true, false) && !hit(false, true) && !hit(true, true)
            ||| !hit(false, false) && !hit(true, false) && hit(false, true) && !hit(true, true)
            ||| !hit(false, false) && !hit(true, false) && !hit(false, true) && hit(true, true)
        }),
{
    match transform {
        Transform::Normal => {},
        Transform::_90 => {},
        Transform::_180 => {},
        Transform::_270 => {},
        Transform::Flipped => {},
        Transform::Flipped90 => {},
        Transform::Flipped180 => {},
        Transform::Flipped270 => {},
    }
}

/// A length, or nothing.
pub open spec fn far(far: bool, length: int) -> int {
    if far { length } else { 0 }
}

/// The scissor and the quad describe the same rectangle: each of the quad's
/// corners is a corner of the scissor, and opposite corners go to opposite
/// corners, so the scissor is exactly what they span.
pub proof fn a_scissor_covers_exactly_what_the_quad_covers(
    rect: Rectangle,
    output_size: Size,
    transform: Transform,
    u: bool,
    v: bool,
)
    requires
        output_size.w > 0,
        output_size.h > 0,
        rect.size.is_valid(),
        i32::MIN < landed(rect, output_size, transform).loc.x < i32::MAX,
        i32::MIN < landed(rect, output_size, transform).loc.y < i32::MAX,
    ensures
        ({
            let s = landed(rect, output_size, transform);
            let corner = clip(
                rect.loc.x + far(u, rect.size.w as int),
                rect.loc.y + far(v, rect.size.h as int),
                output_size,
                transform,
            );
            let mirror_x = transform is _90 || transform is _180 || transform is Flipped
                || transform is Flipped90;
            let mirror_y = transform is _180 || transform is _270 || transform is Flipped90
                || transform is Flipped180;
            let i = (if transform.swaps() { v } else { u }) != mirror_x;
            let j = (if transform.swaps() { u } else { v }) != mirror_y;
            &&& corner.0 == 2 * (s.loc.x + far(i, s.size.w as int)) - output_size.w
            &&& corner.1 == 2 * (s.loc.y + far(j, s.size.h as int)) - output_size.h
        }),
{
    match transform {
        Transform::Normal => {},
        Transform::_90 => {},
        Transform::_180 => {},
        Transform::_270 => {},
        Transform::Flipped => {},
        Transform::Flipped90 => {},
        Transform::Flipped180 => {},
        Transform::Flipped270 => {},
    }
}

/// Whether a rectangle lies within an area that starts at the origin.
pub open spec fn inside(rect: Rectangle, area: Size) -> bool {
    &&& 0 <= rect.loc.x && rect.loc.x + rect.size.w <= area.w
    &&& 0 <= rect.loc.y && rect.loc.y + rect.size.h <= area.h
}

/// The whole desktop lands on the whole framebuffer, unless that has an extent
/// along one axis only, and what lies inside the desktop lands inside the
/// framebuffer.
pub proof fn the_desktop_lands_on_the_framebuffer(
    rect: Rectangle,
    output_size: Size,
    transform: Transform,
)
    requires
        output_size.is_valid(),
        rect.size.is_valid(),
    ensures
        (output_size.w == 0 <==> output_size.h == 0) ==> landed(
            (Rectangle { loc: Point { x: 0, y: 0 }, size: transform.sized(output_size) }),
            output_size,
            transform,
        ) == (Rectangle { loc: Point { x: 0, y: 0 }, size: output_size }),
        inside(rect, transform.sized(output_size)) ==> inside(
            landed(rect, output_size, transform),
            output_size,
        ),
{
}

/// A flip is not the rotation it shares a name with: each flipped turn is the
/// plain turn mirrored top to bottom for a quarter turn, left to right for the
/// others.
pub proof fn a_flip_is_a_mirrored_turn(x: int, y: int, output_size: Size)
    ensures
        ({
            let turned = pixel(x, y, output_size, Transform::_90);
            pixel(x, y, output_size, Transform::Flipped90) == (turned.0, output_size.h - turned.1)
        }),
        ({
            let turned = pixel(x, y, output_size, Transform::_270);
            pixel(x, y, output_size, Transform::Flipped270) == (turned.0, output_size.h - turned.1)
        }),
        ({
            let turned = pixel(x, y, output_size, Transform::Normal);
            pixel(x, y, output_size, Transform::Flipped) == (output_size.w - turned.0, turned.1)
        }),
        ({
            let turned = pixel(x, y, output_size, Transform::_180);
            pixel(x, y, output_size, Transform::Flipped180) == (output_size.w - turned.0, turned.1)
        }),
{
}

/// Whatever the buffer's orientation, the quad samples every corner of its
/// source exactly once.
pub proof fn every_surface_transform_samples_the_whole_texture_exactly_once(
    transform: Transform,
    flipped: bool,
    x: int,
    y: int,
)
    requires
        x == 0 || x == 1,
        y == 0 || y == 1,
    ensures
        ({
            let hit = |u: int, v: int| sampled(u, v, transform, flipped) == (x, y);
            ||| hit(0, 0) && !hit(1, 0) && !hit(0, 1) && !hit(1, 1)
            ||| !hit(0, 0) && hit(1, 0) && !hit(0, 1) && !hit(1, 1)
            ||| !hit(0, 0) && !hit(1, 0) && hit(0, 1) && !hit(1, 1)
            ||| !hit(0, 0) && !hit(1, 0) && !hit(0, 1) && hit(1, 1)
        }),
{
}

/// The framebuffer shows the desktop turned as its points are turned: where a
/// point of the desktop lands is where the transform places it, but for the two
/// mirrored quarter turns, which land where the other of them would place it.
pub proof fn the_desktop_is_turned_as_its_points_are(
    x: int,
    y: int,
    area: Size,
    transform: Transform,
)
    ensures
        pixel(x, y, transform.sized(area), transform) == (match transform {
            Transform::Flipped90 => Transform::Flipped270.placed(
                x,
                y,
                area.w as int,
                area.h as int,
            ),
            Transform::Flipped270 => Transform::Flipped90.placed(
                x,
                y,
                area.w as int,
                area.h as int,
            ),
            _ => transform.placed(x, y, area.w as int, area.h as int),
        }),
{
}

/// Sampling undoes the buffer's transform. A corner of the texture, carried to
/// where the transform places it on the surface, is the corner that is sampled
/// there. The two mirrored quarter turns are left half a turn away.
pub proof fn a_corner_is_sampled_where_the_transform_places_it(
    transform: Transform,
    x: int,
    y: int,
)
    ensures
        ({
            let p = transform.placed(x, y, 1, 1);
            sampled(p.0, p.1, transform, false) == (if transform is Flipped90 || transform
                is Flipped270 {
                (1 - x, 1 - y)
            } else {
                (x, y)
            })
        }),
        ({
            let p = transform.placed(x, y, 1, 1);
            sampled(p.0, 1 - p.1, transform, true) == sampled(p.0, p.1, transform, false)
        }),
{
}

/// The same of every point: the part `a / q`, `b / q` of the source, carried to
/// where the transform places it on the surface, is what is sampled there, in
/// the pixels of the texture. The two mirrored quarter turns are left half a turn
/// away.
pub proof fn a_texture_is_sampled_where_the_transform_places_it(
    source: Source,
    width: u32,
    height: u32,
    transform: Transform,
    read: spec_fn(u64) -> int,
    a: int,
    b: int,
    q: int,
)
    ensures
        ({
            let p = transform.placed(a, b, q, q);
            sampling(source, width, height, transform, false).coordinate(read, p.0, p.1, q) == (
                if transform is Flipped90 || transform is Flipped270 {
                    (
                        read(source.x) * q + (q - a) * read(source.w),
                        read(source.y) * q + (q - b) * read(source.h),
                    )
                } else {
                    (
                        read(source.x) * q + a * read(source.w),
                        read(source.y) * q + b * read(source.h),
                    )
                })
        }),
{
    let p = transform.placed(a, b, q, q);
    let part = sampling(source, width, height, transform, false).part;
    assert(part.spread(p.0, p.1, q) == (if transform is Flipped90 || transform is Flipped270 {
        (q - a, q - b)
    } else {
        (a, b)
    })) by {
        lemma_unit(part.right.x as int, p.0);
        lemma_unit(part.right.y as int, p.0);
        lemma_unit(part.down.x as int, p.1);
        lemma_unit(part.down.y as int, p.1);
        lemma_unit(part.origin.x as int, q);
        lemma_unit(part.origin.y as int, q);
        match transform {
            Transform::Normal => {},
            Transform::_90 => {},
            Transform::_180 => {},
            Transform::_270 => {},
            Transform::Flipped => {},
            Transform::Flipped90 => {},
            Transform::Flipped180 => {},
            Transform::Flipped270 => {},
        }
    }
}

proof fn lemma_unit(c: int, n: int)
    by (nonlinear_arith)
    ensures
        c == 0 ==> c * n == 0,
        c == 1 ==> c * n == n,
        c == -1 ==> c * n == -n,
{
}

} // verus!
