//! What draws leave on each pixel.
//!
//! A model of a render target as a stack of layers: every draw that paints a
//! pixel lays one more over what is there, with everything the draw was given.
//! Where a pixel of the desktop is shown is written down here for each pixel, so
//! that what a frame records can be held against the desktop it is meant to
//! show.
use vstd::prelude::*;

use crate::color::Description;
use crate::geometry::{Rectangle, Size, Transform};
use crate::pipeline::{Constants, ONE};
use crate::render::{whole, Color};
use crate::renderer::{
    clipped, quads, scissor_area, scissors, Conversion, VulkanFrame, VulkanTexture,
};
use crate::transform::{landed, pixel, placement, Affine, Source};
use crate::vulkan::{Area, Command, Vec4};

verus! {

/// The framebuffer pixel that shows a pixel of the desktop, for a framebuffer of
/// `w` by `h` pixels.
pub open spec fn shown(x: int, y: int, w: int, h: int, transform: Transform) -> (int, int) {
    match transform {
        Transform::Normal => (x, y),
        Transform::_90 => (w - 1 - y, x),
        Transform::_180 => (w - 1 - x, h - 1 - y),
        Transform::_270 => (y, h - 1 - x),
        Transform::Flipped => (w - 1 - x, y),
        Transform::Flipped90 => (w - 1 - y, h - 1 - x),
        Transform::Flipped180 => (x, h - 1 - y),
        Transform::Flipped270 => (y, x),
    }
}

/// Every pixel of a framebuffer shows one pixel of the desktop, and no two of
/// them the same: a quarter turn exchanges the extents, and nothing else does.
pub proof fn every_framebuffer_pixel_shows_one_of_the_desktop(
    frame: VulkanFrame,
    x: int,
    y: int,
    column: int,
    row: int,
)
    requires
        frame.is_valid(),
        0 <= column < frame.output_size.w,
        0 <= row < frame.output_size.h,
    ensures
        ({
            let w = frame.output_size.w as int;
            let h = frame.output_size.h as int;
            let quarter = frame.transform is _90 || frame.transform is _270 || frame.transform
                is Flipped90 || frame.transform is Flipped270;
            &&& frame.logical_size == (if quarter {
                Size { w: frame.output_size.h, h: frame.output_size.w }
            } else {
                frame.output_size
            })
            &&& 0 <= x < frame.logical_size.w && 0 <= y < frame.logical_size.h ==> {
                &&& 0 <= shown(x, y, w, h, frame.transform).0 < w
                &&& 0 <= shown(x, y, w, h, frame.transform).1 < h
            }
            &&& exists|a: int, b: int|
                0 <= a < frame.logical_size.w && 0 <= b < frame.logical_size.h
                    && #[trigger] shown(a, b, w, h, frame.transform) == (column, row)
            &&& forall|a: int, b: int| #[trigger]
                shown(a, b, w, h, frame.transform) == shown(x, y, w, h, frame.transform) ==> a == x
                    && b == y
        }),
{
    let w = frame.output_size.w as int;
    let h = frame.output_size.h as int;
    let (a, b) = match frame.transform {
        Transform::Normal => (column, row),
        Transform::_90 => (row, w - 1 - column),
        Transform::_180 => (w - 1 - column, h - 1 - row),
        Transform::_270 => (h - 1 - row, column),
        Transform::Flipped => (w - 1 - column, row),
        Transform::Flipped90 => (h - 1 - row, w - 1 - column),
        Transform::Flipped180 => (column, h - 1 - row),
        Transform::Flipped270 => (row, column),
    };
    assert(shown(a, b, w, h, frame.transform) == (column, row));
}

/// One draw over a pixel, with everything it was given.
pub struct Layer {
    pub pipeline: u64,
    /// The sampler and the view of the texture that was pushed last, if any.
    pub texture: Option<(u64, u64)>,
    pub constants: Constants,
}

/// A render target with what has been set up to draw into it.
#[verifier::ext_equal]
pub struct Painting {
    /// The extent of the viewport, which starts at the origin.
    pub width: int,
    pub height: int,
    pub scissor: Area,
    pub pipeline: Option<u64>,
    pub texture: Option<(u64, u64)>,
    pub constants: Option<Constants>,
    /// What has been drawn over each pixel, the lowest first.
    pub layers: spec_fn(int, int) -> Seq<Layer>,
}

impl Painting {
    /// Whether a draw of a quad paints a pixel. `edges` is what the rasteriser
    /// makes of a pixel whose centre lies on the edge of the quad.
    pub open spec fn paints(
        self,
        quad: Affine,
        edges: spec_fn(int, int) -> bool,
        x: int,
        y: int,
    ) -> bool {
        &&& self.scissor.holds(x, y)
        &&& quad.surrounds(self.width, self.height, x, y) || (quad.touches(
            self.width,
            self.height,
            x,
            y,
        ) && edges(x, y))
    }

    /// What one command makes of the target, or `None` where this says nothing of
    /// it.
    pub open spec fn step(self, command: Command, edges: spec_fn(int, int) -> bool) -> Option<
        Painting,
    > {
        match command {
            Command::SetViewport { width, height } => Some(
                Painting { width: width as int, height: height as int, ..self },
            ),
            Command::SetScissor { area } => Some(Painting { scissor: area, ..self }),
            Command::BindPipeline { pipeline } => Some(
                Painting { pipeline: Some(pipeline), ..self },
            ),
            Command::PushTexture { sampler, view, .. } => Some(
                Painting { texture: Some((sampler, view)), ..self },
            ),
            Command::PushConstants { constants, .. } => Some(
                Painting { constants: Some(constants), ..self },
            ),
            Command::Draw => match (self.pipeline, self.constants) {
                (Some(pipeline), Some(constants)) => Some(
                    Painting {
                        layers: |x: int, y: int|
                            if self.paints(constants.position, edges, x, y) {
                                (self.layers)(x, y).push(
                                    Layer { pipeline, texture: self.texture, constants },
                                )
                            } else {
                                (self.layers)(x, y)
                            },
                        ..self
                    },
                ),
                _ => None,
            },
            _ => None,
        }
    }

    /// What a list of commands makes of the target, or `None` where this says
    /// nothing of one of them.
    pub open spec fn run(
        self,
        commands: Seq<Command>,
        edges: spec_fn(int, int) -> bool,
    ) -> Option<Painting>
        decreases commands.len(),
    {
        if commands.len() == 0 {
            Some(self)
        } else {
            match self.run(commands.drop_last(), edges) {
                Some(before) => before.step(commands.last(), edges),
                None => None,
            }
        }
    }
}

/// One more command is one more step.
proof fn lemma_paint_push(
    start: Painting,
    commands: Seq<Command>,
    command: Command,
    edges: spec_fn(int, int) -> bool,
)
    ensures
        start.run(commands.push(command), edges) == (match start.run(commands, edges) {
            Some(before) => before.step(command, edges),
            None => None,
        }),
{
    assert(commands.push(command).drop_last() =~= commands);
}

/// Painting two lists one after the other is painting them joined.
proof fn lemma_paint_joined(
    start: Painting,
    first: Seq<Command>,
    second: Seq<Command>,
    edges: spec_fn(int, int) -> bool,
)
    ensures
        start.run(first + second, edges) == (match start.run(first, edges) {
            Some(between) => between.run(second, edges),
            None => None,
        }),
    decreases second.len(),
{
    if second.len() == 0 {
        assert(first + second =~= first);
    } else {
        assert((first + second).drop_last() =~= first + second.drop_last());
        lemma_paint_joined(start, first, second.drop_last(), edges);
    }
}

/// Whether a pixel of the desktop lies in a rectangle of it.
pub open spec fn within(rect: Rectangle, x: int, y: int) -> bool {
    &&& rect.loc.x <= x < rect.loc.x + rect.size.w
    &&& rect.loc.y <= y < rect.loc.y + rect.size.h
}

/// How many rectangles of a list a pixel lies in.
pub open spec fn covering(rects: Seq<Rectangle>, x: int, y: int) -> nat
    decreases rects.len(),
{
    if rects.len() == 0 {
        0
    } else {
        covering(rects.drop_last(), x, y) + (if within(rects.last(), x, y) {
            1nat
        } else {
            0nat
        })
    }
}

/// A pixel lies in some rectangle of a list exactly where it is counted.
pub proof fn a_pixel_is_counted_where_it_lies(rects: Seq<Rectangle>, x: int, y: int)
    ensures
        covering(rects, x, y) > 0 <==> exists|i: int|
            0 <= i < rects.len() && within(#[trigger] rects[i], x, y),
    decreases rects.len(),
{
    if rects.len() > 0 {
        let rest = rects.drop_last();
        a_pixel_is_counted_where_it_lies(rest, x, y);
        if exists|i: int| 0 <= i < rest.len() && within(#[trigger] rest[i], x, y) {
            let i = choose|i: int| 0 <= i < rest.len() && within(#[trigger] rest[i], x, y);
            assert(within(rects[i], x, y));
        }
        if exists|i: int| 0 <= i < rects.len() && within(#[trigger] rects[i], x, y) {
            let i = choose|i: int| 0 <= i < rects.len() && within(#[trigger] rects[i], x, y);
            if i < rest.len() {
                assert(within(rest[i], x, y));
            }
        }
        if within(rects.last(), x, y) {
            assert(within(rects[rects.len() - 1], x, y));
        }
    }
}

/// Whether a frame's framebuffer is its target, pixel for pixel.
pub open spec fn fills_its_target(frame: VulkanFrame) -> bool {
    frame.width == frame.output_size.w && frame.height == frame.output_size.h
}

/// One axis of a quad that runs along an axis of the framebuffer, at the centre
/// of the pixel that shows `at`.
proof fn lemma_along(
    along: int,
    across: int,
    origin: int,
    s: int,
    t: int,
    start: int,
    length: int,
    extent: int,
    other: int,
    at: int,
)
    by (nonlinear_arith)
    requires
        along == 2 * length,
        across == 0,
        origin == 2 * start - extent,
        s == (2 * (at - start) + 1) * other,
    ensures
        (along * s + across * t + origin * (2 * length * other)) * extent == extent * (2 * length
            * other) * (2 * at + 1 - extent),
        (across * t + along * s + origin * (2 * length * other)) * extent == extent * (2 * length
            * other) * (2 * at + 1 - extent),
{
}

/// The same of an axis that runs the other way.
proof fn lemma_against(
    along: int,
    across: int,
    origin: int,
    s: int,
    t: int,
    start: int,
    length: int,
    extent: int,
    other: int,
    at: int,
)
    by (nonlinear_arith)
    requires
        along == -2 * length,
        across == 0,
        origin == extent - 2 * start,
        s == (2 * (at - start) + 1) * other,
    ensures
        (along * s + across * t + origin * (2 * length * other)) * extent == extent * (2 * length
            * other) * (2 * (extent - 1 - at) + 1 - extent),
        (across * t + along * s + origin * (2 * length * other)) * extent == extent * (2 * length
            * other) * (2 * (extent - 1 - at) + 1 - extent),
{
}

/// A centre that is found on a quad lies between the ends of the quad.
proof fn lemma_found_along(
    along: int,
    across: int,
    origin: int,
    s: int,
    t: int,
    q: int,
    start: int,
    length: int,
    extent: int,
    at: int,
)
    requires
        along == 2 * length,
        across == 0,
        origin == 2 * start - extent,
        0 < q,
        0 <= s <= q,
        0 <= length,
        0 < extent,
        (along * s + across * t + origin * q) * extent == extent * q * (2 * at + 1 - extent) || (
        across * t + along * s + origin * q) * extent == extent * q * (2 * at + 1 - extent),
    ensures
        start <= at < start + length,
{
    assert(across * t == 0) by (nonlinear_arith)
        requires
            across == 0,
    ;
    let n = along * s + origin * q;
    assert(n == q * (2 * at + 1 - extent)) by (nonlinear_arith)
        requires
            n * extent == extent * q * (2 * at + 1 - extent),
            0 < extent,
    ;
    lemma_between(s, q, start, length, at, along * s, origin * q, extent);
}

/// The same of an axis that runs the other way.
proof fn lemma_found_against(
    along: int,
    across: int,
    origin: int,
    s: int,
    t: int,
    q: int,
    start: int,
    length: int,
    extent: int,
    at: int,
)
    requires
        along == -2 * length,
        across == 0,
        origin == extent - 2 * start,
        0 < q,
        0 <= s <= q,
        0 <= length,
        0 < extent,
        (along * s + across * t + origin * q) * extent == extent * q * (2 * (extent - 1 - at) + 1
            - extent) || (across * t + along * s + origin * q) * extent == extent * q * (2 * (extent
            - 1 - at) + 1 - extent),
    ensures
        start <= at < start + length,
{
    assert(across * t == 0) by (nonlinear_arith)
        requires
            across == 0,
    ;
    let n = along * s + origin * q;
    assert(n == q * (2 * (extent - 1 - at) + 1 - extent)) by (nonlinear_arith)
        requires
            n * extent == extent * q * (2 * (extent - 1 - at) + 1 - extent),
            0 < extent,
    ;
    assert((2 * length) * s == -(along * s)) by (nonlinear_arith)
        requires
            along == -2 * length,
    ;
    assert((2 * start - extent) * q == -(origin * q)) by (nonlinear_arith)
        requires
            origin == extent - 2 * start,
    ;
    assert(q * (2 * at + 1 - extent) == -(q * (2 * (extent - 1 - at) + 1 - extent))) by (
    nonlinear_arith);
    lemma_between(s, q, start, length, at, (2 * length) * s, (2 * start - extent) * q, extent);
}

proof fn lemma_between(
    s: int,
    q: int,
    start: int,
    length: int,
    at: int,
    moved: int,
    from: int,
    extent: int,
)
    by (nonlinear_arith)
    requires
        0 < q,
        0 <= s <= q,
        0 <= length,
        moved == 2 * length * s,
        from == (2 * start - extent) * q,
        moved + from == q * (2 * at + 1 - extent),
    ensures
        start <= at < start + length,
{
    assert(2 * length * s == q * (2 * at + 1 - 2 * start));
    assert(0 <= 2 * length * s <= 2 * length * q);
    assert(0 <= q * (2 * at + 1 - 2 * start) <= q * (2 * length));
    assert(0 <= 2 * at + 1 - 2 * start);
    assert(2 * at + 1 - 2 * start <= 2 * length);
}

/// Where the centre of the pixel that shows a pixel of the desktop lies on the
/// quad over a rectangle: as far along each side of the quad as the middle of
/// the pixel is along that side of the rectangle.
pub proof fn a_pixel_is_drawn_from_its_place_in_the_rectangle(
    frame: VulkanFrame,
    dst: Rectangle,
    x: int,
    y: int,
)
    requires
        frame.is_valid(),
        dst.size.is_valid(),
    ensures
        ({
            let w = frame.output_size.w as int;
            let h = frame.output_size.h as int;
            let at = shown(x, y, w, h, frame.transform);
            placement(dst, frame.output_size, frame.transform).centres(
                w,
                h,
                at.0,
                at.1,
                (2 * (x - dst.loc.x) + 1) * dst.size.h,
                (2 * (y - dst.loc.y) + 1) * dst.size.w,
                2 * dst.size.w * dst.size.h,
            )
        }),
{
    let map = placement(dst, frame.output_size, frame.transform);
    let w = frame.output_size.w as int;
    let h = frame.output_size.h as int;
    let dx = dst.loc.x as int;
    let dy = dst.loc.y as int;
    let dw = dst.size.w as int;
    let dh = dst.size.h as int;
    let u = (2 * (x - dx) + 1) * dh;
    let v = (2 * (y - dy) + 1) * dw;
    assert(2 * dw * dh == 2 * dh * dw) by (nonlinear_arith);
    let (rx, ry) = (map.right.x as int, map.right.y as int);
    let (gx, gy) = (map.down.x as int, map.down.y as int);
    let (ox, oy) = (map.origin.x as int, map.origin.y as int);
    match frame.transform {
        Transform::Normal => {
            lemma_along(rx, gx, ox, u, v, dx, dw, w, dh, x);
            lemma_along(gy, ry, oy, v, u, dy, dh, h, dw, y);
        },
        Transform::_90 => {
            lemma_against(gx, rx, ox, v, u, dy, dh, w, dw, y);
            lemma_along(ry, gy, oy, u, v, dx, dw, h, dh, x);
        },
        Transform::_180 => {
            lemma_against(rx, gx, ox, u, v, dx, dw, w, dh, x);
            lemma_against(gy, ry, oy, v, u, dy, dh, h, dw, y);
        },
        Transform::_270 => {
            lemma_along(gx, rx, ox, v, u, dy, dh, w, dw, y);
            lemma_against(ry, gy, oy, u, v, dx, dw, h, dh, x);
        },
        Transform::Flipped => {
            lemma_against(rx, gx, ox, u, v, dx, dw, w, dh, x);
            lemma_along(gy, ry, oy, v, u, dy, dh, h, dw, y);
        },
        Transform::Flipped90 => {
            lemma_against(gx, rx, ox, v, u, dy, dh, w, dw, y);
            lemma_against(ry, gy, oy, u, v, dx, dw, h, dh, x);
        },
        Transform::Flipped180 => {
            lemma_along(rx, gx, ox, u, v, dx, dw, w, dh, x);
            lemma_against(gy, ry, oy, v, u, dy, dh, h, dw, y);
        },
        Transform::Flipped270 => {
            lemma_along(gx, rx, ox, v, u, dy, dh, w, dw, y);
            lemma_along(ry, gy, oy, u, v, dx, dw, h, dh, x);
        },
    }
}

/// The middle of a pixel is never on the edge of a rectangle.
proof fn lemma_middle(x: int, start: int, length: int, other: int)
    by (nonlinear_arith)
    requires
        start <= x < start + length,
        0 < other,
    ensures
        0 < (2 * (x - start) + 1) * other < 2 * length * other,
        2 * length * other == 2 * other * length,
{
}

/// The quad over a rectangle covers the pixels that show the rectangle, and no
/// other: no rasteriser finds the centre of a pixel on an edge of it.
pub proof fn a_quad_covers_exactly_its_rectangle(
    frame: VulkanFrame,
    dst: Rectangle,
    x: int,
    y: int,
)
    requires
        frame.is_valid(),
        frame.output_size.w > 0,
        frame.output_size.h > 0,
        dst.size.is_valid(),
    ensures
        ({
            let w = frame.output_size.w as int;
            let h = frame.output_size.h as int;
            let at = shown(x, y, w, h, frame.transform);
            let quad = placement(dst, frame.output_size, frame.transform);
            &&& quad.surrounds(w, h, at.0, at.1) <==> within(dst, x, y)
            &&& quad.touches(w, h, at.0, at.1) <==> within(dst, x, y)
        }),
{
    let map = placement(dst, frame.output_size, frame.transform);
    let w = frame.output_size.w as int;
    let h = frame.output_size.h as int;
    let at = shown(x, y, w, h, frame.transform);
    let dx = dst.loc.x as int;
    let dy = dst.loc.y as int;
    let dw = dst.size.w as int;
    let dh = dst.size.h as int;
    if within(dst, x, y) {
        let u = (2 * (x - dx) + 1) * dh;
        let v = (2 * (y - dy) + 1) * dw;
        let q = 2 * dw * dh;
        lemma_middle(x, dx, dw, dh);
        lemma_middle(y, dy, dh, dw);
        a_pixel_is_drawn_from_its_place_in_the_rectangle(frame, dst, x, y);
        assert(map.centres(w, h, at.0, at.1, u, v, q));
    }
    if map.surrounds(w, h, at.0, at.1) {
        let (u, v, q) = choose|u: int, v: int, q: int|
            0 < u < q && 0 < v < q && #[trigger] map.centres(w, h, at.0, at.1, u, v, q);
        assert(map.centres(w, h, at.0, at.1, u, v, q));
    }
    if map.touches(w, h, at.0, at.1) {
        let (u, v, q) = choose|u: int, v: int, q: int|
            0 < q && 0 <= u <= q && 0 <= v <= q && #[trigger] map.centres(
                w,
                h,
                at.0,
                at.1,
                u,
                v,
                q,
            );
        lemma_found_on_the_quad(frame, dst, x, y, u, v, q);
    }
}

/// A pixel whose centre is found on the quad over a rectangle shows a pixel of
/// it.
proof fn lemma_found_on_the_quad(
    frame: VulkanFrame,
    dst: Rectangle,
    x: int,
    y: int,
    u: int,
    v: int,
    q: int,
)
    requires
        frame.is_valid(),
        frame.output_size.w > 0,
        frame.output_size.h > 0,
        dst.size.is_valid(),
        0 < q,
        0 <= u <= q,
        0 <= v <= q,
        ({
            let w = frame.output_size.w as int;
            let h = frame.output_size.h as int;
            let at = shown(x, y, w, h, frame.transform);
            placement(dst, frame.output_size, frame.transform).centres(w, h, at.0, at.1, u, v, q)
        }),
    ensures
        within(dst, x, y),
{
    let map = placement(dst, frame.output_size, frame.transform);
    let w = frame.output_size.w as int;
    let h = frame.output_size.h as int;
    let dx = dst.loc.x as int;
    let dy = dst.loc.y as int;
    let dw = dst.size.w as int;
    let dh = dst.size.h as int;
    let (rx, ry) = (map.right.x as int, map.right.y as int);
    let (gx, gy) = (map.down.x as int, map.down.y as int);
    let (ox, oy) = (map.origin.x as int, map.origin.y as int);
    match frame.transform {
        Transform::Normal => {
            lemma_found_along(rx, gx, ox, u, v, q, dx, dw, w, x);
            lemma_found_along(gy, ry, oy, v, u, q, dy, dh, h, y);
        },
        Transform::_90 => {
            lemma_found_against(gx, rx, ox, v, u, q, dy, dh, w, y);
            lemma_found_along(ry, gy, oy, u, v, q, dx, dw, h, x);
        },
        Transform::_180 => {
            lemma_found_against(rx, gx, ox, u, v, q, dx, dw, w, x);
            lemma_found_against(gy, ry, oy, v, u, q, dy, dh, h, y);
        },
        Transform::_270 => {
            lemma_found_along(gx, rx, ox, v, u, q, dy, dh, w, y);
            lemma_found_against(ry, gy, oy, u, v, q, dx, dw, h, x);
        },
        Transform::Flipped => {
            lemma_found_against(rx, gx, ox, u, v, q, dx, dw, w, x);
            lemma_found_along(gy, ry, oy, v, u, q, dy, dh, h, y);
        },
        Transform::Flipped90 => {
            lemma_found_against(gx, rx, ox, v, u, q, dy, dh, w, y);
            lemma_found_against(ry, gy, oy, u, v, q, dx, dw, h, x);
        },
        Transform::Flipped180 => {
            lemma_found_along(rx, gx, ox, u, v, q, dx, dw, w, x);
            lemma_found_against(gy, ry, oy, v, u, q, dy, dh, h, y);
        },
        Transform::Flipped270 => {
            lemma_found_along(gx, rx, ox, v, u, q, dy, dh, w, y);
            lemma_found_along(ry, gy, oy, u, v, q, dx, dw, h, x);
        },
    }
}

/// The part of the damage that is left of a draw inside the desktop: the pixels
/// that lie in both.
proof fn lemma_clipped(frame: VulkanFrame, dst: Rectangle, rect: Rectangle, x: int, y: int)
    requires
        frame.is_valid(),
        dst.size.is_valid(),
        rect.size.is_valid(),
        0 <= x < frame.logical_size.w,
        0 <= y < frame.logical_size.h,
    ensures
        clipped(dst, rect) matches Some(part) ==> {
            &&& part.size.is_valid()
            &&& part.loc.x + part.size.w <= i32::MAX
            &&& part.loc.y + part.size.h <= i32::MAX
            &&& within(dst, x, y) && within(rect, x - dst.loc.x, y - dst.loc.y) ==> within(
                part,
                x,
                y,
            )
        },
        clipped(dst, rect) is None ==> !(within(dst, x, y) && within(
            rect,
            x - dst.loc.x,
            y - dst.loc.y,
        )),
        stays_on(dst, frame.logical_size) ==> (clipped(dst, rect) matches Some(part) ==> {
            &&& stays_on(part, frame.logical_size)
            &&& within(part, x, y) ==> within(dst, x, y) && within(
                rect,
                x - dst.loc.x,
                y - dst.loc.y,
            )
        }),
{
    let moved = rect.moved(dst.loc);
    crate::geometry::the_intersection_is_what_both_cover(moved, dst);
    if within(dst, x, y) && within(rect, x - dst.loc.x, y - dst.loc.y) {
        assert(moved.covers(x, y));
        assert(dst.covers(x, y));
    }
    if clipped(dst, rect) is Some {
        let part = clipped(dst, rect)->0;
        let right = if moved.right() <= dst.right() { moved.right() } else { dst.right() };
        let bottom = if moved.bottom() <= dst.bottom() { moved.bottom() } else { dst.bottom() };
        assert(part.loc.x + part.size.w <= right);
        assert(part.loc.y + part.size.h <= bottom);
        assert(part.covers(x, y) <==> moved.covers(x, y) && dst.covers(x, y));
        if within(dst, x, y) && within(rect, x - dst.loc.x, y - dst.loc.y) {
            assert(part.covers(x, y));
        }
        if within(part, x, y) {
            assert(part.covers(x, y));
        }
    }
}

/// Whether a rectangle lies on a desktop of some size.
pub open spec fn stays_on(rect: Rectangle, size: Size) -> bool {
    &&& 0 <= rect.loc.x && rect.loc.x + rect.size.w <= size.w
    &&& 0 <= rect.loc.y && rect.loc.y + rect.size.h <= size.h
}

/// The scissor over a part of the desktop holds the pixels that show the part,
/// and no other. Over a part that sticks out it still holds those that show it.
proof fn lemma_cut(frame: VulkanFrame, part: Rectangle, x: int, y: int)
    requires
        frame.is_valid(),
        part.size.is_valid(),
        part.loc.x + part.size.w <= i32::MAX,
        part.loc.y + part.size.h <= i32::MAX,
        0 <= x < frame.logical_size.w,
        0 <= y < frame.logical_size.h,
    ensures
        ({
            let at = shown(
                x,
                y,
                frame.output_size.w as int,
                frame.output_size.h as int,
                frame.transform,
            );
            let area = scissor_area(landed(part, frame.output_size, frame.transform));
            &&& within(part, x, y) ==> area.holds(at.0, at.1)
            &&& stays_on(part, frame.logical_size) && area.holds(at.0, at.1) ==> within(part, x, y)
        }),
{
}

/// How many scissors hold a pixel.
spec fn cuts(rects: Seq<Rectangle>, column: int, row: int) -> nat
    decreases rects.len(),
{
    if rects.len() == 0 {
        0
    } else {
        cuts(rects.drop_last(), column, row) + (if scissor_area(rects.last()).holds(column, row) {
            1nat
        } else {
            0nat
        })
    }
}

/// A pixel is cut once for each damage rectangle it lies in, at least; exactly
/// that often where the draw stays on the desktop.
proof fn lemma_cuts(frame: VulkanFrame, dst: Rectangle, damage: Seq<Rectangle>, x: int, y: int)
    requires
        frame.is_valid(),
        dst.size.is_valid(),
        forall|i: int| 0 <= i < damage.len() ==> (#[trigger] damage[i]).size.is_valid(),
        0 <= x < frame.logical_size.w,
        0 <= y < frame.logical_size.h,
        within(dst, x, y),
    ensures
        ({
            let at = shown(
                x,
                y,
                frame.output_size.w as int,
                frame.output_size.h as int,
                frame.transform,
            );
            let n = cuts(
                scissors(dst, damage, frame.output_size, frame.transform),
                at.0,
                at.1,
            );
            let wanted = covering(damage, x - dst.loc.x, y - dst.loc.y);
            &&& wanted <= n
            &&& stays_on(dst, frame.logical_size) ==> wanted == n
        }),
    decreases damage.len(),
{
    if damage.len() > 0 {
        let rest = damage.drop_last();
        assert forall|i: int| 0 <= i < rest.len() implies (#[trigger] rest[i]).size.is_valid() by {
            assert(rest[i] == damage[i]);
        }
        lemma_cuts(frame, dst, rest, x, y);
        assert(damage[damage.len() - 1].size.is_valid());
        lemma_clipped(frame, dst, damage.last(), x, y);
        let before = scissors(dst, rest, frame.output_size, frame.transform);
        match clipped(dst, damage.last()) {
            Some(part) => {
                lemma_cut(frame, part, x, y);
                let last = landed(part, frame.output_size, frame.transform);
                assert(before.push(last).drop_last() =~= before);
            },
            None => {},
        }
    }
}

/// The same layer so many times.
pub open spec fn repeated(layer: Layer, times: nat) -> Seq<Layer> {
    Seq::new(times, |i: int| layer)
}

/// What a quad under some scissors leaves on a pixel.
proof fn lemma_quads_painted(
    frame: VulkanFrame,
    dst: Rectangle,
    rects: Seq<Rectangle>,
    start: Painting,
    edges: spec_fn(int, int) -> bool,
    x: int,
    y: int,
)
    requires
        frame.is_valid(),
        frame.output_size.w > 0,
        frame.output_size.h > 0,
        dst.size.is_valid(),
        start.width == frame.output_size.w,
        start.height == frame.output_size.h,
        start.pipeline is Some,
        start.constants matches Some(constants) && constants.position == placement(
            dst,
            frame.output_size,
            frame.transform,
        ),
    ensures
        ({
            let at = shown(
                x,
                y,
                frame.output_size.w as int,
                frame.output_size.h as int,
                frame.transform,
            );
            let layer = Layer {
                pipeline: start.pipeline->0,
                texture: start.texture,
                constants: start.constants->0,
            };
            let times = if within(dst, x, y) {
                cuts(rects, at.0, at.1)
            } else {
                0
            };
            &&& start.run(quads(rects), edges) matches Some(after)
            &&& after == (Painting { scissor: after.scissor, layers: after.layers, ..start })
            &&& (after.layers)(at.0, at.1) == (start.layers)(at.0, at.1) + repeated(layer, times)
        }),
    decreases rects.len(),
{
    let at = shown(
        x,
        y,
        frame.output_size.w as int,
        frame.output_size.h as int,
        frame.transform,
    );
    let layer = Layer {
        pipeline: start.pipeline->0,
        texture: start.texture,
        constants: start.constants->0,
    };
    if rects.len() == 0 {
        assert((start.layers)(at.0, at.1) + repeated(layer, 0) =~= (start.layers)(at.0, at.1));
    } else {
        let rest = rects.drop_last();
        lemma_quads_painted(frame, dst, rest, start, edges, x, y);
        a_quad_covers_exactly_its_rectangle(frame, dst, x, y);
        let cut = Command::SetScissor { area: scissor_area(rects.last()) };
        lemma_paint_push(start, quads(rest), cut, edges);
        lemma_paint_push(start, quads(rest).push(cut), Command::Draw, edges);
        let before = start.run(quads(rest), edges)->0;
        let ready = before.step(cut, edges)->0;
        let after = start.run(quads(rects), edges)->0;
        let n = if within(dst, x, y) {
            cuts(rest, at.0, at.1)
        } else {
            0
        };
        if ready.paints(start.constants->0.position, edges, at.0, at.1) {
            assert((after.layers)(at.0, at.1) == (before.layers)(at.0, at.1).push(layer));
            assert(repeated(layer, n).push(layer) =~= repeated(layer, n + 1));
            assert(((start.layers)(at.0, at.1) + repeated(layer, n)).push(layer) =~= (start.layers)(
                at.0,
                at.1,
            ) + repeated(layer, n + 1));
        } else {
            assert((after.layers)(at.0, at.1) == (before.layers)(at.0, at.1));
        }
    }
}

/// What a draw leaves on a pixel, whatever it is given.
proof fn lemma_drawn(
    frame: VulkanFrame,
    setup: Seq<Command>,
    dst: Rectangle,
    damage: Seq<Rectangle>,
    start: Painting,
    ready: Painting,
    edges: spec_fn(int, int) -> bool,
    x: int,
    y: int,
) -> (times: nat)
    requires
        frame.is_valid(),
        fills_its_target(frame),
        dst.size.is_valid(),
        forall|i: int| 0 <= i < damage.len() ==> (#[trigger] damage[i]).size.is_valid(),
        0 <= x < frame.logical_size.w,
        0 <= y < frame.logical_size.h,
        start.run(setup, edges) == Some(ready),
        ready == (Painting {
            pipeline: ready.pipeline,
            texture: ready.texture,
            constants: ready.constants,
            ..start
        }),
        start.width == frame.width,
        start.height == frame.height,
        ready.pipeline is Some,
        ready.constants matches Some(constants) && constants.position == placement(
            dst,
            frame.output_size,
            frame.transform,
        ),
    ensures
        ({
            let at = shown(x, y, frame.width as int, frame.height as int, frame.transform);
            let rects = scissors(dst, damage, frame.output_size, frame.transform);
            let commands = if rects.len() == 0 {
                Seq::empty()
            } else {
                setup + quads(rects) + seq![
                    Command::SetScissor { area: whole(frame.width, frame.height) },
                ]
            };
            let layer = Layer {
                pipeline: ready.pipeline->0,
                texture: ready.texture,
                constants: ready.constants->0,
            };
            let wanted = covering(damage, x - dst.loc.x, y - dst.loc.y);
            &&& start.run(commands, edges) matches Some(after)
            &&& after.width == start.width && after.height == start.height
            &&& (after.layers)(at.0, at.1) == (start.layers)(at.0, at.1) + repeated(layer, times)
            &&& !within(dst, x, y) ==> times == 0
            &&& within(dst, x, y) ==> wanted <= times
            &&& within(dst, x, y) && stays_on(dst, frame.logical_size) ==> times == wanted
        }),
{
    let at = shown(x, y, frame.width as int, frame.height as int, frame.transform);
    let rects = scissors(dst, damage, frame.output_size, frame.transform);
    let back = Command::SetScissor { area: whole(frame.width, frame.height) };
    let layer = Layer {
        pipeline: ready.pipeline->0,
        texture: ready.texture,
        constants: ready.constants->0,
    };
    if within(dst, x, y) {
        lemma_cuts(frame, dst, damage, x, y);
    }
    let times = if within(dst, x, y) {
        cuts(rects, at.0, at.1)
    } else {
        0
    };
    if rects.len() == 0 {
        assert((start.layers)(at.0, at.1) + repeated(layer, 0) =~= (start.layers)(at.0, at.1));
    } else {
        lemma_quads_painted(frame, dst, rects, ready, edges, x, y);
        lemma_paint_joined(start, setup, quads(rects), edges);
        lemma_paint_push(start, setup + quads(rects), back, edges);
        assert(setup + quads(rects) + seq![back] =~= (setup + quads(rects)).push(back));
    }
    times
}

/// A solid draw paints its damage in its colour. A pixel of the desktop inside
/// `dst` gets one layer for each damage rectangle that it lies in, counted from
/// the corner of `dst`, and each of those layers is the colour that was asked
/// for, as it is. Every other pixel is left alone. Where `dst` sticks out of the
/// desktop, damage is still painted wherever it can be seen, and nothing outside
/// `dst` is.
pub proof fn a_solid_draw_paints_its_damage(
    frame: VulkanFrame,
    layout: u64,
    pipeline: u64,
    dst: Rectangle,
    damage: Seq<Rectangle>,
    color: Color,
    start: Painting,
    edges: spec_fn(int, int) -> bool,
    x: int,
    y: int,
)
    requires
        frame.is_valid(),
        fills_its_target(frame),
        dst.size.is_valid(),
        forall|i: int| 0 <= i < damage.len() ==> (#[trigger] damage[i]).size.is_valid(),
        start.width == frame.width,
        start.height == frame.height,
        0 <= x < frame.logical_size.w,
        0 <= y < frame.logical_size.h,
    ensures
        ({
            let at = shown(x, y, frame.width as int, frame.height as int, frame.transform);
            let under = (start.layers)(at.0, at.1);
            let wanted = covering(damage, x - dst.loc.x, y - dst.loc.y);
            &&& start.run(
                frame.solid_commands(layout, pipeline, dst, damage, color),
                edges,
            ) matches Some(after)
            &&& {
                let over = (after.layers)(at.0, at.1);
                &&& under.len() <= over.len()
                &&& over.take(under.len() as int) == under
                &&& !within(dst, x, y) ==> over == under
                &&& within(dst, x, y) ==> over.len() >= under.len() + wanted
                &&& within(dst, x, y) && stays_on(dst, frame.logical_size) ==> over.len()
                    == under.len() + wanted
                &&& forall|i: int|
                    under.len() <= i < over.len() ==> {
                        let layer = #[trigger] over[i];
                        &&& layer.pipeline == pipeline
                        &&& layer.constants.color == color
                        &&& layer.constants.alpha == ONE
                        &&& layer.constants.sampling is None
                        &&& layer.constants.conversion is None
                        &&& !layer.constants.opaque
                    }
            }
        }),
{
    let constants = frame.solid_constants(dst, color);
    let bind = Command::BindPipeline { pipeline };
    let push = Command::PushConstants { layout, constants };
    let none = Seq::<Command>::empty();
    lemma_paint_push(start, none, bind, edges);
    lemma_paint_push(start, none.push(bind), push, edges);
    assert(seq![bind, push] =~= none.push(bind).push(push));
    let ready = Painting { pipeline: Some(pipeline), constants: Some(constants), ..start };
    let times = lemma_drawn(
        frame,
        seq![bind, push],
        dst,
        damage,
        start,
        ready,
        edges,
        x,
        y,
    );
    let at = shown(x, y, frame.width as int, frame.height as int, frame.transform);
    let under = (start.layers)(at.0, at.1);
    let layer = Layer { pipeline, texture: start.texture, constants };
    assert((under + repeated(layer, times)).take(under.len() as int) =~= under);
    assert(under + repeated(layer, 0) =~= under);
}

/// A textured draw paints its damage with its texture, once for each damage
/// rectangle that a pixel lies in and nowhere else, at the opacity that was
/// asked for and untinted. Each layer samples the texture that was handed in, of
/// that texture's extent, at the place on the quad where the middle of the pixel
/// is in `dst`; a texture without an alpha channel covers what is under it.
pub proof fn a_textured_draw_paints_its_damage(
    frame: VulkanFrame,
    layout: u64,
    sampler: u64,
    pipeline: u64,
    texture: VulkanTexture,
    output: Description,
    src: Source,
    dst: Rectangle,
    damage: Seq<Rectangle>,
    src_transform: Transform,
    opacity: u32,
    conversion: Conversion,
    start: Painting,
    edges: spec_fn(int, int) -> bool,
    x: int,
    y: int,
)
    requires
        frame.is_valid(),
        fills_its_target(frame),
        dst.size.is_valid(),
        forall|i: int| 0 <= i < damage.len() ==> (#[trigger] damage[i]).size.is_valid(),
        start.width == frame.width,
        start.height == frame.height,
        0 <= x < frame.logical_size.w,
        0 <= y < frame.logical_size.h,
    ensures
        ({
            let at = shown(x, y, frame.width as int, frame.height as int, frame.transform);
            let under = (start.layers)(at.0, at.1);
            let wanted = covering(damage, x - dst.loc.x, y - dst.loc.y);
            &&& start.run(
                frame.texture_commands(
                    layout,
                    sampler,
                    pipeline,
                    texture.image.view,
                    dst,
                    damage,
                    frame.texture_constants(
                        texture,
                        output,
                        src,
                        dst,
                        src_transform,
                        opacity,
                        conversion,
                    ),
                ),
                edges,
            ) matches Some(after)
            &&& {
                let over = (after.layers)(at.0, at.1);
                &&& under.len() <= over.len()
                &&& over.take(under.len() as int) == under
                &&& !within(dst, x, y) ==> over == under
                &&& within(dst, x, y) ==> over.len() >= under.len() + wanted
                &&& within(dst, x, y) && stays_on(dst, frame.logical_size) ==> over.len()
                    == under.len() + wanted
                &&& forall|i: int|
                    under.len() <= i < over.len() ==> {
                        let layer = #[trigger] over[i];
                        &&& layer.pipeline == pipeline
                        &&& layer.texture == Some((sampler, texture.image.view))
                        &&& layer.constants.alpha == opacity
                        &&& layer.constants.color == (Vec4 { x: ONE, y: ONE, z: ONE, w: ONE })
                        &&& layer.constants.opaque == !texture.image.has_alpha
                        &&& layer.constants.conversion matches Some(applied)
                        &&& applied.from == texture.description.transfer
                        &&& applied.to == output.transfer
                        &&& applied.quotients == conversion.quotients
                        &&& applied.matrix == conversion.matrix
                        &&& layer.constants.sampling matches Some(map)
                        &&& map.source == src
                        &&& map.width == texture.image.width
                        &&& map.height == texture.image.height
                        &&& layer.constants.position.centres(
                            frame.width as int,
                            frame.height as int,
                            at.0,
                            at.1,
                            (2 * (x - dst.loc.x) + 1) * dst.size.h,
                            (2 * (y - dst.loc.y) + 1) * dst.size.w,
                            2 * dst.size.w * dst.size.h,
                        )
                    }
            }
        }),
{
    let constants = frame.texture_constants(
        texture,
        output,
        src,
        dst,
        src_transform,
        opacity,
        conversion,
    );
    let view = texture.image.view;
    let bind = Command::BindPipeline { pipeline };
    let sample = Command::PushTexture {
        layout,
        sampler,
        view,
        image_layout: crate::vulkan::ImageLayout::ShaderReadOnlyOptimal,
    };
    let push = Command::PushConstants { layout, constants };
    let none = Seq::<Command>::empty();
    lemma_paint_push(start, none, bind, edges);
    lemma_paint_push(start, none.push(bind), sample, edges);
    lemma_paint_push(start, none.push(bind).push(sample), push, edges);
    assert(seq![bind, sample, push] =~= none.push(bind).push(sample).push(push));
    let ready = Painting {
        pipeline: Some(pipeline),
        texture: Some((sampler, view)),
        constants: Some(constants),
        ..start
    };
    let times = lemma_drawn(
        frame,
        seq![bind, sample, push],
        dst,
        damage,
        start,
        ready,
        edges,
        x,
        y,
    );
    a_pixel_is_drawn_from_its_place_in_the_rectangle(frame, dst, x, y);
    let at = shown(x, y, frame.width as int, frame.height as int, frame.transform);
    let under = (start.layers)(at.0, at.1);
    let layer = Layer { pipeline, texture: Some((sampler, view)), constants };
    assert((under + repeated(layer, times)).take(under.len() as int) =~= under);
    assert(under + repeated(layer, 0) =~= under);
}

/// A clear paints every region of its list in its colour. A pixel of the desktop
/// gets one layer for each region it lies in, each of them the colour that was
/// asked for as it is, and a pixel that lies in none is left alone. Where the
/// colour is opaque, the last of these layers is all that is seen of the pixel.
pub proof fn a_clear_paints_every_region(
    frame: VulkanFrame,
    layout: u64,
    pipeline: u64,
    at: Seq<Rectangle>,
    color: Color,
    start: Painting,
    edges: spec_fn(int, int) -> bool,
    x: int,
    y: int,
)
    requires
        frame.is_valid(),
        fills_its_target(frame),
        forall|i: int| 0 <= i < at.len() ==> (#[trigger] at[i]).size.is_valid(),
        start.width == frame.width,
        start.height == frame.height,
        0 <= x < frame.logical_size.w,
        0 <= y < frame.logical_size.h,
    ensures
        ({
            let place = shown(x, y, frame.width as int, frame.height as int, frame.transform);
            let under = (start.layers)(place.0, place.1);
            &&& start.run(frame.clear_commands(layout, pipeline, at, color), edges) matches Some(
                after,
            )
            &&& after.width == start.width && after.height == start.height
            &&& {
                let over = (after.layers)(place.0, place.1);
                let cleared = exists|i: int| 0 <= i < at.len() && within(#[trigger] at[i], x, y);
                &&& !cleared ==> over == under
                &&& cleared ==> over.len() > under.len() && over.last().pipeline == pipeline
                    && over.last().constants.color == color && over.last().constants.alpha == ONE
                    && over.last().constants.sampling is None
                    && over.last().constants.conversion is None && !over.last().constants.opaque
                &&& over.len() == under.len() + covering(at, x, y)
                &&& over.take(under.len() as int) == under
            }
        }),
    decreases at.len(),
{
    let place = shown(x, y, frame.width as int, frame.height as int, frame.transform);
    let under = (start.layers)(place.0, place.1);
    a_pixel_is_counted_where_it_lies(at, x, y);
    if at.len() == 0 {
        assert(under.take(under.len() as int) =~= under);
    } else {
        let rest = at.drop_last();
        assert forall|i: int| 0 <= i < rest.len() implies (#[trigger] rest[i]).size.is_valid() by {
            assert(rest[i] == at[i]);
        }
        a_clear_paints_every_region(frame, layout, pipeline, rest, color, start, edges, x, y);
        a_pixel_is_counted_where_it_lies(rest, x, y);
        let before = start.run(frame.clear_commands(layout, pipeline, rest, color), edges)->0;
        let one = seq![at.last()];
        assert(at[at.len() - 1].size.is_valid());
        let desktop = frame.desktop();
        let constants = frame.solid_constants(desktop, color);
        let bind = Command::BindPipeline { pipeline };
        let push = Command::PushConstants { layout, constants };
        let none = Seq::<Command>::empty();
        lemma_paint_push(before, none, bind, edges);
        lemma_paint_push(before, none.push(bind), push, edges);
        assert(seq![bind, push] =~= none.push(bind).push(push));
        let ready = Painting { pipeline: Some(pipeline), constants: Some(constants), ..before };
        let times = lemma_drawn(
            frame,
            seq![bind, push],
            desktop,
            one,
            before,
            ready,
            edges,
            x,
            y,
        );
        reveal_with_fuel(covering, 2);
        assert(one.drop_last() =~= Seq::empty());
        lemma_paint_joined(
            start,
            frame.clear_commands(layout, pipeline, rest, color),
            frame.solid_commands(layout, pipeline, desktop, one, color),
            edges,
        );
        let layer = Layer { pipeline, texture: before.texture, constants };
        let middle = (before.layers)(place.0, place.1);
        let over = middle + repeated(layer, times);
        assert(times == (if within(at.last(), x, y) {
            1nat
        } else {
            0nat
        }));
        assert(over.take(under.len() as int) =~= middle.take(under.len() as int));
        assert(middle + repeated(layer, 0) =~= middle);
        if covering(rest, x, y) == 0 {
            assert(middle =~= under);
        }
    }
}

/// A pixel of the desktop is shown by the framebuffer pixel between the two
/// points that its opposite corners land on.
pub proof fn a_pixel_is_shown_where_its_corners_land(
    x: int,
    y: int,
    output_size: Size,
    transform: Transform,
)
    ensures
        ({
            let p = pixel(x, y, output_size, transform);
            let q = pixel(x + 1, y + 1, output_size, transform);
            let at = shown(x, y, output_size.w as int, output_size.h as int, transform);
            &&& (p.0, q.0) == (at.0, at.0 + 1) || (p.0, q.0) == (at.0 + 1, at.0)
            &&& (p.1, q.1) == (at.1, at.1 + 1) || (p.1, q.1) == (at.1 + 1, at.1)
        }),
{
}

/// Damage that touches a draw is never taken for nothing to draw: where some
/// pixel lies in the destination and in the damage, there is a scissor for it.
pub proof fn damage_that_is_seen_is_drawn(
    frame: VulkanFrame,
    dst: Rectangle,
    damage: Seq<Rectangle>,
    x: int,
    y: int,
)
    requires
        frame.is_valid(),
        dst.size.is_valid(),
        forall|i: int| 0 <= i < damage.len() ==> (#[trigger] damage[i]).size.is_valid(),
        0 <= x < frame.logical_size.w,
        0 <= y < frame.logical_size.h,
        within(dst, x, y),
        covering(damage, x - dst.loc.x, y - dst.loc.y) > 0,
    ensures
        scissors(dst, damage, frame.output_size, frame.transform).len() > 0,
{
    lemma_cuts(frame, dst, damage, x, y);
}

/// A clear has something to do wherever a pixel of the desktop lies in one of its
/// regions.
pub proof fn a_region_that_is_seen_is_cleared(
    frame: VulkanFrame,
    at: Seq<Rectangle>,
    i: int,
    x: int,
    y: int,
)
    requires
        frame.is_valid(),
        0 <= i < at.len(),
        at[i].size.is_valid(),
        0 <= x < frame.logical_size.w,
        0 <= y < frame.logical_size.h,
        within(at[i], x, y),
    ensures
        frame.clears(at),
        !frame.clears(Seq::empty()),
{
    let one = seq![at[i]];
    reveal_with_fuel(covering, 2);
    assert(one.drop_last() =~= Seq::empty());
    damage_that_is_seen_is_drawn(frame, frame.desktop(), one, x, y);
}

/// A scissor that starts inside the framebuffer holds the pixels of its
/// rectangle, and no other; nothing of it is negative wherever it starts.
pub proof fn a_scissor_holds_its_rectangle(rect: Rectangle, x: int, y: int)
    requires
        rect.size.is_valid(),
    ensures
        scissor_area(rect).x >= 0 && scissor_area(rect).y >= 0,
        rect.loc.x >= 0 && rect.loc.y >= 0 ==> (scissor_area(rect).holds(x, y) <==> within(
            rect,
            x,
            y,
        )),
        within(rect, x, y) && x >= 0 && y >= 0 ==> scissor_area(rect).holds(x, y),
{
}

} // verus!
