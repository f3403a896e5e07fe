//! What a recording paints.
//!
//! A model of the pixels of a render target while commands run over it, as far
//! as opaque draws of one colour go. Each pixel that a quad and the scissor cover
//! is replaced by the colour, and every other one survives.
use vstd::prelude::*;

use crate::geometry::{Point, Rectangle, Transform};
use crate::image::Image;
use crate::pipeline::{Constants, ONE};
use crate::render::{closing, opening, whole, Color};
use crate::renderer::{
    every_output_transform_clears_the_whole_target, quads, scissor_area, scissors, VulkanFrame,
};
use crate::transform::{placement, Affine};
use crate::vulkan::{Area, Command, LoadOp, Vec4};

verus! {

impl Area {
    /// Whether a pixel belongs to the area.
    pub open spec fn holds(self, x: int, y: int) -> bool {
        &&& self.x <= x < self.x + self.width
        &&& self.y <= y < self.y + self.height
    }
}

impl Affine {
    /// Whether the point `u / q`, `v / q` of a quad in clip space goes to the
    /// centre of a pixel of a target. Clip space runs from minus one to one over
    /// the whole target.
    pub open spec fn centres(
        self,
        width: int,
        height: int,
        x: int,
        y: int,
        u: int,
        v: int,
        q: int,
    ) -> bool {
        let at = self.spread(u, v, q);
        &&& at.0 * width == self.width * q * (2 * x + 1 - width)
        &&& at.1 * height == self.height * q * (2 * y + 1 - height)
    }

    /// Whether the centre of a pixel lies inside the quad.
    pub open spec fn surrounds(self, width: int, height: int, x: int, y: int) -> bool {
        exists|u: int, v: int, q: int|
            0 < u < q && 0 < v < q && #[trigger] self.centres(width, height, x, y, u, v, q)
    }

    /// Whether the centre of a pixel lies inside the quad or on its edge.
    pub open spec fn touches(self, width: int, height: int, x: int, y: int) -> bool {
        exists|u: int, v: int, q: int|
            0 < q && 0 <= u <= q && 0 <= v <= q && #[trigger] self.centres(
                width,
                height,
                x,
                y,
                u,
                v,
                q,
            )
    }
}

/// A render target with what has been set up to draw into it.
#[verifier::ext_equal]
pub struct Canvas {
    /// The extent of the viewport, which starts at the origin.
    pub width: int,
    pub height: int,
    pub scissor: Area,
    pub pipeline: Option<u64>,
    pub constants: Option<Constants>,
    /// The colour of each pixel, by column and row.
    pub pixels: spec_fn(int, int) -> Vec4,
}

impl Canvas {
    /// Whether a draw of a quad paints a pixel. `edges` is what the rasteriser
    /// makes of a pixel whose centre lies on the edge of the quad.
    pub open spec fn paints(
        self,
        quad: Affine,
        edges: spec_fn(int, int) -> bool,
        x: int,
        y: int,
    ) -> bool {
        &&& self.scissor.holds(x, y)
        &&& quad.surrounds(self.width, self.height, x, y) || (quad.touches(
            self.width,
            self.height,
            x,
            y,
        ) && edges(x, y))
    }

    /// The target with some of its pixels in one colour.
    pub open spec fn with(self, area: spec_fn(int, int) -> bool, color: Vec4) -> Canvas {
        Canvas {
            pixels: |x: int, y: int|
                if area(x, y) {
                    color
                } else {
                    (self.pixels)(x, y)
                },
            ..self
        }
    }

    /// What one command makes of the target, or `None` where this says nothing of
    /// it. `solid` is the pipeline that draws one colour.
    pub open spec fn step(
        self,
        command: Command,
        solid: u64,
        edges: spec_fn(int, int) -> bool,
    ) -> Option<Canvas> {
        match command {
            // A barrier keeps what is there, unless it says it may be lost.
            Command::Barrier { barrier, .. } => if barrier.old_layout is Undefined {
                None
            } else {
                Some(self)
            },
            Command::BeginRendering { load, area, .. } => match load {
                LoadOp::Load => Some(self),
                LoadOp::Clear(color) => Some(
                    self.with(|x: int, y: int| area.holds(x, y), color),
                ),
            },
            Command::EndRendering => Some(self),
            Command::SetViewport { width, height } => Some(
                Canvas { width: width as int, height: height as int, ..self },
            ),
            Command::SetScissor { area } => Some(Canvas { scissor: area, ..self }),
            Command::BindPipeline { pipeline } => Some(
                Canvas { pipeline: Some(pipeline), ..self },
            ),
            Command::PushConstants { constants, .. } => Some(
                Canvas { constants: Some(constants), ..self },
            ),
            // Blending adds what an opaque colour leaves of the pixel, which is
            // nothing.
            Command::Draw => match self.constants {
                Some(constants) => if self.pipeline == Some(solid) && constants.color.w == ONE
                    && constants.alpha == ONE {
                    Some(
                        self.with(
                            |x: int, y: int| self.paints(constants.position, edges, x, y),
                            constants.color,
                        ),
                    )
                } else {
                    None
                },
                None => None,
            },
            _ => None,
        }
    }

    /// What a list of commands makes of the target, or `None` where this says
    /// nothing of one of them.
    pub open spec fn run(
        self,
        commands: Seq<Command>,
        solid: u64,
        edges: spec_fn(int, int) -> bool,
    ) -> Option<Canvas>
        decreases commands.len(),
    {
        if commands.len() == 0 {
            Some(self)
        } else {
            match self.run(commands.drop_last(), solid, edges) {
                Some(before) => before.step(commands.last(), solid, edges),
                None => None,
            }
        }
    }
}

/// One more command is one more step.
proof fn lemma_run_push(
    start: Canvas,
    commands: Seq<Command>,
    command: Command,
    solid: u64,
    edges: spec_fn(int, int) -> bool,
)
    ensures
        start.run(commands.push(command), solid, edges) == (match start.run(
            commands,
            solid,
            edges,
        ) {
            Some(before) => before.step(command, solid, edges),
            None => None,
        }),
{
    assert(commands.push(command).drop_last() =~= commands);
}

/// The commands of a frame that opens a target and keeps what is there.
proof fn lemma_opened(
    start: Canvas,
    target: Image,
    solid: u64,
    edges: spec_fn(int, int) -> bool,
)
    ensures
        start.run(opening(target, LoadOp::Load), solid, edges) == Some(
            (Canvas {
                width: target.width as int,
                height: target.height as int,
                scissor: whole(target.width, target.height),
                ..start
            }),
        ),
{
    let o = opening(target, LoadOp::Load);
    let none = Seq::<Command>::empty();
    lemma_run_push(start, none, o[0], solid, edges);
    lemma_run_push(start, none.push(o[0]), o[1], solid, edges);
    lemma_run_push(start, none.push(o[0]).push(o[1]), o[2], solid, edges);
    lemma_run_push(start, none.push(o[0]).push(o[1]).push(o[2]), o[3], solid, edges);
    assert(o =~= none.push(o[0]).push(o[1]).push(o[2]).push(o[3]));
}

/// Handing a target on keeps its pixels.
proof fn lemma_closed(
    start: Canvas,
    commands: Seq<Command>,
    target: Image,
    solid: u64,
    edges: spec_fn(int, int) -> bool,
)
    ensures
        start.run(commands + closing(target), solid, edges) == start.run(commands, solid, edges),
{
    let c = closing(target);
    lemma_run_push(start, commands, c[0], solid, edges);
    lemma_run_push(start, commands.push(c[0]), c[1], solid, edges);
    assert(commands + c =~= commands.push(c[0]).push(c[1]));
}

/// One axis of a quad that runs from one end of clip space to the other, at the
/// centre of a pixel. `length` is the extent the numbers are over, `extent` that
/// of the target, and `other` that of the target along its other axis.
proof fn lemma_forward(
    along: int,
    across: int,
    origin: int,
    s: int,
    t: int,
    length: int,
    extent: int,
    other: int,
    x: int,
)
    by (nonlinear_arith)
    requires
        along == 2 * length,
        across == 0,
        origin == -length,
        s == (2 * x + 1) * other,
    ensures
        (along * s + across * t + origin * (2 * extent * other)) * extent == length * (2 * extent
            * other) * (2 * x + 1 - extent),
        (across * t + along * s + origin * (2 * extent * other)) * extent == length * (2 * extent
            * other) * (2 * x + 1 - extent),
{
}

/// The same of an axis that runs the other way.
proof fn lemma_backward(
    along: int,
    across: int,
    origin: int,
    s: int,
    t: int,
    length: int,
    extent: int,
    other: int,
    x: int,
)
    by (nonlinear_arith)
    requires
        along == -2 * length,
        across == 0,
        origin == length,
        s == 2 * extent * other - (2 * x + 1) * other,
    ensures
        (along * s + across * t + origin * (2 * extent * other)) * extent == length * (2 * extent
            * other) * (2 * x + 1 - extent),
        (across * t + along * s + origin * (2 * extent * other)) * extent == length * (2 * extent
            * other) * (2 * x + 1 - extent),
{
}

/// The centre of a pixel is inside its target.
proof fn lemma_centre_inside(x: int, extent: int, other: int)
    by (nonlinear_arith)
    requires
        0 <= x < extent,
        0 < other,
    ensures
        0 < (2 * x + 1) * other < 2 * extent * other,
        2 * extent * other == 2 * other * extent,
{
}

/// The quad over the whole desktop surrounds the centre of every pixel of the
/// target, whatever the transform.
pub proof fn every_pixel_is_inside_the_desktop(
    frame: VulkanFrame,
    width: int,
    height: int,
    x: int,
    y: int,
)
    requires
        frame.is_valid(),
        0 <= x < width,
        0 <= y < height,
    ensures
        placement(frame.desktop(), frame.output_size, frame.transform).surrounds(
            width,
            height,
            x,
            y,
        ),
{
    let map = placement(frame.desktop(), frame.output_size, frame.transform);
    let w = frame.output_size.w as int;
    let h = frame.output_size.h as int;
    let q = 2 * width * height;
    // Where the centre lies along each axis of the target, over `q`.
    let a = (2 * x + 1) * height;
    let b = (2 * y + 1) * width;
    let (u, v) = match frame.transform {
        Transform::Normal => (a, b),
        Transform::_90 => (b, q - a),
        Transform::_180 => (q - a, q - b),
        Transform::_270 => (q - b, a),
        Transform::Flipped => (q - a, b),
        Transform::Flipped90 => (q - b, q - a),
        Transform::Flipped180 => (a, q - b),
        Transform::Flipped270 => (b, a),
    };
    lemma_centre_inside(x, width, height);
    lemma_centre_inside(y, height, width);
    let (right, down, origin) = (map.right, map.down, map.origin);
    match frame.transform {
        Transform::Normal => {
            lemma_forward(right.x as int, down.x as int, origin.x as int, u, v, w, width, height, x);
            lemma_forward(down.y as int, right.y as int, origin.y as int, v, u, h, height, width, y);
        },
        Transform::_90 => {
            lemma_backward(down.x as int, right.x as int, origin.x as int, v, u, w, width, height, x);
            lemma_forward(right.y as int, down.y as int, origin.y as int, u, v, h, height, width, y);
        },
        Transform::_180 => {
            lemma_backward(right.x as int, down.x as int, origin.x as int, u, v, w, width, height, x);
            lemma_backward(down.y as int, right.y as int, origin.y as int, v, u, h, height, width, y);
        },
        Transform::_270 => {
            lemma_forward(down.x as int, right.x as int, origin.x as int, v, u, w, width, height, x);
            lemma_backward(right.y as int, down.y as int, origin.y as int, u, v, h, height, width, y);
        },
        Transform::Flipped => {
            lemma_backward(right.x as int, down.x as int, origin.x as int, u, v, w, width, height, x);
            lemma_forward(down.y as int, right.y as int, origin.y as int, v, u, h, height, width, y);
        },
        Transform::Flipped90 => {
            lemma_backward(down.x as int, right.x as int, origin.x as int, v, u, w, width, height, x);
            lemma_backward(right.y as int, down.y as int, origin.y as int, u, v, h, height, width, y);
        },
        Transform::Flipped180 => {
            lemma_forward(right.x as int, down.x as int, origin.x as int, u, v, w, width, height, x);
            lemma_backward(down.y as int, right.y as int, origin.y as int, v, u, h, height, width, y);
        },
        Transform::Flipped270 => {
            lemma_forward(down.x as int, right.x as int, origin.x as int, v, u, w, width, height, x);
            lemma_forward(right.y as int, down.y as int, origin.y as int, u, v, h, height, width, y);
        },
    }
    assert(map.centres(width, height, x, y, u, v, q));
}

/// The colour of each pixel once a framebuffer with an extent is cleared.
proof fn lemma_cleared(
    frame: VulkanFrame,
    target: Image,
    layout: u64,
    pipeline: u64,
    color: Color,
    start: Canvas,
    edges: spec_fn(int, int) -> bool,
)
    requires
        frame.is_valid(),
        frame.width == target.width,
        frame.height == target.height,
        target.width <= frame.output_size.w,
        target.height <= frame.output_size.h,
        frame.output_size.w > 0,
        frame.output_size.h > 0,
        color.w == ONE,
    ensures
        start.run(
            opening(target, LoadOp::Load) + frame.clear_commands(
                layout,
                pipeline,
                seq![frame.desktop()],
                color,
            ),
            pipeline,
            edges,
        ) matches Some(after) && forall|x: int, y: int|
            0 <= x < target.width && 0 <= y < target.height ==> #[trigger] (after.pixels)(x, y)
                == color,
{
    let desktop = frame.desktop();
    let opened = opening(target, LoadOp::Load);
    let drawn = frame.clear_commands(layout, pipeline, seq![desktop], color);
    let area = scissor_area(
        Rectangle { loc: Point { x: 0, y: 0 }, size: frame.output_size },
    );
    every_output_transform_clears_the_whole_target(frame);
    let rects = scissors(desktop, seq![desktop], frame.output_size, frame.transform);
    let constants = frame.solid_constants(desktop, color);
    let bind = Command::BindPipeline { pipeline };
    let push = Command::PushConstants { layout, constants };
    let cut = Command::SetScissor { area };
    let back = Command::SetScissor { area: whole(frame.width, frame.height) };
    assert(quads(rects) =~= seq![cut, Command::Draw]) by {
        reveal_with_fuel(quads, 2);
        assert(rects.drop_last() =~= Seq::empty());
    }
    assert(drawn =~= seq![bind, push, cut, Command::Draw, back]) by {
        reveal_with_fuel(VulkanFrame::clear_commands, 2);
        assert(seq![desktop].drop_last() =~= Seq::empty());
    }
    let c1 = opened.push(bind);
    let c2 = c1.push(push);
    let c3 = c2.push(cut);
    let c4 = c3.push(Command::Draw);
    lemma_opened(start, target, pipeline, edges);
    lemma_run_push(start, opened, bind, pipeline, edges);
    lemma_run_push(start, c1, push, pipeline, edges);
    lemma_run_push(start, c2, cut, pipeline, edges);
    lemma_run_push(start, c3, Command::Draw, pipeline, edges);
    lemma_run_push(start, c4, back, pipeline, edges);
    assert(opened + drawn =~= c4.push(back));
    let ready = start.run(c3, pipeline, edges)->0;
    let after = start.run(opened + drawn, pipeline, edges)->0;
    assert forall|x: int, y: int| 0 <= x < target.width && 0 <= y < target.height implies #[trigger] (
    after.pixels)(x, y) == color by {
        every_pixel_is_inside_the_desktop(
            frame,
            target.width as int,
            target.height as int,
            x,
            y,
        );
        assert(ready.paints(constants.position, edges, x, y));
    }
}

/// Clearing the whole desktop to an opaque colour leaves every pixel of the
/// target that colour, whatever the transform, whatever was there, and whatever
/// the rasteriser makes of edges. The framebuffer is at least as large as the
/// target.
pub proof fn a_clear_of_the_desktop_leaves_one_colour(
    frame: VulkanFrame,
    target: Image,
    claimed: Image,
    layout: u64,
    pipeline: u64,
    color: Color,
    start: Canvas,
    edges: spec_fn(int, int) -> bool,
)
    requires
        frame.is_valid(),
        frame.width == target.width,
        frame.height == target.height,
        target.width <= frame.output_size.w,
        target.height <= frame.output_size.h,
        color.w == ONE,
    ensures
        start.run(
            opening(target, LoadOp::Load) + frame.clear_commands(
                layout,
                pipeline,
                seq![frame.desktop()],
                color,
            ) + closing(claimed),
            pipeline,
            edges,
        ) matches Some(after) && forall|x: int, y: int|
            0 <= x < target.width && 0 <= y < target.height ==> #[trigger] (after.pixels)(x, y)
                == color,
{
    let desktop = frame.desktop();
    let opened = opening(target, LoadOp::Load);
    let drawn = frame.clear_commands(layout, pipeline, seq![desktop], color);
    lemma_opened(start, target, pipeline, edges);
    lemma_closed(start, opened + drawn, claimed, pipeline, edges);
    if frame.output_size.w == 0 || frame.output_size.h == 0 {
        // There is no pixel, and nothing is drawn.
        let rects = scissors(desktop, seq![desktop], frame.output_size, frame.transform);
        assert(rects =~= Seq::empty()) by {
            reveal_with_fuel(scissors, 2);
            assert(seq![desktop].drop_last() =~= Seq::empty());
        }
        assert(drawn =~= Seq::empty()) by {
            reveal_with_fuel(VulkanFrame::clear_commands, 2);
            assert(seq![desktop].drop_last() =~= Seq::empty());
        }
        assert(opened + drawn =~= opened);
    } else {
        lemma_cleared(frame, target, layout, pipeline, color, start, edges);
    }
}

/// Clearing nothing changes no pixel.
pub proof fn a_clear_of_nothing_changes_no_pixel(
    frame: VulkanFrame,
    target: Image,
    claimed: Image,
    layout: u64,
    pipeline: u64,
    color: Color,
    start: Canvas,
    edges: spec_fn(int, int) -> bool,
)
    ensures
        start.run(
            opening(target, LoadOp::Load) + frame.clear_commands(
                layout,
                pipeline,
                Seq::empty(),
                color,
            ) + closing(claimed),
            pipeline,
            edges,
        ) matches Some(after) && after.pixels == start.pixels,
{
    let opened = opening(target, LoadOp::Load);
    assert(opened + frame.clear_commands(layout, pipeline, Seq::empty(), color) =~= opened);
    lemma_opened(start, target, pipeline, edges);
    lemma_closed(start, opened, claimed, pipeline, edges);
}

/// Beginning a frame with a colour leaves every pixel of the target that colour,
/// and beginning it without one leaves every pixel as it was.
pub proof fn a_frame_begins_with_its_colour(
    target: Image,
    color: Color,
    solid: u64,
    start: Canvas,
    edges: spec_fn(int, int) -> bool,
)
    ensures
        start.run(opening(target, LoadOp::Clear(color)), solid, edges) matches Some(after)
            && forall|x: int, y: int|
            0 <= x < target.width && 0 <= y < target.height ==> #[trigger] (after.pixels)(x, y)
                == color,
        start.run(opening(target, LoadOp::Load), solid, edges) matches Some(after) && after.pixels
            == start.pixels,
{
    lemma_opened(start, target, solid, edges);
    let o = opening(target, LoadOp::Clear(color));
    let none = Seq::<Command>::empty();
    lemma_run_push(start, none, o[0], solid, edges);
    lemma_run_push(start, none.push(o[0]), o[1], solid, edges);
    lemma_run_push(start, none.push(o[0]).push(o[1]), o[2], solid, edges);
    lemma_run_push(start, none.push(o[0]).push(o[1]).push(o[2]), o[3], solid, edges);
    assert(o =~= none.push(o[0]).push(o[1]).push(o[2]).push(o[3]));
}

} // verus!
