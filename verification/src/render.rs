//! Recording a frame into a render target.
use vstd::prelude::*;

use crate::error::Error;
use crate::image::{Image, Purpose};
use crate::text::{append_decimal, decimal};
use crate::vulkan::{
    Area, Command, ImageLayout, LoadOp, Recording, Stages, Vec4, QUEUE_FAMILY_FOREIGN_EXT,
};

verus! {

/// A colour: red, green, blue, alpha, each by the bits of its single-precision
/// form.
///
/// This is the format's component order, not the byte order in memory.
pub type Color = Vec4;

/// The whole of a target.
pub open spec fn whole(width: u32, height: u32) -> Area {
    Area { x: 0, y: 0, width, height }
}

/// The commands that claim a target and start rendering into it.
///
/// Viewport and scissor are dynamic state, so they have to be set even when
/// they cover the whole target.
pub open spec fn opening(target: Image, load: LoadOp) -> Seq<Command> {
    seq![
        Command::Barrier {
            src: Stages::TopOfPipe,
            dst: Stages::ColorAttachmentOutput,
            barrier: target.acquiring(ImageLayout::General, ImageLayout::ColorAttachmentOptimal),
        },
        Command::BeginRendering {
            view: target.view,
            layout: ImageLayout::ColorAttachmentOptimal,
            load,
            area: whole(target.width, target.height),
        },
        Command::SetViewport { width: target.width, height: target.height },
        Command::SetScissor { area: whole(target.width, target.height) },
    ]
}

/// The commands that end rendering and hand the target on.
pub open spec fn closing(target: Image) -> Seq<Command> {
    seq![
        Command::EndRendering,
        Command::Barrier {
            src: Stages::ColorAttachmentOutput,
            dst: Stages::BottomOfPipe,
            barrier: target.releasing(ImageLayout::ColorAttachmentOptimal),
        },
    ]
}

/// Claim a target and start rendering into it.
pub(crate) fn open_target(target: &mut Image, load: LoadOp) -> (commands: Vec<Command>)
    ensures
        commands@ == opening(*old(target), load),
        !final(target).foreign,
        final(target).same_image(*old(target)),
{
    let area = Area { x: 0, y: 0, width: target.width, height: target.height };
    // Claim the image before touching it. Until this runs it belongs to whoever
    // allocated it.
    let barrier = target.acquire_barrier(ImageLayout::ColorAttachmentOptimal);
    let commands = vec![
        Command::Barrier {
            src: Stages::TopOfPipe,
            dst: Stages::ColorAttachmentOutput,
            barrier,
        },
        Command::BeginRendering {
            view: target.view,
            layout: ImageLayout::ColorAttachmentOptimal,
            load,
            area,
        },
        Command::SetViewport { width: target.width, height: target.height },
        Command::SetScissor { area },
    ];
    assert(commands@ =~= opening(*old(target), load));
    commands
}

/// End rendering and hand the target on.
pub(crate) fn close_target(target: &mut Image) -> (commands: Vec<Command>)
    ensures
        commands@ == closing(*old(target)),
        final(target).foreign,
        final(target).same_image(*old(target)),
{
    // Whoever reads it next, the display, another API or a CPU mapping, is not
    // this queue family, and without this its contents are undefined for them.
    let barrier = target.release_barrier(ImageLayout::ColorAttachmentOptimal);
    let commands = vec![
        Command::EndRendering,
        Command::Barrier {
            src: Stages::ColorAttachmentOutput,
            dst: Stages::BottomOfPipe,
            barrier,
        },
    ];
    assert(commands@ =~= closing(*old(target)));
    commands
}

impl Image {
    /// The image as it reads in a message.
    pub open spec fn text(self) -> Seq<char> {
        "Image { size: ("@ + decimal(self.width as int) + ", "@ + decimal(self.height as int)
            + "), format: "@ + self.format.text() + ", purpose: "@ + (match self.purpose {
            Purpose::Sample => "Sample"@,
            Purpose::Render => "Render"@,
        }) + " }"@
    }

    /// Add the image, as it reads in a message, at the end of `text`.
    pub fn append_to(&self, text: &mut String)
        ensures
            final(text)@ == old(text)@ + self.text(),
    {
        let ghost before = text@;
        text.append("Image { size: (");
        append_decimal(text, self.width as u64);
        text.append(", ");
        append_decimal(text, self.height as u64);
        text.append("), format: ");
        text.append(self.format.name());
        text.append(", purpose: ");
        match self.purpose {
            Purpose::Sample => {
                text.append("Sample");
            },
            Purpose::Render => {
                text.append("Render");
            },
        }
        text.append(" }");
        assert(text@ =~= before + self.text());
    }
}

/// A frame being recorded into a render target.
#[derive(Debug)]
pub struct Frame {
    /// The command buffer it is recorded in.
    pub buffer: u64,
}

impl Frame {
    /// Whether an image can be rendered into at all.
    ///
    /// An image imported for sampling lacks the usage a target needs, and
    /// nothing but this would catch it.
    pub fn accepts(target: &Image) -> (accepts: Result<(), Error>)
        ensures
            match accepts {
                Ok(()) => target.purpose is Render,
                Err(error) => !(target.purpose is Render) && error is Other && error.text()
                    == target.text() + " was imported for sampling, not rendering"@,
            },
    {
        if target.purpose == Purpose::Render {
            return Ok(());
        }
        let mut text = String::new();
        target.append_to(&mut text);
        text.append(" was imported for sampling, not rendering");
        assert(text@ =~= target.text() + " was imported for sampling, not rendering"@);
        Err(Error::Other(text))
    }

    /// Begin rendering into `target`, clearing it to `clear`: the frame and what
    /// to record.
    ///
    /// The clear is part of beginning rather than a separate command because it
    /// is free there where an explicit clear is not.
    pub fn begin(buffer: u64, target: &mut Image, clear: Option<Color>) -> (begun: Result<
        (Frame, Vec<Command>),
        Error,
    >)
        ensures
            match begun {
                Ok((frame, commands)) => {
                    &&& old(target).purpose is Render
                    &&& frame.buffer == buffer
                    &&& commands@ == opening(
                        *old(target),
                        match clear {
                            Some(color) => LoadOp::Clear(color),
                            None => LoadOp::Load,
                        },
                    )
                    &&& !final(target).foreign
                    &&& final(target).same_image(*old(target))
                },
                Err(error) => {
                    &&& !(old(target).purpose is Render)
                    &&& error is Other
                    &&& error.text() == old(target).text()
                        + " was imported for sampling, not rendering"@
                    &&& *final(target) == *old(target)
                },
            },
    {
        match Frame::accepts(target) {
            Ok(()) => {},
            Err(error) => {
                return Err(error);
            },
        }
        let load = match clear {
            Some(color) => LoadOp::Clear(color),
            // A partial redraw needs what was there.
            None => LoadOp::Load,
        };
        let commands = open_target(target, load);
        Ok((Frame { buffer }, commands))
    }

    /// The command buffer the frame is recorded in.
    pub fn command_buffer(&self) -> (buffer: u64)
        ensures
            buffer == self.buffer,
    {
        self.buffer
    }

    /// End rendering and release the image: what to record before submitting.
    ///
    /// Does not wait. The caller either exports a fence or waits itself;
    /// blocking here would defeat the point of explicit sync.
    pub fn finish(self, target: &mut Image) -> (commands: Vec<Command>)
        ensures
            commands@ == closing(*old(target)),
            final(target).foreign,
            final(target).same_image(*old(target)),
    {
        close_target(target)
    }
}

/// The commands in between belong inside rendering: they move no image and
/// leave rendering as it is.
pub open spec fn draws(commands: Seq<Command>) -> bool {
    forall|i: int|
        0 <= i < commands.len() ==> match #[trigger] commands[i] {
            Command::SetViewport { .. } => true,
            Command::SetScissor { .. } => true,
            Command::BindPipeline { .. } => true,
            Command::PushTexture { .. } => true,
            Command::PushConstants { .. } => true,
            Command::Draw => true,
            _ => false,
        }
}

/// Drawing changes nothing about a recording that is rendering.
pub proof fn lemma_draws_keep_the_recording(start: Recording, commands: Seq<Command>)
    requires
        start.rendering,
        draws(commands),
    ensures
        start.run(commands) == Some(start),
    decreases commands.len(),
{
    if commands.len() > 0 {
        let rest = commands.drop_last();
        assert forall|i: int| 0 <= i < rest.len() implies match #[trigger] rest[i] {
            Command::SetViewport { .. } => true,
            Command::SetScissor { .. } => true,
            Command::BindPipeline { .. } => true,
            Command::PushTexture { .. } => true,
            Command::PushConstants { .. } => true,
            Command::Draw => true,
            _ => false,
        } by {
            assert(rest[i] == commands[i]);
        }
        lemma_draws_keep_the_recording(start, rest);
        assert(commands.last() == commands[commands.len() - 1]);
    }
}

/// A whole frame, from claiming the target to handing it on, is a recording
/// Vulkan allows, whatever is drawn in between. The target starts and ends in
/// the layout others expect it in, every other image is left alone, and no
/// image changes layout or owner while rendering.
pub proof fn a_frame_is_a_legal_recording(
    target: Image,
    claimed: Image,
    load: LoadOp,
    drawn: Seq<Command>,
    start: Recording,
)
    requires
        claimed.same_image(target),
        draws(drawn),
        !start.rendering,
        start.has(target.image, ImageLayout::General),
    ensures
        start.run(opening(target, load) + drawn + closing(claimed)) == Some(start),
{
    let open = opening(target, load);
    let close = closing(claimed);
    let inside = Recording {
        rendering: true,
        layouts: start.layouts.insert(target.image, ImageLayout::ColorAttachmentOptimal),
    };
    reveal_with_fuel(Recording::run, 5);
    assert(open.drop_last() =~= seq![open[0], open[1], open[2]]);
    assert(open.drop_last().drop_last() =~= seq![open[0], open[1]]);
    assert(open.drop_last().drop_last().drop_last() =~= seq![open[0]]);
    assert(open.drop_last().drop_last().drop_last().drop_last() =~= Seq::empty());
    assert(start.run(open) == Some(inside));
    lemma_draws_keep_the_recording(inside, drawn);
    crate::vulkan::lemma_run_joined(start, open, drawn);
    crate::vulkan::lemma_run_joined(start, open + drawn, close);
    assert(close.drop_last() =~= seq![close[0]]);
    assert(close.drop_last().drop_last() =~= Seq::empty());
    let outside = Recording { rendering: false, layouts: inside.layouts };
    assert(outside.after(target.releasing(ImageLayout::ColorAttachmentOptimal)) =~= start);
}

/// Every frame hands its target back to whoever was outside, so the next frame
/// claims it exactly as the first one did.
pub proof fn every_frame_claims_its_target_from_outside(
    bound: Image,
    claimed: Image,
    released: Image,
    load: LoadOp,
)
    requires
        bound.foreign,
        claimed.same_image(bound),
        released.same_image(claimed),
        released.foreign,
    ensures
        opening(released, load) == opening(bound, load),
        closing(claimed)[1] matches Command::Barrier { barrier, .. } && barrier.dst_queue_family
            == QUEUE_FAMILY_FOREIGN_EXT,
{
}

/// A frame is drawn into its own target: rendering starts in that target's view,
/// over the whole of it, and does to what was there what was asked for. Nothing
/// is cut off at first, and what is drawn is handed on with the target.
pub proof fn a_frame_is_drawn_into_its_target(target: Image, load: LoadOp, x: int, y: int)
    ensures
        ({
            let open = opening(target, load);
            let close = closing(target);
            &&& open[0] matches Command::Barrier { dst, barrier, .. } && dst
                is ColorAttachmentOutput && barrier.image == target.image && barrier.old_layout
                is General && barrier.new_layout is ColorAttachmentOptimal
            &&& open[1] matches Command::BeginRendering { view, layout, load: l, area } && view
                == target.view && layout is ColorAttachmentOptimal && l == load && (area.x <= x
                < area.x + area.width && area.y <= y < area.y + area.height <==> 0 <= x
                < target.width && 0 <= y < target.height)
            &&& open[2] matches Command::SetViewport { width, height } && width == target.width
                && height == target.height
            &&& open[3] matches Command::SetScissor { area } && (area.x <= x < area.x + area.width
                && area.y <= y < area.y + area.height <==> 0 <= x < target.width && 0 <= y
                < target.height)
            &&& open.len() == 4
            &&& close.len() == 2
            &&& close[0] is EndRendering
            &&& close[1] matches Command::Barrier { src, barrier, .. } && src
                is ColorAttachmentOutput && barrier.image == target.image && barrier.old_layout
                is ColorAttachmentOptimal && barrier.src_access is ColorAttachmentWrite
        }),
{
}

} // verus!
