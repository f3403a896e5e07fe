//! Vulkan images over DMA-BUFs.
//!
//! A client hands the compositor a DMA-BUF, and it has to become something a
//! shader can sample without anyone copying pixels. The image has to be created
//! with the same memory layout the allocator used, which is what the modifier
//! and the per-plane offsets and pitches describe.
use vstd::prelude::*;

use crate::error::{caused, Error};
use crate::format::{Fourcc, VkFormat};
use crate::geometry::Size;
use crate::vulkan::{
    Access, Barrier, ImageLayout, Object, Usage, YcbcrKey, QUEUE_FAMILY_FOREIGN_EXT,
    QUEUE_FAMILY_IGNORED,
};

verus! {

/// What an image is for, which decides its usage and initial layout.
#[derive(Debug, Clone, Copy, PartialEq, Eq, Structural)]
pub enum Purpose {
    /// A client buffer or the shell's buffer: sampled by the compositor.
    Sample,
    /// An output buffer: rendered into, then scanned out.
    Render,
}

impl Purpose {
    /// The usage an image needs to serve the purpose at all.
    pub open spec fn needs(self) -> Usage {
        Usage {
            sampled: self is Sample,
            color_attachment: self is Render,
            transfer_src: false,
            transfer_dst: false,
        }
    }

    /// The usage an image needs to serve the purpose at all.
    pub(crate) fn usage(self) -> (usage: Usage)
        ensures
            usage == self.needs(),
    {
        match self {
            Purpose::Sample => Usage {
                sampled: true,
                color_attachment: false,
                transfer_src: false,
                transfer_dst: false,
            },
            Purpose::Render => Usage {
                sampled: false,
                color_attachment: true,
                transfer_src: false,
                transfer_dst: false,
            },
        }
    }
}

/// What an image this renderer allocates is used for.
///
/// A source of copies as well as a destination, because unlike an imported
/// buffer there is no modifier to negotiate: it may as well be readable, which
/// is what a screenshot of an shm surface needs.
pub open spec fn allocated_usage() -> Usage {
    Usage { sampled: true, color_attachment: false, transfer_src: true, transfer_dst: true }
}

/// The file a plane of a DMA-BUF lives in: its device and inode.
#[derive(Debug, Clone, Copy, PartialEq, Eq, Structural)]
pub struct Identity {
    pub dev: u64,
    pub ino: u64,
}

/// One plane of a DMA-BUF.
#[derive(Debug)]
pub struct Plane {
    pub fd: i32,
    pub offset: u32,
    pub stride: u32,
    /// The file behind the descriptor, or why the system would not say.
    pub identity: Result<Identity, String>,
}

/// A buffer shared by file descriptor, as it is described to us.
#[derive(Debug)]
pub struct Dmabuf {
    pub code: Fourcc,
    pub modifier: u64,
    pub size: Size,
    pub planes: Vec<Plane>,
}

/// The distinct elements of a sequence, in the order of their first appearance.
pub open spec fn firsts(identities: Seq<Identity>) -> Seq<Identity>
    decreases identities.len(),
{
    if identities.len() == 0 {
        Seq::empty()
    } else {
        let before = firsts(identities.drop_last());
        if before.contains(identities.last()) {
            before
        } else {
            before.push(identities.last())
        }
    }
}

/// No element is listed twice, nothing is lost, and nothing is made up.
pub proof fn lemma_firsts(identities: Seq<Identity>)
    ensures
        firsts(identities).no_duplicates(),
        firsts(identities).len() <= identities.len(),
        forall|i: int|
            0 <= i < identities.len() ==> firsts(identities).contains(#[trigger] identities[i]),
        forall|i: int|
            0 <= i < firsts(identities).len() ==> identities.contains(
                #[trigger] firsts(identities)[i],
            ),
    decreases identities.len(),
{
    if identities.len() > 0 {
        let rest = identities.drop_last();
        lemma_firsts(rest);
        let before = firsts(rest);
        let all = firsts(identities);
        assert forall|i: int| 0 <= i < identities.len() implies all.contains(
            #[trigger] identities[i],
        ) by {
            if i < rest.len() {
                assert(before.contains(rest[i]));
                let k = choose|k: int| 0 <= k < before.len() && before[k] == rest[i];
                assert(all[k] == identities[i]);
            } else if before.contains(identities.last()) {
            } else {
                assert(all[all.len() - 1] == identities.last());
            }
        }
        assert forall|i: int| 0 <= i < all.len() implies identities.contains(#[trigger] all[i]) by {
            if i < before.len() {
                assert(rest.contains(before[i]));
                let k = choose|k: int| 0 <= k < rest.len() && rest[k] == before[i];
                assert(identities[k] == all[i]);
            } else {
                assert(identities[identities.len() - 1] == all[i]);
            }
        }
    }
}

impl Dmabuf {
    /// The file behind each plane, where the system named them all.
    pub open spec fn identities(self) -> Seq<Identity> {
        self.planes@.map_values(|p: Plane| p.identity->Ok_0)
    }

    /// The first plane whose file the system would not name, or how many
    /// planes there are.
    pub open spec fn unnamed(self) -> int {
        unnamed_index(self.planes@)
    }

    /// How many separate allocations the planes live in.
    pub open spec fn allocations(self) -> int {
        firsts(self.identities()).len() as int
    }

    /// Why the planes cannot be told apart, or `None` where they can.
    pub open spec fn confusion(self) -> Option<Seq<char>> {
        if self.unnamed() < self.planes@.len() {
            Some(
                caused(
                    "fstat on a dmabuf plane"@,
                    self.planes@[self.unnamed()].identity->Err_0@,
                ),
            )
        } else if self.planes@.len() == 0 {
            Some("dmabuf has no planes"@)
        } else {
            None
        }
    }
}

/// The first plane whose file the system would not name, or how many planes
/// there are.
pub open spec fn unnamed_index(planes: Seq<Plane>) -> int
    decreases planes.len(),
{
    if planes.len() == 0 || planes[0].identity is Err {
        0
    } else {
        1 + unnamed_index(planes.skip(1))
    }
}

/// One entry per plane: which distinct allocation it lives in.
///
/// `[0, 0]` is a two-plane buffer packed into one DMA-BUF, which is what a
/// hardware decoder normally produces. `[0, 1]` is one DMA-BUF per plane, which
/// has to be bound disjointly.
///
/// Two descriptors onto the same buffer are two different numbers, so they
/// cannot be compared. The DMA-BUF itself is a file, and its inode identifies
/// it.
pub fn distinct_allocations(buffer: &Dmabuf) -> (which: Result<Vec<usize>, Error>)
    ensures
        match which {
            Ok(which) => {
                &&& buffer.confusion() is None
                &&& which@.len() == buffer.planes@.len()
                &&& forall|i: int|
                    0 <= i < which@.len() ==> 0 <= #[trigger] which@[i] < buffer.allocations()
                        && firsts(buffer.identities())[which@[i] as int] == buffer.identities()[i]
            },
            Err(error) => error is Other && buffer.confusion() == Some(error.text()),
        },
{
    let mut seen: Vec<Identity> = Vec::new();
    let mut which: Vec<usize> = Vec::new();
    let planes = &buffer.planes;
    let ghost ids = buffer.identities();
    proof {
        assert(planes@.skip(0) =~= planes@);
        assert(ids.take(0) =~= Seq::<Identity>::empty());
    }
    for i in 0..planes.len()
        invariant
            planes@ == buffer.planes@,
            ids == buffer.identities(),
            ids.len() == planes@.len(),
            buffer.unnamed() == i + unnamed_index(planes@.skip(i as int)),
            seen@ == firsts(ids.take(i as int)),
            which@.len() == i,
            forall|j: int|
                0 <= j < i ==> 0 <= #[trigger] which@[j] < seen@.len() && seen@[which@[j] as int]
                    == ids[j],
    {
        proof {
            assert(planes@.skip(i as int).skip(1) =~= planes@.skip(i + 1));
            assert(planes@.skip(i as int)[0] == planes@[i as int]);
        }
        let identity = match &planes[i].identity {
            Ok(identity) => *identity,
            Err(cause) => {
                return Err(Error::because("fstat on a dmabuf plane", cause.as_str()));
            },
        };
        assert(identity == ids[i as int]);
        assert(ids.take(i + 1).drop_last() =~= ids.take(i as int));
        let mut index: usize = 0;
        while index < seen.len() && seen[index] != identity
            invariant
                index <= seen@.len(),
                forall|k: int| 0 <= k < index ==> seen@[k] != identity,
            decreases seen@.len() - index,
        {
            index = index + 1;
        }
        if index == seen.len() {
            assert(!seen@.contains(identity));
            seen.push(identity);
        } else {
            assert(seen@.contains(identity));
        }
        which.push(index);
    }
    proof {
        assert(ids.take(ids.len() as int) =~= ids);
        assert(planes@.skip(planes@.len() as int).len() == 0);
    }
    if which.len() == 0 {
        return Err(Error::Other("dmabuf has no planes".to_owned()));
    }
    Ok(which)
}

/// Two planes share an allocation exactly where they are given the same number,
/// and the numbers run from zero up to the count of allocations.
pub proof fn planes_share_an_allocation_exactly_where_they_share_a_file(
    buffer: Dmabuf,
    which: Seq<usize>,
    i: int,
    j: int,
)
    requires
        which.len() == buffer.planes@.len(),
        forall|k: int|
            0 <= k < which.len() ==> 0 <= #[trigger] which[k] < buffer.allocations() && firsts(
                buffer.identities(),
            )[which[k] as int] == buffer.identities()[k],
        0 <= i < which.len(),
        0 <= j < which.len(),
    ensures
        which[i] == which[j] <==> buffer.identities()[i] == buffer.identities()[j],
        forall|n: usize| n < buffer.allocations() ==> #[trigger] which.contains(n),
{
    let ids = buffer.identities();
    lemma_firsts(ids);
    assert forall|n: usize| n < buffer.allocations() implies #[trigger] which.contains(n) by {
        assert(ids.contains(firsts(ids)[n as int]));
        let k = choose|k: int| 0 <= k < ids.len() && ids[k] == firsts(ids)[n as int];
        assert(firsts(ids)[which[k] as int] == firsts(ids)[n as int]);
        assert(which[k] == n);
    }
}

/// A Vulkan image, with what the renderer has to remember about it.
#[derive(Debug)]
pub struct Image {
    pub image: u64,
    /// One entry per distinct allocation behind the image. A single-plane
    /// buffer, and a multi-planar one whose planes are offsets into one
    /// allocation, both have exactly one; only a disjoint import has more.
    pub memory: Vec<u64>,
    pub view: u64,
    /// Set when this image is sampled through a YCbCr conversion.
    pub ycbcr: Option<YcbcrKey>,
    pub width: u32,
    pub height: u32,
    pub format: VkFormat,
    /// The DRM format it was imported as. Kept because the Vulkan format cannot
    /// distinguish XRGB from ARGB.
    pub fourcc: Fourcc,
    pub has_alpha: bool,
    pub purpose: Purpose,
    pub usage: Usage,
    /// Whether somebody else owns the image: at import, and again after every
    /// [`Image::release_barrier`]. A render target is handed back at the end of
    /// each frame, so the next frame has to claim it again.
    pub foreign: bool,
    /// The queue family of the device the image belongs to.
    pub queue_family: u32,
}

impl Image {
    /// What has to be given back when the image goes, in order. The conversion
    /// is not part of it: it is shared with every other image of the format.
    pub open spec fn owned(self) -> Seq<Object> {
        seq![Object::ImageView(self.view), Object::Image(self.image)] + memories(self.memory@)
    }

    /// Everything but who owns the image.
    pub open spec fn same_image(self, other: Image) -> bool {
        self == (Image { foreign: self.foreign, ..other })
    }

    /// The driver's handle.
    pub fn handle(&self) -> (handle: u64)
        ensures
            handle == self.image,
    {
        self.image
    }

    /// The view the image is drawn or sampled through.
    pub fn view(&self) -> (view: u64)
        ensures
            view == self.view,
    {
        self.view
    }

    pub fn width(&self) -> (width: u32)
        ensures
            width == self.width,
    {
        self.width
    }

    pub fn height(&self) -> (height: u32)
        ensures
            height == self.height,
    {
        self.height
    }

    pub fn format(&self) -> (format: VkFormat)
        ensures
            format == self.format,
    {
        self.format
    }

    pub fn fourcc(&self) -> (fourcc: Fourcc)
        ensures
            fourcc == self.fourcc,
    {
        self.fourcc
    }

    pub fn has_alpha(&self) -> (has: bool)
        ensures
            has == self.has_alpha,
    {
        self.has_alpha
    }

    /// The conversion this image is sampled through, if it is YUV.
    pub fn ycbcr(&self) -> (key: Option<YcbcrKey>)
        ensures
            key == self.ycbcr,
    {
        self.ycbcr
    }

    pub fn purpose(&self) -> (purpose: Purpose)
        ensures
            purpose == self.purpose,
    {
        self.purpose
    }

    /// Whether this image can be the source of a copy, that is, whether it can
    /// be read back into memory at all.
    pub fn is_readable(&self) -> (readable: bool)
        ensures
            readable == self.usage.transfer_src,
    {
        self.usage.transfer_src
    }

    /// Whether this image can be the destination of a copy or a blit.
    pub fn is_writable(&self) -> (writable: bool)
        ensures
            writable == self.usage.transfer_dst,
    {
        self.usage.transfer_dst
    }

    /// What has to be given back when the image goes, in order.
    pub fn release(&self) -> (objects: Vec<Object>)
        ensures
            objects@ == self.owned(),
    {
        let mut objects: Vec<Object> = Vec::new();
        objects.push(Object::ImageView(self.view));
        objects.push(Object::Image(self.image));
        append_memories(&mut objects, &self.memory);
        objects
    }

    /// A barrier handing the image back to whoever will consume it next.
    ///
    /// After rendering, the image goes to the display, to another API, or to a
    /// CPU mapping, none of which are this queue family. And it is foreign
    /// again afterwards: a target is bound once and reused for every frame, so
    /// every frame has to claim it.
    pub fn release_barrier(&mut self, from: ImageLayout) -> (barrier: Barrier)
        ensures
            barrier == old(self).releasing(from),
            final(self).foreign,
            final(self).same_image(*old(self)),
    {
        self.foreign = true;
        Barrier {
            src_access: Access::ColorAttachmentWrite,
            dst_access: Access::Empty,
            old_layout: from,
            new_layout: ImageLayout::General,
            src_queue_family: self.queue_family,
            dst_queue_family: QUEUE_FAMILY_FOREIGN_EXT,
            image: self.image,
        }
    }

    /// The barrier that hands the image back.
    pub open spec fn releasing(self, from: ImageLayout) -> Barrier {
        Barrier {
            src_access: Access::ColorAttachmentWrite,
            dst_access: Access::Empty,
            old_layout: from,
            new_layout: ImageLayout::General,
            src_queue_family: self.queue_family,
            dst_queue_family: QUEUE_FAMILY_FOREIGN_EXT,
            image: self.image,
        }
    }

    /// The barrier that claims the image, wherever it is.
    pub open spec fn acquiring(self, from: ImageLayout, to: ImageLayout) -> Barrier {
        Barrier {
            src_access: Access::Empty,
            dst_access: match self.purpose {
                Purpose::Sample => Access::ShaderRead,
                Purpose::Render => Access::ColorAttachmentWrite,
            },
            old_layout: from,
            new_layout: to,
            src_queue_family: if self.foreign {
                QUEUE_FAMILY_FOREIGN_EXT
            } else {
                self.queue_family
            },
            dst_queue_family: self.queue_family,
            image: self.image,
        }
    }

    /// A barrier taking ownership of the image from whoever produced it.
    ///
    /// From `General`, not `Undefined`, and the difference matters: `Undefined`
    /// tells the driver the contents may be thrown away, which for a client
    /// buffer means the pixels the client just painted.
    pub fn acquire_barrier(&mut self, layout: ImageLayout) -> (barrier: Barrier)
        ensures
            barrier == old(self).acquiring(ImageLayout::General, layout),
            !final(self).foreign,
            final(self).same_image(*old(self)),
    {
        self.acquire_barrier_from(ImageLayout::General, layout)
    }

    /// [`Image::acquire_barrier`] with an explicit source layout.
    pub fn acquire_barrier_from(&mut self, from: ImageLayout, to: ImageLayout) -> (barrier: Barrier)
        ensures
            barrier == old(self).acquiring(from, to),
            !final(self).foreign,
            final(self).same_image(*old(self)),
    {
        let src_family: u32 = if self.foreign {
            QUEUE_FAMILY_FOREIGN_EXT
        } else {
            self.queue_family
        };
        self.foreign = false;
        Barrier {
            src_access: Access::Empty,
            dst_access: match self.purpose {
                Purpose::Sample => Access::ShaderRead,
                Purpose::Render => Access::ColorAttachmentWrite,
            },
            old_layout: from,
            new_layout: to,
            src_queue_family: src_family,
            dst_queue_family: self.queue_family,
            image: self.image,
        }
    }

    /// A plain layout transition on an image this renderer already owns.
    pub fn transition(
        &self,
        from: ImageLayout,
        to: ImageLayout,
        src_access: Access,
        dst_access: Access,
    ) -> (barrier: Barrier)
        ensures
            barrier == moving(self.image, from, to, src_access, dst_access),
    {
        Barrier {
            src_access,
            dst_access,
            old_layout: from,
            new_layout: to,
            src_queue_family: QUEUE_FAMILY_IGNORED,
            dst_queue_family: QUEUE_FAMILY_IGNORED,
            image: self.image,
        }
    }
}

/// A layout transition that moves no ownership.
pub open spec fn moving(
    image: u64,
    from: ImageLayout,
    to: ImageLayout,
    src_access: Access,
    dst_access: Access,
) -> Barrier {
    Barrier {
        src_access,
        dst_access,
        old_layout: from,
        new_layout: to,
        src_queue_family: QUEUE_FAMILY_IGNORED,
        dst_queue_family: QUEUE_FAMILY_IGNORED,
        image,
    }
}

/// Allocations as objects, in order.
pub open spec fn memories(memory: Seq<u64>) -> Seq<Object> {
    memory.map_values(|m: u64| Object::Memory(m))
}

/// Add some allocations at the end of a list of objects.
pub(crate) fn append_memories(objects: &mut Vec<Object>, memory: &Vec<u64>)
    ensures
        final(objects)@ == old(objects)@ + memories(memory@),
{
    let ghost before = objects@;
    for i in 0..memory.len()
        invariant
            objects@ == before + memories(memory@.take(i as int)),
    {
        objects.push(Object::Memory(memory[i]));
        assert(memories(memory@.take(i + 1)) =~= memories(memory@.take(i as int)).push(
            Object::Memory(memory@[i as int]),
        ));
        assert(objects@ =~= before + memories(memory@.take(i + 1)));
    }
    assert(memory@.take(memory@.len() as int) =~= memory@);
}

/// Ownership goes back and forth. The first claim of an imported image takes it
/// from outside; a second claim finds it already here; and once it is released,
/// the next claim takes it from outside again.
pub proof fn a_released_image_has_to_be_claimed_again(
    imported: Image,
    claimed: Image,
    released: Image,
    from: ImageLayout,
    to: ImageLayout,
)
    requires
        imported.foreign,
        claimed.same_image(imported),
        !claimed.foreign,
        released.same_image(claimed),
        released.foreign,
    ensures
        imported.acquiring(from, to).src_queue_family == QUEUE_FAMILY_FOREIGN_EXT,
        imported.acquiring(from, to).dst_queue_family == imported.queue_family,
        claimed.acquiring(from, to).src_queue_family == imported.queue_family,
        claimed.releasing(to).src_queue_family == imported.acquiring(from, to).dst_queue_family,
        claimed.releasing(to).dst_queue_family == QUEUE_FAMILY_FOREIGN_EXT,
        released.acquiring(from, to) == imported.acquiring(from, to),
{
}

/// A claim is of the image itself, keeps what is in it, and makes it visible to
/// what the image is for. A release hands on what was drawn, in the layout
/// everybody outside expects.
pub proof fn a_claim_and_a_release_are_of_the_image(
    image: Image,
    from: ImageLayout,
    to: ImageLayout,
)
    ensures
        ({
            let claim = image.acquiring(from, to);
            let release = image.releasing(from);
            &&& claim.image == image.image && release.image == image.image
            &&& claim.old_layout == from && claim.new_layout == to
            &&& claim.dst_queue_family == image.queue_family
            &&& claim.dst_access == (match image.purpose {
                Purpose::Sample => Access::ShaderRead,
                Purpose::Render => Access::ColorAttachmentWrite,
            })
            &&& release.old_layout == from && release.new_layout is General
            &&& release.src_access is ColorAttachmentWrite
            &&& release.src_queue_family == image.queue_family
        }),
{
}

/// A plain transition moves one image from one layout to another and changes no
/// owner.
pub proof fn a_transition_is_of_its_image(
    image: u64,
    from: ImageLayout,
    to: ImageLayout,
    src_access: Access,
    dst_access: Access,
)
    ensures
        ({
            let barrier = moving(image, from, to, src_access, dst_access);
            &&& barrier.image == image
            &&& barrier.old_layout == from && barrier.new_layout == to
            &&& barrier.src_access == src_access && barrier.dst_access == dst_access
            &&& barrier.src_queue_family == barrier.dst_queue_family
            &&& barrier.src_queue_family != QUEUE_FAMILY_FOREIGN_EXT
        }),
{
}

/// An image that is sampled can be sampled and one that is rendered into can be
/// rendered into, and neither can be both. An image this renderer allocates can
/// be sampled, filled and read back.
pub proof fn an_image_can_do_what_it_is_for(purpose: Purpose)
    ensures
        purpose.needs().sampled <==> purpose is Sample,
        purpose.needs().color_attachment <==> purpose is Render,
        allocated_usage().sampled && allocated_usage().transfer_src
            && allocated_usage().transfer_dst && !allocated_usage().color_attachment,
{
}

/// A finished image gives back its view, its image and each of its allocations,
/// each once.
pub proof fn an_image_gives_back_all_it_is_made_of(image: Image, i: int)
    requires
        0 <= i < image.memory@.len(),
    ensures
        image.owned().len() == image.memory@.len() + 2,
        image.owned().contains(Object::ImageView(image.view)),
        image.owned().contains(Object::Image(image.image)),
        image.owned().contains(Object::Memory(image.memory@[i])),
        // The view goes before the image, and the image before its memory.
        image.owned()[0] == Object::ImageView(image.view),
        image.owned()[1] == Object::Image(image.image),
{
    let all = image.owned();
    assert(all[2 + i] == Object::Memory(image.memory@[i]));
}

/// The planes that cannot be told apart are those of a buffer without any, or
/// with one whose file the system would not name.
pub proof fn planes_are_told_apart_where_every_file_is_named(buffer: Dmabuf)
    ensures
        buffer.confusion() is None <==> buffer.planes@.len() > 0 && forall|i: int|
            0 <= i < buffer.planes@.len() ==> (#[trigger] buffer.planes@[i]).identity is Ok,
{
    lemma_unnamed(buffer.planes@);
}

proof fn lemma_unnamed(planes: Seq<Plane>)
    ensures
        0 <= unnamed_index(planes) <= planes.len(),
        unnamed_index(planes) == planes.len() <==> forall|i: int|
            0 <= i < planes.len() ==> (#[trigger] planes[i]).identity is Ok,
    decreases planes.len(),
{
    if planes.len() > 0 {
        let rest = planes.skip(1);
        lemma_unnamed(rest);
        if forall|i: int| 0 <= i < planes.len() ==> (#[trigger] planes[i]).identity is Ok {
            assert(planes[0].identity is Ok);
            assert forall|i: int| 0 <= i < rest.len() implies (#[trigger] rest[i]).identity
                is Ok by {
                assert(rest[i] == planes[i + 1]);
            }
        }
        if planes[0].identity is Ok && unnamed_index(rest) == rest.len() {
            assert forall|i: int| 0 <= i < planes.len() implies (#[trigger] planes[i]).identity
                is Ok by {
                if i > 0 {
                    assert(rest[i - 1] == planes[i]);
                }
            }
        }
    }
}

} // verus!
