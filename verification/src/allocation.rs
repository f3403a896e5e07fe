//! Allocating an image the renderer owns outright, step by step.
use vstd::prelude::*;

use vstd::multiset::Multiset;

use crate::device::{device_local, Device};
use crate::error::{call_failure, Error};
use crate::format::{alpha, has_alpha, to_vulkan, vulkan_format, Fourcc, VkFormat};
use crate::image::{allocated_usage, Image, Purpose};
use crate::vulkan::{Call, ImageInfo, Object, PlaneLayout, Progress, Reply, Tiling, Usage};

verus! {

/// Where an allocation has got to: the request that comes next.
#[derive(Debug, Clone, Copy, PartialEq, Eq, Structural)]
#[allow(inconsistent_fields)]
pub enum AllocationStage {
    CreateImage,
    Requirements { image: u64 },
    Allocate { image: u64, size: u64, memory_type: u32 },
    Bind { image: u64, memory: u64 },
    CreateView { image: u64, memory: u64 },
}

/// An allocation under way.
#[derive(Debug, Clone, Copy, PartialEq, Eq, Structural)]
pub struct Allocation {
    pub width: u32,
    pub height: u32,
    pub fourcc: Fourcc,
    pub format: VkFormat,
    pub queue_family: u32,
    pub stage: AllocationStage,
}

impl Image {
    /// Start allocating an image this renderer owns outright.
    ///
    /// Unlike [`Image::import`] there is no DMA-BUF and no modifier: the driver
    /// picks an optimal tiling, because nothing outside this device will ever
    /// look at the memory. This is what shm client buffers are copied into.
    pub fn allocate(device: &Device, width: u32, height: u32, fourcc: Fourcc) -> (allocation:
        Result<Allocation, Error>)
        ensures
            match allocation {
                Ok(allocation) => {
                    &&& vulkan_format(fourcc) matches Some(format)
                    &&& allocation == (Allocation {
                        width,
                        height,
                        fourcc,
                        format,
                        queue_family: device.queue_family,
                        stage: AllocationStage::CreateImage,
                    })
                },
                Err(error) => vulkan_format(fourcc) is None && error is Other && error.text()
                    == "no Vulkan format for "@ + fourcc.text(),
            },
    {
        match to_vulkan(fourcc) {
            Some(format) => Ok(
                Allocation {
                    width,
                    height,
                    fourcc,
                    format,
                    queue_family: device.queue_family(),
                    stage: AllocationStage::CreateImage,
                },
            ),
            None => {
                let mut text = String::new();
                text.append("no Vulkan format for ");
                fourcc.append_to(&mut text);
                assert(text@ =~= "no Vulkan format for "@ + fourcc.text());
                Err(Error::Other(text))
            },
        }
    }
}

impl Allocation {
    /// The next request.
    pub fn call(&self) -> (call: Call)
        ensures
            self.asks(call),
    {
        match self.stage {
            AllocationStage::CreateImage => Call::CreateImage(
                ImageInfo {
                    format: self.format,
                    width: self.width,
                    height: self.height,
                    usage: Usage {
                        sampled: true,
                        color_attachment: false,
                        transfer_src: true,
                        transfer_dst: true,
                    },
                    tiling: Tiling::Optimal,
                    planes: Vec::new(),
                    disjoint: false,
                },
            ),
            AllocationStage::Requirements { image } => Call::ImageRequirements {
                image,
                plane: None,
            },
            AllocationStage::Allocate { size, memory_type, .. } => Call::AllocateMemory {
                size,
                memory_type,
            },
            AllocationStage::Bind { image, memory } => Call::BindImage { image, memory },
            AllocationStage::CreateView { image, .. } => Call::CreateView {
                image,
                format: self.format,
                conversion: None,
            },
        }
    }

    /// Whether a request is the one this stage makes.
    pub open spec fn asks(self, call: Call) -> bool {
        match self.stage {
            AllocationStage::CreateImage => call matches Call::CreateImage(info) && info.format
                == self.format && info.width == self.width && info.height == self.height
                && info.usage == allocated_usage() && info.tiling is Optimal && info.planes@
                == Seq::<PlaneLayout>::empty() && !info.disjoint,
            AllocationStage::Requirements { image } => call == Call::ImageRequirements {
                image,
                plane: None,
            },
            AllocationStage::Allocate { size, memory_type, .. } => call == Call::AllocateMemory {
                size,
                memory_type,
            },
            AllocationStage::Bind { image, memory } => call == Call::BindImage { image, memory },
            AllocationStage::CreateView { image, .. } => call == Call::CreateView {
                image,
                format: self.format,
                conversion: None,
            },
        }
    }

    /// Whether a reply is one that this stage's request can get.
    pub open spec fn fits(self, reply: Reply) -> bool {
        match self.stage {
            AllocationStage::Requirements { .. } => reply is Requirements,
            AllocationStage::Bind { .. } => reply is Done || reply is Failed,
            _ => reply is Handle || reply is Failed,
        }
    }

    /// Why a reply ends the allocation, or `None` where it does not.
    pub open spec fn failure(self, device: Device, reply: Reply) -> Option<Seq<char>> {
        match (self.stage, reply) {
            (AllocationStage::CreateImage, Reply::Failed(code)) => Some(
                call_failure("vkCreateImage"@, code),
            ),
            (
                AllocationStage::Requirements { .. },
                Reply::Requirements { memory_types, .. },
            ) => if device.is_first(memory_types, device_local(), None) {
                Some("no device-local memory type"@)
            } else {
                None
            },
            (AllocationStage::Allocate { .. }, Reply::Failed(code)) => Some(
                call_failure("vkAllocateMemory"@, code),
            ),
            (AllocationStage::Bind { .. }, Reply::Failed(code)) => Some(
                call_failure("vkBindImageMemory"@, code),
            ),
            (AllocationStage::CreateView { .. }, Reply::Failed(code)) => Some(
                call_failure("vkCreateImageView"@, code),
            ),
            _ => None,
        }
    }

    /// Whether a stage is the one a reply leads to.
    pub open spec fn reaches(self, device: Device, reply: Reply, stage: AllocationStage) -> bool {
        match (self.stage, reply) {
            (AllocationStage::CreateImage, Reply::Handle(image)) => stage
                == AllocationStage::Requirements { image },
            (
                AllocationStage::Requirements { image },
                Reply::Requirements { size, memory_types },
            ) => stage matches AllocationStage::Allocate { image: i, size: s, memory_type } && i
                == image && s == size && device.is_first(
                memory_types,
                device_local(),
                Some(memory_type),
            ),
            (AllocationStage::Allocate { image, .. }, Reply::Handle(memory)) => stage
                == AllocationStage::Bind { image, memory },
            (AllocationStage::Bind { image, memory }, Reply::Done) => stage
                == AllocationStage::CreateView { image, memory },
            _ => false,
        }
    }

    /// What has been made so far, in the order it is released in.
    pub open spec fn held(self) -> Seq<Object> {
        match self.stage {
            AllocationStage::CreateImage => seq![],
            AllocationStage::Requirements { image } => seq![Object::Image(image)],
            AllocationStage::Allocate { image, .. } => seq![Object::Image(image)],
            AllocationStage::Bind { image, memory } => seq![
                Object::Memory(memory),
                Object::Image(image),
            ],
            AllocationStage::CreateView { image, memory } => seq![
                Object::Memory(memory),
                Object::Image(image),
            ],
        }
    }

    /// Whether an image is the one this allocation was for.
    pub open spec fn finishes(self, reply: Reply, image: Image) -> bool {
        &&& self.stage matches AllocationStage::CreateView { image: i, memory }
        &&& reply matches Reply::Handle(view)
        &&& image.image == i
        &&& image.memory@ == seq![memory]
        &&& image.view == view
        &&& image.ycbcr is None
        &&& image.width == self.width
        &&& image.height == self.height
        &&& image.format == self.format
        &&& image.fourcc == self.fourcc
        &&& image.has_alpha == alpha(self.fourcc)
        &&& image.purpose is Sample
        &&& image.usage == allocated_usage()
        &&& !image.foreign
        &&& image.queue_family == self.queue_family
    }

    /// What a reply leads to.
    pub open spec fn leads_to(
        self,
        device: Device,
        reply: Reply,
        progress: Progress<Allocation, Image>,
    ) -> bool {
        match progress {
            Progress::Next(next) => {
                &&& self.failure(device, reply) is None
                &&& self.reaches(device, reply, next.stage)
                &&& next == (Allocation { stage: next.stage, ..self })
            },
            Progress::Done(image) => self.failure(device, reply) is None && self.finishes(
                reply,
                image,
            ),
            Progress::Failed { release, error } => {
                &&& error is Other
                &&& self.failure(device, reply) == Some(error.text())
                &&& release@ == self.held()
            },
        }
    }

    /// End the allocation, giving back everything that was made on the way.
    fn fail(&self, error: Error) -> (progress: Progress<Allocation, Image>)
        ensures
            progress matches Progress::Failed { release, error: e } && release@ == self.held() && e
                == error,
    {
        let release = match self.stage {
            AllocationStage::CreateImage => vec![],
            AllocationStage::Requirements { image } => vec![Object::Image(image)],
            AllocationStage::Allocate { image, .. } => vec![Object::Image(image)],
            AllocationStage::Bind { image, memory } => vec![
                Object::Memory(memory),
                Object::Image(image),
            ],
            AllocationStage::CreateView { image, memory } => vec![
                Object::Memory(memory),
                Object::Image(image),
            ],
        };
        assert(release@ =~= self.held());
        Progress::Failed { release, error }
    }

    /// Take the reply to this stage's request.
    pub fn reply(self, device: &Device, reply: Reply) -> (progress: Progress<Allocation, Image>)
        requires
            device.physical.is_valid(),
            self.fits(reply),
        ensures
            self.leads_to(*device, reply, progress),
    {
        let mut next = self;
        match (self.stage, reply) {
            (AllocationStage::CreateImage, Reply::Handle(image)) => {
                next.stage = AllocationStage::Requirements { image };
                Progress::Next(next)
            },
            (AllocationStage::CreateImage, Reply::Failed(code)) => self.fail(
                Error::call("vkCreateImage", code),
            ),
            (
                AllocationStage::Requirements { image },
                Reply::Requirements { size, memory_types },
            ) => match device.device_local_type(memory_types) {
                Some(memory_type) => {
                    next.stage = AllocationStage::Allocate { image, size, memory_type };
                    Progress::Next(next)
                },
                None => self.fail(Error::Other("no device-local memory type".to_owned())),
            },
            (AllocationStage::Allocate { image, .. }, Reply::Handle(memory)) => {
                next.stage = AllocationStage::Bind { image, memory };
                Progress::Next(next)
            },
            (AllocationStage::Allocate { .. }, Reply::Failed(code)) => self.fail(
                Error::call("vkAllocateMemory", code),
            ),
            (AllocationStage::Bind { image, memory }, Reply::Done) => {
                next.stage = AllocationStage::CreateView { image, memory };
                Progress::Next(next)
            },
            (AllocationStage::Bind { .. }, Reply::Failed(code)) => self.fail(
                Error::call("vkBindImageMemory", code),
            ),
            (AllocationStage::CreateView { image, memory }, Reply::Handle(view)) => {
                let allocated: Vec<u64> = vec![memory];
                assert(allocated@ =~= seq![memory]);
                Progress::Done(
                    Image {
                        image,
                        memory: allocated,
                        view,
                        // Allocated images are what shm buffers are copied into,
                        // and that copy targets ordinary colour.
                        ycbcr: None,
                        width: self.width,
                        height: self.height,
                        format: self.format,
                        fourcc: self.fourcc,
                        has_alpha: has_alpha(self.fourcc),
                        purpose: Purpose::Sample,
                        usage: Usage {
                            sampled: true,
                            color_attachment: false,
                            transfer_src: true,
                            transfer_dst: true,
                        },
                        // Ours from the moment it is created.
                        foreign: false,
                        queue_family: self.queue_family,
                    },
                )
            },
            (AllocationStage::CreateView { .. }, Reply::Failed(code)) => self.fail(
                Error::call("vkCreateImageView", code),
            ),
            _ => {
                assert(false);
                self.fail(Error::Other(String::new()))
            },
        }
    }
}

/// An allocation loses nothing: whatever it holds, and whatever a request made,
/// is held at the next stage, owned by the finished image, or released when the
/// allocation fails.
pub proof fn an_allocation_loses_nothing(
    allocation: Allocation,
    device: Device,
    reply: Reply,
    progress: Progress<Allocation, Image>,
)
    requires
        allocation.fits(reply),
        allocation.leads_to(device, reply, progress),
    ensures
        ({
            let made = match (allocation.stage, reply) {
                (AllocationStage::CreateImage, Reply::Handle(image)) => Multiset::singleton(
                    Object::Image(image),
                ),
                (AllocationStage::Allocate { .. }, Reply::Handle(memory)) => Multiset::singleton(
                    Object::Memory(memory),
                ),
                (AllocationStage::CreateView { .. }, Reply::Handle(view)) => Multiset::singleton(
                    Object::ImageView(view),
                ),
                _ => Multiset::empty(),
            };
            let kept = allocation.held().to_multiset().add(made);
            match progress {
                Progress::Next(next) => next.held().to_multiset() == kept,
                Progress::Done(image) => image.owned().to_multiset() == kept,
                Progress::Failed { release, .. } => release@.to_multiset() == kept,
            }
        }),
{
    broadcast use vstd::seq_lib::group_to_multiset_ensures;

    let none = Seq::<Object>::empty();
    match (allocation.stage, reply) {
        (AllocationStage::CreateImage, Reply::Handle(image)) => {
            assert(seq![Object::Image(image)] =~= none.push(Object::Image(image)));
            assert(allocation.held() =~= none);
        },
        (AllocationStage::Allocate { image, .. }, Reply::Handle(memory)) => {
            let (i, m) = (Object::Image(image), Object::Memory(memory));
            assert(seq![m, i] =~= none.push(m).push(i));
            assert(seq![i] =~= none.push(i));
        },
        (AllocationStage::CreateView { image, memory }, Reply::Handle(view)) => {
            let (i, m, v) = (
                Object::Image(image),
                Object::Memory(memory),
                Object::ImageView(view),
            );
            assert(seq![m, i] =~= none.push(m).push(i));
            match progress {
                Progress::Done(result) => {
                    assert(result.owned() =~= none.push(v).push(i).push(m));
                },
                _ => {},
            }
        },
        _ => {},
    }
}

/// An image is allocated as it was asked for. The driver is asked for that size
/// and format, to be sampled, filled and read back; memory of the size it needs,
/// of a type on the device itself, is bound to it; and the finished image says so
/// of itself, belongs to nobody else, and has the alpha its format has.
pub proof fn an_image_is_allocated_as_it_was_asked_for(
    allocation: Allocation,
    device: Device,
    call: Call,
    reply: Reply,
    progress: Progress<Allocation, Image>,
)
    requires
        allocation.fits(reply),
        allocation.asks(call),
        allocation.leads_to(device, reply, progress),
    ensures
        allocation.stage is CreateImage ==> (call matches Call::CreateImage(info) && {
            &&& info.width == allocation.width && info.height == allocation.height
            &&& info.format == allocation.format
            &&& info.usage.sampled && info.usage.transfer_src && info.usage.transfer_dst
            &&& info.tiling is Optimal && !info.disjoint
        }),
        allocation.stage matches AllocationStage::Requirements { image } ==> {
            &&& call == Call::ImageRequirements { image, plane: None }
            &&& progress matches Progress::Next(next) ==> {
                &&& next.stage matches AllocationStage::Allocate { image: i, size, memory_type }
                &&& i == image
                &&& reply matches Reply::Requirements { size: s, memory_types }
                &&& s == size
                &&& memory_types & (1u32 << memory_type) != 0
                &&& memory_type < device.physical.memory_types@.len()
                &&& device.physical.memory_types@[memory_type as int] & 1 == 1
            }
        },
        allocation.stage matches AllocationStage::Allocate { size, memory_type, .. } ==> call
            == (Call::AllocateMemory { size, memory_type }),
        allocation.stage matches AllocationStage::Bind { image, memory } ==> call
            == (Call::BindImage { image, memory }),
        allocation.stage matches AllocationStage::CreateView { image, .. } ==> call
            == (Call::CreateView { image, format: allocation.format, conversion: None }),
        progress matches Progress::Next(next) ==> {
            &&& next.width == allocation.width && next.height == allocation.height
            &&& next.format == allocation.format && next.fourcc == allocation.fourcc
        },
        progress matches Progress::Done(made) ==> {
            &&& allocation.stage matches AllocationStage::CreateView { image, memory }
                && made.image == image && made.memory@ == seq![memory]
            &&& made.width == allocation.width && made.height == allocation.height
            &&& made.format == allocation.format && made.fourcc == allocation.fourcc
            &&& made.has_alpha == alpha(allocation.fourcc)
            &&& made.usage.sampled && made.usage.transfer_src && made.usage.transfer_dst
            &&& made.purpose is Sample && !made.foreign && made.ycbcr is None
            &&& made.queue_family == allocation.queue_family
        },
{
}

} // verus!
