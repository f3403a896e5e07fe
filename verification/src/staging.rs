//! Host-visible buffers, for getting pixels from the CPU onto the GPU.
//!
//! Only shm clients need this. A DMA-BUF is already GPU memory and is imported
//! in place; an shm buffer is a chunk of shared memory the client wrote with
//! the CPU, so it has to be copied.
use vstd::prelude::*;

use vstd::multiset::Multiset;

use crate::device::{host_coherent, Device};
use crate::error::{call_failure, Error};
use crate::text::{append_decimal, decimal};
use crate::vulkan::{Call, Object, Progress, Reply};

verus! {

/// A host-visible, host-coherent buffer used as a copy source.
///
/// Coherent rather than manually flushed: the writes are one copy immediately
/// before a submit, and coherent memory removes a step that is easy to forget.
#[derive(Debug, Clone, Copy, PartialEq, Eq, Structural)]
pub struct Staging {
    pub buffer: u64,
    pub memory: u64,
    /// Where the memory is mapped. Mapped once and left mapped.
    pub mapped: u64,
    pub size: u64,
}

/// Where the making of a staging buffer has got to: the request that comes
/// next.
#[derive(Debug, Clone, Copy, PartialEq, Eq, Structural)]
#[allow(inconsistent_fields)]
pub enum StagingStage {
    CreateBuffer,
    Requirements { buffer: u64 },
    Allocate { buffer: u64, required: u64, memory_type: u32 },
    Bind { buffer: u64, required: u64, memory: u64 },
    MapMemory { buffer: u64, required: u64, memory: u64 },
}

/// A staging buffer being made.
#[derive(Debug, Clone, Copy, PartialEq, Eq, Structural)]
pub struct StagingSetup {
    pub size: u64,
    pub stage: StagingStage,
}

impl Staging {
    /// Start making a buffer of `size` bytes.
    pub fn new(size: u64) -> (setup: Result<StagingSetup, Error>)
        ensures
            match setup {
                Ok(setup) => size > 0 && setup == (StagingSetup {
                    size,
                    stage: StagingStage::CreateBuffer,
                }),
                Err(error) => size == 0 && error is Other && error.text()
                    == "a zero-sized staging buffer"@,
            },
    {
        if size == 0 {
            return Err(Error::Other("a zero-sized staging buffer".to_owned()));
        }
        Ok(StagingSetup { size, stage: StagingStage::CreateBuffer })
    }

    /// The driver's handle.
    pub fn handle(&self) -> (handle: u64)
        ensures
            handle == self.buffer,
    {
        self.buffer
    }

    /// How many bytes were asked for.
    pub fn size(&self) -> (size: u64)
        ensures
            size == self.size,
    {
        self.size
    }

    /// Why some bytes cannot be copied in at an offset, or `None` where they
    /// can.
    pub open spec fn overrun(self, offset: int, len: int) -> Option<Seq<char>> {
        if offset + len > usize::MAX {
            Some("staging write overflows"@)
        } else if offset + len > self.size {
            Some(
                "staging write of "@ + decimal(len) + " bytes at "@ + decimal(offset)
                    + " exceeds the "@ + decimal(self.size as int) + " byte buffer"@,
            )
        } else {
            None
        }
    }

    /// Whether `data` can be copied in at `offset`.
    pub fn write(&self, offset: usize, data: &[u8]) -> (room: Result<(), Error>)
        ensures
            match room {
                Ok(()) => self.overrun(offset as int, data@.len() as int) is None,
                Err(error) => error is Other && self.overrun(offset as int, data@.len() as int)
                    == Some(error.text()),
            },
    {
        let end: usize = match offset.checked_add(data.len()) {
            Some(end) => end,
            None => {
                return Err(Error::Other("staging write overflows".to_owned()));
            },
        };
        if end as u64 <= self.size {
            return Ok(());
        }
        let mut text = String::new();
        text.append("staging write of ");
        append_decimal(&mut text, data.len() as u64);
        text.append(" bytes at ");
        append_decimal(&mut text, offset as u64);
        text.append(" exceeds the ");
        append_decimal(&mut text, self.size);
        text.append(" byte buffer");
        assert(text@ =~= "staging write of "@ + decimal(data@.len() as int) + " bytes at "@
            + decimal(offset as int) + " exceeds the "@ + decimal(self.size as int)
            + " byte buffer"@);
        Err(Error::Other(text))
    }

    /// What has to be given back when the buffer goes, in order.
    pub open spec fn owned(self) -> Seq<Object> {
        seq![Object::Mapping(self.memory), Object::Buffer(self.buffer), Object::Memory(self.memory)]
    }

    /// What has to be given back when the buffer goes, in order.
    pub fn release(&self) -> (objects: Vec<Object>)
        ensures
            objects@ == self.owned(),
    {
        let objects = vec![
            Object::Mapping(self.memory),
            Object::Buffer(self.buffer),
            Object::Memory(self.memory),
        ];
        assert(objects@ =~= self.owned());
        objects
    }
}

/// A write that is let through stays inside the buffer, and every write that
/// would is let through.
pub proof fn a_write_stays_inside_the_buffer(staging: Staging, offset: int, len: int)
    requires
        0 <= offset <= usize::MAX,
        0 <= len <= usize::MAX,
        staging.size <= usize::MAX,
    ensures
        staging.overrun(offset, len) is None <==> offset + len <= staging.size,
{
}

impl StagingSetup {
    /// The request this stage makes.
    pub open spec fn asks(self) -> Call {
        match self.stage {
            StagingStage::CreateBuffer => Call::CreateBuffer { size: self.size },
            StagingStage::Requirements { buffer } => Call::BufferRequirements { buffer },
            StagingStage::Allocate { required, memory_type, .. } => Call::AllocateMemory {
                size: required,
                memory_type,
            },
            StagingStage::Bind { buffer, memory, .. } => Call::BindBuffer { buffer, memory },
            StagingStage::MapMemory { required, memory, .. } => Call::MapMemory {
                memory,
                size: required,
            },
        }
    }

    /// The next request.
    pub fn call(&self) -> (call: Call)
        ensures
            call == self.asks(),
    {
        match self.stage {
            StagingStage::CreateBuffer => Call::CreateBuffer { size: self.size },
            StagingStage::Requirements { buffer } => Call::BufferRequirements { buffer },
            StagingStage::Allocate { required, memory_type, .. } => Call::AllocateMemory {
                size: required,
                memory_type,
            },
            StagingStage::Bind { buffer, memory, .. } => Call::BindBuffer { buffer, memory },
            StagingStage::MapMemory { required, memory, .. } => Call::MapMemory {
                memory,
                size: required,
            },
        }
    }

    /// Whether a reply is one that this stage's request can get.
    pub open spec fn fits(self, reply: Reply) -> bool {
        match self.stage {
            StagingStage::Requirements { .. } => reply is Requirements,
            StagingStage::Bind { .. } => reply is Done || reply is Failed,
            _ => reply is Handle || reply is Failed,
        }
    }

    /// Why a reply ends the setup, or `None` where it does not.
    pub open spec fn failure(self, device: Device, reply: Reply) -> Option<Seq<char>> {
        match (self.stage, reply) {
            (StagingStage::CreateBuffer, Reply::Failed(code)) => Some(
                call_failure("vkCreateBuffer"@, code),
            ),
            (
                StagingStage::Requirements { .. },
                Reply::Requirements { memory_types, .. },
            ) => if device.is_first(memory_types, host_coherent(), None) {
                Some("no host-visible coherent memory type"@)
            } else {
                None
            },
            (StagingStage::Allocate { .. }, Reply::Failed(code)) => Some(
                call_failure("vkAllocateMemory"@, code),
            ),
            (StagingStage::Bind { .. }, Reply::Failed(code)) => Some(
                call_failure("vkBindBufferMemory"@, code),
            ),
            (StagingStage::MapMemory { .. }, Reply::Failed(code)) => Some(
                call_failure("vkMapMemory"@, code),
            ),
            _ => None,
        }
    }

    /// Whether a stage is the one a reply leads to.
    pub open spec fn reaches(self, device: Device, reply: Reply, stage: StagingStage) -> bool {
        match (self.stage, reply) {
            (StagingStage::CreateBuffer, Reply::Handle(buffer)) => stage
                == StagingStage::Requirements { buffer },
            (
                StagingStage::Requirements { buffer },
                Reply::Requirements { size, memory_types },
            ) => stage matches StagingStage::Allocate { buffer: b, required, memory_type } && b
                == buffer && required == size && device.is_first(
                memory_types,
                host_coherent(),
                Some(memory_type),
            ),
            (StagingStage::Allocate { buffer, required, .. }, Reply::Handle(memory)) => stage
                == StagingStage::Bind { buffer, required, memory },
            (StagingStage::Bind { buffer, required, memory }, Reply::Done) => stage
                == StagingStage::MapMemory { buffer, required, memory },
            _ => false,
        }
    }

    /// What has been made so far, in the order it is released in.
    pub open spec fn held(self) -> Seq<Object> {
        match self.stage {
            StagingStage::CreateBuffer => seq![],
            StagingStage::Requirements { buffer } => seq![Object::Buffer(buffer)],
            StagingStage::Allocate { buffer, .. } => seq![Object::Buffer(buffer)],
            StagingStage::Bind { buffer, memory, .. } => seq![
                Object::Memory(memory),
                Object::Buffer(buffer),
            ],
            StagingStage::MapMemory { buffer, memory, .. } => seq![
                Object::Memory(memory),
                Object::Buffer(buffer),
            ],
        }
    }

    /// What a reply leads to.
    pub open spec fn leads_to(
        self,
        device: Device,
        reply: Reply,
        progress: Progress<StagingSetup, Staging>,
    ) -> bool {
        match progress {
            Progress::Next(next) => {
                &&& self.failure(device, reply) is None
                &&& self.reaches(device, reply, next.stage)
                &&& next.size == self.size
            },
            Progress::Done(staging) => {
                &&& self.stage matches StagingStage::MapMemory { buffer, memory, .. }
                &&& reply matches Reply::Handle(mapped)
                &&& staging == (Staging { buffer, memory, mapped, size: self.size })
            },
            Progress::Failed { release, error } => {
                &&& error is Other
                &&& self.failure(device, reply) == Some(error.text())
                &&& release@ == self.held()
            },
        }
    }

    /// End the setup, giving back everything that was made on the way.
    fn fail(&self, error: Error) -> (progress: Progress<StagingSetup, Staging>)
        ensures
            progress matches Progress::Failed { release, error: e } && release@ == self.held() && e
                == error,
    {
        let release = match self.stage {
            StagingStage::CreateBuffer => vec![],
            StagingStage::Requirements { buffer } => vec![Object::Buffer(buffer)],
            StagingStage::Allocate { buffer, .. } => vec![Object::Buffer(buffer)],
            StagingStage::Bind { buffer, memory, .. } => vec![
                Object::Memory(memory),
                Object::Buffer(buffer),
            ],
            StagingStage::MapMemory { buffer, memory, .. } => vec![
                Object::Memory(memory),
                Object::Buffer(buffer),
            ],
        };
        assert(release@ =~= self.held());
        Progress::Failed { release, error }
    }

    /// Take the reply to this stage's request.
    pub fn reply(self, device: &Device, reply: Reply) -> (progress: Progress<StagingSetup, Staging>)
        requires
            device.physical.is_valid(),
            self.fits(reply),
        ensures
            self.leads_to(*device, reply, progress),
    {
        let mut next = self;
        match (self.stage, reply) {
            (StagingStage::CreateBuffer, Reply::Handle(buffer)) => {
                next.stage = StagingStage::Requirements { buffer };
                Progress::Next(next)
            },
            (StagingStage::CreateBuffer, Reply::Failed(code)) => self.fail(
                Error::call("vkCreateBuffer", code),
            ),
            (
                StagingStage::Requirements { buffer },
                Reply::Requirements { size, memory_types },
            ) => match device.host_coherent_type(memory_types) {
                Some(memory_type) => {
                    next.stage = StagingStage::Allocate { buffer, required: size, memory_type };
                    Progress::Next(next)
                },
                None => self.fail(Error::Other("no host-visible coherent memory type".to_owned())),
            },
            (StagingStage::Allocate { buffer, required, .. }, Reply::Handle(memory)) => {
                next.stage = StagingStage::Bind { buffer, required, memory };
                Progress::Next(next)
            },
            (StagingStage::Allocate { .. }, Reply::Failed(code)) => self.fail(
                Error::call("vkAllocateMemory", code),
            ),
            (StagingStage::Bind { buffer, required, memory }, Reply::Done) => {
                next.stage = StagingStage::MapMemory { buffer, required, memory };
                Progress::Next(next)
            },
            (StagingStage::Bind { .. }, Reply::Failed(code)) => self.fail(
                Error::call("vkBindBufferMemory", code),
            ),
            (StagingStage::MapMemory { buffer, memory, .. }, Reply::Handle(mapped)) => Progress::Done(
                Staging { buffer, memory, mapped, size: self.size },
            ),
            (StagingStage::MapMemory { .. }, Reply::Failed(code)) => self.fail(
                Error::call("vkMapMemory", code),
            ),
            _ => {
                assert(false);
                self.fail(Error::Other(String::new()))
            },
        }
    }
}

/// Making a staging buffer loses nothing: whatever is held, and whatever a
/// request made, is held at the next stage, owned by the finished buffer, or
/// released on failure.
pub proof fn a_staging_setup_loses_nothing(
    setup: StagingSetup,
    device: Device,
    reply: Reply,
    progress: Progress<StagingSetup, Staging>,
)
    requires
        setup.fits(reply),
        setup.leads_to(device, reply, progress),
    ensures
        ({
            let made = match (setup.stage, reply) {
                (StagingStage::CreateBuffer, Reply::Handle(buffer)) => Multiset::singleton(
                    Object::Buffer(buffer),
                ),
                (StagingStage::Allocate { .. }, Reply::Handle(memory)) => Multiset::singleton(
                    Object::Memory(memory),
                ),
                (StagingStage::MapMemory { memory, .. }, Reply::Handle(_)) => Multiset::singleton(
                    Object::Mapping(memory),
                ),
                _ => Multiset::empty(),
            };
            let kept = setup.held().to_multiset().add(made);
            match progress {
                Progress::Next(next) => next.held().to_multiset() == kept,
                Progress::Done(staging) => staging.owned().to_multiset() == kept,
                Progress::Failed { release, .. } => release@.to_multiset() == kept,
            }
        }),
{
    broadcast use vstd::seq_lib::group_to_multiset_ensures;

    let none = Seq::<Object>::empty();
    match (setup.stage, reply) {
        (StagingStage::CreateBuffer, Reply::Handle(buffer)) => {
            assert(seq![Object::Buffer(buffer)] =~= none.push(Object::Buffer(buffer)));
            assert(setup.held() =~= none);
        },
        (StagingStage::Allocate { buffer, .. }, Reply::Handle(memory)) => {
            let (b, m) = (Object::Buffer(buffer), Object::Memory(memory));
            assert(seq![m, b] =~= none.push(m).push(b));
            assert(seq![b] =~= none.push(b));
        },
        (StagingStage::MapMemory { buffer, memory, .. }, Reply::Handle(_)) => {
            let (b, m, p) = (
                Object::Buffer(buffer),
                Object::Memory(memory),
                Object::Mapping(memory),
            );
            assert(seq![m, b] =~= none.push(m).push(b));
            assert(seq![p, b, m] =~= none.push(p).push(b).push(m));
        },
        _ => {},
    }
}

/// A staging buffer is made as it was asked for: of that size, in memory as large
/// as the driver says it needs, which the CPU sees without having to flush, and
/// mapped from end to end.
pub proof fn a_staging_buffer_is_made_as_it_was_asked_for(
    setup: StagingSetup,
    device: Device,
    reply: Reply,
    progress: Progress<StagingSetup, Staging>,
)
    requires
        setup.fits(reply),
        setup.leads_to(device, reply, progress),
    ensures
        setup.stage is CreateBuffer ==> setup.asks() == (Call::CreateBuffer { size: setup.size }),
        setup.stage matches StagingStage::Requirements { buffer } ==> {
            &&& setup.asks() == Call::BufferRequirements { buffer }
            &&& progress matches Progress::Next(next) ==> {
                &&& next.stage matches StagingStage::Allocate { buffer: b, required, memory_type }
                &&& b == buffer
                &&& reply matches Reply::Requirements { size, memory_types }
                &&& size == required
                &&& memory_types & (1u32 << memory_type) != 0
                &&& memory_type < device.physical.memory_types@.len()
                &&& device.physical.memory_types@[memory_type as int] & 2 == 2
                &&& device.physical.memory_types@[memory_type as int] & 4 == 4
            }
        },
        setup.stage matches StagingStage::Allocate { required, memory_type, .. } ==> setup.asks()
            == (Call::AllocateMemory { size: required, memory_type }),
        setup.stage matches StagingStage::Bind { buffer, memory, .. } ==> setup.asks()
            == (Call::BindBuffer { buffer, memory }),
        setup.stage matches StagingStage::MapMemory { required, memory, .. } ==> setup.asks()
            == (Call::MapMemory { memory, size: required }),
        progress matches Progress::Next(next) ==> next.size == setup.size,
        progress matches Progress::Done(staging) ==> {
            &&& staging.size == setup.size
            &&& reply == Reply::Handle(staging.mapped)
            &&& setup.stage matches StagingStage::MapMemory { buffer, memory, .. } && buffer
                == staging.buffer && memory == staging.memory
        },
{
}

/// A staging buffer gives back everything it is made of when it goes: its memory
/// is unmapped first, and freed only once the buffer over it is gone.
pub proof fn a_staging_buffer_gives_back_all_it_is_made_of(staging: Staging)
    ensures
        staging.owned().len() == 3,
        staging.owned()[0] == Object::Mapping(staging.memory),
        staging.owned()[1] == Object::Buffer(staging.buffer),
        staging.owned()[2] == Object::Memory(staging.memory),
{
}

} // verus!
