//! Command pools and submission.
//!
//! A compositor records one command buffer per output per frame and throws it
//! away, so buffers are recorded again rather than freed and reallocated.
//! Everything here is single-queue.
use vstd::prelude::*;

use vstd::multiset::Multiset;

use crate::device::Device;
use crate::error::{call_failure, Error};
use crate::vulkan::{Call, Object, Progress, Reply};

verus! {

/// How long to wait for a submission before giving up, in nanoseconds.
pub const WAIT_NANOSECONDS: u64 = 5_000_000_000;

/// A command pool and one reusable primary command buffer.
#[derive(Debug)]
pub struct Commands {
    pub pool: u64,
    pub buffer: u64,
    pub fence: u64,
    /// Signalled by every submission and exported as a sync_file, so the caller
    /// can hand the descriptor on instead of waiting here. Exporting transfers
    /// the payload out, so one is enough.
    pub signal: u64,
    /// Semaphores the next submission must wait on.
    pub waits: Vec<u64>,
    /// Semaphores belonging to the submission in flight. They cannot be
    /// destroyed until it completes.
    pub retired: Vec<u64>,
    /// Whether the fence has been submitted and not yet waited on.
    pub pending: bool,
}

/// Where the making of a command pool has got to: the request that comes next.
#[derive(Debug, Clone, Copy, PartialEq, Eq, Structural)]
#[allow(inconsistent_fields)]
pub enum PoolStage {
    CreatePool { queue_family: u32 },
    AllocateBuffer { pool: u64 },
    CreateFence { pool: u64, buffer: u64 },
    CreateSemaphore { pool: u64, buffer: u64, fence: u64 },
}

impl PoolStage {
    /// The request this stage makes.
    pub open spec fn asks(self) -> Call {
        match self {
            PoolStage::CreatePool { queue_family } => Call::CreateCommandPool { queue_family },
            PoolStage::AllocateBuffer { pool } => Call::AllocateCommandBuffer { pool },
            PoolStage::CreateFence { .. } => Call::CreateFence,
            PoolStage::CreateSemaphore { .. } => Call::CreateSemaphore { exportable: true },
        }
    }

    /// The next request.
    pub fn call(&self) -> (call: Call)
        ensures
            call == self.asks(),
    {
        match *self {
            PoolStage::CreatePool { queue_family } => Call::CreateCommandPool { queue_family },
            PoolStage::AllocateBuffer { pool } => Call::AllocateCommandBuffer { pool },
            // Unsignalled: nothing has been submitted yet.
            PoolStage::CreateFence { .. } => Call::CreateFence,
            // A semaphore cannot be made exportable after the fact.
            PoolStage::CreateSemaphore { .. } => Call::CreateSemaphore { exportable: true },
        }
    }

    /// The name of the call behind the request.
    pub open spec fn name(self) -> Seq<char> {
        match self {
            PoolStage::CreatePool { .. } => "vkCreateCommandPool"@,
            PoolStage::AllocateBuffer { .. } => "vkAllocateCommandBuffers"@,
            PoolStage::CreateFence { .. } => "vkCreateFence"@,
            PoolStage::CreateSemaphore { .. } => "vkCreateSemaphore"@,
        }
    }

    /// What has been made so far, in the order it is released in. The command
    /// buffer goes with its pool.
    pub open spec fn held(self) -> Seq<Object> {
        match self {
            PoolStage::CreatePool { .. } => seq![],
            PoolStage::AllocateBuffer { pool } => seq![Object::CommandPool(pool)],
            PoolStage::CreateFence { pool, .. } => seq![Object::CommandPool(pool)],
            PoolStage::CreateSemaphore { pool, fence, .. } => seq![
                Object::Fence(fence),
                Object::CommandPool(pool),
            ],
        }
    }

    /// What a reply leads to.
    pub open spec fn leads_to(self, reply: Reply, progress: Progress<PoolStage, Commands>) -> bool {
        match (self, reply) {
            (PoolStage::CreatePool { .. }, Reply::Handle(pool)) => progress == Progress::<
                PoolStage,
                Commands,
            >::Next(PoolStage::AllocateBuffer { pool }),
            (PoolStage::AllocateBuffer { pool }, Reply::Handle(buffer)) => progress == Progress::<
                PoolStage,
                Commands,
            >::Next(PoolStage::CreateFence { pool, buffer }),
            (PoolStage::CreateFence { pool, buffer }, Reply::Handle(fence)) => progress
                == Progress::<PoolStage, Commands>::Next(
                PoolStage::CreateSemaphore { pool, buffer, fence },
            ),
            (PoolStage::CreateSemaphore { pool, buffer, fence }, Reply::Handle(signal)) => {
                &&& progress matches Progress::Done(commands)
                &&& commands.pool == pool
                &&& commands.buffer == buffer
                &&& commands.fence == fence
                &&& commands.signal == signal
                &&& commands.waits@.len() == 0
                &&& commands.retired@.len() == 0
                &&& !commands.pending
            },
            (_, Reply::Failed(code)) => {
                &&& progress matches Progress::Failed { release, error }
                &&& error is Other
                &&& error.text() == call_failure(self.name(), code)
                &&& release@ == self.held()
            },
            _ => true,
        }
    }

    /// Take the reply to this stage's request.
    pub fn reply(self, reply: Reply) -> (progress: Progress<PoolStage, Commands>)
        requires
            reply is Handle || reply is Failed,
        ensures
            self.leads_to(reply, progress),
    {
        match (self, reply) {
            (PoolStage::CreatePool { .. }, Reply::Handle(pool)) => Progress::Next(
                PoolStage::AllocateBuffer { pool },
            ),
            (PoolStage::AllocateBuffer { pool }, Reply::Handle(buffer)) => Progress::Next(
                PoolStage::CreateFence { pool, buffer },
            ),
            (PoolStage::CreateFence { pool, buffer }, Reply::Handle(fence)) => Progress::Next(
                PoolStage::CreateSemaphore { pool, buffer, fence },
            ),
            (PoolStage::CreateSemaphore { pool, buffer, fence }, Reply::Handle(signal)) => {
                Progress::Done(
                    Commands {
                        pool,
                        buffer,
                        fence,
                        signal,
                        waits: Vec::new(),
                        retired: Vec::new(),
                        pending: false,
                    },
                )
            },
            (PoolStage::CreatePool { .. }, Reply::Failed(code)) => {
                let release: Vec<Object> = Vec::new();
                assert(release@ =~= self.held());
                Progress::Failed { release, error: Error::call("vkCreateCommandPool", code) }
            },
            (PoolStage::AllocateBuffer { pool }, Reply::Failed(code)) => {
                let release = vec![Object::CommandPool(pool)];
                assert(release@ =~= self.held());
                Progress::Failed { release, error: Error::call("vkAllocateCommandBuffers", code) }
            },
            (PoolStage::CreateFence { pool, .. }, Reply::Failed(code)) => {
                let release = vec![Object::CommandPool(pool)];
                assert(release@ =~= self.held());
                Progress::Failed { release, error: Error::call("vkCreateFence", code) }
            },
            (PoolStage::CreateSemaphore { pool, fence, .. }, Reply::Failed(code)) => {
                let release = vec![Object::Fence(fence), Object::CommandPool(pool)];
                assert(release@ =~= self.held());
                Progress::Failed { release, error: Error::call("vkCreateSemaphore", code) }
            },
            _ => {
                assert(false);
                Progress::Next(self)
            },
        }
    }
}

/// What a command pool is in the middle of: the request that comes next.
#[derive(Debug, Clone, Copy, PartialEq, Eq, Structural)]
#[allow(inconsistent_fields)]
pub enum CommandStage {
    /// Waiting for the submission in flight.
    Wait { timeout: u64 },
    /// Waiting for the submission in flight, to record the buffer again:
    /// recording a buffer the GPU is still executing is undefined behaviour.
    WaitToBegin,
    Reset,
    Begin,
    End,
    ResetFence,
    Submit,
    /// Making a semaphore for a fence the next submission has to wait on.
    CreateWait { fd: i32 },
    ImportWait { fd: i32, semaphore: u64 },
    Export,
}

/// What came of a request to a command pool.
#[derive(Debug)]
pub enum CommandProgress {
    /// There is another request to make, once these objects have been given
    /// back.
    Next { stage: CommandStage, release: Vec<Object> },
    /// It is done. These objects have to be given back.
    Done { outcome: Outcome, release: Vec<Object> },
    /// It failed. These objects have to be given back.
    Failed { error: Error, release: Vec<Object> },
}

/// What a finished request hands back.
#[derive(Debug, Clone, Copy, PartialEq, Eq, Structural)]
pub enum Outcome {
    Nothing,
    /// The command buffer, ready to be recorded.
    Recording(u64),
    /// A sync_file that signals when the last submission completes.
    Fence(i32),
    /// There is no fence to hand over: the work is already complete.
    NoFence,
    /// There is no fence to hand over: the driver cannot export one. The work
    /// has to be waited for.
    CannotExport,
}

/// Semaphores as objects, in order.
pub open spec fn semaphores(list: Seq<u64>) -> Seq<Object> {
    list.map_values(|s: u64| Object::Semaphore(s))
}

/// Semaphores as objects, in order.
fn semaphore_objects(list: &Vec<u64>) -> (objects: Vec<Object>)
    ensures
        objects@ == semaphores(list@),
{
    let mut objects: Vec<Object> = Vec::new();
    for i in 0..list.len()
        invariant
            objects@ =~= semaphores(list@.take(i as int)),
    {
        objects.push(Object::Semaphore(list[i]));
    }
    assert(list@.take(list@.len() as int) =~= list@);
    objects
}

impl Commands {
    /// Start making a command pool.
    pub fn new(device: &Device) -> (stage: PoolStage)
        ensures
            stage == (PoolStage::CreatePool { queue_family: device.queue_family }),
    {
        PoolStage::CreatePool { queue_family: device.queue_family() }
    }

    /// A semaphore is retired only while the submission it belongs to is in
    /// flight.
    pub open spec fn is_valid(self) -> bool {
        !self.pending ==> self.retired@.len() == 0
    }

    /// Everything but what is waited on and what is in flight.
    pub open spec fn same_pool(self, other: Commands) -> bool {
        self.pool == other.pool && self.buffer == other.buffer && self.fence == other.fence
            && self.signal == other.signal
    }

    /// Nothing about the pool has changed.
    pub open spec fn unchanged(self, other: Commands) -> bool {
        self.same_pool(other) && self.waits@ == other.waits@ && self.retired@ == other.retired@
            && self.pending == other.pending
    }

    /// The command buffer.
    pub fn buffer(&self) -> (buffer: u64)
        ensures
            buffer == self.buffer,
    {
        self.buffer
    }

    /// How many fences the next submission will wait on.
    pub fn pending_waits(&self) -> (count: usize)
        ensures
            count == self.waits@.len(),
    {
        self.waits.len()
    }

    /// What recording starts with: a wait, where there is something to wait for.
    pub open spec fn beginning(self) -> CommandStage {
        if self.pending {
            CommandStage::WaitToBegin
        } else {
            CommandStage::Reset
        }
    }

    /// Start recording, waiting for the previous submission first.
    pub fn begin(&self) -> (stage: CommandStage)
        ensures
            stage == self.beginning(),
    {
        if self.pending {
            CommandStage::WaitToBegin
        } else {
            CommandStage::Reset
        }
    }

    /// Finish recording and submit.
    pub fn submit(&self) -> (stage: CommandStage)
        ensures
            stage is End,
    {
        CommandStage::End
    }

    /// Make the next submission wait on `fd` before it runs.
    ///
    /// A client that hands over an acquire fence is saying "do not read this
    /// buffer yet"; letting the queue wait on it means the GPU blocks, not us.
    pub fn wait_on(&self, fd: i32) -> (stage: CommandStage)
        ensures
            stage == (CommandStage::CreateWait { fd }),
    {
        CommandStage::CreateWait { fd }
    }

    /// Export the last submission's completion as a `sync_file` fd, or `None`
    /// where nothing is in flight.
    ///
    /// Comes after a submit and before the next one: the payload belongs to
    /// that submission, and exporting transfers it out.
    ///
    /// A driver that cannot export gives no fence, which is not an error: the
    /// caller falls back to waiting.
    pub fn export_fence(&self) -> (stage: Option<CommandStage>)
        ensures
            stage == (if self.pending {
                Some(CommandStage::Export)
            } else {
                None
            }),
    {
        if self.pending {
            Some(CommandStage::Export)
        } else {
            None
        }
    }

    /// Block until the last submission completes, or `None` where there is
    /// nothing to wait for.
    ///
    /// A frame loop should not call this: the whole point of explicit sync is
    /// that the compositor hands a fence onward instead of waiting.
    pub fn wait(&self, timeout: u64) -> (stage: Option<CommandStage>)
        ensures
            stage == (if self.pending {
                Some(CommandStage::Wait { timeout })
            } else {
                None
            }),
    {
        if self.pending {
            Some(CommandStage::Wait { timeout })
        } else {
            None
        }
    }

    /// Whether a request is the one a stage makes.
    pub open spec fn asks(self, stage: CommandStage, call: Call) -> bool {
        match stage {
            CommandStage::Wait { timeout } => call == Call::WaitForFence {
                fence: self.fence,
                timeout,
            },
            CommandStage::WaitToBegin => call == Call::WaitForFence {
                fence: self.fence,
                timeout: WAIT_NANOSECONDS,
            },
            CommandStage::Reset => call == Call::ResetCommandBuffer { buffer: self.buffer },
            CommandStage::Begin => call == Call::BeginCommandBuffer { buffer: self.buffer },
            CommandStage::End => call == Call::EndCommandBuffer { buffer: self.buffer },
            CommandStage::ResetFence => call == Call::ResetFence { fence: self.fence },
            CommandStage::Submit => call matches Call::Submit { buffer, waits, signal, fence }
                && buffer == self.buffer && waits@ == self.waits@ && signal == self.signal && fence
                == self.fence,
            CommandStage::CreateWait { .. } => call == Call::CreateSemaphore { exportable: false },
            CommandStage::ImportWait { fd, semaphore } => call == Call::ImportSemaphore {
                semaphore,
                fd,
            },
            CommandStage::Export => call == Call::ExportSemaphore { semaphore: self.signal },
        }
    }

    /// The request a stage makes.
    pub fn call(&self, stage: CommandStage) -> (call: Call)
        ensures
            self.asks(stage, call),
    {
        match stage {
            CommandStage::Wait { timeout } => Call::WaitForFence { fence: self.fence, timeout },
            CommandStage::WaitToBegin => Call::WaitForFence {
                fence: self.fence,
                timeout: WAIT_NANOSECONDS,
            },
            CommandStage::Reset => Call::ResetCommandBuffer { buffer: self.buffer },
            CommandStage::Begin => Call::BeginCommandBuffer { buffer: self.buffer },
            CommandStage::End => Call::EndCommandBuffer { buffer: self.buffer },
            CommandStage::ResetFence => Call::ResetFence { fence: self.fence },
            CommandStage::Submit => Call::Submit {
                buffer: self.buffer,
                waits: self.waits.clone(),
                signal: self.signal,
                fence: self.fence,
            },
            CommandStage::CreateWait { .. } => Call::CreateSemaphore { exportable: false },
            CommandStage::ImportWait { fd, semaphore } => Call::ImportSemaphore { semaphore, fd },
            CommandStage::Export => Call::ExportSemaphore { semaphore: self.signal },
        }
    }
}

impl CommandStage {
    /// Whether a reply is one that this stage's request can get.
    pub open spec fn fits(self, reply: Reply) -> bool {
        match self {
            CommandStage::CreateWait { .. } => reply is Handle || reply is Failed,
            CommandStage::Export => reply is Fd || reply is Failed,
            _ => reply is Done || reply is Failed,
        }
    }

    /// The name of the call behind the request.
    pub open spec fn name(self) -> Seq<char> {
        match self {
            CommandStage::Wait { .. } => "vkWaitForFences"@,
            CommandStage::WaitToBegin => "vkWaitForFences"@,
            CommandStage::Reset => "vkResetCommandBuffer"@,
            CommandStage::Begin => "vkBeginCommandBuffer"@,
            CommandStage::End => "vkEndCommandBuffer"@,
            CommandStage::ResetFence => "vkResetFences"@,
            CommandStage::Submit => "vkQueueSubmit"@,
            CommandStage::CreateWait { .. } => "vkCreateSemaphore"@,
            CommandStage::ImportWait { .. } => "vkImportSemaphoreFdKHR"@,
            CommandStage::Export => "vkGetSemaphoreFdKHR"@,
        }
    }

    fn failed_call(self) -> (name: &'static str)
        ensures
            name@ == self.name(),
    {
        match self {
            CommandStage::Wait { .. } => "vkWaitForFences",
            CommandStage::WaitToBegin => "vkWaitForFences",
            CommandStage::Reset => "vkResetCommandBuffer",
            CommandStage::Begin => "vkBeginCommandBuffer",
            CommandStage::End => "vkEndCommandBuffer",
            CommandStage::ResetFence => "vkResetFences",
            CommandStage::Submit => "vkQueueSubmit",
            CommandStage::CreateWait { .. } => "vkCreateSemaphore",
            CommandStage::ImportWait { .. } => "vkImportSemaphoreFdKHR",
            CommandStage::Export => "vkGetSemaphoreFdKHR",
        }
    }

    /// What this stage gives back where its request fails: the descriptor of a
    /// fence that could not be waited on, and the semaphore made for it.
    pub open spec fn abandoned(self) -> Seq<Object> {
        match self {
            CommandStage::CreateWait { fd } => seq![Object::Fd(fd)],
            CommandStage::ImportWait { fd, semaphore } => seq![
                Object::Semaphore(semaphore),
                Object::Fd(fd),
            ],
            _ => seq![],
        }
    }

    fn abandon(self) -> (objects: Vec<Object>)
        ensures
            objects@ == self.abandoned(),
    {
        let objects = match self {
            CommandStage::CreateWait { fd } => vec![Object::Fd(fd)],
            CommandStage::ImportWait { fd, semaphore } => vec![
                Object::Semaphore(semaphore),
                Object::Fd(fd),
            ],
            _ => vec![],
        };
        assert(objects@ =~= self.abandoned());
        objects
    }
}

impl Commands {
    /// What a reply leads to, and what it changes.
    pub open spec fn leads_to(
        self,
        stage: CommandStage,
        reply: Reply,
        after: Commands,
        progress: CommandProgress,
    ) -> bool {
        match (stage, reply) {
            (CommandStage::Export, Reply::Failed(_)) => progress.ends(Outcome::CannotExport)
                && after.unchanged(self),
            (_, Reply::Failed(code)) => {
                &&& progress matches CommandProgress::Failed { error, release }
                &&& error is Other
                &&& error.text() == call_failure(stage.name(), code)
                &&& release@ == stage.abandoned()
                &&& after.unchanged(self)
            },
            (CommandStage::Wait { .. }, _) => {
                &&& progress matches CommandProgress::Done { outcome, release }
                &&& outcome is Nothing
                &&& release@ == semaphores(self.retired@)
                &&& after.completes(self)
            },
            (CommandStage::WaitToBegin, _) => {
                &&& progress matches CommandProgress::Next { stage: next, release }
                &&& next is Reset
                &&& release@ == semaphores(self.retired@)
                &&& after.completes(self)
            },
            (CommandStage::Reset, _) => progress.moves_to(CommandStage::Begin) && after.unchanged(
                self,
            ),
            (CommandStage::Begin, _) => progress.ends(Outcome::Recording(self.buffer))
                && after.unchanged(self),
            (CommandStage::End, _) => progress.moves_to(CommandStage::ResetFence)
                && after.unchanged(self),
            (CommandStage::ResetFence, _) => progress.moves_to(CommandStage::Submit)
                && after.unchanged(self),
            (CommandStage::Submit, _) => {
                &&& progress.ends(Outcome::Nothing)
                &&& after.same_pool(self)
                &&& after.pending
                &&& after.waits@.len() == 0
                &&& after.retired@ == self.retired@ + self.waits@
            },
            (CommandStage::CreateWait { fd }, Reply::Handle(semaphore)) => progress.moves_to(
                CommandStage::ImportWait { fd, semaphore },
            ) && after.unchanged(self),
            (CommandStage::ImportWait { semaphore, .. }, _) => {
                &&& progress.ends(Outcome::Nothing)
                &&& after.same_pool(self)
                &&& after.pending == self.pending
                &&& after.waits@ == self.waits@.push(semaphore)
                &&& after.retired@ == self.retired@
            },
            (CommandStage::Export, Reply::Fd(fd)) => {
                &&& after.unchanged(self)
                &&& fd < 0 ==> progress.ends(Outcome::NoFence)
                &&& fd > 0 ==> progress.ends(Outcome::Fence(fd))
                &&& fd == 0 ==> {
                    &&& progress matches CommandProgress::Failed { error, release }
                    &&& error is Other
                    &&& error.text() == "vkGetSemaphoreFdKHR returned fd 0"@
                    &&& release@.len() == 0
                }
            },
            _ => true,
        }
    }

    /// The submission in flight has completed, and its semaphores are gone.
    pub open spec fn completes(self, before: Commands) -> bool {
        &&& self.same_pool(before)
        &&& !self.pending
        &&& self.waits@ == before.waits@
        &&& self.retired@.len() == 0
    }

    /// Take the reply to a stage's request.
    pub fn reply(&mut self, stage: CommandStage, reply: Reply) -> (progress: CommandProgress)
        requires
            stage.fits(reply),
        ensures
            old(self).leads_to(stage, reply, *final(self), progress),
            old(self).is_valid() ==> final(self).is_valid(),
    {
        match (stage, &reply) {
            // Not being able to export is not an error.
            (CommandStage::Export, Reply::Failed(_)) => {
                return CommandProgress::Done {
                    outcome: Outcome::CannotExport,
                    release: Vec::new(),
                };
            },
            (_, Reply::Failed(code)) => {
                return CommandProgress::Failed {
                    error: Error::call(stage.failed_call(), *code),
                    release: stage.abandon(),
                };
            },
            _ => {},
        }
        match (stage, reply) {
            (CommandStage::Wait { .. }, _) => {
                let release = self.free_retired();
                CommandProgress::Done { outcome: Outcome::Nothing, release }
            },
            (CommandStage::WaitToBegin, _) => {
                let release = self.free_retired();
                CommandProgress::Next { stage: CommandStage::Reset, release }
            },
            (CommandStage::Reset, _) => CommandProgress::Next {
                stage: CommandStage::Begin,
                release: Vec::new(),
            },
            (CommandStage::Begin, _) => CommandProgress::Done {
                outcome: Outcome::Recording(self.buffer),
                release: Vec::new(),
            },
            (CommandStage::End, _) => CommandProgress::Next {
                stage: CommandStage::ResetFence,
                release: Vec::new(),
            },
            (CommandStage::ResetFence, _) => CommandProgress::Next {
                stage: CommandStage::Submit,
                release: Vec::new(),
            },
            (CommandStage::Submit, _) => {
                // Held until the submission completes; destroying a semaphore
                // the queue is still waiting on is a use-after-free inside the
                // driver.
                self.retired.append(&mut self.waits);
                self.pending = true;
                CommandProgress::Done { outcome: Outcome::Nothing, release: Vec::new() }
            },
            (CommandStage::CreateWait { fd }, Reply::Handle(semaphore)) => CommandProgress::Next {
                stage: CommandStage::ImportWait { fd, semaphore },
                release: Vec::new(),
            },
            (CommandStage::ImportWait { semaphore, .. }, _) => {
                self.waits.push(semaphore);
                CommandProgress::Done { outcome: Outcome::Nothing, release: Vec::new() }
            },
            (CommandStage::Export, Reply::Fd(fd)) => {
                // A negative descriptor is legal here: it means the work was
                // already complete, so there is nothing to wait on.
                if fd < 0 {
                    CommandProgress::Done { outcome: Outcome::NoFence, release: Vec::new() }
                } else if fd == 0 {
                    CommandProgress::Failed {
                        error: Error::Other("vkGetSemaphoreFdKHR returned fd 0".to_owned()),
                        release: Vec::new(),
                    }
                } else {
                    CommandProgress::Done { outcome: Outcome::Fence(fd), release: Vec::new() }
                }
            },
            _ => {
                assert(false);
                CommandProgress::Done { outcome: Outcome::Nothing, release: Vec::new() }
            },
        }
    }

    /// Note that the submission in flight has completed, and hand out its
    /// semaphores.
    fn free_retired(&mut self) -> (objects: Vec<Object>)
        ensures
            objects@ == semaphores(old(self).retired@),
            final(self).completes(*old(self)),
    {
        let objects = semaphore_objects(&self.retired);
        self.retired.clear();
        self.pending = false;
        objects
    }

    /// What has to be given back when the pool goes, in order. The pool cannot
    /// be destroyed while its buffer is still executing, so a wait comes first.
    pub open spec fn owned(self) -> Seq<Object> {
        semaphores(self.retired@) + semaphores(self.waits@) + seq![
            Object::Semaphore(self.signal),
            Object::Fence(self.fence),
            Object::CommandPool(self.pool),
        ]
    }

    /// What has to be given back when the pool goes, in order.
    pub fn release(&self) -> (objects: Vec<Object>)
        ensures
            objects@ == self.owned(),
    {
        let mut objects = semaphore_objects(&self.retired);
        let mut waits = semaphore_objects(&self.waits);
        objects.append(&mut waits);
        objects.push(Object::Semaphore(self.signal));
        objects.push(Object::Fence(self.fence));
        objects.push(Object::CommandPool(self.pool));
        assert(objects@ =~= self.owned());
        objects
    }
}

impl CommandProgress {
    /// There is another request to make, and nothing to give back.
    pub open spec fn moves_to(self, next: CommandStage) -> bool {
        &&& self matches CommandProgress::Next { stage, release }
        &&& stage == next
        &&& release@.len() == 0
    }

    /// It is done, and there is nothing to give back.
    pub open spec fn ends(self, result: Outcome) -> bool {
        &&& self matches CommandProgress::Done { outcome, release }
        &&& outcome == result
        &&& release@.len() == 0
    }

    /// What has to be given back.
    pub open spec fn gives_back(self) -> Seq<Object> {
        match self {
            CommandProgress::Next { release, .. } => release@,
            CommandProgress::Done { release, .. } => release@,
            CommandProgress::Failed { release, .. } => release@,
        }
    }
}

/// A semaphore outlives the submission that waits on it: nothing but a fence
/// wait that succeeded gives a retired semaphore back.
pub proof fn a_retired_semaphore_waits_for_its_submission(
    before: Commands,
    stage: CommandStage,
    reply: Reply,
    after: Commands,
    progress: CommandProgress,
)
    requires
        stage.fits(reply),
        before.leads_to(stage, reply, after, progress),
        !(reply is Done && (stage is Wait || stage is WaitToBegin)),
    ensures
        before.retired@.len() <= after.retired@.len(),
        after.retired@.take(before.retired@.len() as int) == before.retired@,
        before.pending ==> after.pending,
{
}

/// A buffer the GPU may still be executing is never recorded again: nothing is
/// in flight when the buffer is reset, when recording starts, or when the buffer
/// is handed out.
pub proof fn a_buffer_in_flight_is_never_recorded(
    before: Commands,
    stage: CommandStage,
    reply: Reply,
    after: Commands,
    progress: CommandProgress,
)
    requires
        stage.fits(reply),
        before.leads_to(stage, reply, after, progress),
        stage is Reset || stage is Begin ==> !before.pending,
    ensures
        before.beginning() is Reset ==> !before.pending,
        progress matches CommandProgress::Next { stage: next, .. } && (next is Reset || next
            is Begin) ==> !after.pending,
        progress matches CommandProgress::Done { outcome, .. } && outcome is Recording
            ==> !after.pending,
{
}

/// A fence handed over is waited on by the next submission and by no other: a
/// submission takes every wait that is queued and leaves none.
pub proof fn a_submission_consumes_the_waits(
    before: Commands,
    after: Commands,
    progress: CommandProgress,
    call: Call,
)
    requires
        before.asks(CommandStage::Submit, call),
        before.leads_to(CommandStage::Submit, Reply::Done, after, progress),
    ensures
        call matches Call::Submit { waits, .. } && waits@ == before.waits@,
        after.waits@.len() == 0,
        forall|i: int|
            0 <= i < before.waits@.len() ==> after.retired@.contains(#[trigger] before.waits@[i]),
{
    assert forall|i: int| 0 <= i < before.waits@.len() implies after.retired@.contains(
        #[trigger] before.waits@[i],
    ) by {
        assert(after.retired@[before.retired@.len() + i] == before.waits@[i]);
    }
}

/// What a reply says the request made for us to keep.
pub open spec fn made(stage: CommandStage, reply: Reply) -> Multiset<Object> {
    match (stage, reply) {
        (CommandStage::CreateWait { .. }, Reply::Handle(semaphore)) => Multiset::singleton(
            Object::Semaphore(semaphore),
        ),
        _ => Multiset::empty(),
    }
}

/// What the driver took over with a reply: an imported descriptor.
pub open spec fn taken(stage: CommandStage, reply: Reply) -> Multiset<Object> {
    match (stage, reply) {
        (CommandStage::ImportWait { fd, .. }, Reply::Done) => Multiset::singleton(Object::Fd(fd)),
        _ => Multiset::empty(),
    }
}

/// Command submission loses nothing. What the pool and the request in progress
/// hold, and what the request made, is still held afterwards or has been given
/// back; the only thing that is not ours any more is a descriptor that the
/// driver took over.
pub proof fn command_submission_loses_nothing(
    before: Commands,
    stage: CommandStage,
    reply: Reply,
    after: Commands,
    progress: CommandProgress,
)
    requires
        stage.fits(reply),
        before.leads_to(stage, reply, after, progress),
    ensures
        ({
            let doing = match progress {
                CommandProgress::Next { stage: next, .. } => next.abandoned(),
                _ => seq![],
            };
            before.owned().to_multiset().add(stage.abandoned().to_multiset()).add(
                made(stage, reply),
            ) == after.owned().to_multiset().add(doing.to_multiset()).add(
                progress.gives_back().to_multiset(),
            ).add(taken(stage, reply))
        }),
{
    broadcast use vstd::seq_lib::group_to_multiset_ensures;

    let none = Seq::<Object>::empty();
    let rest = seq![
        Object::Semaphore(before.signal),
        Object::Fence(before.fence),
        Object::CommandPool(before.pool),
    ];
    lemma_owned(before, rest);
    lemma_owned(after, rest);
    match (stage, reply) {
        (CommandStage::Export, Reply::Failed(_)) => {
            assert(after.owned() =~= before.owned());
            assert(stage.abandoned() =~= none);
            assert(progress.gives_back() =~= none);
        },
        (_, Reply::Failed(_)) => {
            assert(after.owned() =~= before.owned());
            assert(progress.gives_back() =~= stage.abandoned());
        },
        (CommandStage::Wait { .. }, _) => {
            assert(semaphores(after.retired@) =~= none);
            assert(stage.abandoned() =~= none);
        },
        (CommandStage::WaitToBegin, _) => {
            assert(semaphores(after.retired@) =~= none);
            assert(stage.abandoned() =~= none);
            assert(CommandStage::Reset.abandoned() =~= none);
        },
        (CommandStage::Submit, _) => {
            assert(semaphores(after.retired@) =~= semaphores(before.retired@) + semaphores(
                before.waits@,
            ));
            vstd::seq_lib::lemma_multiset_commutative(
                semaphores(before.retired@),
                semaphores(before.waits@),
            );
            assert(semaphores(after.waits@) =~= none);
            assert(stage.abandoned() =~= none);
            assert(progress.gives_back() =~= none);
        },
        (CommandStage::CreateWait { fd }, Reply::Handle(semaphore)) => {
            let (f, s) = (Object::Fd(fd), Object::Semaphore(semaphore));
            assert(after.owned() =~= before.owned());
            assert(stage.abandoned() =~= none.push(f));
            assert(seq![s, f] =~= none.push(s).push(f));
            assert(progress.gives_back() =~= none);
        },
        (CommandStage::ImportWait { fd, semaphore }, _) => {
            let (f, s) = (Object::Fd(fd), Object::Semaphore(semaphore));
            assert(semaphores(after.waits@) =~= semaphores(before.waits@).push(s));
            assert(seq![s, f] =~= none.push(s).push(f));
            assert(progress.gives_back() =~= none);
        },
        _ => {
            assert(after.owned() =~= before.owned());
            assert(stage.abandoned() =~= none);
            assert(progress.gives_back() =~= none);
            assert(CommandStage::Begin.abandoned() =~= none);
            assert(CommandStage::ResetFence.abandoned() =~= none);
            assert(CommandStage::Submit.abandoned() =~= none);
        },
    }
    let doing = match progress {
        CommandProgress::Next { stage: next, .. } => next.abandoned(),
        _ => seq![],
    };
    assert(before.owned().to_multiset().add(stage.abandoned().to_multiset()).add(made(stage, reply))
        =~= after.owned().to_multiset().add(doing.to_multiset()).add(
        progress.gives_back().to_multiset(),
    ).add(taken(stage, reply)));
}

/// What a pool owns, taken apart.
proof fn lemma_owned(commands: Commands, rest: Seq<Object>)
    requires
        rest == seq![
            Object::Semaphore(commands.signal),
            Object::Fence(commands.fence),
            Object::CommandPool(commands.pool),
        ],
    ensures
        commands.owned().to_multiset() == semaphores(commands.retired@).to_multiset().add(
            semaphores(commands.waits@).to_multiset(),
        ).add(rest.to_multiset()),
{
    let retired = semaphores(commands.retired@);
    let waits = semaphores(commands.waits@);
    vstd::seq_lib::lemma_multiset_commutative(retired, waits);
    vstd::seq_lib::lemma_multiset_commutative(retired + waits, rest);
}

/// Making a command pool loses nothing: whatever is held, and whatever a
/// request made, is held at the next stage, owned by the finished pool, or
/// released on failure. A command buffer belongs to its pool.
pub proof fn a_pool_setup_loses_nothing(
    stage: PoolStage,
    reply: Reply,
    progress: Progress<PoolStage, Commands>,
)
    requires
        reply is Handle || reply is Failed,
        stage.leads_to(reply, progress),
    ensures
        ({
            let made = match (stage, reply) {
                (PoolStage::CreatePool { .. }, Reply::Handle(pool)) => Multiset::singleton(
                    Object::CommandPool(pool),
                ),
                (PoolStage::CreateFence { .. }, Reply::Handle(fence)) => Multiset::singleton(
                    Object::Fence(fence),
                ),
                (PoolStage::CreateSemaphore { .. }, Reply::Handle(signal)) => Multiset::singleton(
                    Object::Semaphore(signal),
                ),
                _ => Multiset::empty(),
            };
            let kept = stage.held().to_multiset().add(made);
            match progress {
                Progress::Next(next) => next.held().to_multiset() == kept,
                Progress::Done(commands) => commands.owned().to_multiset() == kept,
                Progress::Failed { release, .. } => release@.to_multiset() == kept,
            }
        }),
{
    broadcast use vstd::seq_lib::group_to_multiset_ensures;

    let none = Seq::<Object>::empty();
    match (stage, reply) {
        (PoolStage::CreatePool { .. }, Reply::Handle(pool)) => {
            assert(seq![Object::CommandPool(pool)] =~= none.push(Object::CommandPool(pool)));
            assert(stage.held() =~= none);
        },
        (PoolStage::CreateFence { pool, .. }, Reply::Handle(fence)) => {
            let (p, f) = (Object::CommandPool(pool), Object::Fence(fence));
            assert(seq![f, p] =~= none.push(f).push(p));
            assert(seq![p] =~= none.push(p));
        },
        (PoolStage::CreateSemaphore { pool, fence, .. }, Reply::Handle(signal)) => {
            let (p, f, s) = (
                Object::CommandPool(pool),
                Object::Fence(fence),
                Object::Semaphore(signal),
            );
            assert(seq![f, p] =~= none.push(f).push(p));
            match progress {
                Progress::Done(commands) => {
                    assert(commands.owned() =~= none.push(s).push(f).push(p));
                },
                _ => {},
            }
        },
        _ => {},
    }
}

/// A submission, its fence and its semaphore belong together: what was recorded
/// is what is submitted, the fence that is waited for is the one that was reset
/// and submitted, and the semaphore that is exported is the one that the
/// submission signals.
pub proof fn a_submission_is_waited_for_by_its_own_fence(
    commands: Commands,
    begin: Call,
    reset: Call,
    submit: Call,
    wait: Call,
    again: Call,
    export: Call,
    timeout: u64,
)
    requires
        commands.asks(CommandStage::Begin, begin),
        commands.asks(CommandStage::ResetFence, reset),
        commands.asks(CommandStage::Submit, submit),
        commands.asks(CommandStage::Wait { timeout }, wait),
        commands.asks(CommandStage::WaitToBegin, again),
        commands.asks(CommandStage::Export, export),
    ensures
        submit matches Call::Submit { buffer, waits, signal, fence } && {
            &&& begin == Call::BeginCommandBuffer { buffer }
            &&& reset == Call::ResetFence { fence }
            &&& wait == Call::WaitForFence { fence, timeout }
            &&& again matches Call::WaitForFence { fence: f, timeout: t } && f == fence && t
                == 5_000_000_000
            &&& export == Call::ExportSemaphore { semaphore: signal }
            &&& waits@ == commands.waits@
            &&& buffer == commands.buffer
        },
{
}

/// Recording and submitting go in order. The buffer is reset, begun and handed
/// out; once it has been recorded it is ended, the fence is reset, and only then
/// is it submitted. From the submission on, something is in flight, until it has
/// been waited for.
pub proof fn a_submission_goes_in_order(
    before: Commands,
    stage: CommandStage,
    after: Commands,
    progress: CommandProgress,
)
    requires
        before.leads_to(stage, Reply::Done, after, progress),
    ensures
        stage is Reset ==> progress.moves_to(CommandStage::Begin),
        stage is Begin ==> progress.ends(Outcome::Recording(before.buffer)),
        stage is End ==> progress.moves_to(CommandStage::ResetFence),
        stage is ResetFence ==> progress.moves_to(CommandStage::Submit),
        stage is Submit ==> progress.ends(Outcome::Nothing) && after.pending,
        stage is Wait ==> !after.pending && (progress matches CommandProgress::Done { .. }),
        stage is WaitToBegin ==> !after.pending && (progress matches CommandProgress::Next {
            stage: next,
            ..
        } && next is Reset),
        before.beginning() == (if before.pending {
            CommandStage::WaitToBegin
        } else {
            CommandStage::Reset
        }),
{
}

/// A fence that is handed over is imported into a semaphore made for it, and the
/// next submission waits on that semaphore as well as on those it waited on
/// already.
pub proof fn a_fence_handed_over_is_waited_on(
    before: Commands,
    between: Commands,
    after: Commands,
    first: CommandProgress,
    second: CommandProgress,
    import: Call,
    fd: i32,
    semaphore: u64,
)
    requires
        before.leads_to(
            CommandStage::CreateWait { fd },
            Reply::Handle(semaphore),
            between,
            first,
        ),
        between.asks(CommandStage::ImportWait { fd, semaphore }, import),
        between.leads_to(
            CommandStage::ImportWait { fd, semaphore },
            Reply::Done,
            after,
            second,
        ),
    ensures
        first.moves_to(CommandStage::ImportWait { fd, semaphore }),
        import == (Call::ImportSemaphore { semaphore, fd }),
        after.waits@ == before.waits@.push(semaphore),
        after.pending == before.pending,
{
}

/// The fence of a submission is handed on as it is; a descriptor that names none
/// means that the work is done; and a driver that cannot export leaves everything
/// as it was.
pub proof fn an_exported_fence_is_handed_on(
    before: Commands,
    after: Commands,
    progress: CommandProgress,
    reply: Reply,
)
    requires
        CommandStage::Export.fits(reply),
        before.leads_to(CommandStage::Export, reply, after, progress),
    ensures
        after.unchanged(before),
        reply matches Reply::Fd(fd) && fd > 0 ==> progress.ends(Outcome::Fence(reply->Fd_0)),
        reply matches Reply::Fd(fd) && fd < 0 ==> progress.ends(Outcome::NoFence),
        reply is Failed ==> progress.ends(Outcome::CannotExport),
{
}

/// The semaphore a pool signals can be exported from the start, and the objects
/// of a pool are each in their own place.
pub proof fn a_pool_is_made_of_its_own_objects(
    queue_family: u32,
    pool: u64,
    buffer: u64,
    fence: u64,
    signal: u64,
    progress: Progress<PoolStage, Commands>,
)
    requires
        (PoolStage::CreateSemaphore { pool, buffer, fence }).leads_to(
            Reply::Handle(signal),
            progress,
        ),
    ensures
        (PoolStage::CreatePool { queue_family }).asks() == (Call::CreateCommandPool {
            queue_family,
        }),
        (PoolStage::AllocateBuffer { pool }).asks() == (Call::AllocateCommandBuffer { pool }),
        (PoolStage::CreateFence { pool, buffer }).asks() is CreateFence,
        (PoolStage::CreateSemaphore { pool, buffer, fence }).asks() == (Call::CreateSemaphore {
            exportable: true,
        }),
        progress matches Progress::Done(commands) && commands.pool == pool && commands.buffer
            == buffer && commands.fence == fence && commands.signal == signal && !commands.pending
            && commands.waits@.len() == 0,
{
}

/// A pool gives back everything it is made of when it goes: each semaphore that a
/// submission still waits on or has waited on, the one it signals, its fence, and
/// the pool itself after all of them. Nothing else is given back.
pub proof fn a_pool_gives_back_all_it_is_made_of(commands: Commands, object: Object)
    ensures
        commands.owned().contains(object) <==> match object {
            Object::Semaphore(s) => s == commands.signal || commands.waits@.contains(s)
                || commands.retired@.contains(s),
            Object::Fence(f) => f == commands.fence,
            Object::CommandPool(p) => p == commands.pool,
            _ => false,
        },
        commands.owned().last() == Object::CommandPool(commands.pool),
        commands.owned().len() == commands.waits@.len() + commands.retired@.len() + 3,
{
    let all = commands.owned();
    let retired = commands.retired@;
    let waits = commands.waits@;
    let n = retired.len() as int;
    let m = waits.len() as int;
    assert(all[n + m] == Object::Semaphore(commands.signal));
    assert(all[n + m + 1] == Object::Fence(commands.fence));
    assert(all[n + m + 2] == Object::CommandPool(commands.pool));
    if let Object::Semaphore(s) = object {
        if waits.contains(s) {
            let k = choose|k: int| 0 <= k < m && waits[k] == s;
            assert(all[n + k] == object);
        }
        if retired.contains(s) {
            let k = choose|k: int| 0 <= k < n && retired[k] == s;
            assert(all[k] == object);
        }
    }
    if all.contains(object) {
        let k = choose|k: int| 0 <= k < all.len() && all[k] == object;
        if k < n {
            assert(object == Object::Semaphore(retired[k]));
        } else if k < n + m {
            assert(object == Object::Semaphore(waits[k - n]));
        }
    }
}

} // verus!
