use ash::vk;

use viewport_vulkan::command::{
    CommandProgress, CommandStage, Commands, Outcome, PoolStage, WAIT_NANOSECONDS,
};
use viewport_vulkan::error::Error;
use viewport_vulkan::sync::{poll, Poll};
use viewport_vulkan::vulkan::{Call, Object, Progress, Reply};

#[test]
fn an_unsignalled_fence_is_not_reported_as_reached() {
    // No descriptor is ready, and the time given was none.
    assert!(!poll(0, false).is_signaled());
}

#[test]
fn a_signalled_fence_is_reported_immediately() {
    assert!(poll(1, false).is_signaled());
}

#[test]
fn a_signal_is_not_the_fence_failing() {
    assert_eq!(poll(-1, true), Poll::Again);
    assert_eq!(poll(-1, false), Poll::Failed);
    assert!(!poll(-1, true).is_signaled());
    assert!(!poll(-1, false).is_signaled());
}

fn commands() -> Commands {
    Commands {
        pool: 1,
        buffer: 2,
        fence: 3,
        signal: 4,
        waits: Vec::new(),
        retired: Vec::new(),
        pending: false,
    }
}

#[test]
fn a_pool_is_made_of_four_things() {
    let mut stage = PoolStage::CreatePool { queue_family: 7 };
    assert!(matches!(
        stage.call(),
        Call::CreateCommandPool { queue_family: 7 }
    ));
    let mut handle = 0;
    let made = loop {
        handle += 1;
        match stage.reply(Reply::Handle(handle)) {
            Progress::Next(next) => stage = next,
            Progress::Done(made) => break made,
            Progress::Failed { error, .. } => panic!("{}", error.message()),
        }
    };
    assert_eq!(
        (made.pool, made.buffer, made.fence, made.signal),
        (1, 2, 3, 4)
    );
    assert_eq!(made.pending_waits(), 0);
    assert_eq!(
        made.release(),
        vec![
            Object::Semaphore(4),
            Object::Fence(3),
            Object::CommandPool(1)
        ]
    );
}

#[test]
fn a_pool_that_cannot_be_made_is_given_back() {
    let stage = PoolStage::CreateSemaphore {
        pool: 1,
        buffer: 2,
        fence: 3,
    };
    let code = vk::Result::ERROR_OUT_OF_HOST_MEMORY;
    match stage.reply(Reply::Failed(code.as_raw())) {
        Progress::Failed { release, error } => {
            assert_eq!(error.message(), format!("vkCreateSemaphore: {code}"));
            assert_eq!(release, vec![Object::Fence(3), Object::CommandPool(1)]);
        }
        other => panic!("{other:?}"),
    }
}

#[test]
fn recording_waits_for_the_submission_in_flight() {
    let mut commands = commands();
    assert_eq!(commands.begin(), CommandStage::Reset);
    assert_eq!(commands.wait(5), None);
    assert_eq!(commands.export_fence(), None);

    commands.pending = true;
    commands.retired = vec![9];
    let stage = commands.begin();
    assert_eq!(stage, CommandStage::WaitToBegin);
    assert!(matches!(
        commands.call(stage),
        Call::WaitForFence {
            fence: 3,
            timeout: WAIT_NANOSECONDS
        }
    ));
    match commands.reply(stage, Reply::Done) {
        CommandProgress::Next { stage, release } => {
            assert_eq!(stage, CommandStage::Reset);
            assert_eq!(release, vec![Object::Semaphore(9)]);
        }
        other => panic!("{other:?}"),
    }
    assert!(!commands.pending);
    assert_eq!(commands.wait(5), None);
}

#[test]
fn a_wait_that_times_out_keeps_the_submission() {
    let mut commands = commands();
    commands.pending = true;
    commands.retired = vec![9];
    let stage = commands.wait(1).expect("something is in flight");
    let code = vk::Result::TIMEOUT;
    match commands.reply(stage, Reply::Failed(code.as_raw())) {
        CommandProgress::Failed { error, release } => {
            assert_eq!(error.message(), format!("vkWaitForFences: {code}"));
            assert_eq!(release, vec![]);
        }
        other => panic!("{other:?}"),
    }
    assert!(commands.pending);
    assert_eq!(commands.retired, vec![9]);
}

#[test]
fn a_fence_that_cannot_be_imported_is_given_back() {
    let mut commands = commands();
    let stage = commands.wait_on(33);
    assert!(matches!(
        commands.call(stage),
        Call::CreateSemaphore { exportable: false }
    ));
    let stage = match commands.reply(stage, Reply::Handle(50)) {
        CommandProgress::Next { stage, .. } => stage,
        other => panic!("{other:?}"),
    };
    assert!(matches!(
        commands.call(stage),
        Call::ImportSemaphore {
            semaphore: 50,
            fd: 33
        }
    ));
    match commands.reply(
        stage,
        Reply::Failed(vk::Result::ERROR_INVALID_EXTERNAL_HANDLE.as_raw()),
    ) {
        CommandProgress::Failed { error, release } => {
            assert!(error.message().starts_with("vkImportSemaphoreFdKHR: "));
            assert_eq!(release, vec![Object::Semaphore(50), Object::Fd(33)]);
        }
        other => panic!("{other:?}"),
    }
    assert_eq!(commands.pending_waits(), 0);
}

#[test]
fn exporting_a_fence_may_find_the_work_done() {
    let mut commands = commands();
    commands.pending = true;
    let stage = commands.export_fence().expect("something is in flight");
    assert!(matches!(
        commands.call(stage),
        Call::ExportSemaphore { semaphore: 4 }
    ));
    assert!(matches!(
        commands.reply(stage, Reply::Fd(12)),
        CommandProgress::Done {
            outcome: Outcome::Fence(12),
            ..
        }
    ));
    assert!(matches!(
        commands.reply(stage, Reply::Fd(-1)),
        CommandProgress::Done {
            outcome: Outcome::NoFence,
            ..
        }
    ));
    match commands.reply(stage, Reply::Fd(0)) {
        CommandProgress::Failed { error, .. } => {
            assert_eq!(error.message(), "vkGetSemaphoreFdKHR returned fd 0");
        }
        other => panic!("{other:?}"),
    }
}

#[test]
fn a_driver_that_cannot_export_is_no_error() {
    let mut commands = commands();
    commands.pending = true;
    commands.waits = vec![7];
    commands.retired = vec![9];
    let stage = commands.export_fence().expect("something is in flight");
    let refused = Reply::Failed(vk::Result::ERROR_INVALID_EXTERNAL_HANDLE.as_raw());
    match commands.reply(stage, refused) {
        CommandProgress::Done { outcome, release } => {
            assert_eq!(outcome, Outcome::CannotExport);
            assert_eq!(release, vec![]);
        }
        other => panic!("{other:?}"),
    }
    // The submission is still in flight, and can be waited for.
    assert!(commands.pending);
    assert_eq!(commands.waits, vec![7]);
    assert_eq!(commands.retired, vec![9]);
    assert!(commands.wait(5).is_some());
}

#[test]
fn result_codes_read_as_vulkan_describes_them() {
    for code in [
        vk::Result::SUCCESS,
        vk::Result::ERROR_DEVICE_LOST,
        vk::Result::ERROR_INITIALIZATION_FAILED,
        vk::Result::from_raw(-12345),
    ] {
        assert_eq!(Error::Vulkan(code.as_raw()).message(), code.to_string());
        assert_eq!(
            Error::call("vkDoSomething", code.as_raw()).message(),
            format!("vkDoSomething: {code}")
        );
    }
    assert_eq!(
        Error::because("open", "no such file").message(),
        "open: no such file"
    );
}
