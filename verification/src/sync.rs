//! Fences, as file descriptors.
//!
//! A sync_file is a pollable descriptor: it becomes readable when the work it
//! represents completes. That is why the same descriptor works for the display,
//! for another process, and for a wait here.
use vstd::prelude::*;

verus! {

/// What one poll of a fence says.
#[derive(Debug, Clone, Copy, PartialEq, Eq, Structural)]
pub enum Poll {
    /// The fence has been reached, or has not been within the time given.
    Answer(bool),
    /// A signal arrived, which is not the fence failing: ask again.
    Again,
    /// The descriptor cannot be polled.
    Failed,
}

/// What one poll of a fence says, from the number of descriptors the system
/// says are ready. A negative number is an error, and `interrupted` says which.
pub fn poll(ready: i32, interrupted: bool) -> (answer: Poll)
    ensures
        answer == (if ready >= 0 {
            Poll::Answer(ready > 0)
        } else if interrupted {
            Poll::Again
        } else {
            Poll::Failed
        }),
{
    if ready >= 0 {
        return Poll::Answer(ready > 0);
    }
    if interrupted {
        Poll::Again
    } else {
        Poll::Failed
    }
}

impl Poll {
    /// Whether the fence has been reached. One that cannot be asked has not.
    pub fn is_signaled(self) -> (signaled: bool)
        ensures
            signaled == (self == Poll::Answer(true)),
    {
        match self {
            Poll::Answer(reached) => reached,
            _ => false,
        }
    }
}

} // verus!
