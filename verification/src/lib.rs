//! **Stakker** interface to Rust async/await: the verified core.
//!
//! **Stakker** passes data to an end-point through a `Ret` (once) or a
//! `Fwd` (any number of times); async code waits for data through a
//! `Future` or a `Stream`.  This library holds the state kept between
//! the two ends of each kind of pipe and every decision taken on it:
//!
//! - [`push`]: a `Ret` whose value is awaited by a future
//! - [`pull`]: a future that, when first polled, asks a `Ret` for its value
//! - [`stream`]: a `Fwd` whose values come out of a stream
//! - [`spawn`]: passing a spawned future's value on, and relaying a
//!   stream to a `Fwd`
//! - [`runtime`]: the **Stakker** types named, and the call that finds
//!   the running task
//!
//! Each state machine is generic in the task type, with an exact
//! contract for every transition and the laws of the pipe proved over
//! its spec functions.  A transition hands back the actions it calls
//! for (the task to wake, the request or message to send); the caller
//! performs them, since they run users' code.  The polls for
//! `stakker::task::Task` also find the running task.

use vstd::prelude::*;

pub mod pull;
pub mod push;
pub mod runtime;
pub mod spawn;
pub mod stream;

pub use runtime::current_task;

verus! {

/// Error representing failure of an actor
#[derive(Debug, Clone, Copy, PartialEq, Eq, Structural)]
pub struct ActorFail;

impl ActorFail {
    /// The text that describes this error.
    pub fn to_string(&self) -> (text: String)
        ensures
            text@ == "Actor failure"@,
    {
        "Actor failure".to_owned()
    }
}

/// The outcome of polling a future: ready with a value, or not yet.
pub enum Step<V> {
    Ready(V),
    Pending,
}

} // verus!
