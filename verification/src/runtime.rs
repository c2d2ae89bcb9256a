//! The parts of **Stakker** that this crate names, and the one call it
//! makes into **Stakker**: finding the running task.  Resuming a task,
//! deferring a call and passing a message through a `Ret` or `Fwd` run
//! code of the crate's users, which may panic, so the library hands
//! those actions back to its caller instead of performing them.

use stakker::task::Task;
use stakker::{Deferrer, Ret};
use vstd::prelude::*;

verus! {

/// A reference to a **Stakker** task (`stakker::task::Task`).
#[verifier::external_type_specification]
#[verifier::external_body]
pub struct ExTask(Task);

/// The defer queue handle of **Stakker** (`stakker::Deferrer`).
#[verifier::external_type_specification]
#[verifier::external_body]
pub struct ExDeferrer(Deferrer);

/// A one-shot returner (`stakker::Ret`).
#[verifier::external_type_specification]
#[verifier::external_body]
#[verifier::reject_recursive_types(M)]
pub struct ExRet<M: 'static>(Ret<M>);

/// Get a reference to the current task
///
/// Returns a reference to the task if we're running within one, or
/// else returns `None`.  The returned task can be saved and used to
/// resume the execution of the future when new data becomes available.
///
/// Calls `stakker::task::Task::from_context`.  Which task is running
/// depends on the **Stakker** main loop, not on the argument, so
/// nothing is stated of the result.
#[verifier::external_body]
pub fn current_task(deferrer: &mut Deferrer) -> Option<Task> {
    Task::from_context(deferrer)
}

} // verus!
