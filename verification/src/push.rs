//! Push-style `Ret` -> `Future` pipes.
//!
//! The value may arrive before or after the future is first polled.  A
//! [`PushCell`] holds whichever of the two came first: the value (or
//! the news that the `Ret` was dropped), or the task waiting for it.

use crate::runtime::current_task;
use crate::{ActorFail, Step};
use stakker::task::Task;
use stakker::Deferrer;
use vstd::prelude::*;

verus! {

/// The abstract state of a [`PushCell`].
///
/// `value` is `None` while nothing has arrived, `Some(None)` once the
/// `Ret` was dropped without a value, and `Some(Some(v))` once `v`
/// was returned.  `task` is the task to wake when something arrives.
pub struct PushView<V, K> {
    pub value: Option<Option<V>>,
    pub task: Option<K>,
}

/// What arrives through the `Ret`: `outcome` is `None` when it was
/// dropped.  The slot is filled, and the waiting task (if any) is
/// handed back to be woken.
pub open spec fn push_offer<V, K>(s: PushView<V, K>, outcome: Option<V>) -> (PushView<V, K>, Option<K>) {
    (PushView { value: Some(outcome), task: None }, s.task)
}

/// A poll of the future, made from within task `current` (`None`
/// outside any task).  A value is taken out and returned; the news of
/// a dropped `Ret` is taken out without waking anybody again; with
/// nothing there yet, the current task is remembered.
pub open spec fn push_poll<V, K>(s: PushView<V, K>, current: Option<K>) -> (PushView<V, K>, Step<V>) {
    match s.value {
        Some(Some(v)) => (PushView { value: None, task: s.task }, Step::Ready(v)),
        Some(None) => (PushView { value: None, task: s.task }, Step::Pending),
        None => (PushView { value: None, task: current }, Step::Pending),
    }
}

/// How a message from the `Ret` of a failure-passing pipe becomes the
/// value the future resolves to.
pub open spec fn result_outcome<T>(msg: Option<T>) -> Result<T, ActorFail> {
    match msg {
        Some(v) => Ok(v),
        None => Err(ActorFail),
    }
}

/// The shared state of a push-style pipe, with tasks of type `K`.
pub struct PushCell<V, K> {
    value: Option<Option<V>>,
    task: Option<K>,
}

impl<V, K> View for PushCell<V, K> {
    type V = PushView<V, K>;

    open spec fn view(&self) -> PushView<V, K> {
        PushView { value: self.value_spec(), task: self.task_spec() }
    }
}

impl<V, K> PushCell<V, K> {
    pub closed spec fn value_spec(&self) -> Option<Option<V>> {
        self.value
    }

    pub closed spec fn task_spec(&self) -> Option<K> {
        self.task
    }

    /// A pipe with nothing arrived and nobody waiting.
    pub fn new() -> (cell: Self)
        ensures
            cell@ == (PushView::<V, K> { value: None, task: None }),
    {
        PushCell { value: None, task: None }
    }

    /// Record what came through the `Ret` (`None` if it was dropped),
    /// and hand back the task that must be woken, if one was waiting.
    pub fn offer(&mut self, outcome: Option<V>) -> (woken: Option<K>)
        ensures
            (final(self)@, woken) == push_offer(old(self)@, outcome),
    {
        self.value = Some(outcome);
        self.task.take()
    }

    /// Poll from within task `current`; see [`push_poll`].
    pub fn poll_with(&mut self, current: Option<K>) -> (step: Step<V>)
        ensures
            (final(self)@, step) == push_poll(old(self)@, current),
    {
        match self.value.take() {
            Some(Some(v)) => Step::Ready(v),
            Some(None) => Step::Pending,
            None => {
                self.task = current;
                Step::Pending
            },
        }
    }

    /// Record a message of a pipe that drops the task on failure: a
    /// value is offered as usual, while a dropped `Ret` (`None`) is
    /// ignored, so the future is never resolved and the task, once the
    /// pipe is gone, is dropped with it.
    pub fn offer_some(&mut self, msg: Option<V>) -> (woken: Option<K>)
        ensures
            msg is Some ==> (final(self)@, woken) == push_offer(old(self)@, msg),
            msg is None ==> final(self)@ == old(self)@ && woken is None,
    {
        match msg {
            Some(v) => self.offer(Some(v)),
            None => None,
        }
    }
}

impl<T, K> PushCell<Result<T, ActorFail>, K> {
    /// Record a message of a failure-passing pipe: a value `v` arrives
    /// as `Ok(v)`, a dropped `Ret` as `Err(ActorFail)`.
    pub fn offer_result(&mut self, msg: Option<T>) -> (woken: Option<K>)
        ensures
            (final(self)@, woken) == push_offer(old(self)@, Some(result_outcome(msg))),
    {
        let outcome = match msg {
            Some(v) => Ok(v),
            None => Err(ActorFail),
        };
        self.offer(Some(outcome))
    }
}

impl<V> PushCell<V, Task> {
    /// Poll the pipe from whatever task is running now.
    pub fn poll(&mut self, deferrer: &mut Deferrer) -> (step: Step<V>)
        ensures
            exists|current: Option<Task>| #[trigger]
                push_poll(old(self)@, current) == (final(self)@, step),
    {
        let current = current_task(deferrer);
        let step = self.poll_with(current);
        assert(push_poll(old(self)@, current) == (self@, step));
        step
    }
}

/// The steps of a run of polls, made from within the tasks `currents`
/// in turn, with nothing arriving in between.
pub open spec fn push_polls<V, K>(s: PushView<V, K>, currents: Seq<Option<K>>) -> Seq<Step<V>>
    decreases currents.len(),
{
    if currents.len() == 0 {
        Seq::empty()
    } else {
        let (next, step) = push_poll(s, currents[0]);
        seq![step] + push_polls(next, currents.drop_first())
    }
}

/// Once a value has been returned, the next poll resolves to it,
/// whatever happened before.
pub proof fn law_push_value_then_poll<V, K>(s: PushView<V, K>, v: V, current: Option<K>)
    ensures
        push_poll(push_offer(s, Some(v)).0, current).1 == Step::Ready(v),
{
}

/// A poll before the value arrives leaves the future pending and
/// remembers the task; the value's arrival wakes exactly that task, and
/// the next poll resolves to the value.
pub proof fn law_push_poll_then_value<V, K>(s: PushView<V, K>, task: K, v: V, current: Option<K>)
    requires
        s.value is None,
    ensures
        push_poll(s, Some(task)).1 == Step::<V>::Pending,
        push_offer(push_poll(s, Some(task)).0, Some(v)).1 == Some(task),
        push_poll(push_offer(push_poll(s, Some(task)).0, Some(v)).0, current).1 == Step::Ready(v),
{
}

/// A pipe holding no value never resolves, however often it is polled.
proof fn lemma_push_polls_pending<V, K>(s: PushView<V, K>, currents: Seq<Option<K>>)
    requires
        !(s.value matches Some(Some(_))),
    ensures
        push_polls(s, currents).len() == currents.len(),
        forall|i: int| 0 <= i < currents.len() ==> #[trigger] push_polls(s, currents)[i] is Pending,
    decreases currents.len(),
{
    if currents.len() > 0 {
        let (next, step) = push_poll(s, currents[0]);
        lemma_push_polls_pending(next, currents.drop_first());
        assert forall|i: int| 0 <= i < currents.len() implies #[trigger] push_polls(s, currents)[i] is Pending by {
            if i > 0 {
                assert(push_polls(s, currents)[i] == push_polls(next, currents.drop_first())[i - 1]);
            }
        }
    }
}

/// If the `Ret` is dropped, the future never resolves: every later poll
/// is pending.
pub proof fn law_push_dropped_never_ready<V, K>(s: PushView<V, K>, currents: Seq<Option<K>>)
    ensures
        push_polls(push_offer(s, None).0, currents).len() == currents.len(),
        forall|i: int| 0 <= i < currents.len() ==> #[trigger] push_polls(push_offer(s, None).0, currents)[i] is Pending,
{
    lemma_push_polls_pending(push_offer(s, None).0, currents);
}

/// A failure-passing pipe resolves to `Ok(v)` when `v` was returned and
/// to `Err(ActorFail)` when the `Ret` was dropped.
pub proof fn law_push_result<T, K>(s: PushView<Result<T, ActorFail>, K>, msg: Option<T>, current: Option<K>)
    ensures
        push_poll(push_offer(s, Some(result_outcome(msg))).0, current).1 == Step::Ready(
            match msg {
                Some(v) => Ok::<T, ActorFail>(v),
                None => Err(ActorFail),
            },
        ),
{
}

/// No wake-up is ever lost: a task is kept only while nothing has
/// arrived, so whatever arrives finds the task to wake.
pub open spec fn push_no_lost_wakeup<V, K>(s: PushView<V, K>) -> bool {
    s.value is Some ==> s.task is None
}

/// Every transition keeps [`push_no_lost_wakeup`] (and a new pipe has it).
pub proof fn law_push_no_lost_wakeup<V, K>(s: PushView<V, K>, outcome: Option<V>, current: Option<K>)
    requires
        push_no_lost_wakeup(s),
    ensures
        push_no_lost_wakeup(PushView::<V, K> { value: None, task: None }),
        push_no_lost_wakeup(push_offer(s, outcome).0),
        push_no_lost_wakeup(push_poll(s, current).0),
{
}

/// Whatever came before, an offer records exactly the outcome offered,
/// keeps no task, and hands back the task that was waiting, if any.
pub proof fn law_push_offer_records<V, K>(s: PushView<V, K>, outcome: Option<V>)
    ensures
        push_offer(s, outcome).0.value == Some(outcome),
        push_offer(s, outcome).0.task is None,
        push_offer(s, outcome).1 == s.task,
{
}

/// After the `Ret` is dropped, whatever happened before (a task waiting
/// or not), the next poll keeps no task and does not resolve, so a task
/// that awaits the future is dropped there.
pub proof fn law_push_dropped_keeps_no_task<V, K>(s: PushView<V, K>, current: Option<K>)
    ensures
        push_poll(push_offer(s, None).0, current).1 is Pending,
        push_poll(push_offer(s, None).0, current).0.task is None,
        push_poll(push_offer(s, None).0, current).0.value is None,
{
}

/// A poll that finds nothing arrived leaves the future pending and
/// keeps the task it was made from, in place of any task kept before;
/// a poll that finds a value resolves to it and empties the slot.
pub proof fn law_push_poll_waits_or_takes<V, K>(s: PushView<V, K>, current: Option<K>)
    ensures
        s.value is None ==> push_poll(s, current) == (PushView::<V, K> { value: None, task: current }, Step::<V>::Pending),
        s.value matches Some(Some(v)) ==> push_poll(s, current).1 == Step::Ready(v),
        push_poll(s, current).0.value is None,
{
}

} // verus!
