//! Pull-style `Ret` -> `Future` pipes.
//!
//! The future asks for its value only when first polled from within a
//! task, by sending a request (a `Ret` for the answer) to the provided
//! `Ret`.  A [`PullCell`] tracks how far that exchange has got.

use crate::runtime::current_task;
use crate::push::result_outcome;
use crate::ActorFail;
use stakker::task::Task;
use stakker::Deferrer;
use vstd::prelude::*;

verus! {

/// Where a pull pipe stands.  `R` is the request that has not been
/// sent yet, `V` the value the future resolves to, `K` a task.
pub enum PullState<R, V, K> {
    /// Not polled yet; the request is still held back.
    Waiting(R),
    /// Asked for the value; the polling task waits for the answer.
    Polled(K),
    /// The answer arrived and waits to be picked up.
    Value(V),
    /// Nothing more will come: the value was taken, the answer never
    /// came, or there was no task to wake.
    Done,
}

/// What a poll of a pull pipe asks of its caller.
pub enum PullStep<R, V> {
    /// The future is ready with this value.
    Ready(V),
    /// Not ready; nothing to do.
    Pending,
    /// Not ready; send this request now.
    Request(R),
    /// Not ready, and never will be: there is no task to wake, so this
    /// request is to be dropped unsent.
    Release(R),
}

/// A poll of the future from within task `current` (`None` outside any
/// task).
pub open spec fn pull_poll<R, V, K>(s: PullState<R, V, K>, current: Option<K>) -> (PullState<R, V, K>, PullStep<R, V>) {
    match s {
        PullState::Waiting(r) => match current {
            Some(k) => (PullState::Polled(k), PullStep::Request(r)),
            None => (PullState::Done, PullStep::Release(r)),
        },
        PullState::Polled(k) => (PullState::Polled(k), PullStep::Pending),
        PullState::Value(v) => (PullState::Done, PullStep::Ready(v)),
        PullState::Done => (PullState::Done, PullStep::Pending),
    }
}

/// The answer to the request: `outcome` is `None` when the answer's
/// `Ret` was dropped (or, for a pipe that drops the task on failure,
/// when no value came).  A value for a waiting task is kept and the
/// task handed back to be woken; anything else ends the pipe, and the
/// task, no longer referenced, is dropped.
pub open spec fn pull_answer<R, V, K>(s: PullState<R, V, K>, outcome: Option<V>) -> (PullState<R, V, K>, Option<K>) {
    match outcome {
        Some(v) => match s {
            PullState::Polled(k) => (PullState::Value(v), Some(k)),
            _ => (PullState::Done, None),
        },
        None => (PullState::Done, None),
    }
}

/// The shared state of a pull-style pipe.
pub struct PullCell<R, V, K> {
    state: PullState<R, V, K>,
}

impl<R, V, K> View for PullCell<R, V, K> {
    type V = PullState<R, V, K>;

    closed spec fn view(&self) -> PullState<R, V, K> {
        self.state
    }
}

impl<R, V, K> PullCell<R, V, K> {
    /// A pipe that has nothing to send yet.
    pub fn new() -> (cell: Self)
        ensures
            cell@ == PullState::<R, V, K>::Done,
    {
        PullCell { state: PullState::Done }
    }

    /// Hold back `request` until the first poll.
    pub fn arm(&mut self, request: R)
        ensures
            final(self)@ == PullState::<R, V, K>::Waiting(request),
    {
        self.state = PullState::Waiting(request);
    }

    /// Poll from within task `current`; see [`pull_poll`].
    pub fn poll_with(&mut self, current: Option<K>) -> (step: PullStep<R, V>)
        ensures
            (final(self)@, step) == pull_poll(old(self)@, current),
    {
        let mut state = PullState::Done;
        std::mem::swap(&mut state, &mut self.state);
        match state {
            PullState::Waiting(r) => match current {
                Some(k) => {
                    self.state = PullState::Polled(k);
                    PullStep::Request(r)
                },
                None => PullStep::Release(r),
            },
            PullState::Polled(k) => {
                self.state = PullState::Polled(k);
                PullStep::Pending
            },
            PullState::Value(v) => PullStep::Ready(v),
            PullState::Done => PullStep::Pending,
        }
    }

    /// Take the answer; see [`pull_answer`].  Hands back the task to wake.
    pub fn answer(&mut self, outcome: Option<V>) -> (woken: Option<K>)
        ensures
            (final(self)@, woken) == pull_answer(old(self)@, outcome),
    {
        let mut state = PullState::Done;
        std::mem::swap(&mut state, &mut self.state);
        match outcome {
            Some(v) => match state {
                PullState::Polled(k) => {
                    self.state = PullState::Value(v);
                    Some(k)
                },
                _ => None,
            },
            None => None,
        }
    }
}

impl<R, T, K> PullCell<R, Result<T, ActorFail>, K> {
    /// Take the answer of a failure-passing pipe: a value `v` as
    /// `Ok(v)`, a dropped answer `Ret` as `Err(ActorFail)`.
    pub fn answer_result(&mut self, msg: Option<T>) -> (woken: Option<K>)
        ensures
            (final(self)@, woken) == pull_answer(old(self)@, Some(result_outcome(msg))),
    {
        let outcome = match msg {
            Some(v) => Ok(v),
            None => Err(ActorFail),
        };
        self.answer(Some(outcome))
    }
}

impl<R, V> PullCell<R, V, Task> {
    /// Poll the pipe from whatever task is running now.
    pub fn poll(&mut self, deferrer: &mut Deferrer) -> (step: PullStep<R, V>)
        ensures
            exists|current: Option<Task>| #[trigger]
                pull_poll(old(self)@, current) == (final(self)@, step),
    {
        let current = current_task(deferrer);
        let step = self.poll_with(current);
        assert(pull_poll(old(self)@, current) == (self@, step));
        step
    }
}

/// The steps of a run of polls, made from within the tasks `currents`
/// in turn, with no answer arriving in between.
pub open spec fn pull_polls<R, V, K>(s: PullState<R, V, K>, currents: Seq<Option<K>>) -> Seq<PullStep<R, V>>
    decreases currents.len(),
{
    if currents.len() == 0 {
        Seq::empty()
    } else {
        let (next, step) = pull_poll(s, currents[0]);
        seq![step] + pull_polls(next, currents.drop_first())
    }
}

/// A pipe that is waiting for its answer, or that is done, stays so
/// under polls, and every poll is pending.
proof fn lemma_pull_polls_pending<R, V, K>(s: PullState<R, V, K>, currents: Seq<Option<K>>)
    requires
        s is Polled || s is Done,
    ensures
        pull_polls(s, currents).len() == currents.len(),
        forall|i: int| 0 <= i < currents.len() ==> #[trigger] pull_polls(s, currents)[i] is Pending,
    decreases currents.len(),
{
    if currents.len() > 0 {
        let (next, step) = pull_poll(s, currents[0]);
        assert(next == s);
        lemma_pull_polls_pending(next, currents.drop_first());
        assert forall|i: int| 0 <= i < currents.len() implies #[trigger] pull_polls(s, currents)[i] is Pending by {
            if i > 0 {
                assert(pull_polls(s, currents)[i] == pull_polls(next, currents.drop_first())[i - 1]);
            }
        }
    }
}

/// The value is pulled only on demand, and only once: the request goes
/// out at the first poll made from within a task, and no later poll
/// sends anything or resolves until the answer arrives.
pub proof fn law_pull_on_demand<R, V, K>(request: R, task: K, currents: Seq<Option<K>>)
    ensures
        pull_poll(PullState::<R, V, K>::Waiting(request), Some(task))
            == (PullState::<R, V, K>::Polled(task), PullStep::<R, V>::Request(request)),
        pull_polls(PullState::<R, V, K>::Polled(task), currents).len() == currents.len(),
        forall|i: int| 0 <= i < currents.len() ==>
            #[trigger] pull_polls(PullState::<R, V, K>::Polled(task), currents)[i] is Pending,
{
    lemma_pull_polls_pending(PullState::<R, V, K>::Polled(task), currents);
}

/// A request sent from within a task, answered with a value, wakes that
/// task, and its next poll resolves to the value; after that the pipe
/// is done.
pub proof fn law_pull_answer<R, V, K>(request: R, task: K, v: V, current: Option<K>)
    ensures
        ({
            let (polled, step) = pull_poll(PullState::<R, V, K>::Waiting(request), Some(task));
            let (answered, woken) = pull_answer(polled, Some(v));
            &&& step == PullStep::<R, V>::Request(request)
            &&& woken == Some(task)
            &&& pull_poll(answered, current) == (PullState::<R, V, K>::Done, PullStep::<R, V>::Ready(v))
        }),
{
}

/// When no value comes (the answer `Ret` is dropped, for a pipe that
/// drops the task on failure), nobody is woken, the task is released,
/// and the future never resolves.
pub proof fn law_pull_failure_drops_task<R, V, K>(s: PullState<R, V, K>, currents: Seq<Option<K>>)
    ensures
        pull_answer(s, None) == (PullState::<R, V, K>::Done, None::<K>),
        pull_polls(PullState::<R, V, K>::Done, currents).len() == currents.len(),
        forall|i: int| 0 <= i < currents.len() ==>
            #[trigger] pull_polls(PullState::<R, V, K>::Done, currents)[i] is Pending,
{
    lemma_pull_polls_pending(PullState::<R, V, K>::Done, currents);
}

/// A failure-passing pipe whose request was sent resolves to `Ok(v)`
/// when `v` comes back, and to `Err(ActorFail)` when the answer `Ret`
/// is dropped; either way the waiting task is woken.
pub proof fn law_pull_result<R, T, K>(task: K, msg: Option<T>, current: Option<K>)
    ensures
        ({
            let (answered, woken) = pull_answer(
                PullState::<R, Result<T, ActorFail>, K>::Polled(task),
                Some(result_outcome(msg)),
            );
            &&& woken == Some(task)
            &&& pull_poll(answered, current).1 == PullStep::<R, Result<T, ActorFail>>::Ready(
                match msg {
                    Some(v) => Ok::<T, ActorFail>(v),
                    None => Err(ActorFail),
                },
            )
        }),
{
}

} // verus!
