//! `Fwd` -> `Stream` pipes.
//!
//! The sender passes any number of `Some(value)` and then `None`
//! through a `Fwd`; the values come out of the stream in the order sent
//! and then the stream ends.  A [`StreamState`] is the queue between the
//! two ends, with what is known of the sender and of the waiting task.

use crate::runtime::current_task;
use crate::ActorFail;
use stakker::task::Task;
use stakker::Deferrer;
use std::collections::VecDeque;
use vstd::prelude::*;

verus! {

/// The abstract state of a [`StreamState`].
pub struct StreamView<T, K> {
    /// Values sent and not yet taken, oldest first.
    pub items: Seq<T>,
    /// The sender has finished, nicely (`None`) or by failing.
    pub end: bool,
    /// The sender went away without finishing and the task is to be
    /// dropped.
    pub dropped: bool,
    /// The task to wake when something arrives.
    pub task: Option<K>,
}

/// What a poll of the stream gives.
pub enum StreamStep<T> {
    /// The next value.
    Item(T),
    /// The stream has ended.
    End,
    /// Nothing yet, and nothing will come: the task is not kept.
    Pending,
    /// Nothing yet: the task is kept, and the sender is to be asked for
    /// more data.
    NeedMore,
}

/// A message through the `Fwd`: `Some(v)` queues `v`, `None` ends the
/// stream.  After the end, messages are ignored.  The waiting task is
/// handed back to be woken.
pub open spec fn stream_accept<T, K>(s: StreamView<T, K>, msg: Option<T>) -> (StreamView<T, K>, Option<K>) {
    if s.end {
        (s, None)
    } else {
        match msg {
            Some(v) => (StreamView { items: s.items.push(v), end: false, dropped: s.dropped, task: None }, s.task),
            None => (StreamView { items: s.items, end: true, dropped: s.dropped, task: None }, s.task),
        }
    }
}

/// The `Fwd` of a task-dropping pipe went away.  Unless the stream
/// ended nicely, the task is dropped and the stream never yields again.
pub open spec fn stream_abandon<T, K>(s: StreamView<T, K>) -> StreamView<T, K> {
    if s.end {
        s
    } else {
        StreamView { items: s.items, end: s.end, dropped: true, task: None }
    }
}

/// The `Fwd` of a failure-passing pipe went away.  Unless the stream
/// ended nicely, `Err(ActorFail)` is queued, the stream ends, and the
/// waiting task is handed back to be woken.
pub open spec fn stream_fail<T, K>(s: StreamView<Result<T, ActorFail>, K>) -> (StreamView<Result<T, ActorFail>, K>, Option<K>) {
    if s.end {
        (s, None)
    } else {
        (StreamView { items: s.items.push(Err(ActorFail)), end: true, dropped: s.dropped, task: None }, s.task)
    }
}

/// A poll of the stream from within task `current`.
pub open spec fn stream_poll<T, K>(s: StreamView<T, K>, current: Option<K>) -> (StreamView<T, K>, StreamStep<T>) {
    if s.dropped {
        (StreamView { task: None, ..s }, StreamStep::Pending)
    } else if s.items.len() > 0 {
        (StreamView { items: s.items.drop_first(), ..s }, StreamStep::Item(s.items[0]))
    } else if s.end {
        (s, StreamStep::End)
    } else {
        (StreamView { task: current, ..s }, StreamStep::NeedMore)
    }
}

/// The state of a new pipe, whatever its initial capacity.
pub open spec fn stream_fresh<T, K>() -> StreamView<T, K> {
    StreamView { items: Seq::empty(), end: false, dropped: false, task: None }
}

/// The queue between the two ends of a `Fwd` -> `Stream` pipe.
pub struct StreamState<T, K> {
    queue: VecDeque<T>,
    end: bool,
    dropped: bool,
    task: Option<K>,
}

impl<T, K> View for StreamState<T, K> {
    type V = StreamView<T, K>;

    closed spec fn view(&self) -> StreamView<T, K> {
        StreamView { items: self.queue@, end: self.end, dropped: self.dropped, task: self.task }
    }
}

impl<T, K> StreamState<T, K> {
    /// An empty queue, with room for `init_capacity` values before it
    /// has to grow.  The capacity sizes the queue only: the view, and so
    /// all later behaviour, is the same whatever it is.
    pub fn new(init_capacity: usize) -> (s: Self)
        ensures
            s@ == stream_fresh::<T, K>(),
    {
        StreamState { queue: VecDeque::with_capacity(init_capacity), end: false, dropped: false, task: None }
    }

    /// Take a message from the sender; see [`stream_accept`].
    pub fn accept(&mut self, msg: Option<T>) -> (woken: Option<K>)
        ensures
            (final(self)@, woken) == stream_accept(old(self)@, msg),
    {
        if self.end {
            return None;
        }
        match msg {
            Some(v) => self.queue.push_back(v),
            None => self.end = true,
        }
        self.task.take()
    }

    /// The sender of a task-dropping pipe went away; see [`stream_abandon`].
    pub fn abandon(&mut self)
        ensures
            final(self)@ == stream_abandon(old(self)@),
    {
        if !self.end {
            self.dropped = true;
            self.task = None;
        }
    }

    /// Poll from within task `current`; see [`stream_poll`].
    pub fn poll_with(&mut self, current: Option<K>) -> (step: StreamStep<T>)
        ensures
            (final(self)@, step) == stream_poll(old(self)@, current),
    {
        if self.dropped {
            self.task = None;
            return StreamStep::Pending;
        }
        match self.queue.pop_front() {
            Some(item) => {
                assert(self.queue@ =~= old(self)@.items.drop_first());
                StreamStep::Item(item)
            },
            None => {
                if self.end {
                    StreamStep::End
                } else {
                    self.task = current;
                    StreamStep::NeedMore
                }
            },
        }
    }
}

impl<T, K> StreamState<Result<T, ActorFail>, K> {
    /// Take a message from the sender of a failure-passing pipe, whose
    /// values come out as `Ok(v)`.
    pub fn accept_ok(&mut self, msg: Option<T>) -> (woken: Option<K>)
        ensures
            (final(self)@, woken) == stream_accept(old(self)@, match msg {
                Some(v) => Some(Ok(v)),
                None => None,
            }),
    {
        let msg = match msg {
            Some(v) => Some(Ok(v)),
            None => None,
        };
        self.accept(msg)
    }

    /// The sender of a failure-passing pipe went away; see [`stream_fail`].
    pub fn fail(&mut self) -> (woken: Option<K>)
        ensures
            (final(self)@, woken) == stream_fail(old(self)@),
    {
        if self.end {
            return None;
        }
        self.queue.push_back(Err(ActorFail));
        self.end = true;
        self.task.take()
    }
}

impl<T> StreamState<T, Task> {
    /// Poll the stream from whatever task is running now.  On
    /// [`StreamStep::NeedMore`] the caller asks the sender for more data
    /// through its `Fwd<()>`.
    pub fn poll_next(&mut self, deferrer: &mut Deferrer) -> (step: StreamStep<T>)
        ensures
            exists|current: Option<Task>| #[trigger]
                stream_poll(old(self)@, current) == (final(self)@, step),
    {
        let current = current_task(deferrer);
        let step = self.poll_with(current);
        assert(stream_poll(old(self)@, current) == (self@, step));
        step
    }
}

/// The state after the sender passes `msgs` in turn.
pub open spec fn stream_feed<T, K>(s: StreamView<T, K>, msgs: Seq<Option<T>>) -> StreamView<T, K>
    decreases msgs.len(),
{
    if msgs.len() == 0 {
        s
    } else {
        stream_feed(stream_accept(s, msgs[0]).0, msgs.drop_first())
    }
}

/// The steps of a run of polls, made from within the tasks `currents`
/// in turn, with nothing sent in between.
pub open spec fn stream_polls<T, K>(s: StreamView<T, K>, currents: Seq<Option<K>>) -> Seq<StreamStep<T>>
    decreases currents.len(),
{
    if currents.len() == 0 {
        Seq::empty()
    } else {
        let (next, step) = stream_poll(s, currents[0]);
        seq![step] + stream_polls(next, currents.drop_first())
    }
}

/// Each of `values` as a message through the `Fwd`.
pub open spec fn as_messages<T>(values: Seq<T>) -> Seq<Option<T>> {
    values.map_values(|v: T| Some(v))
}

/// What the stream yields for `values` followed by its end.
pub open spec fn items_then_end<T>(values: Seq<T>) -> Seq<StreamStep<T>> {
    values.map_values(|v: T| StreamStep::Item(v)).push(StreamStep::End)
}

proof fn lemma_feed_values<T, K>(s: StreamView<T, K>, values: Seq<T>)
    requires
        !s.end,
    ensures
        stream_feed(s, as_messages(values))
            == (StreamView { items: s.items + values, end: false, dropped: s.dropped, task: stream_feed(s, as_messages(values)).task }),
    decreases values.len(),
{
    if values.len() == 0 {
        assert(s.items + values =~= s.items);
    } else {
        let next = stream_accept(s, Some(values[0])).0;
        assert(as_messages(values).drop_first() =~= as_messages(values.drop_first()));
        lemma_feed_values(next, values.drop_first());
        assert(next.items + values.drop_first() =~= s.items + values);
    }
}

proof fn lemma_feed_push<T, K>(s: StreamView<T, K>, msgs: Seq<Option<T>>, last: Option<T>)
    ensures
        stream_feed(s, msgs.push(last)) == stream_accept(stream_feed(s, msgs), last).0,
    decreases msgs.len(),
{
    assert(msgs.push(last)[0] == if msgs.len() == 0 { last } else { msgs[0] });
    if msgs.len() == 0 {
        assert(msgs.push(last).drop_first() =~= Seq::<Option<T>>::empty());
        assert(stream_feed(stream_accept(s, last).0, Seq::<Option<T>>::empty()) == stream_accept(s, last).0);
    } else {
        assert(msgs.push(last).drop_first() =~= msgs.drop_first().push(last));
        lemma_feed_push(stream_accept(s, msgs[0]).0, msgs.drop_first(), last);
    }
}

/// An ended stream that was not abandoned yields every queued value, in
/// order (an appended `Err(ActorFail)` included), and then its end.
pub proof fn law_stream_drain<T, K>(s: StreamView<T, K>, currents: Seq<Option<K>>)
    requires
        s.end,
        !s.dropped,
        currents.len() == s.items.len() + 1,
    ensures
        stream_polls(s, currents) =~= items_then_end(s.items),
    decreases currents.len(),
{
    let (next, step) = stream_poll(s, currents[0]);
    assert(stream_polls(s, currents) == seq![step] + stream_polls(next, currents.drop_first()));
    if s.items.len() == 0 {
        assert(currents.drop_first() =~= Seq::<Option<K>>::empty());
        assert(stream_polls(next, currents.drop_first()) =~= Seq::<StreamStep<T>>::empty());
        assert(items_then_end(s.items) =~= seq![StreamStep::<T>::End]);
    } else {
        assert(next.items == s.items.drop_first());
        law_stream_drain(next, currents.drop_first());
        assert(items_then_end(s.items) =~= seq![StreamStep::Item(s.items[0])] + items_then_end(s.items.drop_first()));
    }
}

/// Values come out of the stream in the order sent, after those already
/// queued, and then the stream ends: this holds whatever tasks poll.
pub proof fn law_stream_in_order<T, K>(s: StreamView<T, K>, values: Seq<T>, currents: Seq<Option<K>>)
    requires
        !s.end,
        !s.dropped,
        currents.len() == s.items.len() + values.len() + 1,
    ensures
        stream_feed(s, as_messages(values).push(None)).items == s.items + values,
        stream_feed(s, as_messages(values).push(None)).end,
        stream_polls(stream_feed(s, as_messages(values).push(None)), currents) == items_then_end(s.items + values),
{
    lemma_feed_values(s, values);
    lemma_feed_push(s, as_messages(values), None);
    law_stream_drain(stream_feed(s, as_messages(values).push(None)), currents);
}

/// After the end, whatever the sender passes is ignored.
pub proof fn law_stream_ignores_after_end<T, K>(s: StreamView<T, K>, msgs: Seq<Option<T>>)
    requires
        s.end,
    ensures
        stream_feed(s, msgs) == s,
    decreases msgs.len(),
{
    if msgs.len() > 0 {
        law_stream_ignores_after_end(s, msgs.drop_first());
    }
}

proof fn lemma_dropped_pending<T, K>(s: StreamView<T, K>, currents: Seq<Option<K>>)
    requires
        s.dropped,
    ensures
        stream_polls(s, currents).len() == currents.len(),
        forall|i: int| 0 <= i < currents.len() ==> #[trigger] stream_polls(s, currents)[i] is Pending,
    decreases currents.len(),
{
    if currents.len() > 0 {
        let (next, step) = stream_poll(s, currents[0]);
        lemma_dropped_pending(next, currents.drop_first());
        assert forall|i: int| 0 <= i < currents.len() implies #[trigger] stream_polls(s, currents)[i] is Pending by {
            if i > 0 {
                assert(stream_polls(s, currents)[i] == stream_polls(next, currents.drop_first())[i - 1]);
            }
        }
    }
}

/// If the `Fwd` of a task-dropping pipe goes away before the stream
/// ended, the task is released and the stream never yields again.
pub proof fn law_stream_abandoned<T, K>(s: StreamView<T, K>, currents: Seq<Option<K>>)
    requires
        !s.end,
    ensures
        stream_abandon(s).task is None,
        stream_polls(stream_abandon(s), currents).len() == currents.len(),
        forall|i: int| 0 <= i < currents.len() ==> #[trigger] stream_polls(stream_abandon(s), currents)[i] is Pending,
{
    lemma_dropped_pending(stream_abandon(s), currents);
}

/// If the `Fwd` of a failure-passing pipe goes away before the stream
/// ended, the waiting task is woken, the values already queued come
/// out, then `Err(ActorFail)`, then the end.
pub proof fn law_stream_failure<T, K>(s: StreamView<Result<T, ActorFail>, K>, currents: Seq<Option<K>>)
    requires
        !s.end,
        !s.dropped,
        currents.len() == s.items.len() + 2,
    ensures
        stream_fail(s).1 == s.task,
        stream_polls(stream_fail(s).0, currents) == items_then_end(s.items.push(Err(ActorFail))),
{
    law_stream_drain(stream_fail(s).0, currents);
}

/// No wake-up is ever lost: a task is kept only while the stream is
/// empty, unfinished and not abandoned, so whatever arrives finds the
/// task to wake.
pub open spec fn stream_no_lost_wakeup<T, K>(s: StreamView<T, K>) -> bool {
    (s.items.len() > 0 || s.end || s.dropped) ==> s.task is None
}

/// Every transition keeps [`stream_no_lost_wakeup`] (and a new pipe has it).
pub proof fn law_stream_no_lost_wakeup<T, K>(s: StreamView<T, K>, msg: Option<T>, current: Option<K>)
    requires
        stream_no_lost_wakeup(s),
    ensures
        stream_no_lost_wakeup(stream_fresh::<T, K>()),
        stream_no_lost_wakeup(stream_accept(s, msg).0),
        stream_no_lost_wakeup(stream_abandon(s)),
        stream_no_lost_wakeup(stream_poll(s, current).0),
{
}

/// The failure of the sender keeps [`stream_no_lost_wakeup`] too.
pub proof fn law_stream_fail_no_lost_wakeup<T, K>(s: StreamView<Result<T, ActorFail>, K>)
    requires
        stream_no_lost_wakeup(s),
    ensures
        stream_no_lost_wakeup(stream_fail(s).0),
{
}

/// One operation on a pipe: a message through the `Fwd`, or a poll of
/// the stream from within a task.
pub enum StreamOp<T, K> {
    Send(Option<T>),
    Poll(Option<K>),
}

/// The state and the poll results after the operations `ops`, in turn.
pub open spec fn stream_replay<T, K>(s: StreamView<T, K>, ops: Seq<StreamOp<T, K>>) -> (StreamView<T, K>, Seq<StreamStep<T>>)
    decreases ops.len(),
{
    if ops.len() == 0 {
        (s, Seq::empty())
    } else {
        let (next, steps) = match ops[0] {
            StreamOp::Send(m) => (stream_accept(s, m).0, Seq::<StreamStep<T>>::empty()),
            StreamOp::Poll(c) => (stream_poll(s, c).0, seq![stream_poll(s, c).1]),
        };
        let (last, rest) = stream_replay(next, ops.drop_first());
        (last, steps + rest)
    }
}

/// The values that the stream yields in `steps`, in order.
pub open spec fn yielded<T>(steps: Seq<StreamStep<T>>) -> Seq<T>
    decreases steps.len(),
{
    if steps.len() == 0 {
        Seq::empty()
    } else {
        let rest = yielded(steps.drop_first());
        match steps[0] {
            StreamStep::Item(v) => seq![v] + rest,
            _ => rest,
        }
    }
}

/// The values sent in `ops` up to the end of the stream (`ended` is
/// whether it had ended before them).
pub open spec fn sent_before_end<T, K>(ended: bool, ops: Seq<StreamOp<T, K>>) -> Seq<T>
    decreases ops.len(),
{
    if ops.len() == 0 {
        Seq::empty()
    } else {
        match ops[0] {
            StreamOp::Send(Some(v)) => if ended {
                sent_before_end(true, ops.drop_first())
            } else {
                seq![v] + sent_before_end(false, ops.drop_first())
            },
            StreamOp::Send(None) => sent_before_end(true, ops.drop_first()),
            StreamOp::Poll(_) => sent_before_end(ended, ops.drop_first()),
        }
    }
}

/// Whether `ops` end the stream.
pub open spec fn sends_end<T, K>(ops: Seq<StreamOp<T, K>>) -> bool {
    exists|i: int| 0 <= i < ops.len() && #[trigger] ops[i] == StreamOp::<T, K>::Send(None)
}

proof fn lemma_yielded_prepend<T>(step: StreamStep<T>, rest: Seq<StreamStep<T>>)
    ensures
        yielded(seq![step] + rest) == match step {
            StreamStep::Item(v) => seq![v] + yielded(rest),
            _ => yielded(rest),
        },
{
    assert((seq![step] + rest).drop_first() =~= rest);
}

/// However sends and polls interleave, nothing is lost, duplicated or
/// reordered: the values yielded so far, followed by those still
/// queued, are exactly the values queued at the start followed by those
/// sent before the end; the stream has ended exactly when the end was
/// sent, and it is never abandoned by sends and polls.
pub proof fn law_stream_interleaved<T, K>(s: StreamView<T, K>, ops: Seq<StreamOp<T, K>>)
    requires
        !s.dropped,
    ensures
        yielded(stream_replay(s, ops).1) + stream_replay(s, ops).0.items
            == s.items + sent_before_end(s.end, ops),
        stream_replay(s, ops).0.end == (s.end || sends_end(ops)),
        !stream_replay(s, ops).0.dropped,
    decreases ops.len(),
{
    if ops.len() == 0 {
        assert(s.items + Seq::<T>::empty() =~= s.items);
        assert(yielded(Seq::<StreamStep<T>>::empty()) + s.items =~= s.items);
        assert(!sends_end(ops));
    } else {
        let rest = ops.drop_first();
        let (next, steps) = match ops[0] {
            StreamOp::Send(m) => (stream_accept(s, m).0, Seq::<StreamStep<T>>::empty()),
            StreamOp::Poll(c) => (stream_poll(s, c).0, seq![stream_poll(s, c).1]),
        };
        law_stream_interleaved(next, rest);
        let (last, later) = stream_replay(next, rest);
        assert(stream_replay(s, ops) == (last, steps + later));
        assert(sends_end(ops) == (ops[0] == StreamOp::<T, K>::Send(None) || sends_end(rest))) by {
            if sends_end(rest) {
                let i = choose|i: int| 0 <= i < rest.len() && #[trigger] rest[i] == StreamOp::<T, K>::Send(None);
                assert(ops[i + 1] == rest[i]);
            }
            if sends_end(ops) && ops[0] != StreamOp::<T, K>::Send(None) {
                let i = choose|i: int| 0 <= i < ops.len() && #[trigger] ops[i] == StreamOp::<T, K>::Send(None);
                assert(rest[i - 1] == ops[i]);
            }
            if ops[0] == StreamOp::<T, K>::Send(None) {
                assert(ops[0] == StreamOp::<T, K>::Send(None));
            }
        }
        match ops[0] {
            StreamOp::Send(m) => {
                assert(steps + later =~= later);
                if !s.end {
                    if let Some(v) = m {
                        assert(s.items.push(v) + sent_before_end(false, rest) =~= s.items + (seq![v] + sent_before_end(false, rest)));
                    }
                }
            },
            StreamOp::Poll(c) => {
                let step = stream_poll(s, c).1;
                lemma_yielded_prepend(step, later);
                if s.items.len() > 0 {
                    assert(seq![s.items[0]] + s.items.drop_first() =~= s.items);
                    assert((seq![s.items[0]] + yielded(later)) + last.items =~= seq![s.items[0]] + (yielded(later) + last.items));
                }
            },
        }
    }
}

/// An ended, drained stream stays ended: every later poll yields the
/// end and keeps no task, and nothing sent changes it.
pub proof fn law_stream_ended_stays_ended<T, K>(s: StreamView<T, K>, ops: Seq<StreamOp<T, K>>)
    requires
        s.end,
        !s.dropped,
        s.items.len() == 0,
    ensures
        stream_replay(s, ops).0 == s,
        forall|i: int| 0 <= i < stream_replay(s, ops).1.len() ==> #[trigger] stream_replay(s, ops).1[i] is End,
    decreases ops.len(),
{
    if ops.len() > 0 {
        law_stream_ended_stays_ended(s, ops.drop_first());
        let (last, later) = stream_replay(s, ops.drop_first());
        let steps = match ops[0] {
            StreamOp::Send(m) => Seq::<StreamStep<T>>::empty(),
            StreamOp::Poll(c) => seq![StreamStep::<T>::End],
        };
        assert(stream_replay(s, ops) == (last, steps + later));
        assert forall|i: int| 0 <= i < (steps + later).len() implies #[trigger] (steps + later)[i] is End by {
            if i >= steps.len() {
                assert((steps + later)[i] == later[i - steps.len()]);
            }
        }
    }
}

/// The tasks that the messages `msgs`, sent in turn, hand back to be woken.
pub open spec fn stream_wakes<T, K>(s: StreamView<T, K>, msgs: Seq<Option<T>>) -> Seq<Option<K>>
    decreases msgs.len(),
{
    if msgs.len() == 0 {
        Seq::empty()
    } else {
        let (next, woken) = stream_accept(s, msgs[0]);
        seq![woken] + stream_wakes(next, msgs.drop_first())
    }
}

proof fn lemma_no_wakes<T, K>(s: StreamView<T, K>, msgs: Seq<Option<T>>)
    requires
        s.task is None,
    ensures
        stream_wakes(s, msgs).len() == msgs.len(),
        forall|i: int| 0 <= i < msgs.len() ==> #[trigger] stream_wakes(s, msgs)[i] is None,
    decreases msgs.len(),
{
    if msgs.len() > 0 {
        let (next, woken) = stream_accept(s, msgs[0]);
        lemma_no_wakes(next, msgs.drop_first());
        assert forall|i: int| 0 <= i < msgs.len() implies #[trigger] stream_wakes(s, msgs)[i] is None by {
            if i > 0 {
                assert(stream_wakes(s, msgs)[i] == stream_wakes(next, msgs.drop_first())[i - 1]);
            }
        }
    }
}

/// A waiting task is woken once, by the first of several messages sent
/// before the next poll; the others wake nobody.
pub proof fn law_stream_one_wake<T, K>(s: StreamView<T, K>, msgs: Seq<Option<T>>)
    requires
        !s.end,
        msgs.len() > 0,
    ensures
        stream_wakes(s, msgs).len() == msgs.len(),
        stream_wakes(s, msgs)[0] == s.task,
        forall|i: int| 1 <= i < msgs.len() ==> #[trigger] stream_wakes(s, msgs)[i] is None,
{
    let (next, woken) = stream_accept(s, msgs[0]);
    lemma_no_wakes(next, msgs.drop_first());
    assert forall|i: int| 1 <= i < msgs.len() implies #[trigger] stream_wakes(s, msgs)[i] is None by {
        assert(stream_wakes(s, msgs)[i] == stream_wakes(next, msgs.drop_first())[i - 1]);
    }
}

/// If the `Fwd` of a failure-passing pipe goes away before the end was
/// sent, however sends and polls interleaved before: the waiting task is
/// woken, and the values yielded so far followed by those now queued are
/// the values sent, then `Err(ActorFail)`; the stream has ended, so
/// draining it ([`law_stream_drain`]) yields the queued ones and then
/// the end.
pub proof fn law_stream_failure_after<T, K>(s: StreamView<Result<T, ActorFail>, K>, ops: Seq<StreamOp<Result<T, ActorFail>, K>>)
    requires
        !s.end,
        !s.dropped,
        !sends_end(ops),
    ensures
        ({
            let (t, steps) = stream_replay(s, ops);
            &&& stream_fail(t).1 == t.task
            &&& stream_fail(t).0.end
            &&& !stream_fail(t).0.dropped
            &&& yielded(steps) + stream_fail(t).0.items
                == (s.items + sent_before_end(false, ops)).push(Err(ActorFail))
        }),
{
    law_stream_interleaved(s, ops);
    let (t, steps) = stream_replay(s, ops);
    assert(yielded(steps) + t.items.push(Err(ActorFail)) =~= (yielded(steps) + t.items).push(Err(ActorFail)));
}

/// A new pipe, whatever its initial capacity (see [`StreamState::new`]),
/// behaves alike for the same sends and polls: the values it yields,
/// followed by those still queued, are the values sent before the end,
/// and it has ended exactly when the end was sent.
pub proof fn law_stream_fresh_run<T, K>(ops: Seq<StreamOp<T, K>>)
    ensures
        yielded(stream_replay(stream_fresh::<T, K>(), ops).1) + stream_replay(stream_fresh::<T, K>(), ops).0.items
            == sent_before_end(false, ops),
        stream_replay(stream_fresh::<T, K>(), ops).0.end == sends_end(ops),
{
    law_stream_interleaved(stream_fresh::<T, K>(), ops);
    assert(Seq::<T>::empty() + sent_before_end(false, ops) =~= sent_before_end(false, ops));
}

/// Once the end was sent, the sender going away changes nothing: no
/// `Err(ActorFail)` is added and nobody is woken.
pub proof fn law_stream_fail_after_end<T, K>(s: StreamView<Result<T, ActorFail>, K>)
    requires
        s.end,
    ensures
        stream_fail(s) == (s, None::<K>),
{
}

/// Once the end has been sent, the sender going away changes nothing,
/// whether or not values are still queued: the stream still yields its
/// queued values in order and then its end.
pub proof fn law_stream_abandon_after_end<T, K>(s: StreamView<T, K>, currents: Seq<Option<K>>)
    requires
        s.end,
        !s.dropped,
        currents.len() == s.items.len() + 1,
    ensures
        stream_abandon(s) == s,
        stream_polls(stream_abandon(s), currents) == items_then_end(s.items),
{
    law_stream_drain(s, currents);
}

/// A poll of a stream that is not abandoned and holds a queued value,
/// ended or not, yields the oldest queued value and removes just that
/// one, leaving the end and the task as they were.
pub proof fn law_stream_poll_takes_oldest<T, K>(s: StreamView<T, K>, current: Option<K>)
    requires
        !s.dropped,
        s.items.len() > 0,
    ensures
        stream_poll(s, current).1 == StreamStep::Item(s.items[0]),
        stream_poll(s, current).0 == (StreamView { items: s.items.drop_first(), ..s }),
{
}

/// A poll yields the end only when the end was sent and nothing is left
/// queued, and asks for more data only when nothing is queued, the end
/// was not sent and the stream was not abandoned; in that case it keeps
/// the task it was made from.
pub proof fn law_stream_poll_end_and_wait<T, K>(s: StreamView<T, K>, current: Option<K>)
    ensures
        stream_poll(s, current).1 is End ==> s.end && s.items.len() == 0 && !s.dropped,
        stream_poll(s, current).1 is NeedMore ==> !s.end && s.items.len() == 0 && !s.dropped
            && stream_poll(s, current).0.task == current,
        (s.end && s.items.len() == 0 && !s.dropped) ==> stream_poll(s, current) == (s, StreamStep::<T>::End),
        (!s.end && s.items.len() == 0 && !s.dropped) ==> stream_poll(s, current).1 is NeedMore,
        stream_poll(s, current).1 is Pending <==> s.dropped,
{
}

/// A value sent to a live stream with nothing queued comes out at the
/// next poll, whatever the number of values sent in one batch: after any
/// values `values` are sent, the polls yield them one by one, in order.
pub proof fn law_stream_batch_comes_out<T, K>(s: StreamView<T, K>, values: Seq<T>, currents: Seq<Option<K>>)
    requires
        !s.end,
        !s.dropped,
        s.items.len() == 0,
        currents.len() == values.len(),
    ensures
        stream_polls(stream_feed(s, as_messages(values)), currents) == values.map_values(|v: T| StreamStep::Item(v)),
{
    lemma_feed_values(s, values);
    assert(s.items + values =~= values);
    lemma_polls_items(stream_feed(s, as_messages(values)), currents);
}

proof fn lemma_polls_items<T, K>(s: StreamView<T, K>, currents: Seq<Option<K>>)
    requires
        !s.dropped,
        currents.len() == s.items.len(),
    ensures
        stream_polls(s, currents) == s.items.map_values(|v: T| StreamStep::Item(v)),
    decreases currents.len(),
{
    if currents.len() == 0 {
        assert(s.items.map_values(|v: T| StreamStep::Item(v)) =~= Seq::<StreamStep<T>>::empty());
    } else {
        let (next, step) = stream_poll(s, currents[0]);
        lemma_polls_items(next, currents.drop_first());
        assert(s.items.map_values(|v: T| StreamStep::Item(v))
            =~= seq![StreamStep::Item(s.items[0])] + s.items.drop_first().map_values(|v: T| StreamStep::Item(v)));
    }
}

} // verus!
