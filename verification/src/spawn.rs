//! The decisions of spawned tasks: passing on the final value of a
//! future, and relaying the items of a stream to a `Fwd`.  Each decision
//! is returned as the message to send; the caller sends it.

use crate::Step;
use stakker::Ret;
use vstd::prelude::*;

verus! {

/// Taking the `Ret` out of its slot to pass it `value`: the slot is left
/// empty, and the `Ret` (if it was still there) is handed back with the
/// value to send.
pub open spec fn complete_spec<R, T>(slot: Option<R>, value: T) -> (Option<R>, Option<(R, T)>) {
    (None, match slot {
        Some(r) => Some((r, value)),
        None => None,
    })
}

/// Take the `Ret` of a spawned future that has completed with `value`:
/// hands back the `Ret` together with the value to pass to it, or
/// `None` if the `Ret` was used already.  The slot is left empty, so the
/// value is passed at most once.
pub fn complete<T>(ret: &mut Option<Ret<T>>, value: T) -> (send: Option<(Ret<T>, T)>)
    ensures
        (*final(ret), send) == complete_spec(*old(ret), value),
{
    match ret.take() {
        Some(r) => Some((r, value)),
        None => None,
    }
}

/// The slots of a spawned task: the future still to be polled, and the
/// `Ret` its value goes to.
pub struct SpawnView<F, R> {
    pub future: Option<F>,
    pub ret: Option<R>,
}

/// One resume of a spawned task whose future, if it is still there,
/// polls as `polled`: when it is ready with `v`, the future is dropped
/// and the `Ret` is handed back with `v` to send; otherwise nothing
/// changes and nothing is sent.
pub open spec fn spawn_resume<F, R, T>(s: SpawnView<F, R>, polled: Step<T>) -> (SpawnView<F, R>, Option<(R, T)>) {
    match (s.future, polled) {
        (Some(_), Step::Ready(v)) => (SpawnView { future: None, ret: None }, complete_spec(s.ret, v).1),
        _ => (s, None),
    }
}

/// A spawned future has completed with `value`: drop it from its slot
/// and take the `Ret`; see [`spawn_resume`].  With no future in its slot
/// (a completion already handled) nothing changes and nothing is sent.
pub fn finish<F, T>(future: &mut Option<F>, ret: &mut Option<Ret<T>>, value: T) -> (send: Option<(Ret<T>, T)>)
    ensures
        (SpawnView { future: *final(future), ret: *final(ret) }, send)
            == spawn_resume(SpawnView { future: *old(future), ret: *old(ret) }, Step::Ready(value)),
{
    if future.is_some() {
        *future = None;
        complete(ret, value)
    } else {
        None
    }
}

/// What a run of resumes sends, the future polling as `polls` in turn
/// (an outcome is ignored once the future is gone).
pub open spec fn spawn_run<F, R, T>(s: SpawnView<F, R>, polls: Seq<Step<T>>) -> Seq<Option<(R, T)>>
    decreases polls.len(),
{
    if polls.len() == 0 {
        Seq::empty()
    } else {
        let (next, sent) = spawn_resume(s, polls[0]);
        seq![sent] + spawn_run(next, polls.drop_first())
    }
}

proof fn lemma_spawn_done_sends_nothing<F, R, T>(s: SpawnView<F, R>, polls: Seq<Step<T>>)
    requires
        s.future is None,
    ensures
        spawn_run(s, polls).len() == polls.len(),
        forall|i: int| 0 <= i < polls.len() ==> #[trigger] spawn_run(s, polls)[i] is None,
    decreases polls.len(),
{
    if polls.len() > 0 {
        lemma_spawn_done_sends_nothing(s, polls.drop_first());
        assert forall|i: int| 0 <= i < polls.len() implies #[trigger] spawn_run(s, polls)[i] is None by {
            if i > 0 {
                assert(spawn_run(s, polls)[i] == spawn_run(s, polls.drop_first())[i - 1]);
            }
        }
    }
}

/// A spawned task keeps its future exactly as long as its `Ret`, and
/// over any run of resumes its value is sent at most once: once one
/// resume has sent it, no later resume polls or sends anything.
pub proof fn law_spawn_sends_once<F, R, T>(s: SpawnView<F, R>, polls: Seq<Step<T>>)
    requires
        s.future is Some <==> s.ret is Some,
    ensures
        forall|p: Step<T>| #![trigger spawn_resume(s, p)]
            (spawn_resume(s, p).0.future is Some <==> spawn_resume(s, p).0.ret is Some),
        spawn_run(s, polls).len() == polls.len(),
        forall|i: int, j: int| 0 <= i < j < polls.len() && #[trigger] spawn_run(s, polls)[i] is Some
            ==> #[trigger] spawn_run(s, polls)[j] is None,
    decreases polls.len(),
{
    if polls.len() > 0 {
        let (next, sent) = spawn_resume(s, polls[0]);
        let rest = polls.drop_first();
        law_spawn_sends_once(next, rest);
        if sent is Some {
            lemma_spawn_done_sends_nothing(next, rest);
        }
        assert forall|i: int, j: int| 0 <= i < j < polls.len() && #[trigger] spawn_run(s, polls)[i] is Some
            implies #[trigger] spawn_run(s, polls)[j] is None by {
            assert(spawn_run(s, polls)[j] == spawn_run(next, rest)[j - 1]);
            if i > 0 {
                assert(spawn_run(s, polls)[i] == spawn_run(next, rest)[i - 1]);
            }
        }
    }
}

/// Once a spawned future has completed and its value has been sent,
/// further completions send nothing.
pub proof fn law_complete_once<R, T>(slot: Option<R>, first: T, second: T)
    ensures
        complete_spec(complete_spec(slot, first).0, second).1 is None,
        complete_spec(slot, first).1 is Some <==> slot is Some,
{
}

/// What relaying a stream does next.
pub enum Relay {
    /// An item was passed on; poll the stream again.
    Continue,
    /// The end was passed on; the relaying future is complete.
    Finished,
    /// The stream has nothing yet; wait to be resumed.
    Wait,
}

/// The message that relaying passes on for one poll of the stream, and
/// what it does next: each item `v` goes out as `Some(v)`, the end of
/// the stream as `None`.
pub open spec fn relay_spec<T>(polled: Step<Option<T>>) -> (Option<Option<T>>, Relay) {
    match polled {
        Step::Ready(Some(v)) => (Some(Some(v)), Relay::Continue),
        Step::Ready(None) => (Some(None), Relay::Finished),
        Step::Pending => (None, Relay::Wait),
    }
}

/// Decide what one poll of the stream makes the relay do; see [`relay_spec`].
pub fn relay_step<T>(polled: Step<Option<T>>) -> (out: (Option<Option<T>>, Relay))
    ensures
        out == relay_spec(polled),
{
    match polled {
        Step::Ready(Some(v)) => (Some(Some(v)), Relay::Continue),
        Step::Ready(None) => (Some(None), Relay::Finished),
        Step::Pending => (None, Relay::Wait),
    }
}

/// The text of the panic raised by the waker given to tasks started by
/// `spawn`, when something tries to clone or wake it: such a task can
/// only be woken through this crate's own mechanisms.  This returns the
/// text; it does not panic itself (verified code never panics), and the
/// waker raises the panic with it.
pub fn rawwaker_panic() -> (message: &'static str)
    ensures
        message@ == "Attempted to wake/clone a Stakker task that was spawned using `spawn()`.  Try `spawn_with_waker()` instead."@,
{
    "Attempted to wake/clone a Stakker task that was spawned using `spawn()`.  Try `spawn_with_waker()` instead."
}

/// What relaying sends for a run of polls of the stream, in turn: it
/// stops at the end of the stream.
pub open spec fn relay_run<T>(polls: Seq<Step<Option<T>>>) -> Seq<Option<T>>
    decreases polls.len(),
{
    if polls.len() == 0 {
        Seq::empty()
    } else {
        let (msg, next) = relay_spec(polls[0]);
        let head = match msg {
            Some(m) => seq![m],
            None => Seq::empty(),
        };
        match next {
            Relay::Finished => head,
            _ => head + relay_run(polls.drop_first()),
        }
    }
}

/// The values that the polls `polls` are ready with, in order.
pub open spec fn ready_values<T>(polls: Seq<Step<Option<T>>>) -> Seq<T>
    decreases polls.len(),
{
    if polls.len() == 0 {
        Seq::empty()
    } else {
        let rest = ready_values(polls.drop_first());
        match polls[0] {
            Step::Ready(Some(v)) => seq![v] + rest,
            _ => rest,
        }
    }
}

/// Each value as a message to the `Fwd`.
pub open spec fn as_forwarded<T>(values: Seq<T>) -> Seq<Option<T>> {
    values.map_values(|v: T| Some(v))
}

proof fn lemma_as_forwarded_prepend<T>(v: T, rest: Seq<T>)
    ensures
        as_forwarded(seq![v] + rest) == seq![Some(v)] + as_forwarded(rest),
{
    assert(as_forwarded(seq![v] + rest) =~= seq![Some(v)] + as_forwarded(rest));
}

/// Relaying a stream that has not ended forwards each of its values, in
/// order and once each, and nothing else.
pub proof fn law_relay_values<T>(polls: Seq<Step<Option<T>>>)
    requires
        forall|i: int| 0 <= i < polls.len() ==> #[trigger] polls[i] != Step::<Option<T>>::Ready(None),
    ensures
        relay_run(polls) == as_forwarded(ready_values(polls)),
    decreases polls.len(),
{
    if polls.len() == 0 {
        assert(as_forwarded(Seq::<T>::empty()) =~= Seq::<Option<T>>::empty());
    } else {
        let rest = polls.drop_first();
        assert forall|i: int| 0 <= i < rest.len() implies #[trigger] rest[i] != Step::<Option<T>>::Ready(None) by {
            assert(rest[i] == polls[i + 1]);
        }
        assert(polls[0] != Step::<Option<T>>::Ready(None));
        law_relay_values(rest);
        match polls[0] {
            Step::Ready(Some(v)) => {
                lemma_as_forwarded_prepend(v, ready_values(rest));
            },
            _ => {
                assert(Seq::<Option<T>>::empty() + relay_run(rest) =~= relay_run(rest));
            },
        }
    }
}

/// Relaying a stream that ends at poll `k` forwards each value before
/// the end, in order and once each, then one `None`, and nothing after.
pub proof fn law_relay_stream<T>(polls: Seq<Step<Option<T>>>, k: int)
    requires
        0 <= k < polls.len(),
        polls[k] == Step::<Option<T>>::Ready(None),
        forall|i: int| 0 <= i < k ==> #[trigger] polls[i] != Step::<Option<T>>::Ready(None),
    ensures
        relay_run(polls) == as_forwarded(ready_values(polls.take(k))).push(None),
    decreases k,
{
    if k == 0 {
        assert(polls.take(0) =~= Seq::<Step<Option<T>>>::empty());
        assert(as_forwarded(Seq::<T>::empty()) =~= Seq::<Option<T>>::empty());
        assert(relay_run(polls) =~= seq![None::<T>]);
    } else {
        let rest = polls.drop_first();
        assert forall|i: int| 0 <= i < k - 1 implies #[trigger] rest[i] != Step::<Option<T>>::Ready(None) by {
            assert(rest[i] == polls[i + 1]);
        }
        assert(rest[k - 1] == polls[k]);
        law_relay_stream(rest, k - 1);
        assert(polls.take(k).drop_first() =~= rest.take(k - 1));
        assert(polls.take(k)[0] == polls[0]);
        assert(polls[0] != Step::<Option<T>>::Ready(None));
        match polls[0] {
            Step::Ready(Some(v)) => {
                lemma_as_forwarded_prepend(v, ready_values(rest.take(k - 1)));
                assert(seq![Some(v)] + as_forwarded(ready_values(rest.take(k - 1))).push(None)
                    =~= (seq![Some(v)] + as_forwarded(ready_values(rest.take(k - 1)))).push(None));
            },
            _ => {
                assert(Seq::<Option<T>>::empty() + relay_run(rest) =~= relay_run(rest));
            },
        }
    }
}

} // verus!
