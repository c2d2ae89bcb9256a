use stakker_async_await::pull::{PullCell, PullStep};
use stakker_async_await::push::PushCell;
use stakker_async_await::spawn::{rawwaker_panic, relay_step, Relay};
use stakker_async_await::stream::{StreamState, StreamStep};
use stakker_async_await::{ActorFail, Step};

fn ready<V>(step: Step<V>) -> Option<V> {
    match step {
        Step::Ready(v) => Some(v),
        Step::Pending => None,
    }
}

#[test]
fn push_value_before_poll() {
    let mut cell: PushCell<u32, u8> = PushCell::new();
    assert_eq!(cell.offer(Some(654321)), None);
    assert_eq!(ready(cell.poll_with(Some(1))), Some(654321));
    // Taken: later polls wait again
    assert_eq!(ready(cell.poll_with(Some(2))), None);
}

#[test]
fn push_poll_before_value_wakes_task() {
    let mut cell: PushCell<u32, u8> = PushCell::new();
    assert_eq!(ready(cell.poll_with(Some(7))), None);
    assert_eq!(cell.offer(Some(132435)), Some(7));
    assert_eq!(ready(cell.poll_with(Some(7))), Some(132435));
}

#[test]
fn push_poll_outside_task_keeps_nothing() {
    let mut cell: PushCell<u32, u8> = PushCell::new();
    assert_eq!(ready(cell.poll_with(None)), None);
    assert_eq!(cell.offer(Some(1)), None);
}

#[test]
fn push_dropped_ret_never_ready() {
    let mut cell: PushCell<u32, u8> = PushCell::new();
    assert_eq!(ready(cell.poll_with(Some(3))), None);
    // Dropping the Ret wakes the task once ...
    assert_eq!(cell.offer(None), Some(3));
    // ... which then never resolves, and is not kept by the first poll
    assert_eq!(ready(cell.poll_with(Some(3))), None);
    assert_eq!(ready(cell.poll_with(Some(4))), None);
    assert_eq!(ready(cell.poll_with(Some(5))), None);
}

#[test]
fn push_result_ok_and_err() {
    let mut cell: PushCell<Result<u32, ActorFail>, u8> = PushCell::new();
    assert_eq!(ready(cell.poll_with(Some(1))), None);
    assert_eq!(cell.offer_result(Some(654321)), Some(1));
    assert_eq!(ready(cell.poll_with(Some(1))), Some(Ok(654321)));

    let mut cell: PushCell<Result<u32, ActorFail>, u8> = PushCell::new();
    assert_eq!(ready(cell.poll_with(Some(1))), None);
    assert_eq!(cell.offer_result(None), Some(1));
    assert_eq!(ready(cell.poll_with(Some(1))), Some(Err(ActorFail)));
}

#[test]
fn pull_requests_only_on_demand() {
    let mut cell: PullCell<&str, u32, u8> = PullCell::new();
    cell.arm("request");
    assert!(matches!(cell.poll_with(Some(9)), PullStep::Request("request")));
    // Sent only once
    assert!(matches!(cell.poll_with(Some(9)), PullStep::Pending));
    assert!(matches!(cell.poll_with(Some(9)), PullStep::Pending));
    assert_eq!(cell.answer(Some(534231)), Some(9));
    assert!(matches!(cell.poll_with(Some(9)), PullStep::Ready(534231)));
    assert!(matches!(cell.poll_with(Some(9)), PullStep::Pending));
}

#[test]
fn pull_outside_task_releases_request() {
    let mut cell: PullCell<&str, u32, u8> = PullCell::new();
    cell.arm("request");
    assert!(matches!(cell.poll_with(None), PullStep::Release("request")));
    assert!(matches!(cell.poll_with(Some(1)), PullStep::Pending));
    assert_eq!(cell.answer(Some(5)), None);
    assert!(matches!(cell.poll_with(Some(1)), PullStep::Pending));
}

#[test]
fn pull_failure_drops_task() {
    let mut cell: PullCell<&str, u32, u8> = PullCell::new();
    cell.arm("request");
    assert!(matches!(cell.poll_with(Some(2)), PullStep::Request(_)));
    assert_eq!(cell.answer(None), None);
    assert!(matches!(cell.poll_with(Some(2)), PullStep::Pending));
    assert!(matches!(cell.poll_with(Some(2)), PullStep::Pending));
}

#[test]
fn pull_result_passes_failure() {
    let mut cell: PullCell<&str, Result<u32, ActorFail>, u8> = PullCell::new();
    cell.arm("request");
    assert!(matches!(cell.poll_with(Some(2)), PullStep::Request(_)));
    assert_eq!(cell.answer_result(None), Some(2));
    assert!(matches!(cell.poll_with(Some(2)), PullStep::Ready(Err(ActorFail))));

    let mut cell: PullCell<&str, Result<u32, ActorFail>, u8> = PullCell::new();
    cell.arm("request");
    assert!(matches!(cell.poll_with(Some(2)), PullStep::Request(_)));
    assert_eq!(cell.answer_result(Some(534231)), Some(2));
    assert!(matches!(cell.poll_with(Some(2)), PullStep::Ready(Ok(534231))));
}

#[test]
fn pull_answer_before_poll_ends_pipe() {
    let mut cell: PullCell<&str, u32, u8> = PullCell::new();
    assert_eq!(cell.answer(Some(1)), None);
    assert!(matches!(cell.poll_with(Some(1)), PullStep::Pending));
}

fn drain<T>(s: &mut StreamState<T, u8>, task: u8) -> Vec<StreamStep<T>> {
    let mut out = Vec::new();
    loop {
        let step = s.poll_with(Some(task));
        let stop = !matches!(step, StreamStep::Item(_));
        out.push(step);
        if stop {
            return out;
        }
    }
}

#[test]
fn stream_preload_in_order() {
    let mut s: StreamState<u32, u8> = StreamState::new(10);
    for v in 0..10 {
        assert_eq!(s.accept(Some(v)), None);
    }
    assert_eq!(s.accept(None), None);
    let out = drain(&mut s, 1);
    assert_eq!(out.len(), 11);
    for (i, step) in out.iter().enumerate().take(10) {
        assert!(matches!(step, StreamStep::Item(v) if *v == i as u32));
    }
    assert!(matches!(out[10], StreamStep::End));
    // The end stays
    assert!(matches!(s.poll_with(Some(1)), StreamStep::End));
}

#[test]
fn stream_wait_then_batches() {
    let mut s: StreamState<u32, u8> = StreamState::new(16);
    assert!(matches!(s.poll_with(Some(4)), StreamStep::NeedMore));
    assert_eq!(s.accept(Some(1)), Some(4));
    assert_eq!(s.accept(Some(2)), None);
    assert!(matches!(s.poll_with(Some(4)), StreamStep::Item(1)));
    assert!(matches!(s.poll_with(Some(4)), StreamStep::Item(2)));
    assert!(matches!(s.poll_with(Some(4)), StreamStep::NeedMore));
    assert_eq!(s.accept(None), Some(4));
    assert!(matches!(s.poll_with(Some(4)), StreamStep::End));
}

#[test]
fn stream_ignores_after_end() {
    let mut s: StreamState<u32, u8> = StreamState::new(0);
    s.accept(Some(1));
    s.accept(None);
    assert_eq!(s.accept(Some(2)), None);
    s.abandon();
    let out = drain(&mut s, 1);
    assert_eq!(out.len(), 2);
    assert!(matches!(out[0], StreamStep::Item(1)));
    assert!(matches!(out[1], StreamStep::End));
}

#[test]
fn stream_abandoned_pends_forever() {
    let mut s: StreamState<u32, u8> = StreamState::new(4);
    s.accept(Some(1));
    s.abandon();
    assert!(matches!(s.poll_with(Some(1)), StreamStep::Pending));
    assert!(matches!(s.poll_with(Some(1)), StreamStep::Pending));
    assert_eq!(s.accept(Some(2)), None);
    assert!(matches!(s.poll_with(Some(1)), StreamStep::Pending));
}

#[test]
fn stream_result_actorfail() {
    let mut s: StreamState<Result<u32, ActorFail>, u8> = StreamState::new(16);
    assert!(matches!(s.poll_with(Some(6)), StreamStep::NeedMore));
    assert_eq!(s.accept_ok(Some(123)), Some(6));
    assert!(matches!(s.poll_with(Some(6)), StreamStep::Item(Ok(123))));
    assert!(matches!(s.poll_with(Some(6)), StreamStep::NeedMore));
    assert_eq!(s.fail(), Some(6));
    assert!(matches!(s.poll_with(Some(6)), StreamStep::Item(Err(ActorFail))));
    assert!(matches!(s.poll_with(Some(6)), StreamStep::End));
}

#[test]
fn stream_fail_after_end_changes_nothing() {
    let mut s: StreamState<Result<u32, ActorFail>, u8> = StreamState::new(16);
    s.accept_ok(Some(5));
    s.accept_ok(None);
    assert_eq!(s.fail(), None);
    let out = drain(&mut s, 1);
    assert_eq!(out.len(), 2);
    assert!(matches!(out[0], StreamStep::Item(Ok(5))));
    assert!(matches!(out[1], StreamStep::End));
}

#[test]
fn relay_passes_items_then_end() {
    assert!(matches!(relay_step(Step::Ready(Some(3u32))), (Some(Some(3)), Relay::Continue)));
    assert!(matches!(relay_step::<u32>(Step::Ready(None)), (Some(None), Relay::Finished)));
    assert!(matches!(relay_step::<u32>(Step::Pending), (None, Relay::Wait)));
}

#[test]
fn actor_fail_text() {
    assert_eq!(ActorFail.to_string(), "Actor failure");
    assert_eq!(ActorFail, ActorFail);
}

#[test]
fn waker_panic_text() {
    assert_eq!(
        rawwaker_panic(),
        "Attempted to wake/clone a Stakker task that was spawned using `spawn()`.  Try `spawn_with_waker()` instead."
    );
}

#[test]
fn push_arrival_leaves_no_task_waiting() {
    let mut cell: PushCell<u32, u8> = PushCell::new();
    assert_eq!(ready(cell.poll_with(Some(1))), None);
    assert_eq!(cell.offer(Some(2)), Some(1));
    // The task was handed out once; a value that is there keeps none
    assert_eq!(ready(cell.poll_with(Some(1))), Some(2));
    assert_eq!(cell.offer(Some(3)), None);
}

#[test]
fn stream_end_keeps_no_task() {
    let mut s: StreamState<u32, u8> = StreamState::new(1);
    assert!(matches!(s.poll_with(Some(1)), StreamStep::NeedMore));
    assert_eq!(s.accept(None), Some(1));
    assert!(matches!(s.poll_with(Some(2)), StreamStep::End));
    assert_eq!(s.accept(Some(5)), None);
    assert_eq!(s.accept(None), None);
}

#[test]
fn push_some_ignores_dropped_ret() {
    let mut cell: PushCell<u32, u8> = PushCell::new();
    assert_eq!(ready(cell.poll_with(Some(3))), None);
    // A dropped `Ret` changes nothing and wakes nobody
    assert_eq!(cell.offer_some(None), None);
    assert_eq!(ready(cell.poll_with(Some(3))), None);
    // A value is offered as usual
    assert_eq!(cell.offer_some(Some(8)), Some(3));
    assert_eq!(ready(cell.poll_with(Some(3))), Some(8));
}

#[test]
fn stream_one_wake_for_several_messages() {
    let mut s: StreamState<u32, u8> = StreamState::new(0);
    assert!(matches!(s.poll_with(Some(9)), StreamStep::NeedMore));
    assert_eq!(s.accept(Some(1)), Some(9));
    assert_eq!(s.accept(Some(2)), None);
    assert_eq!(s.accept(None), None);
    let out = drain(&mut s, 9);
    assert_eq!(out.len(), 3);
    assert!(matches!(out[0], StreamStep::Item(1)));
    assert!(matches!(out[1], StreamStep::Item(2)));
    assert!(matches!(out[2], StreamStep::End));
}

#[test]
fn relay_whole_stream_forwards_values_then_end() {
    let polls = vec![
        Step::Ready(Some(1u32)),
        Step::Pending,
        Step::Ready(Some(2)),
        Step::Ready(None),
        Step::Ready(Some(3)),
    ];
    let mut sent = Vec::new();
    for polled in polls {
        let (msg, next) = relay_step(polled);
        if let Some(m) = msg {
            sent.push(m);
        }
        if matches!(next, Relay::Finished) {
            break;
        }
    }
    assert_eq!(sent, vec![Some(1), Some(2), None]);
}
