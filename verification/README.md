# stakker_async_await

A **Stakker** interface to Rust async/await, with its core verified in Verus.

- `src/` is the verified library: the state kept between the two ends of
  each `Ret`/`Fwd` to `Future`/`Stream` pipe, each transition with an exact
  contract, and the laws of each pipe (order under interleaved sends and
  polls, on-demand requests, no lost wake-ups, a spawned value sent at most
  once, a relayed stream forwarded in order, what a failure or a dropped
  end-point leads to) as proof functions.  A transition hands back the
  actions it calls for: the task to wake, the request or message to send.
  `src/runtime.rs` declares the **Stakker** types and the one trusted call,
  which finds the running task.
- `app/` is the async front end: the `Future` and `Stream` impls, the shared
  cells, the `Ret`/`Fwd` closures, `spawn`, and the panicking waker.  It
  performs the actions the library hands back.
- `tests/` runs the state machines directly and through a real **Stakker**
  main loop.
