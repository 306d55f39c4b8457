# reactor_rs

A small reactive-streams library: `Mono` publishers deliver at most one
value, then complete, or fail; operators (`map`, `filter`, `flatmap`,
`do_on_success`, `do_on_error`, `do_on_complete`, `do_finally`,
`subscribe_on`) build new publishers from old ones, and `block` waits for the
outcome.

Everything under `src/` is verified with Verus. Each publisher states, through
`Publisher::emits`, exactly which signal sequences a subscriber can receive
for the requests it makes, and `subscribe` is proved to deliver one of them,
starting with the subscription, which comes once;
each operator's subscriber carries an invariant that ties what it has
received to what it has passed on.

The functions handed to `create`, `success`, `lazy`, `do_on_success`,
`do_on_error`, `do_on_complete` and `do_finally` are `FnOnce`: a subscription
consumes each, so it runs at most once. The observing operators' subscribers
record their steps, the function's run among the signals passed on, and
state in which order they come.

A `Processor` is fed through its emitter; `subscribe` delivers an outcome
emitted already, and `attach` hands the subscriber its subscription first so
that the outcome can be fed when it comes.

- `src/spi.rs`: signals, the `Publisher`, `Subscriber` and `Subscription`
  traits, and the ready-made subscribers.
- `src/mono/`: the publishers and operators, one file each.
- `src/schedulers.rs`: the `Scheduler` trait and the immediate scheduler.
- `src/laws.rs`: properties that hold for all inputs.
- `app/`: a scheduler that subscribes on a thread of its own, waiting for
  an outcome, and feeding a processor from another thread.
- `tests/`: the library's tests.
