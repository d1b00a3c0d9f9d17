# rxrust

Reactive extensions: observables, observers, subjects, operators and the
scheduling logic that drives them, written in Verus with every function of the
library verified against its contract.

## What the contracts say

* An observer exposes, as specification, the notifications it has accepted
  (`history`), whether it is closed (a closed observer ignores what it is
  handed), whether its callbacks may be called (`ready`), and whether it is
  the same observer carried forward (`continues`).
* Every observable, whatever its source or operators, hands its observer
  notifications that respect the protocol: nothing follows an error or a
  completion, and a closed observer receives nothing.  Sources such as `of`,
  `from_iter`, `of_result`, `start`, `create` and `defer` state exactly what
  they emit; `map` states that the values are mapped one for one, and
  `merge` that the observer receives the first source's notifications, then
  the second's, completing once both have completed.  The operators that
  hand values to a scheduler (`observe_on`, `delay`, `delay_on`) share their
  observer through a cell, and what it receives there is not tracked.
* A subject keeps its subscribers in subscription order and hands a clone
  of every value to each of them; an unsubscribed observer receives nothing
  more; an error or a completion releases every subscriber.
* The fake clock moves time forward by exactly the duration it is given and
  fires the tasks that came due in order of their due time.  Every queued
  task afterwards comes from its own task of before.  A timer's observer
  receives the new time and completes, unless it closed.  An interval's
  observer receives the numbers of the periods that passed (the first of
  them, if it closes), and the interval is queued again only while its
  observer reports itself open.  Tasks due at or after the new time stay
  queued untouched.  Subscribing to the clock's interval or delay hands back
  a subscription that takes the task off the clock.

## Layout

* `src/` — the library.  `observer.rs` and `observable.rs` hold the core
  traits; `observable/` the sources and the ways to subscribe; `ops.rs` and
  `scheduled_ops.rs` the operators; `subject.rs`, `behavior_subject.rs` and
  `local_subject.rs` the subjects; `scheduler.rs`, `context.rs` and `rc.rs`
  tasks, schedulers, contexts and shared values.
* `tests/` — tests of the library.
* `app/` — the runtime around it: polling futures and streams, running tasks
  on threads, blocking until a stream ends, and lock-based shared values.
