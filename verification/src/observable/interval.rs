//! An observable emitting sequential numbers at regular intervals.
//!
//! Each emission is scheduled `period` after the previous one started: an
//! observer faster than the period sees precise intervals; a slower one gets
//! the next emission as soon as it is done with the previous one.  Nothing is
//! skipped.
use vstd::prelude::*;
use std::convert::Infallible;
use crate::observer::{accept, Notification, Observer};
use crate::scheduler::{Duration, Instant, TaskState};

verus! {

/// An observable emitting 0, 1, 2, ... every `period`.
pub struct Interval<S> {
    /// The duration between consecutive emissions.
    pub period: Duration,
    /// The scheduler used to schedule the emissions.
    pub scheduler: S,
}

/// The state of a running interval.
pub struct IntervalState<O> {
    observer: Option<O>,
    counter: usize,
    period: Duration,
    last_start: Instant,
}

/// How long an interval sleeps after an emission that started at `now` when
/// the previous one started at `last_start`: until one period after the
/// previous start, or not at all if that moment has passed.
pub open spec fn next_sleep(last_start: nat, period: nat, now: nat) -> nat {
    if last_start + period > now {
        (last_start + period - now) as nat
    } else {
        0
    }
}

impl<O> IntervalState<O> where O: Observer<usize, Infallible> {
    pub closed spec fn observer(&self) -> Option<O> {
        self.observer
    }

    pub closed spec fn counter(&self) -> nat {
        self.counter as nat
    }

    pub closed spec fn period(&self) -> nat {
        self.period as nat
    }

    pub closed spec fn last_start(&self) -> nat {
        self.last_start as nat
    }
}

impl<S> Interval<S> {
    /// The state of a new run of the interval for `observer`, started at
    /// `now`: the first value emitted will be 0.
    pub fn start<O>(self, observer: O, now: Instant) -> (r: IntervalState<O>) where
        O: Observer<usize, Infallible>,

        ensures
            r.observer() == Some(observer),
            r.counter() == 0,
            r.period() == self.period,
            r.last_start() == now,
    {
        IntervalState { observer: Some(observer), counter: 0, period: self.period, last_start: now }
    }
}

/// One step of a running interval, at time `now`: an open observer receives
/// the next number and the task sleeps until one period after the previous
/// start (or not at all if it is late); a closed or missing observer ends the
/// task.
pub fn interval_task<O>(state: &mut IntervalState<O>, now: Instant) -> (r: TaskState) where
    O: Observer<usize, Infallible>,

    requires
        old(state).observer() is Some ==> old(state).observer()->Some_0.ready(),
        old(state).counter() < usize::MAX,
        old(state).last_start() + old(state).period() <= u64::MAX,
    ensures
        final(state).period() == old(state).period(),
        final(state).observer() is Some ==> final(state).observer()->Some_0.ready(),
        old(state).observer() matches Some(o) && !o.closed() ==> r is Sleeping,
        match r {
            TaskState::Sleeping(sleep) => {
                &&& old(state).observer() matches Some(o) && o.closed_report(false)
                &&& old(state).observer() matches Some(o) && final(state).observer() matches Some(
                    o2,
                ) && o2.history() == accept(
                    o.closed(),
                    o.history(),
                    Notification::Next(old(state).counter() as usize),
                )
                &&& final(state).counter() == old(state).counter() + 1
                &&& final(state).last_start() == now
                &&& sleep == next_sleep(old(state).last_start(), old(state).period(), now as nat)
            },
            TaskState::Finished => {
                &&& *final(state) == *old(state)
                &&& (old(state).observer() matches Some(o) ==> o.closed() && o.closed_report(true))
            },
        },
{
    if let Some(observer) = &mut state.observer {
        if !observer.is_closed() {
            observer.next(state.counter);
            state.counter = state.counter + 1;
            let next_scheduled_time = state.last_start + state.period;
            state.last_start = now;
            let sleep_duration = if next_scheduled_time > now {
                next_scheduled_time - now
            } else {
                0
            };
            return TaskState::Sleeping(sleep_duration);
        }
    }
    TaskState::Finished
}

/// An interval never sleeps longer than its period, and the next emission
/// starts exactly one period after the previous start, or at once when that
/// moment has already passed.
pub proof fn interval_keeps_pace(last_start: nat, period: nat, now: nat)
    requires
        last_start <= now,
    ensures
        next_sleep(last_start, period, now) <= period,
        now + next_sleep(last_start, period, now) == if last_start + period > now {
            last_start + period
        } else {
            now
        },
{
}

} // verus!
