//! An observable emitting `()` once after a delay, then completing.
use vstd::prelude::*;
use std::convert::Infallible;
use crate::observer::{accept, Notification, Observer};
use crate::scheduler::{Duration, TaskState};

verus! {

/// An observable that emits `()` after `delay`, then completes.
pub struct Timer<S> {
    /// The duration to wait before emitting.
    pub delay: Duration,
    /// The scheduler used to schedule the emission.
    pub scheduler: S,
}

/// The state of a pending timer: the observer to notify.
pub struct TimerState<O> {
    observer: Option<O>,
    released: Ghost<Option<O>>,
}

impl<O> TimerState<O> where O: Observer<(), Infallible> {
    /// The timer has fired.
    pub closed spec fn fired(&self) -> bool {
        self.observer is None
    }

    /// The observer the timer holds, until it fires.
    pub closed spec fn observer(&self) -> Option<O> {
        self.observer
    }

    /// The observer as the timer released it when it fired.
    pub closed spec fn released(&self) -> Option<O> {
        self.released@
    }

    /// What the observer has accepted, up to now or up to its release.
    pub closed spec fn delivered(&self) -> Seq<Notification<(), Infallible>> {
        match self.observer {
            Some(o) => o.history(),
            None => match self.released@ {
                Some(r) => r.history(),
                None => Seq::empty(),
            },
        }
    }

    pub closed spec fn observer_closed(&self) -> bool {
        match self.observer {
            Some(o) => o.closed(),
            None => true,
        }
    }

    /// The observer is closed, or was closed when it was released.
    pub closed spec fn ended_closed(&self) -> bool {
        match self.observer {
            Some(o) => o.closed(),
            None => match self.released@ {
                Some(r) => r.closed(),
                None => true,
            },
        }
    }

    /// The observer never closes (a released observer does not count).
    pub closed spec fn observer_always_open(&self) -> bool {
        match self.observer {
            Some(o) => o.always_open(),
            None => false,
        }
    }

    pub closed spec fn ready(&self) -> bool {
        match self.observer {
            Some(o) => o.ready(),
            None => true,
        }
    }
}

impl<S> Timer<S> {
    /// The pending state of the timer for `observer`.
    pub fn start<O>(self, observer: O) -> (r: TimerState<O>) where O: Observer<(), Infallible>
        ensures
            !r.fired(),
            r.observer() == Some(observer),
            r.delivered() == observer.history(),
            r.observer_closed() == observer.closed(),
            r.ready() == observer.ready(),
            r.observer_always_open() == observer.always_open(),
    {
        TimerState { observer: Some(observer), released: Ghost(None) }
    }
}

/// `released` is the observer `o` of a timer once the timer fired: the same
/// observer carried forward, handed `()` then the completion; a closed
/// observer receives nothing, one that closes on `()` misses the
/// completion, one that never closes receives both.
pub open spec fn timer_handed<O: Observer<(), Infallible>>(o: O, released: Option<O>) -> bool {
    released matches Some(r) && {
        let v = accept(o.closed(), o.history(), Notification::Next(()));
        &&& r.continues(o)
        &&& r.history() == v.push(Notification::Complete) || (r.history() == v && r.closed())
        &&& o.closed() ==> r.history() == o.history() && r.closed()
        &&& o.always_open() ==> r.history() == o.history().push(Notification::Next(())).push(
            Notification::Complete,
        )
    }
}

/// Firing a timer whose observer is open leaves that observer (carried
/// forward, not a record of it) with `()` appended to what it had, followed
/// by the completion unless it closed on `()`; an observer that is still
/// open afterwards received both.
pub proof fn law_timer_fires_value_then_completion<O: Observer<(), Infallible>>(o: O, released: Option<O>)
    requires
        timer_handed(o, released),
        !o.closed(),
    ensures
        released matches Some(r) && r.continues(o) && r.history().len() >= o.history().len() + 1
            && r.history().subrange(0, o.history().len() + 1 as int) == o.history().push(Notification::Next(())),
        released matches Some(r) ==> (!r.closed() ==> r.history() == o.history().push(
            Notification::Next(()),
        ).push(Notification::Complete)),
{
    let r = released->Some_0;
    let v = o.history().push(Notification::<(), Infallible>::Next(()));
    assert(v.push(Notification::Complete).subrange(0, o.history().len() + 1 as int) =~= v);
    assert(v.subrange(0, o.history().len() + 1 as int) =~= v);
}

/// Fire the timer: the observer receives `()` and completes, and is then
/// released; firing again does nothing.  The task is finished either way.
pub fn timer_task<O>(state: &mut TimerState<O>) -> (r: TaskState) where O: Observer<(), Infallible>
    requires
        old(state).ready(),
    ensures
        r == TaskState::Finished,
        final(state).fired(),
        final(state).ready(),
        old(state).fired() ==> *final(state) == *old(state),
        old(state).observer() matches Some(o) ==> timer_handed(o, final(state).released()),
        !old(state).fired() ==> ({
            let d = accept(old(state).observer_closed(), old(state).delivered(), Notification::Next(()));
            final(state).delivered() == d.push(Notification::Complete)
                || (final(state).delivered() == d && final(state).ended_closed())
        }),
        !old(state).fired() && !old(state).observer_closed() ==> final(state).delivered().len() > old(state).delivered().len(),
        old(state).observer_always_open() ==> final(state).delivered() == old(state).delivered().push(
            Notification::Next(()),
        ).push(Notification::Complete),
{
    if let Some(mut observer) = state.observer.take() {
        let ghost start = observer;
        proof {
            observer.lemma_always_open();
        }
        observer.next(());
        proof {
            observer.lemma_always_open();
        }
        let ghost mid = observer;
        observer.complete();
        proof {
            state.released@ = Some(observer);
            observer.lemma_continues_trans(mid, start);
            observer.lemma_always_open();
        }
    }
    TaskState::Finished
}

} // verus!
