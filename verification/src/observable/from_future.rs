//! Observables fed by a future.
//!
//! The runtime polls the future and hands each poll result to the task's
//! `on_poll`, which emits the output and completes the observer once the
//! future is ready.
use vstd::prelude::*;
use std::convert::Infallible;
use std::marker::PhantomData;
use crate::observable::from_stream::PollStep;
use crate::observer::{accept, Notification, Observer};

verus! {

/// The result of polling a future once.
pub enum FuturePoll<T> {
    /// The future produced its output.
    Ready(T),
    /// The output is not available yet.
    Pending,
}

/// An observable that emits the output of a future and completes.
pub struct FromFuture<F, S> {
    /// The future to convert.
    pub future: F,
    /// The scheduler the driving task runs on.
    pub scheduler: S,
}

/// An observable that emits the `Ok` output of a future and completes, or
/// emits its `Err` output as an error.
pub struct FromFutureResult<F, S> {
    /// The future to convert.
    pub future: F,
    /// The scheduler the driving task runs on.
    pub scheduler: S,
}

/// The observer side of the task that drives a future.
pub struct FromFutureTask<O, Item, E> {
    observer: Option<O>,
    released: Ghost<Option<O>>,
    marker: PhantomData<(Item, E)>,
}

/// `released` is the observer `o` of a future task once the task handed it
/// the future's value `v`: the same observer carried forward, handed `v`
/// then the completion; a closed observer receives nothing, one that closes
/// on `v` misses the completion, one that never closes receives both.
pub open spec fn value_handed<Item, E, O: Observer<Item, E>>(o: O, v: Item, released: Option<O>) -> bool {
    released matches Some(r) && {
        let d = accept(o.closed(), o.history(), Notification::Next(v));
        &&& r.continues(o)
        &&& r.history() == d.push(Notification::Complete) || (r.history() == d && r.closed())
        &&& o.closed() ==> r.history() == o.history() && r.closed()
        &&& o.always_open() ==> r.history() == o.history().push(Notification::Next(v)).push(
            Notification::Complete,
        )
    }
}

/// `released` is the observer `o` of a future task once the task handed it
/// the future's error `e`: the same observer carried forward, handed `e`
/// unless it was closed.
pub open spec fn error_handed<Item, E, O: Observer<Item, E>>(o: O, e: E, released: Option<O>) -> bool {
    released matches Some(r) && r.continues(o) && r.history() == accept(
        o.closed(),
        o.history(),
        Notification::Error(e),
    )
}

/// A future task that finishes on a ready value leaves the very observer it
/// held with the value appended to what it had (unless it was closed),
/// followed by the completion unless it closed on the value; an observer
/// still open at the end received both, the value first.
pub proof fn law_future_value_then_completion<Item, E, O: Observer<Item, E>>(
    o: O,
    v: Item,
    released: Option<O>,
)
    requires
        value_handed(o, v, released),
        !o.closed(),
    ensures
        released matches Some(r) && r.continues(o) && r.history().len() >= o.history().len() + 1
            && r.history().subrange(0, o.history().len() + 1 as int) == o.history().push(
            Notification::Next(v),
        ),
        released matches Some(r) ==> (!r.closed() ==> r.history() == o.history().push(
            Notification::Next(v),
        ).push(Notification::Complete)),
{
    let d = o.history().push(Notification::<Item, E>::Next(v));
    assert(d.push(Notification::Complete).subrange(0, o.history().len() + 1 as int) =~= d);
    assert(d.subrange(0, o.history().len() + 1 as int) =~= d);
}

/// A future task that finishes on an error leaves the very observer it held
/// with the error appended to what it had, unless it was closed: never a
/// completion in its place.
pub proof fn law_future_error_is_handed<Item, E, O: Observer<Item, E>>(o: O, e: E, released: Option<O>)
    requires
        error_handed(o, e, released),
        !o.closed(),
    ensures
        released matches Some(r) && r.continues(o) && r.history() == o.history().push(
            Notification::Error(e),
        ),
{
}

impl<O, Item, E> FromFutureTask<O, Item, E> where O: Observer<Item, E> {
    /// The observer has been released: the task is finished.
    pub closed spec fn finished(&self) -> bool {
        self.observer is None
    }

    /// The observer the task holds, until it is released.
    pub closed spec fn observer(&self) -> Option<O> {
        self.observer
    }

    /// The observer as the task released it.
    pub closed spec fn released(&self) -> Option<O> {
        self.released@
    }

    /// What the observer has accepted, up to now or up to its release.
    pub closed spec fn delivered(&self) -> Seq<Notification<Item, E>> {
        match self.observer {
            Some(o) => o.history(),
            None => match self.released@ {
                Some(r) => r.history(),
                None => Seq::empty(),
            },
        }
    }

    /// The observer is closed (a released observer counts as closed).
    pub closed spec fn observer_closed(&self) -> bool {
        match self.observer {
            Some(o) => o.closed(),
            None => true,
        }
    }

    /// The observer is closed, or was closed when it was released.
    pub closed spec fn ended_closed(&self) -> bool {
        match self.observer {
            Some(o) => o.closed(),
            None => match self.released@ {
                Some(r) => r.closed(),
                None => true,
            },
        }
    }

    /// The observer never closes (a released observer does not count).
    pub closed spec fn observer_always_open(&self) -> bool {
        match self.observer {
            Some(o) => o.always_open(),
            None => false,
        }
    }

    /// The observer can be called.
    pub closed spec fn ready(&self) -> bool {
        match self.observer {
            Some(o) => o.ready(),
            None => true,
        }
    }

    /// A task for `observer`; the future has not been polled yet.
    pub fn new(observer: O) -> (r: Self)
        ensures
            !r.finished(),
            r.observer() == Some(observer),
            r.delivered() == observer.history(),
            r.observer_closed() == observer.closed(),
            r.ready() == observer.ready(),
            r.observer_always_open() == observer.always_open(),
    {
        FromFutureTask { observer: Some(observer), released: Ghost(None), marker: PhantomData }
    }

    /// Whether the task is finished.
    pub fn is_finished(&self) -> (r: bool)
        ensures
            r == self.finished(),
    {
        self.observer.is_none()
    }

    /// Handle one poll of a future whose output is a `Result`: `Ok` is
    /// emitted then the observer completes, `Err` is emitted as the error;
    /// either way the task is finished.  A pending future makes the task
    /// wait; a finished task is done at once.
    pub fn on_poll_result(&mut self, poll: FuturePoll<Result<Item, E>>) -> (r: PollStep)
        requires
            old(self).ready(),
        ensures
            final(self).ready(),
            old(self).finished() ==> r == PollStep::Ready && final(self).finished()
                && final(self).delivered() == old(self).delivered(),
            !old(self).finished() ==> match poll {
                FuturePoll::Ready(Ok(v)) => {
                    &&& r == PollStep::Ready
                    &&& final(self).finished()
                    &&& old(self).observer() matches Some(o) && value_handed(o, v, final(self).released())
                    &&& ({
                        let d = accept(
                            old(self).observer_closed(),
                            old(self).delivered(),
                            Notification::Next(v),
                        );
                        final(self).delivered() == d.push(Notification::Complete)
                            || (final(self).delivered() == d && final(self).ended_closed())
                    })
                    &&& !old(self).observer_closed() ==> final(self).delivered().len() > old(
                        self,
                    ).delivered().len()
                    &&& old(self).observer_always_open() ==> final(self).delivered() == old(
                        self,
                    ).delivered().push(Notification::Next(v)).push(Notification::Complete)
                },
                FuturePoll::Ready(Err(e)) => {
                    &&& r == PollStep::Ready
                    &&& final(self).finished()
                    &&& old(self).observer() matches Some(o) && error_handed(o, e, final(self).released())
                    &&& final(self).delivered() == accept(
                        old(self).observer_closed(),
                        old(self).delivered(),
                        Notification::Error(e),
                    )
                },
                FuturePoll::Pending => {
                    &&& r == PollStep::Pending
                    &&& !final(self).finished()
                    &&& final(self).delivered() == old(self).delivered()
                    &&& final(self).observer_closed() == old(self).observer_closed()
                    &&& final(self).observer_always_open() == old(self).observer_always_open()
                },
            },
    {
        match poll {
            FuturePoll::Ready(result) => {
                if let Some(mut observer) = self.observer.take() {
                    match result {
                        Ok(value) => {
                            let ghost closed0 = observer.closed();
                            let ghost start = observer;
                            proof {
                                observer.lemma_always_open();
                            }
                            observer.next(value);
                            proof {
                                observer.lemma_always_open();
                            }
                            let ghost closed1 = observer.closed();
                            let ghost mid = observer;
                            observer.complete();
                            proof {
                                self.released@ = Some(observer);
                                observer.lemma_continues_trans(mid, start);
                                observer.lemma_always_open();
                                assert(observer.history() == accept(
                                    closed1,
                                    accept(closed0, old(self).delivered(), Notification::Next(value)),
                                    Notification::Complete,
                                ));
                            }
                        },
                        Err(err) => {
                            observer.error(err);
                            proof {
                                self.released@ = Some(observer);
                            }
                        },
                    }
                }
                PollStep::Ready
            },
            FuturePoll::Pending => {
                if self.observer.is_none() {
                    PollStep::Ready
                } else {
                    PollStep::Pending
                }
            },
        }
    }
}

impl<O, Item> FromFutureTask<O, Item, Infallible> where O: Observer<Item, Infallible> {
    /// Handle one poll of a future: once ready its output is emitted, the
    /// observer completes and the task is finished; a pending future makes
    /// the task wait; a finished task is done at once.
    pub fn on_poll(&mut self, poll: FuturePoll<Item>) -> (r: PollStep)
        requires
            old(self).ready(),
        ensures
            final(self).ready(),
            old(self).finished() ==> r == PollStep::Ready && final(self).finished()
                && final(self).delivered() == old(self).delivered(),
            !old(self).finished() ==> match poll {
                FuturePoll::Ready(v) => {
                    &&& r == PollStep::Ready
                    &&& final(self).finished()
                    &&& old(self).observer() matches Some(o) && value_handed(o, v, final(self).released())
                    &&& ({
                        let d = accept(
                            old(self).observer_closed(),
                            old(self).delivered(),
                            Notification::Next(v),
                        );
                        final(self).delivered() == d.push(Notification::Complete)
                            || (final(self).delivered() == d && final(self).ended_closed())
                    })
                    &&& !old(self).observer_closed() ==> final(self).delivered().len() > old(
                        self,
                    ).delivered().len()
                    &&& old(self).observer_always_open() ==> final(self).delivered() == old(
                        self,
                    ).delivered().push(Notification::Next(v)).push(Notification::Complete)
                },
                FuturePoll::Pending => {
                    &&& r == PollStep::Pending
                    &&& !final(self).finished()
                    &&& final(self).delivered() == old(self).delivered()
                    &&& final(self).observer_closed() == old(self).observer_closed()
                    &&& final(self).observer_always_open() == old(self).observer_always_open()
                },
            },
    {
        match poll {
            FuturePoll::Ready(value) => {
                if let Some(mut observer) = self.observer.take() {
                    let ghost closed0 = observer.closed();
                    let ghost start = observer;
                    proof {
                        observer.lemma_always_open();
                    }
                    observer.next(value);
                    proof {
                        observer.lemma_always_open();
                    }
                    let ghost closed1 = observer.closed();
                    let ghost mid = observer;
                    observer.complete();
                    proof {
                        self.released@ = Some(observer);
                        observer.lemma_continues_trans(mid, start);
                        observer.lemma_always_open();
                        assert(observer.history() == accept(
                            closed1,
                            accept(closed0, old(self).delivered(), Notification::Next(value)),
                            Notification::Complete,
                        ));
                    }
                }
                PollStep::Ready
            },
            FuturePoll::Pending => {
                if self.observer.is_none() {
                    PollStep::Ready
                } else {
                    PollStep::Pending
                }
            },
        }
    }
}

} // verus!
