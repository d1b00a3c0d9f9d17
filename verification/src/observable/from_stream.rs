//! Observables fed by an asynchronous stream.
//!
//! The task that drives a stream is split in two: the runtime polls the
//! stream and hands each poll result to the task's `on_poll`, which decides
//! what the observer receives and whether the task is done, must wait, or
//! may poll again at once.
use vstd::prelude::*;
use std::convert::Infallible;
use std::marker::PhantomData;
use crate::observer::{accept, Notification, Observer};

verus! {

/// The result of polling a stream once.
pub enum StreamPoll<T> {
    /// The stream produced a value.
    Item(T),
    /// The stream is exhausted.
    Exhausted,
    /// No value is available yet.
    Pending,
}

/// What the driving task does after one poll result.
#[derive(PartialEq, Eq, Structural)]
pub enum PollStep {
    /// Poll the stream again at once.
    Continue,
    /// The task is finished.
    Ready,
    /// Wait to be woken, then poll again.
    Pending,
}

/// An observable that turns a stream into a sequence of notifications.
pub struct FromStream<St, S> {
    /// The stream to convert.
    pub stream: St,
    /// The scheduler the driving task runs on.
    pub scheduler: S,
}

/// An observable that turns a stream of `Result`s into notifications: `Ok`
/// values are emitted, the first `Err` ends the stream with an error.
pub struct FromStreamResult<St, S> {
    /// The stream to convert.
    pub stream: St,
    /// The scheduler the driving task runs on.
    pub scheduler: S,
}

/// The observer side of the task that drives a stream.
pub struct FromStreamTask<O, Item, E> {
    observer: Option<O>,
    released: Ghost<Option<O>>,
    marker: PhantomData<(Item, E)>,
}

/// `released` is the observer `o` of a stream task once the task handed it
/// the terminal notification `n` and let it go: the same observer carried
/// forward, handed `n` unless it was closed.
pub open spec fn handed_last<Item, E, O: Observer<Item, E>>(
    o: O,
    n: Notification<Item, E>,
    released: Option<O>,
) -> bool {
    released matches Some(r) && r.continues(o) && r.history() == accept(o.closed(), o.history(), n)
}

/// A stream task that ends lets go of the very observer it held, and an
/// observer that was open has received the terminal notification after
/// everything it had: the error of a failed stream, the completion of an
/// exhausted one.
pub proof fn law_stream_end_is_handed<Item, E, O: Observer<Item, E>>(
    o: O,
    n: Notification<Item, E>,
    released: Option<O>,
)
    requires
        handed_last(o, n, released),
        !o.closed(),
    ensures
        released matches Some(r) && r.continues(o) && r.history() == o.history().push(n),
{
}

impl<O, Item, E> FromStreamTask<O, Item, E> where O: Observer<Item, E> {
    /// The observer has been released: the task is finished.
    pub closed spec fn finished(&self) -> bool {
        self.observer is None
    }

    /// The observer the task holds, until it is released.
    pub closed spec fn observer(&self) -> Option<O> {
        self.observer
    }

    /// The observer as the task released it.
    pub closed spec fn released(&self) -> Option<O> {
        self.released@
    }

    /// What the observer has accepted, up to now or up to its release.
    pub closed spec fn delivered(&self) -> Seq<Notification<Item, E>> {
        match self.observer {
            Some(o) => o.history(),
            None => match self.released@ {
                Some(r) => r.history(),
                None => Seq::empty(),
            },
        }
    }

    /// The observer is closed (a released observer counts as closed).
    pub closed spec fn observer_closed(&self) -> bool {
        match self.observer {
            Some(o) => o.closed(),
            None => true,
        }
    }

    /// The observer never closes (a released observer does not count).
    pub closed spec fn observer_always_open(&self) -> bool {
        match self.observer {
            Some(o) => o.always_open(),
            None => false,
        }
    }

    /// The observer can be called.
    pub closed spec fn ready(&self) -> bool {
        match self.observer {
            Some(o) => o.ready(),
            None => true,
        }
    }

    /// A task for `observer`; nothing has been polled yet.
    pub fn new(observer: O) -> (r: Self)
        ensures
            !r.finished(),
            r.delivered() == observer.history(),
            r.observer_closed() == observer.closed(),
            r.ready() == observer.ready(),
            r.observer_always_open() == observer.always_open(),
            r.observer_always_open() ==> !r.observer_closed(),
    {
        proof {
            observer.lemma_always_open();
        }
        FromStreamTask { observer: Some(observer), released: Ghost(None), marker: PhantomData }
    }

    /// Whether the task is finished.
    pub fn is_finished(&self) -> (r: bool)
        ensures
            r == self.finished(),
    {
        self.observer.is_none()
    }
}

impl<O, Item> FromStreamTask<O, Item, Infallible> where O: Observer<Item, Infallible> {
    /// Handle one poll of the stream: a value is emitted and the stream is
    /// polled again; exhaustion completes the observer and ends the task; a
    /// pending stream makes the task wait.  A finished task is done at once.
    pub fn on_poll(&mut self, poll: StreamPoll<Item>) -> (r: PollStep)
        requires
            old(self).ready(),
        ensures
            final(self).ready(),
            old(self).observer_always_open() && !final(self).finished()
                ==> final(self).observer_always_open(),
            final(self).observer_always_open() ==> !final(self).observer_closed(),
            old(self).finished() ==> r == PollStep::Ready && final(self).delivered() == old(
                self,
            ).delivered() && final(self).finished(),
            !old(self).finished() ==> match poll {
                StreamPoll::Item(v) => {
                    &&& r == PollStep::Continue
                    &&& !final(self).finished()
                    &&& final(self).delivered() == accept(
                        old(self).observer_closed(),
                        old(self).delivered(),
                        Notification::Next(v),
                    )
                },
                StreamPoll::Exhausted => {
                    &&& r == PollStep::Ready
                    &&& final(self).finished()
                    &&& old(self).observer() matches Some(o) && handed_last(
                        o,
                        Notification::Complete,
                        final(self).released(),
                    )
                    &&& final(self).delivered() == accept(
                        old(self).observer_closed(),
                        old(self).delivered(),
                        Notification::Complete,
                    )
                },
                StreamPoll::Pending => {
                    &&& r == PollStep::Pending
                    &&& !final(self).finished()
                    &&& final(self).delivered() == old(self).delivered()
                    &&& final(self).observer_closed() == old(self).observer_closed()
                },
            },
    {
        if self.observer.is_none() {
            return PollStep::Ready;
        }
        match poll {
            StreamPoll::Item(value) => {
                if let Some(observer) = &mut self.observer {
                    observer.next(value);
                    proof {
                        observer.lemma_always_open();
                    }
                }
                PollStep::Continue
            },
            StreamPoll::Exhausted => {
                let mut observer = self.observer.take().unwrap();
                observer.complete();
                proof {
                    self.released@ = Some(observer);
                }
                PollStep::Ready
            },
            StreamPoll::Pending => {
                proof {
                    self.observer.lemma_always_open();
                }
                PollStep::Pending
            },
        }
    }
}

impl<O, Item, E> FromStreamTask<O, Item, E> where O: Observer<Item, E> {
    /// Handle one poll of a stream of `Result`s: an `Ok` value is emitted and
    /// the stream is polled again; an `Err` is emitted as the error and ends
    /// the task; exhaustion completes the observer and ends the task; a
    /// pending stream makes the task wait.  A finished task is done at once.
    pub fn on_poll_result(&mut self, poll: StreamPoll<Result<Item, E>>) -> (r: PollStep)
        requires
            old(self).ready(),
        ensures
            final(self).ready(),
            old(self).observer_always_open() && !final(self).finished()
                ==> final(self).observer_always_open(),
            final(self).observer_always_open() ==> !final(self).observer_closed(),
            old(self).finished() ==> r == PollStep::Ready && final(self).delivered() == old(
                self,
            ).delivered() && final(self).finished(),
            !old(self).finished() ==> match poll {
                StreamPoll::Item(Ok(v)) => {
                    &&& r == PollStep::Continue
                    &&& !final(self).finished()
                    &&& final(self).delivered() == accept(
                        old(self).observer_closed(),
                        old(self).delivered(),
                        Notification::Next(v),
                    )
                },
                StreamPoll::Item(Err(e)) => {
                    &&& r == PollStep::Ready
                    &&& final(self).finished()
                    &&& old(self).observer() matches Some(o) && handed_last(
                        o,
                        Notification::Error(e),
                        final(self).released(),
                    )
                    &&& final(self).delivered() == accept(
                        old(self).observer_closed(),
                        old(self).delivered(),
                        Notification::Error(e),
                    )
                },
                StreamPoll::Exhausted => {
                    &&& r == PollStep::Ready
                    &&& final(self).finished()
                    &&& old(self).observer() matches Some(o) && handed_last(
                        o,
                        Notification::Complete,
                        final(self).released(),
                    )
                    &&& final(self).delivered() == accept(
                        old(self).observer_closed(),
                        old(self).delivered(),
                        Notification::Complete,
                    )
                },
                StreamPoll::Pending => {
                    &&& r == PollStep::Pending
                    &&& !final(self).finished()
                    &&& final(self).delivered() == old(self).delivered()
                    &&& final(self).observer_closed() == old(self).observer_closed()
                },
            },
    {
        if self.observer.is_none() {
            return PollStep::Ready;
        }
        match poll {
            StreamPoll::Item(Ok(value)) => {
                if let Some(observer) = &mut self.observer {
                    observer.next(value);
                    proof {
                        observer.lemma_always_open();
                    }
                }
                PollStep::Continue
            },
            StreamPoll::Item(Err(err)) => {
                let mut observer = self.observer.take().unwrap();
                observer.error(err);
                proof {
                    self.released@ = Some(observer);
                }
                PollStep::Ready
            },
            StreamPoll::Exhausted => {
                let mut observer = self.observer.take().unwrap();
                observer.complete();
                proof {
                    self.released@ = Some(observer);
                }
                PollStep::Ready
            },
            StreamPoll::Pending => {
                proof {
                    self.observer.lemma_always_open();
                }
                PollStep::Pending
            },
        }
    }
}

impl<O, Item, E> FromStreamTask<O, Item, E> where O: Observer<Item, E> {
    /// Handle one poll of a stream of `Result`s by a task that may only be
    /// polled while it is running: a finished task may only see a pending
    /// stream, which makes it wait; otherwise as `on_poll_result`.
    pub fn on_try_poll(&mut self, poll: StreamPoll<Result<Item, E>>) -> (r: PollStep)
        requires
            old(self).ready(),
            old(self).finished() ==> poll is Pending,
        ensures
            final(self).ready(),
            old(self).finished() ==> r == PollStep::Pending && *final(self) == *old(self),
            !old(self).finished() ==> match poll {
                StreamPoll::Item(Ok(v)) => {
                    &&& r == PollStep::Continue
                    &&& !final(self).finished()
                    &&& final(self).delivered() == accept(
                        old(self).observer_closed(),
                        old(self).delivered(),
                        Notification::Next(v),
                    )
                },
                StreamPoll::Item(Err(e)) => {
                    &&& r == PollStep::Ready
                    &&& final(self).finished()
                    &&& old(self).observer() matches Some(o) && handed_last(
                        o,
                        Notification::Error(e),
                        final(self).released(),
                    )
                    &&& final(self).delivered() == accept(
                        old(self).observer_closed(),
                        old(self).delivered(),
                        Notification::Error(e),
                    )
                },
                StreamPoll::Exhausted => {
                    &&& r == PollStep::Ready
                    &&& final(self).finished()
                    &&& old(self).observer() matches Some(o) && handed_last(
                        o,
                        Notification::Complete,
                        final(self).released(),
                    )
                    &&& final(self).delivered() == accept(
                        old(self).observer_closed(),
                        old(self).delivered(),
                        Notification::Complete,
                    )
                },
                StreamPoll::Pending => {
                    &&& r == PollStep::Pending
                    &&& !final(self).finished()
                    &&& final(self).delivered() == old(self).delivered()
                    &&& final(self).observer_closed() == old(self).observer_closed()
                },
            },
            old(self).observer_always_open() && !final(self).finished()
                ==> final(self).observer_always_open(),
            final(self).observer_always_open() ==> !final(self).observer_closed(),
    {
        if self.observer.is_none() {
            return PollStep::Pending;
        }
        self.on_poll_result(poll)
    }
}

/// An observable fed by a stream of `Result`s whose driving task may only be
/// polled while it is running.
pub struct TryStreamObservable<S, SD> {
    pub stream: S,
    pub scheduler: SD,
}

impl<S, SD> TryStreamObservable<S, SD> {
    /// Wrap a stream of `Result`s and the scheduler that will drive it.
    pub fn new(stream: S, scheduler: SD) -> (r: Self)
        ensures
            r.stream == stream,
            r.scheduler == scheduler,
    {
        TryStreamObservable { stream, scheduler }
    }
}

} // verus!
