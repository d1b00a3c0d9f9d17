//! Time values, tasks, task handles and schedulers.
use vstd::prelude::*;
use std::marker::PhantomData;
use crate::observer::{accept, Notification, Observer};
use crate::subscription::Subscription;

verus! {

/// A point in time, in nanoseconds since an origin chosen by the scheduler.
pub type Instant = u64;

/// A span of time, in nanoseconds.
pub type Duration = u64;

/// What a periodic task asks for after one step.
#[derive(PartialEq, Eq, Structural)]
pub enum TaskState {
    /// Run the task again after this long.
    Sleeping(Duration),
    /// The task is done.
    Finished,
}

/// A task: a state and the handler that consumes it.
pub struct Task<S, H> {
    pub state: S,
    pub handler: H,
}

impl<S, H> Task<S, H> where H: FnOnce(S) {
    /// Bundle a state with its handler.
    pub fn new(state: S, handler: H) -> (r: Self)
        ensures
            r.state == state,
            r.handler == handler,
    {
        Task { state, handler }
    }

    /// The task's handler accepts its state.
    pub open spec fn runnable(&self) -> bool {
        call_requires(self.handler, (self.state,))
    }

    /// Run the handler on the state.
    pub fn run(self)
        requires
            self.runnable(),
        ensures
            call_ensures(self.handler, (self.state,), ()),
    {
        (self.handler)(self.state);
    }
}

/// The status shared by a scheduled asynchronous task and its handle.
#[derive(Clone, Copy, PartialEq, Eq, Structural)]
pub struct HandleState {
    pub cancelled: bool,
    pub finished: bool,
}

/// A handle on a scheduled task.  A handle without state stands for a task
/// that already ran to completion.
pub struct TaskHandle {
    pub inner: Option<HandleState>,
}

impl TaskHandle {
    /// The handle is closed: the task finished, was cancelled, or ran
    /// synchronously.
    pub open spec fn closed(&self) -> bool {
        match self.inner {
            None => true,
            Some(s) => s.finished || s.cancelled,
        }
    }

    /// A handle for a task that is already finished.
    pub fn finished() -> (r: Self)
        ensures
            r.inner is None,
            r.closed(),
    {
        TaskHandle { inner: None }
    }

    /// A handle for an asynchronous task that has not run yet.
    pub fn new_async() -> (r: Self)
        ensures
            r.inner == Some(HandleState { cancelled: false, finished: false }),
            !r.closed(),
    {
        TaskHandle { inner: Some(HandleState { cancelled: false, finished: false }) }
    }

    /// The task is pending and has not been cancelled: its runner runs it.
    pub open spec fn will_run(&self) -> bool {
        self.inner matches Some(s) && !s.cancelled
    }

    /// The runner decides whether to run the task: only if it was not
    /// cancelled.
    pub fn should_run(&self) -> (r: bool)
        ensures
            r == self.will_run(),
    {
        match &self.inner {
            None => false,
            Some(state) => !state.cancelled,
        }
    }

    /// The runner records that the task is done.
    pub fn mark_finished(&mut self)
        ensures
            final(self).inner == match old(self).inner {
                None => None,
                Some(s) => Some(HandleState { cancelled: s.cancelled, finished: true }),
            },
            final(self).closed(),
    {
        if let Some(state) = &mut self.inner {
            state.finished = true;
        }
    }

    /// Polling the handle as a future: it is ready once the handle is
    /// closed, otherwise the poller must wait to be woken.
    pub fn poll_ready(&self) -> (r: bool)
        ensures
            r == self.closed(),
    {
        match &self.inner {
            None => true,
            Some(state) => state.finished || state.cancelled,
        }
    }
}

/// A task cancelled through its handle never runs, and its handle is
/// closed.
pub proof fn law_cancelled_task_never_runs(handle: TaskHandle, cancelled: TaskHandle)
    requires
        cancelled.inner == match handle.inner {
            None => None,
            Some(s) => Some(HandleState { cancelled: true, finished: s.finished }),
        },
    ensures
        !cancelled.will_run(),
        cancelled.closed(),
{
}

impl Subscription for TaskHandle {
    open spec fn sub_closed(&self) -> bool {
        self.closed()
    }

    /// Cancel the task: a pending task will not run.
    fn unsubscribe(&mut self)
        ensures
            final(self).inner == match old(self).inner {
                None => None,
                Some(s) => Some(HandleState { cancelled: true, finished: s.finished }),
            },
    {
        if let Some(state) = &mut self.inner {
            state.cancelled = true;
        }
    }

    fn is_closed(&self) -> (r: bool) {
        self.poll_ready()
    }
}

/// A unit of work a scheduler can run.
pub trait Runnable: Sized {
    /// The work may be run.
    spec fn can_run(&self) -> bool;

    /// What running the work accomplished.
    spec fn ran(&self) -> bool;

    /// Run the work.
    fn run(self)
        requires
            self.can_run(),
        ensures
            self.ran(),
    ;
}

impl<S, H> Runnable for Task<S, H> where H: FnOnce(S) {
    open spec fn can_run(&self) -> bool {
        self.runnable()
    }

    open spec fn ran(&self) -> bool {
        call_ensures(self.handler, (self.state,), ())
    }

    fn run(self) {
        Task::run(self)
    }
}

/// The work of handing a value to an observer.
pub struct OnNext<O, Item, E> {
    pub observer: O,
    pub item: Item,
    pub marker: PhantomData<E>,
}

/// The work of handing an error to an observer.
pub struct OnError<O, Item, E> {
    pub observer: O,
    pub err: E,
    pub marker: PhantomData<Item>,
}

/// The work of handing the completion to an observer.
pub struct OnComplete<O, Item, E> {
    pub observer: O,
    pub marker: PhantomData<(Item, E)>,
}

impl<O: Observer<Item, E>, Item, E> Runnable for OnNext<O, Item, E> {
    open spec fn can_run(&self) -> bool {
        self.observer.ready()
    }

    open spec fn ran(&self) -> bool {
        true
    }

    fn run(self) {
        let mut observer = self.observer;
        observer.next(self.item);
    }
}

impl<O: Observer<Item, E>, Item, E> Runnable for OnError<O, Item, E> {
    open spec fn can_run(&self) -> bool {
        self.observer.ready()
    }

    open spec fn ran(&self) -> bool {
        true
    }

    fn run(self) {
        let mut observer = self.observer;
        observer.error(self.err);
    }
}

impl<O: Observer<Item, E>, Item, E> Runnable for OnComplete<O, Item, E> {
    open spec fn can_run(&self) -> bool {
        self.observer.ready()
    }

    open spec fn ran(&self) -> bool {
        true
    }

    fn run(self) {
        let mut observer = self.observer;
        observer.complete();
    }
}

/// A scheduler runs tasks, possibly after a delay.
pub trait Scheduler<T: Runnable> {
    /// Run `task`, after `delay` if one is given; the handle can cancel it
    /// while it has not run.
    fn schedule(&self, task: T, delay: Option<Duration>) -> (r: TaskHandle)
        requires
            task.can_run(),
        ensures
            r.closed() ==> task.ran(),
            !(r.inner matches Some(s) && s.cancelled),
    ;
}

/// A scheduler for single-threaded execution: the task runs on the calling
/// thread, and the returned handle is already finished.
#[derive(Clone, Copy)]
pub struct LocalScheduler;

/// A scheduler for tasks that may move between threads.  Tasks handed to it
/// here run their worker (`run_scheduled`) on the calling thread; the
/// runtime runs the same worker on a thread of its own, after the delay,
/// under a handle that can still cancel the task.
#[derive(Clone, Copy)]
pub struct SharedScheduler;

impl Default for LocalScheduler {
    fn default() -> (r: Self)
        ensures
            r == LocalScheduler,
    {
        LocalScheduler
    }
}

impl Default for SharedScheduler {
    fn default() -> (r: Self)
        ensures
            r == SharedScheduler,
    {
        SharedScheduler
    }
}

impl<T: Runnable> Scheduler<T> for LocalScheduler {
    /// The task runs at once.
    fn schedule(&self, task: T, delay: Option<Duration>) -> (r: TaskHandle)
        ensures
            r.inner is None,
            task.ran(),
    {
        task.run();
        TaskHandle::finished()
    }
}

/// What the worker of an asynchronous task does once its delay has passed:
/// it runs the task unless the handle was cancelled, then records the end.
/// Returns whether the task ran.
pub fn run_scheduled<T: Runnable>(handle: &mut TaskHandle, task: T) -> (ran: bool)
    requires
        task.can_run(),
    ensures
        ran == old(handle).will_run(),
        ran ==> task.ran(),
        final(handle).inner == match old(handle).inner {
            None => None,
            Some(s) => Some(HandleState { cancelled: s.cancelled, finished: true }),
        },
        final(handle).closed(),
{
    let ran = handle.should_run();
    if ran {
        task.run();
    }
    handle.mark_finished();
    ran
}

impl<T: Runnable> Scheduler<T> for SharedScheduler {
    /// The task's worker runs on the calling thread, at once: nothing can
    /// cancel it in between, so it runs and the handle comes back finished.
    fn schedule(&self, task: T, delay: Option<Duration>) -> (r: TaskHandle)
        ensures
            r.inner == Some(HandleState { cancelled: false, finished: true }),
            task.ran(),
    {
        let mut handle = TaskHandle::new_async();
        run_scheduled(&mut handle, task);
        handle
    }
}

/// A task that hands one notification to an observer.
pub trait Delivers<Item, E>: Runnable {
    /// The notification the task hands on.
    spec fn note(&self) -> Notification<Item, E>;
}

impl<O: Observer<Item, E>, Item, E> Delivers<Item, E> for OnNext<O, Item, E> {
    open spec fn note(&self) -> Notification<Item, E> {
        Notification::Next(self.item)
    }
}

impl<O: Observer<Item, E>, Item, E> Delivers<Item, E> for OnError<O, Item, E> {
    open spec fn note(&self) -> Notification<Item, E> {
        Notification::Error(self.err)
    }
}

impl<O: Observer<Item, E>, Item, E> Delivers<Item, E> for OnComplete<O, Item, E> {
    open spec fn note(&self) -> Notification<Item, E> {
        Notification::Complete
    }
}

/// The notifications an operator handed on, in order: the note of every
/// task it handed to a scheduler, and every notification it handed to an
/// observer at once.  The record grows only by handing something on.
pub struct Dispatched<Item, E> {
    sent: Ghost<Seq<Notification<Item, E>>>,
}

impl<Item, E> Dispatched<Item, E> {
    /// What was handed on, oldest first.
    pub closed spec fn sent(&self) -> Seq<Notification<Item, E>> {
        self.sent@
    }

    /// Nothing handed on yet.
    pub fn new() -> (r: Self)
        ensures
            r.sent() == Seq::<Notification<Item, E>>::empty(),
    {
        Dispatched { sent: Ghost(Seq::empty()) }
    }

    /// Hand `task` to `scheduler`, after `delay` if one is given; its note is
    /// recorded.
    pub fn dispatch<T: Delivers<Item, E>, Sch: Scheduler<T>>(
        &mut self,
        scheduler: &Sch,
        task: T,
        delay: Option<Duration>,
    ) -> (r: TaskHandle)
        requires
            task.can_run(),
        ensures
            final(self).sent() == old(self).sent().push(task.note()),
            r.closed() ==> task.ran(),
    {
        proof {
            self.sent@ = self.sent@.push(task.note());
        }
        scheduler.schedule(task, delay)
    }

    /// Hand `n` to `observer` at once; it is recorded.
    pub fn deliver_now<O: Observer<Item, E>>(&mut self, observer: &mut O, n: Notification<Item, E>)
        requires
            old(observer).ready(),
        ensures
            final(self).sent() == old(self).sent().push(n),
            final(observer).ready(),
            final(observer).continues(*old(observer)),
            final(observer).history() == accept(old(observer).closed(), old(observer).history(), n),
    {
        proof {
            self.sent@ = self.sent@.push(n);
        }
        match n {
            Notification::Next(v) => observer.next(v),
            Notification::Error(e) => observer.error(e),
            Notification::Complete => observer.complete(),
        }
    }
}

} // verus!
