//! Execution contexts: an inner value (an observable or an observer) carried
//! together with the scheduler of its environment, single-threaded (local)
//! or shared between threads.
use vstd::prelude::*;
use crate::observable::{CoreObservable, ObservableType};
use crate::observable::of::Of;
use crate::observer::{accept, Notification, Observer};
use crate::scheduler::{Duration, LocalScheduler, Scheduler, SharedScheduler, Task, TaskHandle};
use crate::subscription::Subscription;

verus! {

/// The capabilities of an environment, as a type-level marker.
pub trait Scope {
    /// Whether values of this scope may move between threads.
    spec fn spec_shared() -> bool;

    /// Whether values of this scope may move between threads.
    fn shared() -> (r: bool)
        ensures
            r == Self::spec_shared(),
    ;
}

/// The single-threaded scope.
pub struct LocalScope;

/// The scope of values shared between threads.
pub struct SharedScope;

impl Scope for LocalScope {
    open spec fn spec_shared() -> bool {
        false
    }

    fn shared() -> (r: bool) {
        false
    }
}

impl Scope for SharedScope {
    open spec fn spec_shared() -> bool {
        true
    }

    fn shared() -> (r: bool) {
        true
    }
}

/// A single-threaded context: an inner value and a scheduler.
pub struct LocalCtx<T, S> {
    pub inner: T,
    pub scheduler: S,
}

/// A context shared between threads: an inner value and a scheduler.
pub struct SharedCtx<T, S> {
    pub inner: T,
    pub scheduler: S,
}

impl<T, S> LocalCtx<T, S> {
    /// A context made of `inner` and `scheduler`.
    pub fn from_parts(inner: T, scheduler: S) -> (r: Self)
        ensures
            r.inner == inner,
            r.scheduler == scheduler,
    {
        LocalCtx { inner, scheduler }
    }

    /// A context for `inner` with the default scheduler.
    pub fn new(inner: T) -> (r: Self) where S: Default
        ensures
            r.inner == inner,
    {
        LocalCtx { inner, scheduler: S::default() }
    }

    /// A context for `inner` with the default scheduler.
    pub fn lift<U>(inner: U) -> (r: LocalCtx<U, S>) where S: Default
        ensures
            r.inner == inner,
    {
        LocalCtx { inner, scheduler: S::default() }
    }

    /// The inner value transformed by `f`, under the same scheduler.
    pub fn transform<U, F: FnOnce(T) -> U>(self, f: F) -> (r: LocalCtx<U, S>)
        requires
            call_requires(f, (self.inner,)),
        ensures
            call_ensures(f, (self.inner,), r.inner),
            r.scheduler == self.scheduler,
    {
        LocalCtx { inner: f(self.inner), scheduler: self.scheduler }
    }

    /// `inner` under (a clone of) this context's scheduler.
    pub fn wrap<U>(&self, inner: U) -> (r: LocalCtx<U, S>) where S: Clone
        ensures
            r.inner == inner,
            vstd::pervasive::cloned(self.scheduler, r.scheduler),
    {
        LocalCtx { inner, scheduler: self.scheduler.clone() }
    }

    /// Exchange the inner value: the old one and the new context.
    pub fn swap<U>(self, inner: U) -> (r: (T, LocalCtx<U, S>))
        ensures
            r.0 == self.inner,
            r.1.inner == inner,
            r.1.scheduler == self.scheduler,
    {
        (self.inner, LocalCtx { inner, scheduler: self.scheduler })
    }

    /// The scheduler.
    pub fn scheduler(&self) -> (r: &S)
        ensures
            *r == self.scheduler,
    {
        &self.scheduler
    }

    /// The inner value.
    pub fn inner(&self) -> (r: &T)
        ensures
            *r == self.inner,
    {
        &self.inner
    }

    /// The inner value.
    pub fn into_inner(self) -> (r: T)
        ensures
            r == self.inner,
    {
        self.inner
    }

    /// The inner value and the scheduler.
    pub fn into_parts(self) -> (r: (T, S))
        ensures
            r.0 == self.inner,
            r.1 == self.scheduler,
    {
        (self.inner, self.scheduler)
    }

    /// The same inner value in a shared context with the shared scheduler.
    pub fn into_shared(self) -> (r: SharedCtx<T, SharedScheduler>)
        ensures
            r.inner == self.inner,
    {
        SharedCtx { inner: self.inner, scheduler: SharedScheduler }
    }
}

impl<T, S> SharedCtx<T, S> {
    /// A context made of `inner` and `scheduler`.
    pub fn from_parts(inner: T, scheduler: S) -> (r: Self)
        ensures
            r.inner == inner,
            r.scheduler == scheduler,
    {
        SharedCtx { inner, scheduler }
    }

    /// A context for `inner` with the default scheduler.
    pub fn new(inner: T) -> (r: Self) where S: Default
        ensures
            r.inner == inner,
    {
        SharedCtx { inner, scheduler: S::default() }
    }

    /// A context for `inner` with the default scheduler.
    pub fn lift<U>(inner: U) -> (r: SharedCtx<U, S>) where S: Default
        ensures
            r.inner == inner,
    {
        SharedCtx { inner, scheduler: S::default() }
    }

    /// The inner value transformed by `f`, under the same scheduler.
    pub fn transform<U, F: FnOnce(T) -> U>(self, f: F) -> (r: SharedCtx<U, S>)
        requires
            call_requires(f, (self.inner,)),
        ensures
            call_ensures(f, (self.inner,), r.inner),
            r.scheduler == self.scheduler,
    {
        SharedCtx { inner: f(self.inner), scheduler: self.scheduler }
    }

    /// `inner` under (a clone of) this context's scheduler.
    pub fn wrap<U>(&self, inner: U) -> (r: SharedCtx<U, S>) where S: Clone
        ensures
            r.inner == inner,
            vstd::pervasive::cloned(self.scheduler, r.scheduler),
    {
        SharedCtx { inner, scheduler: self.scheduler.clone() }
    }

    /// Exchange the inner value: the old one and the new context.
    pub fn swap<U>(self, inner: U) -> (r: (T, SharedCtx<U, S>))
        ensures
            r.0 == self.inner,
            r.1.inner == inner,
            r.1.scheduler == self.scheduler,
    {
        (self.inner, SharedCtx { inner, scheduler: self.scheduler })
    }

    /// The scheduler.
    pub fn scheduler(&self) -> (r: &S)
        ensures
            *r == self.scheduler,
    {
        &self.scheduler
    }

    /// The inner value.
    pub fn inner(&self) -> (r: &T)
        ensures
            *r == self.inner,
    {
        &self.inner
    }

    /// The inner value.
    pub fn into_inner(self) -> (r: T)
        ensures
            r == self.inner,
    {
        self.inner
    }

    /// The inner value and the scheduler.
    pub fn into_parts(self) -> (r: (T, S))
        ensures
            r.0 == self.inner,
            r.1 == self.scheduler,
    {
        (self.inner, self.scheduler)
    }

    /// The same inner value in a local context with the local scheduler.
    pub fn into_local(self) -> (r: LocalCtx<T, LocalScheduler>)
        ensures
            r.inner == self.inner,
    {
        LocalCtx { inner: self.inner, scheduler: LocalScheduler }
    }
}

impl<T: ObservableType, S> ObservableType for LocalCtx<T, S> {
    type Item = T::Item;
    type Error = T::Error;
}

impl<T: ObservableType, S> ObservableType for SharedCtx<T, S> {
    type Item = T::Item;
    type Error = T::Error;
}

impl<T, S, O> CoreObservable<O> for LocalCtx<T, S> where T: CoreObservable<O> {
    type Unsub = T::Unsub;

    /// The handle is one the inner observable hands out.
    open spec fn hands_out(&self, u: T::Unsub) -> bool {
        self.inner.hands_out(u)
    }

    /// The inner observable is subscribed.
    fn subscribe(self, observer: O) -> (r: (Self::Unsub, O)) where O: Observer<T::Item, T::Error> {
        CoreObservable::subscribe(self.inner, observer)
    }
}

impl<T, S, O> CoreObservable<O> for SharedCtx<T, S> where T: CoreObservable<O> {
    type Unsub = T::Unsub;

    /// The handle is one the inner observable hands out.
    open spec fn hands_out(&self, u: T::Unsub) -> bool {
        self.inner.hands_out(u)
    }

    /// The inner observable is subscribed.
    fn subscribe(self, observer: O) -> (r: (Self::Unsub, O)) where O: Observer<T::Item, T::Error> {
        CoreObservable::subscribe(self.inner, observer)
    }
}

impl<Item, E, T: Observer<Item, E>, S> Observer<Item, E> for LocalCtx<T, S> {
    open spec fn history(&self) -> Seq<Notification<Item, E>> {
        self.inner.history()
    }

    open spec fn ready(&self) -> bool {
        self.inner.ready()
    }

    open spec fn closed(&self) -> bool {
        self.inner.closed()
    }

    open spec fn always_open(&self) -> bool {
        self.inner.always_open()
    }

    proof fn lemma_always_open(&self) {
        self.inner.lemma_always_open();
    }

    open spec fn continues(&self, earlier: Self) -> bool {
        self.inner.continues(earlier.inner) && self.scheduler == earlier.scheduler
    }

    proof fn lemma_continues_refl(&self) {
        self.inner.lemma_continues_refl();
    }

    proof fn lemma_continues_trans(&self, mid: Self, earlier: Self) {
        self.inner.lemma_continues_trans(mid.inner, earlier.inner);
    }

    fn next(&mut self, value: Item) {
        self.inner.next(value);
    }

    fn error(&mut self, err: E) {
        self.inner.error(err);
    }

    fn complete(&mut self) {
        self.inner.complete();
    }

    open spec fn closed_report(&self, r: bool) -> bool {
        self.inner.closed_report(r)
    }

    fn is_closed(&self) -> (r: bool) {
        self.inner.is_closed()
    }
}

impl<Item, E, T: Observer<Item, E>, S> Observer<Item, E> for SharedCtx<T, S> {
    open spec fn history(&self) -> Seq<Notification<Item, E>> {
        self.inner.history()
    }

    open spec fn ready(&self) -> bool {
        self.inner.ready()
    }

    open spec fn closed(&self) -> bool {
        self.inner.closed()
    }

    open spec fn always_open(&self) -> bool {
        self.inner.always_open()
    }

    proof fn lemma_always_open(&self) {
        self.inner.lemma_always_open();
    }

    open spec fn continues(&self, earlier: Self) -> bool {
        self.inner.continues(earlier.inner) && self.scheduler == earlier.scheduler
    }

    proof fn lemma_continues_refl(&self) {
        self.inner.lemma_continues_refl();
    }

    proof fn lemma_continues_trans(&self, mid: Self, earlier: Self) {
        self.inner.lemma_continues_trans(mid.inner, earlier.inner);
    }

    fn next(&mut self, value: Item) {
        self.inner.next(value);
    }

    fn error(&mut self, err: E) {
        self.inner.error(err);
    }

    fn complete(&mut self) {
        self.inner.complete();
    }

    open spec fn closed_report(&self, r: bool) -> bool {
        self.inner.closed_report(r)
    }

    fn is_closed(&self) -> (r: bool) {
        self.inner.is_closed()
    }
}

impl<T: Subscription, S> Subscription for LocalCtx<T, S> {
    open spec fn sub_closed(&self) -> bool {
        self.inner.sub_closed()
    }

    fn unsubscribe(&mut self) {
        self.inner.unsubscribe();
    }

    fn is_closed(&self) -> (r: bool) {
        self.inner.is_closed()
    }
}

impl<T: Subscription, S> Subscription for SharedCtx<T, S> {
    open spec fn sub_closed(&self) -> bool {
        self.inner.sub_closed()
    }

    fn unsubscribe(&mut self) {
        self.inner.unsubscribe();
    }

    fn is_closed(&self) -> (r: bool) {
        self.inner.is_closed()
    }
}

/// Scheduling an action on the value a context carries, with the context's
/// scheduler.
pub trait ContextScheduler<Action>: Sized {
    /// The action may run on the context's value.
    spec fn can_schedule(&self, action: Action) -> bool;

    /// Hand the action and the value to the scheduler, to run after `delay`.
    fn schedule(self, delay: Duration, action: Action) -> (r: TaskHandle)
        requires
            self.can_schedule(action),
        ensures
            r.closed() ==> self.ran(action),
            !(r.inner matches Some(s) && s.cancelled),
    ;

    /// The action has run on the context's value.
    spec fn ran(&self, action: Action) -> bool;
}

impl<T, S, F> ContextScheduler<F> for LocalCtx<T, S> where F: FnOnce(T), S: Scheduler<Task<T, F>> {
    open spec fn can_schedule(&self, action: F) -> bool {
        call_requires(action, (self.inner,))
    }

    open spec fn ran(&self, action: F) -> bool {
        call_ensures(action, (self.inner,), ())
    }

    fn schedule(self, delay: Duration, action: F) -> (r: TaskHandle) {
        self.scheduler.schedule(Task::new(self.inner, action), Some(delay))
    }
}

impl<T, S, F> ContextScheduler<F> for SharedCtx<T, S> where F: FnOnce(T), S: Scheduler<Task<T, F>> {
    open spec fn can_schedule(&self, action: F) -> bool {
        call_requires(action, (self.inner,))
    }

    open spec fn ran(&self, action: F) -> bool {
        call_ensures(action, (self.inner,), ())
    }

    fn schedule(self, delay: Duration, action: F) -> (r: TaskHandle) {
        self.scheduler.schedule(Task::new(self.inner, action), Some(delay))
    }
}

/// An observable or observer in the single-threaded environment, with the
/// scheduler it runs its tasks on.
pub struct Local<T, Sch> {
    pub inner: T,
    pub scheduler: Sch,
}

/// An observable or observer shared between threads, with the scheduler it
/// runs its tasks on.
pub struct Shared<T, Sch> {
    pub inner: T,
    pub scheduler: Sch,
}

impl<T, Sch> Local<T, Sch> {
    /// The same inner value with another scheduler.
    pub fn with_scheduler<NewSch>(self, scheduler: NewSch) -> (r: Local<T, NewSch>)
        ensures
            r.inner == self.inner,
            r.scheduler == scheduler,
    {
        Local { inner: self.inner, scheduler }
    }
}

impl<T, Sch> Shared<T, Sch> {
    /// The same inner value with another scheduler.
    pub fn with_scheduler<NewSch>(self, scheduler: NewSch) -> (r: Shared<T, NewSch>)
        ensures
            r.inner == self.inner,
            r.scheduler == scheduler,
    {
        Shared { inner: self.inner, scheduler }
    }
}

impl<T: ObservableType, Sch> ObservableType for Local<T, Sch> {
    type Item = T::Item;
    type Error = T::Error;
}

impl<T: ObservableType, Sch> ObservableType for Shared<T, Sch> {
    type Item = T::Item;
    type Error = T::Error;
}

impl<T, Sch, O> CoreObservable<O> for Local<T, Sch> where T: CoreObservable<O> {
    type Unsub = T::Unsub;

    /// The handle is one the inner observable hands out.
    open spec fn hands_out(&self, u: T::Unsub) -> bool {
        self.inner.hands_out(u)
    }

    /// The inner observable is subscribed.
    fn subscribe(self, observer: O) -> (r: (Self::Unsub, O)) where O: Observer<T::Item, T::Error> {
        CoreObservable::subscribe(self.inner, observer)
    }
}

impl<T, Sch, O> CoreObservable<O> for Shared<T, Sch> where T: CoreObservable<O> {
    type Unsub = T::Unsub;

    /// The handle is one the inner observable hands out.
    open spec fn hands_out(&self, u: T::Unsub) -> bool {
        self.inner.hands_out(u)
    }

    /// The inner observable is subscribed.
    fn subscribe(self, observer: O) -> (r: (Self::Unsub, O)) where O: Observer<T::Item, T::Error> {
        CoreObservable::subscribe(self.inner, observer)
    }
}

/// A single value then completion, shared between threads.
pub fn of_shared<T>(v: T) -> (r: Shared<Of<T>, SharedScheduler>)
    ensures
        r.inner.0 == v,
{
    Shared { inner: Of(v), scheduler: SharedScheduler }
}

} // verus!
