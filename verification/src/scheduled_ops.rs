//! Operators that hand notifications to a scheduler: `observe_on`, `delay`
//! and `delay_on`.
//!
//! Every task they schedule reaches the same downstream observer, so that
//! observer is shared (`SharedObserver`) between the operator and its
//! tasks.  What the shared observer itself receives depends on when the
//! scheduler runs the tasks, so its contract claims nothing of it: it counts
//! as closed, with an empty history, while it still hands everything on.
//! Each handle records what was handed through it.  Each wrapper hands
//! everything on through a `Dispatched` record, which grows only by handing
//! something on: the notification of every task handed to the scheduler,
//! and every notification handed to the shared observer at once.  A wrapper
//! hands everything on, so it never counts as closed.
use vstd::prelude::*;
use vstd::predicate::Predicate;
use std::marker::PhantomData;
use crate::observable::{CoreObservable, ObservableType};
use crate::observer::{accept, well_formed_trace, Notification, Observer};
use crate::rc::MutRc;
use crate::scheduler::{Delivers, Dispatched, Duration, OnComplete, OnError, OnNext, Scheduler};

verus! {

/// The property of the slot of a shared observer: the observer it holds, if
/// any, can be called.
pub struct ObserverSlot<Item, E>(pub PhantomData<(Item, E)>);

impl<O: Observer<Item, E>, Item, E> Predicate<Option<O>> for ObserverSlot<Item, E> {
    open spec fn predicate(&self, v: Option<O>) -> bool {
        v matches Some(o) ==> o.ready()
    }
}

/// An observer shared between the operator that feeds it and the tasks
/// that deliver to it.
pub struct SharedObserver<O, Item, E> {
    slot: MutRc<Option<O>, ObserverSlot<Item, E>>,
    handed: Ghost<Seq<Notification<Item, E>>>,
}

impl<O: Observer<Item, E>, Item, E> SharedObserver<O, Item, E> {
    /// The notifications handed to the shared observer through this handle.
    pub closed spec fn handed(&self) -> Seq<Notification<Item, E>> {
        self.handed@
    }

    /// Share `observer`; nothing has been handed through the handle yet.
    pub fn new(observer: O) -> (r: Self)
        requires
            observer.ready(),
        ensures
            r.handed() == Seq::<Notification<Item, E>>::empty(),
    {
        SharedObserver {
            slot: MutRc::new(Some(observer), Ghost(ObserverSlot(PhantomData))),
            handed: Ghost(Seq::empty()),
        }
    }

    /// Take the observer out; every handle then holds nothing.
    pub fn take(&self) -> (r: Option<O>)
        ensures
            r matches Some(o) ==> o.ready(),
    {
        self.slot.replace(None)
    }

    /// Another handle on the same observer.
    pub fn share(&self) -> (r: Self)
        ensures
            r == *self,
    {
        SharedObserver { slot: self.slot.clone(), handed: Ghost(self.handed@) }
    }
}

impl<O: Observer<Item, E>, Item, E> Observer<Item, E> for SharedObserver<O, Item, E> {
    open spec fn history(&self) -> Seq<Notification<Item, E>> {
        Seq::empty()
    }

    open spec fn ready(&self) -> bool {
        true
    }

    open spec fn closed(&self) -> bool {
        true
    }

    open spec fn always_open(&self) -> bool {
        false
    }

    proof fn lemma_always_open(&self) {
    }

    open spec fn continues(&self, earlier: Self) -> bool {
        true
    }

    proof fn lemma_continues_refl(&self) {
    }

    proof fn lemma_continues_trans(&self, mid: Self, earlier: Self) {
    }

    /// The shared observer, if it is still there, receives the value.
    fn next(&mut self, value: Item)
        ensures
            final(self).handed() == old(self).handed().push(Notification::Next(value)),
    {
        if let Some(mut o) = self.slot.replace(None) {
            o.next(value);
            self.slot.replace(Some(o));
        }
        proof {
            self.handed@ = self.handed@.push(Notification::Next(value));
        }
    }

    /// The shared observer, if it is still there, receives the error.
    fn error(&mut self, err: E)
        ensures
            final(self).handed() == old(self).handed().push(Notification::Error(err)),
    {
        if let Some(mut o) = self.slot.replace(None) {
            o.error(err);
            self.slot.replace(Some(o));
        }
        proof {
            self.handed@ = self.handed@.push(Notification::Error(err));
        }
    }

    /// The shared observer, if it is still there, receives the completion.
    fn complete(&mut self)
        ensures
            final(self).handed() == old(self).handed().push(Notification::Complete),
    {
        if let Some(mut o) = self.slot.replace(None) {
            o.complete();
            self.slot.replace(Some(o));
        }
        proof {
            self.handed@ = self.handed@.push(Notification::Complete);
        }
    }

    /// Whether the shared observer is gone or closed.
    /// What the shared observer answers is not followed.
    open spec fn closed_report(&self, r: bool) -> bool {
        true
    }

    fn is_closed(&self) -> (r: bool) {
        match self.slot.replace(None) {
            Some(o) => {
                let r = o.is_closed();
                self.slot.replace(Some(o));
                r
            },
            None => true,
        }
    }
}

/// The wrapper of `observe_on`: every notification reaches the shared
/// observer through a task of the scheduler.
pub struct ObserveOnObserver<O, Sch, Item, E> {
    observer: SharedObserver<O, Item, E>,
    scheduler: Sch,
    sent: Dispatched<Item, E>,
}

impl<O, Sch, Item, E> Observer<Item, E> for ObserveOnObserver<O, Sch, Item, E> where
    O: Observer<Item, E>,
    Sch: Scheduler<OnNext<SharedObserver<O, Item, E>, Item, E>>,
    Sch: Scheduler<OnError<SharedObserver<O, Item, E>, Item, E>>,
    Sch: Scheduler<OnComplete<SharedObserver<O, Item, E>, Item, E>>,
 {
    closed spec fn history(&self) -> Seq<Notification<Item, E>> {
        self.sent.sent()
    }

    open spec fn ready(&self) -> bool {
        true
    }

    open spec fn closed(&self) -> bool {
        false
    }

    open spec fn always_open(&self) -> bool {
        true
    }

    proof fn lemma_always_open(&self) {
    }

    open spec fn continues(&self, earlier: Self) -> bool {
        true
    }

    proof fn lemma_continues_refl(&self) {
    }

    proof fn lemma_continues_trans(&self, mid: Self, earlier: Self) {
    }

    /// A task handing the value to the shared observer is scheduled.
    fn next(&mut self, value: Item) {
        let task = OnNext { observer: self.observer.share(), item: value, marker: PhantomData };
        self.sent.dispatch(&self.scheduler, task, None);
    }

    /// A task handing the error to the shared observer is scheduled.
    fn error(&mut self, err: E) {
        let task = OnError { observer: self.observer.share(), err, marker: PhantomData };
        self.sent.dispatch(&self.scheduler, task, None);
    }

    /// A task handing the completion to the shared observer is scheduled.
    fn complete(&mut self) {
        let task = OnComplete { observer: self.observer.share(), marker: PhantomData };
        self.sent.dispatch(&self.scheduler, task, None);
    }

    /// It hands everything on, so it never answers closed.
    open spec fn closed_report(&self, r: bool) -> bool {
        !r
    }

    fn is_closed(&self) -> (r: bool) {
        false
    }
}

/// The `observe_on` operator: the notifications of `source` reach the
/// observer through tasks of `scheduler`.
pub struct ObserveOn<S, Sch> {
    pub source: S,
    pub scheduler: Sch,
}

impl<S: ObservableType, Sch> ObservableType for ObserveOn<S, Sch> {
    type Item = S::Item;
    type Error = S::Error;
}

impl<S, Sch, O> CoreObservable<SharedObserver<O, S::Item, S::Error>> for ObserveOn<S, Sch> where
    S: ObservableType,
    O: Observer<<S as ObservableType>::Item, <S as ObservableType>::Error>,
    S: CoreObservable<ObserveOnObserver<O, Sch, <S as ObservableType>::Item, <S as ObservableType>::Error>>,
    Sch: Scheduler<
        OnNext<
            SharedObserver<O, <S as ObservableType>::Item, <S as ObservableType>::Error>,
            <S as ObservableType>::Item,
            <S as ObservableType>::Error,
        >,
    >,
    Sch: Scheduler<
        OnError<
            SharedObserver<O, <S as ObservableType>::Item, <S as ObservableType>::Error>,
            <S as ObservableType>::Item,
            <S as ObservableType>::Error,
        >,
    >,
    Sch: Scheduler<
        OnComplete<
            SharedObserver<O, <S as ObservableType>::Item, <S as ObservableType>::Error>,
            <S as ObservableType>::Item,
            <S as ObservableType>::Error,
        >,
    >,
 {
    type Unsub = <S as CoreObservable<
        ObserveOnObserver<O, Sch, <S as ObservableType>::Item, <S as ObservableType>::Error>,
    >>::Unsub;

    /// The handle is one the source hands out.
    open spec fn hands_out(&self, u: Self::Unsub) -> bool {
        <S as CoreObservable<ObserveOnObserver<O, Sch, <S as ObservableType>::Item, <S as ObservableType>::Error>>>::hands_out(&self.source, u)
    }

    /// The source is subscribed with a wrapper scheduling every
    /// notification; the shared observer is handed back.
    fn subscribe(self, observer: SharedObserver<O, S::Item, S::Error>) -> (r: (
        Self::Unsub,
        SharedObserver<O, S::Item, S::Error>,
    ))
        ensures
            r.1 == observer,
    {
        let wrapped = ObserveOnObserver { observer: observer.share(), scheduler: self.scheduler, sent: Dispatched::new() };
        let (u, _wrapped) = CoreObservable::subscribe(self.source, wrapped);
        proof {
            assert(observer.history().subrange(0, 0) =~= Seq::<Notification<S::Item, S::Error>>::empty());
        }
        (u, observer)
    }
}

/// The wrapper of `delay`: every value reaches the shared observer through a
/// task of the scheduler, `delay` later; the error and the completion reach
/// it at once.
pub struct DelayObserver<O, Sch, Item, E> {
    observer: SharedObserver<O, Item, E>,
    delay: Duration,
    scheduler: Sch,
    sent: Dispatched<Item, E>,
}

impl<O, Sch, Item, E> Observer<Item, E> for DelayObserver<O, Sch, Item, E> where
    O: Observer<Item, E>,
    Sch: Scheduler<OnNext<SharedObserver<O, Item, E>, Item, E>>,
 {
    closed spec fn history(&self) -> Seq<Notification<Item, E>> {
        self.sent.sent()
    }

    open spec fn ready(&self) -> bool {
        true
    }

    open spec fn closed(&self) -> bool {
        false
    }

    open spec fn always_open(&self) -> bool {
        true
    }

    proof fn lemma_always_open(&self) {
    }

    open spec fn continues(&self, earlier: Self) -> bool {
        true
    }

    proof fn lemma_continues_refl(&self) {
    }

    proof fn lemma_continues_trans(&self, mid: Self, earlier: Self) {
    }

    /// A task handing the value to the shared observer is scheduled to run
    /// after the delay.
    fn next(&mut self, value: Item) {
        let task = OnNext { observer: self.observer.share(), item: value, marker: PhantomData };
        self.sent.dispatch(&self.scheduler, task, Some(self.delay));
    }

    /// The shared observer receives the error.
    fn error(&mut self, err: E) {
        self.sent.deliver_now(&mut self.observer, Notification::Error(err));
    }

    /// The shared observer receives the completion.
    fn complete(&mut self) {
        self.sent.deliver_now(&mut self.observer, Notification::Complete);
    }

    /// It hands everything on, so it never answers closed.
    open spec fn closed_report(&self, r: bool) -> bool {
        !r
    }

    fn is_closed(&self) -> (r: bool) {
        false
    }
}

/// The `delay` operator: the values of `source` reach the observer `delay`
/// later, through tasks of `scheduler`.
pub struct Delay<S, Sch> {
    pub source: S,
    pub delay: Duration,
    pub scheduler: Sch,
}

impl<S: ObservableType, Sch> ObservableType for Delay<S, Sch> {
    type Item = S::Item;
    type Error = S::Error;
}

impl<S, Sch, O> CoreObservable<SharedObserver<O, S::Item, S::Error>> for Delay<S, Sch> where
    S: ObservableType,
    O: Observer<<S as ObservableType>::Item, <S as ObservableType>::Error>,
    S: CoreObservable<DelayObserver<O, Sch, <S as ObservableType>::Item, <S as ObservableType>::Error>>,
    Sch: Scheduler<
        OnNext<
            SharedObserver<O, <S as ObservableType>::Item, <S as ObservableType>::Error>,
            <S as ObservableType>::Item,
            <S as ObservableType>::Error,
        >,
    >,
 {
    type Unsub = <S as CoreObservable<
        DelayObserver<O, Sch, <S as ObservableType>::Item, <S as ObservableType>::Error>,
    >>::Unsub;

    /// The handle is one the source hands out.
    open spec fn hands_out(&self, u: Self::Unsub) -> bool {
        <S as CoreObservable<DelayObserver<O, Sch, <S as ObservableType>::Item, <S as ObservableType>::Error>>>::hands_out(&self.source, u)
    }

    /// The source is subscribed with a wrapper delaying every value; the
    /// shared observer is handed back.
    fn subscribe(self, observer: SharedObserver<O, S::Item, S::Error>) -> (r: (
        Self::Unsub,
        SharedObserver<O, S::Item, S::Error>,
    ))
        ensures
            r.1 == observer,
    {
        let wrapped = DelayObserver { observer: observer.share(), delay: self.delay, scheduler: self.scheduler, sent: Dispatched::new() };
        let (u, _wrapped) = CoreObservable::subscribe(self.source, wrapped);
        proof {
            assert(observer.history().subrange(0, 0) =~= Seq::<Notification<S::Item, S::Error>>::empty());
        }
        (u, observer)
    }
}

/// The wrapper of `delay_on`: every value reaches the shared observer through a
/// task of the scheduler, `delay` later; the error and the completion reach
/// it at once.
pub struct DelayOnObserver<O, Sch, Item, E> {
    observer: SharedObserver<O, Item, E>,
    delay: Duration,
    scheduler: Sch,
    sent: Dispatched<Item, E>,
}

impl<O, Sch, Item, E> Observer<Item, E> for DelayOnObserver<O, Sch, Item, E> where
    O: Observer<Item, E>,
    Sch: Scheduler<OnNext<SharedObserver<O, Item, E>, Item, E>>,
 {
    closed spec fn history(&self) -> Seq<Notification<Item, E>> {
        self.sent.sent()
    }

    open spec fn ready(&self) -> bool {
        true
    }

    open spec fn closed(&self) -> bool {
        false
    }

    open spec fn always_open(&self) -> bool {
        true
    }

    proof fn lemma_always_open(&self) {
    }

    open spec fn continues(&self, earlier: Self) -> bool {
        true
    }

    proof fn lemma_continues_refl(&self) {
    }

    proof fn lemma_continues_trans(&self, mid: Self, earlier: Self) {
    }

    /// A task handing the value to the shared observer is scheduled to run
    /// after the delay.
    fn next(&mut self, value: Item) {
        let task = OnNext { observer: self.observer.share(), item: value, marker: PhantomData };
        self.sent.dispatch(&self.scheduler, task, Some(self.delay));
    }

    /// The shared observer receives the error.
    fn error(&mut self, err: E) {
        self.sent.deliver_now(&mut self.observer, Notification::Error(err));
    }

    /// The shared observer receives the completion.
    fn complete(&mut self) {
        self.sent.deliver_now(&mut self.observer, Notification::Complete);
    }

    /// It hands everything on, so it never answers closed.
    open spec fn closed_report(&self, r: bool) -> bool {
        !r
    }

    fn is_closed(&self) -> (r: bool) {
        false
    }
}

/// The `delay_on` operator: the values of `source` reach the observer `delay`
/// later, through tasks of `scheduler`.
pub struct DelayOn<S, Sch> {
    pub source: S,
    pub delay: Duration,
    pub scheduler: Sch,
}

impl<S: ObservableType, Sch> ObservableType for DelayOn<S, Sch> {
    type Item = S::Item;
    type Error = S::Error;
}

impl<S, Sch, O> CoreObservable<SharedObserver<O, S::Item, S::Error>> for DelayOn<S, Sch> where
    S: ObservableType,
    O: Observer<<S as ObservableType>::Item, <S as ObservableType>::Error>,
    S: CoreObservable<DelayOnObserver<O, Sch, <S as ObservableType>::Item, <S as ObservableType>::Error>>,
    Sch: Scheduler<
        OnNext<
            SharedObserver<O, <S as ObservableType>::Item, <S as ObservableType>::Error>,
            <S as ObservableType>::Item,
            <S as ObservableType>::Error,
        >,
    >,
 {
    type Unsub = <S as CoreObservable<
        DelayOnObserver<O, Sch, <S as ObservableType>::Item, <S as ObservableType>::Error>,
    >>::Unsub;

    /// The handle is one the source hands out.
    open spec fn hands_out(&self, u: Self::Unsub) -> bool {
        <S as CoreObservable<DelayOnObserver<O, Sch, <S as ObservableType>::Item, <S as ObservableType>::Error>>>::hands_out(&self.source, u)
    }

    /// The source is subscribed with a wrapper delaying every value; the
    /// shared observer is handed back.
    fn subscribe(self, observer: SharedObserver<O, S::Item, S::Error>) -> (r: (
        Self::Unsub,
        SharedObserver<O, S::Item, S::Error>,
    ))
        ensures
            r.1 == observer,
    {
        let wrapped = DelayOnObserver { observer: observer.share(), delay: self.delay, scheduler: self.scheduler, sent: Dispatched::new() };
        let (u, _wrapped) = CoreObservable::subscribe(self.source, wrapped);
        proof {
            assert(observer.history().subrange(0, 0) =~= Seq::<Notification<S::Item, S::Error>>::empty());
        }
        (u, observer)
    }
}

/// The wrapper of `observe_on` hands on every notification it receives, in
/// order and as that same notification: after two notifications its record
/// is what it had followed by both.
pub proof fn law_observe_on_hands_on_in_order<O, Sch, Item, E>(
    a: ObserveOnObserver<O, Sch, Item, E>,
    b: ObserveOnObserver<O, Sch, Item, E>,
    c: ObserveOnObserver<O, Sch, Item, E>,
    n1: Notification<Item, E>,
    n2: Notification<Item, E>,
) where
    O: Observer<Item, E>,
    Sch: Scheduler<OnNext<SharedObserver<O, Item, E>, Item, E>>,
    Sch: Scheduler<OnError<SharedObserver<O, Item, E>, Item, E>>,
    Sch: Scheduler<OnComplete<SharedObserver<O, Item, E>, Item, E>>,

    requires
        b.history() == accept(a.closed(), a.history(), n1),
        c.history() == accept(b.closed(), b.history(), n2),
    ensures
        c.history() == a.history().push(n1).push(n2),
{
}

/// The wrapper of `delay` hands on every notification it receives, in order
/// and as that same notification: after two notifications its record is
/// what it had followed by both.
pub proof fn law_delay_hands_on_in_order<O, Sch, Item, E>(
    a: DelayObserver<O, Sch, Item, E>,
    b: DelayObserver<O, Sch, Item, E>,
    c: DelayObserver<O, Sch, Item, E>,
    n1: Notification<Item, E>,
    n2: Notification<Item, E>,
) where
    O: Observer<Item, E>,
    Sch: Scheduler<OnNext<SharedObserver<O, Item, E>, Item, E>>,

    requires
        b.history() == accept(a.closed(), a.history(), n1),
        c.history() == accept(b.closed(), b.history(), n2),
    ensures
        c.history() == a.history().push(n1).push(n2),
{
}

/// Every task the scheduled operators create carries the notification it
/// was made for: a value, an error or the completion, never another kind.
pub proof fn law_tasks_carry_their_notification<O: Observer<Item, E>, Item, E>(observer: O, item: Item, err: E)
    ensures
        (OnNext::<O, Item, E> { observer, item, marker: PhantomData }).note() == Notification::<Item, E>::Next(
            item,
        ),
        (OnError::<O, Item, E> { observer, err, marker: PhantomData }).note() == Notification::<Item, E>::Error(
            err,
        ),
        (OnComplete::<O, Item, E> { observer, marker: PhantomData }).note() == Notification::<Item, E>::Complete,
{
}

} // verus!
