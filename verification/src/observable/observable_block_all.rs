//! Subscribing with closures for every notification, recording when the stream ends.
use vstd::prelude::*;
use crate::observable::{CoreObservable, ObservableType};
use crate::observer::{Notification, Observer};

verus! {

/// An observer made of three closures, one per kind of notification; it records whether the stream
/// has ended, so that a runtime can wait for it.  It never closes.
pub struct ObserverBlockAll<N, EF, C, Item, E> {
    next: N,
    error: EF,
    complete: C,
    stopped: bool,
    history: Ghost<Seq<Notification<Item, E>>>,
}

impl<N, EF, C, Item, E> ObserverBlockAll<N, EF, C, Item, E> {
    /// The observer `new` makes of the three closures.
    pub closed spec fn initial(next: N, error: EF, complete: C) -> Self {
        ObserverBlockAll { next, error, complete, stopped: false, history: Ghost(Seq::empty()) }
    }
}

impl<N, EF, C, Item, E> ObserverBlockAll<N, EF, C, Item, E> where N: FnMut(Item), EF: FnMut(E), C: FnMut() {
    /// The handler of values.
    pub closed spec fn next_handler(&self) -> N {
        self.next
    }

    /// The handler of the error.
    pub closed spec fn error_handler(&self) -> EF {
        self.error
    }

    /// The handler of the completion.
    pub closed spec fn complete_handler(&self) -> C {
        self.complete
    }

    /// The observer made of the three closures has received nothing, never
    /// closes and has not seen the stream end.
    pub proof fn lemma_initial(next: N, error: EF, complete: C)
        ensures
            Self::initial(next, error, complete).history() == Seq::<Notification<Item, E>>::empty(),
            Self::initial(next, error, complete).always_open(),
            !Self::initial(next, error, complete).stopped(),
    {
    }

    /// An observer calling `next`, `error` and `complete`; the stream has not ended yet.
    pub fn new(next: N, error: EF, complete: C) -> (r: Self)
        ensures
            r.next_handler() == next,
            r.error_handler() == error,
            r.complete_handler() == complete,
            r == Self::initial(next, error, complete),
            r.history() == Seq::<Notification<Item, E>>::empty(),
            r.always_open(),
            !r.stopped(),
            (forall|v: Item| call_requires(next, (v,))) && (forall|e: E| call_requires(error, (e,))) && (call_requires(complete, ())) ==> r.ready(),
    {
        ObserverBlockAll { next, error, complete, stopped: false, history: Ghost(Seq::empty()) }
    }

    /// The stream has ended: an error or the completion was received.
    pub closed spec fn stopped(&self) -> bool {
        self.stopped
    }

    /// Whether the stream has ended.
    pub fn is_stopped(&self) -> (r: bool)
        ensures
            r == self.stopped(),
    {
        self.stopped
    }
}

impl<N, EF, C, Item, E> Observer<Item, E> for ObserverBlockAll<N, EF, C, Item, E> where N: FnMut(Item), EF: FnMut(E), C: FnMut() {
    closed spec fn history(&self) -> Seq<Notification<Item, E>> {
        self.history@
    }

    closed spec fn ready(&self) -> bool {
        (forall|v: Item| call_requires(self.next, (v,)))
            && (forall|e: E| call_requires(self.error, (e,)))
            && (call_requires(self.complete, ()))
    }

    open spec fn closed(&self) -> bool {
        false
    }

    open spec fn always_open(&self) -> bool {
        true
    }

    proof fn lemma_always_open(&self) {
    }

    open spec fn continues(&self, earlier: Self) -> bool {
        true
    }

    proof fn lemma_continues_refl(&self) {
    }

    proof fn lemma_continues_trans(&self, mid: Self, earlier: Self) {
    }

    fn next(&mut self, value: Item)
        ensures
            final(self).stopped() == old(self).stopped(),
            call_ensures(old(self).next_handler(), (value,), ()),
            final(self).next_handler() == old(self).next_handler(),
            final(self).error_handler() == old(self).error_handler(),
            final(self).complete_handler() == old(self).complete_handler(),
    {
        (self.next)(value);
        proof {
            self.history@ = self.history@.push(Notification::Next(value));
        }
    }

    fn error(&mut self, err: E)
        ensures
            final(self).stopped(),
            call_ensures(old(self).error_handler(), (err,), ()),
            final(self).next_handler() == old(self).next_handler(),
            final(self).error_handler() == old(self).error_handler(),
            final(self).complete_handler() == old(self).complete_handler(),
    {
        (self.error)(err);
        self.stopped = true;
        proof {
            self.history@ = self.history@.push(Notification::Error(err));
        }
    }

    fn complete(&mut self)
        ensures
            final(self).stopped(),
            call_ensures(old(self).complete_handler(), (), ()),
            final(self).next_handler() == old(self).next_handler(),
            final(self).error_handler() == old(self).error_handler(),
            final(self).complete_handler() == old(self).complete_handler(),
    {
        (self.complete)();
        self.stopped = true;
        proof {
            self.history@ = self.history@.push(Notification::Complete);
        }
    }

    open spec fn closed_report(&self, r: bool) -> bool {
        !r
    }

    fn is_closed(&self) -> (r: bool) {
        false
    }
}

/// Subscribing with closures for every notification, to be waited for by the runtime.
pub trait SubscribeBlockingAll<N, EF, C>: ObservableType + Sized {
    /// What the subscription returns to cancel the stream.
    type Unsub;

    /// `u` is a handle that subscribing with handlers may return: one the
    /// observable's own subscription hands out.
    spec fn hands_out_with(&self, u: Self::Unsub) -> bool;

    /// What subscribing with the handlers `next`, `error` and `complete`
    /// gives back as `u`, as far as the observable states it.
    spec fn gives_with(&self, next: N, error: EF, complete: C, u: Self::Unsub) -> bool;

    /// Run the stream, calling `next`, `error` and `complete` for the notifications of their kind.
    fn subscribe_blocking_all(self, next: N, error: EF, complete: C) -> (r: Self::Unsub) where N: FnMut(Self::Item), EF: FnMut(Self::Error), C: FnMut()
        requires
            forall|v: Self::Item| call_requires(next, (v,)),
            forall|e: Self::Error| call_requires(error, (e,)),
            call_requires(complete, ()),
        ensures
            self.hands_out_with(r),
            self.gives_with(next, error, complete, r),
    ;
}

impl<S, N, EF, C> SubscribeBlockingAll<N, EF, C> for S where
    S: CoreObservable<ObserverBlockAll<N, EF, C, <S as ObservableType>::Item, <S as ObservableType>::Error>>,
 {
    type Unsub = <S as CoreObservable<ObserverBlockAll<N, EF, C, <S as ObservableType>::Item, <S as ObservableType>::Error>>>::Unsub;

    open spec fn hands_out_with(&self, u: Self::Unsub) -> bool {
        <S as CoreObservable<ObserverBlockAll<N, EF, C, <S as ObservableType>::Item, <S as ObservableType>::Error>>>::hands_out(self, u)
    }

    /// The observer made of the handlers, subscribed to the observable, got
    /// what that subscription gives.
    open spec fn gives_with(&self, next: N, error: EF, complete: C, u: Self::Unsub) -> bool {
        exists|o: ObserverBlockAll<N, EF, C, <S as ObservableType>::Item, <S as ObservableType>::Error>|
            #[trigger] self.gives(ObserverBlockAll::initial(next, error, complete), (u, o))
    }

    fn subscribe_blocking_all(self, next: N, error: EF, complete: C) -> (r: Self::Unsub) where N: FnMut(S::Item), EF: FnMut(S::Error), C: FnMut() {
        let observer = ObserverBlockAll::new(next, error, complete);
        CoreObservable::subscribe(self, observer).0
    }
}

} // verus!
