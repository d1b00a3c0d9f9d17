//! Subscribing with closures for the values, the error and the completion.
use vstd::prelude::*;
use crate::observable::{CoreObservable, ObservableType};
use crate::observer::{Notification, Observer};

verus! {

/// An observer made of three closures, one per kind of notification.  It never closes.
pub struct ObserverAll<N, EF, C, Item, E> {
    next: N,
    error: EF,
    complete: C,
    history: Ghost<Seq<Notification<Item, E>>>,
}

impl<N, EF, C, Item, E> ObserverAll<N, EF, C, Item, E> where N: FnMut(Item), EF: FnMut(E), C: FnMut() {
    /// The handler of values.
    pub closed spec fn next_handler(&self) -> N {
        self.next
    }

    /// The handler of the error.
    pub closed spec fn error_handler(&self) -> EF {
        self.error
    }

    /// The handler of the completion.
    pub closed spec fn complete_handler(&self) -> C {
        self.complete
    }

    /// An observer calling `next`, `error` and `complete` for the notifications of their kind.
    pub fn new(next: N, error: EF, complete: C) -> (r: Self)
        ensures
            r.history() == Seq::<Notification<Item, E>>::empty(),
            r.next_handler() == next,
            r.error_handler() == error,
            r.complete_handler() == complete,
            r.always_open(),
            (forall|v: Item| call_requires(next, (v,))) && (forall|e: E| call_requires(error, (e,))) && (call_requires(complete, ())) ==> r.ready(),
    {
        ObserverAll { next, error, complete, history: Ghost(Seq::empty()) }
    }
}

impl<N, EF, C, Item, E> Observer<Item, E> for ObserverAll<N, EF, C, Item, E> where N: FnMut(Item), EF: FnMut(E), C: FnMut() {
    closed spec fn history(&self) -> Seq<Notification<Item, E>> {
        self.history@
    }

    closed spec fn ready(&self) -> bool {
        (forall|v: Item| call_requires(self.next, (v,)))
            && (forall|e: E| call_requires(self.error, (e,)))
            && (call_requires(self.complete, ()))
    }

    open spec fn closed(&self) -> bool {
        false
    }

    open spec fn always_open(&self) -> bool {
        true
    }

    proof fn lemma_always_open(&self) {
    }

    open spec fn continues(&self, earlier: Self) -> bool {
        true
    }

    proof fn lemma_continues_refl(&self) {
    }

    proof fn lemma_continues_trans(&self, mid: Self, earlier: Self) {
    }

    /// The value handler is called with the value.
    fn next(&mut self, value: Item)
        ensures
            call_ensures(old(self).next_handler(), (value,), ()),
            final(self).next_handler() == old(self).next_handler(),
            final(self).error_handler() == old(self).error_handler(),
            final(self).complete_handler() == old(self).complete_handler(),
    {
        (self.next)(value);
        proof {
            self.history@ = self.history@.push(Notification::Next(value));
        }
    }

    /// The error handler is called with the error.
    fn error(&mut self, err: E)
        ensures
            call_ensures(old(self).error_handler(), (err,), ()),
            final(self).next_handler() == old(self).next_handler(),
            final(self).error_handler() == old(self).error_handler(),
            final(self).complete_handler() == old(self).complete_handler(),
    {
        (self.error)(err);
        proof {
            self.history@ = self.history@.push(Notification::Error(err));
        }
    }

    /// The completion handler is called.
    fn complete(&mut self)
        ensures
            call_ensures(old(self).complete_handler(), (), ()),
            final(self).next_handler() == old(self).next_handler(),
            final(self).error_handler() == old(self).error_handler(),
            final(self).complete_handler() == old(self).complete_handler(),
    {
        (self.complete)();
        proof {
            self.history@ = self.history@.push(Notification::Complete);
        }
    }

    open spec fn closed_report(&self, r: bool) -> bool {
        !r
    }

    fn is_closed(&self) -> (r: bool) {
        false
    }
}

/// Subscribing with closures for the values, the error and the completion.
pub trait SubscribeAll<N, EF, C>: ObservableType + Sized {
    /// What the subscription returns to cancel the stream.
    type Unsub;

    /// `u` is a handle that subscribing with handlers may return: one the
    /// observable's own subscription hands out.
    spec fn hands_out_with(&self, u: Self::Unsub) -> bool;

    /// Run the stream, calling `next` with every value, `error` with the error and `complete` on
    /// completion.
    fn subscribe_all(self, next: N, error: EF, complete: C) -> (r: Self::Unsub) where N: FnMut(Self::Item), EF: FnMut(Self::Error), C: FnMut()
        requires
            forall|v: Self::Item| call_requires(next, (v,)),
            forall|e: Self::Error| call_requires(error, (e,)),
            call_requires(complete, ()),
        ensures
            self.hands_out_with(r),
    ;
}

impl<S, N, EF, C> SubscribeAll<N, EF, C> for S where
    S: CoreObservable<ObserverAll<N, EF, C, <S as ObservableType>::Item, <S as ObservableType>::Error>>,
 {
    type Unsub = <S as CoreObservable<ObserverAll<N, EF, C, <S as ObservableType>::Item, <S as ObservableType>::Error>>>::Unsub;

    open spec fn hands_out_with(&self, u: Self::Unsub) -> bool {
        <S as CoreObservable<ObserverAll<N, EF, C, <S as ObservableType>::Item, <S as ObservableType>::Error>>>::hands_out(self, u)
    }

    fn subscribe_all(self, next: N, error: EF, complete: C) -> (r: Self::Unsub) where N: FnMut(S::Item), EF: FnMut(S::Error), C: FnMut() {
        let observer = ObserverAll::new(next, error, complete);
        CoreObservable::subscribe(self, observer).0
    }
}

} // verus!
