//! Subscribing with closures for the values and the error.
use vstd::prelude::*;
use crate::observable::{CoreObservable, ObservableType};
use crate::observer::{Notification, Observer};

verus! {

/// An observer made of two closures: one called with every value, one called with the error;
/// completion is ignored.  It never closes.
pub struct ObserverErr<N, EF, Item, E> {
    next: N,
    error: EF,
    history: Ghost<Seq<Notification<Item, E>>>,
}

impl<N, EF, Item, E> ObserverErr<N, EF, Item, E> where N: FnMut(Item), EF: FnMut(E) {
    /// The handler of values.
    pub closed spec fn next_handler(&self) -> N {
        self.next
    }

    /// The handler of the error.
    pub closed spec fn error_handler(&self) -> EF {
        self.error
    }

    /// An observer calling `next` with every value and `error` with the error.
    pub fn new(next: N, error: EF) -> (r: Self)
        ensures
            r.next_handler() == next,
            r.error_handler() == error,
            r.history() == Seq::<Notification<Item, E>>::empty(),
            r.always_open(),
            (forall|v: Item| call_requires(next, (v,))) && (forall|e: E| call_requires(error, (e,))) ==> r.ready(),
    {
        ObserverErr { next, error, history: Ghost(Seq::empty()) }
    }
}

impl<N, EF, Item, E> Observer<Item, E> for ObserverErr<N, EF, Item, E> where N: FnMut(Item), EF: FnMut(E) {
    closed spec fn history(&self) -> Seq<Notification<Item, E>> {
        self.history@
    }

    closed spec fn ready(&self) -> bool {
        (forall|v: Item| call_requires(self.next, (v,)))
            && (forall|e: E| call_requires(self.error, (e,)))
    }

    open spec fn closed(&self) -> bool {
        false
    }

    open spec fn always_open(&self) -> bool {
        true
    }

    proof fn lemma_always_open(&self) {
    }

    open spec fn continues(&self, earlier: Self) -> bool {
        true
    }

    proof fn lemma_continues_refl(&self) {
    }

    proof fn lemma_continues_trans(&self, mid: Self, earlier: Self) {
    }

    fn next(&mut self, value: Item)
        ensures
            call_ensures(old(self).next_handler(), (value,), ()),
            final(self).next_handler() == old(self).next_handler(),
            final(self).error_handler() == old(self).error_handler(),
    {
        (self.next)(value);
        proof {
            self.history@ = self.history@.push(Notification::Next(value));
        }
    }

    fn error(&mut self, err: E)
        ensures
            call_ensures(old(self).error_handler(), (err,), ()),
            final(self).next_handler() == old(self).next_handler(),
            final(self).error_handler() == old(self).error_handler(),
    {
        (self.error)(err);
        proof {
            self.history@ = self.history@.push(Notification::Error(err));
        }
    }

    fn complete(&mut self)
        ensures
            final(self).next_handler() == old(self).next_handler(),
            final(self).error_handler() == old(self).error_handler(),
    {
        proof {
            self.history@ = self.history@.push(Notification::Complete);
        }
    }

    open spec fn closed_report(&self, r: bool) -> bool {
        !r
    }

    fn is_closed(&self) -> (r: bool) {
        false
    }
}

/// Subscribing with closures for the values and the error.
pub trait SubscribeErr<N, EF>: ObservableType + Sized {
    /// What the subscription returns to cancel the stream.
    type Unsub;

    /// `u` is a handle that subscribing with handlers may return: one the
    /// observable's own subscription hands out.
    spec fn hands_out_with(&self, u: Self::Unsub) -> bool;

    /// Run the stream, calling `next` with every value and `error` with the error.
    fn subscribe_err(self, next: N, error: EF) -> (r: Self::Unsub) where N: FnMut(Self::Item), EF: FnMut(Self::Error)
        requires
            forall|v: Self::Item| call_requires(next, (v,)),
            forall|e: Self::Error| call_requires(error, (e,)),
        ensures
            self.hands_out_with(r),
    ;
}

impl<S, N, EF> SubscribeErr<N, EF> for S where
    S: CoreObservable<ObserverErr<N, EF, <S as ObservableType>::Item, <S as ObservableType>::Error>>,
 {
    type Unsub = <S as CoreObservable<ObserverErr<N, EF, <S as ObservableType>::Item, <S as ObservableType>::Error>>>::Unsub;

    open spec fn hands_out_with(&self, u: Self::Unsub) -> bool {
        <S as CoreObservable<ObserverErr<N, EF, <S as ObservableType>::Item, <S as ObservableType>::Error>>>::hands_out(self, u)
    }

    fn subscribe_err(self, next: N, error: EF) -> (r: Self::Unsub) where N: FnMut(S::Item), EF: FnMut(S::Error) {
        let observer = ObserverErr::new(next, error);
        CoreObservable::subscribe(self, observer).0
    }
}

} // verus!
