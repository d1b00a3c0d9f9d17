//! Subscribing with closures for the values and the completion.
use vstd::prelude::*;
use crate::observable::{CoreObservable, ObservableType};
use crate::observer::{Notification, Observer};

verus! {

/// An observer made of two closures: one called with every value, one called on completion; errors
/// are ignored.  It never closes.
pub struct ObserverComp<N, C, Item, E> {
    next: N,
    complete: C,
    history: Ghost<Seq<Notification<Item, E>>>,
}

impl<N, C, Item, E> ObserverComp<N, C, Item, E> where N: FnMut(Item), C: FnMut() {
    /// The handler of values.
    pub closed spec fn next_handler(&self) -> N {
        self.next
    }

    /// The handler of the completion.
    pub closed spec fn complete_handler(&self) -> C {
        self.complete
    }

    /// An observer calling `next` with every value and `complete` on completion.
    pub fn new(next: N, complete: C) -> (r: Self)
        ensures
            r.next_handler() == next,
            r.complete_handler() == complete,
            r.history() == Seq::<Notification<Item, E>>::empty(),
            r.always_open(),
            (forall|v: Item| call_requires(next, (v,))) && (call_requires(complete, ())) ==> r.ready(),
    {
        ObserverComp { next, complete, history: Ghost(Seq::empty()) }
    }
}

impl<N, C, Item, E> Observer<Item, E> for ObserverComp<N, C, Item, E> where N: FnMut(Item), C: FnMut() {
    closed spec fn history(&self) -> Seq<Notification<Item, E>> {
        self.history@
    }

    closed spec fn ready(&self) -> bool {
        (forall|v: Item| call_requires(self.next, (v,)))
            && (call_requires(self.complete, ()))
    }

    open spec fn closed(&self) -> bool {
        false
    }

    open spec fn always_open(&self) -> bool {
        true
    }

    proof fn lemma_always_open(&self) {
    }

    open spec fn continues(&self, earlier: Self) -> bool {
        true
    }

    proof fn lemma_continues_refl(&self) {
    }

    proof fn lemma_continues_trans(&self, mid: Self, earlier: Self) {
    }

    fn next(&mut self, value: Item)
        ensures
            call_ensures(old(self).next_handler(), (value,), ()),
            final(self).next_handler() == old(self).next_handler(),
            final(self).complete_handler() == old(self).complete_handler(),
    {
        (self.next)(value);
        proof {
            self.history@ = self.history@.push(Notification::Next(value));
        }
    }

    fn error(&mut self, err: E)
        ensures
            final(self).next_handler() == old(self).next_handler(),
            final(self).complete_handler() == old(self).complete_handler(),
    {
        proof {
            self.history@ = self.history@.push(Notification::Error(err));
        }
    }

    fn complete(&mut self)
        ensures
            call_ensures(old(self).complete_handler(), (), ()),
            final(self).next_handler() == old(self).next_handler(),
            final(self).complete_handler() == old(self).complete_handler(),
    {
        (self.complete)();
        proof {
            self.history@ = self.history@.push(Notification::Complete);
        }
    }

    open spec fn closed_report(&self, r: bool) -> bool {
        !r
    }

    fn is_closed(&self) -> (r: bool) {
        false
    }
}

/// Subscribing with closures for the values and the completion.
pub trait SubscribeComplete<N, C>: ObservableType + Sized {
    /// What the subscription returns to cancel the stream.
    type Unsub;

    /// `u` is a handle that subscribing with handlers may return: one the
    /// observable's own subscription hands out.
    spec fn hands_out_with(&self, u: Self::Unsub) -> bool;

    /// Run the stream, calling `next` with every value and `complete` on completion.
    fn subscribe_complete(self, next: N, complete: C) -> (r: Self::Unsub) where N: FnMut(Self::Item), C: FnMut()
        requires
            forall|v: Self::Item| call_requires(next, (v,)),
            call_requires(complete, ()),
        ensures
            self.hands_out_with(r),
    ;
}

impl<S, N, C> SubscribeComplete<N, C> for S where
    S: CoreObservable<ObserverComp<N, C, <S as ObservableType>::Item, <S as ObservableType>::Error>>,
 {
    type Unsub = <S as CoreObservable<ObserverComp<N, C, <S as ObservableType>::Item, <S as ObservableType>::Error>>>::Unsub;

    open spec fn hands_out_with(&self, u: Self::Unsub) -> bool {
        <S as CoreObservable<ObserverComp<N, C, <S as ObservableType>::Item, <S as ObservableType>::Error>>>::hands_out(self, u)
    }

    fn subscribe_complete(self, next: N, complete: C) -> (r: Self::Unsub) where N: FnMut(S::Item), C: FnMut() {
        let observer = ObserverComp::new(next, complete);
        CoreObservable::subscribe(self, observer).0
    }
}

} // verus!
