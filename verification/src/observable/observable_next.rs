//! Subscribing with a single closure for the values.
use vstd::prelude::*;
use crate::observable::{CoreObservable, ObservableType};
use crate::observer::{Notification, Observer};

verus! {

/// An observer made of one closure, called with every value; errors and
/// completion are ignored.  It never closes.
pub struct ObserverN<N, Item, E> {
    next: N,
    history: Ghost<Seq<Notification<Item, E>>>,
}

impl<N, Item, E> ObserverN<N, Item, E> where N: FnMut(Item) {
    /// The handler of values.
    pub closed spec fn next_handler(&self) -> N {
        self.next
    }

    /// An observer calling `next` with every value.
    pub fn new(next: N) -> (r: Self)
        ensures
            r.next_handler() == next,
            r.history() == Seq::<Notification<Item, E>>::empty(),
            r.always_open(),
            (forall|v: Item| call_requires(next, (v,))) ==> r.ready(),
    {
        ObserverN { next, history: Ghost(Seq::empty()) }
    }
}

impl<N, Item, E> Observer<Item, E> for ObserverN<N, Item, E> where N: FnMut(Item) {
    closed spec fn history(&self) -> Seq<Notification<Item, E>> {
        self.history@
    }

    closed spec fn ready(&self) -> bool {
        forall|v: Item| call_requires(self.next, (v,))
    }

    open spec fn closed(&self) -> bool {
        false
    }

    open spec fn always_open(&self) -> bool {
        true
    }

    proof fn lemma_always_open(&self) {
    }

    open spec fn continues(&self, earlier: Self) -> bool {
        true
    }

    proof fn lemma_continues_refl(&self) {
    }

    proof fn lemma_continues_trans(&self, mid: Self, earlier: Self) {
    }

    fn next(&mut self, value: Item)
        ensures
            call_ensures(old(self).next_handler(), (value,), ()),
            final(self).next_handler() == old(self).next_handler(),
    {
        (self.next)(value);
        proof {
            self.history@ = self.history@.push(Notification::Next(value));
        }
    }

    fn error(&mut self, err: E)
        ensures
            final(self).next_handler() == old(self).next_handler(),
    {
        proof {
            self.history@ = self.history@.push(Notification::Error(err));
        }
    }

    fn complete(&mut self)
        ensures
            final(self).next_handler() == old(self).next_handler(),
    {
        proof {
            self.history@ = self.history@.push(Notification::Complete);
        }
    }

    open spec fn closed_report(&self, r: bool) -> bool {
        !r
    }

    fn is_closed(&self) -> (r: bool) {
        false
    }
}

/// Subscribing with one closure for the values.
pub trait SubscribeNext<N>: ObservableType + Sized {
    /// What the subscription returns to cancel the stream.
    type Unsub;

    /// `u` is a handle that subscribing with handlers may return: one the
    /// observable's own subscription hands out.
    spec fn hands_out_with(&self, u: Self::Unsub) -> bool;

    /// Run the stream, calling `next` with every value.
    fn subscribe(self, next: N) -> (r: Self::Unsub) where N: FnMut(Self::Item)
        requires
            forall|v: Self::Item| call_requires(next, (v,)),
        ensures
            self.hands_out_with(r),
    ;
}

impl<S, N> SubscribeNext<N> for S where
    S: CoreObservable<ObserverN<N, <S as ObservableType>::Item, <S as ObservableType>::Error>>,
 {
    type Unsub = <S as CoreObservable<
        ObserverN<N, <S as ObservableType>::Item, <S as ObservableType>::Error>,
    >>::Unsub;

    open spec fn hands_out_with(&self, u: Self::Unsub) -> bool {
        <S as CoreObservable<ObserverN<N, <S as ObservableType>::Item, <S as ObservableType>::Error>>>::hands_out(self, u)
    }

    fn subscribe(self, next: N) -> (r: Self::Unsub) where N: FnMut(S::Item) {
        let observer = ObserverN::new(next);
        CoreObservable::subscribe(self, observer).0
    }
}

} // verus!
