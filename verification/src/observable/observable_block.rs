//! Subscribing with a closure for the values, recording when the stream ends.
use vstd::prelude::*;
use crate::observable::{CoreObservable, ObservableType};
use crate::observer::{Notification, Observer};

verus! {

/// An observer made of one closure, called with every value; it records whether the stream has
/// ended, so that a runtime can wait for it.  It never closes.
pub struct ObserverBlock<N, Item, E> {
    next: N,
    stopped: bool,
    history: Ghost<Seq<Notification<Item, E>>>,
}

impl<N, Item, E> ObserverBlock<N, Item, E> {
    /// The observer `new` makes of the closure.
    pub closed spec fn initial(next: N) -> Self {
        ObserverBlock { next, stopped: false, history: Ghost(Seq::empty()) }
    }
}

impl<N, Item, E> ObserverBlock<N, Item, E> where N: FnMut(Item) {
    /// The handler of values.
    pub closed spec fn next_handler(&self) -> N {
        self.next
    }

    /// The observer made of the closure has received nothing, never closes
    /// and has not seen the stream end.
    pub proof fn lemma_initial(next: N)
        ensures
            Self::initial(next).history() == Seq::<Notification<Item, E>>::empty(),
            Self::initial(next).always_open(),
            !Self::initial(next).stopped(),
    {
    }

    /// An observer calling `next` with every value; the stream has not ended yet.
    pub fn new(next: N) -> (r: Self)
        ensures
            r.next_handler() == next,
            r == Self::initial(next),
            r.history() == Seq::<Notification<Item, E>>::empty(),
            r.always_open(),
            !r.stopped(),
            (forall|v: Item| call_requires(next, (v,))) ==> r.ready(),
    {
        ObserverBlock { next, stopped: false, history: Ghost(Seq::empty()) }
    }

    /// The stream has ended: an error or the completion was received.
    pub closed spec fn stopped(&self) -> bool {
        self.stopped
    }

    /// Whether the stream has ended.
    pub fn is_stopped(&self) -> (r: bool)
        ensures
            r == self.stopped(),
    {
        self.stopped
    }
}

impl<N, Item, E> Observer<Item, E> for ObserverBlock<N, Item, E> where N: FnMut(Item) {
    closed spec fn history(&self) -> Seq<Notification<Item, E>> {
        self.history@
    }

    closed spec fn ready(&self) -> bool {
        (forall|v: Item| call_requires(self.next, (v,)))
    }

    open spec fn closed(&self) -> bool {
        false
    }

    open spec fn always_open(&self) -> bool {
        true
    }

    proof fn lemma_always_open(&self) {
    }

    open spec fn continues(&self, earlier: Self) -> bool {
        true
    }

    proof fn lemma_continues_refl(&self) {
    }

    proof fn lemma_continues_trans(&self, mid: Self, earlier: Self) {
    }

    fn next(&mut self, value: Item)
        ensures
            final(self).stopped() == old(self).stopped(),
            call_ensures(old(self).next_handler(), (value,), ()),
            final(self).next_handler() == old(self).next_handler(),
    {
        (self.next)(value);
        proof {
            self.history@ = self.history@.push(Notification::Next(value));
        }
    }

    fn error(&mut self, err: E)
        ensures
            final(self).stopped(),
            final(self).next_handler() == old(self).next_handler(),
    {
        self.stopped = true;
        proof {
            self.history@ = self.history@.push(Notification::Error(err));
        }
    }

    fn complete(&mut self)
        ensures
            final(self).stopped(),
            final(self).next_handler() == old(self).next_handler(),
    {
        self.stopped = true;
        proof {
            self.history@ = self.history@.push(Notification::Complete);
        }
    }

    open spec fn closed_report(&self, r: bool) -> bool {
        !r
    }

    fn is_closed(&self) -> (r: bool) {
        false
    }
}

/// Subscribing with a closure for the values, to be waited for by the runtime.
pub trait SubscribeBlocking<N>: ObservableType + Sized {
    /// What the subscription returns to cancel the stream.
    type Unsub;

    /// `u` is a handle that subscribing with handlers may return: one the
    /// observable's own subscription hands out.
    spec fn hands_out_with(&self, u: Self::Unsub) -> bool;

    /// What subscribing with the handler `next` gives back as `u`, as far as
    /// the observable states it.
    spec fn gives_with(&self, next: N, u: Self::Unsub) -> bool;

    /// Run the stream, calling `next` with every value.
    fn subscribe_blocking(self, next: N) -> (r: Self::Unsub) where N: FnMut(Self::Item)
        requires
            forall|v: Self::Item| call_requires(next, (v,)),
        ensures
            self.hands_out_with(r),
            self.gives_with(next, r),
    ;
}

impl<S, N> SubscribeBlocking<N> for S where
    S: CoreObservable<ObserverBlock<N, <S as ObservableType>::Item, <S as ObservableType>::Error>>,
 {
    type Unsub = <S as CoreObservable<ObserverBlock<N, <S as ObservableType>::Item, <S as ObservableType>::Error>>>::Unsub;

    open spec fn hands_out_with(&self, u: Self::Unsub) -> bool {
        <S as CoreObservable<ObserverBlock<N, <S as ObservableType>::Item, <S as ObservableType>::Error>>>::hands_out(self, u)
    }

    /// The observer made of the handler, subscribed to the observable, got
    /// what that subscription gives.
    open spec fn gives_with(&self, next: N, u: Self::Unsub) -> bool {
        exists|o: ObserverBlock<N, <S as ObservableType>::Item, <S as ObservableType>::Error>|
            #[trigger] self.gives(ObserverBlock::initial(next), (u, o))
    }

    fn subscribe_blocking(self, next: N) -> (r: Self::Unsub) where N: FnMut(S::Item) {
        let observer = ObserverBlock::new(next);
        CoreObservable::subscribe(self, observer).0
    }
}

} // verus!
