//! A subject for single-threaded use.
use vstd::prelude::*;
use crate::observer::{accept, Notification, Observer};
use crate::subject::{not_subscribed, got_clone, Subject, SubjectSubscription};

verus! {

/// A subject for single-threaded use: it multicasts what it receives to its
/// subscribers, in subscription order.
pub struct LocalSubject<Item, E, O> {
    subject: Subject<Item, E, O>,
}

impl<Item: Clone, E: Clone, O: Observer<Item, E>> LocalSubject<Item, E, O> {
    /// The subject that multicasts to the subscribers.
    pub closed spec fn subject(&self) -> Subject<Item, E, O> {
        self.subject
    }

    /// A local subject without subscribers.
    pub fn local() -> (r: Self)
        ensures
            r.subject().subscribers() == Seq::<(usize, O)>::empty(),
            r.subject().next_id() == 0,
            r.history() == Seq::<Notification<Item, E>>::empty(),
            r.ready(),
    {
        LocalSubject { subject: Subject::new() }
    }

    /// Add `observer` as the last subscriber.
    pub fn subscribe(&mut self, observer: O) -> (r: SubjectSubscription)
        requires
            old(self).ready(),
            old(self).subject().next_id() < usize::MAX,
            observer.ready(),
        ensures
            final(self).ready(),
            final(self).history() == old(self).history(),
            r.id() == old(self).subject().next_id(),
            !r.released(),
            final(self).subject().next_id() == old(self).subject().next_id() + 1,
            final(self).subject().subscribers() == old(self).subject().subscribers().push(
                (old(self).subject().next_id() as usize, observer),
            ),
    {
        self.subject.subscribe(observer)
    }

    /// Remove the subscriber `subscription` refers to.
    pub fn unsubscribe(&mut self, subscription: &mut SubjectSubscription) -> (r: Option<O>)
        requires
            old(self).ready(),
        ensures
            r is Some ==> !old(subscription).released(),
            r is None && !old(subscription).released() ==> not_subscribed(old(self).subject(), old(subscription).id()),
            final(self).ready(),
            final(self).history() == old(self).history(),
            final(subscription).released(),
            final(self).subject().next_id() == old(self).subject().next_id(),
            !old(subscription).released() ==> forall|p: int|
                0 <= p < final(self).subject().subscribers().len() ==> #[trigger] final(self).subject().subscribers()[p].0 != old(subscription).id(),
            old(subscription).released() ==> final(self).subject().subscribers() == old(self).subject().subscribers(),
    {
        self.subject.unsubscribe(subscription)
    }
}

impl<Item: Clone, E: Clone, O: Observer<Item, E>> Observer<Item, E> for LocalSubject<Item, E, O> {
    closed spec fn history(&self) -> Seq<Notification<Item, E>> {
        self.subject.history()
    }

    closed spec fn ready(&self) -> bool {
        self.subject.well_formed()
    }

    open spec fn closed(&self) -> bool {
        false
    }

    open spec fn always_open(&self) -> bool {
        true
    }

    proof fn lemma_always_open(&self) {
    }

    open spec fn continues(&self, earlier: Self) -> bool {
        true
    }

    proof fn lemma_continues_refl(&self) {
    }

    proof fn lemma_continues_trans(&self, mid: Self, earlier: Self) {
    }

    /// Every subscriber, in subscription order, receives a clone of the value.
    fn next(&mut self, value: Item)
        ensures
            final(self).subject().next_id() == old(self).subject().next_id(),
            final(self).subject().subscribers().len() == old(self).subject().subscribers().len(),
            forall|i: int|
                0 <= i < old(self).subject().subscribers().len() ==> (#[trigger] final(self).subject().subscribers()[i]).0 == old(self).subject().subscribers()[i].0
                    && got_clone(
                    value,
                    old(self).subject().subscribers()[i].1,
                    final(self).subject().subscribers()[i].1,
                ),
    {
        self.subject.next(value);
    }

    /// Every subscriber receives the error and is released.
    fn error(&mut self, err: E)
        ensures
            final(self).subject().subscribers() == Seq::<(usize, O)>::empty(),
    {
        self.subject.error(err);
    }

    /// Every subscriber receives the completion and is released.
    fn complete(&mut self)
        ensures
            final(self).subject().subscribers() == Seq::<(usize, O)>::empty(),
    {
        self.subject.complete();
    }

    open spec fn closed_report(&self, r: bool) -> bool {
        !r
    }

    fn is_closed(&self) -> (r: bool) {
        false
    }
}

} // verus!
