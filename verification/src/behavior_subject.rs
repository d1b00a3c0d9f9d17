//! A subject that holds the last value it was given and hands it to every
//! new subscriber.
use vstd::prelude::*;
use vstd::pervasive::cloned;
use crate::behavior::Behavior;
use crate::observer::{accept, Notification, Observer};
use crate::subject::{not_subscribed, got, got_clone, Subject, SubjectSubscription};

verus! {

/// A subject with a current value: a new subscriber first receives (a clone
/// of) that value, and every value the subject receives becomes the current
/// one.
pub struct BehaviorSubject<Item, E, O> {
    subject: Subject<Item, E, O>,
    value: Item,
}

impl<Item: Clone, E: Clone, O: Observer<Item, E>> BehaviorSubject<Item, E, O> {
    /// The subject that multicasts to the subscribers.
    pub closed spec fn subject(&self) -> Subject<Item, E, O> {
        self.subject
    }

    /// A behavior subject without subscribers, holding `value`.
    pub fn new(value: Item) -> (r: Self)
        ensures
            r.current() == value,
            r.subject().subscribers() == Seq::<(usize, O)>::empty(),
            r.subject().next_id() == 0,
            r.history() == Seq::<Notification<Item, E>>::empty(),
            r.ready(),
    {
        BehaviorSubject { subject: Subject::new(), value }
    }

    /// Subscribe `observer`: it is first handed a clone of the current value,
    /// then added as the last subscriber.
    pub fn subscribe(&mut self, observer: O) -> (r: SubjectSubscription)
        requires
            old(self).ready(),
            old(self).subject().next_id() < usize::MAX,
            observer.ready(),
        ensures
            final(self).ready(),
            final(self).current() == old(self).current(),
            final(self).history() == old(self).history(),
            r.id() == old(self).subject().next_id(),
            !r.released(),
            final(self).subject().next_id() == old(self).subject().next_id() + 1,
            final(self).subject().subscribers().len() == old(self).subject().subscribers().len() + 1,
            final(self).subject().subscribers().drop_last() == old(self).subject().subscribers(),
            final(self).subject().subscribers().last().0 == old(self).subject().next_id(),
            got_clone(old(self).current(), observer, final(self).subject().subscribers().last().1),
            final(self).subject().released() == old(self).subject().released(),
    {
        let mut observer = observer;
        let ghost o0 = observer;
        let c = self.value.clone();
        observer.next(c);
        proof {
            assert(cloned(self.value, c));
            assert(got(o0, observer, Notification::Next(c)));
        }
        let r = self.subject.subscribe(observer);
        proof {
            assert(self.subject.subscribers().drop_last() =~= old(self).subject.subscribers());
        }
        r
    }

    /// Remove the subscriber `subscription` refers to.
    pub fn unsubscribe(&mut self, subscription: &mut SubjectSubscription) -> (r: Option<O>)
        requires
            old(self).ready(),
        ensures
            r is Some ==> !old(subscription).released(),
            r is None && !old(subscription).released() ==> not_subscribed(old(self).subject(), old(subscription).id()),
            final(self).ready(),
            final(self).current() == old(self).current(),
            final(self).history() == old(self).history(),
            final(subscription).released(),
            final(subscription).id() == old(subscription).id(),
            final(self).subject().next_id() == old(self).subject().next_id(),
            forall|p: int|
                0 <= p < final(self).subject().subscribers().len() ==> #[trigger] final(self).subject().subscribers()[p].0 != old(subscription).id() || old(subscription).released(),
            old(subscription).released() ==> final(self).subject().subscribers() == old(self).subject().subscribers(),
            final(self).subject().subscribers().len() <= old(self).subject().subscribers().len(),
    {
        let r = self.subject.unsubscribe(subscription);
        r
    }
}

impl<Item: Clone, E: Clone, O: Observer<Item, E>> Observer<Item, E> for BehaviorSubject<Item, E, O> {
    closed spec fn history(&self) -> Seq<Notification<Item, E>> {
        self.subject.history()
    }

    closed spec fn ready(&self) -> bool {
        self.subject.well_formed()
    }

    open spec fn closed(&self) -> bool {
        false
    }

    open spec fn always_open(&self) -> bool {
        true
    }

    proof fn lemma_always_open(&self) {
    }

    open spec fn continues(&self, earlier: Self) -> bool {
        true
    }

    proof fn lemma_continues_refl(&self) {
    }

    proof fn lemma_continues_trans(&self, mid: Self, earlier: Self) {
    }

    /// The value becomes the current one, and every subscriber receives it.
    fn next(&mut self, value: Item)
        ensures
            cloned(value, final(self).current()),
            final(self).subject().next_id() == old(self).subject().next_id(),
            final(self).subject().subscribers().len() == old(self).subject().subscribers().len(),
            forall|i: int|
                0 <= i < old(self).subject().subscribers().len() ==> (#[trigger] final(self).subject().subscribers()[i]).0 == old(self).subject().subscribers()[i].0
                    && got_clone(
                    value,
                    old(self).subject().subscribers()[i].1,
                    final(self).subject().subscribers()[i].1,
                ),
    {
        let c = value.clone();
        self.subject.next(value);
        self.value = c;
    }

    /// Every subscriber receives the error and is released.
    fn error(&mut self, err: E)
        ensures
            final(self).current() == old(self).current(),
            final(self).subject().subscribers() == Seq::<(usize, O)>::empty(),
    {
        self.subject.error(err);
    }

    /// Every subscriber receives the completion and is released.
    fn complete(&mut self)
        ensures
            final(self).current() == old(self).current(),
            final(self).subject().subscribers() == Seq::<(usize, O)>::empty(),
    {
        self.subject.complete();
    }

    open spec fn closed_report(&self, r: bool) -> bool {
        !r
    }

    fn is_closed(&self) -> (r: bool) {
        false
    }
}

impl<Item: Clone, E: Clone, O: Observer<Item, E>> Behavior<Item, E> for BehaviorSubject<Item, E, O> {
    closed spec fn current(&self) -> Item {
        self.value
    }

    fn peek(&self) -> (r: Item) {
        self.value.clone()
    }
}

} // verus!
