//! Connectable observables: subscribers gather on a subject, and the source
//! runs once, into that subject, when it is connected.
use vstd::prelude::*;
use crate::observable::{CoreObservable, ObservableType};
use crate::observer::{well_formed_trace, Notification, Observer};
use crate::subject::{Subject, SubjectSubscription};

verus! {

/// A source and the subject its subscribers gather on; connecting runs the
/// source into the subject, which multicasts to them.
pub struct ConnectableObservable<S, Item, E, O> {
    source: S,
    subject: Subject<Item, E, O>,
}

impl<S, Item: Clone, E: Clone, O: Observer<Item, E>> ConnectableObservable<S, Item, E, O> {
    /// The source.
    pub closed spec fn source(&self) -> S {
        self.source
    }

    /// The subject the subscribers gather on.
    pub closed spec fn subject(&self) -> Subject<Item, E, O> {
        self.subject
    }

    /// `source` without subscribers yet.
    pub fn new(source: S) -> (r: Self)
        ensures
            r.source() == source,
            r.subject().well_formed(),
            r.subject().subscribers() == Seq::<(usize, O)>::empty(),
            r.subject().next_id() == 0,
            r.subject().history() == Seq::<Notification<Item, E>>::empty(),
    {
        ConnectableObservable { source, subject: Subject::new() }
    }

    /// Add `observer` as the last subscriber of the subject.
    pub fn subscribe(&mut self, observer: O) -> (r: SubjectSubscription)
        requires
            old(self).subject().well_formed(),
            old(self).subject().next_id() < usize::MAX,
            observer.ready(),
        ensures
            final(self).source() == old(self).source(),
            final(self).subject().well_formed(),
            r.id() == old(self).subject().next_id(),
            final(self).subject().subscribers() == old(self).subject().subscribers().push(
                (old(self).subject().next_id() as usize, observer),
            ),
            final(self).subject().history() == old(self).subject().history(),
    {
        self.subject.subscribe(observer)
    }

    /// Run the source into the subject; the subject is handed back with
    /// what it multicast, which is what the source's subscription gives.
    pub fn connect(self) -> (r: (S::Unsub, Subject<Item, E, O>)) where
        S: ObservableType<Item = Item, Error = E> + CoreObservable<Subject<Item, E, O>>,

        requires
            self.subject().well_formed(),
        ensures
            self.source().hands_out(r.0),
            self.source().gives(self.subject(), r),
            r.1.well_formed(),
            self.subject().history().is_prefix_of(r.1.history()),
            well_formed_trace(
                r.1.history().subrange(self.subject().history().len() as int, r.1.history().len() as int),
            ),
    {
        CoreObservable::subscribe(self.source, self.subject)
    }
}

} // verus!
