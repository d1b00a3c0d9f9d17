//! Trivial observables: `Empty` completes at once, `Never` emits nothing,
//! `ThrowErr` emits an error at once.
use vstd::prelude::*;
use std::convert::Infallible;
use crate::observable::{CoreObservable, ObservableType};
use crate::observer::{accept, well_formed_trace, Notification, Observer};

verus! {

/// Completes immediately without emitting any value.
#[derive(Clone, Copy)]
pub struct Empty;

/// Never emits anything and never completes.
#[derive(Clone, Copy)]
pub struct Never;

/// Emits an error immediately, without any value.
pub struct ThrowErr<E> {
    pub error: E,
}

impl ObservableType for Empty {
    type Item = ();
    type Error = Infallible;
}

impl ObservableType for Never {
    type Item = ();
    type Error = Infallible;
}

impl<E> ObservableType for ThrowErr<E> {
    type Item = ();
    type Error = E;
}

impl<O> CoreObservable<O> for Empty {
    type Unsub = ();

    /// Its subscription hands out the unit handle.
    open spec fn hands_out(&self, u: ()) -> bool {
        true
    }

    /// The observer only receives completion.
    fn subscribe(self, observer: O) -> (r: ((), O)) where O: Observer<(), Infallible>
        ensures
            r.1.history() == accept(
                observer.closed(),
                observer.history(),
                Notification::Complete,
            ),
    {
        let ghost o0 = observer;
        let mut observer = observer;
        observer.complete();
        proof {
            assert(final_suffix_one(o0.history(), observer.history()));
        }
        ((), observer)
    }
}

impl<O> CoreObservable<O> for Never {
    type Unsub = ();

    /// Its subscription hands out the unit handle.
    open spec fn hands_out(&self, u: ()) -> bool {
        true
    }

    /// The observer receives nothing.
    fn subscribe(self, observer: O) -> (r: ((), O)) where O: Observer<(), Infallible>
        ensures
            r.1.history() == observer.history(),
    {
        assert(observer.history().subrange(
            observer.history().len() as int,
            observer.history().len() as int,
        ) =~= Seq::<Notification<(), Infallible>>::empty());
        proof {
            observer.lemma_continues_refl();
        }
        ((), observer)
    }
}

impl<E, O> CoreObservable<O> for ThrowErr<E> {
    type Unsub = ();

    /// Its subscription hands out the unit handle.
    open spec fn hands_out(&self, u: ()) -> bool {
        true
    }

    /// The observer only receives the error.
    fn subscribe(self, observer: O) -> (r: ((), O)) where O: Observer<(), E>
        ensures
            r.1.history() == accept(
                observer.closed(),
                observer.history(),
                Notification::Error(self.error),
            ),
    {
        let ghost o0 = observer;
        let mut observer = observer;
        observer.error(self.error);
        proof {
            assert(final_suffix_one(o0.history(), observer.history()));
        }
        ((), observer)
    }
}

/// `after` is `before`, or `before` with one more notification; either way
/// `before` is a prefix and what was added respects the protocol.
pub open spec fn final_suffix_one<Item, E>(
    before: Seq<Notification<Item, E>>,
    after: Seq<Notification<Item, E>>,
) -> bool {
    &&& before.is_prefix_of(after)
    &&& well_formed_trace(after.subrange(before.len() as int, after.len() as int))
}

} // verus!
