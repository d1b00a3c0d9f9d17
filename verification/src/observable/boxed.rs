//! Observables behind a box, with their concrete type erased.
use vstd::prelude::*;
use crate::observable::{CoreObservable, ObservableType};
use crate::observer::{well_formed_trace, Observer};

verus! {

/// An observable that can be subscribed through a box.
pub trait DynCoreObservable<Item, E, O: Observer<Item, E>, U> {
    /// Subscribe `observer` to the boxed observable; the observer is handed
    /// back with what it received, which respects the protocol.
    fn dyn_subscribe(self: Box<Self>, observer: O) -> (r: (U, O))
        requires
            observer.ready(),
        ensures
            r.1.ready(),
            r.1.continues(observer),
            observer.closed() ==> r.1.closed(),
            observer.always_open() ==> r.1.always_open(),
            observer.history().is_prefix_of(r.1.history()),
            well_formed_trace(
                r.1.history().subrange(observer.history().len() as int, r.1.history().len() as int),
            ),
            observer.closed() ==> r.1.history() == observer.history(),
    ;
}

impl<S, O> DynCoreObservable<S::Item, S::Error, O, S::Unsub> for S where
    S: CoreObservable<O>,
    O: Observer<S::Item, S::Error>,
 {
    fn dyn_subscribe(self: Box<Self>, observer: O) -> (r: (S::Unsub, O)) {
        CoreObservable::subscribe(*self, observer)
    }
}

/// A boxed observable for observers of type `O`.
#[verifier::reject_recursive_types(Item)]
#[verifier::reject_recursive_types(E)]
#[verifier::reject_recursive_types(O)]
#[verifier::reject_recursive_types(U)]
pub struct BoxedCoreObservable<Item, E, O: Observer<Item, E>, U> {
    source: Box<dyn DynCoreObservable<Item, E, O, U>>,
}

impl<Item, E, O: Observer<Item, E>, U> ObservableType for BoxedCoreObservable<Item, E, O, U> {
    type Item = Item;
    type Error = E;
}

impl<Item, E, O: Observer<Item, E>, U> CoreObservable<O> for BoxedCoreObservable<Item, E, O, U> {
    type Unsub = U;

    /// The boxed observable's type is erased: its handles are not followed.
    closed spec fn hands_out(&self, u: U) -> bool {
        true
    }

    /// The boxed observable is subscribed.
    fn subscribe(self, observer: O) -> (r: (U, O)) {
        self.source.dyn_subscribe(observer)
    }
}

/// Conversion of an observable into a boxed one.
pub trait IntoBoxedCoreObservable<Target> {
    /// The observable, boxed.
    fn into_boxed(self) -> (r: Target);
}

impl<S, O> IntoBoxedCoreObservable<BoxedCoreObservable<S::Item, S::Error, O, S::Unsub>> for S where
    S: CoreObservable<O> + 'static,
    O: Observer<S::Item, S::Error>,
 {
    fn into_boxed(self) -> BoxedCoreObservable<S::Item, S::Error, O, S::Unsub> {
        let source: Box<dyn DynCoreObservable<S::Item, S::Error, O, S::Unsub>> = Box::new(self);
        BoxedCoreObservable { source }
    }
}

} // verus!
