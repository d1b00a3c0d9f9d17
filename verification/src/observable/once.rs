//! Observables whose emitting function runs once, on subscription.
use vstd::prelude::*;
use std::marker::PhantomData;
use crate::observable::{CoreObservable, ObservableType};
use crate::observable::create::{deliver, emits_to, CreateEmitter};
use crate::observer::{Emitter, Notification, Observer};

verus! {

/// An observable that can be subscribed once: on subscription its function
/// runs with an emitter, and the observer then receives, in order, what it
/// emitted up to and including the first error or completion.
#[verifier::reject_recursive_types(Item)]
#[verifier::reject_recursive_types(E)]
pub struct ObservableOnce<F, Item, E> where F: FnOnce(&mut CreateEmitter<Item, E>) {
    subscribe: F,
    marker: PhantomData<(Item, E)>,
}

impl<F, Item, E> ObservableOnce<F, Item, E> where F: FnOnce(&mut CreateEmitter<Item, E>) {
    #[verifier::type_invariant]
    spec fn callable(self) -> bool {
        forall|e: &mut CreateEmitter<Item, E>| call_requires(self.subscribe, (e,))
    }

    /// The function run on subscription.
    pub closed spec fn func(&self) -> F {
        self.subscribe
    }

    /// An observable running `subscribe` when it is subscribed.
    pub fn new(subscribe: F) -> (r: Self)
        requires
            forall|e: &mut CreateEmitter<Item, E>| call_requires(subscribe, (e,)),
        ensures
            r.func() == subscribe,
    {
        ObservableOnce { subscribe, marker: PhantomData }
    }
}

/// An observable running `f` when it is subscribed.
pub fn once<F, Item, E>(f: F) -> (r: ObservableOnce<F, Item, E>) where
    F: FnOnce(&mut CreateEmitter<Item, E>),

    requires
        forall|e: &mut CreateEmitter<Item, E>| call_requires(f, (e,)),
    ensures
        r.func() == f,
{
    ObservableOnce::new(f)
}

impl<F, Item, E> ObservableType for ObservableOnce<F, Item, E> where
    F: FnOnce(&mut CreateEmitter<Item, E>),
 {
    type Item = Item;
    type Error = E;
}

impl<F, Item, E, O> CoreObservable<O> for ObservableOnce<F, Item, E> where
    F: FnOnce(&mut CreateEmitter<Item, E>),
 {
    type Unsub = ();

    /// Its subscription hands out the unit handle.
    open spec fn hands_out(&self, u: ()) -> bool {
        true
    }

    /// The function runs with a fresh emitter; the observer then receives
    /// what it emitted, up to and including the first terminal notification.
    fn subscribe(self, observer: O) -> (r: ((), O)) where O: Observer<Item, E>
        ensures
            exists|e: &mut CreateEmitter<Item, E>|
                #[trigger] call_ensures(self.func(), (e,), ()) && (*e).calls() == Seq::<
                    Notification<Item, E>,
                >::empty() && emits_to(observer, r.1, (*final(e)).calls()),
    {
        proof {
            use_type_invariant(&self);
        }
        let ghost o0 = observer;
        let mut observer = observer;
        let mut emitter = CreateEmitter::new();
        (self.subscribe)(&mut emitter);
        let ghost emitted = emitter.calls();
        let calls = emitter.into_calls();
        deliver(&mut observer, calls);
        assert(self.func() == self.subscribe);
        assert(emits_to(o0, observer, emitted));
        assert(exists|e: &mut CreateEmitter<Item, E>|
            #[trigger] call_ensures(self.func(), (e,), ()) && (*e).calls() == Seq::<
                Notification<Item, E>,
            >::empty() && emits_to(o0, observer, (*final(e)).calls()));
        ((), observer)
    }
}

} // verus!
