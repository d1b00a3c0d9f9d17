//! The `Defer` observable: the source is made by a factory at subscription.
use vstd::prelude::*;
use crate::observable::{CoreObservable, ObservableType};
use crate::observer::Observer;
use crate::ops::Fork;

verus! {

/// An observable that, on subscription, calls `func` to make the observable
/// that is then subscribed.
#[verifier::reject_recursive_types(S)]
pub struct Defer<F, S> where F: FnOnce() -> S {
    func: F,
}

impl<F, S> Defer<F, S> where F: FnOnce() -> S {
    #[verifier::type_invariant]
    spec fn callable(self) -> bool {
        call_requires(self.func, ())
    }

    /// The factory.
    pub closed spec fn func(&self) -> F {
        self.func
    }

    /// An observable made by `func` at each subscription.
    pub fn new(func: F) -> (r: Self)
        requires
            call_requires(func, ()),
        ensures
            r.func() == func,
    {
        Defer { func }
    }
}

impl<F, S: ObservableType> ObservableType for Defer<F, S> where F: FnOnce() -> S {
    type Item = S::Item;
    type Error = S::Error;
}

impl<F, S, O> CoreObservable<O> for Defer<F, S> where F: FnOnce() -> S, S: ObservableType + CoreObservable<O> {
    type Unsub = <S as CoreObservable<O>>::Unsub;

    /// The handle is one that subscribing an observable the factory makes
    /// returns.
    closed spec fn hands_out(&self, u: <S as CoreObservable<O>>::Unsub) -> bool {
        exists|s: S| call_ensures(self.func, (), s) && #[trigger] s.hands_out(u)
    }

    /// The factory was called and what it made was subscribed: the
    /// subscription gave back what that observable's subscription gives.
    open spec fn gives(&self, observer: O, r: (<S as CoreObservable<O>>::Unsub, O)) -> bool {
        exists|s: S| call_ensures(self.func(), (), s) && #[trigger] s.gives(observer, r)
    }

    /// The factory is called and what it makes is subscribed.
    fn subscribe(self, observer: O) -> (r: (Self::Unsub, O)) where O: Observer<S::Item, S::Error> {
        proof {
            use_type_invariant(&self);
        }
        let source = (self.func)();
        CoreObservable::subscribe(source, observer)
    }
}

impl<F, S> Fork for Defer<F, S> where F: FnOnce() -> S + Copy {
    type Output = Defer<F, S>;

    /// The copy calls the same factory.
    open spec fn forked(&self, copy: Defer<F, S>) -> bool {
        copy.func() == self.func()
    }

    fn fork(&self) -> (r: Defer<F, S>) {
        proof {
            use_type_invariant(self);
        }
        Defer { func: self.func }
    }
}

} // verus!
