//! The `start` observable: emits what a function returns, then completes.
use vstd::prelude::*;
use std::convert::Infallible;
use crate::observable::{CoreObservable, ObservableType};
use crate::observable::of::{of_trace, Of};
use crate::observer::{delivers, Observer};

verus! {

/// An observable that, on subscription, calls its function and emits the
/// result, then completes.
#[verifier::reject_recursive_types(Item)]
pub struct CallableObservable<F, Item> where F: FnOnce() -> Item {
    func: F,
}

impl<F, Item> CallableObservable<F, Item> where F: FnOnce() -> Item {
    #[verifier::type_invariant]
    spec fn callable(self) -> bool {
        call_requires(self.func, ())
    }

    /// The function called on subscription.
    pub closed spec fn func(&self) -> F {
        self.func
    }
}

/// An observable emitting the result of `func`, called at subscription.
pub fn start<F, Item>(func: F) -> (r: CallableObservable<F, Item>) where F: FnOnce() -> Item
    requires
        call_requires(func, ()),
    ensures
        r.func() == func,
{
    CallableObservable { func }
}

impl<F, Item> ObservableType for CallableObservable<F, Item> where F: FnOnce() -> Item {
    type Item = Item;
    type Error = Infallible;
}

impl<F, Item, O> CoreObservable<O> for CallableObservable<F, Item> where
    F: FnOnce() -> Item,
    O: Observer<Item, Infallible>,
 {
    type Unsub = ();

    /// Its subscription hands out the unit handle.
    open spec fn hands_out(&self, u: ()) -> bool {
        true
    }

    /// The function was called; the observer received its result, then
    /// completion.
    open spec fn gives(&self, observer: O, r: ((), O)) -> bool {
        exists|v: Item| #[trigger] call_ensures(self.func(), (), v) && delivers(observer, r.1, of_trace(v))
    }

    /// The function is called and its result emitted, then completion.
    fn subscribe(self, observer: O) -> (r: ((), O)) where O: Observer<Item, Infallible> {
        proof {
            use_type_invariant(&self);
        }
        let ghost f = self.func;
        let v = (self.func)();
        let r = CoreObservable::subscribe(Of(v), observer);
        proof {
            assert(call_ensures(f, (), v));
            assert(f == self.func());
        }
        r
    }
}

} // verus!
