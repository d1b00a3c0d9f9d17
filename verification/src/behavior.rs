//! Observers that hold a current value.
use vstd::prelude::*;
use vstd::pervasive::cloned;
use crate::observer::{accept, Notification, Observer};

verus! {

/// An observer that holds the last value it was given.
pub trait Behavior<Item: Clone, E>: Observer<Item, E> {
    /// The value held now.
    spec fn current(&self) -> Item;

    /// A clone of the value held now.
    fn peek(&self) -> (r: Item)
        ensures
            cloned(self.current(), r),
    ;

    /// Hand the observer `f` applied to (a clone of) the value it holds.
    fn next_by<F: FnOnce(Item) -> Item>(&mut self, f: F)
        requires
            old(self).ready(),
            forall|v: Item| call_requires(f, (v,)),
        ensures
            final(self).ready(),
            old(self).closed() ==> final(self).closed(),
            exists|c: Item, d: Item|
                #![trigger call_ensures(f, (c,), d)]
                cloned(old(self).current(), c) && call_ensures(f, (c,), d)
                    && final(self).history() == accept(
                    old(self).closed(),
                    old(self).history(),
                    Notification::Next(d),
                ),
    {
        let c = self.peek();
        let d = f(c);
        self.next(d);
    }
}

} // verus!
