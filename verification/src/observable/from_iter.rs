//! The `FromIter` source: emits the items of a collection, then completes.
use vstd::prelude::*;
use std::convert::Infallible;
use crate::observable::{emit_items_then_complete, items_then_complete, CoreObservable, ObservableType};
use crate::observer::{delivers, Observer};
use crate::ops::Fork;

verus! {

/// Emits all the items of a collection in order, then completes.
pub struct FromIter<T> {
    iter: Vec<T>,
}

impl<T> FromIter<T> {
    /// The items the source emits.
    pub closed spec fn items(&self) -> Seq<T> {
        self.iter@
    }
}

/// An observable emitting the items of `iter` in order, then completing.
pub fn from_iter<T>(iter: Vec<T>) -> (r: FromIter<T>)
    ensures
        r.items() == iter@,
{
    FromIter { iter }
}

impl<T> ObservableType for FromIter<T> {
    type Item = T;
    type Error = Infallible;
}

impl<T, O> CoreObservable<O> for FromIter<T> where O: Observer<T, Infallible> {
    type Unsub = ();

    /// Its subscription hands out the unit handle.
    open spec fn hands_out(&self, u: ()) -> bool {
        true
    }

    /// The observer received every item in order and then completion, or,
    /// if it closed early, a prefix of them.
    open spec fn gives(&self, observer: O, r: ((), O)) -> bool {
        delivers(observer, r.1, items_then_complete(self.items()))
    }

    /// The items are emitted in order, then completion; the source stops
    /// once the observer closes.
    fn subscribe(self, observer: O) -> (r: ((), O)) where O: Observer<T, Infallible> {
        let mut observer = observer;
        emit_items_then_complete(&mut observer, self.iter);
        ((), observer)
    }
}

impl<T: Clone> Fork for FromIter<T> {
    type Output = FromIter<T>;

    /// The copy emits clones of the items, in the same order.
    open spec fn forked(&self, copy: FromIter<T>) -> bool {
        &&& copy.items().len() == self.items().len()
        &&& forall|i: int|
            0 <= i < self.items().len() ==> vstd::pervasive::cloned(self.items()[i], #[trigger] copy.items()[i])
    }

    fn fork(&self) -> (r: FromIter<T>) {
        let mut items: Vec<T> = Vec::new();
        let mut i: usize = 0;
        while i < self.iter.len()
            invariant
                0 <= i <= self.iter@.len(),
                items@.len() == i,
                forall|j: int| 0 <= j < i ==> vstd::pervasive::cloned(self.iter@[j], #[trigger] items@[j]),
            decreases self.iter@.len() - i,
        {
            items.push(self.iter[i].clone());
            i = i + 1;
        }
        FromIter { iter: items }
    }
}

} // verus!
