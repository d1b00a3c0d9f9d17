//! The `Of` source: emits a single value and completes.
use vstd::prelude::*;
use std::convert::Infallible;
use crate::observable::{CoreObservable, ObservableType};
use crate::observer::{delivers, lemma_delivered, lemma_emit_step, Notification, Observer};
use crate::ops::Fork;

verus! {

/// Emits a single value and completes.
pub struct Of<T>(pub T);

impl<T> Of<T> {
    /// A source emitting `v`.
    pub fn new(v: T) -> (r: Self)
        ensures
            r.0 == v,
    {
        Of(v)
    }
}

impl<T> ObservableType for Of<T> {
    type Item = T;
    type Error = Infallible;
}

/// The notifications `Of(v)` hands out.
pub open spec fn of_trace<T>(v: T) -> Seq<Notification<T, Infallible>> {
    seq![Notification::Next(v), Notification::Complete]
}

impl<T, O> CoreObservable<O> for Of<T> where O: Observer<T, Infallible> {
    type Unsub = ();

    /// Its subscription hands out the unit handle.
    open spec fn hands_out(&self, u: ()) -> bool {
        true
    }

    /// The observer received the value, then completion.
    open spec fn gives(&self, observer: O, r: ((), O)) -> bool {
        delivers(observer, r.1, of_trace(self.0))
    }

    /// The value is emitted, then completion.
    fn subscribe(self, observer: O) -> (r: ((), O)) where O: Observer<T, Infallible> {
        let mut observer = observer;
        let ghost h0 = observer.history();
        let ghost s = of_trace(self.0);
        let ghost open = observer.always_open();
        let ghost c0 = observer.closed();
        proof {
            if open {
                observer.lemma_always_open();
            }
            assert(s.take(0) =~= Seq::<Notification<T, Infallible>>::empty());
            lemma_emit_step(h0, s, 0, 0, c0, h0);
        }
        let ghost o0 = observer;
        observer.next(self.0);
        let ghost o1 = observer;
        let ghost k1: int = if c0 { 0 } else { 1 };
        let ghost c1 = observer.closed();
        let ghost h1 = observer.history();
        proof {
            if open {
                observer.lemma_always_open();
            }
            lemma_emit_step(h0, s, k1, 1, c1, h1);
        }
        observer.complete();
        proof {
            let k2: int = if c1 { k1 } else { k1 + 1 };
            lemma_delivered(h0, observer.history(), s, k2, open);
            observer.lemma_continues_trans(o1, o0);
        }
        ((), observer)
    }
}

impl<T: Clone> Fork for Of<T> {
    type Output = Of<T>;

    /// The copy emits a clone of the value.
    open spec fn forked(&self, copy: Of<T>) -> bool {
        vstd::pervasive::cloned(self.0, copy.0)
    }

    fn fork(&self) -> (r: Of<T>) {
        Of(self.0.clone())
    }
}

} // verus!
