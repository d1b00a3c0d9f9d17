//! Creation functions: observables from collections, single values,
//! repetitions, `Result`s, `Option`s and functions.
use vstd::prelude::*;
use std::convert::Infallible;
use crate::observable::from_iter::FromIter;
use crate::observable::of::Of;
use crate::observable::{CoreObservable, ObservableType};
use crate::observer::{accept, delivers, lemma_delivered, lemma_emit_step, Notification, Observer};

verus! {

/// An observable producing the values of `iter`, then completing.  Never
/// emits an error.
pub fn from_iter<T>(iter: Vec<T>) -> (r: FromIter<T>)
    ensures
        r.items() == iter@,
{
    crate::observable::from_iter::from_iter(iter)
}

/// An observable producing a single value, then completing.
pub fn of<T>(v: T) -> (r: Of<T>)
    ensures
        r.0 == v,
{
    Of(v)
}

/// An observable producing `n` copies of `v`, then completing.
pub fn repeat<T: Clone>(v: T, n: usize) -> (r: FromIter<T>)
    ensures
        r.items().len() == n,
        forall|i: int| 0 <= i < n ==> vstd::pervasive::cloned(v, #[trigger] r.items()[i]),
{
    let mut items: Vec<T> = Vec::new();
    let mut i: usize = 0;
    while i < n
        invariant
            0 <= i <= n,
            items@.len() == i,
            forall|j: int| 0 <= j < i ==> vstd::pervasive::cloned(v, #[trigger] items@[j]),
        decreases n - i,
    {
        items.push(v.clone());
        i = i + 1;
    }
    from_iter(items)
}

/// An observable emitting the value of a `Result` and completing, or
/// emitting its error.
pub struct OfResult<T, E>(pub Result<T, E>);

/// An observable emitting the value of `r` then completing, or its error.
pub fn of_result<T, E>(r: Result<T, E>) -> (o: OfResult<T, E>)
    ensures
        o.0 == r,
{
    OfResult(r)
}

impl<T, E> ObservableType for OfResult<T, E> {
    type Item = T;
    type Error = E;
}

/// The notifications `of_result(r)` hands out.
pub open spec fn result_trace<T, E>(r: Result<T, E>) -> Seq<Notification<T, E>> {
    match r {
        Ok(v) => seq![Notification::Next(v), Notification::Complete],
        Err(e) => seq![Notification::Error(e)],
    }
}

impl<T, E, O> CoreObservable<O> for OfResult<T, E> where O: Observer<T, E> {
    type Unsub = ();

    /// Its subscription hands out the unit handle.
    open spec fn hands_out(&self, u: ()) -> bool {
        true
    }

    /// `Ok(v)`: the observer received `v` then completion; `Err(e)`: it
    /// received the error.
    open spec fn gives(&self, observer: O, r: ((), O)) -> bool {
        delivers(observer, r.1, result_trace(self.0))
    }

    /// `Ok(v)` is emitted as `v` then completion, `Err(e)` as the error.
    fn subscribe(self, observer: O) -> (r: ((), O)) where O: Observer<T, E> {
        let mut observer = observer;
        let ghost h0 = observer.history();
        let ghost s = result_trace(self.0);
        let ghost open = observer.always_open();
        let ghost c0 = observer.closed();
        proof {
            if open {
                observer.lemma_always_open();
            }
            assert(s.take(0) =~= Seq::<Notification<T, E>>::empty());
            lemma_emit_step(h0, s, 0, 0, c0, h0);
        }
        match self.0 {
            Ok(v) => {
                let ghost o0 = observer;
                observer.next(v);
                let ghost o1 = observer;
                let ghost k1: int = if c0 { 0 } else { 1 };
                let ghost c1 = observer.closed();
                proof {
                    if open {
                        observer.lemma_always_open();
                    }
                    lemma_emit_step(h0, s, k1, 1, c1, observer.history());
                }
                observer.complete();
                proof {
                    let k2: int = if c1 { k1 } else { k1 + 1 };
                    lemma_delivered(h0, observer.history(), s, k2, open);
                    observer.lemma_continues_trans(o1, o0);
                }
            },
            Err(e) => {
                observer.error(e);
                proof {
                    let k1: int = if c0 { 0 } else { 1 };
                    lemma_delivered(h0, observer.history(), s, k1, open);
                }
            },
        }
        ((), observer)
    }
}

/// An observable emitting the value of `o` if there is one, then
/// completing.  Never emits an error.
pub fn of_option<T>(o: Option<T>) -> (r: FromIter<T>)
    ensures
        r.items() == match o {
            Some(v) => seq![v],
            None => Seq::empty(),
        },
{
    let ghost og = o;
    let mut items: Vec<T> = Vec::new();
    if let Some(v) = o {
        items.push(v);
    }
    proof {
        match og {
            Some(w) => assert(items@ =~= seq![w]),
            None => assert(items@ =~= Seq::<T>::empty()),
        }
    }
    from_iter(items)
}

/// An observable emitting the value returned by `f`, then completing.
pub fn from_fn<F, T>(f: F) -> (r: Of<T>) where F: FnOnce() -> T
    requires
        call_requires(f, ()),
    ensures
        call_ensures(f, (), r.0),
{
    of(f())
}

} // verus!
