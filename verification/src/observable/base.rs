//! Observables built on an emitting strategy.
use vstd::prelude::*;
use crate::observable::{CoreObservable, ObservableType};
use crate::observer::{well_formed_trace, Observer};

verus! {

/// A strategy that emits a stream into any observer of its types.
pub trait LocalEmitter<O>: ObservableType + Sized {
    /// What the emission returns to cancel it.
    type Unsub;

    /// `u` is a handle that the emission may return.
    spec fn emits(&self, u: Self::Unsub) -> bool;

    /// Emit the stream into `observer`, which is handed back; what it
    /// received respects the protocol.
    fn emit(self, observer: O) -> (r: (Self::Unsub, O)) where O: Observer<Self::Item, Self::Error>
        requires
            observer.ready(),
        ensures
            self.emits(r.0),
            r.1.ready(),
            r.1.continues(observer),
            observer.closed() ==> r.1.closed(),
            observer.always_open() ==> r.1.always_open(),
            observer.history().is_prefix_of(r.1.history()),
            well_formed_trace(
                r.1.history().subrange(observer.history().len() as int, r.1.history().len() as int),
            ),
            observer.closed() ==> r.1.history() == observer.history(),
    ;
}

/// An observable whose subscription runs an emitting strategy.
pub struct ObservableBase<Emit>(pub Emit);

impl<Emit> ObservableBase<Emit> {
    /// The observable running `emitter`.
    pub fn new(emitter: Emit) -> (r: Self)
        ensures
            r.0 == emitter,
    {
        ObservableBase(emitter)
    }
}

impl<Emit: ObservableType> ObservableType for ObservableBase<Emit> {
    type Item = Emit::Item;
    type Error = Emit::Error;
}

impl<Emit, O> CoreObservable<O> for ObservableBase<Emit> where Emit: LocalEmitter<O> {
    type Unsub = Emit::Unsub;

    /// The handle is one the strategy's emission returns.
    open spec fn hands_out(&self, u: Emit::Unsub) -> bool {
        self.0.emits(u)
    }

    /// The strategy emits into the observer.
    fn subscribe(self, observer: O) -> (r: (Self::Unsub, O)) where O: Observer<Emit::Item, Emit::Error> {
        self.0.emit(observer)
    }
}

} // verus!
