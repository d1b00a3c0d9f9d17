//! The `Subscription` trait: a handle that can cancel an ongoing stream.
use vstd::prelude::*;

verus! {

/// A handle on a running stream that can be cancelled.
pub trait Subscription {
    /// Whether the handle is closed (cancelled or already finished).
    spec fn sub_closed(&self) -> bool;

    /// Cancel the stream; afterwards the handle is closed.
    fn unsubscribe(&mut self)
        ensures
            final(self).sub_closed(),
    ;

    /// Report whether the handle is closed.
    fn is_closed(&self) -> (r: bool)
        ensures
            r == self.sub_closed(),
    ;
}

/// The unit subscription stands for a stream that finished synchronously:
/// it is always closed.
impl Subscription for () {
    open spec fn sub_closed(&self) -> bool {
        true
    }

    fn unsubscribe(&mut self) {
    }

    fn is_closed(&self) -> (r: bool) {
        true
    }
}

} // verus!
