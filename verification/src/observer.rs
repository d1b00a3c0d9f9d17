//! Observer trait and implementations.
//!
//! An observer receives values (`next`), an error (`error`) or the completion
//! of a stream (`complete`).  Every observer exposes, as a specification, the
//! notifications it has accepted so far (`history`), whether it is closed
//! (`closed`: a closed observer ignores further notifications) and whether its
//! callbacks may be invoked (`ready`).
use vstd::prelude::*;
use std::convert::Infallible;

verus! {

/// One notification of the reactive protocol.
pub enum Notification<Item, E> {
    Next(Item),
    Error(E),
    Complete,
}

/// Whether a notification ends a stream.
pub open spec fn is_terminal<Item, E>(n: Notification<Item, E>) -> bool {
    n is Error || n is Complete
}

/// What an observer's history becomes when it is handed `n`: a closed
/// observer ignores it, an open one accepts it.
pub open spec fn accept<Item, E>(
    closed: bool,
    history: Seq<Notification<Item, E>>,
    n: Notification<Item, E>,
) -> Seq<Notification<Item, E>> {
    if closed {
        history
    } else {
        history.push(n)
    }
}

/// `after` is `before` followed by the notifications of `s` handed out in
/// order: all of them when the observer stays open, otherwise a prefix of
/// them (the observer closed and ignored the rest).
pub open spec fn delivered<Item, E>(
    before: Seq<Notification<Item, E>>,
    after: Seq<Notification<Item, E>>,
    s: Seq<Notification<Item, E>>,
    open: bool,
) -> bool {
    if open {
        after == before + s
    } else {
        exists|k: int| 0 <= k <= s.len() && after == before + s.take(k)
    }
}

/// `after` is the observer `before` once handed, in order, the
/// notifications of `s`: all of them when it never closes or is still open
/// afterwards, otherwise a prefix of them (it closed and ignored the rest).
pub open spec fn delivers<Item, E, O: Observer<Item, E>>(
    before: O,
    after: O,
    s: Seq<Notification<Item, E>>,
) -> bool {
    &&& delivered(before.history(), after.history(), s, before.always_open())
    &&& !after.closed() ==> after.history() == before.history() + s
}

/// A sequence of notifications respects the protocol: nothing follows a
/// terminal notification.
pub open spec fn well_formed_trace<Item, E>(s: Seq<Notification<Item, E>>) -> bool {
    forall|i: int| 0 <= i < s.len() - 1 ==> !is_terminal(#[trigger] s[i])
}

/// The values carried by a sequence of items, as `Next` notifications.
pub open spec fn nexts<Item, E>(items: Seq<Item>) -> Seq<Notification<Item, E>> {
    items.map_values(|v: Item| Notification::Next(v))
}

/// Handing the `i`-th notification of `s` to an observer whose history is
/// `h0` followed by the first `k` notifications of `s` (fewer than `i` only
/// if it is closed) extends its history the same way.
pub proof fn lemma_emit_step<Item, E>(
    h0: Seq<Notification<Item, E>>,
    s: Seq<Notification<Item, E>>,
    k: int,
    i: int,
    closed: bool,
    h: Seq<Notification<Item, E>>,
)
    requires
        0 <= k <= i < s.len(),
        h == h0 + s.take(k),
        k < i ==> closed,
    ensures
        accept(closed, h, s[i]) == h0 + s.take(if closed { k } else { k + 1 }),
{
    if !closed {
        assert(s.take(k + 1) =~= s.take(k).push(s[k]));
        assert(h0 + s.take(k + 1) =~= (h0 + s.take(k)).push(s[k]));
    }
}

/// A history that is `h0` followed by the first `k` notifications of `s`,
/// all of them when the observer is open, is a delivery of `s`; what was
/// appended respects the protocol when `s` does.
pub proof fn lemma_delivered<Item, E>(
    h0: Seq<Notification<Item, E>>,
    h: Seq<Notification<Item, E>>,
    s: Seq<Notification<Item, E>>,
    k: int,
    open: bool,
)
    requires
        0 <= k <= s.len(),
        h == h0 + s.take(k),
        open ==> k == s.len(),
        well_formed_trace(s),
    ensures
        delivered(h0, h, s, open),
        k == s.len() ==> h == h0 + s,
        h0.is_prefix_of(h),
        h.subrange(h0.len() as int, h.len() as int) == s.take(k),
        well_formed_trace(h.subrange(h0.len() as int, h.len() as int)),
{
    assert(h.subrange(h0.len() as int, h.len() as int) =~= s.take(k));
    if k == s.len() {
        assert(s.take(k) =~= s);
    }
    assert(h0.is_prefix_of(h)) by {
        assert forall|i: int| 0 <= i < h0.len() implies h0[i] == h[i] by {}
    }
}

/// Observer trait: the consumer of data in reactive programming.
pub trait Observer<Item, E>: Sized {
    /// The notifications this observer has accepted, oldest first.
    spec fn history(&self) -> Seq<Notification<Item, E>>;

    /// The observer's callbacks may be invoked with any argument.
    spec fn ready(&self) -> bool;

    /// The observer is closed and ignores further notifications.
    spec fn closed(&self) -> bool;

    /// The observer never closes.
    spec fn always_open(&self) -> bool;

    /// An observer that never closes is not closed.
    proof fn lemma_always_open(&self)
        ensures
            self.always_open() ==> !self.closed(),
    ;

    /// `self` is `earlier` carried forward by notifications: the same
    /// observer at a later point.
    spec fn continues(&self, earlier: Self) -> bool;

    /// An observer continues itself.
    proof fn lemma_continues_refl(&self)
        ensures
            self.continues(*self),
    ;

    /// Carrying an observer forward twice carries it forward.
    proof fn lemma_continues_trans(&self, mid: Self, earlier: Self)
        requires
            mid.continues(earlier),
            self.continues(mid),
        ensures
            self.continues(earlier),
    ;

    /// Receive the next value.
    fn next(&mut self, value: Item)
        requires
            old(self).ready(),
        ensures
            final(self).ready(),
            final(self).continues(*old(self)),
            old(self).always_open() ==> final(self).always_open(),
            old(self).closed() ==> final(self).closed(),
            final(self).history() == accept(
                old(self).closed(),
                old(self).history(),
                Notification::Next(value),
            ),
    ;

    /// Receive an error: the stream ends.
    fn error(&mut self, err: E)
        requires
            old(self).ready(),
        ensures
            final(self).ready(),
            final(self).continues(*old(self)),
            old(self).always_open() ==> final(self).always_open(),
            old(self).closed() ==> final(self).closed(),
            final(self).history() == accept(
                old(self).closed(),
                old(self).history(),
                Notification::Error(err),
            ),
    ;

    /// Receive the completion of the stream.
    fn complete(&mut self)
        requires
            old(self).ready(),
        ensures
            final(self).ready(),
            final(self).continues(*old(self)),
            old(self).always_open() ==> final(self).always_open(),
            old(self).closed() ==> final(self).closed(),
            final(self).history() == accept(
                old(self).closed(),
                old(self).history(),
                Notification::Complete,
            ),
    ;

    /// `r` is what `is_closed` answers for this observer.
    spec fn closed_report(&self, r: bool) -> bool;

    /// Whether the observer is closed and will not accept more values: when
    /// it says so, it ignores whatever it is handed.
    fn is_closed(&self) -> (r: bool)
        ensures
            self.closed_report(r),
            r ==> self.closed(),
    ;
}

/// A facade for emitting notifications through a mutable reference.
///
/// `calls` is the sequence of notifications handed to the emitter.
pub trait Emitter<Item, E>: Sized {
    /// The notifications handed to this emitter, oldest first.
    spec fn calls(&self) -> Seq<Notification<Item, E>>;

    /// The emitter may be used.
    spec fn ready(&self) -> bool;

    fn next(&mut self, value: Item)
        requires
            old(self).ready(),
        ensures
            final(self).ready(),
            final(self).calls() == old(self).calls().push(Notification::Next(value)),
    ;

    fn error(&mut self, err: E)
        requires
            old(self).ready(),
        ensures
            final(self).ready(),
            final(self).calls() == old(self).calls().push(Notification::Error(err)),
    ;

    fn complete(&mut self)
        requires
            old(self).ready(),
        ensures
            final(self).ready(),
            final(self).calls() == old(self).calls().push(Notification::Complete),
    ;
}

/// An object-safe view of an observer, with one method per notification.
pub trait DynObserver<Item, E>: Sized {
    spec fn dyn_history(&self) -> Seq<Notification<Item, E>>;

    spec fn dyn_ready(&self) -> bool;

    spec fn dyn_closed(&self) -> bool;

    fn box_next(&mut self, value: Item)
        requires
            old(self).dyn_ready(),
        ensures
            final(self).dyn_ready(),
            final(self).dyn_history() == accept(
                old(self).dyn_closed(),
                old(self).dyn_history(),
                Notification::Next(value),
            ),
    ;

    fn box_error(&mut self, err: E)
        requires
            old(self).dyn_ready(),
        ensures
            final(self).dyn_ready(),
            final(self).dyn_history() == accept(
                old(self).dyn_closed(),
                old(self).dyn_history(),
                Notification::Error(err),
            ),
    ;

    fn box_complete(&mut self)
        requires
            old(self).dyn_ready(),
        ensures
            final(self).dyn_ready(),
            final(self).dyn_history() == accept(
                old(self).dyn_closed(),
                old(self).dyn_history(),
                Notification::Complete,
            ),
    ;

    /// `r` is what `box_is_closed` answers for this observer.
    spec fn dyn_closed_report(&self, r: bool) -> bool;

    fn box_is_closed(&self) -> (r: bool)
        ensures
            self.dyn_closed_report(r),
            r ==> self.dyn_closed(),
    ;
}

impl<T, Item, E> DynObserver<Item, E> for T where T: Observer<Item, E> {
    open spec fn dyn_history(&self) -> Seq<Notification<Item, E>> {
        self.history()
    }

    open spec fn dyn_ready(&self) -> bool {
        self.ready()
    }

    open spec fn dyn_closed(&self) -> bool {
        self.closed()
    }

    open spec fn dyn_closed_report(&self, r: bool) -> bool {
        self.closed_report(r)
    }

    fn box_next(&mut self, value: Item) {
        self.next(value);
    }

    fn box_error(&mut self, err: E) {
        self.error(err);
    }

    fn box_complete(&mut self) {
        self.complete();
    }

    fn box_is_closed(&self) -> (r: bool) {
        self.is_closed()
    }
}

/// Conversion of an observer into the boxed form a subject stores.
pub trait IntoBoxedObserver<O>: Sized {
    spec fn boxed_from(self, o: O) -> bool;

    fn into_boxed(self) -> (r: O)
        ensures
            self.boxed_from(r),
    ;
}

impl<O> IntoBoxedObserver<Box<O>> for O {
    open spec fn boxed_from(self, o: Box<O>) -> bool {
        *o == self
    }

    fn into_boxed(self) -> (r: Box<O>) {
        Box::new(self)
    }
}

/// Closure adapter: the closure becomes the `next` handler, while `error`
/// (which cannot happen: the error type is `Infallible`) and `complete` are
/// ignored.  It never closes.
pub struct FnMutObserver<F, Item> {
    func: F,
    history: Ghost<Seq<Notification<Item, Infallible>>>,
}

impl<F, Item> FnMutObserver<F, Item> where F: FnMut(Item) {
    /// The closure called with every value.
    pub closed spec fn handler(&self) -> F {
        self.func
    }

    /// Wrap a closure; nothing has been received yet.
    pub fn new(func: F) -> (r: Self)
        requires
            forall|v: Item| call_requires(func, (v,)),
        ensures
            r.history() == Seq::<Notification<Item, Infallible>>::empty(),
            r.handler() == func,
            r.ready(),
            r.always_open(),
    {
        FnMutObserver { func, history: Ghost(Seq::empty()) }
    }
}

impl<F, Item> Observer<Item, Infallible> for FnMutObserver<F, Item> where F: FnMut(Item) {
    closed spec fn history(&self) -> Seq<Notification<Item, Infallible>> {
        self.history@
    }

    closed spec fn ready(&self) -> bool {
        forall|v: Item| call_requires(self.func, (v,))
    }

    open spec fn closed(&self) -> bool {
        false
    }

    open spec fn always_open(&self) -> bool {
        true
    }

    proof fn lemma_always_open(&self) {
    }

    open spec fn continues(&self, earlier: Self) -> bool {
        true
    }

    proof fn lemma_continues_refl(&self) {
    }

    proof fn lemma_continues_trans(&self, mid: Self, earlier: Self) {
    }

    /// The closure is called with the value.
    fn next(&mut self, value: Item)
        ensures
            call_ensures(old(self).handler(), (value,), ()),
            final(self).handler() == old(self).handler(),
    {
        (self.func)(value);
        proof {
            self.history@ = self.history@.push(Notification::Next(value));
        }
    }

    fn error(&mut self, err: Infallible) {
        proof {
            self.history@ = self.history@.push(Notification::Error(err));
        }
    }

    fn complete(&mut self) {
        proof {
            self.history@ = self.history@.push(Notification::Complete);
        }
    }

    open spec fn closed_report(&self, r: bool) -> bool {
        !r
    }

    fn is_closed(&self) -> (r: bool) {
        false
    }
}

/// An optional observer: `None` ignores everything (it is closed), `Some`
/// delegates to the inner observer.
impl<O, Item, E> Observer<Item, E> for Option<O> where O: Observer<Item, E> {
    open spec fn history(&self) -> Seq<Notification<Item, E>> {
        match self {
            Some(o) => o.history(),
            None => Seq::empty(),
        }
    }

    open spec fn ready(&self) -> bool {
        match self {
            Some(o) => o.ready(),
            None => true,
        }
    }

    open spec fn closed(&self) -> bool {
        match self {
            Some(o) => o.closed(),
            None => true,
        }
    }

    open spec fn always_open(&self) -> bool {
        match self {
            Some(o) => o.always_open(),
            None => false,
        }
    }

    proof fn lemma_always_open(&self) {
        match self {
            Some(o) => o.lemma_always_open(),
            None => {},
        }
    }

    open spec fn continues(&self, earlier: Self) -> bool {
        match (self, earlier) {
            (Some(o), Some(e)) => o.continues(e),
            (None, None) => true,
            _ => false,
        }
    }

    proof fn lemma_continues_refl(&self) {
        match self {
            Some(o) => o.lemma_continues_refl(),
            None => {},
        }
    }

    proof fn lemma_continues_trans(&self, mid: Self, earlier: Self) {
        match (self, mid, earlier) {
            (Some(o), Some(m), Some(e)) => o.lemma_continues_trans(m, e),
            _ => {},
        }
    }

    fn next(&mut self, value: Item) {
        if let Some(inner) = self {
            inner.next(value);
        }
    }

    fn error(&mut self, err: E) {
        if let Some(inner) = self {
            inner.error(err);
        }
    }

    fn complete(&mut self) {
        if let Some(inner) = self {
            inner.complete();
        }
    }

    open spec fn closed_report(&self, r: bool) -> bool {
        match self {
            Some(o) => o.closed_report(r),
            None => r,
        }
    }

    fn is_closed(&self) -> (r: bool) {
        match self {
            Some(inner) => inner.is_closed(),
            None => true,
        }
    }
}

} // verus!
