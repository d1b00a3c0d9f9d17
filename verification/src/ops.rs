//! Operators: observables built on another observable, with the observer
//! wrappers that carry out their logic.
//!
//! A wrapper observer forwards to the observer it wraps (its `inner`
//! observer) and stops forwarding once it has forwarded a terminal
//! notification.  Its invariant, part of its `ready`, is that what the inner
//! observer accepted since it was wrapped respects the protocol.
use vstd::prelude::*;
use crate::observable::{CoreObservable, ObservableType};
use crate::observer::{accept, is_terminal, well_formed_trace, Notification, Observer};
use crate::scheduled_ops::{Delay, DelayOn, ObserveOn};
use crate::scheduler::Duration;
use crate::subscription::Subscription;

verus! {

/// `inner` is `start` carried forward, and what it accepted since then
/// respects the protocol; it holds no terminal notification unless `done`.
pub open spec fn forwarding<Item, E, O: Observer<Item, E>>(start: O, inner: O, done: bool) -> bool {
    let base = start.history();
    let now = inner.history();
    &&& inner.continues(start)
    &&& base.is_prefix_of(now)
    &&& well_formed_trace(now.subrange(base.len() as int, now.len() as int))
    &&& (!done ==> forall|i: int| base.len() <= i < now.len() ==> !is_terminal(#[trigger] now[i]))
    &&& (start.closed() ==> inner.closed() && now == base)
    &&& (start.always_open() ==> inner.always_open())
}

/// What a wrapper promises of its inner observer once the stream is over:
/// the inner observer is `start` carried forward and kept its guarantees,
/// and what it accepted respects the protocol.
pub open spec fn forwarded<Item, E, O: Observer<Item, E>>(start: O, inner: O) -> bool {
    let base = start.history();
    let now = inner.history();
    &&& inner.continues(start)
    &&& inner.ready()
    &&& (start.closed() ==> inner.closed())
    &&& (start.always_open() ==> inner.always_open())
    &&& base.is_prefix_of(now)
    &&& well_formed_trace(now.subrange(base.len() as int, now.len() as int))
    &&& (start.closed() ==> now == base)
}

/// A freshly wrapped observer forwards correctly.
pub proof fn lemma_forwarding_start<Item, E, O: Observer<Item, E>>(inner: O)
    ensures
        forwarding(inner, inner, false),
{
    inner.lemma_continues_refl();
    let now = inner.history();
    assert(now.is_prefix_of(now));
    assert(now.subrange(now.len() as int, now.len() as int) =~= Seq::<Notification<Item, E>>::empty());
}

/// Forwarding one more notification `n` keeps the invariant; afterwards it
/// holds with `done` exactly when `n` is terminal.
pub proof fn lemma_forwarding_step<Item, E, O: Observer<Item, E>>(
    start: O,
    before: O,
    after: O,
    n: Notification<Item, E>,
)
    requires
        forwarding(start, before, false),
        after.continues(before),
        after.history() == accept(before.closed(), before.history(), n),
        before.closed() ==> after.closed(),
        before.always_open() ==> after.always_open(),
    ensures
        forwarding(start, after, is_terminal(n)),
{
    after.lemma_continues_trans(before, start);
    let base = start.history();
    let h = before.history();
    let h2 = after.history();
    if !before.closed() {
        assert(h2 == h.push(n));
        assert(base.is_prefix_of(h2)) by {
            assert forall|i: int| 0 <= i < base.len() implies base[i] == h2[i] by {
                assert(h2[i] == h[i]);
            }
        }
        let t = h.subrange(base.len() as int, h.len() as int);
        let t2 = h2.subrange(base.len() as int, h2.len() as int);
        assert(t2 =~= t.push(n));
        assert forall|i: int| 0 <= i < t2.len() - 1 implies !is_terminal(#[trigger] t2[i]) by {
            assert(t2[i] == h[base.len() + i]);
        }
        assert forall|i: int| base.len() <= i < h2.len() && !is_terminal(n) implies !is_terminal(
            #[trigger] h2[i],
        ) by {
            if i < h.len() {
                assert(h2[i] == h[i]);
            }
        }
    }
}

/// `b` is the notification `a` once mapped by `f`: a value becomes one that
/// `f` returns for it; an error or the completion stays as it is.
pub open spec fn maps_to<In, Out, E, F: FnMut(In) -> Out>(
    f: F,
    a: Notification<In, E>,
    b: Notification<Out, E>,
) -> bool {
    match a {
        Notification::Next(v) => b matches Notification::Next(m) && call_ensures(f, (v,), m),
        Notification::Error(e) => b == Notification::<Out, E>::Error(e),
        Notification::Complete => b == Notification::<Out, E>::Complete,
    }
}

/// `outs` is `ins` mapped by `f`, one notification for one.
pub open spec fn mapped_trace<In, Out, E, F: FnMut(In) -> Out>(
    f: F,
    ins: Seq<Notification<In, E>>,
    outs: Seq<Notification<Out, E>>,
) -> bool {
    &&& ins.len() == outs.len()
    &&& forall|k: int| 0 <= k < ins.len() ==> #[trigger] maps_to(f, ins[k], outs[k])
}

/// `h` without its errors: what the observer of `on_error` receives when
/// its wrapper received `h`, the error going to the callback instead.
pub open spec fn without_errors<Item, E>(h: Seq<Notification<Item, E>>) -> Seq<Notification<Item, E>>
    decreases h.len(),
{
    if h.len() == 0 {
        h
    } else if h.last() is Error {
        without_errors(h.drop_last())
    } else {
        without_errors(h.drop_last()).push(h.last())
    }
}

/// Appending a notification to a history, with its errors removed.
proof fn lemma_without_errors_push<Item, E>(h: Seq<Notification<Item, E>>, n: Notification<Item, E>)
    ensures
        without_errors(h.push(n)) == if n is Error {
            without_errors(h)
        } else {
            without_errors(h).push(n)
        },
{
    assert(h.push(n).drop_last() =~= h);
}

/// The wrapper of `map`: each value is handed to the inner observer
/// transformed by the function; errors and completion are forwarded.
pub struct MapObserver<O, F, In, E> {
    observer: O,
    func: F,
    done: bool,
    start: Ghost<O>,
    history: Ghost<Seq<Notification<In, E>>>,
}

impl<O, F, In, E> MapObserver<O, F, In, E> {
    /// The wrapper `new` makes of `observer` and `func`.
    pub closed spec fn initial(observer: O, func: F) -> Self {
        MapObserver {
            start: Ghost(observer),
            observer,
            func,
            done: false,
            history: Ghost(Seq::empty()),
        }
    }
}

impl<O, F, In, Out, E> MapObserver<O, F, In, E> where
    O: Observer<Out, E>,
    F: FnMut(In) -> Out,
 {
    /// The observer the values are handed to.
    pub closed spec fn inner(&self) -> O {
        self.observer
    }

    /// The transforming function.
    pub closed spec fn func(&self) -> F {
        self.func
    }

    /// The inner observer when it was wrapped.
    pub closed spec fn start(&self) -> O {
        self.start@
    }

    /// Once the stream is over, the inner observer kept its guarantees, and
    /// what it accepted since it was wrapped is what the wrapper accepted,
    /// mapped by the function.
    pub proof fn lemma_forwarded(&self)
        requires
            self.ready(),
        ensures
            forwarded(self.start(), self.inner()),
            mapped_trace(
                self.func(),
                self.history(),
                self.inner().history().subrange(
                    self.start().history().len() as int,
                    self.inner().history().len() as int,
                ),
            ),
    {
    }

    /// Wrap `observer`; nothing has been received yet.
    pub fn new(observer: O, func: F) -> (r: Self)
        requires
            observer.ready(),
            forall|v: In| call_requires(func, (v,)),
        ensures
            r == Self::initial(observer, func),
            r.ready(),
            r.inner() == observer,
            r.start() == observer,
            r.func() == func,
            r.history() == Seq::<Notification<In, E>>::empty(),
            r.closed() == observer.closed(),
    {
        proof {
            lemma_forwarding_start(observer);
        }
        MapObserver {
            start: Ghost(observer),
            observer,
            func,
            done: false,
            history: Ghost(Seq::empty()),
        }
    }

    /// Unwrap the inner observer.
    pub fn into_inner(self) -> (r: O)
        ensures
            r == self.inner(),
    {
        self.observer
    }
}

impl<O, F, In, Out, E> Observer<In, E> for MapObserver<O, F, In, E> where
    O: Observer<Out, E>,
    F: FnMut(In) -> Out,
 {
    closed spec fn history(&self) -> Seq<Notification<In, E>> {
        self.history@
    }

    closed spec fn ready(&self) -> bool {
        &&& self.observer.ready()
        &&& forall|v: In| call_requires(self.func, (v,))
        &&& forwarding(self.start@, self.observer, self.done)
        &&& mapped_trace(
            self.func,
            self.history@,
            self.observer.history().subrange(
                self.start@.history().len() as int,
                self.observer.history().len() as int,
            ),
        )
    }

    closed spec fn closed(&self) -> bool {
        self.done || self.observer.closed()
    }

    open spec fn always_open(&self) -> bool {
        false
    }

    proof fn lemma_always_open(&self) {
    }

    closed spec fn continues(&self, earlier: Self) -> bool {
        self.start == earlier.start && self.func == earlier.func
    }

    proof fn lemma_continues_refl(&self) {
    }

    proof fn lemma_continues_trans(&self, mid: Self, earlier: Self) {
    }

    /// Unless closed, the inner observer is handed the value transformed.
    fn next(&mut self, value: In)
        ensures
            !old(self).closed() ==> exists|m: Out|
                #[trigger] call_ensures(old(self).func(), (value,), m) && final(self).inner().history()
                    == old(self).inner().history().push(Notification::Next(m)),
            old(self).closed() ==> final(self).inner().history() == old(self).inner().history(),
    {
        let ghost old_closed = self.done || self.observer.closed();
        if !self.done {
            let ghost f0 = self.func;
            let m = (self.func)(value);
            let ghost before = self.observer;
            self.observer.next(m);
            proof {
                lemma_forwarding_step(self.start@, before, self.observer, Notification::Next(m));
                assert(call_ensures(f0, (value,), m));
                if !old_closed {
                    assert(self.observer.history() == before.history().push(Notification::Next(m)));
                    assert(f0 == old(self).func());
                    assert(before == old(self).inner());
                    let base = self.start@.history().len() as int;
                    assert(self.observer.history().subrange(base, self.observer.history().len() as int)
                        =~= before.history().subrange(base, before.history().len() as int).push(
                        Notification::Next(m),
                    ));
                    assert(maps_to(self.func, Notification::<In, E>::Next(value), Notification::<Out, E>::Next(m)));
                }
            }
        }
        proof {
            self.history@ = accept(old_closed, self.history@, Notification::Next(value));
        }
    }

    /// Unless closed, the error is forwarded; the wrapper is then done.
    fn error(&mut self, err: E)
        ensures
            final(self).inner().history() == accept(
                old(self).closed(),
                old(self).inner().history(),
                Notification::Error(err),
            ),
    {
        let ghost old_closed = self.done || self.observer.closed();
        if !self.done {
            let ghost before = self.observer;
            self.observer.error(err);
            self.done = true;
            proof {
                lemma_forwarding_step(self.start@, before, self.observer, Notification::Error(err));
                let base = self.start@.history().len() as int;
                if !old_closed {
                    assert(self.observer.history().subrange(base, self.observer.history().len() as int)
                        =~= before.history().subrange(base, before.history().len() as int).push(
                        Notification::Error(err),
                    ));
                }
            }
        }
        proof {
            self.history@ = accept(old_closed, self.history@, Notification::Error(err));
        }
    }

    /// Unless closed, the completion is forwarded; the wrapper is then done.
    fn complete(&mut self)
        ensures
            final(self).inner().history() == accept(
                old(self).closed(),
                old(self).inner().history(),
                Notification::Complete,
            ),
    {
        let ghost old_closed = self.done || self.observer.closed();
        if !self.done {
            let ghost before = self.observer;
            self.observer.complete();
            self.done = true;
            proof {
                lemma_forwarding_step(self.start@, before, self.observer, Notification::Complete);
                let base = self.start@.history().len() as int;
                if !old_closed {
                    assert(self.observer.history().subrange(base, self.observer.history().len() as int)
                        =~= before.history().subrange(base, before.history().len() as int).push(
                        Notification::Complete,
                    ));
                }
            }
        }
        proof {
            self.history@ = accept(old_closed, self.history@, Notification::Complete);
        }
    }

    /// Once done it answers closed; before, what the inner observer answers.
    closed spec fn closed_report(&self, r: bool) -> bool {
        if self.done {
            r
        } else {
            self.observer.closed_report(r)
        }
    }

    fn is_closed(&self) -> (r: bool) {
        self.done || self.observer.is_closed()
    }
}

/// The `map` operator: the values of `source` transformed by `func`.
#[verifier::reject_recursive_types(Out)]
pub struct MapOp<S, F, Out> where S: ObservableType, F: FnMut(S::Item) -> Out {
    source: S,
    func: F,
}

impl<S, F, Out> MapOp<S, F, Out> where S: ObservableType, F: FnMut(S::Item) -> Out {
    #[verifier::type_invariant]
    spec fn callable(self) -> bool {
        forall|v: S::Item| call_requires(self.func, (v,))
    }

    /// The observable transformed.
    pub closed spec fn source(&self) -> S {
        self.source
    }

    /// The transforming function.
    pub closed spec fn func(&self) -> F {
        self.func
    }

    /// `source` with its values transformed by `func`.
    pub fn new(source: S, func: F) -> (r: Self)
        requires
            forall|v: S::Item| call_requires(func, (v,)),
        ensures
            r.source() == source,
            r.func() == func,
    {
        MapOp { source, func }
    }
}

impl<S, F, Out> ObservableType for MapOp<S, F, Out> where S: ObservableType, F: FnMut(S::Item) -> Out {
    type Item = Out;
    type Error = S::Error;
}

impl<S, F, Out, O> CoreObservable<O> for MapOp<S, F, Out> where
    S: ObservableType,
    F: FnMut(S::Item) -> Out,
    S: CoreObservable<MapObserver<O, F, <S as ObservableType>::Item, <S as ObservableType>::Error>>,
    O: Observer<Out, <S as ObservableType>::Error>,
 {
    type Unsub = <S as CoreObservable<MapObserver<O, F, <S as ObservableType>::Item, <S as ObservableType>::Error>>>::Unsub;

    /// The handle is one the source hands out.
    closed spec fn hands_out(&self, u: Self::Unsub) -> bool {
        <S as CoreObservable<MapObserver<O, F, <S as ObservableType>::Item, <S as ObservableType>::Error>>>::hands_out(&self.source, u)
    }

    /// The source was subscribed with the observer wrapped; the wrapper got
    /// what the source's subscription gives, and the observer received what
    /// the wrapper received, mapped by the function.
    open spec fn gives(&self, observer: O, r: (Self::Unsub, O)) -> bool {
        exists|w: MapObserver<O, F, <S as ObservableType>::Item, <S as ObservableType>::Error>|
            #[trigger] <S as CoreObservable<MapObserver<O, F, <S as ObservableType>::Item, <S as ObservableType>::Error>>>::gives(
                &self.source(),
                MapObserver::initial(observer, self.func()),
                (r.0, w),
            ) && w.inner() == r.1 && mapped_trace(
                self.func(),
                w.history(),
                r.1.history().subrange(observer.history().len() as int, r.1.history().len() as int),
            )
    }

    /// The source is subscribed with the observer wrapped; the observer is
    /// handed back unwrapped.
    fn subscribe(self, observer: O) -> (r: (Self::Unsub, O)) where O: Observer<Out, S::Error> {
        proof {
            use_type_invariant(&self);
        }
        let ghost func0 = self.func;
        let ghost source0 = self.source;
        let MapOp { source, func } = self;
        let wrapped = MapObserver::new(observer, func);
        let ghost w0 = wrapped;
        let (u, wrapped) = CoreObservable::subscribe(source, wrapped);
        proof {
            wrapped.lemma_forwarded();
            assert(wrapped.start() == w0.start());
            assert(wrapped.func() == func0);
            assert(source0 == self.source());
            assert(func0 == self.func());
            assert(w0 == MapObserver::<O, F, <S as ObservableType>::Item, <S as ObservableType>::Error>::initial(observer, self.func()));
            assert(<S as CoreObservable<MapObserver<O, F, <S as ObservableType>::Item, <S as ObservableType>::Error>>>::gives(
                &self.source(),
                MapObserver::initial(observer, self.func()),
                (u, wrapped),
            ));
        }
        (u, wrapped.into_inner())
    }
}

/// The wrapper of `on_error`: values and completion are forwarded; the error
/// is handed to the callback instead of the inner observer.
pub struct OnErrorObserver<O, F, Item, E> {
    observer: O,
    callback: Option<F>,
    done: bool,
    start: Ghost<O>,
    history: Ghost<Seq<Notification<Item, E>>>,
}

impl<O, F, Item, E> OnErrorObserver<O, F, Item, E> {
    /// The wrapper `new` makes of `observer` and `callback`.
    pub closed spec fn initial(observer: O, callback: F) -> Self {
        OnErrorObserver {
            start: Ghost(observer),
            observer,
            callback: Some(callback),
            done: false,
            history: Ghost(Seq::empty()),
        }
    }
}

impl<O, F, Item, E> OnErrorObserver<O, F, Item, E> where O: Observer<Item, E>, F: FnOnce(E) {
    /// The observer the values are handed to.
    pub closed spec fn inner(&self) -> O {
        self.observer
    }

    /// The callback, until it has been called.
    pub closed spec fn callback(&self) -> Option<F> {
        self.callback
    }

    /// The inner observer when it was wrapped.
    pub closed spec fn start(&self) -> O {
        self.start@
    }

    /// Wrap `observer`; nothing has been received yet.
    pub fn new(observer: O, callback: F) -> (r: Self)
        requires
            observer.ready(),
            forall|e: E| call_requires(callback, (e,)),
        ensures
            r == Self::initial(observer, callback),
            r.ready(),
            r.inner() == observer,
            r.start() == observer,
            r.callback() == Some(callback),
            r.history() == Seq::<Notification<Item, E>>::empty(),
            r.closed() == observer.closed(),
    {
        proof {
            lemma_forwarding_start(observer);
            assert(observer.history() + without_errors(Seq::<Notification<Item, E>>::empty())
                =~= observer.history());
        }
        OnErrorObserver {
            start: Ghost(observer),
            observer,
            callback: Some(callback),
            done: false,
            history: Ghost(Seq::empty()),
        }
    }

    /// Once the stream is over, the inner observer kept its guarantees and
    /// received what the wrapper received, but for the error.
    pub proof fn lemma_forwarded(&self)
        requires
            self.ready(),
        ensures
            forwarded(self.start(), self.inner()),
            self.inner().history() == self.start().history() + without_errors(self.history()),
    {
    }

    /// Unwrap the inner observer.
    pub fn into_inner(self) -> (r: O)
        ensures
            r == self.inner(),
    {
        self.observer
    }
}

impl<O, F, Item, E> Observer<Item, E> for OnErrorObserver<O, F, Item, E> where
    O: Observer<Item, E>,
    F: FnOnce(E),
 {
    closed spec fn history(&self) -> Seq<Notification<Item, E>> {
        self.history@
    }

    closed spec fn ready(&self) -> bool {
        &&& self.observer.ready()
        &&& match self.callback {
            Some(f) => forall|e: E| call_requires(f, (e,)),
            None => true,
        }
        &&& forwarding(self.start@, self.observer, self.done)
        &&& self.observer.history() == self.start@.history() + without_errors(self.history@)
    }

    closed spec fn closed(&self) -> bool {
        self.done || self.observer.closed()
    }

    open spec fn always_open(&self) -> bool {
        false
    }

    proof fn lemma_always_open(&self) {
    }

    closed spec fn continues(&self, earlier: Self) -> bool {
        self.start == earlier.start
    }

    proof fn lemma_continues_refl(&self) {
    }

    proof fn lemma_continues_trans(&self, mid: Self, earlier: Self) {
    }

    /// Unless closed, the value is forwarded.
    fn next(&mut self, value: Item)
        ensures
            final(self).inner().history() == accept(
                old(self).closed(),
                old(self).inner().history(),
                Notification::Next(value),
            ),
            final(self).callback() == old(self).callback(),
    {
        let ghost old_closed = self.done || self.observer.closed();
        if !self.done {
            let ghost before = self.observer;
            self.observer.next(value);
            proof {
                lemma_forwarding_step(self.start@, before, self.observer, Notification::Next(value));
            }
        }
        proof {
            lemma_without_errors_push(self.history@, Notification::Next(value));
            assert((self.start@.history() + without_errors(self.history@)).push(Notification::Next(value))
                =~= self.start@.history() + without_errors(self.history@).push(Notification::Next(value)));
            self.history@ = accept(old_closed, self.history@, Notification::Next(value));
        }
    }

    /// Unless the wrapper is done, the callback is called with the error,
    /// which the inner observer does not receive; the wrapper is then done.
    fn error(&mut self, err: E)
        ensures
            final(self).inner() == old(self).inner(),
            !old(self).done() ==> final(self).callback() is None && match old(self).callback() {
                Some(f) => call_ensures(f, (err,), ()),
                None => true,
            },
    {
        let ghost old_closed = self.done || self.observer.closed();
        if !self.done {
            let cb = self.callback.take();
            if let Some(f) = cb {
                f(err);
            }
            self.done = true;
        }
        proof {
            lemma_without_errors_push(self.history@, Notification::Error(err));
            assert((self.start@.history() + without_errors(self.history@)).push(Notification::Error(err))
                =~= self.start@.history() + without_errors(self.history@).push(Notification::Error(err)));
            self.history@ = accept(old_closed, self.history@, Notification::Error(err));
        }
    }

    /// Unless closed, the completion is forwarded; the wrapper is then done.
    fn complete(&mut self)
        ensures
            final(self).inner().history() == accept(
                old(self).closed(),
                old(self).inner().history(),
                Notification::Complete,
            ),
    {
        let ghost old_closed = self.done || self.observer.closed();
        if !self.done {
            let ghost before = self.observer;
            self.observer.complete();
            self.done = true;
            proof {
                lemma_forwarding_step(self.start@, before, self.observer, Notification::Complete);
            }
        }
        proof {
            lemma_without_errors_push(self.history@, Notification::Complete);
            assert((self.start@.history() + without_errors(self.history@)).push(Notification::Complete)
                =~= self.start@.history() + without_errors(self.history@).push(Notification::Complete));
            self.history@ = accept(old_closed, self.history@, Notification::Complete);
        }
    }

    /// Once done it answers closed; before, what the inner observer answers.
    closed spec fn closed_report(&self, r: bool) -> bool {
        if self.done {
            r
        } else {
            self.observer.closed_report(r)
        }
    }

    fn is_closed(&self) -> (r: bool) {
        self.done || self.observer.is_closed()
    }
}

impl<O, F, Item, E> OnErrorObserver<O, F, Item, E> where O: Observer<Item, E>, F: FnOnce(E) {
    /// The wrapper has handled a terminal notification.
    pub closed spec fn done(&self) -> bool {
        self.done
    }
}

/// The `on_error` operator: the error of `source` goes to `callback`
/// instead of the observer.
pub struct OnError<S, F> where S: ObservableType, F: FnOnce(S::Error) {
    source: S,
    callback: F,
}

impl<S, F> OnError<S, F> where S: ObservableType, F: FnOnce(S::Error) {
    #[verifier::type_invariant]
    spec fn callable(self) -> bool {
        forall|e: S::Error| call_requires(self.callback, (e,))
    }

    /// The observable whose error is intercepted.
    pub closed spec fn source(&self) -> S {
        self.source
    }

    /// The callback for the error.
    pub closed spec fn callback(&self) -> F {
        self.callback
    }

    /// `source` with its error handed to `callback`.
    pub fn new(source: S, callback: F) -> (r: Self)
        requires
            forall|e: S::Error| call_requires(callback, (e,)),
        ensures
            r.source() == source,
            r.callback() == callback,
    {
        OnError { source, callback }
    }
}

impl<S, F> ObservableType for OnError<S, F> where S: ObservableType, F: FnOnce(S::Error) {
    type Item = S::Item;
    type Error = S::Error;
}

impl<S, F, O> CoreObservable<O> for OnError<S, F> where
    S: ObservableType,
    F: FnOnce(<S as ObservableType>::Error),
    S: CoreObservable<OnErrorObserver<O, F, <S as ObservableType>::Item, <S as ObservableType>::Error>>,
    O: Observer<<S as ObservableType>::Item, <S as ObservableType>::Error>,
 {
    type Unsub = <S as CoreObservable<
        OnErrorObserver<O, F, <S as ObservableType>::Item, <S as ObservableType>::Error>,
    >>::Unsub;

    /// The handle is one the source hands out.
    closed spec fn hands_out(&self, u: Self::Unsub) -> bool {
        <S as CoreObservable<OnErrorObserver<O, F, <S as ObservableType>::Item, <S as ObservableType>::Error>>>::hands_out(&self.source, u)
    }

    /// The source was subscribed with the observer wrapped; the wrapper got
    /// what the source's subscription gives, and the observer received
    /// what the wrapper received, but for the error, which went to the callback.
    open spec fn gives(&self, observer: O, r: (Self::Unsub, O)) -> bool {
        exists|w: OnErrorObserver<O, F, <S as ObservableType>::Item, <S as ObservableType>::Error>|
            #[trigger] <S as CoreObservable<OnErrorObserver<O, F, <S as ObservableType>::Item, <S as ObservableType>::Error>>>::gives(
                &self.source(),
                OnErrorObserver::initial(observer, self.callback()),
                (r.0, w),
            ) && w.inner() == r.1 && r.1.history() == observer.history() + without_errors(w.history())
    }

    /// The source is subscribed with the observer wrapped; the observer is
    /// handed back unwrapped.
    fn subscribe(self, observer: O) -> (r: (Self::Unsub, O)) where O: Observer<S::Item, S::Error> {
        proof {
            use_type_invariant(&self);
        }
        let ghost source0 = self.source;
        let ghost callback0 = self.callback;
        let OnError { source, callback } = self;
        let wrapped = OnErrorObserver::new(observer, callback);
        let ghost w0 = wrapped;
        let (u, wrapped) = CoreObservable::subscribe(source, wrapped);
        proof {
            wrapped.lemma_forwarded();
            assert(wrapped.start() == w0.start());
            assert(source0 == self.source());
            assert(callback0 == self.callback());
            assert(w0.start() == observer);
            assert(wrapped.inner().history() == observer.history() + without_errors(wrapped.history()));
            assert(w0 == OnErrorObserver::<O, F, <S as ObservableType>::Item, <S as ObservableType>::Error>::initial(observer, self.callback()));
            assert(<S as CoreObservable<OnErrorObserver<O, F, <S as ObservableType>::Item, <S as ObservableType>::Error>>>::gives(
                &self.source(),
                OnErrorObserver::initial(observer, self.callback()),
                (u, wrapped),
            ));
        }
        let r = (u, wrapped.into_inner());
        proof {
            let w = wrapped;
            assert(<S as CoreObservable<OnErrorObserver<O, F, <S as ObservableType>::Item, <S as ObservableType>::Error>>>::gives(
                &self.source(),
                OnErrorObserver::initial(observer, self.callback()),
                (r.0, w),
            ) && w.inner() == r.1 && r.1.history() == observer.history() + without_errors(w.history()));
        }
        r
    }
}

/// The wrapper of `on_complete`: values and the error are forwarded; on
/// completion the callback is called, then the completion is forwarded.
pub struct OnCompleteObserver<O, F, Item, E> {
    observer: O,
    callback: Option<F>,
    done: bool,
    start: Ghost<O>,
    history: Ghost<Seq<Notification<Item, E>>>,
}

impl<O, F, Item, E> OnCompleteObserver<O, F, Item, E> {
    /// The wrapper `new` makes of `observer` and `callback`.
    pub closed spec fn initial(observer: O, callback: F) -> Self {
        OnCompleteObserver {
            start: Ghost(observer),
            observer,
            callback: Some(callback),
            done: false,
            history: Ghost(Seq::empty()),
        }
    }
}

impl<O, F, Item, E> OnCompleteObserver<O, F, Item, E> where O: Observer<Item, E>, F: FnOnce() {
    /// The observer the values are handed to.
    pub closed spec fn inner(&self) -> O {
        self.observer
    }

    /// The callback, until it has been called.
    pub closed spec fn callback(&self) -> Option<F> {
        self.callback
    }

    /// The inner observer when it was wrapped.
    pub closed spec fn start(&self) -> O {
        self.start@
    }

    /// The wrapper has handled a terminal notification.
    pub closed spec fn done(&self) -> bool {
        self.done
    }

    /// Wrap `observer`; nothing has been received yet.
    pub fn new(observer: O, callback: F) -> (r: Self)
        requires
            observer.ready(),
            call_requires(callback, ()),
        ensures
            r == Self::initial(observer, callback),
            r.ready(),
            r.inner() == observer,
            r.start() == observer,
            r.callback() == Some(callback),
            r.history() == Seq::<Notification<Item, E>>::empty(),
            r.closed() == observer.closed(),
    {
        proof {
            lemma_forwarding_start(observer);
            assert(observer.history() + Seq::<Notification<Item, E>>::empty() =~= observer.history());
        }
        OnCompleteObserver {
            start: Ghost(observer),
            observer,
            callback: Some(callback),
            done: false,
            history: Ghost(Seq::empty()),
        }
    }

    /// Once the stream is over, the inner observer kept its guarantees and
    /// received what the wrapper received.
    pub proof fn lemma_forwarded(&self)
        requires
            self.ready(),
        ensures
            forwarded(self.start(), self.inner()),
            self.inner().history() == self.start().history() + self.history(),
    {
    }

    /// Unwrap the inner observer.
    pub fn into_inner(self) -> (r: O)
        ensures
            r == self.inner(),
    {
        self.observer
    }
}

impl<O, F, Item, E> Observer<Item, E> for OnCompleteObserver<O, F, Item, E> where
    O: Observer<Item, E>,
    F: FnOnce(),
 {
    closed spec fn history(&self) -> Seq<Notification<Item, E>> {
        self.history@
    }

    closed spec fn ready(&self) -> bool {
        &&& self.observer.ready()
        &&& match self.callback {
            Some(f) => call_requires(f, ()),
            None => true,
        }
        &&& forwarding(self.start@, self.observer, self.done)
        &&& self.observer.history() == self.start@.history() + self.history@
    }

    closed spec fn closed(&self) -> bool {
        self.done || self.observer.closed()
    }

    open spec fn always_open(&self) -> bool {
        false
    }

    proof fn lemma_always_open(&self) {
    }

    closed spec fn continues(&self, earlier: Self) -> bool {
        self.start == earlier.start
    }

    proof fn lemma_continues_refl(&self) {
    }

    proof fn lemma_continues_trans(&self, mid: Self, earlier: Self) {
    }

    /// Unless closed, the value is forwarded.
    fn next(&mut self, value: Item)
        ensures
            final(self).inner().history() == accept(
                old(self).closed(),
                old(self).inner().history(),
                Notification::Next(value),
            ),
            final(self).callback() == old(self).callback(),
    {
        let ghost old_closed = self.done || self.observer.closed();
        if !self.done {
            let ghost before = self.observer;
            self.observer.next(value);
            proof {
                lemma_forwarding_step(self.start@, before, self.observer, Notification::Next(value));
            }
        }
        proof {
            assert((self.start@.history() + self.history@).push(Notification::Next(value))
                =~= self.start@.history() + self.history@.push(Notification::Next(value)));
            self.history@ = accept(old_closed, self.history@, Notification::Next(value));
        }
    }

    /// Unless closed, the error is forwarded; the wrapper is then done.
    fn error(&mut self, err: E)
        ensures
            final(self).inner().history() == accept(
                old(self).closed(),
                old(self).inner().history(),
                Notification::Error(err),
            ),
    {
        let ghost old_closed = self.done || self.observer.closed();
        if !self.done {
            let ghost before = self.observer;
            self.observer.error(err);
            self.done = true;
            proof {
                lemma_forwarding_step(self.start@, before, self.observer, Notification::Error(err));
            }
        }
        proof {
            assert((self.start@.history() + self.history@).push(Notification::Error(err))
                =~= self.start@.history() + self.history@.push(Notification::Error(err)));
            self.history@ = accept(old_closed, self.history@, Notification::Error(err));
        }
    }

    /// Unless the wrapper is done, the callback is called, then the
    /// completion is forwarded; the wrapper is then done.
    fn complete(&mut self)
        ensures
            final(self).inner().history() == accept(
                old(self).closed(),
                old(self).inner().history(),
                Notification::Complete,
            ),
            !old(self).done() ==> final(self).callback() is None && match old(self).callback() {
                Some(f) => call_ensures(f, (), ()),
                None => true,
            },
    {
        let ghost old_closed = self.done || self.observer.closed();
        if !self.done {
            let cb = self.callback.take();
            if let Some(f) = cb {
                f();
            }
            let ghost before = self.observer;
            self.observer.complete();
            self.done = true;
            proof {
                lemma_forwarding_step(self.start@, before, self.observer, Notification::Complete);
            }
        }
        proof {
            assert((self.start@.history() + self.history@).push(Notification::Complete)
                =~= self.start@.history() + self.history@.push(Notification::Complete));
            self.history@ = accept(old_closed, self.history@, Notification::Complete);
        }
    }

    /// Once done it answers closed; before, what the inner observer answers.
    closed spec fn closed_report(&self, r: bool) -> bool {
        if self.done {
            r
        } else {
            self.observer.closed_report(r)
        }
    }

    fn is_closed(&self) -> (r: bool) {
        self.done || self.observer.is_closed()
    }
}

/// The `on_complete` operator: `callback` is called when `source` completes,
/// just before the observer receives the completion.
pub struct OnComplete<S, F> where F: FnOnce() {
    source: S,
    callback: F,
}

impl<S, F> OnComplete<S, F> where F: FnOnce() {
    #[verifier::type_invariant]
    spec fn callable(self) -> bool {
        call_requires(self.callback, ())
    }

    /// The observable whose completion is watched.
    pub closed spec fn source(&self) -> S {
        self.source
    }

    /// The callback for the completion.
    pub closed spec fn callback(&self) -> F {
        self.callback
    }

    /// `source` with `callback` called on completion.
    pub fn new(source: S, callback: F) -> (r: Self)
        requires
            call_requires(callback, ()),
        ensures
            r.source() == source,
            r.callback() == callback,
    {
        OnComplete { source, callback }
    }
}

impl<S, F> ObservableType for OnComplete<S, F> where S: ObservableType, F: FnOnce() {
    type Item = S::Item;
    type Error = S::Error;
}

impl<S, F, O> CoreObservable<O> for OnComplete<S, F> where
    S: ObservableType,
    F: FnOnce(),
    S: CoreObservable<OnCompleteObserver<O, F, <S as ObservableType>::Item, <S as ObservableType>::Error>>,
    O: Observer<<S as ObservableType>::Item, <S as ObservableType>::Error>,
 {
    type Unsub = <S as CoreObservable<
        OnCompleteObserver<O, F, <S as ObservableType>::Item, <S as ObservableType>::Error>,
    >>::Unsub;

    /// The handle is one the source hands out.
    closed spec fn hands_out(&self, u: Self::Unsub) -> bool {
        <S as CoreObservable<OnCompleteObserver<O, F, <S as ObservableType>::Item, <S as ObservableType>::Error>>>::hands_out(&self.source, u)
    }

    /// The source was subscribed with the observer wrapped; the wrapper got
    /// what the source's subscription gives, and the observer received
    /// what the wrapper received.
    open spec fn gives(&self, observer: O, r: (Self::Unsub, O)) -> bool {
        exists|w: OnCompleteObserver<O, F, <S as ObservableType>::Item, <S as ObservableType>::Error>|
            #[trigger] <S as CoreObservable<OnCompleteObserver<O, F, <S as ObservableType>::Item, <S as ObservableType>::Error>>>::gives(
                &self.source(),
                OnCompleteObserver::initial(observer, self.callback()),
                (r.0, w),
            ) && w.inner() == r.1 && r.1.history() == observer.history() + w.history()
    }

    /// The source is subscribed with the observer wrapped; the observer is
    /// handed back unwrapped.
    fn subscribe(self, observer: O) -> (r: (Self::Unsub, O)) where O: Observer<S::Item, S::Error> {
        proof {
            use_type_invariant(&self);
        }
        let ghost source0 = self.source;
        let ghost callback0 = self.callback;
        let OnComplete { source, callback } = self;
        let wrapped = OnCompleteObserver::new(observer, callback);
        let ghost w0 = wrapped;
        let (u, wrapped) = CoreObservable::subscribe(source, wrapped);
        proof {
            wrapped.lemma_forwarded();
            assert(wrapped.start() == w0.start());
            assert(source0 == self.source());
            assert(callback0 == self.callback());
            assert(w0.start() == observer);
            assert(wrapped.inner().history() == observer.history() + wrapped.history());
            assert(w0 == OnCompleteObserver::<O, F, <S as ObservableType>::Item, <S as ObservableType>::Error>::initial(observer, self.callback()));
            assert(<S as CoreObservable<OnCompleteObserver<O, F, <S as ObservableType>::Item, <S as ObservableType>::Error>>>::gives(
                &self.source(),
                OnCompleteObserver::initial(observer, self.callback()),
                (u, wrapped),
            ));
        }
        let r = (u, wrapped.into_inner());
        proof {
            let w = wrapped;
            assert(<S as CoreObservable<OnCompleteObserver<O, F, <S as ObservableType>::Item, <S as ObservableType>::Error>>>::gives(
                &self.source(),
                OnCompleteObserver::initial(observer, self.callback()),
                (r.0, w),
            ) && w.inner() == r.1 && r.1.history() == observer.history() + w.history());
        }
        r
    }
}

/// `h` holds a completion.
pub open spec fn has_complete<Item, E>(h: Seq<Notification<Item, E>>) -> bool {
    exists|i: int| 0 <= i < h.len() && (#[trigger] h[i]) is Complete
}

/// `h` without its first completion: what the downstream observer of a
/// `merge` receives when its shared state received `h`, the first source to
/// complete being silent.
pub open spec fn without_first_complete<Item, E>(h: Seq<Notification<Item, E>>) -> Seq<Notification<Item, E>>
    decreases h.len(),
{
    if h.len() == 0 {
        h
    } else if !has_complete(h.drop_last()) && h.last() is Complete {
        h.drop_last()
    } else {
        without_first_complete(h.drop_last()).push(h.last())
    }
}

/// A history without a completion is its own merged history.
proof fn lemma_without_complete_unchanged<Item, E>(h: Seq<Notification<Item, E>>)
    requires
        !has_complete(h),
    ensures
        without_first_complete(h) == h,
    decreases h.len(),
{
    if h.len() > 0 {
        let d = h.drop_last();
        assert(!has_complete(d)) by {
            if has_complete(d) {
                let i = choose|i: int| 0 <= i < d.len() && (#[trigger] d[i]) is Complete;
                assert(h[i] is Complete);
            }
        }
        assert(!(h[h.len() - 1] is Complete));
        lemma_without_complete_unchanged(d);
        assert(d.push(h.last()) =~= h);
    }
}

/// Appending a notification to a merged history.
proof fn lemma_without_first_complete_push<Item, E>(h: Seq<Notification<Item, E>>, n: Notification<Item, E>)
    ensures
        without_first_complete(h.push(n)) == if !has_complete(h) && n is Complete {
            h
        } else {
            without_first_complete(h).push(n)
        },
        has_complete(h.push(n)) == (has_complete(h) || n is Complete),
{
    assert(h.push(n).drop_last() =~= h);
    if n is Complete {
        assert(h.push(n)[h.len() as int] is Complete);
    }
    if has_complete(h.push(n)) && !(n is Complete) {
        let i = choose|i: int| 0 <= i < h.push(n).len() && (#[trigger] h.push(n)[i]) is Complete;
        assert(h[i] is Complete);
    }
    if has_complete(h) {
        let i = choose|i: int| 0 <= i < h.len() && (#[trigger] h[i]) is Complete;
        assert(h.push(n)[i] is Complete);
    }
}

/// The state the two subscriptions of a `merge` share: the downstream
/// observer, and whether one source has completed.  Values and the first
/// error are forwarded; the completion is forwarded once both sources have
/// completed.
pub struct MergeState<O, Item, E> {
    observer: O,
    one_completed: bool,
    done: bool,
    start: Ghost<O>,
    history: Ghost<Seq<Notification<Item, E>>>,
}

impl<O, Item, E> MergeState<O, Item, E> {
    /// The state `new` makes for `observer`.
    pub closed spec fn initial(observer: O) -> Self {
        MergeState {
            start: Ghost(observer),
            observer,
            one_completed: false,
            done: false,
            history: Ghost(Seq::empty()),
        }
    }
}

impl<O, Item, E> MergeState<O, Item, E> where O: Observer<Item, E> {
    /// The downstream observer.
    pub closed spec fn inner(&self) -> O {
        self.observer
    }

    /// The downstream observer when the merge started.
    pub closed spec fn start(&self) -> O {
        self.start@
    }

    /// One of the two sources has completed.
    pub closed spec fn one_completed(&self) -> bool {
        self.one_completed
    }

    /// The merge has ended: an error, or both completions, were received.
    pub closed spec fn done(&self) -> bool {
        self.done
    }

    /// The state of a merge that has not started.
    pub fn new(observer: O) -> (r: Self)
        requires
            observer.ready(),
        ensures
            r == Self::initial(observer),
            r.ready(),
            r.inner() == observer,
            r.start() == observer,
            !r.one_completed(),
            !r.done(),
            r.history() == Seq::<Notification<Item, E>>::empty(),
    {
        proof {
            lemma_forwarding_start(observer);
            assert(observer.history() + without_first_complete(Seq::<Notification<Item, E>>::empty())
                =~= observer.history());
        }
        MergeState {
            start: Ghost(observer),
            observer,
            one_completed: false,
            done: false,
            history: Ghost(Seq::empty()),
        }
    }

    /// Once the stream is over, the downstream observer kept its guarantees
    /// and received what the state received, but for the first completion.
    pub proof fn lemma_forwarded(&self)
        requires
            self.ready(),
        ensures
            forwarded(self.start(), self.inner()),
            self.inner().history() == self.start().history() + without_first_complete(self.history()),
    {
    }

    /// Unwrap the downstream observer.
    pub fn into_inner(self) -> (r: O)
        ensures
            r == self.inner(),
    {
        self.observer
    }
}

impl<O, Item, E> Observer<Item, E> for MergeState<O, Item, E> where O: Observer<Item, E> {
    closed spec fn history(&self) -> Seq<Notification<Item, E>> {
        self.history@
    }

    closed spec fn ready(&self) -> bool {
        &&& self.observer.ready()
        &&& forwarding(self.start@, self.observer, self.done)
        &&& self.observer.history() == self.start@.history() + without_first_complete(self.history@)
        &&& (!self.one_completed ==> !has_complete(self.history@))
        &&& (self.one_completed && !self.done && !self.observer.closed() ==> has_complete(self.history@))
    }

    closed spec fn closed(&self) -> bool {
        self.done || self.observer.closed()
    }

    open spec fn always_open(&self) -> bool {
        false
    }

    proof fn lemma_always_open(&self) {
    }

    closed spec fn continues(&self, earlier: Self) -> bool {
        self.start == earlier.start
    }

    proof fn lemma_continues_refl(&self) {
    }

    proof fn lemma_continues_trans(&self, mid: Self, earlier: Self) {
    }

    /// Unless closed, the value is forwarded.
    fn next(&mut self, value: Item)
        ensures
            final(self).inner().history() == accept(
                old(self).closed(),
                old(self).inner().history(),
                Notification::Next(value),
            ),
            final(self).one_completed() == old(self).one_completed(),
            final(self).done() == old(self).done(),
    {
        let ghost old_closed = self.done || self.observer.closed();
        if !self.done {
            let ghost before = self.observer;
            self.observer.next(value);
            proof {
                lemma_forwarding_step(self.start@, before, self.observer, Notification::Next(value));
            }
        }
        proof {
            lemma_without_first_complete_push(self.history@, Notification::Next(value));
            self.history@ = accept(old_closed, self.history@, Notification::Next(value));
        }
    }

    /// Unless closed, the error is forwarded; the merge is then over.
    fn error(&mut self, err: E)
        ensures
            final(self).inner().history() == accept(
                old(self).closed(),
                old(self).inner().history(),
                Notification::Error(err),
            ),
    {
        let ghost old_closed = self.done || self.observer.closed();
        if !self.done {
            let ghost before = self.observer;
            self.observer.error(err);
            self.done = true;
            proof {
                lemma_forwarding_step(self.start@, before, self.observer, Notification::Error(err));
            }
        }
        proof {
            lemma_without_first_complete_push(self.history@, Notification::Error(err));
            self.history@ = accept(old_closed, self.history@, Notification::Error(err));
        }
    }

    /// The first completion is recorded; the second is forwarded and ends
    /// the merge.
    fn complete(&mut self)
        ensures
            !old(self).done() && !old(self).one_completed() ==> final(self).one_completed()
                && !final(self).done() && final(self).inner() == old(self).inner(),
            !old(self).done() && old(self).one_completed() ==> final(self).done()
                && final(self).inner().history() == accept(
                old(self).inner().closed(),
                old(self).inner().history(),
                Notification::Complete,
            ),
            old(self).done() ==> final(self).inner() == old(self).inner(),
    {
        let ghost old_closed = self.done || self.observer.closed();
        if !self.done {
            if self.one_completed {
                let ghost before = self.observer;
                self.observer.complete();
                self.done = true;
                proof {
                    lemma_forwarding_step(self.start@, before, self.observer, Notification::Complete);
                }
            } else {
                self.one_completed = true;
            }
        }
        proof {
            if !has_complete(self.history@) {
                lemma_without_complete_unchanged(self.history@);
            }
            lemma_without_first_complete_push(self.history@, Notification::Complete);
            self.history@ = accept(old_closed, self.history@, Notification::Complete);
        }
    }

    /// Once done it answers closed; before, what the inner observer answers.
    closed spec fn closed_report(&self, r: bool) -> bool {
        if self.done {
            r
        } else {
            self.observer.closed_report(r)
        }
    }

    fn is_closed(&self) -> (r: bool) {
        self.done || self.observer.is_closed()
    }
}

/// The subscription of a `merge`: one per source.
pub struct MergeSubscription<U1, U2> {
    pub first: U1,
    pub second: U2,
}

impl<U1: Subscription, U2: Subscription> Subscription for MergeSubscription<U1, U2> {
    open spec fn sub_closed(&self) -> bool {
        self.first.sub_closed() && self.second.sub_closed()
    }

    /// Both subscriptions are cancelled.
    fn unsubscribe(&mut self) {
        self.first.unsubscribe();
        self.second.unsubscribe();
    }

    fn is_closed(&self) -> (r: bool) {
        self.first.is_closed() && self.second.is_closed()
    }
}

/// The `merge` operator: the values of both sources, forwarded as they come
/// (all of `first`, then all of `second`, when they emit on subscription);
/// it completes once both have completed, and ends at the first error.
pub struct Merge<S1, S2> {
    pub first: S1,
    pub second: S2,
}

impl<S1: ObservableType, S2> ObservableType for Merge<S1, S2> {
    type Item = S1::Item;
    type Error = S1::Error;
}

impl<S1, S2, O> CoreObservable<O> for Merge<S1, S2> where
    S1: ObservableType,
    S2: ObservableType<Item = <S1 as ObservableType>::Item, Error = <S1 as ObservableType>::Error>,
    S1: CoreObservable<MergeState<O, <S1 as ObservableType>::Item, <S1 as ObservableType>::Error>>,
    S2: CoreObservable<MergeState<O, <S1 as ObservableType>::Item, <S1 as ObservableType>::Error>>,
    O: Observer<<S1 as ObservableType>::Item, <S1 as ObservableType>::Error>,
 {
    type Unsub = MergeSubscription<
        <S1 as CoreObservable<MergeState<O, <S1 as ObservableType>::Item, <S1 as ObservableType>::Error>>>::Unsub,
        <S2 as CoreObservable<MergeState<O, <S1 as ObservableType>::Item, <S1 as ObservableType>::Error>>>::Unsub,
    >;

    /// One handle from each source's subscription.
    open spec fn hands_out(&self, u: Self::Unsub) -> bool {
        &&& <S1 as CoreObservable<MergeState<O, <S1 as ObservableType>::Item, <S1 as ObservableType>::Error>>>::hands_out(&self.first, u.first)
        &&& <S2 as CoreObservable<MergeState<O, <S1 as ObservableType>::Item, <S1 as ObservableType>::Error>>>::hands_out(&self.second, u.second)
    }

    /// The first source was subscribed with a fresh shared state, then the
    /// second with the state the first left; each gave what its own
    /// subscription gives.  The observer received what the state received,
    /// but for the first completion: the first source's notifications, then
    /// the second's, completing once both have completed.
    open spec fn gives(&self, observer: O, r: (Self::Unsub, O)) -> bool {
        exists|
            s1: MergeState<O, <S1 as ObservableType>::Item, <S1 as ObservableType>::Error>,
            s2: MergeState<O, <S1 as ObservableType>::Item, <S1 as ObservableType>::Error>,
        |
            #[trigger] <S1 as CoreObservable<MergeState<O, <S1 as ObservableType>::Item, <S1 as ObservableType>::Error>>>::gives(
                &self.first,
                MergeState::initial(observer),
                (r.0.first, s1),
            ) && #[trigger] <S2 as CoreObservable<MergeState<O, <S1 as ObservableType>::Item, <S1 as ObservableType>::Error>>>::gives(
                &self.second,
                s1,
                (r.0.second, s2),
            ) && s2.inner() == r.1 && r.1.history() == observer.history() + without_first_complete(
                s2.history(),
            )
    }

    /// Both sources are subscribed, in order, with one shared state.
    fn subscribe(self, observer: O) -> (r: (Self::Unsub, O)) where O: Observer<S1::Item, S1::Error> {
        let state = MergeState::new(observer);
        let ghost s0 = state;
        let (first, state) = CoreObservable::subscribe(self.first, state);
        let ghost s1 = state;
        let (second, state) = CoreObservable::subscribe(self.second, state);
        proof {
            state.lemma_forwarded();
            assert(state.start() == s0.start());
        }
        (MergeSubscription { first, second }, state.into_inner())
    }
}

/// An observer that ignores everything it receives.
pub struct DiscardingObserver;

impl<Item, E> Observer<Item, E> for DiscardingObserver {
    open spec fn history(&self) -> Seq<Notification<Item, E>> {
        Seq::empty()
    }

    open spec fn ready(&self) -> bool {
        true
    }

    open spec fn closed(&self) -> bool {
        true
    }

    open spec fn always_open(&self) -> bool {
        false
    }

    proof fn lemma_always_open(&self) {
    }

    open spec fn continues(&self, earlier: Self) -> bool {
        true
    }

    proof fn lemma_continues_refl(&self) {
    }

    proof fn lemma_continues_trans(&self, mid: Self, earlier: Self) {
    }

    fn next(&mut self, value: Item) {
    }

    fn error(&mut self, err: E) {
    }

    fn complete(&mut self) {
    }

    open spec fn closed_report(&self, r: bool) -> bool {
        r
    }

    fn is_closed(&self) -> (r: bool) {
        true
    }
}

/// A source of `i32` values without error that emits nothing, for
/// exercising operators.
pub struct MockSource;

impl ObservableType for MockSource {
    type Item = i32;
    type Error = ();
}

impl<O> CoreObservable<O> for MockSource {
    type Unsub = ();

    /// Its subscription hands out the unit handle.
    open spec fn hands_out(&self, u: ()) -> bool {
        true
    }

    /// The observer receives nothing.
    fn subscribe(self, observer: O) -> (r: ((), O)) where O: Observer<i32, ()>
        ensures
            r.1 == observer,
    {
        proof {
            observer.lemma_continues_refl();
            assert(observer.history().subrange(
                observer.history().len() as int,
                observer.history().len() as int,
            ) =~= Seq::<Notification<i32, ()>>::empty());
        }
        ((), observer)
    }
}

/// An operator marked for use across threads: it subscribes like the
/// operator it wraps.
pub struct SharedOp<T>(pub T);

impl<T: ObservableType> ObservableType for SharedOp<T> {
    type Item = T::Item;
    type Error = T::Error;
}

impl<T, O> CoreObservable<O> for SharedOp<T> where T: CoreObservable<O> {
    type Unsub = T::Unsub;

    /// The handle is one the wrapped operator hands out.
    open spec fn hands_out(&self, u: T::Unsub) -> bool {
        self.0.hands_out(u)
    }

    fn subscribe(self, observer: O) -> (r: (Self::Unsub, O)) where O: Observer<T::Item, T::Error> {
        CoreObservable::subscribe(self.0, observer)
    }
}

/// Observables that can be duplicated, so that each copy is subscribed
/// separately.
pub trait Fork: Sized {
    /// The type of the copies.
    type Output;

    /// The two observables emit the same notifications.
    spec fn forked(&self, copy: Self::Output) -> bool;

    /// A copy of this observable.
    fn fork(&self) -> (r: Self::Output)
        ensures
            self.forked(r),
    ;
}

impl<T: Fork> Fork for SharedOp<T> {
    type Output = SharedOp<T::Output>;

    open spec fn forked(&self, copy: SharedOp<T::Output>) -> bool {
        self.0.forked(copy.0)
    }

    fn fork(&self) -> (r: SharedOp<T::Output>) {
        SharedOp(self.0.fork())
    }
}

/// The operators, available on every observable.
pub trait ObservableExt: ObservableType + Sized {
    /// Transform every value with `func`.
    fn map<F, Out>(self, func: F) -> (r: MapOp<Self, F, Out>) where F: FnMut(Self::Item) -> Out
        requires
            forall|v: Self::Item| call_requires(func, (v,)),
        ensures
            r.source() == self,
            r.func() == func,
    {
        MapOp::new(self, func)
    }

    /// Hand the error to `callback` instead of the observer.
    fn on_error<F>(self, callback: F) -> (r: OnError<Self, F>) where F: FnOnce(Self::Error)
        requires
            forall|e: Self::Error| call_requires(callback, (e,)),
        ensures
            r.source() == self,
            r.callback() == callback,
    {
        OnError::new(self, callback)
    }

    /// Call `callback` when the stream completes.
    fn on_complete<F>(self, callback: F) -> (r: OnComplete<Self, F>) where F: FnOnce()
        requires
            call_requires(callback, ()),
        ensures
            r.source() == self,
            r.callback() == callback,
    {
        OnComplete::new(self, callback)
    }

    /// Hand every notification to the observer through tasks of
    /// `scheduler`.
    fn observe_on<Sch>(self, scheduler: Sch) -> (r: ObserveOn<Self, Sch>)
        ensures
            r.source == self,
            r.scheduler == scheduler,
    {
        ObserveOn { source: self, scheduler }
    }

    /// Hand every value to the observer `delay` later, through tasks of
    /// `scheduler`.
    fn delay<Sch>(self, delay: Duration, scheduler: Sch) -> (r: Delay<Self, Sch>)
        ensures
            r.source == self,
            r.delay == delay,
            r.scheduler == scheduler,
    {
        Delay { source: self, delay, scheduler }
    }

    /// Hand every value to the observer `delay` later, through tasks of the
    /// given `scheduler`.
    fn delay_on<Sch>(self, delay: Duration, scheduler: Sch) -> (r: DelayOn<Self, Sch>)
        ensures
            r.source == self,
            r.delay == delay,
            r.scheduler == scheduler,
    {
        DelayOn { source: self, delay, scheduler }
    }

    /// Merge with `other`.
    fn merge<S2>(self, other: S2) -> (r: Merge<Self, S2>) where
        S2: ObservableType<Item = Self::Item, Error = Self::Error>,
        ensures
            r.first == self,
            r.second == other,
    {
        Merge { first: self, second: other }
    }
}

impl<S: ObservableType> ObservableExt for S {
}

} // verus!
