//! Observables defined by a function that emits notifications.
use vstd::prelude::*;
use std::marker::PhantomData;
use crate::observable::{into_queue, CoreObservable, ObservableType};
use crate::ops::Fork;
use crate::observer::{
    delivers, is_terminal, lemma_delivered, lemma_emit_step, well_formed_trace, Emitter,
    Notification, Observer,
};

verus! {

/// The notifications of `s` up to and including the first terminal one:
/// what an observer may receive of them under the protocol.
pub open spec fn until_terminal<Item, E>(s: Seq<Notification<Item, E>>) -> Seq<Notification<Item, E>>
    decreases s.len(),
{
    if s.len() == 0 {
        s
    } else if is_terminal(s[0]) {
        seq![s[0]]
    } else {
        seq![s[0]] + until_terminal(s.drop_first())
    }
}

/// `until_terminal(s)` is a prefix of `s` that respects the protocol, and it
/// stops short of `s` only after a terminal notification.
pub proof fn lemma_until_terminal<Item, E>(s: Seq<Notification<Item, E>>)
    ensures
        until_terminal(s).len() <= s.len(),
        until_terminal(s) == s.take(until_terminal(s).len() as int),
        well_formed_trace(until_terminal(s)),
        until_terminal(s).len() < s.len() ==> until_terminal(s).len() > 0 && is_terminal(
            until_terminal(s).last(),
        ),
    decreases s.len(),
{
    let r = until_terminal(s);
    if s.len() == 0 {
        assert(s.take(0) =~= s);
    } else if is_terminal(s[0]) {
        assert(s.take(1) =~= seq![s[0]]);
    } else {
        let t = s.drop_first();
        lemma_until_terminal(t);
        let rt = until_terminal(t);
        assert(r == seq![s[0]] + rt);
        assert(r =~= s.take(r.len() as int)) by {
            assert forall|i: int| 0 <= i < r.len() implies r[i] == s[i] by {
                if i > 0 {
                    assert(r[i] == rt[i - 1]);
                    assert(rt[i - 1] == t[i - 1]);
                }
            }
        }
        assert forall|i: int| 0 <= i < r.len() - 1 implies !is_terminal(#[trigger] r[i]) by {
            if i > 0 {
                assert(r[i] == rt[i - 1]);
            }
        }
        if r.len() < s.len() {
            assert(r.last() == rt.last());
        }
    }
}

/// The emitter handed to the function of a `Create` or `create`: it records
/// the notifications the function emits, in order.
pub struct CreateEmitter<Item, E> {
    calls: Vec<Notification<Item, E>>,
}

impl<Item, E> CreateEmitter<Item, E> {
    /// An emitter that has recorded nothing.
    pub fn new() -> (r: Self)
        ensures
            r.calls() == Seq::<Notification<Item, E>>::empty(),
    {
        CreateEmitter { calls: Vec::new() }
    }

    /// The notifications recorded so far.
    pub fn into_calls(self) -> (r: Vec<Notification<Item, E>>)
        ensures
            r@ == self.calls(),
    {
        self.calls
    }
}

impl<Item, E> Emitter<Item, E> for CreateEmitter<Item, E> {
    closed spec fn calls(&self) -> Seq<Notification<Item, E>> {
        self.calls@
    }

    open spec fn ready(&self) -> bool {
        true
    }

    fn next(&mut self, value: Item) {
        self.calls.push(Notification::Next(value));
    }

    fn error(&mut self, err: E) {
        self.calls.push(Notification::Error(err));
    }

    fn complete(&mut self) {
        self.calls.push(Notification::Complete);
    }
}

/// `after` is `before` once handed, in order, the notifications of `calls`
/// up to and including the first terminal one: all of them when it is still
/// open afterwards or never closes, otherwise a prefix of them.
pub open spec fn emits_to<Item, E, O: Observer<Item, E>>(
    before: O,
    after: O,
    calls: Seq<Notification<Item, E>>,
) -> bool {
    delivers(before, after, until_terminal(calls))
}

/// Hand `observer`, in order, the notifications of `calls` up to and
/// including the first terminal one; the rest are dropped.
pub fn deliver<Item, E, O>(observer: &mut O, calls: Vec<Notification<Item, E>>) where
    O: Observer<Item, E>,

    requires
        old(observer).ready(),
    ensures
        final(observer).ready(),
        final(observer).continues(*old(observer)),
        old(observer).closed() ==> final(observer).closed(),
        old(observer).always_open() ==> final(observer).always_open(),
        old(observer).history().is_prefix_of(final(observer).history()),
        well_formed_trace(
            final(observer).history().subrange(
                old(observer).history().len() as int,
                final(observer).history().len() as int,
            ),
        ),
        old(observer).closed() ==> final(observer).history() == old(observer).history(),
        emits_to(*old(observer), *final(observer), calls@),
{
    let ghost o0 = *observer;
    proof {
        observer.lemma_continues_refl();
    }
    let ghost all = calls@;
    let ghost s = until_terminal(all);
    let ghost h0 = observer.history();
    let ghost open = observer.always_open();
    let ghost c0 = observer.closed();
    proof {
        lemma_until_terminal(all);
        assert(s.take(0) =~= Seq::<Notification<Item, E>>::empty());
        assert(h0 + s.take(0) =~= h0);
    }
    let mut queue = into_queue(calls);
    let ghost n = all.len();
    let ghost mut k: int = 0;
    let ghost mut i: int = 0;
    let mut stopped = false;
    while !stopped && queue.len() > 0
        invariant
            0 <= k <= i <= s.len() <= n,
            n == all.len(),
            s == until_terminal(all),
            s == all.take(s.len() as int),
            well_formed_trace(s),
            s.len() < n ==> s.len() > 0 && is_terminal(s.last()),
            stopped ==> i == s.len(),
            !stopped ==> queue@ == all.subrange(i, n as int),
            !stopped && i > 0 ==> !is_terminal(all[i - 1]),
            observer.history() == h0 + s.take(k),
            k < i ==> observer.closed(),
            observer.ready(),
            observer.continues(o0),
            c0 ==> observer.closed() && k == 0,
            open ==> observer.always_open(),
        decreases (if stopped { 0int } else { 1int }), queue@.len(),
    {
        let n_i = queue.pop_front().unwrap();
        let ghost before = *observer;
        proof {
            if i == s.len() {
                // Every notification so far was not terminal, so `s` is all of `all`.
                assert(s.len() == n);
            }
            assert(s[i] == all[i]);
            assert(n_i == all[i]);
            lemma_emit_step(h0, s, k, i, observer.closed(), observer.history());
            if !observer.closed() {
                k = k + 1;
            }
            i = i + 1;
        }
        let terminal = match &n_i {
            Notification::Next(_) => false,
            _ => true,
        };
        match n_i {
            Notification::Next(v) => observer.next(v),
            Notification::Error(e) => observer.error(e),
            Notification::Complete => observer.complete(),
        }
        proof {
            observer.lemma_continues_trans(before, o0);
        }
        if terminal {
            stopped = true;
            proof {
                if i < s.len() {
                    assert(!is_terminal(s[i - 1]));
                }
            }
        } else {
            proof {
                assert(queue@ =~= all.subrange(i, n as int));
            }
        }
    }
    proof {
        if !stopped {
            assert(i == n);
            if s.len() < n {
                assert(is_terminal(s.last()));
                assert(s.last() == all[s.len() - 1]);
                assert(s.len() - 1 < i);
            }
            assert(i == s.len());
        }
        if open {
            observer.lemma_always_open();
            assert(k == i);
        }
        if !observer.closed() {
            assert(k == i);
            assert(s.take(k) =~= s);
        }
        lemma_delivered(h0, observer.history(), s, k, open);
    }
}

/// An observable defined by a function: on subscription the function runs
/// with an emitter, and the observer then receives, in order, what the
/// function emitted up to and including the first error or completion.  The
/// function's result is returned as the subscription.
#[verifier::reject_recursive_types(Item)]
#[verifier::reject_recursive_types(E)]
#[verifier::reject_recursive_types(U)]
pub struct Create<F, Item, E, U> where F: FnOnce(&mut CreateEmitter<Item, E>) -> U {
    f: F,
    marker: PhantomData<(Item, E)>,
}

impl<F, Item, E, U> Create<F, Item, E, U> where F: FnOnce(&mut CreateEmitter<Item, E>) -> U {
    #[verifier::type_invariant]
    spec fn callable(self) -> bool {
        forall|e: &mut CreateEmitter<Item, E>| call_requires(self.f, (e,))
    }

    /// The function run on subscription.
    pub closed spec fn func(&self) -> F {
        self.f
    }

    /// An observable running `f` on subscription.
    pub fn new(f: F) -> (r: Self)
        requires
            forall|e: &mut CreateEmitter<Item, E>| call_requires(f, (e,)),
        ensures
            r.func() == f,
    {
        Create { f, marker: PhantomData }
    }
}

impl<F, Item, E, U> ObservableType for Create<F, Item, E, U> where
    F: FnOnce(&mut CreateEmitter<Item, E>) -> U,
 {
    type Item = Item;
    type Error = E;
}

impl<F, Item, E, U, O> CoreObservable<O> for Create<F, Item, E, U> where
    F: FnOnce(&mut CreateEmitter<Item, E>) -> U,
 {
    type Unsub = U;

    /// The handle is what the function returned.
    closed spec fn hands_out(&self, u: U) -> bool {
        exists|e: &mut CreateEmitter<Item, E>| call_ensures(self.f, (e,), u)
    }

    /// The function runs with a fresh emitter; the observer then receives
    /// what it emitted, up to and including the first terminal notification.
    fn subscribe(self, observer: O) -> (r: (U, O)) where O: Observer<Item, E>
        ensures
            exists|e: &mut CreateEmitter<Item, E>|
                #[trigger] call_ensures(self.func(), (e,), r.0) && (*e).calls() == Seq::<
                    Notification<Item, E>,
                >::empty() && emits_to(observer, r.1, (*final(e)).calls()),
    {
        proof {
            use_type_invariant(&self);
        }
        let ghost o0 = observer;
        let mut observer = observer;
        let mut emitter = CreateEmitter::new();
        let u = (self.f)(&mut emitter);
        let ghost emitted = emitter.calls();
        let calls = emitter.into_calls();
        deliver(&mut observer, calls);
        assert(self.func() == self.f);
        assert(emits_to(o0, observer, emitted));
        assert(exists|e: &mut CreateEmitter<Item, E>|
            #[trigger] call_ensures(self.func(), (e,), u) && (*e).calls() == Seq::<
                Notification<Item, E>,
            >::empty() && emits_to(o0, observer, (*final(e)).calls()));
        let r = (u, observer);
        proof {
            let e = choose|e: &mut CreateEmitter<Item, E>|
                #[trigger] call_ensures(self.func(), (e,), u) && (*e).calls() == Seq::<
                    Notification<Item, E>,
                >::empty() && emits_to(o0, r.1, (*final(e)).calls());
            assert(call_ensures(self.func(), (e,), r.0));
        }
        r
    }
}

/// An observable defined by a function without teardown: on subscription
/// the function runs with an emitter, and the observer then receives, in
/// order, what it emitted up to and including the first error or completion.
#[verifier::reject_recursive_types(Item)]
#[verifier::reject_recursive_types(E)]
pub struct ObservableFn<F, Item, E> where F: FnOnce(&mut CreateEmitter<Item, E>) {
    func: F,
    marker: PhantomData<(Item, E)>,
}

impl<F, Item, E> ObservableFn<F, Item, E> where F: FnOnce(&mut CreateEmitter<Item, E>) {
    #[verifier::type_invariant]
    spec fn callable(self) -> bool {
        forall|e: &mut CreateEmitter<Item, E>| call_requires(self.func, (e,))
    }

    /// The function run on subscription.
    pub closed spec fn func(&self) -> F {
        self.func
    }
}

/// An observable running `func` on subscription.
pub fn create<F, Item, E>(func: F) -> (r: ObservableFn<F, Item, E>) where
    F: FnOnce(&mut CreateEmitter<Item, E>),

    requires
        forall|e: &mut CreateEmitter<Item, E>| call_requires(func, (e,)),
    ensures
        r.func() == func,
{
    ObservableFn { func, marker: PhantomData }
}

impl<F, Item, E> ObservableType for ObservableFn<F, Item, E> where
    F: FnOnce(&mut CreateEmitter<Item, E>),
 {
    type Item = Item;
    type Error = E;
}

impl<F, Item, E, O> CoreObservable<O> for ObservableFn<F, Item, E> where
    F: FnOnce(&mut CreateEmitter<Item, E>),
 {
    type Unsub = ();

    /// Its subscription hands out the unit handle.
    open spec fn hands_out(&self, u: ()) -> bool {
        true
    }

    /// The function runs with a fresh emitter; the observer then receives
    /// what it emitted, up to and including the first terminal notification.
    fn subscribe(self, observer: O) -> (r: ((), O)) where O: Observer<Item, E>
        ensures
            exists|e: &mut CreateEmitter<Item, E>|
                #[trigger] call_ensures(self.func(), (e,), ()) && (*e).calls() == Seq::<
                    Notification<Item, E>,
                >::empty() && emits_to(observer, r.1, (*final(e)).calls()),
    {
        proof {
            use_type_invariant(&self);
        }
        let ghost o0 = observer;
        let mut observer = observer;
        let mut emitter = CreateEmitter::new();
        (self.func)(&mut emitter);
        let ghost emitted = emitter.calls();
        let calls = emitter.into_calls();
        deliver(&mut observer, calls);
        assert(self.func() == self.func);
        ((), observer)
    }
}

impl<F, Item, E> Fork for ObservableFn<F, Item, E> where F: FnOnce(&mut CreateEmitter<Item, E>) + Copy {
    type Output = ObservableFn<F, Item, E>;

    /// The copy runs the same function.
    open spec fn forked(&self, copy: ObservableFn<F, Item, E>) -> bool {
        copy.func() == self.func()
    }

    fn fork(&self) -> (r: ObservableFn<F, Item, E>) {
        proof {
            use_type_invariant(self);
        }
        ObservableFn { func: self.func, marker: PhantomData }
    }
}

} // verus!
