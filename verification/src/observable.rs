//! Observable sources and the traits that describe them.
use vstd::prelude::*;
use std::collections::VecDeque;
use crate::observer::{
    delivers, lemma_delivered, lemma_emit_step, nexts, well_formed_trace, Notification, Observer,
};

pub mod base;
pub mod boxed;
pub mod connectable;
pub mod create;
pub mod defer;
pub mod fake_timer;
pub mod from;
pub mod from_future;
pub mod from_iter;
pub mod from_stream;
pub mod interval;
pub mod observable_all;
pub mod observable_block;
pub mod observable_block_all;
pub mod observable_comp;
pub mod observable_err;
pub mod observable_next;
pub mod of;
pub mod once;
pub mod start;
pub mod subscribe_item;
pub mod timer;
pub mod trivial;

verus! {

/// The types an observable emits: its values and its error.
pub trait ObservableType {
    type Item;
    type Error;
}

/// The logic of an observable: subscribing an observer starts the stream.
pub trait CoreObservable<O>: ObservableType + Sized {
    /// What the subscription returns to cancel the stream.
    type Unsub;

    /// `u` is a handle that subscribing this observable may return.
    spec fn hands_out(&self, u: Self::Unsub) -> bool;

    /// What this observable's subscription of `observer` gives back, as far
    /// as the observable states it.
    open spec fn gives(&self, observer: O, r: (Self::Unsub, O)) -> bool {
        true
    }

    /// Subscribe `observer` and run the stream; the observer is handed back
    /// with what it received.  Whatever the source, the notifications it
    /// hands out respect the protocol (nothing follows a terminal one), and
    /// a closed observer receives nothing.
    fn subscribe(self, observer: O) -> (r: (Self::Unsub, O)) where
        O: Observer<Self::Item, Self::Error>,

        requires
            observer.ready(),
        ensures
            self.hands_out(r.0),
            self.gives(observer, r),
            r.1.ready(),
            r.1.continues(observer),
            observer.closed() ==> r.1.closed(),
            observer.always_open() ==> r.1.always_open(),
            observer.history().is_prefix_of(r.1.history()),
            well_formed_trace(
                r.1.history().subrange(observer.history().len() as int, r.1.history().len() as int),
            ),
            observer.closed() ==> r.1.history() == observer.history(),
    ;
}

/// Subscribe `o` to `s`: the observer is handed back with what it received,
/// which respects the protocol.
pub fn actual_subscribe<S, O>(s: S, o: O) -> (r: (S::Unsub, O)) where
    S: CoreObservable<O>,
    O: Observer<S::Item, S::Error>,

    requires
        o.ready(),
    ensures
        s.hands_out(r.0),
        r.1.ready(),
        r.1.continues(o),
        o.closed() ==> r.1.closed(),
        o.always_open() ==> r.1.always_open(),
        o.history().is_prefix_of(r.1.history()),
        well_formed_trace(r.1.history().subrange(o.history().len() as int, r.1.history().len() as int)),
        o.closed() ==> r.1.history() == o.history(),
{
    s.subscribe(o)
}

/// Move the elements of `v` into a queue, keeping their order.
pub(crate) fn into_queue<T>(v: Vec<T>) -> (q: VecDeque<T>)
    ensures
        q@ == v@,
{
    let mut v = v;
    let ghost all = v@;
    let mut q: VecDeque<T> = VecDeque::new();
    while v.len() > 0
        invariant
            v@ + q@ == all,
        decreases v@.len(),
    {
        let x = v.pop().unwrap();
        let ghost before = q@;
        q.push_front(x);
        proof {
            assert(v@ + q@ =~= v@.push(x) + before);
        }
    }
    assert(q@ =~= all);
    q
}

/// The notifications of a stream of `items` that then completes.
pub open spec fn items_then_complete<Item, E>(items: Seq<Item>) -> Seq<Notification<Item, E>> {
    nexts(items).push(Notification::Complete)
}

/// A stream of values followed by completion respects the protocol.
pub proof fn lemma_items_then_complete_well_formed<Item, E>(items: Seq<Item>)
    ensures
        well_formed_trace(items_then_complete::<Item, E>(items)),
{
    let s = items_then_complete::<Item, E>(items);
    assert forall|i: int| 0 <= i < s.len() - 1 implies !crate::observer::is_terminal(#[trigger] s[i]) by {
        assert(s[i] == Notification::<Item, E>::Next(items[i]));
    }
}

/// Emit `items` in order, stopping as soon as the observer is closed, then
/// complete the observer if it is still open.
pub fn emit_items_then_complete<Item, E, O>(observer: &mut O, items: Vec<Item>) where
    O: Observer<Item, E>,

    requires
        old(observer).ready(),
    ensures
        final(observer).ready(),
        final(observer).continues(*old(observer)),
        old(observer).closed() ==> final(observer).closed(),
        old(observer).always_open() ==> final(observer).always_open(),
        delivers(*old(observer), *final(observer), items_then_complete(items@)),
        old(observer).history().is_prefix_of(final(observer).history()),
        well_formed_trace(
            final(observer).history().subrange(
                old(observer).history().len() as int,
                final(observer).history().len() as int,
            ),
        ),
        old(observer).closed() ==> final(observer).history() == old(observer).history(),
{
    let ghost o0 = *observer;
    proof {
        observer.lemma_continues_refl();
    }
    let ghost h0 = observer.history();
    let ghost s = items_then_complete::<Item, E>(items@);
    let ghost open = observer.always_open();
    let ghost c0 = observer.closed();
    let ghost n = items@.len();
    let ghost all = items@;
    let mut queue = into_queue(items);
    let ghost mut k: int = 0;
    let ghost mut i: int = 0;
    proof {
        assert(s.take(0) =~= Seq::<Notification<Item, E>>::empty());
        assert(h0 + s.take(0) =~= h0);
    }
    while queue.len() > 0 && !observer.is_closed()
        invariant
            0 <= k <= i <= n,
            queue@ == all.subrange(i, n as int),
            observer.history() == h0 + s.take(k),
            k < i ==> observer.closed(),
            observer.ready(),
            observer.continues(o0),
            c0 ==> observer.closed() && k == 0,
            open ==> observer.always_open(),
            s == items_then_complete::<Item, E>(all),
            n == all.len(),
        decreases queue@.len(),
    {
        let item = queue.pop_front().unwrap();
        let ghost before = *observer;
        proof {
            assert(s[i] == Notification::<Item, E>::Next(item));
            lemma_emit_step(h0, s, k, i, observer.closed(), observer.history());
            if !observer.closed() {
                k = k + 1;
            }
            i = i + 1;
        }
        observer.next(item);
        proof {
            observer.lemma_continues_trans(before, o0);
        }
    }
    proof {
        if open {
            observer.lemma_always_open();
        }
        if !observer.closed() {
            assert(i == n);
            assert(k == i);
        }
    }
    if !observer.is_closed() {
        let ghost c = observer.closed();
        proof {
            assert(s[n as int] == Notification::<Item, E>::Complete);
            lemma_emit_step(h0, s, k, n as int, c, observer.history());
        }
        let ghost before = *observer;
        observer.complete();
        proof {
            if !c {
                k = k + 1;
            }
            observer.lemma_continues_trans(before, o0);
        }
    }
    proof {
        lemma_items_then_complete_well_formed::<Item, E>(all);
        if open {
            observer.lemma_always_open();
        }
        if !observer.closed() {
            assert(k == n + 1);
        }
        lemma_delivered(h0, observer.history(), s, k, open);
    }
}

} // verus!
