//! Subjects: observers that multicast what they receive to their
//! subscribers.
use vstd::prelude::*;
use crate::observer::{accept, Notification, Observer};
use vstd::pervasive::cloned;

verus! {

/// The subscribers of a subject, each with the id it was given; ids are
/// handed out in increasing order and never reused.
pub struct Subscribers<Ob> {
    next_id: usize,
    list: Vec<(usize, Ob)>,
}

impl<Ob> Subscribers<Ob> {
    /// The id the next subscriber will get.
    pub closed spec fn next_id(&self) -> nat {
        self.next_id as nat
    }

    /// The subscribers, in subscription order.
    pub closed spec fn entries(&self) -> Seq<(usize, Ob)> {
        self.list@
    }

    /// Ids increase along the list and are all below `next_id`.
    pub open spec fn well_formed(&self) -> bool {
        &&& forall|i: int, j: int|
            0 <= i < j < self.entries().len() ==> self.entries()[i].0 < self.entries()[j].0
        &&& forall|i: int| 0 <= i < self.entries().len() ==> #[trigger] self.entries()[i].0 < self.next_id()
    }

    /// No subscriber yet.
    pub fn new() -> (r: Self)
        ensures
            r.entries() == Seq::<(usize, Ob)>::empty(),
            r.next_id() == 0,
            r.well_formed(),
    {
        Subscribers { next_id: 0, list: Vec::new() }
    }

    /// Add a subscriber; it gets the next id.
    pub fn add(&mut self, observer: Ob) -> (id: usize)
        requires
            old(self).well_formed(),
            old(self).next_id() < usize::MAX,
        ensures
            final(self).well_formed(),
            id == old(self).next_id(),
            final(self).next_id() == old(self).next_id() + 1,
            final(self).entries() == old(self).entries().push((id, observer)),
    {
        assert(self.entries() == self.list@ && self.next_id() == self.next_id as nat);
        let id = self.next_id;
        let ghost before = self.list@;
        self.next_id = self.next_id + 1;
        self.list.push((id, observer));
        proof {
            let after = self.list@;
            assert(after == before.push((id, observer)));
            assert forall|i: int, j: int| 0 <= i < j < after.len() implies after[i].0 < after[j].0 by {
                if j == before.len() {
                    assert(after[i] == before[i]);
                } else {
                    assert(after[i] == before[i] && after[j] == before[j]);
                }
            }
            assert forall|i: int| 0 <= i < after.len() implies #[trigger] after[i].0 < self.next_id by {
                if i < before.len() {
                    assert(after[i] == before[i]);
                }
            }
        }
        id
    }

    /// Remove the subscriber with id `id`, if there is one.
    pub fn remove(&mut self, id: usize) -> (r: Option<Ob>)
        requires
            old(self).well_formed(),
        ensures
            final(self).well_formed(),
            final(self).next_id() == old(self).next_id(),
            match r {
                Some(o) => exists|p: int|
                    0 <= p < old(self).entries().len() && #[trigger] old(self).entries()[p] == (id, o)
                        && final(self).entries() == old(self).entries().remove(p),
                None => {
                    &&& final(self).entries() == old(self).entries()
                    &&& forall|p: int| 0 <= p < old(self).entries().len() ==> #[trigger] old(self).entries()[p].0 != id
                },
            },
    {
        assert(self.entries() == self.list@ && self.next_id() == self.next_id as nat);
        let mut i: usize = 0;
        while i < self.list.len()
            invariant
                0 <= i <= self.list@.len(),
                self.list@ == old(self).list@,
                self.next_id == old(self).next_id,
                forall|a: int, b: int|
                    0 <= a < b < self.list@.len() ==> self.list@[a].0 < self.list@[b].0,
                forall|a: int| 0 <= a < self.list@.len() ==> #[trigger] self.list@[a].0 < self.next_id,
                forall|p: int| 0 <= p < i ==> #[trigger] self.list@[p].0 != id,
            decreases self.list@.len() - i,
        {
            if self.list[i].0 == id {
                let ghost before = self.list@;
                let (_, o) = self.list.remove(i);
                proof {
                    let after = self.list@;
                    assert forall|a: int, b: int| 0 <= a < b < after.len() implies after[a].0 < after[b].0 by {
                        if b < i {
                            assert(after[a] == before[a] && after[b] == before[b]);
                        } else if a < i {
                            assert(after[a] == before[a]);
                            assert(after[b] == before[b + 1]);
                        } else {
                            assert(after[a] == before[a + 1] && after[b] == before[b + 1]);
                        }
                    }
                    assert forall|a: int| 0 <= a < after.len() implies #[trigger] after[a].0 < self.next_id by {
                        if a >= i {
                            assert(after[a] == before[a + 1]);
                        } else {
                            assert(after[a] == before[a]);
                        }
                    }
                    assert(before[i as int] == (id, o));
                    assert(old(self).entries() == before);
                    assert(old(self).entries()[i as int] == (id, o));
                    assert(self.entries() == after);
                }
                return Some(o);
            }
            i = i + 1;
        }
        None
    }

    /// Take every subscriber out, leaving none.
    fn drain(&mut self) -> (r: Vec<(usize, Ob)>)
        requires
            old(self).well_formed(),
        ensures
            final(self).well_formed(),
            final(self).next_id() == old(self).next_id(),
            final(self).entries() == Seq::<(usize, Ob)>::empty(),
            r@ == old(self).entries(),
    {
        let mut taken: Vec<(usize, Ob)> = Vec::new();
        std::mem::swap(&mut taken, &mut self.list);
        taken
    }
}

/// `after` is `before` once it has been handed `n`: its history grew
/// accordingly and it kept its guarantees.
pub open spec fn got<Item, E, O: Observer<Item, E>>(
    before: O,
    after: O,
    n: Notification<Item, E>,
) -> bool {
    &&& after.history() == accept(before.closed(), before.history(), n)
    &&& after.ready()
    &&& before.closed() ==> after.closed()
    &&& before.always_open() ==> after.always_open()
}

/// `after` is `before` once it has been handed a clone of `value`.
pub open spec fn got_clone<Item: Clone, E, O: Observer<Item, E>>(value: Item, before: O, after: O) -> bool {
    exists|c: Item| #[trigger] cloned(value, c) && got(before, after, Notification::Next(c))
}

/// The subscriber `entry` was released as `released[id]`: its very
/// observer, carried forward, once handed (a clone of) the error `err`, or
/// the completion when `err` is `None`.
pub open spec fn released_after<Item, E: Clone, O: Observer<Item, E>>(
    released: Map<nat, O>,
    entry: (usize, O),
    err: Option<&E>,
) -> bool {
    let (id, o) = entry;
    &&& released.dom().contains(id as nat)
    &&& released[id as nat].continues(o)
    &&& match err {
        Some(e) => exists|c: E|
            #[trigger] cloned(*e, c) && released[id as nat].history() == accept(
                o.closed(),
                o.history(),
                Notification::Error(c),
            ),
        None => released[id as nat].history() == accept(o.closed(), o.history(), Notification::Complete),
    }
}

/// What a subject does with a value: its subscribers keep their ids and
/// their order, and each is handed a clone of the value.
pub open spec fn multicast<Item: Clone, E: Clone, O: Observer<Item, E>>(
    before: Subject<Item, E, O>,
    after: Subject<Item, E, O>,
    value: Item,
) -> bool {
    &&& after.subscribers().len() == before.subscribers().len()
    &&& forall|i: int|
        0 <= i < before.subscribers().len() ==> (#[trigger] after.subscribers()[i]).0
            == before.subscribers()[i].0 && got_clone(value, before.subscribers()[i].1, after.subscribers()[i].1)
}

/// No subscriber of `s` carries the id `id`.
pub open spec fn not_subscribed<Item: Clone, E: Clone, O: Observer<Item, E>>(
    s: Subject<Item, E, O>,
    id: nat,
) -> bool {
    forall|p: int| 0 <= p < s.subscribers().len() ==> #[trigger] s.subscribers()[p].0 != id
}

/// When a subject completes, every subscriber it had (the first, the last
/// and all between) is released as its very observer, carried forward, and
/// an open one has received the completion after everything it had.
pub proof fn law_completion_reaches_every_subscriber<Item: Clone, E: Clone, O: Observer<Item, E>>(
    before: Subject<Item, E, O>,
    after: Subject<Item, E, O>,
    i: int,
)
    requires
        forall|k: int|
            0 <= k < before.subscribers().len() ==> released_after(
                after.released(),
                #[trigger] before.subscribers()[k],
                None,
            ),
        0 <= i < before.subscribers().len(),
        !before.subscribers()[i].1.closed(),
    ensures
        ({
            let (id, o) = before.subscribers()[i];
            &&& after.released().dom().contains(id as nat)
            &&& after.released()[id as nat].continues(o)
            &&& after.released()[id as nat].history() == o.history().push(Notification::Complete)
        }),
{
    assert(released_after(after.released(), before.subscribers()[i], None));
}

/// When a subject receives an error, every subscriber it had is released as
/// its very observer, carried forward, and an open one has received a clone
/// of that error, never a completion, after everything it had.
pub proof fn law_error_reaches_every_subscriber<Item: Clone, E: Clone, O: Observer<Item, E>>(
    before: Subject<Item, E, O>,
    after: Subject<Item, E, O>,
    err: E,
    i: int,
)
    requires
        forall|k: int|
            0 <= k < before.subscribers().len() ==> released_after(
                after.released(),
                #[trigger] before.subscribers()[k],
                Some(&err),
            ),
        0 <= i < before.subscribers().len(),
        !before.subscribers()[i].1.closed(),
    ensures
        ({
            let (id, o) = before.subscribers()[i];
            &&& after.released().dom().contains(id as nat)
            &&& after.released()[id as nat].continues(o)
            &&& exists|c: E|
                #[trigger] cloned(err, c) && after.released()[id as nat].history() == o.history().push(
                    Notification::Error(c),
                )
        }),
{
    assert(released_after(after.released(), before.subscribers()[i], Some(&err)));
}

/// Once its subscription is released, an observer is handed nothing of what
/// the subject multicasts afterwards: no subscriber carries its id.
pub proof fn law_unsubscribed_receives_nothing<Item: Clone, E: Clone, O: Observer<Item, E>>(
    before: Subject<Item, E, O>,
    after: Subject<Item, E, O>,
    value: Item,
    id: nat,
)
    requires
        not_subscribed(before, id),
        multicast(before, after, value),
    ensures
        not_subscribed(after, id),
{
    assert forall|p: int| 0 <= p < after.subscribers().len() implies #[trigger] after.subscribers()[p].0
        != id by {
        assert(after.subscribers()[p].0 == before.subscribers()[p].0);
    }
}

/// A subscriber added to a subject is handed a clone of every value the
/// subject multicasts while it stays subscribed: as the last subscriber it
/// receives the next value.
pub proof fn law_new_subscriber_receives<Item: Clone, E: Clone, O: Observer<Item, E>>(
    before: Subject<Item, E, O>,
    subscribed: Subject<Item, E, O>,
    after: Subject<Item, E, O>,
    observer: O,
    value: Item,
)
    requires
        subscribed.subscribers() == before.subscribers().push((before.next_id() as usize, observer)),
        multicast(subscribed, after, value),
    ensures
        after.subscribers().last().0 == before.next_id(),
        got_clone(value, observer, after.subscribers().last().1),
{
    let n = before.subscribers().len() as int;
    assert(subscribed.subscribers()[n] == (before.next_id() as usize, observer));
    assert(after.subscribers()[n].0 == subscribed.subscribers()[n].0);
}

/// A handle on one subscription to a subject.
pub struct SubjectSubscription {
    id: usize,
    active: bool,
}

impl SubjectSubscription {
    /// The id of the subscriber this handle refers to.
    pub closed spec fn id(&self) -> nat {
        self.id as nat
    }

    /// The handle was used to unsubscribe.
    pub closed spec fn released(&self) -> bool {
        !self.active
    }

    /// Whether the handle was used to unsubscribe.
    pub fn is_closed(&self) -> (r: bool)
        ensures
            r == self.released(),
    {
        !self.active
    }
}

/// A subject multicasts what it receives to all its subscribers.
pub struct Subject<Item, E, O> {
    observers: Subscribers<O>,
    received: Ghost<Seq<Notification<Item, E>>>,
    done: Ghost<Map<nat, O>>,
}

impl<Item: Clone, E: Clone, O: Observer<Item, E>> Subject<Item, E, O> {
    /// The current subscribers, in subscription order, with their ids.
    pub closed spec fn subscribers(&self) -> Seq<(usize, O)> {
        self.observers.entries()
    }

    /// The id the next subscriber will get.
    pub closed spec fn next_id(&self) -> nat {
        self.observers.next_id()
    }

    /// The subscribers released by an error or a completion, as they were
    /// when they were released, by id.
    pub closed spec fn released(&self) -> Map<nat, O> {
        self.done@
    }

    /// The subject's invariant: subscriber ids increase and all can be called.
    pub open spec fn well_formed(&self) -> bool {
        &&& forall|i: int, j: int|
            0 <= i < j < self.subscribers().len() ==> self.subscribers()[i].0
                < self.subscribers()[j].0
        &&& forall|i: int| 0 <= i < self.subscribers().len() ==> #[trigger] self.subscribers()[i].0 < self.next_id()
        &&& forall|i: int| 0 <= i < self.subscribers().len() ==> (#[trigger] self.subscribers()[i]).1.ready()
    }

    /// A subject without subscribers.
    pub fn new() -> (r: Self)
        ensures
            r.subscribers() == Seq::<(usize, O)>::empty(),
            r.next_id() == 0,
            r.history() == Seq::<Notification<Item, E>>::empty(),
            r.released() == Map::<nat, O>::empty(),
            r.well_formed(),
    {
        Subject {
            observers: Subscribers::new(),
            received: Ghost(Seq::empty()),
            done: Ghost(Map::empty()),
        }
    }

    /// Add `observer` as the last subscriber.
    pub fn subscribe(&mut self, observer: O) -> (r: SubjectSubscription)
        requires
            old(self).well_formed(),
            old(self).next_id() < usize::MAX,
            observer.ready(),
        ensures
            final(self).well_formed(),
            r.id() == old(self).next_id(),
            !r.released(),
            final(self).next_id() == old(self).next_id() + 1,
            final(self).subscribers() == old(self).subscribers().push(
                (old(self).next_id() as usize, observer),
            ),
            final(self).history() == old(self).history(),
            final(self).released() == old(self).released(),
    {
        assert(self.subscribers() == self.observers.entries());
        assert(self.next_id() == self.observers.next_id());
        let id = self.observers.add(observer);
        assert(self.subscribers() == self.observers.entries());
        SubjectSubscription { id, active: true }
    }

    /// Remove the subscriber `subscription` refers to; the handle is closed.
    pub fn unsubscribe(&mut self, subscription: &mut SubjectSubscription) -> (r: Option<O>)
        requires
            old(self).well_formed(),
        ensures
            final(self).well_formed(),
            final(subscription).released(),
            final(subscription).id() == old(subscription).id(),
            final(self).next_id() == old(self).next_id(),
            final(self).history() == old(self).history(),
            final(self).released() == old(self).released(),
            old(subscription).released() ==> final(self).subscribers() == old(self).subscribers()
                && r is None,
            !old(subscription).released() ==> match r {
                Some(o) => exists|p: int|
                    0 <= p < old(self).subscribers().len() && #[trigger] old(self).subscribers()[p]
                        == (old(subscription).id() as usize, o) && final(self).subscribers() == old(
                        self,
                    ).subscribers().remove(p),
                None => final(self).subscribers() == old(self).subscribers() && not_subscribed(
                    *old(self),
                    old(subscription).id(),
                ),
            },
            !old(subscription).released() ==> forall|p: int|
                0 <= p < final(self).subscribers().len() ==> #[trigger] final(self).subscribers()[p].0
                    != old(subscription).id(),
    {
        if !subscription.active {
            return None;
        }
        subscription.active = false;
        assert(self.subscribers() == self.observers.entries());
        assert(self.next_id() == self.observers.next_id());
        let ghost before = self.observers.entries();
        let r = self.observers.remove(subscription.id);
        let ghost rg = r;
        assert(self.subscribers() == self.observers.entries());
        proof {
            let after = self.observers.entries();
            match rg {
                Some(o) => {
                    let p = choose|p: int|
                        0 <= p < before.len() && #[trigger] before[p] == (subscription.id, o)
                            && after == before.remove(p);
                    assert forall|a: int| 0 <= a < after.len() implies (#[trigger] after[a]).1.ready() by {
                        if a >= p {
                            assert(after[a] == before[a + 1]);
                        }
                    }
                    assert forall|a: int| 0 <= a < after.len() implies #[trigger] after[a].0 != subscription.id by {
                        if a >= p {
                            assert(after[a] == before[a + 1]);
                            assert(before[p].0 < before[a + 1].0);
                        } else {
                            assert(before[a].0 < before[p].0);
                        }
                    }
                },
                None => {},
            }
        }
        r
    }
}

impl<Item: Clone, E: Clone, O: Observer<Item, E>> Subject<Item, E, O> {
    /// Hand every subscriber, in order, a clone of `value`.
    fn broadcast_next(&mut self, value: &Item)
        requires
            old(self).well_formed(),
        ensures
            final(self).well_formed(),
            final(self).next_id() == old(self).next_id(),
            final(self).released() == old(self).released(),
            final(self).received == old(self).received,
            final(self).subscribers().len() == old(self).subscribers().len(),
            forall|i: int|
                0 <= i < old(self).subscribers().len() ==> (#[trigger] final(self).subscribers()[i]).0
                    == old(self).subscribers()[i].0 && got_clone(
                    *value,
                    old(self).subscribers()[i].1,
                    final(self).subscribers()[i].1,
                ),
    {
        let ghost all = self.observers.entries();
        let mut taken = self.observers.drain();
        let mut kept: Vec<(usize, O)> = Vec::new();
        let ghost n = all.len();
        while taken.len() > 0
            invariant
                kept@.len() + taken@.len() == n,
                taken@ == all.subrange(kept@.len() as int, n as int),
                n == all.len(),
                forall|i: int| 0 <= i < all.len() ==> (#[trigger] all[i]).1.ready(),
                forall|i: int|
                    0 <= i < kept@.len() ==> (#[trigger] kept@[i]).0 == all[i].0 && got_clone(
                        *value,
                        all[i].1,
                        kept@[i].1,
                    ),
            decreases taken@.len(),
        {
            let ghost i = kept@.len() as int;
            let (id, mut o) = taken.remove(0);
            assert(all[i] == (id, o));
            let c = value.clone();
            o.next(c);
            kept.push((id, o));
            proof {
                assert(cloned(*value, c));
                assert(got(all[i].1, kept@[i].1, Notification::Next(c)));
                assert(got_clone(*value, all[i].1, kept@[i].1));
                assert(taken@ =~= all.subrange(kept@.len() as int, n as int));
            }
        }
        self.observers.list = kept;
    }

    /// Take out every subscriber and hand each, in order, a clone of the
    /// terminal notification `n`; record what each accepted.
    fn broadcast_terminal(&mut self, err: Option<&E>)
        requires
            old(self).well_formed(),
        ensures
            final(self).well_formed(),
            final(self).next_id() == old(self).next_id(),
            final(self).subscribers() == Seq::<(usize, O)>::empty(),
            final(self).received == old(self).received,
            forall|id: nat|
                #![trigger final(self).released().dom().contains(id)]
                !(exists|i: int| 0 <= i < old(self).subscribers().len() && old(self).subscribers()[i].0 == id) ==> (
                final(self).released().dom().contains(id) == old(self).released().dom().contains(id)
                    && (old(self).released().dom().contains(id) ==> final(self).released()[id] == old(
                    self,
                ).released()[id])),
            forall|i: int|
                0 <= i < old(self).subscribers().len() ==> released_after(
                    final(self).released(),
                    #[trigger] old(self).subscribers()[i],
                    err,
                ),
    {
        let ghost all = self.observers.entries();
        let ghost done0 = self.done@;
        let mut taken = self.observers.drain();
        let ghost mut k: int = 0;
        let ghost n = all.len();
        while taken.len() > 0
            invariant
                0 <= k <= n,
                n == all.len(),
                taken@ == all.subrange(k, n as int),
                forall|i: int| 0 <= i < all.len() ==> (#[trigger] all[i]).1.ready(),
                forall|i: int, j: int| 0 <= i < j < all.len() ==> all[i].0 < all[j].0,
                self.observers.entries() == Seq::<(usize, O)>::empty(),
                self.observers.well_formed(),
                self.observers.next_id() == old(self).observers.next_id(),
                self.received == old(self).received,
                forall|id: nat|
                    #![trigger self.done@.dom().contains(id)]
                    !(exists|i: int| 0 <= i < k && all[i].0 == id) ==> (self.done@.dom().contains(id)
                        == done0.dom().contains(id) && (done0.dom().contains(id) ==> self.done@[id]
                        == done0[id])),
                forall|i: int| 0 <= i < k ==> released_after(self.done@, #[trigger] all[i], err),
            decreases taken@.len(),
        {
            let (id, mut o) = taken.remove(0);
            assert(all[k] == (id, o));
            let ghost o0 = o;
            match err {
                Some(e) => {
                    let c = e.clone();
                    o.error(c);
                    proof {
                        assert(cloned(*e, c));
                    }
                },
                None => {
                    o.complete();
                },
            }
            proof {
                self.done@ = self.done@.insert(id as nat, o);
                assert(released_after(self.done@, all[k], err));
                assert forall|i: int| 0 <= i < k + 1 implies released_after(self.done@, #[trigger] all[i], err) by {
                    if i < k {
                        assert(all[i].0 < all[k].0);
                    }
                }
                assert forall|id2: nat|
                    !(exists|i: int| 0 <= i < k + 1 && all[i].0 == id2) implies (
                    self.done@.dom().contains(id2) == done0.dom().contains(id2) && (done0.dom().contains(
                        id2,
                    ) ==> self.done@[id2] == done0[id2])) by {
                    assert(!(0 <= k < k + 1 && all[k].0 == id2));
                    if exists|i: int| 0 <= i < k && all[i].0 == id2 {
                        let i = choose|i: int| 0 <= i < k && all[i].0 == id2;
                        assert(0 <= i < k + 1 && all[i].0 == id2);
                    }
                }
                k = k + 1;
                assert(taken@ =~= all.subrange(k, n as int));
            }
        }
        proof {
            assert(k == n);
            assert(self.released() == self.done@);
            assert(old(self).subscribers() == all);
            assert(self.subscribers() == self.observers.entries());
            assert(old(self).released() == done0);
            assert forall|id2: nat|
                #![trigger self.released().dom().contains(id2)]
                !(exists|i: int| 0 <= i < old(self).subscribers().len() && old(self).subscribers()[i].0 == id2) implies (
                self.released().dom().contains(id2) == old(self).released().dom().contains(id2) && (old(
                    self,
                ).released().dom().contains(id2) ==> self.released()[id2] == old(self).released()[id2])) by {
                if exists|i: int| 0 <= i < k && all[i].0 == id2 {
                    let i = choose|i: int| 0 <= i < k && all[i].0 == id2;
                    assert(old(self).subscribers()[i] == all[i]);
                }
            }
            assert forall|i: int| 0 <= i < n implies released_after(self.released(), #[trigger] old(self).subscribers()[i], err) by {
                assert(old(self).subscribers()[i] == all[i]);
            }
        }
    }
}

impl<Item: Clone, E: Clone, O: Observer<Item, E>> Observer<Item, E> for Subject<Item, E, O> {
    closed spec fn history(&self) -> Seq<Notification<Item, E>> {
        self.received@
    }

    open spec fn ready(&self) -> bool {
        self.well_formed()
    }

    open spec fn closed(&self) -> bool {
        false
    }

    open spec fn always_open(&self) -> bool {
        true
    }

    proof fn lemma_always_open(&self) {
    }

    open spec fn continues(&self, earlier: Self) -> bool {
        true
    }

    proof fn lemma_continues_refl(&self) {
    }

    proof fn lemma_continues_trans(&self, mid: Self, earlier: Self) {
    }

    /// Every subscriber, in subscription order, receives a clone of the value.
    fn next(&mut self, value: Item)
        ensures
            final(self).next_id() == old(self).next_id(),
            final(self).released() == old(self).released(),
            multicast(*old(self), *final(self), value),
    {
        self.broadcast_next(&value);
        proof {
            self.received@ = self.received@.push(Notification::Next(value));
        }
        assert(multicast(*old(self), *self, value));
    }

    /// Every subscriber, in subscription order, receives a clone of the
    /// error and is released.
    fn error(&mut self, err: E)
        ensures
            final(self).next_id() == old(self).next_id(),
            final(self).subscribers() == Seq::<(usize, O)>::empty(),
            forall|i: int|
                0 <= i < old(self).subscribers().len() ==> released_after(
                    final(self).released(),
                    #[trigger] old(self).subscribers()[i],
                    Some(&err),
                ),
    {
        self.broadcast_terminal(Some(&err));
        proof {
            self.received@ = self.received@.push(Notification::Error(err));
        }
    }

    /// Every subscriber, in subscription order, receives the completion and
    /// is released.
    fn complete(&mut self)
        ensures
            final(self).next_id() == old(self).next_id(),
            final(self).subscribers() == Seq::<(usize, O)>::empty(),
            forall|i: int|
                0 <= i < old(self).subscribers().len() ==> released_after(
                    final(self).released(),
                    #[trigger] old(self).subscribers()[i],
                    None,
                ),
    {
        self.broadcast_terminal(None);
        proof {
            self.received@ = self.received@.push(Notification::Complete);
        }
    }

    open spec fn closed_report(&self, r: bool) -> bool {
        !r
    }

    fn is_closed(&self) -> (r: bool) {
        false
    }
}

} // verus!
