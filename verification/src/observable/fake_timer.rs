//! A virtual clock for deterministic time-based tests.
//!
//! Timers and intervals registered on a `FakeClock` fire only when the clock
//! is advanced.  Time is counted in nanoseconds since the clock's origin.
use vstd::prelude::*;
use std::collections::VecDeque;
use std::convert::Infallible;
use crate::observer::{accept, Notification, Observer};
use crate::scheduler::{Duration, Instant};

verus! {

/// A task registered on the clock: a periodic emission of sequence numbers,
/// or a single emission of the firing time followed by completion.
#[allow(inconsistent_fields)]
pub enum TimerObserver<IO, TO> {
    Interval { at: Instant, seq: usize, duration: Duration, task: IO, id: u64 },
    Timer { at: Instant, task: TO, id: u64 },
}

/// What the clock did when a task fired.  `origin` is the position, in the
/// queue the clock held when it started moving, of the task that fired.
#[allow(inconsistent_fields)]
pub ghost enum ClockEvent<IO, TO> {
    /// An interval task emitted `seq` at time `at`; its observer's history
    /// was `before`, and `observer` is that observer as the firing left it;
    /// the task was queued again exactly when `kept`.
    Tick {
        at: nat,
        seq: nat,
        origin: nat,
        before: Seq<Notification<usize, Infallible>>,
        observer: IO,
        kept: bool,
    },
    /// A timer task due at `at` emitted `value` and completed; its observer's
    /// history was `before`, and `observer` is that observer as the clock
    /// released it.
    Fire {
        at: nat,
        value: nat,
        origin: nat,
        before: Seq<Notification<Instant, Infallible>>,
        observer: TO,
    },
}

/// The values `seq`, `seq + 1`, ... (`m` of them) as notifications.
pub open spec fn ticks(seq: nat, m: nat) -> Seq<Notification<usize, Infallible>> {
    Seq::new(m, |k: int| Notification::Next((seq + k) as usize))
}

/// `released` is the observer `task` of a timer once the timer fired with
/// `v`: the same observer carried forward, which received nothing more if
/// it was closed; otherwise `v`, then completion unless it was closed by
/// then; both when it never closes.
pub open spec fn timer_outcome<TO: Observer<Instant, Infallible>>(
    task: TO,
    v: Instant,
    released: TO,
) -> bool {
    let before = task.history();
    let after = released.history();
    let closed_end = released.closed();
    &&& released.continues(task)
    &&& task.closed() ==> after == before && closed_end
    &&& !task.closed() ==> after == before.push(Notification::Next(v)).push(Notification::Complete)
        || (after == before.push(Notification::Next(v)) && closed_end)
    &&& task.always_open() ==> after == before.push(Notification::Next(v)).push(
        Notification::Complete,
    )
}

/// `y` is what became of the queued task `x` while the clock moved towards
/// `to`: a timer is untouched; an interval fired `m` times (its sequence
/// number moved `m` further, it is due `m` periods later, at most as many
/// times as it fires before `to`) and its observer, the same one carried
/// forward, received the first `l` of those `m` numbers, all of them unless
/// it is closed, and all of them when it never closes.  A task that fired
/// was queued again only after its observer reported itself open.
pub open spec fn progressed<IO: Observer<usize, Infallible>, TO>(
    x: TimerObserver<IO, TO>,
    y: TimerObserver<IO, TO>,
    to: nat,
) -> bool {
    match (x, y) {
        (
            TimerObserver::Interval { at, seq, duration, task, id },
            TimerObserver::Interval { at: at2, seq: seq2, duration: d2, task: t2, id: id2 },
        ) => {
            let m = seq2 - seq;
            let l = t2.history().len() - task.history().len();
            &&& id2 == id
            &&& 0 <= m <= x.firings(to)
            &&& at2 == at + m * duration
            &&& d2 == duration
            &&& t2.continues(task)
            &&& 0 <= l <= m
            &&& t2.history() == task.history() + ticks(seq as nat, m as nat).take(l)
            &&& l < m ==> t2.closed()
            &&& task.always_open() ==> t2.always_open() && l == m
            &&& m == 0 ==> y == x
            &&& m >= 1 ==> duration > 0 && t2.closed_report(false)
        },
        (TimerObserver::Timer { .. }, _) => y == x,
        _ => false,
    }
}

/// `e` records that the task `x`, at position `i` of the queue the clock
/// held when it started moving towards `to`, fired for the last time and
/// left the queue: a timer emitted `to` and completed; an interval whose
/// observer may close fired `m` times in all and its observer received the
/// first `l` of those numbers, all of them unless it is closed.
pub open spec fn ended_as<IO: Observer<usize, Infallible>, TO: Observer<Instant, Infallible>>(
    x: TimerObserver<IO, TO>,
    i: int,
    e: ClockEvent<IO, TO>,
    to: nat,
) -> bool {
    match (x, e) {
        (
            TimerObserver::Timer { at, task, .. },
            ClockEvent::Fire { at: a, value, origin, before, observer },
        ) => {
            &&& origin == i
            &&& a == at
            &&& at < to
            &&& value == to
            &&& before == task.history()
            &&& timer_outcome(task, to as Instant, observer)
        },
        (
            TimerObserver::Interval { at, seq, duration, task, .. },
            ClockEvent::Tick { at: a, seq: s, origin, before, observer, kept },
        ) => {
            let after = observer.history();
            let m = s - seq + 1;
            let l = after.len() - task.history().len();
            &&& origin == i
            &&& !kept
            &&& a < to
            &&& 1 <= m <= x.firings(to)
            &&& a == at + (m - 1) * duration
            &&& 0 <= l <= m
            &&& after == task.history() + ticks(seq as nat, m as nat).take(l)
            &&& observer.continues(task)
            &&& l < m ==> observer.closed()
            &&& !task.always_open()
        },
        _ => false,
    }
}

/// The clock, moving from the queue `old_q` towards `to`, holds the queue
/// `q` and logged `ev`: each entry of `q` came from its own entry of
/// `old_q` (at position `origin[j]`, no two from the same one), and each
/// entry of `old_q` is either still queued or left the queue as an event
/// of `ev` records.
pub open spec fn clock_moved<IO: Observer<usize, Infallible>, TO: Observer<Instant, Infallible>>(
    old_q: Seq<TimerObserver<IO, TO>>,
    q: Seq<TimerObserver<IO, TO>>,
    origin: Seq<int>,
    ev: Seq<ClockEvent<IO, TO>>,
    to: nat,
) -> bool {
    &&& origin.len() == q.len()
    &&& forall|j: int|
        0 <= j < q.len() ==> 0 <= #[trigger] origin[j] < old_q.len() && progressed(
            old_q[origin[j]],
            q[j],
            to,
        )
    &&& forall|j1: int, j2: int| 0 <= j1 < j2 < q.len() ==> origin[j1] != origin[j2]
    &&& forall|i: int|
        0 <= i < old_q.len() ==> origin.contains(i) || exists|k: int|
            0 <= k < ev.len() && #[trigger] ended_as(old_q[i], i, ev[k], to)
}

/// An interval first due at `at` with period `d` is due before `to` at its
/// `m`-th firing exactly when `m` is below its number of firings.
proof fn lemma_due_before(at: nat, d: nat, to: nat, m: nat)
    requires
        d > 0,
        at < to,
    ensures
        (at + m * d < to) == (m < ((to - at - 1) as nat / d + 1) as nat),
{
    let x = (to - at - 1) as int;
    let q = x / (d as int);
    vstd::arithmetic::div_mod::lemma_fundamental_div_mod(x, d as int);
    vstd::arithmetic::div_mod::lemma_mod_pos_bound(x, d as int);
    if m <= q {
        assert(m * d <= q * d) by (nonlinear_arith)
            requires
                m <= q,
                d > 0,
        ;
        assert(q * d == d * q) by (nonlinear_arith);
    } else {
        assert(m * d >= (q + 1) * d) by (nonlinear_arith)
            requires
                m >= q + 1,
                d > 0,
        ;
        assert((q + 1) * d == d * q + d) by (nonlinear_arith);
    }
}

/// Once the clock has moved to `to`, leaving no task due before `to`, every
/// timer that was due before `to` has fired on its very observer: an
/// observer that was open received `to` first, and the completion after it
/// unless it closed on `to`.
pub proof fn law_clock_fires_due_timers<IO: Observer<usize, Infallible>, TO: Observer<Instant, Infallible>>(
    old_q: Seq<TimerObserver<IO, TO>>,
    q: Seq<TimerObserver<IO, TO>>,
    origin: Seq<int>,
    ev: Seq<ClockEvent<IO, TO>>,
    to: nat,
    i: int,
)
    requires
        clock_moved(old_q, q, origin, ev, to),
        forall|j: int| 0 <= j < q.len() ==> to <= #[trigger] q[j].due(),
        0 <= i < old_q.len(),
        old_q[i] is Timer,
        old_q[i].due() < to,
        !old_q[i]->Timer_task.closed(),
    ensures
        exists|k: int|
            0 <= k < ev.len() && (#[trigger] ev[k] matches ClockEvent::Fire { value, observer, .. }
                && value == to && observer.continues(old_q[i]->Timer_task)
                && observer.history().len() >= old_q[i]->Timer_task.history().len() + 1
                && observer.history().subrange(0, old_q[i]->Timer_task.history().len() + 1 as int)
                == old_q[i]->Timer_task.history().push(Notification::Next(to as Instant))
                && (!observer.closed() ==> observer.history() == old_q[i]->Timer_task.history().push(
                Notification::Next(to as Instant),
            ).push(Notification::Complete))),
{
    let x = old_q[i];
    if origin.contains(i) {
        let j = choose|j: int| 0 <= j < origin.len() && origin[j] == i;
        assert(progressed(old_q[origin[j]], q[j], to));
        assert(q[j].due() >= to);
        assert(false);
    }
    let k = choose|k: int| 0 <= k < ev.len() && #[trigger] ended_as(old_q[i], i, ev[k], to);
    let h = x->Timer_task.history();
    let d = h.push(Notification::<Instant, Infallible>::Next(to as Instant));
    assert(d.push(Notification::Complete).subrange(0, h.len() + 1 as int) =~= d);
    assert(d.subrange(0, h.len() + 1 as int) =~= d);
    assert(ended_as(x, i, ev[k], to));
}

/// Once the clock has moved to `to`, leaving no task due before `to`, every
/// interval whose observer never closes is still queued, under the same
/// identity, and its very observer has received one number per period that
/// passed before `to`, counting on from its sequence number.
pub proof fn law_clock_ticks_open_intervals<IO: Observer<usize, Infallible>, TO: Observer<Instant, Infallible>>(
    old_q: Seq<TimerObserver<IO, TO>>,
    q: Seq<TimerObserver<IO, TO>>,
    origin: Seq<int>,
    ev: Seq<ClockEvent<IO, TO>>,
    to: nat,
    i: int,
)
    requires
        clock_moved(old_q, q, origin, ev, to),
        forall|j: int|
            0 <= j < q.len() ==> (#[trigger] q[j]).seq() == old_q[origin[j]].seq() + old_q[origin[j]].firings(to),
        0 <= i < old_q.len(),
        old_q[i] is Interval,
        old_q[i]->Interval_task.always_open(),
    ensures
        exists|j: int|
            0 <= j < q.len() && (#[trigger] q[j] matches TimerObserver::Interval { id, seq, task, .. }
                && id == old_q[i]->Interval_id && seq == old_q[i].seq() + old_q[i].firings(to)
                && task.continues(old_q[i]->Interval_task) && task.history() == old_q[i]->Interval_task.history()
                + ticks(old_q[i].seq(), old_q[i].firings(to))),
{
    let x = old_q[i];
    if !origin.contains(i) {
        let k = choose|k: int| 0 <= k < ev.len() && #[trigger] ended_as(old_q[i], i, ev[k], to);
        assert(ended_as(x, i, ev[k], to));
        assert(false);
    }
    let j = choose|j: int| 0 <= j < origin.len() && origin[j] == i;
    assert(progressed(old_q[origin[j]], q[j], to));
    assert(q[j].seq() == x.seq() + x.firings(to));
    let m = x.firings(to);
    assert(ticks(x.seq(), m).take(m as int) =~= ticks(x.seq(), m));
    if m == 0 {
        x->Interval_task.lemma_continues_refl();
        assert(ticks(x.seq(), 0) =~= Seq::<Notification<usize, Infallible>>::empty());
        assert(x->Interval_task.history() + ticks(x.seq(), 0) =~= x->Interval_task.history());
    }
}

/// A task has progressed from itself.
proof fn lemma_progressed_refl<IO: Observer<usize, Infallible>, TO>(x: TimerObserver<IO, TO>, to: nat)
    ensures
        progressed(x, x, to),
{
    if let TimerObserver::Interval { task, seq, .. } = x {
        task.lemma_continues_refl();
        assert(ticks(seq as nat, 0).take(0) =~= Seq::<Notification<usize, Infallible>>::empty());
        assert(task.history() + ticks(seq as nat, 0).take(0) =~= task.history());
    }
}

/// The first numbers of a longer run of ticks are those of a shorter one.
proof fn lemma_ticks_prefix(seq: nat, m: nat, l: int)
    requires
        0 <= l <= m,
    ensures
        ticks(seq, m + 1).take(l) == ticks(seq, m).take(l),
        ticks(seq, m + 1).take(m + 1 as int) == ticks(seq, m).take(m as int).push(
            Notification::<usize, Infallible>::Next((seq + m) as usize),
        ),
{
    assert(ticks(seq, m + 1).take(l) =~= ticks(seq, m).take(l));
    assert(ticks(seq, m + 1).take(m + 1 as int) =~= ticks(seq, m).take(m as int).push(
        Notification::<usize, Infallible>::Next((seq + m) as usize),
    ));
}

/// The interval `t`, which progressed from `x`, fires at a time before `to`
/// with its observer going from `o0` to `o1` on receiving its number; the
/// observer then reported itself open (`open_report`) or not.  Queued again
/// one period later it has progressed from `x`; dropped, the event that
/// records its firing tells how it ended.
proof fn lemma_interval_fired<IO: Observer<usize, Infallible>, TO: Observer<Instant, Infallible>>(
    x: TimerObserver<IO, TO>,
    t: TimerObserver<IO, TO>,
    o1: IO,
    open_report: bool,
    i: int,
    to: nat,
)
    requires
        progressed(x, t, to),
        x is Interval,
        t.due() < to,
        interval_fits(x, to),
        o1.continues(t->Interval_task),
        o1.history() == accept(
            t->Interval_task.closed(),
            t->Interval_task.history(),
            Notification::Next(t->Interval_seq),
        ),
        t->Interval_task.closed() ==> o1.closed(),
        t->Interval_task.always_open() ==> o1.always_open(),
        open_report ==> o1.closed_report(false),
        !open_report ==> o1.closed(),
        0 <= i,
    ensures
        ({
            let y = TimerObserver::<IO, TO>::Interval {
                at: (t->Interval_at + t->Interval_duration) as u64,
                seq: (t->Interval_seq + 1) as usize,
                duration: t->Interval_duration,
                task: o1,
                id: t->Interval_id,
            };
            open_report && t->Interval_duration > 0 ==> progressed(x, y, to)
        }),
        !(open_report && t->Interval_duration > 0) ==> ended_as(
            x,
            i,
            ClockEvent::Tick {
                at: t->Interval_at as nat,
                seq: t->Interval_seq as nat,
                origin: i as nat,
                before: t->Interval_task.history(),
                observer: o1,
                kept: false,
            },
            to,
        ),
{
    let xt = x->Interval_task;
    let o0 = t->Interval_task;
    let d = x->Interval_duration;
    let m = t->Interval_seq - x->Interval_seq;
    let l = o0.history().len() - xt.history().len();
    o0.lemma_always_open();
    o1.lemma_always_open();
    xt.lemma_always_open();
    o1.lemma_continues_trans(o0, xt);
    assert(m * d >= 0) by (nonlinear_arith)
        requires
            m >= 0,
            d >= 0,
    ;
    assert(x.due() < to);
    if d > 0 {
        lemma_due_before(x.due(), d as nat, to, m as nat);
    }
    assert(m + 1 <= x.firings(to));
    assert((m + 1) * d == m * d + d) by (nonlinear_arith);
    lemma_ticks_prefix(x->Interval_seq as nat, m as nat, l);
    if !o0.closed() {
        assert(l == m);
    }
}

/// Where the entry at index `j` of a queue stood before its first entry was
/// removed and, when `inserted`, another entry was inserted at `p`.
pub open spec fn prior_index(j: int, p: int, inserted: bool) -> int {
    if inserted && j > p {
        j
    } else {
        j + 1
    }
}

/// The time at which an event happened.
pub open spec fn event_time<IO, TO>(e: ClockEvent<IO, TO>) -> nat {
    match e {
        ClockEvent::Tick { at, .. } => at,
        ClockEvent::Fire { at, .. } => at,
    }
}

impl<IO, TO> TimerObserver<IO, TO> {
    /// The time the task is due.
    pub open spec fn due(&self) -> nat {
        match self {
            TimerObserver::Interval { at, .. } => *at as nat,
            TimerObserver::Timer { at, .. } => *at as nat,
        }
    }

    /// The identity the task was registered with.
    pub open spec fn id(&self) -> u64 {
        match self {
            TimerObserver::Interval { id, .. } => *id,
            TimerObserver::Timer { id, .. } => *id,
        }
    }

    /// The period of an interval task; zero for a timer.
    pub open spec fn period(&self) -> nat {
        match self {
            TimerObserver::Interval { duration, .. } => *duration as nat,
            TimerObserver::Timer { .. } => 0,
        }
    }

    /// The sequence number an interval task emits next; zero for a timer.
    pub open spec fn seq(&self) -> nat {
        match self {
            TimerObserver::Interval { seq, .. } => *seq as nat,
            TimerObserver::Timer { .. } => 0,
        }
    }

    /// The number of times the task fires when the clock is moved to `to`,
    /// provided its observer stays open.
    pub open spec fn firings(&self, to: nat) -> nat {
        if self.due() >= to {
            0
        } else {
            match self {
                TimerObserver::Interval { at, duration, .. } => if *duration == 0 {
                    1
                } else {
                    ((to - *at - 1) as nat / *duration as nat + 1) as nat
                },
                TimerObserver::Timer { .. } => 1,
            }
        }
    }

    fn id_of(&self) -> (r: u64)
        ensures
            r == self.id(),
    {
        match self {
            TimerObserver::Interval { id, .. } => *id,
            TimerObserver::Timer { id, .. } => *id,
        }
    }

    fn at(&self) -> (r: Instant)
        ensures
            r == self.due(),
    {
        match self {
            TimerObserver::Interval { at, .. } => *at,
            TimerObserver::Timer { at, .. } => *at,
        }
    }
}

/// The sum of the firings of the tasks of `s` when the clock moves to `to`.
pub open spec fn total_firings<IO, TO>(s: Seq<TimerObserver<IO, TO>>, to: nat) -> nat
    decreases s.len(),
{
    if s.len() == 0 {
        0
    } else {
        s[0].firings(to) + total_firings(s.subrange(1, s.len() as int), to)
    }
}

/// Inserting a task adds its firings to the total.
proof fn lemma_total_insert<IO, TO>(
    s: Seq<TimerObserver<IO, TO>>,
    p: int,
    e: TimerObserver<IO, TO>,
    to: nat,
)
    requires
        0 <= p <= s.len(),
    ensures
        total_firings(s.insert(p, e), to) == total_firings(s, to) + e.firings(to),
    decreases p,
{
    let t = s.insert(p, e);
    if p == 0 {
        assert(t.subrange(1, t.len() as int) =~= s);
    } else {
        let rest = s.subrange(1, s.len() as int);
        assert(t.subrange(1, t.len() as int) =~= rest.insert(p - 1, e));
        assert(t[0] == s[0]);
        lemma_total_insert(rest, p - 1, e, to);
    }
}

/// An interval that fires and is rescheduled one period later has one
/// firing fewer left.
proof fn lemma_interval_reschedule(at: nat, d: nat, to: nat)
    requires
        at < to,
        d > 0,
    ensures
        (if at + d >= to { 0 } else { ((to - (at + d) - 1) as nat / d + 1) as nat })
            == ((to - at - 1) as nat / d + 1) as nat - 1,
{
    let x = (to - at - 1) as int;
    if at + d >= to {
        vstd::arithmetic::div_mod::lemma_basic_div(x, d as int);
    } else {
        vstd::arithmetic::div_mod::lemma_div_minus_one(x, d as int);
        assert((to - (at + d) - 1) as int == -(d as int) + x);
        vstd::arithmetic::div_mod::lemma_div_pos_is_pos(-(d as int) + x, d as int);
    }
}

/// A virtual clock holding the tasks waiting for their time, ordered by due
/// time.
pub struct FakeClock<IO, TO> {
    current: Instant,
    vec: VecDeque<TimerObserver<IO, TO>>,
    next_id: u64,
    events: Ghost<Seq<ClockEvent<IO, TO>>>,
}

/// The subscription of a task registered on a fake clock: it can take the
/// task off the clock.
pub struct ClockSubscription {
    pub id: u64,
}

/// An observable of sequence numbers emitted periodically on a fake clock.
pub struct IntervalObservable {
    pub duration: Duration,
}

/// An observable of a single time value emitted after a delay on a fake
/// clock.
pub struct DelayObservable {
    pub delay: Duration,
}

impl<IO, TO> FakeClock<IO, TO> where
    IO: Observer<usize, Infallible>,
    TO: Observer<Instant, Infallible>,
 {
    /// The current virtual time.
    pub closed spec fn now(&self) -> nat {
        self.current as nat
    }

    /// The tasks waiting on the clock, in the order they will fire.
    pub closed spec fn queue(&self) -> Seq<TimerObserver<IO, TO>> {
        self.vec@
    }

    /// The identity the next registered task will get: every waiting task
    /// got a smaller one.
    pub closed spec fn next_id(&self) -> nat {
        self.next_id as nat
    }

    /// What the clock has done so far.
    pub closed spec fn log(&self) -> Seq<ClockEvent<IO, TO>> {
        self.events@
    }

    /// The clock's invariant: waiting tasks are ordered by due time, none is
    /// due before the current time, and their observers can be called.
    pub open spec fn well_formed(&self) -> bool {
        &&& forall|i: int, j: int|
            0 <= i < j < self.queue().len() ==> self.queue()[i].due() <= self.queue()[j].due()
        &&& forall|i: int| 0 <= i < self.queue().len() ==> self.now() <= #[trigger] self.queue()[i].due()
        &&& forall|i: int| 0 <= i < self.queue().len() ==> task_ready(#[trigger] self.queue()[i])
        &&& forall|i: int| 0 <= i < self.queue().len() ==> (#[trigger] self.queue()[i]).id() < self.next_id()
    }

    /// A clock starting at time `start` with nothing scheduled.
    pub fn new(start: Instant) -> (r: Self)
        ensures
            r.now() == start,
            r.queue() == Seq::<TimerObserver<IO, TO>>::empty(),
            r.log() == Seq::<ClockEvent<IO, TO>>::empty(),
            r.next_id() == 0,
            r.well_formed(),
    {
        FakeClock { current: start, vec: VecDeque::new(), next_id: 0, events: Ghost(Seq::empty()) }
    }

    /// The current virtual time.
    pub fn current_time(&self) -> (r: Instant)
        ensures
            r == self.now(),
    {
        self.current
    }

    /// An observable emitting 0, 1, 2, ... every `duration` of virtual time.
    pub fn interval(&self, duration: Duration) -> (r: IntervalObservable)
        ensures
            r.duration == duration,
    {
        IntervalObservable { duration }
    }

    /// An observable emitting the firing time once, `delay` after subscription.
    pub fn delay(&self, delay: Duration) -> (r: DelayObservable)
        ensures
            r.delay == delay,
    {
        DelayObservable { delay }
    }

    /// Hand out the next identity.
    fn take_id(&mut self) -> (r: u64)
        requires
            old(self).well_formed(),
            old(self).next_id() < u64::MAX,
        ensures
            final(self).well_formed(),
            r == old(self).next_id(),
            final(self).next_id() == old(self).next_id() + 1,
            final(self).now() == old(self).now(),
            final(self).queue() == old(self).queue(),
            final(self).log() == old(self).log(),
    {
        let id = self.next_id;
        self.next_id = self.next_id + 1;
        proof {
            assert forall|i: int| 0 <= i < self.queue().len() implies (#[trigger] self.queue()[i]).id()
                < self.next_id() by {
                assert(old(self).queue()[i].id() < old(self).next_id());
            }
        }
        id
    }

    /// Take the task of `sub` off the clock: it will not fire any more.
    /// The other tasks keep their order; time and log are unchanged.
    pub fn unsubscribe(&mut self, sub: ClockSubscription)
        requires
            old(self).well_formed(),
        ensures
            final(self).well_formed(),
            final(self).queue() == without_id(old(self).queue(), sub.id),
            final(self).now() == old(self).now(),
            final(self).log() == old(self).log(),
            final(self).next_id() == old(self).next_id(),
    {
        let ghost all = self.vec@;
        let ghost n = all.len();
        proof {
            assert forall|a: int| 0 <= a < n implies self.current <= (#[trigger] all[a]).due()
                && task_ready(all[a]) && all[a].id() < self.next_id by {
                assert(self.queue()[a] == all[a]);
            }
            assert forall|a: int, b: int| 0 <= a < b < n implies all[a].due() <= all[b].due() by {
                assert(self.queue()[a] == all[a] && self.queue()[b] == all[b]);
            }
        }
        let mut kept: VecDeque<TimerObserver<IO, TO>> = VecDeque::new();
        let ghost mut i: int = 0;
        proof {
            assert(all.take(0) =~= Seq::<TimerObserver<IO, TO>>::empty());
        }
        while self.vec.len() > 0
            invariant
                0 <= i <= n,
                n == all.len(),
                self.vec@ == all.subrange(i, n as int),
                kept@ == without_id(all.take(i), sub.id),
                self.current == old(self).current,
                self.next_id == old(self).next_id,
                self.events == old(self).events,
                all == old(self).vec@,
                forall|a: int, b: int| 0 <= a < b < n ==> all[a].due() <= all[b].due(),
                forall|a: int|
                    0 <= a < n ==> self.current <= (#[trigger] all[a]).due() && task_ready(all[a])
                        && all[a].id() < self.next_id,
                forall|a: int, b: int| 0 <= a < b < kept@.len() ==> kept@[a].due() <= kept@[b].due(),
                kept@.len() > 0 && i < n ==> kept@.last().due() <= all[i].due(),
                forall|a: int|
                    0 <= a < kept@.len() ==> self.current <= (#[trigger] kept@[a]).due() && task_ready(
                        kept@[a],
                    ) && kept@[a].id() < self.next_id,
            decreases n - i,
        {
            let t = self.vec.pop_front().unwrap();
            proof {
                assert(t == all[i]);
                assert(all.take(i + 1) =~= all.take(i).push(t));
                assert(all.take(i + 1).drop_last() =~= all.take(i));
                if i + 1 < n {
                    assert(all[i].due() <= all[i + 1].due());
                }
                assert(self.vec@ =~= all.subrange(i + 1, n as int));
            }
            if t.id_of() != sub.id {
                kept.push_back(t);
            }
            proof {
                i = i + 1;
            }
        }
        proof {
            assert(all.take(n as int) =~= all);
        }
        self.vec = kept;
    }

    /// Insert a task keeping the queue ordered.
    fn insert(&mut self, task: TimerObserver<IO, TO>)
        requires
            old(self).well_formed(),
            old(self).now() <= task.due(),
            task_ready(task),
            task.id() < old(self).next_id(),
        ensures
            final(self).well_formed(),
            final(self).now() == old(self).now(),
            final(self).log() == old(self).log(),
            final(self).next_id() == old(self).next_id(),
            exists|p: int|
                0 <= p <= old(self).queue().len() && final(self).queue() == #[trigger] old(self).queue().insert(
                    p,
                    task,
                ),
    {
        let ghost s = self.vec@;
        assert(self.queue() == self.vec@);
        order_insert(&mut self.vec, task);
        proof {
            let p = choose|p: int|
                0 <= p <= s.len() && self.vec@ == s.insert(p, task) && (forall|i: int|
                    0 <= i < p ==> s[i].due() <= task.due()) && (forall|i: int|
                    p <= i < s.len() ==> task.due() < s[i].due());
            assert forall|i: int| 0 <= i < self.vec@.len() implies self.now() <= #[trigger] self.vec@[i].due()
                && task_ready(self.vec@[i]) && self.vec@[i].id() < self.next_id() by {
                if i < p {
                    assert(self.vec@[i] == s[i]);
                } else if i > p {
                    assert(self.vec@[i] == s[i - 1]);
                }
            }
        }
    }

    /// Remove and return the first task if it is due strictly before `to`;
    /// the current time becomes its due time.
    fn turn_to_first_expired(&mut self, to: Instant) -> (r: Option<TimerObserver<IO, TO>>)
        requires
            old(self).well_formed(),
            old(self).now() <= to,
        ensures
            final(self).well_formed(),
            final(self).log() == old(self).log(),
            final(self).next_id() == old(self).next_id(),
            final(self).now() <= to,
            match r {
                Some(task) => {
                    &&& old(self).queue().len() > 0
                    &&& task == old(self).queue()[0]
                    &&& task.due() < to
                    &&& final(self).queue() == old(self).queue().subrange(
                        1,
                        old(self).queue().len() as int,
                    )
                    &&& final(self).now() == task.due()
                    &&& task_ready(task)
                },
                None => {
                    &&& final(self).queue() == old(self).queue()
                    &&& final(self).now() == old(self).now()
                    &&& (old(self).queue().len() == 0 || old(self).queue()[0].due() >= to)
                },
            },
    {
        if self.vec.len() == 0 {
            return None;
        }
        let first_at = self.vec[0].at();
        if to > first_at {
            let task = self.vec.pop_front().unwrap();
            self.current = first_at;
            Some(task)
        } else {
            None
        }
    }

    /// Move the clock forward by `duration`, firing, in time order, every
    /// task due strictly before the new time.  An interval task emits its
    /// sequence number and, if its observer then reports itself open (and
    /// its period is not zero), waits one more period; otherwise it leaves
    /// the queue.  A timer task emits the new time, completes and leaves the
    /// queue.  Tasks due at or after the new time stay queued untouched.
    #[verifier::rlimit(80)]
    pub fn advance(&mut self, duration: Duration)
        requires
            old(self).well_formed(),
            old(self).now() + duration <= u64::MAX,
            forall|i: int|
                0 <= i < old(self).queue().len() ==> interval_fits(
                    #[trigger] old(self).queue()[i],
                    (old(self).now() + duration) as nat,
                ),
        ensures
            final(self).well_formed(),
            final(self).now() == old(self).now() + duration,
            final(self).next_id() == old(self).next_id(),
            forall|i: int|
                0 <= i < final(self).queue().len() ==> final(self).now()
                    <= #[trigger] final(self).queue()[i].due(),
            exists|origin: Seq<int>|
                #[trigger] clock_moved(
                    old(self).queue(),
                    final(self).queue(),
                    origin,
                    final(self).log().subrange(old(self).log().len() as int, final(self).log().len() as int),
                    final(self).now(),
                ) && forall|j: int|
                    0 <= j < final(self).queue().len() ==> (#[trigger] final(self).queue()[j]).seq()
                        == old(self).queue()[origin[j]].seq() + old(self).queue()[origin[j]].firings(
                        final(self).now(),
                    ),
            old(self).log().is_prefix_of(final(self).log()),
            forall|i: int|
                old(self).log().len() <= i < final(self).log().len() ==> old(self).now()
                    <= event_time(#[trigger] final(self).log()[i]) < final(self).now(),
            forall|i: int, j: int|
                old(self).log().len() <= i < j < final(self).log().len() ==> event_time(
                    final(self).log()[i],
                ) <= event_time(final(self).log()[j]),
    {
        let to = self.current + duration;
        let ghost start = self.current as nat;
        let ghost old_log = self.events@;
        let ghost old_q = self.vec@;
        let ghost nid = self.next_id();
        let ghost mut origin: Seq<int> = Seq::new(old_q.len(), |j: int| j);
        proof {
            assert forall|j: int| 0 <= j < old_q.len() implies progressed(old_q[j], old_q[j], to as nat) by {
                lemma_progressed_refl(old_q[j], to as nat);
            }
            assert forall|i: int| 0 <= i < old_q.len() implies origin.contains(i) by {
                assert(origin[i] == i);
            }
            assert(self.log().subrange(old_log.len() as int, self.log().len() as int) =~= Seq::<
                ClockEvent<IO, TO>,
            >::empty());
        }
        loop
            invariant
                self.well_formed(),
                self.next_id() == nid,
                start <= self.now() <= to,
                forall|i: int|
                    0 <= i < self.queue().len() ==> interval_fits(#[trigger] self.queue()[i], to as nat),
                forall|i: int|
                    0 <= i < old_q.len() ==> interval_fits(#[trigger] old_q[i], to as nat),
                old_log.is_prefix_of(self.log()),
                forall|i: int|
                    old_log.len() <= i < self.log().len() ==> start <= event_time(
                        #[trigger] self.log()[i],
                    ) <= self.now() && event_time(self.log()[i]) < to,
                forall|i: int, j: int|
                    old_log.len() <= i < j < self.log().len() ==> event_time(self.log()[i])
                        <= event_time(self.log()[j]),
                clock_moved(
                    old_q,
                    self.queue(),
                    origin,
                    self.log().subrange(old_log.len() as int, self.log().len() as int),
                    to as nat,
                ),
            ensures
                self.well_formed(),
                self.next_id() == nid,
                start <= self.now() <= to,
                self.queue().len() == 0 || self.queue()[0].due() >= to,
                old_log.is_prefix_of(self.log()),
                forall|i: int|
                    old_log.len() <= i < self.log().len() ==> start <= event_time(
                        #[trigger] self.log()[i],
                    ) < to,
                forall|i: int, j: int|
                    old_log.len() <= i < j < self.log().len() ==> event_time(self.log()[i])
                        <= event_time(self.log()[j]),
                clock_moved(
                    old_q,
                    self.queue(),
                    origin,
                    self.log().subrange(old_log.len() as int, self.log().len() as int),
                    to as nat,
                ),
            decreases total_firings(self.queue(), to as nat),
        {
            let ghost before = self.queue();
            let ghost log0 = self.log();
            let ghost ev0 = log0.subrange(old_log.len() as int, log0.len() as int);
            let ghost origin0 = origin;
            match self.turn_to_first_expired(to) {
                None => {
                    break ;
                },
                Some(task) => {
                    let ghost t = task;
                    let ghost o = origin0[0];
                    let ghost x = old_q[o];
                    let ghost mut inserted = false;
                    let ghost mut p: int = 0;
                    let ghost mut e: ClockEvent<IO, TO> = vstd::pervasive::arbitrary();
                    proof {
                        assert(before =~= seq![before[0]] + before.subrange(1, before.len() as int));
                        assert(total_firings(before, to as nat) == before[0].firings(to as nat)
                            + total_firings(self.queue(), to as nat));
                        assert(progressed(x, t, to as nat));
                        assert(interval_fits(x, to as nat));
                        assert(t.id() < self.next_id());
                    }
                    match task {
                        TimerObserver::Interval { seq, duration, mut task, at, id } => {
                            proof {
                                assert(interval_fits(before[0], to as nat));
                            }
                            let ghost o0 = task;
                            task.next(seq);
                            let open = !task.is_closed();
                            let keep = open && duration > 0;
                            proof {
                                lemma_interval_fired(x, t, task, open, o, to as nat);
                                e = ClockEvent::Tick {
                                    at: at as nat,
                                    seq: seq as nat,
                                    origin: o as nat,
                                    before: o0.history(),
                                    observer: task,
                                    kept: keep,
                                };
                                self.events@ = self.events@.push(e);
                                assert(old_log.is_prefix_of(self.events@));
                            }
                            if keep {
                                let ghost mid = self.queue();
                                proof {
                                    lemma_interval_reschedule(at as nat, duration as nat, to as nat);
                                }
                                let next = TimerObserver::Interval {
                                    seq: seq + 1,
                                    task,
                                    at: at + duration,
                                    duration,
                                    id,
                                };
                                self.insert(next);
                                proof {
                                    let pp = choose|pp: int|
                                        0 <= pp <= mid.len() && self.queue() == mid.insert(pp, next);
                                    p = pp;
                                    inserted = true;
                                    lemma_total_insert(mid, p, next, to as nat);
                                    assert forall|i: int|
                                        0 <= i < self.queue().len() implies interval_fits(
                                        #[trigger] self.queue()[i],
                                        to as nat,
                                    ) by {
                                        if i < p {
                                            assert(self.queue()[i] == mid[i]);
                                        } else if i > p {
                                            assert(self.queue()[i] == mid[i - 1]);
                                        }
                                    }
                                    assert(self.queue()[p] == next);
                                    assert(progressed(x, next, to as nat));
                                }
                            } else {
                                proof {
                                    assert(ended_as(x, o, e, to as nat));
                                }
                            }
                        },
                        TimerObserver::Timer { mut task, at, .. } => {
                            let ghost o0 = task;
                            proof {
                                o0.lemma_always_open();
                            }
                            task.next(to);
                            proof {
                                task.lemma_always_open();
                            }
                            let ghost mid = task;
                            task.complete();
                            proof {
                                task.lemma_continues_trans(mid, o0);
                                e = ClockEvent::Fire {
                                    at: at as nat,
                                    value: to as nat,
                                    origin: o as nat,
                                    before: o0.history(),
                                    observer: task,
                                };
                                self.events@ = self.events@.push(e);
                                assert(old_log.is_prefix_of(self.events@));
                                assert(ended_as(x, o, e, to as nat));
                            }
                        },
                    }
                    proof {
                        let q = self.queue();
                        let rest = origin0.subrange(1, origin0.len() as int);
                        origin = if inserted { rest.insert(p, o) } else { rest };
                        let ev = self.log().subrange(old_log.len() as int, self.log().len() as int);
                        assert(ev =~= ev0.push(e));
                        // Where each queued entry stood before this step.
                        assert forall|j: int| 0 <= j < q.len() && !(inserted && j == p) implies 1
                            <= prior_index(j, p, inserted) < before.len() && #[trigger] q[j]
                            == before[prior_index(j, p, inserted)] && origin[j] == origin0[prior_index(
                            j,
                            p,
                            inserted,
                        )] by {
                            let jj = if inserted && j > p { j } else { j + 1 };
                            if inserted {
                                if j < p {
                                    assert(q[j] == before.subrange(1, before.len() as int)[j]);
                                } else {
                                    assert(q[j] == before.subrange(1, before.len() as int)[j - 1]);
                                }
                            } else {
                                assert(q[j] == before.subrange(1, before.len() as int)[j]);
                            }
                        }
                        assert forall|j: int|
                            0 <= j < q.len() implies 0 <= #[trigger] origin[j] < old_q.len()
                            && progressed(old_q[origin[j]], q[j], to as nat) by {
                            if !(inserted && j == p) {
                                let jj = if inserted && j > p { j } else { j + 1 };
                                assert(origin0[jj] == origin[j]);
                            }
                        }
                        assert forall|j1: int, j2: int|
                            0 <= j1 < j2 < q.len() implies origin[j1] != origin[j2] by {
                            let jj1 = if inserted && j1 > p { j1 } else { j1 + 1 };
                            let jj2 = if inserted && j2 > p { j2 } else { j2 + 1 };
                            if inserted && j1 == p {
                                assert(origin0[0] != origin0[jj2]);
                            } else if inserted && j2 == p {
                                assert(origin0[0] != origin0[jj1]);
                            } else {
                                assert(origin0[jj1] != origin0[jj2]);
                            }
                        }
                        assert forall|i: int|
                            0 <= i < old_q.len() implies origin.contains(i) || exists|k: int|
                                0 <= k < ev.len() && #[trigger] ended_as(old_q[i], i, ev[k], to as nat) by {
                            if origin0.contains(i) {
                                let jj = choose|jj: int| 0 <= jj < origin0.len() && origin0[jj] == i;
                                if jj == 0 {
                                    if inserted {
                                        assert(origin[p] == i);
                                    } else {
                                        assert(ended_as(old_q[i], i, ev[ev0.len() as int], to as nat));
                                    }
                                } else {
                                    let j = if inserted && jj - 1 >= p { jj } else { jj - 1 };
                                    assert(origin[j] == i);
                                }
                            } else {
                                let k = choose|k: int|
                                    0 <= k < ev0.len() && #[trigger] ended_as(old_q[i], i, ev0[k], to as nat);
                                assert(ev[k] == ev0[k]);
                            }
                        }
                        assert(clock_moved(old_q, q, origin, ev, to as nat));
                    }
                },
            }
        }
        proof {
            let q = self.queue();
            let ev = self.log().subrange(old_log.len() as int, self.log().len() as int);
            assert forall|j: int| 0 <= j < q.len() implies (#[trigger] q[j]).seq() == old_q[origin[j]].seq()
                + old_q[origin[j]].firings(to as nat) by {
                let x = old_q[origin[j]];
                assert(progressed(x, q[j], to as nat));
                assert(q[0].due() <= q[j].due());
                if x is Interval {
                    let m = q[j].seq() - x.seq();
                    if x.due() < to && m >= 1 {
                        assert(x.period() > 0);
                        lemma_due_before(x.due(), x.period(), to as nat, m as nat);
                    }
                }
            }
        }
        self.current = to;
        proof {
            let q = self.queue();
            let ev = self.log().subrange(old_log.len() as int, self.log().len() as int);
            assert(clock_moved(old_q, q, origin, ev, self.now()));
        }
    }
}

/// The observer of a task can be called.
pub open spec fn task_ready<IO, TO>(t: TimerObserver<IO, TO>) -> bool where
    IO: Observer<usize, Infallible>,
    TO: Observer<Instant, Infallible>,
 {
    match t {
        TimerObserver::Interval { task, .. } => task.ready(),
        TimerObserver::Timer { task, .. } => task.ready(),
    }
}

/// An interval task can fire up to time `to`: its period is not zero unless
/// its observer is already closed (it then fires once and leaves the
/// queue), and neither its sequence number nor its due time overflows.
pub open spec fn interval_fits<IO: Observer<usize, Infallible>, TO>(t: TimerObserver<IO, TO>, to: nat) -> bool {
    match t {
        TimerObserver::Interval { duration, task, .. } => {
            &&& duration > 0 || task.closed()
            &&& to + duration <= u64::MAX
            &&& t.seq() + t.firings(to) <= usize::MAX
        },
        TimerObserver::Timer { .. } => true,
    }
}

/// Insert `task` after every task due no later than it, keeping the queue
/// ordered by due time.
fn order_insert<IO, TO>(tasks: &mut VecDeque<TimerObserver<IO, TO>>, task: TimerObserver<IO, TO>)
    requires
        forall|i: int, j: int|
            0 <= i < j < old(tasks)@.len() ==> old(tasks)@[i].due() <= old(tasks)@[j].due(),
    ensures
        forall|i: int, j: int|
            0 <= i < j < final(tasks)@.len() ==> final(tasks)@[i].due() <= final(tasks)@[j].due(),
        exists|p: int|
            0 <= p <= old(tasks)@.len() && final(tasks)@ == #[trigger] old(tasks)@.insert(p, task) && (
            forall|i: int| 0 <= i < p ==> old(tasks)@[i].due() <= task.due()) && (forall|i: int|
                p <= i < old(tasks)@.len() ==> task.due() < old(tasks)@[i].due()),
{
    let at = task.at();
    let mut lo: usize = 0;
    let mut hi: usize = tasks.len();
    while lo < hi
        invariant
            0 <= lo <= hi <= tasks@.len(),
            tasks@ == old(tasks)@,
            forall|i: int, j: int|
                0 <= i < j < tasks@.len() ==> tasks@[i].due() <= tasks@[j].due(),
            forall|i: int| 0 <= i < lo ==> tasks@[i].due() <= at,
            forall|i: int| hi <= i < tasks@.len() ==> at < tasks@[i].due(),
        decreases hi - lo,
    {
        let mid = lo + (hi - lo) / 2;
        if tasks[mid].at() <= at {
            lo = mid + 1;
        } else {
            hi = mid;
        }
    }
    let ghost s = tasks@;
    tasks.insert(lo, task);
    proof {
        let t = tasks@;
        assert forall|i: int, j: int| 0 <= i < j < t.len() implies t[i].due() <= t[j].due() by {
            if j < lo {
                assert(t[i] == s[i] && t[j] == s[j]);
            } else if j == lo {
                assert(t[i] == s[i]);
            } else if i == lo {
                assert(t[j] == s[j - 1]);
            } else if i < lo {
                assert(t[i] == s[i] && t[j] == s[j - 1]);
            } else {
                assert(t[i] == s[i - 1] && t[j] == s[j - 1]);
            }
        }
    }
}

impl IntervalObservable {
    /// Register `observer` on `clock`: it receives 0 after one period, then
    /// 1, 2, ... each period after that.  The subscription can take the
    /// task off the clock.
    pub fn actual_subscribe<IO, TO>(self, clock: &mut FakeClock<IO, TO>, observer: IO) -> (r: ClockSubscription) where
        IO: Observer<usize, Infallible>,
        TO: Observer<Instant, Infallible>,

        requires
            old(clock).well_formed(),
            observer.ready(),
            old(clock).now() + self.duration <= u64::MAX,
            old(clock).next_id() < u64::MAX,
        ensures
            final(clock).well_formed(),
            final(clock).now() == old(clock).now(),
            final(clock).log() == old(clock).log(),
            final(clock).next_id() == old(clock).next_id() + 1,
            r.id == old(clock).next_id(),
            exists|p: int|
                0 <= p <= old(clock).queue().len() && final(clock).queue() == #[trigger] old(
                    clock,
                ).queue().insert(
                    p,
                    TimerObserver::Interval {
                        at: (old(clock).now() + self.duration) as u64,
                        seq: 0,
                        duration: self.duration,
                        task: observer,
                        id: r.id,
                    },
                ),
    {
        let id = clock.take_id();
        let task = TimerObserver::Interval {
            at: clock.current_time() + self.duration,
            duration: self.duration,
            seq: 0,
            task: observer,
            id,
        };
        clock.insert(task);
        ClockSubscription { id }
    }
}

impl DelayObservable {
    /// Register `observer` on `clock`: once `delay` has passed it receives the
    /// time the clock was moved to and then completes.  The subscription can
    /// take the task off the clock.
    pub fn actual_subscribe<IO, TO>(self, clock: &mut FakeClock<IO, TO>, observer: TO) -> (r: ClockSubscription) where
        IO: Observer<usize, Infallible>,
        TO: Observer<Instant, Infallible>,

        requires
            old(clock).well_formed(),
            observer.ready(),
            old(clock).now() + self.delay <= u64::MAX,
            old(clock).next_id() < u64::MAX,
        ensures
            final(clock).well_formed(),
            final(clock).now() == old(clock).now(),
            final(clock).log() == old(clock).log(),
            final(clock).next_id() == old(clock).next_id() + 1,
            r.id == old(clock).next_id(),
            exists|p: int|
                0 <= p <= old(clock).queue().len() && final(clock).queue() == #[trigger] old(
                    clock,
                ).queue().insert(
                    p,
                    TimerObserver::Timer {
                        at: (old(clock).now() + self.delay) as u64,
                        task: observer,
                        id: r.id,
                    },
                ),
    {
        let id = clock.take_id();
        let task = TimerObserver::Timer { at: clock.current_time() + self.delay, task: observer, id };
        clock.insert(task);
        ClockSubscription { id }
    }
}

/// The tasks of `s` but those registered with the identity `id`, in order.
pub open spec fn without_id<IO, TO>(s: Seq<TimerObserver<IO, TO>>, id: u64) -> Seq<TimerObserver<IO, TO>>
    decreases s.len(),
{
    if s.len() == 0 {
        s
    } else if s.last().id() == id {
        without_id(s.drop_last(), id)
    } else {
        without_id(s.drop_last(), id).push(s.last())
    }
}

} // verus!
