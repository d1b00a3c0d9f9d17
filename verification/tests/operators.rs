use rxrust::observable::create::{create, CreateEmitter};
use rxrust::observable::defer::Defer;
use rxrust::observable::from as observable;
use rxrust::observable::observable_all::{ObserverAll, SubscribeAll};
use rxrust::observable::observable_next::SubscribeNext;
use rxrust::observer::{Emitter, Observer};
use rxrust::ops::{DiscardingObserver, Fork, MergeState, MockSource, ObservableExt};
use std::cell::RefCell;
use std::rc::Rc;

#[test]
fn map_transforms_each_value() {
    let mut seen = Vec::new();
    observable::from_iter(vec![1, 2, 3]).map(|v: i32| v * 10).subscribe(|v| seen.push(v));
    assert_eq!(seen, vec![10, 20, 30]);
}

#[test]
fn map_of_map_composes() {
    let mut seen = Vec::new();
    let mut completed = false;
    observable::of(4)
        .map(|v: i32| v + 1)
        .map(|v: i32| v * 2)
        .subscribe_all(|v| seen.push(v), |_| {}, || completed = true);
    assert_eq!(seen, vec![10]);
    assert!(completed);
}

#[test]
fn on_error_swallows_the_error() {
    let mut handled = None;
    let mut observer_errors = 0;
    let mut values = Vec::new();
    let r: Result<i32, &str> = Err("oops");
    observable::of_result(r)
        .on_error(|e| handled = Some(e))
        .subscribe_all(|v| values.push(v), |_| observer_errors += 1, || {});
    assert_eq!(handled, Some("oops"));
    assert_eq!(observer_errors, 0);
    assert!(values.is_empty());
}

#[test]
fn on_complete_runs_before_the_observer_completes() {
    let log = Rc::new(RefCell::new(Vec::new()));
    let l1 = log.clone();
    let l2 = log.clone();
    let l3 = log.clone();
    observable::of(1).on_complete(move || l1.borrow_mut().push("callback")).subscribe_all(
        move |_| l2.borrow_mut().push("next"),
        |_| {},
        move || l3.borrow_mut().push("complete"),
    );
    assert_eq!(*log.borrow(), vec!["next", "callback", "complete"]);
}

#[test]
fn merge_completes_after_both_sources() {
    let mut values = Vec::new();
    let mut completions = 0;
    observable::from_iter(vec![1, 2])
        .merge(observable::from_iter(vec![3]))
        .subscribe_all(|v| values.push(v), |_| {}, || completions += 1);
    assert_eq!(values, vec![1, 2, 3]);
    assert_eq!(completions, 1);
}

#[test]
fn merge_ends_at_first_error() {
    let mut values = Vec::new();
    let mut errors = 0;
    let mut completions = 0;
    let failing: Result<i32, &str> = Err("first");
    let fine: Result<i32, &str> = Ok(7);
    observable::of_result(failing)
        .merge(observable::of_result(fine))
        .subscribe_all(|v| values.push(v), |_| errors += 1, || completions += 1);
    assert!(values.is_empty());
    assert_eq!(errors, 1);
    assert_eq!(completions, 0);
}

#[test]
fn merge_state_forwards_second_completion_only() {
    let mut completions = 0;
    let mut state = MergeState::new(ObserverAll::new(|_: i32| {}, |_: ()| {}, || completions += 1));
    state.complete();
    assert!(!state.is_closed());
    state.complete();
    assert!(state.is_closed());
    drop(state);
    assert_eq!(completions, 1);
}

#[test]
fn create_delivers_up_to_first_terminal() {
    let mut values = Vec::new();
    let mut errors = Vec::new();
    let mut completions = 0;
    create(|e: &mut CreateEmitter<i32, &str>| {
        e.next(1);
        e.error("stop");
        e.next(2);
        e.complete();
    })
    .subscribe_all(|v| values.push(v), |err| errors.push(err), || completions += 1);
    assert_eq!(values, vec![1]);
    assert_eq!(errors, vec!["stop"]);
    assert_eq!(completions, 0);
}

#[test]
fn create_returns_the_teardown() {
    let created = rxrust::observable::create::Create::new(|e: &mut CreateEmitter<i32, ()>| {
        e.next(5);
        e.complete();
        42u8
    });
    let mut seen = Vec::new();
    let (teardown, _observer) =
        rxrust::observable::CoreObservable::subscribe(created, ObserverAll::new(|v: i32| seen.push(v), |_: ()| {}, || {}));
    assert_eq!(teardown, 42);
    assert_eq!(seen, vec![5]);
}

#[test]
fn defer_makes_the_source_on_subscription() {
    let made = Rc::new(RefCell::new(0));
    let m = made.clone();
    let deferred = Defer::new(move || {
        *m.borrow_mut() += 1;
        observable::of(9)
    });
    assert_eq!(*made.borrow(), 0);
    let mut seen = Vec::new();
    deferred.subscribe(|v| seen.push(v));
    assert_eq!(*made.borrow(), 1);
    assert_eq!(seen, vec![9]);
}

#[test]
fn mock_source_emits_nothing() {
    let hits = std::cell::Cell::new(0);
    MockSource.map(|v: i32| v + 1).subscribe_all(
        |_| hits.set(hits.get() + 1),
        |_| hits.set(hits.get() + 1),
        || hits.set(hits.get() + 1),
    );
    assert_eq!(hits.get(), 0);
}

#[test]
fn discarding_observer_is_closed() {
    let mut d = DiscardingObserver;
    Observer::<i32, ()>::next(&mut d, 1);
    assert!(Observer::<i32, ()>::is_closed(&d));
}

#[test]
fn test_defer_calls_factory_on_subscribe() {
    let calls = std::cell::Cell::new(0);
    let c = &calls;
    let observable = Defer::new(move || {
        c.set(c.get() + 1);
        observable::of(42)
    });
    assert_eq!(calls.get(), 0);
    let result = RefCell::new(None);
    observable.fork().subscribe(|v| *result.borrow_mut() = Some(v));
    assert_eq!(calls.get(), 1);
    assert_eq!(*result.borrow(), Some(42));
    let result2 = RefCell::new(None);
    observable.fork().subscribe(|v| *result2.borrow_mut() = Some(v));
    assert_eq!(calls.get(), 2);
    assert_eq!(*result2.borrow(), Some(42));
}

#[test]
fn test_defer_multiple_subscriptions() {
    let calls = std::cell::Cell::new(0);
    let c = &calls;
    let observable = Defer::new(move || {
        c.set(c.get() + 1);
        observable::of(10)
    });
    let result1 = RefCell::new(None);
    let result2 = RefCell::new(None);
    observable.fork().subscribe(|v| *result1.borrow_mut() = Some(v));
    observable.fork().subscribe(|v| *result2.borrow_mut() = Some(v));
    assert_eq!(*result1.borrow(), Some(10));
    assert_eq!(*result2.borrow(), Some(10));
    assert_eq!(calls.get(), 2);
}

#[test]
fn merge_emits_the_first_source_then_the_second() {
    let mut values = Vec::new();
    observable::from_iter(vec![0, 2, 4, 6, 8])
        .merge(observable::from_iter(vec![1, 3, 5, 7, 9]))
        .subscribe(|v| values.push(v));
    assert_eq!(values, vec![0, 2, 4, 6, 8, 1, 3, 5, 7, 9]);
}
