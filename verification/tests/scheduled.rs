use rxrust::observable::from as observable;
use rxrust::observable::observable_all::ObserverAll;
use rxrust::observable::CoreObservable;
use rxrust::observer::Observer;
use rxrust::ops::ObservableExt;
use rxrust::scheduled_ops::SharedObserver;
use rxrust::scheduler::{LocalScheduler, SharedScheduler};
use std::cell::RefCell;
use std::convert::Infallible;
use std::rc::Rc;

type Log = Rc<RefCell<Vec<String>>>;

fn recorder(log: &Log) -> ObserverAll<Box<dyn FnMut(i32)>, Box<dyn FnMut(Infallible)>, Box<dyn FnMut()>, i32, Infallible> {
    let l1 = log.clone();
    let l2 = log.clone();
    ObserverAll::new(
        Box::new(move |v: i32| l1.borrow_mut().push(format!("next {}", v))) as Box<dyn FnMut(i32)>,
        Box::new(|_: Infallible| {}) as Box<dyn FnMut(Infallible)>,
        Box::new(move || l2.borrow_mut().push("complete".to_string())) as Box<dyn FnMut()>,
    )
}

#[test]
fn observe_on_local_scheduler_delivers_everything() {
    let log: Log = Rc::new(RefCell::new(Vec::new()));
    let shared = SharedObserver::new(recorder(&log));
    let (_u, shared) =
        CoreObservable::subscribe(observable::from_iter(vec![1, 2]).observe_on(LocalScheduler), shared);
    assert_eq!(*log.borrow(), vec!["next 1", "next 2", "complete"]);
    assert!(shared.take().is_some());
    assert!(shared.take().is_none());
}

#[test]
fn delay_hands_values_through_the_scheduler() {
    let log: Log = Rc::new(RefCell::new(Vec::new()));
    let shared = SharedObserver::new(recorder(&log));
    let _ = CoreObservable::subscribe(observable::of(5).delay(1_000, SharedScheduler), shared);
    assert_eq!(*log.borrow(), vec!["next 5", "complete"]);
}

#[test]
fn delay_on_hands_values_through_the_scheduler() {
    let log: Log = Rc::new(RefCell::new(Vec::new()));
    let shared = SharedObserver::new(recorder(&log));
    let _ = CoreObservable::subscribe(observable::of(6).delay_on(10, LocalScheduler), shared);
    assert_eq!(*log.borrow(), vec!["next 6", "complete"]);
}

#[test]
fn shared_observer_reports_a_taken_observer_as_closed() {
    let log: Log = Rc::new(RefCell::new(Vec::new()));
    let mut shared = SharedObserver::new(recorder(&log));
    let other = shared.share();
    assert!(!shared.is_closed());
    let taken = other.take();
    assert!(taken.is_some());
    assert!(shared.is_closed());
    shared.next(1);
    assert!(log.borrow().is_empty());
}
