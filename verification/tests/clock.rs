use rxrust::observable::fake_timer::FakeClock;
use rxrust::observable::interval::{interval_task, Interval};
use rxrust::observable::observable_next::ObserverN;
use rxrust::observable::timer::{timer_task, Timer};
use rxrust::scheduler::{LocalScheduler, TaskState};
use std::cell::RefCell;
use std::convert::Infallible;
use std::rc::Rc;

type IntervalSink = ObserverN<Box<dyn FnMut(usize)>, usize, Infallible>;
type DelaySink = ObserverN<Box<dyn FnMut(u64)>, u64, Infallible>;

#[test]
fn fake_clock_fires_intervals_each_period() {
    let seen = Rc::new(RefCell::new(Vec::new()));
    let s = seen.clone();
    let mut clock = FakeClock::<IntervalSink, DelaySink>::new(0);
    let interval = clock.interval(10);
    interval.actual_subscribe(&mut clock, ObserverN::new(Box::new(move |v: usize| s.borrow_mut().push(v)) as Box<dyn FnMut(usize)>));
    clock.advance(25);
    assert_eq!(clock.current_time(), 25);
    assert_eq!(*seen.borrow(), vec![0, 1]);
    // A task due exactly at the new time waits for the next move.
    clock.advance(5);
    assert_eq!(*seen.borrow(), vec![0, 1]);
    clock.advance(1);
    assert_eq!(*seen.borrow(), vec![0, 1, 2]);
}

#[test]
fn fake_clock_fires_a_delay_once() {
    let seen = Rc::new(RefCell::new(Vec::new()));
    let s = seen.clone();
    let mut clock = FakeClock::<IntervalSink, DelaySink>::new(100);
    let delay = clock.delay(7);
    delay.actual_subscribe(&mut clock, ObserverN::new(Box::new(move |t: u64| s.borrow_mut().push(t)) as Box<dyn FnMut(u64)>));
    clock.advance(6);
    assert!(seen.borrow().is_empty());
    clock.advance(10);
    assert_eq!(seen.borrow().len(), 1);
    clock.advance(100);
    assert_eq!(seen.borrow().len(), 1);
}

#[test]
fn interval_task_counts_and_keeps_pace() {
    let seen = Rc::new(RefCell::new(Vec::new()));
    let s = seen.clone();
    let interval = Interval { period: 10, scheduler: LocalScheduler };
    let mut state = interval.start(
        ObserverN::<_, usize, Infallible>::new(move |v: usize| s.borrow_mut().push(v)),
        0,
    );
    assert!(interval_task(&mut state, 10) == TaskState::Sleeping(0));
    assert!(interval_task(&mut state, 13) == TaskState::Sleeping(7));
    assert!(interval_task(&mut state, 30) == TaskState::Sleeping(0));
    assert_eq!(*seen.borrow(), vec![0, 1, 2]);
}

#[test]
fn timer_task_fires_once_then_finishes() {
    let fired = Rc::new(RefCell::new(0));
    let f = fired.clone();
    let timer = Timer { delay: 5, scheduler: LocalScheduler };
    let mut state = timer.start(ObserverN::<_, (), Infallible>::new(move |_| *f.borrow_mut() += 1));
    assert!(timer_task(&mut state) == TaskState::Finished);
    assert!(timer_task(&mut state) == TaskState::Finished);
    assert_eq!(*fired.borrow(), 1);
}

#[test]
fn fake_clock_delay_receives_the_new_time() {
    let seen = Rc::new(RefCell::new(Vec::new()));
    let s = seen.clone();
    let mut clock = FakeClock::<IntervalSink, DelaySink>::new(100);
    let delay = clock.delay(7);
    delay.actual_subscribe(&mut clock, ObserverN::new(Box::new(move |t: u64| s.borrow_mut().push(t)) as Box<dyn FnMut(u64)>));
    let early = clock.delay(50);
    early.actual_subscribe(&mut clock, ObserverN::new(Box::new(|_: u64| panic!("fired too early")) as Box<dyn FnMut(u64)>));
    clock.advance(16);
    assert_eq!(*seen.borrow(), vec![116]);
    assert_eq!(clock.current_time(), 116);
}

#[test]
fn fake_clock_unsubscribed_interval_stops() {
    let seen = Rc::new(RefCell::new(Vec::new()));
    let s = seen.clone();
    let mut clock = FakeClock::<IntervalSink, DelaySink>::new(0);
    let interval = clock.interval(10);
    let sub = interval.actual_subscribe(&mut clock, ObserverN::new(Box::new(move |v: usize| s.borrow_mut().push(v)) as Box<dyn FnMut(usize)>));
    clock.advance(15);
    assert_eq!(*seen.borrow(), vec![0]);
    clock.unsubscribe(sub);
    clock.advance(100);
    assert_eq!(*seen.borrow(), vec![0]);
    assert_eq!(clock.current_time(), 115);
}
