use rxrust::observable::observable_next::ObserverN;
use rxrust::scheduler::{
    HandleState, LocalScheduler, OnComplete, OnNext, Runnable, Scheduler, SharedScheduler, Task, TaskHandle,
};
use rxrust::subscription::Subscription;
use std::cell::RefCell;
use std::marker::PhantomData;
use std::rc::Rc;

#[test]
fn task_runs_its_handler_on_its_state() {
    let out = Rc::new(RefCell::new(0));
    let o = out.clone();
    let task = Task::new(21, move |v: i32| *o.borrow_mut() = v * 2);
    task.run();
    assert_eq!(*out.borrow(), 42);
}

#[test]
fn local_scheduler_runs_at_once() {
    let out = Rc::new(RefCell::new(Vec::new()));
    let o = out.clone();
    let handle = LocalScheduler.schedule(Task::new(1, move |v: i32| o.borrow_mut().push(v)), Some(1000));
    assert_eq!(*out.borrow(), vec![1]);
    assert!(handle.is_closed());
}

#[test]
fn shared_scheduler_handle_is_finished() {
    let out = Rc::new(RefCell::new(Vec::new()));
    let o = out.clone();
    let handle = SharedScheduler.schedule(Task::new(3, move |v: i32| o.borrow_mut().push(v)), None);
    assert_eq!(*out.borrow(), vec![3]);
    assert!(handle.is_closed());
    assert!(handle.inner == Some(HandleState { cancelled: false, finished: true }));
}

#[test]
fn notification_tasks_reach_the_observer() {
    let out = Rc::new(RefCell::new(Vec::new()));
    let o = out.clone();
    let observer = ObserverN::<_, i32, ()>::new(move |v: i32| o.borrow_mut().push(v));
    OnNext { observer, item: 5, marker: PhantomData::<()> }.run();
    assert_eq!(*out.borrow(), vec![5]);
    let o2 = out.clone();
    let observer = ObserverN::<_, i32, ()>::new(move |v: i32| o2.borrow_mut().push(v));
    LocalScheduler.schedule(OnComplete { observer, marker: PhantomData::<(i32, ())> }, None);
    assert_eq!(*out.borrow(), vec![5]);
}

#[test]
fn task_handle_lifecycle() {
    let finished = TaskHandle::finished();
    assert!(finished.is_closed());
    assert!(!finished.should_run());

    let mut pending = TaskHandle::new_async();
    assert!(!pending.is_closed());
    assert!(pending.should_run());
    assert!(!pending.poll_ready());
    pending.unsubscribe();
    assert!(pending.is_closed());
    assert!(!pending.should_run());

    let mut running = TaskHandle::new_async();
    running.mark_finished();
    assert!(running.poll_ready());
    assert!(running.inner == Some(HandleState { cancelled: false, finished: true }));
}
