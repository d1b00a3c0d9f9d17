use rxrust::observable::from_future::{FromFutureTask, FuturePoll};
use rxrust::observable::from_stream::{FromStreamTask, PollStep, StreamPoll, TryStreamObservable};
use rxrust::observable::observable_all::ObserverAll;
use rxrust::scheduler::LocalScheduler;
use std::cell::RefCell;
use std::rc::Rc;

type Log = Rc<RefCell<Vec<String>>>;

fn recorder<E: std::fmt::Debug + 'static>(
    log: &Log,
) -> ObserverAll<Box<dyn FnMut(i32)>, Box<dyn FnMut(E)>, Box<dyn FnMut()>, i32, E> {
    let l1 = log.clone();
    let l2 = log.clone();
    let l3 = log.clone();
    ObserverAll::new(
        Box::new(move |v: i32| l1.borrow_mut().push(format!("next {}", v))) as Box<dyn FnMut(i32)>,
        Box::new(move |e: E| l2.borrow_mut().push(format!("error {:?}", e))) as Box<dyn FnMut(E)>,
        Box::new(move || l3.borrow_mut().push("complete".to_string())) as Box<dyn FnMut()>,
    )
}

#[test]
fn stream_task_emits_items_then_completes() {
    let log: Log = Rc::new(RefCell::new(Vec::new()));
    let mut task = FromStreamTask::new(recorder::<std::convert::Infallible>(&log));
    assert!(task.on_poll(StreamPoll::Item(1)) == PollStep::Continue);
    assert!(task.on_poll(StreamPoll::Pending) == PollStep::Pending);
    assert!(task.on_poll(StreamPoll::Item(2)) == PollStep::Continue);
    assert!(!task.is_finished());
    assert!(task.on_poll(StreamPoll::Exhausted) == PollStep::Ready);
    assert!(task.is_finished());
    assert!(task.on_poll(StreamPoll::Item(3)) == PollStep::Ready);
    assert_eq!(*log.borrow(), vec!["next 1", "next 2", "complete"]);
}

#[test]
fn try_stream_task_stops_at_the_error() {
    let log: Log = Rc::new(RefCell::new(Vec::new()));
    let mut task = FromStreamTask::new(recorder::<&str>(&log));
    assert!(task.on_poll_result(StreamPoll::Item(Ok(1))) == PollStep::Continue);
    assert!(task.on_poll_result(StreamPoll::Item(Err("bad"))) == PollStep::Ready);
    assert!(task.is_finished());
    assert!(task.on_poll_result(StreamPoll::Item(Ok(2))) == PollStep::Ready);
    assert_eq!(*log.borrow(), vec!["next 1", "error \"bad\""]);
    let observable = TryStreamObservable::new(vec![1], LocalScheduler);
    assert_eq!(observable.stream, vec![1]);
}

#[test]
fn future_task_emits_the_value_once_ready() {
    let log: Log = Rc::new(RefCell::new(Vec::new()));
    let mut task = FromFutureTask::new(recorder::<std::convert::Infallible>(&log));
    assert!(task.on_poll(FuturePoll::Pending) == PollStep::Pending);
    assert!(!task.is_finished());
    assert!(task.on_poll(FuturePoll::Ready(7)) == PollStep::Ready);
    assert!(task.is_finished());
    assert!(task.on_poll(FuturePoll::Ready(8)) == PollStep::Ready);
    assert_eq!(*log.borrow(), vec!["next 7", "complete"]);
}

#[test]
fn future_result_task_emits_the_error() {
    let log: Log = Rc::new(RefCell::new(Vec::new()));
    let mut task = FromFutureTask::new(recorder::<&str>(&log));
    assert!(task.on_poll_result(FuturePoll::Ready(Err("failed"))) == PollStep::Ready);
    assert_eq!(*log.borrow(), vec!["error \"failed\""]);
}
