use rxrust::local_subject::LocalSubject;
use rxrust::observable::observable_comp::ObserverComp;
use rxrust::observable::observable_next::ObserverN;
use rxrust::observer::Observer;
use rxrust::subject::Subject;
use std::cell::RefCell;
use std::rc::Rc;

#[test]
fn local_subject_smoke() {
    let mut test_code = 1;
    {
        let mut subject = LocalSubject::<i32, (), _>::local();
        subject.subscribe(ObserverN::new(|_v: i32| {
            test_code = 2;
        }));
        subject.next(2);
    }
    assert_eq!(test_code, 2);
}

type Boxed = ObserverN<Box<dyn FnMut(i32)>, i32, ()>;

fn recorder(log: &Rc<RefCell<Vec<(&'static str, i32)>>>, name: &'static str) -> Boxed {
    let log = log.clone();
    ObserverN::new(Box::new(move |v: i32| log.borrow_mut().push((name, v))) as Box<dyn FnMut(i32)>)
}

#[test]
fn subject_multicasts_in_subscription_order() {
    let log = Rc::new(RefCell::new(Vec::new()));
    let mut subject = Subject::<i32, (), Boxed>::new();
    let s1 = subject.subscribe(recorder(&log, "first"));
    let s2 = subject.subscribe(recorder(&log, "second"));
    assert!(!s1.is_closed());
    assert!(!s2.is_closed());
    subject.next(1);
    subject.next(2);
    assert_eq!(*log.borrow(), vec![("first", 1), ("second", 1), ("first", 2), ("second", 2)]);
}

#[test]
fn subject_unsubscribed_observer_receives_nothing() {
    let log = Rc::new(RefCell::new(Vec::new()));
    let mut subject = LocalSubject::<i32, (), Boxed>::local();
    let mut s1 = subject.subscribe(recorder(&log, "first"));
    subject.subscribe(recorder(&log, "second"));
    subject.next(1);
    assert!(subject.unsubscribe(&mut s1).is_some());
    assert!(s1.is_closed());
    assert!(subject.unsubscribe(&mut s1).is_none());
    subject.next(2);
    assert_eq!(*log.borrow(), vec![("first", 1), ("second", 1), ("second", 2)]);
}

#[test]
fn subject_complete_releases_subscribers() {
    let mut values = Vec::new();
    let mut completed = 0;
    {
        let mut subject = Subject::<i32, (), _>::new();
        subject.subscribe(ObserverComp::new(|v: i32| values.push(v), || completed += 1));
        subject.next(1);
        subject.complete();
        subject.next(2);
        subject.complete();
    }
    assert_eq!(values, vec![1]);
    assert_eq!(completed, 1);
}
