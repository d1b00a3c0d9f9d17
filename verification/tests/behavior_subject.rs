use rxrust::behavior::Behavior;
use rxrust::behavior_subject::BehaviorSubject;
use rxrust::observable::observable_all::ObserverAll;
use rxrust::observable::observable_err::ObserverErr;
use rxrust::observable::observable_next::ObserverN;
use rxrust::observer::Observer;

#[test]
fn base_data_flow() {
    let mut i = 0;

    {
        let mut broadcast = BehaviorSubject::<i32, (), _>::new(42);
        broadcast.subscribe(ObserverN::new(|v: i32| i = v * 2));
    }

    assert_eq!(i, 84);

    {
        let mut broadcast = BehaviorSubject::<i32, (), _>::new(42);
        broadcast.subscribe(ObserverN::new(|v: i32| i = v * 2));
        broadcast.next(1);
    }

    assert_eq!(i, 2);
}

#[test]
#[should_panic]
fn error() {
    let mut broadcast = BehaviorSubject::<i32, &str, _>::new(42);
    broadcast.subscribe(ObserverErr::new(|_: i32| {}, |e: &str| panic!("{}", e)));

    broadcast.error("should panic!");
}

#[test]
fn unsubscribe() {
    let mut i = 0;

    {
        let mut subject = BehaviorSubject::<i32, (), _>::new(42);
        let mut subscription = subject.subscribe(ObserverN::new(|v: i32| i = v));
        subject.unsubscribe(&mut subscription);
    }

    assert_eq!(i, 42);

    {
        let mut subject = BehaviorSubject::<i32, (), _>::new(42);
        let mut subscription = subject.subscribe(ObserverN::new(|v: i32| i = v));
        subject.unsubscribe(&mut subscription);
        subject.next(100);
    }

    assert_eq!(i, 42);
}

type Sink = ObserverAll<fn(i32), fn(i32), fn(), i32, i32>;

#[test]
fn subject_subscribe_subject() {
    let mut local = BehaviorSubject::<i32, i32, BehaviorSubject<i32, i32, Sink>>::new(42);
    let local2 = BehaviorSubject::<i32, i32, Sink>::new(42);
    local.subscribe(local2);
    local.next(1);
    local.error(2);
}

#[test]
fn behavior_peek_and_next_by() {
    let mut seen = Vec::new();
    {
        let mut behavior = BehaviorSubject::<i32, (), _>::new(0);
        behavior.subscribe(ObserverN::new(|v: i32| seen.push(v)));
        behavior.next(7);
        assert_eq!(behavior.peek(), 7);
        for _ in 0..3 {
            behavior.next_by(|value| value + 1);
        }
        assert_eq!(behavior.peek(), 10);
    }
    assert_eq!(seen, vec![0, 7, 8, 9, 10]);
}

#[test]
fn behavior_error_releases_subscribers() {
    let mut errors = 0;
    let mut values = Vec::new();
    {
        let mut behavior = BehaviorSubject::<i32, &str, _>::new(5);
        behavior.subscribe(ObserverErr::new(|v: i32| values.push(v), |_e: &str| errors += 1));
        behavior.error("boom");
        behavior.next(6);
        assert_eq!(behavior.peek(), 6);
    }
    assert_eq!(errors, 1);
    assert_eq!(values, vec![5]);
}
