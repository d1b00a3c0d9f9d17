use rxrust::observable::create::{create, CreateEmitter};
use rxrust::observable::from as observable;
use rxrust::observable::observable_all::SubscribeAll;
use rxrust::observable::observable_comp::SubscribeComplete;
use rxrust::observable::observable_err::SubscribeErr;
use rxrust::observable::observable_next::SubscribeNext;
use rxrust::observer::Emitter;
use rxrust::ops::{Fork, ObservableExt};
use std::sync::{Arc, Mutex};

#[test]
fn from_fn() {
    let mut value = 0;
    let mut completed = false;
    let callable = || 123;
    observable::from_fn(callable).subscribe_complete(
        |v| {
            value = v;
        },
        || completed = true,
    );

    assert_eq!(value, 123);
    assert!(completed);
}

#[test]
fn of_option() {
    let mut value1 = 0;
    let mut completed1 = false;
    observable::of_option(Some(123)).subscribe_complete(
        |v| {
            value1 = v;
        },
        || completed1 = true,
    );

    assert_eq!(value1, 123);
    assert!(completed1);

    let mut value2 = 0;
    let mut completed2 = false;
    observable::of_option(None).subscribe_complete(
        |v| {
            value2 = v;
        },
        || completed2 = true,
    );

    assert_eq!(value2, 0);
    assert!(completed2);
}

#[test]
fn of_result() {
    let mut value1 = 0;
    let mut completed1 = false;
    let r: Result<i32, &str> = Ok(123);
    observable::of_result(r).subscribe_all(
        |v| {
            value1 = v;
        },
        |_| {},
        || completed1 = true,
    );

    assert_eq!(value1, 123);
    assert!(completed1);

    let mut value2 = 0;
    let mut error_reported = false;
    let r: Result<i32, &str> = Err("error");
    observable::of_result(r).subscribe_err(|_| value2 = 123, |_| error_reported = true);

    assert_eq!(value2, 0);
    assert!(error_reported);
}

#[test]
fn from_range() {
    let mut hit_count = 0;
    let mut completed = false;
    observable::from_iter((0..100).collect::<Vec<i32>>()).subscribe_complete(|_| hit_count += 1, || completed = true);

    assert_eq!(hit_count, 100);
    assert_eq!(completed, true);
}

#[test]
fn from_vec() {
    let mut hit_count = 0;
    let mut completed = false;
    observable::from_iter(vec![0; 100]).subscribe_complete(|_| hit_count += 1, || completed = true);

    assert_eq!(hit_count, 100);
    assert_eq!(completed, true);
}

#[test]
fn of() {
    let mut value = 0;
    let mut completed = false;
    observable::of(100).subscribe_complete(|v| value = v, || completed = true);

    assert_eq!(value, 100);
    assert_eq!(completed, true);
}

#[test]
fn fork() {
    observable::from_iter(vec![0; 100]).fork().fork().subscribe(|_| {});

    observable::of(0).fork().fork().subscribe(|_| {});
}

#[test]
fn repeat_three_times() {
    let mut hit_count = 0;
    let mut completed = false;
    observable::repeat(123, 5).subscribe_complete(
        |v| {
            hit_count += 1;
            assert_eq!(123, v);
        },
        || completed = true,
    );
    assert_eq!(5, hit_count);
    assert!(completed);
}

#[test]
fn repeat_zero_times() {
    let mut hit_count = 0;
    let mut completed = false;
    observable::repeat(123, 0).subscribe_complete(
        |v| {
            hit_count += 1;
            assert_eq!(123, v);
        },
        || completed = true,
    );
    assert_eq!(0, hit_count);
    assert!(completed);
}

fn emit_four(subscriber: &mut CreateEmitter<i32, ()>) {
    subscriber.next(1);
    subscriber.next(2);
    subscriber.next(3);
    subscriber.next(4);
}

#[test]
fn support_fork() {
    let sum1 = Arc::new(Mutex::new(0));
    let sum2 = Arc::new(Mutex::new(0));
    let c_sum1 = sum1.clone();
    let c_sum2 = sum2.clone();
    let u1: Box<dyn FnMut(i32) + Send> = Box::new(move |v| *sum1.lock().unwrap() += v);
    let u2: Box<dyn FnMut(i32) + Send> = Box::new(move |v| *sum2.lock().unwrap() += v);
    let source = create(emit_four);
    source.fork().subscribe(u1);
    source.fork().subscribe(u2);

    assert_eq!(*c_sum1.lock().unwrap(), 10);
    assert_eq!(*c_sum2.lock().unwrap(), 10);
}

fn run_proxy_call() {
    let next = Arc::new(Mutex::new(0));
    let err = Arc::new(Mutex::new(0));
    let complete = Arc::new(Mutex::new(0));
    let c_next = next.clone();
    let c_err = err.clone();
    let c_complete = complete.clone();

    create(|subscriber: &mut CreateEmitter<i32, &str>| {
        subscriber.next(1);
        subscriber.next(2);
        subscriber.next(3);
        subscriber.complete();
    })
    .on_complete(move || *complete.lock().unwrap() += 1)
    .on_error(move |_: &str| *err.lock().unwrap() += 1)
    .subscribe(move |_| *next.lock().unwrap() += 1);

    assert_eq!(*c_next.lock().unwrap(), 3);
    assert_eq!(*c_complete.lock().unwrap(), 1);
    assert_eq!(*c_err.lock().unwrap(), 0);
}

#[test]
fn proxy_call() {
    run_proxy_call();
}

#[test]
fn from_fn_bench() {
    for _ in 0..10 {
        run_proxy_call();
    }
}
