use rxrust::context::{of_shared, Local, LocalCtx, LocalScope, Scope, SharedCtx, SharedScope};
use rxrust::error::{NextWithErr, NextWithoutErr, OnNextClousre};
use rxrust::function::{RxFn, RxFnWrapper};
use rxrust::observable::boxed::IntoBoxedCoreObservable;
use rxrust::observable::boxed::BoxedCoreObservable;
use rxrust::observable::from as observable;
use rxrust::observable::observable_all::ObserverAll;
use rxrust::observable::observable_next::{ObserverN, SubscribeNext};
use rxrust::observable::CoreObservable;
use rxrust::ops::MergeSubscription;
use rxrust::scheduler::{LocalScheduler, SharedScheduler, TaskHandle};
use rxrust::subscription::Subscription;
use std::convert::Infallible;

#[test]
fn scopes_tell_local_from_shared() {
    assert!(!LocalScope::shared());
    assert!(SharedScope::shared());
}

#[test]
fn contexts_carry_value_and_scheduler() {
    let ctx = LocalCtx::from_parts(3, LocalScheduler);
    let (old, swapped) = ctx.swap("three");
    assert_eq!(old, 3);
    assert_eq!(*swapped.inner(), "three");
    let doubled = LocalCtx::<i32, LocalScheduler>::new(4).transform(|v| v * 2);
    assert_eq!(doubled.into_inner(), 8);
    let shared = LocalCtx::from_parts(5, LocalScheduler).into_shared();
    assert_eq!(shared.inner, 5);
    let back = SharedCtx::from_parts(6, SharedScheduler).into_local();
    assert_eq!(back.into_parts().0, 6);
    let wrapped = SharedCtx::from_parts(1, SharedScheduler).wrap('x');
    assert_eq!(wrapped.inner, 'x');
}

#[test]
fn local_and_shared_contexts_subscribe_their_observable() {
    let mut seen = Vec::new();
    SubscribeNext::subscribe(of_shared(11), |v| seen.push(v));
    SubscribeNext::subscribe(
        Local { inner: observable::of(12), scheduler: LocalScheduler }.with_scheduler(SharedScheduler),
        |v| seen.push(v),
    );
    SubscribeNext::subscribe(LocalCtx::from_parts(observable::of(13), LocalScheduler), |v| seen.push(v));
    assert_eq!(seen, vec![11, 12, 13]);
}

#[test]
fn call_with_err_unifies_handlers() {
    let mut plain = |v: i32| v + 1;
    let r: Result<i32, &str> = NextWithoutErr::call_with_err(&mut plain, 1);
    assert_eq!(r, Ok(2));
    let mut fallible = |v: i32| if v > 0 { Ok(v) } else { Err("negative") };
    assert_eq!(NextWithErr::call_with_err(&mut fallible, -1), Err("negative"));
    let handler: OnNextClousre<fn(i32) -> i32, fn(i32) -> Result<i32, &'static str>> =
        OnNextClousre::Next(|v| v * 3);
    assert_eq!(handler.call_with_err(2), Ok(6));
    let handler: OnNextClousre<fn(i32) -> i32, fn(i32) -> Result<i32, &'static str>> =
        OnNextClousre::NextWithErr(|_| Err("bad"));
    assert_eq!(handler.call_with_err(2), Err("bad"));
}

#[test]
fn rx_fn_wrapper_calls_the_function() {
    let f = RxFnWrapper::new(|x: i32| x * x);
    assert_eq!(f.call((7,)), 49);
}

#[test]
fn boxed_observable_subscribes_like_the_source() {
    type Obs = ObserverAll<fn(i32), fn(Infallible), fn(), i32, Infallible>;
    let boxed: BoxedCoreObservable<i32, Infallible, Obs, ()> = observable::from_iter(vec![1, 2]).into_boxed();
    let observer: Obs = ObserverAll::new(|_| {}, |_| {}, || {});
    let ((), _back) = CoreObservable::subscribe(boxed, observer);
}

#[test]
fn merge_subscription_cancels_both() {
    let mut both = MergeSubscription { first: TaskHandle::new_async(), second: TaskHandle::new_async() };
    assert!(!both.is_closed());
    both.unsubscribe();
    assert!(both.is_closed());
    let mut unit = ();
    assert!(Subscription::is_closed(&unit));
    unit.unsubscribe();
}

#[test]
fn observer_n_collects_values() {
    let mut seen = Vec::new();
    SubscribeNext::subscribe(observable::from_iter(vec![3, 1, 2]), |v| seen.push(v));
    assert_eq!(seen, vec![3, 1, 2]);
    let _ = ObserverN::<_, i32, ()>::new(|_: i32| {});
}
