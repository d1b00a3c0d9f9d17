use rxrust::observable::connectable::ConnectableObservable;
use rxrust::observable::from::of;
use rxrust::observable::observable_next::ObserverN;
use std::convert::Infallible;

type Sink<'a> = ObserverN<Box<dyn FnMut(i32) + 'a>, i32, Infallible>;

fn smoke() {
    let mut first = 0;
    let mut second = 0;
    {
        let o = of(100);
        let mut connected = ConnectableObservable::<_, i32, Infallible, Sink>::new(o);
        connected.subscribe(ObserverN::new(Box::new(|v: i32| first = v) as Box<dyn FnMut(i32)>));
        connected.subscribe(ObserverN::new(Box::new(|v: i32| second = v) as Box<dyn FnMut(i32)>));

        let _ = connected.connect();
    }
    assert_eq!(first, 100);
    assert_eq!(second, 100);
}

#[test]
fn connectable_observable_smoke() {
    smoke();
}

#[test]
fn connectable_observable_bench() {
    for _ in 0..10 {
        smoke();
    }
}
