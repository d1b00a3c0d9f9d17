use rxrust::observable::observable_all::ObserverAll;
use rxrust::observable::observable_comp::ObserverComp;
use rxrust::observable::observable_err::ObserverErr;
use rxrust::observable::observable_next::ObserverN;
use rxrust::observable::subscribe_item::ObserverItem;
use rxrust::observer::Observer;
use rxrust::subject::Subject;

#[test]
fn observable_next_raii() {
    let mut times = 0;
    {
        let mut subject = Subject::<(), (), _>::new();
        {
            let mut subscription = subject.subscribe(ObserverN::new(|_: ()| {
                times += 1;
            }));
            subject.unsubscribe(&mut subscription);
        }
        subject.next(());
    }
    assert_eq!(times, 0);
}

#[test]
fn observable_comp_raii() {
    let mut times = 0;
    {
        let mut subject = Subject::<(), (), _>::new();
        {
            let mut subscription = subject.subscribe(ObserverComp::new(|_: ()| times += 1, || {}));
            subject.unsubscribe(&mut subscription);
        }
        subject.next(());
    }
    assert_eq!(times, 0);
}

#[test]
fn observable_err_raii() {
    let mut times = 0;
    {
        let mut subject = Subject::<(), (), _>::new();
        {
            let mut subscription = subject.subscribe(ObserverErr::new(|_: ()| times += 1, |_: ()| {}));
            subject.unsubscribe(&mut subscription);
        }
        subject.next(());
        subject.error(());
    }
    assert_eq!(times, 0);
}

#[test]
fn observable_all_raii() {
    let mut times = 0;
    {
        let mut subject = Subject::<(), (), _>::new();
        {
            let mut subscription =
                subject.subscribe(ObserverAll::new(|_: ()| times += 1, |_: ()| {}, || {}));
            subject.unsubscribe(&mut subscription);
        }
        subject.next(());
        subject.error(());
    }
    assert_eq!(times, 0);
}

#[test]
fn subscribe_item_raii() {
    let mut times = 0;
    {
        let mut subject = Subject::<(), (), _>::new();
        {
            let mut subscription = subject.subscribe(ObserverItem::new(|_: ()| {
                times += 1;
            }));
            subject.unsubscribe(&mut subscription);
        }
        subject.next(());
    }
    assert_eq!(times, 0);
}
