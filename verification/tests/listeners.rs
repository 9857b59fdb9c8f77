use evno::{from_fn, from_fn_with_cancel, many, on, once, Counter, FromFn, FromFnWithCancel, WithTimes};

#[test]
fn with_times_reaches_its_limit_on_the_last_event() {
    let mut limited = WithTimes::<u32, &str>::new(3, "inner");
    assert_eq!(limited.count(), 0);
    assert_eq!(limited.times(), 3);
    assert!(!limited.record_event());
    assert!(!limited.record_event());
    assert!(limited.record_event());
    assert_eq!(limited.count(), 3);
    assert_eq!(*limited.listener_mut(), "inner");
}

#[test]
fn with_times_of_one_stops_after_the_first_event() {
    let mut limited = WithTimes::<u32, ()>::new(1, ());
    assert!(limited.record_event());
    assert_eq!(limited.count(), 1);
}

#[test]
fn counter_counts_up_to_its_limit() {
    let mut counter = Counter::new(2);
    assert_eq!(counter.count(), 0);
    assert!(!counter.try_increment());
    assert!(counter.try_increment());
    assert_eq!(counter.count(), 2);
}

#[test]
fn many_records_events_against_its_limit() {
    let mut listener = many::<u32, _>(2, |x: u32| x + 1);
    assert!(!listener.record_event());
    assert_eq!(listener.count(), 1);
    assert!(listener.record_event());
    assert_eq!((listener.handler_mut())(4), 5);
}

#[test]
fn handler_shells_keep_their_handler() {
    let mut calls = 0;
    {
        let mut listener: FromFn<u32, _> = from_fn(|x: u32| {
            calls += x;
        });
        (listener.handler_mut())(3);
        (listener.handler_mut())(4);
    }
    assert_eq!(calls, 7);

    let mut with_cancel: FromFnWithCancel<u32, _> = from_fn_with_cancel(|x: u32| x * 2);
    assert_eq!((with_cancel.handler_mut())(21), 42);
    let mut direct = FromFn::<u32, _>::new(|x: u32| x);
    assert_eq!((direct.handler_mut())(9), 9);
    let mut each = on::<u32, _>(|x: u32| x + 10);
    assert_eq!((each.handler_mut())(1), 11);
    let mut single = once::<u32, _>(|x: u32| x - 1);
    assert_eq!((single.handler_mut())(1), 0);
    let mut built = FromFnWithCancel::<u32, _>::new(|x: u32| x);
    assert_eq!((built.handler_mut())(5), 5);
}
