use reactor_rs::mono;
use reactor_rs::prelude::{Mono, Publisher, Subscriber, Subscribers, Subscription, REQUEST_MAX};
use reactor_rs::schedulers;
use std::fmt;
use std::marker::PhantomData;

#[derive(Debug)]
struct Record {
    name: String,
    age: u8,
}

impl Record {
    fn new(name: String, age: u8) -> Record {
        Record { name, age }
    }
}

struct EchoSubscriber<T, E>
where
    T: fmt::Debug,
    E: fmt::Debug,
{
    _t: PhantomData<T>,
    _e: PhantomData<E>,
}

impl<T, E> EchoSubscriber<T, E>
where
    T: fmt::Debug,
    E: fmt::Debug,
{
    fn new() -> EchoSubscriber<T, E> {
        EchoSubscriber {
            _t: PhantomData,
            _e: PhantomData,
        }
    }
}

impl<T, E> Subscriber for EchoSubscriber<T, E>
where
    T: fmt::Debug,
    E: fmt::Debug,
{
    type Item = T;
    type Error = E;

    fn on_subscribe<P: Subscription>(&mut self, subscription: &mut P) {
        subscription.request(REQUEST_MAX);
    }

    fn on_complete(&mut self) {
        println!("[ON_COMPLETE]")
    }

    fn on_next(&mut self, t: T) {
        println!("[ON_NEXT]: {:?}", t);
    }

    fn on_error(&mut self, e: E) {
        println!("[ON_ERROR]: {:?}", e)
    }
}

/// Runs one of three functions on each signal.
struct CoreSubscriber<T, E, C, N, R>
where
    C: Fn(),
    N: Fn(T),
    R: Fn(E),
{
    on_complete: C,
    on_next: N,
    on_error: R,
    _t: PhantomData<(T, E)>,
}

impl<T, E, C, N, R> CoreSubscriber<T, E, C, N, R>
where
    C: Fn(),
    N: Fn(T),
    R: Fn(E),
{
    fn new(on_complete: C, on_next: N, on_error: R) -> CoreSubscriber<T, E, C, N, R> {
        CoreSubscriber {
            on_complete,
            on_next,
            on_error,
            _t: PhantomData,
        }
    }
}

impl<T, E, C, N, R> Subscriber for CoreSubscriber<T, E, C, N, R>
where
    C: Fn(),
    N: Fn(T),
    R: Fn(E),
{
    type Item = T;
    type Error = E;

    fn on_subscribe<P: Subscription>(&mut self, subscription: &mut P) {
        subscription.request(REQUEST_MAX);
    }

    fn on_complete(&mut self) {
        (self.on_complete)()
    }

    fn on_next(&mut self, t: T) {
        (self.on_next)(t)
    }

    fn on_error(&mut self, e: E) {
        (self.on_error)(e)
    }
}

#[test]
fn with_error() {
    mono::error::<i32, &str>("THIS_IS_A_MOCK_ERROR")
        .do_on_error(|e| println!("DO_ON_ERROR: {}", e))
        .subscribe(Subscribers::noop());
}

#[test]
fn tiny() {
    mono::create(|| {
        let ret: Result<u32, ()> = Ok(1234);
        ret
    })
    .subscribe(CoreSubscriber::new(
        || println!("complete!"),
        |it| println!("******* subscribe: {}", it),
        |_| unreachable!(),
    ));
    let just = mono::just::<i32, ()>(77778888);
    just.clone().subscribe(EchoSubscriber::new());
    just.clone().subscribe(EchoSubscriber::new());
}

#[test]
fn test_next_subscriber() {
    mono::success(|| 42).subscribe(Subscribers::next(|v| assert_eq!(42, v)));
}

#[test]
fn bingo() {
    mono::create(|| {
        let ret: Result<Record, ()> = Ok(Record::new(String::from("Jeffsky"), 18));
        ret
    })
    .do_on_success(|it| println!("******* foreach1: {:?}", it))
    .do_on_success(|it| println!("******* foreach2: {:?}", it))
    .subscribe(EchoSubscriber::new());

    mono::just::<i32, ()>(1234)
        .do_on_success(|it| println!("******* foreach1: {:?}", it))
        .do_on_success(|it| println!("******* foreach2: {:?}", it))
        .subscribe(EchoSubscriber::new());
}

#[test]
fn test_map() {
    mono::just::<i32, ()>(2)
        .map(|n| n * 2)
        .map(|n| n + 1)
        .filter(|n| *n > 4)
        .do_on_success(|n| assert_eq!(5, *n))
        .filter(|n| *n > 5)
        .subscribe(EchoSubscriber::new());
}

#[test]
fn create_success() {
    mono::success(|| 1234)
        .map(|it| format!("item#{}", it))
        .subscribe(EchoSubscriber::new());
}

#[test]
fn subscribe_on() {
    mono::success(|| 2)
        .map(|n| n * 2)
        .subscribe_on(schedulers::immediate())
        .map(|n| n * 2)
        .do_on_success(|n| assert_eq!(8, *n))
        .subscribe(Subscribers::noop());
}

#[test]
fn block() {
    let v = mono::just::<i32, ()>(512)
        .subscribe_on(schedulers::immediate())
        .map(|it| it * 2)
        .block()
        .unwrap()
        .unwrap();
    assert_eq!(1024, v);
}

#[test]
fn test_flatmap() {
    let result = mono::just::<i32, ()>(1)
        .flatmap(|n| mono::just(format!("as string {}", n)))
        .block()
        .unwrap()
        .unwrap();
    assert_eq!("as string 1", result);
}

#[test]
fn test_finally() {
    mono::success(|| 1234)
        .do_finally(|| {
            println!("====> DO_FINALLY!!!");
        })
        .map(|v| format!("Hello {}", v))
        .subscribe(EchoSubscriber::new());
    mono::error::<i32, &str>("Oops!")
        .do_finally(|| {
            println!("====> DO_FINALLY!!!");
        })
        .subscribe(EchoSubscriber::new());
}
