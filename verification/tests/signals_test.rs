use reactor_rs::mono;
use reactor_rs::mono::Processor;
use reactor_rs::prelude::{
    Mono, Publisher, Signal, Subscriber, Subscribers, Subscription, REQUEST_MAX,
};
use reactor_rs::schedulers;
use std::sync::atomic::{AtomicUsize, Ordering};
use std::sync::{Arc, Mutex};

/// Requests the given amounts when subscribed, and records every signal.
struct Recorder<T, E> {
    requests: Vec<usize>,
    signals: Vec<Signal<T, E>>,
}

impl<T, E> Recorder<T, E> {
    fn new(requests: Vec<usize>) -> Recorder<T, E> {
        Recorder {
            requests,
            signals: Vec::new(),
        }
    }

    fn all() -> Recorder<T, E> {
        Recorder::new(vec![REQUEST_MAX])
    }
}

impl<T, E> Subscriber for Recorder<T, E> {
    type Item = T;
    type Error = E;

    fn on_subscribe<P: Subscription>(&mut self, subscription: &mut P) {
        for n in self.requests.iter() {
            subscription.request(*n);
        }
        self.signals.push(Signal::Subscribe);
    }

    fn on_complete(&mut self) {
        self.signals.push(Signal::Complete);
    }

    fn on_next(&mut self, t: T) {
        self.signals.push(Signal::Next(t));
    }

    fn on_error(&mut self, e: E) {
        self.signals.push(Signal::Error(e));
    }
}

fn counter() -> Arc<AtomicUsize> {
    Arc::new(AtomicUsize::new(0))
}

#[test]
fn just_delivers_value_then_completion() {
    let r = mono::just::<i32, ()>(7).subscribe(Recorder::all()).unwrap();
    assert_eq!(r.signals, vec![Signal::Subscribe, Signal::Next(7), Signal::Complete]);
}

#[test]
fn just_answers_first_positive_request_only() {
    let r = mono::just::<i32, ()>(7).subscribe(Recorder::new(vec![0])).unwrap();
    assert_eq!(r.signals, vec![Signal::Subscribe]);
    let r = mono::just::<i32, ()>(7).subscribe(Recorder::new(vec![0, 1, 3])).unwrap();
    assert_eq!(r.signals, vec![Signal::Subscribe, Signal::Next(7), Signal::Complete]);
}

#[test]
fn error_ignores_demand() {
    let r = mono::error::<i32, &str>("bad").subscribe(Recorder::new(vec![])).unwrap();
    assert_eq!(r.signals, vec![Signal::Subscribe, Signal::Error("bad")]);
}

#[test]
fn create_delivers_result() {
    let r = mono::create(|| -> Result<i32, &str> { Ok(3) }).subscribe(Recorder::all()).unwrap();
    assert_eq!(r.signals, vec![Signal::Subscribe, Signal::Next(3), Signal::Complete]);
    let r = mono::create(|| -> Result<i32, &str> { Err("no") }).subscribe(Recorder::all()).unwrap();
    assert_eq!(r.signals, vec![Signal::Subscribe, Signal::Error("no")]);
}

#[test]
fn create_runs_once_for_first_request() {
    let runs = counter();
    let seen = runs.clone();
    let r = mono::create(move || -> Result<usize, ()> { Ok(seen.fetch_add(1, Ordering::SeqCst)) })
        .subscribe(Recorder::new(vec![0, 1])).unwrap();
    assert_eq!(runs.load(Ordering::SeqCst), 1);
    assert_eq!(r.signals, vec![Signal::Subscribe, Signal::Next(0), Signal::Complete]);
    let runs = counter();
    let seen = runs.clone();
    let r = mono::create(move || -> Result<usize, ()> { Ok(seen.fetch_add(1, Ordering::SeqCst)) })
        .subscribe(Recorder::new(vec![])).unwrap();
    assert_eq!(runs.load(Ordering::SeqCst), 0);
    assert_eq!(r.signals, vec![Signal::Subscribe]);
}

#[test]
fn success_runs_once_for_first_request() {
    let runs = counter();
    let seen = runs.clone();
    let r = mono::success(move || seen.fetch_add(1, Ordering::SeqCst))
        .subscribe(Recorder::new(vec![1, 1])).unwrap();
    assert_eq!(runs.load(Ordering::SeqCst), 1);
    assert_eq!(r.signals, vec![Signal::Subscribe, Signal::Next(0), Signal::Complete]);
}

#[test]
fn success_delivers_value() {
    let r = mono::success(|| 9).subscribe(Recorder::all()).unwrap();
    assert_eq!(r.signals, vec![Signal::Subscribe, Signal::Next(9), Signal::Complete]);
}

#[test]
fn lazy_delivers_first_outcome_once() {
    let r = mono::lazy(|mut e: mono::Emitter<i32, &str>| {
        e.error("first");
        e.success(1);
        e
    })
    .subscribe(Recorder::new(vec![1, 1])).unwrap();
    assert_eq!(r.signals, vec![Signal::Subscribe, Signal::Error("first")]);
    let r = mono::lazy(|mut e: mono::Emitter<i32, &str>| {
        e.success(5);
        e
    })
    .subscribe(Recorder::all()).unwrap();
    assert_eq!(r.signals, vec![Signal::Subscribe, Signal::Next(5), Signal::Complete]);
}

#[test]
fn processor_delivers_first_emitted() {
    let mut p: Processor<i32, &str> = Processor::new();
    p.emitter().success(3);
    p.emitter().error("late");
    let r = p.subscribe(Recorder::new(vec![])).unwrap();
    assert_eq!(r.signals, vec![Signal::Subscribe, Signal::Next(3), Signal::Complete]);
}

#[test]
fn map_passes_values_through() {
    let r = mono::just::<i32, ()>(2)
        .map(|n| n * 2)
        .map(|n| n + 1)
        .subscribe(Recorder::all()).unwrap();
    assert_eq!(r.signals, vec![Signal::Subscribe, Signal::Next(5), Signal::Complete]);
}

#[test]
fn map_leaves_errors() {
    let r = mono::error::<i32, &str>("e")
        .map(|n| n * 2)
        .subscribe(Recorder::all()).unwrap();
    assert_eq!(r.signals, vec![Signal::Subscribe, Signal::Error("e")]);
}

#[test]
fn filter_keeps_or_drops_value() {
    let r = mono::just::<i32, ()>(5)
        .filter(|n| *n > 4)
        .subscribe(Recorder::all()).unwrap();
    assert_eq!(r.signals, vec![Signal::Subscribe, Signal::Next(5), Signal::Complete]);
    let r = mono::just::<i32, ()>(5)
        .filter(|n| *n > 5)
        .subscribe(Recorder::all()).unwrap();
    assert_eq!(r.signals, vec![Signal::Subscribe, Signal::Complete]);
}

#[test]
fn observers_are_transparent_and_run() {
    let seen = counter();
    let (a, b, c) = (seen.clone(), seen.clone(), seen.clone());
    let r = mono::just::<i32, &str>(1)
        .do_on_success(move |_| {
            a.fetch_add(1, Ordering::SeqCst);
        })
        .do_on_complete(move || {
            b.fetch_add(10, Ordering::SeqCst);
        })
        .do_on_error(move |_| {
            c.fetch_add(100, Ordering::SeqCst);
        })
        .subscribe(Recorder::all()).unwrap();
    assert_eq!(r.signals, vec![Signal::Subscribe, Signal::Next(1), Signal::Complete]);
    assert_eq!(seen.load(Ordering::SeqCst), 11);

    let errors = counter();
    let e2 = errors.clone();
    let r = mono::error::<i32, &str>("x")
        .do_on_error(move |_| {
            e2.fetch_add(1, Ordering::SeqCst);
        })
        .subscribe(Recorder::all()).unwrap();
    assert_eq!(r.signals, vec![Signal::Subscribe, Signal::Error("x")]);
    assert_eq!(errors.load(Ordering::SeqCst), 1);
}

#[test]
fn do_finally_runs_once() {
    let runs = counter();
    let seen = runs.clone();
    let r = mono::just::<i32, ()>(1)
        .do_finally(move || {
            seen.fetch_add(1, Ordering::SeqCst);
        })
        .subscribe(Recorder::new(vec![1, 1])).unwrap();
    assert_eq!(r.signals, vec![Signal::Subscribe, Signal::Next(1), Signal::Complete]);
    assert_eq!(runs.load(Ordering::SeqCst), 1);

    let runs = counter();
    let seen = runs.clone();
    mono::error::<i32, &str>("x")
        .do_finally(move || {
            seen.fetch_add(1, Ordering::SeqCst);
        })
        .subscribe(Recorder::all()).unwrap();
    assert_eq!(runs.load(Ordering::SeqCst), 1);
}

#[test]
fn flatmap_delivers_inner_signals() {
    let r = mono::just::<i32, &str>(1)
        .flatmap(|n| mono::just(n + 1))
        .subscribe(Recorder::all()).unwrap();
    assert_eq!(r.signals, vec![Signal::Subscribe, Signal::Next(2), Signal::Complete]);
    let r = mono::just::<i32, &str>(1)
        .flatmap(|_| mono::error::<i32, &str>("inner"))
        .subscribe(Recorder::all()).unwrap();
    assert_eq!(r.signals, vec![Signal::Subscribe, Signal::Error("inner")]);
    let r = mono::error::<i32, &str>("outer")
        .flatmap(|n| mono::just(n + 1))
        .subscribe(Recorder::all()).unwrap();
    assert_eq!(r.signals, vec![Signal::Subscribe, Signal::Error("outer")]);
}

#[test]
fn flatmap_of_empty_source_completes() {
    let r = mono::just::<i32, &str>(1)
        .filter(|_| false)
        .flatmap(|n| mono::just(n + 1))
        .subscribe(Recorder::all()).unwrap();
    assert_eq!(r.signals, vec![Signal::Subscribe, Signal::Complete]);
}

#[test]
fn flatmap_of_empty_inner_completes_once() {
    let r = mono::just::<i32, &str>(1)
        .flatmap(|n| mono::just(n).filter(|_| false))
        .subscribe(Recorder::all()).unwrap();
    assert_eq!(r.signals, vec![Signal::Subscribe, Signal::Complete]);
}

#[test]
fn block_returns_first_signal() {
    assert_eq!(mono::just::<i32, ()>(512).map(|n| n * 2).block(), Ok(Some(1024)));
    assert_eq!(mono::error::<i32, &str>("e").block(), Err("e"));
    assert_eq!(mono::just::<i32, ()>(1).filter(|_| false).block(), Ok(None));
}

#[test]
fn subscribe_on_immediate_is_transparent() {
    let r = mono::success(|| 2)
        .subscribe_on(schedulers::immediate())
        .subscribe(Recorder::all()).unwrap();
    assert_eq!(r.signals, vec![Signal::Subscribe, Signal::Next(2), Signal::Complete]);
}

#[test]
fn error_needs_no_request() {
    let r = mono::error::<i32, &str>("e").subscribe(Recorder::new(vec![0])).unwrap();
    assert_eq!(r.signals, vec![Signal::Subscribe, Signal::Error("e")]);
}

#[test]
fn next_subscriber_sees_each_value() {
    let seen = counter();
    let s = seen.clone();
    mono::just::<usize, ()>(4).subscribe(Subscribers::next(move |v| {
        s.fetch_add(v, Ordering::SeqCst);
    }));
    assert_eq!(seen.load(Ordering::SeqCst), 4);
    mono::just::<usize, ()>(4).subscribe(Subscribers::noop());
}

#[test]
fn readme_example() {
    let seen = counter();
    let s = seen.clone();
    mono::just::<usize, ()>(42)
        .do_on_success(|n| println!("Answer: {}", n))
        .subscribe_on(schedulers::immediate())
        .map(|n| n * 2)
        .subscribe(Subscribers::next(move |n| {
            s.store(n, Ordering::SeqCst);
        }));
    assert_eq!(seen.load(Ordering::SeqCst), 84);
}

#[test]
fn example_flatmap_then_block() {
    let result = mono::just::<i32, ()>(42)
        .do_on_success(|n| println!("Answer: {}", n))
        .subscribe_on(schedulers::immediate())
        .flatmap(|n| mono::success(move || n * 2).subscribe_on(schedulers::immediate()))
        .map(|n| n * 2)
        .block()
        .unwrap()
        .unwrap();
    assert_eq!(42 * 4, result);
}

#[test]
fn processor_fed_after_attach() {
    let p: Processor<i32, &str> = Processor::new();
    let attached = p.attach(Recorder::new(vec![]));
    assert!(!attached.is_ready());
    let r = attached.feed(Some(Ok(4)));
    assert_eq!(r.signals, vec![Signal::Subscribe, Signal::Next(4), Signal::Complete]);

    let mut p: Processor<i32, &str> = Processor::new();
    p.emitter().error("first");
    let attached = p.attach(Recorder::new(vec![]));
    assert!(attached.is_ready());
    let r = attached.feed(Some(Ok(9)));
    assert_eq!(r.signals, vec![Signal::Subscribe, Signal::Error("first")]);
    let mut p: Processor<i32, &str> = Processor::new();
    p.emitter().success(2);
    let r = p.attach(Recorder::new(vec![])).feed(None);
    assert_eq!(r.signals, vec![Signal::Subscribe, Signal::Next(2), Signal::Complete]);
}

/// Records the signals it receives into a log shared with the actions.
struct Journal {
    log: Arc<Mutex<Vec<String>>>,
}

impl Subscriber for Journal {
    type Item = i32;
    type Error = &'static str;

    fn on_subscribe<P: Subscription>(&mut self, subscription: &mut P) {
        subscription.request(REQUEST_MAX);
        self.log.lock().unwrap().push(String::from("subscribe"));
    }

    fn on_complete(&mut self) {
        self.log.lock().unwrap().push(String::from("complete"));
    }

    fn on_next(&mut self, t: i32) {
        self.log.lock().unwrap().push(format!("next {}", t));
    }

    fn on_error(&mut self, e: &'static str) {
        self.log.lock().unwrap().push(format!("error {}", e));
    }
}

fn journal() -> Arc<Mutex<Vec<String>>> {
    Arc::new(Mutex::new(Vec::new()))
}

#[test]
fn observers_run_in_place() {
    let log = journal();
    let (a, b, c, d) = (log.clone(), log.clone(), log.clone(), log.clone());
    mono::just::<i32, &'static str>(1234)
        .do_on_success(move |v| a.lock().unwrap().push(format!("first {}", v)))
        .do_on_success(move |v| b.lock().unwrap().push(format!("second {}", v)))
        .do_on_complete(move || c.lock().unwrap().push(String::from("on complete")))
        .do_finally(move || d.lock().unwrap().push(String::from("finally")))
        .subscribe(Journal { log: log.clone() })
        .unwrap();
    assert_eq!(
        *log.lock().unwrap(),
        vec!["subscribe", "first 1234", "second 1234", "next 1234", "on complete", "complete", "finally"]
    );

    let log = journal();
    let (a, b, c) = (log.clone(), log.clone(), log.clone());
    mono::error::<i32, &'static str>("bad")
        .do_on_success(move |v| a.lock().unwrap().push(format!("value {}", v)))
        .do_on_error(move |e| b.lock().unwrap().push(format!("saw {}", e)))
        .do_finally(move || c.lock().unwrap().push(String::from("finally")))
        .subscribe(Journal { log: log.clone() })
        .unwrap();
    assert_eq!(*log.lock().unwrap(), vec!["subscribe", "saw bad", "error bad", "finally"]);
}

#[test]
fn observers_may_consume_what_they_capture() {
    let owned = String::from("kept");
    let seen = journal();
    let sink = seen.clone();
    let r = mono::just::<i32, ()>(3)
        .do_on_success(move |_| sink.lock().unwrap().push(owned))
        .subscribe(Recorder::all())
        .unwrap();
    assert_eq!(r.signals, vec![Signal::Subscribe, Signal::Next(3), Signal::Complete]);
    assert_eq!(*seen.lock().unwrap(), vec!["kept"]);
}
