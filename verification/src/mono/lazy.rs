use super::emitter::Emitter;
use super::spi::Mono;
use crate::spi::{
    delivered, lemma_result_no_subscribe, lemma_subscribed_first, result_signals, Publisher, Signal,
    Subscriber, Subscription,
};
use vstd::prelude::*;

verus! {

/// `r` is an outcome that a run of `f` on an empty emitter can emit.
pub open spec fn lazy_yields<T, E, F: FnOnce(Emitter<T, E>) -> Emitter<T, E>>(f: F, r: Result<T, E>) -> bool {
    exists|e: Emitter<T, E>|
        #[trigger] f.ensures((Emitter::vacant(),), e) && e.outcome() == Some(r)
}

/// A run of `f` on an empty emitter always emits an outcome.
pub open spec fn always_emits<T, E, F: FnOnce(Emitter<T, E>) -> Emitter<T, E>>(f: F) -> bool {
    forall|e: Emitter<T, E>| #[trigger] f.ensures((Emitter::vacant(),), e) ==> e.outcome() is Some
}

/// A publisher whose outcome a function emits, through an emitter, when the
/// subscriber asks for it.
pub struct MonoLazy<T, E, F> {
    f: F,
    _t: Ghost<(T, E)>,
}

impl<T, E, F> MonoLazy<T, E, F> where F: FnOnce(Emitter<T, E>) -> Emitter<T, E> {
    /// The function that emits the outcome.
    pub closed spec fn producer(&self) -> F {
        self.f
    }

    pub(crate) fn new(f: F) -> (r: MonoLazy<T, E, F>)
        ensures
            r.producer() == f,
    {
        MonoLazy { f, _t: Ghost(arbitrary()) }
    }
}

impl<T, E, F> Mono<T, E> for MonoLazy<T, E, F> where
    T: Send + 'static,
    E: Send + 'static,
    F: FnOnce(Emitter<T, E>) -> Emitter<T, E>,
 {

}

impl<T, E, F> Publisher for MonoLazy<T, E, F> where
    T: Send + 'static,
    E: Send + 'static,
    F: FnOnce(Emitter<T, E>) -> Emitter<T, E>,
 {
    type Item = T;

    type Error = E;

    open spec fn wf(&self) -> bool {
        forall|e: Emitter<T, E>| self.producer().requires((e,))
    }

    /// The subscriber must ask at least once, and the function must emit
    /// when it runs; otherwise no outcome ever arrives.
    open spec fn accepts(&self, demand: Seq<usize>) -> bool {
        &&& demand.len() > 0
        &&& always_emits(self.producer())
    }

    /// After the subscription, the outcome of the function's one run is
    /// delivered, once, whatever the subscriber asked for.
    open spec fn emits(&self, demand: Seq<usize>, signals: Seq<Signal<T, E>>) -> bool {
        exists|r: Result<T, E>|
            #[trigger] lazy_yields(self.producer(), r) && signals == seq![Signal::Subscribe]
                + result_signals(r)
    }

    open spec fn inline(&self) -> bool {
        true
    }

    fn subscribe<S>(self, subscriber: S) -> (r: Option<S>) where
        S: Subscriber<Item = T, Error = E> + Send + 'static,
     {
        assert(self.producer() == self.f);
        let mut s = InnerSubscriber::new(subscriber);
        let mut su = InnerSubscription::new();
        s.on_subscribe(&mut su);
        assert(su.requested() =~= subscriber.demand());
        let (outcome, _unused) = su.run(self.f);
        match outcome {
            Some(r) => {
                let ghost res = r;
                s.receive(r);
                assert(delivered(subscriber.received(), s.actual.received()) =~= seq![
                    Signal::Subscribe,
                ] + result_signals(res));
                proof {
                    lemma_result_no_subscribe(res);
                    lemma_subscribed_first(result_signals(res));
                }
            },
            None => {
                assert(false);
            },
        }
        Some(s.into_actual())
    }
}

/// Records the subscriber's requests; the function then runs once, when
/// something was requested.
struct InnerSubscription {
    requests: Vec<usize>,
    cancelled: bool,
}

impl InnerSubscription {
    fn new() -> (r: InnerSubscription)
        ensures
            r.requested() == Seq::<usize>::empty(),
    {
        InnerSubscription { requests: Vec::new(), cancelled: false }
    }

    /// Runs the function, once, on an empty emitter when something was
    /// requested, and returns what it emitted. Without a request the
    /// function does not run, and is handed back.
    fn run<T, E, F: FnOnce(Emitter<T, E>) -> Emitter<T, E>>(&self, f: F) -> (r: (Option<Result<T, E>>, Option<F>))
        requires
            forall|e: Emitter<T, E>| f.requires((e,)),
        ensures
            self.requested().len() > 0 && always_emits(f) ==> r.0 is Some,
            r.0 matches Some(o) ==> lazy_yields(f, o),
            r.1 is Some <==> self.requested().len() == 0,
            r.1 matches Some(h) ==> h == f,
    {
        if self.requests.len() > 0 {
            let mut emitter = f(Emitter::new());
            (emitter.take_outcome(), None)
        } else {
            (None, Some(f))
        }
    }
}

impl Subscription for InnerSubscription {
    closed spec fn requested(&self) -> Seq<usize> {
        self.requests@
    }

    closed spec fn cancellable(&self) -> bool {
        true
    }

    closed spec fn cancelled(&self) -> bool {
        self.cancelled
    }

    fn request(&mut self, n: usize) {
        self.requests.push(n);
    }

    fn cancel(&mut self) {
        self.cancelled = true;
    }
}

/// Passes every signal on to `actual`, and delivers the outcome once it is
/// known.
pub(crate) struct InnerSubscriber<T, E, S> {
    pub(crate) actual: S,
    pub(crate) base: Ghost<Seq<Signal<T, E>>>,
    pub(crate) log: Ghost<Seq<Signal<T, E>>>,
}

impl<T, E, S> InnerSubscriber<T, E, S> where S: Subscriber<Item = T, Error = E> {
    pub(crate) fn new(actual: S) -> (r: InnerSubscriber<T, E, S>)
        requires
            actual.inv(),
        ensures
            r.inv(),
            r.received() == Seq::<Signal<T, E>>::empty(),
            r.demand() == actual.demand(),
            r.base@ == actual.received(),
            r.actual == actual,
    {
        let ghost base = actual.received();
        let r = InnerSubscriber { actual, base: Ghost(base), log: Ghost(Seq::empty()) };
        assert(delivered(base, base) =~= Seq::<Signal<T, E>>::empty());
        r
    }

    /// Delivers an outcome: a value followed by completion, or an error.
    pub(crate) fn receive(&mut self, outcome: Result<T, E>)
        requires
            old(self).inv(),
        ensures
            final(self).inv(),
            final(self).base == old(self).base,
            final(self).actual.frame() == old(self).actual.frame(),
            final(self).received() == old(self).received() + result_signals(outcome),
    {
        let ghost o = outcome;
        match outcome {
            Ok(t) => {
                self.on_next(t);
                self.on_complete();
            },
            Err(e) => {
                self.on_error(e);
            },
        }
        assert(self.received() =~= old(self).received() + result_signals(o));
    }

    /// What the subscriber's specification means in terms of its fields.
    pub(crate) proof fn lemma_unfold(&self)
        ensures
            self.received() == self.log@,
            self.demand() == self.actual.demand(),
            self.frame() == (InnerSubscriber {
                actual: self.actual.frame(),
                base: self.base,
                log: Ghost(Seq::empty()),
            }),
            self.inv() == {
                &&& self.actual.inv()
                &&& self.base@.is_prefix_of(self.actual.received())
                &&& delivered(self.base@, self.actual.received()) == self.log@
            },
    {
    }

    pub(crate) fn into_actual(self) -> (r: S)
        requires
            self.inv(),
        ensures
            r == self.actual,
            r.inv(),
            self.base@.is_prefix_of(r.received()),
            delivered(self.base@, r.received()) == self.log@,
    {
        self.actual
    }
}

impl<T, E, S> Subscriber for InnerSubscriber<T, E, S> where S: Subscriber<Item = T, Error = E> {
    type Item = T;

    type Error = E;

    closed spec fn received(&self) -> Seq<Signal<T, E>> {
        self.log@
    }

    closed spec fn inv(&self) -> bool {
        &&& self.actual.inv()
        &&& self.base@.is_prefix_of(self.actual.received())
        &&& delivered(self.base@, self.actual.received()) == self.log@
    }

    closed spec fn demand(&self) -> Seq<usize> {
        self.actual.demand()
    }

    closed spec fn frame(&self) -> Self {
        InnerSubscriber { actual: self.actual.frame(), base: self.base, log: Ghost(Seq::empty()) }
    }

    fn on_subscribe<P: Subscription>(&mut self, subscription: &mut P) {
        self.actual.on_subscribe(subscription);
        self.log = Ghost(self.log@.push(Signal::Subscribe));
        assert(self.log@.drop_last() =~= old(self).log@);
        assert(delivered(self.base@, self.actual.received()) =~= self.log@);
    }

    fn on_complete(&mut self) {
        self.actual.on_complete();
        self.log = Ghost(self.log@.push(Signal::Complete));
        assert(delivered(self.base@, self.actual.received()) =~= self.log@);
    }

    fn on_next(&mut self, t: T) {
        self.actual.on_next(t);
        self.log = Ghost(self.log@.push(Signal::Next(t)));
        assert(delivered(self.base@, self.actual.received()) =~= self.log@);
    }

    fn on_error(&mut self, e: E) {
        self.actual.on_error(e);
        self.log = Ghost(self.log@.push(Signal::Error(e)));
        assert(delivered(self.base@, self.actual.received()) =~= self.log@);
    }
}

} // verus!
