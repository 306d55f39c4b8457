use super::spi::Mono;
use crate::spi::{
    completions, delivered, runs, steps_before, Publisher, Signal, Step, Subscriber, Subscription,
};
use vstd::prelude::*;

verus! {

/// A publisher that runs a function before passing completion on;
/// it delivers exactly what its source delivers. The function is consumed
/// when it runs, so it runs at most once: on the first completion.
pub struct MonoDoOnComplete<T, E, M, F> {
    source: M,
    f: F,
    _t: Ghost<(T, E)>,
}

impl<T, E, M, F> MonoDoOnComplete<T, E, M, F> where F: FnOnce() {
    /// The publisher whose completion is observed.
    pub closed spec fn source(&self) -> M {
        self.source
    }

    /// The function run on completion.
    pub closed spec fn action(&self) -> F {
        self.f
    }

    pub(crate) fn new(source: M, f: F) -> (r: MonoDoOnComplete<T, E, M, F>)
        ensures
            r.source() == source,
            r.action() == f,
    {
        MonoDoOnComplete { source, f, _t: Ghost(arbitrary()) }
    }
}

impl<T, E, M, F> Mono<T, E> for MonoDoOnComplete<T, E, M, F> where
    T: Send + 'static,
    E: Send + 'static,
    M: Mono<T, E>,
    F: 'static + Send + FnOnce(),
 {

}

impl<T, E, M, F> Publisher for MonoDoOnComplete<T, E, M, F> where
    T: Send + 'static,
    E: Send + 'static,
    M: Mono<T, E>,
    F: 'static + Send + FnOnce(),
 {
    type Item = T;

    type Error = E;

    open spec fn wf(&self) -> bool {
        &&& self.source().wf()
        &&& self.action().requires(())
    }

    open spec fn accepts(&self, demand: Seq<usize>) -> bool {
        self.source().accepts(demand)
    }

    /// What the source delivers, passed on unchanged; the function has run when a completion is delivered.
    open spec fn emits(&self, demand: Seq<usize>, signals: Seq<Signal<T, E>>) -> bool {
        &&& self.source().emits(demand, signals)
        &&& completions(signals) > 0 ==> self.action().ensures((), ())
    }

    open spec fn inline(&self) -> bool {
        self.source().inline()
    }

    fn subscribe<S>(self, subscriber: S) -> (r: Option<S>) where
        S: Subscriber<Item = T, Error = E> + Send + 'static,
     {
        assert(self.action() == self.f);
        let w = CompleteSubscriber::new(subscriber, self.f);
        let done = match self.source.subscribe(w) {
            Some(d) => d,
            None => {
                return None;
            },
        };
        assert(done.frame() == w.frame());
        assert(delivered(Seq::<Signal<T, E>>::empty(), done.received()) =~= done.received());
        assert(done.act == w.act);
        let r = done.into_actual();
        assert(delivered(subscriber.received(), r.received()) =~= done.received());
        assert(done.received() == done.log@);
        assert(self.action() == done.act@);
        Some(r)
    }
}

/// The signals a function observing completion runs on: a completion, when
/// none came before it.
pub open spec fn on_first_completion<T, E>() -> spec_fn(Seq<Signal<T, E>>, Signal<T, E>) -> bool {
    |before: Seq<Signal<T, E>>, s: Signal<T, E>| s is Complete && completions(before) == 0
}

/// Among the steps of an operator that observes completion, the function
/// ran once if a completion came, and not at all otherwise.
pub proof fn lemma_first_completion_runs<T, E>(sigs: Seq<Signal<T, E>>)
    ensures
        runs(steps_before(sigs, on_first_completion())) == (if completions(sigs) > 0 {
            1nat
        } else {
            0nat
        }),
    decreases sigs.len(),
{
    if sigs.len() > 0 {
        let prefix = sigs.drop_last();
        lemma_first_completion_runs(prefix);
        let prev = steps_before(prefix, on_first_completion());
        let x = sigs.last();
        let picked = x is Complete && completions(prefix) == 0;
        assert(on_first_completion()(prefix, x) == picked);
        if picked {
            let ran = prev.push(Step::Ran(x));
            assert(ran.push(Step::Passed(x)).drop_last() =~= ran);
            assert(ran.drop_last() =~= prev);
            assert(runs(ran) == runs(prev) + 1);
            assert(runs(ran.push(Step::Passed(x))) == runs(ran));
        } else {
            assert(prev.push(Step::Passed(x)).drop_last() =~= prev);
            assert(runs(prev.push(Step::Passed(x))) == runs(prev));
        }
    }
}

/// Runs the function on the first completion, then passes every signal on
/// to `actual`.
pub struct CompleteSubscriber<T, S, F, E> {
    actual: S,
    action: Option<F>,
    act: Ghost<F>,
    steps: Ghost<Seq<Step<T, E>>>,
    base: Ghost<Seq<Signal<T, E>>>,
    log: Ghost<Seq<Signal<T, E>>>,
}

impl<T, S, F, E> CompleteSubscriber<T, S, F, E> where
    S: Subscriber<Item = T, Error = E>,
    F: FnOnce(),
 {
    /// The function run on completion.
    pub closed spec fn action(&self) -> F {
        self.act@
    }

    /// The function has not run yet.
    pub closed spec fn pending(&self) -> bool {
        self.action is Some
    }

    /// The steps taken so far: the function's run and each signal passed on, in order.
    pub closed spec fn trace(&self) -> Seq<Step<T, E>> {
        self.steps@
    }

    /// Law: the function runs once, on the first completion and before that
    /// completion is passed on, and never on a value or an error.
    pub proof fn lemma_action_runs_on_completion(&self)
        requires
            self.inv(),
        ensures
            self.trace() == steps_before(self.received(), on_first_completion()),
            runs(self.trace()) == (if completions(self.received()) > 0 {
                1nat
            } else {
                0nat
            }),
            self.pending() <==> completions(self.received()) == 0,
            !self.pending() ==> self.action().ensures((), ()),
    {
        lemma_first_completion_runs(self.log@);
    }

    fn new(actual: S, action: F) -> (r: CompleteSubscriber<T, S, F, E>)
        requires
            actual.inv(),
            action.requires(()),
        ensures
            r.inv(),
            r.received() == Seq::<Signal<T, E>>::empty(),
            r.demand() == actual.demand(),
            r.base@ == actual.received(),
            r.frame().actual == actual.frame(),
            r.act@ == action,
    {
        let ghost base = actual.received();
        let ghost act = action;
        let r = CompleteSubscriber {
            actual,
            action: Some(action),
            act: Ghost(act),
            steps: Ghost(Seq::empty()),
            base: Ghost(base),
            log: Ghost(Seq::empty()),
        };
        assert(delivered(base, base) =~= Seq::<Signal<T, E>>::empty());
        r
    }

    fn into_actual(self) -> (r: S)
        requires
            self.inv(),
        ensures
            r.inv(),
            r.frame() == self.frame().actual,
            self.base@.is_prefix_of(r.received()),
            delivered(self.base@, r.received()) == self.log@,
            completions(self.log@) > 0 ==> self.act@.ensures((), ()),
    {
        self.actual
    }
}

impl<T, S, F, E> Subscriber for CompleteSubscriber<T, S, F, E> where
    S: Subscriber<Item = T, Error = E>,
    F: FnOnce(),
 {
    type Item = T;

    type Error = E;

    closed spec fn received(&self) -> Seq<Signal<T, E>> {
        self.log@
    }

    closed spec fn inv(&self) -> bool {
        &&& self.actual.inv()
        &&& self.act@.requires(())
        &&& self.base@.is_prefix_of(self.actual.received())
        &&& delivered(self.base@, self.actual.received()) == self.log@
        &&& (self.action matches Some(a) ==> a == self.act@)
        &&& (self.action is None) == (completions(self.log@) > 0)
        &&& completions(self.log@) > 0 ==> self.act@.ensures((), ())
        &&& self.steps@ == steps_before(self.log@, on_first_completion())
    }

    closed spec fn demand(&self) -> Seq<usize> {
        self.actual.demand()
    }

    closed spec fn frame(&self) -> Self {
        CompleteSubscriber {
            actual: self.actual.frame(),
            action: Some(self.act@),
            act: self.act,
            steps: Ghost(Seq::empty()),
            base: self.base,
            log: Ghost(Seq::empty()),
        }
    }

    fn on_subscribe<P: Subscription>(&mut self, subscription: &mut P) {
        self.actual.on_subscribe(subscription);
        self.log = Ghost(self.log@.push(Signal::Subscribe));
        self.steps = Ghost(self.steps@.push(Step::Passed(Signal::Subscribe)));
        assert(self.log@.drop_last() =~= old(self).log@);
        assert(delivered(self.base@, self.actual.received()) =~= self.log@);
    }

    /// Runs the function if it has not run yet, then passes completion on.
    fn on_complete(&mut self) {
        match self.action.take() {
            Some(a) => {
                a();
                self.steps = Ghost(self.steps@.push(Step::Ran(Signal::Complete)));
            },
            None => {},
        }
        self.actual.on_complete();
        self.log = Ghost(self.log@.push(Signal::Complete));
        self.steps = Ghost(self.steps@.push(Step::Passed(Signal::Complete)));
        assert(self.log@.drop_last() =~= old(self).log@);
        assert(delivered(self.base@, self.actual.received()) =~= self.log@);
    }

    fn on_next(&mut self, t: T) {
        self.actual.on_next(t);
        self.log = Ghost(self.log@.push(Signal::Next(t)));
        self.steps = Ghost(self.steps@.push(Step::Passed(Signal::Next(t))));
        assert(self.log@.drop_last() =~= old(self).log@);
        assert(delivered(self.base@, self.actual.received()) =~= self.log@);
    }

    fn on_error(&mut self, e: E) {
        self.actual.on_error(e);
        self.log = Ghost(self.log@.push(Signal::Error(e)));
        self.steps = Ghost(self.steps@.push(Step::Passed(Signal::Error(e))));
        assert(self.log@.drop_last() =~= old(self).log@);
        assert(delivered(self.base@, self.actual.received()) =~= self.log@);
    }
}

} // verus!
