use super::spi::Mono;
use crate::spi::{
    delivered, runs, steps_after, Publisher, Signal, Step, Subscriber, Subscription,
};
use vstd::prelude::*;

verus! {

/// A publisher that runs an action once its source has completed or failed;
/// it delivers exactly what its source delivers. The action is consumed when
/// it runs, so it runs at most once.
pub struct MonoDoFinally<T, E, M, F> {
    source: M,
    f: F,
    _t: Ghost<(T, E)>,
}

impl<T, E, M, F> MonoDoFinally<T, E, M, F> where F: FnOnce() {
    /// The publisher whose end is observed.
    pub closed spec fn source(&self) -> M {
        self.source
    }

    /// The action run at the end.
    pub closed spec fn action(&self) -> F {
        self.f
    }

    pub(crate) fn new(source: M, action: F) -> (r: MonoDoFinally<T, E, M, F>)
        ensures
            r.source() == source,
            r.action() == action,
    {
        MonoDoFinally { source, f: action, _t: Ghost(arbitrary()) }
    }
}

impl<T, E, M, F> Mono<T, E> for MonoDoFinally<T, E, M, F> where
    T: Send + 'static,
    E: Send + 'static,
    M: Mono<T, E>,
    F: 'static + Send + FnOnce(),
 {

}

impl<T, E, M, F> Publisher for MonoDoFinally<T, E, M, F> where
    T: Send + 'static,
    E: Send + 'static,
    M: Mono<T, E>,
    F: 'static + Send + FnOnce(),
 {
    type Item = T;

    type Error = E;

    open spec fn wf(&self) -> bool {
        &&& self.source().wf()
        &&& self.action().requires(())
    }

    open spec fn accepts(&self, demand: Seq<usize>) -> bool {
        self.source().accepts(demand)
    }

    /// What the source delivers, passed on unchanged; the action has run when a completion or an error is delivered.
    open spec fn emits(&self, demand: Seq<usize>, signals: Seq<Signal<T, E>>) -> bool {
        &&& self.source().emits(demand, signals)
        &&& terminated(signals) ==> self.action().ensures((), ())
    }

    open spec fn inline(&self) -> bool {
        self.source().inline()
    }

    fn subscribe<S>(self, subscriber: S) -> (r: Option<S>) where
        S: Subscriber<Item = T, Error = E> + Send + 'static,
     {
        assert(self.action() == self.f);
        let w = DoFinallySubscriber::new(subscriber, self.f);
        let done = match self.source.subscribe(w) {
            Some(d) => d,
            None => {
                return None;
            },
        };
        assert(done.frame() == w.frame());
        assert(delivered(Seq::<Signal<T, E>>::empty(), done.received()) =~= done.received());
        assert(done.act == w.act);
        let r = done.into_actual();
        assert(delivered(subscriber.received(), r.received()) =~= done.received());
        assert(done.received() == done.log@);
        assert(self.action() == done.act@);
        Some(r)
    }
}

/// The signals include a completion or an error.
pub open spec fn terminated<T, E>(sigs: Seq<Signal<T, E>>) -> bool
    decreases sigs.len(),
{
    sigs.len() > 0 && (terminated(sigs.drop_last()) || sigs.last() is Complete || sigs.last() is Error)
}

/// The signals an action run at the end runs on: a completion or an error,
/// when neither came before it.
pub open spec fn on_first_end<T, E>() -> spec_fn(Seq<Signal<T, E>>, Signal<T, E>) -> bool {
    |before: Seq<Signal<T, E>>, s: Signal<T, E>| (s is Complete || s is Error) && !terminated(before)
}

/// Among the steps of an operator that runs an action at the end, the action
/// ran once if the signals ended, and not at all otherwise.
pub proof fn lemma_first_end_runs<T, E>(sigs: Seq<Signal<T, E>>)
    ensures
        runs(steps_after(sigs, on_first_end())) == (if terminated(sigs) {
            1nat
        } else {
            0nat
        }),
    decreases sigs.len(),
{
    if sigs.len() > 0 {
        let prefix = sigs.drop_last();
        lemma_first_end_runs(prefix);
        let prev = steps_after(prefix, on_first_end());
        let x = sigs.last();
        let picked = (x is Complete || x is Error) && !terminated(prefix);
        assert(on_first_end()(prefix, x) == picked);
        if picked {
            let passed = prev.push(Step::Passed(x));
            assert(passed.push(Step::Ran(x)).drop_last() =~= passed);
            assert(passed.drop_last() =~= prev);
            assert(runs(passed) == runs(prev));
            assert(runs(passed.push(Step::Ran(x))) == runs(passed) + 1);
        } else {
            assert(prev.push(Step::Passed(x)).drop_last() =~= prev);
            assert(runs(prev.push(Step::Passed(x))) == runs(prev));
        }
    }
}

/// Passes every signal on to `actual`, and runs the action after the first
/// completion or error has been passed on.
pub struct DoFinallySubscriber<T, E, S, F> {
    actual: S,
    action: Option<F>,
    act: Ghost<F>,
    steps: Ghost<Seq<Step<T, E>>>,
    base: Ghost<Seq<Signal<T, E>>>,
    log: Ghost<Seq<Signal<T, E>>>,
}

impl<T, E, S, F> DoFinallySubscriber<T, E, S, F> where S: Subscriber<Item = T, Error = E>, F: FnOnce() {
    /// The action run at the end.
    pub closed spec fn action(&self) -> F {
        self.act@
    }

    /// The action has not run yet.
    pub closed spec fn pending(&self) -> bool {
        self.action is Some
    }

    /// The steps taken so far: each signal passed on and the action's run, in order.
    pub closed spec fn trace(&self) -> Seq<Step<T, E>> {
        self.steps@
    }

    fn new(actual: S, action: F) -> (r: DoFinallySubscriber<T, E, S, F>)
        requires
            actual.inv(),
            action.requires(()),
        ensures
            r.inv(),
            r.received() == Seq::<Signal<T, E>>::empty(),
            r.demand() == actual.demand(),
            r.base@ == actual.received(),
            r.frame().actual == actual.frame(),
            r.act@ == action,
    {
        let ghost base = actual.received();
        let ghost act = action;
        let r = DoFinallySubscriber {
            actual,
            action: Some(action),
            act: Ghost(act),
            steps: Ghost(Seq::empty()),
            base: Ghost(base),
            log: Ghost(Seq::empty()),
        };
        assert(delivered(base, base) =~= Seq::<Signal<T, E>>::empty());
        r
    }

    fn into_actual(self) -> (r: S)
        requires
            self.inv(),
        ensures
            r.inv(),
            r.frame() == self.frame().actual,
            self.base@.is_prefix_of(r.received()),
            delivered(self.base@, r.received()) == self.log@,
            terminated(self.log@) ==> self.act@.ensures((), ()),
    {
        self.actual
    }

    /// Runs the action unless it has run already; running consumes it.
    fn finally(&mut self)
        requires
            old(self).action matches Some(a) ==> a == old(self).act@ && a.requires(()),
            old(self).action is None ==> old(self).act@.ensures((), ()),
        ensures
            final(self).action is None,
            final(self).act@.ensures((), ()),
            final(self).steps@ == (if old(self).action is None {
                old(self).steps@
            } else {
                old(self).steps@.push(Step::Ran(old(self).log@.last()))
            }),
            final(self).actual == old(self).actual,
            final(self).act == old(self).act,
            final(self).base == old(self).base,
            final(self).log == old(self).log,
    {
        match self.action.take() {
            Some(a) => {
                a();
                self.steps = Ghost(self.steps@.push(Step::Ran(self.log@.last())));
            },
            None => {},
        }
    }

    /// Law: the action runs exactly once, after the first completion or
    /// error has been passed on, and not before.
    pub proof fn lemma_action_runs_once(&self)
        requires
            self.inv(),
        ensures
            self.trace() == steps_after(self.received(), on_first_end()),
            runs(self.trace()) == (if terminated(self.received()) {
                1nat
            } else {
                0nat
            }),
            self.pending() <==> !terminated(self.received()),
            !self.pending() ==> self.action().ensures((), ()),
    {
        lemma_first_end_runs(self.log@);
    }
}

impl<T, E, S, F> Subscriber for DoFinallySubscriber<T, E, S, F> where
    S: Subscriber<Item = T, Error = E>,
    F: FnOnce(),
 {
    type Item = T;

    type Error = E;

    closed spec fn received(&self) -> Seq<Signal<T, E>> {
        self.log@
    }

    closed spec fn inv(&self) -> bool {
        &&& self.actual.inv()
        &&& self.act@.requires(())
        &&& self.base@.is_prefix_of(self.actual.received())
        &&& delivered(self.base@, self.actual.received()) == self.log@
        &&& (self.action is None) == terminated(self.log@)
        &&& (self.action matches Some(a) ==> a == self.act@)
        &&& (self.action is None ==> self.act@.ensures((), ()))
        &&& self.steps@ == steps_after(self.log@, on_first_end())
    }

    closed spec fn demand(&self) -> Seq<usize> {
        self.actual.demand()
    }

    closed spec fn frame(&self) -> Self {
        DoFinallySubscriber {
            actual: self.actual.frame(),
            action: Some(self.act@),
            act: self.act,
            steps: Ghost(Seq::empty()),
            base: self.base,
            log: Ghost(Seq::empty()),
        }
    }

    fn on_subscribe<P: Subscription>(&mut self, subscription: &mut P) {
        self.actual.on_subscribe(subscription);
        self.log = Ghost(self.log@.push(Signal::Subscribe));
        self.steps = Ghost(self.steps@.push(Step::Passed(Signal::Subscribe)));
        assert(self.log@.drop_last() =~= old(self).log@);
        assert(delivered(self.base@, self.actual.received()) =~= self.log@);
    }

    /// Passes completion on, then runs the action if it has not run.
    fn on_complete(&mut self) {
        self.actual.on_complete();
        self.log = Ghost(self.log@.push(Signal::Complete));
        self.steps = Ghost(self.steps@.push(Step::Passed(Signal::Complete)));
        assert(self.log@.drop_last() =~= old(self).log@);
        self.finally();
        assert(delivered(self.base@, self.actual.received()) =~= self.log@);
    }

    fn on_next(&mut self, t: T) {
        self.actual.on_next(t);
        self.log = Ghost(self.log@.push(Signal::Next(t)));
        self.steps = Ghost(self.steps@.push(Step::Passed(Signal::Next(t))));
        assert(self.log@.drop_last() =~= old(self).log@);
        assert(delivered(self.base@, self.actual.received()) =~= self.log@);
    }

    /// Passes the error on, then runs the action if it has not run.
    fn on_error(&mut self, e: E) {
        self.actual.on_error(e);
        self.log = Ghost(self.log@.push(Signal::Error(e)));
        self.steps = Ghost(self.steps@.push(Step::Passed(Signal::Error(e))));
        assert(self.log@.drop_last() =~= old(self).log@);
        self.finally();
        assert(delivered(self.base@, self.actual.received()) =~= self.log@);
    }
}

} // verus!
