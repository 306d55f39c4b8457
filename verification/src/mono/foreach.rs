use super::spi::Mono;
use crate::spi::{
    delivered, runs, steps_before, values, Publisher, Signal, Step, Subscriber, Subscription,
};
use vstd::prelude::*;

verus! {

/// A publisher that hands its value to a function before passing it on;
/// it delivers exactly what its source delivers. The function is consumed
/// when it runs, so it runs at most once: on the first value.
pub struct Foreach<Z, T, F, E> {
    zero: Z,
    f: F,
    _t: Ghost<(T, E)>,
}

impl<Z, T, F, E> Foreach<Z, T, F, E> where F: FnOnce(&T) {
    /// The publisher whose values are observed.
    pub closed spec fn source(&self) -> Z {
        self.zero
    }

    /// The function that sees the value.
    pub closed spec fn action(&self) -> F {
        self.f
    }

    pub(crate) fn new(zero: Z, f: F) -> (r: Foreach<Z, T, F, E>)
        ensures
            r.source() == zero,
            r.action() == f,
    {
        Foreach { zero, f, _t: Ghost(arbitrary()) }
    }
}

impl<Z, T, F, E> Mono<T, E> for Foreach<Z, T, F, E> where
    T: Send + 'static,
    E: Send + 'static,
    Z: Mono<T, E>,
    F: 'static + Send + FnOnce(&T),
 {

}

impl<Z, T, F, E> Publisher for Foreach<Z, T, F, E> where
    T: Send + 'static,
    E: Send + 'static,
    Z: Mono<T, E>,
    F: 'static + Send + FnOnce(&T),
 {
    type Item = T;

    type Error = E;

    open spec fn wf(&self) -> bool {
        &&& self.source().wf()
        &&& forall|t: &T| self.action().requires((t,))
    }

    open spec fn accepts(&self, demand: Seq<usize>) -> bool {
        self.source().accepts(demand)
    }

    /// What the source delivers, passed on unchanged; the function has run on the value, when one is delivered.
    open spec fn emits(&self, demand: Seq<usize>, signals: Seq<Signal<T, E>>) -> bool {
        &&& self.source().emits(demand, signals)
        &&& values(signals).len() > 0 ==> self.action().ensures((&values(signals)[0],), ())
    }

    open spec fn inline(&self) -> bool {
        self.source().inline()
    }

    fn subscribe<S>(self, subscriber: S) -> (r: Option<S>) where
        S: Subscriber<Item = T, Error = E> + Send + 'static,
     {
        assert(self.action() == self.f);
        let w = ForeachSubscriber::new(subscriber, self.f);
        let done = match self.zero.subscribe(w) {
            Some(d) => d,
            None => {
                return None;
            },
        };
        assert(done.frame() == w.frame());
        assert(delivered(Seq::<Signal<T, E>>::empty(), done.received()) =~= done.received());
        assert(done.act == w.act);
        let r = done.into_actual();
        assert(delivered(subscriber.received(), r.received()) =~= done.received());
        assert(done.received() == done.log@);
        assert(self.action() == done.act@);
        Some(r)
    }
}

/// The signals a function observing the first value runs on: a value, when
/// none came before it.
pub open spec fn on_first_value<T, E>() -> spec_fn(Seq<Signal<T, E>>, Signal<T, E>) -> bool {
    |before: Seq<Signal<T, E>>, s: Signal<T, E>| s is Next && values(before).len() == 0
}

/// Among the steps of an operator that observes the first value, the
/// function ran once if a value came, and not at all otherwise.
pub proof fn lemma_first_value_runs<T, E>(sigs: Seq<Signal<T, E>>)
    ensures
        runs(steps_before(sigs, on_first_value())) == (if values(sigs).len() > 0 {
            1nat
        } else {
            0nat
        }),
    decreases sigs.len(),
{
    if sigs.len() > 0 {
        let prefix = sigs.drop_last();
        lemma_first_value_runs(prefix);
        let prev = steps_before(prefix, on_first_value());
        let x = sigs.last();
        let picked = x is Next && values(prefix).len() == 0;
        assert(on_first_value()(prefix, x) == picked);
        if picked {
            let ran = prev.push(Step::Ran(x));
            assert(ran.push(Step::Passed(x)).drop_last() =~= ran);
            assert(ran.drop_last() =~= prev);
            assert(runs(ran) == runs(prev) + 1);
            assert(runs(ran.push(Step::Passed(x))) == runs(ran));
        } else {
            assert(prev.push(Step::Passed(x)).drop_last() =~= prev);
            assert(runs(prev.push(Step::Passed(x))) == runs(prev));
        }
    }
}

/// Hands the first value to the function, then passes every signal on to
/// `actual`.
pub struct ForeachSubscriber<T, S, F, E> {
    actual: S,
    action: Option<F>,
    act: Ghost<F>,
    steps: Ghost<Seq<Step<T, E>>>,
    base: Ghost<Seq<Signal<T, E>>>,
    log: Ghost<Seq<Signal<T, E>>>,
}

impl<T, S, F, E> ForeachSubscriber<T, S, F, E> where
    S: Subscriber<Item = T, Error = E>,
    F: FnOnce(&T),
 {
    /// The function that sees the first value.
    pub closed spec fn action(&self) -> F {
        self.act@
    }

    /// The function has not run yet.
    pub closed spec fn pending(&self) -> bool {
        self.action is Some
    }

    /// The steps taken so far: the function's run and each signal passed on, in order.
    pub closed spec fn trace(&self) -> Seq<Step<T, E>> {
        self.steps@
    }

    /// Law: the function runs once, on the first value and before that value
    /// is passed on, and never on a completion or an error.
    pub proof fn lemma_action_runs_on_first_value(&self)
        requires
            self.inv(),
        ensures
            self.trace() == steps_before(self.received(), on_first_value()),
            runs(self.trace()) == (if values(self.received()).len() > 0 {
                1nat
            } else {
                0nat
            }),
            self.pending() <==> values(self.received()).len() == 0,
            !self.pending() ==> self.action().ensures((&values(self.received())[0],), ()),
    {
        lemma_first_value_runs(self.log@);
    }

    fn new(actual: S, action: F) -> (r: ForeachSubscriber<T, S, F, E>)
        requires
            actual.inv(),
            forall|t: &T| action.requires((t,)),
        ensures
            r.inv(),
            r.received() == Seq::<Signal<T, E>>::empty(),
            r.demand() == actual.demand(),
            r.base@ == actual.received(),
            r.frame().actual == actual.frame(),
            r.act@ == action,
    {
        let ghost base = actual.received();
        let ghost act = action;
        let r = ForeachSubscriber {
            actual,
            action: Some(action),
            act: Ghost(act),
            steps: Ghost(Seq::empty()),
            base: Ghost(base),
            log: Ghost(Seq::empty()),
        };
        assert(delivered(base, base) =~= Seq::<Signal<T, E>>::empty());
        r
    }

    fn into_actual(self) -> (r: S)
        requires
            self.inv(),
        ensures
            r.inv(),
            r.frame() == self.frame().actual,
            self.base@.is_prefix_of(r.received()),
            delivered(self.base@, r.received()) == self.log@,
            values(self.log@).len() > 0 ==> self.act@.ensures((&values(self.log@)[0],), ()),
    {
        self.actual
    }
}

impl<T, S, F, E> Subscriber for ForeachSubscriber<T, S, F, E> where
    S: Subscriber<Item = T, Error = E>,
    F: FnOnce(&T),
 {
    type Item = T;

    type Error = E;

    closed spec fn received(&self) -> Seq<Signal<T, E>> {
        self.log@
    }

    closed spec fn inv(&self) -> bool {
        &&& self.actual.inv()
        &&& forall|t: &T| self.act@.requires((t,))
        &&& self.base@.is_prefix_of(self.actual.received())
        &&& delivered(self.base@, self.actual.received()) == self.log@
        &&& (self.action matches Some(a) ==> a == self.act@)
        &&& (self.action is None) == (values(self.log@).len() > 0)
        &&& values(self.log@).len() > 0 ==> self.act@.ensures((&values(self.log@)[0],), ())
        &&& self.steps@ == steps_before(self.log@, on_first_value())
    }

    closed spec fn demand(&self) -> Seq<usize> {
        self.actual.demand()
    }

    closed spec fn frame(&self) -> Self {
        ForeachSubscriber {
            actual: self.actual.frame(),
            action: Some(self.act@),
            act: self.act,
            steps: Ghost(Seq::empty()),
            base: self.base,
            log: Ghost(Seq::empty()),
        }
    }

    fn on_subscribe<P: Subscription>(&mut self, subscription: &mut P) {
        self.actual.on_subscribe(subscription);
        self.log = Ghost(self.log@.push(Signal::Subscribe));
        self.steps = Ghost(self.steps@.push(Step::Passed(Signal::Subscribe)));
        assert(self.log@.drop_last() =~= old(self).log@);
        assert(delivered(self.base@, self.actual.received()) =~= self.log@);
    }

    fn on_complete(&mut self) {
        self.actual.on_complete();
        self.log = Ghost(self.log@.push(Signal::Complete));
        self.steps = Ghost(self.steps@.push(Step::Passed(Signal::Complete)));
        assert(self.log@.drop_last() =~= old(self).log@);
        assert(delivered(self.base@, self.actual.received()) =~= self.log@);
    }

    /// Runs the function on the value if it has not run yet, then passes the value on.
    fn on_next(&mut self, t: T) {
        let ghost item = t;
        match self.action.take() {
            Some(a) => {
                a(&t);
                self.steps = Ghost(self.steps@.push(Step::Ran(Signal::Next(item))));
            },
            None => {},
        }
        self.actual.on_next(t);
        self.log = Ghost(self.log@.push(Signal::Next(item)));
        self.steps = Ghost(self.steps@.push(Step::Passed(Signal::Next(item))));
        assert(self.log@.drop_last() =~= old(self).log@);
        assert(values(self.log@) =~= values(old(self).log@).push(item));
        assert(delivered(self.base@, self.actual.received()) =~= self.log@);
    }

    fn on_error(&mut self, e: E) {
        self.actual.on_error(e);
        self.log = Ghost(self.log@.push(Signal::Error(e)));
        self.steps = Ghost(self.steps@.push(Step::Passed(Signal::Error(e))));
        assert(self.log@.drop_last() =~= old(self).log@);
        assert(delivered(self.base@, self.actual.received()) =~= self.log@);
    }
}

} // verus!
