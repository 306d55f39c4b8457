use super::spi::Mono;
use crate::spi::{delivered, subscribed_first, errors, Publisher, Signal, Subscriber, Subscription};
use vstd::prelude::*;

verus! {

/// `b` is what `a` becomes when errors pass through `f`: an error is replaced
/// by a result of `f` on it; values and completion pass unchanged.
pub open spec fn signal_error_mapped<T, E1, E2, F: Fn(E1) -> E2>(
    f: F,
    a: Signal<T, E1>,
    b: Signal<T, E2>,
) -> bool {
    match (a, b) {
        (Signal::Next(x), Signal::Next(y)) => x == y,
        (Signal::Subscribe, Signal::Subscribe) => true,
        (Signal::Complete, Signal::Complete) => true,
        (Signal::Error(x), Signal::Error(y)) => f.ensures((x,), y),
        _ => false,
    }
}

/// `dst` is `src` with every error passed through `f`.
pub open spec fn error_mapped<T, E1, E2, F: Fn(E1) -> E2>(
    f: F,
    src: Seq<Signal<T, E1>>,
    dst: Seq<Signal<T, E2>>,
) -> bool {
    &&& src.len() == dst.len()
    &&& forall|i: int| 0 <= i < src.len() ==> #[trigger] signal_error_mapped(f, src[i], dst[i])
}

/// A subscription passes through unchanged, so a sequence that is
/// subscribed first stays so.
pub proof fn lemma_error_mapped_subscribed_first<T, E1, E2, F: Fn(E1) -> E2>(
    f: F,
    src: Seq<Signal<T, E1>>,
    dst: Seq<Signal<T, E2>>,
)
    requires
        error_mapped(f, src, dst),
        subscribed_first(src),
    ensures
        subscribed_first(dst),
{
    assert(signal_error_mapped(f, src[0], dst[0]));
    assert forall|i: int| 1 <= i < dst.len() implies !(#[trigger] dst[i] is Subscribe) by {
        assert(signal_error_mapped(f, src[i], dst[i]));
        assert(!(src[i] is Subscribe));
    }
}

/// A publisher whose errors pass through a function.
pub struct MonoTransformError<M, T, F, E1, E2> {
    source: M,
    transformer: F,
    _t: Ghost<(T, E1, E2)>,
}

impl<M, T, F, E1, E2> MonoTransformError<M, T, F, E1, E2> where F: Fn(E1) -> E2 {
    /// The publisher whose errors are transformed.
    pub closed spec fn source(&self) -> M {
        self.source
    }

    /// The function applied to an error.
    pub closed spec fn transformer(&self) -> F {
        self.transformer
    }

    pub(crate) fn new(m: M, f: F) -> (r: MonoTransformError<M, T, F, E1, E2>)
        ensures
            r.source() == m,
            r.transformer() == f,
    {
        MonoTransformError { source: m, transformer: f, _t: Ghost(arbitrary()) }
    }
}

impl<M, T, F, E1, E2> Mono<T, E2> for MonoTransformError<M, T, F, E1, E2> where
    T: Send + 'static,
    E1: Send + 'static,
    E2: Send + 'static,
    M: Mono<T, E1>,
    F: 'static + Send + Fn(E1) -> E2,
 {

}

impl<M, T, F, E1, E2> Publisher for MonoTransformError<M, T, F, E1, E2> where
    T: Send + 'static,
    E1: Send + 'static,
    E2: Send + 'static,
    M: Mono<T, E1>,
    F: 'static + Send + Fn(E1) -> E2,
 {
    type Item = T;

    type Error = E2;

    open spec fn wf(&self) -> bool {
        &&& self.source().wf()
        &&& forall|e: E1| self.transformer().requires((e,))
    }

    open spec fn accepts(&self, demand: Seq<usize>) -> bool {
        self.source().accepts(demand)
    }

    open spec fn emits(&self, demand: Seq<usize>, signals: Seq<Signal<T, E2>>) -> bool {
        exists|up: Seq<Signal<T, E1>>|
            #[trigger] self.source().emits(demand, up) && error_mapped(self.transformer(), up, signals)
    }

    open spec fn inline(&self) -> bool {
        self.source().inline()
    }

    fn subscribe<S>(self, subscriber: S) -> (r: Option<S>) where
        S: Subscriber<Item = T, Error = E2> + Send + 'static,
     {
        assert(self.transformer() == self.transformer);
        let ghost f = self.transformer;
        let w = InnerSubscriber::new(subscriber, self.transformer);
        let done = match self.source.subscribe(w) {
            Some(d) => d,
            None => {
                return None;
            },
        };
        assert(done.frame() == w.frame());
        assert(delivered(Seq::<Signal<T, E1>>::empty(), done.received()) =~= done.received());
        let r = done.into_actual();
        proof {
            lemma_error_mapped_subscribed_first(f, done.received(), delivered(subscriber.received(), r.received()));
        }
        Some(r)
    }
}

/// Passes an error through the function on its way to `actual`. The error
/// is moved into the call, so the function runs once for it, and on nothing
/// else.
pub struct InnerSubscriber<T, F, S, E1, E2> {
    actual: S,
    transformer: F,
    inputs: Ghost<Seq<E1>>,
    base: Ghost<Seq<Signal<T, E2>>>,
    log: Ghost<Seq<Signal<T, E1>>>,
}

impl<T, F, S, E1, E2> InnerSubscriber<T, F, S, E1, E2> where
    F: Fn(E1) -> E2,
    S: Subscriber<Item = T, Error = E2>,
 {
    fn new(actual: S, transformer: F) -> (r: InnerSubscriber<T, F, S, E1, E2>)
        requires
            actual.inv(),
            forall|e: E1| transformer.requires((e,)),
        ensures
            r.inv(),
            r.received() == Seq::<Signal<T, E1>>::empty(),
            r.demand() == actual.demand(),
            r.base@ == actual.received(),
            r.frame().actual == actual.frame(),
            r.transformer == transformer,
    {
        let ghost base = actual.received();
        let r = InnerSubscriber {
            actual,
            transformer,
            inputs: Ghost(Seq::empty()),
            base: Ghost(base),
            log: Ghost(Seq::empty()),
        };
        assert(delivered(base, base) =~= Seq::<Signal<T, E2>>::empty());
        r
    }

    /// The arguments the function has been called with, in order.
    pub closed spec fn calls(&self) -> Seq<E1> {
        self.inputs@
    }

    /// Law: the function has run once for each error received, in order, and
    /// for nothing else.
    pub proof fn lemma_function_runs_per_error(&self)
        requires
            self.inv(),
        ensures
            self.calls() == errors(self.received()),
    {
    }

    fn into_actual(self) -> (r: S)
        requires
            self.inv(),
        ensures
            r.inv(),
            r.frame() == self.frame().actual,
            self.base@.is_prefix_of(r.received()),
            error_mapped(self.transformer, self.log@, delivered(self.base@, r.received())),
    {
        self.actual
    }
}

impl<T, F, S, E1, E2> Subscriber for InnerSubscriber<T, F, S, E1, E2> where
    F: Fn(E1) -> E2,
    S: Subscriber<Item = T, Error = E2>,
 {
    type Item = T;

    type Error = E1;

    closed spec fn received(&self) -> Seq<Signal<T, E1>> {
        self.log@
    }

    closed spec fn inv(&self) -> bool {
        &&& self.actual.inv()
        &&& forall|e: E1| self.transformer.requires((e,))
        &&& self.inputs@ == errors(self.log@)
        &&& self.base@.is_prefix_of(self.actual.received())
        &&& error_mapped(self.transformer, self.log@, delivered(self.base@, self.actual.received()))
    }

    closed spec fn demand(&self) -> Seq<usize> {
        self.actual.demand()
    }

    closed spec fn frame(&self) -> Self {
        InnerSubscriber {
            actual: self.actual.frame(),
            transformer: self.transformer,
            inputs: Ghost(Seq::empty()),
            base: self.base,
            log: Ghost(Seq::empty()),
        }
    }

    fn on_subscribe<P: Subscription>(&mut self, subscription: &mut P) {
        self.actual.on_subscribe(subscription);
        self.log = Ghost(self.log@.push(Signal::Subscribe));
        assert(self.log@.drop_last() =~= old(self).log@);
        assert(delivered(self.base@, self.actual.received()) =~= delivered(
            self.base@,
            old(self).actual.received(),
        ).push(Signal::Subscribe));
        assert(signal_error_mapped(self.transformer, self.log@.last(), delivered(self.base@, self.actual.received()).last()));
    }

    fn on_complete(&mut self) {
        self.actual.on_complete();
        self.log = Ghost(self.log@.push(Signal::Complete));
        assert(self.log@.drop_last() =~= old(self).log@);
        assert(delivered(self.base@, self.actual.received()) =~= delivered(
            self.base@,
            old(self).actual.received(),
        ).push(Signal::Complete));
        assert(signal_error_mapped(self.transformer, self.log@.last(), Signal::<T, E2>::Complete));
    }

    fn on_next(&mut self, t: T) {
        self.actual.on_next(t);
        self.log = Ghost(self.log@.push(Signal::Next(t)));
        assert(self.log@.drop_last() =~= old(self).log@);
        assert(delivered(self.base@, self.actual.received()) =~= delivered(
            self.base@,
            old(self).actual.received(),
        ).push(Signal::Next(t)));
        assert(signal_error_mapped(self.transformer, self.log@.last(), Signal::<T, E2>::Next(t)));
    }

    fn on_error(&mut self, e: E1) {
        let ghost err = e;
        let e2 = (self.transformer)(e);
        self.inputs = Ghost(self.inputs@.push(err));
        self.actual.on_error(e2);
        self.log = Ghost(self.log@.push(Signal::Error(err)));
        assert(self.log@.drop_last() =~= old(self).log@);
        assert(delivered(self.base@, self.actual.received()) =~= delivered(
            self.base@,
            old(self).actual.received(),
        ).push(Signal::Error(e2)));
        assert(signal_error_mapped(self.transformer, self.log@.last(), Signal::<T, E2>::Error(e2)));
    }
}

} // verus!
