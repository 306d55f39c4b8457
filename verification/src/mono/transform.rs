use super::spi::Mono;
use crate::spi::{delivered, subscribed_first, values, Publisher, Signal, Subscriber, Subscription};
use vstd::prelude::*;

verus! {

/// `b` is what `a` becomes when values pass through `f`: a value is replaced
/// by a result of `f` on it; completion and errors pass unchanged.
pub open spec fn signal_mapped<T1, T2, E, F: Fn(T1) -> T2>(
    f: F,
    a: Signal<T1, E>,
    b: Signal<T2, E>,
) -> bool {
    match (a, b) {
        (Signal::Next(x), Signal::Next(y)) => f.ensures((x,), y),
        (Signal::Subscribe, Signal::Subscribe) => true,
        (Signal::Complete, Signal::Complete) => true,
        (Signal::Error(x), Signal::Error(y)) => x == y,
        _ => false,
    }
}

/// `dst` is `src` with every value passed through `f`.
pub open spec fn mapped<T1, T2, E, F: Fn(T1) -> T2>(
    f: F,
    src: Seq<Signal<T1, E>>,
    dst: Seq<Signal<T2, E>>,
) -> bool {
    &&& src.len() == dst.len()
    &&& forall|i: int| 0 <= i < src.len() ==> #[trigger] signal_mapped(f, src[i], dst[i])
}

/// A subscription passes through unchanged, so a sequence that is
/// subscribed first stays so.
pub proof fn lemma_mapped_subscribed_first<T1, T2, E, F: Fn(T1) -> T2>(
    f: F,
    src: Seq<Signal<T1, E>>,
    dst: Seq<Signal<T2, E>>,
)
    requires
        mapped(f, src, dst),
        subscribed_first(src),
    ensures
        subscribed_first(dst),
{
    assert(signal_mapped(f, src[0], dst[0]));
    assert forall|i: int| 1 <= i < dst.len() implies !(#[trigger] dst[i] is Subscribe) by {
        assert(signal_mapped(f, src[i], dst[i]));
        assert(!(src[i] is Subscribe));
    }
}

/// A publisher whose values pass through a function.
pub struct MonoTransform<M, T1, T2, F, E> {
    parent: M,
    transformer: F,
    _t: Ghost<(T1, T2, E)>,
}

impl<M, T1, T2, F, E> MonoTransform<M, T1, T2, F, E> where F: Fn(T1) -> T2 {
    /// The publisher whose values are transformed.
    pub closed spec fn parent(&self) -> M {
        self.parent
    }

    /// The function applied to each value.
    pub closed spec fn transformer(&self) -> F {
        self.transformer
    }

    pub(crate) fn new(m: M, f: F) -> (r: MonoTransform<M, T1, T2, F, E>)
        ensures
            r.parent() == m,
            r.transformer() == f,
    {
        MonoTransform { parent: m, transformer: f, _t: Ghost(arbitrary()) }
    }
}

impl<M, T1, T2, F, E> Mono<T2, E> for MonoTransform<M, T1, T2, F, E> where
    T1: Send + 'static,
    T2: Send + 'static,
    E: Send + 'static,
    M: Mono<T1, E>,
    F: 'static + Send + Fn(T1) -> T2,
 {

}

impl<M, T1, T2, F, E> Publisher for MonoTransform<M, T1, T2, F, E> where
    T1: Send + 'static,
    T2: Send + 'static,
    E: Send + 'static,
    M: Mono<T1, E>,
    F: 'static + Send + Fn(T1) -> T2,
 {
    type Item = T2;

    type Error = E;

    open spec fn wf(&self) -> bool {
        &&& self.parent().wf()
        &&& forall|t: T1| self.transformer().requires((t,))
    }

    open spec fn accepts(&self, demand: Seq<usize>) -> bool {
        self.parent().accepts(demand)
    }

    open spec fn emits(&self, demand: Seq<usize>, signals: Seq<Signal<T2, E>>) -> bool {
        exists|up: Seq<Signal<T1, E>>|
            #[trigger] self.parent().emits(demand, up) && mapped(self.transformer(), up, signals)
    }

    open spec fn inline(&self) -> bool {
        self.parent().inline()
    }

    fn subscribe<S>(self, subscriber: S) -> (r: Option<S>) where
        S: Subscriber<Item = T2, Error = E> + Send + 'static,
     {
        assert(self.transformer() == self.transformer);
        let ghost f = self.transformer;
        let w = TransformSubscriber::new(subscriber, self.transformer);
        let done = match self.parent.subscribe(w) {
            Some(d) => d,
            None => {
                return None;
            },
        };
        assert(done.frame() == w.frame());
        assert(delivered(Seq::<Signal<T1, E>>::empty(), done.received()) =~= done.received());
        let r = done.into_actual();
        proof {
            lemma_mapped_subscribed_first(f, done.received(), delivered(subscriber.received(), r.received()));
        }
        Some(r)
    }
}

/// Passes each value through the function on its way to `actual`. A value
/// is moved into the call, so the function runs once for it, and on nothing
/// else.
pub struct TransformSubscriber<T1, T2, F, S, E> {
    actual: S,
    transformer: F,
    inputs: Ghost<Seq<T1>>,
    base: Ghost<Seq<Signal<T2, E>>>,
    log: Ghost<Seq<Signal<T1, E>>>,
}

impl<T1, T2, F, S, E> TransformSubscriber<T1, T2, F, S, E> where
    F: Fn(T1) -> T2,
    S: Subscriber<Item = T2, Error = E>,
 {
    fn new(actual: S, transformer: F) -> (r: TransformSubscriber<T1, T2, F, S, E>)
        requires
            actual.inv(),
            forall|t: T1| transformer.requires((t,)),
        ensures
            r.inv(),
            r.received() == Seq::<Signal<T1, E>>::empty(),
            r.demand() == actual.demand(),
            r.base@ == actual.received(),
            r.frame().actual == actual.frame(),
            r.transformer == transformer,
    {
        let ghost base = actual.received();
        let r = TransformSubscriber {
            actual,
            transformer,
            inputs: Ghost(Seq::empty()),
            base: Ghost(base),
            log: Ghost(Seq::empty()),
        };
        assert(delivered(base, base) =~= Seq::<Signal<T2, E>>::empty());
        r
    }

    /// The arguments the function has been called with, in order.
    pub closed spec fn calls(&self) -> Seq<T1> {
        self.inputs@
    }

    /// Law: the function has run once for each value received, in order, and
    /// for nothing else.
    pub proof fn lemma_function_runs_per_value(&self)
        requires
            self.inv(),
        ensures
            self.calls() == values(self.received()),
    {
    }

    fn into_actual(self) -> (r: S)
        requires
            self.inv(),
        ensures
            r.inv(),
            r.frame() == self.frame().actual,
            self.base@.is_prefix_of(r.received()),
            mapped(self.transformer, self.log@, delivered(self.base@, r.received())),
    {
        self.actual
    }
}

impl<T1, T2, F, S, E> Subscriber for TransformSubscriber<T1, T2, F, S, E> where
    F: Fn(T1) -> T2,
    S: Subscriber<Item = T2, Error = E>,
 {
    type Item = T1;

    type Error = E;

    closed spec fn received(&self) -> Seq<Signal<T1, E>> {
        self.log@
    }

    closed spec fn inv(&self) -> bool {
        &&& self.actual.inv()
        &&& forall|t: T1| self.transformer.requires((t,))
        &&& self.inputs@ == values(self.log@)
        &&& self.base@.is_prefix_of(self.actual.received())
        &&& mapped(self.transformer, self.log@, delivered(self.base@, self.actual.received()))
    }

    closed spec fn demand(&self) -> Seq<usize> {
        self.actual.demand()
    }

    closed spec fn frame(&self) -> Self {
        TransformSubscriber {
            actual: self.actual.frame(),
            transformer: self.transformer,
            inputs: Ghost(Seq::empty()),
            base: self.base,
            log: Ghost(Seq::empty()),
        }
    }

    fn on_subscribe<P: Subscription>(&mut self, subscription: &mut P) {
        self.actual.on_subscribe(subscription);
        self.log = Ghost(self.log@.push(Signal::Subscribe));
        assert(self.log@.drop_last() =~= old(self).log@);
        assert(delivered(self.base@, self.actual.received()) =~= delivered(
            self.base@,
            old(self).actual.received(),
        ).push(Signal::Subscribe));
        assert(signal_mapped(self.transformer, self.log@.last(), delivered(self.base@, self.actual.received()).last()));
    }

    fn on_complete(&mut self) {
        self.actual.on_complete();
        self.log = Ghost(self.log@.push(Signal::Complete));
        assert(self.log@.drop_last() =~= old(self).log@);
        assert(delivered(self.base@, self.actual.received()) =~= delivered(
            self.base@,
            old(self).actual.received(),
        ).push(Signal::Complete));
        assert(signal_mapped(self.transformer, self.log@.last(), Signal::<T2, E>::Complete));
    }

    fn on_next(&mut self, t: T1) {
        let ghost item = t;
        let t2 = (self.transformer)(t);
        self.inputs = Ghost(self.inputs@.push(item));
        self.actual.on_next(t2);
        self.log = Ghost(self.log@.push(Signal::Next(item)));
        assert(self.log@.drop_last() =~= old(self).log@);
        assert(delivered(self.base@, self.actual.received()) =~= delivered(
            self.base@,
            old(self).actual.received(),
        ).push(Signal::Next(t2)));
        assert(signal_mapped(self.transformer, self.log@.last(), Signal::<T2, E>::Next(t2)));
    }

    fn on_error(&mut self, e: E) {
        let ghost err = e;
        self.actual.on_error(e);
        self.log = Ghost(self.log@.push(Signal::Error(err)));
        assert(self.log@.drop_last() =~= old(self).log@);
        assert(delivered(self.base@, self.actual.received()) =~= delivered(
            self.base@,
            old(self).actual.received(),
        ).push(Signal::Error(err)));
        assert(signal_mapped(self.transformer, self.log@.last(), Signal::<T2, E>::Error(err)));
    }
}

} // verus!
