use super::spi::Mono;
use crate::spi::{delivered, subscribed_first, Publisher, Signal, Subscriber, Subscription};
use vstd::prelude::*;

verus! {

/// `dst` is `src` without the values that `p` rejects: a value stays when
/// `p` returns `true` on it; completion and errors always stay.
pub open spec fn filtered<T, E, F: Fn(&T) -> bool>(
    p: F,
    src: Seq<Signal<T, E>>,
    dst: Seq<Signal<T, E>>,
) -> bool
    decreases src.len(),
{
    if src.len() == 0 {
        dst.len() == 0
    } else {
        match src.last() {
            Signal::Next(v) => {
                ||| (p.ensures((&v,), true) && dst.len() > 0 && dst.last() == src.last() && filtered(
                    p,
                    src.drop_last(),
                    dst.drop_last(),
                ))
                ||| (p.ensures((&v,), false) && filtered(p, src.drop_last(), dst))
            },
            _ => dst.len() > 0 && dst.last() == src.last() && filtered(
                p,
                src.drop_last(),
                dst.drop_last(),
            ),
        }
    }
}

/// Filtering keeps the subscription and adds none, so a sequence that is
/// subscribed first stays so.
pub proof fn lemma_filtered_subscribed_first<T, E, F: Fn(&T) -> bool>(
    p: F,
    src: Seq<Signal<T, E>>,
    dst: Seq<Signal<T, E>>,
)
    requires
        filtered(p, src, dst),
        subscribed_first(src),
    ensures
        subscribed_first(dst),
    decreases src.len(),
{
    if src.len() == 1 {
        assert(src.drop_last() =~= Seq::<Signal<T, E>>::empty());
        assert(src.last() is Subscribe);
        assert(filtered(p, Seq::<Signal<T, E>>::empty(), dst.drop_last()));
        assert(dst.drop_last().len() == 0);
        assert(dst =~= seq![Signal::<T, E>::Subscribe]);
    } else {
        let s0 = src.drop_last();
        assert forall|i: int| 1 <= i < s0.len() implies !(#[trigger] s0[i] is Subscribe) by {
            assert(s0[i] == src[i]);
        }
        assert(!(src.last() is Subscribe));
        match src.last() {
            Signal::Next(v) => {
                if p.ensures((&v,), true) && dst.len() > 0 && dst.last() == src.last() && filtered(
                    p,
                    s0,
                    dst.drop_last(),
                ) {
                    lemma_filtered_subscribed_first(p, s0, dst.drop_last());
                    assert(dst =~= dst.drop_last().push(dst.last()));
                    assert forall|i: int| 1 <= i < dst.len() implies !(#[trigger] dst[i] is Subscribe) by {
                        if i < dst.len() - 1 {
                            assert(dst[i] == dst.drop_last()[i]);
                        }
                    }
                } else {
                    lemma_filtered_subscribed_first(p, s0, dst);
                }
            },
            _ => {
                lemma_filtered_subscribed_first(p, s0, dst.drop_last());
                assert forall|i: int| 1 <= i < dst.len() implies !(#[trigger] dst[i] is Subscribe) by {
                    if i < dst.len() - 1 {
                        assert(dst[i] == dst.drop_last()[i]);
                    }
                }
            },
        }
    }
}

/// A publisher that passes on only the values a predicate accepts.
pub struct MonoFilter<M, T, F, E> {
    source: M,
    predicate: F,
    _t: Ghost<(T, E)>,
}

impl<M, T, F, E> MonoFilter<M, T, F, E> where F: Fn(&T) -> bool {
    /// The publisher whose values are filtered.
    pub closed spec fn source(&self) -> M {
        self.source
    }

    /// The predicate that decides which values pass.
    pub closed spec fn predicate(&self) -> F {
        self.predicate
    }

    pub(crate) fn new(source: M, predicate: F) -> (r: MonoFilter<M, T, F, E>)
        ensures
            r.source() == source,
            r.predicate() == predicate,
    {
        MonoFilter { source, predicate, _t: Ghost(arbitrary()) }
    }
}

impl<M, T, F, E> Mono<T, E> for MonoFilter<M, T, F, E> where
    T: Send + 'static,
    E: Send + 'static,
    M: Mono<T, E>,
    F: 'static + Send + Fn(&T) -> bool,
 {

}

impl<M, T, F, E> Publisher for MonoFilter<M, T, F, E> where
    T: Send + 'static,
    E: Send + 'static,
    M: Mono<T, E>,
    F: 'static + Send + Fn(&T) -> bool,
 {
    type Item = T;

    type Error = E;

    open spec fn wf(&self) -> bool {
        &&& self.source().wf()
        &&& forall|t: &T| self.predicate().requires((t,))
    }

    open spec fn accepts(&self, demand: Seq<usize>) -> bool {
        self.source().accepts(demand)
    }

    open spec fn emits(&self, demand: Seq<usize>, signals: Seq<Signal<T, E>>) -> bool {
        exists|up: Seq<Signal<T, E>>|
            #[trigger] self.source().emits(demand, up) && filtered(self.predicate(), up, signals)
    }

    open spec fn inline(&self) -> bool {
        self.source().inline()
    }

    fn subscribe<S>(self, subscriber: S) -> (r: Option<S>) where
        S: Subscriber<Item = T, Error = E> + Send + 'static,
     {
        assert(self.predicate() == self.predicate);
        let ghost p = self.predicate;
        let w = FilterSubscriber::new(subscriber, self.predicate);
        let done = match self.source.subscribe(w) {
            Some(d) => d,
            None => {
                return None;
            },
        };
        assert(done.frame() == w.frame());
        assert(delivered(Seq::<Signal<T, E>>::empty(), done.received()) =~= done.received());
        let r = done.into_actual();
        proof {
            lemma_filtered_subscribed_first(p, done.received(), delivered(subscriber.received(), r.received()));
        }
        Some(r)
    }
}

/// Passes a value on to `actual` only when the predicate accepts it.
struct FilterSubscriber<T, S, F, E> {
    actual: S,
    predicate: F,
    base: Ghost<Seq<Signal<T, E>>>,
    log: Ghost<Seq<Signal<T, E>>>,
}

impl<T, S, F, E> FilterSubscriber<T, S, F, E> where
    S: Subscriber<Item = T, Error = E>,
    F: Fn(&T) -> bool,
 {
    fn new(actual: S, predicate: F) -> (r: FilterSubscriber<T, S, F, E>)
        requires
            actual.inv(),
            forall|t: &T| predicate.requires((t,)),
        ensures
            r.inv(),
            r.received() == Seq::<Signal<T, E>>::empty(),
            r.demand() == actual.demand(),
            r.base@ == actual.received(),
            r.predicate == predicate,
            r.frame().actual == actual.frame(),
    {
        let ghost base = actual.received();
        let r = FilterSubscriber { actual, predicate, base: Ghost(base), log: Ghost(Seq::empty()) };
        assert(delivered(base, base) =~= Seq::<Signal<T, E>>::empty());
        r
    }

    fn into_actual(self) -> (r: S)
        requires
            self.inv(),
        ensures
            r.inv(),
            r.frame() == self.frame().actual,
            self.base@.is_prefix_of(r.received()),
            filtered(self.predicate, self.log@, delivered(self.base@, r.received())),
    {
        self.actual
    }
}

impl<T, S, F, E> Subscriber for FilterSubscriber<T, S, F, E> where
    S: Subscriber<Item = T, Error = E>,
    F: Fn(&T) -> bool,
 {
    type Item = T;

    type Error = E;

    closed spec fn received(&self) -> Seq<Signal<T, E>> {
        self.log@
    }

    closed spec fn inv(&self) -> bool {
        &&& self.actual.inv()
        &&& forall|t: &T| self.predicate.requires((t,))
        &&& self.base@.is_prefix_of(self.actual.received())
        &&& filtered(self.predicate, self.log@, delivered(self.base@, self.actual.received()))
    }

    closed spec fn demand(&self) -> Seq<usize> {
        self.actual.demand()
    }

    closed spec fn frame(&self) -> Self {
        FilterSubscriber {
            actual: self.actual.frame(),
            predicate: self.predicate,
            base: self.base,
            log: Ghost(Seq::empty()),
        }
    }

    fn on_subscribe<P: Subscription>(&mut self, subscription: &mut P) {
        self.actual.on_subscribe(subscription);
        self.log = Ghost(self.log@.push(Signal::Subscribe));
        proof {
            let out = delivered(self.base@, self.actual.received());
            assert(out.drop_last() =~= delivered(self.base@, old(self).actual.received()));
            assert(self.log@.drop_last() =~= old(self).log@);
        }
    }

    fn on_complete(&mut self) {
        self.actual.on_complete();
        self.log = Ghost(self.log@.push(Signal::Complete));
        proof {
            let out = delivered(self.base@, self.actual.received());
            assert(out.drop_last() =~= delivered(self.base@, old(self).actual.received()));
            assert(self.log@.drop_last() =~= old(self).log@);
        }
    }

    fn on_next(&mut self, t: T) {
        let keep = (self.predicate)(&t);
        if keep {
            self.actual.on_next(t);
        }
        self.log = Ghost(self.log@.push(Signal::Next(t)));
        proof {
            let out = delivered(self.base@, self.actual.received());
            assert(self.log@.drop_last() =~= old(self).log@);
            if keep {
                assert(out.drop_last() =~= delivered(self.base@, old(self).actual.received()));
            } else {
                assert(out =~= delivered(self.base@, old(self).actual.received()));
            }
        }
    }

    fn on_error(&mut self, e: E) {
        self.actual.on_error(e);
        self.log = Ghost(self.log@.push(Signal::Error(e)));
        proof {
            let out = delivered(self.base@, self.actual.received());
            assert(out.drop_last() =~= delivered(self.base@, old(self).actual.received()));
            assert(self.log@.drop_last() =~= old(self).log@);
        }
    }
}

} // verus!
