use super::misc::EmptySubscription;
use super::spi::Mono;
use crate::spi::{
    delivered, lemma_concat_no_subscribe, lemma_push_no_subscribe, lemma_subscribed_first,
    no_subscribe, Publisher, Signal, Subscriber, Subscription, REQUEST_MAX,
};
use vstd::prelude::*;

verus! {

/// What reaches the downstream subscriber while an inner publisher delivers
/// `sigs`, starting with the shared completion flag at `completed`; also the
/// flag afterwards, and whether the inner subscriber has ended.
///
/// The inner subscription is not passed on, values are. The first
/// completion or error ends the inner subscriber: a completion is passed on
/// when the source has completed already, and otherwise sets the flag so
/// that the source's completion is; an error is passed on.
pub open spec fn inner_run<T, E>(completed: bool, sigs: Seq<Signal<T, E>>) -> (
    Seq<Signal<T, E>>,
    bool,
    bool,
)
    decreases sigs.len(),
{
    if sigs.len() == 0 {
        (Seq::empty(), completed, false)
    } else {
        let (out, c, d) = inner_run(completed, sigs.drop_last());
        match sigs.last() {
            Signal::Subscribe => (out, c, d),
            Signal::Next(x) => (out.push(Signal::Next(x)), c, d),
            Signal::Complete => if d {
                (out, c, d)
            } else {
                (
                    if c {
                        out.push(Signal::Complete)
                    } else {
                        out
                    },
                    true,
                    true,
                )
            },
            Signal::Error(e) => if d {
                (out, c, d)
            } else {
                (out.push(Signal::Error(e)), c, true)
            },
        }
    }
}

/// What reaches the downstream subscriber, after its subscription, when the
/// source delivers `outer` and, for each value in it, the publisher the
/// mapper made of it delivers the matching entry of `inners`; also the
/// shared completion flag, whether the main subscriber has ended, and
/// whether an inner publisher was subscribed.
///
/// The source's subscription is not passed on; a value's inner signals pass
/// as `inner_run` says. The first completion or error of the source ends the
/// main subscriber. Its completion is passed on when no inner publisher was
/// subscribed or the inner one has completed, and otherwise sets the flag so
/// that the inner completion is; its error is passed on.
pub open spec fn flat_run<T1, T2, E>(
    outer: Seq<Signal<T1, E>>,
    inners: Seq<Seq<Signal<T2, E>>>,
) -> (Seq<Signal<T2, E>>, bool, bool, bool)
    decreases outer.len(),
{
    if outer.len() == 0 {
        (Seq::empty(), false, false, false)
    } else {
        let (out, c, d, started) = flat_run(outer.drop_last(), inners.drop_last());
        match outer.last() {
            Signal::Subscribe => (out, c, d, started),
            Signal::Next(_) => {
                let (o, c2, _) = inner_run(c, inners.last());
                (out + o, c2, d, true)
            },
            Signal::Complete => if d {
                (out, c, d, started)
            } else if !started || c {
                (out.push(Signal::Complete), c, true, started)
            } else {
                (out, true, true, started)
            },
            Signal::Error(e) => if d {
                (out, c, d, started)
            } else {
                (out.push(Signal::Error(e)), c, true, started)
            },
        }
    }
}

/// An inner publisher's subscription never reaches the downstream subscriber.
pub proof fn lemma_inner_run_no_subscribe<T, E>(completed: bool, sigs: Seq<Signal<T, E>>)
    ensures
        no_subscribe(inner_run(completed, sigs).0),
    decreases sigs.len(),
{
    if sigs.len() > 0 {
        lemma_inner_run_no_subscribe(completed, sigs.drop_last());
        let out = inner_run(completed, sigs.drop_last()).0;
        match sigs.last() {
            Signal::Subscribe => {},
            x => lemma_push_no_subscribe(out, x),
        }
    }
}

/// Neither the source's nor an inner publisher's subscription reaches the
/// downstream subscriber.
pub proof fn lemma_flat_run_no_subscribe<T1, T2, E>(
    outer: Seq<Signal<T1, E>>,
    inners: Seq<Seq<Signal<T2, E>>>,
)
    ensures
        no_subscribe(flat_run(outer, inners).0),
    decreases outer.len(),
{
    if outer.len() > 0 {
        lemma_flat_run_no_subscribe(outer.drop_last(), inners.drop_last());
        let (out, c, d, started) = flat_run(outer.drop_last(), inners.drop_last());
        lemma_inner_run_no_subscribe(c, inners.last());
        lemma_concat_no_subscribe(out, inner_run(c, inners.last()).0);
        lemma_push_no_subscribe(out, Signal::<T2, E>::Complete);
        match outer.last() {
            Signal::Error(e) => lemma_push_no_subscribe(out, Signal::<T2, E>::Error(e)),
            _ => {},
        }
    }
}

/// For each value in `outer`, `monos` holds a publisher the mapper can make
/// of it, and `inners` a sequence that publisher can deliver when everything
/// is requested.
pub open spec fn inner_sources<T1, T2, E, M: Publisher<Item = T2, Error = E>, F: Fn(T1) -> M>(
    mapper: F,
    outer: Seq<Signal<T1, E>>,
    monos: Seq<M>,
    inners: Seq<Seq<Signal<T2, E>>>,
) -> bool {
    &&& monos.len() == outer.len()
    &&& inners.len() == outer.len()
    &&& forall|i: int|
        0 <= i < outer.len() ==> (#[trigger] outer[i] matches Signal::Next(v) ==> mapper.ensures(
            (v,),
            monos[i],
        ) && monos[i].emits(seq![REQUEST_MAX], inners[i]))
}

/// Recording one more signal of the source, with the publisher the mapper
/// made of it and what that publisher delivered when the signal is a value,
/// keeps the record of the inner publishers.
pub proof fn lemma_inner_sources_push<T1, T2, E, M: Publisher<Item = T2, Error = E>, F: Fn(T1) -> M>(
    mapper: F,
    outer: Seq<Signal<T1, E>>,
    monos: Seq<M>,
    inners: Seq<Seq<Signal<T2, E>>>,
    x: Signal<T1, E>,
    m: M,
    s: Seq<Signal<T2, E>>,
)
    requires
        inner_sources(mapper, outer, monos, inners),
        x matches Signal::Next(v) ==> mapper.ensures((v,), m) && m.emits(seq![REQUEST_MAX], s),
    ensures
        inner_sources(mapper, outer.push(x), monos.push(m), inners.push(s)),
{
    assert forall|i: int| 0 <= i < outer.len() + 1 implies (#[trigger] outer.push(x)[i] matches Signal::Next(
        v,
    ) ==> mapper.ensures((v,), monos.push(m)[i]) && monos.push(m)[i].emits(
        seq![REQUEST_MAX],
        inners.push(s)[i],
    )) by {
        if i < outer.len() {
            assert(outer.push(x)[i] == outer[i]);
        }
    }
}

/// A publisher that maps its source's value to another publisher and
/// delivers what that one delivers.
pub struct MonoFlatMap<T1, T2, E, M1, M2, F> {
    source: M1,
    mapper: F,
    _t: Ghost<(T1, T2, E, M2)>,
}

impl<T1, T2, E, M1, M2, F> MonoFlatMap<T1, T2, E, M1, M2, F> where F: Fn(T1) -> M2 {
    /// The publisher whose value is mapped.
    pub closed spec fn source(&self) -> M1 {
        self.source
    }

    /// The function that makes a publisher of a value.
    pub closed spec fn mapper(&self) -> F {
        self.mapper
    }

    pub(crate) fn new(source: M1, mapper: F) -> (r: MonoFlatMap<T1, T2, E, M1, M2, F>)
        ensures
            r.source() == source,
            r.mapper() == mapper,
    {
        MonoFlatMap { source, mapper, _t: Ghost(arbitrary()) }
    }
}

impl<T1, T2, E, M1, M2, F> Mono<T2, E> for MonoFlatMap<T1, T2, E, M1, M2, F> where
    T1: 'static + Send,
    T2: 'static + Send,
    E: 'static + Send,
    M1: 'static + Send + Mono<T1, E>,
    M2: 'static + Send + Publisher<Item = T2, Error = E>,
    F: 'static + Send + Fn(T1) -> M2,
 {

}

impl<T1, T2, E, M1, M2, F> Publisher for MonoFlatMap<T1, T2, E, M1, M2, F> where
    T1: 'static + Send,
    T2: 'static + Send,
    E: 'static + Send,
    M1: 'static + Send + Mono<T1, E>,
    M2: 'static + Send + Publisher<Item = T2, Error = E>,
    F: 'static + Send + Fn(T1) -> M2,
 {
    type Item = T2;

    type Error = E;

    open spec fn wf(&self) -> bool {
        &&& self.source().wf()
        &&& forall|t: T1| self.mapper().requires((t,))
        &&& forall|t: T1, m: M2| #[trigger]
            self.mapper().ensures((t,), m) ==> m.wf() && m.accepts(seq![REQUEST_MAX]) && m.inline()
    }

    /// The source and the inner publishers are asked for everything,
    /// whatever the subscriber asks for. An inner publisher must be
    /// subscribed inline.
    open spec fn accepts(&self, demand: Seq<usize>) -> bool {
        self.source().accepts(seq![REQUEST_MAX])
    }

    open spec fn emits(&self, demand: Seq<usize>, signals: Seq<Signal<T2, E>>) -> bool {
        exists|outer: Seq<Signal<T1, E>>, monos: Seq<M2>, inners: Seq<Seq<Signal<T2, E>>>|
            #![trigger self.source().emits(seq![REQUEST_MAX], outer), inner_sources(self.mapper(), outer, monos, inners)]
            {
                &&& self.source().emits(seq![REQUEST_MAX], outer)
                &&& inner_sources(self.mapper(), outer, monos, inners)
                &&& signals == seq![Signal::Subscribe] + flat_run(outer, inners).0
            }
    }

    open spec fn inline(&self) -> bool {
        self.source().inline()
    }

    fn subscribe<S>(self, subscriber: S) -> (r: Option<S>) where
        S: Subscriber<Item = T2, Error = E> + Send + 'static,
     {
        assert(self.mapper() == self.mapper);
        let mut actual = subscriber;
        let mut empty = EmptySubscription::new();
        actual.on_subscribe(&mut empty);
        let main = MainSubscriber::new(actual, self.mapper);
        let done = match self.source.subscribe(main) {
            Some(d) => d,
            None => {
                return None;
            },
        };
        assert(done.frame() == main.frame());
        assert(delivered(Seq::<Signal<T1, E>>::empty(), done.received()) =~= done.received());
        let r = done.into_actual();
        proof {
            let rest = delivered(main.base@, r.received());
            let b = subscriber.received();
            assert(main.base@ == b.push(Signal::<T2, E>::Subscribe));
            assert(r.received()[b.len() as int] == main.base@[b.len() as int]);
            lemma_flat_run_no_subscribe(done.log@, done.inners@);
            assert(delivered(subscriber.received(), r.received()) =~= seq![Signal::<T2, E>::Subscribe] + rest);
            lemma_subscribed_first(rest);
        }
        Some(r)
    }
}

/// Subscribes to the source; maps each value to a publisher and subscribes
/// an `InnerSubscriber` to it, which passes its signals on to `actual`. A
/// value is moved into the mapper, so the mapper runs once for it, and never
/// on a completion or an error.
struct MainSubscriber<T1, T2, E, M, S, F> {
    actual: Option<S>,
    mapper: F,
    done: bool,
    completed: bool,
    started: bool,
    base: Ghost<Seq<Signal<T2, E>>>,
    log: Ghost<Seq<Signal<T1, E>>>,
    monos: Ghost<Seq<M>>,
    inners: Ghost<Seq<Seq<Signal<T2, E>>>>,
}

impl<T1, T2, E, M, S, F> MainSubscriber<T1, T2, E, M, S, F> where
    T2: 'static + Send,
    E: 'static + Send,
    S: 'static + Send + Subscriber<Item = T2, Error = E>,
    M: Publisher<Item = T2, Error = E>,
    F: Fn(T1) -> M,
 {
    fn new(actual: S, mapper: F) -> (r: MainSubscriber<T1, T2, E, M, S, F>)
        requires
            actual.inv(),
            forall|t: T1| mapper.requires((t,)),
            forall|t: T1, m: M| #[trigger]
                mapper.ensures((t,), m) ==> m.wf() && m.accepts(seq![REQUEST_MAX]) && m.inline(),
        ensures
            r.inv(),
            r.received() == Seq::<Signal<T1, E>>::empty(),
            r.mapper == mapper,
            r.base@ == actual.received(),
            r.frame().actual == Some(actual.frame()),
    {
        let ghost base = actual.received();
        let r = MainSubscriber {
            actual: Some(actual),
            mapper,
            done: false,
            completed: false,
            started: false,
            base: Ghost(base),
            log: Ghost(Seq::empty()),
            monos: Ghost(Seq::empty()),
            inners: Ghost(Seq::empty()),
        };
        assert(delivered(base, base) =~= Seq::<Signal<T2, E>>::empty());
        r
    }

    fn into_actual(self) -> (r: S)
        requires
            self.inv(),
        ensures
            r.inv(),
            Some(r.frame()) == self.frame().actual,
            self.base@.is_prefix_of(r.received()),
            inner_sources(self.mapper, self.log@, self.monos@, self.inners@),
            delivered(self.base@, r.received()) == flat_run(self.log@, self.inners@).0,
    {
        match self.actual {
            Some(a) => a,
            None => unreached(),
        }
    }

    /// The downstream subscriber, for a moment.
    fn take_actual(&mut self) -> (r: S)
        requires
            old(self).actual is Some,
        ensures
            r == old(self).actual->0,
            final(self).actual is None,
            final(self).mapper == old(self).mapper,
            final(self).done == old(self).done,
            final(self).completed == old(self).completed,
            final(self).started == old(self).started,
            final(self).base == old(self).base,
            final(self).log == old(self).log,
            final(self).monos == old(self).monos,
            final(self).inners == old(self).inners,
    {
        match self.actual.take() {
            Some(a) => a,
            None => unreached(),
        }
    }
}

impl<T1, T2, E, M, S, F> Subscriber for MainSubscriber<T1, T2, E, M, S, F> where
    T2: 'static + Send,
    E: 'static + Send,
    S: 'static + Send + Subscriber<Item = T2, Error = E>,
    M: Publisher<Item = T2, Error = E>,
    F: Fn(T1) -> M,
 {
    type Item = T1;

    type Error = E;

    closed spec fn received(&self) -> Seq<Signal<T1, E>> {
        self.log@
    }

    closed spec fn inv(&self) -> bool {
        &&& self.actual is Some
        &&& self.actual->0.inv()
        &&& forall|t: T1| self.mapper.requires((t,))
        &&& forall|t: T1, m: M| #[trigger]
            self.mapper.ensures((t,), m) ==> m.wf() && m.accepts(seq![REQUEST_MAX]) && m.inline()
        &&& self.base@.is_prefix_of(self.actual->0.received())
        &&& inner_sources(self.mapper, self.log@, self.monos@, self.inners@)
        &&& delivered(self.base@, self.actual->0.received()) == flat_run(
            self.log@,
            self.inners@,
        ).0
        &&& self.completed == flat_run(self.log@, self.inners@).1
        &&& self.done == flat_run(self.log@, self.inners@).2
        &&& self.started == flat_run(self.log@, self.inners@).3
    }

    closed spec fn demand(&self) -> Seq<usize> {
        seq![REQUEST_MAX]
    }

    closed spec fn frame(&self) -> Self {
        MainSubscriber {
            actual: match self.actual {
                Some(a) => Some(a.frame()),
                None => None,
            },
            mapper: self.mapper,
            done: false,
            completed: false,
            started: false,
            base: self.base,
            log: Ghost(Seq::empty()),
            monos: Ghost(Seq::empty()),
            inners: Ghost(Seq::empty()),
        }
    }

    fn on_subscribe<P: Subscription>(&mut self, subscription: &mut P) {
        subscription.request(REQUEST_MAX);
        assert(subscription.requested() =~= old(subscription).requested() + seq![REQUEST_MAX]);
        self.log = Ghost(self.log@.push(Signal::Subscribe));
        self.monos = Ghost(self.monos@.push(arbitrary()));
        self.inners = Ghost(self.inners@.push(Seq::empty()));
        proof {
            assert(self.log@.drop_last() =~= old(self).log@);
            assert(self.inners@.drop_last() =~= old(self).inners@);
            lemma_inner_sources_push(
                self.mapper,
                old(self).log@,
                old(self).monos@,
                old(self).inners@,
                Signal::Subscribe, arbitrary(), Seq::empty(),
            );
        }
    }

    /// Ends the main subscriber: completion is passed on when no inner
    /// publisher was subscribed or the inner one has completed; otherwise
    /// the flag is set, so that the inner completion is passed on.
    fn on_complete(&mut self) {
        let ghost prev = self.actual->0.received();
        if !self.done {
            self.done = true;
            if !self.started || self.completed {
                let mut a = self.take_actual();
                a.on_complete();
                self.actual = Some(a);
            } else {
                self.completed = true;
            }
        }
        self.log = Ghost(self.log@.push(Signal::Complete));
        self.monos = Ghost(self.monos@.push(arbitrary()));
        self.inners = Ghost(self.inners@.push(Seq::empty()));
        proof {
            assert(self.log@.drop_last() =~= old(self).log@);
            assert(self.inners@.drop_last() =~= old(self).inners@);
            let out = delivered(self.base@, self.actual->0.received());
            if !old(self).done && (!old(self).started || old(self).completed) {
                assert(out =~= delivered(self.base@, prev).push(Signal::Complete));
            } else {
                assert(out =~= delivered(self.base@, prev));
            }
            lemma_inner_sources_push(
                self.mapper,
                old(self).log@,
                old(self).monos@,
                old(self).inners@,
                Signal::Complete, arbitrary(), Seq::empty(),
            );
        }
    }

    fn on_next(&mut self, t: T1) {
        let ghost item = t;
        let m2 = (self.mapper)(t);
        let ghost mono = m2;
        let a = self.take_actual();
        let ghost prev = a.received();
        let inner = InnerSubscriber::new(a, self.completed);
        let finished = match m2.subscribe(inner) {
            Some(f) => f,
            None => unreached(),
        };
        assert(finished.frame() == inner.frame());
        let ghost inner_sigs = finished.received();
        assert(delivered(Seq::<Signal<T2, E>>::empty(), inner_sigs) =~= inner_sigs);
        let (a, c) = finished.into_parts();
        self.actual = Some(a);
        self.completed = c;
        self.started = true;
        self.log = Ghost(self.log@.push(Signal::Next(item)));
        self.monos = Ghost(self.monos@.push(mono));
        self.inners = Ghost(self.inners@.push(inner_sigs));
        proof {
            assert(self.log@.drop_last() =~= old(self).log@);
            assert(self.inners@.drop_last() =~= old(self).inners@);
            let out = delivered(self.base@, a.received());
            assert(out =~= delivered(self.base@, prev) + delivered(prev, a.received()));
            lemma_inner_sources_push(
                self.mapper,
                old(self).log@,
                old(self).monos@,
                old(self).inners@,
                Signal::Next(item), mono, inner_sigs,
            );
        }
    }

    fn on_error(&mut self, e: E) {
        let ghost err = e;
        let ghost prev = self.actual->0.received();
        if !self.done {
            self.done = true;
            let mut a = self.take_actual();
            a.on_error(e);
            self.actual = Some(a);
        }
        self.log = Ghost(self.log@.push(Signal::Error(err)));
        self.monos = Ghost(self.monos@.push(arbitrary()));
        self.inners = Ghost(self.inners@.push(Seq::empty()));
        proof {
            assert(self.log@.drop_last() =~= old(self).log@);
            assert(self.inners@.drop_last() =~= old(self).inners@);
            let out = delivered(self.base@, self.actual->0.received());
            if !old(self).done {
                assert(out =~= delivered(self.base@, prev).push(Signal::Error(err)));
            } else {
                assert(out =~= delivered(self.base@, prev));
            }
            lemma_inner_sources_push(
                self.mapper,
                old(self).log@,
                old(self).monos@,
                old(self).inners@,
                Signal::Error(err), arbitrary(), Seq::empty(),
            );
        }
    }
}

/// Passes an inner publisher's signals on to `actual`, sharing the
/// completion flag with the main subscriber.
struct InnerSubscriber<T, E, S> {
    actual: S,
    completed: bool,
    done: bool,
    start: Ghost<bool>,
    base: Ghost<Seq<Signal<T, E>>>,
    log: Ghost<Seq<Signal<T, E>>>,
}

impl<T, E, S> InnerSubscriber<T, E, S> where S: Subscriber<Item = T, Error = E> {
    fn new(actual: S, completed: bool) -> (r: InnerSubscriber<T, E, S>)
        requires
            actual.inv(),
        ensures
            r.inv(),
            r.received() == Seq::<Signal<T, E>>::empty(),
            r.demand() == seq![REQUEST_MAX],
            r.base@ == actual.received(),
            r.start@ == completed,
            r.frame().actual == actual.frame(),
    {
        let ghost base = actual.received();
        let r = InnerSubscriber {
            actual,
            completed,
            done: false,
            start: Ghost(completed),
            base: Ghost(base),
            log: Ghost(Seq::empty()),
        };
        assert(delivered(base, base) =~= Seq::<Signal<T, E>>::empty());
        r
    }

    /// The downstream subscriber and the completion flag.
    fn into_parts(self) -> (r: (S, bool))
        requires
            self.inv(),
        ensures
            r.0.inv(),
            r.0.frame() == self.frame().actual,
            self.base@.is_prefix_of(r.0.received()),
            delivered(self.base@, r.0.received()) == inner_run(self.start@, self.log@).0,
            r.1 == inner_run(self.start@, self.log@).1,
    {
        (self.actual, self.completed)
    }
}

impl<T, E, S> Subscriber for InnerSubscriber<T, E, S> where S: Subscriber<Item = T, Error = E> {
    type Item = T;

    type Error = E;

    closed spec fn received(&self) -> Seq<Signal<T, E>> {
        self.log@
    }

    closed spec fn inv(&self) -> bool {
        &&& self.actual.inv()
        &&& self.base@.is_prefix_of(self.actual.received())
        &&& delivered(self.base@, self.actual.received()) == inner_run(self.start@, self.log@).0
        &&& self.completed == inner_run(self.start@, self.log@).1
        &&& self.done == inner_run(self.start@, self.log@).2
    }

    closed spec fn demand(&self) -> Seq<usize> {
        seq![REQUEST_MAX]
    }

    closed spec fn frame(&self) -> Self {
        InnerSubscriber {
            actual: self.actual.frame(),
            completed: self.start@,
            done: false,
            start: self.start,
            base: self.base,
            log: Ghost(Seq::empty()),
        }
    }

    fn on_subscribe<P: Subscription>(&mut self, subscription: &mut P) {
        subscription.request(REQUEST_MAX);
        assert(subscription.requested() =~= old(subscription).requested() + seq![REQUEST_MAX]);
        self.log = Ghost(self.log@.push(Signal::Subscribe));
        assert(self.log@.drop_last() =~= old(self).log@);
    }

    /// Ends the inner subscriber: completion is passed on when the source has
    /// completed already; otherwise the flag is set, so that the source's
    /// completion is passed on.
    fn on_complete(&mut self) {
        let ghost prev = self.actual.received();
        if !self.done {
            self.done = true;
            let was_completed = self.completed;
            self.completed = true;
            if was_completed {
                self.actual.on_complete();
            }
        }
        self.log = Ghost(self.log@.push(Signal::Complete));
        proof {
            assert(self.log@.drop_last() =~= old(self).log@);
            let out = delivered(self.base@, self.actual.received());
            if !old(self).done && old(self).completed {
                assert(out =~= delivered(self.base@, prev).push(Signal::Complete));
            } else {
                assert(out =~= delivered(self.base@, prev));
            }
        }
    }

    fn on_next(&mut self, t: T) {
        let ghost prev = self.actual.received();
        self.actual.on_next(t);
        self.log = Ghost(self.log@.push(Signal::Next(t)));
        proof {
            assert(self.log@.drop_last() =~= old(self).log@);
            assert(delivered(self.base@, self.actual.received()) =~= delivered(self.base@, prev).push(
                Signal::Next(t),
            ));
        }
    }

    fn on_error(&mut self, e: E) {
        let ghost err = e;
        let ghost prev = self.actual.received();
        if !self.done {
            self.done = true;
            self.actual.on_error(e);
        }
        self.log = Ghost(self.log@.push(Signal::Error(err)));
        proof {
            assert(self.log@.drop_last() =~= old(self).log@);
            let out = delivered(self.base@, self.actual.received());
            if !old(self).done {
                assert(out =~= delivered(self.base@, prev).push(Signal::Error(err)));
            } else {
                assert(out =~= delivered(self.base@, prev));
            }
        }
    }
}

} // verus!
